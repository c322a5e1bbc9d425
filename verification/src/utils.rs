//! Names: the conversions between naming styles, the numbering of names that are
//! used more than once, and the names that CDDL itself defines.
use crate::table::Table;
use crate::text::{
    concatenated, decimal, decimal_text, is_upper, lower, same_text, to_lower, to_upper, upper,
};
use vstd::prelude::*;

verus! {

/// `s` in snake case: a hyphen becomes an underscore, `$` and `@` are left out, and
/// an upper-case letter becomes lower case, after an underscore unless it comes first.
pub open spec fn snake_case(s: Seq<char>) -> Seq<char>
    decreases s.len(),
{
    if s.len() == 0 {
        Seq::empty()
    } else {
        let before = snake_case(s.drop_last());
        let c = s.last();
        if c == '-' {
            before.push('_')
        } else if c == '$' || c == '@' {
            before
        } else if is_upper(c) {
            if before.len() == 0 {
                before.push(lower(c))
            } else {
                before.push('_').push(lower(c))
            }
        } else {
            before.push(c)
        }
    }
}

/// `s` in snake case.
pub fn convert_to_snake_case(s: &str) -> (res: String)
    ensures
        res@ == snake_case(s@),
{
    let mut out = String::new();
    for c in it: s.chars()
        invariant
            it.seq() == s@,
            out@ == snake_case(s@.take(it.index() as int)),
    {
        proof {
            assert(s@.take(it.index() + 1).drop_last() =~= s@.take(it.index() as int));
        }
        if c == '-' {
            out.push('_');
        } else if c == '$' || c == '@' {
        } else if 'A' <= c && c <= 'Z' {
            if !out.as_str().is_empty() {
                out.push('_');
            }
            out.push(to_lower(c));
        } else {
            out.push(c);
        }
    }
    proof {
        assert(s@.take(s@.len() as int) =~= s@);
    }
    out
}

/// Whether a character that follows `s` begins a word: nothing that camel case
/// keeps stands between it and the last separator or the start.
pub open spec fn begins_word(s: Seq<char>) -> bool
    decreases s.len(),
{
    if s.len() == 0 {
        true
    } else if s.last() == '_' || s.last() == '-' {
        true
    } else if s.last() == '$' || s.last() == '@' {
        begins_word(s.drop_last())
    } else {
        false
    }
}

/// `s` in camel case: underscores and hyphens separate words and are left out, as
/// are `$` and `@`, and the first letter of each word is in upper case.
pub open spec fn camel_case(s: Seq<char>) -> Seq<char>
    decreases s.len(),
{
    if s.len() == 0 {
        Seq::empty()
    } else {
        let before = camel_case(s.drop_last());
        let c = s.last();
        if c == '_' || c == '-' || c == '$' || c == '@' {
            before
        } else if begins_word(s.drop_last()) {
            before.push(upper(c))
        } else {
            before.push(c)
        }
    }
}

/// `s` in camel case.
pub fn convert_to_camel_case(s: &str) -> (res: String)
    ensures
        res@ == camel_case(s@),
{
    let mut out = String::new();
    let mut at_word_start: bool = true;
    for c in it: s.chars()
        invariant
            it.seq() == s@,
            out@ == camel_case(s@.take(it.index() as int)),
            at_word_start == begins_word(s@.take(it.index() as int)),
    {
        proof {
            assert(s@.take(it.index() + 1).drop_last() =~= s@.take(it.index() as int));
        }
        if c == '_' || c == '-' {
            at_word_start = true;
        } else if c == '$' || c == '@' {
        } else if at_word_start {
            out.push(to_upper(c));
            at_word_start = false;
        } else {
            out.push(c);
        }
    }
    proof {
        assert(s@.take(s@.len() as int) =~= s@);
    }
    out
}

/// How often a name has been used, according to a table of counts.
pub open spec fn uses(counts: Map<Seq<char>, u32>, name: Seq<char>) -> nat {
    if counts.contains_key(name) {
        counts[name] as nat
    } else {
        0
    }
}

/// What a name is called at its `k`th use: itself at the first, and itself followed
/// by the numeral of `k` from the second on.
pub open spec fn numbered(name: Seq<char>, k: nat) -> Seq<char> {
    if k <= 1 {
        name
    } else {
        name + decimal_text(k)
    }
}

/// Counts one more use of `name` and returns what it is called at that use: 2, 3, 4
/// and so on are appended from the second use on.
pub fn append_number_if_duplicate(used_names: &mut Table<u32>, name: String) -> (res: String)
    requires
        uses(old(used_names)@, name@) < u32::MAX,
    ensures
        res@ == numbered(name@, uses(old(used_names)@, name@) + 1),
        final(used_names)@ == old(used_names)@.insert(
            name@,
            (uses(old(used_names)@, name@) + 1) as u32,
        ),
{
    let count: u32 = match used_names.get(name.as_str()) {
        Some(count) => *count + 1,
        None => 1,
    };
    used_names.insert(name.clone(), count);
    if count > 1 {
        concatenated(name.as_str(), decimal(count as usize).as_str())
    } else {
        name
    }
}

/// How often `name` occurs in `names`.
pub open spec fn occurrences(names: Seq<Seq<char>>, name: Seq<char>) -> nat
    decreases names.len(),
{
    if names.len() == 0 {
        0
    } else if names.last() == name {
        occurrences(names.drop_last(), name) + 1
    } else {
        occurrences(names.drop_last(), name)
    }
}

/// What each of `names` is called when they are numbered in order.
pub open spec fn numbered_names(names: Seq<Seq<char>>) -> Seq<Seq<char>> {
    Seq::new(names.len(), |i: int| numbered(names[i], occurrences(names.take(i + 1), names[i])))
}

/// `counts` holds how often each name occurs in `names`.
pub open spec fn counts_uses(counts: Map<Seq<char>, u32>, names: Seq<Seq<char>>) -> bool {
    forall|name: Seq<char>| #[trigger] uses(counts, name) == occurrences(names, name)
}

proof fn lemma_occurrences_bounded(names: Seq<Seq<char>>, name: Seq<char>)
    ensures
        occurrences(names, name) <= names.len(),
    decreases names.len(),
{
    if names.len() > 0 {
        lemma_occurrences_bounded(names.drop_last(), name);
    }
}

/// Counting one more use of `name` keeps the counts in step with the names.
pub proof fn lemma_count_use(counts: Map<Seq<char>, u32>, names: Seq<Seq<char>>, name: Seq<char>)
    requires
        counts_uses(counts, names),
        names.len() < u32::MAX,
    ensures
        uses(counts, name) < u32::MAX,
        uses(counts, name) + 1 == occurrences(names.push(name), name),
        counts_uses(counts.insert(name, (uses(counts, name) + 1) as u32), names.push(name)),
{
    lemma_occurrences_bounded(names, name);
    assert(names.push(name).drop_last() =~= names);
    let after = counts.insert(name, (uses(counts, name) + 1) as u32);
    assert forall|n: Seq<char>| #[trigger] uses(after, n) == occurrences(names.push(name), n) by {
        assert(uses(counts, n) == occurrences(names, n));
    }
}

/// The types and values that every CDDL document can refer to: the standard prelude
/// of RFC 8610.
pub open spec fn in_standard_prelude(name: Seq<char>) -> bool {
    ||| name == "any"@
    ||| name == "uint"@
    ||| name == "nint"@
    ||| name == "int"@
    ||| name == "bstr"@
    ||| name == "bytes"@
    ||| name == "tstr"@
    ||| name == "text"@
    ||| name == "tdate"@
    ||| name == "time"@
    ||| name == "number"@
    ||| name == "biguint"@
    ||| name == "bignint"@
    ||| name == "bigint"@
    ||| name == "integer"@
    ||| name == "unsigned"@
    ||| name == "decfrac"@
    ||| name == "bigfloat"@
    ||| name == "eb64url"@
    ||| name == "eb64legacy"@
    ||| name == "eb16"@
    ||| name == "encoded-cbor"@
    ||| name == "uri"@
    ||| name == "b64url"@
    ||| name == "b64legacy"@
    ||| name == "regexp"@
    ||| name == "mime-message"@
    ||| name == "cbor-any"@
    ||| name == "float16"@
    ||| name == "float32"@
    ||| name == "float64"@
    ||| name == "float16-32"@
    ||| name == "float32-64"@
    ||| name == "float"@
    ||| name == "false"@
    ||| name == "true"@
    ||| name == "bool"@
    ||| name == "nil"@
    ||| name == "null"@
    ||| name == "undefined"@
}

/// Whether a document has to define `name` itself: it is not in the standard prelude.
pub fn is_identifier_user_defined(name: &String) -> (res: bool)
    ensures
        res == !in_standard_prelude(name@),
{
    !(same_text(name, "any") || same_text(name, "uint") || same_text(name, "nint")
        || same_text(name, "int") || same_text(name, "bstr") || same_text(name, "bytes")
        || same_text(name, "tstr") || same_text(name, "text") || same_text(name, "tdate")
        || same_text(name, "time") || same_text(name, "number") || same_text(name, "biguint")
        || same_text(name, "bignint") || same_text(name, "bigint") || same_text(name, "integer")
        || same_text(name, "unsigned") || same_text(name, "decfrac")
        || same_text(name, "bigfloat") || same_text(name, "eb64url")
        || same_text(name, "eb64legacy") || same_text(name, "eb16")
        || same_text(name, "encoded-cbor") || same_text(name, "uri")
        || same_text(name, "b64url") || same_text(name, "b64legacy")
        || same_text(name, "regexp") || same_text(name, "mime-message")
        || same_text(name, "cbor-any") || same_text(name, "float16")
        || same_text(name, "float32") || same_text(name, "float64")
        || same_text(name, "float16-32") || same_text(name, "float32-64")
        || same_text(name, "float") || same_text(name, "false") || same_text(name, "true")
        || same_text(name, "bool") || same_text(name, "nil") || same_text(name, "null")
        || same_text(name, "undefined"))
}

} // verus!
