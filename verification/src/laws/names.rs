//! What names are turned into.
use crate::ast::Identifier;
use crate::intermediate::{FixedValueView, Primitive, RustTypeView, TypesView, VariantIdentView};
use crate::laws::{lemma_decimal_digits, lemma_occurrences_at};
use crate::model::{instance_name, or_joined, table_name, variant_texts};
use crate::text::{decimal_text, is_digit, joined, lower, masked_text, signed_decimal_text, upper};
use crate::utils::{
    begins_word, camel_case, in_standard_prelude, numbered_names, occurrences, snake_case,
};
use vstd::prelude::*;

verus! {

// Letters and numerals.

/// The letters of the two cases correspond by their place in the alphabet, and no other
/// character has a case.
pub proof fn law_case_of_letters(c: char)
    ensures
        'a' <= c <= 'z' ==> 'A' <= upper(c) <= 'Z' && upper(c) as u32 - 'A' as u32 == c as u32
            - 'a' as u32,
        'A' <= c <= 'Z' ==> 'a' <= lower(c) <= 'z' && lower(c) as u32 - 'a' as u32 == c as u32
            - 'A' as u32,
        !('a' <= c <= 'z') ==> upper(c) == c,
        !('A' <= c <= 'Z') ==> lower(c) == c,
{
}

/// The number that a sequence of decimal digits denotes.
pub open spec fn numeral_value(digits: Seq<char>) -> int
    decreases digits.len(),
{
    if digits.len() == 0 {
        0
    } else {
        10 * numeral_value(digits.drop_last()) + (digits.last() as u32 - '0' as u32)
    }
}

/// The numeral of a number denotes it, and has no digit that it could do without.
pub proof fn law_numeral_denotes(n: nat)
    ensures
        numeral_value(decimal_text(n)) == n,
        decimal_text(n).len() > 0,
        decimal_text(n)[0] == '0' ==> n == 0 && decimal_text(n).len() == 1,
        forall|i: int|
            0 <= i < decimal_text(n).len() ==> '0' <= #[trigger] decimal_text(n)[i] <= '9',
    decreases n,
{
    lemma_decimal_digits(n);
    if n >= 10 {
        law_numeral_denotes(n / 10);
        lemma_decimal_digits(n / 10);
        assert(decimal_text(n).drop_last() =~= decimal_text(n / 10));
        assert(decimal_text(n)[0] == decimal_text(n / 10)[0]);
    } else {
        assert(decimal_text(n).drop_last() =~= Seq::<char>::empty());
        assert(numeral_value(Seq::<char>::empty()) == 0);
    }
    assert forall|i: int| 0 <= i < decimal_text(n).len() implies '0' <= #[trigger] decimal_text(
        n,
    )[i] <= '9' by {
        assert(is_digit(decimal_text(n)[i]));
    }
}

/// The numeral of a number below zero is that of its magnitude after a minus sign.
pub proof fn law_signed_numeral(n: nat)
    ensures
        signed_decimal_text(n as int) == decimal_text(n),
        n > 0 ==> signed_decimal_text(-n) == "-"@ + decimal_text(n),
{
    reveal_strlit("-");
    assert("-"@ =~= seq!['-']);
}

/// Masking a text hides its ASCII letters and digits, and nothing else.
pub proof fn law_masked(s: Seq<char>)
    ensures
        masked_text(s).len() == s.len(),
        forall|i: int|
            0 <= i < s.len() ==> #[trigger] masked_text(s)[i] == if 'a' <= s[i] <= 'z' || 'A'
                <= s[i] <= 'Z' || '0' <= s[i] <= '9' {
                '_'
            } else {
                s[i]
            },
{
}

// Camel case.

/// Nothing becomes nothing.
pub proof fn law_case_of_nothing()
    ensures
        camel_case(Seq::empty()) == Seq::<char>::empty(),
        snake_case(Seq::empty()) == Seq::<char>::empty(),
{
}

/// A word without separators and sockets is in camel case once its first letter is upper
/// case.
pub proof fn law_camel_case_of_word(word: Seq<char>)
    requires
        word.len() > 0,
        forall|i: int|
            0 <= i < word.len() ==> #[trigger] word[i] != '_' && word[i] != '-' && word[i] != '$'
                && word[i] != '@',
    ensures
        camel_case(word) == seq![upper(word[0])] + word.skip(1),
        !begins_word(word),
    decreases word.len(),
{
    let before = word.drop_last();
    assert(word.last() == word[word.len() - 1]);
    if before.len() > 0 {
        assert forall|i: int| 0 <= i < before.len() implies #[trigger] before[i] != '_'
            && before[i] != '-' && before[i] != '$' && before[i] != '@' by {
            assert(before[i] == word[i]);
        }
        law_camel_case_of_word(before);
        assert(word.skip(1) =~= before.skip(1).push(word.last()));
    } else {
        assert(camel_case(before) =~= Seq::empty());
        assert(word.skip(1) =~= Seq::empty());
    }
    assert(camel_case(word) =~= seq![upper(word[0])] + word.skip(1));
}

proof fn lemma_words(a: Seq<char>, separator: char, b: Seq<char>)
    requires
        separator == '_' || separator == '-',
    ensures
        camel_case(a.push(separator) + b) == camel_case(a) + camel_case(b),
        begins_word(a.push(separator) + b) == begins_word(b),
    decreases b.len(),
{
    let whole = a.push(separator) + b;
    if b.len() == 0 {
        assert(whole =~= a.push(separator));
        assert(whole.drop_last() =~= a);
        assert(camel_case(a) + camel_case(b) =~= camel_case(a));
    } else {
        lemma_words(a, separator, b.drop_last());
        assert(whole.drop_last() =~= a.push(separator) + b.drop_last());
        assert(whole.last() == b.last());
        assert(camel_case(whole) =~= camel_case(a) + camel_case(b));
    }
}

/// A name of two parts is in camel case once both parts are, without what separates them.
pub proof fn law_camel_case_of_words(a: Seq<char>, separator: char, b: Seq<char>)
    requires
        separator == '_' || separator == '-',
    ensures
        camel_case(a.push(separator) + b) == camel_case(a) + camel_case(b),
{
    lemma_words(a, separator, b);
}

proof fn lemma_sockets(a: Seq<char>, socket: char, b: Seq<char>)
    requires
        socket == '$' || socket == '@',
    ensures
        camel_case(a.push(socket) + b) == camel_case(a + b),
        begins_word(a.push(socket) + b) == begins_word(a + b),
    decreases b.len(),
{
    let whole = a.push(socket) + b;
    if b.len() == 0 {
        assert(whole =~= a.push(socket));
        assert(whole.drop_last() =~= a);
        assert(a + b =~= a);
    } else {
        lemma_sockets(a, socket, b.drop_last());
        assert(whole.drop_last() =~= a.push(socket) + b.drop_last());
        assert((a + b).drop_last() =~= a + b.drop_last());
    }
}

/// Camel case takes no notice of `$` and `@`.
pub proof fn law_camel_case_without_sockets(a: Seq<char>, socket: char, b: Seq<char>)
    requires
        socket == '$' || socket == '@',
    ensures
        camel_case(a.push(socket) + b) == camel_case(a + b),
{
    lemma_sockets(a, socket, b);
}

/// The socket in front of a name has no part in the Rust name for it.
pub proof fn law_socket_is_left_out(ident: Identifier)
    ensures
        camel_case(ident.text()) == camel_case(ident.ident@),
        ident.socket is None ==> ident.text() == ident.ident@,
        ident.socket is Some ==> ident.text().len() > ident.ident@.len(),
{
    let empty = Seq::<char>::empty();
    let name = ident.ident@;
    lemma_sockets(empty, '$', name);
    lemma_sockets(empty.push('$'), '$', name);
    assert(empty + name =~= name);
    assert(empty.push('$') + name =~= seq!['$'] + name);
    assert(empty.push('$').push('$') + name =~= seq!['$', '$'] + name);
}

proof fn lemma_digits_follow(name: Seq<char>, digits: Seq<char>)
    requires
        forall|i: int| 0 <= i < digits.len() ==> is_digit(#[trigger] digits[i]),
    ensures
        camel_case(name + digits) == camel_case(name) + digits,
    decreases digits.len(),
{
    if digits.len() == 0 {
        assert(name + digits =~= name);
        assert(camel_case(name) + digits =~= camel_case(name));
    } else {
        let before = digits.drop_last();
        assert forall|i: int| 0 <= i < before.len() implies is_digit(#[trigger] before[i]) by {
            assert(before[i] == digits[i]);
        }
        lemma_digits_follow(name, before);
        assert((name + digits).drop_last() =~= name + before);
        assert(is_digit(digits[digits.len() - 1]));
        assert(camel_case(name + digits) =~= camel_case(name) + digits);
    }
}

/// A number after a name stays as it is in camel case.
pub proof fn law_camel_case_keeps_numerals(name: Seq<char>, n: nat)
    ensures
        camel_case(name + decimal_text(n)) == camel_case(name) + decimal_text(n),
{
    lemma_decimal_digits(n);
    lemma_digits_follow(name, decimal_text(n));
}

// Snake case.

/// What becomes of a character alone.
pub proof fn law_snake_case_of_character(c: char)
    ensures
        c == '-' ==> snake_case(seq![c]) == seq!['_'],
        c == '$' || c == '@' ==> snake_case(seq![c]) == Seq::<char>::empty(),
        c != '-' && c != '$' && c != '@' ==> snake_case(seq![c]) == seq![lower(c)],
{
    assert(seq![c].drop_last() =~= Seq::<char>::empty());
    assert(snake_case(Seq::<char>::empty()) =~= Seq::<char>::empty());
}

/// A text is put in snake case part by part, with an underscore before an upper-case letter
/// that follows something.
pub proof fn law_snake_case_of_parts(a: Seq<char>, b: Seq<char>)
    requires
        b.len() > 0,
        b.len() > 1 ==> b[0] != '$' && b[0] != '@',
    ensures
        'A' <= b[0] <= 'Z' && snake_case(a).len() > 0 ==> snake_case(a + b) == snake_case(a).push(
            '_',
        ) + snake_case(b),
        !('A' <= b[0] <= 'Z' && snake_case(a).len() > 0) ==> snake_case(a + b) == snake_case(a)
            + snake_case(b),
        b[0] != '$' && b[0] != '@' ==> snake_case(b).len() > 0,
    decreases b.len(),
{
    let whole = a + b;
    let before = b.drop_last();
    assert(whole.drop_last() =~= a + before);
    assert(whole.last() == b.last());
    if before.len() == 0 {
        assert(a + before =~= a);
        law_snake_case_of_character(b[0]);
        assert(b =~= seq![b[0]]);
    } else {
        assert(before[0] == b[0]);
        law_snake_case_of_parts(a, before);
    }
    if 'A' <= b[0] <= 'Z' && snake_case(a).len() > 0 {
        assert(snake_case(whole) =~= snake_case(a).push('_') + snake_case(b));
    } else {
        assert(snake_case(whole) =~= snake_case(a) + snake_case(b));
    }
}

// Numbered names.

/// How many of the texts before the one at `i` are the same as it.
pub open spec fn earlier_uses(texts: Seq<Seq<char>>, i: int) -> nat {
    texts.take(i).to_multiset().count(texts[i])
}

/// The text as it is where no use of it came before, and followed by 2, 3, 4 and so on
/// where one, two, three and so on did.
pub open spec fn told_apart(text: Seq<char>, earlier: nat) -> Seq<char> {
    if earlier == 0 {
        text
    } else {
        text + decimal_text(earlier + 1)
    }
}

pub(crate) proof fn lemma_occurrences_counted(texts: Seq<Seq<char>>, text: Seq<char>)
    ensures
        occurrences(texts, text) == texts.to_multiset().count(text),
    decreases texts.len(),
{
    texts.to_multiset_ensures();
    if texts.len() > 0 {
        let before = texts.drop_last();
        lemma_occurrences_counted(before, text);
        before.to_multiset_ensures();
        assert(before.push(texts.last()) =~= texts);
    }
}

/// Every use of a name but the first is followed by the number of uses so far.
pub proof fn law_numbered_names(texts: Seq<Seq<char>>)
    ensures
        numbered_names(texts).len() == texts.len(),
        forall|i: int|
            0 <= i < texts.len() ==> #[trigger] numbered_names(texts)[i] == told_apart(
                texts[i],
                earlier_uses(texts, i),
            ),
{
    assert forall|i: int| 0 <= i < texts.len() implies #[trigger] numbered_names(texts)[i]
        == told_apart(texts[i], earlier_uses(texts, i)) by {
        lemma_occurrences_at(texts, i);
        lemma_occurrences_counted(texts.take(i), texts[i]);
    }
}

// The names that CDDL defines.

/// The names of the standard prelude.
pub open spec fn prelude_names() -> Seq<Seq<char>> {
    seq![
        "any"@,
        "uint"@,
        "nint"@,
        "int"@,
        "bstr"@,
        "bytes"@,
        "tstr"@,
        "text"@,
        "tdate"@,
        "time"@,
        "number"@,
        "biguint"@,
        "bignint"@,
        "bigint"@,
        "integer"@,
        "unsigned"@,
        "decfrac"@,
        "bigfloat"@,
        "eb64url"@,
        "eb64legacy"@,
        "eb16"@,
        "encoded-cbor"@,
        "uri"@,
        "b64url"@,
        "b64legacy"@,
        "regexp"@,
        "mime-message"@,
        "cbor-any"@,
        "float16"@,
        "float32"@,
        "float64"@,
        "float16-32"@,
        "float32-64"@,
        "float"@,
        "false"@,
        "true"@,
        "bool"@,
        "nil"@,
        "null"@,
        "undefined"@,
    ]
}

/// Exactly these names need no definition in a document.
pub proof fn law_prelude_names(name: Seq<char>)
    ensures
        in_standard_prelude(name) <==> prelude_names().contains(name),
{
    let names = prelude_names();
    assert(names[0] == "any"@);
    assert(names[1] == "uint"@);
    assert(names[2] == "nint"@);
    assert(names[3] == "int"@);
    assert(names[4] == "bstr"@);
    assert(names[5] == "bytes"@);
    assert(names[6] == "tstr"@);
    assert(names[7] == "text"@);
    assert(names[8] == "tdate"@);
    assert(names[9] == "time"@);
    assert(names[10] == "number"@);
    assert(names[11] == "biguint"@);
    assert(names[12] == "bignint"@);
    assert(names[13] == "bigint"@);
    assert(names[14] == "integer"@);
    assert(names[15] == "unsigned"@);
    assert(names[16] == "decfrac"@);
    assert(names[17] == "bigfloat"@);
    assert(names[18] == "eb64url"@);
    assert(names[19] == "eb64legacy"@);
    assert(names[20] == "eb16"@);
    assert(names[21] == "encoded-cbor"@);
    assert(names[22] == "uri"@);
    assert(names[23] == "b64url"@);
    assert(names[24] == "b64legacy"@);
    assert(names[25] == "regexp"@);
    assert(names[26] == "mime-message"@);
    assert(names[27] == "cbor-any"@);
    assert(names[28] == "float16"@);
    assert(names[29] == "float32"@);
    assert(names[30] == "float64"@);
    assert(names[31] == "float16-32"@);
    assert(names[32] == "float32-64"@);
    assert(names[33] == "float"@);
    assert(names[34] == "false"@);
    assert(names[35] == "true"@);
    assert(names[36] == "bool"@);
    assert(names[37] == "nil"@);
    assert(names[38] == "null"@);
    assert(names[39] == "undefined"@);
}

/// What the names of the prelude stand for that have a type or a value of their own. No
/// definition changes it.
pub proof fn law_prelude_types(types: TypesView)
    ensures
        types.new_type("uint"@) == RustTypeView::Primitive(Primitive::U64),
        types.new_type("nint"@) == RustTypeView::Primitive(Primitive::N64),
        types.new_type("bool"@) == RustTypeView::Primitive(Primitive::Bool),
        types.new_type("tstr"@) == RustTypeView::Primitive(Primitive::Str),
        types.new_type("text"@) == RustTypeView::Primitive(Primitive::Str),
        types.new_type("bstr"@) == RustTypeView::Primitive(Primitive::Bytes),
        types.new_type("bytes"@) == RustTypeView::Primitive(Primitive::Bytes),
        types.new_type("true"@) == RustTypeView::Fixed(FixedValueView::Bool(true)),
        types.new_type("false"@) == RustTypeView::Fixed(FixedValueView::Bool(false)),
        types.new_type("null"@) == RustTypeView::Fixed(FixedValueView::Null),
        types.new_type("nil"@) == RustTypeView::Fixed(FixedValueView::Null),
{
    reveal_strlit("uint");
    reveal_strlit("nint");
    reveal_strlit("bool");
    reveal_strlit("tstr");
    reveal_strlit("text");
    reveal_strlit("bstr");
    reveal_strlit("bytes");
    reveal_strlit("true");
    reveal_strlit("false");
    reveal_strlit("null");
    reveal_strlit("nil");
    assert("uint"@[0] != "nint"@[0]);
    assert("uint"@[0] != "bool"@[0]);
    assert("nint"@[0] != "bool"@[0]);
    assert("uint"@[0] != "tstr"@[0]);
    assert("nint"@[0] != "tstr"@[0]);
    assert("bool"@[0] != "tstr"@[0]);
    assert("uint"@[0] != "text"@[0]);
    assert("nint"@[0] != "text"@[0]);
    assert("bool"@[0] != "text"@[0]);
    assert("tstr"@[1] != "text"@[1]);
    assert("uint"@[0] != "bstr"@[0]);
    assert("nint"@[0] != "bstr"@[0]);
    assert("bool"@[1] != "bstr"@[1]);
    assert("tstr"@[0] != "bstr"@[0]);
    assert("text"@[0] != "bstr"@[0]);
    assert("uint"@[0] != "true"@[0]);
    assert("nint"@[0] != "true"@[0]);
    assert("bool"@[0] != "true"@[0]);
    assert("tstr"@[1] != "true"@[1]);
    assert("text"@[1] != "true"@[1]);
    assert("bstr"@[0] != "true"@[0]);
    assert("bytes"@[0] != "false"@[0]);
    assert("uint"@[0] != "null"@[0]);
    assert("nint"@[1] != "null"@[1]);
    assert("bool"@[0] != "null"@[0]);
    assert("tstr"@[0] != "null"@[0]);
    assert("text"@[0] != "null"@[0]);
    assert("bstr"@[0] != "null"@[0]);
    assert("true"@[0] != "null"@[0]);
}

/// Whether a name of the prelude has a type or a value of its own.
pub open spec fn is_predefined(name: Seq<char>) -> bool {
    ||| name == "uint"@
    ||| name == "nint"@
    ||| name == "bool"@
    ||| name == "tstr"@
    ||| name == "text"@
    ||| name == "bstr"@
    ||| name == "bytes"@
    ||| name == "true"@
    ||| name == "false"@
    ||| name == "null"@
    ||| name == "nil"@
}

/// Any other name stands for the type of that name, unless it is one of the document's and
/// an alias: then it stands for the alias, or for what that is an alias of where the alias
/// does not appear in the generated code.
pub proof fn law_other_names(types: TypesView, raw: Seq<char>)
    requires
        !is_predefined(raw),
    ensures
        ({
            let ident = camel_case(raw);
            let alias = types.type_aliases[ident];
            if types.type_aliases.contains_key(ident) && !prelude_names().contains(raw) {
                if alias.generate {
                    types.new_type(raw) == RustTypeView::Alias(ident, Box::new(alias.base_type))
                } else {
                    types.new_type(raw) == alias.base_type
                }
            } else {
                types.new_type(raw) == RustTypeView::Rust(ident)
            }
        }),
{
    law_prelude_names(raw);
}

// The names of types made of others.

/// What the types are called in the name of a variant that holds one.
pub proof fn law_variant_texts(a: RustTypeView, b: RustTypeView, ident: Seq<char>, tag: usize)
    ensures
        RustTypeView::Primitive(Primitive::Bool).variant_text() == "Bool"@,
        RustTypeView::Primitive(Primitive::U64).variant_text() == "U64"@,
        RustTypeView::Primitive(Primitive::N64).variant_text() == "N64"@,
        RustTypeView::Primitive(Primitive::Str).variant_text() == "String"@,
        RustTypeView::Primitive(Primitive::Bytes).variant_text() == "Bytes"@,
        RustTypeView::Rust(ident).variant_text() == ident,
        RustTypeView::Alias(ident, Box::new(a)).variant_text() == ident,
        RustTypeView::Tagged(tag, Box::new(a)).variant_text() == a.variant_text(),
        RustTypeView::Optional(Box::new(a)).variant_text() == "Opt"@ + a.variant_text(),
        RustTypeView::Array(Box::new(a)).variant_text() == "Arr"@ + a.variant_text(),
        RustTypeView::Mapping(Box::new(a), Box::new(b)).variant_text() == "Map"@
            + a.variant_text() + "To"@ + b.variant_text(),
        a.array_text() == a.variant_text() + "s"@,
{
}

/// Whether the variant for a type is named after a type of the document, or has a name of
/// its own.
pub proof fn law_kinds_of_variants(t: RustTypeView)
    ensures
        match t {
            RustTypeView::Rust(ident) => t.variant_ident() == VariantIdentView::Rust(ident),
            RustTypeView::Alias(ident, _) => t.variant_ident() == VariantIdentView::Rust(ident),
            RustTypeView::Tagged(_, inner) => t.variant_ident() == inner.variant_ident(),
            _ => t.variant_ident() == VariantIdentView::Custom(t.variant_text()),
        },
        forall|name: Seq<char>| #[trigger] VariantIdentView::Custom(name).text() == name,
        forall|name: Seq<char>| #[trigger] VariantIdentView::Rust(name).text() == name,
{
}

/// What the types are called in the name of a table of them.
pub proof fn law_member_texts(a: RustTypeView, b: RustTypeView, ident: Seq<char>, tag: usize)
    ensures
        RustTypeView::Primitive(Primitive::Bool).member_text() == "bool"@,
        RustTypeView::Primitive(Primitive::U64).member_text() == "u64"@,
        RustTypeView::Primitive(Primitive::N64).member_text() == "n64"@,
        RustTypeView::Primitive(Primitive::Str).member_text() == "String"@,
        RustTypeView::Primitive(Primitive::Bytes).member_text() == "Bytes"@,
        RustTypeView::Rust(ident).member_text() == ident,
        RustTypeView::Alias(ident, Box::new(a)).member_text() == ident,
        RustTypeView::Tagged(tag, Box::new(a)).member_text() == a.member_text(),
        RustTypeView::Optional(Box::new(a)).member_text() == "Opt"@ + a.member_text(),
        RustTypeView::Array(Box::new(a)).member_text() == a.array_text(),
        RustTypeView::Mapping(Box::new(a), Box::new(b)).member_text() == table_name(a, b),
        table_name(a, b) == "Map"@ + a.member_text() + "To"@ + b.member_text(),
{
}

/// A value is called the same wherever it takes part in a name: by its sign and numeral, by
/// its text in camel case, or by its own name.
pub proof fn law_texts_of_values(u: usize, i: isize, text: Seq<char>)
    ensures
        FixedValueView::Null.variant_text() == "Null"@,
        FixedValueView::Bool(true).variant_text() == "True"@,
        FixedValueView::Bool(false).variant_text() == "False"@,
        FixedValueView::Uint(u).variant_text() == "U"@ + decimal_text(u as nat),
        i >= 0 ==> FixedValueView::Int(i).variant_text() == "I"@ + decimal_text(i as nat),
        i < 0 ==> FixedValueView::Int(i).variant_text() == "Neg"@ + decimal_text(-i as nat),
        FixedValueView::Text(text).variant_text() == camel_case(text),
        forall|value: FixedValueView| #[trigger]
            RustTypeView::Fixed(value).variant_text() == value.variant_text(),
        forall|value: FixedValueView| #[trigger]
            RustTypeView::Fixed(value).member_text() == value.variant_text(),
{
}

/// The texts of types in turn.
pub proof fn law_texts_in_turn(types: Seq<RustTypeView>)
    ensures
        variant_texts(types).len() == types.len(),
        forall|i: int|
            0 <= i < types.len() ==> #[trigger] variant_texts(types)[i]
                == types[i].variant_text(),
{
}

/// An instance without a name of its own is called as the generic type and its arguments,
/// with underscores between.
pub proof fn law_instance_names(
    generic: Seq<char>,
    first: RustTypeView,
    args: Seq<RustTypeView>,
    last: RustTypeView,
)
    ensures
        instance_name(generic, Seq::empty()) == generic + "_"@,
        instance_name(generic, seq![first]) == generic + "_"@ + first.variant_text(),
        args.len() > 0 ==> instance_name(generic, args.push(last)) == instance_name(generic, args)
            + "_"@ + last.variant_text(),
{
    assert(variant_texts(args.push(last)).drop_last() =~= variant_texts(args));
    assert(variant_texts(args.push(last)).last() == last.variant_text());
    assert(generic + "_"@ + Seq::<char>::empty() =~= generic + "_"@);
    assert(variant_texts(seq![first])[0] == first.variant_text());
    if args.len() > 0 {
        let before = joined(variant_texts(args), "_"@);
        assert(joined(variant_texts(args.push(last)), "_"@) == before + "_"@
            + last.variant_text());
        assert(instance_name(generic, args.push(last)) =~= instance_name(generic, args) + "_"@
            + last.variant_text());
    }
}

/// An enum without a name of its own is called as its types, with `Or` between.
pub proof fn law_names_of_choices(texts: Seq<Seq<char>>, text: Seq<char>)
    ensures
        or_joined(seq![text]) == text,
        or_joined(texts) == Seq::<char>::empty() ==> or_joined(texts.push(text)) == text,
        or_joined(texts) != Seq::<char>::empty() ==> or_joined(texts.push(text)) == or_joined(texts)
            + "Or"@ + text,
        or_joined(Seq::empty()) == Seq::<char>::empty(),
{
    assert(texts.push(text).drop_last() =~= texts);
    assert(seq![text].drop_last() =~= Seq::<Seq<char>>::empty());
    assert(or_joined(Seq::<Seq<char>>::empty()) =~= Seq::<char>::empty());
    if or_joined(texts).len() == 0 {
        assert(or_joined(texts) =~= Seq::<char>::empty());
    }
}

} // verus!
