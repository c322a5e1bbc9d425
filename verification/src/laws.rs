//! What holds of the types of a document as a whole.
//!
//! - [`rules`], [`groups`] and [`choices`] say what is defined for each kind of rule, in terms
//!   of what the document writes, and [`members`] what the types inside of a definition are.
//! - [`names`] says what becomes of names, [`tables`] what is found of what was added, and
//!   [`support`] which of the syntax has a representation.
use crate::ast::{
    Group, GroupChoice, GroupEntry, MemberKey, RangeCtlOp, Rule, Type, Type1, Type2, TypeRule,
};
use crate::intermediate::{
    FixedValueView, GenericInstanceView, MinMax, Primitive, Representation, RustStructTypeView,
    RustTypeView, TypesView, VariantIdentView,
};
use crate::model::{
    alternative_ident, alternative_supported, alternatives_meaning, choice_variants,
    choices_meaning, element_supported, entries_meaning, entry_name, entry_names,
    entry_type_meaning, entry_type_supported, field_supported, group_choice_meaning,
    group_choice_supported, group_defined, group_supported, instance_name, is_null, is_table,
    number_literal, optional_defined, or_joined, range_bounds, range_supported, record_of,
    referred_from, rule_defined, rule_params, rule_supported, table_name, table_supported,
    table_types, type1_defined, type1_supported, type2_meaning, type2_supported,
    type_choices_defined, type_choices_supported, type_field_name, type_meaning, type_supported,
    unaliased, variant_texts,
};
use crate::text::{decimal_text, digit, is_digit, is_lower, is_upper, lower};
use crate::utils::{
    begins_word, camel_case, in_standard_prelude, numbered, numbered_names,
    occurrences, snake_case,
};
use vstd::prelude::*;

pub mod choices;
pub mod groups;
pub mod members;
pub mod names;
pub mod rules;
pub mod support;
pub mod tables;

verus! {

// Numerals and numbered names.

/// A numeral consists of at least one digit, and of nothing else.
proof fn lemma_decimal_digits(n: nat)
    ensures
        decimal_text(n).len() > 0,
        n >= 10 ==> decimal_text(n).len() > 1,
        forall|i: int| 0 <= i < decimal_text(n).len() ==> is_digit(#[trigger] decimal_text(n)[i]),
    decreases n,
{
    if n >= 10 {
        lemma_decimal_digits(n / 10);
    }
}

/// Different numbers have different numerals.
pub proof fn law_numerals_differ(a: nat, b: nat)
    requires
        a != b,
    ensures
        decimal_text(a) != decimal_text(b),
    decreases a,
{
    lemma_decimal_digits(a);
    lemma_decimal_digits(b);
    if a < 10 && b < 10 {
        assert(decimal_text(a)[0] == digit(a));
        assert(decimal_text(b)[0] == digit(b));
    } else if a >= 10 && b >= 10 {
        assert(decimal_text(a).last() == digit(a % 10));
        assert(decimal_text(b).last() == digit(b % 10));
        if a / 10 != b / 10 {
            law_numerals_differ(a / 10, b / 10);
            assert(decimal_text(a).drop_last() =~= decimal_text(a / 10));
            assert(decimal_text(b).drop_last() =~= decimal_text(b / 10));
        }
    }
}

/// A name is called differently at each of its uses.
pub proof fn law_uses_differ(name: Seq<char>, a: nat, b: nat)
    requires
        1 <= a < b,
    ensures
        numbered(name, a) != numbered(name, b),
{
    lemma_decimal_digits(b);
    law_numerals_differ(a, b);
    let x = numbered(name, a);
    let y = numbered(name, b);
    if x == y {
        assert(y.skip(name.len() as int) =~= decimal_text(b));
        if a > 1 {
            assert(x.skip(name.len() as int) =~= decimal_text(a));
        } else {
            assert(x.len() == name.len());
        }
    }
}

proof fn lemma_occurrences_grow(names: Seq<Seq<char>>, name: Seq<char>, i: int, j: int)
    requires
        0 <= i <= j <= names.len(),
    ensures
        occurrences(names.take(i), name) <= occurrences(names.take(j), name),
    decreases j - i,
{
    if i < j {
        lemma_occurrences_grow(names, name, i, j - 1);
        assert(names.take(j).drop_last() =~= names.take(j - 1));
    }
}

proof fn lemma_occurrences_at(names: Seq<Seq<char>>, i: int)
    requires
        0 <= i < names.len(),
    ensures
        1 <= occurrences(names.take(i + 1), names[i]) <= occurrences(names, names[i]),
        occurrences(names.take(i + 1), names[i]) == occurrences(names.take(i), names[i]) + 1,
{
    assert(names.take(i + 1).drop_last() =~= names.take(i));
    lemma_occurrences_grow(names, names[i], i + 1, names.len() as int);
    assert(names.take(names.len() as int) =~= names);
}

/// The `k`th use of a name has a position.
proof fn lemma_position_of_use(names: Seq<Seq<char>>, name: Seq<char>, k: nat) -> (i: int)
    requires
        1 <= k <= occurrences(names, name),
    ensures
        0 <= i < names.len(),
        names[i] == name,
        occurrences(names.take(i + 1), name) == k,
    decreases names.len(),
{
    let n = names.len() as int;
    if names.last() == name && occurrences(names.drop_last(), name) + 1 == k {
        assert(names.take(n) =~= names);
        n - 1
    } else {
        let i = lemma_position_of_use(names.drop_last(), name, k);
        assert(names.drop_last().take(i + 1) =~= names.take(i + 1));
        i
    }
}

/// No two of the texts are equal.
pub open spec fn distinct(texts: Seq<Seq<char>>) -> bool {
    forall|i: int, j: int| 0 <= i < j < texts.len() ==> #[trigger] texts[i] != #[trigger] texts[j]
}

/// What a name is called at one of its uses is what another name is called at one of its.
pub open spec fn names_clash(
    names: Seq<Seq<char>>,
    p: Seq<char>,
    a: nat,
    q: Seq<char>,
    b: nat,
) -> bool {
    &&& p != q
    &&& 1 <= a <= occurrences(names, p)
    &&& 1 <= b <= occurrences(names, q)
    &&& numbered(p, a) == numbered(q, b)
}

/// Numbering gives every use of every name a text of its own, unless a name with one of
/// its numerals is another name, with or without one of its.
pub proof fn law_numbered_names_distinct(names: Seq<Seq<char>>)
    ensures
        distinct(numbered_names(names)) <==> forall|
            p: Seq<char>,
            a: nat,
            q: Seq<char>,
            b: nat,
        | !#[trigger] names_clash(names, p, a, q, b),
{
    let texts = numbered_names(names);
    if !distinct(texts) {
        let (i, j) = choose|i: int, j: int|
            0 <= i < j < texts.len() && #[trigger] texts[i] == #[trigger] texts[j];
        let a = occurrences(names.take(i + 1), names[i]);
        let b = occurrences(names.take(j + 1), names[j]);
        lemma_occurrences_at(names, i);
        lemma_occurrences_at(names, j);
        if names[i] == names[j] {
            lemma_occurrences_grow(names, names[i], i + 1, j);
            law_uses_differ(names[i], a, b);
        }
        assert(names_clash(names, names[i], a, names[j], b));
    }
    if exists|p: Seq<char>, a: nat, q: Seq<char>, b: nat| #[trigger]
        names_clash(names, p, a, q, b) {
        let (p, a, q, b) = choose|p: Seq<char>, a: nat, q: Seq<char>, b: nat| #[trigger]
            names_clash(names, p, a, q, b);
        let i = lemma_position_of_use(names, p, a);
        let j = lemma_position_of_use(names, q, b);
        assert(texts[i] == texts[j]);
    }
}

/// `longer` is `shorter` followed by one or more digits.
pub open spec fn extended_by_digits(longer: Seq<char>, shorter: Seq<char>) -> bool {
    &&& shorter.len() < longer.len()
    &&& longer.take(shorter.len() as int) == shorter
    &&& forall|k: int| shorter.len() <= k < longer.len() ==> is_digit(#[trigger] longer[k])
}

proof fn lemma_clash_extends(p: Seq<char>, a: nat, q: Seq<char>, b: nat)
    requires
        p != q,
        p.len() >= q.len(),
        numbered(p, a) == numbered(q, b),
    ensures
        extended_by_digits(p, q),
{
    let x = numbered(p, a);
    let y = numbered(q, b);
    lemma_decimal_digits(b);
    assert(x.take(p.len() as int) =~= p);
    assert(y.take(q.len() as int) =~= q);
    if p.len() == q.len() {
        assert(p == q);
    } else {
        assert(p.take(q.len() as int) =~= q) by {
            assert forall|k: int| 0 <= k < q.len() implies p[k] == q[k] by {
                assert(x[k] == p[k]);
                assert(y[k] == q[k]);
            }
        }
        assert forall|k: int| q.len() <= k < p.len() implies is_digit(#[trigger] p[k]) by {
            assert(x[k] == p[k]);
            assert(y[k] == decimal_text(b)[k - q.len()]);
        }
    }
}

/// No text is another one followed by digits.
pub open spec fn none_extended_by_digits(names: Seq<Seq<char>>) -> bool {
    forall|i: int, j: int|
        0 <= i < names.len() && 0 <= j < names.len() ==> !extended_by_digits(
            #[trigger] names[i],
            #[trigger] names[j],
        )
}

/// Names are told apart by numbering them, if none is another one followed by digits.
pub proof fn law_numbering_tells_apart(names: Seq<Seq<char>>)
    requires
        none_extended_by_digits(names),
    ensures
        distinct(numbered_names(names)),
{
    assert forall|p: Seq<char>, a: nat, q: Seq<char>, b: nat| !#[trigger] names_clash(
        names,
        p,
        a,
        q,
        b,
    ) by {
        if names_clash(names, p, a, q, b) {
            let i = lemma_position_of_use(names, p, a);
            let j = lemma_position_of_use(names, q, b);
            if p.len() >= q.len() {
                lemma_clash_extends(p, a, q, b);
                assert(extended_by_digits(names[i], names[j]));
            } else {
                lemma_clash_extends(q, b, p, a);
                assert(extended_by_digits(names[j], names[i]));
            }
        }
    }
    law_numbered_names_distinct(names);
}

/// The fields of a record have different names exactly where the names they are numbered
/// from do not clash.
pub proof fn law_field_names_distinct(
    entries: Seq<GroupEntry>,
    rep: Representation,
    types: Seq<RustTypeView>,
)
    ensures
        (forall|i: int, j: int|
            0 <= i < j < entries.len() ==> #[trigger] record_of(entries, rep, types).fields[i].name
                != #[trigger] record_of(entries, rep, types).fields[j].name) <==> (forall|
            p: Seq<char>,
            a: nat,
            q: Seq<char>,
            b: nat,
        | !#[trigger] names_clash(entry_names(entries), p, a, q, b)),
{
    let texts = numbered_names(entry_names(entries));
    let fields = record_of(entries, rep, types).fields;
    law_numbered_names_distinct(entry_names(entries));
    assert(forall|i: int| 0 <= i < entries.len() ==> (#[trigger] fields[i]).name == texts[i]);
    assert(forall|i: int| 0 <= i < entries.len() ==> #[trigger] texts[i] == fields[i].name);
}

/// The variants of an enum over types have different names exactly where the names they
/// are numbered from do not clash.
pub proof fn law_variant_names_distinct(types: Seq<RustTypeView>)
    ensures
        (forall|i: int, j: int|
            0 <= i < j < types.len() ==> #[trigger] choice_variants(types)[i].name
                != #[trigger] choice_variants(types)[j].name) <==> (forall|
            p: Seq<char>,
            a: nat,
            q: Seq<char>,
            b: nat,
        | !#[trigger] names_clash(variant_texts(types), p, a, q, b)),
{
    let texts = numbered_names(variant_texts(types));
    let variants = choice_variants(types);
    law_numbered_names_distinct(variant_texts(types));
    assert(forall|i: int|
        0 <= i < types.len() ==> (#[trigger] variants[i]).name == VariantIdentView::Custom(
            texts[i],
        ));
    assert(forall|i: int|
        0 <= i < types.len() ==> VariantIdentView::Custom(#[trigger] texts[i])
            == variants[i].name);
}

// Naming styles.

/// A character that snake case does not use.
pub open spec fn foreign_to_snake_case(c: char) -> bool {
    is_upper(c) || c == '-' || c == '$' || c == '@'
}

/// A name in snake case has no upper-case letter, no hyphen and no socket.
pub proof fn law_snake_case(s: Seq<char>)
    ensures
        forall|i: int|
            0 <= i < snake_case(s).len() ==> !foreign_to_snake_case(#[trigger] snake_case(s)[i]),
    decreases s.len(),
{
    if s.len() > 0 {
        law_snake_case(s.drop_last());
        let before = snake_case(s.drop_last());
        assert(is_upper(s.last()) ==> !foreign_to_snake_case(lower(s.last())));
        assert forall|i: int| 0 <= i < snake_case(s).len() implies !foreign_to_snake_case(
            #[trigger] snake_case(s)[i],
        ) by {
            if i < before.len() {
                assert(snake_case(s)[i] == before[i]);
            }
        }
    }
}

/// The fields of a record have their names in snake case.
pub proof fn law_field_names_in_snake_case(
    entries: Seq<GroupEntry>,
    rep: Representation,
    types: Seq<RustTypeView>,
    i: int,
    k: int,
)
    requires
        0 <= i < entries.len(),
        0 <= k < record_of(entries, rep, types).fields[i].name.len(),
    ensures
        !foreign_to_snake_case(record_of(entries, rep, types).fields[i].name[k]),
{
    let names = entry_names(entries);
    let count = occurrences(names.take(i + 1), names[i]);
    law_snake_case(entry_name(entries[i], i as nat));
    lemma_decimal_digits(count);
    assert(record_of(entries, rep, types).fields[i].name == numbered(names[i], count));
    if k >= names[i].len() {
        assert(is_digit(decimal_text(count)[k - names[i].len()]));
    } else {
        assert(numbered(names[i], count)[k] == names[i][k]);
    }
}

/// A character that camel case does not use.
pub open spec fn foreign_to_camel_case(c: char) -> bool {
    c == '_' || c == '-' || c == '$' || c == '@'
}

/// Whether a name is in camel case already.
pub open spec fn is_camel_case(s: Seq<char>) -> bool {
    &&& forall|i: int| 0 <= i < s.len() ==> !foreign_to_camel_case(#[trigger] s[i])
    &&& s.len() > 0 ==> !is_lower(s[0])
}

proof fn lemma_camel_case_start(s: Seq<char>)
    ensures
        camel_case(s).len() == 0 ==> begins_word(s),
    decreases s.len(),
{
    if s.len() > 0 {
        lemma_camel_case_start(s.drop_last());
    }
}

/// Converting a name to camel case puts it in camel case.
pub proof fn law_camel_case(s: Seq<char>)
    ensures
        is_camel_case(camel_case(s)),
    decreases s.len(),
{
    if s.len() > 0 {
        law_camel_case(s.drop_last());
        lemma_camel_case_start(s.drop_last());
    }
}

/// A name that is in camel case already stays as it is.
pub proof fn law_camel_case_keeps(s: Seq<char>)
    requires
        is_camel_case(s),
    ensures
        camel_case(s) == s,
        s.len() > 0 ==> !begins_word(s),
    decreases s.len(),
{
    if s.len() > 0 {
        let before = s.drop_last();
        assert forall|i: int| 0 <= i < before.len() implies !foreign_to_camel_case(
            #[trigger] before[i],
        ) by {
            assert(before[i] == s[i]);
        }
        law_camel_case_keeps(before);
        assert(!foreign_to_camel_case(s[s.len() - 1]));
        assert(before.push(s.last()) =~= s);
    }
}

/// The type for a choice of a group is called as the group, followed by the position of
/// the choice.
pub proof fn law_choice_idents(raw: Seq<char>, index: nat)
    ensures
        alternative_ident(camel_case(raw), index) == camel_case(raw) + decimal_text(index),
{
    let name = camel_case(raw);
    let ident = name + decimal_text(index);
    law_camel_case(raw);
    lemma_decimal_digits(index);
    assert forall|i: int| 0 <= i < ident.len() implies !foreign_to_camel_case(
        #[trigger] ident[i],
    ) by {
        if i >= name.len() {
            assert(is_digit(decimal_text(index)[i - name.len()]));
        }
    }
    if name.len() == 0 {
        assert(ident[0] == decimal_text(index)[0]);
    }
    law_camel_case_keeps(ident);
}

/// The types for different choices of a group are called differently.
pub proof fn law_choice_idents_differ(raw: Seq<char>, i: nat, j: nat)
    requires
        i != j,
    ensures
        alternative_ident(camel_case(raw), i) != alternative_ident(camel_case(raw), j),
{
    law_choice_idents(raw, i);
    law_choice_idents(raw, j);
    law_numerals_differ(i, j);
    let name = camel_case(raw);
    assert((name + decimal_text(i)).skip(name.len() as int) =~= decimal_text(i));
    assert((name + decimal_text(j)).skip(name.len() as int) =~= decimal_text(j));
}

// Optional types.

/// `T / null` and `null / T` are both represented by an optional `T`.
pub proof fn law_optional_type(types: TypesView, t: Type1, null: Type1, a: Type, b: Type)
    requires
        is_null(null.type2),
        !is_null(t.type2),
        a.type_choices@ == seq![t, null],
        b.type_choices@ == seq![null, t],
    ensures
        type_meaning(types, a) == type_meaning(types, b),
        type_meaning(types, a) == (
            RustTypeView::Optional(Box::new(type2_meaning(types, t.type2).0)),
            type2_meaning(types, t.type2).1,
        ),
        type_supported(a) == type2_supported(t.type2),
        type_supported(b) == type2_supported(t.type2),
{
}

/// A rule for `T / null` defines the same as one for `null / T`.
pub proof fn law_optional_rule(
    types: TypesView,
    name: Seq<char>,
    t: Type1,
    null: Type1,
    tag: Option<usize>,
    params: Option<Seq<Seq<char>>>,
)
    requires
        is_null(null.type2),
        !is_null(t.type2),
    ensures
        type_choices_defined(types, name, seq![t, null], tag, params) == type_choices_defined(
            types,
            name,
            seq![null, t],
            tag,
            params,
        ),
        type_choices_defined(types, name, seq![t, null], tag, params) == optional_defined(
            types,
            name,
            t.type2,
            tag,
        ),
{
}

/// A field of type `T / null` or `null / T` takes the name from its type that a field of
/// type `T` takes.
pub proof fn law_optional_field_name(t: Type1, null: Type1, alone: Type, a: Type, b: Type)
    requires
        is_null(null.type2),
        !is_null(t.type2),
        alone.type_choices@ == seq![t],
        a.type_choices@ == seq![t, null],
        b.type_choices@ == seq![null, t],
    ensures
        type_field_name(a) == type_field_name(alone),
        type_field_name(b) == type_field_name(alone),
{
}

// Bounds.

/// Whether a number is within bounds.
pub open spec fn admits(bounds: MinMax, v: int) -> bool {
    &&& bounds.0 matches Some(min) ==> min <= v
    &&& bounds.1 matches Some(max) ==> v <= max
}

/// The bounds of a comparison admit the numbers that compare so.
pub proof fn law_bounds_of_comparison(ctrl: String, t: Type2, v: int)
    requires
        range_supported((RangeCtlOp::CtlOp { ctrl }, t)),
    ensures
        ({
            let bounds = range_bounds((RangeCtlOp::CtlOp { ctrl }, t));
            let n = number_literal(t);
            &&& ctrl@ == ".eq"@ ==> (admits(bounds, v) <==> v == n)
            &&& ctrl@ == ".le"@ ==> (admits(bounds, v) <==> v <= n)
            &&& ctrl@ == ".lt"@ ==> (admits(bounds, v) <==> v < n)
            &&& ctrl@ == ".ge"@ ==> (admits(bounds, v) <==> v >= n)
            &&& ctrl@ == ".gt"@ ==> (admits(bounds, v) <==> v > n)
        }),
{
    reveal_strlit(".eq");
    reveal_strlit(".ne");
    reveal_strlit(".le");
    reveal_strlit(".lt");
    reveal_strlit(".ge");
    reveal_strlit(".gt");
    assert(".le"@[1] != ".eq"@[1]);
    assert(".le"@[1] != ".ne"@[1]);
    assert(".lt"@[1] != ".eq"@[1]);
    assert(".lt"@[1] != ".ne"@[1]);
    assert(".lt"@[2] != ".le"@[2]);
    assert(".ge"@[1] != ".eq"@[1]);
    assert(".ge"@[1] != ".ne"@[1]);
    assert(".ge"@[1] != ".le"@[1]);
    assert(".ge"@[1] != ".lt"@[1]);
    assert(".gt"@[1] != ".eq"@[1]);
    assert(".gt"@[1] != ".ne"@[1]);
    assert(".gt"@[1] != ".le"@[1]);
    assert(".gt"@[1] != ".lt"@[1]);
    assert(".gt"@[2] != ".ge"@[2]);
}

/// The bounds of `.ne` admit no number: every number but the excluded one is within one
/// of them, and none within both.
pub proof fn law_bounds_of_exclusion(ctrl: String, t: Type2, v: int)
    requires
        ctrl@ == ".ne"@,
        range_supported((RangeCtlOp::CtlOp { ctrl }, t)),
    ensures
        ({
            let bounds = range_bounds((RangeCtlOp::CtlOp { ctrl }, t));
            &&& !admits(bounds, v)
            &&& bounds matches (Some(min), Some(max)) && (v != number_literal(t) <==> (min <= v || v
                <= max))
        }),
{
    reveal_strlit(".eq");
    reveal_strlit(".ne");
    assert(".ne"@[1] != ".eq"@[1]);
}

/// The bounds of `.size` for a range with its upper end admit the numbers in the range.
pub proof fn law_bounds_of_size(ctrl: String, t: Type2, v: int)
    requires
        ctrl@ == ".size"@,
        range_supported((RangeCtlOp::CtlOp { ctrl }, t)),
        t matches Type2::ParenthesizedType { pt } ==> !(pt.type_choices@[0].operator matches Some(
            (RangeCtlOp::RangeOp { is_inclusive: false }, _),
        )),
    ensures
        ({
            let bounds = range_bounds((RangeCtlOp::CtlOp { ctrl }, t));
            match t {
                Type2::ParenthesizedType { pt } => match pt.type_choices@[0].operator {
                    Some((_, upper)) => admits(bounds, v) <==> number_literal(
                        pt.type_choices@[0].type2,
                    ) <= v <= number_literal(upper),
                    None => admits(bounds, v) <==> v == number_literal(pt.type_choices@[0].type2),
                },
                _ => admits(bounds, v) <==> v == number_literal(t),
            }
        }),
{
    reveal_strlit(".size");
    reveal_strlit(".eq");
    reveal_strlit(".ne");
    reveal_strlit(".le");
    reveal_strlit(".lt");
    reveal_strlit(".ge");
    reveal_strlit(".gt");
    assert(ctrl@.len() == 5);
}

// What a rule adds, and what it leaves.

/// Everything that is defined before is defined after.
pub open spec fn keeps(before: TypesView, after: TypesView) -> bool {
    &&& before.plain_groups.dom().subset_of(after.plain_groups.dom())
    &&& before.plain_group_reps.dom().subset_of(after.plain_group_reps.dom())
    &&& before.type_aliases.dom().subset_of(after.type_aliases.dom())
    &&& before.rust_structs.dom().subset_of(after.rust_structs.dom())
    &&& before.generic_defs.dom().subset_of(after.generic_defs.dom())
    &&& before.generic_instances.dom().subset_of(after.generic_instances.dom())
}

/// Only type definitions and instances are added.
pub open spec fn adds_types_only(before: TypesView, after: TypesView) -> bool {
    &&& keeps(before, after)
    &&& before.plain_groups == after.plain_groups
    &&& before.plain_group_reps == after.plain_group_reps
    &&& before.type_aliases == after.type_aliases
    &&& before.generic_defs == after.generic_defs
}

/// No alias and no definition with type parameters is added, changed or taken away.
pub open spec fn leaves_aliases(before: TypesView, after: TypesView) -> bool {
    &&& keeps(before, after)
    &&& before.type_aliases == after.type_aliases
    &&& before.generic_defs == after.generic_defs
}

proof fn lemma_choices_add_types(types: TypesView, choices: Seq<Type1>)
    requires
        forall|i: int| 0 <= i < choices.len() ==> type2_supported((#[trigger] choices[i]).type2),
    ensures
        adds_types_only(types, choices_meaning(types, choices).1),
    decreases choices,
{
    if choices.len() > 0 {
        assert forall|i: int| 0 <= i < choices.drop_last().len() implies type2_supported(
            (#[trigger] choices.drop_last()[i]).type2,
        ) by {
            assert(choices.drop_last()[i] == choices[i]);
        }
        lemma_choices_add_types(types, choices.drop_last());
        assert(type2_supported(choices[choices.len() - 1].type2));
        law_alternative_adds_types_only(
            choices_meaning(types, choices.drop_last()).1,
            choices.last().type2,
        );
    }
}

/// One alternative of a type adds nothing but type definitions and instances, and takes
/// nothing away.
pub proof fn law_alternative_adds_types_only(types: TypesView, t: Type2)
    requires
        type2_supported(t),
    ensures
        adds_types_only(types, type2_meaning(types, t).1),
    decreases t,
{
    match t {
        Type2::Typename { generic_arg, .. } => {
            if let Some(arg) = generic_arg {
                lemma_choices_add_types(types, arg.args@);
            }
        },
        Type2::Array { group } => {
            assert(element_supported(group.group_choices@[0].group_entries@[0]));
            if let GroupEntry::ValueMemberKey { ge } = group.group_choices@[0].group_entries@[0] {
                law_type_adds_types_only(types, ge.entry_type);
            }
        },
        Type2::Mapping { group } => {
            assert(table_supported(group.group_choices@[0]));
            if let GroupEntry::ValueMemberKey { ge } = group.group_choices@[0].group_entries@[0] {
                if let Some(MemberKey::Type1 { t1 }) = ge.member_key {
                    law_alternative_adds_types_only(types, t1.type2);
                    law_type_adds_types_only(type2_meaning(types, t1.type2).1, ge.entry_type);
                }
            }
        },
        Type2::TaggedData { tag, t } => {
            law_type_adds_types_only(types, t);
        },
        _ => {},
    }
}

/// A type adds nothing but type definitions and instances, and takes nothing away.
pub proof fn law_type_adds_types_only(types: TypesView, t: Type)
    requires
        type_supported(t),
    ensures
        adds_types_only(types, type_meaning(types, t).1),
    decreases t,
{
    let choices = t.type_choices@;
    if choices.len() == 1 {
        assert(type2_supported(choices[0].type2));
        law_alternative_adds_types_only(types, choices[0].type2);
    } else if choices.len() == 2 && is_null(choices[0].type2) {
        law_alternative_adds_types_only(types, choices[1].type2);
    } else if choices.len() == 2 && is_null(choices[1].type2) {
        law_alternative_adds_types_only(types, choices[0].type2);
    } else {
        lemma_choices_add_types(types, choices);
    }
}

proof fn lemma_entry_leaves_aliases(types: TypesView, entry: GroupEntry, rep: Representation)
    requires
        entry_type_supported(entry),
    ensures
        ({
            let (t, after) = entry_type_meaning(types, entry);
            leaves_aliases(types, referred_from(after, t, rep))
        }),
{
    if let GroupEntry::ValueMemberKey { ge } = entry {
        law_type_adds_types_only(types, ge.entry_type);
    }
}

proof fn lemma_entries_leave_aliases(
    types: TypesView,
    entries: Seq<GroupEntry>,
    rep: Representation,
)
    requires
        forall|i: int| 0 <= i < entries.len() ==> field_supported(#[trigger] entries[i], rep),
    ensures
        leaves_aliases(types, entries_meaning(types, entries, rep).1),
    decreases entries.len(),
{
    if entries.len() > 0 {
        assert forall|i: int| 0 <= i < entries.drop_last().len() implies field_supported(
            #[trigger] entries.drop_last()[i],
            rep,
        ) by {
            assert(entries.drop_last()[i] == entries[i]);
        }
        lemma_entries_leave_aliases(types, entries.drop_last(), rep);
        assert(field_supported(entries[entries.len() - 1], rep));
        lemma_entry_leaves_aliases(
            entries_meaning(types, entries.drop_last(), rep).1,
            entries.last(),
            rep,
        );
    }
}

proof fn lemma_group_choice_leaves_aliases(
    types: TypesView,
    choice: GroupChoice,
    ident: Seq<char>,
    rep: Representation,
    tag: Option<usize>,
)
    requires
        group_choice_supported(choice, rep),
    ensures
        leaves_aliases(types, group_choice_meaning(types, choice, ident, rep, tag).1),
{
    if is_table(choice, rep) {
        let (domain, range) = table_types(choice)->0;
        law_alternative_adds_types_only(types, domain);
        law_type_adds_types_only(type2_meaning(types, domain).1, range);
    } else {
        lemma_entries_leave_aliases(types, choice.group_entries@, rep);
    }
}

proof fn lemma_alternatives_leave_aliases(
    types: TypesView,
    choices: Seq<GroupChoice>,
    name: Seq<char>,
    rep: Representation,
)
    requires
        forall|i: int| 0 <= i < choices.len() ==> alternative_supported(#[trigger] choices[i], rep),
    ensures
        leaves_aliases(types, alternatives_meaning(types, choices, name, rep).types),
        alternatives_meaning(types, choices, name, rep).variants.len() == choices.len(),
    decreases choices.len(),
{
    if choices.len() > 0 {
        assert forall|i: int| 0 <= i < choices.drop_last().len() implies alternative_supported(
            #[trigger] choices.drop_last()[i],
            rep,
        ) by {
            assert(choices.drop_last()[i] == choices[i]);
        }
        lemma_alternatives_leave_aliases(types, choices.drop_last(), name, rep);
        let before = alternatives_meaning(types, choices.drop_last(), name, rep);
        let choice = choices[choices.len() - 1];
        assert(alternative_supported(choice, rep));
        if choice.group_entries@.len() == 1 {
            lemma_entry_leaves_aliases(before.types, choice.group_entries@[0], rep);
        } else {
            let ident = alternative_ident(name, (choices.len() - 1) as nat);
            lemma_group_choice_leaves_aliases(
                before.types.mark_plain_group(ident, None),
                choice,
                ident,
                rep,
                None,
            );
        }
    }
}

/// A group keeps everything that is defined, and changes no alias.
pub proof fn law_group_keeps_definitions(
    types: TypesView,
    group: Group,
    name: Seq<char>,
    rep: Representation,
    tag: Option<usize>,
    params: Option<Seq<Seq<char>>>,
)
    requires
        group_supported(types, group, name, rep, params),
    ensures
        keeps(types, group_defined(types, group, name, rep, tag, params)),
        group_defined(types, group, name, rep, tag, params).type_aliases == types.type_aliases,
{
    if group.group_choices@.len() == 1 {
        lemma_group_choice_leaves_aliases(types, group.group_choices@[0], name, rep, tag);
    } else {
        lemma_alternatives_leave_aliases(types, group.group_choices@, name, rep);
    }
}

/// The enum that a group with several choices is defined as has a variant for each of them.
pub proof fn law_variant_for_each_choice(
    types: TypesView,
    group: Group,
    name: Seq<char>,
    rep: Representation,
    tag: Option<usize>,
    params: Option<Seq<Seq<char>>>,
)
    requires
        group_supported(types, group, name, rep, params),
        group.group_choices@.len() != 1,
    ensures
        ({
            let after = group_defined(types, group, name, rep, tag, params);
            &&& after.rust_structs.contains_key(name)
            &&& after.rust_structs[name].tag == tag
            &&& after.rust_structs[name].variant matches RustStructTypeView::GroupChoice {
                variants,
                rep: represented,
            } && variants.len() == group.group_choices@.len() && represented == rep
        }),
{
    lemma_alternatives_leave_aliases(types, group.group_choices@, name, rep);
}

proof fn lemma_type_choices_keep(
    types: TypesView,
    name: Seq<char>,
    choices: Seq<Type1>,
    tag: Option<usize>,
    params: Option<Seq<Seq<char>>>,
)
    requires
        type_choices_supported(choices, params),
    ensures
        keeps(types, type_choices_defined(types, name, choices, tag, params)),
{
    if choices.len() == 2 && is_null(choices[0].type2) {
        law_alternative_adds_types_only(types, choices[1].type2);
    } else if choices.len() == 2 && is_null(choices[1].type2) {
        law_alternative_adds_types_only(types, choices[0].type2);
    } else {
        lemma_choices_add_types(types, choices);
    }
}

proof fn lemma_type1_keeps(
    types: TypesView,
    name: Seq<char>,
    t: Type1,
    outer_tag: Option<usize>,
    params: Option<Seq<Seq<char>>>,
)
    requires
        type1_supported(types, name, t, outer_tag, params),
    ensures
        keeps(types, type1_defined(types, name, t, outer_tag, params)),
    decreases t,
{
    match t.type2 {
        Type2::Typename { generic_arg, .. } => {
            if t.operator is None {
                if let Some(arg) = generic_arg {
                    lemma_choices_add_types(types, arg.args@);
                }
            }
        },
        Type2::Mapping { group } => {
            law_group_keeps_definitions(
                types,
                group,
                name,
                Representation::Mapping,
                outer_tag,
                params,
            );
        },
        Type2::Array { group } => {
            law_group_keeps_definitions(
                types,
                group,
                name,
                Representation::Array,
                outer_tag,
                params,
            );
        },
        Type2::TaggedData { tag, t } => {
            if t.type_choices@.len() == 1 {
                if !(t.type_choices@[0].type2 is Typename) {
                    lemma_type1_keeps(types, name, t.type_choices@[0], tag, params);
                }
            } else {
                lemma_type_choices_keep(types, name, t.type_choices@, tag, params);
            }
        },
        _ => {},
    }
}

/// What is defined stays defined when a rule is added.
pub proof fn law_rule_keeps_definitions(types: TypesView, rule: Rule)
    requires
        rule_supported(types, rule),
    ensures
        keeps(types, rule_defined(types, rule)),
{
    if let Rule::Type { rule } = rule {
        let name = camel_case(rule.name.text());
        let choices = rule.value.type_choices@;
        if choices.len() == 1 {
            lemma_type1_keeps(types, name, choices[0], None, rule_params(rule));
        } else {
            lemma_type_choices_keep(types, name, choices, None, rule_params(rule));
        }
    }
}

/// Whether a name has a definition of any kind.
pub open spec fn defines(types: TypesView, ident: Seq<char>) -> bool {
    ||| types.type_aliases.contains_key(ident)
    ||| types.rust_structs.contains_key(ident)
    ||| types.generic_defs.contains_key(ident)
    ||| types.generic_instances.contains_key(ident)
}

proof fn lemma_type1_defines(
    types: TypesView,
    name: Seq<char>,
    t: Type1,
    outer_tag: Option<usize>,
    params: Option<Seq<Seq<char>>>,
)
    requires
        type1_supported(types, name, t, outer_tag, params),
    ensures
        defines(type1_defined(types, name, t, outer_tag, params), name),
    decreases t,
{
    if let Type2::TaggedData { tag, t } = t.type2 {
        if t.type_choices@.len() == 1 && !(t.type_choices@[0].type2 is Typename) {
            lemma_type1_defines(types, name, t.type_choices@[0], tag, params);
        }
    }
}

/// The rule of a type defines its name.
pub proof fn law_rule_defines_its_name(types: TypesView, rule: TypeRule)
    requires
        rule_supported(types, Rule::Type { rule }),
    ensures
        defines(rule_defined(types, Rule::Type { rule }), camel_case(rule.name.text())),
{
    let choices = rule.value.type_choices@;
    if choices.len() == 1 {
        lemma_type1_defines(
            types,
            camel_case(rule.name.text()),
            choices[0],
            None,
            rule_params(rule),
        );
    }
}

/// Whether a name is defined as a type that is serialized under the tag.
pub open spec fn defines_with_tag(types: TypesView, ident: Seq<char>, tag: Option<usize>) -> bool {
    ||| types.rust_structs.contains_key(ident) && types.rust_structs[ident].tag == tag
    ||| types.generic_defs.contains_key(ident) && types.generic_defs[ident].definition.tag == tag
}

/// A type that is defined inside of a tag keeps the tag.
pub proof fn law_tag_is_kept(
    types: TypesView,
    name: Seq<char>,
    t: Type1,
    params: Option<Seq<Seq<char>>>,
)
    requires
        type1_supported(types, name, t, None, params),
        t.type2 is TaggedData,
    ensures
        t.type2 matches Type2::TaggedData { tag, .. } && tag is Some && defines_with_tag(
            type1_defined(types, name, t, None, params),
            name,
            tag,
        ),
{
    if let Type2::TaggedData { tag, t: inner } = t.type2 {
        if inner.type_choices@.len() == 1 {
            let inner = inner.type_choices@[0];
            assert(type1_supported(types, name, inner, tag, params) || inner.type2 is Typename);
            assert(inner.type2 is Typename || type1_defined(types, name, t, None, params)
                == type1_defined(types, name, inner, tag, params));
        }
    }
}

// What a name stands for.

/// What a rule makes its name an alias of, where it is a rule that does so: one for a
/// name, a literal or an optional type.
pub open spec fn alias_of_rule(types: TypesView, rule: TypeRule) -> Option<RustTypeView> {
    let choices = rule.value.type_choices@;
    if choices.len() == 1 {
        match choices[0].type2 {
            Type2::Typename { ident, generic_arg: None } => if choices[0].operator is None {
                Some(unaliased(types.new_type(ident.text())))
            } else {
                None
            },
            Type2::IntValue { value } => Some(RustTypeView::Fixed(FixedValueView::Int(value))),
            Type2::UintValue { value } => Some(RustTypeView::Fixed(FixedValueView::Uint(value))),
            Type2::TextValue { value } => Some(RustTypeView::Fixed(FixedValueView::Text(value@))),
            _ => None,
        }
    } else if choices.len() == 2 && is_null(choices[0].type2) {
        Some(RustTypeView::Optional(Box::new(type2_meaning(types, choices[1].type2).0)))
    } else if choices.len() == 2 && is_null(choices[1].type2) {
        Some(RustTypeView::Optional(Box::new(type2_meaning(types, choices[0].type2).0)))
    } else {
        None
    }
}

/// Whether a rule puts bounds on a name.
pub open spec fn is_bounded_rule(rule: TypeRule) -> bool {
    let choices = rule.value.type_choices@;
    choices.len() == 1 && choices[0].type2 is Typename && choices[0].operator is Some
}

proof fn lemma_type1_aliases(
    types: TypesView,
    name: Seq<char>,
    t: Type1,
    outer_tag: Option<usize>,
    params: Option<Seq<Seq<char>>>,
)
    requires
        type1_supported(types, name, t, outer_tag, params),
        t.type2 is Mapping || t.type2 is Array || t.type2 is TaggedData,
    ensures
        type1_defined(types, name, t, outer_tag, params).type_aliases == types.type_aliases,
    decreases t,
{
    match t.type2 {
        Type2::Mapping { group } => {
            law_group_keeps_definitions(
                types,
                group,
                name,
                Representation::Mapping,
                outer_tag,
                params,
            );
        },
        Type2::Array { group } => {
            law_group_keeps_definitions(
                types,
                group,
                name,
                Representation::Array,
                outer_tag,
                params,
            );
        },
        Type2::TaggedData { tag, t } => {
            let choices = t.type_choices@;
            if choices.len() == 1 {
                if !(choices[0].type2 is Typename) {
                    lemma_type1_aliases(types, name, choices[0], tag, params);
                }
            } else if choices.len() == 2 && is_null(choices[0].type2) {
                law_alternative_adds_types_only(types, choices[1].type2);
            } else if choices.len() == 2 && is_null(choices[1].type2) {
                law_alternative_adds_types_only(types, choices[0].type2);
            } else {
                lemma_choices_add_types(types, choices);
            }
        },
        _ => {},
    }
}

/// After a rule is added, its name stands for what the rule makes it an alias of, and for
/// bytes if the rule puts bounds on a name. Any other rule leaves what a name stands for.
pub proof fn law_name_after_rule(types: TypesView, rule: TypeRule)
    requires
        rule_supported(types, Rule::Type { rule }),
        !in_standard_prelude(rule.name.text()),
    ensures
        ({
            let raw = rule.name.text();
            let after = rule_defined(types, Rule::Type { rule });
            match alias_of_rule(types, rule) {
                Some(base) => after.new_type(raw) == RustTypeView::Alias(
                    camel_case(raw),
                    Box::new(base),
                ),
                None => if is_bounded_rule(rule) {
                    after.new_type(raw) == RustTypeView::Primitive(Primitive::Bytes)
                } else {
                    forall|other: Seq<char>| #[trigger]
                        after.new_type(other) == types.new_type(other)
                },
            }
        }),
{
    let choices = rule.value.type_choices@;
    if choices.len() == 1 {
        let t = choices[0];
        if t.type2 is Mapping || t.type2 is Array || t.type2 is TaggedData {
            lemma_type1_aliases(
                types,
                camel_case(rule.name.text()),
                t,
                None,
                rule_params(rule),
            );
        }
        if let Type2::Typename { generic_arg: Some(arg), .. } = t.type2 {
            if t.operator is None {
                lemma_choices_add_types(types, arg.args@);
            }
        }
    } else if choices.len() == 2 && is_null(choices[0].type2) {
    } else if choices.len() == 2 && is_null(choices[1].type2) {
    } else {
        lemma_choices_add_types(types, choices);
    }
}

// Types without a name in the document.

/// An instance with arguments is defined under the name of the generic type and of its
/// arguments.
pub proof fn law_instance_is_defined(types: TypesView, t: Type2)
    requires
        type2_supported(t),
    ensures
        t matches Type2::Typename { ident, generic_arg: Some(arg) } ==> {
            let args = choices_meaning(types, arg.args@).0;
            let name = instance_name(ident.ident@, args);
            let after = type2_meaning(types, t).1;
            &&& args.len() == arg.args@.len()
            &&& after.generic_instances.contains_key(camel_case(name))
            &&& after.generic_instances[camel_case(name)] == (GenericInstanceView {
                instance_ident: camel_case(name),
                generic_ident: camel_case(ident.ident@),
                generic_args: args,
            })
        },
{
    if let Type2::Typename { generic_arg: Some(arg), .. } = t {
        lemma_choices_len(types, arg.args@);
    }
}

proof fn lemma_choices_len(types: TypesView, choices: Seq<Type1>)
    ensures
        choices_meaning(types, choices).0.len() == choices.len(),
    decreases choices.len(),
{
    if choices.len() > 0 {
        lemma_choices_len(types, choices.drop_last());
    }
}

/// An array is defined under the name of its elements with an `s`, and a table under the
/// names of its keys and values.
pub proof fn law_collection_is_defined(types: TypesView, t: Type2)
    requires
        type2_supported(t),
        t is Array || t is Mapping,
    ensures
        ({
            let (meaning, after) = type2_meaning(types, t);
            match meaning {
                RustTypeView::Array(element) => {
                    let ident = camel_case(element.array_text());
                    &&& t is Array
                    &&& after.rust_structs.contains_key(ident)
                    &&& after.rust_structs[ident].variant == RustStructTypeView::Array {
                        element_type: *element,
                    }
                },
                RustTypeView::Mapping(key, value) => {
                    let ident = camel_case(table_name(*key, *value));
                    &&& t is Mapping
                    &&& after.rust_structs.contains_key(ident)
                    &&& after.rust_structs[ident].variant == RustStructTypeView::Table {
                        domain: *key,
                        range: *value,
                    }
                },
                _ => false,
            }
        }),
{
    if let Type2::Mapping { group } = t {
        assert(table_supported(group.group_choices@[0]));
    }
}

/// An enum over the alternatives of a type is defined under their names, with a variant for
/// each of them, and the type is that enum unless its name is taken by an alias or by the
/// prelude.
pub proof fn law_choice_is_defined(types: TypesView, t: Type)
    requires
        type_supported(t),
        t.type_choices@.len() != 1,
        t.type_choices@.len() == 2 ==> !is_null(t.type_choices@[0].type2) && !is_null(
            t.type_choices@[1].type2,
        ),
    ensures
        ({
            let (meaning, after) = type_meaning(types, t);
            let alternatives = choices_meaning(types, t.type_choices@).0;
            let name = or_joined(variant_texts(alternatives));
            &&& after.rust_structs.contains_key(camel_case(name))
            &&& after.rust_structs[camel_case(name)].variant == RustStructTypeView::TypeChoice {
                variants: choice_variants(alternatives),
            }
            &&& choice_variants(alternatives).len() == t.type_choices@.len()
            &&& !in_standard_prelude(name) && !types.type_aliases.contains_key(camel_case(name))
                ==> meaning == RustTypeView::Rust(camel_case(name))
        }),
{
    lemma_choices_len(types, t.type_choices@);
    lemma_choices_add_types(types, t.type_choices@);
}

// What can be added.

proof fn lemma_type1_support(
    a: TypesView,
    b: TypesView,
    name: Seq<char>,
    t: Type1,
    outer_tag: Option<usize>,
    params: Option<Seq<Seq<char>>>,
)
    requires
        a.is_plain_group(name) == b.is_plain_group(name),
    ensures
        type1_supported(a, name, t, outer_tag, params) == type1_supported(
            b,
            name,
            t,
            outer_tag,
            params,
        ),
    decreases t,
{
    if let Type2::TaggedData { tag, t } = t.type2 {
        if t.type_choices@.len() == 1 {
            lemma_type1_support(a, b, name, t.type_choices@[0], tag, params);
        }
    }
}

/// Whether a rule can be added depends on the rule, and on the table only in whether the
/// name of the rule is that of a plain group.
pub proof fn law_support(a: TypesView, b: TypesView, rule: TypeRule)
    requires
        a.is_plain_group(camel_case(rule.name.text())) == b.is_plain_group(
            camel_case(rule.name.text()),
        ),
    ensures
        rule_supported(a, Rule::Type { rule }) == rule_supported(b, Rule::Type { rule }),
{
    if rule.value.type_choices@.len() == 1 {
        lemma_type1_support(
            a,
            b,
            camel_case(rule.name.text()),
            rule.value.type_choices@[0],
            None,
            rule_params(rule),
        );
    }
}

} // verus!
