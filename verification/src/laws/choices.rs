//! What the choices of groups are defined as.
use crate::ast::{Group, GroupChoice, GroupEntry, MemberKey};
use crate::intermediate::{
    EnumVariantView, GenericDefView, Representation, RustStructTypeView, RustStructView,
    RustTypeView, TypesView, VariantIdentView,
};
use crate::laws::{
    law_camel_case, law_camel_case_keeps, law_numerals_differ, law_type_adds_types_only,
    lemma_decimal_digits,
};
use crate::laws::groups::{
    is_record_of, law_plain_groups_of_record, law_record, law_stated_name, notes_rep, typed_in_turn,
};
use crate::laws::members::{law_type_references_add_nothing, type_refers_only};
use crate::laws::names::{law_camel_case_keeps_numerals, told_apart};
use crate::model::{
    alternative_ident, alternative_supported, alternatives_meaning, entries_meaning,
    entry_alternative, entry_raw_name, entry_type_meaning, entry_type_supported, group_alternative,
    group_choice_defined, group_choice_supported, group_defined, group_supported, record_meaning,
    record_supported, table_supported, type2_meaning, type_meaning, Alternatives,
};
use crate::text::decimal_text;
use crate::utils::{camel_case, occurrences};
use vstd::prelude::*;

verus! {

// Groups with one choice.

/// `after` is `before` with one definition more, under its name: one with type parameters if
/// there are any.
pub open spec fn adds_definition(
    before: TypesView,
    after: TypesView,
    definition: RustStructView,
    params: Option<Seq<Seq<char>>>,
) -> bool {
    match params {
        Some(params) => {
            &&& after.generic_defs == before.generic_defs.insert(
                definition.ident,
                GenericDefView { params, definition },
            )
            &&& after == (TypesView { generic_defs: after.generic_defs, ..before })
        },
        None => {
            &&& after.rust_structs == before.rust_structs.insert(definition.ident, definition)
            &&& after == (TypesView { rust_structs: after.rust_structs, ..before })
        },
    }
}

/// A choice of a group is defined as a record of its entries, with the representation of the
/// group. Only a map with one entry is none.
pub proof fn law_choice_is_record(
    types: TypesView,
    choice: GroupChoice,
    name: Seq<char>,
    rep: Representation,
    tag: Option<usize>,
    params: Option<Seq<Seq<char>>>,
) -> (tables: Seq<TypesView>)
    requires
        group_choice_supported(choice, rep),
        rep == Representation::Array || choice.group_entries@.len() != 1,
    ensures
        ({
            let after = group_choice_defined(types, choice, name, rep, tag, params);
            let definition = match params {
                Some(_) => after.generic_defs[name].definition,
                None => after.rust_structs[name],
            };
            &&& definition.ident == name
            &&& definition.tag == tag
            &&& definition.variant matches RustStructTypeView::Record(record) && is_record_of(
                record,
                choice.group_entries@,
                rep,
            ) && typed_in_turn(record.fields, choice.group_entries@, rep, tables)
            &&& adds_definition(tables.last(), after, definition, params)
        }),
        tables[0] == types,
{
    law_record(types, choice.group_entries@, rep)
}

/// A map with one entry is defined as a table from what its key is represented by to what
/// its value is represented by.
pub proof fn law_choice_is_table(
    types: TypesView,
    choice: GroupChoice,
    name: Seq<char>,
    tag: Option<usize>,
    params: Option<Seq<Seq<char>>>,
)
    requires
        group_choice_supported(choice, Representation::Mapping),
        choice.group_entries@.len() == 1,
    ensures
        choice.group_entries@[0] matches GroupEntry::ValueMemberKey { ge }
            && ge.member_key matches Some(MemberKey::Type1 { t1 }) && {
            let (domain, keyed) = type2_meaning(types, t1.type2);
            let (range, made) = type_meaning(keyed, ge.entry_type);
            adds_definition(
                made,
                group_choice_defined(types, choice, name, Representation::Mapping, tag, params),
                RustStructView {
                    ident: name,
                    tag,
                    variant: RustStructTypeView::Table { domain, range },
                },
                params,
            )
        },
{
    assert(table_supported(choice));
}

/// A group with one choice is defined as that choice.
pub proof fn law_only_choice(
    types: TypesView,
    group: Group,
    name: Seq<char>,
    rep: Representation,
    tag: Option<usize>,
    params: Option<Seq<Seq<char>>>,
)
    requires
        group.group_choices@.len() == 1,
    ensures
        group_defined(types, group, name, rep, tag, params) == group_choice_defined(
            types,
            group.group_choices@[0],
            name,
            rep,
            tag,
            params,
        ),
        group_supported(types, group, name, rep, params) <==> group_choice_supported(
            group.group_choices@[0],
            rep,
        ),
{
}

// Groups with several choices.

/// The name of the record for the choice at position `index`.
pub open spec fn record_name(name: Seq<char>, index: int) -> Seq<char> {
    camel_case(name) + decimal_text(index as nat)
}

/// Whether a choice consists of one entry and states no name for it.
pub open spec fn is_named_by_type(choice: GroupChoice) -> bool {
    &&& choice.group_entries@.len() == 1
    &&& match choice.group_entries@[0] {
        GroupEntry::ValueMemberKey { ge } => !(ge.member_key matches Some(
            MemberKey::Bareword { .. },
        )),
        _ => true,
    }
}

/// How many of the first `n` variants take the name `text` from their type.
pub open spec fn named_by_type(
    choices: Seq<GroupChoice>,
    variants: Seq<EnumVariantView>,
    text: Seq<char>,
    n: int,
) -> nat
    decreases n,
{
    if n <= 0 {
        0
    } else {
        named_by_type(choices, variants, text, n - 1) + if is_named_by_type(choices[n - 1])
            && variants[n - 1].rust_type.variant_text() == text {
            1nat
        } else {
            0nat
        }
    }
}

/// The variant for a choice of one entry holds the type of the entry, and is the entries of
/// its group where that type is a plain group. It is named by the key of the entry where
/// that is a name, and by its type otherwise, with a number where other choices are named so
/// before. The choice adds what its type defines.
pub open spec fn entry_variant(
    variant: EnumVariantView,
    entry: GroupEntry,
    rep: Representation,
    earlier: nat,
    before: TypesView,
    after: TypesView,
) -> bool {
    let (t, made) = entry_type_meaning(before, entry);
    let text = match entry {
        GroupEntry::ValueMemberKey { ge } => match ge.member_key {
            Some(MemberKey::Bareword { ident }) => ident.text(),
            _ => told_apart(t.variant_text(), earlier),
        },
        _ => told_apart(t.variant_text(), earlier),
    };
    &&& variant.rust_type == t
    &&& variant.name == VariantIdentView::Custom(camel_case(text))
    &&& variant.serialize_as_embedded_group <==> (t matches RustTypeView::Rust(ident)
        && before.plain_groups.contains_key(ident))
    &&& notes_rep(made, after, t, rep)
}

/// The variant for a choice of any other number of entries holds a record of them that is a
/// plain group with the representation of the whole group. The choice adds this record and
/// what its entries define.
pub open spec fn record_variant(
    variant: EnumVariantView,
    entries: Seq<GroupEntry>,
    ident: Seq<char>,
    rep: Representation,
    before: TypesView,
    after: TypesView,
) -> bool {
    let marked = TypesView { plain_groups: before.plain_groups.insert(ident, None), ..before };
    let (record, made) = record_meaning(marked, entries, rep);
    &&& variant.rust_type == RustTypeView::Rust(ident)
    &&& variant.name == VariantIdentView::Rust(ident)
    &&& variant.serialize_as_embedded_group
    &&& is_record_of(record, entries, rep)
    &&& after.rust_structs == made.rust_structs.insert(
        ident,
        RustStructView { ident, tag: None, variant: RustStructTypeView::Record(record) },
    )
    &&& after == (TypesView { rust_structs: after.rust_structs, ..made })
}

/// The variant for the choice at position `index`, of which `earlier` others were named as it
/// by their types before.
#[verifier::opaque]
pub open spec fn choice_variant(
    variant: EnumVariantView,
    choice: GroupChoice,
    name: Seq<char>,
    index: int,
    rep: Representation,
    earlier: nat,
    before: TypesView,
    after: TypesView,
) -> bool {
    if choice.group_entries@.len() == 1 {
        entry_variant(variant, choice.group_entries@[0], rep, earlier, before, after)
    } else {
        record_variant(
            variant,
            choice.group_entries@,
            record_name(name, index),
            rep,
            before,
            after,
        )
    }
}

/// The variants are those for the choices, each in the table that the choice before it
/// leaves.
pub open spec fn chosen_in_turn(
    variants: Seq<EnumVariantView>,
    choices: Seq<GroupChoice>,
    name: Seq<char>,
    rep: Representation,
    tables: Seq<TypesView>,
) -> bool {
    &&& variants.len() == choices.len()
    &&& tables.len() == choices.len() + 1
    &&& forall|i: int|
        0 <= i < choices.len() ==> choice_variant(
            variants[i],
            #[trigger] choices[i],
            name,
            i,
            rep,
            named_by_type(choices, variants, variants[i].rust_type.variant_text(), i),
            tables[i],
            tables[i + 1],
        )
}

proof fn lemma_named_by_type_prefix(
    choices: Seq<GroupChoice>,
    variants: Seq<EnumVariantView>,
    choices_after: Seq<GroupChoice>,
    variants_after: Seq<EnumVariantView>,
    text: Seq<char>,
    n: int,
)
    requires
        0 <= n <= choices.len() <= choices_after.len(),
        n <= variants.len() <= variants_after.len(),
        forall|i: int| 0 <= i < choices.len() ==> #[trigger] choices_after[i] == choices[i],
        forall|i: int| 0 <= i < variants.len() ==> #[trigger] variants_after[i] == variants[i],
    ensures
        named_by_type(choices_after, variants_after, text, n) == named_by_type(
            choices,
            variants,
            text,
            n,
        ),
    decreases n,
{
    if n > 0 {
        lemma_named_by_type_prefix(
            choices,
            variants,
            choices_after,
            variants_after,
            text,
            n - 1,
        );
        assert(choices_after[n - 1] == choices[n - 1]);
        assert(variants_after[n - 1] == variants[n - 1]);
    }
}

proof fn lemma_entry_variant(before: Alternatives, entry: GroupEntry, rep: Representation)
    requires
        entry_type_supported(entry),
    ensures
        ({
            let after = entry_alternative(before, entry, rep);
            let variant = after.variants.last();
            let text = variant.rust_type.variant_text();
            &&& after.variants == before.variants.push(variant)
            &&& entry_variant(
                variant,
                entry,
                rep,
                occurrences(before.used, text),
                before.types,
                after.types,
            )
            &&& after.used == match entry_raw_name(entry) {
                Some(_) => before.used,
                None => before.used.push(text),
            }
        }),
{
    let text = entry_type_meaning(before.types, entry).0.variant_text();
    if let GroupEntry::ValueMemberKey { ge } = entry {
        law_type_adds_types_only(before.types, ge.entry_type);
    }
    assert(before.used.push(text).drop_last() =~= before.used);
}

proof fn lemma_record_variant(
    before: Alternatives,
    choice: GroupChoice,
    name: Seq<char>,
    index: nat,
    rep: Representation,
)
    requires
        record_supported(choice.group_entries@, rep),
        choice.group_entries@.len() != 1,
    ensures
        ({
            let after = group_alternative(before, choice, alternative_ident(name, index), rep);
            let variant = after.variants.last();
            &&& after.variants == before.variants.push(variant)
            &&& record_variant(
                variant,
                choice.group_entries@,
                record_name(name, index as int),
                rep,
                before.types,
                after.types,
            )
            &&& after.used == before.used
        }),
{
    let ident = alternative_ident(name, index);
    law_camel_case_keeps_numerals(name, index);
    let tables = law_record(
        before.types.mark_plain_group(ident, None),
        choice.group_entries@,
        rep,
    );
}

proof fn lemma_choice_variant(
    before: Alternatives,
    choices: Seq<GroupChoice>,
    after: Alternatives,
    name: Seq<char>,
    rep: Representation,
)
    requires
        choices.len() > 0,
        alternative_supported(choices.last(), rep),
        after == if choices.last().group_entries@.len() == 1 {
            entry_alternative(before, choices.last().group_entries@[0], rep)
        } else {
            group_alternative(
                before,
                choices.last(),
                alternative_ident(name, (choices.len() - 1) as nat),
                rep,
            )
        },
    ensures
        ({
            let variant = after.variants.last();
            let text = variant.rust_type.variant_text();
            &&& after.variants == before.variants.push(variant)
            &&& choice_variant(
                variant,
                choices.last(),
                name,
                choices.len() - 1,
                rep,
                occurrences(before.used, text),
                before.types,
                after.types,
            )
            &&& after.used == if is_named_by_type(choices.last()) {
                before.used.push(text)
            } else {
                before.used
            }
        }),
{
    let choice = choices.last();
    reveal(choice_variant);
    if choice.group_entries@.len() == 1 {
        law_stated_name(choice.group_entries@[0]);
        lemma_entry_variant(before, choice.group_entries@[0], rep);
    } else {
        lemma_record_variant(before, choice, name, (choices.len() - 1) as nat, rep);
    }
}

proof fn lemma_alternatives_in_turn(
    types: TypesView,
    choices: Seq<GroupChoice>,
    name: Seq<char>,
    rep: Representation,
) -> (tables: Seq<TypesView>)
    requires
        forall|i: int| 0 <= i < choices.len() ==> alternative_supported(#[trigger] choices[i], rep),
    ensures
        ({
            let alternatives = alternatives_meaning(types, choices, name, rep);
            &&& chosen_in_turn(alternatives.variants, choices, name, rep, tables)
            &&& tables[0] == types
            &&& tables.last() == alternatives.types
            &&& forall|text: Seq<char>| #[trigger]
                occurrences(alternatives.used, text) == named_by_type(
                    choices,
                    alternatives.variants,
                    text,
                    choices.len() as int,
                )
        }),
    decreases choices.len(),
{
    let after = alternatives_meaning(types, choices, name, rep);
    let variants = after.variants;
    if choices.len() == 0 {
        seq![types]
    } else {
        let n = choices.len() - 1;
        let shorter = choices.drop_last();
        assert forall|i: int| 0 <= i < shorter.len() implies alternative_supported(
            #[trigger] shorter[i],
            rep,
        ) by {
            assert(shorter[i] == choices[i]);
        }
        assert(alternative_supported(choices[n], rep));
        let so_far = lemma_alternatives_in_turn(types, shorter, name, rep);
        let before = alternatives_meaning(types, shorter, name, rep);
        let tables = so_far.push(after.types);
        lemma_choice_variant(before, choices, after, name, rep);
        assert forall|text: Seq<char>, k: int| 0 <= k <= n implies #[trigger] named_by_type(
            choices,
            variants,
            text,
            k,
        ) == named_by_type(shorter, before.variants, text, k) by {
            lemma_named_by_type_prefix(shorter, before.variants, choices, variants, text, k);
        }
        assert forall|i: int| 0 <= i < choices.len() implies choice_variant(
            variants[i],
            #[trigger] choices[i],
            name,
            i,
            rep,
            named_by_type(choices, variants, variants[i].rust_type.variant_text(), i),
            tables[i],
            tables[i + 1],
        ) by {
            let text = variants[i].rust_type.variant_text();
            assert(named_by_type(choices, variants, text, i) == named_by_type(
                shorter,
                before.variants,
                text,
                i,
            ));
            if i < n {
                assert(shorter[i] == choices[i]);
                assert(before.variants[i] == variants[i]);
            } else {
                assert(occurrences(before.used, text) == named_by_type(
                    shorter,
                    before.variants,
                    text,
                    n,
                ));
            }
        }
        assert forall|text: Seq<char>| #[trigger]
            occurrences(after.used, text) == named_by_type(choices, variants, text, n + 1) by {
            assert(occurrences(before.used, text) == named_by_type(choices, variants, text, n));
            let last = variants[n].rust_type.variant_text();
            assert(before.used.push(last).drop_last() =~= before.used);
        }
        tables
    }
}

/// A group with several choices is defined as an enum with the representation of the group
/// and a variant for each choice, in order: one that holds the type of its only entry, or
/// one that holds a record of its own.
pub proof fn law_group_is_enum(
    types: TypesView,
    group: Group,
    name: Seq<char>,
    rep: Representation,
    tag: Option<usize>,
    params: Option<Seq<Seq<char>>>,
) -> (tables: Seq<TypesView>)
    requires
        group_supported(types, group, name, rep, params),
        group.group_choices@.len() != 1,
    ensures
        ({
            let after = group_defined(types, group, name, rep, tag, params);
            let definition = after.rust_structs[name];
            &&& definition.ident == name
            &&& definition.tag == tag
            &&& definition.variant matches RustStructTypeView::GroupChoice {
                variants,
                rep: represented,
            } && represented == rep && chosen_in_turn(
                variants,
                group.group_choices@,
                name,
                rep,
                tables,
            )
            &&& adds_definition(tables.last(), after, definition, None)
        }),
        tables[0] == types,
{
    lemma_alternatives_in_turn(types, group.group_choices@, name, rep)
}

/// No record for a choice goes by the name of the enum or by that of another choice.
pub proof fn law_record_names_differ(name: Seq<char>, i: int, j: int)
    requires
        0 <= i,
        0 <= j,
    ensures
        record_name(name, i) != name,
        i != j ==> record_name(name, i) != record_name(name, j),
        record_name(name, i) == camel_case(name + decimal_text(i as nat)),
{
    let digits = decimal_text(i as nat);
    law_camel_case_keeps_numerals(name, i as nat);
    lemma_decimal_digits(i as nat);
    if record_name(name, i) == name {
        law_camel_case(name + digits);
        law_camel_case_keeps(name);
        assert(record_name(name, i).len() == name.len() + digits.len());
    }
    if i != j {
        let start = camel_case(name);
        law_numerals_differ(i as nat, j as nat);
        assert(record_name(name, i).skip(start.len() as int) =~= digits);
        assert(record_name(name, j).skip(start.len() as int) =~= decimal_text(j as nat));
    }
}

/// Whether every type in the choice is a name, a literal or a tag on one, with or without
/// null.
pub open spec fn choice_refers_only(choice: GroupChoice) -> bool {
    forall|j: int|
        0 <= j < choice.group_entries@.len() ==> match #[trigger] choice.group_entries@[j] {
            GroupEntry::ValueMemberKey { ge } => type_refers_only(ge.entry_type),
            GroupEntry::TypeGroupname { .. } => true,
            GroupEntry::InlineGroup { .. } => false,
        }
}

proof fn lemma_references_add_no_types(
    types: TypesView,
    entries: Seq<GroupEntry>,
    rep: Representation,
)
    requires
        forall|j: int|
            0 <= j < entries.len() ==> match #[trigger] entries[j] {
                GroupEntry::ValueMemberKey { ge } => type_refers_only(ge.entry_type),
                GroupEntry::TypeGroupname { .. } => true,
                GroupEntry::InlineGroup { .. } => false,
            },
    ensures
        entries_meaning(types, entries, rep).1.rust_structs == types.rust_structs,
    decreases entries.len(),
{
    if entries.len() > 0 {
        let before = entries.drop_last();
        assert forall|j: int| 0 <= j < before.len() implies match #[trigger] before[j] {
            GroupEntry::ValueMemberKey { ge } => type_refers_only(ge.entry_type),
            GroupEntry::TypeGroupname { .. } => true,
            GroupEntry::InlineGroup { .. } => false,
        } by {
            assert(before[j] == entries[j]);
        }
        lemma_references_add_no_types(types, before, rep);
        let made = entries_meaning(types, before, rep).1;
        if let GroupEntry::ValueMemberKey { ge } = entries[entries.len() - 1] {
            law_type_references_add_nothing(made, ge.entry_type);
        }
    }
}

/// Whether what is defined under `ident` is the same in all of the tables.
pub open spec fn unchanged_in(tables: Seq<TypesView>, ident: Seq<char>) -> bool {
    forall|j: int|
        0 <= j < tables.len() ==> (#[trigger] tables[j]).rust_structs.contains_key(ident)
            && tables[j].rust_structs[ident] == tables[0].rust_structs[ident]
}

proof fn lemma_record_is_made(
    tables: Seq<TypesView>,
    variants: Seq<EnumVariantView>,
    choices: Seq<GroupChoice>,
    name: Seq<char>,
    rep: Representation,
    i: int,
)
    requires
        chosen_in_turn(variants, choices, name, rep, tables),
        0 <= i < choices.len(),
        choices[i].group_entries@.len() != 1,
    ensures
        ({
            let ident = record_name(name, i);
            let made = tables[i + 1].rust_structs[ident];
            &&& tables[i + 1].rust_structs.contains_key(ident)
            &&& made.ident == ident
            &&& made.tag is None
            &&& made.variant matches RustStructTypeView::Record(record) && is_record_of(
                record,
                choices[i].group_entries@,
                rep,
            )
            &&& variants[i].rust_type == RustTypeView::Rust(ident)
        }),
{
    reveal(choice_variant);
    assert(choice_variant(
        variants[i],
        choices[i],
        name,
        i,
        rep,
        named_by_type(choices, variants, variants[i].rust_type.variant_text(), i),
        tables[i],
        tables[i + 1],
    ));
}

proof fn lemma_record_is_kept(
    tables: Seq<TypesView>,
    variants: Seq<EnumVariantView>,
    choices: Seq<GroupChoice>,
    name: Seq<char>,
    rep: Representation,
    i: int,
    n: int,
)
    requires
        chosen_in_turn(variants, choices, name, rep, tables),
        0 <= i < n <= choices.len(),
        choices[i].group_entries@.len() != 1,
        forall|j: int| i < j < choices.len() ==> choice_refers_only(#[trigger] choices[j]),
    ensures
        tables[n].rust_structs.contains_key(record_name(name, i)),
        tables[n].rust_structs[record_name(name, i)] == tables[i + 1].rust_structs[record_name(
            name,
            i,
        )],
    decreases n,
{
    let choice = choices[n - 1];
    let entries = choice.group_entries@;
    if n == i + 1 {
        lemma_record_is_made(tables, variants, choices, name, rep, i);
    } else {
        lemma_record_is_kept(tables, variants, choices, name, rep, i, n - 1);
        assert(choice_refers_only(choices[n - 1]));
        reveal(choice_variant);
        assert(choice_variant(
            variants[n - 1],
            choices[n - 1],
            name,
            n - 1,
            rep,
            named_by_type(choices, variants, variants[n - 1].rust_type.variant_text(), n - 1),
            tables[n - 1],
            tables[n],
        ));
        if entries.len() == 1 {
            if let GroupEntry::ValueMemberKey { ge } = entries[0] {
                law_type_references_add_nothing(tables[n - 1], ge.entry_type);
            }
        } else {
            let ident = record_name(name, n - 1);
            law_record_names_differ(name, i, n - 1);
            let marked = TypesView {
                plain_groups: tables[n - 1].plain_groups.insert(ident, None),
                ..tables[n - 1]
            };
            lemma_references_add_no_types(marked, entries, rep);
        }
    }
}

proof fn lemma_records_are_kept(
    tables: Seq<TypesView>,
    variants: Seq<EnumVariantView>,
    choices: Seq<GroupChoice>,
    name: Seq<char>,
    rep: Representation,
    i: int,
)
    requires
        chosen_in_turn(variants, choices, name, rep, tables),
        0 <= i < choices.len(),
        choices[i].group_entries@.len() != 1,
        forall|j: int| i < j < choices.len() ==> choice_refers_only(#[trigger] choices[j]),
    ensures
        unchanged_in(tables.skip(i + 1), record_name(name, i)),
{
    let later = tables.skip(i + 1);
    let ident = record_name(name, i);
    assert forall|j: int| 0 <= j < later.len() implies (
    #[trigger] later[j]).rust_structs.contains_key(ident) && later[j].rust_structs[ident]
        == later[0].rust_structs[ident] by {
        lemma_record_is_kept(tables, variants, choices, name, rep, i, i + 1 + j);
    }
}

/// Each choice whose entries are not one is left in the table as a record of its entries
/// with the representation of the group, keys included, unless a type in a later choice is
/// defined under the same name. That cannot be where the types in the later choices are
/// names, literals, tags on them and options of them.
pub proof fn law_record_for_each_choice(
    types: TypesView,
    group: Group,
    name: Seq<char>,
    rep: Representation,
    tag: Option<usize>,
    params: Option<Seq<Seq<char>>>,
    i: int,
) -> (tables: Seq<TypesView>)
    requires
        group_supported(types, group, name, rep, params),
        group.group_choices@.len() != 1,
        0 <= i < group.group_choices@.len(),
        group.group_choices@[i].group_entries@.len() != 1,
    ensures
        ({
            let choices = group.group_choices@;
            let entries = choices[i].group_entries@;
            let after = group_defined(types, group, name, rep, tag, params);
            let ident = camel_case(name) + decimal_text(i as nat);
            let made = tables[i + 1].rust_structs[ident];
            let later = tables.skip(i + 1);
            let simple = forall|j: int|
                i < j < choices.len() ==> choice_refers_only(#[trigger] choices[j]);
            &&& tables.len() == choices.len() + 1
            &&& tables[0] == types
            &&& adds_definition(tables.last(), after, after.rust_structs[name], None)
            &&& after.rust_structs[name].ident == name
            &&& tables[i + 1].rust_structs.contains_key(ident)
            &&& made.ident == ident
            &&& made.tag is None
            &&& made.variant matches RustStructTypeView::Record(record) && is_record_of(
                record,
                entries,
                rep,
            )
            &&& simple ==> unchanged_in(later, ident)
            &&& unchanged_in(later, ident) || simple ==> {
                &&& after.rust_structs.contains_key(ident)
                &&& after.rust_structs[ident] == made
            }
            &&& after.rust_structs[name].variant matches RustStructTypeView::GroupChoice {
                variants,
                ..
            } && variants[i].rust_type == RustTypeView::Rust(ident)
        }),
{
    let choices = group.group_choices@;
    let tables = law_group_is_enum(types, group, name, rep, tag, params);
    let after = group_defined(types, group, name, rep, tag, params);
    let ident = record_name(name, i);
    let later = tables.skip(i + 1);
    if let RustStructTypeView::GroupChoice { variants, .. } = after.rust_structs[name].variant {
        lemma_record_is_made(tables, variants, choices, name, rep, i);
        if forall|j: int| i < j < choices.len() ==> choice_refers_only(#[trigger] choices[j]) {
            lemma_records_are_kept(tables, variants, choices, name, rep, i);
        }
    }
    law_record_names_differ(name, i, i);
    if unchanged_in(later, ident) {
        assert(later[later.len() - 1] == tables.last());
        assert(later[0] == tables[i + 1]);
        assert(later[later.len() - 1].rust_structs[ident] == later[0].rust_structs[ident]);
    }
    tables
}

/// Whether `ident` is the name of the record for one of the first `n` choices.
pub open spec fn is_record_name(
    ident: Seq<char>,
    choices: Seq<GroupChoice>,
    name: Seq<char>,
    n: int,
) -> bool {
    exists|i: int|
        0 <= i < n && (#[trigger] choices[i]).group_entries@.len() != 1 && ident == record_name(
            name,
            i,
        )
}

spec fn marks_record(
    before: TypesView,
    after: TypesView,
    choice: GroupChoice,
    ident: Seq<char>,
) -> bool {
    after.plain_groups == if choice.group_entries@.len() == 1 {
        before.plain_groups
    } else {
        before.plain_groups.insert(ident, None)
    }
}

proof fn lemma_plain_groups_of_choice(
    variant: EnumVariantView,
    choice: GroupChoice,
    name: Seq<char>,
    index: int,
    rep: Representation,
    earlier: nat,
    before: TypesView,
    after: TypesView,
)
    requires
        alternative_supported(choice, rep),
        choice_variant(variant, choice, name, index, rep, earlier, before, after),
    ensures
        marks_record(before, after, choice, record_name(name, index)),
{
    reveal(choice_variant);
    if choice.group_entries@.len() == 1 {
        if let GroupEntry::ValueMemberKey { ge } = choice.group_entries@[0] {
            law_type_adds_types_only(before, ge.entry_type);
        }
    } else {
        let ident = record_name(name, index);
        let marked = TypesView { plain_groups: before.plain_groups.insert(ident, None), ..before };
        law_plain_groups_of_record(marked, choice.group_entries@, rep, ident);
    }
}

proof fn lemma_plain_groups_in_turn(
    tables: Seq<TypesView>,
    choices: Seq<GroupChoice>,
    name: Seq<char>,
    ident: Seq<char>,
    n: int,
)
    requires
        forall|i: int|
            0 <= i < choices.len() ==> marks_record(
                tables[i],
                tables[i + 1],
                #[trigger] choices[i],
                record_name(name, i),
            ),
        0 <= n <= choices.len(),
    ensures
        ({
            let groups = tables[n].plain_groups;
            if is_record_name(ident, choices, name, n) {
                groups.contains_key(ident) && groups[ident] is None
            } else {
                &&& groups.contains_key(ident) == tables[0].plain_groups.contains_key(ident)
                &&& groups[ident] == tables[0].plain_groups[ident] || !groups.contains_key(ident)
            }
        }),
    decreases n,
{
    if n > 0 {
        let k = n - 1;
        lemma_plain_groups_in_turn(tables, choices, name, ident, k);
        assert(marks_record(tables[k], tables[n], choices[k], record_name(name, k)));
        if is_record_name(ident, choices, name, k) {
            let i = choose|i: int|
                0 <= i < k && (#[trigger] choices[i]).group_entries@.len() != 1 && ident
                    == record_name(name, i);
            assert(choices[i].group_entries@.len() != 1);
            assert(is_record_name(ident, choices, name, n));
        } else if choices[k].group_entries@.len() != 1 && ident == record_name(name, k) {
            assert(is_record_name(ident, choices, name, n));
        } else if is_record_name(ident, choices, name, n) {
            let i = choose|i: int|
                0 <= i < n && (#[trigger] choices[i]).group_entries@.len() != 1 && ident
                    == record_name(name, i);
            assert(i < k ==> is_record_name(ident, choices, name, k));
        }
    }
}

/// The records for the choices are plain groups, without a definition of their own in the
/// document, and no other group becomes a plain one or stops being one.
pub proof fn law_plain_groups_of_choices(
    types: TypesView,
    group: Group,
    name: Seq<char>,
    rep: Representation,
    tag: Option<usize>,
    params: Option<Seq<Seq<char>>>,
    ident: Seq<char>,
)
    requires
        group_supported(types, group, name, rep, params),
        group.group_choices@.len() != 1,
    ensures
        ({
            let choices = group.group_choices@;
            let groups = group_defined(types, group, name, rep, tag, params).plain_groups;
            if is_record_name(ident, choices, name, choices.len() as int) {
                groups.contains_key(ident) && groups[ident] is None
            } else {
                &&& groups.contains_key(ident) == types.plain_groups.contains_key(ident)
                &&& groups[ident] == types.plain_groups[ident] || !groups.contains_key(ident)
            }
        }),
{
    let choices = group.group_choices@;
    let tables = law_group_is_enum(types, group, name, rep, tag, params);
    let after = group_defined(types, group, name, rep, tag, params);
    if let RustStructTypeView::GroupChoice { variants, .. } = after.rust_structs[name].variant {
        assert forall|i: int| 0 <= i < choices.len() implies marks_record(
            tables[i],
            tables[i + 1],
            #[trigger] choices[i],
            record_name(name, i),
        ) by {
            assert(alternative_supported(choices[i], rep));
            lemma_plain_groups_of_choice(
                variants[i],
                choices[i],
                name,
                i,
                rep,
                named_by_type(choices, variants, variants[i].rust_type.variant_text(), i),
                tables[i],
                tables[i + 1],
            );
        }
        lemma_plain_groups_in_turn(tables, choices, name, ident, choices.len() as int);
    }
}

} // verus!
