//! What the types that occur inside of a definition are represented by.
use crate::ast::{GenericArg, Group, GroupEntry, Identifier, MemberKey, Type, Type1, Type2};
use crate::intermediate::{
    EnumVariantView, FixedValueView, GenericInstanceView, RustStructTypeView, RustStructView,
    RustTypeView, TypesView, VariantIdentView,
};
use crate::laws::{lemma_choices_add_types, lemma_choices_len};
use crate::laws::names::{earlier_uses, law_numbered_names, told_apart};
use crate::model::{
    choice_variants, choices_meaning, element_supported, has_only_entry, instance_name, is_null,
    or_joined, table_name, table_supported, type2_meaning, type2_supported, type_meaning,
    type_supported, variant_texts,
};
use crate::utils::{camel_case, numbered_names};
use vstd::prelude::*;

verus! {

/// The types are what the alternatives are represented by, each in the table that the one
/// before it leaves.
pub open spec fn represented_in_turn(
    types: Seq<RustTypeView>,
    choices: Seq<Type1>,
    tables: Seq<TypesView>,
) -> bool {
    &&& types.len() == choices.len()
    &&& tables.len() == choices.len() + 1
    &&& forall|i: int|
        0 <= i < choices.len() ==> type2_meaning(tables[i], (#[trigger] choices[i]).type2) == (
            types[i],
            tables[i + 1],
        )
}

/// Alternatives are represented in the order in which they are written, none is left out,
/// and what one of them defines is there for the next one.
pub proof fn law_alternatives_in_turn(types: TypesView, choices: Seq<Type1>) -> (tables: Seq<
    TypesView,
>)
    ensures
        represented_in_turn(choices_meaning(types, choices).0, choices, tables),
        tables[0] == types,
        tables.last() == choices_meaning(types, choices).1,
    decreases choices.len(),
{
    if choices.len() == 0 {
        seq![types]
    } else {
        let before = choices.drop_last();
        let so_far = law_alternatives_in_turn(types, before);
        let tables = so_far.push(choices_meaning(types, choices).1);
        assert forall|i: int| 0 <= i < choices.len() implies type2_meaning(
            tables[i],
            (#[trigger] choices[i]).type2,
        ) == (choices_meaning(types, choices).0[i], tables[i + 1]) by {
            if i < before.len() {
                assert(before[i] == choices[i]);
            }
        }
        tables
    }
}

/// What a name stands for is not changed by the types that stand beside it: each alternative
/// that is a name is represented by what the name stands for before them all.
pub proof fn law_names_among_alternatives(types: TypesView, choices: Seq<Type1>, i: int)
    requires
        forall|j: int| 0 <= j < choices.len() ==> type2_supported((#[trigger] choices[j]).type2),
        0 <= i < choices.len(),
    ensures
        choices[i].type2 matches Type2::Typename { ident, generic_arg: None } ==> choices_meaning(
            types,
            choices,
        ).0[i] == types.new_type(ident.ident@),
    decreases choices.len(),
{
    let before = choices.drop_last();
    assert forall|j: int| 0 <= j < before.len() implies type2_supported(
        (#[trigger] before[j]).type2,
    ) by {
        assert(before[j] == choices[j]);
    }
    lemma_choices_len(types, before);
    let (first, made) = choices_meaning(types, before);
    let last = type2_meaning(made, choices.last().type2).0;
    assert(choices_meaning(types, choices).0 == first.push(last));
    if i < before.len() {
        law_names_among_alternatives(types, before, i);
        assert(before[i] == choices[i]);
    } else {
        lemma_choices_add_types(types, before);
        if let Type2::Typename { ident, generic_arg: None } = choices[i].type2 {
            law_named_member(made, ident);
        }
    }
}

/// A literal is represented by its own type, and defines nothing.
pub proof fn law_literal_member(types: TypesView, t: Type2)
    ensures
        t matches Type2::UintValue { value } ==> type2_meaning(types, t) == (
            RustTypeView::Fixed(FixedValueView::Uint(value)),
            types,
        ),
        t matches Type2::IntValue { value } ==> type2_meaning(types, t) == (
            RustTypeView::Fixed(FixedValueView::Int(value)),
            types,
        ),
        t matches Type2::TextValue { value } ==> type2_meaning(types, t) == (
            RustTypeView::Fixed(FixedValueView::Text(value@)),
            types,
        ),
{
}

/// A name is represented by what it stands for, and defines nothing.
pub proof fn law_named_member(types: TypesView, ident: Identifier)
    ensures
        type2_meaning(types, Type2::Typename { ident, generic_arg: None }) == (
            types.new_type(ident.ident@),
            types,
        ),
{
}

/// An instance inside of a definition is defined under a name made of the generic type and
/// the arguments, which are those that are written, in that order. Besides it, only what the
/// arguments define is new.
pub proof fn law_instance_member(types: TypesView, ident: Identifier, arg: GenericArg) -> (tables:
    Seq<TypesView>)
    requires
        type2_supported(Type2::Typename { ident, generic_arg: Some(arg) }),
    ensures
        ({
            let (meaning, after) = type2_meaning(
                types,
                Type2::Typename { ident, generic_arg: Some(arg) },
            );
            let made = tables.last();
            exists|args: Seq<RustTypeView>|
                {
                    let name = #[trigger] instance_name(ident.ident@, args);
                    &&& represented_in_turn(args, arg.args@, tables)
                    &&& after.generic_instances == made.generic_instances.insert(
                        camel_case(name),
                        GenericInstanceView {
                            instance_ident: camel_case(name),
                            generic_ident: camel_case(ident.ident@),
                            generic_args: args,
                        },
                    )
                    &&& after == (TypesView { generic_instances: after.generic_instances, ..made })
                    &&& meaning == types.new_type(name)
                    &&& forall|i: int|
                        0 <= i < args.len() ==> ((#[trigger] arg.args@[i]).type2 matches
                            Type2::Typename { ident, generic_arg: None } ==> args[i]
                            == types.new_type(ident.ident@))
                }
        }),
        tables[0] == types,
{
    let choices = arg.args@;
    let args = choices_meaning(types, choices).0;
    let tables = law_alternatives_in_turn(types, choices);
    lemma_choices_add_types(types, choices);
    let name = instance_name(ident.ident@, args);
    assert forall|i: int| 0 <= i < args.len() implies ((#[trigger] choices[i]).type2 matches
        Type2::Typename { ident, generic_arg: None } ==> args[i] == types.new_type(
        ident.ident@,
    )) by {
        law_names_among_alternatives(types, choices, i);
    }
    tables
}

/// An array is an array of what its only entry is represented by, and is defined as that
/// under the name of the element with an `s`.
pub proof fn law_array_member(types: TypesView, group: Group)
    requires
        type2_supported(Type2::Array { group }),
    ensures
        ({
            let (meaning, after) = type2_meaning(types, Type2::Array { group });
            let (element, made) = match group.group_choices@[0].group_entries@[0] {
                GroupEntry::ValueMemberKey { ge } => type_meaning(types, ge.entry_type),
                GroupEntry::TypeGroupname { ge } => (types.new_type(ge.name.text()), types),
                GroupEntry::InlineGroup { .. } => (meaning, after),
            };
            let ident = camel_case(element.variant_text() + "s"@);
            &&& meaning == RustTypeView::Array(Box::new(element))
            &&& after.rust_structs == made.rust_structs.insert(
                ident,
                RustStructView {
                    ident,
                    tag: None,
                    variant: RustStructTypeView::Array { element_type: element },
                },
            )
            &&& after == (TypesView { rust_structs: after.rust_structs, ..made })
        }),
{
    assert(element_supported(group.group_choices@[0].group_entries@[0]));
    assert(has_only_entry(group));
}

/// A map is a table from what its key is represented by to what its value is represented
/// by, the key first, and is defined as that under the names of both.
pub proof fn law_table_member(types: TypesView, group: Group)
    requires
        type2_supported(Type2::Mapping { group }),
    ensures
        group.group_choices@[0].group_entries@[0] matches GroupEntry::ValueMemberKey { ge }
            && ge.member_key matches Some(MemberKey::Type1 { t1 }) && {
            let (meaning, after) = type2_meaning(types, Type2::Mapping { group });
            let (key, keyed) = type2_meaning(types, t1.type2);
            let (value, made) = type_meaning(keyed, ge.entry_type);
            let ident = camel_case(table_name(key, value));
            &&& meaning == RustTypeView::Mapping(Box::new(key), Box::new(value))
            &&& after.rust_structs == made.rust_structs.insert(
                ident,
                RustStructView {
                    ident,
                    tag: None,
                    variant: RustStructTypeView::Table { domain: key, range: value },
                },
            )
            &&& after == (TypesView { rust_structs: after.rust_structs, ..made })
        },
{
    assert(table_supported(group.group_choices@[0]));
    assert(has_only_entry(group));
}

/// A tagged type keeps its tag and what it tags, and the tag defines nothing.
pub proof fn law_tagged_member(types: TypesView, tag: usize, t: Type)
    ensures
        type2_meaning(types, Type2::TaggedData { tag: Some(tag), t }) == (
            RustTypeView::Tagged(tag, Box::new(type_meaning(types, t).0)),
            type_meaning(types, t).1,
        ),
{
}

/// A type with one alternative is represented by what that is represented by. An operator
/// on it has no part in this.
pub proof fn law_only_alternative(types: TypesView, t: Type)
    requires
        t.type_choices@.len() == 1,
    ensures
        type_meaning(types, t) == type2_meaning(types, t.type_choices@[0].type2),
{
}

/// The variant at each position of an enum over types holds the type at that position, and
/// is named after it, with a number where the name was used before.
pub open spec fn is_enum_over(variants: Seq<EnumVariantView>, types: Seq<RustTypeView>) -> bool {
    &&& variants.len() == types.len()
    &&& forall|i: int|
        0 <= i < types.len() ==> {
            &&& (#[trigger] variants[i]).rust_type == types[i]
            &&& !variants[i].serialize_as_embedded_group
            &&& variants[i].name == VariantIdentView::Custom(
                told_apart(types[i].variant_text(), earlier_uses(variant_texts(types), i)),
            )
        }
}

/// The variants for types hold them in order.
pub proof fn law_variants_hold_types(types: Seq<RustTypeView>)
    ensures
        is_enum_over(choice_variants(types), types),
{
    assert forall|i: int| 0 <= i < types.len() implies {
        &&& (#[trigger] choice_variants(types)[i]).rust_type == types[i]
        &&& !choice_variants(types)[i].serialize_as_embedded_group
        &&& choice_variants(types)[i].name == VariantIdentView::Custom(
            told_apart(types[i].variant_text(), earlier_uses(variant_texts(types), i)),
        )
    } by {
        law_numbered_names(variant_texts(types));
        assert(choice_variants(types)[i].name == VariantIdentView::Custom(
            numbered_names(variant_texts(types))[i],
        ));
        assert(variant_texts(types)[i] == types[i].variant_text());
    }
}

/// A type with several alternatives, none of which is null if they are two, is defined as an
/// enum over them under their names, and represented by what that name then stands for.
pub proof fn law_choice_member(types: TypesView, t: Type) -> (tables: Seq<TypesView>)
    requires
        type_supported(t),
        t.type_choices@.len() != 1,
        t.type_choices@.len() == 2 ==> !is_null(t.type_choices@[0].type2) && !is_null(
            t.type_choices@[1].type2,
        ),
    ensures
        ({
            let (meaning, after) = type_meaning(types, t);
            let made = tables.last();
            exists|alternatives: Seq<RustTypeView>|
                {
                    let name = or_joined(#[trigger] variant_texts(alternatives));
                    let ident = camel_case(name);
                    &&& represented_in_turn(alternatives, t.type_choices@, tables)
                    &&& after.rust_structs == made.rust_structs.insert(
                        ident,
                        after.rust_structs[ident],
                    )
                    &&& after == (TypesView { rust_structs: after.rust_structs, ..made })
                    &&& after.rust_structs[ident].ident == ident
                    &&& after.rust_structs[ident].tag is None
                    &&& after.rust_structs[ident].variant matches RustStructTypeView::TypeChoice {
                        variants,
                    } && is_enum_over(variants, alternatives)
                    &&& meaning == types.new_type(name)
                }
        }),
        tables[0] == types,
{
    let choices = t.type_choices@;
    let alternatives = choices_meaning(types, choices).0;
    let tables = law_alternatives_in_turn(types, choices);
    lemma_choices_add_types(types, choices);
    law_variants_hold_types(alternatives);
    let name = or_joined(variant_texts(alternatives));
    let after = type_meaning(types, t).1;
    let ident = camel_case(name);
    assert(after.rust_structs =~= tables.last().rust_structs.insert(
        ident,
        after.rust_structs[ident],
    ));
    tables
}

/// Null and one more alternative, whichever comes first, are an option of the latter. The
/// option defines nothing.
pub proof fn law_optional_member(types: TypesView, t: Type, i: int, j: int)
    requires
        t.type_choices@.len() == 2,
        0 <= i <= 1,
        j == 1 - i,
        is_null(t.type_choices@[i].type2),
        !is_null(t.type_choices@[j].type2) || i == 0,
    ensures
        type_meaning(types, t) == (
            RustTypeView::Optional(
                Box::new(type2_meaning(types, t.type_choices@[j].type2).0),
            ),
            type2_meaning(types, t.type_choices@[j].type2).1,
        ),
        type_supported(t) <==> type2_supported(t.type_choices@[j].type2),
{
}

/// `null` and `nil`, and no other name and nothing but a name, are the type of null.
pub proof fn law_null(t: Type2)
    ensures
        is_null(t) <==> (t matches Type2::Typename { ident, .. } && (ident.ident@ == "null"@
            || ident.ident@ == "nil"@)),
{
}

// Types that define nothing.

/// Whether the alternative is a literal, a name or a tag on a type of that kind.
pub open spec fn refers_only(t: Type2) -> bool
    decreases t,
{
    match t {
        Type2::UintValue { .. } => true,
        Type2::IntValue { .. } => true,
        Type2::TextValue { .. } => true,
        Type2::Typename { generic_arg, .. } => generic_arg is None,
        Type2::TaggedData { tag, t } => tag is Some && type_refers_only(t),
        _ => false,
    }
}

/// Whether the type consists of one such alternative, with or without null.
pub open spec fn type_refers_only(t: Type) -> bool
    decreases t,
{
    let choices = t.type_choices@;
    if choices.len() == 1 {
        refers_only(choices[0].type2)
    } else if choices.len() == 2 && is_null(choices[0].type2) {
        refers_only(choices[1].type2)
    } else if choices.len() == 2 && is_null(choices[1].type2) {
        refers_only(choices[0].type2)
    } else {
        false
    }
}

/// A literal, a name and a tag on one of them have a representation, and define nothing.
pub proof fn law_references_add_nothing(types: TypesView, t: Type2)
    requires
        refers_only(t),
    ensures
        type2_supported(t),
        type2_meaning(types, t).1 == types,
    decreases t,
{
    if let Type2::TaggedData { tag, t } = t {
        law_type_references_add_nothing(types, t);
    }
}

/// A type that consists of one of these, with or without null, has a representation, and
/// defines nothing.
pub proof fn law_type_references_add_nothing(types: TypesView, t: Type)
    requires
        type_refers_only(t),
    ensures
        type_supported(t),
        type_meaning(types, t).1 == types,
    decreases t,
{
    let choices = t.type_choices@;
    if choices.len() == 1 {
        law_references_add_nothing(types, choices[0].type2);
    } else if choices.len() == 2 && is_null(choices[0].type2) {
        law_references_add_nothing(types, choices[1].type2);
    } else if choices.len() == 2 && is_null(choices[1].type2) {
        law_references_add_nothing(types, choices[0].type2);
    }
}

} // verus!
