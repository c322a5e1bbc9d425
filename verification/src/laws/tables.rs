//! What the table of types keeps, and what its parts are read as.
use crate::ast::{Group, Identifier, SocketPlug};
use crate::intermediate::{
    fields_view, fixed_option_view, idents_view, rust_types_view, variants_view, EnumVariant,
    FixedValue, FixedValueView, GenericDef, GenericDefView, GenericInstance, GenericInstanceView,
    Primitive, Representation, RustRecord, RustStruct, RustStructType, RustStructTypeView,
    RustStructView, RustType, RustTypeView, TypeAlias, TypesView, VariantIdent, VariantIdentView,
};
use crate::model::params_view;
use crate::parsing::text_option_view;
use crate::text::decimal_text;
use crate::utils::{camel_case, numbered, uses};
use vstd::prelude::*;

verus! {

// Adding and finding.

/// Nothing is defined in the empty table.
pub proof fn law_empty(ident: Seq<char>)
    ensures
        ({
            let types = TypesView::empty();
            &&& !types.plain_groups.contains_key(ident)
            &&& !types.plain_group_reps.contains_key(ident)
            &&& !types.type_aliases.contains_key(ident)
            &&& !types.rust_structs.contains_key(ident)
            &&& !types.generic_defs.contains_key(ident)
            &&& !types.generic_instances.contains_key(ident)
        }),
{
}

/// The values under all names but one are the same.
pub open spec fn same_but_at<V>(
    a: Map<Seq<char>, V>,
    b: Map<Seq<char>, V>,
    ident: Seq<char>,
) -> bool {
    forall|other: Seq<char>|
        other != ident ==> (#[trigger] a.contains_key(other) == b.contains_key(other)) && (
        a.contains_key(other) ==> a[other] == b[other])
}

/// The last definition of a name is the one that is found, and adding it changes nothing
/// else.
pub proof fn law_definition_is_found(types: TypesView, definition: RustStructView)
    ensures
        ({
            let after = types.register_rust_struct(definition);
            &&& after.rust_structs.contains_key(definition.ident)
            &&& after.rust_structs[definition.ident] == definition
            &&& same_but_at(types.rust_structs, after.rust_structs, definition.ident)
            &&& after == (TypesView { rust_structs: after.rust_structs, ..types })
        }),
{
}

/// The last definition of a name with type parameters is the one that is found, and adding
/// it changes nothing else.
pub proof fn law_generic_definition_is_found(types: TypesView, def: GenericDefView)
    ensures
        ({
            let after = types.register_generic_def(def);
            let ident = def.definition.ident;
            &&& after.generic_defs.contains_key(ident)
            &&& after.generic_defs[ident] == def
            &&& same_but_at(types.generic_defs, after.generic_defs, ident)
            &&& after == (TypesView { generic_defs: after.generic_defs, ..types })
        }),
{
}

/// The last instance of a name is the one that is found, and adding it changes nothing else.
pub proof fn law_instance_is_found(types: TypesView, instance: GenericInstanceView)
    ensures
        ({
            let after = types.register_generic_instance(instance);
            let ident = instance.instance_ident;
            &&& after.generic_instances.contains_key(ident)
            &&& after.generic_instances[ident] == instance
            &&& same_but_at(types.generic_instances, after.generic_instances, ident)
            &&& after == (TypesView { generic_instances: after.generic_instances, ..types })
        }),
{
}

/// The last alias of a name is the one that is found, and adding it changes nothing else.
pub proof fn law_alias_is_found(
    types: TypesView,
    ident: Seq<char>,
    base_type: RustTypeView,
    generate: bool,
)
    ensures
        ({
            let after = types.register_type_alias(ident, base_type, generate);
            &&& after.type_aliases.contains_key(ident)
            &&& after.type_aliases[ident].base_type == base_type
            &&& after.type_aliases[ident].generate == generate
            &&& same_but_at(types.type_aliases, after.type_aliases, ident)
            &&& after == (TypesView { type_aliases: after.type_aliases, ..types })
        }),
{
}

/// A name that is marked as that of a plain group is one, with the definition that it is
/// marked with. Marking it changes nothing else.
pub proof fn law_plain_group_is_found(types: TypesView, ident: Seq<char>, group: Option<Group>)
    ensures
        ({
            let after = types.mark_plain_group(ident, group);
            &&& after.is_plain_group(ident)
            &&& after.plain_groups[ident] == group
            &&& same_but_at(types.plain_groups, after.plain_groups, ident)
            &&& after == (TypesView { plain_groups: after.plain_groups, ..types })
            &&& forall|other: Seq<char>|
                other != ident ==> #[trigger] after.is_plain_group(other) == types.is_plain_group(
                    other,
                )
        }),
{
}

/// The representation of a plain group is the last one that is set, and for any other name
/// there is nothing to set. Setting it changes nothing else.
pub proof fn law_representation_is_found(types: TypesView, ident: Seq<char>, rep: Representation)
    ensures
        ({
            let after = types.set_rep_if_plain_group(ident, rep);
            &&& types.plain_groups.contains_key(ident) ==> {
                &&& after.plain_group_reps.contains_key(ident)
                &&& after.plain_group_reps[ident] == rep
                &&& same_but_at(types.plain_group_reps, after.plain_group_reps, ident)
                &&& after == (TypesView { plain_group_reps: after.plain_group_reps, ..types })
            }
            &&& !types.plain_groups.contains_key(ident) ==> after == types
            &&& types.is_plain_group(ident) <==> types.plain_groups.contains_key(ident)
        }),
{
}

/// An array is defined under its name, as a Rust name, with its element and without a tag.
pub proof fn law_array_is_found(types: TypesView, element_type: RustTypeView, name: Seq<char>)
    ensures
        ({
            let after = types.register_array_type(element_type, name);
            let ident = camel_case(name);
            &&& after.rust_structs.contains_key(ident)
            &&& after.rust_structs[ident].ident == ident
            &&& after.rust_structs[ident].tag is None
            &&& after.rust_structs[ident].variant == RustStructTypeView::Array { element_type }
            &&& same_but_at(types.rust_structs, after.rust_structs, ident)
            &&& after == (TypesView { rust_structs: after.rust_structs, ..types })
        }),
{
}

// Counted names.

/// A name that is not in the table of counts has not been used, and one that is there has
/// been used as often as the table says. Its first use is the name itself, and a later one
/// is followed by its number.
pub proof fn law_counted_uses(counts: Map<Seq<char>, u32>, name: Seq<char>, k: nat)
    ensures
        !counts.contains_key(name) ==> uses(counts, name) == 0,
        counts.contains_key(name) ==> uses(counts, name) == counts[name],
        numbered(name, 1) == name,
        k > 1 ==> numbered(name, k) == name + decimal_text(k),
{
}

// What is read.

/// An identifier is read as its name, after one `$` for the socket of a type and two for
/// that of a group.
pub proof fn law_identifier_text(ident: Identifier)
    ensures
        match ident.socket {
            Some(SocketPlug::TYPE) => ident.text() == "$"@ + ident.ident@,
            Some(SocketPlug::GROUP) => ident.text() == "$$"@ + ident.ident@,
            None => ident.text() == ident.ident@,
        },
{
    reveal_strlit("$");
    reveal_strlit("$$");
    assert("$"@ =~= seq!['$']);
    assert("$$"@ =~= seq!['$', '$']);
}

/// A value of one type alone is read as it is.
pub proof fn law_value_is_read(value: FixedValue)
    ensures
        match value {
            FixedValue::Null => value@ == FixedValueView::Null,
            FixedValue::Bool(b) => value@ == FixedValueView::Bool(b),
            FixedValue::Int(i) => value@ == FixedValueView::Int(i),
            FixedValue::Uint(u) => value@ == FixedValueView::Uint(u),
            FixedValue::Text(text) => value@ == FixedValueView::Text(text@),
        },
        fixed_option_view(Some(value)) == Some(value@),
        fixed_option_view(None) is None,
{
}

/// A type is read as it is, all the way down.
pub proof fn law_type_is_read(t: RustType)
    ensures
        match t {
            RustType::Fixed(value) => t@ == RustTypeView::Fixed(value@),
            RustType::Primitive(primitive) => t@ == RustTypeView::Primitive(primitive),
            RustType::Rust(ident) => t@ == RustTypeView::Rust(ident@),
            RustType::Array(element) => t@ == RustTypeView::Array(Box::new(element@)),
            RustType::Tagged(tag, inner) => t@ == RustTypeView::Tagged(tag, Box::new(inner@)),
            RustType::Optional(inner) => t@ == RustTypeView::Optional(Box::new(inner@)),
            RustType::Mapping(key, value) => t@ == RustTypeView::Mapping(
                Box::new(key@),
                Box::new(value@),
            ),
            RustType::Alias(ident, inner) => t@ == RustTypeView::Alias(ident@, Box::new(inner@)),
        },
{
}

/// The variants of an enum are read as they are, in order.
pub proof fn law_variants_are_read(variants: Seq<EnumVariant>)
    ensures
        variants_view(variants).len() == variants.len(),
        forall|i: int|
            0 <= i < variants.len() ==> {
                let read = #[trigger] variants_view(variants)[i];
                &&& read == variants[i]@
                &&& read.rust_type == variants[i].rust_type@
                &&& read.serialize_as_embedded_group == variants[i].serialize_as_embedded_group
                &&& match variants[i].name {
                    VariantIdent::Custom(name) => read.name == VariantIdentView::Custom(name@),
                    VariantIdent::Rust(ident) => read.name == VariantIdentView::Rust(ident@),
                }
            },
{
}

/// A record is read as it is, its fields in order.
pub proof fn law_record_is_read(record: RustRecord)
    ensures
        record@.rep == record.rep,
        record@.fields.len() == record.fields@.len(),
        record@.fields == fields_view(record.fields@),
        forall|i: int|
            0 <= i < record.fields@.len() ==> {
                let field = record.fields@[i];
                let read = #[trigger] record@.fields[i];
                &&& read == field@
                &&& read.name == field.name@
                &&& read.rust_type == field.rust_type@
                &&& read.optional == field.optional
                &&& match field.key {
                    Some(key) => read.key == Some(key@),
                    None => read.key is None,
                }
            },
{
}

/// A definition is read as it is.
pub proof fn law_definition_is_read(definition: RustStruct)
    ensures
        definition@.ident == definition.ident@,
        definition@.tag == definition.tag,
        definition@.variant == definition.variant@,
        match definition.variant {
            RustStructType::Record(record) => definition@.variant == RustStructTypeView::Record(
                record@,
            ),
            RustStructType::Table { domain, range } => definition@.variant
                == RustStructTypeView::Table { domain: domain@, range: range@ },
            RustStructType::Array { element_type } => definition@.variant
                == RustStructTypeView::Array { element_type: element_type@ },
            RustStructType::TypeChoice { variants } => definition@.variant
                == RustStructTypeView::TypeChoice { variants: variants_view(variants@) },
            RustStructType::GroupChoice { variants, rep } => definition@.variant
                == RustStructTypeView::GroupChoice { variants: variants_view(variants@), rep },
            RustStructType::Wrapper { wrapped, min_max } => definition@.variant
                == RustStructTypeView::Wrapper { wrapped: wrapped@, min_max },
        },
{
}

/// A definition with type parameters is read as it is, the parameters in order.
pub proof fn law_generic_definition_is_read(def: GenericDef)
    ensures
        def@.definition == def.definition@,
        def@.params.len() == def.params@.len(),
        forall|i: int|
            0 <= i < def.params@.len() ==> #[trigger] def@.params[i] == def.params@[i]@,
        params_view(Some(def.params)) == Some(def@.params),
        params_view(None) is None,
        def@.params == idents_view(def.params@),
{
}

/// An instance is read as it is, the arguments in order.
pub proof fn law_instance_is_read(instance: GenericInstance)
    ensures
        instance@.instance_ident == instance.instance_ident@,
        instance@.generic_ident == instance.generic_ident@,
        instance@.generic_args.len() == instance.generic_args@.len(),
        forall|i: int|
            0 <= i < instance.generic_args@.len() ==> #[trigger] instance@.generic_args[i]
                == instance.generic_args@[i]@,
        instance@.generic_args == rust_types_view(instance.generic_args@),
{
}

/// An alias is read as it is.
pub proof fn law_alias_is_read(alias: TypeAlias)
    ensures
        alias@.base_type == alias.base_type@,
        alias@.generate == alias.generate,
{
}

/// A name that may be missing is read as it is.
pub proof fn law_optional_text_is_read(text: Option<String>)
    ensures
        match text {
            Some(name) => text_option_view(text) == Some(name@),
            None => text_option_view(text) is None,
        },
{
}

} // verus!
