//! The functions that add the rules of a document to the table of its types.
use crate::ast::{
    Group, GroupChoice, GroupEntry, MemberKey, Occur, RangeCtlOp, Rule, Type, Type1, Type2,
    TypeRule, Value,
};
use crate::intermediate::{
    fixed_option_view, idents_view, rust_types_view, variants_view, CDDLIdent, EnumVariant,
    FixedValue, GenericDef, GenericInstance, IntermediateTypes, MinMax, Primitive, Representation,
    RustField, RustIdent, RustRecord, RustStruct, RustType, RustTypeView, VariantIdent,
};
use crate::model::{
    alternative_supported, alternatives_meaning, as_signed, choice_variants, choices_meaning,
    element_supported, entries_meaning, entry_key, entry_key_supported, entry_name,
    entry_name_supported, entry_names, entry_optional, entry_raw_name, entry_type_meaning,
    entry_type_supported, field_supported, group_choice_defined, group_choice_supported,
    group_defined, group_supported, index_name, is_null, is_number_literal, is_table,
    number_literal, or_joined, params_view, range_bounds, range_supported, record_meaning,
    record_of, record_supported, rule_defined, rule_params, rule_supported, size_bounds,
    size_supported, table_supported, table_types, type1_defined, type1_supported,
    type2_field_name, type2_meaning, type2_supported, type_choices_defined,
    type_choices_supported, type_field_name, type_meaning, type_supported, value_text,
    variant_texts,
};
use crate::table::Table;
use crate::text::{concatenated, decimal, joined, mask_alphanumeric, same_text, signed_decimal};
use crate::utils::{
    append_number_if_duplicate, camel_case, convert_to_camel_case, convert_to_snake_case,
    counts_uses, is_identifier_user_defined, lemma_count_use, numbered, snake_case, uses,
};
use vstd::pervasive::unreached;
use vstd::prelude::*;
use vstd::utf8::valid_utf8;

verus! {

/// An unsigned number as a signed number of the same width.
fn signed(value: usize) -> (res: isize)
    ensures
        res == as_signed(value),
{
    if value <= isize::MAX as usize {
        value as isize
    } else {
        -((usize::MAX - value) as isize) - 1
    }
}

/// The value of an integer literal.
pub fn type2_to_number_literal(type2: &Type2) -> (res: isize)
    requires
        is_number_literal(*type2),
    ensures
        res == number_literal(*type2),
{
    match type2 {
        Type2::UintValue { value } => signed(*value),
        Type2::IntValue { value } => *value,
        _ => unreached(),
    }
}

/// The bounds that `.size` puts on a type.
fn parse_size_operand(type2: &Type2) -> (res: MinMax)
    requires
        size_supported(*type2),
    ensures
        res == size_bounds(*type2),
{
    match type2 {
        Type2::ParenthesizedType { pt } => {
            let inner_type = &pt.type_choices[0];
            let min: isize = type2_to_number_literal(&inner_type.type2);
            let max: isize = match &inner_type.operator {
                Some((RangeCtlOp::RangeOp { is_inclusive }, upper)) => {
                    let value: isize = type2_to_number_literal(upper);
                    if *is_inclusive {
                        value
                    } else {
                        value + 1
                    }
                },
                _ => min,
            };
            (Some(min), Some(max))
        },
        _ => {
            let value: isize = type2_to_number_literal(type2);
            (Some(value), Some(value))
        },
    }
}

/// The bounds, from below and from above, that an operator puts on a type.
pub fn parse_range_operator(range: &(RangeCtlOp, Type2)) -> (res: MinMax)
    requires
        range_supported(*range),
    ensures
        res == range_bounds(*range),
{
    match &range.0 {
        RangeCtlOp::RangeOp { .. } => unreached(),
        RangeCtlOp::CtlOp { ctrl } => if same_text(ctrl, ".eq") {
            let value: isize = type2_to_number_literal(&range.1);
            (Some(value), Some(value))
        } else if same_text(ctrl, ".ne") {
            let value: isize = type2_to_number_literal(&range.1);
            (Some(value + 1), Some(value - 1))
        } else if same_text(ctrl, ".le") {
            (None, Some(type2_to_number_literal(&range.1)))
        } else if same_text(ctrl, ".lt") {
            (None, Some(type2_to_number_literal(&range.1) - 1))
        } else if same_text(ctrl, ".ge") {
            (Some(type2_to_number_literal(&range.1)), None)
        } else if same_text(ctrl, ".gt") {
            (Some(type2_to_number_literal(&range.1) + 1), None)
        } else {
            parse_size_operand(&range.1)
        },
    }
}

/// Whether a type is the one that `null` alone has.
pub fn type2_is_null(t2: &Type2) -> (res: bool)
    ensures
        res == is_null(*t2),
{
    match t2 {
        Type2::Typename { ident, .. } => same_text(&ident.ident, "null") || same_text(
            &ident.ident,
            "nil",
        ),
        _ => false,
    }
}

pub open spec fn text_option_view(text: Option<String>) -> Option<Seq<char>> {
    match text {
        Some(text) => Some(text@),
        None => None,
    }
}

fn type2_to_field_name(t2: &Type2) -> (res: Option<String>)
    ensures
        text_option_view(res) == type2_field_name(*t2),
    decreases t2,
{
    match t2 {
        Type2::Typename { ident, .. } => Some(ident.to_string()),
        Type2::TextValue { value } => Some(value.clone()),
        Type2::Array { group } => if group.group_choices.len() == 1
            && group.group_choices[0].group_entries.len() == 1 {
            match &group.group_choices[0].group_entries[0] {
                GroupEntry::ValueMemberKey { ge } => match type_to_field_name(&ge.entry_type) {
                    Some(name) => Some(concatenated(name.as_str(), "s")),
                    None => None,
                },
                GroupEntry::TypeGroupname { ge } => Some(
                    concatenated(ge.name.to_string().as_str(), "s"),
                ),
                GroupEntry::InlineGroup { .. } => None,
            }
        } else {
            None
        },
        _ => None,
    }
}

/// The name that a field can take from its type.
pub fn type_to_field_name(t: &Type) -> (res: Option<String>)
    ensures
        text_option_view(res) == type_field_name(*t),
    decreases t,
{
    if t.type_choices.len() == 1 {
        type2_to_field_name(&t.type_choices[0].type2)
    } else if t.type_choices.len() == 2 {
        let a = &t.type_choices[0].type2;
        let b = &t.type_choices[1].type2;
        if type2_is_null(a) {
            type2_to_field_name(b)
        } else if type2_is_null(b) {
            type2_to_field_name(a)
        } else {
            None
        }
    } else {
        None
    }
}

/// What one alternative of a type is represented by.
pub fn rust_type_from_type2(types: &mut IntermediateTypes, type2: &Type2) -> (res: RustType)
    requires
        type2_supported(*type2),
    ensures
        (res@, final(types)@) == type2_meaning(old(types)@, *type2),
    decreases type2,
{
    match type2 {
        Type2::UintValue { value } => RustType::Fixed(FixedValue::Uint(*value)),
        Type2::IntValue { value } => RustType::Fixed(FixedValue::Int(*value)),
        Type2::TextValue { value } => RustType::Fixed(FixedValue::Text(value.clone())),
        Type2::Typename { ident, generic_arg } => {
            let cddl_ident = CDDLIdent::new(ident.ident.clone());
            match generic_arg {
                Some(args) => {
                    let generic_args = rust_types_from_choices(types, &args.args);
                    let mut name = concatenated(ident.ident.as_str(), "_");
                    name.append(joined_variant_names(&generic_args).as_str());
                    let instance_cddl_ident = CDDLIdent::new(name);
                    let instance_ident = RustIdent::new(instance_cddl_ident.clone());
                    let generic_ident = RustIdent::new(cddl_ident);
                    types.register_generic_instance(
                        GenericInstance::new(instance_ident, generic_ident, generic_args),
                    );
                    types.new_type(&instance_cddl_ident)
                },
                None => types.new_type(&cddl_ident),
            }
        },
        Type2::Array { group } => {
            assert(element_supported(group.group_choices@[0].group_entries@[0]));
            let element_type = match &group.group_choices[0].group_entries[0] {
                GroupEntry::ValueMemberKey { ge } => rust_type(types, &ge.entry_type),
                GroupEntry::TypeGroupname { ge } => types.new_type(
                    &CDDLIdent::new(ge.name.to_string()),
                ),
                GroupEntry::InlineGroup { .. } => unreached(),
            };
            let array_wrapper_name = element_type.name_as_array();
            types.create_and_register_array_type(element_type, array_wrapper_name.as_str())
        },
        Type2::Mapping { group } => {
            assert(table_supported(group.group_choices@[0]));
            match table_domain_range(&group.group_choices[0], Representation::Mapping) {
                Some((domain, range)) => {
                    let key_type = rust_type_from_type2(types, domain);
                    let value_type = rust_type(types, range);
                    let mut name = concatenated("Map", key_type.for_member().as_str());
                    name.append("To");
                    name.append(value_type.for_member().as_str());
                    let table_type_ident = RustIdent::new(CDDLIdent::new(name));
                    types.register_rust_struct(
                        RustStruct::new_table(
                            table_type_ident,
                            None,
                            key_type.clone(),
                            value_type.clone(),
                        ),
                    );
                    RustType::Mapping(Box::new(key_type), Box::new(value_type))
                },
                None => unreached(),
            }
        },
        Type2::TaggedData { tag, t } => {
            let inner = rust_type(types, t);
            match tag {
                Some(tag) => RustType::Tagged(*tag, Box::new(inner)),
                None => unreached(),
            }
        },
        _ => unreached(),
    }
}

/// What each of the alternatives is represented by.
pub fn rust_types_from_choices(
    types: &mut IntermediateTypes,
    choices: &Vec<Type1>,
) -> (res: Vec<RustType>)
    requires
        forall|i: int| 0 <= i < choices@.len() ==> type2_supported((#[trigger] choices@[i]).type2),
    ensures
        (rust_types_view(res@), final(types)@) == choices_meaning(old(types)@, choices@),
        res@.len() == choices@.len(),
    decreases choices,
{
    let mut res: Vec<RustType> = Vec::new();
    let mut i: usize = 0;
    while i < choices.len()
        invariant
            i <= choices@.len(),
            res@.len() == i,
            forall|j: int|
                0 <= j < choices@.len() ==> type2_supported((#[trigger] choices@[j]).type2),
            (rust_types_view(res@), types@) == choices_meaning(
                old(types)@,
                choices@.take(i as int),
            ),
        decreases choices@.len() - i,
    {
        let ghost before = res@;
        let t = rust_type_from_type2(types, &choices[i].type2);
        proof {
            assert(choices@.take(i + 1).drop_last() =~= choices@.take(i as int));
            assert(rust_types_view(before.push(t)) =~= rust_types_view(before).push(t@));
        }
        res.push(t);
        i += 1;
    }
    proof {
        assert(choices@.take(choices@.len() as int) =~= choices@);
    }
    res
}

/// The names of the variants that hold values of the types, with underscores between.
fn joined_variant_names(types: &Vec<RustType>) -> (res: String)
    ensures
        res@ == joined(variant_texts(rust_types_view(types@)), "_"@),
{
    let ghost texts = variant_texts(rust_types_view(types@));
    let mut res = String::new();
    let mut i: usize = 0;
    while i < types.len()
        invariant
            i <= types@.len(),
            texts == variant_texts(rust_types_view(types@)),
            res@ == joined(texts.take(i as int), "_"@),
        decreases types@.len() - i,
    {
        proof {
            assert(texts.take(i + 1).drop_last() =~= texts.take(i as int));
        }
        if i > 0 {
            res.append("_");
        }
        res.append(types[i].for_variant().to_string().as_str());
        i += 1;
    }
    proof {
        assert(texts.take(types@.len() as int) =~= texts);
    }
    res
}

/// What a type is represented by.
pub fn rust_type(types: &mut IntermediateTypes, t: &Type) -> (res: RustType)
    requires
        type_supported(*t),
    ensures
        (res@, final(types)@) == type_meaning(old(types)@, *t),
    decreases t,
{
    if t.type_choices.len() == 1 {
        rust_type_from_type2(types, &t.type_choices[0].type2)
    } else {
        if t.type_choices.len() == 2 {
            let a = &t.type_choices[0].type2;
            let b = &t.type_choices[1].type2;
            if type2_is_null(a) {
                return RustType::Optional(Box::new(rust_type_from_type2(types, b)));
            }
            if type2_is_null(b) {
                return RustType::Optional(Box::new(rust_type_from_type2(types, a)));
            }
        }
        let alternatives = rust_types_from_choices(types, &t.type_choices);
        let combined_name = or_joined_variant_names(&alternatives);
        let variants = variants_of_types(alternatives);
        let combined_ident = RustIdent::new(CDDLIdent::new(combined_name.clone()));
        types.register_rust_struct(RustStruct::new_type_choice(combined_ident, None, variants));
        types.new_type(&CDDLIdent::new(combined_name))
    }
}

/// The names of the variants that hold values of the types, with `Or` between.
fn or_joined_variant_names(types: &Vec<RustType>) -> (res: String)
    ensures
        res@ == or_joined(variant_texts(rust_types_view(types@))),
{
    let ghost texts = variant_texts(rust_types_view(types@));
    let mut res = String::new();
    let mut i: usize = 0;
    while i < types.len()
        invariant
            i <= types@.len(),
            texts == variant_texts(rust_types_view(types@)),
            res@ == or_joined(texts.take(i as int)),
        decreases types@.len() - i,
    {
        proof {
            assert(texts.take(i + 1).drop_last() =~= texts.take(i as int));
        }
        if !res.as_str().is_empty() {
            res.append("Or");
        }
        res.append(types[i].for_variant().to_string().as_str());
        i += 1;
    }
    proof {
        assert(texts.take(types@.len() as int) =~= texts);
    }
    res
}

/// The variants of an enum over the types.
fn variants_of_types(types: Vec<RustType>) -> (res: Vec<EnumVariant>)
    requires
        types@.len() <= u32::MAX,
    ensures
        variants_view(res@) == choice_variants(rust_types_view(types@)),
{
    let ghost texts = variant_texts(rust_types_view(types@));
    let mut variant_names_used: Table<u32> = Table::new();
    let mut res: Vec<EnumVariant> = Vec::new();
    let mut i: usize = 0;
    while i < types.len()
        invariant
            i <= types@.len() <= u32::MAX,
            res@.len() == i,
            texts == variant_texts(rust_types_view(types@)),
            counts_uses(variant_names_used@, texts.take(i as int)),
            forall|j: int|
                0 <= j < i ==> (#[trigger] res@[j])@ == choice_variants(
                    rust_types_view(types@),
                )[j],
        decreases types@.len() - i,
    {
        let text = types[i].for_variant().to_string();
        proof {
            assert(texts.take(i + 1) =~= texts.take(i as int).push(text@));
            lemma_count_use(variant_names_used@, texts.take(i as int), text@);
        }
        let variant_name = append_number_if_duplicate(&mut variant_names_used, text);
        res.push(
            EnumVariant::new(VariantIdent::new_custom(variant_name), types[i].clone(), false),
        );
        i += 1;
    }
    proof {
        assert(variants_view(res@) =~= choice_variants(rust_types_view(types@)));
    }
    res
}

/// The variants of an enum over the alternatives of a type.
pub fn create_variants_from_type_choices(
    types: &mut IntermediateTypes,
    type_choices: &Vec<Type1>,
) -> (res: Vec<EnumVariant>)
    requires
        type_choices@.len() <= u32::MAX,
        forall|i: int|
            0 <= i < type_choices@.len() ==> type2_supported((#[trigger] type_choices@[i]).type2),
    ensures
        variants_view(res@) == choice_variants(choices_meaning(old(types)@, type_choices@).0),
        final(types)@ == choices_meaning(old(types)@, type_choices@).1,
{
    let alternatives = rust_types_from_choices(types, type_choices);
    variants_of_types(alternatives)
}

/// The types of the keys and of the values, if the choice is a table: a map with one
/// entry.
pub fn table_domain_range(group_choice: &GroupChoice, rep: Representation) -> (res: Option<
    (&Type2, &Type),
>)
    requires
        is_table(*group_choice, rep) ==> table_types(*group_choice) is Some,
    ensures
        match res {
            Some((domain, range)) => is_table(*group_choice, rep) && table_types(*group_choice)
                == Some((*domain, *range)),
            None => !is_table(*group_choice, rep),
        },
{
    match rep {
        Representation::Mapping => if group_choice.group_entries.len() == 1 {
            match &group_choice.group_entries[0] {
                GroupEntry::ValueMemberKey { ge } => match &ge.member_key {
                    Some(MemberKey::Type1 { t1 }) => Some((&t1.type2, &ge.entry_type)),
                    _ => unreached(),
                },
                _ => unreached(),
            }
        } else {
            None
        },
        Representation::Array => None,
    }
}

/// The text of a literal that is a key.
fn value_to_string(value: &Value) -> (res: String)
    requires
        match *value {
            Value::BYTE(b) => valid_utf8(b.bytes()),
            _ => true,
        },
    ensures
        res@ == value_text(*value),
{
    match value {
        Value::INT(i) => concatenated("_", signed_decimal(*i).as_str()),
        Value::UINT(u) => concatenated("_", decimal(*u).as_str()),
        Value::FLOAT(f) => concatenated("_", f.as_str()),
        Value::TEXT(text) => text.clone(),
        Value::BYTE(b) => b.to_string(),
    }
}

fn index_to_field_name(index: usize) -> (res: String)
    ensures
        res@ == index_name(index as nat),
{
    concatenated("index_", decimal(index).as_str())
}

/// The name of the field for the entry at position `index`: the name that the entry
/// has, or else one that it takes from its type or its position, in snake case. The
/// numeral 2, 3, 4 and so on follows a name that was generated before.
pub fn group_entry_to_field_name(
    entry: &GroupEntry,
    index: usize,
    already_generated: &mut Table<u32>,
) -> (res: String)
    requires
        entry_name_supported(*entry),
        uses(old(already_generated)@, snake_case(entry_name(*entry, index as nat))) < u32::MAX,
    ensures
        ({
            let name = snake_case(entry_name(*entry, index as nat));
            let count = uses(old(already_generated)@, name) + 1;
            &&& res@ == numbered(name, count)
            &&& final(already_generated)@ == old(already_generated)@.insert(name, count as u32)
        }),
{
    let raw_name = match entry {
        GroupEntry::ValueMemberKey { ge } => match &ge.member_key {
            Some(member_key) => match member_key {
                MemberKey::Value { value } => mask_alphanumeric(value_to_string(value).as_str()),
                MemberKey::Bareword { ident } => ident.to_string(),
                MemberKey::Type1 { t1 } => match &t1.type2 {
                    Type2::UintValue { value } => concatenated("key_", decimal(*value).as_str()),
                    _ => unreached(),
                },
                MemberKey::NonMemberKey => unreached(),
            },
            None => match type_to_field_name(&ge.entry_type) {
                Some(name) => name,
                None => index_to_field_name(index),
            },
        },
        GroupEntry::TypeGroupname { ge } => {
            let name = ge.name.to_string();
            if is_identifier_user_defined(&name) {
                name
            } else {
                index_to_field_name(index)
            }
        },
        GroupEntry::InlineGroup { .. } => unreached(),
    };
    append_number_if_duplicate(already_generated, convert_to_snake_case(raw_name.as_str()))
}

/// The field name that the entry states, as it is written, and `None` if it states none.
/// [`group_entry_to_field_name`] is the one to make a name from a type.
pub fn group_entry_to_raw_field_name(entry: &GroupEntry) -> (res: Option<String>)
    requires
        !(entry is InlineGroup),
    ensures
        text_option_view(res) == entry_raw_name(*entry),
{
    match entry {
        GroupEntry::ValueMemberKey { ge } => match &ge.member_key {
            Some(MemberKey::Bareword { ident }) => Some(ident.to_string()),
            _ => None,
        },
        GroupEntry::TypeGroupname { .. } => None,
        GroupEntry::InlineGroup { .. } => unreached(),
    }
}

/// Whether the entry may be left out.
pub fn group_entry_optional(entry: &GroupEntry) -> (res: bool)
    requires
        !(entry is InlineGroup),
    ensures
        res == entry_optional(*entry),
{
    let occur = match entry {
        GroupEntry::ValueMemberKey { ge } => &ge.occur,
        GroupEntry::TypeGroupname { ge } => &ge.occur,
        GroupEntry::InlineGroup { .. } => unreached(),
    };
    match occur {
        Some(Occur::Optional) => true,
        _ => false,
    }
}

/// What the type of an entry is represented by.
pub fn group_entry_to_type(types: &mut IntermediateTypes, entry: &GroupEntry) -> (res: RustType)
    requires
        entry_type_supported(*entry),
    ensures
        (res@, final(types)@) == entry_type_meaning(old(types)@, *entry),
{
    match entry {
        GroupEntry::ValueMemberKey { ge } => rust_type(types, &ge.entry_type),
        GroupEntry::TypeGroupname { ge } => types.new_type(&CDDLIdent::new(ge.name.to_string())),
        GroupEntry::InlineGroup { .. } => unreached(),
    }
}

/// The key of the entry, if it has one.
pub fn group_entry_to_key(entry: &GroupEntry) -> (res: Option<FixedValue>)
    requires
        entry_key_supported(*entry),
    ensures
        fixed_option_view(res) == entry_key(*entry),
{
    match entry {
        GroupEntry::ValueMemberKey { ge } => match &ge.member_key {
            Some(MemberKey::Value { value }) => match value {
                Value::UINT(x) => Some(FixedValue::Uint(*x)),
                Value::INT(x) => Some(FixedValue::Int(*x)),
                Value::TEXT(x) => Some(FixedValue::Text(x.clone())),
                _ => unreached(),
            },
            Some(MemberKey::Bareword { ident }) => Some(FixedValue::Text(ident.to_string())),
            Some(MemberKey::Type1 { t1 }) => match &t1.type2 {
                Type2::UintValue { value } => Some(FixedValue::Uint(*value)),
                Type2::IntValue { value } => Some(FixedValue::Int(*value)),
                Type2::TextValue { value } => Some(FixedValue::Text(value.clone())),
                _ => unreached(),
            },
            Some(MemberKey::NonMemberKey) => unreached(),
            None => None,
        },
        _ => None,
    }
}

/// The record that has the entries of the choice as its fields.
pub fn parse_record_from_group_choice(
    types: &mut IntermediateTypes,
    rep: Representation,
    group_choice: &GroupChoice,
) -> (res: RustRecord)
    requires
        record_supported(group_choice.group_entries@, rep),
    ensures
        (res@, final(types)@) == record_meaning(
            old(types)@,
            group_choice.group_entries@,
            rep,
        ),
{
    let entries = &group_choice.group_entries;
    let ghost names = entry_names(entries@);
    let ghost record = record_meaning(old(types)@, entries@, rep).0;
    let ghost mut field_types: Seq<RustTypeView> = Seq::empty();
    let mut generated_fields: Table<u32> = Table::new();
    let mut fields: Vec<RustField> = Vec::new();
    let mut index: usize = 0;
    while index < entries.len()
        invariant
            index <= entries@.len(),
            fields@.len() == index,
            record_supported(entries@, rep),
            names == entry_names(entries@),
            counts_uses(generated_fields@, names.take(index as int)),
            field_types.len() == index,
            (field_types, types@) == entries_meaning(
                old(types)@,
                entries@.take(index as int),
                rep,
            ),
            forall|j: int|
                0 <= j < index ==> (#[trigger] fields@[j])@ == record_of(
                    entries@,
                    rep,
                    field_types,
                ).fields[j],
        decreases entries@.len() - index,
    {
        let group_entry = &entries[index];
        assert(field_supported(entries@[index as int], rep));
        proof {
            assert(entries@.take(index + 1).drop_last() =~= entries@.take(index as int));
            assert(names.take(index + 1) =~= names.take(index as int).push(names[index as int]));
            lemma_count_use(
                generated_fields@,
                names.take(index as int),
                names[index as int],
            );
        }
        let field_name = group_entry_to_field_name(group_entry, index, &mut generated_fields);
        let field_type = group_entry_to_type(types, group_entry);
        if let RustType::Rust(ident) = &field_type {
            types.set_rep_if_plain_group(ident, rep);
        }
        let optional_field = group_entry_optional(group_entry);
        let key = match rep {
            Representation::Mapping => group_entry_to_key(group_entry),
            Representation::Array => None,
        };
        proof {
            field_types = field_types.push(field_type@);
        }
        fields.push(RustField::new(field_name, field_type, optional_field, key));
        index += 1;
    }
    proof {
        assert(entries@.take(entries@.len() as int) =~= entries@);
    }
    let res = RustRecord { rep, fields };
    proof {
        assert(res@.fields =~= record.fields);
    }
    res
}

/// Defines a choice of a group as the type `name`.
pub fn parse_group_choice(
    types: &mut IntermediateTypes,
    group_choice: &GroupChoice,
    name: &RustIdent,
    rep: Representation,
    tag: Option<usize>,
    generic_params: Option<Vec<RustIdent>>,
)
    requires
        group_choice_supported(*group_choice, rep),
    ensures
        final(types)@ == group_choice_defined(
            old(types)@,
            *group_choice,
            name@,
            rep,
            tag,
            params_view(generic_params),
        ),
{
    let rust_struct = match table_domain_range(group_choice, rep) {
        Some((domain, range)) => {
            let key_type = rust_type_from_type2(types, domain);
            let value_type = rust_type(types, range);
            RustStruct::new_table(name.clone(), tag, key_type, value_type)
        },
        None => {
            let record = parse_record_from_group_choice(types, rep, group_choice);
            RustStruct::new_record(name.clone(), tag, record)
        },
    };
    match generic_params {
        Some(params) => types.register_generic_def(GenericDef::new(params, rust_struct)),
        None => types.register_rust_struct(rust_struct),
    }
}

/// Defines a group as the type `name`: its only choice, or an enum over its choices.
pub fn parse_group(
    types: &mut IntermediateTypes,
    group: &Group,
    name: &RustIdent,
    rep: Representation,
    tag: Option<usize>,
    generic_params: Option<Vec<RustIdent>>,
)
    requires
        group_supported(old(types)@, *group, name@, rep, params_view(generic_params)),
    ensures
        final(types)@ == group_defined(
            old(types)@,
            *group,
            name@,
            rep,
            tag,
            params_view(generic_params),
        ),
{
    let choices = &group.group_choices;
    if choices.len() == 1 {
        parse_group_choice(types, &choices[0], name, rep, tag, generic_params);
        return ;
    }
    let mut variants_names_used: Table<u32> = Table::new();
    let mut variants: Vec<EnumVariant> = Vec::new();
    let mut i: usize = 0;
    while i < choices.len()
        invariant
            i <= choices@.len() <= u32::MAX,
            variants@.len() == i,
            forall|j: int|
                0 <= j < choices@.len() ==> alternative_supported(#[trigger] choices@[j], rep),
            ({
                let before = alternatives_meaning(
                    old(types)@,
                    choices@.take(i as int),
                    name@,
                    rep,
                );
                &&& before.variants == variants_view(variants@)
                &&& before.types == types@
                &&& before.used.len() <= i
                &&& counts_uses(variants_names_used@, before.used)
            }),
        decreases choices@.len() - i,
    {
        let group_choice = &choices[i];
        assert(alternative_supported(choices@[i as int], rep));
        let ghost before = alternatives_meaning(old(types)@, choices@.take(i as int), name@, rep);
        let ghost variants_before = variants@;
        proof {
            assert(choices@.take(i + 1).drop_last() =~= choices@.take(i as int));
        }
        let variant = if group_choice.group_entries.len() == 1 {
            let group_entry = &group_choice.group_entries[0];
            let ty = group_entry_to_type(types, group_entry);
            let serialize_as_embedded = if let RustType::Rust(ident) = &ty {
                types.set_rep_if_plain_group(ident, rep);
                types.is_plain_group(ident)
            } else {
                false
            };
            let label = match group_entry_to_raw_field_name(group_entry) {
                Some(name) => name,
                None => {
                    let text = ty.for_variant().to_string();
                    proof {
                        lemma_count_use(variants_names_used@, before.used, text@);
                    }
                    append_number_if_duplicate(&mut variants_names_used, text)
                },
            };
            let variant_ident = convert_to_camel_case(label.as_str());
            EnumVariant::new(VariantIdent::new_custom(variant_ident), ty, serialize_as_embedded)
        } else {
            let variant_name = RustIdent::new(
                CDDLIdent::new(concatenated(name.as_str(), decimal(i).as_str())),
            );
            types.mark_plain_group(variant_name.clone(), None);
            parse_group_choice(types, group_choice, &variant_name, rep, None, None);
            EnumVariant::new(
                VariantIdent::new_rust(variant_name.clone()),
                RustType::Rust(variant_name),
                true,
            )
        };
        proof {
            assert(variants_view(variants_before.push(variant)) =~= variants_view(
                variants_before,
            ).push(variant@));
        }
        variants.push(variant);
        i += 1;
    }
    proof {
        assert(choices@.take(choices@.len() as int) =~= choices@);
    }
    types.register_rust_struct(RustStruct::new_group_choice(name.clone(), tag, variants, rep));
}

/// Defines `name` as one of the alternatives.
pub fn parse_type_choices(
    types: &mut IntermediateTypes,
    name: &RustIdent,
    type_choices: &Vec<Type1>,
    tag: Option<usize>,
    generic_params: Option<Vec<RustIdent>>,
)
    requires
        type_choices_supported(type_choices@, params_view(generic_params)),
    ensures
        final(types)@ == type_choices_defined(
            old(types)@,
            name@,
            type_choices@,
            tag,
            params_view(generic_params),
        ),
{
    let optional_inner_type = if type_choices.len() == 2 {
        let a = &type_choices[0].type2;
        let b = &type_choices[1].type2;
        if type2_is_null(a) {
            Some(b)
        } else if type2_is_null(b) {
            Some(a)
        } else {
            None
        }
    } else {
        None
    };
    match optional_inner_type {
        Some(inner_type2) => {
            let inner_rust_type = rust_type_from_type2(types, inner_type2);
            let optional = RustType::Optional(Box::new(inner_rust_type));
            match tag {
                Some(_) => types.register_rust_struct(
                    RustStruct::new_wrapper(name.clone(), tag, optional, None),
                ),
                None => types.register_type_alias(name.clone(), optional, true),
            }
        },
        None => {
            let variants = create_variants_from_type_choices(types, type_choices);
            let rust_struct = RustStruct::new_type_choice(name.clone(), tag, variants);
            match generic_params {
                Some(params) => types.register_generic_def(GenericDef::new(params, rust_struct)),
                None => types.register_rust_struct(rust_struct),
            }
        },
    }
}

/// Defines a type as the type `name`, inside of a tag or not.
pub fn parse_type(
    types: &mut IntermediateTypes,
    name: &RustIdent,
    type1: &Type1,
    outer_tag: Option<usize>,
    generic_params: Option<Vec<RustIdent>>,
)
    requires
        type1_supported(
            old(types)@,
            name@,
            *type1,
            outer_tag,
            params_view(generic_params),
        ),
    ensures
        final(types)@ == type1_defined(
            old(types)@,
            name@,
            *type1,
            outer_tag,
            params_view(generic_params),
        ),
    decreases type1,
{
    let min_max = match &type1.operator {
        Some(range) => Some(parse_range_operator(range)),
        None => None,
    };
    match &type1.type2 {
        Type2::Typename { ident, generic_arg } => {
            let cddl_ident = CDDLIdent::new(ident.to_string());
            if min_max.is_some() {
                let field_type = RustType::Primitive(Primitive::Bytes);
                types.register_rust_struct(
                    RustStruct::new_wrapper(
                        name.clone(),
                        outer_tag,
                        field_type.clone(),
                        min_max,
                    ),
                );
                types.register_type_alias(name.clone(), field_type, false);
            } else {
                let concrete_type = match types.new_type(&cddl_ident) {
                    RustType::Alias(_, ty) => *ty,
                    ty => ty,
                };
                match generic_arg {
                    Some(arg) => {
                        let generic_args = rust_types_from_choices(types, &arg.args);
                        types.register_generic_instance(
                            GenericInstance::new(
                                name.clone(),
                                RustIdent::new(cddl_ident),
                                generic_args,
                            ),
                        );
                    },
                    None => {
                        types.register_type_alias(name.clone(), concrete_type, true);
                    },
                }
            }
        },
        Type2::Mapping { group } => {
            parse_group(
                types,
                group,
                name,
                Representation::Mapping,
                outer_tag,
                generic_params,
            );
        },
        Type2::Array { group } => {
            parse_group(
                types,
                group,
                name,
                Representation::Array,
                outer_tag,
                generic_params,
            );
        },
        Type2::TaggedData { tag, t } => if t.type_choices.len() == 1 {
            let inner_type = &t.type_choices[0];
            match &inner_type.type2 {
                Type2::Typename { ident, .. } => {
                    let new_type = types.new_type(&CDDLIdent::new(ident.to_string()));
                    types.register_rust_struct(
                        RustStruct::new_wrapper(name.clone(), *tag, new_type, min_max),
                    );
                },
                _ => parse_type(types, name, inner_type, *tag, generic_params),
            }
        } else {
            parse_type_choices(types, name, &t.type_choices, *tag, generic_params);
        },
        Type2::IntValue { value } => {
            types.register_type_alias(
                name.clone(),
                RustType::Fixed(FixedValue::Int(*value)),
                true,
            );
        },
        Type2::UintValue { value } => {
            types.register_type_alias(
                name.clone(),
                RustType::Fixed(FixedValue::Uint(*value)),
                true,
            );
        },
        Type2::TextValue { value } => {
            types.register_type_alias(
                name.clone(),
                RustType::Fixed(FixedValue::Text(value.clone())),
                true,
            );
        },
        _ => unreached(),
    }
}

/// The type parameters of a rule, as Rust names.
pub(crate) fn generic_params_of(rule: &TypeRule) -> (res: Option<Vec<RustIdent>>)
    ensures
        params_view(res) == rule_params(*rule),
{
    match &rule.generic_param {
        Some(generic_param) => {
            let params = &generic_param.params;
            let mut idents: Vec<RustIdent> = Vec::new();
            let mut i: usize = 0;
            while i < params.len()
                invariant
                    i <= params@.len(),
                    idents@.len() == i,
                    forall|j: int|
                        0 <= j < i ==> (#[trigger] idents@[j])@ == camel_case(params@[j].text()),
                decreases params@.len() - i,
            {
                idents.push(RustIdent::new(CDDLIdent::new(params[i].to_string())));
                i += 1;
            }
            proof {
                assert(idents_view(idents@) =~= rule_params(*rule)->0);
            }
            Some(idents)
        },
        None => None,
    }
}

/// Adds a rule to the table of types. The rule of a group adds nothing by itself.
pub fn parse_rule(types: &mut IntermediateTypes, cddl_rule: &Rule)
    requires
        rule_supported(old(types)@, *cddl_rule),
    ensures
        final(types)@ == rule_defined(old(types)@, *cddl_rule),
{
    match cddl_rule {
        Rule::Type { rule } => {
            let rust_ident = RustIdent::new(CDDLIdent::new(rule.name.to_string()));
            let generic_params = generic_params_of(rule);
            let type_choices = &rule.value.type_choices;
            if type_choices.len() == 1 {
                parse_type(types, &rust_ident, &type_choices[0], None, generic_params);
            } else {
                parse_type_choices(types, &rust_ident, type_choices, None, generic_params);
            }
        },
        Rule::Group { .. } => {},
    }
}

} // verus!
