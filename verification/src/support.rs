//! Decides which of the syntax has a representation, before it is added to a table of
//! types.
use crate::ast::{
    ByteValue, Group, GroupChoice, GroupEntry, MemberKey, RangeCtlOp, Rule, Type, Type1, Type2,
    Value,
};
use crate::intermediate::{CDDLIdent, IntermediateTypes, Representation, RustIdent};
use crate::model::{
    alternative_supported, element_supported, entry_key, entry_key_supported,
    entry_name_supported, entry_type_supported, field_supported, group_choice_supported,
    group_supported, is_number_literal, operator_supported, params_view, range_supported,
    record_supported, rule_params, rule_supported, size_supported, table_supported,
    type1_supported, type2_supported, type_choices_supported, type_supported,
};
use crate::parsing::{generic_params_of, type2_is_null, type2_to_number_literal};
use crate::text::same_text;
use vstd::prelude::*;
use vstd::utf8::valid_utf8;

verus! {

/// [`std::str::from_utf8`] succeeds on exactly those bytes that are valid UTF-8.
#[verifier::external_body]
fn is_utf8(bytes: &Vec<u8>) -> (res: bool)
    ensures
        res == valid_utf8(bytes@),
{
    std::str::from_utf8(bytes).is_ok()
}

fn is_number(t: &Type2) -> (res: bool)
    ensures
        res == is_number_literal(*t),
{
    match t {
        Type2::UintValue { .. } => true,
        Type2::IntValue { .. } => true,
        _ => false,
    }
}

fn size_is_supported(t: &Type2) -> (res: bool)
    ensures
        res == size_supported(*t),
{
    match t {
        Type2::UintValue { .. } => true,
        Type2::IntValue { .. } => true,
        Type2::ParenthesizedType { pt } => pt.type_choices.len() == 1 && is_number(
            &pt.type_choices[0].type2,
        ) && match &pt.type_choices[0].operator {
            Some((RangeCtlOp::RangeOp { is_inclusive }, upper)) => is_number(upper) && (
            *is_inclusive || type2_to_number_literal(upper) < isize::MAX),
            Some((RangeCtlOp::CtlOp { .. }, _)) => false,
            None => true,
        },
        _ => false,
    }
}

/// Whether an operator with its operand has bounds.
pub fn range_is_supported(range: &(RangeCtlOp, Type2)) -> (res: bool)
    ensures
        res == range_supported(*range),
{
    match &range.0 {
        RangeCtlOp::RangeOp { .. } => false,
        RangeCtlOp::CtlOp { ctrl } => if same_text(ctrl, ".eq") {
            is_number(&range.1)
        } else if same_text(ctrl, ".ne") {
            is_number(&range.1) && isize::MIN < type2_to_number_literal(&range.1)
                && type2_to_number_literal(&range.1) < isize::MAX
        } else if same_text(ctrl, ".le") {
            is_number(&range.1)
        } else if same_text(ctrl, ".lt") {
            is_number(&range.1) && isize::MIN < type2_to_number_literal(&range.1)
        } else if same_text(ctrl, ".ge") {
            is_number(&range.1)
        } else if same_text(ctrl, ".gt") {
            is_number(&range.1) && type2_to_number_literal(&range.1) < isize::MAX
        } else if same_text(ctrl, ".size") {
            size_is_supported(&range.1)
        } else {
            false
        },
    }
}

fn operator_is_supported(operator: &Option<(RangeCtlOp, Type2)>) -> (res: bool)
    ensures
        res == operator_supported(*operator),
{
    match operator {
        Some(range) => range_is_supported(range),
        None => true,
    }
}

fn value_name_is_supported(value: &Value) -> (res: bool)
    ensures
        res == match *value {
            Value::BYTE(b) => valid_utf8(b.bytes()),
            _ => true,
        },
{
    match value {
        Value::BYTE(ByteValue::UTF8(b)) => is_utf8(b),
        Value::BYTE(ByteValue::B16(b)) => is_utf8(b),
        Value::BYTE(ByteValue::B64(b)) => is_utf8(b),
        _ => true,
    }
}

fn entry_name_is_supported(entry: &GroupEntry) -> (res: bool)
    ensures
        res == entry_name_supported(*entry),
{
    match entry {
        GroupEntry::ValueMemberKey { ge } => match &ge.member_key {
            Some(MemberKey::Value { value }) => value_name_is_supported(value),
            Some(MemberKey::Bareword { .. }) => true,
            Some(MemberKey::Type1 { t1 }) => match &t1.type2 {
                Type2::UintValue { .. } => true,
                _ => false,
            },
            Some(MemberKey::NonMemberKey) => false,
            None => true,
        },
        GroupEntry::TypeGroupname { .. } => true,
        GroupEntry::InlineGroup { .. } => false,
    }
}

/// Whether the entry has a key that can be the key of a field.
fn entry_has_key(entry: &GroupEntry) -> (res: bool)
    ensures
        res == (entry_key_supported(*entry) && entry_key(*entry) is Some),
{
    match entry {
        GroupEntry::ValueMemberKey { ge } => match &ge.member_key {
            Some(MemberKey::Value { value }) => match value {
                Value::UINT(_) => true,
                Value::INT(_) => true,
                Value::TEXT(_) => true,
                _ => false,
            },
            Some(MemberKey::Bareword { .. }) => true,
            Some(MemberKey::Type1 { t1 }) => match &t1.type2 {
                Type2::UintValue { .. } => true,
                Type2::IntValue { .. } => true,
                Type2::TextValue { .. } => true,
                _ => false,
            },
            Some(MemberKey::NonMemberKey) => false,
            None => false,
        },
        _ => false,
    }
}

/// Whether each of the alternatives has a representation.
pub fn choices_are_supported(choices: &Vec<Type1>) -> (res: bool)
    ensures
        res == forall|i: int|
            0 <= i < choices@.len() ==> type2_supported((#[trigger] choices@[i]).type2),
    decreases choices,
{
    let mut i: usize = 0;
    while i < choices.len()
        invariant
            i <= choices@.len(),
            forall|j: int| 0 <= j < i ==> type2_supported((#[trigger] choices@[j]).type2),
        decreases choices@.len() - i,
    {
        if !type2_is_supported(&choices[i].type2) {
            return false;
        }
        i += 1;
    }
    true
}

fn element_is_supported(entry: &GroupEntry) -> (res: bool)
    ensures
        res == element_supported(*entry),
    decreases entry,
{
    match entry {
        GroupEntry::ValueMemberKey { ge } => type_is_supported(&ge.entry_type),
        GroupEntry::TypeGroupname { .. } => true,
        GroupEntry::InlineGroup { .. } => false,
    }
}

fn table_is_supported(choice: &GroupChoice) -> (res: bool)
    ensures
        res == table_supported(*choice),
    decreases choice,
{
    choice.group_entries.len() == 1 && match &choice.group_entries[0] {
        GroupEntry::ValueMemberKey { ge } => match &ge.member_key {
            Some(MemberKey::Type1 { t1 }) => type2_is_supported(&t1.type2) && type_is_supported(
                &ge.entry_type,
            ),
            _ => false,
        },
        _ => false,
    }
}

/// Whether one alternative of a type has a representation.
pub fn type2_is_supported(t: &Type2) -> (res: bool)
    ensures
        res == type2_supported(*t),
    decreases t,
{
    match t {
        Type2::UintValue { .. } => true,
        Type2::IntValue { .. } => true,
        Type2::TextValue { .. } => true,
        Type2::Typename { generic_arg, .. } => match generic_arg {
            Some(arg) => choices_are_supported(&arg.args),
            None => true,
        },
        Type2::Array { group } => group.group_choices.len() == 1
            && group.group_choices[0].group_entries.len() == 1 && element_is_supported(
            &group.group_choices[0].group_entries[0],
        ),
        Type2::Mapping { group } => group.group_choices.len() == 1 && table_is_supported(
            &group.group_choices[0],
        ),
        Type2::TaggedData { tag, t } => tag.is_some() && type_is_supported(t),
        _ => false,
    }
}

/// Whether a type has a representation.
pub fn type_is_supported(t: &Type) -> (res: bool)
    ensures
        res == type_supported(*t),
    decreases t,
{
    let choices = &t.type_choices;
    if choices.len() == 2 && type2_is_null(&choices[0].type2) {
        type2_is_supported(&choices[1].type2)
    } else if choices.len() == 2 && type2_is_null(&choices[1].type2) {
        type2_is_supported(&choices[0].type2)
    } else {
        choices.len() as u64 <= u32::MAX as u64 && choices_are_supported(choices)
    }
}

fn entry_type_is_supported(entry: &GroupEntry) -> (res: bool)
    ensures
        res == entry_type_supported(*entry),
{
    match entry {
        GroupEntry::ValueMemberKey { ge } => type_is_supported(&ge.entry_type),
        GroupEntry::TypeGroupname { ge } => ge.generic_arg.is_none(),
        GroupEntry::InlineGroup { .. } => false,
    }
}

fn field_is_supported(entry: &GroupEntry, rep: Representation) -> (res: bool)
    ensures
        res == field_supported(*entry, rep),
{
    entry_name_is_supported(entry) && entry_type_is_supported(entry) && match rep {
        Representation::Mapping => entry_has_key(entry),
        Representation::Array => true,
    }
}

fn record_is_supported(entries: &Vec<GroupEntry>, rep: Representation) -> (res: bool)
    ensures
        res == record_supported(entries@, rep),
{
    if entries.len() as u64 > u32::MAX as u64 {
        return false;
    }
    let mut i: usize = 0;
    while i < entries.len()
        invariant
            i <= entries@.len(),
            forall|j: int| 0 <= j < i ==> field_supported(#[trigger] entries@[j], rep),
        decreases entries@.len() - i,
    {
        if !field_is_supported(&entries[i], rep) {
            assert(!field_supported(entries@[i as int], rep));
            return false;
        }
        i += 1;
    }
    true
}

fn group_choice_is_supported(choice: &GroupChoice, rep: Representation) -> (res: bool)
    ensures
        res == group_choice_supported(*choice, rep),
{
    match rep {
        Representation::Mapping => if choice.group_entries.len() == 1 {
            table_is_supported(choice)
        } else {
            record_is_supported(&choice.group_entries, rep)
        },
        Representation::Array => record_is_supported(&choice.group_entries, rep),
    }
}

fn alternative_is_supported(choice: &GroupChoice, rep: Representation) -> (res: bool)
    ensures
        res == alternative_supported(*choice, rep),
{
    if choice.group_entries.len() == 1 {
        entry_type_is_supported(&choice.group_entries[0])
    } else {
        record_is_supported(&choice.group_entries, rep)
    }
}

/// Whether a group can be defined as the type `name`.
pub fn group_is_supported(
    types: &IntermediateTypes,
    group: &Group,
    name: &RustIdent,
    rep: Representation,
    generic_params: &Option<Vec<RustIdent>>,
) -> (res: bool)
    ensures
        res == group_supported(types@, *group, name@, rep, params_view(*generic_params)),
{
    let choices = &group.group_choices;
    if choices.len() == 1 {
        return group_choice_is_supported(&choices[0], rep);
    }
    if generic_params.is_some() || types.is_plain_group(name) || choices.len() as u64
        > u32::MAX as u64 {
        return false;
    }
    let mut i: usize = 0;
    while i < choices.len()
        invariant
            i <= choices@.len(),
            choices@ == group.group_choices@,
            choices@.len() != 1,
            forall|j: int| 0 <= j < i ==> alternative_supported(#[trigger] choices@[j], rep),
        decreases choices@.len() - i,
    {
        if !alternative_is_supported(&choices[i], rep) {
            assert(!alternative_supported(choices@[i as int], rep));
            return false;
        }
        i += 1;
    }
    true
}

fn type_choices_are_supported(
    choices: &Vec<Type1>,
    generic_params: &Option<Vec<RustIdent>>,
) -> (res: bool)
    ensures
        res == type_choices_supported(choices@, params_view(*generic_params)),
{
    if choices.len() == 2 && type2_is_null(&choices[0].type2) {
        generic_params.is_none() && type2_is_supported(&choices[1].type2)
    } else if choices.len() == 2 && type2_is_null(&choices[1].type2) {
        generic_params.is_none() && type2_is_supported(&choices[0].type2)
    } else {
        choices.len() as u64 <= u32::MAX as u64 && choices_are_supported(choices)
    }
}

fn type1_is_supported(
    types: &IntermediateTypes,
    name: &RustIdent,
    t: &Type1,
    outer_tag: Option<usize>,
    generic_params: &Option<Vec<RustIdent>>,
) -> (res: bool)
    ensures
        res == type1_supported(types@, name@, *t, outer_tag, params_view(*generic_params)),
    decreases t,
{
    operator_is_supported(&t.operator) && match &t.type2 {
        Type2::Typename { generic_arg, .. } => generic_params.is_none() && (t.operator.is_some()
            || match generic_arg {
            Some(arg) => choices_are_supported(&arg.args),
            None => true,
        }),
        Type2::Mapping { group } => group_is_supported(
            types,
            group,
            name,
            Representation::Mapping,
            generic_params,
        ),
        Type2::Array { group } => group_is_supported(
            types,
            group,
            name,
            Representation::Array,
            generic_params,
        ),
        Type2::TaggedData { tag, t } => outer_tag.is_none() && tag.is_some()
            && if t.type_choices.len() == 1 {
            match &t.type_choices[0].type2 {
                Type2::Typename { .. } => true,
                Type2::Mapping { .. } => type1_is_supported(
                    types,
                    name,
                    &t.type_choices[0],
                    *tag,
                    generic_params,
                ),
                Type2::Array { .. } => type1_is_supported(
                    types,
                    name,
                    &t.type_choices[0],
                    *tag,
                    generic_params,
                ),
                _ => false,
            }
        } else {
            type_choices_are_supported(&t.type_choices, generic_params)
        },
        Type2::IntValue { .. } => true,
        Type2::UintValue { .. } => true,
        Type2::TextValue { .. } => true,
        _ => false,
    }
}

/// Whether a rule can be added to the table of types.
pub fn rule_is_supported(types: &IntermediateTypes, cddl_rule: &Rule) -> (res: bool)
    ensures
        res == rule_supported(types@, *cddl_rule),
{
    match cddl_rule {
        Rule::Type { rule } => {
            let name = RustIdent::new(CDDLIdent::new(rule.name.to_string()));
            let generic_params = generic_params_of(rule);
            let choices = &rule.value.type_choices;
            if choices.len() == 1 {
                type1_is_supported(types, &name, &choices[0], None, &generic_params)
            } else {
                type_choices_are_supported(choices, &generic_params)
            }
        },
        Rule::Group { rule } => rule.generic_param.is_none() && match &rule.entry {
            GroupEntry::InlineGroup { .. } => true,
            _ => false,
        },
    }
}

} // verus!
