//! Which of the syntax has a representation.
use crate::ast::{
    Group, GroupChoice, GroupEntry, GroupRule, MemberKey, RangeCtlOp, Rule, Type, Type1, Type2,
    TypeRule, Value,
};
use crate::intermediate::{Representation, TypesView};
use crate::laws::groups::is_key_of;
use crate::laws::rules::is_value_of;
use crate::model::{
    alternative_supported, element_supported, entry_key, entry_key_supported, entry_name_supported,
    entry_type_supported, field_supported, group_choice_supported, group_supported, has_only_entry,
    is_null, is_table, range_supported, record_supported, rule_params, rule_supported,
    table_supported, table_types, type1_supported, type2_supported, type_choices_supported,
    type_supported,
};
use crate::utils::camel_case;
use vstd::prelude::*;
use vstd::utf8::valid_utf8;

verus! {

// Operators.

/// Whether the type is an integer literal.
pub open spec fn is_number(t: Type2) -> bool {
    t is UintValue || t is IntValue
}

/// A comparison takes an integer literal, and leaves out those on which the bound next to it
/// would not be a signed number.
pub proof fn law_supported_comparisons(ctrl: String, t: Type2, n: int)
    ensures
        ({
            let supported = range_supported((RangeCtlOp::CtlOp { ctrl }, t));
            let compares = ctrl@ == ".eq"@ || ctrl@ == ".ne"@ || ctrl@ == ".le"@ || ctrl@
                == ".lt"@ || ctrl@ == ".ge"@ || ctrl@ == ".gt"@;
            &&& compares && !is_number(t) ==> !supported
            &&& (ctrl@ == ".eq"@ || ctrl@ == ".le"@ || ctrl@ == ".ge"@) && is_number(t)
                ==> supported
            &&& is_value_of(n, t) && ctrl@ == ".lt"@ ==> (supported <==> n != isize::MIN)
            &&& is_value_of(n, t) && ctrl@ == ".gt"@ ==> (supported <==> n != isize::MAX)
            &&& is_value_of(n, t) && ctrl@ == ".ne"@ ==> (supported <==> n != isize::MIN && n
                != isize::MAX)
            &&& !compares && ctrl@ != ".size"@ ==> !supported
        }),
{
    reveal_strlit(".size");
    reveal_strlit(".eq");
    reveal_strlit(".ne");
    reveal_strlit(".le");
    reveal_strlit(".lt");
    reveal_strlit(".ge");
    reveal_strlit(".gt");
    assert(".ne"@[1] != ".eq"@[1]);
    assert(".le"@[1] != ".eq"@[1]);
    assert(".le"@[1] != ".ne"@[1]);
    assert(".lt"@[1] != ".eq"@[1]);
    assert(".lt"@[1] != ".ne"@[1]);
    assert(".lt"@[2] != ".le"@[2]);
    assert(".ge"@[1] != ".eq"@[1]);
    assert(".ge"@[1] != ".ne"@[1]);
    assert(".ge"@[1] != ".le"@[1]);
    assert(".ge"@[1] != ".lt"@[1]);
    assert(".gt"@[1] != ".eq"@[1]);
    assert(".gt"@[1] != ".ne"@[1]);
    assert(".gt"@[1] != ".le"@[1]);
    assert(".gt"@[1] != ".lt"@[1]);
    assert(".gt"@[2] != ".ge"@[2]);
}

/// A size is an integer literal, or in parentheses an integer literal or a range of two. One
/// above the second must be a signed number where it is not in the range.
pub proof fn law_supported_sizes(ctrl: String, t: Type2, n: int)
    requires
        ctrl@ == ".size"@,
    ensures
        ({
            let supported = range_supported((RangeCtlOp::CtlOp { ctrl }, t));
            match t {
                Type2::ParenthesizedType { pt } => if pt.type_choices@.len() == 1 && is_number(
                    pt.type_choices@[0].type2,
                ) {
                    match pt.type_choices@[0].operator {
                        Some((RangeCtlOp::RangeOp { is_inclusive: true }, upper)) => supported
                            <==> is_number(upper),
                        Some((RangeCtlOp::RangeOp { is_inclusive: false }, upper)) => {
                            &&& !is_number(upper) ==> !supported
                            &&& is_value_of(n, upper) ==> (supported <==> n != isize::MAX)
                        },
                        Some((RangeCtlOp::CtlOp { .. }, _)) => !supported,
                        None => supported,
                    }
                } else {
                    !supported
                },
                _ => supported <==> is_number(t),
            }
        }),
{
    reveal_strlit(".size");
    reveal_strlit(".eq");
    reveal_strlit(".ne");
    reveal_strlit(".le");
    reveal_strlit(".lt");
    reveal_strlit(".ge");
    reveal_strlit(".gt");
    assert(ctrl@.len() == 5);
}

/// A range is no operator on a type.
pub proof fn law_range_is_no_operator(is_inclusive: bool, t: Type2)
    ensures
        !range_supported((RangeCtlOp::RangeOp { is_inclusive }, t)),
{
}

// Types.

/// Literals and names have a representation, instances where their arguments do, arrays of
/// one entry and maps of one entry with a type for a key where the types in them do, and
/// tagged types where what they tag does.
pub proof fn law_supported_alternatives(t: Type2)
    ensures
        match t {
            Type2::UintValue { .. } => type2_supported(t),
            Type2::IntValue { .. } => type2_supported(t),
            Type2::TextValue { .. } => type2_supported(t),
            Type2::Typename { generic_arg: None, .. } => type2_supported(t),
            Type2::Typename { generic_arg: Some(arg), .. } => type2_supported(t) <==> forall|
                i: int,
            |
                0 <= i < arg.args@.len() ==> type2_supported((#[trigger] arg.args@[i]).type2),
            Type2::Array { group } => type2_supported(t) <==> {
                &&& group.group_choices@.len() == 1
                &&& group.group_choices@[0].group_entries@.len() == 1
                &&& match group.group_choices@[0].group_entries@[0] {
                    GroupEntry::ValueMemberKey { ge } => type_supported(ge.entry_type),
                    GroupEntry::TypeGroupname { .. } => true,
                    GroupEntry::InlineGroup { .. } => false,
                }
            },
            Type2::Mapping { group } => type2_supported(t) <==> {
                &&& group.group_choices@.len() == 1
                &&& group.group_choices@[0].group_entries@.len() == 1
                &&& (group.group_choices@[0].group_entries@[0] matches GroupEntry::ValueMemberKey {
                    ge,
                } && ge.member_key matches Some(MemberKey::Type1 { t1 }) && type2_supported(
                    t1.type2,
                ) && type_supported(ge.entry_type))
            },
            Type2::TaggedData { tag, t: tagged } => type2_supported(t) <==> tag is Some
                && type_supported(tagged),
            _ => !type2_supported(t),
        },
{
    match t {
        Type2::Array { group } => {
            if has_only_entry(group) {
                let entry = group.group_choices@[0].group_entries@[0];
                assert(element_supported(entry) == match entry {
                    GroupEntry::ValueMemberKey { ge } => type_supported(ge.entry_type),
                    GroupEntry::TypeGroupname { .. } => true,
                    GroupEntry::InlineGroup { .. } => false,
                });
            }
        },
        Type2::Mapping { group } => {
            if group.group_choices@.len() == 1 {
                let choice = group.group_choices@[0];
                assert(table_supported(choice) == (choice.group_entries@.len() == 1 && match
                    choice.group_entries@[0] {
                    GroupEntry::ValueMemberKey { ge } => match ge.member_key {
                        Some(MemberKey::Type1 { t1 }) => type2_supported(t1.type2)
                            && type_supported(ge.entry_type),
                        _ => false,
                    },
                    _ => false,
                }));
            }
        },
        _ => {},
    }
}

/// A type has a representation where each of its alternatives has one, but for a null that
/// makes it optional, and they can be counted.
pub proof fn law_supported_types(t: Type, params: Option<Seq<Seq<char>>>)
    ensures
        ({
            let choices = t.type_choices@;
            let optional = choices.len() == 2 && (is_null(choices[0].type2) || is_null(
                choices[1].type2,
            ));
            let each = forall|i: int|
                0 <= i < choices.len() ==> type2_supported((#[trigger] choices[i]).type2);
            &&& choices.len() == 2 && is_null(choices[0].type2) ==> (type_supported(t)
                <==> type2_supported(choices[1].type2))
            &&& choices.len() == 2 && !is_null(choices[0].type2) && is_null(choices[1].type2) ==> (
            type_supported(t) <==> type2_supported(choices[0].type2))
            &&& !optional ==> (type_supported(t) <==> each && choices.len() <= u32::MAX)
            &&& optional ==> (type_choices_supported(choices, params) <==> params is None
                && type_supported(t))
            &&& !optional ==> (type_choices_supported(choices, params) <==> type_supported(t))
        }),
{
}

// Groups.

/// An entry can be a field where its key is a literal or a name, or it has no key; where its
/// type has a representation; and, if fields are told apart by key, where the key is a
/// number, a text or a name.
pub proof fn law_supported_fields(entry: GroupEntry, rep: Representation)
    ensures
        match entry {
            GroupEntry::ValueMemberKey { ge } => match ge.member_key {
                Some(MemberKey::Bareword { .. }) => field_supported(entry, rep) <==> type_supported(
                    ge.entry_type,
                ),
                Some(MemberKey::Value { value }) => field_supported(entry, rep) <==> type_supported(
                    ge.entry_type,
                ) && match value {
                    Value::UINT(_) => true,
                    Value::INT(_) => true,
                    Value::TEXT(_) => true,
                    Value::FLOAT(_) => rep == Representation::Array,
                    Value::BYTE(b) => rep == Representation::Array && valid_utf8(b.bytes()),
                },
                Some(MemberKey::Type1 { t1 }) => field_supported(entry, rep) <==> type_supported(
                    ge.entry_type,
                ) && t1.type2 is UintValue,
                Some(MemberKey::NonMemberKey) => !field_supported(entry, rep),
                None => field_supported(entry, rep) <==> type_supported(ge.entry_type) && rep
                    == Representation::Array,
            },
            GroupEntry::TypeGroupname { ge } => field_supported(entry, rep)
                <==> ge.generic_arg is None && rep == Representation::Array,
            GroupEntry::InlineGroup { .. } => !field_supported(entry, rep),
        },
{
}

/// The type of an entry has a representation where it is written out and has one, or where
/// it is a name without arguments.
pub proof fn law_supported_entry_types(entry: GroupEntry)
    ensures
        match entry {
            GroupEntry::ValueMemberKey { ge } => entry_type_supported(entry) <==> type_supported(
                ge.entry_type,
            ),
            GroupEntry::TypeGroupname { ge } => entry_type_supported(entry)
                <==> ge.generic_arg is None,
            GroupEntry::InlineGroup { .. } => !entry_type_supported(entry),
        },
{
}

/// The key of an entry can be that of a field where it is a number, a text or a name, and
/// the name of an entry that of a field where it is a literal that is a text, an unsigned
/// number for a type, or a name, or where there is no key.
pub proof fn law_supported_keys(entry: GroupEntry)
    ensures
        entry_key_supported(entry) <==> (entry matches GroupEntry::ValueMemberKey { ge } ==> (
        ge.member_key is None || exists|key| is_key_of(key, entry))),
        entry_name_supported(entry) <==> match entry {
            GroupEntry::ValueMemberKey { ge } => match ge.member_key {
                Some(MemberKey::Value { value: Value::BYTE(b) }) => valid_utf8(b.bytes()),
                Some(MemberKey::Value { .. }) => true,
                Some(MemberKey::Bareword { .. }) => true,
                Some(MemberKey::Type1 { t1 }) => t1.type2 is UintValue,
                Some(MemberKey::NonMemberKey) => false,
                None => true,
            },
            GroupEntry::TypeGroupname { .. } => true,
            GroupEntry::InlineGroup { .. } => false,
        },
{
    if entry_key_supported(entry) {
        if let Some(key) = entry_key(entry) {
            assert(is_key_of(key, entry));
        }
    }
}

/// The entries of a choice can be the fields of a record where each of them can be a field,
/// and they can be counted.
pub proof fn law_supported_records(choice: GroupChoice, rep: Representation)
    ensures
        ({
            let entries = choice.group_entries@;
            let record = entries.len() <= u32::MAX && forall|i: int|
                0 <= i < entries.len() ==> field_supported(#[trigger] entries[i], rep);
            &&& record_supported(entries, rep) <==> record
            &&& entries.len() != 1 || rep == Representation::Array ==> (group_choice_supported(
                choice,
                rep,
            ) <==> record)
            &&& entries.len() != 1 ==> (alternative_supported(choice, rep) <==> record)
            &&& entries.len() == 1 ==> (alternative_supported(choice, rep)
                <==> entry_type_supported(entries[0]))
        }),
{
}

/// A map with one entry is a table: its key is a type. The types of the keys and of the
/// values are those that are written. Nothing else is a table.
pub proof fn law_tables(choice: GroupChoice, rep: Representation)
    ensures
        is_table(choice, rep) <==> rep == Representation::Mapping && choice.group_entries@.len()
            == 1,
        is_table(choice, rep) ==> (group_choice_supported(choice, rep) <==> (
        choice.group_entries@[0] matches GroupEntry::ValueMemberKey { ge }
            && ge.member_key matches Some(MemberKey::Type1 { t1 }) && type2_supported(t1.type2)
            && type_supported(ge.entry_type))),
        is_table(choice, rep) ==> match table_types(choice) {
            Some((key, value)) => choice.group_entries@[0] matches GroupEntry::ValueMemberKey { ge }
                && ge.member_key matches Some(MemberKey::Type1 { t1 }) && t1.type2 == key
                && ge.entry_type == value,
            None => choice.group_entries@[0] matches GroupEntry::ValueMemberKey { ge } ==> !(
            ge.member_key matches Some(MemberKey::Type1 { .. })),
        },
{
}

/// A group with several choices can be defined where each of the choices can, they can be
/// counted, there are no type parameters, and the name is not that of a plain group.
pub proof fn law_supported_groups(
    types: TypesView,
    group: Group,
    name: Seq<char>,
    rep: Representation,
    params: Option<Seq<Seq<char>>>,
)
    ensures
        ({
            let choices = group.group_choices@;
            let supported = group_supported(types, group, name, rep, params);
            &&& choices.len() == 1 ==> (supported <==> group_choice_supported(choices[0], rep))
            &&& choices.len() != 1 ==> (supported <==> {
                &&& params is None
                &&& !types.plain_groups.contains_key(name)
                &&& choices.len() <= u32::MAX
                &&& forall|i: int|
                    0 <= i < choices.len() ==> alternative_supported(#[trigger] choices[i], rep)
            })
        }),
{
}

// Rules.

/// The operator on a type, if there is one, has bounds.
pub open spec fn is_operated_on(t: Type1) -> bool {
    t.operator matches Some(range) ==> range_supported(range)
}

/// A type can be defined where the operator on it has bounds, and where it is a literal; a
/// name, without type parameters and with arguments that have a representation if there is
/// no operator; a group that can be defined; or, if there is no tag around it, a tag on a
/// name, on a group or on alternatives that can be defined.
pub proof fn law_supported_definitions(
    types: TypesView,
    name: Seq<char>,
    t: Type1,
    outer_tag: Option<usize>,
    params: Option<Seq<Seq<char>>>,
)
    ensures
        ({
            let supported = type1_supported(types, name, t, outer_tag, params);
            match t.type2 {
                Type2::UintValue { .. } => supported <==> is_operated_on(t),
                Type2::IntValue { .. } => supported <==> is_operated_on(t),
                Type2::TextValue { .. } => supported <==> is_operated_on(t),
                Type2::Typename { .. } => supported <==> is_operated_on(t) && params is None && (
                t.operator is Some || type2_supported(t.type2)),
                Type2::Mapping { group } => supported <==> is_operated_on(t) && group_supported(
                    types,
                    group,
                    name,
                    Representation::Mapping,
                    params,
                ),
                Type2::Array { group } => supported <==> is_operated_on(t) && group_supported(
                    types,
                    group,
                    name,
                    Representation::Array,
                    params,
                ),
                Type2::TaggedData { tag, t: tagged } => supported <==> is_operated_on(t)
                    && outer_tag is None && tag is Some && if tagged.type_choices@.len() == 1 {
                    let inner = tagged.type_choices@[0];
                    match inner.type2 {
                        Type2::Typename { .. } => true,
                        Type2::Mapping { group } => is_operated_on(inner) && group_supported(
                            types,
                            group,
                            name,
                            Representation::Mapping,
                            params,
                        ),
                        Type2::Array { group } => is_operated_on(inner) && group_supported(
                            types,
                            group,
                            name,
                            Representation::Array,
                            params,
                        ),
                        _ => false,
                    }
                } else {
                    type_choices_supported(tagged.type_choices@, params)
                },
                _ => !supported,
            }
        }),
{
    if let Type2::TaggedData { tag, t: tagged } = t.type2 {
        if tagged.type_choices@.len() == 1 {
            let inner = tagged.type_choices@[0];
            assert(inner.type2 is Mapping || inner.type2 is Array ==> type1_supported(
                types,
                name,
                inner,
                tag,
                params,
            ) == (is_operated_on(inner) && match inner.type2 {
                Type2::Mapping { group } => group_supported(
                    types,
                    group,
                    name,
                    Representation::Mapping,
                    params,
                ),
                Type2::Array { group } => group_supported(
                    types,
                    group,
                    name,
                    Representation::Array,
                    params,
                ),
                _ => false,
            }));
        }
    }
}

/// The rule of a type can be added where its type can be defined under its name, and that of
/// a group where it has no type parameters and is a group in parentheses.
pub proof fn law_supported_rules(types: TypesView, rule: TypeRule, group: GroupRule)
    ensures
        ({
            let choices = rule.value.type_choices@;
            let supported = rule_supported(types, Rule::Type { rule });
            &&& choices.len() == 1 ==> (supported <==> type1_supported(
                types,
                camel_case(rule.name.text()),
                choices[0],
                None,
                rule_params(rule),
            ))
            &&& choices.len() != 1 ==> (supported <==> type_choices_supported(
                choices,
                rule_params(rule),
            ))
        }),
        rule_supported(types, Rule::Group { rule: group }) <==> group.generic_param is None
            && group.entry is InlineGroup,
{
}

} // verus!
