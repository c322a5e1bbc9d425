//! What the types of a CDDL document are.
//!
//! Two things are said of each kind of syntax: which of it has a representation
//! (the predicates that end in `_supported`), and what its representation is. A type
//! can define further types by the way, so what it is represented by comes with the
//! table of types after it.
use crate::ast::{
    Group, GroupChoice, GroupEntry, MemberKey, Occur, RangeCtlOp, Rule, Type, Type1, Type2,
    TypeRule, Value,
};
use crate::intermediate::{
    idents_view, EnumVariantView, FixedValueView, GenericDefView, GenericInstanceView, MinMax,
    Primitive, Representation, RustFieldView, RustIdent, RustRecordView, RustStructTypeView,
    RustStructView, RustTypeView, TypesView, VariantIdentView,
};
use crate::text::{decimal_text, joined, masked_text, signed_decimal_text};
use crate::utils::{
    camel_case, in_standard_prelude, numbered, numbered_names, occurrences, snake_case,
};
use vstd::prelude::*;
use vstd::utf8::valid_utf8;

verus! {

// Numbers and ranges.

/// An unsigned number as a signed number of the same width.
pub open spec fn as_signed(value: usize) -> int {
    if value <= isize::MAX {
        value as int
    } else {
        value - usize::MAX - 1
    }
}

/// Whether `t` is an integer literal.
pub open spec fn is_number_literal(t: Type2) -> bool {
    t is UintValue || t is IntValue
}

/// The value of an integer literal.
pub open spec fn number_literal(t: Type2) -> int {
    match t {
        Type2::UintValue { value } => as_signed(value),
        Type2::IntValue { value } => value as int,
        _ => arbitrary(),
    }
}

/// Whether `.size` has bounds for its operand: a number, or a number or a range of
/// numbers in parentheses.
pub open spec fn size_supported(t: Type2) -> bool {
    match t {
        Type2::UintValue { .. } => true,
        Type2::IntValue { .. } => true,
        Type2::ParenthesizedType { pt } => {
            &&& pt.type_choices@.len() == 1
            &&& is_number_literal(pt.type_choices@[0].type2)
            &&& match pt.type_choices@[0].operator {
                Some((RangeCtlOp::RangeOp { is_inclusive }, upper)) => {
                    &&& is_number_literal(upper)
                    &&& is_inclusive || number_literal(upper) < isize::MAX
                },
                Some((RangeCtlOp::CtlOp { .. }, _)) => false,
                None => true,
            }
        },
        _ => false,
    }
}

/// The bounds that `.size` puts on a type. For a range without its upper end, the upper
/// bound is one above that end.
pub open spec fn size_bounds(t: Type2) -> MinMax {
    match t {
        Type2::ParenthesizedType { pt } => {
            let lower = Some(number_literal(pt.type_choices@[0].type2) as isize);
            match pt.type_choices@[0].operator {
                Some((RangeCtlOp::RangeOp { is_inclusive }, upper)) => (
                    lower,
                    Some(
                        (if is_inclusive {
                            number_literal(upper)
                        } else {
                            number_literal(upper) + 1
                        }) as isize,
                    ),
                ),
                _ => (lower, lower),
            }
        },
        _ => (Some(number_literal(t) as isize), Some(number_literal(t) as isize)),
    }
}

/// Whether an operator with its operand has bounds.
pub open spec fn range_supported(range: (RangeCtlOp, Type2)) -> bool {
    let n = number_literal(range.1);
    match range.0 {
        RangeCtlOp::RangeOp { .. } => false,
        RangeCtlOp::CtlOp { ctrl } => if ctrl@ == ".eq"@ {
            is_number_literal(range.1)
        } else if ctrl@ == ".ne"@ {
            is_number_literal(range.1) && isize::MIN < n < isize::MAX
        } else if ctrl@ == ".le"@ {
            is_number_literal(range.1)
        } else if ctrl@ == ".lt"@ {
            is_number_literal(range.1) && isize::MIN < n
        } else if ctrl@ == ".ge"@ {
            is_number_literal(range.1)
        } else if ctrl@ == ".gt"@ {
            is_number_literal(range.1) && n < isize::MAX
        } else if ctrl@ == ".size"@ {
            size_supported(range.1)
        } else {
            false
        },
    }
}

/// The bounds that an operator puts on a type. That a value is excluded is written as
/// bounds of which the lower is above the upper one.
pub open spec fn range_bounds(range: (RangeCtlOp, Type2)) -> MinMax {
    let n = number_literal(range.1);
    match range.0 {
        RangeCtlOp::RangeOp { .. } => arbitrary(),
        RangeCtlOp::CtlOp { ctrl } => if ctrl@ == ".eq"@ {
            (Some(n as isize), Some(n as isize))
        } else if ctrl@ == ".ne"@ {
            (Some((n + 1) as isize), Some((n - 1) as isize))
        } else if ctrl@ == ".le"@ {
            (None, Some(n as isize))
        } else if ctrl@ == ".lt"@ {
            (None, Some((n - 1) as isize))
        } else if ctrl@ == ".ge"@ {
            (Some(n as isize), None)
        } else if ctrl@ == ".gt"@ {
            (Some((n + 1) as isize), None)
        } else {
            size_bounds(range.1)
        },
    }
}

pub open spec fn operator_supported(operator: Option<(RangeCtlOp, Type2)>) -> bool {
    match operator {
        Some(range) => range_supported(range),
        None => true,
    }
}

pub open spec fn operator_bounds(operator: Option<(RangeCtlOp, Type2)>) -> Option<MinMax> {
    match operator {
        Some(range) => Some(range_bounds(range)),
        None => None,
    }
}

// Names of fields and variants.

/// Whether `t` is the type that `null` alone has.
pub open spec fn is_null(t: Type2) -> bool {
    match t {
        Type2::Typename { ident, .. } => ident.ident@ == "null"@ || ident.ident@ == "nil"@,
        _ => false,
    }
}

/// Whether a group consists of one entry.
pub open spec fn has_only_entry(group: Group) -> bool {
    group.group_choices@.len() == 1 && group.group_choices@[0].group_entries@.len() == 1
}

/// The name that a field of type `t` can take from its type: that of the type, and for
/// an array that of its elements with an `s`. `T / null` gives the name that `T` gives.
pub open spec fn type_field_name(t: Type) -> Option<Seq<char>>
    decreases t,
{
    let choices = t.type_choices@;
    if choices.len() == 1 {
        type2_field_name(choices[0].type2)
    } else if choices.len() == 2 {
        if is_null(choices[0].type2) {
            type2_field_name(choices[1].type2)
        } else if is_null(choices[1].type2) {
            type2_field_name(choices[0].type2)
        } else {
            None
        }
    } else {
        None
    }
}

/// The name that a field can take from one alternative of its type.
pub open spec fn type2_field_name(t: Type2) -> Option<Seq<char>>
    decreases t,
{
    match t {
        Type2::Typename { ident, .. } => Some(ident.text()),
        Type2::TextValue { value } => Some(value@),
        Type2::Array { group } => if has_only_entry(group) {
            match group.group_choices@[0].group_entries@[0] {
                GroupEntry::ValueMemberKey { ge } => match type_field_name(ge.entry_type) {
                    Some(name) => Some(name + "s"@),
                    None => None,
                },
                GroupEntry::TypeGroupname { ge } => Some(ge.name.text() + "s"@),
                GroupEntry::InlineGroup { .. } => None,
            }
        } else {
            None
        },
        _ => None,
    }
}

/// The text of a literal that is a key. A number follows an underscore.
pub open spec fn value_text(value: Value) -> Seq<char> {
    match value {
        Value::INT(i) => "_"@ + signed_decimal_text(i as int),
        Value::UINT(u) => "_"@ + decimal_text(u as nat),
        Value::FLOAT(f) => "_"@ + f@,
        Value::TEXT(text) => text@,
        Value::BYTE(b) => b.text(),
    }
}

/// The name that an entry without one takes from its position.
pub open spec fn index_name(index: nat) -> Seq<char> {
    "index_"@ + decimal_text(index)
}

/// Whether the entry can be a field with a name.
pub open spec fn entry_name_supported(entry: GroupEntry) -> bool {
    match entry {
        GroupEntry::ValueMemberKey { ge } => match ge.member_key {
            Some(MemberKey::Value { value: Value::BYTE(b) }) => valid_utf8(b.bytes()),
            Some(MemberKey::Value { .. }) => true,
            Some(MemberKey::Bareword { .. }) => true,
            Some(MemberKey::Type1 { t1 }) => t1.type2 is UintValue,
            Some(MemberKey::NonMemberKey) => false,
            None => true,
        },
        GroupEntry::TypeGroupname { .. } => true,
        GroupEntry::InlineGroup { .. } => false,
    }
}

/// The name of the field for the entry at position `index`, before it is put in
/// snake case and numbered.
pub open spec fn entry_name(entry: GroupEntry, index: nat) -> Seq<char> {
    match entry {
        GroupEntry::ValueMemberKey { ge } => match ge.member_key {
            Some(MemberKey::Value { value }) => masked_text(value_text(value)),
            Some(MemberKey::Bareword { ident }) => ident.text(),
            Some(MemberKey::Type1 { t1 }) => match t1.type2 {
                Type2::UintValue { value } => "key_"@ + decimal_text(value as nat),
                _ => arbitrary(),
            },
            Some(MemberKey::NonMemberKey) => arbitrary(),
            None => match type_field_name(ge.entry_type) {
                Some(name) => name,
                None => index_name(index),
            },
        },
        GroupEntry::TypeGroupname { ge } => if in_standard_prelude(ge.name.text()) {
            index_name(index)
        } else {
            ge.name.text()
        },
        GroupEntry::InlineGroup { .. } => arbitrary(),
    }
}

/// The names of the fields for the entries, before they are numbered.
pub open spec fn entry_names(entries: Seq<GroupEntry>) -> Seq<Seq<char>> {
    Seq::new(entries.len(), |i: int| snake_case(entry_name(entries[i], i as nat)))
}

/// The field name that the entry states: its bareword key. The name of a type or group
/// that stands for the entry is none.
pub open spec fn entry_raw_name(entry: GroupEntry) -> Option<Seq<char>> {
    match entry {
        GroupEntry::ValueMemberKey { ge } => match ge.member_key {
            Some(MemberKey::Bareword { ident }) => Some(ident.text()),
            _ => None,
        },
        GroupEntry::TypeGroupname { .. } => None,
        GroupEntry::InlineGroup { .. } => arbitrary(),
    }
}

/// Whether the entry may be left out.
pub open spec fn entry_optional(entry: GroupEntry) -> bool {
    match entry {
        GroupEntry::ValueMemberKey { ge } => ge.occur == Some(Occur::Optional),
        GroupEntry::TypeGroupname { ge } => ge.occur == Some(Occur::Optional),
        GroupEntry::InlineGroup { .. } => arbitrary(),
    }
}

/// Whether the key of the entry, if it has one, can be the key of a field.
pub open spec fn entry_key_supported(entry: GroupEntry) -> bool {
    match entry {
        GroupEntry::ValueMemberKey { ge } => match ge.member_key {
            Some(MemberKey::Value { value }) => value is UINT || value is INT || value is TEXT,
            Some(MemberKey::Bareword { .. }) => true,
            Some(MemberKey::Type1 { t1 }) => is_number_literal(t1.type2) || t1.type2 is TextValue,
            Some(MemberKey::NonMemberKey) => false,
            None => true,
        },
        _ => true,
    }
}

/// The key of the entry, if it has one.
pub open spec fn entry_key(entry: GroupEntry) -> Option<FixedValueView> {
    match entry {
        GroupEntry::ValueMemberKey { ge } => match ge.member_key {
            Some(MemberKey::Value { value }) => match value {
                Value::UINT(x) => Some(FixedValueView::Uint(x)),
                Value::INT(x) => Some(FixedValueView::Int(x)),
                Value::TEXT(x) => Some(FixedValueView::Text(x@)),
                _ => arbitrary(),
            },
            Some(MemberKey::Bareword { ident }) => Some(FixedValueView::Text(ident.text())),
            Some(MemberKey::Type1 { t1 }) => match t1.type2 {
                Type2::UintValue { value } => Some(FixedValueView::Uint(value)),
                Type2::IntValue { value } => Some(FixedValueView::Int(value)),
                Type2::TextValue { value } => Some(FixedValueView::Text(value@)),
                _ => arbitrary(),
            },
            Some(MemberKey::NonMemberKey) => arbitrary(),
            None => None,
        },
        _ => None,
    }
}

// Types.

/// Whether the type of an entry that is the only one of its array has a representation.
pub open spec fn element_supported(entry: GroupEntry) -> bool
    decreases entry,
{
    match entry {
        GroupEntry::ValueMemberKey { ge } => type_supported(ge.entry_type),
        GroupEntry::TypeGroupname { .. } => true,
        GroupEntry::InlineGroup { .. } => false,
    }
}

/// Whether the choice is a table of which the types of keys and values have a
/// representation.
pub open spec fn table_supported(choice: GroupChoice) -> bool
    decreases choice,
{
    &&& choice.group_entries@.len() == 1
    &&& match choice.group_entries@[0] {
        GroupEntry::ValueMemberKey { ge } => match ge.member_key {
            Some(MemberKey::Type1 { t1 }) => type2_supported(t1.type2) && type_supported(
                ge.entry_type,
            ),
            _ => false,
        },
        _ => false,
    }
}

/// Whether one alternative of a type has a representation.
pub open spec fn type2_supported(t: Type2) -> bool
    decreases t,
{
    match t {
        Type2::UintValue { .. } => true,
        Type2::IntValue { .. } => true,
        Type2::TextValue { .. } => true,
        Type2::Typename { generic_arg, .. } => match generic_arg {
            Some(arg) => forall|i: int|
                0 <= i < arg.args@.len() ==> type2_supported((#[trigger] arg.args@[i]).type2),
            None => true,
        },
        Type2::Array { group } => {
            &&& has_only_entry(group)
            &&& element_supported(group.group_choices@[0].group_entries@[0])
        },
        Type2::Mapping { group } => {
            &&& group.group_choices@.len() == 1
            &&& table_supported(group.group_choices@[0])
        },
        Type2::TaggedData { tag, t } => tag is Some && type_supported(t),
        _ => false,
    }
}

/// Whether a type has a representation.
pub open spec fn type_supported(t: Type) -> bool
    decreases t,
{
    let choices = t.type_choices@;
    if choices.len() == 2 && is_null(choices[0].type2) {
        type2_supported(choices[1].type2)
    } else if choices.len() == 2 && is_null(choices[1].type2) {
        type2_supported(choices[0].type2)
    } else {
        &&& choices.len() <= u32::MAX
        &&& forall|i: int| 0 <= i < choices.len() ==> type2_supported((#[trigger] choices[i]).type2)
    }
}

/// The texts of the variants that hold values of the types.
pub open spec fn variant_texts(types: Seq<RustTypeView>) -> Seq<Seq<char>> {
    types.map_values(|t: RustTypeView| t.variant_text())
}

/// The variants of an enum over the types, named after them and numbered.
pub open spec fn choice_variants(types: Seq<RustTypeView>) -> Seq<EnumVariantView> {
    Seq::new(
        types.len(),
        |i: int|
            EnumVariantView {
                name: VariantIdentView::Custom(numbered_names(variant_texts(types))[i]),
                rust_type: types[i],
                serialize_as_embedded_group: false,
            },
    )
}

/// The texts one after the other, with `Or` before each that follows something.
pub open spec fn or_joined(texts: Seq<Seq<char>>) -> Seq<char>
    decreases texts.len(),
{
    if texts.len() == 0 {
        Seq::empty()
    } else {
        let before = or_joined(texts.drop_last());
        if before.len() == 0 {
            texts.last()
        } else {
            before + "Or"@ + texts.last()
        }
    }
}

/// The CDDL name of the instance of `generic` with the arguments.
pub open spec fn instance_name(generic: Seq<char>, args: Seq<RustTypeView>) -> Seq<char> {
    generic + "_"@ + joined(variant_texts(args), "_"@)
}

/// The name of the table from `key` to `value`, where it has none in the document.
pub open spec fn table_name(key: RustTypeView, value: RustTypeView) -> Seq<char> {
    "Map"@ + key.member_text() + "To"@ + value.member_text()
}

/// The definition of an enum over types.
pub open spec fn type_choice_struct(
    ident: Seq<char>,
    tag: Option<usize>,
    types: Seq<RustTypeView>,
) -> RustStructView {
    RustStructView {
        ident,
        tag,
        variant: RustStructTypeView::TypeChoice { variants: choice_variants(types) },
    }
}

/// The definition of a table.
pub open spec fn table_struct(
    ident: Seq<char>,
    tag: Option<usize>,
    domain: RustTypeView,
    range: RustTypeView,
) -> RustStructView {
    RustStructView { ident, tag, variant: RustStructTypeView::Table { domain, range } }
}

/// The definition of a type that wraps another one.
pub open spec fn wrapper_struct(
    ident: Seq<char>,
    tag: Option<usize>,
    wrapped: RustTypeView,
    min_max: Option<MinMax>,
) -> RustStructView {
    RustStructView { ident, tag, variant: RustStructTypeView::Wrapper { wrapped, min_max } }
}

/// What the alternatives are represented by, each after those before it.
pub open spec fn choices_meaning(types: TypesView, choices: Seq<Type1>) -> (
    Seq<RustTypeView>,
    TypesView,
)
    decreases choices,
{
    if choices.len() == 0 {
        (Seq::empty(), types)
    } else {
        let (before, types) = choices_meaning(types, choices.drop_last());
        let (last, types) = type2_meaning(types, choices.last().type2);
        (before.push(last), types)
    }
}

/// What one alternative of a type is represented by.
pub open spec fn type2_meaning(types: TypesView, t: Type2) -> (RustTypeView, TypesView)
    decreases t,
{
    match t {
        Type2::UintValue { value } => (RustTypeView::Fixed(FixedValueView::Uint(value)), types),
        Type2::IntValue { value } => (RustTypeView::Fixed(FixedValueView::Int(value)), types),
        Type2::TextValue { value } => (RustTypeView::Fixed(FixedValueView::Text(value@)), types),
        // An instance with arguments is defined under a name made of theirs.
        Type2::Typename { ident, generic_arg } => match generic_arg {
            Some(arg) => {
                let (args, types) = choices_meaning(types, arg.args@);
                let name = instance_name(ident.ident@, args);
                let types = types.register_generic_instance(
                    GenericInstanceView {
                        instance_ident: camel_case(name),
                        generic_ident: camel_case(ident.ident@),
                        generic_args: args,
                    },
                );
                (types.new_type(name), types)
            },
            None => (types.new_type(ident.ident@), types),
        },
        // An array is defined under the name of its elements with an `s`.
        Type2::Array { group } => if has_only_entry(group) {
            let (element, types) = match group.group_choices@[0].group_entries@[0] {
                GroupEntry::ValueMemberKey { ge } => type_meaning(types, ge.entry_type),
                GroupEntry::TypeGroupname { ge } => (types.new_type(ge.name.text()), types),
                GroupEntry::InlineGroup { .. } => arbitrary(),
            };
            (
                RustTypeView::Array(Box::new(element)),
                types.register_array_type(element, element.array_text()),
            )
        } else {
            arbitrary()
        },
        // A map is a table, defined under the names of its keys and values.
        Type2::Mapping { group } => if has_only_entry(group) {
            match group.group_choices@[0].group_entries@[0] {
                GroupEntry::ValueMemberKey { ge } => match ge.member_key {
                    Some(MemberKey::Type1 { t1 }) => {
                        let (key, types) = type2_meaning(types, t1.type2);
                        let (value, types) = type_meaning(types, ge.entry_type);
                        (
                            RustTypeView::Mapping(Box::new(key), Box::new(value)),
                            types.register_rust_struct(
                                table_struct(camel_case(table_name(key, value)), None, key, value),
                            ),
                        )
                    },
                    _ => arbitrary(),
                },
                _ => arbitrary(),
            }
        } else {
            arbitrary()
        },
        Type2::TaggedData { tag, t } => {
            let (inner, types) = type_meaning(types, t);
            (RustTypeView::Tagged(tag->0, Box::new(inner)), types)
        },
        _ => arbitrary(),
    }
}

/// What a type is represented by: its only alternative, `T / null` as an optional `T`,
/// and other alternatives as an enum that is defined under their names.
pub open spec fn type_meaning(types: TypesView, t: Type) -> (RustTypeView, TypesView)
    decreases t,
{
    let choices = t.type_choices@;
    if choices.len() == 1 {
        type2_meaning(types, choices[0].type2)
    } else if choices.len() == 2 && is_null(choices[0].type2) {
        let (inner, types) = type2_meaning(types, choices[1].type2);
        (RustTypeView::Optional(Box::new(inner)), types)
    } else if choices.len() == 2 && is_null(choices[1].type2) {
        let (inner, types) = type2_meaning(types, choices[0].type2);
        (RustTypeView::Optional(Box::new(inner)), types)
    } else {
        let (alternatives, types) = choices_meaning(types, choices);
        let name = or_joined(variant_texts(alternatives));
        let types = types.register_rust_struct(
            type_choice_struct(camel_case(name), None, alternatives),
        );
        (types.new_type(name), types)
    }
}

// Groups.

/// Whether the type of an entry has a representation.
pub open spec fn entry_type_supported(entry: GroupEntry) -> bool {
    match entry {
        GroupEntry::ValueMemberKey { ge } => type_supported(ge.entry_type),
        GroupEntry::TypeGroupname { ge } => ge.generic_arg is None,
        GroupEntry::InlineGroup { .. } => false,
    }
}

/// What the type of an entry is represented by.
pub open spec fn entry_type_meaning(types: TypesView, entry: GroupEntry) -> (
    RustTypeView,
    TypesView,
) {
    match entry {
        GroupEntry::ValueMemberKey { ge } => type_meaning(types, ge.entry_type),
        GroupEntry::TypeGroupname { ge } => (types.new_type(ge.name.text()), types),
        GroupEntry::InlineGroup { .. } => arbitrary(),
    }
}

/// The table of types after a group with representation `rep` refers to type `t`: if
/// that is a plain group, it is represented in the same way.
pub open spec fn referred_from(
    types: TypesView,
    t: RustTypeView,
    rep: Representation,
) -> TypesView {
    match t {
        RustTypeView::Rust(ident) => types.set_rep_if_plain_group(ident, rep),
        _ => types,
    }
}

/// What the types of the entries are represented by, each after those before it.
pub open spec fn entries_meaning(
    types: TypesView,
    entries: Seq<GroupEntry>,
    rep: Representation,
) -> (Seq<RustTypeView>, TypesView)
    decreases entries.len(),
{
    if entries.len() == 0 {
        (Seq::empty(), types)
    } else {
        let (before, types) = entries_meaning(types, entries.drop_last(), rep);
        let (last, types) = entry_type_meaning(types, entries.last());
        (before.push(last), referred_from(types, last, rep))
    }
}

/// Whether an entry can be a field of a record.
pub open spec fn field_supported(entry: GroupEntry, rep: Representation) -> bool {
    &&& entry_name_supported(entry)
    &&& entry_type_supported(entry)
    &&& rep == Representation::Mapping ==> entry_key_supported(entry) && entry_key(entry) is Some
}

/// Whether the entries can be the fields of a record.
pub open spec fn record_supported(entries: Seq<GroupEntry>, rep: Representation) -> bool {
    &&& entries.len() <= u32::MAX
    &&& forall|i: int| 0 <= i < entries.len() ==> field_supported(#[trigger] entries[i], rep)
}

/// The record that has the entries, of the given types, as its fields.
pub open spec fn record_of(
    entries: Seq<GroupEntry>,
    rep: Representation,
    types: Seq<RustTypeView>,
) -> RustRecordView {
    RustRecordView {
        rep,
        fields: Seq::new(
            entries.len(),
            |i: int|
                RustFieldView {
                    name: numbered_names(entry_names(entries))[i],
                    rust_type: types[i],
                    optional: entry_optional(entries[i]),
                    key: match rep {
                        Representation::Mapping => entry_key(entries[i]),
                        Representation::Array => None,
                    },
                },
        ),
    }
}

/// The record for the entries.
pub open spec fn record_meaning(
    types: TypesView,
    entries: Seq<GroupEntry>,
    rep: Representation,
) -> (RustRecordView, TypesView) {
    let (entry_types, types) = entries_meaning(types, entries, rep);
    (record_of(entries, rep, entry_types), types)
}

/// Whether a choice is a table: a map with one entry.
pub open spec fn is_table(choice: GroupChoice, rep: Representation) -> bool {
    rep == Representation::Mapping && choice.group_entries@.len() == 1
}

/// The types of the keys and of the values of a table.
pub open spec fn table_types(choice: GroupChoice) -> Option<(Type2, Type)> {
    match choice.group_entries@[0] {
        GroupEntry::ValueMemberKey { ge } => match ge.member_key {
            Some(MemberKey::Type1 { t1 }) => Some((t1.type2, ge.entry_type)),
            _ => None,
        },
        _ => None,
    }
}

/// Whether a choice of a group has a representation.
pub open spec fn group_choice_supported(choice: GroupChoice, rep: Representation) -> bool {
    if is_table(choice, rep) {
        table_supported(choice)
    } else {
        record_supported(choice.group_entries@, rep)
    }
}

/// The definition of a type that a choice of a group is represented by.
pub open spec fn group_choice_meaning(
    types: TypesView,
    choice: GroupChoice,
    ident: Seq<char>,
    rep: Representation,
    tag: Option<usize>,
) -> (RustStructView, TypesView) {
    if is_table(choice, rep) {
        let (domain, range) = table_types(choice)->0;
        let (key, types) = type2_meaning(types, domain);
        let (value, types) = type_meaning(types, range);
        (table_struct(ident, tag, key, value), types)
    } else {
        let (record, types) = record_meaning(types, choice.group_entries@, rep);
        (RustStructView { ident, tag, variant: RustStructTypeView::Record(record) }, types)
    }
}

/// The type parameters of a rule.
pub open spec fn params_view(params: Option<Vec<RustIdent>>) -> Option<Seq<Seq<char>>> {
    match params {
        Some(params) => Some(idents_view(params@)),
        None => None,
    }
}

/// The table of types after a definition with the given type parameters is added to it.
pub open spec fn defined(
    types: TypesView,
    definition: RustStructView,
    params: Option<Seq<Seq<char>>>,
) -> TypesView {
    match params {
        Some(params) => types.register_generic_def(GenericDefView { params, definition }),
        None => types.register_rust_struct(definition),
    }
}

/// The table of types after a choice of a group is defined as a type.
pub open spec fn group_choice_defined(
    types: TypesView,
    choice: GroupChoice,
    ident: Seq<char>,
    rep: Representation,
    tag: Option<usize>,
    params: Option<Seq<Seq<char>>>,
) -> TypesView {
    let (definition, types) = group_choice_meaning(types, choice, ident, rep, tag);
    defined(types, definition, params)
}

/// Whether a choice of several has a representation.
pub open spec fn alternative_supported(choice: GroupChoice, rep: Representation) -> bool {
    if choice.group_entries@.len() == 1 {
        entry_type_supported(choice.group_entries@[0])
    } else {
        record_supported(choice.group_entries@, rep)
    }
}

/// The variants for the choices of a group.
pub ghost struct Alternatives {
    pub variants: Seq<EnumVariantView>,
    /// The names that were taken from types, in order, before they are numbered.
    pub used: Seq<Seq<char>>,
    pub types: TypesView,
}

/// The variant for a choice that consists of one entry: it holds the type of the entry,
/// and is named as the entry says or else after the type.
pub open spec fn entry_alternative(
    before: Alternatives,
    entry: GroupEntry,
    rep: Representation,
) -> Alternatives {
    let (t, types) = entry_type_meaning(before.types, entry);
    let types = referred_from(types, t, rep);
    let embedded = match t {
        RustTypeView::Rust(ident) => types.is_plain_group(ident),
        _ => false,
    };
    let (label, used) = match entry_raw_name(entry) {
        Some(name) => (name, before.used),
        None => {
            let used = before.used.push(t.variant_text());
            (numbered(t.variant_text(), occurrences(used, t.variant_text())), used)
        },
    };
    Alternatives {
        variants: before.variants.push(
            EnumVariantView {
                name: VariantIdentView::Custom(camel_case(label)),
                rust_type: t,
                serialize_as_embedded_group: embedded,
            },
        ),
        used,
        types,
    }
}

/// The name of the type for the choice at position `index` of the group `name`.
pub open spec fn alternative_ident(name: Seq<char>, index: nat) -> Seq<char> {
    camel_case(name + decimal_text(index))
}

/// The variant for a choice of any other number of entries: it holds a type of its own,
/// which is a plain group.
pub open spec fn group_alternative(
    before: Alternatives,
    choice: GroupChoice,
    ident: Seq<char>,
    rep: Representation,
) -> Alternatives {
    Alternatives {
        variants: before.variants.push(
            EnumVariantView {
                name: VariantIdentView::Rust(ident),
                rust_type: RustTypeView::Rust(ident),
                serialize_as_embedded_group: true,
            },
        ),
        used: before.used,
        types: group_choice_defined(
            before.types.mark_plain_group(ident, None),
            choice,
            ident,
            rep,
            None,
            None,
        ),
    }
}

/// The variants for the choices of the group `name`, each after those before it.
pub open spec fn alternatives_meaning(
    types: TypesView,
    choices: Seq<GroupChoice>,
    name: Seq<char>,
    rep: Representation,
) -> Alternatives
    decreases choices.len(),
{
    if choices.len() == 0 {
        Alternatives { variants: Seq::empty(), used: Seq::empty(), types }
    } else {
        let before = alternatives_meaning(types, choices.drop_last(), name, rep);
        let choice = choices.last();
        if choice.group_entries@.len() == 1 {
            entry_alternative(before, choice.group_entries@[0], rep)
        } else {
            group_alternative(
                before,
                choice,
                alternative_ident(name, (choices.len() - 1) as nat),
                rep,
            )
        }
    }
}

/// Whether a group can be defined as the type `name`.
pub open spec fn group_supported(
    types: TypesView,
    group: Group,
    name: Seq<char>,
    rep: Representation,
    params: Option<Seq<Seq<char>>>,
) -> bool {
    let choices = group.group_choices@;
    if choices.len() == 1 {
        group_choice_supported(choices[0], rep)
    } else {
        &&& params is None
        &&& !types.is_plain_group(name)
        &&& choices.len() <= u32::MAX
        &&& forall|i: int|
            0 <= i < choices.len() ==> alternative_supported(#[trigger] choices[i], rep)
    }
}

/// The table of types after a group is defined as the type `name`: its only choice, or
/// an enum over its choices.
pub open spec fn group_defined(
    types: TypesView,
    group: Group,
    name: Seq<char>,
    rep: Representation,
    tag: Option<usize>,
    params: Option<Seq<Seq<char>>>,
) -> TypesView {
    let choices = group.group_choices@;
    if choices.len() == 1 {
        group_choice_defined(types, choices[0], name, rep, tag, params)
    } else {
        let alternatives = alternatives_meaning(types, choices, name, rep);
        alternatives.types.register_rust_struct(
            RustStructView {
                ident: name,
                tag,
                variant: RustStructTypeView::GroupChoice { variants: alternatives.variants, rep },
            },
        )
    }
}

// Rules.

/// Whether the alternatives can be defined as one type.
pub open spec fn type_choices_supported(
    choices: Seq<Type1>,
    params: Option<Seq<Seq<char>>>,
) -> bool {
    if choices.len() == 2 && is_null(choices[0].type2) {
        params is None && type2_supported(choices[1].type2)
    } else if choices.len() == 2 && is_null(choices[1].type2) {
        params is None && type2_supported(choices[0].type2)
    } else {
        &&& choices.len() <= u32::MAX
        &&& forall|i: int| 0 <= i < choices.len() ==> type2_supported((#[trigger] choices[i]).type2)
    }
}

/// The table of types after `name` is defined as optional: as an alias, and as a wrapper
/// where there is a tag to keep.
pub open spec fn optional_defined(
    types: TypesView,
    name: Seq<char>,
    t: Type2,
    tag: Option<usize>,
) -> TypesView {
    let (inner, types) = type2_meaning(types, t);
    let optional = RustTypeView::Optional(Box::new(inner));
    match tag {
        Some(_) => types.register_rust_struct(wrapper_struct(name, tag, optional, None)),
        None => types.register_type_alias(name, optional, true),
    }
}

/// The table of types after `name` is defined as one of the alternatives.
pub open spec fn type_choices_defined(
    types: TypesView,
    name: Seq<char>,
    choices: Seq<Type1>,
    tag: Option<usize>,
    params: Option<Seq<Seq<char>>>,
) -> TypesView {
    if choices.len() == 2 && is_null(choices[0].type2) {
        optional_defined(types, name, choices[1].type2, tag)
    } else if choices.len() == 2 && is_null(choices[1].type2) {
        optional_defined(types, name, choices[0].type2, tag)
    } else {
        let (alternatives, types) = choices_meaning(types, choices);
        defined(types, type_choice_struct(name, tag, alternatives), params)
    }
}

/// Whether the type can be defined as the type `name`, inside of a tag or not.
pub open spec fn type1_supported(
    types: TypesView,
    name: Seq<char>,
    t: Type1,
    outer_tag: Option<usize>,
    params: Option<Seq<Seq<char>>>,
) -> bool
    decreases t,
{
    &&& operator_supported(t.operator)
    &&& match t.type2 {
        Type2::Typename { generic_arg, .. } => {
            &&& params is None
            &&& t.operator is None ==> match generic_arg {
                Some(arg) => forall|i: int|
                    0 <= i < arg.args@.len() ==> type2_supported((#[trigger] arg.args@[i]).type2),
                None => true,
            }
        },
        Type2::Mapping { group } => group_supported(
            types,
            group,
            name,
            Representation::Mapping,
            params,
        ),
        Type2::Array { group } => group_supported(
            types,
            group,
            name,
            Representation::Array,
            params,
        ),
        Type2::TaggedData { tag, t } => {
            &&& outer_tag is None
            &&& tag is Some
            &&& if t.type_choices@.len() == 1 {
                let inner = t.type_choices@[0];
                match inner.type2 {
                    Type2::Typename { .. } => true,
                    Type2::Mapping { .. } => type1_supported(types, name, inner, tag, params),
                    Type2::Array { .. } => type1_supported(types, name, inner, tag, params),
                    _ => false,
                }
            } else {
                type_choices_supported(t.type_choices@, params)
            }
        },
        Type2::IntValue { .. } => true,
        Type2::UintValue { .. } => true,
        Type2::TextValue { .. } => true,
        _ => false,
    }
}

/// The type that an alias stands for; any other type as it is.
pub open spec fn unaliased(t: RustTypeView) -> RustTypeView {
    match t {
        RustTypeView::Alias(_, base) => *base,
        _ => t,
    }
}

/// The table of types after the type is defined as the type `name`, inside of a tag or
/// not.
pub open spec fn type1_defined(
    types: TypesView,
    name: Seq<char>,
    t: Type1,
    outer_tag: Option<usize>,
    params: Option<Seq<Seq<char>>>,
) -> TypesView
    decreases t,
{
    let min_max = operator_bounds(t.operator);
    match t.type2 {
        // Bounds make a wrapper of bytes, for which bytes are used.
        Type2::Typename { ident, generic_arg } => if min_max is Some {
            let bytes = RustTypeView::Primitive(Primitive::Bytes);
            types.register_rust_struct(wrapper_struct(name, outer_tag, bytes, min_max))
                .register_type_alias(name, bytes, false)
        } else {
            match generic_arg {
                Some(arg) => {
                    let (args, types) = choices_meaning(types, arg.args@);
                    types.register_generic_instance(
                        GenericInstanceView {
                            instance_ident: name,
                            generic_ident: camel_case(ident.text()),
                            generic_args: args,
                        },
                    )
                },
                None => types.register_type_alias(
                    name,
                    unaliased(types.new_type(ident.text())),
                    true,
                ),
            }
        },
        Type2::Mapping { group } => group_defined(
            types,
            group,
            name,
            Representation::Mapping,
            outer_tag,
            params,
        ),
        Type2::Array { group } => group_defined(
            types,
            group,
            name,
            Representation::Array,
            outer_tag,
            params,
        ),
        Type2::TaggedData { tag, t } => if t.type_choices@.len() == 1 {
            let inner = t.type_choices@[0];
            match inner.type2 {
                Type2::Typename { ident, .. } => types.register_rust_struct(
                    wrapper_struct(name, tag, types.new_type(ident.text()), min_max),
                ),
                _ => type1_defined(types, name, inner, tag, params),
            }
        } else {
            type_choices_defined(types, name, t.type_choices@, tag, params)
        },
        Type2::IntValue { value } => types.register_type_alias(
            name,
            RustTypeView::Fixed(FixedValueView::Int(value)),
            true,
        ),
        Type2::UintValue { value } => types.register_type_alias(
            name,
            RustTypeView::Fixed(FixedValueView::Uint(value)),
            true,
        ),
        Type2::TextValue { value } => types.register_type_alias(
            name,
            RustTypeView::Fixed(FixedValueView::Text(value@)),
            true,
        ),
        _ => arbitrary(),
    }
}

/// The type parameters of a rule, as Rust names.
pub open spec fn rule_params(rule: TypeRule) -> Option<Seq<Seq<char>>> {
    match rule.generic_param {
        Some(params) => Some(
            Seq::new(params.params@.len(), |i: int| camel_case(params.params@[i].text())),
        ),
        None => None,
    }
}

/// Whether a rule can be added to the table of types.
pub open spec fn rule_supported(types: TypesView, rule: Rule) -> bool {
    match rule {
        Rule::Type { rule } => {
            let choices = rule.value.type_choices@;
            if choices.len() == 1 {
                type1_supported(
                    types,
                    camel_case(rule.name.text()),
                    choices[0],
                    None,
                    rule_params(rule),
                )
            } else {
                type_choices_supported(choices, rule_params(rule))
            }
        },
        Rule::Group { rule } => rule.generic_param is None && rule.entry is InlineGroup,
    }
}

/// The table of types after a rule is added to it. The rule of a group adds nothing.
pub open spec fn rule_defined(types: TypesView, rule: Rule) -> TypesView {
    match rule {
        Rule::Type { rule } => {
            let name = camel_case(rule.name.text());
            let choices = rule.value.type_choices@;
            if choices.len() == 1 {
                type1_defined(types, name, choices[0], None, rule_params(rule))
            } else {
                type_choices_defined(types, name, choices, None, rule_params(rule))
            }
        },
        Rule::Group { .. } => types,
    }
}

} // verus!
