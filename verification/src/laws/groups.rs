//! What groups are defined as.
use crate::ast::{GroupEntry, MemberKey, Occur, Type, Type2, Value};
use crate::intermediate::{
    FixedValueView, Representation, RustFieldView, RustRecordView, RustTypeView, TypesView,
};
use crate::laws::{law_type_adds_types_only, lemma_entries_leave_aliases};
use crate::laws::names::{
    earlier_uses, law_numbered_names, law_prelude_names, prelude_names, told_apart,
};
use crate::model::{
    entries_meaning, entry_key, entry_key_supported, entry_name, entry_name_supported, entry_names,
    entry_optional, entry_raw_name, entry_type_meaning, field_supported, is_null, record_meaning,
    record_supported, type2_field_name, type_field_name, type_meaning,
};
use crate::text::{decimal_text, masked_text, signed_decimal_text};
use crate::utils::{numbered_names, snake_case};
use vstd::prelude::*;

verus! {

// Entries.

/// Whether the entry is marked with `?`.
pub open spec fn may_be_left_out(entry: GroupEntry) -> bool {
    match entry {
        GroupEntry::ValueMemberKey { ge } => ge.occur == Some(Occur::Optional),
        GroupEntry::TypeGroupname { ge } => ge.occur == Some(Occur::Optional),
        GroupEntry::InlineGroup { .. } => false,
    }
}

/// Whether the key is what is written before the type of the entry: a literal, or a name,
/// which is the text that it is written as.
pub open spec fn is_key_of(key: FixedValueView, entry: GroupEntry) -> bool {
    match entry {
        GroupEntry::ValueMemberKey { ge } => match ge.member_key {
            Some(MemberKey::Bareword { ident }) => key == FixedValueView::Text(ident.text()),
            Some(MemberKey::Value { value: Value::UINT(x) }) => key == FixedValueView::Uint(x),
            Some(MemberKey::Value { value: Value::INT(x) }) => key == FixedValueView::Int(x),
            Some(MemberKey::Value { value: Value::TEXT(x) }) => key == FixedValueView::Text(x@),
            Some(MemberKey::Type1 { t1 }) => match t1.type2 {
                Type2::UintValue { value } => key == FixedValueView::Uint(value),
                Type2::IntValue { value } => key == FixedValueView::Int(value),
                Type2::TextValue { value } => key == FixedValueView::Text(value@),
                _ => false,
            },
            _ => false,
        },
        _ => false,
    }
}

/// Whether the name is the one that the field for the entry at position `index` goes by,
/// before it is put in snake case: the key, or else the name of the type, or else the
/// position.
pub open spec fn is_name_of(name: Seq<char>, entry: GroupEntry, index: nat) -> bool {
    match entry {
        GroupEntry::ValueMemberKey { ge } => match ge.member_key {
            Some(MemberKey::Bareword { ident }) => name == ident.text(),
            Some(MemberKey::Value { value: Value::UINT(x) }) => name == masked_text(
                "_"@ + decimal_text(x as nat),
            ),
            Some(MemberKey::Value { value: Value::INT(x) }) => name == masked_text(
                "_"@ + signed_decimal_text(x as int),
            ),
            Some(MemberKey::Value { value: Value::FLOAT(x) }) => name == masked_text("_"@ + x@),
            Some(MemberKey::Value { value: Value::TEXT(x) }) => name == masked_text(x@),
            Some(MemberKey::Value { value: Value::BYTE(x) }) => name == masked_text(x.text()),
            Some(MemberKey::Type1 { t1 }) => t1.type2 matches Type2::UintValue { value } && name
                == "key_"@ + decimal_text(value as nat),
            Some(MemberKey::NonMemberKey) => false,
            None => match type_field_name(ge.entry_type) {
                Some(text) => name == text,
                None => name == "index_"@ + decimal_text(index),
            },
        },
        GroupEntry::TypeGroupname { ge } => if prelude_names().contains(ge.name.text()) {
            name == "index_"@ + decimal_text(index)
        } else {
            name == ge.name.text()
        },
        GroupEntry::InlineGroup { .. } => false,
    }
}

/// An entry may be left out exactly where it is marked so, its key is the one that is
/// written, and it has one wherever one is written.
pub proof fn law_entry_is_read(entry: GroupEntry, index: nat)
    requires
        !(entry is InlineGroup),
    ensures
        entry_optional(entry) <==> may_be_left_out(entry),
        entry_key_supported(entry) ==> (match entry_key(entry) {
            Some(key) => is_key_of(key, entry),
            None => entry is TypeGroupname || entry->ValueMemberKey_ge.member_key is None,
        }),
        entry_name_supported(entry) ==> is_name_of(entry_name(entry, index), entry, index),
{
    if let GroupEntry::TypeGroupname { ge } = entry {
        law_prelude_names(ge.name.text());
    }
}

/// An entry states a field name exactly where its key is a name, and then it is that name.
pub proof fn law_stated_name(entry: GroupEntry)
    requires
        !(entry is InlineGroup),
    ensures
        match entry_raw_name(entry) {
            Some(name) => entry matches GroupEntry::ValueMemberKey { ge }
                && ge.member_key matches Some(MemberKey::Bareword { ident }) && name
                == ident.text(),
            None => entry matches GroupEntry::ValueMemberKey { ge } ==> !(
            ge.member_key matches Some(MemberKey::Bareword { .. })),
        },
{
}

/// A type lends its name to a field: a name or a text literal lends itself, `T / null` what
/// `T` lends, and an array of one entry what the entry lends, with an `s`. Any other type
/// lends none.
pub proof fn law_name_from_type(t: Type)
    ensures
        t.type_choices@.len() == 1 ==> type_field_name(t) == type2_field_name(
            t.type_choices@[0].type2,
        ),
        t.type_choices@.len() == 2 && is_null(t.type_choices@[0].type2) ==> type_field_name(t)
            == type2_field_name(t.type_choices@[1].type2),
        t.type_choices@.len() == 2 && !is_null(t.type_choices@[0].type2) && is_null(
            t.type_choices@[1].type2,
        ) ==> type_field_name(t) == type2_field_name(t.type_choices@[0].type2),
        t.type_choices@.len() == 2 && !is_null(t.type_choices@[0].type2) && !is_null(
            t.type_choices@[1].type2,
        ) ==> type_field_name(t) is None,
        t.type_choices@.len() != 1 && t.type_choices@.len() != 2 ==> type_field_name(t) is None,
{
}

/// What one alternative of a type lends as a name.
pub proof fn law_name_from_alternative(t: Type2)
    ensures
        match t {
            Type2::Typename { ident, .. } => type2_field_name(t) == Some(ident.text()),
            Type2::TextValue { value } => type2_field_name(t) == Some(value@),
            Type2::Array { group } => if group.group_choices@.len() == 1
                && group.group_choices@[0].group_entries@.len() == 1 {
                match group.group_choices@[0].group_entries@[0] {
                    GroupEntry::ValueMemberKey { ge } => match type2_field_name(t) {
                        Some(name) => type_field_name(ge.entry_type) matches Some(element) && name
                            == element + "s"@,
                        None => type_field_name(ge.entry_type) is None,
                    },
                    GroupEntry::TypeGroupname { ge } => type2_field_name(t) == Some(
                        ge.name.text() + "s"@,
                    ),
                    GroupEntry::InlineGroup { .. } => type2_field_name(t) is None,
                }
            } else {
                type2_field_name(t) is None
            },
            _ => type2_field_name(t) is None,
        },
{
}

/// The type of an entry is the one that follows the key, or what the name stands for that is
/// all there is of the entry.
pub proof fn law_entry_type(types: TypesView, entry: GroupEntry)
    requires
        !(entry is InlineGroup),
    ensures
        match entry {
            GroupEntry::ValueMemberKey { ge } => entry_type_meaning(types, entry) == type_meaning(
                types,
                ge.entry_type,
            ),
            GroupEntry::TypeGroupname { ge } => entry_type_meaning(types, entry) == (
                types.new_type(ge.name.text()),
                types,
            ),
            GroupEntry::InlineGroup { .. } => false,
        },
{
}

// Records.

/// Whether the record has a field for each of the entries, in order, that may be left out
/// if the entry may, has the key that is written if the record is represented by key and
/// none otherwise, and has the name of the entry in snake case, with a number where the
/// name was used before.
pub open spec fn is_record_of(
    record: RustRecordView,
    entries: Seq<GroupEntry>,
    rep: Representation,
) -> bool {
    &&& record.rep == rep
    &&& record.fields.len() == entries.len()
    &&& forall|i: int|
        0 <= i < entries.len() ==> {
            let field = #[trigger] record.fields[i];
            &&& field.optional <==> may_be_left_out(entries[i])
            &&& match rep {
                Representation::Mapping => field.key matches Some(key) && is_key_of(
                    key,
                    entries[i],
                ),
                Representation::Array => field.key is None,
            }
            &&& is_name_of(entry_name(entries[i], i as nat), entries[i], i as nat)
            &&& entry_names(entries)[i] == snake_case(entry_name(entries[i], i as nat))
            &&& field.name == told_apart(
                entry_names(entries)[i],
                earlier_uses(entry_names(entries), i),
            )
        }
}

/// `after` is `before`, but that a plain group that `t` refers to is represented by `rep`.
pub open spec fn notes_rep(
    before: TypesView,
    after: TypesView,
    t: RustTypeView,
    rep: Representation,
) -> bool {
    &&& after == (TypesView { plain_group_reps: after.plain_group_reps, ..before })
    &&& match t {
        RustTypeView::Rust(ident) => if before.plain_groups.contains_key(ident) {
            after.plain_group_reps == before.plain_group_reps.insert(ident, rep)
        } else {
            after.plain_group_reps == before.plain_group_reps
        },
        _ => after.plain_group_reps == before.plain_group_reps,
    }
}

/// The types of the fields are those of the entries, each in the table that the entry before
/// it leaves.
pub open spec fn typed_in_turn(
    fields: Seq<RustFieldView>,
    entries: Seq<GroupEntry>,
    rep: Representation,
    tables: Seq<TypesView>,
) -> bool {
    &&& fields.len() == entries.len()
    &&& tables.len() == entries.len() + 1
    &&& forall|i: int|
        0 <= i < entries.len() ==> {
            let (t, made) = entry_type_meaning(tables[i], #[trigger] entries[i]);
            &&& fields[i].rust_type == t
            &&& notes_rep(made, tables[i + 1], t, rep)
        }
}

proof fn lemma_entries_in_turn(
    types: TypesView,
    entries: Seq<GroupEntry>,
    rep: Representation,
) -> (tables: Seq<TypesView>)
    ensures
        tables.len() == entries.len() + 1,
        tables[0] == types,
        tables.last() == entries_meaning(types, entries, rep).1,
        entries_meaning(types, entries, rep).0.len() == entries.len(),
        forall|i: int|
            0 <= i < entries.len() ==> {
                let (t, made) = entry_type_meaning(tables[i], #[trigger] entries[i]);
                &&& entries_meaning(types, entries, rep).0[i] == t
                &&& notes_rep(made, tables[i + 1], t, rep)
            },
    decreases entries.len(),
{
    if entries.len() == 0 {
        seq![types]
    } else {
        let before = entries.drop_last();
        let so_far = lemma_entries_in_turn(types, before, rep);
        let tables = so_far.push(entries_meaning(types, entries, rep).1);
        assert forall|i: int| 0 <= i < entries.len() implies {
            let (t, made) = entry_type_meaning(tables[i], #[trigger] entries[i]);
            &&& entries_meaning(types, entries, rep).0[i] == t
            &&& notes_rep(made, tables[i + 1], t, rep)
        } by {
            if i < before.len() {
                assert(before[i] == entries[i]);
            }
        }
        tables
    }
}

/// A record has a field for each entry, with the properties and the type that the entry
/// gives it.
pub proof fn law_record(types: TypesView, entries: Seq<GroupEntry>, rep: Representation) -> (tables:
    Seq<TypesView>)
    requires
        record_supported(entries, rep),
    ensures
        is_record_of(record_meaning(types, entries, rep).0, entries, rep),
        typed_in_turn(record_meaning(types, entries, rep).0.fields, entries, rep, tables),
        tables[0] == types,
        tables.last() == record_meaning(types, entries, rep).1,
{
    let record = record_meaning(types, entries, rep).0;
    let tables = lemma_entries_in_turn(types, entries, rep);
    assert forall|i: int| 0 <= i < entries.len() implies {
        let field = #[trigger] record.fields[i];
        &&& field.optional <==> may_be_left_out(entries[i])
        &&& match rep {
            Representation::Mapping => field.key matches Some(key) && is_key_of(key, entries[i]),
            Representation::Array => field.key is None,
        }
        &&& is_name_of(entry_name(entries[i], i as nat), entries[i], i as nat)
        &&& entry_names(entries)[i] == snake_case(entry_name(entries[i], i as nat))
        &&& field.name == told_apart(
            entry_names(entries)[i],
            earlier_uses(entry_names(entries), i),
        )
    } by {
        assert(field_supported(entries[i], rep));
        law_entry_is_read(entries[i], i as nat);
        law_numbered_names(entry_names(entries));
        assert(record.fields[i].name == numbered_names(entry_names(entries))[i]);
    }
    tables
}

/// What a name stands for is not changed by the entries that stand before it: a field for an
/// entry that is a name, or whose type is one, has the type that the name stands for before
/// them all.
pub proof fn law_names_among_entries(
    types: TypesView,
    entries: Seq<GroupEntry>,
    rep: Representation,
    i: int,
)
    requires
        record_supported(entries, rep),
        0 <= i < entries.len(),
    ensures
        match entries[i] {
            GroupEntry::ValueMemberKey { ge } => ge.entry_type.type_choices@.len() == 1 ==> (
            ge.entry_type.type_choices@[0].type2 matches Type2::Typename {
                ident,
                generic_arg: None,
            } ==> record_meaning(types, entries, rep).0.fields[i].rust_type == types.new_type(
                ident.ident@,
            )),
            GroupEntry::TypeGroupname { ge } => record_meaning(
                types,
                entries,
                rep,
            ).0.fields[i].rust_type == types.new_type(ge.name.text()),
            GroupEntry::InlineGroup { .. } => false,
        },
{
    assert(field_supported(entries[i], rep));
    lemma_prefix_types(types, entries, rep, i);
    let before = entries.take(i);
    assert forall|j: int| 0 <= j < before.len() implies field_supported(
        #[trigger] before[j],
        rep,
    ) by {
        assert(field_supported(entries[j], rep));
    }
    lemma_entries_leave_aliases(types, before, rep);
}

proof fn lemma_prefix_types(
    types: TypesView,
    entries: Seq<GroupEntry>,
    rep: Representation,
    i: int,
)
    requires
        0 <= i < entries.len(),
    ensures
        entries_meaning(types, entries, rep).0.len() == entries.len(),
        entries_meaning(types, entries, rep).0[i] == entry_type_meaning(
            entries_meaning(types, entries.take(i), rep).1,
            entries[i],
        ).0,
    decreases entries.len(),
{
    let before = entries.drop_last();
    let tables = lemma_entries_in_turn(types, before, rep);
    if i < before.len() {
        lemma_prefix_types(types, before, rep, i);
        assert(before.take(i) =~= entries.take(i));
        assert(before[i] == entries[i]);
    } else {
        assert(before =~= entries.take(i));
    }
}

/// Whether one of the fields refers to the type `ident`.
pub open spec fn refers_to(fields: Seq<RustFieldView>, ident: Seq<char>) -> bool {
    exists|i: int|
        0 <= i < fields.len() && (#[trigger] fields[i]).rust_type == RustTypeView::Rust(ident)
}

/// A record has exactly the plain groups that its fields refer to represented as it is
/// itself. It makes no group a plain one.
pub proof fn law_plain_groups_of_record(
    types: TypesView,
    entries: Seq<GroupEntry>,
    rep: Representation,
    ident: Seq<char>,
)
    requires
        record_supported(entries, rep),
    ensures
        ({
            let (record, after) = record_meaning(types, entries, rep);
            &&& after.plain_groups == types.plain_groups
            &&& if types.plain_groups.contains_key(ident) && refers_to(record.fields, ident) {
                after.plain_group_reps.contains_key(ident) && after.plain_group_reps[ident] == rep
            } else {
                &&& after.plain_group_reps.contains_key(ident)
                    <==> types.plain_group_reps.contains_key(ident)
                &&& after.plain_group_reps[ident] == types.plain_group_reps[ident]
                    || !types.plain_group_reps.contains_key(ident)
            }
        }),
    decreases entries.len(),
{
    let (record, after) = record_meaning(types, entries, rep);
    if entries.len() > 0 {
        let before = entries.drop_last();
        assert forall|j: int| 0 <= j < before.len() implies field_supported(
            #[trigger] before[j],
            rep,
        ) by {
            assert(before[j] == entries[j]);
        }
        law_plain_groups_of_record(types, before, rep, ident);
        let (shorter, made) = record_meaning(types, before, rep);
        let last = entries[entries.len() - 1];
        assert(field_supported(last, rep));
        if let GroupEntry::ValueMemberKey { ge } = last {
            law_type_adds_types_only(made, ge.entry_type);
        }
        let tables = lemma_entries_in_turn(types, before, rep);
        let fields = record.fields;
        let n = before.len() as int;
        assert forall|j: int| 0 <= j < n implies (#[trigger] fields[j]).rust_type
            == shorter.fields[j].rust_type by {}
        assert(fields[n].rust_type == entry_type_meaning(made, last).0);
        if refers_to(shorter.fields, ident) {
            let j = choose|j: int|
                0 <= j < shorter.fields.len() && (#[trigger] shorter.fields[j]).rust_type
                    == RustTypeView::Rust(ident);
            assert(fields[j].rust_type == RustTypeView::Rust(ident));
            assert(refers_to(fields, ident));
        } else if fields[n].rust_type != RustTypeView::Rust(ident) {
            assert forall|j: int| 0 <= j < fields.len() implies (#[trigger] fields[j]).rust_type
                != RustTypeView::Rust(ident) by {
                if j < n {
                    assert(shorter.fields[j].rust_type != RustTypeView::Rust(ident));
                }
            }
        }
    }
}

} // verus!
