use cddl_parsing::ast::{
    ByteValue, Group, GroupChoice, GroupEntry, Identifier, MemberKey, SocketPlug, Type, Type1,
    Type2, TypeGroupnameEntry, Value, ValueMemberKeyEntry,
};
use cddl_parsing::intermediate::{
    AliasIdent, CDDLIdent, FixedValue, Primitive, RustIdent, RustType, VariantIdent,
};
use cddl_parsing::parsing::{
    group_entry_to_field_name, group_entry_to_raw_field_name, type_to_field_name,
};
use cddl_parsing::support::{rule_is_supported, type_is_supported};
use cddl_parsing::table::Table;
use cddl_parsing::text::{concatenated, decimal, mask_alphanumeric, same_text, signed_decimal};
use cddl_parsing::utils::{
    append_number_if_duplicate, convert_to_camel_case, convert_to_snake_case,
    is_identifier_user_defined,
};

fn s(text: &str) -> String {
    String::from(text)
}

fn id(text: &str) -> Identifier {
    Identifier { ident: s(text), socket: None }
}

fn named(text: &str) -> Type1 {
    Type1 { type2: Type2::Typename { ident: id(text), generic_arg: None }, operator: None }
}

fn ty(type_choices: Vec<Type1>) -> Type {
    Type { type_choices }
}

fn entry(member_key: Option<MemberKey>, entry_type: Type) -> GroupEntry {
    GroupEntry::ValueMemberKey {
        ge: Box::new(ValueMemberKeyEntry { occur: None, member_key, entry_type }),
    }
}

fn array_of(group_entries: Vec<GroupEntry>) -> Type1 {
    Type1 {
        type2: Type2::Array { group: Group { group_choices: vec![GroupChoice { group_entries }] } },
        operator: None,
    }
}

fn groupname(name: Identifier) -> GroupEntry {
    GroupEntry::TypeGroupname { ge: TypeGroupnameEntry { occur: None, name, generic_arg: None } }
}

fn field_name(entry: &GroupEntry, index: usize) -> String {
    let mut used = Table::new();
    group_entry_to_field_name(entry, index, &mut used)
}

fn key_name(value: Value) -> String {
    field_name(&entry(Some(MemberKey::Value { value }), ty(vec![named("uint")])), 0)
}

#[test]
fn snake_case_of_names() {
    assert_eq!(convert_to_snake_case(""), "");
    assert_eq!(convert_to_snake_case("fooBar"), "foo_bar");
    assert_eq!(convert_to_snake_case("FooBar"), "foo_bar");
    assert_eq!(convert_to_snake_case("foo-bar"), "foo_bar");
    assert_eq!(convert_to_snake_case("$$foo@1"), "foo1");
    assert_eq!(convert_to_snake_case("$Foo"), "foo");
}

#[test]
fn snake_case_has_no_upper_case() {
    let name = convert_to_snake_case("$A-BcD@e");
    assert_eq!(name, "a__bc_de");
    assert!(name.chars().all(|c| !c.is_ascii_uppercase() && c != '-' && c != '$' && c != '@'));
}

#[test]
fn camel_case_of_names() {
    assert_eq!(convert_to_camel_case(""), "");
    assert_eq!(convert_to_camel_case("foo_bar"), "FooBar");
    assert_eq!(convert_to_camel_case("foo-bar2"), "FooBar2");
    assert_eq!(convert_to_camel_case("_$foo@bar"), "Foobar");
    assert_eq!(convert_to_camel_case("$_foo"), "Foo");
    assert_eq!(convert_to_camel_case("bar_String_Bool"), "BarStringBool");
}

#[test]
fn camel_case_keeps_camel_case() {
    let once = convert_to_camel_case("foo_barBaz-1");
    assert_eq!(once, "FooBarBaz1");
    assert_eq!(convert_to_camel_case(&once), once);
}

#[test]
fn numerals() {
    assert_eq!(decimal(0), "0");
    assert_eq!(decimal(9), "9");
    assert_eq!(decimal(10), "10");
    assert_eq!(decimal(120304), "120304");
    assert_eq!(decimal(usize::MAX), usize::MAX.to_string());
    assert_eq!(signed_decimal(-1), "-1");
    assert_eq!(signed_decimal(17), "17");
    assert_eq!(signed_decimal(isize::MIN), isize::MIN.to_string());
    assert_ne!(decimal(21), decimal(12));
}

#[test]
fn small_text_operations() {
    assert_eq!(concatenated("a", "bc"), "abc");
    assert!(same_text(&s("abc"), "abc"));
    assert!(!same_text(&s("abc"), "abd"));
    assert_eq!(mask_alphanumeric("aZ0-_ é'"), "___-_ é'");
}

#[test]
fn tables_replace_values() {
    let mut table: Table<u32> = Table::new();
    assert!(table.get("a").is_none());
    table.insert(s("a"), 1);
    table.insert(s("b"), 2);
    table.insert(s("a"), 3);
    assert_eq!(table.get("a"), Some(&3));
    assert_eq!(table.get("b"), Some(&2));
    assert!(table.contains("b"));
    assert!(!table.contains("c"));
}

#[test]
fn duplicates_are_numbered_from_two() {
    let mut used = Table::new();
    assert_eq!(append_number_if_duplicate(&mut used, s("foo")), "foo");
    assert_eq!(append_number_if_duplicate(&mut used, s("bar")), "bar");
    assert_eq!(append_number_if_duplicate(&mut used, s("foo")), "foo2");
    assert_eq!(append_number_if_duplicate(&mut used, s("foo")), "foo3");
    assert_eq!(append_number_if_duplicate(&mut used, s("bar")), "bar2");
}

#[test]
fn a_numbered_name_can_be_another_name() {
    let mut used = Table::new();
    let names: Vec<String> = vec!["foo", "foo2", "foo"]
        .into_iter()
        .map(|name| append_number_if_duplicate(&mut used, s(name)))
        .collect();
    assert_eq!(names, vec!["foo", "foo2", "foo2"]);
}

#[test]
fn prelude_names_are_not_user_defined() {
    for name in vec!["uint", "int", "null", "nil", "undefined", "encoded-cbor", "float16-32"] {
        assert!(!is_identifier_user_defined(&s(name)));
    }
    for name in vec!["", "foo", "Uint", "nulls", "string"] {
        assert!(is_identifier_user_defined(&s(name)));
    }
}

#[test]
fn rust_idents_are_camel_case() {
    assert_eq!(RustIdent::new(CDDLIdent::new(s("foo-bar"))).as_str(), "FooBar");
    assert_eq!(RustIdent::new(CDDLIdent::new(s("$foo"))).to_string(), "Foo");
}

#[test]
fn names_of_types() {
    let foo = || RustIdent::new(CDDLIdent::new(s("foo")));
    let u64_type = || RustType::Primitive(Primitive::U64);
    assert_eq!(u64_type().for_variant(), VariantIdent::Custom(s("U64")));
    assert_eq!(u64_type().for_member(), "u64");
    assert_eq!(u64_type().name_as_array(), "U64s");
    assert_eq!(RustType::Rust(foo()).for_variant(), VariantIdent::Rust(foo()));
    assert_eq!(RustType::Rust(foo()).name_as_array(), "Foos");
    let optional = RustType::Optional(Box::new(RustType::Rust(foo())));
    assert_eq!(optional.for_variant().to_string(), "OptFoo");
    assert_eq!(optional.for_member(), "OptFoo");
    let array = RustType::Array(Box::new(u64_type()));
    assert_eq!(array.for_variant().to_string(), "ArrU64");
    assert_eq!(array.for_member(), "U64s");
    let mapping = RustType::Mapping(
        Box::new(RustType::Primitive(Primitive::Str)),
        Box::new(RustType::Primitive(Primitive::Bool)),
    );
    assert_eq!(mapping.for_variant().to_string(), "MapStringToBool");
    assert_eq!(mapping.for_member(), "MapStringTobool");
    let tagged = RustType::Tagged(5, Box::new(RustType::Primitive(Primitive::N64)));
    assert_eq!(tagged.for_variant().to_string(), "N64");
    assert_eq!(tagged.for_member(), "n64");
    let alias = RustType::Alias(AliasIdent::new(foo()), Box::new(u64_type()));
    assert_eq!(alias.for_variant(), VariantIdent::Rust(foo()));
    assert_eq!(alias.for_member(), "Foo");
    assert_eq!(alias.clone(), alias);
    let variant = |value| RustType::Fixed(value).for_variant().to_string();
    assert_eq!(variant(FixedValue::Null), "Null");
    assert_eq!(variant(FixedValue::Bool(true)), "True");
    assert_eq!(variant(FixedValue::Bool(false)), "False");
    assert_eq!(variant(FixedValue::Int(-12)), "Neg12");
    assert_eq!(variant(FixedValue::Int(12)), "I12");
    assert_eq!(variant(FixedValue::Uint(7)), "U7");
    assert_eq!(variant(FixedValue::Text(s("hello world_x"))), "Hello worldX");
}

#[test]
fn field_name_from_type() {
    assert_eq!(type_to_field_name(&ty(vec![named("foo")])), Some(s("foo")));
    let text = Type1 { type2: Type2::TextValue { value: s("hello") }, operator: None };
    assert_eq!(type_to_field_name(&ty(vec![text])), Some(s("hello")));
    let foos = ty(vec![array_of(vec![entry(None, ty(vec![named("foo")]))])]);
    assert_eq!(type_to_field_name(&foos), Some(s("foos")));
    let fooss = ty(vec![array_of(vec![entry(None, foos)])]);
    assert_eq!(type_to_field_name(&fooss), Some(s("fooss")));
    let groups = ty(vec![array_of(vec![groupname(id("foo"))])]);
    assert_eq!(type_to_field_name(&groups), Some(s("foos")));
    let pair = ty(vec![array_of(vec![groupname(id("foo")), groupname(id("foo"))])]);
    assert_eq!(type_to_field_name(&pair), None);
    let inline = GroupEntry::InlineGroup { group: Group { group_choices: vec![] } };
    assert_eq!(type_to_field_name(&ty(vec![array_of(vec![inline])])), None);
    let number = Type1 { type2: Type2::UintValue { value: 1 }, operator: None };
    assert_eq!(type_to_field_name(&ty(vec![number])), None);
    assert_eq!(type_to_field_name(&ty(vec![])), None);
    assert_eq!(type_to_field_name(&ty(vec![named("a"), named("b")])), None);
    assert_eq!(type_to_field_name(&ty(vec![named("a"), named("b"), named("null")])), None);
}

#[test]
fn field_name_of_an_optional_type_is_that_of_the_type() {
    let alone = type_to_field_name(&ty(vec![named("foo")]));
    assert_eq!(type_to_field_name(&ty(vec![named("foo"), named("null")])), alone);
    assert_eq!(type_to_field_name(&ty(vec![named("nil"), named("foo")])), alone);
}

#[test]
fn sockets_stand_before_names() {
    let plug = |socket| Type1 {
        type2: Type2::Typename {
            ident: Identifier { ident: s("foo"), socket: Some(socket) },
            generic_arg: None,
        },
        operator: None,
    };
    assert_eq!(type_to_field_name(&ty(vec![plug(SocketPlug::TYPE)])), Some(s("$foo")));
    assert_eq!(type_to_field_name(&ty(vec![plug(SocketPlug::GROUP)])), Some(s("$$foo")));
}

#[test]
fn field_name_from_key() {
    assert_eq!(key_name(Value::INT(-5)), "___");
    assert_eq!(key_name(Value::UINT(12)), "___");
    assert_eq!(key_name(Value::FLOAT(s("1.5"))), "__._");
    assert_eq!(key_name(Value::TEXT(s("foo-bar"))), "_______");
    let bareword = MemberKey::Bareword { ident: id("someKey") };
    assert_eq!(field_name(&entry(Some(bareword), ty(vec![named("uint")])), 0), "some_key");
    let seven = Type1 { type2: Type2::UintValue { value: 7 }, operator: None };
    let key = MemberKey::Type1 { t1: Box::new(seven) };
    assert_eq!(field_name(&entry(Some(key), ty(vec![named("uint")])), 0), "key_7");
}

#[test]
fn field_name_from_byte_string_key() {
    assert_eq!(key_name(Value::BYTE(ByteValue::UTF8(b"ab c".to_vec()))), "'__ _'");
    assert_eq!(key_name(Value::BYTE(ByteValue::B16(b"0a 0B".to_vec()))), "_'____'");
    assert_eq!(key_name(Value::BYTE(ByteValue::B64(b"a_ -b".to_vec()))), "___'____'");
}

#[test]
fn field_name_without_key() {
    assert_eq!(field_name(&entry(None, ty(vec![named("fooBar")])), 3), "foo_bar");
    let number = Type1 { type2: Type2::UintValue { value: 1 }, operator: None };
    assert_eq!(field_name(&entry(None, ty(vec![number])), 13), "index_13");
    assert_eq!(field_name(&groupname(id("foo")), 0), "foo");
    assert_eq!(field_name(&groupname(id("uint")), 4), "index_4");
}

#[test]
fn field_names_are_numbered() {
    let mut used = Table::new();
    let names: Vec<String> = vec!["foo", "Foo", "bar", "foo"]
        .into_iter()
        .enumerate()
        .map(|(i, name)| group_entry_to_field_name(&groupname(id(name)), i, &mut used))
        .collect();
    assert_eq!(names, vec!["foo", "foo2", "bar", "foo3"]);
}

#[test]
fn raw_field_names() {
    let bareword = MemberKey::Bareword { ident: id("some-Key") };
    let with_key = entry(Some(bareword), ty(vec![named("uint")]));
    assert_eq!(group_entry_to_raw_field_name(&with_key), Some(s("some-Key")));
    assert_eq!(group_entry_to_raw_field_name(&entry(None, ty(vec![named("foo")]))), None);
    let value = MemberKey::Value { value: Value::TEXT(s("a")) };
    assert_eq!(group_entry_to_raw_field_name(&entry(Some(value), ty(vec![]))), None);
    assert_eq!(group_entry_to_raw_field_name(&groupname(id("foo"))), None);
    assert_eq!(group_entry_to_raw_field_name(&groupname(id("text"))), None);
}

#[test]
fn type_support_is_decided() {
    assert!(type_is_supported(&ty(vec![named("foo")])));
    let any = Type1 { type2: Type2::Any, operator: None };
    assert!(!type_is_supported(&ty(vec![any])));
    let types = cddl_parsing::intermediate::IntermediateTypes::new();
    let rule = |bytes: Vec<u8>| cddl_parsing::ast::Rule::Type {
        rule: cddl_parsing::ast::TypeRule {
            name: id("foo"),
            generic_param: None,
            value: ty(vec![array_of(vec![entry(
                Some(MemberKey::Value { value: Value::BYTE(ByteValue::UTF8(bytes)) }),
                ty(vec![named("uint")]),
            )])]),
        },
    };
    assert!(rule_is_supported(&types, &rule(b"ab".to_vec())));
    assert!(!rule_is_supported(&types, &rule(vec![0xff, 0xfe])));
}
