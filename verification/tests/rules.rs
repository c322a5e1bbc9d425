use cddl_parsing::ast::{
    GenericArg, GenericParm, Group, GroupChoice, GroupEntry, GroupRule, Identifier, MemberKey,
    Occur, RangeCtlOp, Rule, Type, Type1, Type2, TypeGroupnameEntry, TypeRule, Value,
    ValueMemberKeyEntry,
};
use cddl_parsing::intermediate::{
    AliasIdent, CDDLIdent, EnumVariant, FixedValue, GenericDef, GenericInstance,
    IntermediateTypes, Primitive, Representation, RustField, RustIdent, RustRecord, RustStruct,
    RustStructType, RustType, TypeAlias, VariantIdent,
};
use cddl_parsing::parsing::{
    create_variants_from_type_choices, group_entry_optional, group_entry_to_key, parse_group,
    parse_rule, rust_type, rust_type_from_type2, table_domain_range, type2_is_null,
};
use cddl_parsing::support::{
    choices_are_supported, group_is_supported, rule_is_supported, type2_is_supported,
    type_is_supported,
};

fn s(text: &str) -> String {
    String::from(text)
}

fn id(text: &str) -> Identifier {
    Identifier { ident: s(text), socket: None }
}

fn ident(text: &str) -> RustIdent {
    RustIdent::new(CDDLIdent::new(s(text)))
}

fn plain(type2: Type2) -> Type1 {
    Type1 { type2, operator: None }
}

fn name(text: &str) -> Type2 {
    Type2::Typename { ident: id(text), generic_arg: None }
}

fn generic(text: &str, args: Vec<Type2>) -> Type2 {
    Type2::Typename {
        ident: id(text),
        generic_arg: Some(GenericArg { args: args.into_iter().map(plain).collect() }),
    }
}

fn uint(value: usize) -> Type2 {
    Type2::UintValue { value }
}

fn ty(choices: Vec<Type2>) -> Type {
    Type { type_choices: choices.into_iter().map(plain).collect() }
}

fn group(choices: Vec<Vec<GroupEntry>>) -> Group {
    Group {
        group_choices: choices
            .into_iter()
            .map(|group_entries| GroupChoice { group_entries })
            .collect(),
    }
}

fn array(choices: Vec<Vec<GroupEntry>>) -> Type2 {
    Type2::Array { group: group(choices) }
}

fn mapping(choices: Vec<Vec<GroupEntry>>) -> Type2 {
    Type2::Mapping { group: group(choices) }
}

fn tagged(tag: usize, choices: Vec<Type2>) -> Type2 {
    Type2::TaggedData { tag: Some(tag), t: ty(choices) }
}

fn entry(member_key: Option<MemberKey>, entry_type: Type) -> GroupEntry {
    GroupEntry::ValueMemberKey {
        ge: Box::new(ValueMemberKeyEntry { occur: None, member_key, entry_type }),
    }
}

fn bareword(text: &str) -> Option<MemberKey> {
    Some(MemberKey::Bareword { ident: id(text) })
}

fn field(text: &str, type2: Type2) -> GroupEntry {
    entry(bareword(text), ty(vec![type2]))
}

fn groupname(text: &str) -> GroupEntry {
    GroupEntry::TypeGroupname {
        ge: TypeGroupnameEntry { occur: None, name: id(text), generic_arg: None },
    }
}

fn table_entry(key: Type2, value: Type2) -> GroupEntry {
    entry(Some(MemberKey::Type1 { t1: Box::new(plain(key)) }), ty(vec![value]))
}

fn rule_of(text: &str, params: Option<Vec<&str>>, value: Type) -> Rule {
    Rule::Type {
        rule: TypeRule {
            name: id(text),
            generic_param: params
                .map(|params| GenericParm { params: params.into_iter().map(id).collect() }),
            value,
        },
    }
}

fn rule(text: &str, choices: Vec<Type2>) -> Rule {
    rule_of(text, None, ty(choices))
}

fn add(types: &mut IntermediateTypes, rule: Rule) {
    assert!(rule_is_supported(types, &rule));
    parse_rule(types, &rule);
}

fn after(rules: Vec<Rule>) -> IntermediateTypes {
    let mut types = IntermediateTypes::new();
    for rule in rules {
        add(&mut types, rule);
    }
    types
}

fn refused(rule: Rule) -> bool {
    !rule_is_supported(&IntermediateTypes::new(), &rule)
}

fn primitive(primitive: Primitive) -> RustType {
    RustType::Primitive(primitive)
}

fn rust(text: &str) -> RustType {
    RustType::Rust(ident(text))
}

fn alias(base_type: RustType) -> TypeAlias {
    TypeAlias { base_type, generate: true }
}

fn custom(text: &str, rust_type: RustType) -> EnumVariant {
    EnumVariant::new(VariantIdent::Custom(s(text)), rust_type, false)
}

fn record_field(text: &str, rust_type: RustType) -> RustField {
    RustField::new(s(text), rust_type, false, None)
}

fn structure(text: &str, tag: Option<usize>, variant: RustStructType) -> RustStruct {
    RustStruct { ident: ident(text), tag, variant }
}

#[test]
fn literals_are_aliases() {
    let types = after(vec![
        rule("a", vec![uint(7)]),
        rule("b", vec![Type2::IntValue { value: -7 }]),
        rule("c", vec![Type2::TextValue { value: s("seven") }]),
        rule("d", vec![name("true")]),
        rule("e", vec![name("nil")]),
    ]);
    let fixed = |value| Some(alias(RustType::Fixed(value)));
    assert_eq!(types.type_alias(&ident("a")), fixed(FixedValue::Uint(7)).as_ref());
    assert_eq!(types.type_alias(&ident("b")), fixed(FixedValue::Int(-7)).as_ref());
    assert_eq!(types.type_alias(&ident("c")), fixed(FixedValue::Text(s("seven"))).as_ref());
    assert_eq!(types.type_alias(&ident("d")), fixed(FixedValue::Bool(true)).as_ref());
    assert_eq!(types.type_alias(&ident("e")), fixed(FixedValue::Null).as_ref());
    assert!(types.rust_struct(&ident("a")).is_none());
}

#[test]
fn names_are_aliases_of_what_they_stand_for() {
    let types = after(vec![
        rule("foo", vec![name("uint")]),
        rule("bar", vec![name("foo")]),
        rule("baz", vec![name("some-struct")]),
        rule("qux", vec![name("int")]),
    ]);
    assert_eq!(types.type_alias(&ident("bar")), Some(&alias(primitive(Primitive::U64))));
    assert_eq!(types.type_alias(&ident("baz")), Some(&alias(rust("SomeStruct"))));
    assert_eq!(types.type_alias(&ident("qux")), Some(&alias(rust("Int"))));
    let foo = types.new_type(&CDDLIdent::new(s("foo")));
    let expected = RustType::Alias(
        AliasIdent::new(ident("foo")),
        Box::new(primitive(Primitive::U64)),
    );
    assert_eq!(foo, expected);
}

#[test]
fn prelude_types() {
    let types = IntermediateTypes::new();
    let of = |text: &str| types.new_type(&CDDLIdent::new(s(text)));
    assert_eq!(of("uint"), primitive(Primitive::U64));
    assert_eq!(of("nint"), primitive(Primitive::N64));
    assert_eq!(of("bool"), primitive(Primitive::Bool));
    assert_eq!(of("tstr"), primitive(Primitive::Str));
    assert_eq!(of("text"), primitive(Primitive::Str));
    assert_eq!(of("bstr"), primitive(Primitive::Bytes));
    assert_eq!(of("bytes"), primitive(Primitive::Bytes));
    assert_eq!(of("false"), RustType::Fixed(FixedValue::Bool(false)));
    assert_eq!(of("null"), RustType::Fixed(FixedValue::Null));
    assert_eq!(of("foo-bar"), rust("FooBar"));
}

#[test]
fn bounds_make_a_wrapper_of_bytes() {
    let operator = Some((RangeCtlOp::CtlOp { ctrl: s(".size") }, uint(32)));
    let value = Type { type_choices: vec![Type1 { type2: name("bytes"), operator }] };
    let types = after(vec![rule_of("hash", None, value)]);
    let wrapper = RustStructType::Wrapper {
        wrapped: primitive(Primitive::Bytes),
        min_max: Some((Some(32), Some(32))),
    };
    assert_eq!(types.rust_struct(&ident("hash")), Some(&structure("hash", None, wrapper)));
    let expected = TypeAlias { base_type: primitive(Primitive::Bytes), generate: false };
    assert_eq!(types.type_alias(&ident("hash")), Some(&expected));
    assert_eq!(types.new_type(&CDDLIdent::new(s("hash"))), primitive(Primitive::Bytes));
}

#[test]
fn optional_types_are_aliases() {
    let one = after(vec![rule("foo", vec![name("uint"), name("null")])]);
    let other = after(vec![rule("foo", vec![name("nil"), name("uint")])]);
    let expected = alias(RustType::Optional(Box::new(primitive(Primitive::U64))));
    assert_eq!(one.type_alias(&ident("foo")), Some(&expected));
    assert_eq!(other.type_alias(&ident("foo")), Some(&expected));
    assert!(one.rust_struct(&ident("foo")).is_none());
}

#[test]
fn optional_members() {
    let mut types = IntermediateTypes::new();
    let optional = RustType::Optional(Box::new(rust("Bar")));
    assert_eq!(rust_type(&mut types, &ty(vec![name("bar"), name("null")])), optional);
    assert_eq!(rust_type(&mut types, &ty(vec![name("null"), name("bar")])), optional);
    assert!(type2_is_null(&name("null")));
    assert!(type2_is_null(&name("nil")));
    assert!(!type2_is_null(&name("nul")));
    assert!(!type2_is_null(&uint(0)));
}

#[test]
fn tags_are_kept() {
    let types = after(vec![
        rule("a", vec![tagged(24, vec![name("uint"), name("null")])]),
        rule("b", vec![tagged(25, vec![name("bytes")])]),
        rule("c", vec![tagged(26, vec![name("uint"), name("text")])]),
        rule("d", vec![tagged(27, vec![array(vec![vec![field("x", name("uint"))]])])]),
        rule(
            "e",
            vec![tagged(28, vec![mapping(vec![vec![table_entry(name("uint"), name("text"))]])])],
        ),
    ]);
    let optional = RustType::Optional(Box::new(primitive(Primitive::U64)));
    let wrapper = RustStructType::Wrapper { wrapped: optional, min_max: None };
    assert_eq!(types.rust_struct(&ident("a")), Some(&structure("a", Some(24), wrapper)));
    assert!(types.type_alias(&ident("a")).is_none());
    let wrapper = RustStructType::Wrapper { wrapped: primitive(Primitive::Bytes), min_max: None };
    assert_eq!(types.rust_struct(&ident("b")), Some(&structure("b", Some(25), wrapper)));
    for (text, tag) in vec![("c", 26), ("d", 27), ("e", 28)] {
        assert_eq!(types.rust_struct(&ident(text)).unwrap().tag, Some(tag));
    }
}

#[test]
fn tags_of_members() {
    let mut types = IntermediateTypes::new();
    let expected = RustType::Tagged(6, Box::new(primitive(Primitive::Str)));
    assert_eq!(rust_type_from_type2(&mut types, &tagged(6, vec![name("text")])), expected);
}

#[test]
fn type_choices_are_enums() {
    let types = after(vec![rule("foo", vec![name("uint"), name("text"), name("uint"), uint(3)])]);
    let variants = vec![
        custom("U64", primitive(Primitive::U64)),
        custom("String", primitive(Primitive::Str)),
        custom("U642", primitive(Primitive::U64)),
        custom("U3", RustType::Fixed(FixedValue::Uint(3))),
    ];
    let expected = structure("foo", None, RustStructType::TypeChoice { variants });
    assert_eq!(types.rust_struct(&ident("foo")), Some(&expected));
}

#[test]
fn variants_of_type_choices() {
    let mut types = IntermediateTypes::new();
    let foos = array(vec![vec![groupname("foo")]]);
    let choices = vec![plain(name("a")), plain(foos), plain(name("a"))];
    assert!(choices_are_supported(&choices));
    let variants = create_variants_from_type_choices(&mut types, &choices);
    let expected = vec![
        custom("A", rust("A")),
        custom("ArrFoo", RustType::Array(Box::new(rust("Foo")))),
        custom("A2", rust("A")),
    ];
    assert_eq!(variants, expected);
    let array = RustStructType::Array { element_type: rust("Foo") };
    assert_eq!(types.rust_struct(&ident("Foos")), Some(&structure("Foos", None, array)));
}

#[test]
fn type_choices_without_a_name() {
    let mut types = IntermediateTypes::new();
    let choice = ty(vec![name("a"), name("b"), name("c")]);
    assert_eq!(rust_type(&mut types, &choice), rust("AOrBOrC"));
    let variants = vec![custom("A", rust("A")), custom("B", rust("B")), custom("C", rust("C"))];
    let expected = structure("AOrBOrC", None, RustStructType::TypeChoice { variants });
    assert_eq!(types.rust_struct(&ident("AOrBOrC")), Some(&expected));
}

#[test]
fn nothing_precedes_the_first_name_that_is_not_empty() {
    let mut types = IntermediateTypes::new();
    let empty = || Type2::TextValue { value: s("") };
    assert_eq!(rust_type(&mut types, &ty(vec![empty(), name("b"), empty()])), rust("BOr"));
}

#[test]
fn tables_without_a_name() {
    let mut types = IntermediateTypes::new();
    let t = mapping(vec![vec![table_entry(name("uint"), name("foo"))]]);
    let expected = RustType::Mapping(Box::new(primitive(Primitive::U64)), Box::new(rust("Foo")));
    assert_eq!(rust_type_from_type2(&mut types, &t), expected);
    let table = RustStructType::Table { domain: primitive(Primitive::U64), range: rust("Foo") };
    let ident_text = "Mapu64ToFoo";
    assert_eq!(types.rust_struct(&ident(ident_text)), Some(&structure(ident_text, None, table)));
}

#[test]
fn tables_with_a_name() {
    let types = after(vec![rule(
        "foo",
        vec![mapping(vec![vec![table_entry(name("bytes"), name("uint"))]])],
    )]);
    let table = RustStructType::Table {
        domain: primitive(Primitive::Bytes),
        range: primitive(Primitive::U64),
    };
    assert_eq!(types.rust_struct(&ident("foo")), Some(&structure("foo", None, table)));
    let choice = GroupChoice { group_entries: vec![table_entry(name("a"), name("b"))] };
    let (domain, range) = table_domain_range(&choice, Representation::Mapping).unwrap();
    assert_eq!(domain, &name("a"));
    assert_eq!(range, &ty(vec![name("b")]));
    assert!(table_domain_range(&choice, Representation::Array).is_none());
    let two = vec![table_entry(name("a"), name("b")), table_entry(name("a"), name("b"))];
    let choice = GroupChoice { group_entries: two };
    assert!(table_domain_range(&choice, Representation::Mapping).is_none());
}

#[test]
fn generic_definitions() {
    let entries = vec![field("x", name("t")), field("y", name("uint"))];
    let types = after(vec![rule_of("foo", Some(vec!["t", "u"]), ty(vec![array(vec![entries])]))]);
    let record = RustRecord {
        rep: Representation::Array,
        fields: vec![record_field("x", rust("T")), record_field("y", primitive(Primitive::U64))],
    };
    let definition = structure("foo", None, RustStructType::Record(record));
    let expected = GenericDef { params: vec![ident("t"), ident("u")], definition };
    assert_eq!(types.generic_def(&ident("foo")), Some(&expected));
    assert!(types.rust_struct(&ident("foo")).is_none());
}

#[test]
fn generic_type_choices() {
    let types = after(vec![rule_of("foo", Some(vec!["t"]), ty(vec![name("t"), name("uint")]))]);
    let variants = vec![custom("T", rust("T")), custom("U64", primitive(Primitive::U64))];
    let definition = structure("foo", None, RustStructType::TypeChoice { variants });
    assert_eq!(
        types.generic_def(&ident("foo")),
        Some(&GenericDef { params: vec![ident("t")], definition }),
    );
}

#[test]
fn instances_with_a_name() {
    let types = after(vec![rule("foo", vec![generic("bar", vec![name("text")])])]);
    let expected = GenericInstance {
        instance_ident: ident("foo"),
        generic_ident: ident("bar"),
        generic_args: vec![primitive(Primitive::Str)],
    };
    assert_eq!(types.generic_instance(&ident("foo")), Some(&expected));
}

#[test]
fn instances_without_a_name() {
    let mut types = IntermediateTypes::new();
    let t = generic("bar", vec![name("text"), name("bool")]);
    assert_eq!(rust_type_from_type2(&mut types, &t), rust("BarStringBool"));
    let expected = GenericInstance {
        instance_ident: ident("bar_string_bool"),
        generic_ident: ident("bar"),
        generic_args: vec![primitive(Primitive::Str), primitive(Primitive::Bool)],
    };
    assert_eq!(types.generic_instance(&ident("bar_string_bool")), Some(&expected));
}

#[test]
fn records_by_position() {
    let optional = GroupEntry::ValueMemberKey {
        ge: Box::new(ValueMemberKeyEntry {
            occur: Some(Occur::Optional),
            member_key: bareword("opt"),
            entry_type: ty(vec![name("foo"), name("null")]),
        }),
    };
    assert!(group_entry_optional(&optional));
    assert!(!group_entry_optional(&groupname("foo")));
    let entries = vec![
        entry(None, ty(vec![name("foo")])),
        groupname("foo"),
        groupname("uint"),
        entry(None, ty(vec![uint(1)])),
        optional,
    ];
    let types = after(vec![rule("rec", vec![array(vec![entries])])]);
    let fields = vec![
        record_field("foo", rust("Foo")),
        record_field("foo2", rust("Foo")),
        record_field("index_2", primitive(Primitive::U64)),
        record_field("index_3", RustType::Fixed(FixedValue::Uint(1))),
        RustField::new(s("opt"), RustType::Optional(Box::new(rust("Foo"))), true, None),
    ];
    let record = RustRecord { rep: Representation::Array, fields };
    let expected = structure("rec", None, RustStructType::Record(record));
    assert_eq!(types.rust_struct(&ident("rec")), Some(&expected));
}

#[test]
fn records_by_key() {
    let number = Some(MemberKey::Value { value: Value::UINT(1) });
    let typed = Some(MemberKey::Type1 { t1: Box::new(plain(uint(2))) });
    let entries = vec![
        field("a", name("uint")),
        entry(number, ty(vec![name("text")])),
        entry(typed, ty(vec![name("bytes")])),
    ];
    let types = after(vec![rule("rec", vec![mapping(vec![entries])])]);
    let keyed = |text: &str, t, key| RustField::new(s(text), t, false, Some(key));
    let fields = vec![
        keyed("a", primitive(Primitive::U64), FixedValue::Text(s("a"))),
        keyed("__", primitive(Primitive::Str), FixedValue::Uint(1)),
        keyed("key_2", primitive(Primitive::Bytes), FixedValue::Uint(2)),
    ];
    let record = RustRecord { rep: Representation::Mapping, fields };
    let expected = structure("rec", None, RustStructType::Record(record));
    assert_eq!(types.rust_struct(&ident("rec")), Some(&expected));
}

#[test]
fn keys_of_entries() {
    let key = |member_key| group_entry_to_key(&entry(member_key, ty(vec![])));
    let value = |value| key(Some(MemberKey::Value { value }));
    let typed = |t| key(Some(MemberKey::Type1 { t1: Box::new(plain(t)) }));
    assert_eq!(key(None), None);
    assert_eq!(key(bareword("a")), Some(FixedValue::Text(s("a"))));
    assert_eq!(value(Value::UINT(1)), Some(FixedValue::Uint(1)));
    assert_eq!(value(Value::INT(-1)), Some(FixedValue::Int(-1)));
    assert_eq!(value(Value::TEXT(s("t"))), Some(FixedValue::Text(s("t"))));
    assert_eq!(typed(uint(1)), Some(FixedValue::Uint(1)));
    assert_eq!(typed(Type2::IntValue { value: -1 }), Some(FixedValue::Int(-1)));
    assert_eq!(typed(Type2::TextValue { value: s("t") }), Some(FixedValue::Text(s("t"))));
    assert_eq!(group_entry_to_key(&groupname("foo")), None);
}

#[test]
fn groups_with_choices_are_enums() {
    let choices = vec![
        vec![field("some-key", name("uint"))],
        vec![groupname("foo")],
        vec![entry(None, ty(vec![name("text")]))],
        vec![entry(None, ty(vec![name("text")]))],
        vec![field("a", name("uint")), field("b", name("uint"))],
        vec![],
    ];
    let types = after(vec![rule("choice", vec![array(choices)])]);
    let embedded = |text: &str| EnumVariant::new(VariantIdent::Rust(ident(text)), rust(text), true);
    let variants = vec![
        custom("SomeKey", primitive(Primitive::U64)),
        custom("Foo", rust("Foo")),
        custom("String", primitive(Primitive::Str)),
        custom("String2", primitive(Primitive::Str)),
        embedded("Choice4"),
        embedded("Choice5"),
    ];
    let rep = Representation::Array;
    let expected = structure("choice", None, RustStructType::GroupChoice { variants, rep });
    assert_eq!(types.rust_struct(&ident("choice")), Some(&expected));
    let fields = vec![
        record_field("a", primitive(Primitive::U64)),
        record_field("b", primitive(Primitive::U64)),
    ];
    let inner = structure("Choice4", None, RustStructType::Record(RustRecord { rep, fields }));
    assert_eq!(types.rust_struct(&ident("Choice4")), Some(&inner));
    assert!(types.is_plain_group(&ident("Choice4")));
    assert!(types.is_plain_group(&ident("Choice5")));
    assert!(!types.is_plain_group(&ident("choice")));
}

#[test]
fn choices_of_one_name_are_numbered() {
    let choices = vec![
        vec![groupname("foo")],
        vec![groupname("foo")],
        vec![groupname("some-type")],
        vec![field("foo", name("foo"))],
    ];
    let types = after(vec![rule("choice", vec![array(choices)])]);
    let variants = vec![
        custom("Foo", rust("Foo")),
        custom("Foo2", rust("Foo")),
        custom("SomeType", rust("SomeType")),
        custom("Foo", rust("Foo")),
    ];
    let rep = Representation::Array;
    let expected = structure("choice", None, RustStructType::GroupChoice { variants, rep });
    assert_eq!(types.rust_struct(&ident("choice")), Some(&expected));
}

#[test]
fn plain_groups_take_the_representation_of_what_refers_to_them() {
    let mut types = IntermediateTypes::new();
    types.mark_plain_group(ident("foo"), Some(group(vec![vec![field("x", name("uint"))]])));
    types.mark_plain_group(ident("bar"), None);
    let definition = group(vec![vec![field("x", name("uint"))]]);
    assert_eq!(types.plain_group(&ident("foo")), Some(&definition));
    assert_eq!(types.plain_group(&ident("bar")), None);
    assert_eq!(types.plain_group(&ident("baz")), None);
    add(&mut types, rule("rec", vec![array(vec![vec![groupname("foo"), groupname("baz")]])]));
    assert_eq!(types.plain_group_rep(&ident("foo")), Some(Representation::Array));
    assert_eq!(types.plain_group_rep(&ident("bar")), None);
    assert_eq!(types.plain_group_rep(&ident("baz")), None);
    let choices = vec![vec![groupname("bar")], vec![groupname("baz")]];
    add(&mut types, rule("choice", vec![mapping(choices)]));
    assert_eq!(types.plain_group_rep(&ident("bar")), Some(Representation::Mapping));
    let variants = vec![
        EnumVariant::new(VariantIdent::Custom(s("Bar")), rust("Bar"), true),
        custom("Baz", rust("Baz")),
    ];
    let rep = Representation::Mapping;
    let expected = structure("choice", None, RustStructType::GroupChoice { variants, rep });
    assert_eq!(types.rust_struct(&ident("choice")), Some(&expected));
}

#[test]
fn a_plain_group_cannot_be_a_choice_of_groups() {
    let mut types = IntermediateTypes::new();
    let choices = || group(vec![vec![groupname("a")], vec![groupname("b")]]);
    let rep = Representation::Array;
    assert!(group_is_supported(&types, &choices(), &ident("foo"), rep, &None));
    parse_group(&mut types, &choices(), &ident("foo"), rep, Some(9), None);
    assert_eq!(types.rust_struct(&ident("foo")).unwrap().tag, Some(9));
    types.mark_plain_group(ident("foo"), None);
    assert!(!group_is_supported(&types, &choices(), &ident("foo"), rep, &None));
    assert!(group_is_supported(&types, &choices(), &ident("bar"), rep, &None));
    assert!(!group_is_supported(&types, &choices(), &ident("bar"), rep, &Some(vec![ident("t")])));
    assert!(!rule_is_supported(&types, &rule("foo", vec![Type2::Array { group: choices() }])));
    assert!(rule_is_supported(&types, &rule("foo", vec![name("a")])));
}

#[test]
fn rules_of_groups_add_nothing() {
    let group_rule = |entry, generic_param| Rule::Group {
        rule: GroupRule { name: id("foo"), generic_param, entry },
    };
    let inline = || GroupEntry::InlineGroup { group: group(vec![vec![groupname("a")]]) };
    let types = after(vec![group_rule(inline(), None)]);
    assert!(types.rust_struct(&ident("foo")).is_none());
    assert!(types.type_alias(&ident("foo")).is_none());
    assert!(!types.is_plain_group(&ident("foo")));
    assert!(refused(group_rule(groupname("a"), None)));
    assert!(refused(group_rule(inline(), Some(GenericParm { params: vec![id("t")] }))));
}

#[test]
fn definitions_are_kept() {
    let mut types = after(vec![
        rule("a", vec![name("uint")]),
        rule("b", vec![name("uint"), name("text")]),
        rule("c", vec![generic("g", vec![name("uint")])]),
        rule_of("d", Some(vec!["t"]), ty(vec![name("t"), name("uint")])),
    ]);
    types.mark_plain_group(ident("p"), None);
    add(&mut types, rule("e", vec![array(vec![vec![field("x", name("a")), groupname("p")]])]));
    assert!(types.type_alias(&ident("a")).is_some());
    assert!(types.rust_struct(&ident("b")).is_some());
    assert!(types.generic_instance(&ident("c")).is_some());
    assert!(types.generic_def(&ident("d")).is_some());
    assert!(types.rust_struct(&ident("e")).is_some());
    assert!(types.is_plain_group(&ident("p")));
}

#[test]
fn rules_without_a_representation() {
    let bounded = |type2, ctrl: &str| Type {
        type_choices: vec![Type1 {
            type2,
            operator: Some((RangeCtlOp::CtlOp { ctrl: s(ctrl) }, uint(1))),
        }],
    };
    let params = || Some(vec!["t"]);
    assert!(refused(rule_of("a", None, bounded(name("uint"), ".default"))));
    assert!(!refused(rule_of("a", None, bounded(name("uint"), ".le"))));
    assert!(refused(rule_of("a", params(), bounded(name("uint"), ".le"))));
    assert!(refused(rule_of("a", params(), ty(vec![name("uint")]))));
    assert!(refused(rule_of("a", params(), ty(vec![name("t"), name("null")]))));
    assert!(refused(rule("a", vec![Type2::Any])));
    assert!(refused(rule("a", vec![Type2::TaggedData { tag: None, t: ty(vec![name("b")]) }])));
    assert!(refused(rule("a", vec![tagged(1, vec![tagged(2, vec![name("b")])])])));
    assert!(refused(rule("a", vec![tagged(1, vec![uint(2)])])));
    assert!(refused(rule("a", vec![mapping(vec![vec![field("x", name("uint"))]])])));
    assert!(refused(rule("a", vec![mapping(vec![vec![groupname("x")]])])));
    assert!(refused(rule("a", vec![mapping(vec![vec![groupname("x"), groupname("y")]])])));
    let float = Some(MemberKey::Value { value: Value::FLOAT(s("1.5")) });
    let entries = vec![entry(float, ty(vec![name("b")])), field("x", name("b"))];
    assert!(refused(rule("a", vec![mapping(vec![entries])])));
    let other = Some(MemberKey::NonMemberKey);
    assert!(refused(rule("a", vec![array(vec![vec![entry(other, ty(vec![name("b")]))]])])));
    let inline = GroupEntry::InlineGroup { group: group(vec![]) };
    assert!(refused(rule("a", vec![array(vec![vec![inline]])])));
}

#[test]
fn types_without_a_representation() {
    assert!(type2_is_supported(&array(vec![vec![groupname("a")]])));
    assert!(!type2_is_supported(&array(vec![vec![groupname("a"), groupname("b")]])));
    assert!(!type2_is_supported(&array(vec![vec![groupname("a")], vec![groupname("b")]])));
    assert!(!type2_is_supported(&mapping(vec![vec![field("x", name("a"))]])));
    assert!(!type2_is_supported(&mapping(vec![])));
    assert!(!type2_is_supported(&Type2::FloatValue));
    assert!(!type2_is_supported(&Type2::ParenthesizedType { pt: ty(vec![name("a")]) }));
    assert!(!type2_is_supported(&generic("a", vec![Type2::Any])));
    assert!(!type_is_supported(&ty(vec![name("a"), Type2::Any])));
    assert!(type_is_supported(&ty(vec![])));
}
