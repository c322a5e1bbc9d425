//! The Rust types that a CDDL document describes, and the table that collects them.
use crate::ast::Group;
use crate::table::Table;
use crate::text::{concatenated, decimal, decimal_text, same_text};
use crate::utils::{
    camel_case, convert_to_camel_case, in_standard_prelude, is_identifier_user_defined,
};
use vstd::prelude::*;

verus! {

/// A name as a CDDL document writes it.
#[derive(Debug, PartialEq)]
pub struct CDDLIdent(String);

impl View for CDDLIdent {
    type V = Seq<char>;

    closed spec fn view(&self) -> Seq<char> {
        self.0@
    }
}

impl CDDLIdent {
    pub fn new(name: String) -> (res: Self)
        ensures
            res@ == name@,
    {
        CDDLIdent(name)
    }

    pub fn as_str(&self) -> (res: &str)
        ensures
            res@ == self@,
    {
        self.0.as_str()
    }
}

impl Clone for CDDLIdent {
    fn clone(&self) -> (res: Self)
        ensures
            res@ == self@,
    {
        CDDLIdent(self.0.clone())
    }
}

/// The name of a Rust type.
#[derive(Debug, PartialEq)]
pub struct RustIdent(String);

impl View for RustIdent {
    type V = Seq<char>;

    closed spec fn view(&self) -> Seq<char> {
        self.0@
    }
}

impl RustIdent {
    /// The Rust name for a CDDL name: the same name in camel case.
    pub fn new(cddl_ident: CDDLIdent) -> (res: Self)
        ensures
            res@ == camel_case(cddl_ident@),
    {
        RustIdent(convert_to_camel_case(cddl_ident.as_str()))
    }

    pub fn as_str(&self) -> (res: &str)
        ensures
            res@ == self@,
    {
        self.0.as_str()
    }

    pub fn to_string(&self) -> (res: String)
        ensures
            res@ == self@,
    {
        self.0.clone()
    }
}

impl Clone for RustIdent {
    fn clone(&self) -> (res: Self)
        ensures
            res@ == self@,
    {
        RustIdent(self.0.clone())
    }
}

pub open spec fn idents_view(idents: Seq<RustIdent>) -> Seq<Seq<char>> {
    idents.map_values(|ident: RustIdent| ident@)
}

/// The name of an enum variant.
#[derive(Debug, PartialEq)]
pub enum VariantIdent {
    /// A name of its own.
    Custom(String),
    /// The name of the Rust type that the variant holds.
    Rust(RustIdent),
}

pub ghost enum VariantIdentView {
    Custom(Seq<char>),
    Rust(Seq<char>),
}

impl VariantIdentView {
    pub open spec fn text(self) -> Seq<char> {
        match self {
            VariantIdentView::Custom(name) => name,
            VariantIdentView::Rust(name) => name,
        }
    }
}

impl View for VariantIdent {
    type V = VariantIdentView;

    open spec fn view(&self) -> VariantIdentView {
        match self {
            VariantIdent::Custom(name) => VariantIdentView::Custom(name@),
            VariantIdent::Rust(ident) => VariantIdentView::Rust(ident@),
        }
    }
}

impl VariantIdent {
    pub fn new_custom(name: String) -> (res: Self)
        ensures
            res@ == VariantIdentView::Custom(name@),
    {
        VariantIdent::Custom(name)
    }

    pub fn new_rust(ident: RustIdent) -> (res: Self)
        ensures
            res@ == VariantIdentView::Rust(ident@),
    {
        VariantIdent::Rust(ident)
    }

    pub fn to_string(&self) -> (res: String)
        ensures
            res@ == self@.text(),
    {
        match self {
            VariantIdent::Custom(name) => name.clone(),
            VariantIdent::Rust(ident) => ident.to_string(),
        }
    }
}

/// How the entries of a group are represented: one after the other, or by key.
#[derive(Debug, Clone, Copy, PartialEq, Eq)]
pub enum Representation {
    Array,
    Mapping,
}

impl View for Representation {
    type V = Representation;

    open spec fn view(&self) -> Representation {
        *self
    }
}

#[derive(Debug, Clone, Copy, PartialEq, Eq)]
pub enum Primitive {
    Bool,
    /// An unsigned integer.
    U64,
    /// A negative integer.
    N64,
    Str,
    Bytes,
}

impl Primitive {
    /// The name that the primitive type goes by in the name of a variant.
    pub open spec fn variant_text(self) -> Seq<char> {
        match self {
            Primitive::Bool => "Bool"@,
            Primitive::U64 => "U64"@,
            Primitive::N64 => "N64"@,
            Primitive::Str => "String"@,
            Primitive::Bytes => "Bytes"@,
        }
    }

    /// The name that the primitive type goes by in the name of a member's type.
    pub open spec fn member_text(self) -> Seq<char> {
        match self {
            Primitive::Bool => "bool"@,
            Primitive::U64 => "u64"@,
            Primitive::N64 => "n64"@,
            Primitive::Str => "String"@,
            Primitive::Bytes => "Bytes"@,
        }
    }

    fn for_variant(self) -> (res: String)
        ensures
            res@ == self.variant_text(),
    {
        match self {
            Primitive::Bool => "Bool".to_owned(),
            Primitive::U64 => "U64".to_owned(),
            Primitive::N64 => "N64".to_owned(),
            Primitive::Str => "String".to_owned(),
            Primitive::Bytes => "Bytes".to_owned(),
        }
    }

    fn for_member(self) -> (res: String)
        ensures
            res@ == self.member_text(),
    {
        match self {
            Primitive::Bool => "bool".to_owned(),
            Primitive::U64 => "u64".to_owned(),
            Primitive::N64 => "n64".to_owned(),
            Primitive::Str => "String".to_owned(),
            Primitive::Bytes => "Bytes".to_owned(),
        }
    }
}

/// A type that one value alone has, or the value of a key.
#[derive(Debug, PartialEq)]
pub enum FixedValue {
    Null,
    Bool(bool),
    Int(isize),
    Uint(usize),
    Text(String),
}

pub ghost enum FixedValueView {
    Null,
    Bool(bool),
    Int(isize),
    Uint(usize),
    Text(Seq<char>),
}

impl FixedValueView {
    /// The name that the value goes by in the name of a variant.
    pub open spec fn variant_text(self) -> Seq<char> {
        match self {
            FixedValueView::Null => "Null"@,
            FixedValueView::Bool(true) => "True"@,
            FixedValueView::Bool(false) => "False"@,
            FixedValueView::Int(value) => if value < 0 {
                "Neg"@ + decimal_text((-value) as nat)
            } else {
                "I"@ + decimal_text(value as nat)
            },
            FixedValueView::Uint(value) => "U"@ + decimal_text(value as nat),
            FixedValueView::Text(value) => camel_case(value),
        }
    }
}

impl View for FixedValue {
    type V = FixedValueView;

    open spec fn view(&self) -> FixedValueView {
        match self {
            FixedValue::Null => FixedValueView::Null,
            FixedValue::Bool(value) => FixedValueView::Bool(*value),
            FixedValue::Int(value) => FixedValueView::Int(*value),
            FixedValue::Uint(value) => FixedValueView::Uint(*value),
            FixedValue::Text(value) => FixedValueView::Text(value@),
        }
    }
}

impl FixedValue {
    fn for_variant(&self) -> (res: String)
        ensures
            res@ == self@.variant_text(),
    {
        match self {
            FixedValue::Null => "Null".to_owned(),
            FixedValue::Bool(value) => if *value {
                "True".to_owned()
            } else {
                "False".to_owned()
            },
            FixedValue::Int(value) => if *value < 0 {
                let magnitude: usize = (-(*value + 1)) as usize + 1;
                concatenated("Neg", decimal(magnitude).as_str())
            } else {
                concatenated("I", decimal(*value as usize).as_str())
            },
            FixedValue::Uint(value) => concatenated("U", decimal(*value).as_str()),
            FixedValue::Text(value) => convert_to_camel_case(value.as_str()),
        }
    }
}

impl Clone for FixedValue {
    fn clone(&self) -> (res: Self)
        ensures
            res@ == self@,
    {
        match self {
            FixedValue::Null => FixedValue::Null,
            FixedValue::Bool(value) => FixedValue::Bool(*value),
            FixedValue::Int(value) => FixedValue::Int(*value),
            FixedValue::Uint(value) => FixedValue::Uint(*value),
            FixedValue::Text(value) => FixedValue::Text(value.clone()),
        }
    }
}

/// The name that a type alias introduces.
#[derive(Debug, PartialEq)]
pub struct AliasIdent(RustIdent);

impl View for AliasIdent {
    type V = Seq<char>;

    closed spec fn view(&self) -> Seq<char> {
        self.0@
    }
}

impl AliasIdent {
    pub fn new(ident: RustIdent) -> (res: Self)
        ensures
            res@ == ident@,
    {
        AliasIdent(ident)
    }

    pub fn ident(&self) -> (res: &RustIdent)
        ensures
            res@ == self@,
    {
        &self.0
    }
}

impl Clone for AliasIdent {
    fn clone(&self) -> (res: Self)
        ensures
            res@ == self@,
    {
        AliasIdent(self.0.clone())
    }
}

/// The Rust type that a CDDL type is represented by.
#[derive(Debug, PartialEq)]
pub enum RustType {
    Fixed(FixedValue),
    Primitive(Primitive),
    /// A type of the document, by its name.
    Rust(RustIdent),
    Array(Box<RustType>),
    Tagged(usize, Box<RustType>),
    Optional(Box<RustType>),
    Mapping(Box<RustType>, Box<RustType>),
    /// A type alias and the type that it stands for.
    Alias(AliasIdent, Box<RustType>),
}

pub ghost enum RustTypeView {
    Fixed(FixedValueView),
    Primitive(Primitive),
    Rust(Seq<char>),
    Array(Box<RustTypeView>),
    Tagged(usize, Box<RustTypeView>),
    Optional(Box<RustTypeView>),
    Mapping(Box<RustTypeView>, Box<RustTypeView>),
    Alias(Seq<char>, Box<RustTypeView>),
}

impl RustTypeView {
    /// The variant that holds a value of the type.
    pub open spec fn variant_ident(self) -> VariantIdentView
        decreases self,
    {
        match self {
            RustTypeView::Fixed(value) => VariantIdentView::Custom(value.variant_text()),
            RustTypeView::Primitive(primitive) => VariantIdentView::Custom(
                primitive.variant_text(),
            ),
            RustTypeView::Rust(ident) => VariantIdentView::Rust(ident),
            RustTypeView::Array(element) => VariantIdentView::Custom(
                "Arr"@ + element.variant_ident().text(),
            ),
            RustTypeView::Tagged(_, inner) => inner.variant_ident(),
            RustTypeView::Optional(inner) => VariantIdentView::Custom(
                "Opt"@ + inner.variant_ident().text(),
            ),
            RustTypeView::Mapping(key, value) => VariantIdentView::Custom(
                "Map"@ + key.variant_ident().text() + "To"@ + value.variant_ident().text(),
            ),
            RustTypeView::Alias(ident, _) => VariantIdentView::Rust(ident),
        }
    }

    /// The text of the variant that holds a value of the type.
    pub open spec fn variant_text(self) -> Seq<char> {
        self.variant_ident().text()
    }

    /// What the type is called in the name of a type made of it.
    pub open spec fn member_text(self) -> Seq<char>
        decreases self,
    {
        match self {
            RustTypeView::Fixed(value) => value.variant_text(),
            RustTypeView::Primitive(primitive) => primitive.member_text(),
            RustTypeView::Rust(ident) => ident,
            RustTypeView::Array(element) => element.array_text(),
            RustTypeView::Tagged(_, inner) => inner.member_text(),
            RustTypeView::Optional(inner) => "Opt"@ + inner.member_text(),
            RustTypeView::Mapping(key, value) => "Map"@ + key.member_text() + "To"@
                + value.member_text(),
            RustTypeView::Alias(ident, _) => ident,
        }
    }

    /// What an array of the type is called.
    pub open spec fn array_text(self) -> Seq<char> {
        self.variant_text() + "s"@
    }
}

impl RustType {
    pub open spec fn model(&self) -> RustTypeView
        decreases self,
    {
        match self {
            RustType::Fixed(value) => RustTypeView::Fixed(value@),
            RustType::Primitive(primitive) => RustTypeView::Primitive(*primitive),
            RustType::Rust(ident) => RustTypeView::Rust(ident@),
            RustType::Array(element) => RustTypeView::Array(Box::new(element.model())),
            RustType::Tagged(tag, inner) => RustTypeView::Tagged(*tag, Box::new(inner.model())),
            RustType::Optional(inner) => RustTypeView::Optional(Box::new(inner.model())),
            RustType::Mapping(key, value) => RustTypeView::Mapping(
                Box::new(key.model()),
                Box::new(value.model()),
            ),
            RustType::Alias(ident, inner) => RustTypeView::Alias(ident@, Box::new(inner.model())),
        }
    }
}

impl View for RustType {
    type V = RustTypeView;

    open spec fn view(&self) -> RustTypeView {
        self.model()
    }
}

pub open spec fn rust_types_view(types: Seq<RustType>) -> Seq<RustTypeView> {
    types.map_values(|t: RustType| t@)
}

impl RustType {
    /// The variant that holds a value of the type.
    pub fn for_variant(&self) -> (res: VariantIdent)
        ensures
            res@ == self@.variant_ident(),
        decreases self,
    {
        match self {
            RustType::Fixed(value) => VariantIdent::new_custom(value.for_variant()),
            RustType::Primitive(primitive) => VariantIdent::new_custom(primitive.for_variant()),
            RustType::Rust(ident) => VariantIdent::new_rust(ident.clone()),
            RustType::Array(element) => VariantIdent::new_custom(
                concatenated("Arr", element.for_variant().to_string().as_str()),
            ),
            RustType::Tagged(_, inner) => inner.for_variant(),
            RustType::Optional(inner) => VariantIdent::new_custom(
                concatenated("Opt", inner.for_variant().to_string().as_str()),
            ),
            RustType::Mapping(key, value) => {
                let mut name = concatenated("Map", key.for_variant().to_string().as_str());
                name.append("To");
                name.append(value.for_variant().to_string().as_str());
                VariantIdent::new_custom(name)
            },
            RustType::Alias(ident, _) => VariantIdent::new_rust(ident.ident().clone()),
        }
    }

    /// What the type is called in the name of a type made of it.
    pub fn for_member(&self) -> (res: String)
        ensures
            res@ == self@.member_text(),
        decreases self,
    {
        match self {
            RustType::Fixed(value) => value.for_variant(),
            RustType::Primitive(primitive) => primitive.for_member(),
            RustType::Rust(ident) => ident.to_string(),
            RustType::Array(element) => element.name_as_array(),
            RustType::Tagged(_, inner) => inner.for_member(),
            RustType::Optional(inner) => concatenated("Opt", inner.for_member().as_str()),
            RustType::Mapping(key, value) => {
                let mut name = concatenated("Map", key.for_member().as_str());
                name.append("To");
                name.append(value.for_member().as_str());
                name
            },
            RustType::Alias(ident, _) => ident.ident().to_string(),
        }
    }

    /// What an array of the type is called.
    pub fn name_as_array(&self) -> (res: String)
        ensures
            res@ == self@.array_text(),
    {
        concatenated(self.for_variant().to_string().as_str(), "s")
    }
}

impl Clone for RustType {
    fn clone(&self) -> (res: Self)
        ensures
            res@ == self@,
        decreases self,
    {
        match self {
            RustType::Fixed(value) => RustType::Fixed(value.clone()),
            RustType::Primitive(primitive) => RustType::Primitive(*primitive),
            RustType::Rust(ident) => RustType::Rust(ident.clone()),
            RustType::Array(element) => RustType::Array(Box::new((&**element).clone())),
            RustType::Tagged(tag, inner) => RustType::Tagged(*tag, Box::new((&**inner).clone())),
            RustType::Optional(inner) => RustType::Optional(Box::new((&**inner).clone())),
            RustType::Mapping(key, value) => RustType::Mapping(
                Box::new((&**key).clone()),
                Box::new((&**value).clone()),
            ),
            RustType::Alias(ident, inner) => RustType::Alias(
                ident.clone(),
                Box::new((&**inner).clone()),
            ),
        }
    }
}

/// One alternative of an enum.
#[derive(Debug, PartialEq)]
pub struct EnumVariant {
    pub name: VariantIdent,
    pub rust_type: RustType,
    /// Whether the variant is serialized as the entries of its group, without a
    /// structure of its own around them.
    pub serialize_as_embedded_group: bool,
}

pub ghost struct EnumVariantView {
    pub name: VariantIdentView,
    pub rust_type: RustTypeView,
    pub serialize_as_embedded_group: bool,
}

impl View for EnumVariant {
    type V = EnumVariantView;

    open spec fn view(&self) -> EnumVariantView {
        EnumVariantView {
            name: self.name@,
            rust_type: self.rust_type@,
            serialize_as_embedded_group: self.serialize_as_embedded_group,
        }
    }
}

impl EnumVariant {
    pub fn new(
        name: VariantIdent,
        rust_type: RustType,
        serialize_as_embedded_group: bool,
    ) -> (res: Self)
        ensures
            res@ == (EnumVariantView {
                name: name@,
                rust_type: rust_type@,
                serialize_as_embedded_group,
            }),
    {
        EnumVariant { name, rust_type, serialize_as_embedded_group }
    }
}

pub open spec fn variants_view(variants: Seq<EnumVariant>) -> Seq<EnumVariantView> {
    variants.map_values(|variant: EnumVariant| variant@)
}

/// A field of a record.
#[derive(Debug, PartialEq)]
pub struct RustField {
    pub name: String,
    pub rust_type: RustType,
    pub optional: bool,
    /// The key of the field, where the record is represented by key.
    pub key: Option<FixedValue>,
}

pub ghost struct RustFieldView {
    pub name: Seq<char>,
    pub rust_type: RustTypeView,
    pub optional: bool,
    pub key: Option<FixedValueView>,
}

pub open spec fn fixed_option_view(value: Option<FixedValue>) -> Option<FixedValueView> {
    match value {
        Some(value) => Some(value@),
        None => None,
    }
}

impl View for RustField {
    type V = RustFieldView;

    open spec fn view(&self) -> RustFieldView {
        RustFieldView {
            name: self.name@,
            rust_type: self.rust_type@,
            optional: self.optional,
            key: fixed_option_view(self.key),
        }
    }
}

impl RustField {
    pub fn new(
        name: String,
        rust_type: RustType,
        optional: bool,
        key: Option<FixedValue>,
    ) -> (res: Self)
        ensures
            res@ == (RustFieldView {
                name: name@,
                rust_type: rust_type@,
                optional,
                key: fixed_option_view(key),
            }),
    {
        RustField { name, rust_type, optional, key }
    }
}

pub open spec fn fields_view(fields: Seq<RustField>) -> Seq<RustFieldView> {
    fields.map_values(|field: RustField| field@)
}

/// A struct with a field for each entry of a group.
#[derive(Debug, PartialEq)]
pub struct RustRecord {
    pub rep: Representation,
    pub fields: Vec<RustField>,
}

pub ghost struct RustRecordView {
    pub rep: Representation,
    pub fields: Seq<RustFieldView>,
}

impl View for RustRecord {
    type V = RustRecordView;

    open spec fn view(&self) -> RustRecordView {
        RustRecordView { rep: self.rep, fields: fields_view(self.fields@) }
    }
}

/// The bounds that an operator puts on a type, from below and from above.
pub type MinMax = (Option<isize>, Option<isize>);

/// What a type definition consists of.
#[derive(Debug, PartialEq)]
pub enum RustStructType {
    Record(RustRecord),
    /// A map from any number of keys of one type to values of one type.
    Table { domain: RustType, range: RustType },
    Array { element_type: RustType },
    /// One of several types.
    TypeChoice { variants: Vec<EnumVariant> },
    /// One of several groups.
    GroupChoice { variants: Vec<EnumVariant>, rep: Representation },
    /// Another type, to which a tag or bounds are added.
    Wrapper { wrapped: RustType, min_max: Option<MinMax> },
}

pub ghost enum RustStructTypeView {
    Record(RustRecordView),
    Table { domain: RustTypeView, range: RustTypeView },
    Array { element_type: RustTypeView },
    TypeChoice { variants: Seq<EnumVariantView> },
    GroupChoice { variants: Seq<EnumVariantView>, rep: Representation },
    Wrapper { wrapped: RustTypeView, min_max: Option<MinMax> },
}

impl View for RustStructType {
    type V = RustStructTypeView;

    open spec fn view(&self) -> RustStructTypeView {
        match self {
            RustStructType::Record(record) => RustStructTypeView::Record(record@),
            RustStructType::Table { domain, range } => RustStructTypeView::Table {
                domain: domain@,
                range: range@,
            },
            RustStructType::Array { element_type } => RustStructTypeView::Array {
                element_type: element_type@,
            },
            RustStructType::TypeChoice { variants } => RustStructTypeView::TypeChoice {
                variants: variants_view(variants@),
            },
            RustStructType::GroupChoice { variants, rep } => RustStructTypeView::GroupChoice {
                variants: variants_view(variants@),
                rep: *rep,
            },
            RustStructType::Wrapper { wrapped, min_max } => RustStructTypeView::Wrapper {
                wrapped: wrapped@,
                min_max: *min_max,
            },
        }
    }
}

/// A type definition: its name, the tag it is serialized under, and its contents.
#[derive(Debug, PartialEq)]
pub struct RustStruct {
    pub ident: RustIdent,
    pub tag: Option<usize>,
    pub variant: RustStructType,
}

pub ghost struct RustStructView {
    pub ident: Seq<char>,
    pub tag: Option<usize>,
    pub variant: RustStructTypeView,
}

impl View for RustStruct {
    type V = RustStructView;

    open spec fn view(&self) -> RustStructView {
        RustStructView { ident: self.ident@, tag: self.tag, variant: self.variant@ }
    }
}

impl RustStruct {
    pub fn new_record(ident: RustIdent, tag: Option<usize>, record: RustRecord) -> (res: Self)
        ensures
            res@ == (RustStructView {
                ident: ident@,
                tag,
                variant: RustStructTypeView::Record(record@),
            }),
    {
        RustStruct { ident, tag, variant: RustStructType::Record(record) }
    }

    pub fn new_table(
        ident: RustIdent,
        tag: Option<usize>,
        domain: RustType,
        range: RustType,
    ) -> (res: Self)
        ensures
            res@ == (RustStructView {
                ident: ident@,
                tag,
                variant: RustStructTypeView::Table { domain: domain@, range: range@ },
            }),
    {
        RustStruct { ident, tag, variant: RustStructType::Table { domain, range } }
    }

    pub fn new_array(ident: RustIdent, tag: Option<usize>, element_type: RustType) -> (res: Self)
        ensures
            res@ == (RustStructView {
                ident: ident@,
                tag,
                variant: RustStructTypeView::Array { element_type: element_type@ },
            }),
    {
        RustStruct { ident, tag, variant: RustStructType::Array { element_type } }
    }

    pub fn new_type_choice(
        ident: RustIdent,
        tag: Option<usize>,
        variants: Vec<EnumVariant>,
    ) -> (res: Self)
        ensures
            res@ == (RustStructView {
                ident: ident@,
                tag,
                variant: RustStructTypeView::TypeChoice { variants: variants_view(variants@) },
            }),
    {
        RustStruct { ident, tag, variant: RustStructType::TypeChoice { variants } }
    }

    pub fn new_group_choice(
        ident: RustIdent,
        tag: Option<usize>,
        variants: Vec<EnumVariant>,
        rep: Representation,
    ) -> (res: Self)
        ensures
            res@ == (RustStructView {
                ident: ident@,
                tag,
                variant: RustStructTypeView::GroupChoice {
                    variants: variants_view(variants@),
                    rep,
                },
            }),
    {
        RustStruct { ident, tag, variant: RustStructType::GroupChoice { variants, rep } }
    }

    pub fn new_wrapper(
        ident: RustIdent,
        tag: Option<usize>,
        wrapped: RustType,
        min_max: Option<MinMax>,
    ) -> (res: Self)
        ensures
            res@ == (RustStructView {
                ident: ident@,
                tag,
                variant: RustStructTypeView::Wrapper { wrapped: wrapped@, min_max },
            }),
    {
        RustStruct { ident, tag, variant: RustStructType::Wrapper { wrapped, min_max } }
    }
}

/// A type definition with type parameters.
#[derive(Debug, PartialEq)]
pub struct GenericDef {
    pub params: Vec<RustIdent>,
    pub definition: RustStruct,
}

pub ghost struct GenericDefView {
    pub params: Seq<Seq<char>>,
    pub definition: RustStructView,
}

impl View for GenericDef {
    type V = GenericDefView;

    open spec fn view(&self) -> GenericDefView {
        GenericDefView { params: idents_view(self.params@), definition: self.definition@ }
    }
}

impl GenericDef {
    pub fn new(params: Vec<RustIdent>, definition: RustStruct) -> (res: Self)
        ensures
            res@ == (GenericDefView { params: idents_view(params@), definition: definition@ }),
    {
        GenericDef { params, definition }
    }
}

/// A type that is an instance of a definition with type parameters.
#[derive(Debug, PartialEq)]
pub struct GenericInstance {
    pub instance_ident: RustIdent,
    pub generic_ident: RustIdent,
    pub generic_args: Vec<RustType>,
}

pub ghost struct GenericInstanceView {
    pub instance_ident: Seq<char>,
    pub generic_ident: Seq<char>,
    pub generic_args: Seq<RustTypeView>,
}

impl View for GenericInstance {
    type V = GenericInstanceView;

    open spec fn view(&self) -> GenericInstanceView {
        GenericInstanceView {
            instance_ident: self.instance_ident@,
            generic_ident: self.generic_ident@,
            generic_args: rust_types_view(self.generic_args@),
        }
    }
}

impl GenericInstance {
    pub fn new(
        instance_ident: RustIdent,
        generic_ident: RustIdent,
        generic_args: Vec<RustType>,
    ) -> (res: Self)
        ensures
            res@ == (GenericInstanceView {
                instance_ident: instance_ident@,
                generic_ident: generic_ident@,
                generic_args: rust_types_view(generic_args@),
            }),
    {
        GenericInstance { instance_ident, generic_ident, generic_args }
    }
}

/// What a type alias stands for.
#[derive(Debug, PartialEq)]
pub struct TypeAlias {
    pub base_type: RustType,
    /// Whether the alias appears in the generated code. If not, the type it stands for
    /// is used in its place.
    pub generate: bool,
}

pub ghost struct TypeAliasView {
    pub base_type: RustTypeView,
    pub generate: bool,
}

impl View for TypeAlias {
    type V = TypeAliasView;

    open spec fn view(&self) -> TypeAliasView {
        TypeAliasView { base_type: self.base_type@, generate: self.generate }
    }
}

/// The type that a name of the standard prelude stands for, where it is one that has
/// no definition of its own.
pub open spec fn prelude_type(name: Seq<char>) -> Option<RustTypeView> {
    if name == "uint"@ {
        Some(RustTypeView::Primitive(Primitive::U64))
    } else if name == "nint"@ {
        Some(RustTypeView::Primitive(Primitive::N64))
    } else if name == "bool"@ {
        Some(RustTypeView::Primitive(Primitive::Bool))
    } else if name == "tstr"@ || name == "text"@ {
        Some(RustTypeView::Primitive(Primitive::Str))
    } else if name == "bstr"@ || name == "bytes"@ {
        Some(RustTypeView::Primitive(Primitive::Bytes))
    } else if name == "true"@ {
        Some(RustTypeView::Fixed(FixedValueView::Bool(true)))
    } else if name == "false"@ {
        Some(RustTypeView::Fixed(FixedValueView::Bool(false)))
    } else if name == "null"@ || name == "nil"@ {
        Some(RustTypeView::Fixed(FixedValueView::Null))
    } else {
        None
    }
}

fn type_of_prelude(name: &String) -> (res: Option<RustType>)
    ensures
        match res {
            Some(t) => prelude_type(name@) == Some(t@),
            None => prelude_type(name@) is None,
        },
{
    if same_text(name, "uint") {
        Some(RustType::Primitive(Primitive::U64))
    } else if same_text(name, "nint") {
        Some(RustType::Primitive(Primitive::N64))
    } else if same_text(name, "bool") {
        Some(RustType::Primitive(Primitive::Bool))
    } else if same_text(name, "tstr") || same_text(name, "text") {
        Some(RustType::Primitive(Primitive::Str))
    } else if same_text(name, "bstr") || same_text(name, "bytes") {
        Some(RustType::Primitive(Primitive::Bytes))
    } else if same_text(name, "true") {
        Some(RustType::Fixed(FixedValue::Bool(true)))
    } else if same_text(name, "false") {
        Some(RustType::Fixed(FixedValue::Bool(false)))
    } else if same_text(name, "null") || same_text(name, "nil") {
        Some(RustType::Fixed(FixedValue::Null))
    } else {
        None
    }
}

/// The types of a document: everything that its rules define, each under its name.
#[derive(Debug)]
pub struct IntermediateTypes {
    plain_groups: Table<Option<Group>>,
    plain_group_reps: Table<Representation>,
    type_aliases: Table<TypeAlias>,
    rust_structs: Table<RustStruct>,
    generic_defs: Table<GenericDef>,
    generic_instances: Table<GenericInstance>,
}

#[verifier::ext_equal]
pub ghost struct TypesView {
    /// The groups that have a name of their own, with their definition where it is one
    /// of the document's.
    pub plain_groups: Map<Seq<char>, Option<Group>>,
    /// How those plain groups are represented of which this is known.
    pub plain_group_reps: Map<Seq<char>, Representation>,
    pub type_aliases: Map<Seq<char>, TypeAliasView>,
    pub rust_structs: Map<Seq<char>, RustStructView>,
    pub generic_defs: Map<Seq<char>, GenericDefView>,
    pub generic_instances: Map<Seq<char>, GenericInstanceView>,
}

impl TypesView {
    /// No definition at all.
    pub open spec fn empty() -> Self {
        TypesView {
            plain_groups: Map::empty(),
            plain_group_reps: Map::empty(),
            type_aliases: Map::empty(),
            rust_structs: Map::empty(),
            generic_defs: Map::empty(),
            generic_instances: Map::empty(),
        }
    }

    /// The type that a CDDL name stands for: what the prelude or an alias says it is,
    /// and else the type of that name.
    pub open spec fn new_type(self, raw: Seq<char>) -> RustTypeView {
        let ident = camel_case(raw);
        if in_standard_prelude(raw) {
            match prelude_type(raw) {
                Some(t) => t,
                None => RustTypeView::Rust(ident),
            }
        } else if self.type_aliases.contains_key(ident) {
            let alias = self.type_aliases[ident];
            if alias.generate {
                RustTypeView::Alias(ident, Box::new(alias.base_type))
            } else {
                alias.base_type
            }
        } else {
            RustTypeView::Rust(ident)
        }
    }

    pub open spec fn is_plain_group(self, ident: Seq<char>) -> bool {
        self.plain_groups.contains_key(ident)
    }

    pub open spec fn mark_plain_group(self, ident: Seq<char>, group: Option<Group>) -> Self {
        TypesView { plain_groups: self.plain_groups.insert(ident, group), ..self }
    }

    pub open spec fn set_rep_if_plain_group(self, ident: Seq<char>, rep: Representation) -> Self {
        if self.is_plain_group(ident) {
            TypesView { plain_group_reps: self.plain_group_reps.insert(ident, rep), ..self }
        } else {
            self
        }
    }

    pub open spec fn register_type_alias(
        self,
        ident: Seq<char>,
        base_type: RustTypeView,
        generate: bool,
    ) -> Self {
        TypesView {
            type_aliases: self.type_aliases.insert(ident, TypeAliasView { base_type, generate }),
            ..self
        }
    }

    pub open spec fn register_rust_struct(self, rust_struct: RustStructView) -> Self {
        TypesView {
            rust_structs: self.rust_structs.insert(rust_struct.ident, rust_struct),
            ..self
        }
    }

    pub open spec fn register_generic_def(self, def: GenericDefView) -> Self {
        TypesView { generic_defs: self.generic_defs.insert(def.definition.ident, def), ..self }
    }

    pub open spec fn register_generic_instance(self, instance: GenericInstanceView) -> Self {
        TypesView {
            generic_instances: self.generic_instances.insert(instance.instance_ident, instance),
            ..self
        }
    }

    /// The definition of the array of `element_type` that goes by `name`.
    pub open spec fn register_array_type(
        self,
        element_type: RustTypeView,
        name: Seq<char>,
    ) -> Self {
        self.register_rust_struct(
            RustStructView {
                ident: camel_case(name),
                tag: None,
                variant: RustStructTypeView::Array { element_type },
            },
        )
    }
}

impl View for IntermediateTypes {
    type V = TypesView;

    closed spec fn view(&self) -> TypesView {
        TypesView {
            plain_groups: self.plain_groups@,
            plain_group_reps: self.plain_group_reps@,
            type_aliases: self.type_aliases@,
            rust_structs: self.rust_structs@,
            generic_defs: self.generic_defs@,
            generic_instances: self.generic_instances@,
        }
    }
}

impl IntermediateTypes {
    /// A table in which nothing is defined.
    pub fn new() -> (res: Self)
        ensures
            res@ == TypesView::empty(),
    {
        IntermediateTypes {
            plain_groups: Table::new(),
            plain_group_reps: Table::new(),
            type_aliases: Table::new(),
            rust_structs: Table::new(),
            generic_defs: Table::new(),
            generic_instances: Table::new(),
        }
    }

    /// The type that a CDDL name stands for.
    pub fn new_type(&self, raw: &CDDLIdent) -> (res: RustType)
        ensures
            res@ == self@.new_type(raw@),
    {
        let name = raw.as_str().to_owned();
        let ident = RustIdent::new(raw.clone());
        if !is_identifier_user_defined(&name) {
            match type_of_prelude(&name) {
                Some(t) => t,
                None => RustType::Rust(ident),
            }
        } else {
            match self.type_aliases.get(ident.as_str()) {
                Some(alias) => if alias.generate {
                    RustType::Alias(AliasIdent::new(ident), Box::new(alias.base_type.clone()))
                } else {
                    alias.base_type.clone()
                },
                None => RustType::Rust(ident),
            }
        }
    }

    /// Whether `ident` names a group.
    pub fn is_plain_group(&self, ident: &RustIdent) -> (res: bool)
        ensures
            res == self@.is_plain_group(ident@),
    {
        self.plain_groups.contains(ident.as_str())
    }

    /// Records that `ident` names a group, and its definition if there is one.
    pub fn mark_plain_group(&mut self, ident: RustIdent, group: Option<Group>)
        ensures
            final(self)@ == old(self)@.mark_plain_group(ident@, group),
    {
        self.plain_groups.insert(ident.to_string(), group);
    }

    /// Records how the group of that name is represented, if `ident` names a group.
    pub fn set_rep_if_plain_group(&mut self, ident: &RustIdent, rep: Representation)
        ensures
            final(self)@ == old(self)@.set_rep_if_plain_group(ident@, rep),
    {
        if self.is_plain_group(ident) {
            self.plain_group_reps.insert(ident.to_string(), rep);
        }
    }

    /// Defines `ident` as an alias of `base_type`.
    pub fn register_type_alias(&mut self, ident: RustIdent, base_type: RustType, generate: bool)
        ensures
            final(self)@ == old(self)@.register_type_alias(ident@, base_type@, generate),
    {
        self.type_aliases.insert(ident.to_string(), TypeAlias { base_type, generate });
    }

    /// Adds a type definition.
    pub fn register_rust_struct(&mut self, rust_struct: RustStruct)
        ensures
            final(self)@ == old(self)@.register_rust_struct(rust_struct@),
    {
        self.rust_structs.insert(rust_struct.ident.to_string(), rust_struct);
    }

    /// Adds a type definition with type parameters.
    pub fn register_generic_def(&mut self, def: GenericDef)
        ensures
            final(self)@ == old(self)@.register_generic_def(def@),
    {
        self.generic_defs.insert(def.definition.ident.to_string(), def);
    }

    /// Adds an instance of a definition with type parameters.
    pub fn register_generic_instance(&mut self, instance: GenericInstance)
        ensures
            final(self)@ == old(self)@.register_generic_instance(instance@),
    {
        self.generic_instances.insert(instance.instance_ident.to_string(), instance);
    }

    /// Adds the definition of an array of `element_type` and returns its type.
    pub fn create_and_register_array_type(
        &mut self,
        element_type: RustType,
        array_type_name: &str,
    ) -> (res: RustType)
        ensures
            res@ == RustTypeView::Array(Box::new(element_type@)),
            final(self)@ == old(self)@.register_array_type(element_type@, array_type_name@),
    {
        let ident = RustIdent::new(CDDLIdent::new(array_type_name.to_owned()));
        self.register_rust_struct(RustStruct::new_array(ident, None, element_type.clone()));
        RustType::Array(Box::new(element_type))
    }

    /// The type definition of that name.
    pub fn rust_struct(&self, ident: &RustIdent) -> (res: Option<&RustStruct>)
        ensures
            match res {
                Some(rust_struct) => self@.rust_structs.contains_key(ident@)
                    && self@.rust_structs[ident@] == rust_struct@,
                None => !self@.rust_structs.contains_key(ident@),
            },
    {
        self.rust_structs.get(ident.as_str())
    }

    /// The type alias of that name.
    pub fn type_alias(&self, ident: &RustIdent) -> (res: Option<&TypeAlias>)
        ensures
            match res {
                Some(alias) => self@.type_aliases.contains_key(ident@)
                    && self@.type_aliases[ident@] == alias@,
                None => !self@.type_aliases.contains_key(ident@),
            },
    {
        self.type_aliases.get(ident.as_str())
    }

    /// The definition with type parameters of that name.
    pub fn generic_def(&self, ident: &RustIdent) -> (res: Option<&GenericDef>)
        ensures
            match res {
                Some(def) => self@.generic_defs.contains_key(ident@)
                    && self@.generic_defs[ident@] == def@,
                None => !self@.generic_defs.contains_key(ident@),
            },
    {
        self.generic_defs.get(ident.as_str())
    }

    /// The instance of that name.
    pub fn generic_instance(&self, ident: &RustIdent) -> (res: Option<&GenericInstance>)
        ensures
            match res {
                Some(instance) => self@.generic_instances.contains_key(ident@)
                    && self@.generic_instances[ident@] == instance@,
                None => !self@.generic_instances.contains_key(ident@),
            },
    {
        self.generic_instances.get(ident.as_str())
    }

    /// The definition of the group of that name, where it is one of the document's.
    pub fn plain_group(&self, ident: &RustIdent) -> (res: Option<&Group>)
        ensures
            match res {
                Some(group) => self@.is_plain_group(ident@) && self@.plain_groups[ident@] == Some(
                    *group,
                ),
                None => !self@.is_plain_group(ident@) || self@.plain_groups[ident@] is None,
            },
    {
        match self.plain_groups.get(ident.as_str()) {
            Some(Some(group)) => Some(group),
            _ => None,
        }
    }

    /// How the group of that name is represented, as far as this is known.
    pub fn plain_group_rep(&self, ident: &RustIdent) -> (res: Option<Representation>)
        ensures
            res == self@.plain_group_reps.get(ident@),
    {
        match self.plain_group_reps.get(ident.as_str()) {
            Some(rep) => Some(*rep),
            None => None,
        }
    }
}

} // verus!
