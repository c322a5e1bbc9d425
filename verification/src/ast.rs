//! The syntax tree of a CDDL document, as far as the types it describes depend on it.
use vstd::prelude::*;
use vstd::utf8::{decode_utf8, valid_utf8};

verus! {

/// The prefix of an identifier that names a socket.
#[derive(Debug, Clone, Copy, PartialEq, Eq)]
pub enum SocketPlug {
    /// A type socket, `$`.
    TYPE,
    /// A group socket, `$$`.
    GROUP,
}

/// The name of a type, a group or a bareword key.
#[derive(Debug, PartialEq)]
pub struct Identifier {
    /// The name without its socket.
    pub ident: String,
    /// The socket that the name stands behind, if any.
    pub socket: Option<SocketPlug>,
}

impl Identifier {
    /// The name with its socket in front.
    pub open spec fn text(&self) -> Seq<char> {
        match self.socket {
            Some(SocketPlug::TYPE) => seq!['$'] + self.ident@,
            Some(SocketPlug::GROUP) => seq!['$', '$'] + self.ident@,
            None => self.ident@,
        }
    }

    /// `to_string` of [`cddl::ast::Identifier`]: its `Display` writes the socket, which
    /// is `$` or `$$`, in front of the name, and the name alone where there is no socket.
    #[verifier::external_body]
    pub(crate) fn to_string(&self) -> (res: String)
        ensures
            res@ == self.text(),
    {
        let socket = match self.socket {
            Some(SocketPlug::TYPE) => Some(cddl::token::SocketPlug::TYPE),
            Some(SocketPlug::GROUP) => Some(cddl::token::SocketPlug::GROUP),
            None => None,
        };
        cddl::ast::Identifier { ident: self.ident.clone(), socket, span: (0, 0, 0) }.to_string()
    }
}

/// A byte string literal: the bytes between its quotes, as they are written.
#[derive(Debug, PartialEq)]
pub enum ByteValue {
    /// Without a prefix.
    UTF8(Vec<u8>),
    /// In base 16, with the prefix `h`.
    B16(Vec<u8>),
    /// In base 64, with the prefix `b64`.
    B64(Vec<u8>),
}

/// `s` without its spaces.
pub open spec fn without_spaces(s: Seq<char>) -> Seq<char> {
    s.filter(|c: char| c != ' ')
}

impl ByteValue {
    pub open spec fn bytes(&self) -> Seq<u8> {
        match self {
            ByteValue::UTF8(b) => b@,
            ByteValue::B16(b) => b@,
            ByteValue::B64(b) => b@,
        }
    }

    /// The literal as it is written, a prefixed one without its spaces.
    pub open spec fn text(&self) -> Seq<char> {
        match self {
            ByteValue::UTF8(b) => seq!['\''] + decode_utf8(b@) + seq!['\''],
            ByteValue::B16(b) => seq!['h', '\''] + without_spaces(decode_utf8(b@)) + seq!['\''],
            ByteValue::B64(b) => seq!['b', '6', '4', '\''] + without_spaces(decode_utf8(b@))
                + seq!['\''],
        }
    }

    /// `to_string` of [`cddl::token::ByteValue`]: its `Display` writes the prefix and the
    /// text that the bytes encode between quotes, that of a prefixed literal without its
    /// spaces. It fails, and `to_string` panics, where the bytes are not UTF-8.
    #[verifier::external_body]
    pub(crate) fn to_string(&self) -> (res: String)
        requires
            valid_utf8(self.bytes()),
        ensures
            res@ == self.text(),
    {
        let value = match self {
            ByteValue::UTF8(b) => cddl::token::ByteValue::UTF8(b.clone()),
            ByteValue::B16(b) => cddl::token::ByteValue::B16(b.clone()),
            ByteValue::B64(b) => cddl::token::ByteValue::B64(b.clone()),
        };
        value.to_string()
    }
}

/// A literal that a member key can be.
#[derive(Debug, PartialEq)]
pub enum Value {
    INT(isize),
    UINT(usize),
    /// A floating-point number, by the numeral that it is displayed as.
    FLOAT(String),
    TEXT(String),
    BYTE(ByteValue),
}

/// `name<params> = value` or `name = ( group )`.
#[allow(inconsistent_fields)]
#[derive(Debug, PartialEq)]
pub enum Rule {
    Type { rule: TypeRule },
    Group { rule: GroupRule },
}

#[derive(Debug, PartialEq)]
pub struct TypeRule {
    pub name: Identifier,
    pub generic_param: Option<GenericParm>,
    pub value: Type,
}

#[derive(Debug, PartialEq)]
pub struct GroupRule {
    pub name: Identifier,
    pub generic_param: Option<GenericParm>,
    pub entry: GroupEntry,
}

#[derive(Debug, PartialEq)]
pub struct GenericParm {
    pub params: Vec<Identifier>,
}

#[derive(Debug, PartialEq)]
pub struct GenericArg {
    pub args: Vec<Type1>,
}

/// The alternatives of a type, which `/` separates.
#[derive(Debug, PartialEq)]
pub struct Type {
    pub type_choices: Vec<Type1>,
}

/// A type, with the operator that restricts it and the operand of that operator.
#[derive(Debug, PartialEq)]
pub struct Type1 {
    pub type2: Type2,
    pub operator: Option<(RangeCtlOp, Type2)>,
}

#[allow(inconsistent_fields)]
#[derive(Debug, PartialEq)]
pub enum RangeCtlOp {
    /// `..` if inclusive, `...` if not.
    RangeOp { is_inclusive: bool },
    /// A control operator by its name, which begins with a dot.
    CtlOp { ctrl: String },
}

#[allow(inconsistent_fields)]
#[derive(Debug, PartialEq)]
pub enum Type2 {
    IntValue { value: isize },
    UintValue { value: usize },
    FloatValue,
    TextValue { value: String },
    UTF8ByteString,
    B16ByteString,
    B64ByteString,
    Typename { ident: Identifier, generic_arg: Option<GenericArg> },
    ParenthesizedType { pt: Type },
    /// A group in braces.
    Mapping { group: Group },
    /// A group in brackets.
    Array { group: Group },
    Unwrap,
    ChoiceFromInlineGroup,
    ChoiceFromGroup,
    TaggedData { tag: Option<usize>, t: Type },
    TaggedDataMajorType,
    Any,
}

/// The alternatives of a group, which `//` separates.
#[derive(Debug, PartialEq)]
pub struct Group {
    pub group_choices: Vec<GroupChoice>,
}

#[derive(Debug, PartialEq)]
pub struct GroupChoice {
    pub group_entries: Vec<GroupEntry>,
}

#[allow(inconsistent_fields)]
#[derive(Debug, PartialEq)]
pub enum GroupEntry {
    /// An entry of a type, with or without a key.
    ValueMemberKey { ge: Box<ValueMemberKeyEntry> },
    /// An entry that a name alone stands for.
    TypeGroupname { ge: TypeGroupnameEntry },
    /// A group in parentheses.
    InlineGroup { group: Group },
}

#[derive(Debug, PartialEq)]
pub struct ValueMemberKeyEntry {
    pub occur: Option<Occur>,
    pub member_key: Option<MemberKey>,
    pub entry_type: Type,
}

#[derive(Debug, PartialEq)]
pub struct TypeGroupnameEntry {
    pub occur: Option<Occur>,
    pub name: Identifier,
    pub generic_arg: Option<GenericArg>,
}

#[derive(Debug, PartialEq)]
pub enum MemberKey {
    /// `type =>`
    Type1 { t1: Box<Type1> },
    /// `name:`
    Bareword { ident: Identifier },
    /// `literal:`
    Value { value: Value },
    /// What stands before an entry's type without being a key of it.
    NonMemberKey,
}

/// How often an entry may occur.
#[derive(Debug, Clone, Copy, PartialEq, Eq)]
pub enum Occur {
    /// `n*m`
    Exact,
    /// `*`
    ZeroOrMore,
    /// `+`
    OneOrMore,
    /// `?`
    Optional,
}

} // verus!
