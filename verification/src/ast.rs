//! The syntax tree of a Roto program.

use vstd::prelude::*;

use crate::text::str_eq;

verus! {

/// Identity of a syntax node; the spans of nodes are kept apart, keyed by it.
#[derive(Clone, Copy, Debug, PartialEq, Eq, Structural)]
pub struct MetaId(pub usize);

/// A syntax node together with its identity.
#[derive(Clone, Debug)]
pub struct Meta<T> {
    pub node: T,
    pub id: MetaId,
}

#[derive(Debug)]
pub struct SyntaxTree {
    pub expressions: Vec<Declaration>,
}

#[derive(Debug)]
pub enum Declaration {
    FilterMap(Box<FilterMap>),
    Rib(Rib),
    Table(Table),
    OutputStream(OutputStream),
    Record(RecordTypeDeclaration),
    Function(FunctionDeclaration),
}

#[derive(Clone, Debug)]
pub struct Params(pub Vec<(Meta<Identifier>, Meta<Identifier>)>);

/// The value of a typed record
#[derive(Debug)]
pub struct RecordTypeDeclaration {
    pub ident: Meta<Identifier>,
    pub record_type: RecordType,
}

#[derive(Clone, Copy, Debug, PartialEq, Eq, Structural)]
pub enum FilterType {
    FilterMap,
    Filter,
}

#[derive(Debug)]
pub struct FilterMap {
    pub filter_type: FilterType,
    pub ident: Meta<Identifier>,
    pub params: Meta<Params>,
    pub body: FilterMapBody,
}

#[derive(Debug)]
pub struct FilterMapBody {
    pub define: Vec<(Meta<Identifier>, Meta<Expr>)>,
    pub apply: Meta<Block>,
}

#[derive(Debug)]
pub struct FunctionDeclaration {
    pub ident: Meta<Identifier>,
    pub params: Meta<Params>,
    pub ret: Option<Meta<Identifier>>,
    pub body: Meta<Block>,
}

#[derive(Debug)]
pub struct Block {
    pub exprs: Vec<Meta<Expr>>,
    pub last: Option<Box<Meta<Expr>>>,
}

#[derive(Debug)]
pub enum Expr {
    Return(ReturnKind, Option<Box<Meta<Expr>>>),
    /// a literal, or a chain of field accesses and/or methods on a literal,
    /// e.g. `10.0.0.0/8.covers(..)`
    Literal(Meta<Literal>),
    Match(Box<Meta<Match>>),
    /// a JunOS style prefix match expression, e.g. `0.0.0.0/0
    /// prefix-length-range /12-/16`
    PrefixMatch(PrefixMatchExpr),
    FunctionCall(Meta<Identifier>, Meta<Vec<Meta<Expr>>>),
    MethodCall(Box<Meta<Expr>>, Meta<Identifier>, Meta<Vec<Meta<Expr>>>),
    Access(Box<Meta<Expr>>, Meta<Identifier>),
    Var(Meta<Identifier>),
    /// a record that doesn't have a type mentioned in the assignment of it,
    /// e.g `{ value_1: 100, value_2: "bla" }`. This can also be a sub-record
    /// of a record that does have an explicit type.
    Record(Meta<Record>),
    /// an expression of a record that does have a type, e.g. `MyType {
    /// value_1: 100, value_2: "bla" }`, where MyType is a user-defined Record
    /// Type.
    TypedRecord(Meta<Identifier>, Meta<Record>),
    /// An expression that yields a list of values, e.g. `[100, 200, 300]`
    List(Vec<Meta<Expr>>),
    Not(Box<Meta<Expr>>),
    BinOp(Box<Meta<Expr>>, BinOp, Box<Meta<Expr>>),
    IfElse(Box<Meta<Expr>>, Meta<Block>, Option<Meta<Block>>),
}

#[derive(Clone, Copy, Debug, PartialEq, Eq, Structural)]
pub enum ReturnKind {
    Return,
    Accept,
    Reject,
}

/// The keyword of each kind of return.
pub open spec fn return_kind_keyword(kind: ReturnKind) -> Seq<char> {
    match kind {
        ReturnKind::Return => "return"@,
        ReturnKind::Accept => "accept"@,
        ReturnKind::Reject => "reject"@,
    }
}

impl ReturnKind {
    /// The keyword that introduces this kind of return.
    pub fn str(&self) -> (res: &'static str)
        ensures
            res@ == return_kind_keyword(*self),
    {
        proof {
            reveal_strlit("return");
            reveal_strlit("accept");
            reveal_strlit("reject");
        }
        match self {
            ReturnKind::Return => "return",
            ReturnKind::Accept => "accept",
            ReturnKind::Reject => "reject",
        }
    }
}

#[derive(Debug)]
pub struct Record {
    pub fields: Vec<(Meta<Identifier>, Meta<Expr>)>,
}

#[derive(Debug)]
pub struct Match {
    pub expr: Meta<Expr>,
    pub arms: Vec<MatchArm>,
}

#[derive(Debug)]
pub struct MatchArm {
    pub variant_id: Meta<Identifier>,
    pub data_field: Option<Meta<Identifier>>,
    pub guard: Option<Meta<Expr>>,
    pub body: Meta<Block>,
}

#[derive(Debug)]
pub struct Rib {
    pub ident: Meta<Identifier>,
    pub contain_ty: Meta<Identifier>,
    pub body: RibBody,
}

#[derive(Debug)]
pub struct RibBody {
    pub key_values: Meta<Vec<(Meta<Identifier>, RibFieldType)>>,
}

#[derive(Debug)]
pub enum RibFieldType {
    Identifier(Meta<Identifier>),
    Record(Meta<RecordType>),
    List(Meta<Box<RibFieldType>>),
}

#[derive(Debug)]
pub struct Table {
    pub ident: Meta<Identifier>,
    pub contain_ty: Meta<Identifier>,
    pub body: RibBody,
}

#[derive(Debug)]
pub struct OutputStream {
    pub ident: Meta<Identifier>,
    pub contain_ty: Meta<Identifier>,
    pub body: RibBody,
}

/// An identifier is the name of variables or other things.
///
/// It is a word composed of a leading alphabetic Unicode character, followed
/// by alphanumeric Unicode characters or underscore or hyphen.
#[derive(Clone, Debug)]
pub struct Identifier(pub String);

impl Identifier {
    /// The name as a string slice.
    pub fn as_str(&self) -> (res: &str)
        ensures
            res@ == self.0@,
    {
        self.0.as_str()
    }

    /// Whether the name is the given text.
    pub fn is(&self, other: &str) -> (res: bool)
        ensures
            res == (self.0@ == other@),
    {
        str_eq(self.0.as_str(), other)
    }

    /// Whether two identifiers carry the same name.
    pub fn same_name(&self, other: &Identifier) -> (res: bool)
        ensures
            res == (self.0@ == other.0@),
    {
        self.0 == other.0
    }
}

/// The user-defined type of a record. It's very similar to a RibBody (in EBNF
/// it's the same), but it simplifies creating the SymbolTable, because they're
/// semantically different.
#[derive(Debug)]
pub struct RecordType {
    pub key_values: Meta<Vec<(Meta<Identifier>, RibFieldType)>>,
}

/// A standard (RFC 1997) community, as its 32-bit value.
#[derive(Clone, Copy, Debug, PartialEq, Eq, Structural)]
pub struct StandardCommunity(pub u32);

/// An extended (RFC 4360) community, as its eight octets.
#[derive(Clone, Copy, Debug)]
pub struct ExtendedCommunity(pub [u8; 8]);

/// A large (RFC 8092) community, as its three 32-bit parts.
#[derive(Clone, Copy, Debug, PartialEq, Eq, Structural)]
pub struct LargeCommunity {
    pub global: u32,
    pub local1: u32,
    pub local2: u32,
}

#[derive(Clone, Debug)]
pub enum Literal {
    String(String),
    Prefix(Prefix),
    PrefixLength(u8),
    Asn(u32),
    IpAddress(IpAddress),
    ExtendedCommunity(ExtendedCommunity),
    StandardCommunity(StandardCommunity),
    LargeCommunity(LargeCommunity),
    Integer(i64),
    Bool(bool),
}

#[derive(Clone, Copy, Debug, PartialEq, Eq, Structural)]
pub enum BinOp {
    And,
    Or,
    Eq,
    Ne,
    Lt,
    Le,
    Gt,
    Ge,
    In,
    NotIn,
}

/// The text that stands for each binary operator when it is displayed.
pub open spec fn bin_op_text(op: BinOp) -> Seq<char> {
    match op {
        BinOp::And => "&&"@,
        BinOp::Or => "||"@,
        BinOp::Eq => "=="@,
        BinOp::Ne => "!="@,
        BinOp::Lt => "<="@,
        BinOp::Le => "<"@,
        BinOp::Gt => ">="@,
        BinOp::Ge => "<"@,
        BinOp::In => "in"@,
        BinOp::NotIn => "not in"@,
    }
}

impl BinOp {
    /// The text that stands for this operator when it is displayed.
    pub fn str(&self) -> (res: &'static str)
        ensures
            res@ == bin_op_text(*self),
    {
        proof {
            reveal_strlit("&&");
            reveal_strlit("||");
            reveal_strlit("==");
            reveal_strlit("!=");
            reveal_strlit("<=");
            reveal_strlit("<");
            reveal_strlit(">=");
            reveal_strlit("in");
            reveal_strlit("not in");
        }
        match self {
            BinOp::And => "&&",
            BinOp::Or => "||",
            BinOp::Eq => "==",
            BinOp::Ne => "!=",
            BinOp::Lt => "<=",
            BinOp::Le => "<",
            BinOp::Gt => ">=",
            BinOp::Ge => "<",
            BinOp::In => "in",
            BinOp::NotIn => "not in",
        }
    }
}

#[derive(Clone, Debug)]
pub enum PrefixMatchType {
    Exact,
    Longer,
    OrLonger,
    PrefixLengthRange(PrefixLengthRange),
    UpTo(u8),
    NetMask(IpAddress),
}

#[derive(Clone, Debug)]
pub struct PrefixMatchExpr {
    pub prefix: Prefix,
    pub ty: PrefixMatchType,
}

/// An IP address: four octets for IPv4, eight 16-bit groups for IPv6.
#[derive(Clone, Copy, Debug)]
pub enum IpAddress {
    Ipv4([u8; 4]),
    Ipv6([u16; 8]),
}

#[derive(Clone, Debug)]
pub struct Prefix {
    pub addr: Meta<IpAddress>,
    pub len: Meta<u8>,
}

#[derive(Clone, Copy, Debug, PartialEq, Eq, Structural)]
pub struct PrefixLengthRange {
    pub start: u8,
    pub end: u8,
}

} // verus!
