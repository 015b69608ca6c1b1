//! The syntax of value expressions, as the value-expression parser builds
//! it: literals, prefixes and prefix matches, records, lists, and chains of
//! field accesses and method calls. Every node carries its source span.

use vstd::prelude::*;

use crate::ast::{Identifier, IpAddress, LargeCommunity, StandardCommunity, ExtendedCommunity};

verus! {

/// A stretch of source text: the file and the character offsets in it.
#[derive(Clone, Copy, Debug, PartialEq, Eq, Structural)]
pub struct Span {
    pub file: usize,
    pub start: usize,
    pub end: usize,
}

/// The smaller of two offsets.
pub open spec fn min_offset(a: usize, b: usize) -> usize {
    if a <= b {
        a
    } else {
        b
    }
}

/// The larger of two offsets.
pub open spec fn max_offset(a: usize, b: usize) -> usize {
    if a >= b {
        a
    } else {
        b
    }
}

/// The stretch that covers both spans, in the file of the first.
pub open spec fn merge_spans(a: Span, b: Span) -> Span {
    Span { file: a.file, start: min_offset(a.start, b.start), end: max_offset(a.end, b.end) }
}

/// The merged span covers both spans, and merging is the same either way
/// round within a file.
pub proof fn law_merge_covers(a: Span, b: Span)
    ensures
        merge_spans(a, b).start <= a.start,
        merge_spans(a, b).start <= b.start,
        merge_spans(a, b).end >= a.end,
        merge_spans(a, b).end >= b.end,
        merge_spans(a, b).start == a.start || merge_spans(a, b).start == b.start,
        merge_spans(a, b).end == a.end || merge_spans(a, b).end == b.end,
        a.file == b.file ==> merge_spans(a, b) == merge_spans(b, a),
{
}

impl Span {
    /// The stretch that covers both spans.
    pub fn merge(&self, other: Span) -> (res: Span)
        ensures
            res == merge_spans(*self, other),
    {
        Span {
            file: self.file,
            start: if self.start <= other.start {
                self.start
            } else {
                other.start
            },
            end: if self.end >= other.end {
                self.end
            } else {
                other.end
            },
        }
    }
}

/// A syntax node and the span of source text it was read from.
#[derive(Debug)]
pub struct Spanned<T> {
    pub inner: T,
    pub span: Span,
}

/// Attaches a span to a syntax node.
pub fn with_span<T>(inner: T, span: Span) -> (res: Spanned<T>)
    ensures
        res.inner == inner,
        res.span == span,
{
    Spanned { inner, span }
}

/// The name of a type, as it stands before a record in a typed record
/// expression.
#[derive(Debug)]
pub struct TypeIdentifier {
    pub ident: String,
}

/// A prefix length, written `/` followed by the number.
#[derive(Clone, Copy, Debug, PartialEq, Eq, Structural)]
pub struct PrefixLength(pub u8);

#[derive(Debug)]
pub struct Prefix {
    pub addr: Spanned<IpAddress>,
    pub len: Spanned<PrefixLength>,
}

#[derive(Clone, Copy, Debug, PartialEq, Eq, Structural)]
pub struct PrefixLengthRange {
    pub start: PrefixLength,
    pub end: PrefixLength,
}

#[derive(Debug)]
pub enum PrefixMatchType {
    Exact,
    Longer,
    OrLonger,
    PrefixLengthRange(PrefixLengthRange),
    UpTo(PrefixLength),
    NetMask(IpAddress),
}

/// A JunOS style prefix match expression, e.g. `0.0.0.0/0
/// prefix-length-range /12-/16`
#[derive(Debug)]
pub struct PrefixMatchExpr {
    pub prefix: Prefix,
    pub ty: PrefixMatchType,
}

#[derive(Debug)]
pub enum LiteralExpr {
    StringLiteral(String),
    PrefixLiteral(Prefix),
    PrefixLengthLiteral(u8),
    AsnLiteral(u32),
    IpAddressLiteral(IpAddress),
    ExtendedCommunityLiteral(ExtendedCommunity),
    StandardCommunityLiteral(StandardCommunity),
    LargeCommunityLiteral(LargeCommunity),
    IntegerLiteral(i64),
    HexLiteral(u64),
    BooleanLiteral(bool),
}

/// A list of argument expressions between round brackets.
#[derive(Debug)]
pub struct ArgExprList {
    pub args: Spanned<Vec<Spanned<ValueExpr>>>,
}

/// A method called by name with arguments.
#[derive(Debug)]
pub struct MethodComputeExpr {
    pub ident: Spanned<Identifier>,
    pub args: ArgExprList,
}

/// A run of field names, `.a.b.c`.
#[derive(Debug)]
pub struct FieldAccessExpr {
    pub field_names: Vec<Spanned<Identifier>>,
}

#[derive(Debug)]
pub enum AccessExpr {
    MethodComputeExpr(MethodComputeExpr),
    FieldAccessExpr(FieldAccessExpr),
}

#[derive(Debug)]
pub enum AccessReceiver {
    Ident(Spanned<Identifier>),
    GlobalScope,
}

/// A name followed by a chain of field accesses and method calls.
#[derive(Debug)]
pub struct ComputeExpr {
    pub receiver: AccessReceiver,
    pub access_expr: Vec<Spanned<AccessExpr>>,
}

/// A literal followed by a chain of field accesses and method calls.
#[derive(Debug)]
pub struct LiteralAccessExpr {
    pub literal: Spanned<LiteralExpr>,
    pub access_expr: Vec<Spanned<AccessExpr>>,
}

#[derive(Debug)]
pub struct AnonymousRecordValueExpr {
    pub key_values: Spanned<Vec<(Spanned<Identifier>, Spanned<ValueExpr>)>>,
}

#[derive(Debug)]
pub struct TypedRecordValueExpr {
    pub type_id: Spanned<TypeIdentifier>,
    pub key_values: Spanned<Vec<(Spanned<Identifier>, Spanned<ValueExpr>)>>,
}

#[derive(Debug)]
pub struct ListValueExpr {
    pub values: Spanned<Vec<Spanned<ValueExpr>>>,
}

#[derive(Debug)]
pub enum ValueExpr {
    LiteralAccessExpr(Spanned<LiteralAccessExpr>),
    PrefixMatchExpr(PrefixMatchExpr),
    ComputeExpr(Spanned<ComputeExpr>),
    RootMethodCallExpr(MethodComputeExpr),
    AnonymousRecordExpr(AnonymousRecordValueExpr),
    TypedRecordExpr(Spanned<TypedRecordValueExpr>),
    ListExpr(ListValueExpr),
}

} // verus!
