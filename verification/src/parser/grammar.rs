//! The meaning of value expressions: an abstract view of each syntax node,
//! and the grammar of value expressions as a function from the token
//! sequence and a position to the view that is read there, the position
//! after it, or the error.
//!
//! ```ebnf
//! ValueExpr   ::= '[' (ValueExpr (',' ValueExpr)* ','?)? ']'
//!               | Identifier? Record
//!               | Identifier ArgExprList
//!               | Identifier AccessExpr
//!               | Prefix PrefixMatchType
//!               | Literal AccessExpr
//! Record      ::= '{' (RecordField (',' RecordField)* ','?)? '}'
//! RecordField ::= Identifier ':' ValueExpr
//! ArgExprList ::= '(' (ValueExpr (',' ValueExpr)* ','?)? ')'
//! AccessExpr  ::= ('.' Identifier ArgExprList?)*
//! ```

use vstd::prelude::*;

use crate::ast::{Identifier, IpAddress};
use crate::syntax::{
    AccessExpr, AccessReceiver, LiteralExpr, PrefixMatchType, Span, Spanned, ValueExpr,
    merge_spans,
};

use super::community::{community_of_token, CommunityValue};
use super::ipv6::ipv6_groups;
use super::number::{i64_value, unsigned_value};
use super::split::ipv4_octets;
use super::token::{ascii_head, is_ascii, Expectation, LiteralKind, ParseError, ParseErrorKind, Token};

verus! {

broadcast use vstd::std_specs::vec::axiom_vec_decreases_to_view;

// ------------ Views of syntax nodes -----------------------------------------

/// An IP address by its parts.
pub enum IpView {
    V4(Seq<u8>),
    V6(Seq<u16>),
}

/// A prefix match type by its parts.
pub enum MatchView {
    Exact,
    Longer,
    OrLonger,
    Range(u8, u8),
    UpTo(u8),
    NetMask(IpView),
}

/// A literal by its value.
pub enum LitView {
    Str(Seq<char>),
    Prefix(IpView, Span, u8, Span),
    PrefixLength(u8),
    Asn(u32),
    Ip(IpView),
    ExtendedCommunity(Seq<u8>),
    StandardCommunity(u32),
    LargeCommunity(u32, u32, u32),
    Integer(i64),
    Hex(u64),
    Boolean(bool),
}

/// A name and where it stands.
pub type NameView = (Seq<char>, Span);

/// One step of an access chain: a method call, or a run of field names.
pub enum AccessView {
    Method { name: NameView, args: Seq<(ValueView, Span)>, args_span: Span },
    Fields(Seq<NameView>),
}

/// A value expression by its parts.
pub enum ValueView {
    LiteralAccess {
        literal: LitView,
        literal_span: Span,
        access: Seq<(AccessView, Span)>,
        span: Span,
    },
    PrefixMatch { addr: IpView, addr_span: Span, len: u8, len_span: Span, ty: MatchView },
    Compute { receiver: Option<NameView>, access: Seq<(AccessView, Span)>, span: Span },
    RootMethodCall { name: NameView, args: Seq<(ValueView, Span)>, args_span: Span },
    AnonymousRecord { fields: Seq<(NameView, (ValueView, Span))>, span: Span },
    TypedRecord {
        record_type: NameView,
        fields: Seq<(NameView, (ValueView, Span))>,
        fields_span: Span,
        span: Span,
    },
    List { values: Seq<(ValueView, Span)>, span: Span },
}

pub open spec fn ip_view(a: IpAddress) -> IpView {
    match a {
        IpAddress::Ipv4(o) => IpView::V4(o@),
        IpAddress::Ipv6(g) => IpView::V6(g@),
    }
}

pub open spec fn match_view(m: PrefixMatchType) -> MatchView {
    match m {
        PrefixMatchType::Exact => MatchView::Exact,
        PrefixMatchType::Longer => MatchView::Longer,
        PrefixMatchType::OrLonger => MatchView::OrLonger,
        PrefixMatchType::PrefixLengthRange(r) => MatchView::Range(r.start.0, r.end.0),
        PrefixMatchType::UpTo(l) => MatchView::UpTo(l.0),
        PrefixMatchType::NetMask(a) => MatchView::NetMask(ip_view(a)),
    }
}

pub open spec fn lit_view(l: LiteralExpr) -> LitView {
    match l {
        LiteralExpr::StringLiteral(s) => LitView::Str(s@),
        LiteralExpr::PrefixLiteral(p) => LitView::Prefix(
            ip_view(p.addr.inner),
            p.addr.span,
            p.len.inner.0,
            p.len.span,
        ),
        LiteralExpr::PrefixLengthLiteral(l) => LitView::PrefixLength(l),
        LiteralExpr::AsnLiteral(a) => LitView::Asn(a),
        LiteralExpr::IpAddressLiteral(a) => LitView::Ip(ip_view(a)),
        LiteralExpr::ExtendedCommunityLiteral(c) => LitView::ExtendedCommunity(c.0@),
        LiteralExpr::StandardCommunityLiteral(c) => LitView::StandardCommunity(c.0),
        LiteralExpr::LargeCommunityLiteral(c) => LitView::LargeCommunity(
            c.global,
            c.local1,
            c.local2,
        ),
        LiteralExpr::IntegerLiteral(v) => LitView::Integer(v),
        LiteralExpr::HexLiteral(v) => LitView::Hex(v),
        LiteralExpr::BooleanLiteral(b) => LitView::Boolean(b),
    }
}

pub open spec fn name_view(id: Spanned<Identifier>) -> NameView {
    (id.inner.0@, id.span)
}

pub open spec fn names_view(s: Seq<Spanned<Identifier>>) -> Seq<NameView> {
    s.map_values(|id: Spanned<Identifier>| name_view(id))
}

pub open spec fn value_view(v: ValueExpr) -> ValueView
    decreases v,
{
    match v {
        ValueExpr::LiteralAccessExpr(e) => ValueView::LiteralAccess {
            literal: lit_view(e.inner.literal.inner),
            literal_span: e.inner.literal.span,
            access: accesses_view(e.inner.access_expr@),
            span: e.span,
        },
        ValueExpr::PrefixMatchExpr(m) => ValueView::PrefixMatch {
            addr: ip_view(m.prefix.addr.inner),
            addr_span: m.prefix.addr.span,
            len: m.prefix.len.inner.0,
            len_span: m.prefix.len.span,
            ty: match_view(m.ty),
        },
        ValueExpr::ComputeExpr(e) => ValueView::Compute {
            receiver: match e.inner.receiver {
                AccessReceiver::Ident(id) => Some(name_view(id)),
                AccessReceiver::GlobalScope => None,
            },
            access: accesses_view(e.inner.access_expr@),
            span: e.span,
        },
        ValueExpr::RootMethodCallExpr(m) => ValueView::RootMethodCall {
            name: name_view(m.ident),
            args: values_view(m.args.args.inner@),
            args_span: m.args.args.span,
        },
        ValueExpr::AnonymousRecordExpr(r) => ValueView::AnonymousRecord {
            fields: fields_view(r.key_values.inner@),
            span: r.key_values.span,
        },
        ValueExpr::TypedRecordExpr(r) => ValueView::TypedRecord {
            record_type: (r.inner.type_id.inner.ident@, r.inner.type_id.span),
            fields: fields_view(r.inner.key_values.inner@),
            fields_span: r.inner.key_values.span,
            span: r.span,
        },
        ValueExpr::ListExpr(l) => ValueView::List {
            values: values_view(l.values.inner@),
            span: l.values.span,
        },
    }
}

pub open spec fn values_view(s: Seq<Spanned<ValueExpr>>) -> Seq<(ValueView, Span)>
    decreases s,
{
    if s.len() == 0 {
        Seq::empty()
    } else {
        values_view(s.drop_last()).push((value_view(s.last().inner), s.last().span))
    }
}

pub open spec fn fields_view(s: Seq<(Spanned<Identifier>, Spanned<ValueExpr>)>) -> Seq<
    (NameView, (ValueView, Span)),
>
    decreases s,
{
    if s.len() == 0 {
        Seq::empty()
    } else {
        fields_view(s.drop_last()).push(
            (name_view(s.last().0), (value_view(s.last().1.inner), s.last().1.span)),
        )
    }
}

pub open spec fn access_view(a: AccessExpr) -> AccessView
    decreases a,
{
    match a {
        AccessExpr::MethodComputeExpr(m) => AccessView::Method {
            name: name_view(m.ident),
            args: values_view(m.args.args.inner@),
            args_span: m.args.args.span,
        },
        AccessExpr::FieldAccessExpr(f) => AccessView::Fields(names_view(f.field_names@)),
    }
}

pub open spec fn accesses_view(s: Seq<Spanned<AccessExpr>>) -> Seq<(AccessView, Span)>
    decreases s,
{
    if s.len() == 0 {
        Seq::empty()
    } else {
        accesses_view(s.drop_last()).push((access_view(s.last().inner), s.last().span))
    }
}

pub proof fn lemma_values_view_push(s: Seq<Spanned<ValueExpr>>, x: Spanned<ValueExpr>)
    ensures
        values_view(s.push(x)) == values_view(s).push((value_view(x.inner), x.span)),
{
    assert(s.push(x).drop_last() =~= s);
}

pub proof fn lemma_fields_view_push(
    s: Seq<(Spanned<Identifier>, Spanned<ValueExpr>)>,
    x: (Spanned<Identifier>, Spanned<ValueExpr>),
)
    ensures
        fields_view(s.push(x)) == fields_view(s).push(
            (name_view(x.0), (value_view(x.1.inner), x.1.span)),
        ),
{
    assert(s.push(x).drop_last() =~= s);
}

pub proof fn lemma_accesses_view_push(s: Seq<Spanned<AccessExpr>>, x: Spanned<AccessExpr>)
    ensures
        accesses_view(s.push(x)) == accesses_view(s).push((access_view(x.inner), x.span)),
{
    assert(s.push(x).drop_last() =~= s);
}

// ------------ Reading tokens ---------------------------------------------------

/// Whether the token at `i` is `k`.
pub open spec fn is_at(t: Seq<(Token, Span)>, i: int, k: Token) -> bool {
    0 <= i < t.len() && t[i].0 == k
}

pub open spec fn end_error(e: Span) -> ParseError {
    ParseError { kind: ParseErrorKind::EndOfInput, location: e }
}

pub open spec fn expected_error(x: Expectation, got: Token, at: Span) -> ParseError {
    ParseError { kind: ParseErrorKind::Expected { expected: x, got }, location: at }
}

pub open spec fn invalid_error(kind: LiteralKind, token: Token, at: Span) -> ParseError {
    ParseError { kind: ParseErrorKind::InvalidLiteral { kind, token }, location: at }
}

pub open spec fn unsupported_error(token: Token, at: Span) -> ParseError {
    ParseError { kind: ParseErrorKind::Unsupported { token }, location: at }
}

/// The number of bytes a character takes in UTF-8.
pub open spec fn utf8_len(c: char) -> int {
    if (c as u32) < 0x80 {
        1
    } else if (c as u32) < 0x800 {
        2
    } else if (c as u32) < 0x10000 {
        3
    } else {
        4
    }
}

/// The number of characters that the first two bytes of a text hold, where
/// the text can be cut after its second byte.
pub open spec fn chars_in_two_bytes(s: Seq<char>) -> Option<int> {
    if s.len() >= 1 && utf8_len(s[0]) == 2 {
        Some(1)
    } else if s.len() >= 2 && is_ascii(s[0]) && is_ascii(s[1]) {
        Some(2)
    } else {
        None
    }
}

/// Taking the token `k` at `pos`: its span and the position after it.
pub open spec fn spec_take(t: Seq<(Token, Span)>, e: Span, pos: int, k: Token) -> Result<
    (Span, int),
    ParseError,
> {
    if !(0 <= pos < t.len()) {
        Err(end_error(e))
    } else if t[pos].0 == k {
        Ok((t[pos].1, pos + 1))
    } else {
        Err(expected_error(Expectation::Token(k), t[pos].0, t[pos].1))
    }
}

/// Reading an identifier at `pos`.
pub open spec fn spec_identifier(t: Seq<(Token, Span)>, e: Span, pos: int) -> Result<
    (NameView, int),
    ParseError,
> {
    if !(0 <= pos < t.len()) {
        Err(end_error(e))
    } else {
        match t[pos].0 {
            Token::Ident(s) => Ok(((s@, t[pos].1), pos + 1)),
            _ => Err(expected_error(Expectation::Identifier, t[pos].0, t[pos].1)),
        }
    }
}

/// Reading a prefix length, `/` and a number up to 255, at `pos`.
pub open spec fn spec_prefix_length(t: Seq<(Token, Span)>, e: Span, pos: int) -> Result<
    ((u8, Span), int),
    ParseError,
> {
    if !(0 <= pos < t.len()) {
        Err(end_error(e))
    } else {
        match t[pos].0 {
            Token::PrefixLength(s) => if !ascii_head(s@, 1) {
                Err(unsupported_error(t[pos].0, t[pos].1))
            } else {
                match unsigned_value(s@.skip(1), 10, 255) {
                    Some(v) => Ok(((v as u8, t[pos].1), pos + 1)),
                    None => Err(invalid_error(LiteralKind::PrefixLength, t[pos].0, t[pos].1)),
                }
            },
            _ => Err(invalid_error(LiteralKind::PrefixLength, t[pos].0, t[pos].1)),
        }
    }
}

/// Reading an IP address at `pos`.
pub open spec fn spec_ip_address(t: Seq<(Token, Span)>, e: Span, pos: int) -> Result<
    ((IpView, Span), int),
    ParseError,
> {
    if !(0 <= pos < t.len()) {
        Err(end_error(e))
    } else {
        match t[pos].0 {
            Token::IpV4(s) => match ipv4_octets(s@) {
                Some(o) => Ok(((IpView::V4(o), t[pos].1), pos + 1)),
                None => Err(invalid_error(LiteralKind::Ipv4Address, t[pos].0, t[pos].1)),
            },
            Token::IpV6(s) => match ipv6_groups(s@) {
                Some(g) => Ok(((IpView::V6(g), t[pos].1), pos + 1)),
                None => Err(invalid_error(LiteralKind::Ipv6Address, t[pos].0, t[pos].1)),
            },
            _ => Err(expected_error(Expectation::IpAddress, t[pos].0, t[pos].1)),
        }
    }
}

/// Reading a community token: the literal it stands for, an error where
/// routecore reads no community, and no literal for an IPv6 extended
/// community.
pub open spec fn community_view(tok: Token, s: Seq<char>, sp: Span) -> Result<LitView, ParseError> {
    match community_of_token(s) {
        Some(CommunityValue::Standard(v)) => Ok(LitView::StandardCommunity(v)),
        Some(CommunityValue::Extended(o)) => Ok(LitView::ExtendedCommunity(o@)),
        Some(CommunityValue::Large(g, l1, l2)) => Ok(LitView::LargeCommunity(g, l1, l2)),
        Some(CommunityValue::Ipv6Extended(_)) => Err(unsupported_error(tok, sp)),
        None => Err(invalid_error(LiteralKind::Community, tok, sp)),
    }
}

/// Reading a literal of one token at `pos`: a string (without its quotes),
/// a decimal or hexadecimal integer, an AS number, a boolean or a community.
pub open spec fn spec_simple_literal(t: Seq<(Token, Span)>, e: Span, pos: int) -> Result<
    ((LitView, Span), int),
    ParseError,
> {
    if !(0 <= pos < t.len()) {
        Err(end_error(e))
    } else {
        let tok = t[pos].0;
        let sp = t[pos].1;
        match tok {
            Token::String(s) => if s@.len() >= 2 && is_ascii(s@[0]) && is_ascii(s@.last()) {
                Ok(((LitView::Str(s@.subrange(1, s@.len() - 1)), sp), pos + 1))
            } else {
                Err(unsupported_error(tok, sp))
            },
            Token::Integer(s) => match i64_value(s@) {
                Some(v) => Ok(((LitView::Integer(v as i64), sp), pos + 1)),
                None => Err(invalid_error(LiteralKind::Integer, tok, sp)),
            },
            Token::Hex(s) => match chars_in_two_bytes(s@) {
                None => Err(unsupported_error(tok, sp)),
                Some(k) => match unsigned_value(s@.skip(k), 16, u64::MAX as int) {
                    Some(v) => Ok(((LitView::Hex(v as u64), sp), pos + 1)),
                    None => Err(invalid_error(LiteralKind::HexInteger, tok, sp)),
                },
            },
            Token::Asn(s) => match chars_in_two_bytes(s@) {
                None => Err(unsupported_error(tok, sp)),
                Some(k) => match unsigned_value(s@.skip(k), 10, u32::MAX as int) {
                    Some(v) => Ok(((LitView::Asn(v as u32), sp), pos + 1)),
                    None => Err(invalid_error(LiteralKind::AsNumber, tok, sp)),
                },
            },
            Token::Bool(b) => Ok(((LitView::Boolean(b), sp), pos + 1)),
            Token::Community(s) => match community_view(tok, s@, sp) {
                Ok(l) => Ok(((l, sp), pos + 1)),
                Err(err) => Err(err),
            },
            Token::Float => Err(unsupported_error(tok, sp)),
            _ => Err(expected_error(Expectation::Literal, tok, sp)),
        }
    }
}

/// Reading any literal at `pos`: a prefix length, an IP address, a prefix
/// (an address followed by a prefix length), or a literal of one token.
pub open spec fn spec_literal(t: Seq<(Token, Span)>, e: Span, pos: int) -> Result<
    ((LitView, Span), int),
    ParseError,
> {
    if 0 <= pos < t.len() && t[pos].0 is PrefixLength {
        match spec_prefix_length(t, e, pos) {
            Ok(((l, sp), p)) => Ok(((LitView::PrefixLength(l), sp), p)),
            Err(err) => Err(err),
        }
    } else if 0 <= pos < t.len() && (t[pos].0 is IpV4 || t[pos].0 is IpV6) {
        match spec_ip_address(t, e, pos) {
            Ok(((a, asp), p1)) => if 0 <= p1 < t.len() && t[p1].0 is PrefixLength {
                match spec_prefix_length(t, e, p1) {
                    Ok(((l, lsp), p2)) => Ok(
                        ((LitView::Prefix(a, asp, l, lsp), merge_spans(asp, lsp)), p2),
                    ),
                    Err(err) => Err(err),
                }
            } else {
                Ok(((LitView::Ip(a), asp), p1))
            },
            Err(err) => Err(err),
        }
    } else {
        spec_simple_literal(t, e, pos)
    }
}

/// Reading a prefix length range, `/a-/b`, at `pos`.
pub open spec fn spec_prefix_length_range(t: Seq<(Token, Span)>, e: Span, pos: int) -> Result<
    ((u8, u8, Span), int),
    ParseError,
> {
    match spec_prefix_length(t, e, pos) {
        Err(err) => Err(err),
        Ok(((a, asp), p1)) => match spec_take(t, e, p1, Token::Hyphen) {
            Err(err) => Err(err),
            Ok((_, p2)) => match spec_prefix_length(t, e, p2) {
                Err(err) => Err(err),
                Ok(((b, bsp), p3)) => Ok(((a, b, merge_spans(asp, bsp)), p3)),
            },
        },
    }
}

/// Reading the prefix match type that may follow a prefix at `pos`; `None`
/// where no match keyword stands there.
pub open spec fn spec_match_type(t: Seq<(Token, Span)>, e: Span, pos: int) -> Result<
    (Option<MatchView>, int),
    ParseError,
> {
    if is_at(t, pos, Token::Exact) {
        Ok((Some(MatchView::Exact), pos + 1))
    } else if is_at(t, pos, Token::Longer) {
        Ok((Some(MatchView::Longer), pos + 1))
    } else if is_at(t, pos, Token::OrLonger) {
        Ok((Some(MatchView::OrLonger), pos + 1))
    } else if is_at(t, pos, Token::PrefixLengthRange) {
        match spec_prefix_length_range(t, e, pos + 1) {
            Ok(((a, b, _), p)) => Ok((Some(MatchView::Range(a, b)), p)),
            Err(err) => Err(err),
        }
    } else if is_at(t, pos, Token::UpTo) {
        match spec_prefix_length(t, e, pos + 1) {
            Ok(((l, _), p)) => Ok((Some(MatchView::UpTo(l)), p)),
            Err(err) => Err(err),
        }
    } else if is_at(t, pos, Token::NetMask) {
        match spec_ip_address(t, e, pos + 1) {
            Ok(((a, _), p)) => Ok((Some(MatchView::NetMask(a)), p)),
            Err(err) => Err(err),
        }
    } else {
        Ok((None, pos))
    }
}

/// The plain view of a prefix match type keeps the keyword types apart:
/// each of `exact`, `longer` and `orlonger` is seen as itself.
pub proof fn law_match_view_keeps_keyword_types(m: PrefixMatchType)
    ensures
        match_view(m) == MatchView::Exact <==> m is Exact,
        match_view(m) == MatchView::Longer <==> m is Longer,
        match_view(m) == MatchView::OrLonger <==> m is OrLonger,
{
}

/// The prefix match type read is the one its keyword names: `exact`,
/// `longer` and `orlonger` each give the match type of their own name, read
/// from the keyword alone, and no two of them give the same one.
pub proof fn law_match_keyword_names_its_type(t: Seq<(Token, Span)>, e: Span, pos: int)
    ensures
        is_at(t, pos, Token::Exact) ==> spec_match_type(t, e, pos) == Ok::<
            (Option<MatchView>, int),
            ParseError,
        >((Some(MatchView::Exact), pos + 1)),
        is_at(t, pos, Token::Longer) ==> spec_match_type(t, e, pos) == Ok::<
            (Option<MatchView>, int),
            ParseError,
        >((Some(MatchView::Longer), pos + 1)),
        is_at(t, pos, Token::OrLonger) ==> spec_match_type(t, e, pos) == Ok::<
            (Option<MatchView>, int),
            ParseError,
        >((Some(MatchView::OrLonger), pos + 1)),
        spec_match_type(t, e, pos) matches Ok((Some(m), _)) ==> {
            &&& (m == MatchView::Exact <==> is_at(t, pos, Token::Exact))
            &&& (m == MatchView::Longer <==> is_at(t, pos, Token::Longer))
            &&& (m == MatchView::OrLonger <==> is_at(t, pos, Token::OrLonger))
        },
{
}

// ------------ Value expressions --------------------------------------------------

/// The span of a name followed by an access chain.
pub open spec fn chain_span(first: Span, access: Seq<(AccessView, Span)>) -> Span {
    if access.len() > 0 {
        merge_spans(first, access.last().1)
    } else {
        first
    }
}

/// Reading a value expression at `pos`.
pub open spec fn spec_value_expr(t: Seq<(Token, Span)>, e: Span, pos: int) -> Result<
    ((ValueView, Span), int),
    ParseError,
>
    decreases t.len() - pos, 1int,
{
    if !(0 <= pos <= t.len()) {
        Err(end_error(e))
    } else if is_at(t, pos, Token::SquareLeft) {
        match spec_values(t, e, pos, Token::SquareLeft, Token::SquareRight) {
            Ok(((vs, sp), p)) => Ok(((ValueView::List { values: vs, span: sp }, sp), p)),
            Err(err) => Err(err),
        }
    } else if is_at(t, pos, Token::CurlyLeft) {
        match spec_record(t, e, pos) {
            Ok(((fs, sp), p)) => Ok(((ValueView::AnonymousRecord { fields: fs, span: sp }, sp), p)),
            Err(err) => Err(err),
        }
    } else if pos < t.len() && t[pos].0 is Ident {
        let name = (t[pos].0->Ident_0@, t[pos].1);
        let p1 = pos + 1;
        if is_at(t, p1, Token::CurlyLeft) {
            match spec_record(t, e, p1) {
                Ok(((fs, fsp), p)) => {
                    let sp = merge_spans(name.1, fsp);
                    Ok(
                        (
                            (
                                ValueView::TypedRecord {
                                    record_type: name,
                                    fields: fs,
                                    fields_span: fsp,
                                    span: sp,
                                },
                                sp,
                            ),
                            p,
                        ),
                    )
                },
                Err(err) => Err(err),
            }
        } else if is_at(t, p1, Token::RoundLeft) {
            match spec_values(t, e, p1, Token::RoundLeft, Token::RoundRight) {
                Ok(((args, asp), p)) => Ok(
                    (
                        (
                            ValueView::RootMethodCall { name, args, args_span: asp },
                            merge_spans(name.1, asp),
                        ),
                        p,
                    ),
                ),
                Err(err) => Err(err),
            }
        } else {
            match spec_access(t, e, p1, Seq::empty()) {
                Ok((acc, p)) => {
                    let sp = chain_span(name.1, acc);
                    Ok(((ValueView::Compute { receiver: Some(name), access: acc, span: sp }, sp), p))
                },
                Err(err) => Err(err),
            }
        }
    } else {
        match spec_literal(t, e, pos) {
            Err(err) => Err(err),
            Ok(((lit, lsp), p1)) => if !(pos < p1 <= t.len()) {
                Err(end_error(e))
            } else {
                match lit {
                    LitView::Prefix(a, asp, l, lensp) => match spec_match_type(t, e, p1) {
                        Err(err) => Err(err),
                        Ok((Some(ty), p2)) => Ok(
                            (
                                (
                                    ValueView::PrefixMatch {
                                        addr: a,
                                        addr_span: asp,
                                        len: l,
                                        len_span: lensp,
                                        ty,
                                    },
                                    lsp,
                                ),
                                p2,
                            ),
                        ),
                        Ok((None, _)) => spec_literal_access(t, e, p1, lit, lsp),
                    },
                    _ => spec_literal_access(t, e, p1, lit, lsp),
                }
            },
        }
    }
}

/// A literal followed by the access chain read at `pos`.
pub open spec fn spec_literal_access(
    t: Seq<(Token, Span)>,
    e: Span,
    pos: int,
    lit: LitView,
    lsp: Span,
) -> Result<((ValueView, Span), int), ParseError>
    decreases t.len() - pos, 3int,
{
    match spec_access(t, e, pos, Seq::empty()) {
        Ok((acc, p)) => {
            let sp = chain_span(lsp, acc);
            Ok(
                (
                    (
                        ValueView::LiteralAccess {
                            literal: lit,
                            literal_span: lsp,
                            access: acc,
                            span: sp,
                        },
                        sp,
                    ),
                    p,
                ),
            )
        },
        Err(err) => Err(err),
    }
}

/// Reading the access chain at `pos`, after the steps `acc` already read.
/// A field name that follows a run of field names joins that run.
pub open spec fn spec_access(
    t: Seq<(Token, Span)>,
    e: Span,
    pos: int,
    acc: Seq<(AccessView, Span)>,
) -> Result<(Seq<(AccessView, Span)>, int), ParseError>
    decreases t.len() - pos, 2int,
{
    if !(0 <= pos < t.len()) || t[pos].0 != Token::Period {
        Ok((acc, pos))
    } else {
        match spec_identifier(t, e, pos + 1) {
            Err(err) => Err(err),
            Ok((name, _)) => {
                let p1 = pos + 2;
                if is_at(t, p1, Token::RoundLeft) {
                    match spec_values(t, e, p1, Token::RoundLeft, Token::RoundRight) {
                        Err(err) => Err(err),
                        Ok(((args, asp), p2)) => {
                            let step = (
                                AccessView::Method { name, args, args_span: asp },
                                merge_spans(name.1, asp),
                            );
                            if p1 < p2 <= t.len() {
                                spec_access(t, e, p2, acc.push(step))
                            } else {
                                Err(end_error(e))
                            }
                        },
                    }
                } else if acc.len() > 0 && acc.last().0 is Fields {
                    let last = acc.last();
                    let step = (
                        AccessView::Fields(last.0->Fields_0.push(name)),
                        merge_spans(last.1, name.1),
                    );
                    spec_access(t, e, p1, acc.drop_last().push(step))
                } else {
                    spec_access(t, e, p1, acc.push((AccessView::Fields(seq![name]), name.1)))
                }
            },
        }
    }
}

/// Reading a bracketed, comma-separated list of value expressions at `pos`,
/// with an optional trailing comma: the values and the span from the
/// opening to the closing token.
pub open spec fn spec_values(
    t: Seq<(Token, Span)>,
    e: Span,
    pos: int,
    open: Token,
    close: Token,
) -> Result<((Seq<(ValueView, Span)>, Span), int), ParseError>
    decreases t.len() - pos, 0int,
{
    if !(0 <= pos < t.len()) {
        Err(end_error(e))
    } else if t[pos].0 != open {
        Err(expected_error(Expectation::Token(open), t[pos].0, t[pos].1))
    } else {
        let start = t[pos].1;
        let p1 = pos + 1;
        if is_at(t, p1, close) {
            Ok(((Seq::empty(), merge_spans(start, t[p1].1)), p1 + 1))
        } else {
            match spec_value_expr(t, e, p1) {
                Err(err) => Err(err),
                Ok((v, p2)) => if !(p1 < p2 <= t.len()) {
                    Err(end_error(e))
                } else {
                    match spec_values_rest(t, e, p2, close, seq![v]) {
                        Err(err) => Err(err),
                        Ok((vs, p3)) => match spec_take(t, e, p3, close) {
                            Err(err) => Err(err),
                            Ok((endsp, p4)) => Ok(((vs, merge_spans(start, endsp)), p4)),
                        },
                    }
                },
            }
        }
    }
}

/// The rest of a comma-separated list of values at `pos`, after the values
/// `acc`: the values and the position of the closing token.
pub open spec fn spec_values_rest(
    t: Seq<(Token, Span)>,
    e: Span,
    pos: int,
    close: Token,
    acc: Seq<(ValueView, Span)>,
) -> Result<(Seq<(ValueView, Span)>, int), ParseError>
    decreases t.len() - pos, 2int,
{
    if !is_at(t, pos, Token::Comma) {
        Ok((acc, pos))
    } else if is_at(t, pos + 1, close) {
        Ok((acc, pos + 1))
    } else {
        match spec_value_expr(t, e, pos + 1) {
            Err(err) => Err(err),
            Ok((v, p)) => if pos + 1 < p <= t.len() {
                spec_values_rest(t, e, p, close, acc.push(v))
            } else {
                Err(end_error(e))
            },
        }
    }
}

/// Reading a record field, `name: value`, at `pos`.
pub open spec fn spec_field(t: Seq<(Token, Span)>, e: Span, pos: int) -> Result<
    ((NameView, (ValueView, Span)), int),
    ParseError,
>
    decreases t.len() - pos, 2int,
{
    match spec_identifier(t, e, pos) {
        Err(err) => Err(err),
        Ok((name, _)) => match spec_take(t, e, pos + 1, Token::Colon) {
            Err(err) => Err(err),
            Ok(_) => if 0 <= pos + 2 <= t.len() {
                match spec_value_expr(t, e, pos + 2) {
                    Err(err) => Err(err),
                    Ok((v, p)) => Ok(((name, v), p)),
                }
            } else {
                Err(end_error(e))
            },
        },
    }
}

/// Reading a record between curly brackets at `pos`: its fields and the
/// span from the opening to the closing bracket.
pub open spec fn spec_record(t: Seq<(Token, Span)>, e: Span, pos: int) -> Result<
    ((Seq<(NameView, (ValueView, Span))>, Span), int),
    ParseError,
>
    decreases t.len() - pos, 0int,
{
    if !(0 <= pos < t.len()) {
        Err(end_error(e))
    } else if t[pos].0 != Token::CurlyLeft {
        Err(expected_error(Expectation::Token(Token::CurlyLeft), t[pos].0, t[pos].1))
    } else {
        let start = t[pos].1;
        let p1 = pos + 1;
        if is_at(t, p1, Token::CurlyRight) {
            Ok(((Seq::empty(), merge_spans(start, t[p1].1)), p1 + 1))
        } else {
            match spec_field(t, e, p1) {
                Err(err) => Err(err),
                Ok((f, p2)) => if !(p1 < p2 <= t.len()) {
                    Err(end_error(e))
                } else {
                    match spec_fields_rest(t, e, p2, seq![f]) {
                        Err(err) => Err(err),
                        Ok((fs, p3)) => match spec_take(t, e, p3, Token::CurlyRight) {
                            Err(err) => Err(err),
                            Ok((endsp, p4)) => Ok(((fs, merge_spans(start, endsp)), p4)),
                        },
                    }
                },
            }
        }
    }
}

/// The rest of the fields of a record at `pos`, after the fields `acc`.
pub open spec fn spec_fields_rest(
    t: Seq<(Token, Span)>,
    e: Span,
    pos: int,
    acc: Seq<(NameView, (ValueView, Span))>,
) -> Result<(Seq<(NameView, (ValueView, Span))>, int), ParseError>
    decreases t.len() - pos, 3int,
{
    if !is_at(t, pos, Token::Comma) {
        Ok((acc, pos))
    } else if is_at(t, pos + 1, Token::CurlyRight) {
        Ok((acc, pos + 1))
    } else {
        match spec_field(t, e, pos + 1) {
            Err(err) => Err(err),
            Ok((f, p)) => if pos + 1 < p <= t.len() {
                spec_fields_rest(t, e, p, acc.push(f))
            } else {
                Err(end_error(e))
            },
        }
    }
}

/// One step of an access chain: a field name that follows a run of field
/// names joins the run.
pub proof fn lemma_access_joins_run(
    t: Seq<(Token, Span)>,
    e: Span,
    pos: int,
    acc: Seq<(AccessView, Span)>,
    name: NameView,
)
    requires
        is_at(t, pos, Token::Period),
        spec_identifier(t, e, pos + 1) == Ok::<(NameView, int), ParseError>((name, pos + 2)),
        !is_at(t, pos + 2, Token::RoundLeft),
        acc.len() > 0,
        acc.last().0 is Fields,
    ensures
        spec_access(t, e, pos, acc) == spec_access(
            t,
            e,
            pos + 2,
            acc.drop_last().push(
                (
                    AccessView::Fields(acc.last().0->Fields_0.push(name)),
                    merge_spans(acc.last().1, name.1),
                ),
            ),
        ),
{
}

/// One step of an access chain: a field name that follows no run of field
/// names starts one.
pub proof fn lemma_access_starts_run(
    t: Seq<(Token, Span)>,
    e: Span,
    pos: int,
    acc: Seq<(AccessView, Span)>,
    name: NameView,
)
    requires
        is_at(t, pos, Token::Period),
        spec_identifier(t, e, pos + 1) == Ok::<(NameView, int), ParseError>((name, pos + 2)),
        !is_at(t, pos + 2, Token::RoundLeft),
        !(acc.len() > 0 && acc.last().0 is Fields),
    ensures
        spec_access(t, e, pos, acc) == spec_access(
            t,
            e,
            pos + 2,
            acc.push((AccessView::Fields(seq![name]), name.1)),
        ),
{
}

// ------------ Laws ------------------------------------------------------------------

/// No two steps in a row of an access chain are runs of field names.
pub open spec fn fields_runs_apart(acc: Seq<(AccessView, Span)>) -> bool {
    forall|i: int|
        0 <= i < acc.len() - 1 ==> !((#[trigger] acc[i]).0 is Fields && acc[i + 1].0 is Fields)
}

proof fn lemma_access_keeps_runs_apart(
    t: Seq<(Token, Span)>,
    e: Span,
    pos: int,
    acc: Seq<(AccessView, Span)>,
)
    requires
        fields_runs_apart(acc),
    ensures
        spec_access(t, e, pos, acc) matches Ok((r, _)) ==> fields_runs_apart(r),
    decreases t.len() - pos,
{
    if 0 <= pos < t.len() && t[pos].0 == Token::Period {
        if let Ok((name, _)) = spec_identifier(t, e, pos + 1) {
            let p1 = pos + 2;
            if is_at(t, p1, Token::RoundLeft) {
                if let Ok(((args, asp), p2)) = spec_values(t, e, p1, Token::RoundLeft, Token::RoundRight) {
                    if p1 < p2 <= t.len() {
                        let next = acc.push(
                            (
                                AccessView::Method { name, args, args_span: asp },
                                merge_spans(name.1, asp),
                            ),
                        );
                        assert forall|i: int| 0 <= i < next.len() - 1 implies !((#[trigger] next[i]).0 is Fields
                            && next[i + 1].0 is Fields) by {
                            if i < acc.len() - 1 {
                                assert(next[i] == acc[i] && next[i + 1] == acc[i + 1]);
                            }
                        }
                        lemma_access_keeps_runs_apart(t, e, p2, next);
                    }
                }
            } else if acc.len() > 0 && acc.last().0 is Fields {
                let last = acc.last();
                let next = acc.drop_last().push(
                    (AccessView::Fields(last.0->Fields_0.push(name)), merge_spans(last.1, name.1)),
                );
                assert forall|i: int| 0 <= i < next.len() - 1 implies !((#[trigger] next[i]).0 is Fields
                    && next[i + 1].0 is Fields) by {
                    assert(next[i] == acc[i]);
                    if i + 1 < acc.len() - 1 {
                        assert(next[i + 1] == acc[i + 1]);
                    } else {
                        assert(acc[i + 1] == last);
                    }
                }
                lemma_access_keeps_runs_apart(t, e, p1, next);
            } else {
                let next = acc.push((AccessView::Fields(seq![name]), name.1));
                assert forall|i: int| 0 <= i < next.len() - 1 implies !((#[trigger] next[i]).0 is Fields
                    && next[i + 1].0 is Fields) by {
                    if i < acc.len() - 1 {
                        assert(next[i] == acc[i] && next[i + 1] == acc[i + 1]);
                    } else {
                        assert(next[i] == acc.last());
                    }
                }
                lemma_access_keeps_runs_apart(t, e, p1, next);
            }
        }
    }
}

/// A field name that follows a field name joins its run: an access chain
/// read from any tokens never holds two runs of field names in a row.
pub proof fn law_access_chain_joins_field_names(t: Seq<(Token, Span)>, e: Span, pos: int)
    ensures
        spec_access(t, e, pos, Seq::empty()) matches Ok((r, _)) ==> fields_runs_apart(r),
{
    lemma_access_keeps_runs_apart(t, e, pos, Seq::empty());
}

} // verus!
