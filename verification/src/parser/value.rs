//! Parsing value expressions: literals, prefixes and prefix matches,
//! records, lists, method calls and access chains. Each method reads what
//! the grammar of `grammar.rs` reads at the parser's position.

use vstd::prelude::*;

use crate::ast::{Identifier, IpAddress};
use crate::syntax::{
    merge_spans, AccessExpr, AccessReceiver, AnonymousRecordValueExpr, ArgExprList, ComputeExpr,
    FieldAccessExpr, ListValueExpr, LiteralAccessExpr, LiteralExpr, MethodComputeExpr, Prefix,
    PrefixLength, PrefixLengthRange, PrefixMatchExpr, PrefixMatchType, Span, Spanned,
    TypeIdentifier, TypedRecordValueExpr, ValueExpr,
};
use crate::text::to_owned_string;

use super::community::{community_literal, read_community_token, CommunityValue};
use super::grammar::{
    accesses_view, chain_span, expected_error, fields_view, invalid_error, ip_view, lit_view,
    match_view, spec_access, spec_field, spec_ip_address, spec_literal, spec_match_type,
    spec_prefix_length, spec_prefix_length_range, spec_record, spec_simple_literal,
    spec_value_expr, spec_values, spec_values_rest, spec_fields_rest, value_view, values_view,
    name_view, names_view, lemma_values_view_push, lemma_fields_view_push,
    lemma_accesses_view_push, lemma_access_joins_run, lemma_access_starts_run, spec_take, spec_identifier, unsupported_error, chars_in_two_bytes, access_view, AccessView, MatchView, NameView, ValueView,
};
use super::ipv6::read_ipv6;
use super::number::{read_i64, read_unsigned};
use super::reader::{moved_on, Parser};
use super::split::{chars_of, read_ipv4};
use super::token::{copy_token, is_ascii, is_plain, Expectation, LiteralKind, ParseError, ParseErrorKind, Token};

verus! {

/// The error for a literal token whose text cannot be read.
fn invalid_literal(kind: LiteralKind, token: Token, location: Span) -> (res: ParseError)
    ensures
        res == invalid_error(kind, token, location),
{
    ParseError { kind: ParseErrorKind::InvalidLiteral { kind, token }, location }
}

/// The error for a token this parser does not read.
fn unsupported(token: Token, location: Span) -> (res: ParseError)
    ensures
        res == unsupported_error(token, location),
{
    ParseError { kind: ParseErrorKind::Unsupported { token }, location }
}

/// Whether a character takes one byte in UTF-8.
fn char_is_ascii(c: char) -> (res: bool)
    ensures
        res == is_ascii(c),
{
    (c as u32) < 128
}

/// The number of characters that the first two bytes of a text hold, where
/// the text can be cut after its second byte.
fn chars_before_byte_two(s: &str) -> (res: Option<usize>)
    ensures
        match chars_in_two_bytes(s@) {
            Some(k) => res == Some(k as usize) && 0 <= k <= s@.len(),
            None => res is None,
        },
{
    let n = s.unicode_len();
    if n >= 1 {
        let c = s.get_char(0) as u32;
        if c >= 0x80 && c < 0x800 {
            return Some(1);
        }
    }
    if n >= 2 && char_is_ascii(s.get_char(0)) && char_is_ascii(s.get_char(1)) {
        Some(2)
    } else {
        None
    }
}

/// The error for a token that is not the one expected.
fn unexpected(expected: Expectation, got: Token, location: Span) -> (res: ParseError)
    ensures
        res == expected_error(expected, got, location),
{
    ParseError { kind: ParseErrorKind::Expected { expected, got }, location }
}

/// The view of an optional prefix match type.
pub open spec fn opt_match_view(m: Option<PrefixMatchType>) -> Option<MatchView> {
    match m {
        Some(x) => Some(match_view(x)),
        None => None,
    }
}

/// The span after a node with span `first` and the access chain that
/// follows it.
fn chain_end(first: Span, access: &Vec<Spanned<AccessExpr>>) -> (res: Span)
    ensures
        res == chain_span(first, accesses_view(access@)),
{
    let n = access.len();
    if n > 0 {
        first.merge(access[n - 1].span)
    } else {
        first
    }
}

/// Parses the tokens as one value expression from their start.
pub fn parse_value_expr(tokens: Vec<(Token, Span)>, end: Span) -> (res: Result<
    Spanned<ValueExpr>,
    ParseError,
>)
    ensures
        match spec_value_expr(tokens@, end, 0) {
            Ok((v, _)) => res matches Ok(x) && value_view(x.inner) == v.0 && x.span == v.1,
            Err(err) => res matches Err(x) && x == err,
        },
{
    let mut p = Parser::new(tokens, end);
    p.value_expr()
}

impl Parser {
    /// Parses a value expression.
    ///
    /// ```ebnf
    /// ValueExpr ::= '[' ValueExpr* ']'
    ///             | Identifier? Record
    ///             | MethodCall
    ///             | Identifier AccessExpr
    ///             | PrefixMatchExpr
    ///             | Literal AccessExpr
    /// ```
    pub fn value_expr(&mut self) -> (res: Result<Spanned<ValueExpr>, ParseError>)
        requires
            old(self).wf(),
        ensures
            moved_on(*old(self), *final(self)),
            match spec_value_expr(old(self).toks(), old(self).end(), old(self).at()) {
                Ok((v, p)) => res matches Ok(r) && value_view(r.inner) == v.0 && r.span == v.1
                    && final(self).at() == p,
                Err(err) => res matches Err(x) && x == err,
            },
            res is Ok ==> old(self).at() < final(self).at(),
        decreases old(self).remaining(), 1int,
    {
        let ghost t = self.toks();
        let ghost e = self.end();
        let ghost p0 = self.at();
        if self.peek_is(Token::SquareLeft) {
            let values = match self.separated_values(Token::SquareLeft, Token::SquareRight) {
                Ok(v) => v,
                Err(err) => return Err(err),
            };
            let span = values.span;
            return Ok(Spanned { inner: ValueExpr::ListExpr(ListValueExpr { values }), span });
        }
        if self.peek_is(Token::CurlyLeft) {
            let key_values = match self.record() {
                Ok(v) => v,
                Err(err) => return Err(err),
            };
            let span = key_values.span;
            return Ok(
                Spanned {
                    inner: ValueExpr::AnonymousRecordExpr(AnonymousRecordValueExpr { key_values }),
                    span,
                },
            );
        }
        let is_ident = match self.peek() {
            Some(Token::Ident(_)) => true,
            _ => false,
        };
        if is_ident {
            let id = match self.identifier() {
                Ok(id) => id,
                Err(err) => return Err(err),
            };
            if self.peek_is(Token::CurlyLeft) {
                let id_span = id.span;
                let type_id = Spanned { inner: TypeIdentifier { ident: id.inner.0 }, span: id_span };
                let key_values = match self.record() {
                    Ok(v) => v,
                    Err(err) => return Err(err),
                };
                let span = id_span.merge(key_values.span);
                return Ok(
                    Spanned {
                        inner: ValueExpr::TypedRecordExpr(
                            Spanned { inner: TypedRecordValueExpr { type_id, key_values }, span },
                        ),
                        span,
                    },
                );
            }
            if self.peek_is(Token::RoundLeft) {
                let args = match self.arg_expr_list() {
                    Ok(a) => a,
                    Err(err) => return Err(err),
                };
                let span = id.span.merge(args.args.span);
                return Ok(
                    Spanned {
                        inner: ValueExpr::RootMethodCallExpr(MethodComputeExpr { ident: id, args }),
                        span,
                    },
                );
            }
            let id_span = id.span;
            let receiver = AccessReceiver::Ident(id);
            let access_expr = match self.access_expr() {
                Ok(a) => a,
                Err(err) => return Err(err),
            };
            let span = chain_end(id_span, &access_expr);
            return Ok(
                Spanned {
                    inner: ValueExpr::ComputeExpr(
                        Spanned { inner: ComputeExpr { receiver, access_expr }, span },
                    ),
                    span,
                },
            );
        }
        let literal = match self.literal() {
            Ok(l) => l,
            Err(err) => return Err(err),
        };
        let lit_span = literal.span;
        let ghost lit = lit_view(literal.inner);
        // A prefix may be followed by a prefix match; otherwise the literal
        // may start an access chain.
        let literal = match literal.inner {
            LiteralExpr::PrefixLiteral(prefix) => match self.try_prefix_match_type() {
                Err(err) => return Err(err),
                Ok(Some(ty)) => {
                    return Ok(
                        Spanned {
                            inner: ValueExpr::PrefixMatchExpr(PrefixMatchExpr { prefix, ty }),
                            span: lit_span,
                        },
                    );
                },
                Ok(None) => Spanned { inner: LiteralExpr::PrefixLiteral(prefix), span: lit_span },
            },
            other => Spanned { inner: other, span: lit_span },
        };
        assert(lit_view(literal.inner) == lit);
        let access_expr = match self.access_expr() {
            Ok(a) => a,
            Err(err) => return Err(err),
        };
        let span = chain_end(lit_span, &access_expr);
        Ok(
            Spanned {
                inner: ValueExpr::LiteralAccessExpr(
                    Spanned { inner: LiteralAccessExpr { literal, access_expr }, span },
                ),
                span,
            },
        )
    }
}

impl Parser {
    /// Parses a prefix length.
    ///
    /// ```ebnf
    /// PrefixLength ::= '/' Integer
    /// ```
    pub fn prefix_length(&mut self) -> (res: Result<Spanned<PrefixLength>, ParseError>)
        requires
            old(self).wf(),
        ensures
            moved_on(*old(self), *final(self)),
            match spec_prefix_length(old(self).toks(), old(self).end(), old(self).at()) {
                Ok(((l, sp), p)) => res matches Ok(r) && r.inner.0 == l && r.span == sp
                    && final(self).at() == p,
                Err(err) => res matches Err(x) && x == err,
            },
            old(self).at() < old(self).toks().len() ==> final(self).at() == old(self).at() + 1,
    {
        let (token, span) = match self.next() {
            Ok(x) => x,
            Err(err) => return Err(err),
        };
        match token {
            Token::PrefixLength(s) => {
                let n = s.as_str().unicode_len();
                if n < 1 || !char_is_ascii(s.as_str().get_char(0)) {
                    return Err(unsupported(Token::PrefixLength(s), span));
                }
                let digits = s.as_str().substring_char(1, n);
                assert(digits@ =~= s@.skip(1));
                match read_unsigned(digits, 10, 255) {
                    Some(v) => Ok(Spanned { inner: PrefixLength(v as u8), span }),
                    None => Err(
                        invalid_literal(LiteralKind::PrefixLength, Token::PrefixLength(s), span),
                    ),
                }
            },
            other => Err(invalid_literal(LiteralKind::PrefixLength, other, span)),
        }
    }

    /// Parses an IPv4 or IPv6 address.
    pub fn ip_address(&mut self) -> (res: Result<Spanned<IpAddress>, ParseError>)
        requires
            old(self).wf(),
        ensures
            moved_on(*old(self), *final(self)),
            match spec_ip_address(old(self).toks(), old(self).end(), old(self).at()) {
                Ok(((a, sp), p)) => res matches Ok(r) && ip_view(r.inner) == a && r.span == sp
                    && final(self).at() == p,
                Err(err) => res matches Err(x) && x == err,
            },
            old(self).at() < old(self).toks().len() ==> final(self).at() == old(self).at() + 1,
    {
        let (token, span) = match self.next() {
            Ok(x) => x,
            Err(err) => return Err(err),
        };
        match token {
            Token::IpV4(s) => {
                let chars = chars_of(s.as_str());
                match read_ipv4(&chars) {
                    Some(a) => Ok(Spanned { inner: IpAddress::Ipv4(a), span }),
                    None => Err(invalid_literal(LiteralKind::Ipv4Address, Token::IpV4(s), span)),
                }
            },
            Token::IpV6(s) => {
                let chars = chars_of(s.as_str());
                match read_ipv6(&chars) {
                    Some(g) => Ok(Spanned { inner: IpAddress::Ipv6(g), span }),
                    None => Err(invalid_literal(LiteralKind::Ipv6Address, Token::IpV6(s), span)),
                }
            },
            other => Err(unexpected(Expectation::IpAddress, other, span)),
        }
    }

    /// Parses a literal of one token: a string, a decimal or hexadecimal
    /// integer, an AS number, a boolean or a community.
    pub fn simple_literal(&mut self) -> (res: Result<Spanned<LiteralExpr>, ParseError>)
        requires
            old(self).wf(),
        ensures
            moved_on(*old(self), *final(self)),
            match spec_simple_literal(old(self).toks(), old(self).end(), old(self).at()) {
                Ok(((l, sp), p)) => res matches Ok(r) && lit_view(r.inner) == l && r.span == sp
                    && final(self).at() == p,
                Err(err) => res matches Err(x) && x == err,
            },
            old(self).at() < old(self).toks().len() ==> final(self).at() == old(self).at() + 1,
    {
        let (token, span) = match self.next() {
            Ok(x) => x,
            Err(err) => return Err(err),
        };
        let literal = match token {
            Token::String(s) => {
                // The quotes around a string literal are not part of it.
                let n = s.as_str().unicode_len();
                if n < 2 || !char_is_ascii(s.as_str().get_char(0)) || !char_is_ascii(
                    s.as_str().get_char(n - 1),
                ) {
                    return Err(unsupported(Token::String(s), span));
                }
                let trimmed = s.as_str().substring_char(1, n - 1);
                LiteralExpr::StringLiteral(to_owned_string(trimmed))
            },
            Token::Integer(s) => match read_i64(s.as_str()) {
                Some(v) => LiteralExpr::IntegerLiteral(v),
                None => {
                    return Err(invalid_literal(LiteralKind::Integer, Token::Integer(s), span));
                },
            },
            Token::Hex(s) => {
                let k = match chars_before_byte_two(s.as_str()) {
                    Some(k) => k,
                    None => return Err(unsupported(Token::Hex(s), span)),
                };
                let n = s.as_str().unicode_len();
                let digits = s.as_str().substring_char(k, n);
                assert(digits@ =~= s@.skip(k as int));
                match read_unsigned(digits, 16, u64::MAX) {
                    Some(v) => LiteralExpr::HexLiteral(v),
                    None => {
                        return Err(invalid_literal(LiteralKind::HexInteger, Token::Hex(s), span));
                    },
                }
            },
            Token::Asn(s) => {
                let k = match chars_before_byte_two(s.as_str()) {
                    Some(k) => k,
                    None => return Err(unsupported(Token::Asn(s), span)),
                };
                let n = s.as_str().unicode_len();
                let digits = s.as_str().substring_char(k, n);
                assert(digits@ =~= s@.skip(k as int));
                match read_unsigned(digits, 10, 0xffff_ffff) {
                    Some(v) => LiteralExpr::AsnLiteral(v as u32),
                    None => {
                        return Err(invalid_literal(LiteralKind::AsNumber, Token::Asn(s), span));
                    },
                }
            },
            Token::Bool(b) => LiteralExpr::BooleanLiteral(b),
            Token::Community(s) => match read_community_token(s.as_str()) {
                Some(CommunityValue::Ipv6Extended(o)) => {
                    return Err(unsupported(Token::Community(s), span));
                },
                Some(c) => community_literal(c),
                None => {
                    return Err(invalid_literal(LiteralKind::Community, Token::Community(s), span));
                },
            },
            Token::Float => {
                return Err(unsupported(Token::Float, span));
            },
            other => {
                return Err(unexpected(Expectation::Literal, other, span));
            },
        };
        Ok(Spanned { inner: literal, span })
    }

    /// Parses any literal, prefixes and IP addresses among them.
    pub fn literal(&mut self) -> (res: Result<Spanned<LiteralExpr>, ParseError>)
        requires
            old(self).wf(),
        ensures
            moved_on(*old(self), *final(self)),
            match spec_literal(old(self).toks(), old(self).end(), old(self).at()) {
                Ok(((l, sp), p)) => res matches Ok(r) && lit_view(r.inner) == l && r.span == sp
                    && final(self).at() == p,
                Err(err) => res matches Err(x) && x == err,
            },
            res is Ok ==> old(self).at() < final(self).at(),
    {
        // A prefix length takes one token.
        let is_length = match self.peek() {
            Some(Token::PrefixLength(_)) => true,
            _ => false,
        };
        if is_length {
            let len = match self.prefix_length() {
                Ok(l) => l,
                Err(err) => return Err(err),
            };
            return Ok(Spanned { inner: LiteralExpr::PrefixLengthLiteral(len.inner.0), span: len.span });
        }
        // An IP address followed by a prefix length is a prefix.
        let is_address = match self.peek() {
            Some(Token::IpV4(_)) => true,
            Some(Token::IpV6(_)) => true,
            _ => false,
        };
        if is_address {
            let addr = match self.ip_address() {
                Ok(a) => a,
                Err(err) => return Err(err),
            };
            let has_length = match self.peek() {
                Some(Token::PrefixLength(_)) => true,
                _ => false,
            };
            if has_length {
                let len = match self.prefix_length() {
                    Ok(l) => l,
                    Err(err) => return Err(err),
                };
                let span = addr.span.merge(len.span);
                return Ok(Spanned { inner: LiteralExpr::PrefixLiteral(Prefix { addr, len }), span });
            } else {
                return Ok(Spanned { inner: LiteralExpr::IpAddressLiteral(addr.inner), span: addr.span });
            }
        }
        self.simple_literal()
    }

    /// Parses a prefix length range.
    ///
    /// ```ebnf
    /// PrefixLengthRange ::= PrefixLength '-' PrefixLength
    /// ```
    pub fn prefix_length_range(&mut self) -> (res: Result<Spanned<PrefixLengthRange>, ParseError>)
        requires
            old(self).wf(),
        ensures
            moved_on(*old(self), *final(self)),
            match spec_prefix_length_range(old(self).toks(), old(self).end(), old(self).at()) {
                Ok(((a, b, sp), p)) => res matches Ok(r) && r.inner.start.0 == a && r.inner.end.0 == b
                    && r.span == sp && final(self).at() == p,
                Err(err) => res matches Err(x) && x == err,
            },
    {
        let start = match self.prefix_length() {
            Ok(l) => l,
            Err(err) => return Err(err),
        };
        match self.take(Token::Hyphen) {
            Ok(_) => {},
            Err(err) => return Err(err),
        }
        let end = match self.prefix_length() {
            Ok(l) => l,
            Err(err) => return Err(err),
        };
        let span = start.span.merge(end.span);
        Ok(Spanned { inner: PrefixLengthRange { start: start.inner, end: end.inner }, span })
    }

    /// Parses the prefix match type that may follow a prefix; `None` where
    /// no match keyword follows.
    ///
    /// ```ebnf
    /// PrefixMatchType ::= 'exact'
    ///                   | 'longer'
    ///                   | 'orlonger'
    ///                   | 'prefix-length-range' PrefixLengthRange
    ///                   | 'upto' PrefixLength
    ///                   | 'netmask' IpAddress
    /// ```
    pub fn try_prefix_match_type(&mut self) -> (res: Result<Option<PrefixMatchType>, ParseError>)
        requires
            old(self).wf(),
        ensures
            moved_on(*old(self), *final(self)),
            match spec_match_type(old(self).toks(), old(self).end(), old(self).at()) {
                Ok((m, p)) => res matches Ok(r) && opt_match_view(r) == m && final(self).at() == p,
                Err(err) => res matches Err(x) && x == err,
            },
    {
        let match_type = if self.next_is(Token::Exact) {
            PrefixMatchType::Exact
        } else if self.next_is(Token::Longer) {
            PrefixMatchType::Longer
        } else if self.next_is(Token::OrLonger) {
            PrefixMatchType::OrLonger
        } else if self.next_is(Token::PrefixLengthRange) {
            match self.prefix_length_range() {
                Ok(r) => PrefixMatchType::PrefixLengthRange(r.inner),
                Err(err) => return Err(err),
            }
        } else if self.next_is(Token::UpTo) {
            match self.prefix_length() {
                Ok(l) => PrefixMatchType::UpTo(l.inner),
                Err(err) => return Err(err),
            }
        } else if self.next_is(Token::NetMask) {
            match self.ip_address() {
                Ok(a) => PrefixMatchType::NetMask(a.inner),
                Err(err) => return Err(err),
            }
        } else {
            return Ok(None);
        };
        Ok(Some(match_type))
    }
}


/// The result of a bracketed list of values whose opening token has span
/// `start`, once the values up to `pos` have been read.
pub open spec fn values_after(
    t: Seq<(Token, Span)>,
    e: Span,
    pos: int,
    close: Token,
    acc: Seq<(ValueView, Span)>,
    start: Span,
) -> Result<((Seq<(ValueView, Span)>, Span), int), ParseError> {
    match spec_values_rest(t, e, pos, close, acc) {
        Err(err) => Err(err),
        Ok((vs, p3)) => match spec_take(t, e, p3, close) {
            Err(err) => Err(err),
            Ok((endsp, p4)) => Ok(((vs, merge_spans(start, endsp)), p4)),
        },
    }
}

/// The result of a record whose opening bracket has span `start`, once the
/// fields up to `pos` have been read.
pub open spec fn fields_after(
    t: Seq<(Token, Span)>,
    e: Span,
    pos: int,
    acc: Seq<(NameView, (ValueView, Span))>,
    start: Span,
) -> Result<((Seq<(NameView, (ValueView, Span))>, Span), int), ParseError> {
    match spec_fields_rest(t, e, pos, acc) {
        Err(err) => Err(err),
        Ok((fs, p3)) => match spec_take(t, e, p3, Token::CurlyRight) {
            Err(err) => Err(err),
            Ok((endsp, p4)) => Ok(((fs, merge_spans(start, endsp)), p4)),
        },
    }
}

impl Parser {
    /// Parses a bracketed, comma-separated list of value expressions, with
    /// an optional trailing comma.
    pub fn separated_values(&mut self, open: Token, close: Token) -> (res: Result<
        Spanned<Vec<Spanned<ValueExpr>>>,
        ParseError,
    >)
        requires
            old(self).wf(),
            is_plain(open),
            is_plain(close),
            close != Token::Comma,
        ensures
            moved_on(*old(self), *final(self)),
            match spec_values(old(self).toks(), old(self).end(), old(self).at(), open, close) {
                Ok(((vs, sp), p)) => res matches Ok(r) && values_view(r.inner@) == vs && r.span
                    == sp && final(self).at() == p,
                Err(err) => res matches Err(x) && x == err,
            },
            res is Ok ==> old(self).at() < final(self).at(),
        decreases old(self).remaining(), 0int,
    {
        let ghost t = self.toks();
        let ghost e = self.end();
        let ghost p0 = self.at();
        let start = match self.take(copy_token(&open)) {
            Ok(s) => s,
            Err(err) => return Err(err),
        };
        let mut items: Vec<Spanned<ValueExpr>> = Vec::new();
        if self.peek_is(copy_token(&close)) {
            let end = match self.take(copy_token(&close)) {
                Ok(s) => s,
                Err(err) => return Err(err),
            };
            assert(values_view(items@) =~= Seq::empty());
            return Ok(Spanned { inner: items, span: start.merge(end) });
        }
        let first = match self.value_expr() {
            Ok(v) => v,
            Err(err) => return Err(err),
        };
        let ghost p2 = self.at();
        let ghost v0 = (value_view(first.inner), first.span);
        proof {
            lemma_values_view_push(items@, first);
        }
        items.push(first);
        assert(values_view(items@) =~= seq![v0]);
        let ghost whole = spec_values(t, e, p0, open, close);
        assert(whole == values_after(t, e, p2, close, seq![v0], start));
        loop
            invariant
                self.wf(),
                self.toks() == t,
                self.end() == e,
                t == old(self).toks(),
                e == old(self).end(),
                p0 == old(self).at(),
                whole == spec_values(t, e, p0, open, close),
                whole == values_after(t, e, p2, close, seq![v0], start),
                p0 < p2 <= self.at(),
                is_plain(close),
                close != Token::Comma,
                spec_values_rest(t, e, self.at(), close, values_view(items@)) == spec_values_rest(
                    t,
                    e,
                    p2,
                    close,
                    seq![v0],
                ),
            ensures
                self.wf(),
                self.toks() == t,
                self.end() == e,
                p0 < self.at(),
                spec_values_rest(t, e, p2, close, seq![v0]) matches Ok((vs, p)) && vs
                    == values_view(items@) && p == self.at(),
            decreases self.remaining(),
        {
            if !self.next_is(Token::Comma) {
                break;
            }
            if self.peek_is(copy_token(&close)) {
                break;
            }
            let v = match self.value_expr() {
                Ok(v) => v,
                Err(err) => return Err(err),
            };
            proof {
                lemma_values_view_push(items@, v);
            }
            items.push(v);
        }
        let end = match self.take(copy_token(&close)) {
            Ok(s) => s,
            Err(err) => return Err(err),
        };
        Ok(Spanned { inner: items, span: start.merge(end) })
    }

    /// Parses a list of arguments to a method.
    ///
    /// ```ebnf
    /// ArgExprList ::= '(' ( ValueExpr (',' ValueExpr)* ','? )? ')'
    /// ```
    pub fn arg_expr_list(&mut self) -> (res: Result<ArgExprList, ParseError>)
        requires
            old(self).wf(),
        ensures
            moved_on(*old(self), *final(self)),
            match spec_values(
                old(self).toks(),
                old(self).end(),
                old(self).at(),
                Token::RoundLeft,
                Token::RoundRight,
            ) {
                Ok(((vs, sp), p)) => res matches Ok(r) && values_view(r.args.inner@) == vs
                    && r.args.span == sp && final(self).at() == p,
                Err(err) => res matches Err(x) && x == err,
            },
            res is Ok ==> old(self).at() < final(self).at(),
        decreases old(self).remaining(), 1int,
    {
        match self.separated_values(Token::RoundLeft, Token::RoundRight) {
            Ok(args) => Ok(ArgExprList { args }),
            Err(err) => Err(err),
        }
    }

    /// Parses one field of a record, `name: value`.
    fn record_field(&mut self) -> (res: Result<(Spanned<Identifier>, Spanned<ValueExpr>), ParseError>)
        requires
            old(self).wf(),
        ensures
            moved_on(*old(self), *final(self)),
            match spec_field(old(self).toks(), old(self).end(), old(self).at()) {
                Ok(((n, v), p)) => res matches Ok(r) && name_view(r.0) == n && (
                value_view(r.1.inner), r.1.span) == v && final(self).at() == p,
                Err(err) => res matches Err(x) && x == err,
            },
            res is Ok ==> old(self).at() < final(self).at(),
        decreases old(self).remaining(), 2int,
    {
        let key = match self.identifier() {
            Ok(k) => k,
            Err(err) => return Err(err),
        };
        match self.take(Token::Colon) {
            Ok(_) => {},
            Err(err) => return Err(err),
        }
        let value = match self.value_expr() {
            Ok(v) => v,
            Err(err) => return Err(err),
        };
        Ok((key, value))
    }

    /// Parses an (anonymous) record.
    ///
    /// ```ebnf
    /// Record      ::= '{' (RecordField (',' RecordField)* ','? )? '}'
    /// RecordField ::= Identifier ':' ValueExpr
    /// ```
    pub fn record(&mut self) -> (res: Result<
        Spanned<Vec<(Spanned<Identifier>, Spanned<ValueExpr>)>>,
        ParseError,
    >)
        requires
            old(self).wf(),
        ensures
            moved_on(*old(self), *final(self)),
            match spec_record(old(self).toks(), old(self).end(), old(self).at()) {
                Ok(((fs, sp), p)) => res matches Ok(r) && fields_view(r.inner@) == fs && r.span
                    == sp && final(self).at() == p,
                Err(err) => res matches Err(x) && x == err,
            },
            res is Ok ==> old(self).at() < final(self).at(),
        decreases old(self).remaining(), 0int,
    {
        let ghost t = self.toks();
        let ghost e = self.end();
        let ghost p0 = self.at();
        let start = match self.take(Token::CurlyLeft) {
            Ok(s) => s,
            Err(err) => return Err(err),
        };
        let mut items: Vec<(Spanned<Identifier>, Spanned<ValueExpr>)> = Vec::new();
        if self.peek_is(Token::CurlyRight) {
            let end = match self.take(Token::CurlyRight) {
                Ok(s) => s,
                Err(err) => return Err(err),
            };
            assert(fields_view(items@) =~= Seq::empty());
            return Ok(Spanned { inner: items, span: start.merge(end) });
        }
        let first = match self.record_field() {
            Ok(f) => f,
            Err(err) => return Err(err),
        };
        let ghost p2 = self.at();
        let ghost f0 = (name_view(first.0), (value_view(first.1.inner), first.1.span));
        proof {
            lemma_fields_view_push(items@, first);
        }
        items.push(first);
        assert(fields_view(items@) =~= seq![f0]);
        let ghost whole = spec_record(t, e, p0);
        assert(whole == fields_after(t, e, p2, seq![f0], start));
        loop
            invariant
                self.wf(),
                self.toks() == t,
                self.end() == e,
                t == old(self).toks(),
                e == old(self).end(),
                p0 == old(self).at(),
                whole == spec_record(t, e, p0),
                whole == fields_after(t, e, p2, seq![f0], start),
                p0 < p2 <= self.at(),
                spec_fields_rest(t, e, self.at(), fields_view(items@)) == spec_fields_rest(
                    t,
                    e,
                    p2,
                    seq![f0],
                ),
            ensures
                self.wf(),
                self.toks() == t,
                self.end() == e,
                p0 < self.at(),
                spec_fields_rest(t, e, p2, seq![f0]) matches Ok((fs, p)) && fs == fields_view(
                    items@,
                ) && p == self.at(),
            decreases self.remaining(),
        {
            if !self.next_is(Token::Comma) {
                break;
            }
            if self.peek_is(Token::CurlyRight) {
                break;
            }
            let f = match self.record_field() {
                Ok(f) => f,
                Err(err) => return Err(err),
            };
            proof {
                lemma_fields_view_push(items@, f);
            }
            items.push(f);
        }
        let end = match self.take(Token::CurlyRight) {
            Ok(s) => s,
            Err(err) => return Err(err),
        };
        Ok(Spanned { inner: items, span: start.merge(end) })
    }

    /// Parses an access chain; a field name that follows a run of field
    /// names joins that run.
    ///
    /// ```ebnf
    /// AccessExpr ::= ( '.' ( MethodCallExpr | FieldAccessExpr ) )*
    /// ```
    pub fn access_expr(&mut self) -> (res: Result<Vec<Spanned<AccessExpr>>, ParseError>)
        requires
            old(self).wf(),
        ensures
            moved_on(*old(self), *final(self)),
            match spec_access(old(self).toks(), old(self).end(), old(self).at(), Seq::empty()) {
                Ok((acc, p)) => res matches Ok(r) && accesses_view(r@) == acc && final(self).at()
                    == p,
                Err(err) => res matches Err(x) && x == err,
            },
        decreases old(self).remaining(), 2int,
    {
        let ghost t = self.toks();
        let ghost e = self.end();
        let ghost p0 = self.at();
        let mut access_expr: Vec<Spanned<AccessExpr>> = Vec::new();
        assert(accesses_view(access_expr@) =~= Seq::empty());
        loop
            invariant
                self.wf(),
                self.toks() == t,
                self.end() == e,
                t == old(self).toks(),
                e == old(self).end(),
                p0 == old(self).at(),
                p0 <= self.at(),
                spec_access(t, e, self.at(), accesses_view(access_expr@)) == spec_access(
                    t,
                    e,
                    p0,
                    Seq::empty(),
                ),
            ensures
                self.wf(),
                self.toks() == t,
                self.end() == e,
                p0 <= self.at(),
                spec_access(t, e, p0, Seq::empty()) matches Ok((acc, p)) && acc == accesses_view(
                    access_expr@,
                ) && p == self.at(),
            decreases self.remaining(),
        {
            if !self.next_is(Token::Period) {
                break;
            }
            let ghost q = self.at();
            let ident = match self.identifier() {
                Ok(i) => i,
                Err(err) => return Err(err),
            };
            let ghost acc = accesses_view(access_expr@);
            let ghost name = name_view(ident);
            assert(spec_identifier(t, e, q) == Ok::<(NameView, int), ParseError>((name, q + 1)));
            if self.peek_is(Token::RoundLeft) {
                let args = match self.arg_expr_list() {
                    Ok(a) => a,
                    Err(err) => return Err(err),
                };
                let span = ident.span.merge(args.args.span);
                let step = Spanned {
                    inner: AccessExpr::MethodComputeExpr(MethodComputeExpr { ident, args }),
                    span,
                };
                proof {
                    lemma_accesses_view_push(access_expr@, step);
                }
                access_expr.push(step);
                assert(spec_access(t, e, q - 1, acc) == spec_access(t, e, self.at(), accesses_view(access_expr@)));
            } else {
                let span = ident.span;
                let n = access_expr.len();
                let last_is_fields = n > 0 && match &access_expr[n - 1].inner {
                    AccessExpr::FieldAccessExpr(_) => true,
                    _ => false,
                };
                if last_is_fields {
                    let ghost before = access_expr@;
                    let last = access_expr.pop().unwrap();
                    assert(before.drop_last() =~= access_expr@);
                    assert(acc.drop_last() =~= accesses_view(access_expr@));
                    assert(acc.last() == (access_view(last.inner), last.span));
                    assert(last.inner is FieldAccessExpr);
                    let step = match last.inner {
                        AccessExpr::FieldAccessExpr(fa) => {
                            let mut field_names = fa.field_names;
                            let ghost names = field_names@;
                            field_names.push(ident);
                            assert(names_view(field_names@) =~= names_view(names).push(
                                name_view(field_names@.last()),
                            ));
                            Spanned {
                                inner: AccessExpr::FieldAccessExpr(FieldAccessExpr { field_names }),
                                span: last.span.merge(span),
                            }
                        },
                        other => Spanned { inner: other, span: last.span },
                    };
                    proof {
                        lemma_accesses_view_push(access_expr@, step);
                    }
                    access_expr.push(step);
                    assert(accesses_view(access_expr@) == acc.drop_last().push(
                        (
                            AccessView::Fields(acc.last().0->Fields_0.push(name)),
                            merge_spans(acc.last().1, name.1),
                        ),
                    ));
                    proof {
                        lemma_access_joins_run(t, e, q - 1, acc, name);
                    }
                } else {
                    proof {
                        if n > 0 {
                            assert(access_expr@.drop_last().push(access_expr@.last())
                                =~= access_expr@);
                            assert(acc.last() == (
                                access_view(access_expr@[n - 1].inner),
                                access_expr@[n - 1].span,
                            ));
                        }
                    }
                    let mut field_names: Vec<Spanned<Identifier>> = Vec::new();
                    field_names.push(ident);
                    assert(names_view(field_names@) =~= seq![name_view(field_names@[0])]);
                    let step = Spanned {
                        inner: AccessExpr::FieldAccessExpr(FieldAccessExpr { field_names }),
                        span,
                    };
                    proof {
                        lemma_accesses_view_push(access_expr@, step);
                        lemma_access_starts_run(t, e, q - 1, acc, name);
                    }
                    access_expr.push(step);
                }
            }
        }
        Ok(access_expr)
    }
}

} // verus!
