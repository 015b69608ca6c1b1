//! The parser's state, a sequence of tokens and a position in it, and the
//! primitive steps that the value-expression parser is built from.

use vstd::prelude::*;

use crate::ast::Identifier;
use crate::syntax::{Span, Spanned};

use super::grammar::{end_error, expected_error, is_at, name_view, spec_identifier, spec_take};
use super::token::{copy_token, is_plain, is_token, Expectation, ParseError, Token};

verus! {

/// A parser over a sequence of tokens, each with its span, and the span
/// that stands for the end of the input.
pub struct Parser {
    pub(crate) tokens: Vec<(Token, Span)>,
    pub(crate) pos: usize,
    pub(crate) end: Span,
}

/// The parser `new` read on from where `old` stood, over the same input.
pub open spec fn moved_on(old: Parser, new: Parser) -> bool {
    &&& new.toks() == old.toks()
    &&& new.end() == old.end()
    &&& new.wf()
    &&& old.at() <= new.at()
}

impl Parser {
    /// The tokens, each with its span.
    pub closed spec fn toks(&self) -> Seq<(Token, Span)> {
        self.tokens@
    }

    /// The position of the next token to be read.
    pub closed spec fn at(&self) -> int {
        self.pos as int
    }

    /// The span reported where the tokens run out.
    pub closed spec fn end(&self) -> Span {
        self.end
    }

    pub open spec fn wf(&self) -> bool {
        &&& 0 <= self.at() <= self.toks().len()
    }

    /// How many tokens are left to read.
    pub open spec fn remaining(&self) -> int {
        self.toks().len() - self.at()
    }

    /// A parser at the first of the given tokens.
    pub fn new(tokens: Vec<(Token, Span)>, end: Span) -> (res: Parser)
        ensures
            res.toks() == tokens@,
            res.at() == 0,
            res.end() == end,
            res.wf(),
    {
        Parser { tokens, pos: 0, end }
    }

    /// The token at the current position, if any.
    pub fn peek(&self) -> (res: Option<&Token>)
        requires
            self.wf(),
        ensures
            match res {
                Some(t) => self.at() < self.toks().len() && *t == self.toks()[self.at()].0,
                None => self.at() == self.toks().len(),
            },
    {
        if self.pos < self.tokens.len() {
            Some(&self.tokens[self.pos].0)
        } else {
            None
        }
    }

    /// Whether the token at the current position is `k`.
    pub fn peek_is(&self, k: Token) -> (res: bool)
        requires
            self.wf(),
            is_plain(k),
        ensures
            res == is_at(self.toks(), self.at(), k),
    {
        self.pos < self.tokens.len() && is_token(&self.tokens[self.pos].0, &k)
    }

    /// Reads the next token and its span.
    pub fn next(&mut self) -> (res: Result<(Token, Span), ParseError>)
        requires
            old(self).wf(),
        ensures
            moved_on(*old(self), *final(self)),
            if old(self).at() < old(self).toks().len() {
                &&& res matches Ok(r)
                &&& r == old(self).toks()[old(self).at()]
                &&& final(self).at() == old(self).at() + 1
            } else {
                &&& res == Err::<(Token, Span), ParseError>(end_error(old(self).end()))
                &&& final(self).at() == old(self).at()
            },
    {
        if self.pos < self.tokens.len() {
            let t = copy_token(&self.tokens[self.pos].0);
            let s = self.tokens[self.pos].1;
            self.pos = self.pos + 1;
            Ok((t, s))
        } else {
            Err(ParseError { kind: super::token::ParseErrorKind::EndOfInput, location: self.end })
        }
    }

    /// Reads the next token if it is `k`, and says whether it did.
    pub fn next_is(&mut self, k: Token) -> (res: bool)
        requires
            old(self).wf(),
            is_plain(k),
        ensures
            moved_on(*old(self), *final(self)),
            res == is_at(old(self).toks(), old(self).at(), k),
            final(self).at() == if res {
                old(self).at() + 1
            } else {
                old(self).at()
            },
    {
        if self.peek_is(k) {
            assert(self.pos < self.tokens.len());
            self.pos = self.pos + 1;
            true
        } else {
            false
        }
    }

    /// Reads the token `k`, and gives its span.
    pub fn take(&mut self, k: Token) -> (res: Result<Span, ParseError>)
        requires
            old(self).wf(),
            is_plain(k),
        ensures
            moved_on(*old(self), *final(self)),
            match spec_take(old(self).toks(), old(self).end(), old(self).at(), k) {
                Ok((sp, p)) => res == Ok::<Span, ParseError>(sp) && final(self).at() == p,
                Err(err) => res == Err::<Span, ParseError>(err),
            },
    {
        match self.next() {
            Ok((t, s)) => if is_token(&t, &k) {
                Ok(s)
            } else {
                Err(
                    ParseError {
                        kind: super::token::ParseErrorKind::Expected {
                            expected: Expectation::Token(k),
                            got: t,
                        },
                        location: s,
                    },
                )
            },
            Err(e) => Err(e),
        }
    }

    /// Reads an identifier.
    pub fn identifier(&mut self) -> (res: Result<Spanned<Identifier>, ParseError>)
        requires
            old(self).wf(),
        ensures
            moved_on(*old(self), *final(self)),
            match spec_identifier(old(self).toks(), old(self).end(), old(self).at()) {
                Ok((n, p)) => res matches Ok(id) && name_view(id) == n && final(self).at() == p,
                Err(err) => res == Err::<Spanned<Identifier>, ParseError>(err),
            },
    {
        match self.next() {
            Ok((Token::Ident(s), span)) => Ok(Spanned { inner: Identifier(s), span }),
            Ok((t, span)) => Err(
                ParseError {
                    kind: super::token::ParseErrorKind::Expected {
                        expected: Expectation::Identifier,
                        got: t,
                    },
                    location: span,
                },
            ),
            Err(e) => Err(e),
        }
    }
}

} // verus!
