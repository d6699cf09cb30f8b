//! Reading values from tokens.
use vstd::prelude::*;
use std::rc::Rc;
use crate::error::{LispError, Fault};
use crate::numeric::{NumQuery, NumReply, is_backend};
use crate::text::{push_str, string_from};
use crate::token::{Token, Lexeme, lexemes, token_text};
use crate::value::{Value, Datum, make_list};

verus! {

/// A reader of values from a sequence of tokens.
pub struct Parser {
    tokens: Vec<Token>,
    pos: usize,
}

/// The list `(name e)`, which is what `'e`, `` `e``, `,e` and `,@e` read as.
pub open spec fn wrapped(name: Seq<char>, e: Datum) -> Datum {
    make_list(seq![Datum::Symbol(name), e])
}

/// Reads one value from the tokens at position `p`: the value and the
/// position after it. Literals and identifiers read as themselves, `(` starts
/// a list, and a quote, quasiquote, unquote or unquote-splicing mark wraps the
/// value after it.
pub open spec fn parse_at<F: Fn(NumQuery) -> NumReply>(f: F, ts: Seq<Lexeme>, p: int) -> Result<(Datum, int), Fault>
    decreases ts.len() - p, 0nat,
{
    if p < 0 || p >= ts.len() {
        Err(Fault::SyntaxError("Unexpected end of input"@))
    } else {
        match ts[p] {
            Lexeme::BooleanLiteral(b) => Ok((Datum::Boolean(b), p + 1)),
            Lexeme::NumericLiteral(n) => Ok((Datum::Numeric(n), p + 1)),
            Lexeme::StringLiteral(s) => Ok((Datum::Str(s), p + 1)),
            Lexeme::Identifier(s) => Ok((Datum::Symbol(s), p + 1)),
            Lexeme::LeftParen => parse_tails_at(f, ts, p + 1),
            Lexeme::Quote => match parse_at(f, ts, p + 1) {
                Ok((e, q)) => Ok((wrapped("quote"@, e), q)),
                Err(x) => Err(x),
            },
            Lexeme::Quasiquote => match parse_at(f, ts, p + 1) {
                Ok((e, q)) => Ok((wrapped("quasiquote"@, e), q)),
                Err(x) => Err(x),
            },
            Lexeme::Unquote => match parse_at(f, ts, p + 1) {
                Ok((e, q)) => Ok((wrapped("unquote"@, e), q)),
                Err(x) => Err(x),
            },
            Lexeme::UnquoteSplicing => match parse_at(f, ts, p + 1) {
                Ok((e, q)) => Ok((wrapped("unquote-splicing"@, e), q)),
                Err(x) => Err(x),
            },
            _ => Err(Fault::SyntaxError("Unexpected token: "@ + token_text(f, ts[p]))),
        }
    }
}

/// Reads the rest of a list whose `(` has been read: `)` ends it, and
/// `a . b )` makes a dotted pair.
pub open spec fn parse_tails_at<F: Fn(NumQuery) -> NumReply>(f: F, ts: Seq<Lexeme>, p: int) -> Result<(Datum, int), Fault>
    decreases ts.len() - p, 1nat,
{
    if 0 <= p < ts.len() && ts[p] is RightParen {
        Ok((Datum::Nil, p + 1))
    } else {
        match parse_at(f, ts, p) {
            Err(x) => Err(x),
            Ok((car, q)) => if q <= p || q > ts.len() {
                Err(Fault::SyntaxError("Unexpected end of input"@))
            } else if q < ts.len() && ts[q] is Dot {
                match parse_at(f, ts, q + 1) {
                    Err(x) => Err(x),
                    Ok((cdr, r)) => if r >= ts.len() || r < 0 {
                        Err(Fault::SyntaxError("Unexpected end of input"@))
                    } else if ts[r] is RightParen {
                        Ok((Datum::Pair(Box::new(car), Box::new(cdr)), r + 1))
                    } else {
                        Err(Fault::SyntaxError("Expected ')', got "@ + token_text(f, ts[r])))
                    },
                }
            } else {
                match parse_tails_at(f, ts, q) {
                    Err(x) => Err(x),
                    Ok((cdr, r)) => Ok((Datum::Pair(Box::new(car), Box::new(cdr)), r)),
                }
            },
        }
    }
}

/// Reading consumes at least one token and stays within the tokens.
pub proof fn lemma_parse_advances<F: Fn(NumQuery) -> NumReply>(f: F, ts: Seq<Lexeme>, p: int)
    requires
        0 <= p,
    ensures
        parse_at(f, ts, p) matches Ok((_, q)) ==> p < q <= ts.len(),
        parse_tails_at(f, ts, p) matches Ok((_, q)) ==> p < q <= ts.len(),
    decreases ts.len() - p,
{
    if p < ts.len() {
        lemma_parse_advances(f, ts, p + 1);
        if let Ok((_, q)) = parse_at(f, ts, p) {
            if q < ts.len() {
                lemma_parse_advances(f, ts, q);
                lemma_parse_advances(f, ts, q + 1);
            }
        }
    }
}

/// The result of reading, as a result over contents.
pub open spec fn read_outcome(r: Result<Value, LispError>) -> Result<Datum, Fault> {
    match r {
        Ok(v) => Ok(v@),
        Err(e) => Err(e@),
    }
}

impl Parser {
    /// A reader positioned at the first token.
    pub fn new(tokens: Vec<Token>) -> (p: Parser)
        ensures
            p.tokens_spec() == lexemes(tokens@),
            p.pos_spec() == 0,
    {
        Parser { tokens, pos: 0 }
    }

    /// The tokens being read.
    pub closed spec fn tokens_spec(&self) -> Seq<Lexeme> {
        lexemes(self.tokens@)
    }

    /// How many tokens have been read.
    pub closed spec fn pos_spec(&self) -> int {
        self.pos as int
    }

    /// Whether tokens remain to be read.
    pub fn has_tokens(&self) -> (r: bool)
        ensures
            r == (self.pos_spec() < self.tokens_spec().len()),
    {
        self.pos < self.tokens.len()
    }

    fn make_wrapped(name: &str, e: Value) -> (r: Value)
        ensures
            r@ == wrapped(name@, e@),
    {
        let ghost ed = e@;
        let nil = Rc::new(Value::Nil);
        assert(nil@ == Datum::Nil);
        let inner = Value::Pair(Rc::new(e), nil);
        assert(inner@ == Datum::Pair(Box::new(ed), Box::new(Datum::Nil)));
        let head = Rc::new(Value::Symbol(string_from(name)));
        assert(head@ == Datum::Symbol(name@));
        let r = Value::Pair(head, Rc::new(inner));
        assert(r@ == Datum::Pair(Box::new(Datum::Symbol(name@)), Box::new(inner@)));
        proof {
            let items = seq![Datum::Symbol(name@), ed];
            assert(items.skip(1) =~= seq![ed]);
            assert(seq![ed].skip(1) =~= Seq::<Datum>::empty());
            assert(make_list(Seq::<Datum>::empty()) == Datum::Nil);
            assert(make_list(seq![ed]) == Datum::Pair(Box::new(ed), Box::new(Datum::Nil)));
        }
        r
    }

    /// Reads one value.
    pub fn parse<F: Fn(NumQuery) -> NumReply>(&mut self, f: &F) -> (r: Result<Value, LispError>)
        requires
            is_backend(*f),
            old(self).pos_spec() <= old(self).tokens_spec().len(),
        ensures
            final(self).tokens_spec() == old(self).tokens_spec(),
            final(self).pos_spec() <= final(self).tokens_spec().len(),
            match r {
                Ok(v) => parse_at(*f, old(self).tokens_spec(), old(self).pos_spec()) == Ok::<(Datum, int), Fault>((v@, final(self).pos_spec())),
                Err(e) => parse_at(*f, old(self).tokens_spec(), old(self).pos_spec()) == Err::<(Datum, int), Fault>(e@),
            },
        decreases old(self).tokens_spec().len() - old(self).pos_spec(), 0nat,
    {
        let ghost ts = self.tokens_spec();
        let ghost p = self.pos as int;
        if self.pos >= self.tokens.len() {
            return Err(crate::error::syntax_error("Unexpected end of input"));
        }
        let i = self.pos;
        proof {
            lemma_parse_advances(*f, ts, p + 1);
        }
        match &self.tokens[i] {
            Token::BooleanLiteral(b) => {
                let b = *b;
                self.pos = i + 1;
                Ok(Value::Boolean(b))
            },
            Token::NumericLiteral(n) => {
                let n = *n;
                self.pos = i + 1;
                Ok(Value::Numeric(n))
            },
            Token::StringLiteral(s) => {
                let s = string_from(s.as_str());
                self.pos = i + 1;
                Ok(Value::String(s))
            },
            Token::Identifier(s) => {
                let s = string_from(s.as_str());
                self.pos = i + 1;
                Ok(Value::Symbol(s))
            },
            Token::LeftParen => {
                self.pos = i + 1;
                self.parse_tails(f)
            },
            Token::Quote => {
                self.pos = i + 1;
                let e = self.parse(f)?;
                Ok(Self::make_wrapped("quote", e))
            },
            Token::Quasiquote => {
                self.pos = i + 1;
                let e = self.parse(f)?;
                Ok(Self::make_wrapped("quasiquote", e))
            },
            Token::Unquote => {
                self.pos = i + 1;
                let e = self.parse(f)?;
                Ok(Self::make_wrapped("unquote", e))
            },
            Token::UnquoteSplicing => {
                self.pos = i + 1;
                let e = self.parse(f)?;
                Ok(Self::make_wrapped("unquote-splicing", e))
            },
            other => {
                let mut msg = string_from("Unexpected token: ");
                let d = other.describe(f);
                push_str(&mut msg, d.as_str());
                self.pos = i + 1;
                Err(LispError::SyntaxError(msg))
            },
        }
    }

    /// Reads the rest of a list whose `(` has been read.
    pub fn parse_tails<F: Fn(NumQuery) -> NumReply>(&mut self, f: &F) -> (r: Result<Value, LispError>)
        requires
            is_backend(*f),
            old(self).pos_spec() <= old(self).tokens_spec().len(),
        ensures
            final(self).tokens_spec() == old(self).tokens_spec(),
            final(self).pos_spec() <= final(self).tokens_spec().len(),
            match r {
                Ok(v) => parse_tails_at(*f, old(self).tokens_spec(), old(self).pos_spec()) == Ok::<(Datum, int), Fault>((v@, final(self).pos_spec())),
                Err(e) => parse_tails_at(*f, old(self).tokens_spec(), old(self).pos_spec()) == Err::<(Datum, int), Fault>(e@),
            },
        decreases old(self).tokens_spec().len() - old(self).pos_spec(), 1nat,
    {
        let ghost ts = self.tokens_spec();
        let ghost p = self.pos as int;
        if self.pos < self.tokens.len() {
            if let Token::RightParen = &self.tokens[self.pos] {
                self.pos = self.pos + 1;
                return Ok(Value::Nil);
            }
        }
        let car = self.parse(f)?;
        let q = self.pos;
        proof {
            lemma_parse_advances(*f, ts, p);
        }
        let mut dotted = false;
        if q < self.tokens.len() {
            if let Token::Dot = &self.tokens[q] {
                dotted = true;
            }
        }
        if dotted {
            self.pos = q + 1;
            let cdr = self.parse(f)?;
            let r = self.pos;
            if r >= self.tokens.len() {
                return Err(crate::error::syntax_error("Unexpected end of input"));
            }
            if let Token::RightParen = &self.tokens[r] {
                self.pos = r + 1;
                return Ok(Value::Pair(Rc::new(car), Rc::new(cdr)));
            }
            let mut msg = string_from("Expected ')', got ");
            let d = self.tokens[r].describe(f);
            push_str(&mut msg, d.as_str());
            self.pos = r + 1;
            return Err(LispError::SyntaxError(msg));
        }
        let cdr = self.parse_tails(f)?;
        Ok(Value::Pair(Rc::new(car), Rc::new(cdr)))
    }
}

} // verus!
