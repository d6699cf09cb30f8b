//! The tokens of Lisp source text.
use vstd::prelude::*;
use crate::numeric::{Number, NumQuery, NumReply, is_backend, answer_text, ask_text, NumAsk};
use crate::text::push_str;

verus! {

/// A token of Lisp source text.
#[derive(Debug)]
pub enum Token {
    LeftParen,
    RightParen,
    Quote,
    Quasiquote,
    Unquote,
    UnquoteSplicing,
    Dot,
    BooleanLiteral(bool),
    NumericLiteral(Number),
    StringLiteral(String),
    Identifier(String),
}

/// The content of a [`Token`], with its text as characters.
pub enum Lexeme {
    LeftParen,
    RightParen,
    Quote,
    Quasiquote,
    Unquote,
    UnquoteSplicing,
    Dot,
    BooleanLiteral(bool),
    NumericLiteral(Number),
    StringLiteral(Seq<char>),
    Identifier(Seq<char>),
}

impl View for Token {
    type V = Lexeme;

    open spec fn view(&self) -> Lexeme {
        match self {
            Token::LeftParen => Lexeme::LeftParen,
            Token::RightParen => Lexeme::RightParen,
            Token::Quote => Lexeme::Quote,
            Token::Quasiquote => Lexeme::Quasiquote,
            Token::Unquote => Lexeme::Unquote,
            Token::UnquoteSplicing => Lexeme::UnquoteSplicing,
            Token::Dot => Lexeme::Dot,
            Token::BooleanLiteral(b) => Lexeme::BooleanLiteral(*b),
            Token::NumericLiteral(n) => Lexeme::NumericLiteral(*n),
            Token::StringLiteral(s) => Lexeme::StringLiteral(s@),
            Token::Identifier(s) => Lexeme::Identifier(s@),
        }
    }
}

/// The contents of a sequence of tokens.
pub open spec fn lexemes(ts: Seq<Token>) -> Seq<Lexeme> {
    ts.map_values(|t: Token| t@)
}

/// A string as `{:?}` writes it: in double quotes, with the escapes of the
/// standard library's `Debug` for `str`.
pub uninterp spec fn debug_quoted(s: Seq<char>) -> Seq<char>;

/// Whether every character is printable ASCII other than `"` and `\\`: the
/// characters that `{:?}` writes unescaped.
pub open spec fn plain_ascii(s: Seq<char>) -> bool {
    forall|i: int| 0 <= i < s.len() ==> ' ' <= #[trigger] s[i] <= '~' && s[i] != '"' && s[i] != '\\'
}

/// Writes a string as `{:?}` does, through the standard library's `Debug`
/// implementation for `str`. Trusted, not proved: the contract names the
/// result as a function of the string's characters, and says that a string
/// of printable ASCII without `"` or `\\` is written in double quotes as it
/// is; which escape the other characters get is left unsaid.
#[verifier::external_body]
pub(crate) fn debug_string(text: &str) -> (r: String)
    ensures
        r@ == debug_quoted(text@),
        plain_ascii(text@) ==> r@ == seq!['"'] + text@ + seq!['"'],
{
    format!("{:?}", text)
}

/// Appends a string in the form `{:?}` writes it.
pub fn push_quoted(s: &mut String, text: &str)
    ensures
        final(s)@ == old(s)@ + debug_quoted(text@),
        plain_ascii(text@) ==> debug_quoted(text@) == seq!['"'] + text@ + seq!['"'],
{
    let q = debug_string(text);
    push_str(s, q.as_str());
}

/// How a token is written in messages.
pub open spec fn token_text<F: Fn(NumQuery) -> NumReply>(f: F, t: Lexeme) -> Seq<char> {
    match t {
        Lexeme::LeftParen => "(LEFT_PAREN)"@,
        Lexeme::RightParen => "(RIGHT_PAREN)"@,
        Lexeme::Quote => "(QUOTE)"@,
        Lexeme::Quasiquote => "(QUASIQUOTE)"@,
        Lexeme::Unquote => "(UNQUOTE)"@,
        Lexeme::UnquoteSplicing => "(UNQUOTE_SPLICING)"@,
        Lexeme::Dot => "(DOT)"@,
        Lexeme::BooleanLiteral(b) => "(BOOLEAN_LITERAL "@ + (if b { "true"@ } else { "false"@ }) + ")"@,
        Lexeme::NumericLiteral(n) => "(NUMERIC_LITERAL "@ + answer_text(f, NumAsk::ShowFixed(n)) + ")"@,
        Lexeme::StringLiteral(s) => "(STRING_LITERAL "@ + debug_quoted(s) + ")"@,
        Lexeme::Identifier(s) => "(IDENTIFIER "@ + s + ")"@,
    }
}

impl Token {
    /// The text of this token in messages, such as `(LEFT_PAREN)`.
    pub fn describe<F: Fn(NumQuery) -> NumReply>(&self, f: &F) -> (s: String)
        requires
            is_backend(*f),
        ensures
            s@ == token_text(*f, self@),
    {
        let mut s = String::new();
        match self {
            Token::LeftParen => push_str(&mut s, "(LEFT_PAREN)"),
            Token::RightParen => push_str(&mut s, "(RIGHT_PAREN)"),
            Token::Quote => push_str(&mut s, "(QUOTE)"),
            Token::Quasiquote => push_str(&mut s, "(QUASIQUOTE)"),
            Token::Unquote => push_str(&mut s, "(UNQUOTE)"),
            Token::UnquoteSplicing => push_str(&mut s, "(UNQUOTE_SPLICING)"),
            Token::Dot => push_str(&mut s, "(DOT)"),
            Token::BooleanLiteral(b) => {
                push_str(&mut s, "(BOOLEAN_LITERAL ");
                if *b {
                    push_str(&mut s, "true");
                } else {
                    push_str(&mut s, "false");
                }
                push_str(&mut s, ")");
            },
            Token::NumericLiteral(n) => {
                push_str(&mut s, "(NUMERIC_LITERAL ");
                let t = ask_text(f, NumQuery::ShowFixed(*n));
                push_str(&mut s, t.as_str());
                push_str(&mut s, ")");
            },
            Token::StringLiteral(text) => {
                push_str(&mut s, "(STRING_LITERAL ");
                push_quoted(&mut s, text.as_str());
                push_str(&mut s, ")");
            },
            Token::Identifier(name) => {
                push_str(&mut s, "(IDENTIFIER ");
                push_str(&mut s, name.as_str());
                push_str(&mut s, ")");
            },
        }
        s
    }
}

} // verus!
