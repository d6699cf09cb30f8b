//! Splitting Lisp source text into tokens.
use vstd::prelude::*;
use crate::error::{LispError, Fault};
use crate::numeric::{NumQuery, NumReply, NumAsk, is_backend, answer_number, ask_number};
use crate::text::{chars_of, is_digit, is_white_space, is_whitespace_char, push_char, string_from_chars};
use crate::token::{Token, Lexeme, lexemes};

verus! {

/// The characters that end an identifier: white space and parentheses.
pub open spec fn ends_word(c: char) -> bool {
    is_white_space(c) || c == '(' || c == ')'
}

/// The end of the run of digits and points that starts at `i`.
pub open spec fn number_end(chars: Seq<char>, i: int) -> int
    decreases chars.len() - i,
{
    if 0 <= i < chars.len() && (is_digit(chars[i]) || chars[i] == '.') {
        number_end(chars, i + 1)
    } else {
        i
    }
}

/// The end of the identifier that starts at `i`.
pub open spec fn word_end(chars: Seq<char>, i: int) -> int
    decreases chars.len() - i,
{
    if 0 <= i < chars.len() && !ends_word(chars[i]) {
        word_end(chars, i + 1)
    } else {
        i
    }
}

/// The end of a comment that starts at `i`: the next newline, or the end.
pub open spec fn comment_end(chars: Seq<char>, i: int) -> int
    decreases chars.len() - i,
{
    if 0 <= i < chars.len() && chars[i] != '\n' {
        comment_end(chars, i + 1)
    } else {
        i
    }
}

/// A numeric literal starts at `i`: a digit, or a minus sign before a digit.
pub open spec fn starts_number(chars: Seq<char>, i: int) -> bool {
    is_digit(chars[i]) || (chars[i] == '-' && i + 1 < chars.len() && is_digit(chars[i + 1]))
}

/// The character that an escape `\c` inside a string literal stands for.
pub open spec fn unescape(c: char) -> char {
    if c == 'n' { '\n' } else if c == 't' { '\t' } else if c == 'r' { '\r' } else { c }
}

/// The body of a string literal that starts at `i` (just after its opening
/// quote): its characters, with escapes resolved, and the position just after
/// the closing quote; `None` when the text ends first.
pub open spec fn string_body(chars: Seq<char>, i: int) -> Option<(Seq<char>, int)>
    decreases chars.len() - i,
{
    if i < 0 || i >= chars.len() {
        None
    } else if chars[i] == '"' {
        Some((Seq::empty(), i + 1))
    } else if chars[i] == '\\' {
        if i + 1 >= chars.len() {
            None
        } else {
            match string_body(chars, i + 2) {
                Some((rest, e)) => Some((seq![unescape(chars[i + 1])] + rest, e)),
                None => None,
            }
        }
    } else {
        match string_body(chars, i + 1) {
            Some((rest, e)) => Some((seq![chars[i]] + rest, e)),
            None => None,
        }
    }
}

/// The token that a word spells: a boolean literal, the dot of a dotted pair,
/// or an identifier.
pub open spec fn word_token(w: Seq<char>) -> Lexeme {
    if w == "#t"@ {
        Lexeme::BooleanLiteral(true)
    } else if w == "#f"@ {
        Lexeme::BooleanLiteral(false)
    } else if w == "."@ {
        Lexeme::Dot
    } else {
        Lexeme::Identifier(w)
    }
}

/// `r` with `prefix` in front of its tokens.
pub open spec fn prepend(prefix: Seq<Lexeme>, r: Result<Seq<Lexeme>, Fault>) -> Result<Seq<Lexeme>, Fault> {
    match r {
        Ok(ts) => Ok(prefix + ts),
        Err(e) => Err(e),
    }
}

/// The tokens of `chars` from position `i` on. White space separates tokens;
/// `;` starts a comment up to the end of the line; `(`, `)`, `'`, `` ` ``,
/// `,@` and `,` are tokens of their own; `"` starts a string
/// literal; a digit, or a minus sign before a digit, starts a numeric literal
/// made of digits and points, whose value the backend gives; anything else
/// runs up to white space or a parenthesis and is `#t`, `#f`, `.` or an
/// identifier.
pub open spec fn tokens_from<F: Fn(NumQuery) -> NumReply>(f: F, chars: Seq<char>, i: int) -> Result<Seq<Lexeme>, Fault>
    decreases chars.len() - i,
{
    if i < 0 || i >= chars.len() {
        Ok(Seq::empty())
    } else {
        let c = chars[i];
        if is_white_space(c) {
            tokens_from(f, chars, i + 1)
        } else if c == '(' {
            prepend(seq![Lexeme::LeftParen], tokens_from(f, chars, i + 1))
        } else if c == ')' {
            prepend(seq![Lexeme::RightParen], tokens_from(f, chars, i + 1))
        } else if c == '\'' {
            prepend(seq![Lexeme::Quote], tokens_from(f, chars, i + 1))
        } else if c == '`' {
            prepend(seq![Lexeme::Quasiquote], tokens_from(f, chars, i + 1))
        } else if c == ',' && i + 1 < chars.len() && chars[i + 1] == '@' {
            prepend(seq![Lexeme::UnquoteSplicing], tokens_from(f, chars, i + 2))
        } else if c == ',' {
            prepend(seq![Lexeme::Unquote], tokens_from(f, chars, i + 1))
        } else if c == ';' {
            let e = comment_end(chars, i + 1);
            if e <= i || e > chars.len() {
                Ok(Seq::empty())
            } else {
                tokens_from(f, chars, e)
            }
        } else if c == '"' {
            match string_body(chars, i + 1) {
                None => Err(Fault::SyntaxError("Unterminated string literal"@)),
                Some((s, e)) => if e <= i || e > chars.len() {
                    Ok(Seq::empty())
                } else {
                    prepend(seq![Lexeme::StringLiteral(s)], tokens_from(f, chars, e))
                },
            }
        } else if starts_number(chars, i) {
            let e = number_end(chars, if c == '-' { i + 1 } else { i });
            let text = chars.subrange(i, e);
            if e <= i || e > chars.len() {
                Ok(Seq::empty())
            } else {
                match answer_number(f, NumAsk::Parse(text)) {
                    Some(n) => prepend(seq![Lexeme::NumericLiteral(n)], tokens_from(f, chars, e)),
                    None => Err(Fault::InvalidNumber(text)),
                }
            }
        } else {
            let e = word_end(chars, i);
            if e <= i || e > chars.len() {
                Ok(Seq::empty())
            } else {
                prepend(seq![word_token(chars.subrange(i, e))], tokens_from(f, chars, e))
            }
        }
    }
}

/// The tokens of a whole text.
pub open spec fn tokenize_spec<F: Fn(NumQuery) -> NumReply>(f: F, input: Seq<char>) -> Result<Seq<Lexeme>, Fault> {
    tokens_from(f, input, 0)
}

proof fn lemma_ends(chars: Seq<char>, i: int)
    requires
        0 <= i <= chars.len(),
    ensures
        i <= number_end(chars, i) <= chars.len(),
        i <= word_end(chars, i) <= chars.len(),
        i <= comment_end(chars, i) <= chars.len(),
        string_body(chars, i) matches Some((_, e)) ==> i < e <= chars.len(),
    decreases chars.len() - i,
{
    if i < chars.len() {
        lemma_ends(chars, i + 1);
        if i + 2 <= chars.len() {
            lemma_ends(chars, i + 2);
        }
    }
}

fn number_end_exec(chars: &[char], i: usize) -> (e: usize)
    requires
        i <= chars@.len(),
    ensures
        e == number_end(chars@, i as int),
{
    let mut j = i;
    while j < chars.len() && (('0' <= chars[j] && chars[j] <= '9') || chars[j] == '.')
        invariant
            i <= j <= chars@.len(),
            number_end(chars@, i as int) == number_end(chars@, j as int),
        decreases chars.len() - j,
    {
        j += 1;
    }
    j
}

fn comment_end_exec(chars: &[char], i: usize) -> (e: usize)
    requires
        i <= chars@.len(),
    ensures
        e == comment_end(chars@, i as int),
{
    let mut j = i;
    while j < chars.len() && chars[j] != '\n'
        invariant
            i <= j <= chars@.len(),
            comment_end(chars@, i as int) == comment_end(chars@, j as int),
        decreases chars.len() - j,
    {
        j += 1;
    }
    j
}

fn word_end_exec(chars: &[char], i: usize) -> (e: usize)
    requires
        i <= chars@.len(),
    ensures
        e == word_end(chars@, i as int),
{
    let mut j = i;
    while j < chars.len() && !(is_whitespace_char(chars[j]) || chars[j] == '(' || chars[j] == ')')
        invariant
            i <= j <= chars@.len(),
            word_end(chars@, i as int) == word_end(chars@, j as int),
        decreases chars.len() - j,
    {
        j += 1;
    }
    j
}

fn unescape_exec(c: char) -> (r: char)
    ensures
        r == unescape(c),
{
    if c == 'n' { '\n' } else if c == 't' { '\t' } else if c == 'r' { '\r' } else { c }
}

fn string_body_exec(chars: &[char], i: usize) -> (r: Option<(String, usize)>)
    requires
        i <= chars@.len(),
    ensures
        match r {
            Some((s, e)) => string_body(chars@, i as int) == Some((s@, e as int)),
            None => string_body(chars@, i as int) is None,
        },
{
    let mut content = String::new();
    let mut j = i;
    while j < chars.len()
        invariant
            i <= j <= chars@.len(),
            string_body(chars@, i as int) == match string_body(chars@, j as int) {
                Some((rest, e)) => Some((content@ + rest, e)),
                None => None,
            },
        decreases chars.len() - j,
    {
        let c = chars[j];
        if c == '"' {
            assert(content@ + Seq::<char>::empty() =~= content@);
            return Some((content, j + 1));
        }
        if c == '\\' {
            if j + 1 >= chars.len() {
                return None;
            }
            let ghost before = content@;
            push_char(&mut content, unescape_exec(chars[j + 1]));
            proof {
                match string_body(chars@, j + 2) {
                    Some((rest, e)) => {
                        assert(before + (seq![unescape(chars@[j + 1])] + rest) =~= content@ + rest);
                    },
                    None => {},
                }
            }
            j += 2;
        } else {
            let ghost before = content@;
            push_char(&mut content, c);
            proof {
                match string_body(chars@, j + 1) {
                    Some((rest, e)) => {
                        assert(before + (seq![c] + rest) =~= content@ + rest);
                    },
                    None => {},
                }
            }
            j += 1;
        }
    }
    None
}

fn word_token_exec(w: Vec<char>) -> (t: Token)
    ensures
        t@ == word_token(w@),
{
    let s = string_from_chars(w.as_slice());
    if crate::text::chars_equal(&w, &chars_of("#t")) {
        Token::BooleanLiteral(true)
    } else if crate::text::chars_equal(&w, &chars_of("#f")) {
        Token::BooleanLiteral(false)
    } else if crate::text::chars_equal(&w, &chars_of(".")) {
        Token::Dot
    } else {
        Token::Identifier(s)
    }
}

fn copy_range(s: &[char], lo: usize, hi: usize) -> (r: Vec<char>)
    requires
        lo <= hi <= s@.len(),
    ensures
        r@ == s@.subrange(lo as int, hi as int),
{
    let mut r: Vec<char> = Vec::new();
    let mut k = lo;
    while k < hi
        invariant
            lo <= k <= hi <= s@.len(),
            r@ == s@.subrange(lo as int, k as int),
        decreases hi - k,
    {
        r.push(s[k]);
        assert(s@.subrange(lo as int, k + 1) =~= s@.subrange(lo as int, k as int).push(s@[k as int]));
        k += 1;
    }
    r
}

/// Splits Lisp source text into tokens.
pub fn tokenize<F: Fn(NumQuery) -> NumReply>(input: &str, f: &F) -> (r: Result<Vec<Token>, LispError>)
    requires
        is_backend(*f),
    ensures
        match r {
            Ok(ts) => tokenize_spec(*f, input@) == Ok::<Seq<Lexeme>, Fault>(lexemes(ts@)),
            Err(e) => tokenize_spec(*f, input@) == Err::<Seq<Lexeme>, Fault>(e@),
        },
{
    let chars = chars_of(input);
    let n = chars.len();
    let mut tokens: Vec<Token> = Vec::new();
    let mut i: usize = 0;
    while i < n
        invariant
            n == chars@.len(),
            chars@ == input@,
            i <= n,
            is_backend(*f),
            tokens_from(*f, chars@, 0) == prepend(lexemes(tokens@), tokens_from(*f, chars@, i as int)),
        decreases n - i,
    {
        let ghost gi = i as int;
        let ghost prefix = lexemes(tokens@);
        proof {
            lemma_ends(chars@, i as int);
            lemma_ends(chars@, i + 1);
        }
        let c = chars[i];
        let next: usize;
        if is_whitespace_char(c) {
            i += 1;
            continue;
        } else if c == ';' {
            i = comment_end_exec(chars.as_slice(), i + 1);
            continue;
        } else if c == ',' && i + 1 < n && chars[i + 1] == '@' {
            tokens.push(Token::UnquoteSplicing);
            next = i + 2;
        } else if c == '(' || c == ')' || c == '\'' || c == '`' || c == ',' {
            let t = if c == '(' {
                Token::LeftParen
            } else if c == ')' {
                Token::RightParen
            } else if c == '\'' {
                Token::Quote
            } else if c == '`' {
                Token::Quasiquote
            } else {
                Token::Unquote
            };
            tokens.push(t);
            next = i + 1;
        } else if c == '"' {
            match string_body_exec(chars.as_slice(), i + 1) {
                None => {
                    return Err(crate::error::syntax_error("Unterminated string literal"));
                },
                Some((s, e)) => {
                    tokens.push(Token::StringLiteral(s));
                    next = e;
                },
            }
        } else if ('0' <= c && c <= '9') || (c == '-' && i + 1 < n && '0' <= chars[i + 1] && chars[i + 1] <= '9') {
            let start = if c == '-' { i + 1 } else { i };
            let e = number_end_exec(chars.as_slice(), start);
            proof {
                lemma_ends(chars@, start as int);
            }
            let text = copy_range(chars.as_slice(), i, e);
            let text_string = string_from_chars(text.as_slice());
            match ask_number(f, NumQuery::Parse(text_string)) {
                Some(num) => {
                    tokens.push(Token::NumericLiteral(num));
                    next = e;
                },
                None => {
                    return Err(LispError::InvalidNumber(string_from_chars(text.as_slice())));
                },
            }
        } else {
            let e = word_end_exec(chars.as_slice(), i);
            let w = copy_range(chars.as_slice(), i, e);
            tokens.push(word_token_exec(w));
            next = e;
        }
        proof {
            let t = tokens@.last()@;
            assert(lexemes(tokens@) =~= prefix.push(t));
            assert(tokens_from(*f, chars@, gi) == prepend(seq![t], tokens_from(*f, chars@, next as int)));
            match tokens_from(*f, chars@, next as int) {
                Ok(ts) => {
                    assert(prefix + (seq![t] + ts) =~= prefix.push(t) + ts);
                },
                Err(_) => {},
            }
        }
        i = next;
    }
    assert(lexemes(tokens@) + Seq::<Lexeme>::empty() =~= lexemes(tokens@));
    Ok(tokens)
}

} // verus!
