//! Cursor decorations for a Lisp source editor: the extent of the current
//! line, the bracket that matches the one at the cursor, and the division of
//! the source into highlighted runs.
use vstd::prelude::*;
use crate::text::{chars_of, is_digit, is_white_space, is_whitespace_char};

verus! {

/// Extra editor decorations such as current-line and bracket highlights.
#[derive(Clone, Copy, Debug, PartialEq, Eq, Default)]
pub struct EditorDecorations {
    current_line: Option<(usize, usize)>,
    matched_brackets: Option<(usize, usize)>,
}

impl EditorDecorations {
    /// The character range `[start, end)` of the line the cursor is on.
    pub fn current_line(&self) -> (r: Option<(usize, usize)>)
        ensures
            r == self.line_spec(),
    {
        self.current_line
    }

    /// The positions of the bracket at the cursor and of the bracket matching it.
    pub fn matched_brackets(&self) -> (r: Option<(usize, usize)>)
        ensures
            r == self.brackets_spec(),
    {
        self.matched_brackets
    }

    /// The current-line range these decorations hold.
    pub closed spec fn line_spec(self) -> Option<(usize, usize)> {
        self.current_line
    }

    /// The matched bracket pair these decorations hold.
    pub closed spec fn brackets_spec(self) -> Option<(usize, usize)> {
        self.matched_brackets
    }
}

// ---------------------------------------------------------------------------
// The current line
// ---------------------------------------------------------------------------

/// `start` is where the line holding position `pos` begins: no newline lies in
/// `[start, pos)`, and `start` is the beginning of the text or follows a newline.
pub open spec fn is_line_start(chars: Seq<char>, pos: int, start: int) -> bool {
    &&& 0 <= start <= pos
    &&& (start == 0 || chars[start - 1] == '\n')
    &&& forall|k: int| start <= k < pos ==> chars[k] != '\n'
}

/// `end` is where the line holding position `pos` ends: the first newline at
/// or after `pos`, or the end of the text.
pub open spec fn is_line_end(chars: Seq<char>, pos: int, end: int) -> bool {
    &&& pos <= end <= chars.len()
    &&& (end == chars.len() || chars[end] == '\n')
    &&& forall|k: int| pos <= k < end ==> chars[k] != '\n'
}

/// The cursor position moved onto the text: the last character when it lies
/// beyond it.
pub open spec fn clamp_cursor(len: int, cursor: int) -> int {
    if cursor < len - 1 { cursor } else { len - 1 }
}

/// The range of the line that holds the (clamped) cursor, widened to at least
/// one character; `None` for an empty text.
pub open spec fn line_range_ok(chars: Seq<char>, cursor: int, r: Option<(usize, usize)>) -> bool {
    if chars.len() == 0 {
        r is None
    } else {
        let pos = clamp_cursor(chars.len() as int, cursor);
        exists|start: int, end: int|
            #![trigger is_line_start(chars, pos, start), is_line_end(chars, pos, end)]
            is_line_start(chars, pos, start) && is_line_end(chars, pos, end) && r == Some(
                (start as usize, (if end > start + 1 { end } else { start + 1 }) as usize),
            )
    }
}

/// The character range of the line that holds the cursor.
pub fn line_char_range(source: &str, cursor_index: usize) -> (r: Option<(usize, usize)>)
    ensures
        line_range_ok(source@, cursor_index as int, r),
{
    let chars = chars_of(source);
    line_range_of(&chars, cursor_index)
}

fn line_range_of(chars: &Vec<char>, cursor_index: usize) -> (r: Option<(usize, usize)>)
    ensures
        line_range_ok(chars@, cursor_index as int, r),
{
    if chars.len() == 0 {
        return None;
    }
    let clamped = if cursor_index < chars.len() - 1 { cursor_index } else { chars.len() - 1 };
    let mut start = clamped;
    let mut end = clamped;
    while start > 0 && chars[start - 1] != '\n'
        invariant
            start <= clamped < chars.len(),
            forall|k: int| start <= k < clamped ==> chars@[k] != '\n',
        decreases start,
    {
        start -= 1;
    }
    while end < chars.len() && chars[end] != '\n'
        invariant
            clamped <= end <= chars.len(),
            forall|k: int| clamped <= k < end ==> chars@[k] != '\n',
        decreases chars.len() - end,
    {
        end += 1;
    }
    let hi = if end > start + 1 { end } else { start + 1 };
    let r = Some((start, hi));
    assert(clamp_cursor(chars@.len() as int, cursor_index as int) == clamped as int);
    assert(is_line_start(chars@, clamped as int, start as int));
    assert(is_line_end(chars@, clamped as int, end as int));
    assert(r == Some(
        (start as int as usize, (if end as int > start as int + 1 { end as int } else { start as int + 1 }) as usize),
    ));
    r
}

// ---------------------------------------------------------------------------
// Strings and comments
// ---------------------------------------------------------------------------

/// For each position from `i` on, whether it lies inside a string literal or a
/// comment, given the lexical state at `i`. A comment runs from `;` up to and
/// including the next newline; a string runs from `"` to the next unescaped
/// `"`, a backslash escaping the character after it.
pub open spec fn ignored_from(chars: Seq<char>, i: int, in_string: bool, in_comment: bool) -> Seq<bool>
    decreases chars.len() - i,
{
    if i >= chars.len() || i < 0 {
        seq![]
    } else if in_comment {
        seq![true] + ignored_from(chars, i + 1, false, chars[i] != '\n')
    } else if in_string {
        if chars[i] == '\\' && i + 1 < chars.len() {
            seq![true, true] + ignored_from(chars, i + 2, true, false)
        } else {
            seq![true] + ignored_from(chars, i + 1, chars[i] != '"', false)
        }
    } else if chars[i] == ';' {
        seq![true] + ignored_from(chars, i + 1, false, true)
    } else if chars[i] == '"' {
        seq![true] + ignored_from(chars, i + 1, true, false)
    } else {
        seq![false] + ignored_from(chars, i + 1, false, false)
    }
}

/// Whether each position of the text lies inside a string literal or a comment.
pub open spec fn ignored_spec(chars: Seq<char>) -> Seq<bool> {
    ignored_from(chars, 0, false, false)
}

proof fn lemma_ignored_from_len(chars: Seq<char>, i: int, s: bool, c: bool)
    requires
        0 <= i <= chars.len(),
    ensures
        ignored_from(chars, i, s, c).len() == chars.len() - i,
    decreases chars.len() - i,
{
    if i < chars.len() {
        if c {
            lemma_ignored_from_len(chars, i + 1, false, chars[i] != '\n');
        } else if s {
            if chars[i] == '\\' && i + 1 < chars.len() {
                lemma_ignored_from_len(chars, i + 2, true, false);
            } else {
                lemma_ignored_from_len(chars, i + 1, chars[i] != '"', false);
            }
        } else if chars[i] == ';' {
            lemma_ignored_from_len(chars, i + 1, false, true);
        } else if chars[i] == '"' {
            lemma_ignored_from_len(chars, i + 1, true, false);
        } else {
            lemma_ignored_from_len(chars, i + 1, false, false);
        }
    }
}

/// Marks the brackets that appear inside strings or comments, which bracket
/// matching ignores.
pub fn ignored_positions(chars: &[char]) -> (ignored: Vec<bool>)
    ensures
        ignored@ == ignored_spec(chars@),
{
    let n = chars.len();
    let mut ignored: Vec<bool> = Vec::new();
    let mut in_string = false;
    let mut in_comment = false;
    let mut i: usize = 0;
    proof {
        lemma_ignored_from_len(chars@, 0, false, false);
    }
    while i < n
        invariant
            n == chars@.len(),
            i <= n,
            ignored@.len() == i,
            ignored@ + ignored_from(chars@, i as int, in_string, in_comment) == ignored_spec(chars@),
            !(in_string && in_comment),
        decreases n - i,
    {
        let ghost before = ignored@;
        if in_comment {
            ignored.push(true);
            if chars[i] == '\n' {
                in_comment = false;
            }
            i += 1;
            assert(before + ignored_from(chars@, i - 1, false, true) =~= ignored@
                + ignored_from(chars@, i as int, in_string, in_comment));
            continue;
        }
        if in_string {
            if chars[i] == '\\' && i + 1 < n {
                ignored.push(true);
                ignored.push(true);
                i += 2;
                assert(before + ignored_from(chars@, i - 2, true, false) =~= ignored@
                    + ignored_from(chars@, i as int, in_string, in_comment));
                continue;
            }
            ignored.push(true);
            if chars[i] == '"' {
                in_string = false;
            }
            i += 1;
            assert(before + ignored_from(chars@, i - 1, true, false) =~= ignored@
                + ignored_from(chars@, i as int, in_string, in_comment));
            continue;
        }
        if chars[i] == ';' {
            ignored.push(true);
            in_comment = true;
            i += 1;
            assert(before + ignored_from(chars@, i - 1, false, false) =~= ignored@
                + ignored_from(chars@, i as int, in_string, in_comment));
            continue;
        }
        if chars[i] == '"' {
            ignored.push(true);
            in_string = true;
            i += 1;
            assert(before + ignored_from(chars@, i - 1, false, false) =~= ignored@
                + ignored_from(chars@, i as int, in_string, in_comment));
            continue;
        }
        ignored.push(false);
        i += 1;
        assert(before + ignored_from(chars@, i - 1, false, false) =~= ignored@
            + ignored_from(chars@, i as int, in_string, in_comment));
    }
    assert(ignored@ =~= ignored_spec(chars@));
    ignored
}

// ---------------------------------------------------------------------------
// Bracket matching
// ---------------------------------------------------------------------------

/// Whether position `i` holds a bracket that takes part in matching.
pub open spec fn is_live_bracket(chars: Seq<char>, ignored: Seq<bool>, i: int) -> bool {
    0 <= i < chars.len() && !ignored[i] && (chars[i] == '(' || chars[i] == ')')
}

/// The bracket the cursor stands on, or else the one just before it.
pub open spec fn bracket_candidate_spec(chars: Seq<char>, ignored: Seq<bool>, cursor: int) -> Option<usize> {
    let before = if cursor > 0 { cursor - 1 } else { 0 };
    if is_live_bracket(chars, ignored, cursor) {
        Some(cursor as usize)
    } else if is_live_bracket(chars, ignored, before) {
        Some(before as usize)
    } else {
        None
    }
}

/// Picks the bracket that the cursor stands on or stands just after.
pub fn find_bracket_candidate(chars: &[char], ignored: &[bool], cursor_index: usize) -> (r: Option<usize>)
    requires
        ignored@.len() == chars@.len(),
    ensures
        r == bracket_candidate_spec(chars@, ignored@, cursor_index as int),
{
    let before = if cursor_index > 0 { cursor_index - 1 } else { 0 };
    if cursor_index < chars.len() && !ignored[cursor_index] && (chars[cursor_index] == '('
        || chars[cursor_index] == ')') {
        return Some(cursor_index);
    }
    if before < chars.len() && !ignored[before] && (chars[before] == '(' || chars[before] == ')') {
        return Some(before);
    }
    None
}

/// How a character moves the nesting depth when scanning forward: `open`
/// deepens it, `close` (when it differs from `open`) makes it shallower.
pub open spec fn step_forward(c: char, open: char, close: char) -> int {
    if c == open { 1 } else if c == close { -1 } else { 0 }
}

/// How a character moves the nesting depth when scanning backward: `close`
/// deepens it, `open` (when it differs from `close`) makes it shallower.
pub open spec fn step_backward(c: char, open: char, close: char) -> int {
    if c == close { 1 } else if c == open { -1 } else { 0 }
}

/// The nesting depth reached by scanning forward over `[lo, hi)`, skipping
/// ignored positions.
pub open spec fn depth_forward(chars: Seq<char>, ignored: Seq<bool>, open: char, close: char, lo: int, hi: int) -> int
    decreases hi - lo,
{
    if hi <= lo {
        0
    } else {
        depth_forward(chars, ignored, open, close, lo, hi - 1) + if ignored[hi - 1] {
            0
        } else {
            step_forward(chars[hi - 1], open, close)
        }
    }
}

/// The nesting depth reached by scanning backward from `hi - 1` down to `lo`,
/// skipping ignored positions.
pub open spec fn depth_backward(chars: Seq<char>, ignored: Seq<bool>, open: char, close: char, lo: int, hi: int) -> int
    decreases hi - lo,
{
    if hi <= lo {
        0
    } else {
        depth_backward(chars, ignored, open, close, lo + 1, hi) + if ignored[lo] {
            0
        } else {
            step_backward(chars[lo], open, close)
        }
    }
}

/// Position `i` closes the bracket opened at `start`: it is a live `close`
/// that brings the depth counted from `start` back to zero.
pub open spec fn closes_at(chars: Seq<char>, ignored: Seq<bool>, start: int, open: char, close: char, i: int) -> bool {
    &&& start <= i < chars.len()
    &&& !ignored[i]
    &&& chars[i] != open
    &&& chars[i] == close
    &&& depth_forward(chars, ignored, open, close, start, i + 1) == 0
}

/// Position `i` opens the bracket closed at `start`: it is a live `open`
/// that brings the depth counted backward from `start` back to zero.
pub open spec fn opens_at(chars: Seq<char>, ignored: Seq<bool>, start: int, open: char, close: char, i: int) -> bool {
    &&& 0 <= i <= start
    &&& !ignored[i]
    &&& chars[i] != close
    &&& chars[i] == open
    &&& depth_backward(chars, ignored, open, close, i, start + 1) == 0
}

/// Finds the bracket that closes the one at `start`: the first position after
/// which the depth counted from `start` returns to zero on a `close`.
pub fn scan_forward_for_match(chars: &[char], ignored: &[bool], start: usize, open: char, close: char) -> (r: Option<usize>)
    requires
        ignored@.len() == chars@.len(),
    ensures
        match r {
            Some(i) => closes_at(chars@, ignored@, start as int, open, close, i as int)
                && forall|j: int| start <= j < i ==> !closes_at(chars@, ignored@, start as int, open, close, j),
            None => forall|j: int| !closes_at(chars@, ignored@, start as int, open, close, j),
        },
{
    let mut depth: i128 = 0;
    let mut i = start;
    while i < chars.len()
        invariant
            ignored@.len() == chars@.len(),
            i >= start,
            depth == depth_forward(chars@, ignored@, open, close, start as int, i as int),
            -(i - start) <= depth <= i - start,
            i - start <= chars@.len(),
            forall|j: int| start <= j < i ==> !closes_at(chars@, ignored@, start as int, open, close, j),
        decreases chars.len() - i,
    {
        if !ignored[i] {
            if chars[i] == open {
                depth += 1;
            } else if chars[i] == close {
                depth -= 1;
                if depth == 0 {
                    return Some(i);
                }
            }
        }
        i += 1;
    }
    proof {
        assert forall|j: int| !closes_at(chars@, ignored@, start as int, open, close, j) by {
            if start <= j < chars@.len() {
                assert(j < i);
            }
        }
    }
    None
}

/// Finds the bracket that opens the one at `start`: the last position before
/// `start` at which the depth counted backward returns to zero on an `open`.
pub fn scan_backward_for_match(chars: &[char], ignored: &[bool], start: usize, open: char, close: char) -> (r: Option<usize>)
    requires
        ignored@.len() == chars@.len(),
        start < chars@.len(),
    ensures
        match r {
            Some(i) => opens_at(chars@, ignored@, start as int, open, close, i as int)
                && forall|j: int| i < j <= start ==> !opens_at(chars@, ignored@, start as int, open, close, j),
            None => forall|j: int| !opens_at(chars@, ignored@, start as int, open, close, j),
        },
{
    let mut depth: i128 = 0;
    let n = chars.len();
    let mut i = start + 1;
    while i > 0
        invariant
            ignored@.len() == chars@.len(),
            start < chars@.len(),
            i <= start + 1,
            depth == depth_backward(chars@, ignored@, open, close, i as int, start + 1),
            -(start + 1 - i) <= depth <= start + 1 - i,
            forall|j: int| i <= j <= start ==> !opens_at(chars@, ignored@, start as int, open, close, j),
        decreases i,
    {
        i -= 1;
        if !ignored[i] {
            if chars[i] == close {
                depth += 1;
            } else if chars[i] == open {
                depth -= 1;
                if depth == 0 {
                    return Some(i);
                }
            }
        }
    }
    None
}

/// The pair of matching brackets at the cursor, as (opening, closing) positions.
pub open spec fn bracket_pair_ok(chars: Seq<char>, cursor: int, r: Option<(usize, usize)>) -> bool {
    let ignored = ignored_spec(chars);
    match bracket_candidate_spec(chars, ignored, cursor) {
        None => r is None,
        Some(c) => if chars[c as int] == '(' {
            match r {
                Some((a, b)) => a == c && closes_at(chars, ignored, c as int, '(', ')', b as int)
                    && forall|j: int| c <= j < b ==> !closes_at(chars, ignored, c as int, '(', ')', j),
                None => forall|j: int| !closes_at(chars, ignored, c as int, '(', ')', j),
            }
        } else {
            match r {
                Some((a, b)) => b == c && opens_at(chars, ignored, c as int, '(', ')', a as int)
                    && forall|j: int| a < j <= c ==> !opens_at(chars, ignored, c as int, '(', ')', j),
                None => forall|j: int| !opens_at(chars, ignored, c as int, '(', ')', j),
            }
        },
    }
}

/// The bracket at the cursor together with the bracket that matches it.
pub fn matched_bracket_pair(source: &str, cursor_index: usize) -> (r: Option<(usize, usize)>)
    ensures
        bracket_pair_ok(source@, cursor_index as int, r),
{
    let chars = chars_of(source);
    if chars.len() == 0 {
        return None;
    }
    let ignored = ignored_positions(chars.as_slice());
    proof {
        lemma_ignored_from_len(chars@, 0, false, false);
    }
    let candidate = match find_bracket_candidate(chars.as_slice(), ignored.as_slice(), cursor_index) {
        Some(c) => c,
        None => return None,
    };
    if chars[candidate] == '(' {
        match scan_forward_for_match(chars.as_slice(), ignored.as_slice(), candidate, '(', ')') {
            Some(m) => Some((candidate, m)),
            None => None,
        }
    } else {
        match scan_backward_for_match(chars.as_slice(), ignored.as_slice(), candidate, '(', ')') {
            Some(m) => Some((m, candidate)),
            None => None,
        }
    }
}

/// Builds the editor decorations from the current cursor position.
pub fn editor_decorations(source: &str, cursor_index: Option<usize>) -> (d: EditorDecorations)
    ensures
        match cursor_index {
            None => d.line_spec() is None && d.brackets_spec() is None,
            Some(c) => line_range_ok(source@, c as int, d.line_spec())
                && bracket_pair_ok(source@, c as int, d.brackets_spec()),
        },
{
    match cursor_index {
        None => EditorDecorations { current_line: None, matched_brackets: None },
        Some(c) => EditorDecorations {
            current_line: line_char_range(source, c),
            matched_brackets: matched_bracket_pair(source, c),
        },
    }
}


// ---------------------------------------------------------------------------
// Token classes for syntax highlighting
// ---------------------------------------------------------------------------

/// The characters highlighted as punctuation on their own.
pub open spec fn punctuation_char(ch: char) -> bool {
    ch == '(' || ch == ')' || ch == '\'' || ch == '`' || ch == ','
}

/// The characters that end a word.
pub open spec fn boundary_char(ch: char) -> bool {
    punctuation_char(ch) || ch == '"' || ch == ';'
}

/// Whether `ch` is highlighted as punctuation.
pub fn is_punctuation(ch: char) -> (r: bool)
    ensures
        r == punctuation_char(ch),
{
    ch == '(' || ch == ')' || ch == '\'' || ch == '`' || ch == ','
}

/// Whether `ch` ends a word.
pub fn is_token_boundary(ch: char) -> (r: bool)
    ensures
        r == boundary_char(ch),
{
    ch == '(' || ch == ')' || ch == '\'' || ch == '`' || ch == ',' || ch == '"' || ch == ';'
}

/// Whether the characters `t` spell the literal `lit`.
fn chars_are(t: &[char], lit: &str) -> (r: bool)
    ensures
        r == (t@ == lit@),
{
    let l = chars_of(lit);
    if t.len() != l.len() {
        return false;
    }
    let mut i: usize = 0;
    while i < t.len()
        invariant
            t@.len() == l@.len(),
            l@ == lit@,
            i <= t@.len(),
            forall|k: int| 0 <= k < i ==> t@[k] == l@[k],
        decreases t.len() - i,
    {
        if t[i] != l[i] {
            return false;
        }
        i += 1;
    }
    assert(t@ =~= l@);
    true
}

/// The names highlighted as special forms.
pub open spec fn special_form_word(t: Seq<char>) -> bool {
    ||| t == "begin"@
    ||| t == "cond"@
    ||| t == "define"@
    ||| t == "lambda"@
    ||| t == "let"@
    ||| t == "quasiquote"@
    ||| t == "quote"@
    ||| t == "if"@
    ||| t == "and"@
    ||| t == "or"@
    ||| t == "unquote"@
}

fn special_form_chars(t: &[char]) -> (r: bool)
    ensures
        r == special_form_word(t@),
{
    chars_are(t, "begin") || chars_are(t, "cond") || chars_are(t, "define") || chars_are(t, "lambda")
        || chars_are(t, "let") || chars_are(t, "quasiquote") || chars_are(t, "quote")
        || chars_are(t, "if") || chars_are(t, "and") || chars_are(t, "or") || chars_are(
        t,
        "unquote",
    )
}

/// Whether `token` names a special form.
pub fn is_special_form(token: &str) -> (r: bool)
    ensures
        r == special_form_word(token@),
{
    let t = chars_of(token);
    special_form_chars(t.as_slice())
}

/// The names highlighted as built-in procedures.
pub open spec fn builtin_word(t: Seq<char>) -> bool {
    ||| t == "append"@ ||| t == "abs"@ ||| t == "apply"@ ||| t == "atom?"@
    ||| t == "boolean?"@ ||| t == "car"@ ||| t == "cdr"@ ||| t == "cons"@
    ||| t == "display"@ ||| t == "displayln"@ ||| t == "eq?"@ ||| t == "equal?"@
    ||| t == "error"@ ||| t == "even?"@ ||| t == "eval"@ ||| t == "expt"@
    ||| t == "exit"@ ||| t == "filter"@ ||| t == "integer?"@ ||| t == "length"@
    ||| t == "list"@ ||| t == "list?"@ ||| t == "map"@ ||| t == "newline"@
    ||| t == "not"@ ||| t == "null?"@ ||| t == "number?"@ ||| t == "odd?"@
    ||| t == "pair?"@ ||| t == "print"@ ||| t == "procedure?"@ ||| t == "quotient"@
    ||| t == "reduce"@ ||| t == "remainder"@ ||| t == "string?"@ ||| t == "symbol?"@
    ||| t == "zero?"@ ||| t == "+"@ ||| t == "-"@ ||| t == "*"@
    ||| t == "/"@ ||| t == "="@ ||| t == "<"@ ||| t == "<="@
    ||| t == "modulo"@ ||| t == ">"@ ||| t == ">="@
}

fn builtin_chars(t: &[char]) -> (r: bool)
    ensures
        r == builtin_word(t@),
{
    chars_are(t, "append") || chars_are(t, "abs") || chars_are(t, "apply") || chars_are(t, "atom?")
        || chars_are(t, "boolean?") || chars_are(t, "car") || chars_are(t, "cdr") || chars_are(t, "cons")
        || chars_are(t, "display") || chars_are(t, "displayln") || chars_are(t, "eq?")
        || chars_are(t, "equal?") || chars_are(t, "error") || chars_are(t, "even?")
        || chars_are(t, "eval") || chars_are(t, "expt") || chars_are(t, "exit")
        || chars_are(t, "filter") || chars_are(t, "integer?") || chars_are(t, "length")
        || chars_are(t, "list") || chars_are(t, "list?") || chars_are(t, "map")
        || chars_are(t, "newline") || chars_are(t, "not") || chars_are(t, "null?")
        || chars_are(t, "number?") || chars_are(t, "odd?") || chars_are(t, "pair?")
        || chars_are(t, "print") || chars_are(t, "procedure?") || chars_are(t, "quotient")
        || chars_are(t, "reduce") || chars_are(t, "remainder") || chars_are(t, "string?")
        || chars_are(t, "symbol?") || chars_are(t, "zero?") || chars_are(t, "+")
        || chars_are(t, "-") || chars_are(t, "*") || chars_are(t, "/") || chars_are(t, "=")
        || chars_are(t, "<") || chars_are(t, "<=") || chars_are(t, "modulo") || chars_are(t, ">")
        || chars_are(t, ">=")
}

/// Whether `token` names a built-in procedure.
pub fn is_builtin(token: &str) -> (r: bool)
    ensures
        r == builtin_word(token@),
{
    let t = chars_of(token);
    builtin_chars(t.as_slice())
}

/// The number of consecutive decimal digits starting at position `i`.
pub open spec fn digit_run(s: Seq<char>, i: int) -> nat
    decreases s.len() - i,
{
    if 0 <= i < s.len() && is_digit(s[i]) {
        1 + digit_run(s, i + 1)
    } else {
        0
    }
}

/// `s` from position `i` on is an exponent: `e` or `E`, an optional sign,
/// and at least one digit running to the end.
pub open spec fn exponent_from(s: Seq<char>, i: int) -> bool {
    &&& i < s.len()
    &&& (s[i] == 'e' || s[i] == 'E')
    &&& {
        let j = if i + 1 < s.len() && (s[i + 1] == '+' || s[i + 1] == '-') { i + 2 } else { i + 1 };
        digit_run(s, j) >= 1 && j + digit_run(s, j) == s.len()
    }
}

/// `s` from position `i` on is a decimal number: digits, an optional point
/// followed by digits, at least one digit in all, and an optional exponent.
pub open spec fn number_from(s: Seq<char>, i: int) -> bool {
    let d1 = digit_run(s, i);
    let p = i + d1;
    let has_point = p < s.len() && s[p] == '.';
    let d2 = if has_point { digit_run(s, p + 1) } else { 0 };
    let end = if has_point { p + 1 + d2 } else { p };
    &&& d1 + d2 >= 1
    &&& (end == s.len() || exponent_from(s, end))
}

/// `t` spells `word` (given in lower and in upper case) ignoring ASCII case.
pub open spec fn word_ignoring_case(t: Seq<char>, lower: Seq<char>, upper: Seq<char>) -> bool {
    &&& t.len() == lower.len()
    &&& forall|k: int| 0 <= k < t.len() ==> t[k] == lower[k] || t[k] == upper[k]
}

/// The strings that `str::parse::<f64>` accepts: an optional sign followed by
/// `inf`, `infinity` or `nan` in any case, or by a decimal number.
pub open spec fn float_literal(t: Seq<char>) -> bool {
    let i: int = if t.len() > 0 && (t[0] == '+' || t[0] == '-') { 1 } else { 0 };
    let body = t.skip(i);
    ||| word_ignoring_case(body, "inf"@, "INF"@)
    ||| word_ignoring_case(body, "infinity"@, "INFINITY"@)
    ||| word_ignoring_case(body, "nan"@, "NAN"@)
    ||| number_from(t, i)
}

fn digits_from(s: &[char], i: usize) -> (n: usize)
    requires
        i <= s@.len(),
    ensures
        n == digit_run(s@, i as int),
        i + n <= s@.len(),
{
    let mut j = i;
    while j < s.len() && '0' <= s[j] && s[j] <= '9'
        invariant
            i <= j <= s@.len(),
            digit_run(s@, i as int) == (j - i) + digit_run(s@, j as int),
        decreases s.len() - j,
    {
        j += 1;
    }
    j - i
}

fn exponent_at(s: &[char], i: usize) -> (r: bool)
    requires
        i <= s@.len(),
    ensures
        r == exponent_from(s@, i as int),
{
    if i >= s.len() || !(s[i] == 'e' || s[i] == 'E') {
        return false;
    }
    let j = if i + 1 < s.len() && (s[i + 1] == '+' || s[i + 1] == '-') { i + 2 } else { i + 1 };
    let d = digits_from(s, j);
    d >= 1 && j + d == s.len()
}

fn number_at(s: &[char], i: usize) -> (r: bool)
    requires
        i <= s@.len(),
    ensures
        r == number_from(s@, i as int),
{
    let len = s.len();
    let d1 = digits_from(s, i);
    let p = i + d1;
    let has_point = p < s.len() && s[p] == '.';
    let d2 = if has_point { digits_from(s, p + 1) } else { 0 };
    let end = if has_point { p + 1 + d2 } else { p };
    d1 + d2 >= 1 && (end == s.len() || exponent_at(s, end))
}

fn word_ci(t: &[char], from: usize, lower: &str, upper: &str) -> (r: bool)
    requires
        from <= t@.len(),
        lower@.len() == upper@.len(),
    ensures
        r == word_ignoring_case(t@.skip(from as int), lower@, upper@),
{
    let n = t.len();
    let lo = chars_of(lower);
    let up = chars_of(upper);
    if t.len() - from != lo.len() {
        return false;
    }
    let mut k: usize = 0;
    while k < lo.len()
        invariant
            t@.len() - from == lo@.len(),
            n == t@.len(),
            from <= n,
            lo@ == lower@,
            up@ == upper@,
            lo@.len() == up@.len(),
            k <= lo@.len(),
            forall|m: int| 0 <= m < k ==> t@.skip(from as int)[m] == lo@[m] || t@.skip(from as int)[m] == up@[m],
        decreases lo.len() - k,
    {
        if t[from + k] != lo[k] && t[from + k] != up[k] {
            return false;
        }
        k += 1;
    }
    true
}

fn float_chars(t: &[char]) -> (r: bool)
    ensures
        r == float_literal(t@),
{
    let i: usize = if t.len() > 0 && (t[0] == '+' || t[0] == '-') { 1 } else { 0 };
    proof {
        reveal_strlit("inf");
        reveal_strlit("INF");
        reveal_strlit("infinity");
        reveal_strlit("INFINITY");
        reveal_strlit("nan");
        reveal_strlit("NAN");
    }
    word_ci(t, i, "inf", "INF") || word_ci(t, i, "infinity", "INFINITY") || word_ci(t, i, "nan", "NAN")
        || number_at(t, i)
}

/// Whether `token` parses as a floating-point number.
pub fn is_float_literal(token: &str) -> (r: bool)
    ensures
        r == float_literal(token@),
{
    let t = chars_of(token);
    float_chars(t.as_slice())
}

/// How a word is highlighted.
#[derive(Clone, Copy, Debug, PartialEq, Eq)]
pub enum TokenClass {
    Boolean,
    Number,
    SpecialForm,
    Builtin,
    Identifier,
}

/// The class of a word: a boolean literal, a number (or the dot of a dotted
/// pair), a special form, a built-in procedure, or any other identifier.
pub open spec fn token_class(t: Seq<char>) -> TokenClass {
    if t == "#t"@ || t == "#f"@ {
        TokenClass::Boolean
    } else if t == "."@ || float_literal(t) {
        TokenClass::Number
    } else if special_form_word(t) {
        TokenClass::SpecialForm
    } else if builtin_word(t) {
        TokenClass::Builtin
    } else {
        TokenClass::Identifier
    }
}

fn classify_chars(t: &[char]) -> (c: TokenClass)
    ensures
        c == token_class(t@),
{
    if chars_are(t, "#t") || chars_are(t, "#f") {
        TokenClass::Boolean
    } else if chars_are(t, ".") || float_chars(t) {
        TokenClass::Number
    } else if special_form_chars(t) {
        TokenClass::SpecialForm
    } else if builtin_chars(t) {
        TokenClass::Builtin
    } else {
        TokenClass::Identifier
    }
}

/// The highlighting class of a word.
pub fn classify_token(token: &str) -> (c: TokenClass)
    ensures
        c == token_class(token@),
{
    let t = chars_of(token);
    classify_chars(t.as_slice())
}

// ---------------------------------------------------------------------------
// Highlighted runs
// ---------------------------------------------------------------------------

/// What a run of source characters is highlighted as.
#[derive(Clone, Copy, Debug, PartialEq, Eq)]
pub enum SyntaxKind {
    Comment,
    StringLiteral,
    Whitespace,
    Punctuation,
    Word(TokenClass),
}

/// A run of characters `[start, end)` of one highlighting kind.
#[derive(Clone, Copy, Debug, PartialEq, Eq)]
pub struct HighlightSpan {
    pub start: usize,
    pub end: usize,
    pub kind: SyntaxKind,
}

/// The end of a comment that starts at `i`: the next newline, or the end.
pub open spec fn comment_end(chars: Seq<char>, i: int) -> int
    decreases chars.len() - i,
{
    if i >= chars.len() || chars[i] == '\n' { i } else { comment_end(chars, i + 1) }
}

/// The end of a string literal whose body starts at `i` (just after the opening
/// quote): just past the closing quote, or the end of the text. A backslash
/// skips the character after it.
pub open spec fn string_end(chars: Seq<char>, i: int) -> int
    decreases chars.len() - i,
{
    if i >= chars.len() {
        i
    } else if chars[i] == '\\' && i + 1 < chars.len() {
        string_end(chars, i + 2)
    } else if chars[i] == '"' {
        i + 1
    } else {
        string_end(chars, i + 1)
    }
}

/// The end of a run of white space starting at `i`.
pub open spec fn space_end(chars: Seq<char>, i: int) -> int
    decreases chars.len() - i,
{
    if i >= chars.len() || !is_white_space(chars[i]) { i } else { space_end(chars, i + 1) }
}

/// The end of a word starting at `i`: the next white space or boundary character.
pub open spec fn word_end(chars: Seq<char>, i: int) -> int
    decreases chars.len() - i,
{
    if i >= chars.len() || is_white_space(chars[i]) || boundary_char(chars[i]) {
        i
    } else {
        word_end(chars, i + 1)
    }
}

proof fn lemma_ends(chars: Seq<char>, i: int)
    requires
        0 <= i <= chars.len(),
    ensures
        i <= comment_end(chars, i) <= chars.len(),
        i <= string_end(chars, i) <= chars.len(),
        i <= space_end(chars, i) <= chars.len(),
        i <= word_end(chars, i) <= chars.len(),
    decreases chars.len() - i,
{
    if i < chars.len() {
        lemma_ends(chars, i + 1);
        if i + 2 <= chars.len() {
            lemma_ends(chars, i + 2);
        }
    }
}

/// The highlighted runs of `chars` from position `i` on: a comment from `;`
/// to the end of its line, a string literal, a run of white space, a single
/// punctuation character, or a word classed by [`token_class`].
pub open spec fn spans_from(chars: Seq<char>, i: int) -> Seq<HighlightSpan>
    decreases chars.len() - i,
{
    if i < 0 || i >= chars.len() {
        seq![]
    } else {
        let ch = chars[i];
        let (end, kind) = if ch == ';' {
            (comment_end(chars, i + 1), SyntaxKind::Comment)
        } else if ch == '"' {
            (string_end(chars, i + 1), SyntaxKind::StringLiteral)
        } else if is_white_space(ch) {
            (space_end(chars, i + 1), SyntaxKind::Whitespace)
        } else if punctuation_char(ch) {
            (i + 1, SyntaxKind::Punctuation)
        } else {
            let e = word_end(chars, i + 1);
            (e, SyntaxKind::Word(token_class(chars.subrange(i, e))))
        };
        if end <= i || end > chars.len() {
            seq![]
        } else {
            seq![HighlightSpan { start: i as usize, end: end as usize, kind: kind }] + spans_from(
                chars,
                end,
            )
        }
    }
}

fn comment_end_exec(chars: &[char], i: usize) -> (e: usize)
    requires
        i <= chars@.len(),
    ensures
        e == comment_end(chars@, i as int),
{
    let mut j = i;
    while j < chars.len() && chars[j] != '\n'
        invariant
            i <= j <= chars@.len(),
            comment_end(chars@, i as int) == comment_end(chars@, j as int),
        decreases chars.len() - j,
    {
        j += 1;
    }
    j
}

fn string_end_exec(chars: &[char], i: usize) -> (e: usize)
    requires
        i <= chars@.len(),
    ensures
        e == string_end(chars@, i as int),
{
    let mut j = i;
    while j < chars.len()
        invariant
            i <= j <= chars@.len(),
            string_end(chars@, i as int) == string_end(chars@, j as int),
        decreases chars.len() - j,
    {
        if chars[j] == '\\' && j + 1 < chars.len() {
            j += 2;
            continue;
        }
        let current = chars[j];
        j += 1;
        if current == '"' {
            return j;
        }
    }
    j
}

fn space_end_exec(chars: &[char], i: usize) -> (e: usize)
    requires
        i <= chars@.len(),
    ensures
        e == space_end(chars@, i as int),
{
    let mut j = i;
    while j < chars.len() && is_whitespace_char(chars[j])
        invariant
            i <= j <= chars@.len(),
            space_end(chars@, i as int) == space_end(chars@, j as int),
        decreases chars.len() - j,
    {
        j += 1;
    }
    j
}

fn word_end_exec(chars: &[char], i: usize) -> (e: usize)
    requires
        i <= chars@.len(),
    ensures
        e == word_end(chars@, i as int),
{
    let mut j = i;
    while j < chars.len() && !is_whitespace_char(chars[j]) && !is_token_boundary(chars[j])
        invariant
            i <= j <= chars@.len(),
            word_end(chars@, i as int) == word_end(chars@, j as int),
        decreases chars.len() - j,
    {
        j += 1;
    }
    j
}

/// Divides Lisp source into the runs that a highlighter colours: comments,
/// string literals, white space, punctuation and classified words.
pub fn highlight_spans(source: &str) -> (spans: Vec<HighlightSpan>)
    ensures
        spans@ == spans_from(source@, 0),
{
    let chars = chars_of(source);
    let n = chars.len();
    let mut spans: Vec<HighlightSpan> = Vec::new();
    let mut i: usize = 0;
    while i < n
        invariant
            n == chars@.len(),
            chars@ == source@,
            i <= n,
            spans@ + spans_from(chars@, i as int) == spans_from(chars@, 0),
        decreases n - i,
    {
        let ghost gi = i;
        proof {
            lemma_ends(chars@, i + 1);
        }
        let ch = chars[i];
        let end: usize;
        let kind: SyntaxKind;
        if ch == ';' {
            end = comment_end_exec(chars.as_slice(), i + 1);
            kind = SyntaxKind::Comment;
        } else if ch == '"' {
            end = string_end_exec(chars.as_slice(), i + 1);
            kind = SyntaxKind::StringLiteral;
        } else if is_whitespace_char(ch) {
            end = space_end_exec(chars.as_slice(), i + 1);
            kind = SyntaxKind::Whitespace;
        } else if is_punctuation(ch) {
            end = i + 1;
            kind = SyntaxKind::Punctuation;
        } else {
            end = word_end_exec(chars.as_slice(), i + 1);
            let word = slice_range(chars.as_slice(), i, end);
            kind = SyntaxKind::Word(classify_chars(word.as_slice()));
        }
        let ghost rest = spans_from(chars@, end as int);
        spans.push(HighlightSpan { start: i, end: end, kind: kind });
        assert(spans_from(chars@, gi as int) == seq![HighlightSpan { start: gi, end: end, kind: kind }] + rest);
        i = end;
    }
    assert(spans@ =~= spans_from(chars@, 0));
    spans
}

/// The characters of `s` in `[lo, hi)`.
fn slice_range(s: &[char], lo: usize, hi: usize) -> (r: Vec<char>)
    requires
        lo <= hi <= s@.len(),
    ensures
        r@ == s@.subrange(lo as int, hi as int),
{
    let mut r: Vec<char> = Vec::new();
    let mut k = lo;
    while k < hi
        invariant
            lo <= k <= hi <= s@.len(),
            r@ == s@.subrange(lo as int, k as int),
        decreases hi - k,
    {
        r.push(s[k]);
        assert(s@.subrange(lo as int, k + 1) =~= s@.subrange(lo as int, k as int).push(s@[k as int]));
        k += 1;
    }
    r
}

/// How the editor decorates one character: plainly, as part of the current
/// line, or as one of the matched brackets (which wins over the current line).
#[derive(Clone, Copy, Debug, PartialEq, Eq)]
pub enum Decoration {
    Plain,
    CurrentLine,
    MatchedBracket,
}

/// The decoration of the character at `char_index`.
pub open spec fn decoration_spec(d: EditorDecorations, char_index: int) -> Decoration {
    match d.brackets_spec() {
        Some((left, right)) if char_index == left || char_index == right => Decoration::MatchedBracket,
        _ => match d.line_spec() {
            Some((start, end)) if start <= char_index && char_index < end => Decoration::CurrentLine,
            _ => Decoration::Plain,
        },
    }
}

/// Decides how the character at `char_index` is decorated.
pub fn decoration_at(decorations: &EditorDecorations, char_index: usize) -> (r: Decoration)
    ensures
        r == decoration_spec(*decorations, char_index as int),
{
    if let Some((left, right)) = decorations.matched_brackets() {
        if char_index == left || char_index == right {
            return Decoration::MatchedBracket;
        }
    }
    if let Some((start, end)) = decorations.current_line() {
        if start <= char_index && char_index < end {
            return Decoration::CurrentLine;
        }
    }
    Decoration::Plain
}


// ---------------------------------------------------------------------------
// Properties across the editor functions
// ---------------------------------------------------------------------------

proof fn lemma_depth_split(chars: Seq<char>, ignored: Seq<bool>, lo: int, mid: int, hi: int)
    requires
        lo <= mid <= hi,
    ensures
        depth_forward(chars, ignored, '(', ')', lo, hi) == depth_forward(chars, ignored, '(', ')', lo, mid)
            + depth_forward(chars, ignored, '(', ')', mid, hi),
    decreases hi - mid,
{
    if mid < hi {
        lemma_depth_split(chars, ignored, lo, mid, hi - 1);
    }
}

proof fn lemma_depth_backward_negates(chars: Seq<char>, ignored: Seq<bool>, lo: int, hi: int)
    ensures
        depth_backward(chars, ignored, '(', ')', lo, hi) == -depth_forward(chars, ignored, '(', ')', lo, hi),
    decreases hi - lo,
{
    if lo < hi {
        lemma_depth_backward_negates(chars, ignored, lo + 1, hi);
        lemma_depth_split(chars, ignored, lo, lo + 1, hi);
        assert(depth_forward(chars, ignored, '(', ')', lo, lo) == 0);
    }
}

/// Between an opening bracket and the first bracket that closes it, the depth
/// counted from the opening bracket stays positive.
proof fn lemma_depth_positive_before_close(chars: Seq<char>, ignored: Seq<bool>, a: int, b: int, j: int)
    requires
        0 <= a <= j < b,
        !ignored[a],
        chars[a] == '(',
        b <= chars.len(),
        forall|k: int| a <= k < b ==> !closes_at(chars, ignored, a, '(', ')', k),
    ensures
        depth_forward(chars, ignored, '(', ')', a, j + 1) > 0,
    decreases j - a,
{
    if j > a {
        lemma_depth_positive_before_close(chars, ignored, a, b, j - 1);
        assert(!closes_at(chars, ignored, a, '(', ')', j));
    } else {
        assert(depth_forward(chars, ignored, '(', ')', a, a) == 0);
    }
}

/// Between a closing bracket and the last bracket before it that opens it,
/// the depth counted backward from the closing bracket stays positive.
proof fn lemma_depth_positive_after_open(chars: Seq<char>, ignored: Seq<bool>, a: int, b: int, j: int)
    requires
        0 <= a < j <= b < chars.len(),
        !ignored[b],
        chars[b] == ')',
        forall|k: int| a < k <= b ==> !opens_at(chars, ignored, b, '(', ')', k),
    ensures
        depth_backward(chars, ignored, '(', ')', j, b + 1) > 0,
    decreases b - j,
{
    if j < b {
        lemma_depth_positive_after_open(chars, ignored, a, b, j + 1);
        assert(!opens_at(chars, ignored, b, '(', ')', j));
    } else {
        assert(depth_backward(chars, ignored, '(', ')', b + 1, b + 1) == 0);
    }
}

/// Bracket matching is mutual: when the cursor on an opening bracket finds
/// the bracket that closes it, the cursor on that closing bracket finds the
/// same opening bracket, and the other way round.
pub proof fn law_bracket_matching_is_mutual(chars: Seq<char>, a: usize, b: usize)
    requires
        chars.len() <= usize::MAX,
    ensures
        (is_live_bracket(chars, ignored_spec(chars), a as int) && chars[a as int] == '('
            && bracket_pair_ok(chars, a as int, Some((a, b))))
            ==> bracket_pair_ok(chars, b as int, Some((a, b))),
        (is_live_bracket(chars, ignored_spec(chars), b as int) && chars[b as int] == ')'
            && bracket_pair_ok(chars, b as int, Some((a, b))))
            ==> bracket_pair_ok(chars, a as int, Some((a, b))),
{
    let ig = ignored_spec(chars);
    let (ai, bi) = (a as int, b as int);
    if is_live_bracket(chars, ig, ai) && chars[ai] == '(' && bracket_pair_ok(chars, ai, Some((a, b))) {
        assert(bracket_candidate_spec(chars, ig, ai) == Some(a));
        assert(closes_at(chars, ig, ai, '(', ')', bi));
        assert(is_live_bracket(chars, ig, bi));
        assert(bracket_candidate_spec(chars, ig, bi) == Some(b));
        lemma_depth_backward_negates(chars, ig, ai, bi + 1);
        assert forall|j: int| ai < j <= bi implies !opens_at(chars, ig, bi, '(', ')', j) by {
            lemma_depth_positive_before_close(chars, ig, ai, bi, j - 1);
            lemma_depth_split(chars, ig, ai, j, bi + 1);
            lemma_depth_backward_negates(chars, ig, j, bi + 1);
        }
        assert(opens_at(chars, ig, bi, '(', ')', ai));
    }
    if is_live_bracket(chars, ig, bi) && chars[bi] == ')' && bracket_pair_ok(chars, bi, Some((a, b))) {
        assert(bracket_candidate_spec(chars, ig, bi) == Some(b));
        assert(opens_at(chars, ig, bi, '(', ')', ai));
        assert(is_live_bracket(chars, ig, ai));
        assert(bracket_candidate_spec(chars, ig, ai) == Some(a));
        lemma_depth_backward_negates(chars, ig, ai, bi + 1);
        assert forall|j: int| ai <= j < bi implies !closes_at(chars, ig, ai, '(', ')', j) by {
            lemma_depth_positive_after_open(chars, ig, ai, bi, j + 1);
            lemma_depth_split(chars, ig, ai, j + 1, bi + 1);
            lemma_depth_backward_negates(chars, ig, j + 1, bi + 1);
        }
        assert(closes_at(chars, ig, ai, '(', ')', bi));
    }
}

proof fn lemma_spans_tile(chars: Seq<char>, i: int)
    requires
        0 <= i <= chars.len(),
        chars.len() <= usize::MAX,
    ensures
        ({
            let s = spans_from(chars, i);
            &&& (s.len() == 0 <==> i == chars.len())
            &&& s.len() > 0 ==> s[0].start == i && s.last().end == chars.len()
            &&& forall|k: int| 0 <= k < s.len() ==> #[trigger] s[k].start < s[k].end
            &&& forall|k: int| 0 <= k < s.len() - 1 ==> #[trigger] s[k].end == s[k + 1].start
        }),
    decreases chars.len() - i,
{
    if i < chars.len() {
        lemma_ends(chars, i + 1);
        let ch = chars[i];
        let end = if ch == ';' {
            comment_end(chars, i + 1)
        } else if ch == '"' {
            string_end(chars, i + 1)
        } else if is_white_space(ch) {
            space_end(chars, i + 1)
        } else if punctuation_char(ch) {
            i + 1
        } else {
            word_end(chars, i + 1)
        };
        lemma_spans_tile(chars, end);
        let rest = spans_from(chars, end);
        let s = spans_from(chars, i);
        assert(s == seq![s[0]] + rest);
        assert(s[0].start == i && s[0].end == end);
        assert forall|k: int| 0 <= k < s.len() - 1 implies #[trigger] s[k].end == s[k + 1].start by {
            if k > 0 {
                assert(s[k] == rest[k - 1]);
                assert(s[k + 1] == rest[k]);
            }
        }
        assert forall|k: int| 0 <= k < s.len() implies #[trigger] s[k].start < s[k].end by {
            if k > 0 {
                assert(s[k] == rest[k - 1]);
            }
        }
    }
}

/// The highlighted runs cover the whole text, in order and without gaps or
/// overlaps: the first starts at the beginning, each is non-empty and starts
/// where the one before it ends, and the last ends at the end of the text.
pub proof fn law_highlight_spans_tile(chars: Seq<char>)
    requires
        chars.len() <= usize::MAX,
    ensures
        ({
            let s = spans_from(chars, 0);
            &&& (s.len() == 0 <==> chars.len() == 0)
            &&& s.len() > 0 ==> s[0].start == 0 && s.last().end == chars.len()
            &&& forall|k: int| 0 <= k < s.len() ==> #[trigger] s[k].start < s[k].end
            &&& forall|k: int| 0 <= k < s.len() - 1 ==> #[trigger] s[k].end == s[k + 1].start
        }),
{
    lemma_spans_tile(chars, 0);
}


/// The current-line range of a non-empty text is a non-empty range within
/// the text that begins at or before the cursor (moved onto the text) with no
/// newline in between, and holds the cursor unless the cursor stands on the
/// newline that ends a line.
pub proof fn law_current_line_holds_cursor(chars: Seq<char>, cursor: int, r: Option<(usize, usize)>)
    requires
        chars.len() > 0,
        chars.len() <= usize::MAX,
        0 <= cursor,
        line_range_ok(chars, cursor, r),
    ensures
        ({
            let pos = clamp_cursor(chars.len() as int, cursor);
            &&& r matches Some((start, end)) && start <= pos && start < end <= chars.len()
                && (forall|k: int| start <= k < pos ==> chars[k] != '\n')
                && (chars[pos] != '\n' ==> pos < end)
        }),
{
    let pos = clamp_cursor(chars.len() as int, cursor);
    let (start, end) = choose|start: int, end: int|
        #![trigger is_line_start(chars, pos, start), is_line_end(chars, pos, end)]
        is_line_start(chars, pos, start) && is_line_end(chars, pos, end) && r == Some(
            (start as usize, (if end > start + 1 { end } else { start + 1 }) as usize),
        );
    assert(0 <= pos < chars.len());
    assert(is_line_start(chars, pos, start));
    assert(is_line_end(chars, pos, end));
    let hi = if end > start + 1 { end } else { start + 1 };
    assert(0 <= start <= pos && start < hi <= chars.len());
    assert(chars[pos] != '\n' ==> pos < end);
}

} // verus!
