use mini_lisp_rs::editor::{
    classify_token, decoration_at, editor_decorations, find_bracket_candidate, highlight_spans,
    ignored_positions, is_builtin, is_float_literal, is_punctuation, is_special_form,
    is_token_boundary, line_char_range, matched_bracket_pair, scan_backward_for_match,
    scan_forward_for_match, Decoration, HighlightSpan, SyntaxKind, TokenClass,
};

fn chars(s: &str) -> Vec<char> {
    s.chars().collect()
}

#[test]
fn line_range_of_cursor() {
    let src = "ab\ncde\n\nf";
    assert_eq!(line_char_range(src, 0), Some((0, 2)));
    assert_eq!(line_char_range(src, 4), Some((3, 6)));
    // an empty line is widened to one character
    assert_eq!(line_char_range(src, 7), Some((7, 8)));
    // a cursor past the end is moved onto the last character
    assert_eq!(line_char_range(src, 100), Some((8, 9)));
    assert_eq!(line_char_range("", 0), None);
}

#[test]
fn ignored_inside_strings_and_comments() {
    let c = chars("(a \"(\\\"\" ; (x\n)");
    let ignored = ignored_positions(&c);
    let marks: String = ignored.iter().map(|&b| if b { 'x' } else { '.' }).collect();
    assert_eq!(marks, "...xxxxx.xxxxx.");
}

#[test]
fn bracket_matching() {
    let src = "(a (b) \")\" c)";
    assert_eq!(matched_bracket_pair(src, 0), Some((0, 12)));
    assert_eq!(matched_bracket_pair(src, 13), Some((0, 12)));
    assert_eq!(matched_bracket_pair(src, 3), Some((3, 5)));
    assert_eq!(matched_bracket_pair(src, 8), None);
    assert_eq!(matched_bracket_pair("(a", 0), None);
    assert_eq!(matched_bracket_pair("", 0), None);
}

#[test]
fn bracket_scans_and_candidates() {
    let c = chars("((x) y)");
    let ignored = vec![false; c.len()];
    assert_eq!(find_bracket_candidate(&c, &ignored, 2), Some(1));
    assert_eq!(find_bracket_candidate(&c, &ignored, 5), None);
    assert_eq!(scan_forward_for_match(&c, &ignored, 0, '(', ')'), Some(6));
    assert_eq!(scan_forward_for_match(&c, &ignored, 1, '(', ')'), Some(3));
    assert_eq!(scan_backward_for_match(&c, &ignored, 6, '(', ')'), Some(0));
    assert_eq!(scan_backward_for_match(&c, &ignored, 3, '(', ')'), Some(1));
}

#[test]
fn decorations_from_cursor() {
    let src = "(a)\n(b)";
    let none = editor_decorations(src, None);
    assert_eq!(none.current_line(), None);
    assert_eq!(none.matched_brackets(), None);
    let d = editor_decorations(src, Some(4));
    assert_eq!(d.current_line(), Some((4, 7)));
    assert_eq!(d.matched_brackets(), Some((4, 6)));
    assert_eq!(decoration_at(&d, 4), Decoration::MatchedBracket);
    assert_eq!(decoration_at(&d, 5), Decoration::CurrentLine);
    assert_eq!(decoration_at(&d, 1), Decoration::Plain);
}

#[test]
fn word_classes() {
    assert!(is_punctuation('\''));
    assert!(!is_punctuation('"'));
    assert!(is_token_boundary(';'));
    assert!(is_special_form("lambda"));
    assert!(!is_special_form("lambdas"));
    assert!(is_builtin(">="));
    assert!(!is_builtin("car!"));
    assert_eq!(classify_token("#t"), TokenClass::Boolean);
    assert_eq!(classify_token("."), TokenClass::Number);
    assert_eq!(classify_token("-1.5e3"), TokenClass::Number);
    assert_eq!(classify_token("define"), TokenClass::SpecialForm);
    assert_eq!(classify_token("map"), TokenClass::Builtin);
    assert_eq!(classify_token("x1"), TokenClass::Identifier);
}

#[test]
fn float_literals() {
    for ok in ["1", "1.", ".5", "-2.5", "+3", "1e10", "1E-3", "inf", "-Infinity", "NaN"] {
        assert!(is_float_literal(ok), "{}", ok);
        assert!(ok.parse::<f64>().is_ok(), "{}", ok);
    }
    for bad in ["", ".", "-", "1e", "e5", "1.2.3", "infinit", "1x"] {
        assert!(!is_float_literal(bad), "{}", bad);
        assert!(bad.parse::<f64>().is_err(), "{}", bad);
    }
}

#[test]
fn highlighted_runs() {
    let spans = highlight_spans("(define x \"s\") ; c");
    let expect = vec![
        HighlightSpan { start: 0, end: 1, kind: SyntaxKind::Punctuation },
        HighlightSpan { start: 1, end: 7, kind: SyntaxKind::Word(TokenClass::SpecialForm) },
        HighlightSpan { start: 7, end: 8, kind: SyntaxKind::Whitespace },
        HighlightSpan { start: 8, end: 9, kind: SyntaxKind::Word(TokenClass::Identifier) },
        HighlightSpan { start: 9, end: 10, kind: SyntaxKind::Whitespace },
        HighlightSpan { start: 10, end: 13, kind: SyntaxKind::StringLiteral },
        HighlightSpan { start: 13, end: 14, kind: SyntaxKind::Punctuation },
        HighlightSpan { start: 14, end: 15, kind: SyntaxKind::Whitespace },
        HighlightSpan { start: 15, end: 18, kind: SyntaxKind::Comment },
    ];
    assert_eq!(spans, expect);
}

#[test]
fn highlighted_runs_cover_the_text() {
    for src in ["", "x", "(a \"b\\\"c\" ; d\n  'e)", "\"open", "; only", "12 #t foo)"] {
        let spans = highlight_spans(src);
        let n = src.chars().count();
        assert_eq!(spans.is_empty(), n == 0, "{}", src);
        let mut at = 0;
        for s in &spans {
            assert_eq!(s.start, at, "{}", src);
            assert!(s.start < s.end, "{}", src);
            at = s.end;
        }
        assert_eq!(at, n, "{}", src);
    }
}

#[test]
fn bracket_matching_is_mutual() {
    let src = "(a (b \")\") ; (\n (c))";
    let n = src.chars().count();
    for cursor in 0..n {
        if let Some((open, close)) = matched_bracket_pair(src, cursor) {
            assert_eq!(matched_bracket_pair(src, open), Some((open, close)));
            assert_eq!(matched_bracket_pair(src, close), Some((open, close)));
        }
    }
    assert_eq!(matched_bracket_pair(src, 3), Some((3, 9)));
    assert_eq!(matched_bracket_pair(src, 9), Some((3, 9)));
}

#[test]
fn current_line_holds_cursor() {
    let src = "ab\ncde\n\nf";
    for cursor in 0..src.len() {
        let (start, end) = line_char_range(src, cursor).unwrap();
        assert!(start <= cursor && start < end && end <= src.len());
        if src.as_bytes()[cursor] != b'\n' {
            assert!(cursor < end);
        }
    }
    // the cursor on the newline that ends a line lies just past the range
    assert_eq!(line_char_range(src, 2), Some((0, 2)));
}

#[test]
fn reference_entries() {
    let (special_forms, builtins) = mini_lisp_rs::docs::generate_documentation();
    assert_eq!(special_forms.len(), 10);
    assert_eq!(builtins.len(), 47);
    assert_eq!(special_forms[0], ("begin".to_string(), "Evaluate expressions in sequence, return last value.".to_string()));
    assert_eq!(special_forms[9].0, "or");
    assert_eq!(builtins[0].0, "append");
    assert_eq!(builtins[46], (">=".to_string(), "num1 num2 - Greater or equal.".to_string()));
}

#[test]
fn reference_names_are_the_highlighted_words() {
    let (special_forms, builtins) = mini_lisp_rs::docs::generate_documentation();
    for (name, _) in &special_forms {
        assert!(is_special_form(name), "{}", name);
    }
    for (i, (name, _)) in builtins.iter().enumerate() {
        assert!(is_builtin(name), "{}", name);
        assert!(builtins[i + 1..].iter().all(|(other, _)| other != name), "{}", name);
    }
    assert!(!is_builtin("lambda"));
}

#[test]
fn bound_names_are_highlighted_as_builtins() {
    let bound = mini_lisp_rs::builtins::builtin_map();
    assert_eq!(bound.len(), 47);
    for b in &bound {
        assert!(is_builtin(&b.name), "{}", b.name);
        assert!(!is_special_form(&b.name), "{}", b.name);
    }
    assert!(is_builtin("car") && is_builtin(">="));
    assert!(!is_builtin("define") && !is_builtin("caar"));
    assert!(is_special_form("define") && !is_builtin("unquote"));
}
