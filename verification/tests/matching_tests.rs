use linegrep::{find_span, match_line, match_lines, MatchKind, MatchResult, Pattern};

#[test]
fn literal_precedence_same_position() {
    // "a.b" is valid both as a literal string and as a regular expression;
    // the line contains the literal, so the literal path must win.
    let p = Pattern::compile("a.b").unwrap();
    let line = "xa.by a_b";
    let s = find_span(&p, line).expect("the line contains the literal a.b");
    assert_eq!(s.start, 1);
    assert_eq!(s.end, 4);
    assert_eq!(s.kind, MatchKind::Literal);
    match match_line(&p, line, 0) {
        MatchResult::Matched(h) => {
            assert_eq!(h.line_number, 1);
            assert_eq!(h.column, 2);
            assert_eq!(h.before, "x");
            assert_eq!(h.matched, "a.b");
            assert_eq!(h.after, "y a_b");
        }
        MatchResult::NoMatch => panic!("the line must match"),
    }
}

#[test]
fn literal_precedence_beats_earlier_regex_match() {
    // The regex "a.b" would match "a_b" at column 2, but the literal
    // occurrence further right must win.
    let p = Pattern::compile("a.b").unwrap();
    let line = "xa_by a.b";
    let s = find_span(&p, line).expect("the line contains the literal a.b");
    assert_eq!(s.start, 6);
    assert_eq!(s.end, 9);
    assert_eq!(s.kind, MatchKind::Literal);
    match match_line(&p, line, 0) {
        MatchResult::Matched(h) => {
            assert_eq!(h.column, 7);
            assert_eq!(h.before, "xa_by ");
            assert_eq!(h.matched, "a.b");
            assert_eq!(h.after, "");
        }
        MatchResult::NoMatch => panic!("the line must match"),
    }
}

#[test]
fn regex_fallback() {
    // No literal "a.b" in the line, so the regular expression decides.
    let p = Pattern::compile("a.b").unwrap();
    let line = "xa_by";
    let s = find_span(&p, line).expect("the regex a.b matches a_b");
    assert_eq!(s.start, 1);
    assert_eq!(s.end, 4);
    assert_eq!(s.kind, MatchKind::Regex);
    match match_line(&p, line, 0) {
        MatchResult::Matched(h) => {
            assert_eq!(h.column, 2);
            assert_eq!(h.before, "x");
            assert_eq!(h.matched, "a_b");
            assert_eq!(h.after, "y");
        }
        MatchResult::NoMatch => panic!("the line must match via the regex"),
    }
}

#[test]
fn no_match_at_all() {
    let p = Pattern::compile("zzz").unwrap();
    assert!(matches!(match_line(&p, "hello world", 0), MatchResult::NoMatch));
    assert!(find_span(&p, "hello world").is_none());
}

#[test]
fn empty_pattern_matches_at_column_one() {
    let p = Pattern::compile("").unwrap();
    match match_line(&p, "abc", 0) {
        MatchResult::Matched(h) => {
            assert_eq!(h.column, 1);
            assert_eq!(h.before, "");
            assert_eq!(h.matched, "");
            assert_eq!(h.after, "abc");
        }
        MatchResult::NoMatch => panic!("the empty pattern occurs in every line"),
    }
}

#[test]
fn fragments_reconstruct_the_line() {
    let p = Pattern::compile("lo w").unwrap();
    let lines = ["hello world", "lo w", "xxlo wyy"];
    for line in lines {
        match match_line(&p, line, 0) {
            MatchResult::Matched(h) => {
                assert_eq!(format!("{}{}{}", h.before, h.matched, h.after), line);
                assert_eq!(h.matched, "lo w");
            }
            MatchResult::NoMatch => panic!("every line here contains the literal"),
        }
    }
}

#[test]
fn line_number_is_one_based() {
    let p = Pattern::compile("a").unwrap();
    match match_line(&p, "abc", 41) {
        MatchResult::Matched(h) => assert_eq!(h.line_number, 42),
        MatchResult::NoMatch => panic!("the line must match"),
    }
}

#[test]
fn columns_count_characters() {
    // Offsets are character offsets, not byte offsets: the two-byte Greek
    // letters before the match still count as one column each.
    let p = Pattern::compile("βγ").unwrap();
    match match_line(&p, "xαβγy", 0) {
        MatchResult::Matched(h) => {
            assert_eq!(h.column, 3);
            assert_eq!(h.before, "xα");
            assert_eq!(h.matched, "βγ");
            assert_eq!(h.after, "y");
        }
        MatchResult::NoMatch => panic!("the line must match"),
    }
}

#[test]
fn regex_fallback_counts_characters() {
    let p = Pattern::compile("α.γ").unwrap();
    match match_line(&p, "xαβγy", 0) {
        MatchResult::Matched(h) => {
            assert_eq!(h.column, 2);
            assert_eq!(h.before, "x");
            assert_eq!(h.matched, "αβγ");
            assert_eq!(h.after, "y");
        }
        MatchResult::NoMatch => panic!("the line must match via the regex"),
    }
}

#[test]
fn compiling_twice_matches_identically() {
    let p1 = Pattern::compile("h.llo").unwrap();
    let p2 = Pattern::compile("h.llo").unwrap();
    let lines = ["hello world", "h_llo", "none here", "h.llo literal"];
    for (n, line) in lines.iter().enumerate() {
        let r1 = match_line(&p1, line, n);
        let r2 = match_line(&p2, line, n);
        match (r1, r2) {
            (MatchResult::Matched(a), MatchResult::Matched(b)) => {
                assert_eq!(a.line_number, b.line_number);
                assert_eq!(a.column, b.column);
                assert_eq!(a.before, b.before);
                assert_eq!(a.matched, b.matched);
                assert_eq!(a.after, b.after);
            }
            (MatchResult::NoMatch, MatchResult::NoMatch) => {}
            _ => panic!("the two compilations disagree on a line"),
        }
    }
}

#[test]
fn agrees_with_the_regex_engine() {
    // On a line with no literal occurrence, the reported span must be the
    // regex engine's own leftmost match.
    let p = Pattern::compile("h.llo").unwrap();
    let line = "yhello world";
    let re = regex::Regex::new("h.llo").unwrap();
    let m = re.find(line).unwrap();
    match match_line(&p, line, 0) {
        MatchResult::Matched(h) => {
            // The line is ASCII, so byte offsets and character offsets agree.
            assert_eq!(h.column, m.start() + 1);
            assert_eq!(h.matched, m.as_str());
            assert_eq!(h.before, &line[..m.start()]);
            assert_eq!(h.after, &line[m.end()..]);
        }
        MatchResult::NoMatch => panic!("the line must match via the regex"),
    }
}

#[test]
fn multi_file_only_matching_file_reports() {
    let p = Pattern::compile("foo").unwrap();
    let f1: Vec<String> = vec!["hello world".to_string(), "say foo now".to_string()];
    let f2: Vec<String> = vec!["bar".to_string(), "baz".to_string()];
    let r1 = match_lines(&p, &f1);
    assert_eq!(r1.len(), 1);
    assert_eq!(r1[0].line_number, 2);
    assert_eq!(r1[0].matched, "foo");
    let r2 = match_lines(&p, &f2);
    assert!(r2.is_empty());
}

#[test]
fn matched_lines_come_in_ascending_order() {
    let p = Pattern::compile("ab").unwrap();
    let lines: Vec<String> = vec![
        "ab at the start".to_string(),
        "nothing".to_string(),
        "then ab again".to_string(),
        "and ab once more".to_string(),
    ];
    let r = match_lines(&p, &lines);
    assert_eq!(r.len(), 3);
    assert_eq!(r[0].line_number, 1);
    assert_eq!(r[1].line_number, 3);
    assert_eq!(r[2].line_number, 4);
    for h in &r {
        assert_eq!(h.matched, "ab");
    }
}

#[test]
fn find_substring_returns_leftmost() {
    assert_eq!(linegrep::find_substring("abcabc", "bc"), Some(1));
    assert_eq!(linegrep::find_substring("abcabc", "zz"), None);
    assert_eq!(linegrep::find_substring("abc", ""), Some(0));
    assert_eq!(linegrep::find_substring("", "a"), None);
    assert_eq!(linegrep::find_substring("", ""), Some(0));
}
