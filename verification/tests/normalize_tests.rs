use dragonfly::remove_comments_and_extra_whitespace;

#[test]
fn comment_stripping() {
    assert_eq!(
        remove_comments_and_extra_whitespace("body{/* c */color:/**/red/* c2 */;}"),
        "body{color:red;}"
    );
}

#[test]
fn whitespace_collapses_to_single_spaces() {
    assert_eq!(remove_comments_and_extra_whitespace("a  \t\n b"), "a b");
    assert_eq!(remove_comments_and_extra_whitespace("  a"), " a");
    assert_eq!(remove_comments_and_extra_whitespace(""), "");
}

#[test]
fn normalize_idempotent_on_comment_free_input() {
    let inputs = ["p { color: red; }", "a  b\t c", "", "div{margin:1px   2px;}", "} } {"];
    for s in inputs {
        let once = remove_comments_and_extra_whitespace(s);
        let twice = remove_comments_and_extra_whitespace(&once);
        assert_eq!(twice, once);
    }
}

#[test]
fn normalize_idempotent_on_closed_comments() {
    let inputs = ["body{/* c */color:/**/red/* c2 */;}", "x/*a*/y"];
    for s in inputs {
        let once = remove_comments_and_extra_whitespace(s);
        let twice = remove_comments_and_extra_whitespace(&once);
        assert_eq!(twice, once);
    }
}

#[test]
fn comment_between_spaces_keeps_both_spaces() {
    // the whitespace-run check compares against the previous source
    // character, so a stripped comment between two spaces leaves two spaces:
    // one pass over this input is not a fixed point
    assert_eq!(remove_comments_and_extra_whitespace("a /*c*/ b"), "a  b");
    assert_eq!(remove_comments_and_extra_whitespace("a  b"), "a b");
}

#[test]
fn unterminated_comment_is_stripped_to_the_end() {
    assert_eq!(remove_comments_and_extra_whitespace("ab/*cd"), "ab");
}

#[test]
fn output_never_longer_than_input() {
    let inputs = ["", "x", "  ", "/* */", "a/*b*/c  d"];
    for s in inputs {
        assert!(remove_comments_and_extra_whitespace(s).chars().count() <= s.chars().count());
    }
}

#[test]
fn scanning_is_by_code_point() {
    // multi-byte characters pass through whole, and whitespace around them
    // still collapses
    assert_eq!(remove_comments_and_extra_whitespace("h\u{e9}llo  w\u{f6}rld"), "h\u{e9}llo w\u{f6}rld");
    assert_eq!(remove_comments_and_extra_whitespace("a/*\u{4e2d}\u{6587}*/b"), "ab");
}
