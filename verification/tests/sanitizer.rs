use frp_launcher::utils::sanitize_log;

#[test]
fn whole_token_is_replaced_by_the_token_mark() {
    assert_eq!(
        sanitize_log("login with abc.def123456 ok", "abc.def123456"),
        "login with ***TOKEN*** ok"
    );
}

#[test]
fn every_occurrence_of_the_token_is_replaced() {
    assert_eq!(sanitize_log("secret9 and secret9", "secret9"), "***TOKEN*** and ***TOKEN***");
}

#[test]
fn both_parts_of_a_dotted_token_are_redacted_when_long_enough() {
    assert_eq!(sanitize_log("x abcdef y ghijkl z", "abcdef.ghijkl"), "x *** y *** z");
}

#[test]
fn a_part_of_five_characters_is_left_alone() {
    assert_eq!(sanitize_log("abcde and fghijk", "abcde.fghijk"), "abcde and ***");
}

#[test]
fn a_part_of_six_characters_is_redacted() {
    assert_eq!(sanitize_log("abcdef", "abcdef.x"), "***");
}

#[test]
fn the_token_is_split_at_its_first_dot() {
    // The second part is everything behind the first dot, further dots included.
    assert_eq!(sanitize_log("see b.cdefg here", "a.b.cdefg"), "see *** here");
    assert_eq!(sanitize_log("see cdefg here", "a.b.cdefg"), "see cdefg here");
}

#[test]
fn prefixes_of_a_long_token_are_redacted_longest_first() {
    assert_eq!(sanitize_log("see abcdefghij!", "abcdefghijkl"), "see ***!");
    assert_eq!(sanitize_log("abcdefgh", "abcdefghijkl"), "***");
    assert_eq!(sanitize_log("abcdefghi", "abcdefghijkl"), "***");
}

#[test]
fn a_prefix_of_seven_characters_is_left_alone() {
    assert_eq!(sanitize_log("abcdefg", "abcdefghijkl"), "abcdefg");
}

#[test]
fn prefixes_of_a_token_of_nine_characters_are_left_alone() {
    assert_eq!(sanitize_log("abcdefgh", "abcdefghi"), "abcdefgh");
}

#[test]
fn prefixes_of_a_token_of_ten_characters_are_redacted() {
    assert_eq!(sanitize_log("abcdefgh", "abcdefghij"), "***");
}

#[test]
fn a_line_without_the_token_stays_as_it_is() {
    assert_eq!(sanitize_log("connection established", "abc.def123456"), "connection established");
}

#[test]
fn redacting_twice_is_redacting_once() {
    let secret = "abc.def123456";
    let lines = [
        "token abc.def123456 and def123456 and abc.def1",
        "abc.def12345",
        "nothing to see",
        "",
        "abc.def123456abc.def123456",
    ];
    for line in lines {
        let once = sanitize_log(line, secret);
        assert_eq!(sanitize_log(&once, secret), once);
    }
}

#[test]
fn the_redacted_line_does_not_hold_the_token() {
    let secret = "abc.def123456";
    let lines = [
        "abc.def123456",
        "xabc.def123456y",
        "abc.def123456 abc.def123456",
        "abc.abc.def123456",
    ];
    for line in lines {
        assert!(line.contains(secret));
        assert!(!sanitize_log(line, secret).contains(secret));
    }
}

#[test]
fn an_empty_token_is_marked_between_all_characters() {
    assert_eq!(sanitize_log("ab", ""), "***TOKEN***a***TOKEN***b***TOKEN***");
    assert_eq!(sanitize_log("", ""), "***TOKEN***");
}

#[test]
fn a_token_with_a_star_can_come_back_from_a_mark() {
    // Such tokens are outside what the redaction promises.
    assert_eq!(sanitize_log("aa*", "a*"), "a***TOKEN***");
    assert!(sanitize_log("aa*", "a*").contains("a*"));
}

#[test]
fn a_token_inside_the_word_token_comes_back_from_the_mark() {
    assert_eq!(sanitize_log("KEN", "KEN"), "***TOKEN***");
}

#[test]
fn lengths_are_counted_in_bytes() {
    // Three characters before the dot, six bytes.
    assert_eq!(sanitize_log("see äöü here", "äöü.x"), "see *** here");
    assert_eq!(sanitize_log("see äö here", "äö.x"), "see äö here");
    // Twelve bytes: the prefixes of four characters and more are redacted.
    assert_eq!(sanitize_log("ääää", "ääääää"), "***");
    assert_eq!(sanitize_log("äää", "ääääää"), "äää");
    // Eight bytes: no prefix is redacted.
    assert_eq!(sanitize_log("äää", "ääää"), "äää");
}

/// The redaction written with the standard library's own search and
/// replacement, for tokens of one-byte characters.
fn by_the_standard_library(message: &str, token: &str) -> String {
    assert!(token.is_ascii());
    let mut result = message.replace(token, "***TOKEN***");
    if let Some(dot) = token.find('.') {
        let first = &token[..dot];
        let second = &token[dot + 1..];
        if first.len() >= 6 {
            result = result.replace(first, "***");
        }
        if second.len() >= 6 {
            result = result.replace(second, "***");
        }
    }
    if token.len() >= 10 {
        for window in (8..=token.len()).rev() {
            let prefix = &token[..window];
            if result.contains(prefix) {
                result = result.replace(prefix, "***");
            }
        }
    }
    result
}

#[test]
fn the_redaction_agrees_with_the_standard_library() {
    let tokens = [
        "abc.def123456",
        "abcdef.ghijkl",
        "abcdefghijkl",
        "a.b",
        ".",
        "..........",
        "aaaaaaaaaaaa",
        "abcabcabcabc",
        "tok*n.with*stars",
        "TOKEN",
        "***",
        "",
        "x",
        "abcdefgh.",
        ".abcdefgh",
    ];
    let lines = [
        "",
        "plain line",
        "abc.def123456",
        "abc.def12345",
        "xx abcdef yy ghijkl zz abcdefgh",
        "aaaaaaaaaaaaaaaaaaaaaaaaa",
        "abcabcabcabcabcabc",
        "tok*n.with*stars and tok*n.wi",
        "***TOKEN*** ***",
        "a.b.a.b",
        "..........",
        "日志 abc.def123456 结束",
        "abcdefgh.abcdefgh",
    ];
    for token in tokens {
        for line in lines {
            assert_eq!(
                sanitize_log(line, token),
                by_the_standard_library(line, token),
                "line {:?}, token {:?}",
                line,
                token
            );
        }
    }
}

#[test]
fn matches_do_not_overlap() {
    assert_eq!(sanitize_log("aaa", "aa"), "***TOKEN***a");
}

#[test]
fn a_star_inside_the_token_does_no_harm() {
    // Such a token neither begins nor ends with a star and holds no three in
    // a row: no mark can bring it back.
    for token in ["a*b", "a**b", "ab*cd.ef*gh", "x*yz.abcdefgh"] {
        let lines = [
            "",
            "a*b",
            "aa*b",
            "a*bb",
            "a*a*b*b",
            "a**b a*b",
            "***a*b***",
            "a***TOKEN***b",
            "ab*cd.ef*gh and x*yz.abcdefgh",
            "x*yz.abc abcdefgh *abcdefgh*",
            "aa*ba*b*a**b",
        ];
        for line in lines {
            let once = sanitize_log(line, token);
            assert!(!once.contains(token), "line {:?}, token {:?}", line, token);
            assert_eq!(sanitize_log(&once, token), once, "line {:?}, token {:?}", line, token);
        }
    }
}

#[test]
fn a_searched_part_or_prefix_is_not_left_behind() {
    let token = "abcdef.ghijkl";
    let searched = [
        "abcdef.ghijkl", "abcdef", "ghijkl", "abcdef.g", "abcdef.gh", "abcdef.ghi", "abcdef.ghij",
        "abcdef.ghijk",
    ];
    let lines = [
        "abcdef.ghijkl abcdef ghijkl abcdef.g",
        "xabcdef.ghijy",
        "abcdeabcdef.ghabcdef",
        "ghijklghijkl",
        "abcdef.abcdef.ghijkl",
    ];
    for line in lines {
        let once = sanitize_log(line, token);
        for piece in searched {
            assert!(!once.contains(piece), "line {:?}, piece {:?}", line, piece);
        }
    }
}

#[test]
fn a_prefix_that_ends_with_a_star_can_come_back() {
    // Outside what the redaction promises: the prefix of eight characters
    // ends with a star, and the mark that replaces it completes it again.
    let token = "abcdefg*hij";
    let once = sanitize_log("abcdefgabcdefg*", token);
    assert_eq!(once, "abcdefg***");
    assert!(once.contains("abcdefg*"));
    assert_eq!(sanitize_log(&once, token), "*****");
}
