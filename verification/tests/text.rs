use mdbook_replace::text::replace;

#[test]
fn replaces_every_occurrence() {
    assert_eq!(replace("banana", "a", "X"), "bXnXnX");
}

#[test]
fn leaves_text_without_occurrence() {
    assert_eq!(replace("banana", "z", "X"), "banana");
    assert_eq!(replace("banana", "bananas", "X"), "banana");
}

#[test]
fn replaces_whole_text() {
    assert_eq!(replace("banana", "banana", "kiwi"), "kiwi");
}

#[test]
fn occurrences_do_not_overlap() {
    assert_eq!(replace("aaa", "aa", "b"), "ba");
    assert_eq!(replace("aaaa", "aa", "b"), "bb");
    assert_eq!(replace("abababa", "aba", "X"), "XbX");
}

#[test]
fn takes_the_leftmost_occurrence_first() {
    assert_eq!(replace("aab", "ab", "X"), "aX");
    assert_eq!(replace("xxab", "xa", "-"), "x-b");
}

#[test]
fn does_not_scan_what_it_has_written() {
    assert_eq!(replace("aa", "a", "aa"), "aaaa");
    assert_eq!(replace("ab", "b", "ab"), "aab");
}

#[test]
fn removes_occurrences_when_replacement_is_empty() {
    assert_eq!(replace("a.b.c", ".", ""), "abc");
    assert_eq!(replace("aaa", "a", ""), "");
}

#[test]
fn empty_text_stays_empty_for_a_pattern() {
    assert_eq!(replace("", "a", "X"), "");
}

#[test]
fn empty_pattern_matches_at_every_boundary() {
    assert_eq!(replace("abc", "", "-"), "-a-b-c-");
    assert_eq!(replace("a", "", "xy"), "xyaxy");
}

#[test]
fn empty_pattern_in_empty_text_matches_once() {
    assert_eq!(replace("", "", "X"), "X");
    assert_eq!(replace("", "", ""), "");
}

#[test]
fn works_on_characters_not_bytes() {
    assert_eq!(replace("h\u{e9}llo w\u{f6}rld", "\u{f6}", "oe"), "h\u{e9}llo woerld");
    assert_eq!(replace("\u{65e5}\u{672c}\u{8a9e}\u{65e5}\u{672c}", "\u{65e5}\u{672c}", "JP"), "JP\u{8a9e}JP");
    assert_eq!(replace("\u{e9}\u{e8}", "", "|"), "|\u{e9}|\u{e8}|");
}

#[test]
fn agrees_with_the_standard_library() {
    let texts = [
        "",
        "a",
        "banana",
        "aaaa",
        "abababab",
        "ACME builds TODO devices. TODO.",
        "line one\nline two\n",
        "h\u{e9}llo w\u{f6}rld \u{1f600}!",
        "\u{65e5}\u{672c}\u{8a9e}\u{65e5}\u{672c}",
    ];
    let patterns = ["", "a", "aa", "ab", "ba", "ana", "TODO", "\n", "\u{e9}", "\u{65e5}\u{672c}", "zzz"];
    let replacements = ["", "X", "aa", "a", "\u{1f600}", "TODO TODO"];
    for text in texts {
        for from in patterns {
            for to in replacements {
                assert_eq!(replace(text, from, to), text.replace(from, to));
            }
        }
    }
}
