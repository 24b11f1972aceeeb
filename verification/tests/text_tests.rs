use uptodate::text::{chars_contain, chars_of, str_trim};

#[test]
fn characters_of_a_string() {
    assert_eq!(chars_of(""), Vec::<char>::new());
    assert_eq!(chars_of("a-é_9"), vec!['a', '-', 'é', '_', '9']);
}

#[test]
fn trimming_agrees_with_the_standard_library() {
    let samples = [
        "",
        " ",
        "   \t\r\n",
        "flatpak",
        "  flatpak",
        "flatpak  ",
        "\t two words \n",
        "\u{a0}\u{2003}wide\u{3000}\u{2028}",
        "\u{1680}\u{85}",
        "a \u{feff} b",
        " _ ",
        "é ",
    ];
    for sample in samples {
        assert_eq!(str_trim(sample), sample.trim(), "{:?}", sample);
    }
}

#[test]
fn trimming_keeps_inner_whitespace() {
    assert_eq!(str_trim("  rustup   update  "), "rustup   update");
    assert_eq!(str_trim("x"), "x");
    assert_eq!(str_trim(" \n "), "");
}

#[test]
fn search_agrees_with_the_standard_library() {
    let hays = ["", "a", "ab", "aab", "hello && rm", "a|b", "übergröße", "> /dev/", ">> /dev/sda", "aaa"];
    let needles = ["", "a", "b", "ab", "aa", "&&", "|", "||", "größe", "> /dev/", ">> /dev/", "aaaa", "ö"];
    for hay in hays {
        for needle in needles {
            assert_eq!(
                chars_contain(&chars_of(hay), needle),
                hay.contains(needle),
                "{:?} in {:?}",
                needle,
                hay
            );
        }
    }
}

#[test]
fn search_finds_a_pattern_at_either_end() {
    let hay = chars_of("info: done; up to date");
    assert!(chars_contain(&hay, "info:"));
    assert!(chars_contain(&hay, "up to date"));
    assert!(chars_contain(&hay, ";"));
    assert!(!chars_contain(&hay, "Info:"));
    assert!(!chars_contain(&hay, "up to date "));
}
