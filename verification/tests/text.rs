use tasklist::text::{chars_of, contains_chars, expand_tabs_chars, join_from, lines_of, split_str, str_eq, trim_str};
use tasklist::todoio::get_current_id;

#[test]
fn chars_of_gives_the_characters_in_order() {
    assert_eq!(chars_of(""), Vec::<char>::new());
    assert_eq!(chars_of("a\tb"), vec!['a', '\t', 'b']);
    assert_eq!(chars_of("gr\u{fc}n \u{1f600}"), vec!['g', 'r', '\u{fc}', 'n', ' ', '\u{1f600}']);
}

#[test]
fn split_cuts_at_every_separator() {
    for s in ["", "a", "\t", "a\tb", "\ta", "a\t", "a\t\tb", "\t\t\t", "x y\tz\n\tw"] {
        let ours = split_str(s, '\t');
        let theirs: Vec<String> = s.split('\t').map(|p| p.to_string()).collect();
        assert_eq!(ours, theirs);
        assert_eq!(ours.join("\t"), s);
    }
    assert_eq!(split_str("a,b,,c", ','), vec!["a", "b", "", "c"]);
}

#[test]
fn lines_are_read_as_the_standard_library_reads_them() {
    let inputs = [
        "", "a", "a\n", "a\r\n", "a\nb", "a\n\nb", "\n", "\n\n", "a\r", "a\r\r\n", "\r\n\r\n",
        "a\rb\n", "one\ntwo\nthree", "one\r\ntwo\r\n",
    ];
    for s in inputs {
        let theirs: Vec<String> = s.lines().map(|l| l.to_string()).collect();
        assert_eq!(lines_of(s), theirs, "on {s:?}");
    }
    assert_eq!(lines_of("a\r\nb"), vec!["a", "b"]);
    assert_eq!(lines_of("a\n\n"), vec!["a", ""]);
}

#[test]
fn trim_takes_off_white_space_at_both_ends() {
    for s in ["", " ", "a", " a", "a ", " a b ", "\t\n x \r\n", "\u{a0}x\u{3000}", "\u{200b}x", "a\u{85}"] {
        assert_eq!(trim_str(s), s.trim(), "on {s:?}");
    }
}

#[test]
fn counter_trims_what_the_standard_library_trims() {
    for code in 0..=0x10ffffu32 {
        let c = match char::from_u32(code) {
            Some(c) => c,
            None => continue,
        };
        if c.is_whitespace() {
            let mut id_file = format!("{}7{}", c, c);
            assert_eq!(get_current_id(&mut id_file).unwrap(), 7, "U+{code:04X}");
        } else if code % 997 == 0 && !c.is_ascii_digit() && c != '+' {
            let mut id_file = format!("{}7", c);
            assert_eq!(get_current_id(&mut id_file).unwrap(), 0, "U+{code:04X}");
        }
    }
}

#[test]
fn contains_finds_contiguous_parts() {
    let cases = [
        ("", ""), ("abc", ""), ("", "a"), ("abc", "abc"), ("abc", "bc"), ("abc", "ac"),
        ("abc", "abcd"), ("aaab", "aab"), ("abab", "bab"), ("hello world", "o w"),
        ("hello world", "ow"), ("\u{fc}ber", "ber"), ("\u{fc}ber", "\u{fc}b"),
    ];
    for (hay, needle) in cases {
        assert_eq!(
            contains_chars(&chars_of(hay), &chars_of(needle)),
            hay.contains(needle),
            "{needle:?} in {hay:?}"
        );
    }
}

#[test]
fn join_puts_the_separator_between_neighbours() {
    let parts: Vec<String> = ["t", "new", "buy", "milk"].iter().map(|p| p.to_string()).collect();
    assert_eq!(join_from(&parts, 0, " "), "t new buy milk");
    assert_eq!(join_from(&parts, 2, " "), "buy milk");
    assert_eq!(join_from(&parts, 3, " "), "milk");
    assert_eq!(join_from(&parts, 4, " "), "");
    assert_eq!(join_from(&parts, 1, ", "), "new, buy, milk");
    assert_eq!(join_from(&parts, 1, ""), "newbuymilk");
}

#[test]
fn tabs_are_expanded_one_for_four() {
    assert_eq!(expand_tabs_chars(&chars_of("a\tb")), chars_of("a    b"));
    assert_eq!(expand_tabs_chars(&chars_of("")), chars_of(""));
    for s in ["\t", "a\t\tb", "no tabs", "\tx\t"] {
        let ours: String = expand_tabs_chars(&chars_of(s)).into_iter().collect();
        assert_eq!(ours, s.replace('\t', "    "));
    }
}

#[test]
fn strings_are_compared_by_their_text() {
    assert!(str_eq("", ""));
    assert!(str_eq("Done", "Done"));
    assert!(!str_eq("Done", "done"));
    assert!(!str_eq("Done", "Done "));
    assert!(!str_eq("a", ""));
}
