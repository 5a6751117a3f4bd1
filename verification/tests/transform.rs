use snake_camel::camel::camel_case;
use snake_camel::chars::{lower, upper, whitespace};
use snake_camel::lines::{contains_whitespace, lines_of, trim_of};
use snake_camel::text::{chars_of, string_of};
use snake_camel::{ccus, convert, join_lines, uscc, Notice};

fn snake(text: &str) -> String {
    uscc(text.to_string(), "\n")
}

fn chars(text: &str) -> Vec<char> {
    text.chars().collect()
}

fn strings(lines: &[&str]) -> Vec<String> {
    lines.iter().map(|l| l.to_string()).collect()
}

#[test]
fn identity_returns_the_text() {
    for text in ["", "a_b", "Two Words\r\n\n", "  \t", "__x__\n", "ÄÖ_ü ß\u{2028}"] {
        assert_eq!(ccus(text.to_string()), text);
    }
}

#[test]
fn identity_twice_returns_the_text() {
    for text in ["", "foo_bar\nBaz Qux\n", "\r\n\r\n"] {
        assert_eq!(ccus(ccus(text.to_string())), text);
    }
}

#[test]
fn camel_case_line_is_lowercased() {
    assert_eq!(snake("FooBar"), "foobar");
    assert_eq!(snake("FooBar\n"), "foobar");
    assert_eq!(snake("HTTPServer2"), "httpserver2");
}

#[test]
fn segments_are_joined() {
    assert_eq!(snake("foo_bar_baz"), "fooBarBaz");
    assert_eq!(snake("_leading"), "Leading");
    assert_eq!(snake("a__b"), "aB");
}

#[test]
fn later_segments_are_capitalized() {
    assert_eq!(snake("FOO_BAR_BAZ"), "fooBarBaz");
    assert_eq!(snake("foo_bAR"), "fooBar");
    assert_eq!(snake("x_y_z"), "xYZ");
    assert_eq!(snake("trailing_"), "trailing");
    assert_eq!(snake("__double_leading"), "DoubleLeading");
    assert_eq!(snake("a_1_b"), "a1B");
    assert_eq!(snake("a_-b"), "a-b");
}

#[test]
fn line_with_space_is_dropped() {
    assert_eq!(snake("foo bar_baz"), "");
    assert_eq!(snake("first_one\nfoo bar_baz\nlast_one"), "firstOne\nlastOne");
    assert_eq!(snake("first_one\nlast_one"), "firstOne\nlastOne");
    assert_eq!(snake("first_one\nfoo_bar_baz\nlast_one"), "firstOne\nfooBarBaz\nlastOne");
}

#[test]
fn each_line_with_space_takes_one_line_away() {
    let all = convert("a_a\nb_b\nc_c\nd_d\n");
    assert_eq!(all.lines, strings(&["aA", "bB", "cC", "dD"]));
    assert_eq!(all.ignored, vec![]);

    let one = convert("a_a\nb b\nc_c\nd_d\n");
    assert_eq!(one.lines, strings(&["aA", "cC", "dD"]));
    assert_eq!(one.ignored, vec![Notice { index: 1, line: "b b".to_string() }]);

    let three = convert("a a\nb_b\nc\tc\nd\u{A0}d");
    assert_eq!(three.lines, strings(&["bB"]));
    assert_eq!(
        three.ignored,
        vec![
            Notice { index: 0, line: "a a".to_string() },
            Notice { index: 2, line: "c\tc".to_string() },
            Notice { index: 3, line: "d\u{A0}d".to_string() },
        ]
    );
}

#[test]
fn notice_holds_the_line_as_it_stands() {
    let out = convert("\n\n  two  words \r\nok\n");
    assert_eq!(out.lines, strings(&["ok"]));
    assert_eq!(out.ignored, vec![Notice { index: 2, line: "  two  words ".to_string() }]);
}

#[test]
fn blank_lines_are_dropped_without_notice() {
    let out = convert("a_b\n\n   \n\t\r\nc_d\n\u{3000}\n");
    assert_eq!(out.lines, strings(&["aB", "cD"]));
    assert_eq!(out.ignored, vec![]);
    assert_eq!(snake("a_b\n\n   \n\t\r\nc_d\n\u{3000}\n"), "aB\ncD");
    assert_eq!(snake(""), "");
    assert_eq!(snake("\n"), "");
    assert_eq!(snake("   "), "");
    assert_eq!(snake("\r\n\r\n"), "");
}

#[test]
fn white_space_around_a_line_is_cut_off() {
    assert_eq!(snake("  foo_bar  "), "fooBar");
    assert_eq!(snake("\tfoo_bar\r\n \u{2003}baz_qux\u{85}\n"), "fooBar\nbazQux");
    assert_eq!(snake(" _x"), "X");
}

#[test]
fn line_of_underscores_gives_an_empty_line() {
    assert_eq!(snake("___"), "");
    assert_eq!(snake("a\n___\nb"), "a\n\nb");
    assert_eq!(snake("_\n_"), "\n");
    let out = convert("a\n___\nb");
    assert_eq!(out.lines, strings(&["a", "", "b"]));
    assert_eq!(out.lines.len(), 3);
    assert_eq!(out.ignored, vec![]);
}

#[test]
fn line_endings_of_the_input_do_not_count() {
    assert_eq!(snake("a_b\r\nc_d\r\n"), "aB\ncD");
    assert_eq!(snake("a_b\nc_d"), "aB\ncD");
    assert_eq!(uscc("a_b\nc_d\n".to_string(), "\r\n"), "aB\r\ncD");
    assert_eq!(uscc("a_b\r\nc_d".to_string(), "\r\n"), "aB\r\ncD");
    assert_eq!(uscc("a_b\nc_d\ne_f".to_string(), ""), "aBcDeF");
    assert_eq!(uscc("a_b\nc_d\ne_f".to_string(), " | "), "aB | cD | eF");
}

#[test]
fn carriage_return_alone_ends_no_line() {
    let out = convert("a_b\rc_d\n");
    assert_eq!(out.lines, strings(&[]));
    assert_eq!(out.ignored, vec![Notice { index: 0, line: "a_b\rc_d".to_string() }]);
}

#[test]
fn letters_outside_ascii_keep_their_case() {
    assert_eq!(snake("Über_straße"), "ÜberStraße");
    assert_eq!(snake("a_épée"), "aépée");
    assert_eq!(snake("ÀB_çD"), "Àbçd");
}

#[test]
fn order_of_the_lines_is_kept() {
    assert_eq!(snake("z_z\ny y\nx_x\n\nw_w\nv v\nu_u"), "zZ\nxX\nwW\nuU");
}

#[test]
fn no_more_lines_come_out_than_go_in() {
    for text in ["", "a\nb\nc", "a b\n\n c_d \n", "\n\n\n", "x_y\r\n \r\nz z\r\n"] {
        let nonempty = text.lines().filter(|l| !l.is_empty()).count();
        let out = convert(text);
        assert!(out.lines.len() + out.ignored.len() <= nonempty, "{:?}", text);
    }
}

#[test]
fn lines_are_joined_with_the_separator() {
    assert_eq!(join_lines(&strings(&[]), "\n"), "");
    assert_eq!(join_lines(&strings(&["a"]), "\n"), "a");
    assert_eq!(join_lines(&strings(&["a", "b"]), "\n"), "a\nb");
    assert_eq!(join_lines(&strings(&["a", "", "b"]), "\r\n"), "a\r\n\r\nb");
    assert_eq!(join_lines(&strings(&["", ""]), ", "), ", ");
}

#[test]
fn text_is_cut_into_lines() {
    for text in [
        "", "\n", "a", "a\n", "a\nb", "a\r\nb\r\n", "a\n\nb", "\n\n", "a\r", "a\r\n", "\r\n",
        "a\rb\nc", "a\r\r\nb", "\na", "a\n\n", "x y\tz\n w \n",
    ] {
        let expected: Vec<Vec<char>> = text.lines().map(|l| l.chars().collect()).collect();
        assert_eq!(lines_of(&chars(text)), expected, "{:?}", text);
    }
    assert_eq!(lines_of(&chars("a\r\nb\r")), vec![chars("a"), chars("b\r")]);
    assert_eq!(lines_of(&chars("a\r\r\n\n")), vec![chars("a\r"), chars("")]);
}

#[test]
fn line_is_trimmed() {
    for line in ["", " ", "a", " a", "a ", "  a b  ", "\t\u{A0}x\u{2009}\r", "\u{3000}", "a\u{200B}"] {
        assert_eq!(trim_of(&chars(line)), &chars(line.trim())[..], "{:?}", line);
    }
    assert_eq!(trim_of(&chars("  a b  ")), &chars("a b")[..]);
}

#[test]
fn white_space_is_found() {
    assert!(!contains_whitespace(&chars("")));
    assert!(!contains_whitespace(&chars("foo_bar")));
    assert!(contains_whitespace(&chars("foo bar")));
    assert!(contains_whitespace(&chars("foo\u{2028}")));
    assert!(contains_whitespace(&chars("\nfoo")));
    assert!(!contains_whitespace(&chars("foo\u{200B}bar")));
}

#[test]
fn white_space_is_what_the_standard_library_calls_so() {
    for n in 0..=0x10FFFFu32 {
        if let Some(c) = char::from_u32(n) {
            assert_eq!(whitespace(c), c.is_whitespace(), "U+{:04X}", n);
        }
    }
}

#[test]
fn case_mapping_is_that_of_ascii() {
    for n in 0..=0x10FFFFu32 {
        if let Some(c) = char::from_u32(n) {
            assert_eq!(lower(c), c.to_ascii_lowercase(), "U+{:04X}", n);
            assert_eq!(upper(c), c.to_ascii_uppercase(), "U+{:04X}", n);
        }
    }
    assert_eq!(lower('Q'), 'q');
    assert_eq!(upper('q'), 'Q');
    assert_eq!(lower('É'), 'É');
    assert_eq!(upper('é'), 'é');
}

#[test]
fn identifier_is_converted() {
    assert_eq!(camel_case(&chars("")), chars(""));
    assert_eq!(camel_case(&chars("_")), chars(""));
    assert_eq!(camel_case(&chars("foo_bar_baz")), chars("fooBarBaz"));
    assert_eq!(camel_case(&chars("Foo")), chars("foo"));
    assert_eq!(camel_case(&chars("_foo")), chars("Foo"));
    assert_eq!(camel_case(&chars("foo__bAR_")), chars("fooBar"));
}

#[test]
fn strings_and_characters_agree() {
    for text in ["", "a", "foo_bar", "ß→\u{1F600}\n\r\t", "\u{0}"] {
        assert_eq!(chars_of(text), chars(text));
        assert_eq!(string_of(&chars(text)), text);
        assert_eq!(string_of(&chars_of(text)), text);
    }
    assert_eq!(string_of(&['a', 'b', 'c']), "abc");
    assert_eq!(string_of(&['a', 'b', 'c']).len(), 3);
}
