use rvpacker_txt::scripts::{scripts_text_is_well_formed, scripts_to_text, text_to_scripts};
use rvpacker_txt::text::{chars_of, each_line, file_extension, parse_i32, push_i32, string_of};
use rvpacker_txt::Scripts;

fn parse(s: &str) -> Option<i32> {
    let cs: Vec<char> = s.chars().collect();
    parse_i32(&cs)
}

#[test]
fn each_line_keeps_line_feeds() {
    assert_eq!(each_line("a\nbc\n\nd"), vec!["a\n", "bc\n", "\n", "d"]);
    assert_eq!(each_line("x\n"), vec!["x\n"]);
    assert_eq!(each_line(""), Vec::<String>::new());
    assert_eq!(each_line("no feed"), vec!["no feed"]);
    assert_eq!(each_line("\r\n\r\n"), vec!["\r\n", "\r\n"]);
}

#[test]
fn i32_texts() {
    let mut s = String::new();
    push_i32(&mut s, -2147483648);
    assert_eq!(s, "-2147483648");
    let mut t = String::from("n=");
    push_i32(&mut t, 907);
    assert_eq!(t, "n=907");
    let mut z = String::new();
    push_i32(&mut z, 0);
    assert_eq!(z, "0");
}

#[test]
fn i32_parsing() {
    assert_eq!(parse("42"), Some(42));
    assert_eq!(parse("+42"), Some(42));
    assert_eq!(parse("-0042"), Some(-42));
    assert_eq!(parse("2147483647"), Some(2147483647));
    assert_eq!(parse("-2147483648"), Some(-2147483648));
    assert_eq!(parse("2147483648"), None);
    assert_eq!(parse("99999999999999999999"), None);
    assert_eq!(parse("-"), None);
    assert_eq!(parse(""), None);
    assert_eq!(parse(" 1"), None);
    assert_eq!(parse("1a"), None);
    for x in [0, 1, -1, 12345, -98765, i32::MAX, i32::MIN] {
        let mut s = String::new();
        push_i32(&mut s, x);
        assert_eq!(parse(&s), Some(x));
        assert_eq!(s, x.to_string());
    }
}

#[test]
fn chars_and_strings() {
    let cs = chars_of("héllo");
    assert_eq!(cs, vec!['h', 'é', 'l', 'l', 'o']);
    assert_eq!(string_of(&cs), "héllo");
}

#[test]
fn scripts_text_format() {
    let scripts = Scripts::new(
        vec![12, -3],
        vec![String::from("puts 1\r\nputs 2"), String::from("x = 1\n")],
        vec![String::from("Main"), String::from("Game_Temp")],
    );
    let text = scripts_to_text(&scripts);
    assert_eq!(
        text,
        "<!-- SCRIPT: 12, Main -->\nputs 1\nputs 2\n<!-- SCRIPT: -3, Game_Temp -->\nx = 1\n"
    );
}

#[test]
fn scripts_text_shortest_list() {
    let scripts = Scripts::new(vec![1, 2, 3], vec![String::from("")], vec![String::from("a"), String::from("b")]);
    assert_eq!(scripts_to_text(&scripts), "<!-- SCRIPT: 1, a -->\n\n");
}

#[test]
fn scripts_text_reads_back() {
    let scripts = Scripts::new(
        vec![7, 8],
        vec![String::from("a\r\nb"), String::from("")],
        vec![String::from("First"), String::from("Second")],
    );
    let text = scripts_to_text(&scripts);
    assert!(scripts_text_is_well_formed(&text));
    let back = text_to_scripts(&text);
    assert_eq!(back.numbers, vec![7, 8]);
    assert_eq!(back.names, vec!["First", "Second"]);
    assert_eq!(back.contents, vec!["a\nb\n", "\n"]);
}

#[test]
fn scripts_text_reading_details() {
    // Text before the first header is dropped, and an empty last script
    // has no content.
    let text = "junk\n<!-- SCRIPT: 5, A -->\nline\n<!-- SCRIPT: 6, B -->\n";
    assert!(scripts_text_is_well_formed(text));
    let s = text_to_scripts(text);
    assert_eq!(s.numbers, vec![5, 6]);
    assert_eq!(s.names, vec!["A", "B"]);
    assert_eq!(s.contents, vec!["line\n"]);
}

#[test]
fn scripts_text_malformed_headers() {
    assert!(!scripts_text_is_well_formed("<!-- SCRIPT: x, A -->\n"));
    assert!(!scripts_text_is_well_formed("<!-- SCRIPT: 1 A -->\n"));
    assert!(!scripts_text_is_well_formed("<!-- SCRIPT: 1, A -->"));
    assert!(!scripts_text_is_well_formed("<!-- SCRIPTS 1, A -->\n"));
    assert!(scripts_text_is_well_formed("plain\n<!-- comment -->\n"));
}

#[test]
fn scripts_header_names() {
    // The one space after the comma separates the name; a name may hold
    // commas and further spaces.
    let s = text_to_scripts("<!-- SCRIPT: 1,NoSpace -->\n<!-- SCRIPT: 2,  Two, Parts -->\nx\n");
    assert_eq!(s.numbers, vec![1, 2]);
    assert_eq!(s.names, vec!["NoSpace", " Two, Parts"]);
    assert_eq!(s.contents, vec!["", "x\n"]);
}

#[test]
fn file_extensions() {
    assert_eq!(file_extension("Map001.rvdata2"), Some(String::from("rvdata2")));
    assert_eq!(file_extension("a.b.c"), Some(String::from("c")));
    assert_eq!(file_extension("name."), Some(String::new()));
    assert_eq!(file_extension(".hidden"), None);
    assert_eq!(file_extension("plain"), None);
    assert_eq!(file_extension(".."), None);
}
