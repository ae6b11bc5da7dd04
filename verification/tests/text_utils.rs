use upscale_pipeline::text::{
    chars_to_string, contains_chars, owned, push_str, split_chars, str_chars, str_eq, trim_chars,
    white_space,
};

fn chars(s: &str) -> Vec<char> {
    s.chars().collect()
}

fn pieces(v: Vec<Vec<char>>) -> Vec<String> {
    v.into_iter().map(|p| p.into_iter().collect()).collect()
}

#[test]
fn split_keeps_empty_pieces() {
    assert_eq!(pieces(split_chars(&chars("a\nb\n"), '\n')), vec!["a", "b", ""]);
    assert_eq!(pieces(split_chars(&chars(""), '\n')), vec![""]);
    assert_eq!(pieces(split_chars(&chars("\n\n"), '\n')), vec!["", "", ""]);
    assert_eq!(pieces(split_chars(&chars("no separator"), '"')), vec!["no separator"]);
}

#[test]
fn split_matches_std_split() {
    let s = "<a class=\"download\" href=\"u\">x</a>";
    let ours = pieces(split_chars(&chars(s), '"'));
    let std: Vec<String> = s.split('"').map(String::from).collect();
    assert_eq!(ours, std);
}

#[test]
fn contains_finds_infix() {
    assert!(contains_chars(&chars("abc class=\"download\" def"), &chars("class=\"download\"")));
    assert!(!contains_chars(&chars("class=\"downloa"), &chars("class=\"download\"")));
    assert!(contains_chars(&chars("anything"), &chars("")));
    assert!(contains_chars(&chars("abc"), &chars("abc")));
    assert!(!contains_chars(&chars("ab"), &chars("abc")));
}

#[test]
fn trim_removes_unicode_white_space() {
    let t: String = trim_chars(&chars(" \t x y \u{3000}\n")).into_iter().collect();
    assert_eq!(t, "x y");
    let empty: String = trim_chars(&chars(" \u{85}\u{a0} ")).into_iter().collect();
    assert_eq!(empty, "");
    let s = "\u{2009}link\u{200b}";
    let ours: String = trim_chars(&chars(s)).into_iter().collect();
    assert_eq!(ours, s.trim());
}

#[test]
fn white_space_follows_char_is_whitespace() {
    for c in ['\t', '\n', '\u{b}', '\u{c}', '\r', ' ', '\u{85}', '\u{a0}', '\u{1680}', '\u{2000}',
        '\u{200a}', '\u{2028}', '\u{2029}', '\u{202f}', '\u{205f}', '\u{3000}', 'a', '\u{200b}',
        '\u{180e}', '\u{feff}', '0']
    {
        assert_eq!(white_space(c), c.is_whitespace(), "{:?}", c);
    }
}

#[test]
fn conversions_round_trip() {
    let s = "héllo wörld ✓";
    assert_eq!(str_chars(s), chars(s));
    assert_eq!(chars_to_string(str_chars(s)), s);
    assert_eq!(owned("x"), "x".to_string());
    let mut v = vec!['a'];
    push_str(&mut v, "bç");
    assert_eq!(v, vec!['a', 'b', 'ç']);
}

#[test]
fn str_eq_compares_contents() {
    assert!(str_eq("abc", "abc"));
    assert!(!str_eq("abc", "abd"));
    assert!(!str_eq("", "a"));
}
