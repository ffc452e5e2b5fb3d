use name_formatter::name::{format_full_name, format_individual_name};

fn code(text: &str) -> Option<String> {
    format_full_name(text.to_string())
}

fn some(text: &str) -> Option<String> {
    Some(text.to_string())
}

#[test]
fn text_without_comma_has_no_code() {
    assert_eq!(code("JustOneWord"), None);
    assert_eq!(code("John Smith"), None);
    assert_eq!(code("two words and more"), None);
    assert_eq!(code(""), None);
    assert_eq!(code(" "), None);
}

#[test]
fn last_name_comes_before_first_name() {
    assert_eq!(code("Michael Johnson, USA"), some("JohnMich"));
    assert_eq!(code("John Smith, USA"), some("SmitJohn"));
    assert_eq!(code("Tsubasa Oyamada, JPN"), some("OyamTsub"));
}

#[test]
fn short_names_are_not_padded() {
    assert_eq!(code("Al Lee, USA"), some("LeeAl"));
    assert_eq!(code("A B,"), some("BA"));
    assert_eq!(code("Jo Johnson,"), some("JohnJo"));
}

#[test]
fn names_of_four_characters_are_kept_whole() {
    assert_eq!(code("Anna Wood, GBR"), some("WoodAnna"));
}

#[test]
fn middle_names_are_skipped() {
    assert_eq!(code("Mary Jane Watson, USA"), some("WatsMary"));
    assert_eq!(code("Ana  Silva, BRA"), some("SilvAna"));
}

#[test]
fn only_the_part_before_the_first_comma_counts() {
    assert_eq!(code("Smith, John, USA"), some("SmitSmit"));
    assert_eq!(code("Lee, Al"), some("LeeLee"));
    assert_eq!(code("Oyamada, Tsubasa, JPN"), some("OyamOyam"));
    assert_eq!(code("John Smith,,,"), some("SmitJohn"));
    assert_eq!(code("John Smith,Jane Doe,"), some("SmitJohn"));
}

#[test]
fn single_name_is_used_twice() {
    assert_eq!(code("Cher,"), some("CherCher"));
    assert_eq!(code("OnlyOneName,"), some("OnlyOnly"));
    assert_eq!(code("Bo, Derek"), some("BoBo"));
}

#[test]
fn two_names_that_start_alike() {
    assert_eq!(code("Anna, Anna"), some("AnnaAnna"));
    assert_eq!(code("Johnson, Johnny"), some("JohnJohn"));
}

#[test]
fn nothing_before_the_comma_has_no_code() {
    assert_eq!(code(","), None);
    assert_eq!(code(", John"), None);
    assert_eq!(code(",,"), None);
    assert_eq!(code(",John Smith,"), None);
}

#[test]
fn only_spaces_before_the_comma_have_no_code() {
    assert_eq!(code(" ,"), None);
    assert_eq!(code("  ,x"), None);
    assert_eq!(code("   , John Smith"), None);
    assert_eq!(code(" ,,"), None);
}

#[test]
fn spaces_at_the_edges_make_empty_names() {
    assert_eq!(code("John ,"), some("John"));
    assert_eq!(code(" Smith,"), some("Smit"));
    assert_eq!(code(" John Smith,"), some("Smit"));
    assert_eq!(code("John Smith ,"), some("John"));
    assert_eq!(code(" x ,"), some(""));
}

#[test]
fn other_white_space_before_the_comma_is_a_name() {
    assert_eq!(code("\t,"), some("\t\t"));
    assert_eq!(code(" \n,"), some("\n"));
}

#[test]
fn characters_are_counted_not_bytes() {
    assert_eq!(code("\u{c9}lodie \u{c5}ngstr\u{f6}m, SWE"), some("\u{c5}ngs\u{c9}lod"));
    assert_eq!(code("\u{5c71}\u{7530}\u{592a}\u{90ce}\u{4e00} \u{4f50}\u{85e4},"),
        some("\u{4f50}\u{85e4}\u{5c71}\u{7530}\u{592a}\u{90ce}"));
}

#[test]
fn other_white_space_does_not_split() {
    assert_eq!(code("John\tSmith,"), some("JohnJohn"));
    assert_eq!(code("A\nB C,"), some("CA\nB"));
}

#[test]
fn a_code_is_left_alone() {
    for text in ["Michael Johnson, USA", "Cher,", "Al Lee, USA", " x ,", "a b c d,e"] {
        let first = code(text).unwrap();
        assert!(!first.contains(','));
        assert!(first.chars().count() <= 8);
        assert_eq!(format_full_name(first), None);
    }
}

#[test]
fn long_text_is_handled() {
    let mut text = String::new();
    for _ in 0..20000 {
        text.push_str("word ");
    }
    assert_eq!(format_full_name(text.clone()), None);
    text.push_str("Zed,");
    assert_eq!(format_full_name(text), some("Zedword"));
}

#[test]
fn individual_name_keeps_at_most_four() {
    assert_eq!(format_individual_name("Johnson".to_string()), "John");
    assert_eq!(format_individual_name("Abcd".to_string()), "Abcd");
    assert_eq!(format_individual_name("Abcde".to_string()), "Abcd");
    assert_eq!(format_individual_name("Lee".to_string()), "Lee");
    assert_eq!(format_individual_name("Al".to_string()), "Al");
    assert_eq!(format_individual_name("x".to_string()), "x");
    assert_eq!(format_individual_name(String::new()), "");
}

#[test]
fn individual_name_counts_characters() {
    assert_eq!(format_individual_name("\u{c5}ngstr\u{f6}m".to_string()), "\u{c5}ngs");
    assert_eq!(format_individual_name("\u{65e5}\u{672c}\u{8a9e}\u{306e}\u{6587}".to_string()),
        "\u{65e5}\u{672c}\u{8a9e}\u{306e}");
    assert_eq!(format_individual_name("a, b".to_string()), "a, b");
}
