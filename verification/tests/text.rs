use l2_cli::text::{chars_of, matches_at, replace_all, same_text};

fn chars(s: &str) -> Vec<char> {
    s.chars().collect()
}

#[test]
fn replace_all_replaces_a_single_occurrence() {
    assert_eq!(replace_all("Hello {{project_name}}!", "{{project_name}}", "demo"), "Hello demo!");
}

#[test]
fn replace_all_replaces_every_occurrence() {
    assert_eq!(replace_all("{{x}}-{{x}}-{{x}}", "{{x}}", "ab"), "ab-ab-ab");
}

#[test]
fn replace_all_leaves_text_without_the_token() {
    assert_eq!(replace_all("nothing here", "{{x}}", "ab"), "nothing here");
}

#[test]
fn replace_all_on_empty_text() {
    assert_eq!(replace_all("", "{{x}}", "ab"), "");
}

#[test]
fn replace_all_with_an_empty_token_changes_nothing() {
    assert_eq!(replace_all("abc", "", "X"), "abc");
}

#[test]
fn replace_all_with_an_empty_value_removes_the_token() {
    assert_eq!(replace_all("a{{x}}b", "{{x}}", ""), "ab");
}

#[test]
fn replace_all_with_a_token_longer_than_the_text() {
    assert_eq!(replace_all("ab", "abc", "X"), "ab");
}

#[test]
fn replace_all_where_the_text_is_the_token() {
    assert_eq!(replace_all("{{x}}", "{{x}}", "value"), "value");
}

#[test]
fn replace_all_takes_occurrences_from_the_left_without_overlap() {
    assert_eq!(replace_all("aaa", "aa", "X"), "Xa");
    assert_eq!(replace_all("aaaa", "aa", "X"), "XX");
    assert_eq!(replace_all("ababa", "aba", "X"), "Xba");
}

#[test]
fn replace_all_does_not_search_what_it_put_in() {
    assert_eq!(replace_all("{{x}}", "{{x}}", "{{x}}{{x}}"), "{{x}}{{x}}");
    assert_eq!(replace_all("ab", "a", "aa"), "aab");
}

#[test]
fn replace_all_at_the_start_and_at_the_end() {
    assert_eq!(replace_all("{{x}}mid{{x}}", "{{x}}", "E"), "EmidE");
}

#[test]
fn replace_all_counts_characters_not_bytes() {
    assert_eq!(replace_all("grüße {{x}} ñ", "{{x}}", "wörld"), "grüße wörld ñ");
    assert_eq!(replace_all("äöü", "ö", "o"), "äoü");
}

#[test]
fn replace_all_agrees_with_the_standard_library() {
    let texts = ["", "a", "{{a}}", "x{{a}}y{{a}}", "{{{a}}}", "{{a}{{a}}", "aaaaa", "ab{{a}}"];
    let tokens = ["{{a}}", "a", "aa", "{{", "}}", "b{{a}}"];
    let values = ["", "v", "{{a}}", "long value"];
    for text in texts {
        for token in tokens {
            for value in values {
                assert_eq!(replace_all(text, token, value), text.replace(token, value));
            }
        }
    }
}

#[test]
fn a_partial_token_is_left_alone() {
    assert_eq!(replace_all("{{project_name}", "{{project_name}}", "demo"), "{{project_name}");
    assert_eq!(replace_all("{project_name}}", "{{project_name}}", "demo"), "{project_name}}");
}

#[test]
fn a_value_can_complete_a_token_from_its_surroundings() {
    // the value fills the gap between two halves of the token
    assert_eq!(
        replace_all("{{{{project_name}}}}", "{{project_name}}", "project_name"),
        "{{project_name}}"
    );
    assert_eq!(replace_all("{{proj{{project_name}}ect_name}}", "{{project_name}}", ""), "{{project_name}}");
}

#[test]
fn chars_of_gives_the_characters_in_order() {
    assert_eq!(chars_of("añb"), vec!['a', 'ñ', 'b']);
    assert_eq!(chars_of(""), Vec::<char>::new());
}

#[test]
fn same_text_compares_contents() {
    assert!(same_text("base", "base"));
    assert!(same_text("", ""));
    assert!(!same_text("base", "Base"));
    assert!(!same_text("base", "bas"));
    assert!(!same_text("bas", "base"));
    assert!(!same_text("", "x"));
    assert!(same_text("grüße", "grüße"));
    assert!(!same_text("grüße", "grusse"));
}

#[test]
fn matches_at_finds_the_token_at_an_offset() {
    let text = chars("ab{{x}}cd");
    let token = chars("{{x}}");
    assert!(matches_at(&text, &token, 2));
    assert!(!matches_at(&text, &token, 0));
    assert!(!matches_at(&text, &token, 3));
}

#[test]
fn matches_at_near_and_past_the_end() {
    let text = chars("abc");
    assert!(matches_at(&text, &chars("c"), 2));
    assert!(!matches_at(&text, &chars("cd"), 2));
    assert!(!matches_at(&text, &chars("c"), 3));
    assert!(!matches_at(&text, &chars("c"), usize::MAX));
    assert!(!matches_at(&text, &chars("abcd"), 0));
}

#[test]
fn matches_at_with_an_empty_token() {
    let text = chars("abc");
    assert!(matches_at(&text, &chars(""), 0));
    assert!(matches_at(&text, &chars(""), 3));
    assert!(!matches_at(&text, &chars(""), 4));
}
