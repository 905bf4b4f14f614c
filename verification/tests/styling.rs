use mpris_presence::style::{change, StyleError};

fn shout(c: char) -> Option<char> {
    if c.is_ascii_lowercase() {
        Some(c.to_ascii_uppercase())
    } else if c.is_ascii_uppercase() {
        Some(c)
    } else {
        None
    }
}

fn nothing(_c: char) -> Option<char> {
    None
}

#[test]
fn change_styles_up_to_an_opening_bracket() {
    let out = change("Hello (Remix)", math_text_transform::math_bold);
    assert_eq!(out, Ok("𝐇𝐞𝐥𝐥𝐨 (Remix)".to_string()));
}

#[test]
fn change_with_a_letter_mapping() {
    assert_eq!(change("Hello (Remix)", shout), Ok("HELLO (Remix)".to_string()));
    assert_eq!(change("one [two] three", shout), Ok("ONE [two] three".to_string()));
}

#[test]
fn change_keeps_a_text_of_ignored_characters() {
    let text = "() []\",\n\u{a0}'-";
    assert_eq!(change(text, nothing), Ok(text.to_string()));
    assert_eq!(change(text, shout), Ok(text.to_string()));
    assert_eq!(change(" - , ' \"", math_text_transform::math_italic), Ok(" - , ' \"".to_string()));
    assert_eq!(change("", nothing), Ok(String::new()));
}

#[test]
fn change_fails_on_a_character_without_variant() {
    assert_eq!(change("a!b", shout), Err(StyleError::StyleTransformFailed));
    assert_eq!(change("abc.", shout), Err(StyleError::StyleTransformFailed));
    assert_eq!(change("x", nothing), Err(StyleError::StyleTransformFailed));
    assert_eq!(change("ab: (c)", shout), Err(StyleError::StyleTransformFailed));
    assert_eq!(
        change("Song #1", math_text_transform::math_bold),
        Err(StyleError::StyleTransformFailed)
    );
}

#[test]
fn change_stops_before_it_could_fail() {
    assert_eq!(change("ab (c!)", shout), Ok("AB (c!)".to_string()));
    assert_eq!(change("[!]", nothing), Ok("[!]".to_string()));
    assert_eq!(change("(", nothing), Ok("(".to_string()));
}

#[test]
fn change_stop_wins_over_ignore() {
    // A bracket is in both sets: the scan ends at it, so what follows is kept
    // verbatim even where it has a variant.
    assert_eq!(change("a (b) c", shout), Ok("A (b) c".to_string()));
    assert_eq!(change("a) b", shout), Ok("A) B".to_string()));
    assert_eq!(change("a] b", shout), Ok("A] B".to_string()));
}

#[test]
fn change_maps_a_bracket_that_has_a_variant() {
    let angle = |c: char| if c == '(' { Some('<') } else if c == 'a' { Some('A') } else { None };
    assert_eq!(change("a(a", angle), Ok("A<A".to_string()));
}

#[test]
fn change_with_each_table() {
    assert_eq!(change("Song", math_text_transform::math_bold), Ok("𝐒𝐨𝐧𝐠".to_string()));
    assert_eq!(change("Queen", math_text_transform::math_italic), Ok("𝑄𝑢𝑒𝑒𝑛".to_string()));
    assert_eq!(change("By", math_text_transform::math_bold_script), Ok("𝓑𝔂".to_string()));
}
