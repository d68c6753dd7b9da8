use std::io::Error;

use template_renderer::utils::{escape_html, render_to_string};

#[test]
fn test_escape_html() {
    let tests = vec![
        (r"", ""),
        (r"a&b", "a&amp;b"),
        (r"<a", "&lt;a"),
        (r">a", "&gt;a"),
        (r#"""#, "&quot;"),
        (r#"'"#, "&#x27;"),
        (r#"大阪"#, "大阪"),
    ];
    for (input, expected) in tests {
        assert_eq!(escape_html(input), expected);
    }
    let empty = String::new();
    assert_eq!(escape_html(&empty), empty);
}

#[test]
fn test_render_to_string() {
    let string = render_to_string(
        || panic!(),
        |w| {
            w.push_str("test");
            Ok::<(), Error>(())
        },
    )
    .unwrap();
    assert_eq!(string, "test".to_owned());
}

#[test]
fn render_to_string_hands_on_the_failure() {
    let result = render_to_string(
        || panic!(),
        |w| {
            w.push_str("partial");
            Err::<(), Error>(Error::other("closed"))
        },
    );
    assert_eq!(result, Err(template_renderer::errors::Error::Io));
}

#[test]
fn escape_replaces_each_of_the_six() {
    assert_eq!(escape_html("&<>\"'/"), "&amp;&lt;&gt;&quot;&#x27;&#x2F;");
    assert_eq!(escape_html("a/b"), "a&#x2F;b");
}

#[test]
fn escape_keeps_text_without_special_characters() {
    assert_eq!(escape_html("plain text, 123; #x"), "plain text, 123; #x");
    assert_eq!(escape_html("héllo wörld ✓"), "héllo wörld ✓");
}

#[test]
fn escape_is_a_single_pass() {
    assert_eq!(escape_html("&amp;"), "&amp;amp;");
    let once = escape_html("<b>");
    assert_eq!(once, "&lt;b&gt;");
    assert_eq!(escape_html(&once), "&amp;lt;b&amp;gt;");
    let safe = escape_html("safe");
    assert_eq!(escape_html(&safe), safe);
}

#[test]
fn escape_never_shortens() {
    for input in ["", "a", "&", "a&b<c>d\"e'f/g", "大阪/"] {
        assert!(escape_html(input).chars().count() >= input.chars().count());
    }
}
