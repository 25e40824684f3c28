use wordcount::text::{format_i64, replace_all, same_text, strip_html, strip_tags, trim};

#[test]
fn trim_removes_outer_white_space() {
    assert_eq!(trim("  hola \t\n"), "hola");
    assert_eq!(trim("\u{a0}gato\u{3000}"), "gato");
    assert_eq!(trim("   "), "");
    assert_eq!(trim(""), "");
    assert_eq!(trim("a b"), "a b");
}

#[test]
fn trim_matches_std() {
    for s in ["  x  ", "\u{2000}y\u{85}", "no-space", " \u{205f} ", "in side"] {
        assert_eq!(trim(s), s.trim());
    }
}

#[test]
fn trim_is_idempotent() {
    let once = trim("  \tpalabra  ");
    assert_eq!(trim(&once), once);
}

#[test]
fn strip_tags_drops_markup() {
    assert_eq!(strip_tags("<b>cat</b> and <i>dog</i>"), "cat and dog");
    assert_eq!(strip_tags("a > b"), "a  b");
    assert_eq!(strip_tags("<unclosed text"), "");
    assert_eq!(strip_tags("plain"), "plain");
}

#[test]
fn strip_tags_leaves_no_brackets() {
    let out = strip_tags("<<a>>x<y>z>");
    assert!(!out.contains('<') && !out.contains('>'));
    assert_eq!(out, "xz");
}

#[test]
fn replace_all_is_leftmost_and_non_overlapping() {
    assert_eq!(replace_all("aaaa", "aa", "b"), "bb");
    assert_eq!(replace_all("aaa", "aa", "b"), "ba");
    assert_eq!(replace_all("x&amp;y&amp;", "&amp;", "&"), "x&y&");
    assert_eq!(replace_all("none", "zz", "q"), "none");
    assert_eq!(replace_all("aaa", "aa", "b"), "aaa".replace("aa", "b"));
}

#[test]
fn strip_html_decodes_entities_after_tags() {
    assert_eq!(
        strip_html("<span>A &lt;small&gt; cat &amp; dog&nbsp;&#39;x&#39; &quot;y&quot;</span>"),
        "A <small> cat & dog 'x' \"y\""
    );
}

#[test]
fn strip_html_entity_order() {
    // `&amp;` is decoded first, so an escaped entity is decoded twice.
    assert_eq!(strip_html("&amp;lt;"), "<");
}

#[test]
fn strip_html_keeps_plain_text() {
    assert_eq!(strip_html("un animal domestico"), "un animal domestico");
}

#[test]
fn format_i64_writes_decimal() {
    assert_eq!(format_i64(0), "0");
    assert_eq!(format_i64(7), "7");
    assert_eq!(format_i64(1024), "1024");
    assert_eq!(format_i64(-35), "-35");
    assert_eq!(format_i64(i64::MIN), i64::MIN.to_string());
    assert_eq!(format_i64(i64::MAX), i64::MAX.to_string());
}

#[test]
fn same_text_compares_characters() {
    assert!(same_text("en", "en"));
    assert!(!same_text("en", "es"));
    assert!(!same_text("en", "eng"));
    assert!(same_text("", ""));
}

#[test]
fn strip_tags_is_idempotent() {
    for s in ["<p>a <b>b</b></p>", "x > y < z", "plain", "<<>>"] {
        let once = strip_tags(s);
        assert_eq!(strip_tags(&once), once);
    }
}

#[test]
fn trim_keeps_inner_text() {
    let s = " \u{2028} una  frase \t ";
    let t = trim(s);
    assert!(s.contains(t.as_str()));
    assert!(!t.starts_with(char::is_whitespace) && !t.ends_with(char::is_whitespace));
}
