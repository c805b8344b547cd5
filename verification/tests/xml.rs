use anvil::xml::{Tag, Tags};

fn all(s: &str) -> Vec<Tag> {
    let mut t = Tags::new(s);
    let mut out = Vec::new();
    while let Some(tag) = t.next_tag() {
        out.push(tag);
    }
    out
}

#[test]
fn reads_tags_and_attributes() {
    let tags = all(r#"<?xml version="1.0"?><!-- note --><model unit='millimeter' xmlns:p="x"><p:item id="3" name="a &amp; b"/></model>"#);
    assert_eq!(tags.len(), 3);
    assert_eq!(tags[0].name, "model");
    assert!(!tags[0].closing && !tags[0].empty);
    assert_eq!(tags[0].attr("unit"), Some("millimeter"));
    assert_eq!(tags[0].attr("p"), Some("x"));
    assert_eq!(tags[1].name, "item");
    assert!(tags[1].empty);
    assert_eq!(tags[1].attr("id"), Some("3"));
    assert_eq!(tags[1].attr("name"), Some("a & b"));
    assert_eq!(tags[1].attr("missing"), None);
    assert_eq!(tags[2].name, "model");
    assert!(tags[2].closing);
}

#[test]
fn cdata_and_text_are_skipped() {
    let tags = all("text <a>more<![CDATA[<b>]]></a>");
    let names: Vec<&str> = tags.iter().map(|t| t.name.as_str()).collect();
    assert_eq!(names, vec!["a", "a"]);
}

#[test]
fn entities_resolve_once_in_order() {
    let tags = all(r#"<v x="&lt;&gt;&quot;&apos;" y="&amp;lt;" z="plain"/>"#);
    assert_eq!(tags[0].attr("x"), Some("<>\"'"));
    assert_eq!(tags[0].attr("y"), Some("&lt;"));
    assert_eq!(tags[0].attr("z"), Some("plain"));
}

#[test]
fn an_unclosed_tag_ends_the_text() {
    assert_eq!(all("<a><b").len(), 1);
    assert_eq!(all("<!-- never closed <a>").len(), 0);
    assert_eq!(all("").len(), 0);
}

#[test]
fn a_bad_attribute_ends_the_list() {
    let tags = all("<a k=v x='1'>");
    assert_eq!(tags[0].attrs.len(), 0);
    let tags = all("<a k = '1' j='2>");
    assert_eq!(tags[0].attr("k"), Some("1"));
    assert_eq!(tags[0].attrs.len(), 1);
}
