use majordomus_cli::cockpit::html::{document, el, escape, is_void, text};

#[test]
fn repository_content_cannot_escape_an_element_body() {
    let hostile = "</script><img src=x onerror=alert(1)>";
    let rendered = el("pre").text(hostile).render();
    assert!(!rendered.contains("<img"), "{rendered}");
    assert!(rendered.contains("&lt;img"), "{rendered}");
}

#[test]
fn repository_content_cannot_escape_an_attribute() {
    let hostile = "\" onmouseover=\"alert(1)";
    let rendered = el("a").attr("href", hostile).text("x").render();
    assert!(!rendered.contains("onmouseover=\"alert"), "{rendered}");
    assert!(rendered.contains("&quot;"), "{rendered}");
}

#[test]
fn a_void_element_has_no_closing_tag() {
    assert_eq!(el("br").render(), "<br>");
    assert_eq!(
        el("input").attr("type", "text").flag("required").render(),
        "<input type=\"text\" required>"
    );
}

#[test]
fn a_later_attribute_replaces_an_earlier_one() {
    assert_eq!(
        el("div").class("a").class("b").render(),
        "<div class=\"b\"></div>"
    );
}

#[test]
fn a_document_carries_the_head_every_page_gets() {
    let page = document("T", vec![el("link").attr("rel", "stylesheet")], el("body"));
    assert!(page.starts_with("<!doctype html>"));
    assert!(page.contains("<title>T</title>"));
    assert!(page.contains("charset=\"utf-8\""));
    assert!(page.contains("<link rel=\"stylesheet\">"));
    assert!(page.trim_end().ends_with("</html>"));
}

#[test]
fn escaping_replaces_every_character_markup_reads() {
    assert_eq!(escape("a<b>&\"'c"), "a&lt;b&gt;&amp;&quot;&#39;c");
    assert_eq!(escape("plain"), "plain");
    assert_eq!(escape(""), "");
}

#[test]
fn the_void_tags_are_the_html_ones() {
    assert!(is_void("br"));
    assert!(is_void("img"));
    assert!(is_void("meta"));
    assert!(!is_void("div"));
    assert!(!is_void("script"));
}

#[test]
fn children_render_in_order_and_text_nodes_are_escaped() {
    let rendered = el("ul")
        .child(el("li").text("one"))
        .node(text("<two>"))
        .render();
    assert_eq!(rendered, "<ul><li>one</li>&lt;two&gt;</ul>");
}

#[test]
fn a_conditional_attribute_is_set_only_when_there_is_a_value() {
    assert_eq!(el("a").attr_if("href", None).render(), "<a></a>");
    assert_eq!(el("a").attr_if("href", Some("/x")).render(), "<a href=\"/x\"></a>");
}
