use screen_capture_diagnostic::html::{
    extract_apex_lol_links, extract_html_attr, extract_meta_content, extract_meta_description,
    html_to_text_lines, html_unescape,
};

#[test]
fn unescape_decodes_each_entity_once_in_order() {
    assert_eq!(
        html_unescape("&lt;b&gt; &amp;amp; &quot;x&quot; &#39;y&apos;&nbsp;z"),
        "<b> &amp; \"x\" 'y' z"
    );
    assert_eq!(html_unescape("plain"), "plain");
    assert_eq!(html_unescape(""), "");
}

#[test]
fn text_lines_break_at_block_tags() {
    let lines = html_to_text_lines("<div>Hello <b>World</b></div><p>Second&nbsp;line</p>");
    assert_eq!(lines, vec!["Hello World".to_string(), "Second line".to_string()]);
}

#[test]
fn text_lines_of_empty_and_tag_only_pages() {
    assert!(html_to_text_lines("").is_empty());
    assert!(html_to_text_lines("<div></div><br><p> </p>").is_empty());
}

#[test]
fn text_lines_collapse_whitespace_and_drop_empty_lines() {
    let lines = html_to_text_lines("  a \t b \n\n\r\n c  <span>d</span>e<li>f</li>");
    assert_eq!(
        lines,
        vec!["a b".to_string(), "c d e".to_string(), "f".to_string()]
    );
}

#[test]
fn text_lines_closing_tags_and_attributes() {
    let lines = html_to_text_lines("<h2 class=\"t\">Title</h2><td>x</td><th>y</th>");
    assert_eq!(lines, vec!["Title".to_string(), "x".to_string(), "y".to_string()]);
}

#[test]
fn text_lines_are_never_empty() {
    for html in ["<p></p>x<p> </p>", "\n\n", "<br/><br/>a"] {
        for line in html_to_text_lines(html) {
            assert!(!line.is_empty());
            assert_eq!(line.trim(), line);
        }
    }
}

#[test]
fn attr_in_double_or_single_quotes() {
    let attrs = "a href=\"/zh/champions/ahri\" class='x'";
    assert_eq!(extract_html_attr(attrs, "href"), Some("/zh/champions/ahri".to_string()));
    assert_eq!(extract_html_attr(attrs, "class"), Some("x".to_string()));
    assert_eq!(extract_html_attr(attrs, "id"), None);
}

#[test]
fn attr_without_closing_quote_is_none() {
    assert_eq!(extract_html_attr("a href=\"abc", "href"), None);
    assert_eq!(extract_html_attr("a href='abc", "href"), None);
}

#[test]
fn attr_double_quote_found_first() {
    assert_eq!(
        extract_html_attr("x name='single' name=\"double\"", "name"),
        Some("double".to_string())
    );
}

#[test]
fn meta_content_is_unescaped() {
    let html = "<meta name=\"description\" content=\"A &amp; B\"><meta name=\"x\" content=\"y\">";
    assert_eq!(extract_meta_content(html, "description"), Some("A & B".to_string()));
    assert_eq!(extract_meta_content(html, "x"), Some("y".to_string()));
    assert_eq!(extract_meta_description(html), Some("A & B".to_string()));
}

#[test]
fn meta_content_missing() {
    assert_eq!(extract_meta_description("<html><head></head></html>"), None);
    assert_eq!(extract_meta_content("<meta name=\"description\">", "description"), None);
    assert_eq!(extract_meta_content("<meta name=\"description\" content=\"x\"", "description"), None);
}

#[test]
fn links_with_text_and_unescaped_href() {
    let html = "<a href=\"/zh/champions/ahri\">Ahri <span>阿狸</span></a><a class=\"x\">none</a><a href='/x?a=1&amp;b=2'>X</a>";
    let links = extract_apex_lol_links(html);
    assert_eq!(
        links,
        vec![
            ("/zh/champions/ahri".to_string(), "Ahri 阿狸".to_string()),
            ("/x?a=1&b=2".to_string(), "X".to_string()),
        ]
    );
}

#[test]
fn links_stop_at_unclosed_anchor() {
    assert!(extract_apex_lol_links("<a href=\"/a\">never closed").is_empty());
    assert!(extract_apex_lol_links("<a href=\"/a\"").is_empty());
    assert_eq!(
        extract_apex_lol_links("<a href=\"/a\">A</a><a href=\"/b\">B"),
        vec![("/a".to_string(), "A".to_string())]
    );
}

#[test]
fn text_lines_are_single_spaced_words() {
    let html = "<p>\u{3000}a\u{a0}\u{a0}b\t</p>x\u{2003}y";
    for line in html_to_text_lines(html) {
        assert!(!line.contains('\n'));
        assert_eq!(line.split_whitespace().collect::<Vec<_>>().join(" "), line);
    }
    assert_eq!(html_to_text_lines(html), vec!["a b".to_string(), "x y".to_string()]);
}

#[test]
fn plain_text_reads_as_its_collapsed_lines() {
    let text = "  one  two \n\n three\r\n";
    let expected: Vec<String> = text
        .lines()
        .map(|l| l.split_whitespace().collect::<Vec<_>>().join(" "))
        .filter(|l| !l.is_empty())
        .collect();
    assert_eq!(html_to_text_lines(text), expected);
}
