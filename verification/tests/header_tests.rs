use mdpages::header::{
    document_from, extract, find_block_end, strip_header, HeaderFields, HeaderParseError,
    PageMetadata,
};
use mdpages::markup::render;
use mdpages::shell::build_shell;

fn fields(title: &str, description: &str) -> HeaderFields {
    HeaderFields { title: title.to_string(), description: description.to_string() }
}

#[test]
fn strip_header_removes_the_block_at_the_start() {
    let raw = "---\ntitle: Home\ndescription: Welcome\n---\n# Hi";
    assert_eq!(strip_header(raw), Some("\n# Hi".to_string()));
}

#[test]
fn strip_header_takes_the_shortest_region() {
    let raw = "---\na\n---\nbody\n---\nmore";
    assert_eq!(strip_header(raw), Some("\nbody\n---\nmore".to_string()));
}

#[test]
fn strip_header_leaves_a_text_without_block_as_it_is() {
    assert_eq!(strip_header("# Hi\nplain"), Some("# Hi\nplain".to_string()));
    assert_eq!(strip_header("--- only one"), Some("--- only one".to_string()));
    assert_eq!(strip_header(""), Some(String::new()));
}

#[test]
fn strip_header_removes_only_the_first_block() {
    let raw = "---\nx\n---\n---\nx\n---";
    assert_eq!(strip_header(raw), Some("\n---\nx\n---".to_string()));
}

#[test]
fn strip_header_needs_delimiter_lines() {
    for raw in ["---x------x---", "------", "--- ---", "----x---", "---\na---\nb", "x\n---\na\n---"] {
        assert_eq!(strip_header(raw), Some(raw.to_string()));
    }
    assert_eq!(
        strip_header("---\ntitle: a---b\ndescription: D\n---\nBody"),
        Some("\nBody".to_string())
    );
    assert_eq!(strip_header("---\n---"), Some(String::new()));
}

#[test]
fn metadata_needs_both_fields() {
    let meta = PageMetadata::new(fields("Home", "Welcome")).unwrap();
    assert_eq!(meta.title(), "Home");
    assert_eq!(meta.description(), "Welcome");
    assert_eq!(PageMetadata::new(fields("", "Welcome")).unwrap_err(), HeaderParseError::EmptyTitle);
    assert_eq!(
        PageMetadata::new(fields("Home", "")).unwrap_err(),
        HeaderParseError::EmptyDescription
    );
    assert_eq!(PageMetadata::new(fields("", "")).unwrap_err(), HeaderParseError::EmptyTitle);
}

#[test]
fn extract_splits_metadata_and_body() {
    let raw = "---\ntitle: Home\ndescription: Welcome\n---\n# Hi";
    let doc = extract(raw, Some(fields("Home", "Welcome"))).unwrap();
    assert_eq!(doc.metadata.title(), "Home");
    assert_eq!(doc.metadata.description(), "Welcome");
    assert_eq!(doc.body, "\n# Hi");
    assert!(!doc.body.contains("---\ntitle: Home\ndescription: Welcome\n---"));
    assert!(!doc.metadata.title().is_empty());
    assert!(!doc.metadata.description().is_empty());
}

#[test]
fn extract_fails_without_decoded_header() {
    assert_eq!(extract("# Hi", None).unwrap_err(), HeaderParseError::Absent);
    assert_eq!(
        extract("---\ntitle: Home\n---\n# Hi", None).unwrap_err(),
        HeaderParseError::Absent
    );
}

#[test]
fn extract_fails_on_empty_fields() {
    let raw = "---\ntitle: ''\ndescription: ''\n---\n";
    assert_eq!(extract(raw, Some(fields("", "x"))).unwrap_err(), HeaderParseError::EmptyTitle);
    assert_eq!(
        extract(raw, Some(fields("x", ""))).unwrap_err(),
        HeaderParseError::EmptyDescription
    );
}

#[test]
fn extract_fails_where_the_block_is_not_at_the_start() {
    let raw = "intro\n---\ntitle: Home\ndescription: Welcome\n---\n# Hi";
    assert_eq!(
        extract(raw, Some(fields("Home", "Welcome"))).unwrap_err(),
        HeaderParseError::Absent
    );
    assert_eq!(extract("", Some(fields("Home", "Welcome"))).unwrap_err(), HeaderParseError::Absent);
    assert_eq!(
        extract("--", Some(fields("Home", "Welcome"))).unwrap_err(),
        HeaderParseError::Absent
    );
}

#[test]
fn extract_fails_where_the_block_is_not_closed() {
    let raw = "---\ntitle: Home\ndescription: Welcome\n# Hi";
    assert_eq!(
        extract(raw, Some(fields("Home", "Welcome"))).unwrap_err(),
        HeaderParseError::Absent
    );
}

#[test]
fn extract_removes_the_first_block_only() {
    let raw = "---\ntitle: A\ndescription: B\n---\n---\ntitle: A\ndescription: B\n---";
    let doc = extract(raw, Some(fields("A", "B"))).unwrap();
    assert_eq!(doc.body, "\n---\ntitle: A\ndescription: B\n---");
}

#[test]
fn extract_ends_the_block_at_a_delimiter_line() {
    let raw = "---\ntitle: a---b\ndescription: D\n---\nBody";
    let doc = extract(raw, Some(fields("a---b", "D"))).unwrap();
    assert_eq!(doc.metadata.title(), "a---b");
    assert_eq!(doc.body, "\nBody");
}

#[test]
fn extract_fails_where_no_line_is_a_delimiter() {
    for raw in ["------", "--- ---", "----x---", "---x\na\n---", "---\na\n--- ", "---\na\n ---"] {
        assert_eq!(extract(raw, Some(fields("T", "D"))).unwrap_err(), HeaderParseError::Absent);
    }
}

#[test]
fn block_end_is_behind_the_nearest_closing_delimiter_line() {
    assert_eq!(find_block_end("---\na\n---\nrest"), Some(9));
    assert_eq!(find_block_end("---\na\n---\nrest\n---\nmore"), Some(9));
    assert_eq!(find_block_end("---\na\n---"), Some(9));
    assert_eq!(find_block_end("---\n---"), Some(7));
    assert_eq!(find_block_end("---\n---\n---"), Some(7));
    assert_eq!(find_block_end("---\n\n---\n"), Some(8));
    assert_eq!(find_block_end("---\ntitle: a---b\n---\nBody"), Some(20));
    assert_eq!(find_block_end("---\n----\n ---\n---x\n---\n"), Some(22));
    assert_eq!(find_block_end("---\n\u{e9}\u{4e2d}\n---\nx"), Some(10));
}

#[test]
fn block_needs_two_delimiter_lines_and_the_first_at_the_start() {
    assert_eq!(find_block_end(""), None);
    assert_eq!(find_block_end("---"), None);
    assert_eq!(find_block_end("---\n"), None);
    assert_eq!(find_block_end("------"), None);
    assert_eq!(find_block_end("--- ---"), None);
    assert_eq!(find_block_end("----x---"), None);
    assert_eq!(find_block_end("---\ntitle: x\n"), None);
    assert_eq!(find_block_end("---\ntitle: x---\n"), None);
    assert_eq!(find_block_end("---\ntitle: x\n----"), None);
    assert_eq!(find_block_end("---\r\ntitle: x\r\n---\r\n"), None);
    assert_eq!(find_block_end(" ---\na\n---"), None);
    assert_eq!(find_block_end("\n---\na\n---"), None);
    assert_eq!(find_block_end("# Hi"), None);
}

#[test]
fn body_is_the_text_behind_the_block() {
    let raws = [
        "---\na\n---\nrest",
        "---\n---",
        "---\n---\n---\n",
        "---\ntitle: a---b\n----\n ---\n---\n# t\n---\nmore",
        "---\n\u{e9}\u{4e2d}\n---\nx\u{e9}",
        "---\n\n\n---\n\n",
    ];
    for raw in raws {
        let end = find_block_end(raw).unwrap();
        let rest: String = raw.chars().skip(end).collect();
        let doc = extract(raw, Some(fields("T", "D"))).unwrap();
        assert_eq!(doc.body, rest);
        assert_eq!(strip_header(raw), Some(rest));
    }
}

#[test]
fn matcher_and_scan_agree_where_there_is_no_block() {
    let raws = ["", "---", "---\n", "------", "---\na---\n", "---\na\n----", " ---\na\n---", "# Hi\n---\n"];
    for raw in raws {
        assert_eq!(find_block_end(raw), None);
        assert_eq!(strip_header(raw), Some(raw.to_string()));
    }
}

#[test]
fn document_from_reports_faults_in_order() {
    let raw = "---\nt\n---\nbody";
    assert_eq!(document_from("body", None, None).unwrap_err(), HeaderParseError::Absent);
    assert_eq!(
        document_from("body", Some(fields("Home", "Welcome")), Some("body".to_string()))
            .unwrap_err(),
        HeaderParseError::Absent
    );
    assert_eq!(document_from(raw, None, None).unwrap_err(), HeaderParseError::MatcherFailed);
    assert_eq!(
        document_from(raw, Some(fields("Home", "Welcome")), None).unwrap_err(),
        HeaderParseError::MatcherFailed
    );
    assert_eq!(
        document_from(raw, Some(fields("Home", "Welcome")), Some(raw.to_string())).unwrap_err(),
        HeaderParseError::MatcherFailed
    );
    assert_eq!(
        document_from(raw, Some(fields("Home", "Welcome")), Some("body".to_string())).unwrap_err(),
        HeaderParseError::MatcherFailed
    );
    assert_eq!(
        document_from(raw, None, Some("\nbody".to_string())).unwrap_err(),
        HeaderParseError::Absent
    );
    assert_eq!(
        document_from(raw, Some(fields("", "")), Some("\nbody".to_string())).unwrap_err(),
        HeaderParseError::EmptyTitle
    );
    assert_eq!(
        document_from(raw, Some(fields("Home", "")), Some("\nbody".to_string())).unwrap_err(),
        HeaderParseError::EmptyDescription
    );
    let doc =
        document_from(raw, Some(fields("Home", "Welcome")), Some("\nbody".to_string())).unwrap();
    assert_eq!(doc.body, "\nbody");
    assert_eq!(doc.metadata.title(), "Home");
    assert_eq!(doc.metadata.description(), "Welcome");
}

#[test]
fn render_converts_a_heading() {
    assert_eq!(render("# Hi"), "<h1>Hi</h1>\n");
}

#[test]
fn render_converts_emphasis_links_and_lists() {
    assert_eq!(
        render("*a* **b** [c](/d) `e`"),
        "<p><em>a</em> <strong>b</strong> <a href=\"/d\">c</a> <code>e</code></p>\n"
    );
    assert_eq!(render("* x\n* y"), "<ul>\n<li>x</li>\n<li>y</li>\n</ul>\n");
    assert_eq!(render("> q"), "<blockquote>\n<p>q</p>\n</blockquote>\n");
}

#[test]
fn render_converts_a_table() {
    assert_eq!(
        render("| a | b |\n|---|---|\n| 1 | 2 |"),
        "<table><thead><tr><th>a</th><th>b</th></tr></thead><tbody>\n<tr><td>1</td><td>2</td></tr>\n</tbody></table>\n"
    );
}

#[test]
fn render_converts_code_blocks() {
    assert_eq!(render("```\nlet x;\n```"), "<pre><code>let x;\n</code></pre>\n");
}

#[test]
fn render_keeps_unmatched_markup_as_text() {
    assert_eq!(render("*open"), "<p>*open</p>\n");
    assert_eq!(render(""), "");
}

#[test]
fn render_twice_gives_the_same_html() {
    let body = "# Title\n\nSome *text* with `code`.\n\n- a\n- b\n";
    assert_eq!(render(body), render(body));
}

#[test]
fn shell_holds_head_and_navigation() {
    let meta = PageMetadata::new(fields("Home", "Welcome")).unwrap();
    let shell = build_shell(&meta, "http://localhost:8000/about");
    let expected = "<head><meta charset=\"UTF-8\"/>\n    <meta name=\"viewport\" content=\"width=device-width, initial-scale=1.0\"/>\n    <meta http-equiv=\"X-UA-Compatible\" content=\"ie=edge\"/>\n    <link rel=\"stylesheet\" type=\"text/css\" href=\"/styles.css\"><title>Home</title>\n\t\t<meta property=\"og:title\" content=\"Home\"/>\n\t\t<meta property=\"og:url\" content=\"http://localhost:8000/about\"/>\n\t\t<meta property=\"og:description\" content=\"Welcome\"/></head><div id=\"nav\"><a href=\"/\">Home</a></div>";
    assert_eq!(shell, expected);
}

#[test]
fn shell_does_not_escape() {
    let meta = PageMetadata::new(fields("a<b>", "\"q\"")).unwrap();
    let shell = build_shell(&meta, "u&v");
    assert!(shell.contains("<title>a<b></title>"));
    assert!(shell.contains("<meta property=\"og:title\" content=\"a<b>\"/>"));
    assert!(shell.contains("<meta property=\"og:url\" content=\"u&v\"/>"));
    assert!(shell.contains("<meta property=\"og:description\" content=\"\"q\"\"/>"));
}
