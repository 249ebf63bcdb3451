use enola::extract::{element_text, extract_findings, parse, unwrap_link, ResultBlock};

fn block(link: &str, title: &str, description: &str) -> String {
    format!(
        "<div class=\"ezO2md\"><a href=\"{}\"><span class=\"CVA68e\">{}</span></a><span class=\"FrIlee\">{}</span></div>",
        link, title, description
    )
}

#[test]
fn redirect_is_unwrapped() {
    assert_eq!(unwrap_link("/url?q=https://example.com/page&sa=U"), "https://example.com/page");
}

#[test]
fn plain_link_is_kept_whole() {
    assert_eq!(unwrap_link("https://x.org/?a=1&b=2"), "https://x.org/?a=1&b=2");
    assert_eq!(unwrap_link("x&y"), "x&y");
    assert_eq!(unwrap_link("https://x.org/p"), "https://x.org/p");
    assert_eq!(unwrap_link("/url?q=https://x.org/?a=1&sa=U&ved=2"), "https://x.org/?a=1");
}

#[test]
fn one_complete_block_gives_one_finding() {
    let page = format!("<html><body>{}</body></html>", block("/url?q=https://example.com/page&sa=U", "Alice page", "About alice"));
    let found = parse(&page);
    assert_eq!(found.len(), 1);
    assert_eq!(found[0].0, "Alice page");
    assert_eq!(found[0].1, "https://example.com/page");
    assert_eq!(found[0].2, "About alice");
}

#[test]
fn empty_page_gives_no_finding() {
    assert!(parse("").is_empty());
    assert!(parse("<html><body><p>nothing</p></body></html>").is_empty());
}

#[test]
fn block_without_description_is_skipped() {
    let broken = "<div class=\"ezO2md\"><a href=\"https://b.com\"><span class=\"CVA68e\">B</span></a></div>";
    let page = format!(
        "<html><body>{}{}{}</body></html>",
        block("https://a.com", "A", "first"),
        broken,
        block("https://c.com", "C", "third")
    );
    let found = parse(&page);
    assert_eq!(found.len(), 2);
    assert_eq!(found[0].0, "A");
    assert_eq!(found[1].2, "third");
    assert_eq!(found[0].1, "https://a.com");
    assert_eq!(found[1].1, "https://c.com");
}

#[test]
fn extraction_on_blocks_skips_incomplete() {
    let pieces = |v: &[&str]| Some(v.iter().map(|s| s.to_string()).collect::<Vec<String>>());
    let blocks = vec![
        ResultBlock { link: Some("/url?q=https://a.com&x".to_string()), title: pieces(&[" A ", "title"]), description: pieces(&["d"]) },
        ResultBlock { link: Some("https://b.com".to_string()), title: pieces(&["B"]), description: None },
        ResultBlock { link: None, title: None, description: pieces(&["c"]) },
        ResultBlock { link: Some("https://d.com/?a=1&b=2".to_string()), title: pieces(&["D"]), description: pieces(&["dd"]) },
    ];
    let found = extract_findings(&blocks);
    assert_eq!(
        found,
        vec![
            ("A  title".to_string(), "https://a.com".to_string(), "d".to_string()),
            ("D".to_string(), "https://d.com/?a=1&b=2".to_string(), "dd".to_string()),
        ]
    );
}

#[test]
fn element_text_joins_and_trims() {
    let v: Vec<String> = vec!["  Hello".to_string(), "world \n".to_string()];
    assert_eq!(element_text(&v), "Hello world");
    assert_eq!(element_text(&vec![]), "");
}

#[test]
fn plain_link_with_ampersand_survives_parsing() {
    let page = format!("<html><body>{}</body></html>", block("https://e.com/?u=1&amp;v=2", "E", "five"));
    let found = parse(&page);
    assert_eq!(found.len(), 1);
    assert_eq!(found[0].1, "https://e.com/?u=1&v=2");
}

#[test]
fn title_outside_link_is_not_a_finding() {
    let page = "<div class=\"ezO2md\"><a href=\"https://f.com\">f</a><span class=\"CVA68e\">F</span><span class=\"FrIlee\">six</span></div>";
    assert!(parse(page).is_empty());
}
