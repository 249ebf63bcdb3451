use enola::query::{replacer, token_value, Query, QueryBuilder};

fn strings(v: &[&str]) -> Vec<String> {
    v.iter().map(|s| s.to_string()).collect()
}

#[test]
fn end_to_end_queries() {
    let q = Query::new(strings(&["a.com", "b.com"]), strings(&["site:SITE STRING"]), "alice");
    assert_eq!(q.build(), strings(&["site:a.com alice", "site:b.com alice"]));
}

#[test]
fn cross_product_has_sites_times_templates() {
    let q = Query::new(
        strings(&["a.com", "b.org", "c.net"]),
        strings(&["site:SITE", "intext:STRING", "SITE STRING SITE"]),
        "bob",
    );
    let out = q.build();
    assert_eq!(out.len(), 9);
    assert_eq!(out[0], "site:a.com");
    assert_eq!(out[1], "intext:bob");
    assert_eq!(out[2], "a.com bob a.com");
    assert_eq!(out[5], "b.org bob b.org");
    assert_eq!(out[6], "site:c.net");
    for line in &out {
        assert!(!line.contains("SITE") && !line.contains("STRING"));
    }
}

#[test]
fn template_without_tokens_is_kept() {
    let q = Query::new(strings(&["x.com", "y.com"]), strings(&["plain words here"]), "carol");
    assert_eq!(q.build(), strings(&["plain words here", "plain words here"]));
}

#[test]
fn empty_lists_give_no_queries() {
    assert!(Query::new(vec![], strings(&["site:SITE"]), "t").build().is_empty());
    assert!(Query::new(strings(&["a.com"]), vec![], "t").build().is_empty());
}

#[test]
fn tokens_replaced_everywhere_inside_text() {
    let out = replacer(&strings(&["xSITEy STRINGSTRING SITESITE"]), "s", "t");
    assert_eq!(out, strings(&["xsy tt ss"]));
}

#[test]
fn replacement_values_are_not_rescanned() {
    let out = replacer(&strings(&["SITE"]), "STRING", "zz");
    assert_eq!(out, strings(&["STRING"]));
}

#[test]
fn token_value_picks_by_token() {
    assert_eq!(token_value("SITE", "a", "b"), "a");
    assert_eq!(token_value("STRING", "a", "b"), "b");
}

#[test]
fn builder_keeps_lists() {
    let b = QueryBuilder::new(strings(&["a"]), strings(&["p", "q"]));
    assert_eq!(b.get_sites(), &strings(&["a"]));
    assert_eq!(b.get_payloads(), &strings(&["p", "q"]));
}
