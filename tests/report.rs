use enola::extract::parse;
use enola::query::Query;
use enola::report::{exit_report, fetch_report, finding_record, list_entries, proxy_host, reportable};
use enola::text::{decimal, trim_text};

#[test]
fn list_file_entries() {
    assert_eq!(list_entries("a.com\r\nb.com\n\n c \n"), vec!["a.com".to_string(), "b.com".to_string(), " c ".to_string()]);
    assert_eq!(list_entries("last"), vec!["last".to_string()]);
    assert!(list_entries("").is_empty());
    assert!(list_entries("\n\r\n").is_empty());
}

#[test]
fn proxy_hosts() {
    assert_eq!(proxy_host("http://1.2.3.4:8080"), "1.2.3.4:8080");
    assert_eq!(proxy_host("socks5://h:1://x"), "h:1");
    assert_eq!(proxy_host("h:1"), "h:1");
}

#[test]
fn worker_reports() {
    assert_eq!(fetch_report(3, "http://p:80", "https://g.co/?q=a", true), "[#3 => p:80] Successfully fetched https://g.co/?q=a");
    assert_eq!(fetch_report(12, "http://p:80", "u", false), "[#12 => p:80] Failed to fetch u");
    assert_eq!(exit_report(0), "[#0]: Receiver closed");
}

#[test]
fn only_complete_findings_are_reported() {
    let f = vec![
        ("t".to_string(), "l".to_string(), "d".to_string()),
        ("".to_string(), "l".to_string(), "d".to_string()),
        ("t2".to_string(), "l2".to_string(), "".to_string()),
    ];
    assert_eq!(reportable(&f), vec![("t".to_string(), "l".to_string(), "d".to_string())]);
}

#[test]
fn record_format() {
    let f = ("T".to_string(), "L".to_string(), "D".to_string());
    assert_eq!(finding_record(&f), "Title: T\nLink: L\nDescription: D\n\n");
}

#[test]
fn numbers_and_trimming() {
    assert_eq!(decimal(0), "0");
    assert_eq!(decimal(1234567890), "1234567890");
    assert_eq!(trim_text("\u{3000} a b\t"), "a b");
}

#[test]
fn end_to_end_one_found_one_not_found() {
    let queries = Query::new(vec!["a.com".to_string(), "b.com".to_string()], vec!["site:SITE STRING".to_string()], "alice").build();
    assert_eq!(queries, vec!["site:a.com alice".to_string(), "site:b.com alice".to_string()]);
    let bodies = vec![
        "<html><body><div class=\"ezO2md\"><a href=\"/url?q=https://a.com/alice&sa=U\"><span class=\"CVA68e\">Alice</span></a><span class=\"FrIlee\">Profile</span></div></body></html>".to_string(),
        String::new(),
    ];
    let mut found = 0;
    let mut not_found = 0;
    for body in &bodies {
        let r = reportable(&parse(body));
        if r.is_empty() {
            not_found += 1;
        } else {
            found += r.len();
        }
    }
    assert_eq!(found, 1);
    assert_eq!(not_found, 1);
}
