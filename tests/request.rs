use enola::request::{classify_response, ApiMode, ApiQueryError, ApiVerdict, RandomUserAgent};

#[test]
fn api_line_is_built() {
    let m = ApiMode::new("alice".to_string());
    let r = m.build("GET https://site.com/USER ", "ua".to_string()).unwrap();
    assert_eq!(r.method, "GET");
    assert_eq!(r.url, "https://site.com/alice");
    assert_eq!(r.user_agent, "ua");
    assert_eq!(r.body, None);
}

#[test]
fn api_line_keeps_data_and_encodes_target() {
    let m = ApiMode::new("a b/é".to_string());
    let r = m.build("POST https://x.io/q?u=USER&v=USER {\"k\": 1}", "ua".to_string()).unwrap();
    assert_eq!(r.method, "POST");
    assert_eq!(r.url, "https://x.io/q?u=a%20b%2F%C3%A9&v=a%20b%2F%C3%A9");
    assert_eq!(r.body, Some("{\"k\": 1}".to_string()));
}

#[test]
fn api_line_errors() {
    let m = ApiMode::new("t".to_string());
    assert_eq!(m.build("GET https://x.io", "ua".to_string()).err(), Some(ApiQueryError::MissingParts));
    assert_eq!(m.build("GET", "ua".to_string()).err(), Some(ApiQueryError::MissingParts));
    assert_eq!(m.build("G(T https://x.io d", "ua".to_string()).err(), Some(ApiQueryError::InvalidMethod));
    assert_eq!(m.build(" https://x.io d", "ua".to_string()).err(), Some(ApiQueryError::InvalidMethod));
}

#[test]
fn user_agent_pool() {
    let pool = RandomUserAgent::new(vec!["u1".to_string(), "u2".to_string()]);
    for _ in 0..20 {
        let a = pool.get_random().unwrap();
        assert!(a == "u1" || a == "u2");
    }
    assert_eq!(RandomUserAgent::new(vec![]).get_random(), None);
}

#[test]
fn api_responses_are_read() {
    assert_eq!(classify_response(true, "profile of alice"), ApiVerdict::Found);
    assert_eq!(classify_response(true, "Error 404"), ApiVerdict::NotFound);
    assert_eq!(classify_response(true, "User Not Found"), ApiVerdict::NotFound);
    assert_eq!(classify_response(false, "anything"), ApiVerdict::Ignored);
}
