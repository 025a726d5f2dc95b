use reddit_stream::auth::{build_basic_auth, token_from_response, AuthError};
use base64::Engine;
use reddit_stream::listing::{
    build_bearer_auth, build_listing_url, posts_from_response, FetchError,
};

#[test]
fn listing_three_items() {
    let body = r#"{"data":{"children":[
        {"data":{"title":"First","selftext":"one","name":"t1"}},
        {"data":{"title":"Second","selftext":"two","name":"t2"}},
        {"data":{"title":"Third","selftext":"three","name":"t3"}}
    ]}}"#;
    let page = posts_from_response(200, body).unwrap();
    assert_eq!(page.items.len(), 3);
    assert_eq!(page.items[0].title, "First");
    assert_eq!(page.items[0].content, "one");
    assert_eq!(page.items[0].item_id, "t1");
    assert_eq!(page.items[1].item_id, "t2");
    assert_eq!(page.items[2].item_id, "t3");
    assert_eq!(page.last_id.as_deref(), Some("t3"));
}

#[test]
fn listing_empty() {
    let body = r#"{"data":{"children":[]}}"#;
    let page = posts_from_response(200, body).unwrap();
    assert_eq!(page.items.len(), 0);
    assert!(page.last_id.is_none());
}

#[test]
fn listing_http_429() {
    let r = posts_from_response(429, "too many requests");
    match r {
        Err(FetchError::Http { status, body }) => {
            assert_eq!(status, 429);
            assert_eq!(body, "too many requests");
        },
        _ => panic!("expected an Http error"),
    }
}

#[test]
fn listing_missing_selftext() {
    let body = r#"{"data":{"children":[
        {"data":{"title":"A","selftext":"a","name":"t1"}},
        {"data":{"title":"B","name":"t2"}},
        {"data":{"title":"C","selftext":"c","name":"t3"}}
    ]}}"#;
    let page = posts_from_response(200, body).unwrap();
    assert_eq!(page.items.len(), 3);
    assert_eq!(page.items[1].content, "");
    assert_eq!(page.items[1].title, "B");
    assert_eq!(page.items[0].content, "a");
    assert_eq!(page.items[2].content, "c");
}

#[test]
fn listing_missing_name_tolerated() {
    let body = r#"{"data":{"children":[{"data":{"title":"A","selftext":"a"}}]}}"#;
    let page = posts_from_response(200, body).unwrap();
    assert_eq!(page.items.len(), 1);
    assert_eq!(page.items[0].item_id, "");
    assert_eq!(page.last_id.as_deref(), Some(""));
}

#[test]
fn listing_not_json() {
    let r = posts_from_response(200, "not json at all");
    assert!(matches!(r, Err(FetchError::MalformedResponse)));
}

#[test]
fn listing_wrong_shape() {
    let r = posts_from_response(200, r#"{"data":{}}"#);
    assert!(matches!(r, Err(FetchError::MalformedResponse)));
    let r = posts_from_response(200, r#"{"data":{"children":"nope"}}"#);
    assert!(matches!(r, Err(FetchError::MalformedResponse)));
    let r = posts_from_response(200, r#"[1,2,3]"#);
    assert!(matches!(r, Err(FetchError::MalformedResponse)));
}

#[test]
fn token_success() {
    let body = r#"{"access_token":"abc123","token_type":"bearer","expires_in":3600}"#;
    let tok = token_from_response(200, body).unwrap();
    assert_eq!(tok, "abc123");
}

#[test]
fn token_missing_field() {
    let r = token_from_response(200, r#"{"token_type":"bearer"}"#);
    assert!(matches!(r, Err(AuthError::MalformedResponse)));
}

#[test]
fn token_not_a_string() {
    let r = token_from_response(200, r#"{"access_token":42}"#);
    assert!(matches!(r, Err(AuthError::MalformedResponse)));
}

#[test]
fn token_http_error() {
    let r = token_from_response(401, "unauthorized");
    match r {
        Err(AuthError::Http { status, body }) => {
            assert_eq!(status, 401);
            assert_eq!(body, "unauthorized");
        },
        _ => panic!("expected an Http error"),
    }
}

#[test]
fn basic_auth_header() {
    assert_eq!(build_basic_auth("abc", "xyz"), "Basic YWJjOnh5eg==");
}

#[test]
fn basic_auth_header_matches_engine() {
    let expected = format!(
        "Basic {}",
        base64::engine::general_purpose::STANDARD.encode("id-1:s3cret")
    );
    assert_eq!(build_basic_auth("id-1", "s3cret"), expected);
}

#[test]
fn bearer_auth_header() {
    assert_eq!(build_bearer_auth("tok-1"), "Bearer tok-1");
}

#[test]
fn listing_url_without_cursor() {
    let url = build_listing_url("rust", 25, &None);
    assert_eq!(url, "https://oauth.reddit.com/r/rust/hot?limit=25");
}

#[test]
fn listing_url_with_cursor() {
    let url = build_listing_url("rust", 100, &Some("t3_abc".to_string()));
    assert_eq!(url, "https://oauth.reddit.com/r/rust/hot?limit=100&after=t3_abc");
}
