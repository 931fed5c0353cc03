use srcomapi::request::request_key;
use srcomapi::variable::Filter;
use srcomapi::ApiError;

#[test]
fn query_pairs_are_appended() {
    let q = vec![("offset".to_string(), "10".to_string()), ("max".to_string(), "20".to_string())];
    assert_eq!(request_key("https://example.org/api/v1/users", &q).unwrap(), "https://example.org/api/v1/users?offset=10&max=20");
}

#[test]
fn pairs_are_form_encoded() {
    let f = Filter::from_pairs(&vec![("x y".to_string(), "a&b".to_string())]);
    let key = request_key("https://example.org/lb", &f.query_pairs()).unwrap();
    assert_eq!(key, "https://example.org/lb?var-x+y=a%26b");
}

#[test]
fn same_request_gives_same_key() {
    let q = vec![("a".to_string(), "1".to_string())];
    assert_eq!(request_key("https://Example.org/x", &q).unwrap(), request_key("https://example.org/x", &q).unwrap());
}

#[test]
fn unparsable_url_is_an_error() {
    assert!(matches!(request_key("not a url", &vec![]), Err(ApiError::InvalidUrl(_))));
}
