use xh::cookies::cookie_header;

fn pairs(cookies: &[(&str, &str)]) -> Vec<(String, String)> {
    cookies
        .iter()
        .map(|(name, value)| (name.to_string(), value.to_string()))
        .collect()
}

#[test]
fn no_cookies_make_no_header() {
    assert_eq!(cookie_header(&pairs(&[])), None);
}

#[test]
fn cookies_are_joined_with_semicolons() {
    assert_eq!(cookie_header(&pairs(&[("a", "1")])), Some("a=1".to_string()));
    assert_eq!(
        cookie_header(&pairs(&[("a", "1"), ("b", "2"), ("a", "3")])),
        Some("a=1; b=2; a=3".to_string())
    );
    assert_eq!(cookie_header(&pairs(&[("", "")])), Some("=".to_string()));
    assert_eq!(
        cookie_header(&pairs(&[("k", "v; w"), ("", "x")])),
        Some("k=v; w; =x".to_string())
    );
}
