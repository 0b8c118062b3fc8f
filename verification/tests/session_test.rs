use bughouse_chess::session_cookie::{first_session_cookie, get_secret_key, session_from_cookie_header};
use cookie::{Cookie, CookieJar, Key};

fn encrypted_session(value: &str) -> String {
    let key = Key::from(get_secret_key().as_bytes());
    let mut jar = CookieJar::new();
    jar.private_mut(&key).add(Cookie::new("session", value.to_owned()));
    jar.get("session").unwrap().value().to_owned()
}

#[test]
fn no_session_cookie() {
    assert_eq!(session_from_cookie_header(""), None);
    assert_eq!(session_from_cookie_header("theme=dark; lang=en"), None);
}

#[test]
fn session_cookie_that_does_not_decrypt() {
    assert_eq!(session_from_cookie_header("session=forged"), None);
}

#[test]
fn session_cookie_decrypts() {
    let header = format!("theme=dark; session={}; lang=en", encrypted_session("s-42"));
    assert_eq!(session_from_cookie_header(&header), Some("s-42".to_owned()));
}

#[test]
fn first_session_cookie_decides() {
    let header = format!("session=forged; session={}", encrypted_session("s-42"));
    assert_eq!(session_from_cookie_header(&header), None);
}

#[test]
fn first_cookie_named_session() {
    let c = |n: &str, v: &str| Some((n.to_owned(), v.to_owned()));
    assert_eq!(first_session_cookie(&vec![]), None);
    assert_eq!(first_session_cookie(&vec![c("theme", "dark"), None]), None);
    assert_eq!(
        first_session_cookie(&vec![None, c("theme", "dark"), c("session", "a"), c("session", "b")]),
        c("session", "a")
    );
}

#[test]
fn header_split_keeps_empty_pieces() {
    // A trailing separator leaves an empty piece, which is not a cookie.
    let header = format!("session={}; ", encrypted_session("s-7"));
    assert_eq!(session_from_cookie_header(&header), Some("s-7".to_owned()));
}
