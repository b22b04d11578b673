use kemenkeu_backend::error::AppError;
use kemenkeu_backend::handlers::auth::{
    extract_session_id, login_cookie, login_outcome, logout_cookie, me_session, optional_session,
    session_id,
};
use kemenkeu_backend::models::User;

fn unauthorized() -> AppError {
    AppError::Unauthorized("not logged in".to_string())
}

#[test]
fn login_cookie_text_is_exact() {
    assert_eq!(login_cookie(5), "kemenkeu_session=5; Path=/; Max-Age=604800; SameSite=Lax");
    assert_eq!(login_cookie(-12), "kemenkeu_session=-12; Path=/; Max-Age=604800; SameSite=Lax");
    assert_eq!(
        login_cookie(i32::MIN),
        "kemenkeu_session=-2147483648; Path=/; Max-Age=604800; SameSite=Lax"
    );
}

#[test]
fn logout_cookie_text_is_exact() {
    assert_eq!(logout_cookie(), "kemenkeu_session=; Path=/; Max-Age=0; SameSite=Lax");
}

#[test]
fn login_cookie_reads_back_as_the_same_user() {
    for id in [0, 1, 7, 42, 100, 1234567, -1, -99, i32::MAX, i32::MIN] {
        let cookie = login_cookie(id);
        assert_eq!(extract_session_id(Some(cookie.as_str())), Some(id));
        assert_eq!(session_id(Some(cookie.as_str())), Ok(id));
        assert_eq!(me_session(Some(cookie.as_str())), Ok(id));
    }
}

#[test]
fn logout_cookie_names_no_session() {
    let cookie = logout_cookie();
    assert_eq!(extract_session_id(Some(cookie.as_str())), None);
    assert_eq!(session_id(Some(cookie.as_str())), Err(unauthorized()));
    assert_eq!(me_session(Some(cookie.as_str())), Err(unauthorized()));
}

#[test]
fn missing_cookie_header_is_not_logged_in() {
    assert_eq!(extract_session_id(None), None);
    assert_eq!(session_id(None), Err(unauthorized()));
    assert_eq!(me_session(None), Err(unauthorized()));
}

#[test]
fn session_among_other_cookies() {
    let header = "theme=dark; kemenkeu_session=17; lang=id";
    assert_eq!(extract_session_id(Some(header)), Some(17));
    assert_eq!(session_id(Some(header)), Ok(17));
}

#[test]
fn spaces_around_key_and_value_only_read_leniently() {
    let header = "a=1;  kemenkeu_session = 12 ";
    assert_eq!(extract_session_id(Some(header)), Some(12));
    assert_eq!(session_id(Some(header)), Err(unauthorized()));
}

#[test]
fn first_readable_session_wins() {
    let header = "kemenkeu_session=abc; kemenkeu_session=5; kemenkeu_session=6";
    assert_eq!(extract_session_id(Some(header)), Some(5));
    assert_eq!(session_id(Some(header)), Ok(5));
}

#[test]
fn session_value_is_read_as_i32() {
    assert_eq!(extract_session_id(Some("kemenkeu_session=+7")), Some(7));
    assert_eq!(extract_session_id(Some("kemenkeu_session=-")), None);
    assert_eq!(extract_session_id(Some("kemenkeu_session=")), None);
    assert_eq!(extract_session_id(Some("kemenkeu_session=2147483647")), Some(i32::MAX));
    assert_eq!(extract_session_id(Some("kemenkeu_session=2147483648")), None);
    assert_eq!(extract_session_id(Some("kemenkeu_session=-2147483648")), Some(i32::MIN));
    assert_eq!(extract_session_id(Some("kemenkeu_session=-2147483649")), None);
    assert_eq!(extract_session_id(Some("kemenkeu_session=0007")), Some(7));
    assert_eq!(extract_session_id(Some("kemenkeu_session=1x")), None);
    assert_eq!(extract_session_id(Some("kemenkeu_session=99999999999999999999")), None);
}

#[test]
fn other_cookie_names_are_ignored() {
    assert_eq!(extract_session_id(Some("kemenkeu_sessionx=5")), None);
    assert_eq!(extract_session_id(Some("session=5")), None);
    assert_eq!(extract_session_id(Some("kemenkeu_session")), None);
    assert_eq!(extract_session_id(Some("")), None);
}

#[test]
fn value_with_equals_sign_is_not_a_number() {
    assert_eq!(extract_session_id(Some("kemenkeu_session=5=6")), None);
}

#[test]
fn login_of_missing_user_is_not_found() {
    assert_eq!(
        login_outcome(None),
        Err(AppError::NotFound("user not found".to_string()))
    );
}

#[test]
fn login_of_user_sets_their_cookie() {
    let user = User { id: 3, name: "Ayu".to_string(), monthly_budget_cents: 500 };
    let (u, cookie) = login_outcome(Some(user)).unwrap();
    assert_eq!(u, User { id: 3, name: "Ayu".to_string(), monthly_budget_cents: 500 });
    assert_eq!(cookie, "kemenkeu_session=3; Path=/; Max-Age=604800; SameSite=Lax");
}

#[test]
fn session_pair_sent_back_by_a_browser() {
    for id in [0, 5, -3, i32::MAX, i32::MIN] {
        let pair = format!("kemenkeu_session={}", id);
        assert_eq!(extract_session_id(Some(pair.as_str())), Some(id));
        assert_eq!(session_id(Some(pair.as_str())), Ok(id));
        assert_eq!(optional_session(Some(pair.as_str())), Some(id));
    }
}

#[test]
fn optional_session_reads_like_session_id() {
    assert_eq!(optional_session(None), None);
    assert_eq!(optional_session(Some("a=1;  kemenkeu_session = 12 ")), None);
    assert_eq!(optional_session(Some("a=1; kemenkeu_session=12")), Some(12));
}
