use storybuilder::services::cookie::{auth_cookie_value, clearing_cookie, session_cookie};

#[test]
fn session_cookie_is_the_header_of_a_login() {
    assert_eq!(session_cookie("abc.def.ghi"), "auth=abc.def.ghi; Path=/; HttpOnly; SameSite=Strict");
    assert_eq!(session_cookie(""), "auth=; Path=/; HttpOnly; SameSite=Strict");
}

#[test]
fn clearing_cookie_is_the_header_of_a_logout() {
    assert_eq!(clearing_cookie(), "auth=; Path=/; HttpOnly; Max-Age=0");
}

#[test]
fn auth_cookie_value_of_a_header_without_the_cookie_is_none() {
    assert_eq!(auth_cookie_value(""), None);
    assert_eq!(auth_cookie_value("other=1"), None);
    assert_eq!(auth_cookie_value("other=1; more=2"), None);
    assert_eq!(auth_cookie_value(";;;"), None);
    assert_eq!(auth_cookie_value("auth"), None);
    assert_eq!(auth_cookie_value("Auth=x"), None);
    assert_eq!(auth_cookie_value("xauth=1"), None);
    assert_eq!(auth_cookie_value("other=auth=1"), None);
    assert_eq!(auth_cookie_value("a uth=1"), None);
    assert_eq!(auth_cookie_value("auth =1"), None);
}

#[test]
fn auth_cookie_value_finds_the_cookie_wherever_it_stands() {
    assert_eq!(auth_cookie_value("auth=tok"), Some("tok"));
    assert_eq!(auth_cookie_value("auth=tok; other=1"), Some("tok"));
    assert_eq!(auth_cookie_value("other=1; auth=tok"), Some("tok"));
    assert_eq!(auth_cookie_value("other=1;auth=tok;more=2"), Some("tok"));
    assert_eq!(auth_cookie_value("a=1; b=2; auth=a.b.c; d=4"), Some("a.b.c"));
}

#[test]
fn auth_cookie_value_takes_off_the_white_space_around_the_entry() {
    assert_eq!(auth_cookie_value("  auth=tok  "), Some("tok"));
    assert_eq!(auth_cookie_value("other=1;\t auth=tok \r\n; more=2"), Some("tok"));
    assert_eq!(auth_cookie_value("\u{a0}auth=tok\u{3000};x"), Some("tok"));
    assert_eq!(auth_cookie_value("auth= tok"), Some(" tok"));
    assert_eq!(auth_cookie_value("auth=t ok "), Some("t ok"));
}

#[test]
fn auth_cookie_value_may_be_empty() {
    assert_eq!(auth_cookie_value("auth="), Some(""));
    assert_eq!(auth_cookie_value("auth=; other=1"), Some(""));
    assert_eq!(auth_cookie_value(" auth= ;"), Some(""));
}

#[test]
fn auth_cookie_value_is_that_of_the_first_such_entry() {
    assert_eq!(auth_cookie_value("auth=first; auth=second"), Some("first"));
    assert_eq!(auth_cookie_value("auth=; auth=second"), Some(""));
    assert_eq!(auth_cookie_value("x; auth=a=b=c; auth=z"), Some("a=b=c"));
}

#[test]
fn auth_cookie_value_keeps_characters_beyond_ascii() {
    assert_eq!(auth_cookie_value("caf\u{e9}=1; auth=t\u{f6}k\u{e9}n; z"), Some("t\u{f6}k\u{e9}n"));
}

#[test]
fn auth_cookie_value_reads_back_what_a_login_set() {
    let set = session_cookie("abc.def.ghi");
    assert_eq!(auth_cookie_value(&set), Some("abc.def.ghi"));
}
