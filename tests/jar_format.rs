use cookie_refresher::jar::{
    render_jar, render_jar_now, render_record, CookieRecord, PageLocation, SameSitePolicy,
    EXPORT_PERIOD_SECS,
};

fn bare(name: &str, value: &str) -> CookieRecord {
    CookieRecord {
        name: name.to_string(),
        value: value.to_string(),
        domain: None,
        path: None,
        same_site: None,
        secure: None,
        expires: None,
    }
}

fn youtube_page() -> PageLocation {
    PageLocation { domain: Some("www.youtube.com".to_string()), path: "/".to_string() }
}

#[test]
fn end_to_end_single_cookie() {
    let cookie = CookieRecord {
        name: "SID".to_string(),
        value: "abc".to_string(),
        domain: Some("youtube.com".to_string()),
        path: None,
        same_site: Some(SameSitePolicy::Lax),
        secure: Some(true),
        expires: Some(1700000000),
    };
    let text = render_jar(&vec![cookie], &youtube_page(), 1);
    assert_eq!(text, "youtube.com\tTRUE\t/\tTRUE\t1700000000\tSID\tabc\n");
}

#[test]
fn domain_falls_back_to_page() {
    let at = PageLocation { domain: Some("example.com".to_string()), path: "/x".to_string() };
    let line = render_record(&bare("a", "b"), &at, 42);
    assert_eq!(line, "example.com\tFALSE\t/x\tTRUE\t42\ta\tb");
}

#[test]
fn domain_empty_without_any_source() {
    let at = PageLocation { domain: None, path: "/".to_string() };
    let line = render_record(&bare("a", "b"), &at, 7);
    assert_eq!(line, "\tFALSE\t/\tTRUE\t7\ta\tb");
}

#[test]
fn same_site_flag_only_for_lax() {
    let at = youtube_page();
    let mut c = bare("n", "v");
    assert!(render_record(&c, &at, 0).contains("\tFALSE\t/\t"));
    c.same_site = Some(SameSitePolicy::Strict);
    assert!(render_record(&c, &at, 0).starts_with("www.youtube.com\tFALSE\t"));
    c.same_site = Some(SameSitePolicy::Unrestricted);
    assert!(render_record(&c, &at, 0).starts_with("www.youtube.com\tFALSE\t"));
    c.same_site = Some(SameSitePolicy::Lax);
    assert!(render_record(&c, &at, 0).starts_with("www.youtube.com\tTRUE\t"));
}

#[test]
fn secure_by_default() {
    let at = youtube_page();
    let mut c = bare("n", "v");
    c.path = Some("/p".to_string());
    assert_eq!(render_record(&c, &at, 5), "www.youtube.com\tFALSE\t/p\tTRUE\t5\tn\tv");
    c.secure = Some(false);
    assert_eq!(render_record(&c, &at, 5), "www.youtube.com\tFALSE\t/p\tFALSE\t5\tn\tv");
}

#[test]
fn expiry_digits() {
    let at = youtube_page();
    let mut c = bare("n", "v");
    c.expires = Some(0);
    assert_eq!(render_record(&c, &at, 99), "www.youtube.com\tFALSE\t/\tTRUE\t0\tn\tv");
    c.expires = Some(-3600);
    assert_eq!(render_record(&c, &at, 99), "www.youtube.com\tFALSE\t/\tTRUE\t-3600\tn\tv");
    c.expires = Some(i64::MIN);
    assert_eq!(
        render_record(&c, &at, 99),
        "www.youtube.com\tFALSE\t/\tTRUE\t-9223372036854775808\tn\tv"
    );
    c.expires = Some(i64::MAX);
    assert_eq!(
        render_record(&c, &at, 99),
        "www.youtube.com\tFALSE\t/\tTRUE\t9223372036854775807\tn\tv"
    );
}

#[test]
fn missing_expiry_is_now() {
    let before = std::time::SystemTime::now()
        .duration_since(std::time::UNIX_EPOCH)
        .unwrap()
        .as_secs() as i64;
    let text = render_jar_now(&vec![bare("n", "v")], &youtube_page());
    let after = std::time::SystemTime::now()
        .duration_since(std::time::UNIX_EPOCH)
        .unwrap()
        .as_secs() as i64;
    let fields: Vec<&str> = text.trim_end_matches('\n').split('\t').collect();
    assert_eq!(fields.len(), 7);
    let stamp: i64 = fields[4].parse().unwrap();
    assert!(before - 2 <= stamp && stamp <= after + 2);
}

#[test]
fn export_twice_is_identical() {
    let cookies = vec![bare("a", "1"), bare("b", "2")];
    let first = render_jar(&cookies, &youtube_page(), 1234);
    let second = render_jar(&cookies, &youtube_page(), 1234);
    assert_eq!(first, second);
    assert!(first.ends_with("\tb\t2\n"));
    assert!(!first.ends_with("\n\n"));
    assert_eq!(first.lines().count(), 2);
}

#[test]
fn lines_in_cookie_order() {
    let cookies = vec![bare("a", "1"), bare("b", "2")];
    let text = render_jar(&cookies, &youtube_page(), 9);
    assert_eq!(
        text,
        "www.youtube.com\tFALSE\t/\tTRUE\t9\ta\t1\nwww.youtube.com\tFALSE\t/\tTRUE\t9\tb\t2\n"
    );
}

#[test]
fn empty_value_line_still_ends_once() {
    let text = render_jar(&vec![bare("a", "")], &youtube_page(), 9);
    assert_eq!(text, "www.youtube.com\tFALSE\t/\tTRUE\t9\ta\t\n");
}

#[test]
fn no_cookies_no_text() {
    assert_eq!(render_jar(&Vec::new(), &youtube_page(), 9), "");
}

#[test]
fn export_period_is_six_hours() {
    assert_eq!(EXPORT_PERIOD_SECS, 6 * 60 * 60);
}

#[test]
fn one_line_per_cookie() {
    let cookies = vec![bare("a", "1"), bare("b", "2"), bare("c", "3")];
    let text = render_jar(&cookies, &youtube_page(), 77);
    let pieces: Vec<&str> = text.split('\n').collect();
    assert_eq!(pieces.len(), cookies.len() + 1);
    assert_eq!(pieces[3], "");
    assert_eq!(pieces[2], "www.youtube.com\tFALSE\t/\tTRUE\t77\tc\t3");
}
