use actix_cloud::i18n::Locale;
use actix_cloud::pattern::matches_pattern;
use actix_cloud::response::Response;
use actix_cloud::router::{csrf_precheck, CsrfCheck, CSRFType};
use actix_cloud::security::{SecurityHeader, StrictTransportSecurity, XXSSProtection};
use actix_cloud::strutil::{parse_i64, u64_to_string};
use actix_cloud::utils::{is_default, is_unique, rand_string, rand_string_all, rand_string_hex};

fn locale() -> Locale {
    Locale::new("en-US".to_owned()).add_locale(vec![
        ("en-US.greeting".to_owned(), "hello".to_owned()),
        ("de.greeting".to_owned(), "hallo".to_owned()),
        ("en-US.only.english".to_owned(), "english only".to_owned()),
    ])
}

#[test]
fn translate_direct_hit() {
    let l = locale();
    assert_eq!(l.translate("de", "greeting"), "hallo");
    assert_eq!(l.translate("en-US", "greeting"), "hello");
}

#[test]
fn translate_falls_back_to_default_locale() {
    // a locale without the entry falls back to the default locale's entry
    let l = locale();
    assert_eq!(l.translate("zh-CN", "only.english"), "english only");
}

#[test]
fn translate_falls_back_to_key() {
    // the default locale misses too: the key itself comes back
    let l = locale();
    assert_eq!(l.translate("en-US", "missing.key"), "missing.key");
    assert_eq!(l.translate("zh-CN", "missing.key"), "missing.key");
}

#[test]
fn add_locale_later_entries_win() {
    let l = Locale::new("en".to_owned()).add_locale(vec![
        ("en.k".to_owned(), "old".to_owned()),
        ("en.k".to_owned(), "new".to_owned()),
    ]);
    assert_eq!(l.translate("en", "k"), "new");
}

#[test]
fn glob_matching_agrees_with_the_glob_crate() {
    let cases = [
        ("*", "anything"),
        ("?", "x"),
        ("?", "xy"),
        ("a*b", "ab"),
        ("a*b", "axxxb"),
        ("a*b", "axxxc"),
        ("*a*", "bcade"),
        ("a?c", "abc"),
        ("a?c", "ac"),
        ("", ""),
        ("", "x"),
        ("abc", "abc"),
        ("abc", "abd"),
        ("_actix_cl?ud_bkey*", "_actix_cloud_bkey2"),
        ("**", "zz"),
        ("*x", "x"),
    ];
    for (p, s) in cases {
        let expected = glob::Pattern::new(p).unwrap().matches(s);
        assert_eq!(matches_pattern(p, s), expected, "pattern {p} on {s}");
    }
}

#[test]
fn decimal_formatting_and_parsing() {
    assert_eq!(u64_to_string(0), "0");
    assert_eq!(u64_to_string(31536000), "31536000");
    assert_eq!(u64_to_string(u64::MAX), u64::MAX.to_string());
    assert_eq!(parse_i64("120"), Some(120));
    assert_eq!(parse_i64("-7"), Some(-7));
    assert_eq!(parse_i64("+42"), Some(42));
    assert_eq!(parse_i64(""), None);
    assert_eq!(parse_i64("12a"), None);
    assert_eq!(parse_i64("99999999999999999999999"), None);
    assert_eq!(parse_i64("9223372036854775807"), Some(i64::MAX));
    assert_eq!(parse_i64("-9223372036854775808"), Some(i64::MIN));
    assert_eq!(parse_i64("9223372036854775808"), None);
}

#[test]
fn security_header_defaults_and_hsts() {
    let mut h = SecurityHeader::default();
    h.set_default_hsts();
    let pairs = h.build();
    assert_eq!(pairs.len(), 7);
    assert_eq!(pairs[0].0, "X-Content-Type-Options");
    assert_eq!(pairs[0].1, "nosniff");
    assert_eq!(pairs[1].1, "strict-origin-when-cross-origin");
    assert_eq!(pairs[2].1, "DENY");
    assert_eq!(pairs[3].1, "1; mode=block");
    assert_eq!(pairs[4].1, "same-origin");
    assert_eq!(
        pairs[6],
        (
            "Strict-Transport-Security".to_owned(),
            "max-age=31536000; includeSubDomains; preload".to_owned()
        )
    );
}

#[test]
fn security_header_report_text() {
    let x = XXSSProtection::EnableReport("https://r.example".to_owned());
    assert_eq!(x.to_text(), "1; report=https://r.example");
    let h = StrictTransportSecurity::IncludeSubDomains(60);
    assert_eq!(h.to_text(), "max-age=60; includeSubDomains");
}

#[test]
fn csrf_skips_safe_methods_unless_forced() {
    let cookie = "tok".to_owned();
    let header = "tok".to_owned();
    assert!(matches!(
        csrf_precheck(CSRFType::Header, true, Some(&cookie), Some(&header), None),
        CsrfCheck::Skip
    ));
    assert!(matches!(
        csrf_precheck(CSRFType::ForceHeader, true, Some(&cookie), Some(&header), None),
        CsrfCheck::Consult(t) if t == "tok"
    ));
    assert!(matches!(
        csrf_precheck(CSRFType::Disabled, false, None, None, None),
        CsrfCheck::Skip
    ));
}

#[test]
fn csrf_rejects_missing_or_mismatched_tokens() {
    let cookie = "tok".to_owned();
    let bad = "other".to_owned();
    assert!(matches!(
        csrf_precheck(CSRFType::Header, false, None, Some(&cookie), None),
        CsrfCheck::Reject
    ));
    assert!(matches!(
        csrf_precheck(CSRFType::Header, false, Some(&cookie), None, None),
        CsrfCheck::Reject
    ));
    assert!(matches!(
        csrf_precheck(CSRFType::Header, false, Some(&cookie), Some(&bad), None),
        CsrfCheck::Reject
    ));
    // the query parameter counts only in the param modes
    let param = "tok".to_owned();
    assert!(matches!(
        csrf_precheck(CSRFType::Header, false, Some(&cookie), None, Some(&param)),
        CsrfCheck::Reject
    ));
    assert!(matches!(
        csrf_precheck(CSRFType::Param, false, Some(&cookie), None, Some(&param)),
        CsrfCheck::Consult(t) if t == "tok"
    ));
}

#[test]
fn random_strings_have_length_and_charset() {
    let s = rand_string(32);
    assert_eq!(s.len(), 32);
    assert!(s.chars().all(|c| c.is_ascii_alphanumeric()));
    let h = rand_string_hex(32);
    assert_eq!(h.len(), 32);
    assert!(h.chars().all(|c| c.is_ascii_hexdigit() && !c.is_ascii_uppercase()));
    let a = rand_string_all(16);
    assert_eq!(a.chars().count(), 16);
    assert!(a.chars().all(|c| (33..=125).contains(&(c as u32))));
    // two draws almost surely differ: the generator is not constant
    assert_ne!(rand_string(32), rand_string(32));
}

#[test]
fn uniqueness_and_default_checks() {
    let distinct = vec!["a".to_owned(), "b".to_owned(), "c".to_owned()];
    let repeated = vec!["a".to_owned(), "b".to_owned(), "a".to_owned()];
    assert!(is_unique(&distinct));
    assert!(!is_unique(&repeated));
    assert!(is_default(&0u64));
    assert!(!is_default(&5u64));
    assert!(is_default(&String::new()));
}

#[test]
fn response_builders_fill_fields() {
    let r: Response<u32> = Response::new_code(404);
    assert_eq!(r.http_code, 404);
    assert!(!r.translate);
    let r: Response<u32> = Response::bad_request("nope".to_owned()).data(7);
    assert_eq!(r.http_code, 400);
    assert_eq!(r.message, "nope");
    assert_eq!(r.data, Some(7));
    let l = locale();
    let r: Response<u32> = Response::new_code(200).message("greeting".to_owned()).translate();
    assert_eq!(r.i18n_message(&l, "de"), "hallo");
    let r: Response<u32> = Response::new_code(200).message("greeting".to_owned());
    assert_eq!(r.i18n_message(&l, "de"), "greeting");
}
