use spa_server::attr::{AttrPath, Lit, Meta};
use spa_server::config::{get_name_value, get_path, parse_config, parse_identity, ConfigError};
use spa_server::lit::{parse_decimal, LitError, LitWrap};

fn path(s: &str) -> AttrPath {
    AttrPath { segments: vec![s.to_string()], leading_colon: false }
}

fn nv(k: &str, lit: Lit) -> Meta {
    Meta::NameValue(path(k), lit)
}

fn list(k: &str, items: Vec<Meta>) -> Meta {
    Meta::List(path(k), items)
}

fn st(x: &str) -> Lit {
    Lit::Str(x.to_string())
}

fn int_lit(x: &str) -> Lit {
    Lit::Int(x.to_string())
}

fn attr(items: Vec<Meta>) -> Vec<Meta> {
    vec![list("spa_server", items)]
}

#[test]
fn static_files_present_succeeds() {
    let cfg = parse_config(&attr(vec![nv("static_files", st("web/dist"))])).unwrap();
    assert_eq!(cfg.static_files, "web/dist");
    assert!(!cfg.cors);
    assert!(cfg.apis.is_empty());
    assert!(cfg.identity.is_none());
}

#[test]
fn static_files_missing_fails() {
    let r = parse_config(&attr(vec![Meta::Path(path("cors"))]));
    let e = r.err().unwrap();
    assert_eq!(e, ConfigError::MissingStaticFiles);
    assert_eq!(e.message(), "must set static files path in attribute");
}

#[test]
fn no_attribute_is_missing_static_files() {
    let r = parse_config(&vec![]);
    assert_eq!(r.err(), Some(ConfigError::MissingStaticFiles));
}

#[test]
fn static_files_of_wrong_type_is_missing() {
    let r = parse_config(&attr(vec![nv("static_files", Lit::Bool(true))]));
    assert_eq!(r.err(), Some(ConfigError::MissingStaticFiles));
}

#[test]
fn foreign_namespace_fails() {
    let mut attrs = attr(vec![nv("static_files", st("dist"))]);
    attrs.push(list("serde", vec![]));
    let e = parse_config(&attrs).err().unwrap();
    assert_eq!(e, ConfigError::ForeignAttribute);
    assert_eq!(e.message(), "only support attribute spa_server");
}

#[test]
fn non_list_attributes_are_ignored() {
    let mut attrs = vec![nv("doc", st("a server"))];
    attrs.extend(attr(vec![nv("static_files", st("dist"))]));
    let cfg = parse_config(&attrs).unwrap();
    assert_eq!(cfg.static_files, "dist");
}

#[test]
fn cors_bare_flag_enables() {
    let cfg = parse_config(&attr(vec![
        nv("static_files", st("dist")),
        nv("cors", Lit::Bool(false)),
        Meta::Path(path("cors")),
    ]))
    .unwrap();
    assert!(cfg.cors);
}

#[test]
fn cors_name_value_decides_without_flag() {
    let on = parse_config(&attr(vec![nv("static_files", st("dist")), nv("cors", Lit::Bool(true))]))
        .unwrap();
    assert!(on.cors);
    let off = parse_config(&attr(vec![nv("static_files", st("dist")), nv("cors", Lit::Bool(false))]))
        .unwrap();
    assert!(!off.cors);
    let unreadable =
        parse_config(&attr(vec![nv("static_files", st("dist")), nv("cors", st("yes"))])).unwrap();
    assert!(!unreadable.cors);
}

#[test]
fn identity_kept_when_complete() {
    let cfg = parse_config(&attr(vec![
        nv("static_files", st("dist")),
        list("identity", vec![nv("name", st("auth")), nv("age", int_lit("30"))]),
    ]))
    .unwrap();
    let id = cfg.identity.unwrap();
    assert_eq!(id.name, "auth");
    assert_eq!(id.age, 30);
}

#[test]
fn identity_zero_age_dropped() {
    let r = parse_identity(&vec![nv("name", st("a")), nv("age", int_lit("0"))]);
    assert!(r.is_none());
}

#[test]
fn identity_empty_name_dropped() {
    let r = parse_identity(&vec![nv("name", st("")), nv("age", int_lit("10"))]);
    assert!(r.is_none());
}

#[test]
fn identity_missing_age_dropped() {
    let r = parse_identity(&vec![nv("name", st("a"))]);
    assert!(r.is_none());
}

#[test]
fn identity_last_readable_value_wins() {
    let r = parse_identity(&vec![
        nv("name", st("a")),
        nv("name", st("b")),
        nv("age", int_lit("5")),
        nv("age", st("ten")),
    ])
    .unwrap();
    assert_eq!(r.name, "b");
    assert_eq!(r.age, 5);
}

#[test]
fn apis_groups_in_order() {
    let cfg = parse_config(&attr(vec![
        nv("static_files", st("dist")),
        list(
            "apis",
            vec![
                list("api", vec![nv("prefix", st("/api/v1")), Meta::Path(path("foo"))]),
                list("api", vec![Meta::Path(path("test")), Meta::Path(path("other"))]),
                list("unknown", vec![Meta::Path(path("ignored"))]),
            ],
        ),
    ]))
    .unwrap();
    assert_eq!(cfg.apis.len(), 2);
    assert_eq!(cfg.apis[0].prefix.as_deref(), Some("/api/v1"));
    assert_eq!(cfg.apis[0].handlers.len(), 1);
    assert_eq!(cfg.apis[0].handlers[0].segments, vec!["foo".to_string()]);
    assert_eq!(cfg.apis[1].prefix, None);
    assert_eq!(cfg.apis[1].handlers.len(), 2);
    assert_eq!(cfg.apis[1].handlers[1].segments, vec!["other".to_string()]);
}

#[test]
fn get_name_value_skips_unreadable() {
    let metas = vec![nv("k", Lit::Bool(true)), nv("k", st("v")), nv("k", st("w"))];
    let r: Option<String> = get_name_value(&metas, "k");
    assert_eq!(r.as_deref(), Some("v"));
    let none: Option<i64> = get_name_value(&metas, "k");
    assert_eq!(none, None);
}

#[test]
fn get_path_needs_single_identifier() {
    let metas = vec![Meta::Path(AttrPath {
        segments: vec!["a".to_string(), "cors".to_string()],
        leading_colon: false,
    })];
    assert!(!get_path(&metas, "cors"));
    assert!(get_path(&vec![Meta::Path(path("cors"))], "cors"));
}

#[test]
fn decimal_parsing() {
    assert_eq!(parse_decimal("0"), Some(0));
    assert_eq!(parse_decimal("1440"), Some(1440));
    assert_eq!(parse_decimal("9223372036854775807"), Some(i64::MAX));
    assert_eq!(parse_decimal("9223372036854775808"), None);
    assert_eq!(parse_decimal(""), None);
    assert_eq!(parse_decimal("12a"), None);
}

#[test]
fn lit_wrap_errors() {
    let l = st("x");
    let w = LitWrap { inner: &l };
    assert_eq!(w.parse::<bool>().err(), Some(LitError::NotBool));
    assert_eq!(w.parse::<i64>().err(), Some(LitError::NotInteger));
    let b = Lit::Bool(true);
    assert_eq!(LitWrap { inner: &b }.parse::<String>().err(), Some(LitError::NotString));
    let big = int_lit("99999999999999999999");
    assert_eq!(LitWrap { inner: &big }.parse::<i64>().err(), Some(LitError::IntegerOutOfRange));
    assert_eq!(LitError::NotBool.message(), "parse to bool failed");
}

#[test]
fn integer_types_read_within_range() {
    let l = int_lit("300");
    let w = LitWrap { inner: &l };
    assert_eq!(w.parse::<u8>().err(), Some(LitError::IntegerOutOfRange));
    assert_eq!(w.parse::<i8>().err(), Some(LitError::IntegerOutOfRange));
    assert_eq!(w.parse::<u16>().unwrap(), 300);
    assert_eq!(w.parse::<i16>().unwrap(), 300);
    assert_eq!(w.parse::<u32>().unwrap(), 300);
    assert_eq!(w.parse::<i32>().unwrap(), 300);
    assert_eq!(w.parse::<u64>().unwrap(), 300);
    let max = int_lit("18446744073709551615");
    assert_eq!(LitWrap { inner: &max }.parse::<u64>().unwrap(), u64::MAX);
    assert_eq!(LitWrap { inner: &max }.parse::<i64>().err(), Some(LitError::IntegerOutOfRange));
    let odd = int_lit("1x");
    assert_eq!(LitWrap { inner: &odd }.parse::<u8>().err(), Some(LitError::NotInteger));
}

#[test]
fn lit_error_messages() {
    assert_eq!(LitError::NotString.message(), "parse to string failed");
    assert_eq!(LitError::NotInteger.message(), "parse to integer failed");
    assert_eq!(LitError::IntegerOutOfRange.message(), "integer literal out of range");
}

#[test]
fn negative_integer_literals() {
    let l = int_lit("-5");
    assert_eq!(LitWrap { inner: &l }.parse::<i64>().unwrap(), -5);
    assert_eq!(LitWrap { inner: &l }.parse::<i8>().unwrap(), -5);
    assert_eq!(LitWrap { inner: &l }.parse::<u8>().err(), Some(LitError::NotInteger));
    let lo = int_lit("-128");
    assert_eq!(LitWrap { inner: &lo }.parse::<i8>().unwrap(), i8::MIN);
    let below = int_lit("-129");
    assert_eq!(LitWrap { inner: &below }.parse::<i8>().err(), Some(LitError::IntegerOutOfRange));
    let min = int_lit("-9223372036854775808");
    assert_eq!(LitWrap { inner: &min }.parse::<i64>().unwrap(), i64::MIN);
    let bare = int_lit("-");
    assert_eq!(LitWrap { inner: &bare }.parse::<i64>().err(), Some(LitError::NotInteger));
}

#[test]
fn identity_negative_age_kept() {
    let r = parse_identity(&vec![nv("name", st("a")), nv("age", int_lit("-5"))]).unwrap();
    assert_eq!(r.name, "a");
    assert_eq!(r.age, -5);
}
