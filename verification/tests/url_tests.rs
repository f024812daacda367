use pydantic_validators::errors::{ErrorType, ValError};
use pydantic_validators::url_validators::{
    get_allowed_schemas, is_special_scheme, parse_multihost_url, parse_url, split_multihost, MultiHostUrlValidator, SplitError, UrlInput,
    UrlValidator,
};

fn first_error(e: ValError) -> ErrorType {
    match e {
        ValError::LineErrors(mut es) => {
            assert_eq!(es.len(), 1);
            es.remove(0).error_type
        }
        other => panic!("unexpected {:?}", other),
    }
}

#[test]
fn parse_url_reads_scheme_and_host() {
    let p = parse_url("https://example.com/x?y=1", false).unwrap();
    assert_eq!(p.scheme(), "https");
    assert!(p.has_host());
    assert_eq!(p.as_str(), "https://example.com/x?y=1");
    let m = parse_url("mailto:someone@example.com", false).unwrap();
    assert!(!m.has_host());
}

#[test]
fn parse_url_errors() {
    let e = parse_url("not a url", false).unwrap_err();
    assert!(matches!(first_error(e), ErrorType::UrlParsing { error } if error == "relative URL without a base"));
    assert!(parse_url("https:////example.com", false).is_ok());
    let e = parse_url("https:////example.com", true).unwrap_err();
    assert!(matches!(first_error(e), ErrorType::UrlSyntaxViolation { error } if error == "expected //"));
}

#[test]
fn special_schemes() {
    assert!(is_special_scheme("https"));
    assert!(is_special_scheme("file"));
    assert!(!is_special_scheme("postgres"));
}

#[test]
fn split_multihost_separates_hosts() {
    let (scheme, hosts, url) = split_multihost("postgres://user:pass@h1:5432,h2:5433/db?x=1").unwrap();
    assert_eq!(scheme, "postgres");
    assert_eq!(hosts, vec!["user:pass@h1:5432".to_string()]);
    assert_eq!(url, "postgres://h2:5433/db?x=1");
    assert_eq!(split_multihost("nocolon").unwrap_err(), SplitError::EmptyHost);
    assert_eq!(split_multihost("a b://x").unwrap_err(), SplitError::RelativeUrlWithoutBase);
    assert_eq!(split_multihost("http://a,,b").unwrap_err(), SplitError::EmptyHost);
    assert_eq!(split_multihost("http://").unwrap_err(), SplitError::EmptyHost);
}

#[test]
fn multihost_urls_parse_each_host() {
    let m = parse_multihost_url("postgres://user:pass@h1:5432,h2:5433/db", false).unwrap();
    assert_eq!(m.ref_url.as_str(), "postgres://h2:5433/db");
    let extra = m.extra_urls.unwrap();
    assert_eq!(extra.len(), 1);
    assert_eq!(extra[0].url().as_str(), "postgres://user:pass@h1:5432");
    let single = parse_multihost_url("https://example.com", false).unwrap();
    assert!(single.extra_urls.is_none());
    let e = parse_multihost_url("http://a,,b", false).unwrap_err();
    assert!(matches!(first_error(e), ErrorType::UrlParsing { error } if error == "empty host"));
}

#[test]
fn allowed_schemes_and_names() {
    let (a, name) = get_allowed_schemas(Some(vec!["http".to_string(), "https".to_string()]), "url").unwrap();
    assert_eq!(name, "url['http','https']");
    assert_eq!(a.unwrap().repr, "'http' or 'https'");
    let (a, name) = get_allowed_schemas(None, "url").unwrap();
    assert!(a.is_none());
    assert_eq!(name, "url");
    assert_eq!(get_allowed_schemas(Some(vec![]), "url").unwrap_err(), "\"allowed_schemes\" should have length > 0");
}

#[test]
fn url_validator_checks() {
    let v = UrlValidator::build(Some(vec!["https".to_string()]), false, true, Some(30)).unwrap();
    assert_eq!(v.name, "url['https']");
    assert!(v.validate(UrlInput::Str("https://example.com".to_string()), None).is_ok());
    let e = v.validate(UrlInput::Str("http://example.com".to_string()), None).unwrap_err();
    assert!(matches!(first_error(e), ErrorType::UrlSchema { expected_schemas } if expected_schemas == "'https'"));
    let e = v.validate(UrlInput::Str("https://example.com/a-very-long-path-indeed".to_string()), None).unwrap_err();
    assert!(matches!(first_error(e), ErrorType::UrlTooLong { max_length: 30 }));
    let obj = parse_url("https://example.com/a", false).unwrap();
    assert_eq!(v.validate(UrlInput::Url { url: obj }, None).unwrap().as_str(), "https://example.com/a");
    let other = parse_url("ftp://example.com/", false).unwrap();
    assert!(matches!(first_error(v.validate(UrlInput::Url { url: other }, None).unwrap_err()), ErrorType::UrlSchema { .. }));
    let e = v.validate(UrlInput::Other, None).unwrap_err();
    assert!(matches!(first_error(e), ErrorType::UrlType));
    let any = UrlValidator::build(None, false, true, None).unwrap();
    let e = any.validate(UrlInput::Str("mailto:a@b.c".to_string()), None).unwrap_err();
    assert!(matches!(first_error(e), ErrorType::UrlHostRequired));
}

#[test]
fn multihost_validator_checks() {
    let v = MultiHostUrlValidator::build(Some(vec!["postgres".to_string()]), false, None).unwrap();
    assert_eq!(v.name, "multi-host-url['postgres']");
    assert!(v.validate(UrlInput::Str("postgres://h1,h2/db".to_string()), None).is_ok());
    let e = v.validate(UrlInput::Str("mysql://h1,h2/db".to_string()), None).unwrap_err();
    assert!(matches!(first_error(e), ErrorType::UrlSchema { .. }));
    assert!(MultiHostUrlValidator::build(Some(vec![]), false, None).is_err());
}
