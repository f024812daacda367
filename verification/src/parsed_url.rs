//! URLs as the `url` crate parses them: the parsed URL with what the validators read of
//! it (its scheme, whether it has a host, its serialization), made only here, from what
//! the crate gave.
use vstd::prelude::*;
use std::cell::RefCell;
use url::{SyntaxViolation, Url};

verus! {

#[verifier::external_type_specification]
#[verifier::external_body]
pub struct ExUrl(Url);

/// A URL that the `url` crate parsed, with what the validators read of it: its scheme,
/// whether it has a host, and its serialization (`Url::as_str`). Its fields are private:
/// a value is made only by the two parse functions below, from the URL they parsed, so
/// the three always describe the URL it holds.
#[derive(Debug)]
pub struct ParsedUrl {
    url: Url,
    scheme: String,
    has_host: bool,
    text: String,
}

impl ParsedUrl {
    /// The URL's scheme.
    pub closed spec fn spec_scheme(self) -> Seq<char> {
        self.scheme@
    }

    /// Whether the URL has a host.
    pub closed spec fn spec_has_host(self) -> bool {
        self.has_host
    }

    /// The URL's serialization.
    pub closed spec fn spec_text(self) -> Seq<char> {
        self.text@
    }

    pub fn scheme(&self) -> (r: &str)
        ensures
            r@ == self.spec_scheme(),
    {
        self.scheme.as_str()
    }

    pub fn has_host(&self) -> (r: bool)
        ensures
            r == self.spec_has_host(),
    {
        self.has_host
    }

    /// The URL's serialization.
    pub fn as_str(&self) -> (r: &str)
        ensures
            r@ == self.spec_text(),
    {
        self.text.as_str()
    }

    /// The URL itself.
    pub fn url(&self) -> &Url {
        &self.url
    }
}

/// What a parse of a string gives, as plain values: the parsed URL's scheme, whether it
/// has a host and its serialization; or the failure.
pub enum UrlOutcome {
    Parsed { scheme: Seq<char>, has_host: bool, serialization: Seq<char> },
    Parsing { message: Seq<char> },
    Violation { description: Seq<char> },
}

/// What a parse gave (the URL, or the parse error's message), as plain values.
pub open spec fn url_outcome_of(r: Result<ParsedUrl, String>) -> UrlOutcome {
    match r {
        Ok(p) => UrlOutcome::Parsed { scheme: p.spec_scheme(), has_host: p.spec_has_host(), serialization: p.spec_text() },
        Err(m) => UrlOutcome::Parsing { message: m@ },
    }
}

/// The text of an optional string.
pub open spec fn option_text(o: Option<String>) -> Option<Seq<char>> {
    match o {
        Some(t) => Some(t@),
        None => None,
    }
}

/// What `Url::parse` gives for a string.
pub uninterp spec fn url_lax_outcome(s: Seq<char>) -> UrlOutcome;

/// The description of the last syntax violation that the `url` crate's parser reports
/// while parsing a string, if it reports any.
pub uninterp spec fn url_last_violation(s: Seq<char>) -> Option<Seq<char>>;

/// `Url::parse`: the URL, with its scheme, whether it has a host and its serialization,
/// or the parse error's message. What it gives is named, as a function of the string
/// alone.
#[verifier::external_body]
pub(crate) fn url_parse_lax(s: &str) -> (r: Result<ParsedUrl, String>)
    ensures
        url_outcome_of(r) == url_lax_outcome(s@),
{
    match Url::parse(s) {
        Ok(u) => Ok(ParsedUrl { scheme: u.scheme().to_string(), has_host: u.has_host(), text: u.as_str().to_string(), url: u }),
        Err(e) => Err(e.to_string()),
    }
}

/// `Url::options().syntax_violation_callback(..).parse`: the same parse as `Url::parse`
/// (which is `Url::options().parse`; the callback only hears of the violations), and the
/// description of the last syntax violation that the parser reported. The violation is
/// named, as a function of the string alone.
#[verifier::external_body]
pub(crate) fn url_parse_with_violation(s: &str) -> (r: (Result<ParsedUrl, String>, Option<String>))
    ensures
        url_outcome_of(r.0) == url_lax_outcome(s@),
        option_text(r.1) == url_last_violation(s@),
{
    let vio: RefCell<Option<SyntaxViolation>> = RefCell::new(None);
    let parsed = Url::options().syntax_violation_callback(Some(&|v| *vio.borrow_mut() = Some(v))).parse(s);
    let parsed = match parsed {
        Ok(u) => Ok(ParsedUrl { scheme: u.scheme().to_string(), has_host: u.has_host(), text: u.as_str().to_string(), url: u }),
        Err(e) => Err(e.to_string()),
    };
    (parsed, vio.into_inner().map(|v| v.description().to_string()))
}

} // verus!
