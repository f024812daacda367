//! The `url` and `multi-host-url` validators: the length limit, the parse (by the `url`
//! crate), the allowed schemes, the host requirement, and the splitting of a URL with
//! several hosts into URLs of one host each.
use vstd::prelude::*;
use url::ParseError;
use crate::parsed_url::{url_last_violation, url_lax_outcome, url_parse_lax, url_parse_with_violation, ParsedUrl, UrlOutcome};
use ahash::AHashSet;
use crate::constraints::root_error;
use crate::errors::{errors_view, ErrorType, LocItem, ValError, ValLineError};
use crate::literal::{expected_repr_name, spec_expected_repr};
use crate::string_set::{ahash_set_contents, string_set_contains, string_set_insert, string_set_new};
use crate::union::{join_seqs, joined, strings_view};

verus! {

/// The two parse errors that the splitting of a multi-host URL reports itself.
#[derive(Debug, PartialEq, Eq, Structural, Clone, Copy)]
pub enum SplitError {
    RelativeUrlWithoutBase,
    EmptyHost,
}

pub open spec fn split_error_message(e: SplitError) -> Seq<char> {
    match e {
        SplitError::RelativeUrlWithoutBase => "relative URL without a base"@,
        SplitError::EmptyHost => "empty host"@,
    }
}

/// `ParseError::to_string` for the two errors of `SplitError`: the crate's description
/// of each ("relative URL without a base", "empty host").
#[verifier::external_body]
fn split_error_text(e: SplitError) -> (r: String)
    ensures
        r@ == split_error_message(e),
{
    match e {
        SplitError::RelativeUrlWithoutBase => ParseError::RelativeUrlWithoutBase.to_string(),
        SplitError::EmptyHost => ParseError::EmptyHost.to_string(),
    }
}

/// What a parse of `s` gives, in strict mode (syntax violations are errors) or not.
pub open spec fn spec_parse_url(s: Seq<char>, strict: bool) -> UrlOutcome {
    if strict {
        strict_outcome(url_lax_outcome(s), url_last_violation(s))
    } else {
        url_lax_outcome(s)
    }
}

/// In strict mode, a URL that parsed only with a syntax violation is the violation.
pub open spec fn strict_outcome(parsed: UrlOutcome, violation: Option<Seq<char>>) -> UrlOutcome {
    match (parsed, violation) {
        (UrlOutcome::Parsed { .. }, Some(d)) => UrlOutcome::Violation { description: d },
        (o, _) => o,
    }
}

/// The error of a parse that did not give a URL.
pub open spec fn is_url_error(r: ValError, o: UrlOutcome) -> bool {
    r matches ValError::LineErrors(es) && es@.len() == 1 && es@[0].loc@.len() == 0 && match o {
        UrlOutcome::Parsing { message } => es@[0].error_type matches ErrorType::UrlParsing { error } && error@ == message,
        UrlOutcome::Violation { description } => es@[0].error_type matches ErrorType::UrlSyntaxViolation { error }
            && error@ == description,
        UrlOutcome::Parsed { .. } => false,
    }
}

/// Parses `s` into a URL, in strict mode (where a syntax violation is an error) or not.
pub fn parse_url(s: &str, strict: bool) -> (r: Result<ParsedUrl, ValError>)
    ensures
        match spec_parse_url(s@, strict) {
            UrlOutcome::Parsed { .. } => r matches Ok(p) && parsed_from(p, s@, strict),
            o => r matches Err(e) && is_url_error(e, o),
        },
{
    if strict {
        let (parsed, violation) = url_parse_with_violation(s);
        match parsed {
            Ok(p) => match violation {
                Some(d) => Err(root_error(ErrorType::UrlSyntaxViolation { error: d })),
                None => Ok(p),
            },
            Err(m) => Err(root_error(ErrorType::UrlParsing { error: m })),
        }
    } else {
        match url_parse_lax(s) {
            Ok(p) => Ok(p),
            Err(m) => Err(root_error(ErrorType::UrlParsing { error: m })),
        }
    }
}

/// Whether `c` can stand in a URL's scheme.
pub open spec fn is_scheme_char(c: char) -> bool {
    ('a' <= c && c <= 'z') || ('A' <= c && c <= 'Z') || ('0' <= c && c <= '9') || c == '+' || c == '-' || c == '.'
}

/// The position of the `:` that ends the scheme (from `i` on), the length where there is
/// none, or `None` where a character that cannot stand in a scheme comes first.
pub open spec fn scheme_end(s: Seq<char>, i: int) -> Option<int>
    decreases s.len() - i,
{
    if i >= s.len() {
        Some(s.len() as int)
    } else if s[i] == ':' {
        Some(i)
    } else if is_scheme_char(s[i]) {
        scheme_end(s, i + 1)
    } else {
        None
    }
}

/// The position after the slashes and backslashes from `i` on.
pub open spec fn slashes_end(s: Seq<char>, i: int) -> int
    decreases s.len() - i,
{
    if 0 <= i < s.len() && (s[i] == '/' || s[i] == '\\') {
        slashes_end(s, i + 1)
    } else {
        i
    }
}

/// Whether `scheme` is one of the special schemes (for which `\` ends the host).
pub open spec fn special_scheme(scheme: Seq<char>) -> bool {
    scheme == "http"@ || scheme == "https"@ || scheme == "ws"@ || scheme == "wss"@ || scheme == "ftp"@ || scheme
        == "file"@
}

/// Scans the hosts from `i` on, the current one starting at `start`, with the hosts
/// before it in `hosts`: the hosts, and where the last one starts and ends, or `None`
/// where a host is empty.
pub open spec fn host_scan(s: Seq<char>, special: bool, i: int, start: int, hosts: Seq<Seq<char>>) -> Option<
    (Seq<Seq<char>>, int, int),
>
    decreases s.len() - i,
{
    if i >= s.len() {
        if start == s.len() {
            None
        } else {
            Some((hosts, start, s.len() as int))
        }
    } else if (s[i] == '\\' && special) || s[i] == '/' || s[i] == '?' || s[i] == '#' {
        if start == i {
            None
        } else {
            Some((hosts, start, i))
        }
    } else if s[i] == ',' {
        if start == i {
            None
        } else {
            host_scan(s, special, i + 1, i + 1, hosts.push(s.subrange(start, i)))
        }
    } else {
        host_scan(s, special, i + 1, start, hosts)
    }
}

/// A multi-host URL split into its scheme, its hosts but the last, and the URL of the
/// last host (with the path, query and fragment).
pub open spec fn spec_split_multihost(s: Seq<char>) -> Result<(Seq<char>, Seq<Seq<char>>, Seq<char>), SplitError> {
    match scheme_end(s, 0) {
        None => Err(SplitError::RelativeUrlWithoutBase),
        Some(p) => if p == s.len() {
            Err(SplitError::EmptyHost)
        } else {
            let scheme = s.subrange(0, p);
            let q = slashes_end(s, p + 1);
            match host_scan(s, special_scheme(scheme), q, q, Seq::empty()) {
                None => Err(SplitError::EmptyHost),
                Some((hosts, start, end)) => Ok(
                    (scheme, hosts, scheme + "://"@ + s.subrange(start, end) + s.subrange(end, s.len() as int)),
                ),
            }
        },
    }
}

pub fn is_special_scheme(scheme: &str) -> (r: bool)
    ensures
        r == special_scheme(scheme@),
{
    crate::lookup::str_eq(scheme, "http") || crate::lookup::str_eq(scheme, "https") || crate::lookup::str_eq(scheme, "ws")
        || crate::lookup::str_eq(scheme, "wss") || crate::lookup::str_eq(scheme, "ftp") || crate::lookup::str_eq(
        scheme,
        "file",
    )
}

/// Splits a URL with several hosts (`scheme://host1,host2/path`): its scheme, the hosts
/// but the last, and the URL of the last host with the rest. The scheme must come first
/// and end with `:`, and no host may be empty.
pub fn split_multihost(s: &str) -> (r: Result<(String, Vec<String>, String), SplitError>)
    requires
        s@.len() < usize::MAX,
    ensures
        match spec_split_multihost(s@) {
            Ok((scheme, hosts, url)) => r matches Ok((sc, hs, u)) && sc@ == scheme && strings_view(hs@) == hosts && u@
                == url,
            Err(e) => r == Err::<(String, Vec<String>, String), SplitError>(e),
        },
{
    let n = s.unicode_len();
    let mut i: usize = 0;
    while i < n
        invariant
            i <= n,
            n == s@.len(),
            scheme_end(s@, 0) == scheme_end(s@, i as int),
        ensures
            i <= n,
            scheme_end(s@, 0) == scheme_end(s@, i as int),
            i == n || s@[i as int] == ':',
        decreases n - i,
    {
        let c = s.get_char(i);
        if c == ':' {
            break;
        }
        if !(('a' <= c && c <= 'z') || ('A' <= c && c <= 'Z') || ('0' <= c && c <= '9') || c == '+' || c == '-' || c
            == '.') {
            return Err(SplitError::RelativeUrlWithoutBase);
        }
        i = i + 1;
    }
    if i == n {
        return Err(SplitError::EmptyHost);
    }
    let p = i;
    let scheme = s.substring_char(0, p);
    let special = is_special_scheme(scheme);
    let mut q = p + 1;
    while q < n && (s.get_char(q) == '/' || s.get_char(q) == '\\')
        invariant
            p + 1 <= q <= n,
            n == s@.len(),
            slashes_end(s@, p + 1) == slashes_end(s@, q as int),
        decreases n - q,
    {
        q = q + 1;
    }
    let mut hosts: Vec<String> = Vec::new();
    let mut start = q;
    let mut j = q;
    let ghost result = host_scan(s@, special, q as int, q as int, Seq::empty());
    proof {
        assert(strings_view(hosts@) =~= Seq::<Seq<char>>::empty());
        assert(scheme_end(s@, 0) == Some(p as int));
    }
    let mut end = n;
    while j < n
        invariant_except_break
            end == n,
        invariant
            q <= start <= j <= n,
            n == s@.len(),
            result == host_scan(s@, special, j as int, start as int, strings_view(hosts@)),
            spec_split_multihost(s@) == (match result {
                None => Err(SplitError::EmptyHost),
                Some((hs, st, en)) => Ok(
                    (scheme@, hs, scheme@ + "://"@ + s@.subrange(st, en) + s@.subrange(en, s@.len() as int)),
                ),
            }),
        ensures
            q <= start <= j <= n,
            result == host_scan(s@, special, j as int, start as int, strings_view(hosts@)),
            (j == n && end == n) || (j < n && end == j && ((s@[j as int] == '\\' && special) || s@[j as int] == '/'
                || s@[j as int] == '?' || s@[j as int] == '#')),
            spec_split_multihost(s@) == (match result {
                None => Err(SplitError::EmptyHost),
                Some((hs, st, en)) => Ok(
                    (scheme@, hs, scheme@ + "://"@ + s@.subrange(st, en) + s@.subrange(en, s@.len() as int)),
                ),
            }),
        decreases n - j,
    {
        let c = s.get_char(j);
        if (c == '\\' && special) || c == '/' || c == '?' || c == '#' {
            end = j;
            break;
        }
        if c == ',' {
            if start == j {
                return Err(SplitError::EmptyHost);
            }
            let ghost before = strings_view(hosts@);
            hosts.push(s.substring_char(start, j).to_string());
            proof {
                assert(strings_view(hosts@) =~= before.push(s@.subrange(start as int, j as int)));
            }
            start = j + 1;
        }
        j = j + 1;
    }
    if start == end {
        return Err(SplitError::EmptyHost);
    }
    let mut url = scheme.to_string();
    url.append("://");
    url.append(s.substring_char(start, end));
    url.append(s.substring_char(end, n));
    Ok((scheme.to_string(), hosts, url))
}

} // verus!

verus! {

/// A URL with one or more hosts: the URL of the last host (with the rest), and the URLs
/// of the other hosts where there are several.
#[derive(Debug)]
pub struct MultiHostUrl {
    pub ref_url: ParsedUrl,
    pub extra_urls: Option<Vec<ParsedUrl>>,
}

/// The error that the splitting itself reports.
pub open spec fn is_split_error(r: ValError, e: SplitError) -> bool {
    r matches ValError::LineErrors(es) && es@.len() == 1 && es@[0].loc@.len() == 0 && (es@[0].error_type matches ErrorType::UrlParsing {
        error,
    } && error@ == split_error_message(e))
}

/// The URL of one host.
pub open spec fn host_url(scheme: Seq<char>, host: Seq<char>) -> Seq<char> {
    scheme + "://"@ + host
}

/// The outcome of the first host among the first `n` whose URL does not parse.
pub open spec fn first_host_failure(scheme: Seq<char>, hosts: Seq<Seq<char>>, strict: bool, n: int) -> Option<UrlOutcome>
    decreases n,
{
    if n <= 0 {
        None
    } else {
        match first_host_failure(scheme, hosts, strict, n - 1) {
            Some(o) => Some(o),
            None => match spec_parse_url(host_url(scheme, hosts[n - 1]), strict) {
                UrlOutcome::Parsed { .. } => None,
                o => Some(o),
            },
        }
    }
}

/// Whether the URLs of all hosts (all of which parse) have a host.
pub open spec fn all_hosts_present(scheme: Seq<char>, hosts: Seq<Seq<char>>, strict: bool) -> bool {
    forall|i: int|
        0 <= i < hosts.len() ==> (#[trigger] spec_parse_url(host_url(scheme, hosts[i]), strict) matches UrlOutcome::Parsed {
            has_host,
            ..
        } && has_host)
}

/// `p` is the URL that `s` parses to.
pub open spec fn parsed_from(p: ParsedUrl, s: Seq<char>, strict: bool) -> bool {
    spec_parse_url(s, strict) == (UrlOutcome::Parsed {
        scheme: p.spec_scheme(),
        has_host: p.spec_has_host(),
        serialization: p.spec_text(),
    })
}

/// What parsing the multi-host URL `s` gives.
pub open spec fn multihost_result(s: Seq<char>, strict: bool, r: Result<MultiHostUrl, ValError>) -> bool {
    match spec_split_multihost(s) {
        Err(e) => r matches Err(err) && is_split_error(err, e),
        Ok((scheme, hosts, url)) => match spec_parse_url(url, strict) {
            UrlOutcome::Parsed { has_host, .. } => if !has_host {
                r matches Err(err) && is_split_error(err, SplitError::EmptyHost)
            } else if hosts.len() == 0 {
                r matches Ok(m) && m.extra_urls is None && parsed_from(m.ref_url, url, strict)
            } else {
                match first_host_failure(scheme, hosts, strict, hosts.len() as int) {
                    Some(o) => r matches Err(err) && is_url_error(err, o),
                    None => if all_hosts_present(scheme, hosts, strict) {
                        r matches Ok(m) && parsed_from(m.ref_url, url, strict) && (m.extra_urls matches Some(v) && v@.len()
                            == hosts.len() && forall|i: int|
                            0 <= i < hosts.len() ==> parsed_from(#[trigger] v@[i], host_url(scheme, hosts[i]), strict))
                    } else {
                        r matches Err(err) && is_split_error(err, SplitError::EmptyHost)
                    },
                }
            },
            o => r matches Err(err) && is_url_error(err, o),
        },
    }
}

fn split_error(e: SplitError) -> (r: ValError)
    ensures
        is_split_error(r, e),
{
    root_error(ErrorType::UrlParsing { error: split_error_text(e) })
}

/// Parses a URL with one or more hosts (`scheme://host1,host2/path`): the URL of the
/// last host with the rest, and the URLs of the others, each of which must have a host.
pub fn parse_multihost_url(s: &str, strict: bool) -> (r: Result<MultiHostUrl, ValError>)
    requires
        s@.len() < usize::MAX,
    ensures
        multihost_result(s@, strict, r),
{
    let (scheme, hosts, url) = match split_multihost(s) {
        Ok(parts) => parts,
        Err(e) => {
            return Err(split_error(e));
        },
    };
    let ref_url = match parse_url(url.as_str(), strict) {
        Ok(u) => u,
        Err(e) => {
            return Err(e);
        },
    };
    if !ref_url.has_host() {
        return Err(split_error(SplitError::EmptyHost));
    }
    if hosts.len() == 0 {
        return Ok(MultiHostUrl { ref_url, extra_urls: None });
    }
    let ghost hv = strings_view(hosts@);
    let mut extra: Vec<ParsedUrl> = Vec::new();
    let mut i: usize = 0;
    while i < hosts.len()
        invariant
            i <= hosts.len(),
            hv == strings_view(hosts@),
            hv.len() > 0,
            spec_split_multihost(s@) == Ok::<(Seq<char>, Seq<Seq<char>>, Seq<char>), SplitError>((scheme@, hv, url@)),
            parsed_from(ref_url, url@, strict),
            ref_url.spec_has_host(),
            extra@.len() == i,
            first_host_failure(scheme@, hv, strict, i as int) is None,
            forall|k: int| 0 <= k < i ==> parsed_from(#[trigger] extra@[k], host_url(scheme@, hv[k]), strict),
        decreases hosts.len() - i,
    {
        let mut u = scheme.clone();
        u.append("://");
        u.append(hosts[i].as_str());
        proof {
            assert(u@ == host_url(scheme@, hv[i as int]));
        }
        match parse_url(u.as_str(), strict) {
            Ok(p) => {
                extra.push(p);
            },
            Err(e) => {
                proof {
                    assert(first_host_failure(scheme@, hv, strict, i + 1) == Some(
                        spec_parse_url(host_url(scheme@, hv[i as int]), strict),
                    ));
                    lemma_first_host_failure_stays(scheme@, hv, strict, i + 1, hv.len() as int);
                }
                return Err(e);
            },
        }
        i = i + 1;
    }
    let mut k: usize = 0;
    while k < extra.len()
        invariant
            k <= extra.len(),
            hv.len() > 0,
            spec_split_multihost(s@) == Ok::<(Seq<char>, Seq<Seq<char>>, Seq<char>), SplitError>((scheme@, hv, url@)),
            parsed_from(ref_url, url@, strict),
            ref_url.spec_has_host(),
            first_host_failure(scheme@, hv, strict, hv.len() as int) is None,
            extra@.len() == hv.len(),
            forall|t: int| 0 <= t < extra@.len() ==> parsed_from(#[trigger] extra@[t], host_url(scheme@, hv[t]), strict),
            forall|t: int| 0 <= t < k ==> (#[trigger] extra@[t]).spec_has_host(),
        decreases extra.len() - k,
    {
        if !extra[k].has_host() {
            proof {
                assert(!(spec_parse_url(host_url(scheme@, hv[k as int]), strict) matches UrlOutcome::Parsed { has_host, .. }
                    && has_host));
            }
            return Err(split_error(SplitError::EmptyHost));
        }
        k = k + 1;
    }
    proof {
        assert forall|t: int| 0 <= t < hv.len() implies (#[trigger] spec_parse_url(host_url(scheme@, hv[t]), strict) matches UrlOutcome::Parsed {
            has_host,
            ..
        } && has_host) by {
            assert(parsed_from(extra@[t], host_url(scheme@, hv[t]), strict));
            assert(extra@[t].spec_has_host());
        }
    }
    Ok(MultiHostUrl { ref_url, extra_urls: Some(extra) })
}

proof fn lemma_first_host_failure_stays(scheme: Seq<char>, hosts: Seq<Seq<char>>, strict: bool, n: int, m: int)
    requires
        0 <= n <= m,
        first_host_failure(scheme, hosts, strict, n) is Some,
    ensures
        first_host_failure(scheme, hosts, strict, m) == first_host_failure(scheme, hosts, strict, n),
    decreases m - n,
{
    if m > n {
        lemma_first_host_failure_stays(scheme, hosts, strict, n, m - 1);
    }
}

} // verus!

verus! {

/// The schemes that a URL may have (where the schema restricts them), and how they show
/// in the error.
#[derive(Debug)]
pub struct AllowedSchemes {
    pub schemes: AHashSet<String>,
    pub repr: String,
}

/// Each of `schemes` in single quotes.
pub open spec fn quoted(schemes: Seq<String>) -> Seq<Seq<char>> {
    Seq::new(schemes.len(), |i: int| "'"@ + schemes[i]@ + "'"@)
}

/// The set of `schemes`, as plain values.
pub open spec fn scheme_set(schemes: Seq<String>) -> Set<Seq<char>> {
    Set::new(|s: Seq<char>| exists|i: int| 0 <= i < schemes.len() && #[trigger] schemes[i]@ == s)
}

/// The name of a validator called `name` that allows the schemes `allowed` (all, where
/// there is no list).
pub open spec fn allowed_name(allowed: Option<Vec<String>>, name: Seq<char>) -> Seq<char> {
    match allowed {
        Some(l) => name + "["@ + join_seqs(quoted(l@), ","@) + "]"@,
        None => name,
    }
}

/// The allowed schemes that the schema's `allowed_schemes` gives, and the validator's
/// name: none and `name` where it gives none; an error where it gives an empty list;
/// else the schemes, listed in quotes, and `name` followed by them in brackets.
pub fn get_allowed_schemas(allowed: Option<Vec<String>>, name: &str) -> (r: Result<(Option<AllowedSchemes>, String), String>)
    ensures
        allowed is None ==> (r matches Ok((None, n)) && n@ == name@),
        allowed matches Some(list) ==> (list.len() == 0 ==> (r matches Err(m) && m@ == "\"allowed_schemes\" should have length > 0"@)),
        allowed matches Some(list) ==> (list.len() > 0 ==> (r matches Ok((Some(a), n)) && ahash_set_contents(a.schemes)
            == scheme_set(list@) && a.repr@ == crate::literal::repr_of(quoted(list@)) && n@ == name@ + "["@ + join_seqs(
            quoted(list@),
            ","@,
        ) + "]"@)),
{
    let list = match allowed {
        None => {
            return Ok((None, String::from_str(name)));
        },
        Some(list) => list,
    };
    if list.len() == 0 {
        return Err(String::from_str("\"allowed_schemes\" should have length > 0"));
    }
    let mut expected = string_set_new();
    let mut repr_args: Vec<String> = Vec::new();
    let mut i: usize = 0;
    while i < list.len()
        invariant
            i <= list.len(),
            strings_view(repr_args@) == quoted(list@.subrange(0, i as int)),
            ahash_set_contents(expected) == scheme_set(list@.subrange(0, i as int)),
        decreases list.len() - i,
    {
        let mut q = String::from_str("'");
        q.append(list[i].as_str());
        q.append("'");
        let ghost before = repr_args@;
        let ghost qv = q@;
        repr_args.push(q);
        string_set_insert(&mut expected, list[i].clone());
        proof {
            assert(qv == "'"@ + list@[i as int]@ + "'"@);
            assert(strings_view(repr_args@) =~= strings_view(before).push(qv));
            assert(quoted(list@.subrange(0, i + 1)) =~= quoted(list@.subrange(0, i as int)).push(qv));
            assert(strings_view(repr_args@) =~= quoted(list@.subrange(0, i + 1)));
            assert(ahash_set_contents(expected) =~= scheme_set(list@.subrange(0, i + 1))) by {
                assert forall|s: Seq<char>| #[trigger] scheme_set(list@.subrange(0, i + 1)).contains(s) implies ahash_set_contents(
                    expected,
                ).contains(s) by {
                    let w = choose|w: int| 0 <= w < i + 1 && #[trigger] list@.subrange(0, i + 1)[w]@ == s;
                    if w < i {
                        assert(list@.subrange(0, i as int)[w]@ == s);
                    }
                }
                assert forall|s: Seq<char>| ahash_set_contents(expected).contains(s) implies #[trigger] scheme_set(
                    list@.subrange(0, i + 1),
                ).contains(s) by {
                    if s == list@[i as int]@ {
                        assert(list@.subrange(0, i + 1)[i as int]@ == s);
                    } else {
                        let w = choose|w: int| 0 <= w < i && #[trigger] list@.subrange(0, i as int)[w]@ == s;
                        assert(list@.subrange(0, i + 1)[w]@ == s);
                    }
                }
            }
        }
        i = i + 1;
    }
    proof {
        assert(list@.subrange(0, list@.len() as int) =~= list@);
    }
    let (repr, full_name) = expected_repr_name(repr_args, name);
    Ok((Some(AllowedSchemes { schemes: expected, repr }), full_name))
}

/// The value that a URL validator is given.
#[derive(Debug)]
pub enum UrlInput {
    /// A string (one that the validation accepts as such).
    Str(String),
    /// A URL object.
    Url { url: ParsedUrl },
    /// A multi-host URL object, with its serialization.
    MultiHost { multi_url: MultiHostUrl, serialization: String },
    /// Anything else.
    Other,
}

/// Whether the string `s` is longer (in UTF-8 bytes) than `max_length` allows.
pub open spec fn too_long(max_length: Option<usize>, s: Seq<char>) -> bool {
    max_length matches Some(m) && (vstd::utf8::encode_utf8(s).len() as usize) > m
}

/// `r` is the error of a URL longer than `max_length` allows.
pub open spec fn is_too_long_error(r: ValError, max_length: Option<usize>) -> bool {
    r matches ValError::LineErrors(es) && errors_view(es@) == seq![
        (ErrorType::UrlTooLong { max_length: max_length->Some_0 }, Seq::<LocItem>::empty()),
    ]
}

fn check_length(max_length: Option<usize>, s: &str) -> (r: Result<(), ValError>)
    ensures
        too_long(max_length, s@) ==> (r matches Err(e) && is_too_long_error(e, max_length)),
        !too_long(max_length, s@) ==> r is Ok,
{
    if let Some(m) = max_length {
        if s.len() > m {
            return Err(root_error(ErrorType::UrlTooLong { max_length: m }));
        }
    }
    Ok(())
}

#[derive(Debug)]
pub struct UrlValidator {
    pub strict: bool,
    pub host_required: bool,
    pub max_length: Option<usize>,
    pub allowed_schemes: Option<AllowedSchemes>,
    pub name: String,
}

impl UrlValidator {
    /// Builds the validator; fails where `allowed_schemes` is given empty.
    pub fn build(allowed_schemes: Option<Vec<String>>, strict: bool, host_required: bool, max_length: Option<usize>) -> (r: Result<
        UrlValidator,
        String,
    >)
        ensures
            allowed_schemes matches Some(l) && l.len() == 0 ==> (r matches Err(m) && m@
                == "\"allowed_schemes\" should have length > 0"@),
            !(allowed_schemes matches Some(l) && l.len() == 0) ==> (r matches Ok(v) && v.strict == strict && v.host_required
                == host_required && v.max_length == max_length && (v.allowed_schemes is Some) == (allowed_schemes is Some)
                && (allowed_schemes matches Some(l) ==> ahash_set_contents(v.allowed_schemes->Some_0.schemes)
                == scheme_set(l@)) && v.name@ == allowed_name(allowed_schemes, "url"@) && (allowed_schemes matches Some(l)
                ==> v.allowed_schemes->Some_0.repr@ == crate::literal::repr_of(quoted(l@)))),
    {
        match get_allowed_schemas(allowed_schemes, "url") {
            Ok((allowed_schemes, name)) => Ok(UrlValidator { strict, host_required, max_length, allowed_schemes, name }),
            Err(m) => Err(m),
        }
    }

    /// What validating `url` gives once it is a URL: the error of a scheme that is not
    /// allowed, or of a missing host where one is required.
    pub open spec fn url_checks(self, scheme: Seq<char>, has_host: bool) -> Option<ErrorType> {
        if self.allowed_schemes matches Some(a) && !ahash_set_contents(a.schemes).contains(scheme) {
            Some(ErrorType::UrlSchema { expected_schemas: self.allowed_schemes->Some_0.repr })
        } else if self.host_required && !has_host {
            Some(ErrorType::UrlHostRequired)
        } else {
            None
        }
    }

    /// Whether a URL with the scheme `scheme` (with a host where `has_host`) is acceptable:
    /// its scheme is one of the allowed ones, where the validator restricts them, and it has
    /// a host, where the validator requires one.
    pub open spec fn url_acceptable(self, scheme: Seq<char>, has_host: bool) -> bool {
        &&& (self.allowed_schemes matches Some(a) ==> ahash_set_contents(a.schemes).contains(scheme))
        &&& (self.host_required ==> has_host)
    }

    /// A URL passes the checks exactly where it is acceptable; one without an allowed
    /// scheme is refused for its scheme, and one with an allowed scheme but no host, where a
    /// host is required, for its host.
    pub proof fn url_checks_law(self, scheme: Seq<char>, has_host: bool)
        ensures
            (self.url_checks(scheme, has_host) is None) == self.url_acceptable(scheme, has_host),
            self.host_required && !has_host ==> self.url_checks(scheme, has_host) is Some,
            self.allowed_schemes matches Some(a) && ahash_set_contents(a.schemes).contains(scheme) && self.host_required
                && !has_host ==> self.url_checks(scheme, has_host) == Some(ErrorType::UrlHostRequired),
    {
    }

    fn checks(&self, url: ParsedUrl) -> (r: Result<ParsedUrl, ValError>)
        ensures
            (r is Ok) == self.url_acceptable(url.spec_scheme(), url.spec_has_host()),
            self.url_checks(url.spec_scheme(), url.spec_has_host()) matches Some(e) ==> (r matches Err(ValError::LineErrors(es))
                && errors_view(es@) == seq![(e, Seq::<LocItem>::empty())]),
            self.url_checks(url.spec_scheme(), url.spec_has_host()) is None ==> r == Ok::<ParsedUrl, ValError>(url),
    {
        proof {
            self.url_checks_law(url.spec_scheme(), url.spec_has_host());
        }
        if let Some(a) = &self.allowed_schemes {
            if !string_set_contains(&a.schemes, url.scheme()) {
                return Err(root_error(ErrorType::UrlSchema { expected_schemas: a.repr.clone() }));
            }
        }
        if self.host_required && !url.has_host() {
            return Err(root_error(ErrorType::UrlHostRequired));
        }
        Ok(url)
    }

    /// Validates `input` as a URL, in strict mode where the validation asks for it (or
    /// else where the schema does): a string is checked for length and parsed; a URL
    /// object is checked for length; anything else is an error. The URL must then have an
    /// allowed scheme, and a host where one is required.
    pub fn validate(&self, input: UrlInput, strict: Option<bool>) -> (r: Result<ParsedUrl, ValError>)
        requires
            input matches UrlInput::MultiHost { serialization, .. } ==> serialization@.len() < usize::MAX,
        ensures
            r matches Ok(p) ==> self.url_acceptable(p.spec_scheme(), p.spec_has_host()),
            match input {
                UrlInput::Str(s) => if too_long(self.max_length, s@) {
                    r matches Err(e) && is_too_long_error(e, self.max_length)
                } else {
                    match spec_parse_url(s@, crate::int_validator::unwrap_or(strict, self.strict)) {
                        UrlOutcome::Parsed { scheme, has_host, serialization: text } => match self.url_checks(scheme, has_host) {
                            Some(e) => r matches Err(ValError::LineErrors(es)) && errors_view(es@) == seq![
                                (e, Seq::<LocItem>::empty()),
                            ],
                            None => r matches Ok(p) && p.spec_scheme() == scheme && p.spec_has_host() == has_host && p.spec_text()
                                == text,
                        },
                        o => r matches Err(e) && is_url_error(e, o),
                    }
                },
                UrlInput::Url { url } => if too_long(self.max_length, url.spec_text()) {
                    r matches Err(e) && is_too_long_error(e, self.max_length)
                } else {
                    match self.url_checks(url.spec_scheme(), url.spec_has_host()) {
                        Some(e) => r matches Err(ValError::LineErrors(es)) && errors_view(es@) == seq![
                            (e, Seq::<LocItem>::empty()),
                        ],
                        None => r == Ok::<ParsedUrl, ValError>(url),
                    }
                },
                UrlInput::MultiHost { serialization, .. } => if too_long(self.max_length, serialization@) {
                    r matches Err(e) && is_too_long_error(e, self.max_length)
                } else {
                    match spec_parse_url(serialization@, crate::int_validator::unwrap_or(strict, self.strict)) {
                        UrlOutcome::Parsed { scheme, has_host, serialization: text } => match self.url_checks(scheme, has_host) {
                            Some(e) => r matches Err(ValError::LineErrors(es)) && errors_view(es@) == seq![
                                (e, Seq::<LocItem>::empty()),
                            ],
                            None => r matches Ok(p) && p.spec_scheme() == scheme && p.spec_has_host() == has_host && p.spec_text()
                                == text,
                        },
                        o => r matches Err(e) && is_url_error(e, o),
                    }
                },
                UrlInput::Other => r matches Err(ValError::LineErrors(es)) && errors_view(es@) == seq![
                    (ErrorType::UrlType, Seq::<LocItem>::empty()),
                ],
            },
    {
        let strict = match strict {
            Some(b) => b,
            None => self.strict,
        };
        let url = match input {
            UrlInput::Str(s) => {
                match check_length(self.max_length, s.as_str()) {
                    Ok(()) => {},
                    Err(e) => {
                        return Err(e);
                    },
                }
                match parse_url(s.as_str(), strict) {
                    Ok(u) => u,
                    Err(e) => {
                        return Err(e);
                    },
                }
            },
            UrlInput::Url { url } => {
                match check_length(self.max_length, url.as_str()) {
                    Ok(()) => {},
                    Err(e) => {
                        return Err(e);
                    },
                }
                url
            },
            UrlInput::MultiHost { serialization, .. } => {
                match check_length(self.max_length, serialization.as_str()) {
                    Ok(()) => {},
                    Err(e) => {
                        return Err(e);
                    },
                }
                match parse_url(serialization.as_str(), strict) {
                    Ok(u) => u,
                    Err(e) => {
                        return Err(e);
                    },
                }
            },
            UrlInput::Other => {
                return Err(root_error(ErrorType::UrlType));
            },
        };
        self.checks(url)
    }
}

#[derive(Debug)]
pub struct MultiHostUrlValidator {
    pub strict: bool,
    pub max_length: Option<usize>,
    pub allowed_schemes: Option<AllowedSchemes>,
    pub name: String,
}

impl MultiHostUrlValidator {
    /// Builds the validator; fails where `allowed_schemes` is given empty.
    pub fn build(allowed_schemes: Option<Vec<String>>, strict: bool, max_length: Option<usize>) -> (r: Result<
        MultiHostUrlValidator,
        String,
    >)
        ensures
            allowed_schemes matches Some(l) && l.len() == 0 ==> (r matches Err(m) && m@
                == "\"allowed_schemes\" should have length > 0"@),
            !(allowed_schemes matches Some(l) && l.len() == 0) ==> (r matches Ok(v) && v.strict == strict && v.max_length
                == max_length && (v.allowed_schemes is Some) == (allowed_schemes is Some) && (allowed_schemes matches Some(l)
                ==> ahash_set_contents(v.allowed_schemes->Some_0.schemes) == scheme_set(l@)) && v.name@ == allowed_name(
                allowed_schemes,
                "multi-host-url"@,
            ) && (allowed_schemes matches Some(l) ==> v.allowed_schemes->Some_0.repr@ == crate::literal::repr_of(
                quoted(l@),
            ))),
    {
        match get_allowed_schemas(allowed_schemes, "multi-host-url") {
            Ok((allowed_schemes, name)) => Ok(MultiHostUrlValidator { strict, max_length, allowed_schemes, name }),
            Err(m) => Err(m),
        }
    }

    /// The error of a scheme that is not allowed.
    pub open spec fn scheme_error(self, scheme: Seq<char>) -> Option<ErrorType> {
        if self.allowed_schemes matches Some(a) && !ahash_set_contents(a.schemes).contains(scheme) {
            Some(ErrorType::UrlSchema { expected_schemas: self.allowed_schemes->Some_0.repr })
        } else {
            None
        }
    }

    /// Validates `input` as a URL with one or more hosts, in strict mode where the
    /// validation asks for it (or else where the schema does): a string is checked for
    /// length and split and parsed; a URL object (of either kind) is checked for length;
    /// anything else is an error. The URL must then have an allowed scheme.
    pub fn validate(&self, input: UrlInput, strict: Option<bool>) -> (r: Result<MultiHostUrl, ValError>)
        requires
            input matches UrlInput::Str(s) ==> s@.len() < usize::MAX,
        ensures
            r matches Ok(m) ==> (self.allowed_schemes matches Some(a) ==> ahash_set_contents(a.schemes).contains(
                m.ref_url.spec_scheme(),
            )),
            match input {
                UrlInput::Str(s) => if too_long(self.max_length, s@) {
                    r matches Err(e) && is_too_long_error(e, self.max_length)
                } else {
                    exists|p: Result<MultiHostUrl, ValError>|
                        multihost_result(s@, crate::int_validator::unwrap_or(strict, self.strict), p) && match p {
                            Ok(m) => match self.scheme_error(m.ref_url.spec_scheme()) {
                                Some(e) => r matches Err(ValError::LineErrors(es)) && errors_view(es@) == seq![
                                    (e, Seq::<LocItem>::empty()),
                                ],
                                None => r == Ok::<MultiHostUrl, ValError>(m),
                            },
                            Err(e) => r == Err::<MultiHostUrl, ValError>(e),
                        }
                },
                UrlInput::Url { url } => if too_long(self.max_length, url.spec_text()) {
                    r matches Err(e) && is_too_long_error(e, self.max_length)
                } else {
                    match self.scheme_error(url.spec_scheme()) {
                        Some(e) => r matches Err(ValError::LineErrors(es)) && errors_view(es@) == seq![
                            (e, Seq::<LocItem>::empty()),
                        ],
                        None => r matches Ok(m) && m.ref_url == url && m.extra_urls is None,
                    }
                },
                UrlInput::MultiHost { multi_url, serialization } => if too_long(self.max_length, serialization@) {
                    r matches Err(e) && is_too_long_error(e, self.max_length)
                } else {
                    match self.scheme_error(multi_url.ref_url.spec_scheme()) {
                        Some(e) => r matches Err(ValError::LineErrors(es)) && errors_view(es@) == seq![
                            (e, Seq::<LocItem>::empty()),
                        ],
                        None => r == Ok::<MultiHostUrl, ValError>(multi_url),
                    }
                },
                UrlInput::Other => r matches Err(ValError::LineErrors(es)) && errors_view(es@) == seq![
                    (ErrorType::UrlType, Seq::<LocItem>::empty()),
                ],
            },
    {
        let is_strict = match strict {
            Some(b) => b,
            None => self.strict,
        };
        let url = match input {
            UrlInput::Str(s) => {
                match check_length(self.max_length, s.as_str()) {
                    Ok(()) => {},
                    Err(e) => {
                        return Err(e);
                    },
                }
                let p = parse_multihost_url(s.as_str(), is_strict);
                let ghost pg = p;
                let r = match p {
                    Ok(u) => self.check_scheme(u),
                    Err(e) => Err(e),
                };
                proof {
                    assert(multihost_result(s@, crate::int_validator::unwrap_or(strict, self.strict), pg) && match pg {
                        Ok(m) => match self.scheme_error(m.ref_url.spec_scheme()) {
                            Some(e) => r matches Err(ValError::LineErrors(es)) && errors_view(es@) == seq![
                                (e, Seq::<LocItem>::empty()),
                            ],
                            None => r == Ok::<MultiHostUrl, ValError>(m),
                        },
                        Err(e) => r == Err::<MultiHostUrl, ValError>(e),
                    });
                }
                return r;
            },
            UrlInput::Url { url } => {
                match check_length(self.max_length, url.as_str()) {
                    Ok(()) => {},
                    Err(e) => {
                        return Err(e);
                    },
                }
                MultiHostUrl { ref_url: url, extra_urls: None }
            },
            UrlInput::MultiHost { multi_url, serialization } => {
                match check_length(self.max_length, serialization.as_str()) {
                    Ok(()) => {},
                    Err(e) => {
                        return Err(e);
                    },
                }
                multi_url
            },
            UrlInput::Other => {
                return Err(root_error(ErrorType::UrlType));
            },
        };
        self.check_scheme(url)
    }

    fn check_scheme(&self, url: MultiHostUrl) -> (r: Result<MultiHostUrl, ValError>)
        ensures
            match self.scheme_error(url.ref_url.spec_scheme()) {
                Some(e) => r matches Err(ValError::LineErrors(es)) && errors_view(es@) == seq![(e, Seq::<LocItem>::empty())],
                None => r == Ok::<MultiHostUrl, ValError>(url),
            },
    {
        if let Some(a) = &self.allowed_schemes {
            if !string_set_contains(&a.schemes, url.ref_url.scheme()) {
                return Err(root_error(ErrorType::UrlSchema { expected_schemas: a.repr.clone() }));
            }
        }
        Ok(url)
    }
}

} // verus!
