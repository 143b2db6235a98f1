use vstd::prelude::*;

verus! {

/// The path of the URL that `url::Url::parse` makes of `s`, or `None` where it
/// rejects `s`.
pub uninterp spec fn url_path_of(s: Seq<char>) -> Option<Seq<char>>;

/// The serialization of `url::Url::join` of `input` onto the URL parsed from
/// `base`, or `None` where either step fails.
pub uninterp spec fn url_joined(base: Seq<char>, input: Seq<char>) -> Option<Seq<char>>;

/// Whether `url::Url::parse` accepts `s`.
pub uninterp spec fn url_parses(s: Seq<char>) -> bool;

/// The host of the URL parsed from `s`: `None` where `url::Url::parse` rejects
/// `s`, `Some(None)` where the URL has no host.
pub uninterp spec fn url_host_of(s: Seq<char>) -> Option<Option<Seq<char>>>;

/// `url::Url::parse` followed by `Url::path`. The claim is only that the result
/// is the function of `s` named `url_path_of`; what URL syntax it accepts is not stated.
#[verifier::external_body]
pub(crate) fn url_path(s: &str) -> (r: Option<String>)
    ensures
        match r {
            Some(p) => url_path_of(s@) == Some(p@),
            None => url_path_of(s@) is None,
        },
{
    url::Url::parse(s).ok().map(|u| u.path().to_string())
}

/// `url::Url::parse` of `base` followed by `Url::join` of `input`, serialized
/// with `Url::as_str`. The claim is only that the result is the function of the
/// two strings named `url_joined`.
#[verifier::external_body]
pub(crate) fn url_join(base: &str, input: &str) -> (r: Option<String>)
    ensures
        match r {
            Some(u) => url_joined(base@, input@) == Some(u@),
            None => url_joined(base@, input@) is None,
        },
{
    url::Url::parse(base).ok().and_then(|b| b.join(input).ok()).map(|u| u.as_str().to_string())
}

/// Whether `url::Url::parse` accepts `s`; the claim is only that the answer is
/// the function of `s` named `url_parses`.
#[verifier::external_body]
pub(crate) fn url_is_valid(s: &str) -> (r: bool)
    ensures
        r == url_parses(s@),
{
    url::Url::parse(s).is_ok()
}

/// `url::Url::parse` followed by `Url::host_str`; the claim is only that the
/// result is the function of `s` named `url_host_of`.
#[verifier::external_body]
pub(crate) fn url_host(s: &str) -> (r: Option<Option<String>>)
    ensures
        match r {
            Some(Some(h)) => url_host_of(s@) == Some(Some(h@)),
            Some(None) => url_host_of(s@) == Some(None::<Seq<char>>),
            None => url_host_of(s@) is None,
        },
{
    url::Url::parse(s).ok().map(|u| u.host_str().map(|h| h.to_string()))
}

} // verus!
