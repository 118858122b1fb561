//! Validation and normalization of destination URLs.
//!
//! A destination is accepted when, after upgrading a leading `http://` to
//! `https://`, it starts with `https://`. Nothing else about the URL is
//! inspected: the check is a guard against pseudo-schemes such as
//! `javascript:` or `data:`, not a full parser.

use vstd::prelude::*;

use crate::error::UrlError;

verus! {

/// `s` starts with `prefix`.
pub open spec fn starts_with(s: Seq<char>, prefix: Seq<char>) -> bool {
    prefix.len() <= s.len() && s.subrange(0, prefix.len() as int) == prefix
}

/// The normalized form of a raw destination: a leading `http://` is rewritten
/// to `https://`; any other input is left exactly as it came.
pub open spec fn normalize_spec(s: Seq<char>) -> Seq<char> {
    if starts_with(s, "http://"@) {
        "https://"@ + s.subrange("http://"@.len() as int, s.len() as int)
    } else {
        s
    }
}

/// A destination is acceptable when its normalized form starts with `https://`.
pub open spec fn acceptable(s: Seq<char>) -> bool {
    starts_with(normalize_spec(s), "https://"@)
}

/// Character-by-character string equality.
pub fn str_eq(a: &str, b: &str) -> (r: bool)
    ensures
        r == (a@ == b@),
{
    let n = a.unicode_len();
    if n != b.unicode_len() {
        return false;
    }
    let mut i: usize = 0;
    while i < n
        invariant
            n == a@.len(),
            n == b@.len(),
            i <= n,
            forall|j: int| 0 <= j < i ==> a@[j] == b@[j],
        decreases n - i,
    {
        if a.get_char(i) != b.get_char(i) {
            return false;
        }
        i = i + 1;
    }
    proof {
        assert(a@ =~= b@);
    }
    true
}

/// Whether `s` starts with `prefix`, checked character by character.
pub fn starts_with_exec(s: &str, prefix: &str) -> (r: bool)
    ensures
        r == starts_with(s@, prefix@),
{
    let n = prefix.unicode_len();
    if s.unicode_len() < n {
        return false;
    }
    let mut i: usize = 0;
    while i < n
        invariant
            n == prefix@.len(),
            n <= s@.len(),
            i <= n,
            forall|j: int| 0 <= j < i ==> s@[j] == prefix@[j],
        decreases n - i,
    {
        if s.get_char(i) != prefix.get_char(i) {
            proof {
                assert(s@.subrange(0, n as int)[i as int] == s@[i as int]);
            }
            return false;
        }
        i = i + 1;
    }
    proof {
        assert(s@.subrange(0, n as int) =~= prefix@);
    }
    true
}

/// Upgrade a leading `http://` to `https://`; leave anything else unchanged.
pub fn normalize_url(s: &str) -> (r: String)
    ensures
        r@ == normalize_spec(s@),
{
    proof {
        reveal_strlit("http://");
        reveal_strlit("https://");
    }
    if starts_with_exec(s, "http://") {
        let mut out = String::from_str("https://");
        let tail = s.substring_char(7, s.unicode_len());
        out.append(tail);
        out
    } else {
        s.to_owned()
    }
}

/// Validate a raw destination: upgrade the scheme, then demand `https://`.
///
/// Returns the normalized destination exactly when the normalized form starts
/// with `https://`, and `NotHttps` otherwise.
pub fn validate_url(s: &str) -> (r: Result<String, UrlError>)
    ensures
        match r {
            Ok(d) => acceptable(s@) && d@ == normalize_spec(s@),
            Err(e) => e == UrlError::NotHttps && !acceptable(s@),
        },
{
    let normalized = normalize_url(s);
    if starts_with_exec(normalized.as_str(), "https://") {
        Ok(normalized)
    } else {
        Err(UrlError::NotHttps)
    }
}

/// An input with a leading `http://` is rewritten to the same string with
/// `https://` in its place and nothing else altered: the result is one
/// character longer, starts with `https://`, and carries the rest of the
/// input unchanged after that prefix.
pub proof fn lemma_upgrade_rewrites_prefix_only(s: Seq<char>)
    requires
        starts_with(s, "http://"@),
    ensures
        normalize_spec(s).len() == s.len() + 1,
        starts_with(normalize_spec(s), "https://"@),
        normalize_spec(s).subrange("https://"@.len() as int, normalize_spec(s).len() as int)
            == s.subrange("http://"@.len() as int, s.len() as int),
{
    reveal_strlit("http://");
    reveal_strlit("https://");
    let r = normalize_spec(s);
    assert(r.subrange(0, 8) =~= "https://"@);
    assert(r.subrange(8, r.len() as int) =~= s.subrange(7, s.len() as int));
}

/// An input without a leading `http://` is not altered by normalization, so
/// one that does not start with `https://` either (a pseudo-scheme, another
/// scheme, or no scheme at all) is rejected.
pub proof fn lemma_non_http_input_rejected(s: Seq<char>)
    requires
        !starts_with(s, "http://"@),
        !starts_with(s, "https://"@),
    ensures
        normalize_spec(s) == s,
        !acceptable(s),
{
}

} // verus!
