//! The two request flows of the service.
//!
//! Create: validate and normalize the raw destination, derive its short path,
//! and insert the link into the store. Resolve: look a path up and decide
//! between a redirect to the stored destination and a not-found response.

use vstd::prelude::*;

use crate::digest::digest_path;
use crate::digest::path_of;
use crate::error::UrlError;
use crate::store::LinkStore;
use crate::store::MassiveURL;
use crate::validate::acceptable;
use crate::validate::normalize_spec;
use crate::validate::starts_with;
use crate::validate::validate_url;

verus! {

/// The resolver's decision for a requested path segment.
#[derive(Debug, PartialEq, Eq)]
pub enum Response {
    /// Redirect to the stored destination, verbatim.
    Redirect(String),
    /// No link is stored under the requested path: a legitimate outcome,
    /// surfaced as an HTTP not-found, never as an error.
    NotFound,
}

/// The create flow: validate the raw destination, derive its short path, and
/// store the link.
///
/// Succeeds exactly on inputs whose normalized form starts with `https://`;
/// the stored (and returned) destination is that normalized form, and the
/// returned path is its digest. A path already bound in the store is never
/// rebound, so re-submitting a destination is an idempotent no-op.
pub fn create_link(store: &mut LinkStore, raw_url: &str) -> (r: Result<MassiveURL, UrlError>)
    requires
        old(store).wf(),
    ensures
        final(store).wf(),
        r is Ok <==> acceptable(raw_url@),
        match r {
            Ok(link) => {
                &&& link.destination@ == normalize_spec(raw_url@)
                &&& starts_with(link.destination@, "https://"@)
                &&& link.path@ == path_of(link.destination@)
                &&& link.id is None
                &&& final(store)@ == (if old(store)@.contains_key(link.path@) {
                    old(store)@
                } else {
                    old(store)@.insert(link.path@, link.destination@)
                })
            },
            Err(e) => {
                &&& e == UrlError::NotHttps
                &&& final(store)@ == old(store)@
            },
        },
{
    let destination = match validate_url(raw_url) {
        Ok(d) => d,
        Err(e) => {
            return Err(e);
        },
    };
    let path = digest_path(destination.as_str());
    store.put(path.clone(), destination.clone());
    Ok(MassiveURL { id: None, path, destination })
}

/// The resolve flow: redirect to the destination stored under exactly this
/// path, or report not-found.
pub fn resolve(store: &LinkStore, path: &str) -> (r: Response)
    requires
        store.wf(),
    ensures
        match r {
            Response::Redirect(d) => store@.contains_key(path@) && d@ == store@[path@],
            Response::NotFound => !store@.contains_key(path@),
        },
{
    match store.get(path) {
        Some(d) => Response::Redirect(d),
        None => Response::NotFound,
    }
}

/// Accept the request's host header, or reject the request when it carries
/// none. The host serves only the user-facing display of the shortened URL;
/// it never affects stored data.
pub fn host_from_header(header: Option<String>) -> (r: Result<String, UrlError>)
    ensures
        match r {
            Ok(h) => header is Some && h@ == header.unwrap()@,
            Err(e) => e == UrlError::MissingHost && header is None,
        },
{
    match header {
        Some(h) => Ok(h),
        None => Err(UrlError::MissingHost),
    }
}

/// Idempotence of creation: running the create flow twice on the same raw
/// input derives the same path both times, and the second run leaves the
/// store exactly as the first run left it.
pub proof fn lemma_create_idempotent(m: Map<Seq<char>, Seq<char>>, raw: Seq<char>)
    ensures
        ({
            let dst = normalize_spec(raw);
            let p = path_of(dst);
            let m1 = if m.contains_key(p) {
                m
            } else {
                m.insert(p, dst)
            };
            let m2 = if m1.contains_key(p) {
                m1
            } else {
                m1.insert(p, dst)
            };
            m2 == m1
        }),
{
}

} // verus!
