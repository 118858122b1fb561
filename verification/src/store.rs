//! The link store: a collection of links keyed by their short path.
//!
//! The store offers insert-if-absent and exact-match lookup, viewed as a map
//! from path to destination. A path is never rebound: inserting under a path
//! that is already present leaves the existing record untouched, which makes
//! the create flow idempotent. Every stored destination starts with
//! `https://`.

use vstd::prelude::*;

use crate::validate::starts_with;
use crate::validate::str_eq;

verus! {

/// A persisted link: a short path and the destination it redirects to.
///
/// The surrogate `id` is a persistence-layer artifact with no bearing on
/// lookup semantics.
pub struct MassiveURL {
    pub id: Option<i32>,
    pub path: String,
    pub destination: String,
}

/// The map a sequence of links stands for: later records never displace
/// earlier ones, matching the store's insert-if-absent discipline (under
/// `paths_unique` the order cannot matter anyway).
pub open spec fn links_map(links: Seq<MassiveURL>) -> Map<Seq<char>, Seq<char>>
    decreases links.len(),
{
    if links.len() == 0 {
        Map::empty()
    } else {
        links_map(links.drop_last()).insert(links.last().path@, links.last().destination@)
    }
}

/// No two links share a path.
pub open spec fn paths_unique(links: Seq<MassiveURL>) -> bool {
    forall|i: int, j: int| 0 <= i < j < links.len() ==> links[i].path@ != links[j].path@
}

/// In-memory link store with exact-match lookup.
pub struct LinkStore {
    links: Vec<MassiveURL>,
}

impl View for LinkStore {
    type V = Map<Seq<char>, Seq<char>>;

    closed spec fn view(&self) -> Map<Seq<char>, Seq<char>> {
        links_map(self.links@)
    }
}

/// A key absent from every link is absent from the map the links stand for.
proof fn lemma_links_map_absent(links: Seq<MassiveURL>, key: Seq<char>)
    requires
        forall|j: int| 0 <= j < links.len() ==> links[j].path@ != key,
    ensures
        !links_map(links).contains_key(key),
    decreases links.len(),
{
    if links.len() > 0 {
        lemma_links_map_absent(links.drop_last(), key);
    }
}

/// Under unique paths, the map the links stand for binds each link's path to
/// that link's destination.
proof fn lemma_links_map_found(links: Seq<MassiveURL>, i: int)
    requires
        0 <= i < links.len(),
        paths_unique(links),
    ensures
        links_map(links).contains_key(links[i].path@),
        links_map(links)[links[i].path@] == links[i].destination@,
    decreases links.len(),
{
    if i < links.len() - 1 {
        assert(paths_unique(links.drop_last()));
        lemma_links_map_found(links.drop_last(), i);
        assert(links[i].path@ != links.last().path@);
    }
}

/// Appending a link inserts its binding into the map the links stand for.
proof fn lemma_links_map_push(links: Seq<MassiveURL>, link: MassiveURL)
    ensures
        links_map(links.push(link)) == links_map(links).insert(link.path@, link.destination@),
{
    assert(links.push(link).drop_last() =~= links);
    assert(links.push(link).last() == link);
}

/// When every link's destination starts with `https://`, so does every value
/// of the map the links stand for.
proof fn lemma_links_map_values_https(links: Seq<MassiveURL>)
    requires
        forall|i: int| 0 <= i < links.len() ==> starts_with(
            #[trigger] links[i].destination@,
            "https://"@,
        ),
    ensures
        forall|k: Seq<char>| #[trigger] links_map(links).contains_key(k) ==> starts_with(
            links_map(links)[k],
            "https://"@,
        ),
    decreases links.len(),
{
    if links.len() > 0 {
        assert(forall|i: int| 0 <= i < links.drop_last().len()
            ==> (#[trigger] links.drop_last()[i].destination@) == links[i].destination@);
        lemma_links_map_values_https(links.drop_last());
        assert(starts_with(links[links.len() - 1].destination@, "https://"@));
        assert forall|k: Seq<char>| #[trigger] links_map(links).contains_key(k) implies starts_with(
            links_map(links)[k],
            "https://"@,
        ) by {
            if k != links.last().path@ {
                assert(links_map(links.drop_last()).contains_key(k));
            }
        }
    }
}

impl LinkStore {
    /// The store's internal invariant: paths are unique, and every stored
    /// destination starts with `https://`.
    pub closed spec fn wf(&self) -> bool {
        &&& paths_unique(self.links@)
        &&& forall|i: int| 0 <= i < self.links@.len() ==> starts_with(
            #[trigger] self.links@[i].destination@,
            "https://"@,
        )
    }

    /// An empty store.
    pub fn new() -> (s: Self)
        ensures
            s.wf(),
            s@ == Map::<Seq<char>, Seq<char>>::empty(),
    {
        LinkStore { links: Vec::new() }
    }

    /// The index of the link with exactly this path, if one is stored.
    fn find(&self, path: &str) -> (r: Option<usize>)
        ensures
            match r {
                Some(i) => i < self.links@.len() && self.links@[i as int].path@ == path@,
                None => forall|j: int| 0 <= j < self.links@.len()
                    ==> (#[trigger] self.links@[j].path@) != path@,
            },
    {
        let n = self.links.len();
        let mut i: usize = 0;
        while i < n
            invariant
                n == self.links@.len(),
                i <= n,
                forall|j: int| 0 <= j < i ==> (#[trigger] self.links@[j].path@) != path@,
            decreases n - i,
        {
            if str_eq(self.links[i].path.as_str(), path) {
                return Some(i);
            }
            i = i + 1;
        }
        None
    }

    /// Insert a link, unless its path is already bound: a path, once written,
    /// is never rebound, so re-inserting an identical record is a no-op and
    /// a colliding record cannot corrupt the existing one.
    pub fn put(&mut self, path: String, destination: String)
        requires
            old(self).wf(),
            starts_with(destination@, "https://"@),
        ensures
            final(self).wf(),
            final(self)@ == (if old(self)@.contains_key(path@) {
                old(self)@
            } else {
                old(self)@.insert(path@, destination@)
            }),
    {
        match self.find(path.as_str()) {
            Some(i) => {
                proof {
                    lemma_links_map_found(self.links@, i as int);
                }
            },
            None => {
                proof {
                    lemma_links_map_absent(self.links@, path@);
                    lemma_links_map_push(
                        self.links@,
                        MassiveURL { id: None, path, destination },
                    );
                }
                let link = MassiveURL { id: None, path, destination };
                self.links.push(link);
            },
        }
    }

    /// Look up the destination stored under exactly this path. A miss is a
    /// legitimate outcome, not an error.
    pub fn get(&self, path: &str) -> (r: Option<String>)
        requires
            self.wf(),
        ensures
            match r {
                Some(d) => self@.contains_key(path@) && d@ == self@[path@],
                None => !self@.contains_key(path@),
            },
    {
        match self.find(path) {
            Some(i) => {
                proof {
                    lemma_links_map_found(self.links@, i as int);
                }
                Some(self.links[i].destination.clone())
            },
            None => {
                proof {
                    lemma_links_map_absent(self.links@, path@);
                }
                None
            },
        }
    }

    /// Store invariant, at the level of the map view: every destination the
    /// store can ever hand out starts with `https://`.
    pub proof fn lemma_destinations_https(&self)
        requires
            self.wf(),
        ensures
            forall|k: Seq<char>| #[trigger] self@.contains_key(k) ==> starts_with(
                self@[k],
                "https://"@,
            ),
    {
        lemma_links_map_values_https(self.links@);
    }
}

/// Round trip: storing destination `d` under path `p` and then looking `p` up
/// yields `d` exactly, provided `p` was not already bound to a different
/// destination. In the create flow `p` is the digest of `d`, so a prior
/// conflicting binding would be a digest collision.
pub proof fn lemma_put_get_round_trip(m: Map<Seq<char>, Seq<char>>, p: Seq<char>, d: Seq<char>)
    requires
        m.contains_key(p) ==> m[p] == d,
    ensures
        ({
            let m1 = if m.contains_key(p) {
                m
            } else {
                m.insert(p, d)
            };
            m1.contains_key(p) && m1[p] == d
        }),
{
}

} // verus!
