//! The key material store: verification key entries keyed by key id,
//! replaced wholesale on refresh, and populated from a provider's JWKS
//! document.
//!
//! The store's model is a map from key id to (algorithm, key material).
//! Ingestion keeps only RSA descriptors whose fields are complete and whose
//! declared algorithm is on the allow-list; malformed or unsupported
//! descriptors are skipped individually, and a duplicate key id keeps the
//! entry seen first.

use vstd::prelude::*;
use vstd::string::StringExecFns;

use crate::errors::FetchError;
use crate::jsonval::{desc_view, jwks_descs, jwks_key_descriptors};
use crate::strutil::str_eq;

verus! {

/// The signature algorithms the verifier accepts.  `"none"` and symmetric
/// algorithms are deliberately absent: a token declaring them is rejected
/// before any key is consulted.
#[derive(Clone, Copy, Debug, PartialEq, Eq, Structural)]
pub enum SigAlgorithm {
    Rs256,
    Rs384,
    Rs512,
}

/// Which algorithm an `alg` string names, if it is on the allow-list.
pub open spec fn spec_parse_algorithm(s: Seq<char>) -> Option<SigAlgorithm> {
    if s == "RS256"@ {
        Some(SigAlgorithm::Rs256)
    } else if s == "RS384"@ {
        Some(SigAlgorithm::Rs384)
    } else if s == "RS512"@ {
        Some(SigAlgorithm::Rs512)
    } else {
        None
    }
}

/// Parses an `alg` string against the allow-list.
pub fn parse_algorithm(s: &str) -> (r: Option<SigAlgorithm>)
    ensures
        r == spec_parse_algorithm(s@),
{
    if str_eq(s, "RS256") {
        Some(SigAlgorithm::Rs256)
    } else if str_eq(s, "RS384") {
        Some(SigAlgorithm::Rs384)
    } else if str_eq(s, "RS512") {
        Some(SigAlgorithm::Rs512)
    } else {
        None
    }
}

/// One cached verification key: immutable once inserted.
#[derive(Clone, Debug)]
pub struct KeyEntry {
    pub kid: String,
    pub algorithm: SigAlgorithm,
    pub material: String,
}

/// The key material store: a set of entries with pairwise distinct key ids.
pub struct KeySet {
    entries: Vec<KeyEntry>,
}

/// The map carried by a sequence of entries; a later entry would shadow an
/// earlier one, but well-formed sets have no duplicate ids at all.
pub open spec fn seq_contents(s: Seq<KeyEntry>) -> Map<Seq<char>, (SigAlgorithm, Seq<char>)>
    decreases s.len(),
{
    if s.len() == 0 {
        Map::empty()
    } else {
        seq_contents(s.drop_last()).insert(
            s.last().kid@,
            (s.last().algorithm, s.last().material@),
        )
    }
}

impl KeySet {
    /// The mapping from key id to (algorithm, key material).
    pub closed spec fn contents(self) -> Map<Seq<char>, (SigAlgorithm, Seq<char>)> {
        seq_contents(self.entries@)
    }

    /// Key ids are pairwise distinct.
    pub closed spec fn wf(self) -> bool {
        forall|i: int, j: int|
            0 <= i < j < self.entries@.len() ==> self.entries@[i].kid@ != self.entries@[j].kid@
    }

    /// An empty store: the state at process start.
    pub fn new() -> (r: KeySet)
        ensures
            r.wf(),
            r.contents() == Map::<Seq<char>, (SigAlgorithm, Seq<char>)>::empty(),
    {
        KeySet { entries: Vec::new() }
    }

    /// Inserts an entry unless its key id is already present; returns
    /// whether it was inserted.
    pub fn insert(&mut self, e: KeyEntry) -> (inserted: bool)
        requires
            old(self).wf(),
        ensures
            final(self).wf(),
            inserted == !old(self).contents().contains_key(e.kid@),
            final(self).contents() == if old(self).contents().contains_key(e.kid@) {
                old(self).contents()
            } else {
                old(self).contents().insert(e.kid@, (e.algorithm, e.material@))
            },
    {
        match self.lookup_index(e.kid.as_str()) {
            Some(j) => {
                proof {
                    lemma_contents_index(self.entries@, j as int);
                }
                false
            },
            None => {
                proof {
                    lemma_contents_absent(self.entries@, e.kid@);
                    assert(self.entries@.push(e).drop_last() =~= self.entries@);
                }
                self.entries.push(e);
                true
            },
        }
    }

    /// Index of the entry carrying `kid`, used by both `insert` and
    /// `lookup`.
    fn lookup_index(&self, kid: &str) -> (r: Option<usize>)
        requires
            self.wf(),
        ensures
            match r {
                Some(j) => j < self.entries@.len() && self.entries@[j as int].kid@ == kid@,
                None => forall|i: int| 0 <= i < self.entries@.len() ==> self.entries@[i].kid@ != kid@,
            },
    {
        let n = self.entries.len();
        let mut j: usize = 0;
        while j < n
            invariant
                j <= n,
                n == self.entries@.len(),
                forall|i: int| 0 <= i < j ==> self.entries@[i].kid@ != kid@,
            decreases n - j,
        {
            if str_eq(self.entries[j].kid.as_str(), kid) {
                return Some(j);
            }
            j = j + 1;
        }
        None
    }

    /// Pure lookup by key id.  A miss is an expected outcome, not an error:
    /// the caller may refresh once and retry.
    pub fn lookup(&self, kid: &str) -> (r: Option<&KeyEntry>)
        requires
            self.wf(),
        ensures
            match r {
                Some(e) => self.contents().contains_key(kid@) && e.kid@ == kid@
                    && self.contents()[kid@] == (e.algorithm, e.material@),
                None => !self.contents().contains_key(kid@),
            },
    {
        match self.lookup_index(kid) {
            Some(j) => {
                proof {
                    lemma_contents_index(self.entries@, j as int);
                }
                Some(&self.entries[j])
            },
            None => {
                proof {
                    lemma_contents_absent(self.entries@, kid@);
                }
                None
            },
        }
    }

    /// Atomically replaces the entire cached set: afterwards the store is
    /// exactly the new set, never a mixture of old and new entries.
    pub fn refresh(&mut self, new_entries: KeySet)
        ensures
            *final(self) == new_entries,
    {
        *self = new_entries;
    }

    /// How many keys are cached.
    pub fn key_count(&self) -> (r: usize)
        requires
            self.wf(),
        ensures
            self.contents().dom().finite(),
            r == self.contents().len(),
    {
        proof {
            lemma_contents_len(self.entries@);
        }
        self.entries.len()
    }
}

/// An entry whose id is the only occurrence from its index on determines
/// the map at that id.
proof fn lemma_contents_index(s: Seq<KeyEntry>, i: int)
    requires
        0 <= i < s.len(),
        forall|j: int| i < j < s.len() ==> s[j].kid@ != s[i].kid@,
    ensures
        seq_contents(s).contains_key(s[i].kid@),
        seq_contents(s)[s[i].kid@] == (s[i].algorithm, s[i].material@),
    decreases s.len(),
{
    if i < s.len() - 1 {
        lemma_contents_index(s.drop_last(), i);
    }
}

/// With pairwise distinct ids, the map is exactly as large as the entry
/// sequence.
proof fn lemma_contents_len(s: Seq<KeyEntry>)
    requires
        forall|i: int, j: int| 0 <= i < j < s.len() ==> s[i].kid@ != s[j].kid@,
    ensures
        seq_contents(s).dom().finite(),
        seq_contents(s).len() == s.len(),
    decreases s.len(),
{
    if s.len() > 0 {
        lemma_contents_len(s.drop_last());
        lemma_contents_absent(s.drop_last(), s.last().kid@);
    }
}

/// An id carried by no entry is not in the map.
proof fn lemma_contents_absent(s: Seq<KeyEntry>, kid: Seq<char>)
    requires
        forall|i: int| 0 <= i < s.len() ==> s[i].kid@ != kid,
    ensures
        !seq_contents(s).contains_key(kid),
    decreases s.len(),
{
    if s.len() > 0 {
        lemma_contents_absent(s.drop_last(), kid);
    }
}

/// The key material stored for an RSA key: its modulus and exponent,
/// base64url as published, joined by a colon.
pub open spec fn material_chars(n: Seq<char>, e: Seq<char>) -> Seq<char> {
    n + ":"@ + e
}

/// The entry a single JWKS descriptor contributes: `None` when the
/// descriptor is skipped (not RSA, incomplete, or an algorithm off the
/// allow-list).  An absent `alg` member defaults to RS256.
pub open spec fn desc_entry(
    d: (Option<Seq<char>>, Option<Seq<char>>, Option<Seq<char>>, Option<Seq<char>>, Option<
        Seq<char>,
    >),
) -> Option<(Seq<char>, SigAlgorithm, Seq<char>)> {
    match (d.0, d.1, d.2, d.3) {
        (Some(kty), Some(kid), Some(n), Some(e)) => {
            if kty == "RSA"@ {
                match (match d.4 {
                    None => Some(SigAlgorithm::Rs256),
                    Some(a) => spec_parse_algorithm(a),
                }) {
                    Some(alg) => Some((kid, alg, material_chars(n, e))),
                    None => None,
                }
            } else {
                None
            }
        },
        _ => None,
    }
}

/// The map a descriptor list normalizes to: surviving descriptors in order,
/// the first occurrence of a key id winning.
pub open spec fn jwks_contents(
    ds: Seq<(Option<Seq<char>>, Option<Seq<char>>, Option<Seq<char>>, Option<Seq<char>>, Option<
        Seq<char>,
    >)>,
) -> Map<Seq<char>, (SigAlgorithm, Seq<char>)>
    decreases ds.len(),
{
    if ds.len() == 0 {
        Map::empty()
    } else {
        let rest = jwks_contents(ds.drop_last());
        match desc_entry(ds.last()) {
            Some((kid, alg, material)) => if rest.contains_key(kid) {
                rest
            } else {
                rest.insert(kid, (alg, material))
            },
            None => rest,
        }
    }
}

/// Normalizes a JWKS document into a key set, skipping malformed and
/// unsupported descriptors individually; fails only when the document
/// itself carries no key list.
pub fn keyset_from_jwks(body: &[u8]) -> (r: Result<KeySet, FetchError>)
    ensures
        match r {
            Ok(ks) => ks.wf() && (jwks_descs(body@) matches Some(ds) && ks.contents()
                == jwks_contents(ds)),
            Err(e) => e is MalformedDocument && jwks_descs(body@) is None,
        },
{
    let descs = match jwks_key_descriptors(body) {
        Some(d) => d,
        None => {
            return Err(FetchError::MalformedDocument);
        },
    };
    let ghost ds = descs@.map_values(|d: crate::jsonval::JwksDescriptor| desc_view(d));
    let mut ks = KeySet::new();
    let n = descs.len();
    let mut i: usize = 0;
    while i < n
        invariant
            i <= n,
            n == descs@.len(),
            ds == descs@.map_values(|d: crate::jsonval::JwksDescriptor| desc_view(d)),
            ks.wf(),
            ks.contents() == jwks_contents(ds.take(i as int)),
        decreases n - i,
    {
        let d = &descs[i];
        proof {
            assert(ds[i as int] == desc_view(descs@[i as int]));
            assert(ds.take(i + 1).drop_last() =~= ds.take(i as int));
            assert(ds.take(i + 1).last() == ds[i as int]);
        }
        let keep: Option<SigAlgorithm> = match (&d.kty, &d.kid, &d.n, &d.e) {
            (Some(kty), Some(_kid), Some(_n), Some(_e)) => {
                if str_eq(kty.as_str(), "RSA") {
                    match &d.alg {
                        None => Some(SigAlgorithm::Rs256),
                        Some(a) => parse_algorithm(a.as_str()),
                    }
                } else {
                    None
                }
            },
            _ => None,
        };
        match keep {
            Some(alg) => {
                let kid = match &d.kid {
                    Some(k) => k.clone(),
                    None => unreached(),
                };
                let mut material = match &d.n {
                    Some(nn) => nn.clone(),
                    None => unreached(),
                };
                material.append(":");
                let e_str = match &d.e {
                    Some(ee) => ee.clone(),
                    None => unreached(),
                };
                material.append(e_str.as_str());
                let entry = KeyEntry { kid, algorithm: alg, material };
                proof {
                    assert(desc_entry(ds[i as int]) == Some(
                        (entry.kid@, entry.algorithm, entry.material@),
                    ));
                }
                let _ = ks.insert(entry);
            },
            None => {
                proof {
                    assert(desc_entry(ds[i as int]) is None);
                }
            },
        }
        i = i + 1;
    }
    proof {
        assert(ds.take(n as int) =~= ds);
    }
    Ok(ks)
}

/// Interprets a whole JWKS fetch exchange: a non-success status is a
/// distinguishable fetch failure, a success body is normalized into a key
/// set.  The transport layer reports its own failures before this point.
pub fn ingest_jwks_response(status: u16, body: &[u8]) -> (r: Result<KeySet, FetchError>)
    ensures
        !(200 <= status < 300) ==> (r matches Err(e) && e matches FetchError::HttpStatus(s) && s
            == status),
        (200 <= status < 300) ==> match jwks_descs(body@) {
            None => (r matches Err(e) && e is MalformedDocument),
            Some(ds) => (r matches Ok(ks) && ks.wf() && ks.contents() == jwks_contents(ds)),
        },
{
    if status < 200 || status >= 300 {
        return Err(FetchError::HttpStatus(status));
    }
    keyset_from_jwks(body)
}

/// Cache swap is atomic: a refresh replaces the whole set, so a lookup that
/// runs concurrently reads either the pre-refresh or the post-refresh set.
/// Whichever it reads, the entry it observes at a key id is that set's own
/// entry — never one absent from both sets, and never a mixture.
pub proof fn lemma_swap_atomic(pre: KeySet, post: KeySet, observed: KeySet, kid: Seq<char>)
    requires
        observed == pre || observed == post,
        observed.contents().contains_key(kid),
    ensures
        (pre.contents().contains_key(kid) && observed.contents()[kid] == pre.contents()[kid])
            || (post.contents().contains_key(kid) && observed.contents()[kid]
            == post.contents()[kid]),
{
}

} // verus!
