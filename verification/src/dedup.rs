//! Run-scoped deduplication. Every listing is reduced to an identity key —
//! its source plus the source's stable identity — and a single index
//! decides, once per run, which key is seen first. The index is the only
//! state shared between workers; callers guard it with an exclusive-access
//! primitive, so each `accept` call is one indivisible check-and-insert.

use vstd::prelude::*;

use crate::models::Target;

verus! {

/// The deduplication key of a listing: the source it came from and the
/// identity that source considers stable. Two items with equal keys are the
/// same real-world listing, whichever worker produced them.
#[derive(Debug, Clone, PartialEq, Eq)]
pub struct IdentityKey {
    pub source: Target,
    pub identity: String,
}

/// The value an identity key denotes, for use in contracts.
pub open spec fn key_view(k: IdentityKey) -> (Target, Seq<char>) {
    (k.source, k.identity@)
}

impl IdentityKey {
    /// Derives the key of a listing deterministically from its source tag
    /// and stable identity.
    pub fn new(source: Target, identity: String) -> (r: IdentityKey)
        ensures
            key_view(r) == (source, identity@),
    {
        IdentityKey { source, identity }
    }
}

/// The identity index of one scraping run. It starts empty — carrying
/// nothing across runs — and only ever grows.
#[derive(Debug)]
pub struct DedupIndex {
    keys: Vec<IdentityKey>,
}

impl DedupIndex {
    /// The set of key values accepted so far.
    pub closed spec fn seen(&self) -> Set<(Target, Seq<char>)> {
        self.keys@.map_values(|k: IdentityKey| key_view(k)).to_set()
    }

    /// A fresh index for a new run: nothing seen yet.
    pub fn new() -> (r: DedupIndex)
        ensures
            r.seen() == Set::<(Target, Seq<char>)>::empty(),
    {
        let r = DedupIndex { keys: Vec::new() };
        proof {
            assert(r.keys@.map_values(|k: IdentityKey| key_view(k)) =~= Seq::<
                (Target, Seq<char>),
            >::empty());
            assert(r.seen() =~= Set::<(Target, Seq<char>)>::empty());
        }
        r
    }

    /// Whether this key's value has been accepted already.
    pub fn contains(&self, key: &IdentityKey) -> (r: bool)
        ensures
            r == self.seen().contains(key_view(*key)),
    {
        let ghost views = self.keys@.map_values(|k: IdentityKey| key_view(k));
        let mut i: usize = 0;
        while i < self.keys.len()
            invariant
                i <= self.keys@.len(),
                views == self.keys@.map_values(|k: IdentityKey| key_view(k)),
                forall|j: int| 0 <= j < i ==> views[j] != key_view(*key),
            decreases self.keys@.len() - i,
        {
            let candidate = &self.keys[i];
            if candidate.source == key.source && candidate.identity == key.identity {
                proof {
                    assert(views[i as int] == key_view(*key));
                    assert(views.to_set().contains(key_view(*key)));
                }
                return true;
            }
            i += 1;
        }
        proof {
            if views.to_set().contains(key_view(*key)) {
                let j = choose|j: int| 0 <= j < views.len() && views[j] == key_view(*key);
                assert(false);
            }
        }
        false
    }

    /// Accepts a key: returns true and records it the first time its value
    /// is seen in this run, false on every later occurrence. The check and
    /// the insert are one operation on one `&mut` borrow, so no two calls
    /// can both accept the same key.
    pub fn accept(&mut self, key: &IdentityKey) -> (fresh: bool)
        ensures
            fresh == !old(self).seen().contains(key_view(*key)),
            final(self).seen() == old(self).seen().insert(key_view(*key)),
    {
        if self.contains(key) {
            proof {
                assert(final(self).seen() =~= old(self).seen().insert(key_view(*key)));
            }
            false
        } else {
            let ghost prior = self.keys@;
            self.keys.push(IdentityKey { source: key.source, identity: key.identity.clone() });
            proof {
                let kv = key_view(*key);
                let pv = prior.map_values(|k: IdentityKey| key_view(k));
                let nv = self.keys@.map_values(|k: IdentityKey| key_view(k));
                assert(nv =~= pv.push(kv));
                assert forall|x: (Target, Seq<char>)| #[trigger] nv.to_set().contains(x)
                    implies pv.to_set().insert(kv).contains(x) by {
                    let i = choose|i: int| 0 <= i < nv.len() && nv[i] == x;
                    if i < pv.len() {
                        assert(pv[i] == x);
                        assert(pv.contains(x));
                    }
                }
                assert forall|x: (Target, Seq<char>)| #[trigger] pv.to_set().insert(kv).contains(x)
                    implies nv.to_set().contains(x) by {
                    if x == kv {
                        assert(nv[nv.len() - 1] == x);
                        assert(nv.contains(x));
                    } else {
                        let i = choose|i: int| 0 <= i < pv.len() && pv[i] == x;
                        assert(nv[i] == x);
                        assert(nv.contains(x));
                    }
                }
                assert(nv.to_set() =~= pv.to_set().insert(kv));
            }
            true
        }
    }
}

/// Whether the `i`-th call of a run of `accept` calls returns true, given
/// the key values accepted in order: it does exactly when no earlier call
/// carried the same value.
pub open spec fn accepted(keys: Seq<(Target, Seq<char>)>, i: int) -> bool
    recommends
        0 <= i < keys.len(),
{
    !keys.take(i).contains(keys[i])
}

/// What `accept` returns agrees with the model: with the key values of a
/// run listed in call order, the `i`-th call starts from exactly the seen
/// set of the first `i` values, so its result is `accepted(keys, i)`.
pub proof fn lemma_accept_matches_model(keys: Seq<(Target, Seq<char>)>, i: int)
    requires
        0 <= i < keys.len(),
    ensures
        accepted(keys, i) <==> !keys.take(i).to_set().contains(keys[i]),
{
    if keys.take(i).contains(keys[i]) {
        assert(keys.take(i).to_set().contains(keys[i]));
    }
    if keys.take(i).to_set().contains(keys[i]) {
        assert(keys.take(i).contains(keys[i]));
    }
}

/// For any sequence of accepted keys, repeats are never accepted twice:
/// of two calls carrying the same key value, the later one returns false.
pub proof fn lemma_accept_no_repeat(keys: Seq<(Target, Seq<char>)>, i: int, j: int)
    requires
        0 <= i < j < keys.len(),
        keys[i] == keys[j],
    ensures
        !accepted(keys, j),
{
    assert(keys.take(j)[i] == keys[i]);
    assert(keys.take(j).contains(keys[j]));
}

/// For any sequence of accepted keys, every key value that occurs at all is
/// accepted by exactly one call: its first occurrence.
pub proof fn lemma_accept_exactly_once(keys: Seq<(Target, Seq<char>)>, j: int)
    requires
        0 <= j < keys.len(),
    ensures
        exists|i: int|
            {
                &&& 0 <= i <= j
                &&& keys[i] == keys[j]
                &&& #[trigger] accepted(keys, i)
            },
    decreases j,
{
    if accepted(keys, j) {
        assert(0 <= j <= j && keys[j] == keys[j] && accepted(keys, j));
    } else {
        let earlier = choose|e: int| 0 <= e < j && keys.take(j)[e] == keys[j];
        assert(keys[earlier] == keys[j]);
        lemma_accept_exactly_once(keys, earlier);
        let i = choose|i: int|
            {
                &&& 0 <= i <= earlier
                &&& keys[i] == keys[earlier]
                &&& #[trigger] accepted(keys, i)
            };
        assert(0 <= i <= j && keys[i] == keys[j] && accepted(keys, i));
    }
}

} // verus!
