//! Per-extension permission decisions: the store behind both the
//! process-local prompt cache and the persisted permission file.
//!
//! A decision is keyed by extension id and capability. Recording shadows any
//! earlier decision for the same key; revoking an extension removes every
//! decision for it. Lookup always returns the last recorded value, or
//! nothing after a revoke — that is this store's contract, stated on each
//! operation.

use vstd::prelude::*;
use crate::text::str_eq;

verus! {

/// One recorded decision.
type PermEntry = (String, String, bool);

/// The decision a lookup finds: the most recently recorded entry for the
/// extension and capability.
pub open spec fn spec_perm_lookup(entries: Seq<PermEntry>, e: Seq<char>, c: Seq<char>) -> Option<
    bool,
>
    decreases entries.len(),
{
    if entries.len() == 0 {
        None
    } else if entries.last().0@ == e && entries.last().1@ == c {
        Some(entries.last().2)
    } else {
        spec_perm_lookup(entries.drop_last(), e, c)
    }
}

/// Keeps the entries that belong to other extensions.
pub open spec fn other_ext_pred(e: Seq<char>) -> spec_fn(PermEntry) -> bool {
    |t: PermEntry| t.0@ != e
}

/// Removing one extension's entries leaves every other lookup alone and
/// empties that extension's.
proof fn lemma_lookup_after_revoke(entries: Seq<PermEntry>, ext: Seq<char>, e: Seq<char>, c: Seq<char>)
    ensures
        spec_perm_lookup(entries.filter(other_ext_pred(ext)), e, c) == if e == ext {
            None
        } else {
            spec_perm_lookup(entries, e, c)
        },
    decreases entries.len(),
{
    reveal(Seq::filter);
    let p = other_ext_pred(ext);
    if entries.len() == 0 {
        assert(entries.filter(p) =~= Seq::<PermEntry>::empty());
    } else {
        let last = entries.last();
        lemma_lookup_after_revoke(entries.drop_last(), ext, e, c);
        if p(last) {
            let f = entries.drop_last().filter(p).push(last);
            assert(entries.filter(p) == f);
            assert(f.drop_last() =~= entries.drop_last().filter(p));
            assert(f.last() == last);
        } else {
            assert(entries.filter(p) == entries.drop_last().filter(p));
        }
    }
}

/// Recorded permission decisions, in memory.
#[derive(Debug)]
pub struct PermissionStore {
    entries: Vec<PermEntry>,
}

impl PermissionStore {
    /// The decision recorded last for this key, if any.
    pub closed spec fn spec_lookup(&self, e: Seq<char>, c: Seq<char>) -> Option<bool> {
        spec_perm_lookup(self.entries@, e, c)
    }

    /// An empty store.
    pub fn new() -> (r: Self)
        ensures
            forall|e: Seq<char>, c: Seq<char>| #[trigger] r.spec_lookup(e, c) is None,
    {
        PermissionStore { entries: Vec::new() }
    }

    /// Record a decision, shadowing any earlier one for the same key.
    pub fn record(&mut self, extension_id: &str, capability: &str, allow: bool)
        ensures
            forall|e: Seq<char>, c: Seq<char>|
                #[trigger] final(self).spec_lookup(e, c) == if e == extension_id@ && c
                    == capability@ {
                    Some(allow)
                } else {
                    old(self).spec_lookup(e, c)
                },
    {
        self.entries.push((extension_id.to_owned(), capability.to_owned(), allow));
        proof {
            assert(self.entries@.drop_last() =~= old(self).entries@);
        }
    }

    /// The decision recorded last for this key, if any.
    pub fn lookup(&self, extension_id: &str, capability: &str) -> (r: Option<bool>)
        ensures
            r == self.spec_lookup(extension_id@, capability@),
    {
        let n = self.entries.len();
        let mut i: usize = n;
        proof {
            assert(self.entries@.subrange(0, n as int) =~= self.entries@);
        }
        while i > 0
            invariant
                n == self.entries@.len(),
                i <= n,
                spec_perm_lookup(self.entries@, extension_id@, capability@) == spec_perm_lookup(
                    self.entries@.subrange(0, i as int),
                    extension_id@,
                    capability@,
                ),
            decreases i,
        {
            proof {
                let pre = self.entries@.subrange(0, i as int);
                assert(pre.last() == self.entries@[i - 1]);
                assert(pre.drop_last() =~= self.entries@.subrange(0, i - 1));
            }
            let hit = str_eq(self.entries[i - 1].0.as_str(), extension_id) && str_eq(
                self.entries[i - 1].1.as_str(),
                capability,
            );
            if hit {
                return Some(self.entries[i - 1].2);
            }
            i = i - 1;
        }
        proof {
            assert(self.entries@.subrange(0, 0) =~= Seq::<PermEntry>::empty());
        }
        None
    }

    /// Remove every decision for an extension.
    pub fn revoke_extension(&mut self, extension_id: &str)
        ensures
            forall|e: Seq<char>, c: Seq<char>|
                #[trigger] final(self).spec_lookup(e, c) == if e == extension_id@ {
                    None::<bool>
                } else {
                    old(self).spec_lookup(e, c)
                },
    {
        let n = self.entries.len();
        let mut kept: Vec<PermEntry> = Vec::new();
        let mut i: usize = 0;
        proof {
            reveal(Seq::filter);
            assert(self.entries@.subrange(0, 0) =~= Seq::<PermEntry>::empty());
        }
        while i < n
            invariant
                n == self.entries@.len(),
                i <= n,
                kept@ == self.entries@.subrange(0, i as int).filter(
                    other_ext_pred(extension_id@),
                ),
            decreases n - i,
        {
            proof {
                let pre = self.entries@.subrange(0, i as int);
                let post = self.entries@.subrange(0, i + 1);
                assert(post.drop_last() =~= pre);
                assert(post.last() == self.entries@[i as int]);
                reveal(Seq::filter);
            }
            let keep = !str_eq(self.entries[i].0.as_str(), extension_id);
            if keep {
                let e = self.entries[i].0.clone();
                let c = self.entries[i].1.clone();
                let b = self.entries[i].2;
                kept.push((e, c, b));
                proof {
                    assert((e, c, b) == self.entries@[i as int]);
                }
            }
            i = i + 1;
        }
        proof {
            assert(self.entries@.subrange(0, n as int) =~= self.entries@);
        }
        self.entries = kept;
        proof {
            assert forall|e: Seq<char>, c: Seq<char>|
                #[trigger] self.spec_lookup(e, c) == if e == extension_id@ {
                    None::<bool>
                } else {
                    old(self).spec_lookup(e, c)
                } by {
                lemma_lookup_after_revoke(old(self).entries@, extension_id@, e, c);
            }
        }
    }

    /// Forget every decision.
    pub fn reset_all(&mut self)
        ensures
            forall|e: Seq<char>, c: Seq<char>| #[trigger] final(self).spec_lookup(e, c) is None,
    {
        self.entries = Vec::new();
    }

    /// The recorded decisions, most recent last; earlier decisions shadowed
    /// by later ones for the same key are still present.
    pub fn entries(&self) -> (r: &Vec<PermEntry>)
        ensures
            forall|e: Seq<char>, c: Seq<char>|
                #[trigger] spec_perm_lookup(r@, e, c) == self.spec_lookup(e, c),
    {
        &self.entries
    }
}

} // verus!
