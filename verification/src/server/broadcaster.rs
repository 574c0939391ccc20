//! The registry of broadcast channels, one for each registered identity.
//!
//! Identities are found by [`Applicatiton::same_as`] and listed in the
//! order of [`Applicatiton::comes_before`], both of which are proved to mean
//! what they say. An ordered map of the standard library would go by the
//! order that `derive` gives an identity, of which the verifier knows
//! nothing.

use vstd::prelude::*;
use crate::{
    lemma_identity_order_total, lemma_identity_order_transitive, Applicatiton, ApplicatitonView,
};

verus! {

/// Messages that a broadcast channel holds for subscribers that lag.
pub const BROADCAST_CAPACITY: usize = 100;

/// The identities of `entries`, in order.
pub open spec fn keys_of<H>(entries: Seq<(Applicatiton, H)>) -> Seq<ApplicatitonView> {
    Seq::new(entries.len(), |i: int| entries[i].0@)
}

/// The map from each identity of `entries` to the handle that stands with
/// it.
pub open spec fn map_of<H>(entries: Seq<(Applicatiton, H)>) -> Map<ApplicatitonView, H> {
    Map::new(
        |k: ApplicatitonView| keys_of(entries).contains(k),
        |k: ApplicatitonView| entries[keys_of(entries).index_of(k)].1,
    )
}

proof fn lemma_entry<H>(entries: Seq<(Applicatiton, H)>, i: int)
    requires
        keys_of(entries).no_duplicates(),
        0 <= i < entries.len(),
    ensures
        map_of(entries).contains_key(entries[i].0@),
        map_of(entries)[entries[i].0@] == entries[i].1,
        keys_of(entries).index_of(entries[i].0@) == i,
{
    let keys = keys_of(entries);
    let key = keys[i];
    assert(keys.contains(key));
    let at = keys.index_of(key);
    assert(keys[at] == key);
}

proof fn lemma_pushed<H>(entries: Seq<(Applicatiton, H)>, entry: (Applicatiton, H))
    requires
        keys_of(entries).no_duplicates(),
        !keys_of(entries).contains(entry.0@),
    ensures
        keys_of(entries.push(entry)).no_duplicates(),
        map_of(entries.push(entry)) == map_of(entries).insert(entry.0@, entry.1),
{
    let keys = keys_of(entries);
    let longer = entries.push(entry);
    let after = keys_of(longer);
    assert(after == keys.push(entry.0@));
    assert forall|a: int, b: int| 0 <= a < after.len() && 0 <= b < after.len() && a != b implies after[a]
        != after[b] by {
        if a < keys.len() {
            assert(keys.contains(after[a]));
        }
        if b < keys.len() {
            assert(keys.contains(after[b]));
        }
    }
    assert forall|k: ApplicatitonView| map_of(longer).contains_key(k) <==> map_of(entries).insert(
        entry.0@,
        entry.1,
    ).contains_key(k) by {
        if after.contains(k) {
            let j = after.index_of(k);
            if j < keys.len() {
                assert(keys[j] == k);
            }
        }
        if keys.contains(k) {
            let j = keys.index_of(k);
            assert(after[j] == k);
        }
        if k == entry.0@ {
            assert(after[after.len() - 1] == k);
        }
    }
    assert forall|k: ApplicatitonView| map_of(longer).contains_key(k) implies map_of(longer)[k]
        == map_of(entries).insert(entry.0@, entry.1)[k] by {
        let j = after.index_of(k);
        lemma_entry(longer, j);
        if j < keys.len() {
            lemma_entry(entries, j);
        }
    }
    assert(map_of(longer) =~= map_of(entries).insert(entry.0@, entry.1));
}

proof fn lemma_removed<H>(entries: Seq<(Applicatiton, H)>, i: int)
    requires
        keys_of(entries).no_duplicates(),
        0 <= i < entries.len(),
    ensures
        keys_of(entries.remove(i)).no_duplicates(),
        !keys_of(entries.remove(i)).contains(entries[i].0@),
        map_of(entries.remove(i)) == map_of(entries).remove(entries[i].0@),
{
    let keys = keys_of(entries);
    let shorter = entries.remove(i);
    let after = keys_of(shorter);
    let gone = entries[i].0@;
    assert(after == keys.remove(i));
    assert forall|a: int, b: int| 0 <= a < after.len() && 0 <= b < after.len() && a != b implies after[a]
        != after[b] by {
        let x = if a < i { a } else { a + 1 };
        let y = if b < i { b } else { b + 1 };
        assert(after[a] == keys[x]);
        assert(after[b] == keys[y]);
    }
    assert forall|j: int| 0 <= j < after.len() implies after[j] != gone by {
        let x = if j < i { j } else { j + 1 };
        assert(after[j] == keys[x]);
        assert(keys[i] == gone);
    }
    assert forall|k: ApplicatitonView| map_of(shorter).contains_key(k) <==> map_of(entries).remove(
        gone,
    ).contains_key(k) by {
        if after.contains(k) {
            let j = after.index_of(k);
            let x = if j < i { j } else { j + 1 };
            assert(keys[x] == k);
        }
        if keys.contains(k) && k != gone {
            let x = keys.index_of(k);
            assert(keys[x] == k);
            let j = if x < i { x } else { x - 1 };
            assert(after[j] == k);
        }
    }
    assert forall|k: ApplicatitonView| map_of(shorter).contains_key(k) implies map_of(shorter)[k]
        == map_of(entries).remove(gone)[k] by {
        let j = after.index_of(k);
        lemma_entry(shorter, j);
        let x = if j < i { j } else { j + 1 };
        assert(shorter[j] == entries[x]);
        lemma_entry(entries, x);
    }
    assert(map_of(shorter) =~= map_of(entries).remove(gone));
}

proof fn lemma_size<H>(entries: Seq<(Applicatiton, H)>)
    requires
        keys_of(entries).no_duplicates(),
    ensures
        map_of(entries).dom().finite(),
        map_of(entries).dom().len() == entries.len(),
{
    let keys = keys_of(entries);
    keys.unique_seq_to_set();
    assert(map_of(entries).dom() =~= keys.to_set());
}

fn find<H>(entries: &Vec<(Applicatiton, H)>, application: &Applicatiton) -> (found: Option<usize>)
    ensures
        match found {
            Some(i) => i < entries@.len() && entries@[i as int].0@ == application@,
            None => !keys_of(entries@).contains(application@),
        },
{
    let mut i: usize = 0;
    while i < entries.len()
        invariant
            i <= entries@.len(),
            forall|j: int| 0 <= j < i ==> entries@[j].0@ != application@,
        decreases entries@.len() - i,
    {
        if entries[i].0.same_as(application) {
            return Some(i);
        }
        i += 1;
    }
    assert forall|j: int| 0 <= j < keys_of(entries@).len() implies keys_of(entries@)[j]
        != application@ by {
        assert(keys_of(entries@)[j] == entries@[j].0@);
    }
    None
}

/// The registry: for each registered identity the handle of its broadcast
/// channel. No identity is registered twice.
pub struct Broadcasters<H> {
    entries: Vec<(Applicatiton, H)>,
}

impl<H> View for Broadcasters<H> {
    type V = Map<ApplicatitonView, H>;

    closed spec fn view(&self) -> Map<ApplicatitonView, H> {
        map_of(self.entries@)
    }
}

impl<H> Broadcasters<H> {
    #[verifier::type_invariant]
    closed spec fn distinct(&self) -> bool {
        keys_of(self.entries@).no_duplicates()
    }

    /// A registry without any identity.
    pub fn new() -> (registry: Self)
        ensures
            registry@ == Map::<ApplicatitonView, H>::empty(),
    {
        let registry = Broadcasters { entries: Vec::new() };
        assert(registry@ =~= Map::<ApplicatitonView, H>::empty());
        registry
    }

    /// Whether `application` is registered.
    pub fn contains_key(&self, application: &Applicatiton) -> (registered: bool)
        ensures
            registered == self@.contains_key(application@),
    {
        match find(&self.entries, application) {
            Some(i) => {
                assert(keys_of(self.entries@)[i as int] == application@);
                true
            },
            None => false,
        }
    }

    /// How many identities are registered.
    pub fn len(&self) -> (count: usize)
        ensures
            self@.dom().finite(),
            count == self@.dom().len(),
    {
        proof {
            use_type_invariant(self);
            lemma_size(self.entries@);
        }
        self.entries.len()
    }

    /// Registers `application` with the channel `handle`. A channel that
    /// was registered for it before is replaced and handed back.
    pub fn register(&mut self, application: Applicatiton, handle: H) -> (replaced: Option<H>)
        ensures
            final(self)@ == old(self)@.insert(application@, handle),
            replaced == if old(self)@.contains_key(application@) {
                Some(old(self)@[application@])
            } else {
                None::<H>
            },
    {
        proof {
            use_type_invariant(&*self);
        }
        let mut entries: Vec<(Applicatiton, H)> = Vec::new();
        core::mem::swap(&mut self.entries, &mut entries);
        let ghost before = entries@;
        let replaced = match find(&entries, &application) {
            Some(i) => {
                proof {
                    lemma_entry(before, i as int);
                    lemma_removed(before, i as int);
                }
                let (_, previous) = entries.remove(i);
                Some(previous)
            },
            None => None,
        };
        proof {
            lemma_pushed(entries@, (application, handle));
            assert(map_of(before).remove(application@).insert(application@, handle) =~= map_of(
                before,
            ).insert(application@, handle));
            assert(map_of(before).contains_key(application@) ==> replaced is Some);
            if replaced is None {
                assert(map_of(before).remove(application@) =~= map_of(before));
            }
        }
        entries.push((application, handle));
        core::mem::swap(&mut self.entries, &mut entries);
        replaced
    }

    /// The channel of `application`, if it is registered. Nothing is
    /// created.
    pub fn subscribe(&self, application: &Applicatiton) -> (channel: Option<&H>)
        ensures
            match channel {
                Some(handle) => self@.contains_key(application@) && *handle == self@[application@],
                None => !self@.contains_key(application@),
            },
    {
        proof {
            use_type_invariant(self);
        }
        match find(&self.entries, application) {
            Some(i) => {
                proof {
                    lemma_entry(self.entries@, i as int);
                }
                Some(&self.entries[i].1)
            },
            None => None,
        }
    }

    /// Takes `application` out of the registry and hands back its channel,
    /// if it was registered.
    pub fn remove(&mut self, application: &Applicatiton) -> (removed: Option<H>)
        ensures
            final(self)@ == old(self)@.remove(application@),
            removed == if old(self)@.contains_key(application@) {
                Some(old(self)@[application@])
            } else {
                None::<H>
            },
    {
        proof {
            use_type_invariant(&*self);
        }
        let mut entries: Vec<(Applicatiton, H)> = Vec::new();
        core::mem::swap(&mut self.entries, &mut entries);
        let ghost before = entries@;
        let removed = match find(&entries, application) {
            Some(i) => {
                proof {
                    lemma_entry(before, i as int);
                    lemma_removed(before, i as int);
                }
                let (_, previous) = entries.remove(i);
                Some(previous)
            },
            None => {
                proof {
                    assert(map_of(before).remove(application@) =~= map_of(before));
                }
                None
            },
        };
        core::mem::swap(&mut self.entries, &mut entries);
        removed
    }

    /// The registered identities, in ascending order.
    pub fn applications(&self) -> (identities: Vec<Applicatiton>)
        ensures
            ascending(identities_of(identities@)),
            forall|k: ApplicatitonView|
                self@.contains_key(k) <==> identities_of(identities@).contains(k),
            identities@.len() == self@.dom().len(),
    {
        proof {
            use_type_invariant(self);
            lemma_size(self.entries@);
        }
        let ghost keys = keys_of(self.entries@);
        let mut identities: Vec<Applicatiton> = Vec::new();
        let mut n: usize = 0;
        while n < self.entries.len()
            invariant
                n <= self.entries@.len(),
                keys == keys_of(self.entries@),
                keys.no_duplicates(),
                identities@.len() == n,
                ascending(identities_of(identities@)),
                forall|j: int| 0 <= j < n ==> identities_of(identities@).contains(#[trigger] keys[j]),
                forall|i: int|
                    0 <= i < n ==> keys.subrange(0, n as int).contains(
                        #[trigger] identities_of(identities@)[i],
                    ),
            decreases self.entries@.len() - n,
        {
            let ghost before = identities_of(identities@);
            let ghost fresh = keys[n as int];
            assert(self.entries@[n as int].0@ == fresh);
            assert(!before.contains(fresh)) by {
                if before.contains(fresh) {
                    let i = choose|i: int| 0 <= i < before.len() && before[i] == fresh;
                    let seen = keys.subrange(0, n as int);
                    assert(seen.contains(before[i]));
                    let j = choose|j: int| 0 <= j < seen.len() && seen[j] == fresh;
                    assert(keys[j] == keys[n as int]);
                }
            }
            let mut at: usize = 0;
            while at < identities.len() && identities[at].comes_before(&self.entries[n].0)
                invariant
                    at <= identities@.len(),
                    n < self.entries@.len(),
                    self.entries@[n as int].0@ == fresh,
                    before == identities_of(identities@),
                    forall|k: int| 0 <= k < at ==> (#[trigger] before[k]).precedes(fresh),
                decreases identities@.len() - at,
            {
                at += 1;
            }
            proof {
                if at < before.len() {
                    assert(before.contains(before[at as int]));
                    lemma_identity_order_total(fresh, before[at as int]);
                    assert forall|k: int| at < k < before.len() implies fresh.precedes(
                        #[trigger] before[k],
                    ) by {
                        lemma_identity_order_transitive(fresh, before[at as int], before[k]);
                    }
                }
            }
            identities.insert(at, self.entries[n].0.duplicate());
            proof {
                let after = identities_of(identities@);
                assert(after == before.insert(at as int, fresh));
                assert forall|i: int, j: int| 0 <= i < j < after.len() implies after[i].precedes(
                    after[j],
                ) by {
                    if j < at {
                        assert(after[i] == before[i] && after[j] == before[j]);
                    } else if j == at {
                        assert(after[i] == before[i]);
                    } else if i < at {
                        assert(after[i] == before[i] && after[j] == before[j - 1]);
                        if j - 1 == at {
                            lemma_identity_order_transitive(before[i], fresh, before[at as int]);
                        }
                    } else if i == at {
                        assert(after[j] == before[j - 1]);
                    } else {
                        assert(after[i] == before[i - 1] && after[j] == before[j - 1]);
                    }
                }
                assert forall|j: int| 0 <= j < n + 1 implies after.contains(#[trigger] keys[j]) by {
                    if j < n {
                        let i = choose|i: int| 0 <= i < before.len() && before[i] == keys[j];
                        if i < at {
                            assert(after[i] == keys[j]);
                        } else {
                            assert(after[i + 1] == keys[j]);
                        }
                    } else {
                        assert(after[at as int] == keys[j]);
                    }
                }
                assert forall|i: int| 0 <= i < n + 1 implies keys.subrange(0, n + 1).contains(
                    #[trigger] after[i],
                ) by {
                    let seen = keys.subrange(0, n as int);
                    let more = keys.subrange(0, n + 1);
                    if i == at {
                        assert(more[n as int] == after[i]);
                    } else {
                        let old_i = if i < at { i } else { i - 1 };
                        assert(after[i] == before[old_i]);
                        assert(seen.contains(before[old_i]));
                        let j = choose|j: int| 0 <= j < seen.len() && seen[j] == before[old_i];
                        assert(more[j] == after[i]);
                    }
                }
            }
            n += 1;
        }
        proof {
            let listed = identities_of(identities@);
            assert(keys.subrange(0, n as int) == keys);
            assert forall|k: ApplicatitonView| self@.contains_key(k) <==> listed.contains(k) by {
                if keys.contains(k) {
                    let j = keys.index_of(k);
                    assert(listed.contains(keys[j]));
                }
                if listed.contains(k) {
                    let i = choose|i: int| 0 <= i < listed.len() && listed[i] == k;
                    assert(keys.contains(listed[i]));
                }
            }
        }
        identities
    }
}

/// The mathematical values of `identities`, in order.
pub open spec fn identities_of(identities: Seq<Applicatiton>) -> Seq<ApplicatitonView> {
    identities.map_values(|identity: Applicatiton| identity@)
}

/// Whether `identities` stand in ascending order, none of them twice.
pub open spec fn ascending(identities: Seq<ApplicatitonView>) -> bool {
    forall|i: int, j: int|
        0 <= i < j < identities.len() ==> (#[trigger] identities[i]).precedes(#[trigger] identities[j])
}

/// A registry without any identity.
pub fn new_broadcasters<H>() -> (registry: Broadcasters<H>)
    ensures
        registry@ == Map::<ApplicatitonView, H>::empty(),
{
    Broadcasters::new()
}

} // verus!
