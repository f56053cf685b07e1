//! Content pools: a shared curated pool, read-only here, and a
//! community-owned custom pool with ownership-scoped lookups, ordered
//! listing, and a per-community capacity limit. Generic over the item
//! shape (a question is one string, a poll three).

use vstd::prelude::*;

use crate::CUSTOM_CAPACITY;

verus! {

/// One community-submitted entry.
pub struct Record<T> {
    pub id: u64,
    pub owner: u64,
    pub body: T,
}

/// One curated entry, provisioned out-of-band.
pub struct CuratedItem<T> {
    pub id: u64,
    pub body: T,
    pub active: bool,
}

/// The curated pool has no entry eligible for selection.
#[derive(Clone, Copy, Debug, PartialEq, Eq, Structural)]
pub struct EmptyPoolError;

/// The community's custom pool is at its capacity limit.
#[derive(Clone, Copy, Debug, PartialEq, Eq, Structural)]
pub struct CapacityExceeded;

/// What a delete request came to. An absent id and an id owned by a
/// different community are deliberately indistinguishable.
#[derive(Clone, Copy, Debug, PartialEq, Eq, Structural)]
pub enum DeletionOutcome {
    Deleted,
    NotFoundOrNotOwned,
}

/// The entries owned by `g`, in stored order.
pub open spec fn owned_by<T>(s: Seq<Record<T>>, g: u64) -> Seq<Record<T>>
    decreases s.len(),
{
    if s.len() == 0 {
        Seq::empty()
    } else {
        let rest = owned_by(s.drop_last(), g);
        if s.last().owner == g {
            rest.push(s.last())
        } else {
            rest
        }
    }
}

/// The curated entries eligible for random selection.
pub open spec fn actives<T>(s: Seq<CuratedItem<T>>) -> Seq<CuratedItem<T>>
    decreases s.len(),
{
    if s.len() == 0 {
        Seq::empty()
    } else {
        let rest = actives(s.drop_last());
        if s.last().active {
            rest.push(s.last())
        } else {
            rest
        }
    }
}

/// The body stored under `id` for owner `g`, if both match.
pub open spec fn spec_get<T>(s: Seq<Record<T>>, g: u64, id: u64) -> Option<T>
    decreases s.len(),
{
    if s.len() == 0 {
        None
    } else if s.last().id == id && s.last().owner == g {
        Some(s.last().body)
    } else {
        spec_get(s.drop_last(), g, id)
    }
}

/// The pool with every entry of the given id removed.
pub open spec fn without_id<T>(s: Seq<Record<T>>, id: u64) -> Seq<Record<T>>
    decreases s.len(),
{
    if s.len() == 0 {
        Seq::empty()
    } else {
        let rest = without_id(s.drop_last(), id);
        if s.last().id == id {
            rest
        } else {
            rest.push(s.last())
        }
    }
}

/// Some entry carries this id and owner.
pub open spec fn has_record<T>(s: Seq<Record<T>>, g: u64, id: u64) -> bool {
    exists|i: int| 0 <= i < s.len() && (#[trigger] s[i]).id == id && s[i].owner == g
}

/// Identifiers appear in strictly increasing stored order.
pub open spec fn ids_increasing<T>(s: Seq<Record<T>>) -> bool {
    forall|i: int, j: int| 0 <= i < j < s.len() ==> (#[trigger] s[i]).id < (#[trigger] s[j]).id
}

/// Every identifier is below the next one to be assigned.
pub open spec fn ids_below<T>(s: Seq<Record<T>>, n: u64) -> bool {
    forall|i: int| 0 <= i < s.len() ==> (#[trigger] s[i]).id < n
}

proof fn lemma_owned_by_push<T>(s: Seq<Record<T>>, r: Record<T>, g: u64)
    ensures
        owned_by(s.push(r), g) == (if r.owner == g {
            owned_by(s, g).push(r)
        } else {
            owned_by(s, g)
        }),
{
    assert(s.push(r).drop_last() =~= s);
}

/// Every listed entry is owned by `g` and stands somewhere in the pool.
proof fn lemma_owned_by_index<T>(s: Seq<Record<T>>, g: u64, k: int)
    requires
        0 <= k < owned_by(s, g).len(),
    ensures
        owned_by(s, g)[k].owner == g,
        exists|j: int| 0 <= j < s.len() && s[j] == owned_by(s, g)[k],
    decreases s.len(),
{
    if s.len() > 0 {
        let rest = owned_by(s.drop_last(), g);
        if s.last().owner == g && k == rest.len() {
            assert(s[s.len() - 1] == owned_by(s, g)[k]);
        } else {
            lemma_owned_by_index(s.drop_last(), g, k);
            let j = choose|j: int|
                0 <= j < s.drop_last().len() && s.drop_last()[j] == owned_by(s.drop_last(), g)[k];
            assert(s[j] == owned_by(s, g)[k]);
        }
    }
}

/// Listing preserves the strictly increasing identifier order.
proof fn lemma_owned_by_increasing<T>(s: Seq<Record<T>>, g: u64)
    requires
        ids_increasing(s),
    ensures
        ids_increasing(owned_by(s, g)),
    decreases s.len(),
{
    if s.len() > 0 {
        let t = s.drop_last();
        assert(ids_increasing(t)) by {
            assert(forall|i: int, j: int|
                0 <= i < j < t.len() ==> (#[trigger] t[i]).id < (#[trigger] t[j]).id) by {
                assert(forall|i: int| 0 <= i < t.len() ==> t[i] == s[i]);
            }
        }
        lemma_owned_by_increasing(t, g);
        if s.last().owner == g {
            let rest = owned_by(t, g);
            assert forall|k: int| 0 <= k < rest.len() implies rest[k].id < s.last().id by {
                lemma_owned_by_index(t, g, k);
                let j = choose|j: int| 0 <= j < t.len() && t[j] == rest[k];
                assert(s[j] == t[j]);
                assert(s[j].id < s[s.len() - 1].id);
            }
        }
    }
}

/// A pool without any matching entry yields nothing.
proof fn lemma_spec_get_none<T>(s: Seq<Record<T>>, g: u64, id: u64)
    requires
        !has_record(s, g, id),
    ensures
        spec_get(s, g, id) is None,
    decreases s.len(),
{
    if s.len() > 0 {
        assert(forall|i: int| 0 <= i < s.len() - 1 ==> s.drop_last()[i] == s[i]);
        lemma_spec_get_none(s.drop_last(), g, id);
    }
}

/// With unique identifiers, a matching entry pins the lookup result.
proof fn lemma_spec_get_found<T>(s: Seq<Record<T>>, g: u64, id: u64, i: int)
    requires
        ids_increasing(s),
        0 <= i < s.len(),
        s[i].id == id,
        s[i].owner == g,
    ensures
        spec_get(s, g, id) == Some(s[i].body),
    decreases s.len(),
{
    if i == s.len() - 1 {
    } else {
        assert(s[i].id < s.last().id);
        assert(ids_increasing(s.drop_last())) by {
            assert(forall|j: int| 0 <= j < s.len() - 1 ==> s.drop_last()[j] == s[j]);
        }
        assert(s.drop_last()[i] == s[i]);
        lemma_spec_get_found(s.drop_last(), g, id, i);
    }
}

proof fn lemma_without_id_absent<T>(s: Seq<Record<T>>, id: u64)
    requires
        forall|j: int| 0 <= j < s.len() ==> (#[trigger] s[j]).id != id,
    ensures
        without_id(s, id) =~= s,
    decreases s.len(),
{
    if s.len() > 0 {
        assert(forall|j: int| 0 <= j < s.len() - 1 ==> s.drop_last()[j] == s[j]);
        lemma_without_id_absent(s.drop_last(), id);
    }
}

/// With a unique match at `i`, removal by id is removal at `i`.
proof fn lemma_without_id_remove<T>(s: Seq<Record<T>>, id: u64, i: int)
    requires
        0 <= i < s.len(),
        s[i].id == id,
        forall|j: int| 0 <= j < s.len() && j != i ==> (#[trigger] s[j]).id != id,
    ensures
        without_id(s, id) =~= s.remove(i),
    decreases s.len(),
{
    if i == s.len() - 1 {
        assert(forall|j: int| 0 <= j < s.len() - 1 ==> s.drop_last()[j] == s[j]);
        lemma_without_id_absent(s.drop_last(), id);
        assert(s.remove(i) =~= s.drop_last());
    } else {
        let t = s.drop_last();
        assert(forall|j: int| 0 <= j < t.len() ==> t[j] == s[j]);
        lemma_without_id_remove(t, id, i);
        assert(s.remove(i) =~= t.remove(i).push(s.last()));
    }
}

/// The ghost model of a repository: both pools and the next identifier
/// the store will assign.
pub struct RepoModel<T> {
    pub curated: Seq<CuratedItem<T>>,
    pub custom: Seq<Record<T>>,
    pub next_id: u64,
}

/// A content repository: the shared curated pool and the per-community
/// custom pool.
pub struct ContentRepository<T> {
    curated: Vec<CuratedItem<T>>,
    custom: Vec<Record<T>>,
    next_id: u64,
}

impl<T> View for ContentRepository<T> {
    type V = RepoModel<T>;

    closed spec fn view(&self) -> RepoModel<T> {
        RepoModel { curated: self.curated@, custom: self.custom@, next_id: self.next_id }
    }
}

/// Custom entries carry unique, insertion-ordered identifiers, all
/// below the next one to be assigned.
pub open spec fn repo_wf<T>(m: RepoModel<T>) -> bool {
    &&& ids_increasing(m.custom)
    &&& ids_below(m.custom, m.next_id)
    &&& m.next_id >= 1
}

impl<T> ContentRepository<T> {
    /// The repository's invariant, over its model.
    pub open spec fn wf(self) -> bool {
        repo_wf(self@)
    }

    /// A repository over a given curated pool, with no custom entries
    /// yet; the store assigns custom identifiers from 1 upwards.
    pub fn new(curated: Vec<CuratedItem<T>>) -> (r: Self)
        ensures
            r.wf(),
            r@.curated == curated@,
            r@.custom =~= Seq::<Record<T>>::empty(),
            r@.next_id == 1,
    {
        ContentRepository { curated, custom: Vec::new(), next_id: 1 }
    }

    /// Selects among the active curated entries, the choice driven by
    /// the given entropy; fails exactly when none is eligible.
    pub fn random_curated(&self, entropy: u64) -> (r: Result<&T, EmptyPoolError>)
        ensures
            r is Ok <==> actives(self@.curated).len() > 0,
            r matches Ok(b) ==> *b == actives(self@.curated)[entropy as int % actives(
                self@.curated,
            ).len() as int].body,
    {
        let len = self.curated.len();
        let mut picks: Vec<&CuratedItem<T>> = Vec::new();
        let mut i: usize = 0;
        proof {
            assert(self@.curated.take(0) =~= Seq::<CuratedItem<T>>::empty());
        }
        while i < len
            invariant
                0 <= i <= len,
                len == self@.curated.len(),
                picks@.len() == actives(self@.curated.take(i as int)).len(),
                forall|k: int|
                    0 <= k < picks@.len() ==> *(#[trigger] picks@[k]) == actives(
                        self@.curated.take(i as int),
                    )[k],
            decreases len - i,
        {
            proof {
                assert(self@.curated.take(i + 1).drop_last() =~= self@.curated.take(i as int));
                assert(self@.curated.take(i + 1).last() == self@.curated[i as int]);
            }
            let item = &self.curated[i];
            if item.active {
                picks.push(item);
            }
            i = i + 1;
        }
        proof {
            assert(self@.curated.take(len as int) =~= self@.curated);
        }
        if picks.len() == 0 {
            return Err(EmptyPoolError);
        }
        let j = (entropy % (picks.len() as u64)) as usize;
        Ok(&picks[j].body)
    }

    /// How many custom entries `g` owns.
    pub fn count_custom(&self, g: u64) -> (r: usize)
        ensures
            r == owned_by(self@.custom, g).len(),
    {
        let len = self.custom.len();
        let mut n: usize = 0;
        let mut i: usize = 0;
        proof {
            assert(self@.custom.take(0) =~= Seq::<Record<T>>::empty());
        }
        while i < len
            invariant
                0 <= i <= len,
                len == self@.custom.len(),
                n == owned_by(self@.custom.take(i as int), g).len(),
                n <= i,
            decreases len - i,
        {
            proof {
                assert(self@.custom.take(i + 1).drop_last() =~= self@.custom.take(i as int));
                assert(self@.custom.take(i + 1).last() == self@.custom[i as int]);
            }
            if self.custom[i].owner == g {
                n = n + 1;
            }
            i = i + 1;
        }
        proof {
            assert(self@.custom.take(len as int) =~= self@.custom);
        }
        n
    }

    /// Accepts a submission unless the owner's pool is at capacity.
    /// On success the new entry is appended with the next identifier.
    pub fn submit_custom(&mut self, g: u64, body: T) -> (r: Result<u64, CapacityExceeded>)
        requires
            old(self).wf(),
            old(self)@.next_id < u64::MAX,
        ensures
            final(self).wf(),
            final(self)@.curated == old(self)@.curated,
            owned_by(old(self)@.custom, g).len() < CUSTOM_CAPACITY ==> (r matches Ok(id) && id
                == old(self)@.next_id && final(self)@.custom == old(self)@.custom.push(
                (Record { id: old(self)@.next_id, owner: g, body: body }),
            ) && final(self)@.next_id == old(self)@.next_id + 1),
            owned_by(old(self)@.custom, g).len() >= CUSTOM_CAPACITY ==> (r is Err && final(self)@
                == old(self)@),
    {
        let n = self.count_custom(g);
        if n >= CUSTOM_CAPACITY {
            return Err(CapacityExceeded);
        }
        let id = self.next_id;
        let rec = Record { id, owner: g, body };
        proof {
            assert(self@.custom.push(rec).drop_last() =~= self@.custom);
        }
        self.custom.push(rec);
        self.next_id = id + 1;
        Ok(id)
    }

    /// The body stored under `id`, only if `g` owns it; an absent id
    /// and a foreign id are indistinguishable.
    pub fn get_custom_by_id(&self, g: u64, id: u64) -> (r: Option<&T>)
        ensures
            r is Some <==> spec_get(self@.custom, g, id) is Some,
            r matches Some(b) ==> spec_get(self@.custom, g, id) == Some(*b),
    {
        let mut i: usize = self.custom.len();
        proof {
            assert(self@.custom.take(i as int) =~= self@.custom);
        }
        while i > 0
            invariant
                0 <= i <= self@.custom.len(),
                spec_get(self@.custom, g, id) == spec_get(self@.custom.take(i as int), g, id),
            decreases i,
        {
            proof {
                assert(self@.custom.take(i as int).last() == self@.custom[i - 1]);
                assert(self@.custom.take(i as int).drop_last() =~= self@.custom.take(i - 1));
            }
            let rec = &self.custom[i - 1];
            if rec.id == id && rec.owner == g {
                return Some(&rec.body);
            }
            i = i - 1;
        }
        None
    }

    /// Selects among `g`'s own entries, the choice driven by the given
    /// entropy; `None` exactly when `g` has no entries -- never a
    /// fabricated item.
    pub fn random_custom(&self, g: u64, entropy: u64) -> (r: Option<&T>)
        ensures
            r is None <==> owned_by(self@.custom, g).len() == 0,
            r matches Some(b) ==> *b == owned_by(self@.custom, g)[entropy as int % owned_by(
                self@.custom,
                g,
            ).len() as int].body,
    {
        let len = self.custom.len();
        let mut picks: Vec<&Record<T>> = Vec::new();
        let mut i: usize = 0;
        proof {
            assert(self@.custom.take(0) =~= Seq::<Record<T>>::empty());
        }
        while i < len
            invariant
                0 <= i <= len,
                len == self@.custom.len(),
                picks@.len() == owned_by(self@.custom.take(i as int), g).len(),
                forall|k: int|
                    0 <= k < picks@.len() ==> *(#[trigger] picks@[k]) == owned_by(
                        self@.custom.take(i as int),
                        g,
                    )[k],
            decreases len - i,
        {
            proof {
                assert(self@.custom.take(i + 1).drop_last() =~= self@.custom.take(i as int));
                assert(self@.custom.take(i + 1).last() == self@.custom[i as int]);
            }
            let rec = &self.custom[i];
            if rec.owner == g {
                picks.push(rec);
            }
            i = i + 1;
        }
        proof {
            assert(self@.custom.take(len as int) =~= self@.custom);
        }
        if picks.len() == 0 {
            return None;
        }
        let j = (entropy % (picks.len() as u64)) as usize;
        Some(&picks[j].body)
    }

    /// `g`'s entries as `(id, body)` pairs, in stored order; for a
    /// well-formed repository that order is strictly ascending by id.
    pub fn list_custom(&self, g: u64) -> (r: Vec<(u64, &T)>)
        ensures
            r@.len() == owned_by(self@.custom, g).len(),
            forall|k: int|
                0 <= k < r@.len() ==> (#[trigger] r@[k]).0 == owned_by(self@.custom, g)[k].id && *(
                r@[k].1) == owned_by(self@.custom, g)[k].body,
            self.wf() ==> forall|k1: int, k2: int|
                0 <= k1 < k2 < r@.len() ==> (#[trigger] r@[k1]).0 < (#[trigger] r@[k2]).0,
    {
        let len = self.custom.len();
        let mut out: Vec<(u64, &T)> = Vec::new();
        let mut i: usize = 0;
        proof {
            assert(self@.custom.take(0) =~= Seq::<Record<T>>::empty());
        }
        while i < len
            invariant
                0 <= i <= len,
                len == self@.custom.len(),
                out@.len() == owned_by(self@.custom.take(i as int), g).len(),
                forall|k: int|
                    0 <= k < out@.len() ==> (#[trigger] out@[k]).0 == owned_by(
                        self@.custom.take(i as int),
                        g,
                    )[k].id && *(out@[k].1) == owned_by(self@.custom.take(i as int), g)[k].body,
            decreases len - i,
        {
            proof {
                assert(self@.custom.take(i + 1).drop_last() =~= self@.custom.take(i as int));
                assert(self@.custom.take(i + 1).last() == self@.custom[i as int]);
            }
            let rec = &self.custom[i];
            if rec.owner == g {
                out.push((rec.id, &rec.body));
            }
            i = i + 1;
        }
        proof {
            assert(self@.custom.take(len as int) =~= self@.custom);
            if self.wf() {
                lemma_owned_by_increasing(self@.custom, g);
            }
        }
        out
    }

    /// Deletes `id` only if `g` owns it; reports `NotFoundOrNotOwned`
    /// both for an absent id and for a foreign one, leaving the pool
    /// untouched in either case.
    pub fn delete_custom(&mut self, g: u64, id: u64) -> (r: DeletionOutcome)
        requires
            old(self).wf(),
        ensures
            final(self).wf(),
            r == DeletionOutcome::Deleted <==> has_record(old(self)@.custom, g, id),
            r == DeletionOutcome::Deleted ==> final(self)@.custom == without_id(
                old(self)@.custom,
                id,
            ) && final(self)@.curated == old(self)@.curated && final(self)@.next_id == old(
                self,
            )@.next_id,
            r == DeletionOutcome::NotFoundOrNotOwned ==> final(self)@ == old(self)@,
    {
        let len = self.custom.len();
        let mut i: usize = 0;
        while i < len
            invariant
                0 <= i <= len,
                len == self@.custom.len(),
                old(self)@ == self@,
                old(self).wf(),
                forall|j: int|
                    0 <= j < i ==> !((#[trigger] self@.custom[j]).id == id && self@.custom[j].owner
                        == g),
            decreases len - i,
        {
            let rec = &self.custom[i];
            if rec.id == id {
                if rec.owner == g {
                    proof {
                        assert forall|j: int|
                            0 <= j < self@.custom.len() && j != i implies (
                        #[trigger] self@.custom[j]).id != id by {
                            assert(ids_increasing(self@.custom));
                        }
                        lemma_without_id_remove(self@.custom, id, i as int);
                        assert(has_record(self@.custom, g, id)) by {
                            assert(self@.custom[i as int].id == id);
                        }
                        assert forall|j1: int, j2: int|
                            0 <= j1 < j2 < self@.custom.remove(i as int).len() implies (
                        #[trigger] self@.custom.remove(i as int)[j1]).id < (
                        #[trigger] self@.custom.remove(i as int)[j2]).id by {
                            assert(self@.custom.remove(i as int) =~= self@.custom.subrange(
                                0,
                                i as int,
                            ) + self@.custom.subrange(i + 1, self@.custom.len() as int));
                        }
                        assert forall|j: int|
                            0 <= j < self@.custom.remove(i as int).len() implies (
                        #[trigger] self@.custom.remove(i as int)[j]).id < self@.next_id by {
                            assert(self@.custom.remove(i as int) =~= self@.custom.subrange(
                                0,
                                i as int,
                            ) + self@.custom.subrange(i + 1, self@.custom.len() as int));
                        }
                    }
                    self.custom.remove(i);
                    return DeletionOutcome::Deleted;
                } else {
                    proof {
                        assert forall|j: int|
                            0 <= j < self@.custom.len() && (#[trigger] self@.custom[j]).id == id
                                implies self@.custom[j].owner != g by {
                            assert(ids_increasing(self@.custom));
                            if j != i {
                                assert(self@.custom[j].id != self@.custom[i as int].id);
                            }
                        }
                    }
                    return DeletionOutcome::NotFoundOrNotOwned;
                }
            }
            i = i + 1;
        }
        DeletionOutcome::NotFoundOrNotOwned
    }
}

/// Ownership isolation: an entry submitted by one community is
/// invisible to every other community -- a lookup by its id yields
/// nothing, a delete request matches no record, and it never appears
/// among the other community's listed or randomly drawn entries.
pub proof fn lemma_ownership_isolation<T>(s: Seq<Record<T>>, a: u64, b: u64, id: u64)
    requires
        ids_increasing(s),
        a != b,
        has_record(s, a, id),
    ensures
        spec_get(s, b, id) is None,
        !has_record(s, b, id),
        forall|k: int| 0 <= k < owned_by(s, b).len() ==> (#[trigger] owned_by(s, b)[k]).id != id,
        forall|k: int| 0 <= k < owned_by(s, b).len() ==> (#[trigger] owned_by(s, b)[k]).owner == b,
{
    assert forall|k: int| 0 <= k < owned_by(s, b).len() implies (#[trigger] owned_by(s, b)[k]).owner
        == b by {
        lemma_owned_by_index(s, b, k);
    }
    let i = choose|i: int| 0 <= i < s.len() && (#[trigger] s[i]).id == id && s[i].owner == a;
    assert forall|j: int| 0 <= j < s.len() && (#[trigger] s[j]).id == id implies j == i by {
        if j < i {
            assert(s[j].id < s[i].id);
        } else if j > i {
            assert(s[i].id < s[j].id);
        }
    }
    assert(!has_record(s, b, id));
    lemma_spec_get_none(s, b, id);
    assert forall|k: int| 0 <= k < owned_by(s, b).len() implies (#[trigger] owned_by(s, b)[k]).id
        != id by {
        lemma_owned_by_index(s, b, k);
        let j = choose|j: int| 0 <= j < s.len() && s[j] == owned_by(s, b)[k];
        assert(owned_by(s, b)[k].owner == b);
        assert(j != i);
    }
}

/// Round trip: an entry accepted under the next identifier is
/// immediately retrievable by that identifier and is the submitted
/// item itself.
pub proof fn lemma_submit_round_trip<T>(s: Seq<Record<T>>, g: u64, body: T, next_id: u64)
    requires
        ids_below(s, next_id),
    ensures
        spec_get(s.push((Record { id: next_id, owner: g, body: body })), g, next_id) == Some(body),
{
}

/// Each accepted submission grows the owner's pool by exactly one
/// entry and every other community's pool by none.
pub proof fn lemma_submit_count<T>(s: Seq<Record<T>>, rec: Record<T>, h: u64)
    ensures
        owned_by(s.push(rec), h).len() == owned_by(s, h).len() + (if rec.owner == h {
            1int
        } else {
            0int
        }),
{
    lemma_owned_by_push(s, rec, h);
}

/// Deletion ownership: a delete request from `b` for an id owned by
/// `a` matches no record of `b`'s -- so the delete contract reports
/// `NotFoundOrNotOwned` and leaves the pool untouched -- while `a`'s
/// entry stays retrievable.
pub proof fn lemma_delete_foreign_harmless<T>(s: Seq<Record<T>>, a: u64, b: u64, id: u64, i: int)
    requires
        ids_increasing(s),
        a != b,
        0 <= i < s.len(),
        s[i].id == id,
        s[i].owner == a,
    ensures
        !has_record(s, b, id),
        spec_get(s, a, id) == Some(s[i].body),
{
    assert(has_record(s, a, id)) by {
        assert(s[i].id == id && s[i].owner == a);
    }
    lemma_ownership_isolation(s, a, b, id);
    lemma_spec_get_found(s, a, id, i);
}

} // verus!
