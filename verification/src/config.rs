//! Per-community configuration: the delivery channel and the mention
//! policy. One record per community; setting a value upserts the
//! record in place, and reads of an absent record fall back to the
//! unset defaults.

use vstd::prelude::*;
use vstd::pervasive::VecAdditionalExecFns;

verus! {

/// Which mention is prefixed to delivered content.
#[derive(Clone, Copy, Debug, PartialEq, Eq, Structural)]
pub enum MentionPolicy {
    /// No mention at all.
    NoPing,
    /// Mention everyone.
    Everyone,
    /// Mention one role, by its identifier.
    Role(u64),
}

/// One community's stored settings.
#[derive(Clone, Copy, Debug)]
pub struct ConfigRow {
    pub community: u64,
    pub channel: Option<u64>,
    pub policy: MentionPolicy,
}

/// Failure of the persistence backend. The in-memory store never
/// fails; an adapter that forwards these operations to a remote store
/// reports its failures with this type.
#[derive(Clone, Copy, Debug, PartialEq, Eq, Structural)]
pub enum StoreError {
    Backend,
}

/// At most one row per community.
pub open spec fn unique_communities(s: Seq<ConfigRow>) -> bool {
    forall|i: int, j: int|
        0 <= i < j < s.len() ==> (#[trigger] s[i]).community != (#[trigger] s[j]).community
}

/// The row holding `g`'s settings; of duplicates, the last write wins.
pub open spec fn row_for(s: Seq<ConfigRow>, g: u64) -> Option<ConfigRow>
    decreases s.len(),
{
    if s.len() == 0 {
        None
    } else if s.last().community == g {
        Some(s.last())
    } else {
        row_for(s.drop_last(), g)
    }
}

/// The delivery channel configured for `g`, if any.
pub open spec fn spec_channel(s: Seq<ConfigRow>, g: u64) -> Option<u64> {
    match row_for(s, g) {
        Some(r) => r.channel,
        None => None,
    }
}

/// The mention policy configured for `g`; no ping when unset.
pub open spec fn spec_policy(s: Seq<ConfigRow>, g: u64) -> MentionPolicy {
    match row_for(s, g) {
        Some(r) => r.policy,
        None => MentionPolicy::NoPing,
    }
}

/// What a completed channel upsert promises: `g` now reads back `c`,
/// and nothing else is observably different.
pub open spec fn set_channel_post(pre: Seq<ConfigRow>, post: Seq<ConfigRow>, g: u64, c: u64) -> bool {
    &&& spec_channel(post, g) == Some(c)
    &&& forall|h: u64| h != g ==> spec_channel(post, h) == spec_channel(pre, h)
    &&& forall|h: u64| spec_policy(post, h) == spec_policy(pre, h)
}

/// What a completed policy upsert promises.
pub open spec fn set_policy_post(
    pre: Seq<ConfigRow>,
    post: Seq<ConfigRow>,
    g: u64,
    p: MentionPolicy,
) -> bool {
    &&& spec_policy(post, g) == p
    &&& forall|h: u64| h != g ==> spec_policy(post, h) == spec_policy(pre, h)
    &&& forall|h: u64| spec_channel(post, h) == spec_channel(pre, h)
}

proof fn lemma_row_for_absent(s: Seq<ConfigRow>, g: u64)
    requires
        forall|i: int| 0 <= i < s.len() ==> (#[trigger] s[i]).community != g,
    ensures
        row_for(s, g) is None,
    decreases s.len(),
{
    if s.len() > 0 {
        lemma_row_for_absent(s.drop_last(), g);
    }
}

proof fn lemma_row_for_unique(s: Seq<ConfigRow>, g: u64, i: int)
    requires
        unique_communities(s),
        0 <= i < s.len(),
        s[i].community == g,
    ensures
        row_for(s, g) == Some(s[i]),
    decreases s.len(),
{
    if i == s.len() - 1 {
    } else {
        assert(s.last().community != g);
        assert(s.drop_last()[i] == s[i]);
        lemma_row_for_unique(s.drop_last(), g, i);
    }
}

proof fn lemma_row_for_update(s: Seq<ConfigRow>, i: int, r2: ConfigRow, h: u64)
    requires
        unique_communities(s),
        0 <= i < s.len(),
        r2.community == s[i].community,
    ensures
        row_for(s.update(i, r2), h) == (if h == s[i].community {
            Some(r2)
        } else {
            row_for(s, h)
        }),
    decreases s.len(),
{
    let u = s.update(i, r2);
    if i == s.len() - 1 {
        assert(u.drop_last() =~= s.drop_last());
    } else {
        assert(u.last() == s.last());
        assert(u.drop_last() =~= s.drop_last().update(i, r2));
        assert(s.drop_last()[i] == s[i]);
        lemma_row_for_update(s.drop_last(), i, r2, h);
    }
}

/// The per-community configuration store.
pub struct ConfigStore {
    rows: Vec<ConfigRow>,
}

impl View for ConfigStore {
    type V = Seq<ConfigRow>;

    closed spec fn view(&self) -> Seq<ConfigRow> {
        self.rows@
    }
}

impl ConfigStore {
    /// One row per community.
    pub open spec fn wf(self) -> bool {
        unique_communities(self@)
    }

    /// An empty store: every community reads back the unset defaults.
    pub fn new() -> (r: Self)
        ensures
            r.wf(),
            r@.len() == 0,
    {
        ConfigStore { rows: Vec::new() }
    }

    /// Index of `g`'s row, if one exists.
    fn find_row(&self, g: u64) -> (r: Option<usize>)
        ensures
            r matches Some(i) ==> 0 <= i < self@.len() && self@[i as int].community == g,
            r is None ==> forall|i: int| 0 <= i < self@.len() ==> (#[trigger] self@[i]).community != g,
    {
        let mut i: usize = 0;
        let len = self.rows.len();
        while i < len
            invariant
                0 <= i <= len,
                len == self@.len(),
                forall|j: int| 0 <= j < i ==> (#[trigger] self@[j]).community != g,
            decreases len - i,
        {
            if self.rows[i].community == g {
                return Some(i);
            }
            i = i + 1;
        }
        None
    }

    /// Upserts the delivery channel for `g`. Idempotent: repeating the
    /// call changes nothing further.
    pub fn set_channel(&mut self, g: u64, c: u64) -> (r: Result<(), StoreError>)
        requires
            old(self).wf(),
        ensures
            final(self).wf(),
            r is Ok,
            set_channel_post(old(self)@, final(self)@, g, c),
    {
        match self.find_row(g) {
            Some(i) => {
                let row = self.rows[i];
                let updated = ConfigRow { community: row.community, channel: Some(c), policy: row.policy };
                proof {
                    lemma_row_for_unique(self@, g, i as int);
                    assert forall|h: u64|
                        row_for(self@.update(i as int, updated), h) == (if h == g {
                            Some(updated)
                        } else {
                            row_for(self@, h)
                        }) by {
                        lemma_row_for_update(self@, i as int, updated, h);
                    }
                }
                self.rows.set(i, updated);
            },
            None => {
                let added = ConfigRow { community: g, channel: Some(c), policy: MentionPolicy::NoPing };
                proof {
                    assert forall|h: u64| h != g implies row_for(self@.push(added), h) == row_for(
                        self@,
                        h,
                    ) by {
                        assert(self@.push(added).drop_last() =~= self@);
                    }
                    assert(self@.push(added).last() == added);
                    lemma_row_for_absent(self@, g);
                }
                self.rows.push(added);
            },
        }
        Ok(())
    }

    /// The delivery channel configured for `g`; `None` when unset.
    pub fn get_channel(&self, g: u64) -> (r: Option<u64>)
        ensures
            r == spec_channel(self@, g),
    {
        match self.lookup_row(g) {
            Some(row) => row.channel,
            None => None,
        }
    }

    /// Upserts the mention policy for `g`.
    pub fn set_mention_policy(&mut self, g: u64, p: MentionPolicy) -> (r: Result<(), StoreError>)
        requires
            old(self).wf(),
        ensures
            final(self).wf(),
            r is Ok,
            set_policy_post(old(self)@, final(self)@, g, p),
    {
        match self.find_row(g) {
            Some(i) => {
                let row = self.rows[i];
                let updated = ConfigRow { community: row.community, channel: row.channel, policy: p };
                proof {
                    lemma_row_for_unique(self@, g, i as int);
                    assert forall|h: u64|
                        row_for(self@.update(i as int, updated), h) == (if h == g {
                            Some(updated)
                        } else {
                            row_for(self@, h)
                        }) by {
                        lemma_row_for_update(self@, i as int, updated, h);
                    }
                }
                self.rows.set(i, updated);
            },
            None => {
                let added = ConfigRow { community: g, channel: None, policy: p };
                proof {
                    assert forall|h: u64| h != g implies row_for(self@.push(added), h) == row_for(
                        self@,
                        h,
                    ) by {
                        assert(self@.push(added).drop_last() =~= self@);
                    }
                    assert(self@.push(added).last() == added);
                    lemma_row_for_absent(self@, g);
                }
                self.rows.push(added);
            },
        }
        Ok(())
    }

    /// The mention policy configured for `g`; no ping when unset.
    pub fn get_mention_policy(&self, g: u64) -> (r: MentionPolicy)
        ensures
            r == spec_policy(self@, g),
    {
        match self.lookup_row(g) {
            Some(row) => row.policy,
            None => MentionPolicy::NoPing,
        }
    }

    /// The row the spec-level lookup denotes, scanning from the most
    /// recent write backwards.
    fn lookup_row(&self, g: u64) -> (r: Option<ConfigRow>)
        ensures
            r == row_for(self@, g),
    {
        let mut i: usize = self.rows.len();
        proof {
            assert(self@.take(i as int) =~= self@);
        }
        while i > 0
            invariant
                0 <= i <= self@.len(),
                row_for(self@, g) == row_for(self@.take(i as int), g),
            decreases i,
        {
            let row = self.rows[i - 1];
            proof {
                assert(self@.take(i as int).last() == self@[i - 1]);
                assert(self@.take(i as int).drop_last() =~= self@.take(i - 1));
            }
            if row.community == g {
                return Some(row);
            }
            i = i - 1;
        }
        None
    }
}

/// Upserting the same channel twice leaves every observable reading --
/// the channel and policy of every community -- exactly as one upsert
/// leaves them.
pub proof fn lemma_set_channel_idempotent(
    s0: Seq<ConfigRow>,
    s1: Seq<ConfigRow>,
    s2: Seq<ConfigRow>,
    t1: Seq<ConfigRow>,
    g: u64,
    c: u64,
)
    requires
        set_channel_post(s0, s1, g, c),
        set_channel_post(s1, s2, g, c),
        set_channel_post(s0, t1, g, c),
    ensures
        spec_channel(s2, g) == spec_channel(t1, g),
        forall|h: u64| spec_channel(s2, h) == spec_channel(t1, h),
        forall|h: u64| spec_policy(s2, h) == spec_policy(t1, h),
{
    assert forall|h: u64| spec_channel(s2, h) == spec_channel(t1, h) by {
        if h != g {
            assert(spec_channel(s2, h) == spec_channel(s1, h));
            assert(spec_channel(s1, h) == spec_channel(s0, h));
            assert(spec_channel(t1, h) == spec_channel(s0, h));
        }
    }
    assert forall|h: u64| spec_policy(s2, h) == spec_policy(t1, h) by {
        assert(spec_policy(s2, h) == spec_policy(s1, h));
        assert(spec_policy(s1, h) == spec_policy(s0, h));
        assert(spec_policy(t1, h) == spec_policy(s0, h));
    }
}

} // verus!
