//! In-memory batching of activity credit (XP). Credit events merge into a
//! pending entry per (guild, user); a periodic flush swaps the batch out,
//! adds each entry to the persisted total, recomputes the level from
//! scratch, and reports which users levelled up.

use vstd::prelude::*;
use crate::clock::now_timestamp;
use crate::levels::{compute_level, level_of};

verus! {

/// Credit accumulated for one (guild, user) since the last flush.
#[derive(Debug, Clone, Copy, PartialEq, Eq, Structural)]
pub struct PendingXp {
    pub user_id: u64,
    pub guild_id: u64,
    pub channel_id: u64,
    pub xp_amount: i64,
    pub added_at: i64,
}

/// Whether an entry belongs to the given (guild, user) key.
pub open spec fn is_key(e: PendingXp, guild_id: u64, user_id: u64) -> bool {
    e.guild_id == guild_id && e.user_id == user_id
}

/// Whether the batch holds an entry for the key.
pub open spec fn has_pending(s: Seq<PendingXp>, guild_id: u64, user_id: u64) -> bool {
    exists|i: int| 0 <= i < s.len() && is_key(s[i], guild_id, user_id)
}

/// The position of the key's entry (meaningful when `has_pending` holds and
/// keys are unique).
pub open spec fn pending_index(s: Seq<PendingXp>, guild_id: u64, user_id: u64) -> int {
    choose|i: int| 0 <= i < s.len() && is_key(s[i], guild_id, user_id)
}

/// The key's entry (meaningful when `has_pending` holds and keys are unique).
pub open spec fn pending_entry(s: Seq<PendingXp>, guild_id: u64, user_id: u64) -> PendingXp {
    s[pending_index(s, guild_id, user_id)]
}

/// No two entries share a (guild, user) key.
pub open spec fn unique_keys(s: Seq<PendingXp>) -> bool {
    forall|i: int, j: int|
        #![trigger s[i], s[j]]
        0 <= i < s.len() && 0 <= j < s.len() && i != j ==> !(s[i].guild_id == s[j].guild_id
            && s[i].user_id == s[j].user_id)
}

/// With unique keys, the entry at any matching position is the key's entry.
proof fn lemma_pending_index_is(s: Seq<PendingXp>, i: int)
    requires
        unique_keys(s),
        0 <= i < s.len(),
    ensures
        has_pending(s, s[i].guild_id, s[i].user_id),
        pending_index(s, s[i].guild_id, s[i].user_id) == i,
{
    let g = s[i].guild_id;
    let u = s[i].user_id;
    assert(is_key(s[i], g, u));
    assert(has_pending(s, g, u));
    let j = pending_index(s, g, u);
    assert(0 <= j < s.len() && is_key(s[j], g, u));
}

/// The in-memory pending-XP batch.
pub struct XpAggregator {
    pending: Vec<PendingXp>,
}

impl XpAggregator {
    /// The batch's contents, in arrival order of their first credit.
    pub closed spec fn entries(&self) -> Seq<PendingXp> {
        self.pending@
    }

    /// Keys are unique and accumulated amounts never negative.
    pub open spec fn wf(&self) -> bool {
        &&& unique_keys(self.entries())
        &&& forall|i: int|
            0 <= i < self.entries().len() ==> #[trigger] self.entries()[i].xp_amount >= 0
    }

    /// The credit pending for a key; zero when absent.
    pub open spec fn amount_of(&self, guild_id: u64, user_id: u64) -> int {
        if has_pending(self.entries(), guild_id, user_id) {
            pending_entry(self.entries(), guild_id, user_id).xp_amount as int
        } else {
            0
        }
    }

    /// An empty batch.
    pub fn new() -> (a: XpAggregator)
        ensures
            a.wf(),
            a.entries() == Seq::<PendingXp>::empty(),
    {
        XpAggregator { pending: Vec::new() }
    }

    /// Where the key's entry sits, if anywhere.
    fn find_entry(&self, guild_id: u64, user_id: u64) -> (r: Option<usize>)
        requires
            self.wf(),
        ensures
            match r {
                Some(i) => i < self.entries().len() && is_key(self.entries()[i as int], guild_id, user_id)
                    && has_pending(self.entries(), guild_id, user_id)
                    && pending_index(self.entries(), guild_id, user_id) == i,
                None => !has_pending(self.entries(), guild_id, user_id),
            },
    {
        let n = self.pending.len();
        let mut i: usize = 0;
        while i < n
            invariant
                self.wf(),
                n == self.entries().len(),
                i <= n,
                forall|k: int| 0 <= k < i ==> !is_key(#[trigger] self.entries()[k], guild_id, user_id),
            decreases n - i,
        {
            if self.pending[i].guild_id == guild_id && self.pending[i].user_id == user_id {
                proof {
                    lemma_pending_index_is(self.entries(), i as int);
                }
                return Some(i);
            }
            i += 1;
        }
        proof {
            if has_pending(self.entries(), guild_id, user_id) {
                let k = pending_index(self.entries(), guild_id, user_id);
                assert(0 <= k < self.entries().len() && is_key(self.entries()[k], guild_id, user_id));
            }
        }
        None
    }

    /// The credit currently pending for a key; zero when absent.
    pub fn pending_amount(&self, guild_id: u64, user_id: u64) -> (amount: i64)
        requires
            self.wf(),
        ensures
            amount == self.amount_of(guild_id, user_id),
            amount >= 0,
    {
        match self.find_entry(guild_id, user_id) {
            Some(i) => self.pending[i].xp_amount,
            None => 0,
        }
    }

    /// Merge one credit event into the batch: the key's amount rises by
    /// `xp`, its last-seen channel becomes `channel_id`, its
    /// first-accumulation timestamp is preserved (or set now, on a fresh
    /// entry), and every other key is untouched.
    pub fn add_xp_to_batch(&mut self, user_id: u64, guild_id: u64, channel_id: u64, xp: i64)
        requires
            old(self).wf(),
            0 <= xp,
            old(self).amount_of(guild_id, user_id) + xp <= i64::MAX,
        ensures
            final(self).wf(),
            has_pending(final(self).entries(), guild_id, user_id),
            final(self).amount_of(guild_id, user_id) == old(self).amount_of(guild_id, user_id)
                + xp,
            pending_entry(final(self).entries(), guild_id, user_id).channel_id == channel_id,
            pending_entry(final(self).entries(), guild_id, user_id).guild_id == guild_id,
            pending_entry(final(self).entries(), guild_id, user_id).user_id == user_id,
            has_pending(old(self).entries(), guild_id, user_id) ==> final(self).entries().len()
                == old(self).entries().len() && pending_entry(
                final(self).entries(),
                guild_id,
                user_id,
            ).added_at == pending_entry(old(self).entries(), guild_id, user_id).added_at,
            !has_pending(old(self).entries(), guild_id, user_id) ==> final(self).entries().len()
                == old(self).entries().len() + 1,
            forall|g2: u64, u2: u64|
                !(g2 == guild_id && u2 == user_id) ==> #[trigger] has_pending(
                    final(self).entries(),
                    g2,
                    u2,
                ) == has_pending(old(self).entries(), g2, u2) && (has_pending(
                    old(self).entries(),
                    g2,
                    u2,
                ) ==> pending_entry(final(self).entries(), g2, u2) == pending_entry(
                    old(self).entries(),
                    g2,
                    u2,
                )),
    {
        let ghost s0 = self.entries();
        match self.find_entry(guild_id, user_id) {
            Some(i) => {
                proof {
                    lemma_pending_index_is(s0, i as int);
                }
                let e = &mut self.pending[i];
                e.xp_amount = e.xp_amount + xp;
                e.channel_id = channel_id;
                proof {
                    let s1 = self.entries();
                    assert(s1 == s0.update(i as int, s1[i as int]));
                    assert(unique_keys(s1)) by {
                        assert(forall|k: int|
                            0 <= k < s1.len() && k != i ==> #[trigger] s1[k] == s0[k]);
                    }
                    lemma_pending_index_is(s1, i as int);
                    lemma_other_keys_same(s0, s1, guild_id, user_id);
                }
            },
            None => {
                let entry = PendingXp {
                    user_id,
                    guild_id,
                    channel_id,
                    xp_amount: xp,
                    added_at: now_timestamp(),
                };
                self.pending.push(entry);
                proof {
                    let s1 = self.entries();
                    assert(s1 == s0.push(entry));
                    assert(unique_keys(s1)) by {
                        assert(forall|k: int|
                            0 <= k < s0.len() ==> #[trigger] s1[k] == s0[k]);
                        if has_pending(s0, guild_id, user_id) {
                            let k = pending_index(s0, guild_id, user_id);
                            assert(is_key(s0[k], guild_id, user_id));
                        }
                    }
                    lemma_pending_index_is(s1, s0.len() as int);
                    lemma_other_keys_same(s0, s1, guild_id, user_id);
                }
            },
        }
    }

    /// Merge a randomized message credit (between 15 and 25 inclusive) into
    /// the batch for the message's author.
    pub fn add_message_xp(&mut self, user_id: u64, guild_id: u64, channel_id: u64)
        requires
            old(self).wf(),
            old(self).amount_of(guild_id, user_id) + 25 <= i64::MAX,
        ensures
            final(self).wf(),
            has_pending(final(self).entries(), guild_id, user_id),
            15 <= final(self).amount_of(guild_id, user_id) - old(self).amount_of(
                guild_id,
                user_id,
            ) <= 25,
            pending_entry(final(self).entries(), guild_id, user_id).channel_id == channel_id,
            forall|g2: u64, u2: u64|
                !(g2 == guild_id && u2 == user_id) ==> #[trigger] has_pending(
                    final(self).entries(),
                    g2,
                    u2,
                ) == has_pending(old(self).entries(), g2, u2) && (has_pending(
                    old(self).entries(),
                    g2,
                    u2,
                ) ==> pending_entry(final(self).entries(), g2, u2) == pending_entry(
                    old(self).entries(),
                    g2,
                    u2,
                )),
    {
        let gain = random_xp_gain();
        self.add_xp_to_batch(user_id, guild_id, channel_id, gain);
    }

    /// Atomically swap the whole batch out for an empty one, returning the
    /// extracted entries for processing.
    pub fn take_pending(&mut self) -> (batch: Vec<PendingXp>)
        requires
            old(self).wf(),
        ensures
            final(self).wf(),
            final(self).entries() == Seq::<PendingXp>::empty(),
            batch@ == old(self).entries(),
            unique_keys(batch@),
            forall|i: int| 0 <= i < batch@.len() ==> #[trigger] batch@[i].xp_amount >= 0,
    {
        let batch = self.pending.split_off(0);
        proof {
            assert(batch@ == old(self).entries());
            assert(self.entries() =~= Seq::<PendingXp>::empty());
        }
        batch
    }
}

/// Keys other than the one at the changed or appended position keep their
/// presence and their entry.
proof fn lemma_other_keys_same(s0: Seq<PendingXp>, s1: Seq<PendingXp>, guild_id: u64, user_id: u64)
    requires
        unique_keys(s0),
        unique_keys(s1),
        s0.len() <= s1.len() <= s0.len() + 1,
        forall|k: int| 0 <= k < s0.len() && !is_key(#[trigger] s0[k], guild_id, user_id) ==> s1[k]
            == s0[k],
        forall|k: int|
            0 <= k < s1.len() && !is_key(#[trigger] s1[k], guild_id, user_id) ==> k < s0.len()
                && s0[k] == s1[k],
    ensures
        forall|g2: u64, u2: u64|
            !(g2 == guild_id && u2 == user_id) ==> #[trigger] has_pending(s1, g2, u2)
                == has_pending(s0, g2, u2) && (has_pending(s0, g2, u2) ==> pending_entry(
                s1,
                g2,
                u2,
            ) == pending_entry(s0, g2, u2)),
{
    assert forall|g2: u64, u2: u64| !(g2 == guild_id && u2 == user_id) implies #[trigger]
        has_pending(s1, g2, u2) == has_pending(s0, g2, u2) && (has_pending(s0, g2, u2)
        ==> pending_entry(s1, g2, u2) == pending_entry(s0, g2, u2)) by {
        if has_pending(s0, g2, u2) {
            let k = pending_index(s0, g2, u2);
            assert(0 <= k < s0.len() && is_key(s0[k], g2, u2));
            assert(!is_key(s0[k], guild_id, user_id));
            assert(s1[k] == s0[k]);
            assert(has_pending(s1, g2, u2));
            lemma_pending_index_is(s0, k);
            lemma_pending_index_is(s1, k);
        }
        if has_pending(s1, g2, u2) {
            let k = pending_index(s1, g2, u2);
            assert(0 <= k < s1.len() && is_key(s1[k], g2, u2));
            assert(!is_key(s1[k], guild_id, user_id));
            assert(s0[k] == s1[k]);
            assert(has_pending(s0, g2, u2));
        }
    }
}

/// Relies on `rand::Rng::gen_range` over `rand::thread_rng`: a value drawn
/// from the range `15..26`, so between 15 and 25 inclusive.
#[verifier::external_body]
fn random_xp_gain() -> (amount: i64)
    ensures
        15 <= amount <= 25,
{
    rand::Rng::gen_range(&mut rand::thread_rng(), 15..26)
}

/// One persisted-store write the flush asks for: the new cumulative XP and
/// the level recomputed from it.
#[derive(Debug, Clone, Copy, PartialEq, Eq, Structural)]
pub struct XpWrite {
    pub guild_id: u64,
    pub user_id: u64,
    pub new_xp: i64,
    pub new_level: i64,
}

/// A level-up announcement the flush asks for, addressed to the entry's
/// last-seen channel.
#[derive(Debug, Clone, Copy, PartialEq, Eq, Structural)]
pub struct LevelUpNotice {
    pub user_id: u64,
    pub guild_id: u64,
    pub channel_id: u64,
    pub new_level: i64,
    pub new_xp: i64,
}

/// Add one extracted entry to its persisted total: the new XP is the sum,
/// the new level is recomputed from scratch, and a notice is due exactly
/// when the level rose.
pub fn apply_credit(entry: &PendingXp, current_xp: i64, current_level: i64) -> (r: (
    XpWrite,
    Option<LevelUpNotice>,
))
    requires
        0 <= current_xp,
        0 <= entry.xp_amount,
        current_xp + entry.xp_amount <= i64::MAX,
    ensures
        r.0.guild_id == entry.guild_id,
        r.0.user_id == entry.user_id,
        r.0.new_xp == current_xp + entry.xp_amount,
        r.0.new_level == level_of(current_xp + entry.xp_amount),
        r.1 is Some <==> r.0.new_level > current_level,
        r.1 matches Some(n) ==> n == (LevelUpNotice {
            user_id: entry.user_id,
            guild_id: entry.guild_id,
            channel_id: entry.channel_id,
            new_level: r.0.new_level,
            new_xp: r.0.new_xp,
        }),
{
    let new_xp = current_xp + entry.xp_amount;
    let new_level = compute_level(new_xp);
    let write = XpWrite { guild_id: entry.guild_id, user_id: entry.user_id, new_xp, new_level };
    let notice = if new_level > current_level {
        Some(
            LevelUpNotice {
                user_id: entry.user_id,
                guild_id: entry.guild_id,
                channel_id: entry.channel_id,
                new_level,
                new_xp,
            },
        )
    } else {
        None
    };
    (write, notice)
}

/// The writes a flush of `entries` performs, given the persisted (xp, level)
/// snapshot `current`, entry by entry.
pub open spec fn spec_flush_writes(entries: Seq<PendingXp>, current: Seq<(i64, i64)>) -> Seq<
    XpWrite,
>
    decreases entries.len(),
{
    if entries.len() == 0 {
        Seq::empty()
    } else {
        let i = entries.len() - 1;
        spec_flush_writes(entries.drop_last(), current.drop_last()).push(
            XpWrite {
                guild_id: entries[i].guild_id,
                user_id: entries[i].user_id,
                new_xp: (current[i].0 + entries[i].xp_amount) as i64,
                new_level: level_of(current[i].0 + entries[i].xp_amount) as i64,
            },
        )
    }
}

/// The level-up notices a flush of `entries` emits, given the persisted
/// (xp, level) snapshot `current`: one per entry whose level rose.
pub open spec fn spec_flush_notices(entries: Seq<PendingXp>, current: Seq<(i64, i64)>) -> Seq<
    LevelUpNotice,
>
    decreases entries.len(),
{
    if entries.len() == 0 {
        Seq::empty()
    } else {
        let i = entries.len() - 1;
        let rest = spec_flush_notices(entries.drop_last(), current.drop_last());
        if level_of(current[i].0 + entries[i].xp_amount) > current[i].1 {
            rest.push(
                LevelUpNotice {
                    user_id: entries[i].user_id,
                    guild_id: entries[i].guild_id,
                    channel_id: entries[i].channel_id,
                    new_level: level_of(current[i].0 + entries[i].xp_amount) as i64,
                    new_xp: (current[i].0 + entries[i].xp_amount) as i64,
                },
            )
        } else {
            rest
        }
    }
}

/// Plan a whole flush: one store write per extracted entry, and the level-up
/// notices among them. An empty batch plans no writes and no notices.
pub fn plan_flush(entries: &Vec<PendingXp>, current: &Vec<(i64, i64)>) -> (r: (
    Vec<XpWrite>,
    Vec<LevelUpNotice>,
))
    requires
        entries@.len() == current@.len(),
        forall|i: int| 0 <= i < entries@.len() ==> #[trigger] entries@[i].xp_amount >= 0,
        forall|i: int|
            0 <= i < current@.len() ==> 0 <= #[trigger] current@[i].0 && current@[i].0
                + entries@[i].xp_amount <= i64::MAX,
    ensures
        r.0@ == spec_flush_writes(entries@, current@),
        r.1@ == spec_flush_notices(entries@, current@),
        r.0@.len() == entries@.len(),
        entries@.len() == 0 ==> r.0@.len() == 0 && r.1@.len() == 0,
{
    let mut writes: Vec<XpWrite> = Vec::new();
    let mut notices: Vec<LevelUpNotice> = Vec::new();
    let n = entries.len();
    let mut i: usize = 0;
    proof {
        assert(entries@.subrange(0, 0) =~= Seq::<PendingXp>::empty());
        assert(current@.subrange(0, 0) =~= Seq::<(i64, i64)>::empty());
    }
    while i < n
        invariant
            i <= n,
            n == entries@.len(),
            entries@.len() == current@.len(),
            forall|k: int| 0 <= k < entries@.len() ==> #[trigger] entries@[k].xp_amount >= 0,
            forall|k: int|
                0 <= k < current@.len() ==> 0 <= #[trigger] current@[k].0 && current@[k].0
                    + entries@[k].xp_amount <= i64::MAX,
            writes@ == spec_flush_writes(
                entries@.subrange(0, i as int),
                current@.subrange(0, i as int),
            ),
            notices@ == spec_flush_notices(
                entries@.subrange(0, i as int),
                current@.subrange(0, i as int),
            ),
            writes@.len() == i,
        decreases n - i,
    {
        let entry = entries[i];
        let (current_xp, current_level) = current[i];
        let (write, notice) = apply_credit(&entry, current_xp, current_level);
        writes.push(write);
        if let Some(notice) = notice {
            notices.push(notice);
        }
        proof {
            let pre = entries@.subrange(0, i as int);
            let post = entries@.subrange(0, i + 1);
            let cpre = current@.subrange(0, i as int);
            let cpost = current@.subrange(0, i + 1);
            assert(post.drop_last() =~= pre);
            assert(cpost.drop_last() =~= cpre);
            assert(post[post.len() - 1] == entries@[i as int]);
            assert(cpost[cpost.len() - 1] == current@[i as int]);
        }
        i += 1;
    }
    proof {
        assert(entries@.subrange(0, n as int) =~= entries@);
        assert(current@.subrange(0, n as int) =~= current@);
    }
    (writes, notices)
}

} // verus!
