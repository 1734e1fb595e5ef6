//! Per-user violation escalation: an ephemeral, process-lifetime warning
//! counter per user. A user absent from the ledger is clean; each violation
//! increments their count; reaching the configured ceiling removes the entry
//! and escalates to a ban instead of storing the terminal value.

use vstd::prelude::*;
use vstd::hash_map::HashMapWithView;

verus! {

broadcast use vstd::std_specs::hash::axiom_u64_obeys_hash_table_key_model;

/// The consequence of one recorded violation.
#[derive(Debug, Clone, Copy, PartialEq, Eq, Structural)]
pub enum Escalation {
    /// The user is warned and now stands at this many warnings.
    Warned(u32),
    /// The user used up all warnings and is to be banned.
    Banned,
}

/// One violation applied to a warning map: the count for `user` rises by
/// one; reaching `max` removes the entry and reports a ban.
pub open spec fn ledger_step(m: Map<u64, u32>, user: u64, max: u32) -> (Map<u64, u32>, bool) {
    let c: int = if m.contains_key(user) {
        m[user] as int
    } else {
        0
    };
    if c + 1 >= max {
        (m.remove(user), true)
    } else {
        (m.insert(user, (c + 1) as u32), false)
    }
}

/// The warning map after `k` successive violations by `user`.
pub open spec fn ledger_iter(m: Map<u64, u32>, user: u64, max: u32, k: nat) -> Map<u64, u32>
    decreases k,
{
    if k == 0 {
        m
    } else {
        ledger_step(ledger_iter(m, user, max, (k - 1) as nat), user, max).0
    }
}

/// How many of `k` successive violations by `user` end in a ban.
pub open spec fn bans_in(m: Map<u64, u32>, user: u64, max: u32, k: nat) -> nat
    decreases k,
{
    if k == 0 {
        0
    } else {
        bans_in(m, user, max, (k - 1) as nat) + if ledger_step(
            ledger_iter(m, user, max, (k - 1) as nat),
            user,
            max,
        ).1 {
            1nat
        } else {
            0nat
        }
    }
}

/// The in-memory warning ledger with its configured ceiling.
pub struct WarningLedger {
    counts: HashMapWithView<u64, u32>,
    max_warnings: u32,
}

impl WarningLedger {
    /// The current warning counts, keyed by user identifier.
    pub closed spec fn warnings(&self) -> Map<u64, u32> {
        self.counts@
    }

    /// The configured ceiling: reaching this many warnings bans.
    pub closed spec fn max(&self) -> u32 {
        self.max_warnings
    }

    /// Every stored count lies in `[1, max)`; a count of zero is
    /// represented by absence, the ceiling by removal.
    pub open spec fn wf(&self) -> bool {
        &&& self.max() >= 1
        &&& forall|u: u64|
            self.warnings().contains_key(u) ==> 1 <= #[trigger] self.warnings()[u] < self.max()
    }

    /// The count a user stands at; zero when absent.
    pub open spec fn count_of(&self, user: u64) -> int {
        if self.warnings().contains_key(user) {
            self.warnings()[user] as int
        } else {
            0
        }
    }

    /// An empty ledger with the given ceiling.
    pub fn new(max_warnings: u32) -> (ledger: Self)
        requires
            max_warnings >= 1,
        ensures
            ledger.wf(),
            ledger.warnings() == Map::<u64, u32>::empty(),
            ledger.max() == max_warnings,
    {
        WarningLedger { counts: HashMapWithView::new(), max_warnings }
    }

    /// The configured ceiling.
    pub fn max_warnings(&self) -> (m: u32)
        ensures
            m == self.max(),
    {
        self.max_warnings
    }

    /// The count a user currently stands at; zero when absent.
    pub fn current_warnings(&self, user: u64) -> (c: u32)
        ensures
            c == self.count_of(user),
    {
        match self.counts.get(&user) {
            Some(c) => *c,
            None => 0,
        }
    }

    /// Record one violation by `user`: the single atomic read-increment
    /// step of the escalation state machine.
    pub fn record_violation(&mut self, user: u64) -> (e: Escalation)
        requires
            old(self).wf(),
        ensures
            final(self).wf(),
            final(self).max() == old(self).max(),
            final(self).warnings() == ledger_step(old(self).warnings(), user, old(self).max()).0,
            (e is Banned) == ledger_step(old(self).warnings(), user, old(self).max()).1,
            e matches Escalation::Warned(n) ==> n == old(self).count_of(user) + 1
                && final(self).count_of(user) == n,
            e is Banned ==> !final(self).warnings().contains_key(user),
            forall|u: u64| u != user ==> final(self).count_of(u) == old(self).count_of(u),
    {
        let current: u32 = match self.counts.get(&user) {
            Some(c) => *c,
            None => 0,
        };
        proof {
            if old(self).warnings().contains_key(user) {
                assert(1 <= old(self).warnings()[user] < old(self).max());
            }
        }
        let next: u32 = current + 1;
        if next >= self.max_warnings {
            self.counts.remove(&user);
            Escalation::Banned
        } else {
            self.counts.insert(user, next);
            proof {
                assert forall|u: u64|
                    self.warnings().contains_key(u) implies 1 <= #[trigger] self.warnings()[u]
                    < self.max() by {
                    if u != user {
                        assert(old(self).warnings().contains_key(u));
                        assert(1 <= old(self).warnings()[u] < old(self).max());
                    }
                }
            }
            Escalation::Warned(next)
        }
    }
}

/// A user starting clean is banned exactly once by `max` successive
/// violations, the first `max - 1` of them mere warnings, and their ledger
/// entry is absent afterward.
pub proof fn lemma_ban_exactly_once(m: Map<u64, u32>, user: u64, max: u32)
    requires
        max >= 1,
        !m.contains_key(user),
    ensures
        bans_in(m, user, max, max as nat) == 1,
        bans_in(m, user, max, (max - 1) as nat) == 0,
        !ledger_iter(m, user, max, max as nat).contains_key(user),
{
    lemma_counts_below_ceiling(m, user, max, (max - 1) as nat);
    let before = ledger_iter(m, user, max, (max - 1) as nat);
    assert(ledger_step(before, user, max).1);
    assert(ledger_iter(m, user, max, max as nat) == ledger_step(before, user, max).0);
}

/// While fewer than `max` violations have occurred, none has banned and the
/// ledger holds exactly the number already incurred.
proof fn lemma_counts_below_ceiling(m: Map<u64, u32>, user: u64, max: u32, k: nat)
    requires
        max >= 1,
        !m.contains_key(user),
        k < max,
    ensures
        bans_in(m, user, max, k) == 0,
        k == 0 ==> !ledger_iter(m, user, max, k).contains_key(user),
        k >= 1 ==> ledger_iter(m, user, max, k).contains_key(user)
            && ledger_iter(m, user, max, k)[user] == k,
    decreases k,
{
    if k > 0 {
        lemma_counts_below_ceiling(m, user, max, (k - 1) as nat);
    }
}

} // verus!
