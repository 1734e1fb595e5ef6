//! The plain record types the core exchanges with the persistent store and
//! the terminal, and the small computations over them.

use vstd::prelude::*;

verus! {

/// An append-only moderation audit record.
#[derive(Debug, Clone)]
pub struct AuditRecord {
    pub guild_id: u64,
    pub moderator_id: u64,
    pub target_id: u64,
    pub action: String,
    pub reason: String,
    pub timestamp: i64,
}

/// Per-guild voice-activity credit settings.
#[derive(Debug, Clone, Copy, PartialEq, Eq, Structural)]
pub struct VoiceXpConfig {
    pub guild_id: u64,
    pub enabled: bool,
    pub xp_per_minute: i32,
    pub min_users: i32,
    pub ignore_afk: bool,
}

impl VoiceXpConfig {
    /// The settings a guild gets before anyone configures it: disabled,
    /// five credits a minute, at least two users, AFK ignored.
    pub fn default_for(guild_id: u64) -> (c: VoiceXpConfig)
        ensures
            c.guild_id == guild_id,
            !c.enabled,
            c.xp_per_minute == 5,
            c.min_users == 2,
            c.ignore_afk,
    {
        VoiceXpConfig { guild_id, enabled: false, xp_per_minute: 5, min_users: 2, ignore_afk: true }
    }
}

/// One recorded guild activity event.
#[derive(Debug, Clone)]
pub struct ActivityLog {
    pub id: i64,
    pub guild_id: u64,
    pub user_id: u64,
    pub channel_id: u64,
    pub event_type: String,
    pub old_content: Option<String>,
    pub new_content: Option<String>,
    pub timestamp: i64,
}

/// A direct message held for asynchronous human review.
#[derive(Debug, Clone)]
pub struct DmInbox {
    pub id: i64,
    pub user_id: u64,
    pub username: String,
    pub content: String,
    pub timestamp: i64,
    pub read_status: bool,
}

/// A user barred from interacting with the service at all.
#[derive(Debug, Clone)]
pub struct BotBan {
    pub user_id: u64,
    pub banned_by: u64,
    pub reason: Option<String>,
    pub timestamp: i64,
}

/// Aggregate moderation statistics for one guild.
#[derive(Debug)]
pub struct ModStats {
    pub action_counts: Vec<(String, i64)>,
    pub top_mods: Vec<(String, i64)>,
    pub mod_counts: Vec<(String, String, i64)>,
    pub total: i64,
}

/// The count recorded for `action` from position `i` on: the first entry
/// bearing that name decides, zero when none does.
pub open spec fn action_count_from(counts: Seq<(String, i64)>, action: Seq<char>, i: int) -> int
    decreases counts.len() - i,
{
    if i < 0 || i >= counts.len() {
        0
    } else if counts[i].0@ == action {
        counts[i].1 as int
    } else {
        action_count_from(counts, action, i + 1)
    }
}

/// The count recorded for `action`, zero when untracked.
pub open spec fn action_count_of(counts: Seq<(String, i64)>, action: Seq<char>) -> int {
    action_count_from(counts, action, 0)
}

/// Look up one action kind's count in a per-action breakdown.
pub fn action_total(counts: &Vec<(String, i64)>, action: &str) -> (r: i64)
    ensures
        r == action_count_of(counts@, action@),
{
    let target = String::from_str(action);
    let n = counts.len();
    let mut i: usize = 0;
    while i < n
        invariant
            n == counts@.len(),
            i <= n,
            target@ == action@,
            action_count_of(counts@, action@) == action_count_from(counts@, action@, i as int),
        decreases n - i,
    {
        let pair = &counts[i];
        if pair.0 == target {
            return pair.1;
        }
        i += 1;
    }
    0
}

} // verus!
