//! The violation handler: applies one qualifying violation to the warning
//! ledger and plans the consequences. Deleting the offending message and
//! notifying the user are advisory and never abort the transition; the ban
//! and its audit record are required, and the ledger entry stays removed
//! even if they fail, since re-attempting a ban is idempotent-safe while
//! re-incrementing would not be.

use vstd::prelude::*;
use crate::clock::now_timestamp;
use crate::ledger::{ledger_step, Escalation, WarningLedger};
use crate::records::AuditRecord;

verus! {

/// Everything one violation asks the surrounding process to do.
#[derive(Debug, Clone)]
pub struct ViolationPlan {
    /// Best-effort: delete the offending message.
    pub delete_message: bool,
    /// The escalation the ledger decided: warn (with the new count) or ban.
    pub escalation: Escalation,
    /// The configured ceiling, quoted in the warning notice.
    pub max_warnings: u32,
    /// On a ban: the audit record to append (a required write). The acting
    /// identity is the automation itself, not a human moderator.
    pub audit: Option<AuditRecord>,
}

/// Apply one qualifying violation by `user_id` with the given reason:
/// advance the ledger one step; on a ban, plan the audit record with reason
/// `"Autobanned: {reason}"` recorded under the service's own identity.
pub fn handle_violation(
    ledger: &mut WarningLedger,
    guild_id: u64,
    bot_user_id: u64,
    user_id: u64,
    reason: &str,
) -> (plan: ViolationPlan)
    requires
        old(ledger).wf(),
    ensures
        final(ledger).wf(),
        final(ledger).max() == old(ledger).max(),
        final(ledger).warnings() == ledger_step(
            old(ledger).warnings(),
            user_id,
            old(ledger).max(),
        ).0,
        (plan.escalation is Banned) == ledger_step(
            old(ledger).warnings(),
            user_id,
            old(ledger).max(),
        ).1,
        plan.escalation matches Escalation::Warned(n) ==> n == old(ledger).count_of(user_id) + 1
            && final(ledger).count_of(user_id) == n,
        plan.escalation is Banned ==> !final(ledger).warnings().contains_key(user_id),
        plan.delete_message,
        plan.max_warnings == old(ledger).max(),
        plan.escalation is Banned <==> plan.audit is Some,
        plan.audit matches Some(a) ==> a.guild_id == guild_id && a.moderator_id == bot_user_id
            && a.target_id == user_id && a.action@ == "ban"@ && a.reason@ == "Autobanned: "@
            + reason@,
        forall|u: u64| u != user_id ==> final(ledger).count_of(u) == old(ledger).count_of(u),
{
    let max_warnings = ledger.max_warnings();
    let escalation = ledger.record_violation(user_id);
    let audit = match escalation {
        Escalation::Banned => {
            let mut autoban_reason = String::from_str("Autobanned: ");
            autoban_reason.append(reason);
            Some(
                AuditRecord {
                    guild_id,
                    moderator_id: bot_user_id,
                    target_id: user_id,
                    action: String::from_str("ban"),
                    reason: autoban_reason,
                    timestamp: now_timestamp(),
                },
            )
        },
        Escalation::Warned(_) => None,
    };
    ViolationPlan { delete_message: true, escalation, max_warnings, audit }
}

} // verus!
