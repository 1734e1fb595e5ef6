use yuno_core::classify::{Classifier, Verdict, violation_reason};
use yuno_core::dispatch::{route_message, MessageDisposition};
use yuno_core::ledger::{Escalation, WarningLedger};
use yuno_core::violation::handle_violation;

#[test]
fn classify_clean_content() {
    let c = Classifier::new();
    assert_eq!(c.classify("hello there, how are you?"), Verdict::Clean);
    assert_eq!(c.classify(""), Verdict::Clean);
    assert_eq!(c.classify("everyone here is nice"), Verdict::Clean);
}

#[test]
fn classify_broadcast_mention() {
    let c = Classifier::new();
    assert_eq!(c.classify("hi @everyone look at this"), Verdict::BroadcastMention);
    assert_eq!(c.classify("@here free stuff"), Verdict::BroadcastMention);
}

#[test]
fn classify_invite_link() {
    let c = Classifier::new();
    assert_eq!(c.classify("join discord.gg/abc123 now"), Verdict::InviteLink);
    assert_eq!(c.classify("https://discordapp.com/invite/xyz"), Verdict::InviteLink);
}

#[test]
fn classify_generic_link() {
    let c = Classifier::new();
    assert_eq!(c.classify("see https://example.com/page"), Verdict::GenericLink);
    assert_eq!(c.classify("ftp://files.example.com/a"), Verdict::GenericLink);
}

#[test]
fn classify_tie_breaks() {
    let c = Classifier::new();
    // An invite link also matches the generic-link pattern: invite wins.
    assert_eq!(c.classify("https://discord.gg/abc"), Verdict::InviteLink);
    // A broadcast mention wins over any link.
    assert_eq!(c.classify("@everyone https://example.com"), Verdict::BroadcastMention);
}

#[test]
fn violation_reasons() {
    assert_eq!(violation_reason(Verdict::BroadcastMention), "Usage of @everyone/@here");
    assert_eq!(violation_reason(Verdict::InviteLink), "Discord invitation link");
    assert_eq!(violation_reason(Verdict::GenericLink), "Link sent");
    assert_eq!(violation_reason(Verdict::Clean), "");
}

#[test]
fn three_violations_ban_exactly_once() {
    // With a ceiling of three: two warnings, one ban, entry absent after.
    let mut ledger = WarningLedger::new(3);
    let user = 42u64;
    let mut bans = 0;
    let mut warnings = Vec::new();
    for _ in 0..3 {
        match ledger.record_violation(user) {
            Escalation::Warned(n) => warnings.push(n),
            Escalation::Banned => bans += 1,
        }
    }
    assert_eq!(warnings, vec![1, 2]);
    assert_eq!(bans, 1);
    assert_eq!(ledger.current_warnings(user), 0);

    // A fourth violation without re-admission starts over: no second ban.
    assert_eq!(ledger.record_violation(user), Escalation::Warned(1));
}

#[test]
fn ceiling_of_one_bans_immediately() {
    let mut ledger = WarningLedger::new(1);
    assert_eq!(ledger.record_violation(7), Escalation::Banned);
    assert_eq!(ledger.current_warnings(7), 0);
}

#[test]
fn ledger_counts_are_per_user() {
    let mut ledger = WarningLedger::new(3);
    assert_eq!(ledger.record_violation(1), Escalation::Warned(1));
    assert_eq!(ledger.record_violation(2), Escalation::Warned(1));
    assert_eq!(ledger.record_violation(1), Escalation::Warned(2));
    assert_eq!(ledger.current_warnings(1), 2);
    assert_eq!(ledger.current_warnings(2), 1);
    assert_eq!(ledger.current_warnings(3), 0);
}

#[test]
fn violation_plan_warns_then_bans() {
    let mut ledger = WarningLedger::new(3);
    let guild = 500u64;
    let bot = 99u64;
    let user = 42u64;

    let first = handle_violation(&mut ledger, guild, bot, user, "Link sent");
    assert!(first.delete_message);
    assert_eq!(first.escalation, Escalation::Warned(1));
    assert_eq!(first.max_warnings, 3);
    assert!(first.audit.is_none());

    let second = handle_violation(&mut ledger, guild, bot, user, "Link sent");
    assert_eq!(second.escalation, Escalation::Warned(2));
    assert!(second.audit.is_none());

    let third = handle_violation(&mut ledger, guild, bot, user, "Link sent");
    assert_eq!(third.escalation, Escalation::Banned);
    let audit = third.audit.expect("a ban must plan an audit record");
    assert_eq!(audit.guild_id, guild);
    assert_eq!(audit.moderator_id, bot);
    assert_eq!(audit.target_id, user);
    assert_eq!(audit.action, "ban");
    assert_eq!(audit.reason, "Autobanned: Link sent");
    assert_eq!(ledger.current_warnings(user), 0);
}

#[test]
fn route_drops_bot_and_banned_authors() {
    let c = Classifier::new();
    assert_eq!(
        route_message(&c, true, false, true, false, "@everyone"),
        MessageDisposition::Ignored
    );
    assert_eq!(
        route_message(&c, false, true, true, false, "hello"),
        MessageDisposition::Ignored
    );
}

#[test]
fn route_direct_messages_to_inbox() {
    let c = Classifier::new();
    assert_eq!(
        route_message(&c, false, false, false, false, "hi bot"),
        MessageDisposition::Direct
    );
}

#[test]
fn route_guild_messages() {
    let c = Classifier::new();
    assert_eq!(
        route_message(&c, false, false, true, false, "just chatting"),
        MessageDisposition::Normal
    );
    assert_eq!(
        route_message(&c, false, false, true, false, "@everyone hi"),
        MessageDisposition::Violation(Verdict::BroadcastMention)
    );
    // Moderators are not inspected.
    assert_eq!(
        route_message(&c, false, false, true, true, "@everyone hi"),
        MessageDisposition::Normal
    );
}
