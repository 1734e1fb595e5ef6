//! The event dispatcher's decision: where one inbound chat message goes.
//! Messages from the service itself and from bot-banned users are dropped
//! silently; direct messages go to the inbox; guild messages from
//! non-moderators are inspected, and every guild message earns its author
//! activity credit.

use vstd::prelude::*;
use crate::classify::{spec_classify, Classifier, Verdict};

verus! {

/// Where one inbound message goes.
#[derive(Debug, Clone, Copy, PartialEq, Eq, Structural)]
pub enum MessageDisposition {
    /// Written by the service itself, or by a bot-banned user: dropped.
    Ignored,
    /// A direct message: save it to the inbox and auto-acknowledge.
    Direct,
    /// A guild message carrying a violation: moderate it, then credit XP.
    Violation(Verdict),
    /// An ordinary guild message: credit XP only.
    Normal,
}

/// Route one inbound message. Moderators (and clean content) pass through
/// with credit only; the verdict order is the classifier's tie-break.
pub fn route_message(
    classifier: &Classifier,
    author_is_bot: bool,
    author_bot_banned: bool,
    in_guild: bool,
    author_is_moderator: bool,
    content: &str,
) -> (d: MessageDisposition)
    ensures
        author_is_bot ==> d is Ignored,
        !author_is_bot && author_bot_banned ==> d is Ignored,
        !author_is_bot && !author_bot_banned && !in_guild ==> d is Direct,
        !author_is_bot && !author_bot_banned && in_guild && (author_is_moderator || spec_classify(
            content@,
        ) is Clean) ==> d is Normal,
        !author_is_bot && !author_bot_banned && in_guild && !author_is_moderator && !(spec_classify(
            content@,
        ) is Clean) ==> d == MessageDisposition::Violation(spec_classify(content@)),
{
    if author_is_bot || author_bot_banned {
        return MessageDisposition::Ignored;
    }
    if !in_guild {
        return MessageDisposition::Direct;
    }
    if author_is_moderator {
        return MessageDisposition::Normal;
    }
    let verdict = classifier.classify(content);
    match verdict {
        Verdict::Clean => MessageDisposition::Normal,
        _ => MessageDisposition::Violation(verdict),
    }
}

} // verus!
