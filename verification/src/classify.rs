//! The stateless message classifier: content inspection producing a
//! violation verdict. Evaluation order is a tie-break: a broadcast mention
//! wins over an invite link, which wins over a generic link, because an
//! invite link would also match the generic-link pattern.

use vstd::prelude::*;
use crate::text::{contains_seq, contains_str};

verus! {

/// The verdict of content inspection.
#[derive(Debug, Clone, Copy, PartialEq, Eq, Structural)]
pub enum Verdict {
    /// Nothing objectionable matched.
    Clean,
    /// The content pings the whole channel.
    BroadcastMention,
    /// The content carries a community-invite link.
    InviteLink,
    /// The content carries some other link.
    GenericLink,
}

/// Whether content pings the whole channel: it holds `@everyone` or `@here`.
pub open spec fn mentions_broadcast(s: Seq<char>) -> bool {
    contains_seq(s, "@everyone"@) || contains_seq(s, "@here"@)
}

/// What the classifier's invite-link pattern matches; with the pattern
/// fixed, a function of the content alone.
pub uninterp spec fn invite_pattern_match(s: Seq<char>) -> bool;

/// What the classifier's generic-link pattern matches; with the pattern
/// fixed, a function of the content alone.
pub uninterp spec fn link_pattern_match(s: Seq<char>) -> bool;

/// The verdict for given content, in tie-break order.
pub open spec fn spec_classify(s: Seq<char>) -> Verdict {
    if mentions_broadcast(s) {
        Verdict::BroadcastMention
    } else if invite_pattern_match(s) {
        Verdict::InviteLink
    } else if link_pattern_match(s) {
        Verdict::GenericLink
    } else {
        Verdict::Clean
    }
}

#[verifier::external_type_specification]
#[verifier::external_body]
pub struct ExRegex(regex::Regex);

/// The content inspector, owning its two patterns, compiled once at
/// construction and immutable afterward.
pub struct Classifier {
    invite_re: regex::Regex,
    link_re: regex::Regex,
}

impl Classifier {
    /// Relies on `regex::Regex::new`: compiles the two fixed, valid
    /// patterns the classifier matches against — a community-invite link
    /// and a generic ftp/http/https link, both case-insensitive.
    #[verifier::external_body]
    pub fn new() -> Classifier {
        Classifier {
            invite_re: regex::Regex::new(
                r"(?i)(https)*(http)*:*(//)*(discord(\.gg|app\.com/invite)/[a-zA-Z0-9]+)",
            ).unwrap(),
            link_re: regex::Regex::new(r"(?i)(ftp|http|https)://[^\s]+").unwrap(),
        }
    }

    /// Relies on `regex::Regex::is_match`: true iff the invite pattern
    /// matches anywhere in the content. `new` is the type's only
    /// constructor, so the pattern is the fixed invite pattern.
    #[verifier::external_body]
    fn matches_invite(&self, content: &str) -> (r: bool)
        ensures
            r == invite_pattern_match(content@),
    {
        self.invite_re.is_match(content)
    }

    /// Relies on `regex::Regex::is_match`: true iff the generic-link
    /// pattern matches anywhere in the content. `new` is the type's only
    /// constructor, so the pattern is the fixed link pattern.
    #[verifier::external_body]
    fn matches_link(&self, content: &str) -> (r: bool)
        ensures
            r == link_pattern_match(content@),
    {
        self.link_re.is_match(content)
    }

    /// Inspect message content and return its verdict.
    pub fn classify(&self, content: &str) -> (v: Verdict)
        ensures
            v == spec_classify(content@),
    {
        if contains_str(content, "@everyone") || contains_str(content, "@here") {
            Verdict::BroadcastMention
        } else if self.matches_invite(content) {
            Verdict::InviteLink
        } else if self.matches_link(content) {
            Verdict::GenericLink
        } else {
            Verdict::Clean
        }
    }
}

/// The reason quoted to the user for each verdict; empty for a clean one.
pub fn violation_reason(v: Verdict) -> (r: &'static str)
    ensures
        v is BroadcastMention ==> r@ == "Usage of @everyone/@here"@,
        v is InviteLink ==> r@ == "Discord invitation link"@,
        v is GenericLink ==> r@ == "Link sent"@,
        v is Clean ==> r@ == ""@,
{
    match v {
        Verdict::Clean => "",
        Verdict::BroadcastMention => "Usage of @everyone/@here",
        Verdict::InviteLink => "Discord invitation link",
        Verdict::GenericLink => "Link sent",
    }
}

} // verus!
