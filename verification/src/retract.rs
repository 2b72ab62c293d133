//! The authorized-retraction handler: decides whether a reply may delete a
//! previously impersonated proxy repost of this agent.
use crate::bytes::{contains_bytes, contains_seq, starts_with_bytes};
use crate::config::AgentConfig;
use crate::message::{resolve_display_name, resolved_name, IncomingMessage, RepliedMessage};
use vstd::prelude::*;

verus! {

/// The outcome of the retraction handler for one reply.
#[derive(Clone, Copy, Debug, PartialEq, Eq, Structural)]
pub enum RetractionOutcome {
    /// Not a reply, not a proxy post of this agent, or no deletion intent.
    NotApplicable,
    /// Deletion was asked for but the replier may not retract this post.
    Unauthorized,
    /// The caller must delete the replied-to message.
    Retracted,
}

/// The reply's text contains at least one deletion-intent phrase
/// (case-sensitive substring match).
pub open spec fn deletion_intent(phrases: Seq<Vec<u8>>, content: Seq<u8>) -> bool {
    exists|i: int| 0 <= i < phrases.len() && contains_seq(content, (#[trigger] phrases[i])@)
}

/// The replied-to message is an impersonated proxy post of this very
/// agent: it came through a proxy surface and was posted by this agent's
/// application.
pub open spec fn proxy_post_of_agent(config: AgentConfig, replied: RepliedMessage) -> bool {
    replied.via_proxy && replied.application_id == Some(config.application_id)
}

/// The replier may retract: they are the privileged operator, or their
/// resolved display name is a prefix of the impersonated author's resolved
/// display name.
pub open spec fn reply_authorized(
    config: AgentConfig,
    msg: IncomingMessage,
    replied: RepliedMessage,
) -> bool {
    ||| msg.author_id == config.privileged_user_id
    ||| resolved_name(msg.author).is_prefix_of(resolved_name(replied.author))
}

/// What the retraction handler decides for one incoming message.
pub open spec fn retraction_spec(config: AgentConfig, msg: IncomingMessage) -> RetractionOutcome {
    match msg.replied_to {
        None => RetractionOutcome::NotApplicable,
        Some(replied) => if !proxy_post_of_agent(config, replied) {
            RetractionOutcome::NotApplicable
        } else if !deletion_intent(config.deletion_phrases@, msg.content@) {
            RetractionOutcome::NotApplicable
        } else if reply_authorized(config, msg, replied) {
            RetractionOutcome::Retracted
        } else {
            RetractionOutcome::Unauthorized
        },
    }
}

/// Does the content contain any of the phrases?
fn contains_any(phrases: &Vec<Vec<u8>>, content: &[u8]) -> (r: bool)
    ensures
        r <==> deletion_intent(phrases@, content@),
{
    let mut i: usize = 0;
    while i < phrases.len()
        invariant
            0 <= i <= phrases@.len(),
            forall|k: int| 0 <= k < i ==> !contains_seq(content@, (#[trigger] phrases@[k])@),
        decreases phrases@.len() - i,
    {
        if contains_bytes(content, phrases[i].as_slice()) {
            return true;
        }
        i = i + 1;
    }
    false
}

/// Decide whether this message retracts an impersonated repost.
///
/// `NotApplicable` when the message is no reply, the replied-to message is
/// not a proxy post of this agent, or no deletion-intent phrase occurs in
/// the reply; `Retracted` when intent and authority both hold — the caller
/// must then delete the replied-to message; `Unauthorized` when intent
/// holds but the replier is neither the privileged operator nor named as a
/// prefix of the impersonated author.
pub fn try_retract(config: &AgentConfig, msg: &IncomingMessage) -> (r: RetractionOutcome)
    ensures
        r == retraction_spec(*config, *msg),
{
    let replied = match &msg.replied_to {
        None => { return RetractionOutcome::NotApplicable },
        Some(r) => r,
    };
    if !replied.via_proxy {
        return RetractionOutcome::NotApplicable;
    }
    let same_app = match replied.application_id {
        Some(id) => id == config.application_id,
        None => false,
    };
    if !same_app {
        return RetractionOutcome::NotApplicable;
    }
    if !contains_any(&config.deletion_phrases, msg.content.as_slice()) {
        return RetractionOutcome::NotApplicable;
    }
    let authorized = if msg.author_id == config.privileged_user_id {
        true
    } else {
        let replier_name = resolve_display_name(&msg.author);
        let impersonated_name = resolve_display_name(&replied.author);
        starts_with_bytes(impersonated_name.as_slice(), replier_name.as_slice())
    };
    if authorized {
        RetractionOutcome::Retracted
    } else {
        RetractionOutcome::Unauthorized
    }
}

/// A reply to a message that is not an impersonated proxy post of this
/// agent always yields `NotApplicable`, regardless of the reply's text.
pub proof fn lemma_foreign_reply_not_applicable(config: AgentConfig, msg: IncomingMessage)
    requires
        match msg.replied_to {
            None => true,
            Some(replied) => !proxy_post_of_agent(config, replied),
        },
    ensures
        retraction_spec(config, msg) is NotApplicable,
{
}

} // verus!
