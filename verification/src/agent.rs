//! The per-event control flow: the link rewriter runs first; only when it
//! leaves the message alone does the retraction handler run. A message
//! outside a guild is ignored.
use crate::config::AgentConfig;
use crate::identity::ProxyIdentity;
use crate::message::{resolved_name, IncomingMessage};
use crate::identity::normalized_avatar;
use crate::retract::{retraction_spec, try_retract, RetractionOutcome};
use crate::rewrite::{rewrite, rewrite_changes, rewritten_content, RewriteOutcome};
use vstd::prelude::*;

verus! {

/// What the caller owes the collaborator for one handled event.
pub enum EventAction {
    /// Nothing to do for this message.
    Ignore,
    /// Delete the original message, then post `new_content` through the
    /// named proxy surface under `identity`.
    Repost { new_content: Vec<u8>, identity: ProxyIdentity },
    /// Delete the replied-to message: an authorized retraction.
    DeleteRepliedTo,
}

/// Handle one incoming message event.
///
/// Outside a guild nothing happens. Otherwise the rewriter decides first:
/// when it rewrote something the caller must repost and the retraction
/// handler is skipped; when it changed nothing, the replied-to message is
/// deleted exactly when the retraction handler grants it.
pub fn handle_event(config: &AgentConfig, msg: &IncomingMessage) -> (r: EventAction)
    ensures
        msg.guild_id is None ==> r is Ignore,
        msg.guild_id is Some ==> match r {
            EventAction::Ignore => !rewrite_changes(config.rules@, msg.content@) && !(
            retraction_spec(*config, *msg) is Retracted),
            EventAction::Repost { new_content, identity } => {
                &&& rewrite_changes(config.rules@, msg.content@)
                &&& new_content@ == rewritten_content(config.rules@, msg.content@)
                &&& identity.display_name@ == resolved_name(msg.author)
                &&& identity.avatar_url@ == normalized_avatar(msg.author_avatar_url@)
            },
            EventAction::DeleteRepliedTo => !rewrite_changes(config.rules@, msg.content@)
                && retraction_spec(*config, *msg) is Retracted,
        },
{
    if msg.guild_id.is_none() {
        return EventAction::Ignore;
    }
    match rewrite(config, msg) {
        RewriteOutcome::Rewritten { new_content, identity } => EventAction::Repost {
            new_content,
            identity,
        },
        RewriteOutcome::NoChange => {
            match try_retract(config, msg) {
                RetractionOutcome::Retracted => EventAction::DeleteRepliedTo,
                RetractionOutcome::Unauthorized => EventAction::Ignore,
                RetractionOutcome::NotApplicable => EventAction::Ignore,
            }
        },
    }
}

} // verus!
