//! The value objects built from one incoming chat event. All text is carried
//! as UTF-8 bytes, and URL spans are byte offsets into the content.
use vstd::prelude::*;

verus! {

/// The three sources a display name can come from, in order of preference:
/// a per-guild nickname, a global display name, the account name.
pub struct AuthorNames {
    pub guild_nick: Option<Vec<u8>>,
    pub global_name: Option<Vec<u8>>,
    pub username: Vec<u8>,
}

/// The message an incoming reply points at, reduced to what the retraction
/// decision reads: where it can be deleted, whether it came through a proxy
/// surface, which application posted it, and whose identity it wears.
pub struct RepliedMessage {
    pub id: u64,
    pub channel_id: u64,
    pub via_proxy: bool,
    pub application_id: Option<u64>,
    pub author: AuthorNames,
}

/// One incoming message event, immutable once received.
pub struct IncomingMessage {
    pub id: u64,
    pub channel_id: u64,
    pub guild_id: Option<u64>,
    pub author_id: u64,
    pub author: AuthorNames,
    pub author_avatar_url: Vec<u8>,
    pub content: Vec<u8>,
    pub replied_to: Option<RepliedMessage>,
}

/// The display name a set of author names resolves to: the per-guild
/// nickname if present, else the global display name, else the account name.
pub open spec fn resolved_name(a: AuthorNames) -> Seq<u8> {
    match a.guild_nick {
        Some(n) => n@,
        None => match a.global_name {
            Some(g) => g@,
            None => a.username@,
        },
    }
}

/// Resolve the display name for an author.
pub fn resolve_display_name(a: &AuthorNames) -> (r: Vec<u8>)
    ensures
        r@ == resolved_name(*a),
{
    match &a.guild_nick {
        Some(n) => vstd::slice::slice_to_vec(n.as_slice()),
        None => match &a.global_name {
            Some(g) => vstd::slice::slice_to_vec(g.as_slice()),
            None => vstd::slice::slice_to_vec(a.username.as_slice()),
        },
    }
}

} // verus!
