//! The impersonated identity of a proxy repost: the resolved display name
//! and a normalised avatar URL, plus the fixed markers that brand a repost.
use crate::bytes::{replace_all, replace_all_bytes};
use vstd::prelude::*;

verus! {

/// The name and avatar a proxy repost is displayed under.
pub struct ProxyIdentity {
    pub display_name: Vec<u8>,
    pub avatar_url: Vec<u8>,
}

/// "1024"
pub open spec fn avatar_dim_source() -> Seq<u8> {
    seq![49u8, 48u8, 50u8, 52u8]
}

/// "128"
pub open spec fn avatar_dim_target() -> Seq<u8> {
    seq![49u8, 50u8, 56u8]
}

/// ".webp"
pub open spec fn avatar_format_source() -> Seq<u8> {
    seq![46u8, 119u8, 101u8, 98u8, 112u8]
}

/// ".png"
pub open spec fn avatar_format_target() -> Seq<u8> {
    seq![46u8, 112u8, 110u8, 103u8]
}

/// An avatar URL made suitable for reuse by a proxy post: the large source
/// dimension replaced by a small one and the source encoding suffix by the
/// target one. A best-effort textual substitution: a URL without the
/// expected substrings passes through unchanged.
pub open spec fn normalized_avatar(url: Seq<u8>) -> Seq<u8> {
    replace_all(
        replace_all(url, avatar_dim_source(), avatar_dim_target()),
        avatar_format_source(),
        avatar_format_target(),
    )
}

/// Normalise an avatar URL for proxy use.
pub fn normalize_avatar_url(url: &[u8]) -> (r: Vec<u8>)
    ensures
        r@ == normalized_avatar(url@),
{
    let dim_from: Vec<u8> = vec![49u8, 48u8, 50u8, 52u8];
    let dim_to: Vec<u8> = vec![49u8, 50u8, 56u8];
    let fmt_from: Vec<u8> = vec![46u8, 119u8, 101u8, 98u8, 112u8];
    let fmt_to: Vec<u8> = vec![46u8, 112u8, 110u8, 103u8];
    proof {
        assert(dim_from@ =~= avatar_dim_source());
        assert(dim_to@ =~= avatar_dim_target());
        assert(fmt_from@ =~= avatar_format_source());
        assert(fmt_to@ =~= avatar_format_target());
    }
    let resized = replace_all_bytes(url, dim_from.as_slice(), dim_to.as_slice());
    replace_all_bytes(resized.as_slice(), fmt_from.as_slice(), fmt_to.as_slice())
}

/// " robot and moai emoji" — the fixed suffix appended to the displayed name
/// of a proxy repost so it reads as bot-mediated.
pub open spec fn username_suffix() -> Seq<u8> {
    seq![32u8, 240u8, 159u8, 164u8, 150u8, 240u8, 159u8, 151u8, 191u8]
}

/// ":nerd: :point_up: " — the fixed prefix put before reposted content.
pub open spec fn content_prefix() -> Seq<u8> {
    seq![
        58u8,
        110u8,
        101u8,
        114u8,
        100u8,
        58u8,
        32u8,
        58u8,
        112u8,
        111u8,
        105u8,
        110u8,
        116u8,
        95u8,
        117u8,
        112u8,
        58u8,
        32u8,
    ]
}

/// "I can fix it" — the name of the proxy posting surface; a sentinel that
/// lets later retractions recognise this agent's reposts.
pub open spec fn surface_name() -> Seq<u8> {
    seq![73u8, 32u8, 99u8, 97u8, 110u8, 32u8, 102u8, 105u8, 120u8, 32u8, 105u8, 116u8]
}

/// The name of the proxy posting surface.
pub fn proxy_surface_name() -> (r: Vec<u8>)
    ensures
        r@ == surface_name(),
{
    let v: Vec<u8> = vec![
        73u8,
        32u8,
        99u8,
        97u8,
        110u8,
        32u8,
        102u8,
        105u8,
        120u8,
        32u8,
        105u8,
        116u8,
    ];
    proof {
        assert(v@ =~= surface_name());
    }
    v
}

/// The displayed name of a repost: the impersonated name with the fixed
/// bot-marker suffix.
pub fn decorate_username(name: &[u8]) -> (r: Vec<u8>)
    ensures
        r@ == name@ + username_suffix(),
{
    let mut out = vstd::slice::slice_to_vec(name);
    let suffix: Vec<u8> = vec![
        32u8,
        240u8,
        159u8,
        164u8,
        150u8,
        240u8,
        159u8,
        151u8,
        191u8,
    ];
    out.extend_from_slice(suffix.as_slice());
    proof {
        assert(out@ =~= name@ + username_suffix());
    }
    out
}

/// The posted content of a repost: the rewritten content behind the fixed
/// bot-marker prefix.
pub fn decorate_content(content: &[u8]) -> (r: Vec<u8>)
    ensures
        r@ == content_prefix() + content@,
{
    let prefix: Vec<u8> = vec![
        58u8,
        110u8,
        101u8,
        114u8,
        100u8,
        58u8,
        32u8,
        58u8,
        112u8,
        111u8,
        105u8,
        110u8,
        116u8,
        95u8,
        117u8,
        112u8,
        58u8,
        32u8,
    ];
    let mut out = vstd::slice::slice_to_vec(prefix.as_slice());
    out.extend_from_slice(content);
    proof {
        assert(out@ =~= content_prefix() + content@);
    }
    out
}

} // verus!
