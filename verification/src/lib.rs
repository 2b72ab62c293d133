//! A chat-automation core: rewrites recognised video/social links in a message
//! to a mirror domain and decides, for replies, whether an impersonated
//! proxy repost may be retracted.

pub mod agent;
pub mod bytes;
pub mod config;
pub mod identity;
pub mod message;
pub mod retract;
pub mod rewrite;
pub mod urls;
