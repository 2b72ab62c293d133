use fxproxy::config::AgentConfig;
use fxproxy::message::{AuthorNames, IncomingMessage, RepliedMessage};
use fxproxy::retract::{try_retract, RetractionOutcome};

const APP_ID: u64 = 1283210364883828766;
const OPERATOR_ID: u64 = 319181790269014016;

fn b(s: &str) -> Vec<u8> {
    s.as_bytes().to_vec()
}

fn config() -> AgentConfig {
    AgentConfig::mirror_defaults(APP_ID, OPERATOR_ID)
}

fn names(nick: &str) -> AuthorNames {
    AuthorNames { guild_nick: Some(b(nick)), global_name: None, username: b("acct") }
}

fn proxy_repost_by(nick: &str) -> RepliedMessage {
    RepliedMessage {
        id: 77,
        channel_id: 20,
        via_proxy: true,
        application_id: Some(APP_ID),
        author: names(nick),
    }
}

fn reply(content: &str, author_id: u64, author: AuthorNames, replied: Option<RepliedMessage>) -> IncomingMessage {
    IncomingMessage {
        id: 11,
        channel_id: 20,
        guild_id: Some(30),
        author_id,
        author,
        author_avatar_url: b("https://cdn.example/a.webp"),
        content: b(content),
        replied_to: replied,
    }
}

#[test]
fn author_retracts_own_impersonated_repost() {
    let msg = reply("supprime ça", 40, names("Alice"), Some(proxy_repost_by("Alice")));
    assert_eq!(try_retract(&config(), &msg), RetractionOutcome::Retracted);
}

#[test]
fn unrelated_user_is_unauthorized() {
    let msg = reply("supprime ça", 41, names("Zed"), Some(proxy_repost_by("Alice")));
    assert_eq!(try_retract(&config(), &msg), RetractionOutcome::Unauthorized);
}

#[test]
fn prefix_of_impersonated_name_is_authorized() {
    let msg = reply("atomise", 42, names("Ali"), Some(proxy_repost_by("Alice")));
    assert_eq!(try_retract(&config(), &msg), RetractionOutcome::Retracted);
}

#[test]
fn privileged_operator_may_always_retract() {
    let msg = reply("atomise", OPERATOR_ID, names("Zed"), Some(proxy_repost_by("Alice")));
    assert_eq!(try_retract(&config(), &msg), RetractionOutcome::Retracted);
}

#[test]
fn no_reply_is_not_applicable() {
    let msg = reply("supprime", 40, names("Alice"), None);
    assert_eq!(try_retract(&config(), &msg), RetractionOutcome::NotApplicable);
}

#[test]
fn reply_to_plain_message_is_not_applicable() {
    let mut replied = proxy_repost_by("Alice");
    replied.via_proxy = false;
    let msg = reply("supprime", 40, names("Alice"), Some(replied));
    assert_eq!(try_retract(&config(), &msg), RetractionOutcome::NotApplicable);
}

#[test]
fn reply_to_foreign_proxy_post_is_not_applicable() {
    let mut replied = proxy_repost_by("Alice");
    replied.application_id = Some(APP_ID + 1);
    let msg = reply("supprime", 40, names("Alice"), Some(replied));
    assert_eq!(try_retract(&config(), &msg), RetractionOutcome::NotApplicable);
}

#[test]
fn proxy_post_without_application_is_not_applicable() {
    let mut replied = proxy_repost_by("Alice");
    replied.application_id = None;
    let msg = reply("supprime", 40, names("Alice"), Some(replied));
    assert_eq!(try_retract(&config(), &msg), RetractionOutcome::NotApplicable);
}

#[test]
fn reply_without_intent_is_not_applicable() {
    let msg = reply("bravo", OPERATOR_ID, names("Alice"), Some(proxy_repost_by("Alice")));
    assert_eq!(try_retract(&config(), &msg), RetractionOutcome::NotApplicable);
}

#[test]
fn intent_phrase_inside_longer_text_counts() {
    let msg = reply(
        "tu peux supprimer ce message",
        40,
        names("Alice"),
        Some(proxy_repost_by("Alice")),
    );
    // "supprime" occurs inside "supprimer": substring match, as configured.
    assert_eq!(try_retract(&config(), &msg), RetractionOutcome::Retracted);
}

#[test]
fn intent_match_is_case_sensitive() {
    let msg = reply("SUPPRIME", 40, names("Alice"), Some(proxy_repost_by("Alice")));
    assert_eq!(try_retract(&config(), &msg), RetractionOutcome::NotApplicable);
}
