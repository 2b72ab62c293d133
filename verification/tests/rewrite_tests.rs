use fxproxy::config::AgentConfig;
use fxproxy::message::{AuthorNames, IncomingMessage};
use fxproxy::rewrite::{rewrite, RewriteOutcome};

const APP_ID: u64 = 1283210364883828766;
const OPERATOR_ID: u64 = 319181790269014016;

fn b(s: &str) -> Vec<u8> {
    s.as_bytes().to_vec()
}

fn plain_author(name: &str) -> AuthorNames {
    AuthorNames { guild_nick: None, global_name: None, username: b(name) }
}

fn msg_with_content(content: &str) -> IncomingMessage {
    IncomingMessage {
        id: 10,
        channel_id: 20,
        guild_id: Some(30),
        author_id: 40,
        author: plain_author("alice"),
        author_avatar_url: b("https://cdn.example/avatars/40/abc.webp?size=1024"),
        content: b(content),
        replied_to: None,
    }
}

fn config() -> AgentConfig {
    AgentConfig::mirror_defaults(APP_ID, OPERATOR_ID)
}

#[test]
fn single_x_url_is_rewritten() {
    let out = rewrite(&config(), &msg_with_content("check https://x.com/a/status/1"));
    match out {
        RewriteOutcome::Rewritten { new_content, .. } => {
            assert_eq!(new_content, b("check https://fxtwitter.com/a/status/1"));
        }
        RewriteOutcome::NoChange => panic!("expected a rewrite"),
    }
}

#[test]
fn unrecognized_host_is_no_change() {
    let out = rewrite(&config(), &msg_with_content("check https://example.com/a"));
    assert!(matches!(out, RewriteOutcome::NoChange));
}

#[test]
fn message_without_urls_is_no_change() {
    let out = rewrite(&config(), &msg_with_content("bonjour tout le monde"));
    assert!(matches!(out, RewriteOutcome::NoChange));
}

#[test]
fn twitter_url_keeps_surrounding_bytes() {
    let out = rewrite(&config(), &msg_with_content("a https://twitter.com/x/1 b"));
    match out {
        RewriteOutcome::Rewritten { new_content, .. } => {
            assert_eq!(new_content, b("a https://fxtwitter.com/x/1 b"));
        }
        RewriteOutcome::NoChange => panic!("expected a rewrite"),
    }
}

#[test]
fn query_and_fragment_are_preserved() {
    let out = rewrite(&config(), &msg_with_content("https://x.com/a/status/1?s=20#m"));
    match out {
        RewriteOutcome::Rewritten { new_content, .. } => {
            assert_eq!(new_content, b("https://fxtwitter.com/a/status/1?s=20#m"));
        }
        RewriteOutcome::NoChange => panic!("expected a rewrite"),
    }
}

#[test]
fn rewriting_twice_is_no_change() {
    let once = rewrite(&config(), &msg_with_content("check https://x.com/a/status/1"));
    let rewritten = match once {
        RewriteOutcome::Rewritten { new_content, .. } => new_content,
        RewriteOutcome::NoChange => panic!("expected a rewrite"),
    };
    let again = rewrite(
        &config(),
        &msg_with_content(std::str::from_utf8(&rewritten).unwrap()),
    );
    assert!(matches!(again, RewriteOutcome::NoChange));
}

#[test]
fn two_urls_are_both_rewritten() {
    let out = rewrite(
        &config(),
        &msg_with_content("https://x.com/a/1 and https://twitter.com/b/2"),
    );
    match out {
        RewriteOutcome::Rewritten { new_content, .. } => {
            assert_eq!(
                new_content,
                b("https://fxtwitter.com/a/1 and https://fxtwitter.com/b/2")
            );
        }
        RewriteOutcome::NoChange => panic!("expected a rewrite"),
    }
}

#[test]
fn ascending_order_application_corrupts_offsets() {
    // Two recognised URLs; each replacement is 8 bytes longer than its span.
    let content = b("https://x.com/a/1 and https://x.com/b/2");
    let m1 = (0usize, 17usize, b("https://fxtwitter.com/a/1"));
    let m2 = (22usize, 39usize, b("https://fxtwitter.com/b/2"));
    assert_eq!(&content[m1.0..m1.1], b("https://x.com/a/1").as_slice());
    assert_eq!(&content[m2.0..m2.1], b("https://x.com/b/2").as_slice());

    // Descending start offsets: later span first; earlier offsets stay valid.
    let desc_first = fxproxy::bytes::splice_bytes(&content, m2.0, m2.1, &m2.2);
    let descending = fxproxy::bytes::splice_bytes(&desc_first, m1.0, m1.1, &m1.2);
    assert_eq!(
        descending,
        b("https://fxtwitter.com/a/1 and https://fxtwitter.com/b/2")
    );

    // Ascending order: the first replacement grows the text, so the second
    // span's recorded offsets no longer point at the second URL.
    let asc_first = fxproxy::bytes::splice_bytes(&content, m1.0, m1.1, &m1.2);
    let shifted = &asc_first[m2.0..m2.1];
    assert_ne!(shifted, b("https://x.com/b/2").as_slice());
    let ascending = fxproxy::bytes::splice_bytes(&asc_first, m2.0, m2.1, &m2.2);
    assert_ne!(
        ascending,
        b("https://fxtwitter.com/a/1 and https://fxtwitter.com/b/2")
    );
}

#[test]
fn unparseable_match_is_dropped_silently() {
    // The pattern matches, but the url crate refuses the enormous port.
    let out = rewrite(&config(), &msg_with_content("https://x.com:99999999/a"));
    assert!(matches!(out, RewriteOutcome::NoChange));
}

#[test]
fn rewrite_resolves_identity_from_author() {
    let mut msg = msg_with_content("https://x.com/a/1");
    msg.author = AuthorNames {
        guild_nick: Some(b("Capitaine")),
        global_name: Some(b("cap")),
        username: b("cap123"),
    };
    match rewrite(&config(), &msg) {
        RewriteOutcome::Rewritten { identity, .. } => {
            assert_eq!(identity.display_name, b("Capitaine"));
            assert_eq!(
                identity.avatar_url,
                b("https://cdn.example/avatars/40/abc.png?size=128")
            );
        }
        RewriteOutcome::NoChange => panic!("expected a rewrite"),
    }
}
