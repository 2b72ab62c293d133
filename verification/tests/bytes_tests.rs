use fxproxy::bytes::{
    bytes_eq, contains_bytes, replace_all_bytes, splice_bytes, starts_with_bytes,
};
use fxproxy::identity::{decorate_content, decorate_username, normalize_avatar_url, proxy_surface_name};
use fxproxy::message::{resolve_display_name, AuthorNames};

fn b(s: &str) -> Vec<u8> {
    s.as_bytes().to_vec()
}

#[test]
fn splice_replaces_exactly_the_span() {
    let out = splice_bytes(b"hello world", 6, 11, b"there");
    assert_eq!(out, b("hello there"));
}

#[test]
fn splice_with_empty_replacement_deletes_the_span() {
    let out = splice_bytes(b"abcdef", 2, 4, b"");
    assert_eq!(out, b("abef"));
}

#[test]
fn bytes_eq_distinguishes_content() {
    assert!(bytes_eq(b"abc", b"abc"));
    assert!(!bytes_eq(b"abc", b"abd"));
    assert!(!bytes_eq(b"abc", b"abcd"));
}

#[test]
fn contains_finds_inner_occurrence() {
    assert!(contains_bytes(b"tu peux supprimer?", b"supprime"));
    assert!(!contains_bytes(b"tu peux garder", b"supprime"));
    assert!(contains_bytes(b"abc", b""));
    assert!(!contains_bytes(b"ab", b"abc"));
}

#[test]
fn starts_with_is_a_prefix_test() {
    assert!(starts_with_bytes(b"Alice la pirate", b"Ali"));
    assert!(!starts_with_bytes(b"Alice", b"alice"));
    assert!(starts_with_bytes(b"x", b""));
    assert!(!starts_with_bytes(b"x", b"xy"));
}

#[test]
fn replace_all_replaces_every_occurrence() {
    assert_eq!(replace_all_bytes(b"aXbXc", b"X", b"YY"), b("aYYbYYc"));
    assert_eq!(replace_all_bytes(b"aaa", b"aa", b"b"), b("ba"));
    assert_eq!(replace_all_bytes(b"abc", b"z", b"y"), b("abc"));
    assert_eq!(replace_all_bytes(b"abc", b"", b"y"), b("abc"));
}

#[test]
fn avatar_normalization_substitutes_dimension_and_format() {
    let out = normalize_avatar_url(b"https://cdn.example/av/1024/pic.webp?size=1024");
    assert_eq!(out, b("https://cdn.example/av/128/pic.png?size=128"));
}

#[test]
fn avatar_normalization_is_a_no_op_without_markers() {
    let out = normalize_avatar_url(b"https://cdn.example/av/64/pic.png");
    assert_eq!(out, b("https://cdn.example/av/64/pic.png"));
}

#[test]
fn display_name_prefers_nick_then_global_then_username() {
    let full = AuthorNames {
        guild_nick: Some(b("Nick")),
        global_name: Some(b("Global")),
        username: b("user"),
    };
    assert_eq!(resolve_display_name(&full), b("Nick"));
    let no_nick = AuthorNames { guild_nick: None, global_name: Some(b("Global")), username: b("user") };
    assert_eq!(resolve_display_name(&no_nick), b("Global"));
    let bare = AuthorNames { guild_nick: None, global_name: None, username: b("user") };
    assert_eq!(resolve_display_name(&bare), b("user"));
}

#[test]
fn repost_markers_are_the_fixed_sentinels() {
    assert_eq!(proxy_surface_name(), b("I can fix it"));
    assert_eq!(decorate_username(b"Alice"), b("Alice \u{1F916}\u{1F5FF}"));
    assert_eq!(decorate_content(b"hi"), b(":nerd: :point_up: hi"));
}
