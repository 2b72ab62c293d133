//! The link rewriter: detect URL spans in a message, keep those whose host
//! the configuration recognises, rewrite each to the mirror host, and apply
//! the substitutions in descending start-offset order so that earlier
//! offsets stay valid while later spans are replaced.
use crate::bytes::{splice, splice_bytes, bytes_eq};
use crate::config::{AgentConfig, RewritePair};
use crate::identity::{normalize_avatar_url, normalized_avatar, ProxyIdentity};
use crate::message::{resolve_display_name, resolved_name, IncomingMessage};
use crate::urls::{find_url_spans, host_of, url_host, url_spans_of, url_with_host, with_host};
use vstd::prelude::*;

verus! {

/// The mirror host that `host` is mapped to by the first matching table
/// entry, if any entry matches it exactly.
pub open spec fn recognized_target(pairs: Seq<RewritePair>, host: Seq<u8>) -> Option<Seq<u8>>
    decreases pairs.len(),
{
    if pairs.len() == 0 {
        None
    } else if pairs[0].from@ == host {
        Some(pairs[0].to@)
    } else {
        recognized_target(pairs.skip(1), host)
    }
}

/// What one detected URL is rewritten to: `None` when it does not parse,
/// its host is not in the table, or the host replacement is refused; the
/// re-serialised URL with the mirror host otherwise.
pub open spec fn rewritten_url(pairs: Seq<RewritePair>, raw: Seq<u8>) -> Option<Seq<u8>> {
    match host_of(raw) {
        Some(h) => match recognized_target(pairs, h) {
            Some(t) => with_host(raw, t),
            None => None,
        },
        None => None,
    }
}

/// The substitutions a content and its URL spans give rise to, in span
/// order: one triple (start, end, replacement) per span whose URL the
/// table rewrites.
pub open spec fn mods_of(pairs: Seq<RewritePair>, content: Seq<u8>, spans: Seq<(int, int)>) -> Seq<
    (int, int, Seq<u8>),
>
    decreases spans.len(),
{
    if spans.len() == 0 {
        Seq::empty()
    } else {
        let rest = mods_of(pairs, content, spans.drop_last());
        let s = spans.last().0;
        let e = spans.last().1;
        match rewritten_url(pairs, content.subrange(s, e)) {
            Some(r) => rest.push((s, e, r)),
            None => rest,
        }
    }
}

/// The substitutions applied to `content` from the highest start offset
/// down to the lowest.
pub open spec fn apply_desc(content: Seq<u8>, mods: Seq<(int, int, Seq<u8>)>) -> Seq<u8>
    decreases mods.len(),
{
    if mods.len() == 0 {
        content
    } else {
        apply_desc(
            splice(content, mods.last().0, mods.last().1, mods.last().2),
            mods.drop_last(),
        )
    }
}

/// Does the table rewrite anything in this content?
pub open spec fn rewrite_changes(pairs: Seq<RewritePair>, content: Seq<u8>) -> bool {
    mods_of(pairs, content, url_spans_of(content)).len() > 0
}

/// The content after every recognised URL is rewritten.
pub open spec fn rewritten_content(pairs: Seq<RewritePair>, content: Seq<u8>) -> Seq<u8> {
    apply_desc(content, mods_of(pairs, content, url_spans_of(content)))
}

/// Spans lie within a content of length `len`, in order, without overlap.
pub open spec fn spans_sorted(spans: Seq<(int, int)>, len: int) -> bool {
    &&& forall|i: int| 0 <= i < spans.len() ==> 0 <= (#[trigger] spans[i]).0 <= spans[i].1 <= len
    &&& forall|i: int, j: int|
        0 <= i < j < spans.len() ==> (#[trigger] spans[i]).1 <= (#[trigger] spans[j]).0
}

/// Substitutions lie within a content of length `len`, in order, without
/// overlap.
pub open spec fn mods_sorted(mods: Seq<(int, int, Seq<u8>)>, len: int) -> bool {
    &&& forall|i: int| 0 <= i < mods.len() ==> 0 <= (#[trigger] mods[i]).0 <= mods[i].1 <= len
    &&& forall|i: int, j: int|
        0 <= i < j < mods.len() ==> (#[trigger] mods[i]).1 <= (#[trigger] mods[j]).0
}

/// The substitutions derived from sorted spans are themselves sorted and
/// in bounds.
pub proof fn lemma_mods_of_sorted(
    pairs: Seq<RewritePair>,
    content: Seq<u8>,
    spans: Seq<(int, int)>,
    len: int,
)
    requires
        spans_sorted(spans, len),
    ensures
        mods_sorted(mods_of(pairs, content, spans), len),
        mods_of(pairs, content, spans).len() > 0 ==> spans.len() > 0 && mods_of(
            pairs,
            content,
            spans,
        ).last().1 <= spans.last().1,
    decreases spans.len(),
{
    if spans.len() == 0 {
    } else {
        let prev = spans.drop_last();
        assert(spans_sorted(prev, len));
        lemma_mods_of_sorted(pairs, content, prev, len);
        let rest = mods_of(pairs, content, prev);
        let s = spans.last().0;
        let e = spans.last().1;
        if rest.len() > 0 {
            assert(prev.last() == spans[spans.len() - 2]);
            assert(rest.last().1 <= spans[spans.len() - 2].1);
            assert(spans[spans.len() - 2].1 <= s);
            assert(forall|k: int|
                0 <= k < rest.len() - 1 ==> (#[trigger] rest[k]).1 <= rest[rest.len() - 1].0
                    <= rest.last().1);
        }
        match rewritten_url(pairs, content.subrange(s, e)) {
            Some(r) => {
                let m = rest.push((s, e, r));
                assert(forall|k: int|
                    0 <= k < rest.len() ==> (#[trigger] m[k]) == rest[k]);
                assert(m.last() == (s, e, r));
                assert(mods_sorted(m, len));
            },
            None => {},
        }
    }
}

proof fn lemma_mods_of_all_none(pairs: Seq<RewritePair>, content: Seq<u8>, spans: Seq<(int, int)>)
    requires
        forall|k: int|
            0 <= k < spans.len() ==> rewritten_url(
                pairs,
                content.subrange((#[trigger] spans[k]).0, spans[k].1),
            ) is None,
    ensures
        mods_of(pairs, content, spans).len() == 0,
    decreases spans.len(),
{
    if spans.len() > 0 {
        lemma_mods_of_all_none(pairs, content, spans.drop_last());
        assert(spans.last() == spans[spans.len() - 1]);
    }
}

/// When no detected URL of the content is rewritten by the table — because
/// none parses to a host the table knows, as on a message whose links
/// already carry the mirror host — rewriting is a no-change: the content
/// comes back untouched.
pub proof fn lemma_unrecognized_no_change(pairs: Seq<RewritePair>, content: Seq<u8>)
    ensures
        (forall|k: int|
            0 <= k < url_spans_of(content).len() ==> rewritten_url(
                pairs,
                content.subrange(
                    (#[trigger] url_spans_of(content)[k]).0,
                    url_spans_of(content)[k].1,
                ),
            ) is None) ==> !rewrite_changes(pairs, content) && rewritten_content(pairs, content)
            == content,
{
    if forall|k: int|
        0 <= k < url_spans_of(content).len() ==> rewritten_url(
            pairs,
            content.subrange(
                (#[trigger] url_spans_of(content)[k]).0,
                url_spans_of(content)[k].1,
            ),
        ) is None {
        lemma_mods_of_all_none(pairs, content, url_spans_of(content));
    }
}

/// A message containing zero recognised-domain URLs — every detected span
/// either fails to parse to a domain host or parses to a host outside the
/// table — is left untouched, and the caller owes no collaborator call.
pub proof fn lemma_no_recognized_hosts_no_change(pairs: Seq<RewritePair>, content: Seq<u8>)
    ensures
        (forall|k: int|
            0 <= k < url_spans_of(content).len() ==> match host_of(
                content.subrange(
                    (#[trigger] url_spans_of(content)[k]).0,
                    url_spans_of(content)[k].1,
                ),
            ) {
                None => true,
                Some(h) => recognized_target(pairs, h) is None,
            }) ==> !rewrite_changes(pairs, content) && rewritten_content(pairs, content) == content,
{
    lemma_unrecognized_no_change(pairs, content);
}

/// A content with exactly one detected URL, which the table rewrites to
/// `repl`, is rewritten to precisely that span replaced: every byte before
/// the span's start and after its end is carried over unchanged.
pub proof fn lemma_single_url_rewrite(
    pairs: Seq<RewritePair>,
    content: Seq<u8>,
    s: int,
    e: int,
    repl: Seq<u8>,
)
    ensures
        (url_spans_of(content) == seq![(s, e)] && 0 <= s <= e <= content.len() && rewritten_url(
            pairs,
            content.subrange(s, e),
        ) == Some(repl)) ==> rewrite_changes(pairs, content) && rewritten_content(pairs, content)
            == content.subrange(0, s) + repl + content.subrange(e, content.len() as int),
{
    if url_spans_of(content) == seq![(s, e)] && 0 <= s <= e <= content.len() && rewritten_url(
        pairs,
        content.subrange(s, e),
    ) == Some(repl) {
        reveal_with_fuel(mods_of, 2);
        reveal_with_fuel(apply_desc, 2);
        let spans = url_spans_of(content);
        assert(spans.last() == (s, e));
        assert(spans.drop_last() =~= Seq::<(int, int)>::empty());
        let mods = mods_of(pairs, content, spans);
        assert(mods == Seq::<(int, int, Seq<u8>)>::empty().push((s, e, repl)));
        assert(mods.last() == (s, e, repl));
        assert(mods.drop_last() =~= Seq::<(int, int, Seq<u8>)>::empty());
        assert(rewritten_content(pairs, content) == splice(content, s, e, repl));
    }
}

/// Two non-overlapping, back-to-back substitutions applied from the higher
/// start offset down land exactly side by side: the result is the
/// untouched prefix, the first replacement, the bytes between the spans,
/// the second replacement, and the untouched suffix. Since this canonical
/// shape fixes the result, any application order that respects descending
/// offsets yields it; applying the lower span first would shift the higher
/// span's offsets whenever the replacement changes length.
pub proof fn lemma_adjacent_mods_apply(
    content: Seq<u8>,
    s1: int,
    e1: int,
    r1: Seq<u8>,
    s2: int,
    e2: int,
    r2: Seq<u8>,
)
    requires
        0 <= s1 <= e1 <= s2 <= e2 <= content.len(),
    ensures
        apply_desc(content, seq![(s1, e1, r1), (s2, e2, r2)]) == content.subrange(0, s1) + r1
            + content.subrange(e1, s2) + r2 + content.subrange(e2, content.len() as int),
{
    reveal_with_fuel(apply_desc, 3);
    let mods = seq![(s1, e1, r1), (s2, e2, r2)];
    let c1 = splice(content, s2, e2, r2);
    assert(mods.last() == (s2, e2, r2));
    assert(mods.drop_last() =~= seq![(s1, e1, r1)]);
    let m1 = seq![(s1, e1, r1)];
    assert(m1.last() == (s1, e1, r1));
    assert(m1.drop_last() =~= Seq::<(int, int, Seq<u8>)>::empty());
    let c2 = splice(c1, s1, e1, r1);
    assert(apply_desc(content, mods) == c2);
    assert(c1.subrange(0, s1) =~= content.subrange(0, s1));
    assert(c1.subrange(e1, c1.len() as int) =~= content.subrange(e1, s2) + r2 + content.subrange(
        e2,
        content.len() as int,
    ));
    assert(c2 == content.subrange(0, s1) + r1 + (content.subrange(e1, s2) + r2 + content.subrange(
        e2,
        content.len() as int,
    )));
    assert(c2 =~= content.subrange(0, s1) + r1 + content.subrange(e1, s2) + r2 + content.subrange(
        e2,
        content.len() as int,
    ));
}

/// One substitution to perform on the content: replace the byte span
/// `[start, end)` with `replacement`.
pub struct Modification {
    pub start: usize,
    pub end: usize,
    pub replacement: Vec<u8>,
}

/// The mathematical triple a `Modification` stands for.
pub open spec fn mod_view(m: Modification) -> (int, int, Seq<u8>) {
    (m.start as int, m.end as int, m.replacement@)
}

/// `ms` carries exactly the triples `sm`.
pub open spec fn mods_correspond(ms: Seq<Modification>, sm: Seq<(int, int, Seq<u8>)>) -> bool {
    &&& ms.len() == sm.len()
    &&& forall|i: int| 0 <= i < ms.len() ==> mod_view(#[trigger] ms[i]) == sm[i]
}

/// Find the mirror host for `host` in the table.
fn lookup_target(rules: &Vec<RewritePair>, host: &Vec<u8>) -> (r: Option<Vec<u8>>)
    ensures
        match r {
            Some(t) => recognized_target(rules@, host@) == Some(t@),
            None => recognized_target(rules@, host@) is None,
        },
{
    proof {
        assert(rules@.skip(0) =~= rules@);
    }
    let mut i: usize = 0;
    while i < rules.len()
        invariant
            0 <= i <= rules@.len(),
            recognized_target(rules@, host@) == recognized_target(rules@.skip(i as int), host@),
        decreases rules@.len() - i,
    {
        proof {
            assert(rules@.skip(i as int)[0] == rules@[i as int]);
        }
        if bytes_eq(rules[i].from.as_slice(), host.as_slice()) {
            return Some(vstd::slice::slice_to_vec(rules[i].to.as_slice()));
        }
        proof {
            assert(rules@.skip(i as int).skip(1) =~= rules@.skip(i as int + 1));
        }
        i = i + 1;
    }
    None
}

/// Compute the substitution list for this content under this table, in
/// span order.
fn compute_mods(rules: &Vec<RewritePair>, content: &[u8]) -> (r: Vec<Modification>)
    ensures
        mods_correspond(r@, mods_of(rules@, content@, url_spans_of(content@))),
        spans_sorted(url_spans_of(content@), content@.len() as int),
{
    let spans = find_url_spans(content);
    let ghost gspans = url_spans_of(content@);
    proof {
        assert forall|k: int| 0 <= k < gspans.len() implies 0 <= (#[trigger] gspans[k]).0
            <= gspans[k].1 <= content@.len() by {
            assert(gspans[k] == (spans@[k].0 as int, spans@[k].1 as int));
            assert(spans@[k].0 < spans@[k].1 <= content@.len());
        }
        assert forall|k: int, l: int| 0 <= k < l < gspans.len() implies (#[trigger] gspans[k]).1
            <= (#[trigger] gspans[l]).0 by {
            assert(gspans[k] == (spans@[k].0 as int, spans@[k].1 as int));
            assert(gspans[l] == (spans@[l].0 as int, spans@[l].1 as int));
            assert(spans@[k].1 <= spans@[l].0);
        }
        assert(spans_sorted(gspans, content@.len() as int));
    }
    let mut mods: Vec<Modification> = Vec::new();
    let mut i: usize = 0;
    proof {
        assert(gspans.take(0) =~= Seq::<(int, int)>::empty());
    }
    while i < spans.len()
        invariant
            0 <= i <= spans@.len(),
            spans@.len() == gspans.len(),
            gspans == url_spans_of(content@),
            forall|k: int|
                0 <= k < spans@.len() ==> gspans[k] == (
                    (#[trigger] spans@[k]).0 as int,
                    spans@[k].1 as int,
                ),
            forall|k: int|
                0 <= k < spans@.len() ==> (#[trigger] spans@[k]).0 < spans@[k].1 <= content@.len(),
            mods_correspond(mods@, mods_of(rules@, content@, gspans.take(i as int))),
        decreases spans@.len() - i,
    {
        let pair = spans[i];
        let s = pair.0;
        let e = pair.1;
        let raw: &[u8] = vstd::slice::slice_subrange(content, s, e);
        let ghost gtake = gspans.take(i as int + 1);
        proof {
            assert(gtake.drop_last() =~= gspans.take(i as int));
            assert(gtake.last() == gspans[i as int]);
        }
        let hostopt = url_host(raw);
        match hostopt {
            None => {
                assert(rewritten_url(rules@, content@.subrange(s as int, e as int)) is None);
            },
            Some(h) => {
                match lookup_target(rules, &h) {
                    None => {
                        assert(rewritten_url(rules@, content@.subrange(s as int, e as int)) is None);
                    },
                    Some(t) => {
                        match url_with_host(raw, t.as_slice()) {
                            None => {
                                assert(rewritten_url(
                                    rules@,
                                    content@.subrange(s as int, e as int),
                                ) is None);
                            },
                            Some(repl) => {
                                assert(rewritten_url(
                                    rules@,
                                    content@.subrange(s as int, e as int),
                                ) == Some(repl@));
                                mods.push(Modification { start: s, end: e, replacement: repl });
                            },
                        }
                    },
                }
            },
        }
        i = i + 1;
    }
    proof {
        assert(gspans.take(gspans.len() as int) =~= gspans);
    }
    mods
}

/// The outcome of the link rewriter for one message.
pub enum RewriteOutcome {
    /// No recognised URL: the message is left alone and no collaborator
    /// call is owed.
    NoChange,
    /// At least one URL was rewritten: the caller must retract the original
    /// and repost `new_content` under `identity`.
    Rewritten { new_content: Vec<u8>, identity: ProxyIdentity },
}

/// Rewrite every recognised URL in the message to its mirror host.
///
/// Returns `NoChange` exactly when no detected URL is rewritten by the
/// table; otherwise the new content is the original with each rewritten
/// span substituted, applied in descending start-offset order, and the
/// identity is the author's resolved display name with their avatar URL
/// normalised for proxy use.
pub fn rewrite(config: &AgentConfig, msg: &IncomingMessage) -> (r: RewriteOutcome)
    ensures
        match r {
            RewriteOutcome::NoChange => !rewrite_changes(config.rules@, msg.content@),
            RewriteOutcome::Rewritten { new_content, identity } => {
                &&& rewrite_changes(config.rules@, msg.content@)
                &&& new_content@ == rewritten_content(config.rules@, msg.content@)
                &&& identity.display_name@ == resolved_name(msg.author)
                &&& identity.avatar_url@ == normalized_avatar(msg.author_avatar_url@)
            },
        },
{
    let mods = compute_mods(&config.rules, msg.content.as_slice());
    let ghost content0 = msg.content@;
    let ghost smods = mods_of(config.rules@, content0, url_spans_of(content0));
    if mods.len() == 0 {
        return RewriteOutcome::NoChange;
    }
    proof {
        lemma_mods_of_sorted(config.rules@, content0, url_spans_of(content0), content0.len() as int);
        assert(smods.take(smods.len() as int) =~= smods);
    }
    let mut cur: Vec<u8> = vstd::slice::slice_to_vec(msg.content.as_slice());
    let mut j: usize = mods.len();
    while j > 0
        invariant
            0 <= j <= mods@.len(),
            mods_correspond(mods@, smods),
            mods_sorted(smods, content0.len() as int),
            apply_desc(content0, smods) == apply_desc(cur@, smods.take(j as int)),
            j > 0 ==> smods[j - 1].1 <= cur@.len(),
        decreases j,
    {
        let ghost gtake = smods.take(j as int);
        proof {
            assert(gtake.last() == smods[j - 1]);
            assert(gtake.drop_last() =~= smods.take(j - 1));
            assert(mod_view(mods@[j - 1]) == smods[j - 1]);
        }
        let m_start = mods[j - 1].start;
        let m_end = mods[j - 1].end;
        let nc = splice_bytes(cur.as_slice(), m_start, m_end, mods[j - 1].replacement.as_slice());
        proof {
            assert(nc@.len() >= m_start as int);
            if j - 1 > 0 {
                assert(smods[j - 2].1 <= smods[j - 1].0);
            }
        }
        cur = nc;
        j = j - 1;
    }
    proof {
        assert(smods.take(0) =~= Seq::<(int, int, Seq<u8>)>::empty());
    }
    let name = resolve_display_name(&msg.author);
    let avatar = normalize_avatar_url(msg.author_avatar_url.as_slice());
    RewriteOutcome::Rewritten {
        new_content: cur,
        identity: ProxyIdentity { display_name: name, avatar_url: avatar },
    }
}

} // verus!
