//! Configuration of the pipeline: the source-to-mirror host table, the
//! identifiers that gate retraction, and the fixed marker strings.
use vstd::prelude::*;

verus! {

/// One entry of the rewrite table: URLs whose host equals `from` are
/// rewritten to carry the host `to`.
pub struct RewritePair {
    pub from: Vec<u8>,
    pub to: Vec<u8>,
}

/// Everything the pipeline is parameterised over: the host table, the
/// application identifier whose proxy posts may be retracted, the one
/// privileged operator, and the phrases that signal deletion intent.
pub struct AgentConfig {
    pub rules: Vec<RewritePair>,
    pub application_id: u64,
    pub privileged_user_id: u64,
    pub deletion_phrases: Vec<Vec<u8>>,
}

/// "x.com"
pub open spec fn host_x() -> Seq<u8> {
    seq![120u8, 46u8, 99u8, 111u8, 109u8]
}

/// "twitter.com"
pub open spec fn host_twitter() -> Seq<u8> {
    seq![116u8, 119u8, 105u8, 116u8, 116u8, 101u8, 114u8, 46u8, 99u8, 111u8, 109u8]
}

/// "fxtwitter.com"
pub open spec fn host_mirror() -> Seq<u8> {
    seq![102u8, 120u8, 116u8, 119u8, 105u8, 116u8, 116u8, 101u8, 114u8, 46u8, 99u8, 111u8, 109u8]
}

/// "supprime"
pub open spec fn phrase_supprime() -> Seq<u8> {
    seq![115u8, 117u8, 112u8, 112u8, 114u8, 105u8, 109u8, 101u8]
}

/// "atomise"
pub open spec fn phrase_atomise() -> Seq<u8> {
    seq![97u8, 116u8, 111u8, 109u8, 105u8, 115u8, 101u8]
}

impl AgentConfig {
    /// The shipped configuration: x.com and twitter.com are mirrored to
    /// fxtwitter.com, and the two French deletion-intent phrases are
    /// recognised.
    pub fn mirror_defaults(application_id: u64, privileged_user_id: u64) -> (r: AgentConfig)
        ensures
            r.rules@.len() == 2,
            r.rules@[0].from@ == host_x(),
            r.rules@[0].to@ == host_mirror(),
            r.rules@[1].from@ == host_twitter(),
            r.rules@[1].to@ == host_mirror(),
            r.application_id == application_id,
            r.privileged_user_id == privileged_user_id,
            r.deletion_phrases@.len() == 2,
            r.deletion_phrases@[0]@ == phrase_supprime(),
            r.deletion_phrases@[1]@ == phrase_atomise(),
    {
        let x: Vec<u8> = vec![120u8, 46u8, 99u8, 111u8, 109u8];
        let tw: Vec<u8> = vec![
            116u8,
            119u8,
            105u8,
            116u8,
            116u8,
            101u8,
            114u8,
            46u8,
            99u8,
            111u8,
            109u8,
        ];
        let fx1: Vec<u8> = vec![
            102u8,
            120u8,
            116u8,
            119u8,
            105u8,
            116u8,
            116u8,
            101u8,
            114u8,
            46u8,
            99u8,
            111u8,
            109u8,
        ];
        let fx2: Vec<u8> = vstd::slice::slice_to_vec(fx1.as_slice());
        let supprime: Vec<u8> = vec![115u8, 117u8, 112u8, 112u8, 114u8, 105u8, 109u8, 101u8];
        let atomise: Vec<u8> = vec![97u8, 116u8, 111u8, 109u8, 105u8, 115u8, 101u8];
        let mut rules: Vec<RewritePair> = Vec::new();
        rules.push(RewritePair { from: x, to: fx1 });
        rules.push(RewritePair { from: tw, to: fx2 });
        let mut deletion_phrases: Vec<Vec<u8>> = Vec::new();
        deletion_phrases.push(supprime);
        deletion_phrases.push(atomise);
        let r = AgentConfig { rules, application_id, privileged_user_id, deletion_phrases };
        proof {
            assert(r.rules@[0].from@ =~= host_x());
            assert(r.rules@[0].to@ =~= host_mirror());
            assert(r.rules@[1].from@ =~= host_twitter());
            assert(r.rules@[1].to@ =~= host_mirror());
            assert(r.deletion_phrases@[0]@ =~= phrase_supprime());
            assert(r.deletion_phrases@[1]@ =~= phrase_atomise());
        }
        r
    }
}

} // verus!
