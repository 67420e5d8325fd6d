//! The engine's and orchestrator's governing laws, stated and proved over
//! the spec-level models: determinism of replay, invariant preservation
//! under arbitrary action streams, idempotent submission, and the binding
//! of action identifiers to their content.

use vstd::prelude::*;

use crate::action::ActionV;
use crate::codec::i32_key;
use crate::engine::action_valid;
use crate::engine::spec_apply;
use crate::engine::lemma_apply_wf;
use crate::hashing::spec_state_hash;
use crate::hashing::u64_le;
use crate::orch::ReqV;
use crate::orch::find_ack;
use crate::orch::find_rec;
use crate::orch::lemma_find_ack_push;
use crate::orch::lemma_find_rec;
use crate::orch::spec_action_id;
use crate::orch::spec_submit;
use crate::orch::id_input;
use crate::orch::MatchRecordV;
use crate::state::StateV;
use crate::state::wf;

verus! {

/// One step of a replay: a valid action transitions the state, an invalid
/// one leaves it unchanged.
pub open spec fn step(s: StateV, a: ActionV) -> StateV {
    if action_valid(s, a) {
        spec_apply(s, a)
    } else {
        s
    }
}

/// The state after applying an ordered action script from `s`.
pub open spec fn replay(s: StateV, acts: Seq<ActionV>) -> StateV
    decreases acts.len(),
{
    if acts.len() == 0 {
        s
    } else {
        replay(step(s, acts[0]), acts.drop_first())
    }
}

/// Determinism: two independent replays of the same ordered action script
/// from the same initial state produce the same final state content and
/// therefore the same content hash, on any machine and any run — the
/// transition and the hash are pure functions of content.
pub proof fn lemma_replay_deterministic(
    s1: StateV,
    s2: StateV,
    acts1: Seq<ActionV>,
    acts2: Seq<ActionV>,
)
    requires
        s1 == s2,
        acts1 == acts2,
    ensures
        replay(s1, acts1) == replay(s2, acts2),
        spec_state_hash(replay(s1, acts1)) == spec_state_hash(replay(s2, acts2)),
{
}

/// Invariant preservation: after every prefix of any action script, valid
/// or invalid, a well-formed state stays well-formed — rejected actions
/// change nothing, and accepted ones preserve every invariant.
pub proof fn lemma_replay_preserves_wf(s: StateV, acts: Seq<ActionV>)
    requires
        wf(s),
    ensures
        wf(replay(s, acts)),
    decreases acts.len(),
{
    if acts.len() > 0 {
        if action_valid(s, acts[0]) {
            lemma_apply_wf(s, acts[0]);
        }
        lemma_replay_preserves_wf(step(s, acts[0]), acts.drop_first());
    }
}

/// Replacing a record under its own match id leaves the lookup index
/// unchanged.
pub proof fn lemma_find_rec_update_same(ms: Seq<MatchRecordV>, ix: int, rec: MatchRecordV)
    requires
        0 <= ix < ms.len(),
        find_rec(ms, rec.match_id) == ix,
        ms[ix].match_id == rec.match_id,
    ensures
        find_rec(ms.update(ix, rec), rec.match_id) == ix,
{
    let t = ms.update(ix, rec);
    let id = rec.match_id;
    lemma_find_rec(ms, id);
    lemma_find_rec(t, id);
    let j = find_rec(t, id);
    if j == -1 {
        assert(t[ix].match_id == id);
        assert(false);
    }
    if j < ix {
        assert(t[j] == ms[j]);
        assert(ms[j].match_id != id);
        assert(false);
    }
    if j > ix {
        assert(t[ix].match_id == id);
        assert(false);
    }
}

/// Idempotent submission: submitting the same content twice yields the
/// identical acknowledgement, and the second submission changes no match
/// state beyond what the first changed.
pub proof fn lemma_idempotent_submission(ms: Seq<MatchRecordV>, req: ReqV)
    ensures
        spec_submit(spec_submit(ms, req).0, req).0 == spec_submit(ms, req).0,
        spec_submit(spec_submit(ms, req).0, req).1 == spec_submit(ms, req).1,
{
    let first = spec_submit(ms, req);
    if req.action_id == spec_action_id(
        req.match_id,
        req.turn,
        req.player_id,
        req.action_bytes,
        req.prev_hash_prefix,
    ) {
        lemma_find_rec(ms, req.match_id);
        let ix = find_rec(ms, req.match_id);
        if ix >= 0 {
            let rec = ms[ix];
            match find_ack(rec.processed, req.action_id) {
                Some(_a) => {},
                None => {
                    match crate::codec::dec_action(req.action_bytes) {
                        None => {},
                        Some(av) => {
                            let rec2 = first.0[ix];
                            assert(rec2.match_id == rec.match_id);
                            lemma_find_rec_update_same(ms, ix, rec2);
                            let ack = first.1->Ok_0;
                            lemma_find_ack_push(rec.processed, req.action_id, ack, req.action_id);
                            assert(find_ack(rec2.processed, req.action_id) == Some(ack));
                        },
                    }
                },
            }
        }
    }
}

/// Identifier binding: changing exactly one of the match id, the turn, the
/// player id, or the payload bytes of a submission changes the byte string
/// the action identifier is computed over, so a claimed identifier is bound
/// to its exact content up to hash collisions; a submission whose
/// recomputed identifier differs from the claimed one is rejected before
/// the engine is invoked (see `spec_submit`).
pub proof fn lemma_id_input_binds_content(r1: ReqV, r2: ReqV)
    requires
        r1.prev_hash_prefix == r2.prev_hash_prefix,
        ({
            ||| (r1.match_id != r2.match_id && r1.turn == r2.turn && r1.player_id == r2.player_id
                && r1.action_bytes == r2.action_bytes)
            ||| (r1.match_id == r2.match_id && r1.turn != r2.turn && r1.player_id == r2.player_id
                && r1.action_bytes == r2.action_bytes)
            ||| (r1.match_id == r2.match_id && r1.turn == r2.turn && r1.player_id != r2.player_id
                && r1.action_bytes == r2.action_bytes)
            ||| (r1.match_id == r2.match_id && r1.turn == r2.turn && r1.player_id == r2.player_id
                && r1.action_bytes != r2.action_bytes)
        }),
    ensures
        id_input(r1.match_id, r1.turn, r1.player_id, r1.action_bytes, r1.prev_hash_prefix)
            != id_input(r2.match_id, r2.turn, r2.player_id, r2.action_bytes, r2.prev_hash_prefix),
{
    let m1 = vstd::utf8::encode_utf8(r1.match_id);
    let m2 = vstd::utf8::encode_utf8(r2.match_id);
    let p1 = vstd::utf8::encode_utf8(r1.player_id);
    let p2 = vstd::utf8::encode_utf8(r2.player_id);
    let t1 = u64_le(i32_key(r1.turn));
    let t2 = u64_le(i32_key(r2.turn));
    let i1 = m1 + t1 + p1 + r1.action_bytes + r1.prev_hash_prefix;
    let i2 = m2 + t2 + p2 + r2.action_bytes + r2.prev_hash_prefix;
    vstd::utf8::encode_utf8_decode_utf8(r1.match_id);
    vstd::utf8::encode_utf8_decode_utf8(r2.match_id);
    vstd::utf8::encode_utf8_decode_utf8(r1.player_id);
    vstd::utf8::encode_utf8_decode_utf8(r2.player_id);
    if i1 == i2 {
        assert(i1.len() == i2.len());
        if r1.match_id != r2.match_id {
            assert(m1.len() == m2.len());
            assert(m1 =~= m2) by {
                assert forall|k: int| 0 <= k < m1.len() implies m1[k] == m2[k] by {
                    assert(i1[k] == i2[k]);
                }
            }
            assert(r1.match_id == vstd::utf8::decode_utf8(m1));
            assert(r2.match_id == vstd::utf8::decode_utf8(m2));
            assert(false);
        } else if r1.turn != r2.turn {
            assert(t1 =~= t2) by {
                assert forall|k: int| 0 <= k < t1.len() implies t1[k] == t2[k] by {
                    assert(i1[m1.len() + k] == i2[m1.len() + k]);
                }
            }
            crate::hashing::lemma_u64_le_injective(i32_key(r1.turn), i32_key(r2.turn));
            assert(i32_key(r1.turn) == i32_key(r2.turn));
            assert(false);
        } else if r1.player_id != r2.player_id {
            assert(p1.len() == p2.len());
            assert(p1 =~= p2) by {
                assert forall|k: int| 0 <= k < p1.len() implies p1[k] == p2[k] by {
                    assert(i1[m1.len() + t1.len() + k] == i2[m1.len() + t1.len() + k]);
                }
            }
            assert(r1.player_id == vstd::utf8::decode_utf8(p1));
            assert(r2.player_id == vstd::utf8::decode_utf8(p2));
            assert(false);
        } else {
            assert(r1.action_bytes.len() == r2.action_bytes.len());
            assert(r1.action_bytes =~= r2.action_bytes) by {
                assert forall|k: int|
                    0 <= k < r1.action_bytes.len() implies r1.action_bytes[k]
                    == r2.action_bytes[k] by {
                    assert(i1[m1.len() + t1.len() + p1.len() + k] == i2[m1.len() + t1.len()
                        + p1.len() + k]);
                }
            }
            assert(false);
        }
    }
}

} // verus!
