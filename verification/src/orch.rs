//! The match orchestrator: owns one state per match, binds every submission
//! to a content-derived action identifier, and guarantees at-most-once
//! application by replaying the stored acknowledgement on duplicate
//! submission.
//!
//! Every mutating operation is pinned to a spec-level transition of the
//! service view, so retries and replays are provably deterministic.

use vstd::prelude::*;

use crate::action::Action;
use crate::codec::dec_action;
use crate::codec::decode_action;
use crate::codec::i32_key;
use crate::codec::i32_key_exec;
use crate::engine::action_valid;
use crate::engine::apply_action;
use crate::engine::end_turn;
use crate::engine::spec_apply;
use crate::engine::spec_end_turn;
use crate::hashing::hex_of;
use crate::hashing::push_bytes;
use crate::hashing::push_u64_le;
use crate::hashing::sha256_of;
use crate::hashing::spec_state_hash;
use crate::hashing::state_hash;
use crate::hashing::u64_le;
use crate::ids::PlayerId;
use crate::state::State;
use crate::state::StateV;
use crate::state::TURN_CAP;
use crate::state::MAX_PLAYERS;
use crate::state::spec_initial_state;
use crate::state::wf;
use crate::strutil::dec_str;
use crate::strutil::dec_string;

verus! {

/// The stored answer to one action submission.
#[derive(Debug)]
pub struct Acknowledgement {
    pub accepted: bool,
    pub error: String,
    pub action_id: String,
    pub new_state_hash: Vec<u8>,
}

/// Mathematical view of an acknowledgement.
#[verifier::ext_equal]
pub ghost struct AckV {
    pub accepted: bool,
    pub error: Seq<char>,
    pub action_id: Seq<char>,
    pub new_state_hash: Seq<u8>,
}

impl View for Acknowledgement {
    type V = AckV;

    open spec fn view(&self) -> AckV {
        AckV {
            accepted: self.accepted,
            error: self.error@,
            action_id: self.action_id@,
            new_state_hash: self.new_state_hash@,
        }
    }
}

/// Copy a byte vector element by element.
fn copy_bytes(b: &Vec<u8>) -> (r: Vec<u8>)
    ensures
        r@ == b@,
{
    let mut out: Vec<u8> = Vec::new();
    let mut i: usize = 0;
    while i < b.len()
        invariant
            0 <= i <= b@.len(),
            out@ == b@.take(i as int),
        decreases b@.len() - i,
    {
        out.push(b[i]);
        proof {
            assert(out@ =~= b@.take(i as int + 1));
        }
        i = i + 1;
    }
    proof {
        assert(b@.take(b@.len() as int) =~= b@);
    }
    out
}

/// Copy a string vector element by element.
fn copy_strings(v: &Vec<String>) -> (r: Vec<String>)
    ensures
        r.deep_view() == v.deep_view(),
{
    let mut out: Vec<String> = Vec::new();
    let mut i: usize = 0;
    while i < v.len()
        invariant
            0 <= i <= v@.len(),
            out@.len() == i as int,
            forall|k: int| 0 <= k < i as int ==> #[trigger] out@[k] == v@[k],
        decreases v@.len() - i,
    {
        out.push(v[i].clone());
        i = i + 1;
    }
    proof {
        assert(out.deep_view() =~~= v.deep_view());
    }
    out
}

impl Acknowledgement {
    /// A byte-identical copy of the acknowledgement.
    pub fn duplicate(&self) -> (r: Acknowledgement)
        ensures
            r@ == self@,
    {
        let r = Acknowledgement {
            accepted: self.accepted,
            error: self.error.clone(),
            action_id: self.action_id.clone(),
            new_state_hash: copy_bytes(&self.new_state_hash),
        };
        proof {
            assert(r@ =~= self@);
        }
        r
    }
}

/// The orchestrator's record of one live match.
#[derive(Debug)]
pub struct MatchRecord {
    pub match_id: String,
    pub players: Vec<String>,
    pub seed: u64,
    pub state: State,
    pub processed: Vec<(String, Acknowledgement)>,
}

/// Mathematical view of a match record.
#[verifier::ext_equal]
pub ghost struct MatchRecordV {
    pub match_id: Seq<char>,
    pub players: Seq<Seq<char>>,
    pub seed: u64,
    pub state: StateV,
    pub processed: Seq<(Seq<char>, AckV)>,
}

impl View for MatchRecord {
    type V = MatchRecordV;

    open spec fn view(&self) -> MatchRecordV {
        MatchRecordV {
            match_id: self.match_id@,
            players: self.players.deep_view(),
            seed: self.seed,
            state: self.state@,
            processed: self.processed@.map_values(
                |p: (String, Acknowledgement)| (p.0@, p.1@),
            ),
        }
    }
}

/// A structured service-level failure, surfaced to the remote caller.
#[derive(Debug)]
pub enum ServiceError {
    InvalidArgument(String),
    NotFound(String),
}

/// Mathematical view of a service error.
pub ghost enum ServiceErrorV {
    InvalidArgument(Seq<char>),
    NotFound(Seq<char>),
}

impl View for ServiceError {
    type V = ServiceErrorV;

    open spec fn view(&self) -> ServiceErrorV {
        match self {
            ServiceError::InvalidArgument(m) => ServiceErrorV::InvalidArgument(m@),
            ServiceError::NotFound(m) => ServiceErrorV::NotFound(m@),
        }
    }
}

/// A player-scoped read of current match state.
#[derive(Debug)]
pub struct Observation {
    pub turn: i32,
    pub player_id: String,
    pub state_hash: Vec<u8>,
    pub legal_actions: Vec<Action>,
    pub tech: Vec<String>,
}

/// One submission's raw content, as the service model sees it.
pub ghost struct ReqV {
    pub match_id: Seq<char>,
    pub turn: i32,
    pub player_id: Seq<char>,
    pub action_id: Seq<char>,
    pub action_bytes: Seq<u8>,
    pub prev_hash_prefix: Seq<u8>,
}

/// The byte string hashed into an action identifier: the concatenation of
/// match id, turn, player id, raw payload bytes, and the previous-state
/// hash prefix.
pub open spec fn id_input(
    match_id: Seq<char>,
    turn: i32,
    player_id: Seq<char>,
    action_bytes: Seq<u8>,
    prev_hash_prefix: Seq<u8>,
) -> Seq<u8> {
    vstd::utf8::encode_utf8(match_id) + u64_le(i32_key(turn)) + vstd::utf8::encode_utf8(player_id)
        + action_bytes + prev_hash_prefix
}

/// The action identifier demanded for given submission content.
pub open spec fn spec_action_id(
    match_id: Seq<char>,
    turn: i32,
    player_id: Seq<char>,
    action_bytes: Seq<u8>,
    prev_hash_prefix: Seq<u8>,
) -> Seq<char> {
    hex_of(sha256_of(id_input(match_id, turn, player_id, action_bytes, prev_hash_prefix)))
}

/// Little-endian sixteen-byte rendering of a 128-bit value.
pub open spec fn u128_le(x: u128) -> Seq<u8> {
    u64_le((x % 18446744073709551616) as u64) + u64_le((x / 18446744073709551616) as u64)
}

/// Wire bytes of a match state's content hash.
pub open spec fn spec_hash_bytes(s: StateV) -> Seq<u8> {
    u128_le(spec_state_hash(s))
}

/// Render a state's content hash as its sixteen wire bytes.
#[verifier::rlimit(60)]
pub fn hash_bytes_of(state: &State) -> (r: Vec<u8>)
    requires
        wf(state@),
    ensures
        r@ == spec_hash_bytes(state@),
{
    let h = state_hash(state);
    let x = h.0;
    let lo = (x % 18446744073709551616) as u64;
    let hi = (x / 18446744073709551616) as u64;
    let mut out: Vec<u8> = Vec::new();
    push_u64_le(&mut out, lo);
    push_u64_le(&mut out, hi);
    proof {
        assert(out@ =~= u128_le(x));
    }
    out
}

/// The match identifier assigned to a creation request with this seed.
pub open spec fn match_id_chars(seed: u64) -> Seq<char> {
    "match_"@ + dec_str(seed as int)
}

/// First position of a wire player id in the match's player list, or -1.
pub open spec fn wire_player_ix(players: Seq<Seq<char>>, id: Seq<char>) -> int
    decreases players.len(),
{
    if players.len() == 0 {
        -1
    } else if players[0] == id {
        0
    } else {
        let r = wire_player_ix(players.drop_first(), id);
        if r < 0 {
            -1
        } else {
            r + 1
        }
    }
}

/// The engine-level player identifier of a wire player id: its position in
/// the match's player list, or an identifier no player of the match holds.
pub open spec fn wire_player(players: Seq<Seq<char>>, id: Seq<char>) -> PlayerId {
    let ix = wire_player_ix(players, id);
    if ix >= 0 {
        PlayerId(ix as u64)
    } else {
        PlayerId(u64::MAX)
    }
}

/// Shape of `wire_player_ix`: -1 and no match, or the first match.
pub proof fn lemma_wire_player_ix(players: Seq<Seq<char>>, id: Seq<char>)
    ensures
        wire_player_ix(players, id) == -1 ==> forall|i: int|
            0 <= i < players.len() ==> #[trigger] players[i] != id,
        wire_player_ix(players, id) != -1 ==> {
            &&& 0 <= wire_player_ix(players, id) < players.len()
            &&& players[wire_player_ix(players, id)] == id
            &&& forall|i: int|
                0 <= i < wire_player_ix(players, id) ==> #[trigger] players[i] != id
        },
    decreases players.len(),
{
    if players.len() > 0 && players[0] != id {
        lemma_wire_player_ix(players.drop_first(), id);
        assert forall|i: int| 1 <= i < players.len() implies players.drop_first()[i - 1]
            == players[i] by {}
    }
}

/// First index of the record owning `match_id`, or -1.
pub open spec fn find_rec(ms: Seq<MatchRecordV>, match_id: Seq<char>) -> int
    decreases ms.len(),
{
    if ms.len() == 0 {
        -1
    } else if ms[0].match_id == match_id {
        0
    } else {
        let r = find_rec(ms.drop_first(), match_id);
        if r < 0 {
            -1
        } else {
            r + 1
        }
    }
}

/// Shape of `find_rec`: -1 and no match, or the first matching index.
pub proof fn lemma_find_rec(ms: Seq<MatchRecordV>, match_id: Seq<char>)
    ensures
        find_rec(ms, match_id) == -1 ==> forall|i: int|
            0 <= i < ms.len() ==> (#[trigger] ms[i]).match_id != match_id,
        find_rec(ms, match_id) != -1 ==> {
            &&& 0 <= find_rec(ms, match_id) < ms.len()
            &&& ms[find_rec(ms, match_id)].match_id == match_id
            &&& forall|i: int|
                0 <= i < find_rec(ms, match_id) ==> (#[trigger] ms[i]).match_id != match_id
        },
    decreases ms.len(),
{
    if ms.len() > 0 && ms[0].match_id != match_id {
        lemma_find_rec(ms.drop_first(), match_id);
        assert forall|i: int| 1 <= i < ms.len() implies ms.drop_first()[i - 1] == ms[i] by {}
    }
}

/// First stored acknowledgement under `action_id`, if any.
pub open spec fn find_ack(ps: Seq<(Seq<char>, AckV)>, action_id: Seq<char>) -> Option<AckV>
    decreases ps.len(),
{
    if ps.len() == 0 {
        None
    } else if ps[0].0 == action_id {
        Some(ps[0].1)
    } else {
        find_ack(ps.drop_first(), action_id)
    }
}

/// Appending a new acknowledgement never disturbs earlier lookups, and a
/// lookup of a fresh identifier finds exactly the appended value.
pub proof fn lemma_find_ack_push(ps: Seq<(Seq<char>, AckV)>, id: Seq<char>, a: AckV, q: Seq<char>)
    ensures
        find_ack(ps, q) is Some ==> find_ack(ps.push((id, a)), q) == find_ack(ps, q),
        (find_ack(ps, q) is None && q == id) ==> find_ack(ps.push((id, a)), q) == Some(a),
        (find_ack(ps, q) is None && q != id) ==> find_ack(ps.push((id, a)), q) is None,
    decreases ps.len(),
{
    if ps.len() == 0 {
        assert(ps.push((id, a)).drop_first() =~= Seq::<(Seq<char>, AckV)>::empty());
    } else {
        assert(ps.push((id, a)).drop_first() =~= ps.drop_first().push((id, a)));
        lemma_find_ack_push(ps.drop_first(), id, a, q);
    }
}

/// The record created for a match-creation request.
pub open spec fn init_record(seed: u64, players: Seq<Seq<char>>) -> MatchRecordV {
    MatchRecordV {
        match_id: match_id_chars(seed),
        players,
        seed,
        state: spec_initial_state(seed, players.len() as int),
        processed: Seq::empty(),
    }
}

/// Build the fresh record for a creation request.
#[verifier::rlimit(100)]
fn build_record(seed: u64, players: &Vec<String>) -> (r: MatchRecord)
    requires
        1 <= players@.len() <= MAX_PLAYERS,
    ensures
        r@ == init_record(seed, players.deep_view()),
        wf(r@.state),
{
    let mut match_id = "match_".to_owned();
    let seed_str = dec_string(seed);
    match_id.append(seed_str.as_str());
    let state = State::from_seed(seed, players.len());
    let mut copied: Vec<String> = Vec::new();
    let mut i: usize = 0;
    while i < players.len()
        invariant
            0 <= i <= players@.len(),
            copied@.len() == i as int,
            forall|k: int| 0 <= k < i as int ==> #[trigger] copied@[k] == players@[k],
        decreases players@.len() - i,
    {
        copied.push(players[i].clone());
        i = i + 1;
    }
    proof {
        assert(copied.deep_view() =~~= players.deep_view());
    }
    let rec = MatchRecord { match_id, players: copied, seed, state, processed: Vec::new() };
    proof {
        assert(rec@.processed =~= Seq::<(Seq<char>, AckV)>::empty());
        assert(rec@ =~= init_record(seed, players.deep_view()));
    }
    rec
}

/// The service after a record is inserted or replaced under its match id.
pub open spec fn upsert(ms: Seq<MatchRecordV>, rec: MatchRecordV) -> Seq<MatchRecordV> {
    let ix = find_rec(ms, rec.match_id);
    if ix >= 0 {
        ms.update(ix, rec)
    } else {
        ms.push(rec)
    }
}

/// The service and answer after one submission: the idempotent action
/// pipeline as a pure function of service content and request content.
pub open spec fn spec_submit(ms: Seq<MatchRecordV>, req: ReqV) -> (Seq<MatchRecordV>, Result<
    AckV,
    ServiceErrorV,
>) {
    if req.action_id != spec_action_id(
        req.match_id,
        req.turn,
        req.player_id,
        req.action_bytes,
        req.prev_hash_prefix,
    ) {
        (ms, Err(ServiceErrorV::InvalidArgument("action_id does not match computed hash"@)))
    } else {
        let ix = find_rec(ms, req.match_id);
        if ix < 0 {
            (ms, Err(ServiceErrorV::NotFound("match not found"@)))
        } else {
            let rec = ms[ix];
            match find_ack(rec.processed, req.action_id) {
                Some(a) => (ms, Ok(a)),
                None => match dec_action(req.action_bytes) {
                    None => (
                        ms,
                        Ok(
                            AckV {
                                accepted: false,
                                error: "invalid action payload"@,
                                action_id: req.action_id,
                                new_state_hash: Seq::empty(),
                            },
                        ),
                    ),
                    Some(av) => {
                        if action_valid(rec.state, av) {
                            let st2 = spec_apply(rec.state, av);
                            let ack = AckV {
                                accepted: true,
                                error: Seq::empty(),
                                action_id: req.action_id,
                                new_state_hash: spec_hash_bytes(st2),
                            };
                            (
                                ms.update(
                                    ix,
                                    MatchRecordV {
                                        state: st2,
                                        processed: rec.processed.push((req.action_id, ack)),
                                        ..rec
                                    },
                                ),
                                Ok(ack),
                            )
                        } else {
                            let ack = AckV {
                                accepted: false,
                                error: "action rejected by rules"@,
                                action_id: req.action_id,
                                new_state_hash: spec_hash_bytes(rec.state),
                            };
                            (
                                ms.update(
                                    ix,
                                    MatchRecordV {
                                        processed: rec.processed.push((req.action_id, ack)),
                                        ..rec
                                    },
                                ),
                                Ok(ack),
                            )
                        }
                    },
                },
            }
        }
    }
}

/// Decoded-action leg of a submission: validate and apply against the
/// record's state, hash, build the acknowledgement, and store it under the
/// identifier.
#[verifier::rlimit(100)]
fn apply_and_store(rec: &mut MatchRecord, action_id: &String, act: Action) -> (ack:
    Acknowledgement)
    requires
        wf(old(rec)@.state),
    ensures
        wf(final(rec)@.state),
        ({
            let rv = old(rec)@;
            let av = act@;
            if action_valid(rv.state, av) {
                let st2 = spec_apply(rv.state, av);
                let a = AckV {
                    accepted: true,
                    error: Seq::empty(),
                    action_id: action_id@,
                    new_state_hash: spec_hash_bytes(st2),
                };
                final(rec)@ == (MatchRecordV {
                    state: st2,
                    processed: rv.processed.push((action_id@, a)),
                    ..rv
                }) && ack@ == a
            } else {
                let a = AckV {
                    accepted: false,
                    error: "action rejected by rules"@,
                    action_id: action_id@,
                    new_state_hash: spec_hash_bytes(rv.state),
                };
                final(rec)@ == (MatchRecordV {
                    processed: rv.processed.push((action_id@, a)),
                    ..rv
                }) && ack@ == a
            }
        }),
{
    let ghost recv = rec@;
    let ghost av = act@;
    let applied = apply_action(&mut rec.state, act);
    let ack = match applied {
        Ok(_effects) => Acknowledgement {
            accepted: true,
            error: String::new(),
            action_id: action_id.clone(),
            new_state_hash: hash_bytes_of(&rec.state),
        },
        Err(_e) => Acknowledgement {
            accepted: false,
            error: "action rejected by rules".to_owned(),
            action_id: action_id.clone(),
            new_state_hash: hash_bytes_of(&rec.state),
        },
    };
    let stored = ack.duplicate();
    rec.processed.push((action_id.clone(), stored));
    proof {
        assert(rec@.processed =~= recv.processed.push((action_id@, ack@)));
        if action_valid(recv.state, av) {
            let st2 = spec_apply(recv.state, av);
            let a = AckV {
                accepted: true,
                error: Seq::empty(),
                action_id: action_id@,
                new_state_hash: spec_hash_bytes(st2),
            };
            assert(ack@ =~= a);
            assert(rec@ =~= (MatchRecordV {
                state: st2,
                processed: recv.processed.push((action_id@, a)),
                ..recv
            }));
        } else {
            let a = AckV {
                accepted: false,
                error: "action rejected by rules"@,
                action_id: action_id@,
                new_state_hash: spec_hash_bytes(recv.state),
            };
            assert(ack@ =~= a);
            assert(rec@ =~= (MatchRecordV {
                processed: recv.processed.push((action_id@, a)),
                ..recv
            }));
        }
    }
    ack
}

/// Well-formedness of the whole service: every match state is well-formed
/// and match identifiers are unique.
pub open spec fn service_wf(ms: Seq<MatchRecordV>) -> bool {
    &&& forall|i: int| 0 <= i < ms.len() ==> wf((#[trigger] ms[i]).state)
    &&& forall|i: int, j: int|
        0 <= i < j < ms.len() ==> (#[trigger] ms[i]).match_id != (#[trigger] ms[j]).match_id
}

/// The network-facing match service: one record per live match.
#[derive(Debug)]
pub struct MatchService {
    pub matches: Vec<MatchRecord>,
}

impl View for MatchService {
    type V = Seq<MatchRecordV>;

    open spec fn view(&self) -> Seq<MatchRecordV> {
        self.matches@.map_values(|r: MatchRecord| r@)
    }
}

impl MatchService {
    /// Fresh service with no matches.
    pub fn new() -> (r: MatchService)
        ensures
            r@.len() == 0,
            service_wf(r@),
    {
        let r = MatchService { matches: Vec::new() };
        proof {
            assert(r@ =~= Seq::<MatchRecordV>::empty());
        }
        r
    }

    /// Recompute the action identifier from raw submission content:
    /// a SHA-256 digest, in hexadecimal, over the byte concatenation of
    /// match id, turn, player id, payload bytes, and hash prefix.
    pub fn compute_action_id(
        match_id: &str,
        turn: i32,
        player_id: &str,
        action_bytes: &Vec<u8>,
        prev_hash_prefix: &Vec<u8>,
    ) -> (r: String)
        ensures
            r@ == spec_action_id(match_id@, turn, player_id@, action_bytes@, prev_hash_prefix@),
    {
        let mut input: Vec<u8> = Vec::new();
        push_bytes(&mut input, match_id.as_bytes());
        push_u64_le(&mut input, i32_key_exec(turn));
        push_bytes(&mut input, player_id.as_bytes());
        push_bytes(&mut input, action_bytes.as_slice());
        push_bytes(&mut input, prev_hash_prefix.as_slice());
        proof {
            assert(input@ =~= id_input(
                match_id@,
                turn,
                player_id@,
                action_bytes@,
                prev_hash_prefix@,
            ));
        }
        let digest = crate::hashing::sha256(&input);
        crate::hashing::hex_string(&digest)
    }

    /// Index of the record owning `match_id`.
    fn find_record(&self, match_id: &String) -> (r: Option<usize>)
        ensures
            (r is Some ==> r->0 as int == find_rec(self@, match_id@)),
            (r is None ==> find_rec(self@, match_id@) == -1),
    {
        proof {
            lemma_find_rec(self@, match_id@);
        }
        let mut i: usize = 0;
        while i < self.matches.len()
            invariant
                0 <= i <= self@.len(),
                self@.len() == self.matches@.len(),
                forall|k: int| 0 <= k < i as int ==> (#[trigger] self@[k]).match_id != match_id@,
            decreases self@.len() - i,
        {
            if self.matches[i].match_id.eq(match_id) {
                proof {
                    assert(self@[i as int].match_id == match_id@);
                    lemma_find_rec(self@, match_id@);
                    if find_rec(self@, match_id@) == -1 {
                        assert(false);
                    }
                    if find_rec(self@, match_id@) > i as int {
                        assert(false);
                    }
                }
                return Some(i);
            }
            proof {
                assert(self@[i as int].match_id != match_id@);
            }
            i = i + 1;
        }
        None
    }

    /// Create a match from a seed and player list: a fresh state at turn
    /// zero, recorded under the seed-derived match identifier; a repeated
    /// creation with the same seed replaces the record. Rejects an empty or
    /// oversized player list, exactly.
    #[verifier::rlimit(100)]
    pub fn create_match(&mut self, seed: u64, players: &Vec<String>) -> (r: Result<
        (String, Vec<u8>, i32),
        ServiceError,
    >)
        requires
            service_wf(old(self)@),
        ensures
            service_wf(final(self)@),
            (r is Ok <==> 1 <= players@.len() <= MAX_PLAYERS),
            (r is Err ==> final(self)@ == old(self)@ && r->Err_0@ is InvalidArgument),
            (r is Ok ==> final(self)@ == upsert(
                old(self)@,
                init_record(seed, players.deep_view()),
            )),
            (r is Ok ==> {
                &&& r->Ok_0.0@ == match_id_chars(seed)
                &&& r->Ok_0.1@ == spec_hash_bytes(spec_initial_state(seed, players@.len() as int))
                &&& r->Ok_0.2 == 0
            }),
    {
        if players.len() == 0 || players.len() > MAX_PLAYERS {
            return Err(
                ServiceError::InvalidArgument("player count must be between 1 and 8".to_owned()),
            );
        }
        let rec = build_record(seed, players);
        let match_id = rec.match_id.clone();
        let hash = hash_bytes_of(&rec.state);
        self.store_record(rec);
        Ok((match_id, hash, 0))
    }

    /// Insert the record, replacing any record holding its match id.
    fn store_record(&mut self, rec: MatchRecord)
        requires
            service_wf(old(self)@),
            wf(rec@.state),
        ensures
            service_wf(final(self)@),
            final(self)@ == upsert(old(self)@, rec@),
    {
        let ghost ms0 = self@;
        let ghost rv = rec@;
        match self.find_record(&rec.match_id) {
            Some(ix) => {
                proof {
                    lemma_find_rec(ms0, rv.match_id);
                }
                self.matches.remove(ix);
                self.matches.insert(ix, rec);
                proof {
                    assert(self@ =~= ms0.update(ix as int, rv));
                    lemma_upsert_wf(ms0, rv);
                }
            },
            None => {
                self.matches.push(rec);
                proof {
                    assert(self@ =~= ms0.push(rv));
                    lemma_upsert_wf(ms0, rv);
                }
            },
        }
    }

    /// A pure, player-scoped read of current match state: turn, content
    /// hash, researched technology, and the legal actions of the named
    /// player, pinned to the engine's enumeration.
    pub fn get_observation(&self, match_id: &String, player_id: &String) -> (r: Result<
        Observation,
        ServiceError,
    >)
        requires
            service_wf(self@),
        ensures
            (r is Ok <==> find_rec(self@, match_id@) >= 0),
            (r is Err ==> r->Err_0@ is NotFound),
            (r is Ok ==> {
                let rec = self@[find_rec(self@, match_id@)];
                &&& r->Ok_0.turn as int == rec.state.turn
                &&& r->Ok_0.state_hash@ == spec_hash_bytes(rec.state)
                &&& r->Ok_0.player_id@ == player_id@
                &&& r->Ok_0.legal_actions@.map_values(|a: Action| a@)
                    == crate::engine::legal_actions(
                    rec.state,
                    wire_player(rec.players, player_id@),
                )
                &&& r->Ok_0.tech.deep_view() == rec.state.researched
            }),
    {
        proof {
            lemma_find_rec(self@, match_id@);
        }
        match self.find_record(match_id) {
            None => Err(ServiceError::NotFound("match not found".to_owned())),
            Some(ix) => {
                let rec = &self.matches[ix];
                let pid = Self::player_index(&rec.players, player_id);
                let legal = crate::engine::enumerate_legal_actions(&rec.state, pid);
                let tech = copy_strings(&rec.state.researched);
                Ok(
                    Observation {
                        turn: rec.state.turn,
                        player_id: player_id.clone(),
                        state_hash: hash_bytes_of(&rec.state),
                        legal_actions: legal,
                        tech,
                    },
                )
            },
        }
    }

    /// The engine-level player identifier of a wire player id: its position
    /// in the match's player list, or an identifier no player holds.
    fn player_index(players: &Vec<String>, player_id: &String) -> (r: PlayerId)
        ensures
            r == wire_player(players.deep_view(), player_id@),
    {
        proof {
            lemma_wire_player_ix(players.deep_view(), player_id@);
        }
        let mut i: usize = 0;
        while i < players.len()
            invariant
                0 <= i <= players@.len(),
                players.deep_view().len() == players@.len(),
                forall|k: int| 0 <= k < i as int ==> #[trigger] players.deep_view()[k]
                    != player_id@,
                wire_player_ix(players.deep_view(), player_id@) == -1 || wire_player_ix(
                    players.deep_view(),
                    player_id@,
                ) >= i as int,
            decreases players@.len() - i,
        {
            if players[i].eq(player_id) {
                proof {
                    assert(players.deep_view()[i as int] == player_id@);
                    lemma_wire_player_ix(players.deep_view(), player_id@);
                    if wire_player_ix(players.deep_view(), player_id@) == -1 {
                        assert(false);
                    }
                    if wire_player_ix(players.deep_view(), player_id@) > i as int {
                        assert(false);
                    }
                }
                return PlayerId(i as u64);
            }
            proof {
                assert(players.deep_view()[i as int] != player_id@);
                lemma_wire_player_ix(players.deep_view(), player_id@);
            }
            i = i + 1;
        }
        PlayerId(u64::MAX)
    }

    /// Submit an action: reject identifier/content mismatches and unknown
    /// matches; replay the stored acknowledgement for an already-seen
    /// identifier without touching state; otherwise decode, validate, apply,
    /// hash, store, and answer — exactly the `spec_submit` pipeline.
    #[verifier::rlimit(100)]
    pub fn submit_action(
        &mut self,
        match_id: &String,
        turn: i32,
        player_id: &String,
        action_id: &String,
        action_bytes: &Vec<u8>,
        prev_hash_prefix: &Vec<u8>,
    ) -> (r: Result<Acknowledgement, ServiceError>)
        requires
            service_wf(old(self)@),
        ensures
            service_wf(final(self)@),
            final(self)@ == spec_submit(
                old(self)@,
                ReqV {
                    match_id: match_id@,
                    turn,
                    player_id: player_id@,
                    action_id: action_id@,
                    action_bytes: action_bytes@,
                    prev_hash_prefix: prev_hash_prefix@,
                },
            ).0,
            ({
                let res = spec_submit(
                    old(self)@,
                    ReqV {
                        match_id: match_id@,
                        turn,
                        player_id: player_id@,
                        action_id: action_id@,
                        action_bytes: action_bytes@,
                        prev_hash_prefix: prev_hash_prefix@,
                    },
                ).1;
                match r {
                    Ok(a) => res is Ok && a@ == res->Ok_0,
                    Err(e) => res is Err && e@ == res->Err_0,
                }
            }),
    {
        let ghost req = ReqV {
            match_id: match_id@,
            turn,
            player_id: player_id@,
            action_id: action_id@,
            action_bytes: action_bytes@,
            prev_hash_prefix: prev_hash_prefix@,
        };
        let ghost ms0 = self@;
        let computed = Self::compute_action_id(
            match_id.as_str(),
            turn,
            player_id.as_str(),
            action_bytes,
            prev_hash_prefix,
        );
        if !computed.eq(action_id) {
            return Err(
                ServiceError::InvalidArgument("action_id does not match computed hash".to_owned()),
            );
        }
        let ix = match self.find_record(match_id) {
            None => {
                return Err(ServiceError::NotFound("match not found".to_owned()));
            },
            Some(ix) => ix,
        };
        proof {
            lemma_find_rec(ms0, match_id@);
        }
        let mut rec = self.matches.remove(ix);
        let ghost recv = rec@;
        proof {
            assert(ms0[ix as int] == recv);
        }
        match Self::find_stored(&rec, action_id) {
            Some(k) => {
                let ack = rec.processed[k].1.duplicate();
                self.matches.insert(ix, rec);
                proof {
                    assert(self@ =~= ms0);
                }
                Ok(ack)
            },
            None => {
                match decode_action(action_bytes) {
                    None => {
                        let ack = Acknowledgement {
                            accepted: false,
                            error: "invalid action payload".to_owned(),
                            action_id: action_id.clone(),
                            new_state_hash: Vec::new(),
                        };
                        self.matches.insert(ix, rec);
                        proof {
                            assert(self@ =~= ms0);
                            assert(ack@ =~= spec_submit(ms0, req).1->Ok_0);
                        }
                        Ok(ack)
                    },
                    Some(act) => {
                        let ghost av = act@;
                        let ack = apply_and_store(&mut rec, action_id, act);
                        self.matches.insert(ix, rec);
                        proof {
                            assert(ack@ =~= spec_submit(ms0, req).1->Ok_0);
                            assert(self@ =~= spec_submit(ms0, req).0);
                            lemma_submit_wf(ms0, req);
                        }
                        Ok(ack)
                    },
                }
            },
        }
    }

    /// Index of the stored acknowledgement for `action_id`, if any.
    fn find_stored(rec: &MatchRecord, action_id: &String) -> (r: Option<usize>)
        ensures
            (r is Some ==> 0 <= r->0 < rec@.processed.len() && find_ack(rec@.processed, action_id@)
                == Some(rec@.processed[r->0 as int].1) && rec@.processed[r->0 as int].0
                == action_id@),
            (r is None ==> find_ack(rec@.processed, action_id@) is None),
    {
        let mut i: usize = 0;
        while i < rec.processed.len()
            invariant
                0 <= i <= rec@.processed.len(),
                rec@.processed.len() == rec.processed@.len(),
                forall|k: int| 0 <= k < i as int ==> (#[trigger] rec@.processed[k]).0 != action_id@,
            decreases rec@.processed.len() - i,
        {
            if rec.processed[i].0.eq(action_id) {
                proof {
                    assert(rec@.processed[i as int].0 == action_id@);
                    lemma_find_ack_first(rec@.processed, action_id@, i as int);
                }
                return Some(i);
            }
            proof {
                assert(rec@.processed[i as int].0 != action_id@);
            }
            i = i + 1;
        }
        proof {
            lemma_find_ack_none(rec@.processed, action_id@);
        }
        None
    }

    /// Advance the match's turn as one end-of-turn step and report the new
    /// turn, the emitted events, and the new content hash. Not idempotency
    /// guarded: each accepted call genuinely advances state.
    #[verifier::rlimit(100)]
    pub fn advance(&mut self, match_id: &String) -> (r: Result<
        (i32, Vec<String>, Vec<u8>),
        ServiceError,
    >)
        requires
            service_wf(old(self)@),
        ensures
            service_wf(final(self)@),
            (find_rec(old(self)@, match_id@) < 0 ==> r is Err && r->Err_0@ is NotFound
                && final(self)@ == old(self)@),
            (find_rec(old(self)@, match_id@) >= 0 ==> {
                let ix = find_rec(old(self)@, match_id@);
                let rec = old(self)@[ix];
                if rec.state.turn < TURN_CAP {
                    &&& r is Ok
                    &&& final(self)@ == old(self)@.update(
                        ix,
                        MatchRecordV { state: spec_end_turn(rec.state), ..rec },
                    )
                    &&& r->Ok_0.0 as int == rec.state.turn + 1
                    &&& r->Ok_0.1.deep_view() == seq!["TurnAdvanced"@]
                    &&& r->Ok_0.2@ == spec_hash_bytes(spec_end_turn(rec.state))
                } else {
                    r is Err && r->Err_0@ is InvalidArgument && final(self)@ == old(self)@
                }
            }),
    {
        let ghost ms0 = self@;
        let ix = match self.find_record(match_id) {
            None => {
                return Err(ServiceError::NotFound("match not found".to_owned()));
            },
            Some(ix) => ix,
        };
        proof {
            lemma_find_rec(ms0, match_id@);
        }
        let mut rec = self.matches.remove(ix);
        let ghost recv = rec@;
        proof {
            assert(ms0[ix as int] == recv);
        }
        match end_turn(&mut rec.state) {
            Ok(()) => {
                let new_turn = rec.state.turn;
                let hash = hash_bytes_of(&rec.state);
                let mut events: Vec<String> = Vec::new();
                events.push("TurnAdvanced".to_owned());
                self.matches.insert(ix, rec);
                proof {
                    assert(events.deep_view() =~= seq!["TurnAdvanced"@]);
                    assert(self@ =~= ms0.update(
                        ix as int,
                        MatchRecordV { state: spec_end_turn(recv.state), ..recv },
                    ));
                    assert forall|i: int| 0 <= i < self@.len() implies wf(
                        (#[trigger] self@[i]).state,
                    ) by {
                        if i == ix as int {
                            crate::engine::lemma_end_turn_wf(recv.state);
                        }
                    }
                }
                Ok((new_turn, events, hash))
            },
            Err(_e) => {
                self.matches.insert(ix, rec);
                proof {
                    assert(self@ =~= ms0);
                }
                Err(ServiceError::InvalidArgument("turn limit reached".to_owned()))
            },
        }
    }

    /// Route a proposed deal to the negotiation collaborator: the document
    /// is validated, and this core's policy declines every offer with a
    /// fixed reason and no counter-offer; no match record is touched.
    pub fn negotiate(&self, deal_json: &String) -> (r: (bool, String, String))
        ensures
            r.0 == false,
            r.1@ == "deal declined"@,
            r.2@ == Seq::<char>::empty(),
    {
        let empty_state = State::new();
        let accepted = crate::deal::evaluate_deal(&empty_state, PlayerId(0), deal_json.as_str());
        if accepted {
            (true, String::new(), String::new())
        } else {
            (false, "deal declined".to_owned(), String::new())
        }
    }
}

impl Default for MatchService {
    /// Same fresh service as `MatchService::new`.
    fn default() -> (r: MatchService)
        ensures
            r@.len() == 0,
            service_wf(r@),
    {
        MatchService::new()
    }
}

/// If the first `i` entries miss and entry `i` matches, the lookup answers
/// with entry `i`.
pub proof fn lemma_find_ack_first(ps: Seq<(Seq<char>, AckV)>, id: Seq<char>, i: int)
    requires
        0 <= i < ps.len(),
        ps[i].0 == id,
        forall|k: int| 0 <= k < i ==> (#[trigger] ps[k]).0 != id,
    ensures
        find_ack(ps, id) == Some(ps[i].1),
    decreases i,
{
    if i > 0 {
        assert forall|k: int| 1 <= k < ps.len() implies ps.drop_first()[k - 1] == ps[k] by {}
        lemma_find_ack_first(ps.drop_first(), id, i - 1);
    }
}

/// If no entry matches, the lookup answers nothing.
pub proof fn lemma_find_ack_none(ps: Seq<(Seq<char>, AckV)>, id: Seq<char>)
    requires
        forall|k: int| 0 <= k < ps.len() ==> (#[trigger] ps[k]).0 != id,
    ensures
        find_ack(ps, id) is None,
    decreases ps.len(),
{
    if ps.len() > 0 {
        assert forall|k: int| 1 <= k < ps.len() implies ps.drop_first()[k - 1] == ps[k] by {}
        lemma_find_ack_none(ps.drop_first(), id);
    }
}

/// Upserting a record with a well-formed state preserves service
/// well-formedness.
pub proof fn lemma_upsert_wf(ms: Seq<MatchRecordV>, rec: MatchRecordV)
    requires
        service_wf(ms),
        wf(rec.state),
    ensures
        service_wf(upsert(ms, rec)),
{
    lemma_find_rec(ms, rec.match_id);
    let ix = find_rec(ms, rec.match_id);
    let t = upsert(ms, rec);
    if ix >= 0 {
        assert forall|i: int, j: int|
            0 <= i < j < t.len() implies (#[trigger] t[i]).match_id != (
        #[trigger] t[j]).match_id by {
            if i != ix && j != ix {
                assert(t[i] == ms[i] && t[j] == ms[j]);
            } else if i == ix {
                assert(t[j] == ms[j]);
                if ms[j].match_id == rec.match_id {
                    assert(ms[ix].match_id == rec.match_id);
                }
            } else {
                assert(t[i] == ms[i]);
                if ms[i].match_id == rec.match_id {
                    if i < ix {
                        assert(false);
                    } else {
                        assert(ms[ix].match_id == rec.match_id);
                    }
                }
            }
        }
    } else {
        assert forall|i: int, j: int|
            0 <= i < j < t.len() implies (#[trigger] t[i]).match_id != (
        #[trigger] t[j]).match_id by {
            if j < ms.len() {
                assert(t[i] == ms[i] && t[j] == ms[j]);
            } else {
                assert(t[i] == ms[i]);
            }
        }
    }
}

/// One submission preserves service well-formedness.
pub proof fn lemma_submit_wf(ms: Seq<MatchRecordV>, req: ReqV)
    requires
        service_wf(ms),
    ensures
        service_wf(spec_submit(ms, req).0),
{
    let t = spec_submit(ms, req).0;
    lemma_find_rec(ms, req.match_id);
    let ix = find_rec(ms, req.match_id);
    if req.action_id == spec_action_id(
        req.match_id,
        req.turn,
        req.player_id,
        req.action_bytes,
        req.prev_hash_prefix,
    ) && ix >= 0 {
        let rec = ms[ix];
        if find_ack(rec.processed, req.action_id) is None && dec_action(req.action_bytes) is Some {
            let av = dec_action(req.action_bytes)->0;
            assert forall|i: int| 0 <= i < t.len() implies wf((#[trigger] t[i]).state) by {
                if i == ix {
                    if action_valid(rec.state, av) {
                        crate::engine::lemma_apply_wf(rec.state, av);
                    }
                }
            }
            assert forall|i: int, j: int|
                0 <= i < j < t.len() implies (#[trigger] t[i]).match_id != (
            #[trigger] t[j]).match_id by {}
        }
    }
}

} // verus!
