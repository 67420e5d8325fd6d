//! Canonical byte encoding of state, the SHA-256 trusted boundary, and the
//! 128-bit content hash derived from it.
//!
//! The encoding walks state in a fixed, rules-defined field order over the
//! mathematical view, so the hash depends on content alone and never on
//! internal storage order.

use sha2::Digest;
use vstd::prelude::*;

use crate::ids::Hash128;
use crate::ids::TileCoord;
use crate::state::City;
use crate::state::DealV;
use crate::state::DistrictV;
use crate::state::Player;
use crate::state::State;
use crate::state::StateV;
use crate::state::Unit;
use crate::state::wf;

verus! {

/// What `sha2::Sha256` returns for a byte string: a pure function of the
/// input alone, identical in every process and on every machine.
pub uninterp spec fn sha256_of(bytes: Seq<u8>) -> Seq<u8>;

/// Relies on sha2::Sha256::digest: a SHA-256 digest is 32 bytes and depends
/// only on the input bytes.
#[verifier::external_body]
pub(crate) fn sha256(bytes: &Vec<u8>) -> (r: Vec<u8>)
    ensures
        r@ == sha256_of(bytes@),
        r@.len() == 32,
{
    sha2::Sha256::digest(bytes.as_slice()).to_vec()
}

/// Little-endian eight-byte rendering of a 64-bit value.
pub open spec fn u64_le(x: u64) -> Seq<u8> {
    seq![
        (x % 256) as u8,
        ((x / 256) % 256) as u8,
        ((x / 65536) % 256) as u8,
        ((x / 16777216) % 256) as u8,
        ((x / 4294967296) % 256) as u8,
        ((x / 1099511627776) % 256) as u8,
        ((x / 281474976710656) % 256) as u8,
        ((x / 72057594037927936) % 256) as u8,
    ]
}

/// The little-endian rendering is injective: equal byte strings come from
/// equal values.
pub proof fn lemma_u64_le_injective(a: u64, b: u64)
    requires
        u64_le(a) == u64_le(b),
    ensures
        a == b,
{
    assert(u64_le(a)[0] == u64_le(b)[0]);
    assert(u64_le(a)[1] == u64_le(b)[1]);
    assert(u64_le(a)[2] == u64_le(b)[2]);
    assert(u64_le(a)[3] == u64_le(b)[3]);
    assert(u64_le(a)[4] == u64_le(b)[4]);
    assert(u64_le(a)[5] == u64_le(b)[5]);
    assert(u64_le(a)[6] == u64_le(b)[6]);
    assert(u64_le(a)[7] == u64_le(b)[7]);
    assert(a == b) by (bit_vector)
        requires
            a % 256 == b % 256,
            (a / 256) % 256 == (b / 256) % 256,
            (a / 65536) % 256 == (b / 65536) % 256,
            (a / 16777216) % 256 == (b / 16777216) % 256,
            (a / 4294967296) % 256 == (b / 4294967296) % 256,
            (a / 1099511627776) % 256 == (b / 1099511627776) % 256,
            (a / 281474976710656) % 256 == (b / 281474976710656) % 256,
            (a / 72057594037927936) % 256 == (b / 72057594037927936) % 256,
    ;
}

/// Append the little-endian bytes of `x`.
pub fn push_u64_le(out: &mut Vec<u8>, x: u64)
    ensures
        final(out)@ == old(out)@ + u64_le(x),
{
    out.push((x % 256) as u8);
    out.push(((x / 256) % 256) as u8);
    out.push(((x / 65536) % 256) as u8);
    out.push(((x / 16777216) % 256) as u8);
    out.push(((x / 4294967296) % 256) as u8);
    out.push(((x / 1099511627776) % 256) as u8);
    out.push(((x / 281474976710656) % 256) as u8);
    out.push(((x / 72057594037927936) % 256) as u8);
    proof {
        assert(out@ =~= old(out)@ + u64_le(x));
    }
}

/// Append a byte slice.
pub fn push_bytes(out: &mut Vec<u8>, b: &[u8])
    ensures
        final(out)@ == old(out)@ + b@,
{
    let mut i: usize = 0;
    while i < b.len()
        invariant
            0 <= i <= b@.len(),
            out@ == old(out)@ + b@.take(i as int),
        decreases b@.len() - i,
    {
        out.push(b[i]);
        proof {
            assert(out@ =~= old(out)@ + b@.take(i as int + 1));
        }
        i = i + 1;
    }
    proof {
        assert(b@.take(b@.len() as int) =~= b@);
    }
}

/// Length-prefixed UTF-8 encoding of a character sequence.
pub open spec fn enc_str(s: Seq<char>) -> Seq<u8> {
    u64_le(vstd::utf8::encode_utf8(s).len() as u64) + vstd::utf8::encode_utf8(s)
}

/// Append the length-prefixed UTF-8 bytes of a string.
pub fn push_str(out: &mut Vec<u8>, s: &str)
    ensures
        final(out)@ == old(out)@ + enc_str(s@),
{
    let b = s.as_bytes();
    push_u64_le(out, b.len() as u64);
    push_bytes(out, b);
    proof {
        assert(out@ =~= old(out)@ + enc_str(s@));
    }
}

/// Encoding of a tile coordinate; positions in a well-formed state are
/// non-negative.
pub open spec fn enc_tile(t: TileCoord) -> Seq<u8>
    recommends
        t.x >= 0,
        t.y >= 0,
{
    u64_le(t.x as u64) + u64_le(t.y as u64)
}

/// Append a tile coordinate.
pub fn push_tile(out: &mut Vec<u8>, t: TileCoord)
    requires
        t.x >= 0,
        t.y >= 0,
    ensures
        final(out)@ == old(out)@ + enc_tile(t),
{
    push_u64_le(out, t.x as u64);
    push_u64_le(out, t.y as u64);
    proof {
        assert(out@ =~= old(out)@ + enc_tile(t));
    }
}

/// Encoding of one player record.
pub open spec fn enc_player(p: Player) -> Seq<u8>
    recommends
        p.gold >= 0,
{
    u64_le(p.id.0) + u64_le(p.gold as u64)
}

/// Encoding of a player sequence, in storage order (sorted by id under the
/// state invariant).
pub open spec fn enc_players(ps: Seq<Player>) -> Seq<u8>
    decreases ps.len(),
{
    if ps.len() == 0 {
        Seq::empty()
    } else {
        enc_players(ps.drop_last()) + enc_player(ps.last())
    }
}

/// Encoding of one city record.
pub open spec fn enc_city(c: City) -> Seq<u8> {
    u64_le(c.id.0) + u64_le(c.owner.0) + enc_tile(c.pos)
}

/// Encoding of a city sequence.
pub open spec fn enc_cities(cs: Seq<City>) -> Seq<u8>
    decreases cs.len(),
{
    if cs.len() == 0 {
        Seq::empty()
    } else {
        enc_cities(cs.drop_last()) + enc_city(cs.last())
    }
}

/// Encoding of one unit record.
pub open spec fn enc_unit(u: Unit) -> Seq<u8> {
    u64_le(u.id.0) + u64_le(u.owner.0) + enc_tile(u.pos) + u64_le(
        if u.combat {
            1u64
        } else {
            0u64
        },
    ) + u64_le(
        if u.fortified {
            1u64
        } else {
            0u64
        },
    ) + u64_le(u.ap as u64)
}

/// Encoding of a unit sequence.
pub open spec fn enc_units(us: Seq<Unit>) -> Seq<u8>
    decreases us.len(),
{
    if us.len() == 0 {
        Seq::empty()
    } else {
        enc_units(us.drop_last()) + enc_unit(us.last())
    }
}

/// Encoding of one district record.
pub open spec fn enc_district(d: DistrictV) -> Seq<u8> {
    enc_tile(d.pos) + enc_str(d.kind)
}

/// Encoding of a district sequence.
pub open spec fn enc_districts(ds: Seq<DistrictV>) -> Seq<u8>
    decreases ds.len(),
{
    if ds.len() == 0 {
        Seq::empty()
    } else {
        enc_districts(ds.drop_last()) + enc_district(ds.last())
    }
}

/// Encoding of a sequence of strings.
pub open spec fn enc_strs(ss: Seq<Seq<char>>) -> Seq<u8>
    decreases ss.len(),
{
    if ss.len() == 0 {
        Seq::empty()
    } else {
        enc_strs(ss.drop_last()) + enc_str(ss.last())
    }
}

/// Encoding of one open deal.
pub open spec fn enc_deal(d: DealV) -> Seq<u8> {
    u64_le(d.id) + enc_str(d.json)
}

/// Encoding of a deal sequence.
pub open spec fn enc_deals(ds: Seq<DealV>) -> Seq<u8>
    decreases ds.len(),
{
    if ds.len() == 0 {
        Seq::empty()
    } else {
        enc_deals(ds.drop_last()) + enc_deal(ds.last())
    }
}

/// Canonical encoding of a whole state, in a fixed field order.
pub open spec fn enc_state(s: StateV) -> Seq<u8> {
    u64_le(s.turn as u64) + enc_str(s.rules_ver) + u64_le(s.width as u64) + u64_le(s.height as u64)
        + u64_le(s.players.len() as u64) + enc_players(s.players) + u64_le(s.cities.len() as u64)
        + enc_cities(s.cities) + u64_le(s.units.len() as u64) + enc_units(s.units) + u64_le(
        s.districts.len() as u64,
    ) + enc_districts(s.districts) + u64_le(s.researched.len() as u64) + enc_strs(s.researched)
        + u64_le(s.policies.len() as u64) + enc_strs(s.policies) + u64_le(s.open_deals.len() as u64)
        + enc_deals(s.open_deals) + u64_le(s.next_unit) + u64_le(s.next_deal)
}

/// The 128-bit value read little-endian from a byte sequence.
pub open spec fn u128_of_le(b: Seq<u8>) -> u128
    decreases b.len(),
{
    if b.len() == 0 {
        0u128
    } else {
        (b[0] as u128) | (u128_of_le(b.drop_first()) << 8)
    }
}

/// The deterministic content hash of a state view: SHA-256 over the
/// canonical encoding, truncated to 128 bits. Opaque: callers treat it as
/// an abstract function of content.
#[verifier::opaque]
pub open spec fn spec_state_hash(s: StateV) -> u128 {
    u128_of_le(sha256_of(enc_state(s)).take(16))
}

/// Serialize the state in canonical field order.
#[verifier::rlimit(80)]
pub fn state_bytes(state: &State) -> (r: Vec<u8>)
    requires
        wf(state@),
    ensures
        r@ == enc_state(state@),
{
    let ghost s = state@;
    let mut out: Vec<u8> = Vec::new();
    push_u64_le(&mut out, state.turn as u64);
    push_str(&mut out, state.rules_ver.as_str());
    push_u64_le(&mut out, state.width as u64);
    push_u64_le(&mut out, state.height as u64);
    let ghost pre_players = out@;

    push_u64_le(&mut out, state.players.len() as u64);
    let mut i: usize = 0;
    while i < state.players.len()
        invariant
            wf(s),
            state@ == s,
            0 <= i <= s.players.len(),
            out@ == pre_players + u64_le(s.players.len() as u64) + enc_players(
                s.players.take(i as int),
            ),
        decreases s.players.len() - i,
    {
        let p = state.players[i];
        push_u64_le(&mut out, p.id.0);
        push_u64_le(&mut out, p.gold as u64);
        proof {
            assert(s.players.take(i as int + 1).drop_last() =~= s.players.take(i as int));
            assert(s.players.take(i as int + 1).last() == s.players[i as int]);
            assert(out@ =~= pre_players + u64_le(s.players.len() as u64) + enc_players(
                s.players.take(i as int + 1),
            ));
        }
        i = i + 1;
    }
    proof {
        assert(s.players.take(s.players.len() as int) =~= s.players);
    }
    let ghost pre_cities = out@;

    push_u64_le(&mut out, state.cities.len() as u64);
    let mut i2: usize = 0;
    while i2 < state.cities.len()
        invariant
            wf(s),
            state@ == s,
            0 <= i2 <= s.cities.len(),
            out@ == pre_cities + u64_le(s.cities.len() as u64) + enc_cities(
                s.cities.take(i2 as int),
            ),
        decreases s.cities.len() - i2,
    {
        let c = state.cities[i2];
        push_u64_le(&mut out, c.id.0);
        push_u64_le(&mut out, c.owner.0);
        push_tile(&mut out, c.pos);
        proof {
            assert(s.cities.take(i2 as int + 1).drop_last() =~= s.cities.take(i2 as int));
            assert(s.cities.take(i2 as int + 1).last() == s.cities[i2 as int]);
            assert(out@ =~= pre_cities + u64_le(s.cities.len() as u64) + enc_cities(
                s.cities.take(i2 as int + 1),
            ));
        }
        i2 = i2 + 1;
    }
    proof {
        assert(s.cities.take(s.cities.len() as int) =~= s.cities);
    }
    let ghost pre_units = out@;

    push_u64_le(&mut out, state.units.len() as u64);
    let mut i3: usize = 0;
    while i3 < state.units.len()
        invariant
            wf(s),
            state@ == s,
            0 <= i3 <= s.units.len(),
            out@ == pre_units + u64_le(s.units.len() as u64) + enc_units(s.units.take(i3 as int)),
        decreases s.units.len() - i3,
    {
        let u = state.units[i3];
        push_u64_le(&mut out, u.id.0);
        push_u64_le(&mut out, u.owner.0);
        push_tile(&mut out, u.pos);
        push_u64_le(&mut out, if u.combat { 1 } else { 0 });
        push_u64_le(&mut out, if u.fortified { 1 } else { 0 });
        push_u64_le(&mut out, u.ap as u64);
        proof {
            assert(s.units.take(i3 as int + 1).drop_last() =~= s.units.take(i3 as int));
            assert(s.units.take(i3 as int + 1).last() == s.units[i3 as int]);
            assert(out@ =~= pre_units + u64_le(s.units.len() as u64) + enc_units(
                s.units.take(i3 as int + 1),
            ));
        }
        i3 = i3 + 1;
    }
    proof {
        assert(s.units.take(s.units.len() as int) =~= s.units);
    }
    let ghost pre_districts = out@;

    push_u64_le(&mut out, state.districts.len() as u64);
    let mut i4: usize = 0;
    while i4 < state.districts.len()
        invariant
            wf(s),
            state@ == s,
            0 <= i4 <= s.districts.len(),
            out@ == pre_districts + u64_le(s.districts.len() as u64) + enc_districts(
                s.districts.take(i4 as int),
            ),
        decreases s.districts.len() - i4,
    {
        let t = state.districts[i4].pos;
        proof {
            assert(s.districts[i4 as int] == state.districts@[i4 as int]@);
            assert(in_bounds_nonneg(s, s.districts[i4 as int].pos));
        }
        push_tile(&mut out, t);
        push_str(&mut out, state.districts[i4].kind.as_str());
        proof {
            assert(s.districts.take(i4 as int + 1).drop_last() =~= s.districts.take(i4 as int));
            assert(s.districts.take(i4 as int + 1).last() == s.districts[i4 as int]);
            assert(out@ =~= pre_districts + u64_le(s.districts.len() as u64) + enc_districts(
                s.districts.take(i4 as int + 1),
            ));
        }
        i4 = i4 + 1;
    }
    proof {
        assert(s.districts.take(s.districts.len() as int) =~= s.districts);
    }
    let ghost pre_res = out@;

    push_u64_le(&mut out, state.researched.len() as u64);
    let mut i5: usize = 0;
    while i5 < state.researched.len()
        invariant
            wf(s),
            state@ == s,
            0 <= i5 <= s.researched.len(),
            out@ == pre_res + u64_le(s.researched.len() as u64) + enc_strs(
                s.researched.take(i5 as int),
            ),
        decreases s.researched.len() - i5,
    {
        push_str(&mut out, state.researched[i5].as_str());
        proof {
            assert(s.researched[i5 as int] == state.researched@[i5 as int]@);
            assert(s.researched.take(i5 as int + 1).drop_last() =~= s.researched.take(i5 as int));
            assert(s.researched.take(i5 as int + 1).last() == s.researched[i5 as int]);
            assert(out@ =~= pre_res + u64_le(s.researched.len() as u64) + enc_strs(
                s.researched.take(i5 as int + 1),
            ));
        }
        i5 = i5 + 1;
    }
    proof {
        assert(s.researched.take(s.researched.len() as int) =~= s.researched);
    }
    let ghost pre_pol = out@;

    push_u64_le(&mut out, state.policies.len() as u64);
    let mut i6: usize = 0;
    while i6 < state.policies.len()
        invariant
            wf(s),
            state@ == s,
            0 <= i6 <= s.policies.len(),
            out@ == pre_pol + u64_le(s.policies.len() as u64) + enc_strs(
                s.policies.take(i6 as int),
            ),
        decreases s.policies.len() - i6,
    {
        push_str(&mut out, state.policies[i6].as_str());
        proof {
            assert(s.policies[i6 as int] == state.policies@[i6 as int]@);
            assert(s.policies.take(i6 as int + 1).drop_last() =~= s.policies.take(i6 as int));
            assert(s.policies.take(i6 as int + 1).last() == s.policies[i6 as int]);
            assert(out@ =~= pre_pol + u64_le(s.policies.len() as u64) + enc_strs(
                s.policies.take(i6 as int + 1),
            ));
        }
        i6 = i6 + 1;
    }
    proof {
        assert(s.policies.take(s.policies.len() as int) =~= s.policies);
    }
    let ghost pre_deals = out@;

    push_u64_le(&mut out, state.open_deals.len() as u64);
    let mut i7: usize = 0;
    while i7 < state.open_deals.len()
        invariant
            wf(s),
            state@ == s,
            0 <= i7 <= s.open_deals.len(),
            out@ == pre_deals + u64_le(s.open_deals.len() as u64) + enc_deals(
                s.open_deals.take(i7 as int),
            ),
        decreases s.open_deals.len() - i7,
    {
        push_u64_le(&mut out, state.open_deals[i7].id);
        push_str(&mut out, state.open_deals[i7].json.as_str());
        proof {
            assert(s.open_deals[i7 as int] == state.open_deals@[i7 as int]@);
            assert(s.open_deals.take(i7 as int + 1).drop_last() =~= s.open_deals.take(i7 as int));
            assert(s.open_deals.take(i7 as int + 1).last() == s.open_deals[i7 as int]);
            assert(out@ =~= pre_deals + u64_le(s.open_deals.len() as u64) + enc_deals(
                s.open_deals.take(i7 as int + 1),
            ));
        }
        i7 = i7 + 1;
    }
    proof {
        assert(s.open_deals.take(s.open_deals.len() as int) =~= s.open_deals);
    }
    push_u64_le(&mut out, state.next_unit);
    push_u64_le(&mut out, state.next_deal);
    proof {
        assert(out@ =~= enc_state(s));
    }
    out
}

/// Positions referenced by a well-formed state are non-negative.
pub open spec fn in_bounds_nonneg(s: StateV, t: TileCoord) -> bool {
    t.x >= 0 && t.y >= 0
}

/// Compute the deterministic 128-bit content hash of a state: a pure
/// function of the state view, identical on any machine and any replay.
pub fn state_hash(state: &State) -> (r: Hash128)
    requires
        wf(state@),
    ensures
        r.0 == spec_state_hash(state@),
{
    proof {
        reveal(spec_state_hash);
    }
    let bytes = state_bytes(state);
    let digest = sha256(&bytes);
    let mut acc: u128 = 0;
    let mut i: usize = 16;
    proof {
        assert(sha256_of(enc_state(state@)).take(16).skip(16) =~= Seq::<u8>::empty());
    }
    while i > 0
        invariant
            0 <= i <= 16,
            digest@ == sha256_of(enc_state(state@)),
            digest@.len() == 32,
            acc == u128_of_le(sha256_of(enc_state(state@)).take(16).skip(i as int)),
        decreases i,
    {
        let b = digest[i - 1];
        acc = (b as u128) | (acc << 8);
        proof {
            let t16 = sha256_of(enc_state(state@)).take(16);
            assert(t16.skip(i as int - 1).drop_first() =~= t16.skip(i as int));
            assert(t16.skip(i as int - 1)[0] == digest@[i as int - 1]);
        }
        i = i - 1;
    }
    proof {
        assert(sha256_of(enc_state(state@)).take(16).skip(0) =~= sha256_of(
            enc_state(state@),
        ).take(16));
    }
    Hash128(acc)
}

/// Hexadecimal digit sequence for `d` in `0..16`.
pub open spec fn hex_digit(d: int) -> Seq<char> {
    if d < 10 {
        crate::strutil::dec_digit(d)
    } else if d == 10 {
        "a"@
    } else if d == 11 {
        "b"@
    } else if d == 12 {
        "c"@
    } else if d == 13 {
        "d"@
    } else if d == 14 {
        "e"@
    } else {
        "f"@
    }
}

/// Lowercase hexadecimal rendering of a byte sequence, two digits per byte.
pub open spec fn hex_of(b: Seq<u8>) -> Seq<char>
    decreases b.len(),
{
    if b.len() == 0 {
        Seq::empty()
    } else {
        hex_of(b.drop_last()) + hex_digit(b.last() as int / 16) + hex_digit(b.last() as int % 16)
    }
}

/// Literal slice for one hexadecimal digit.
fn hex_digit_str(d: u8) -> (r: &'static str)
    requires
        d < 16,
    ensures
        r@ == hex_digit(d as int),
{
    if d < 10 {
        crate::strutil::digit_str(d as u64)
    } else if d == 10 {
        "a"
    } else if d == 11 {
        "b"
    } else if d == 12 {
        "c"
    } else if d == 13 {
        "d"
    } else if d == 14 {
        "e"
    } else {
        "f"
    }
}

/// Lowercase hexadecimal rendering of a byte vector.
pub fn hex_string(b: &Vec<u8>) -> (r: String)
    ensures
        r@ == hex_of(b@),
{
    let mut out = String::new();
    let mut i: usize = 0;
    while i < b.len()
        invariant
            0 <= i <= b@.len(),
            out@ == hex_of(b@.take(i as int)),
        decreases b@.len() - i,
    {
        let v = b[i];
        out.append(hex_digit_str(v / 16));
        out.append(hex_digit_str(v % 16));
        proof {
            assert(b@.take(i as int + 1).drop_last() =~= b@.take(i as int));
            assert(b@.take(i as int + 1).last() == b@[i as int]);
            assert(out@ =~= hex_of(b@.take(i as int + 1)));
        }
        i = i + 1;
    }
    proof {
        assert(b@.take(b@.len() as int) =~= b@);
    }
    out
}

} // verus!
