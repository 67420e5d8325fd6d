//! Wire codec for action payload bytes: a tagged, length-prefixed binary
//! format with an exact spec-level decoder, so the orchestrator's handling
//! of payloads is a pure function of the bytes.

use vstd::prelude::*;

use crate::action::Action;
use crate::action::ActionV;
use crate::hashing::enc_str;
use crate::hashing::push_str;
use crate::hashing::push_u64_le;
use crate::hashing::u64_le;
use crate::ids::CityId;
use crate::ids::TileCoord;
use crate::ids::UnitId;

verus! {

/// Most path steps a wire-encoded move may carry.
pub const MAX_WIRE_PATH: u64 = 8;

/// Unsigned wire key of a 32-bit signed value (two's-complement offset).
pub open spec fn i32_key(x: i32) -> u64 {
    if x >= 0 {
        x as u64
    } else {
        (x + 4294967296) as u64
    }
}

/// Executable form of `i32_key`.
pub fn i32_key_exec(x: i32) -> (r: u64)
    ensures
        r == i32_key(x),
{
    if x >= 0 {
        x as u64
    } else {
        ((x as i64) + 4294967296) as u64
    }
}

/// Signed reading of a 32-bit wire key; keys above 2^32 are malformed.
pub open spec fn key_i32(k: u64) -> Option<i32> {
    if k < 2147483648 {
        Some(k as i32)
    } else if k < 4294967296 {
        Some((k - 4294967296) as i32)
    } else {
        None
    }
}

/// Executable form of `key_i32`.
pub fn key_i32_exec(k: u64) -> (r: Option<i32>)
    ensures
        r == key_i32(k),
{
    if k < 2147483648 {
        Some(k as i32)
    } else if k < 4294967296 {
        Some(((k as i64) - 4294967296) as i32)
    } else {
        None
    }
}

/// Wire encoding of one tile coordinate (signed keys, unlike the canonical
/// state encoding, which only ever sees in-bounds tiles).
pub open spec fn enc_wire_tile(t: TileCoord) -> Seq<u8> {
    u64_le(i32_key(t.x)) + u64_le(i32_key(t.y))
}

/// Wire encoding of a movement path, in order.
pub open spec fn enc_wire_tiles(path: Seq<TileCoord>) -> Seq<u8>
    decreases path.len(),
{
    if path.len() == 0 {
        Seq::empty()
    } else {
        enc_wire_tiles(path.drop_last()) + enc_wire_tile(path.last())
    }
}

/// Wire encoding of an action.
pub open spec fn enc_action(a: ActionV) -> Seq<u8> {
    match a {
        ActionV::EndTurn => seq![1u8],
        ActionV::MoveUnit { unit, path, ap } => seq![2u8] + u64_le(unit.0) + u64_le(i32_key(ap))
            + u64_le(path.len() as u64) + enc_wire_tiles(path),
        ActionV::Attack { attacker, target } => seq![3u8] + u64_le(attacker.0) + u64_le(target.0),
        ActionV::Fortify { unit } => seq![4u8] + u64_le(unit.0),
        ActionV::BuildUnit { city, kind } => seq![5u8] + u64_le(city.0) + enc_str(kind),
        ActionV::BuildDistrict { city, kind, tile } => seq![6u8] + u64_le(city.0) + enc_str(kind)
            + enc_wire_tile(tile),
        ActionV::SetPolicy { slot, id } => seq![7u8] + u64_le(i32_key(slot)) + enc_str(id),
        ActionV::ChooseTech { id } => seq![8u8] + enc_str(id),
        ActionV::OfferDeal { json } => seq![9u8] + enc_str(json),
        ActionV::AcceptDeal { id } => seq![10u8] + enc_str(id),
        ActionV::DeclineDeal { id } => seq![11u8] + enc_str(id),
    }
}

/// Serialize an action into its wire bytes.
pub fn encode_action(a: &Action) -> (r: Vec<u8>)
    ensures
        r@ == enc_action(a@),
{
    let mut out: Vec<u8> = Vec::new();
    match a {
        Action::EndTurn => {
            out.push(1);
        },
        Action::MoveUnit { unit, path, ap } => {
            out.push(2);
            push_u64_le(&mut out, unit.0);
            push_u64_le(&mut out, i32_key_exec(*ap));
            push_u64_le(&mut out, path.len() as u64);
            let ghost pre = out@;
            let mut i: usize = 0;
            while i < path.len()
                invariant
                    0 <= i <= path@.len(),
                    out@ == pre + enc_wire_tiles(path@.take(i as int)),
                decreases path@.len() - i,
            {
                let t = path[i];
                push_u64_le(&mut out, i32_key_exec(t.x));
                push_u64_le(&mut out, i32_key_exec(t.y));
                proof {
                    assert(path@.take(i as int + 1).drop_last() =~= path@.take(i as int));
                    assert(path@.take(i as int + 1).last() == path@[i as int]);
                    assert(out@ =~= pre + enc_wire_tiles(path@.take(i as int + 1)));
                }
                i = i + 1;
            }
            proof {
                assert(path@.take(path@.len() as int) =~= path@);
            }
        },
        Action::Attack { attacker, target } => {
            out.push(3);
            push_u64_le(&mut out, attacker.0);
            push_u64_le(&mut out, target.0);
        },
        Action::Fortify { unit } => {
            out.push(4);
            push_u64_le(&mut out, unit.0);
        },
        Action::BuildUnit { city, kind } => {
            out.push(5);
            push_u64_le(&mut out, city.0);
            push_str(&mut out, kind.as_str());
        },
        Action::BuildDistrict { city, kind, tile } => {
            out.push(6);
            push_u64_le(&mut out, city.0);
            push_str(&mut out, kind.as_str());
            push_u64_le(&mut out, i32_key_exec(tile.x));
            push_u64_le(&mut out, i32_key_exec(tile.y));
        },
        Action::SetPolicy { slot, id } => {
            out.push(7);
            push_u64_le(&mut out, i32_key_exec(*slot));
            push_str(&mut out, id.as_str());
        },
        Action::ChooseTech { id } => {
            out.push(8);
            push_str(&mut out, id.as_str());
        },
        Action::OfferDeal { json } => {
            out.push(9);
            push_str(&mut out, json.as_str());
        },
        Action::AcceptDeal { id } => {
            out.push(10);
            push_str(&mut out, id.as_str());
        },
        Action::DeclineDeal { id } => {
            out.push(11);
            push_str(&mut out, id.as_str());
        },
    }
    proof {
        assert(out@ =~= enc_action(a@));
    }
    out
}

/// The 64-bit value at offset `off`, little-endian.
pub open spec fn rd_u64_at(b: Seq<u8>, off: int) -> u64
    recommends
        0 <= off,
        off + 8 <= b.len(),
{
    (b[off] + 256 * b[off + 1] + 65536 * b[off + 2] + 16777216 * b[off + 3] + 4294967296 * b[off
        + 4] + 1099511627776 * b[off + 5] + 281474976710656 * b[off + 6] + 72057594037927936 * b[off
        + 7]) as u64
}

/// Read the 64-bit value at offset `off`.
pub fn rd_u64(b: &Vec<u8>, off: usize) -> (r: u64)
    requires
        off + 8 <= b@.len(),
    ensures
        r == rd_u64_at(b@, off as int),
{
    proof {
        vstd::std_specs::vec::axiom_spec_len(b);
    }
    let r = (b[off] as u64) + 256 * (b[off + 1] as u64) + 65536 * (b[off + 2] as u64) + 16777216 * (
    b[off + 3] as u64) + 4294967296 * (b[off + 4] as u64) + 1099511627776 * (b[off + 5] as u64)
        + 281474976710656 * (b[off + 6] as u64) + 72057594037927936 * (b[off + 7] as u64);
    r
}

/// The decoded movement path of `n` tiles starting at `off`, with the
/// offset after it, or nothing if the bytes are short or keys malformed.
pub open spec fn rd_tiles_at(b: Seq<u8>, off: int, n: int) -> Option<(Seq<TileCoord>, int)>
    decreases n,
{
    if n <= 0 {
        Some((Seq::empty(), off))
    } else if off + 16 <= b.len() && 0 <= off {
        let xk = key_i32(rd_u64_at(b, off));
        let yk = key_i32(rd_u64_at(b, off + 8));
        if xk is Some && yk is Some {
            match rd_tiles_at(b, off + 16, n - 1) {
                Some(rest) => Some(
                    (seq![TileCoord { x: xk->0, y: yk->0 }] + rest.0, rest.1),
                ),
                None => None,
            }
        } else {
            None
        }
    } else {
        None
    }
}

/// Read `n` tiles starting at `off`.
fn rd_tiles(b: &Vec<u8>, off: usize, n: usize) -> (r: Option<(Vec<TileCoord>, usize)>)
    requires
        n <= 8,
    ensures
        (r is Some <==> rd_tiles_at(b@, off as int, n as int) is Some),
        (r is Some ==> {
            let sp = rd_tiles_at(b@, off as int, n as int)->0;
            (r->0).0@ == sp.0 && (r->0).1 as int == sp.1
        }),
    decreases n,
{
    if n == 0 {
        Some((Vec::new(), off))
    } else if off <= b.len() && b.len() - off >= 16 {
        let xk = key_i32_exec(rd_u64(b, off));
        let yk = key_i32_exec(rd_u64(b, off + 8));
        match (xk, yk) {
            (Some(x), Some(y)) => {
                match rd_tiles(b, off + 16, n - 1) {
                    Some(rest) => {
                        let mut v: Vec<TileCoord> = Vec::new();
                        v.push(TileCoord { x, y });
                        let mut tail = rest.0;
                        let ghost tailv = tail@;
                        v.append(&mut tail);
                        proof {
                            let sp = rd_tiles_at(b@, off as int, n as int)->0;
                            assert(v@ =~= seq![TileCoord { x, y }] + tailv);
                            assert(v@ =~= sp.0);
                        }
                        Some((v, rest.1))
                    },
                    None => None,
                }
            },
            _ => None,
        }
    } else {
        None
    }
}

/// The decoded length-prefixed string at `off`, with the offset after it.
pub open spec fn rd_str_at(b: Seq<u8>, off: int) -> Option<(Seq<char>, int)> {
    if 0 <= off && off + 8 <= b.len() {
        let n = rd_u64_at(b, off) as int;
        if off + 8 + n <= b.len() {
            let bytes = b.subrange(off + 8, off + 8 + n);
            if vstd::utf8::valid_utf8(bytes) {
                Some((vstd::utf8::decode_utf8(bytes), off + 8 + n))
            } else {
                None
            }
        } else {
            None
        }
    } else {
        None
    }
}

/// Relies on core::str::from_utf8: succeeds exactly on valid UTF-8, and
/// then yields the characters those bytes encode.
#[verifier::external_body]
fn bytes_to_string(b: &Vec<u8>) -> (r: Option<String>)
    ensures
        (r is Some <==> vstd::utf8::valid_utf8(b@)),
        (r is Some ==> r->0@ == vstd::utf8::decode_utf8(b@)),
{
    match core::str::from_utf8(b.as_slice()) {
        Ok(s) => Some(s.to_owned()),
        Err(_) => None,
    }
}

/// Read the length-prefixed string at `off`.
fn rd_str(b: &Vec<u8>, off: usize) -> (r: Option<(String, usize)>)
    ensures
        (r is Some <==> rd_str_at(b@, off as int) is Some),
        (r is Some ==> {
            let sp = rd_str_at(b@, off as int)->0;
            (r->0).0@ == sp.0 && (r->0).1 as int == sp.1
        }),
{
    if off > b.len() || b.len() - off < 8 {
        return None;
    }
    let n = rd_u64(b, off);
    let avail = b.len() - off - 8;
    if n > avail as u64 {
        return None;
    }
    let nn = n as usize;
    proof {
        vstd::std_specs::vec::axiom_spec_len(b);
    }
    let mut bytes: Vec<u8> = Vec::new();
    let mut k: usize = 0;
    while k < nn
        invariant
            0 <= k <= nn,
            off + 8 + nn <= b@.len(),
            b@.len() <= usize::MAX,
            bytes@ == b@.subrange(off as int + 8, off as int + 8 + k as int),
        decreases nn - k,
    {
        bytes.push(b[off + 8 + k]);
        proof {
            assert(bytes@ =~= b@.subrange(off as int + 8, off as int + 8 + k as int + 1));
        }
        k = k + 1;
    }
    match bytes_to_string(&bytes) {
        Some(s) => Some((s, off + 8 + nn)),
        None => None,
    }
}

/// The action a byte string decodes to, if it is a complete well-formed
/// wire message; a pure function of the bytes.
pub open spec fn dec_action(b: Seq<u8>) -> Option<ActionV> {
    if b.len() < 1 {
        None
    } else {
        let tag = b[0];
        if tag == 1 {
            if b.len() == 1 {
                Some(ActionV::EndTurn)
            } else {
                None
            }
        } else if tag == 2 {
            if b.len() >= 25 {
                let unit = rd_u64_at(b, 1);
                let apk = key_i32(rd_u64_at(b, 9));
                let n = rd_u64_at(b, 17);
                if apk is Some && n <= MAX_WIRE_PATH {
                    match rd_tiles_at(b, 25, n as int) {
                        Some(sp) => if sp.1 == b.len() {
                            Some(
                                ActionV::MoveUnit {
                                    unit: UnitId(unit),
                                    path: sp.0,
                                    ap: apk->0,
                                },
                            )
                        } else {
                            None
                        },
                        None => None,
                    }
                } else {
                    None
                }
            } else {
                None
            }
        } else if tag == 3 {
            if b.len() == 17 {
                Some(
                    ActionV::Attack {
                        attacker: UnitId(rd_u64_at(b, 1)),
                        target: UnitId(rd_u64_at(b, 9)),
                    },
                )
            } else {
                None
            }
        } else if tag == 4 {
            if b.len() == 9 {
                Some(ActionV::Fortify { unit: UnitId(rd_u64_at(b, 1)) })
            } else {
                None
            }
        } else if tag == 5 {
            if b.len() >= 9 {
                match rd_str_at(b, 9) {
                    Some(sp) => if sp.1 == b.len() {
                        Some(ActionV::BuildUnit { city: CityId(rd_u64_at(b, 1)), kind: sp.0 })
                    } else {
                        None
                    },
                    None => None,
                }
            } else {
                None
            }
        } else if tag == 6 {
            if b.len() >= 9 {
                match rd_str_at(b, 9) {
                    Some(sp) => if sp.1 + 16 == b.len() {
                        let xk = key_i32(rd_u64_at(b, sp.1));
                        let yk = key_i32(rd_u64_at(b, sp.1 + 8));
                        if xk is Some && yk is Some {
                            Some(
                                ActionV::BuildDistrict {
                                    city: CityId(rd_u64_at(b, 1)),
                                    kind: sp.0,
                                    tile: TileCoord { x: xk->0, y: yk->0 },
                                },
                            )
                        } else {
                            None
                        }
                    } else {
                        None
                    },
                    None => None,
                }
            } else {
                None
            }
        } else if tag == 7 {
            if b.len() >= 9 {
                let sk = key_i32(rd_u64_at(b, 1));
                match rd_str_at(b, 9) {
                    Some(sp) => if sp.1 == b.len() && sk is Some {
                        Some(ActionV::SetPolicy { slot: sk->0, id: sp.0 })
                    } else {
                        None
                    },
                    None => None,
                }
            } else {
                None
            }
        } else if tag == 8 {
            match rd_str_at(b, 1) {
                Some(sp) => if sp.1 == b.len() {
                    Some(ActionV::ChooseTech { id: sp.0 })
                } else {
                    None
                },
                None => None,
            }
        } else if tag == 9 {
            match rd_str_at(b, 1) {
                Some(sp) => if sp.1 == b.len() {
                    Some(ActionV::OfferDeal { json: sp.0 })
                } else {
                    None
                },
                None => None,
            }
        } else if tag == 10 {
            match rd_str_at(b, 1) {
                Some(sp) => if sp.1 == b.len() {
                    Some(ActionV::AcceptDeal { id: sp.0 })
                } else {
                    None
                },
                None => None,
            }
        } else if tag == 11 {
            match rd_str_at(b, 1) {
                Some(sp) => if sp.1 == b.len() {
                    Some(ActionV::DeclineDeal { id: sp.0 })
                } else {
                    None
                },
                None => None,
            }
        } else {
            None
        }
    }
}

/// Parse an action from wire bytes; accepts exactly the byte strings that
/// `dec_action` accepts and yields the action it names.
pub fn decode_action(b: &Vec<u8>) -> (r: Option<Action>)
    ensures
        (r is Some <==> dec_action(b@) is Some),
        (r is Some ==> r->0@ == dec_action(b@)->0),
{
    if b.len() < 1 {
        return None;
    }
    let tag = b[0];
    if tag == 1 {
        if b.len() == 1 {
            Some(Action::EndTurn)
        } else {
            None
        }
    } else if tag == 2 {
        if b.len() >= 25 {
            let unit = rd_u64(b, 1);
            let apk = key_i32_exec(rd_u64(b, 9));
            let n = rd_u64(b, 17);
            match apk {
                Some(ap) => {
                    if n <= MAX_WIRE_PATH {
                        match rd_tiles(b, 25, n as usize) {
                            Some(sp) => {
                                if sp.1 == b.len() {
                                    Some(Action::MoveUnit { unit: UnitId(unit), path: sp.0, ap })
                                } else {
                                    None
                                }
                            },
                            None => None,
                        }
                    } else {
                        None
                    }
                },
                None => None,
            }
        } else {
            None
        }
    } else if tag == 3 {
        if b.len() == 17 {
            Some(Action::Attack { attacker: UnitId(rd_u64(b, 1)), target: UnitId(rd_u64(b, 9)) })
        } else {
            None
        }
    } else if tag == 4 {
        if b.len() == 9 {
            Some(Action::Fortify { unit: UnitId(rd_u64(b, 1)) })
        } else {
            None
        }
    } else if tag == 5 {
        if b.len() >= 9 {
            match rd_str(b, 9) {
                Some(sp) => {
                    if sp.1 == b.len() {
                        Some(Action::BuildUnit { city: CityId(rd_u64(b, 1)), kind: sp.0 })
                    } else {
                        None
                    }
                },
                None => None,
            }
        } else {
            None
        }
    } else if tag == 6 {
        if b.len() >= 9 {
            match rd_str(b, 9) {
                Some(sp) => {
                    if sp.1 <= b.len() && b.len() - sp.1 == 16 {
                        let xk = key_i32_exec(rd_u64(b, sp.1));
                        let yk = key_i32_exec(rd_u64(b, sp.1 + 8));
                        match (xk, yk) {
                            (Some(x), Some(y)) => Some(
                                Action::BuildDistrict {
                                    city: CityId(rd_u64(b, 1)),
                                    kind: sp.0,
                                    tile: TileCoord { x, y },
                                },
                            ),
                            _ => None,
                        }
                    } else {
                        None
                    }
                },
                None => None,
            }
        } else {
            None
        }
    } else if tag == 7 {
        if b.len() >= 9 {
            let sk = key_i32_exec(rd_u64(b, 1));
            match rd_str(b, 9) {
                Some(sp) => {
                    match sk {
                        Some(slot) => {
                            if sp.1 == b.len() {
                                Some(Action::SetPolicy { slot, id: sp.0 })
                            } else {
                                None
                            }
                        },
                        None => None,
                    }
                },
                None => None,
            }
        } else {
            None
        }
    } else if tag == 8 {
        match rd_str(b, 1) {
            Some(sp) => {
                if sp.1 == b.len() {
                    Some(Action::ChooseTech { id: sp.0 })
                } else {
                    None
                }
            },
            None => None,
        }
    } else if tag == 9 {
        match rd_str(b, 1) {
            Some(sp) => {
                if sp.1 == b.len() {
                    Some(Action::OfferDeal { json: sp.0 })
                } else {
                    None
                }
            },
            None => None,
        }
    } else if tag == 10 {
        match rd_str(b, 1) {
            Some(sp) => {
                if sp.1 == b.len() {
                    Some(Action::AcceptDeal { id: sp.0 })
                } else {
                    None
                }
            },
            None => None,
        }
    } else if tag == 11 {
        match rd_str(b, 1) {
            Some(sp) => {
                if sp.1 == b.len() {
                    Some(Action::DeclineDeal { id: sp.0 })
                } else {
                    None
                }
            },
            None => None,
        }
    } else {
        None
    }
}

} // verus!
