//! The snapshot codec: serializes a whole world to bytes and parses it
//! back, losslessly. The parser is specified as a total function of the
//! bytes, and parsing a saved world is proved to return exactly the world
//! that was saved.

use vstd::prelude::*;
use crate::entity::{Entity, EntityV, NAME_CAP};
use crate::game_map::{GameMap, GameMapV};
use crate::position::MapPosition;
use crate::powerup::PowerupType;
use crate::tile::{spec_glyph, Tile, TileType};
use crate::world_state::{WorldState, WorldStateV};

verus! {

/// The unsigned 32-bit value stored little-endian in four bytes.
pub open spec fn u32_of_le_bytes(b0: u8, b1: u8, b2: u8, b3: u8) -> u32 {
    (b0 as u32) | ((b1 as u32) << 8) | ((b2 as u32) << 16) | ((b3 as u32) << 24)
}

/// The four little-endian bytes of an unsigned 32-bit value.
pub open spec fn spec_enc_u32(n: u32) -> Seq<u8> {
    seq![
        (n & 0xff) as u8,
        ((n >> 8) & 0xff) as u8,
        ((n >> 16) & 0xff) as u8,
        ((n >> 24) & 0xff) as u8,
    ]
}

/// Reassembling the four little-endian bytes gives the value back.
proof fn lemma_u32_le_round_trip(n: u32)
    ensures
        u32_of_le_bytes(
            (n & 0xff) as u8,
            ((n >> 8) & 0xff) as u8,
            ((n >> 16) & 0xff) as u8,
            ((n >> 24) & 0xff) as u8,
        ) == n,
{
    assert((((n & 0xff) as u8) as u32) | (((((n >> 8) & 0xff) as u8) as u32) << 8) | (((((n >> 16)
        & 0xff) as u8) as u32) << 16) | (((((n >> 24) & 0xff) as u8) as u32) << 24) == n)
        by (bit_vector);
}

/// Reads an unsigned 32-bit value at the position, when four bytes remain.
pub open spec fn spec_parse_u32(b: Seq<u8>, i: int) -> Option<(u32, int)> {
    if 0 <= i && i + 4 <= b.len() {
        Some((u32_of_le_bytes(b[i], b[i + 1], b[i + 2], b[i + 3]), i + 4))
    } else {
        None
    }
}

/// Where the bytes at the position are the encoding of `n`, the parser
/// reads exactly `n`.
proof fn lemma_parse_enc_u32(b: Seq<u8>, i: int, n: u32)
    requires
        0 <= i,
        i + 4 <= b.len(),
        b.subrange(i, i + 4) == spec_enc_u32(n),
    ensures
        spec_parse_u32(b, i) == Some((n, i + 4)),
{
    assert(b[i] == spec_enc_u32(n)[0]);
    assert(b[i + 1] == spec_enc_u32(n)[1]);
    assert(b[i + 2] == spec_enc_u32(n)[2]);
    assert(b[i + 3] == spec_enc_u32(n)[3]);
    lemma_u32_le_round_trip(n);
}

/// Appends the four little-endian bytes of `n`.
fn push_u32(out: &mut Vec<u8>, n: u32)
    ensures
        final(out)@ == old(out)@ + spec_enc_u32(n),
{
    out.push((n & 0xff) as u8);
    out.push(((n >> 8) & 0xff) as u8);
    out.push(((n >> 16) & 0xff) as u8);
    out.push(((n >> 24) & 0xff) as u8);
    proof {
        assert(out@ =~= old(out)@ + spec_enc_u32(n));
    }
}

/// Reads an unsigned 32-bit value, mirroring `spec_parse_u32`.
fn read_u32(b: &Vec<u8>, i: usize) -> (r: Option<(u32, usize)>)
    ensures
        r is Some <==> spec_parse_u32(b@, i as int) is Some,
        r matches Some(p) ==> Some((p.0, p.1 as int)) == spec_parse_u32(b@, i as int),
{
    if i < b.len() && b.len() - i >= 4 {
        let n = (b[i] as u32) | ((b[i + 1] as u32) << 8) | ((b[i + 2] as u32) << 16) | ((b[i + 3]
            as u32) << 24);
        Some((n, i + 4))
    } else {
        None
    }
}

/// The code stored for a terrain kind.
pub open spec fn spec_kind_code(t: TileType) -> u32 {
    match t {
        TileType::WalkableGeneric => 0,
        TileType::Wall => 1,
    }
}

/// The pickup kind a stored code stands for; codes above three are
/// rejected by the parser.
pub open spec fn spec_powerup_of(n: u32) -> PowerupType {
    if n == 1 {
        PowerupType::HealingPotion
    } else if n == 2 {
        PowerupType::SpeedBoost
    } else if n == 3 {
        PowerupType::WallBreaker
    } else {
        PowerupType::NoPowerup
    }
}

/// The bytes of one tile: kind, occupant (a presence flag, then the
/// identity when present), pickup. The glyph is not stored; it is derived
/// from the kind on parsing.
pub open spec fn spec_enc_tile(t: Tile) -> Seq<u8> {
    spec_enc_u32(spec_kind_code(t.tile_type)) + (match t.entity_id {
        Some(id) => spec_enc_u32(1) + spec_enc_u32(id),
        None => spec_enc_u32(0),
    }) + spec_enc_u32(t.powerup.spec_id() as u32)
}

/// Reads one tile at the position.
pub open spec fn spec_parse_tile(b: Seq<u8>, i: int) -> Option<(Tile, int)> {
    match spec_parse_u32(b, i) {
        None => None,
        Some((k, i1)) => if k > 1 {
            None
        } else {
            let kind = if k == 1 {
                TileType::Wall
            } else {
                TileType::WalkableGeneric
            };
            match spec_parse_u32(b, i1) {
                None => None,
                Some((f, i2)) => if f > 1 {
                    None
                } else if f == 1 {
                    match spec_parse_u32(b, i2) {
                        None => None,
                        Some((id, i3)) => match spec_parse_u32(b, i3) {
                            None => None,
                            Some((pu, i4)) => if pu > 3 {
                                None
                            } else {
                                Some(
                                    (
                                        Tile {
                                            tile_type: kind,
                                            symbol: spec_glyph(kind),
                                            entity_id: Some(id),
                                            powerup: spec_powerup_of(pu),
                                        },
                                        i4,
                                    ),
                                )
                            },
                        },
                    }
                } else {
                    match spec_parse_u32(b, i2) {
                        None => None,
                        Some((pu, i3)) => if pu > 3 {
                            None
                        } else {
                            Some(
                                (
                                    Tile {
                                        tile_type: kind,
                                        symbol: spec_glyph(kind),
                                        entity_id: None,
                                        powerup: spec_powerup_of(pu),
                                    },
                                    i3,
                                ),
                            )
                        },
                    }
                },
            }
        },
    }
}

/// Where the bytes at the position are the encoding of a glyph-consistent
/// tile, the parser reads exactly that tile.
proof fn lemma_parse_enc_tile(b: Seq<u8>, i: int, t: Tile)
    requires
        0 <= i,
        i + spec_enc_tile(t).len() <= b.len(),
        b.subrange(i, i + spec_enc_tile(t).len()) == spec_enc_tile(t),
        t.symbol == spec_glyph(t.tile_type),
    ensures
        spec_parse_tile(b, i) == Some((t, i + spec_enc_tile(t).len())),
{
    let e = spec_enc_tile(t);
    let k = spec_kind_code(t.tile_type);
    let pu = t.powerup.spec_id() as u32;
    match t.entity_id {
        Some(id) => {
            assert(e =~= spec_enc_u32(k) + spec_enc_u32(1) + spec_enc_u32(id) + spec_enc_u32(pu));
            assert(e.len() == 16);
            assert(b.subrange(i, i + 4) =~= e.subrange(0, 4));
            assert(e.subrange(0, 4) =~= spec_enc_u32(k));
            lemma_parse_enc_u32(b, i, k);
            assert(b.subrange(i + 4, i + 8) =~= e.subrange(4, 8));
            assert(e.subrange(4, 8) =~= spec_enc_u32(1));
            lemma_parse_enc_u32(b, i + 4, 1);
            assert(b.subrange(i + 8, i + 12) =~= e.subrange(8, 12));
            assert(e.subrange(8, 12) =~= spec_enc_u32(id));
            lemma_parse_enc_u32(b, i + 8, id);
            assert(b.subrange(i + 12, i + 16) =~= e.subrange(12, 16));
            assert(e.subrange(12, 16) =~= spec_enc_u32(pu));
            lemma_parse_enc_u32(b, i + 12, pu);
            assert(spec_powerup_of(pu) == t.powerup);
        },
        None => {
            assert(e =~= spec_enc_u32(k) + spec_enc_u32(0) + spec_enc_u32(pu));
            assert(e.len() == 12);
            assert(b.subrange(i, i + 4) =~= e.subrange(0, 4));
            assert(e.subrange(0, 4) =~= spec_enc_u32(k));
            lemma_parse_enc_u32(b, i, k);
            assert(b.subrange(i + 4, i + 8) =~= e.subrange(4, 8));
            assert(e.subrange(4, 8) =~= spec_enc_u32(0));
            lemma_parse_enc_u32(b, i + 4, 0);
            assert(b.subrange(i + 8, i + 12) =~= e.subrange(8, 12));
            assert(e.subrange(8, 12) =~= spec_enc_u32(pu));
            lemma_parse_enc_u32(b, i + 8, pu);
            assert(spec_powerup_of(pu) == t.powerup);
        },
    }
}

/// Appends the bytes of one tile.
fn push_tile(out: &mut Vec<u8>, t: &Tile)
    ensures
        final(out)@ == old(out)@ + spec_enc_tile(*t),
{
    let k: u32 = match t.tile_type() {
        TileType::WalkableGeneric => 0,
        TileType::Wall => 1,
    };
    push_u32(out, k);
    match t.entity_id() {
        Some(id) => {
            push_u32(out, 1);
            push_u32(out, id);
        },
        None => {
            push_u32(out, 0);
        },
    }
    push_u32(out, t.powerup.to_id() as u32);
    proof {
        assert(out@ =~= old(out)@ + spec_enc_tile(*t));
    }
}

/// Reads one tile, mirroring `spec_parse_tile`.
fn read_tile(b: &Vec<u8>, i: usize) -> (r: Option<(Tile, usize)>)
    ensures
        r is Some <==> spec_parse_tile(b@, i as int) is Some,
        r matches Some(p) ==> Some((p.0, p.1 as int)) == spec_parse_tile(b@, i as int),
{
    let (k, i1) = match read_u32(b, i) {
        Some(p) => p,
        None => {
            return None;
        },
    };
    if k > 1 {
        return None;
    }
    let kind = if k == 1 {
        TileType::Wall
    } else {
        TileType::WalkableGeneric
    };
    let symbol = if k == 1 {
        '\u{2588}'
    } else {
        '.'
    };
    let (f, i2) = match read_u32(b, i1) {
        Some(p) => p,
        None => {
            return None;
        },
    };
    if f > 1 {
        return None;
    }
    if f == 1 {
        let (id, i3) = match read_u32(b, i2) {
            Some(p) => p,
            None => {
                return None;
            },
        };
        let (pu, i4) = match read_u32(b, i3) {
            Some(p) => p,
            None => {
                return None;
            },
        };
        if pu > 3 {
            return None;
        }
        Some((Tile { tile_type: kind, symbol, entity_id: Some(id), powerup: powerup_of(pu) }, i4))
    } else {
        let (pu, i3) = match read_u32(b, i2) {
            Some(p) => p,
            None => {
                return None;
            },
        };
        if pu > 3 {
            return None;
        }
        Some((Tile { tile_type: kind, symbol, entity_id: None, powerup: powerup_of(pu) }, i3))
    }
}

/// The bytes of a tile sequence, in order.
pub open spec fn spec_enc_tiles(ts: Seq<Tile>) -> Seq<u8>
    decreases ts.len(),
{
    if ts.len() == 0 {
        Seq::empty()
    } else {
        spec_enc_tile(ts[0]) + spec_enc_tiles(ts.drop_first())
    }
}

/// Reads `n` tiles in order.
pub open spec fn spec_parse_tiles(b: Seq<u8>, i: int, n: nat) -> Option<(Seq<Tile>, int)>
    decreases n,
{
    if n == 0 {
        Some((Seq::empty(), i))
    } else {
        match spec_parse_tile(b, i) {
            None => None,
            Some((t, j)) => match spec_parse_tiles(b, j, (n - 1) as nat) {
                None => None,
                Some((ts, k)) => Some((seq![t] + ts, k)),
            },
        }
    }
}

/// Tile encoding distributes over concatenation.
proof fn lemma_enc_tiles_app(s1: Seq<Tile>, s2: Seq<Tile>)
    ensures
        spec_enc_tiles(s1 + s2) == spec_enc_tiles(s1) + spec_enc_tiles(s2),
    decreases s1.len(),
{
    if s1.len() == 0 {
        assert(s1 + s2 =~= s2);
        assert(spec_enc_tiles(s1) + spec_enc_tiles(s2) =~= spec_enc_tiles(s2));
    } else {
        assert((s1 + s2).drop_first() =~= s1.drop_first() + s2);
        lemma_enc_tiles_app(s1.drop_first(), s2);
        assert((s1 + s2)[0] == s1[0]);
        assert(spec_enc_tile(s1[0]) + (spec_enc_tiles(s1.drop_first()) + spec_enc_tiles(s2)) =~= (
        spec_enc_tile(s1[0]) + spec_enc_tiles(s1.drop_first())) + spec_enc_tiles(s2));
    }
}

/// Extending an encoded prefix by one tile.
proof fn lemma_enc_tiles_snoc(ts: Seq<Tile>, k: int)
    requires
        0 <= k < ts.len(),
    ensures
        spec_enc_tiles(ts.take(k + 1)) == spec_enc_tiles(ts.take(k)) + spec_enc_tile(ts[k]),
{
    lemma_enc_tiles_app(ts.take(k), seq![ts[k]]);
    assert(ts.take(k + 1) =~= ts.take(k) + seq![ts[k]]);
    assert(seq![ts[k]].drop_first() =~= Seq::<Tile>::empty());
    assert(spec_enc_tiles(seq![ts[k]]) == spec_enc_tile(ts[k]) + spec_enc_tiles(
        Seq::<Tile>::empty(),
    ));
    assert(spec_enc_tile(ts[k]) + Seq::<u8>::empty() =~= spec_enc_tile(ts[k]));
}

/// Where the bytes at the position encode a sequence of glyph-consistent
/// tiles, the parser reads exactly that sequence.
proof fn lemma_parse_enc_tiles(b: Seq<u8>, i: int, ts: Seq<Tile>)
    requires
        0 <= i,
        i + spec_enc_tiles(ts).len() <= b.len(),
        b.subrange(i, i + spec_enc_tiles(ts).len()) == spec_enc_tiles(ts),
        forall|k: int| 0 <= k < ts.len() ==> (#[trigger] ts[k]).symbol == spec_glyph(ts[k].tile_type),
    ensures
        spec_parse_tiles(b, i, ts.len()) == Some((ts, i + spec_enc_tiles(ts).len())),
    decreases ts.len(),
{
    if ts.len() == 0 {
        assert(Seq::<Tile>::empty() =~= ts);
    } else {
        let e = spec_enc_tiles(ts);
        let e0 = spec_enc_tile(ts[0]);
        let rest = ts.drop_first();
        let erest = spec_enc_tiles(rest);
        assert(e == e0 + erest);
        assert(b.subrange(i, i + e0.len() as int) =~= e.subrange(0, e0.len() as int));
        assert(e.subrange(0, e0.len() as int) =~= e0);
        lemma_parse_enc_tile(b, i, ts[0]);
        assert(b.subrange(i + e0.len(), i + e.len() as int) =~= e.subrange(
            e0.len() as int,
            e.len() as int,
        ));
        assert(e.subrange(e0.len() as int, e.len() as int) =~= erest);
        assert(forall|k: int|
            0 <= k < rest.len() ==> (#[trigger] rest[k]).symbol == spec_glyph(rest[k].tile_type));
        lemma_parse_enc_tiles(b, i + e0.len() as int, rest);
        assert(seq![ts[0]] + rest =~= ts);
    }
}

/// Appends the bytes of every tile in order.
fn push_tiles(out: &mut Vec<u8>, ts: &Vec<Tile>)
    ensures
        final(out)@ == old(out)@ + spec_enc_tiles(ts@),
{
    let n = ts.len();
    let mut k: usize = 0;
    proof {
        assert(ts@.take(0) =~= Seq::<Tile>::empty());
        assert(out@ =~= out@ + spec_enc_tiles(ts@.take(0)));
    }
    while k < n
        invariant
            k <= n,
            n == ts@.len(),
            out@ == old(out)@ + spec_enc_tiles(ts@.take(k as int)),
        decreases n - k,
    {
        push_tile(out, &ts[k]);
        proof {
            lemma_enc_tiles_snoc(ts@, k as int);
        }
        k = k + 1;
    }
    proof {
        assert(ts@.take(n as int) =~= ts@);
    }
}

/// Reads `n` tiles, mirroring `spec_parse_tiles`.
fn read_tiles(b: &Vec<u8>, i: usize, n: usize) -> (r: Option<(Vec<Tile>, usize)>)
    ensures
        r is Some <==> spec_parse_tiles(b@, i as int, n as nat) is Some,
        r matches Some(p) ==> Some((p.0@, p.1 as int)) == spec_parse_tiles(b@, i as int, n as nat),
{
    let mut acc: Vec<Tile> = Vec::new();
    let mut pos: usize = i;
    let mut k: usize = 0;
    proof {
        assert(acc@ + Seq::<Tile>::empty() =~= acc@);
    }
    while k < n
        invariant
            k <= n,
            acc@.len() == k,
            match spec_parse_tiles(b@, pos as int, (n - k) as nat) {
                Some(p) => spec_parse_tiles(b@, i as int, n as nat) == Some((acc@ + p.0, p.1)),
                None => spec_parse_tiles(b@, i as int, n as nat) is None,
            },
        decreases n - k,
    {
        match read_tile(b, pos) {
            Some((t, j)) => {
                proof {
                    let m = (n - k) as nat;
                    assert(spec_parse_tile(b@, pos as int) == Some((t, j as int)));
                    match spec_parse_tiles(b@, j as int, (m - 1) as nat) {
                        Some(p2) => {
                            assert(spec_parse_tiles(b@, pos as int, m) == Some(
                                (seq![t] + p2.0, p2.1),
                            ));
                            assert(acc@ + (seq![t] + p2.0) =~= (acc@ + seq![t]) + p2.0);
                        },
                        None => {},
                    }
                }
                acc.push(t);
                pos = j;
                k = k + 1;
            },
            None => {
                return None;
            },
        }
    }
    Some((acc, pos))
}

/// Whether a value is a Unicode scalar value, the exact condition under
/// which it is a `char`.
pub open spec fn spec_valid_scalar(n: u32) -> bool {
    n < 0xD800 || (0xE000 <= n && n <= 0x10FFFF)
}

/// Relies on char::from_u32: it returns the character with the given code
/// exactly when the code is a Unicode scalar value.
pub assume_specification[ char::from_u32 ](n: u32) -> (r: Option<char>)
    ensures
        r matches Some(c) ==> c == n as char,
        r is Some <==> spec_valid_scalar(n),
;

/// Reads `n` raw bytes at the position, when that many remain.
pub open spec fn spec_parse_bytes(b: Seq<u8>, i: int, n: nat) -> Option<(Seq<u8>, int)> {
    if 0 <= i && i + n <= b.len() {
        Some((b.subrange(i, i + n), i + n))
    } else {
        None
    }
}

/// Copies `n` raw bytes, mirroring `spec_parse_bytes`.
fn read_bytes(b: &Vec<u8>, i: usize, n: u32) -> (r: Option<(Vec<u8>, usize)>)
    ensures
        r is Some <==> spec_parse_bytes(b@, i as int, n as nat) is Some,
        r matches Some(p) ==> Some((p.0@, p.1 as int)) == spec_parse_bytes(b@, i as int, n as nat),
{
    let blen = b.len();
    if i <= blen && blen - i >= n as usize {
        let count = n as usize;
        let mut acc: Vec<u8> = Vec::new();
        let mut j: usize = 0;
        while j < count
            invariant
                j <= count,
                blen == b@.len(),
                i + count <= blen,
                acc@ =~= b@.subrange(i as int, i + j),
            decreases count - j,
        {
            acc.push(b[i + j]);
            proof {
                assert(acc@ =~= b@.subrange(i as int, i + j + 1));
            }
            j = j + 1;
        }
        Some((acc, i + count))
    } else {
        None
    }
}

/// A non-negative signed coordinate survives the trip through its
/// unsigned storage.
proof fn lemma_i32_u32_round(x: i32)
    ensures
        x >= 0 ==> (x as u32) <= 0x7fff_ffffu32 && ((x as u32) as i32) == x,
{
    assert(x >= 0 ==> (x as u32) <= 0x7fff_ffffu32 && ((x as u32) as i32) == x) by (bit_vector);
}

/// The bytes of one actor: identity, glyph code, name length and bytes,
/// maxima, position, current resources, team, stun, and the two flags.
pub open spec fn spec_enc_entity(e: EntityV) -> Seq<u8> {
    spec_enc_entity_head(e) + spec_enc_entity_tail(e)
}

/// The leading bytes of an actor record: identity, glyph code, name, the
/// two maxima and the position.
pub open spec fn spec_enc_entity_head(e: EntityV) -> Seq<u8> {
    spec_enc_u32(e.id) + spec_enc_u32(e.symbol as u32) + spec_enc_u32(e.name.len() as u32) + e.name
        + spec_enc_u32(e.max_health) + spec_enc_u32(e.max_energy) + spec_enc_u32(
        e.position.x as u32,
    ) + spec_enc_u32(e.position.y as u32)
}

/// The trailing bytes of an actor record: resources, team, stun and the
/// two flags.
pub open spec fn spec_enc_entity_tail(e: EntityV) -> Seq<u8> {
    spec_enc_u32(e.health) + spec_enc_u32(e.energy) + spec_enc_u32(e.team) + spec_enc_u32(
        e.stunned_for_turns,
    ) + spec_enc_u32(
        if e.is_selected {
            1
        } else {
            0
        },
    ) + spec_enc_u32(
        if e.is_ai {
            1
        } else {
            0
        },
    )
}

/// Reads one actor at the position.
pub open spec fn spec_parse_entity(b: Seq<u8>, i: int) -> Option<(EntityV, int)> {
    match spec_parse_u32(b, i) {
        None => None,
        Some((id, i1)) => match spec_parse_u32(b, i1) {
            None => None,
            Some((sym, i2)) => if !spec_valid_scalar(sym) {
                None
            } else {
                match spec_parse_u32(b, i2) {
                    None => None,
                    Some((nl, i3)) => match spec_parse_bytes(b, i3, nl as nat) {
                        None => None,
                        Some((name, i4)) => match spec_parse_u32(b, i4) {
                            None => None,
                            Some((mh, i5)) => match spec_parse_u32(b, i5) {
                                None => None,
                                Some((me, i6)) => match spec_parse_u32(b, i6) {
                                    None => None,
                                    Some((x, i7)) => if x > 0x7fff_ffffu32 {
                                        None
                                    } else {
                                        match spec_parse_u32(b, i7) {
                                            None => None,
                                            Some((y, i8)) => if y > 0x7fff_ffffu32 {
                                                None
                                            } else {
                                                spec_parse_entity_tail(
                                                    b,
                                                    i8,
                                                    EntityV {
                                                        id,
                                                        symbol: sym as char,
                                                        name,
                                                        max_health: mh,
                                                        max_energy: me,
                                                        position: MapPosition {
                                                            x: x as i32,
                                                            y: y as i32,
                                                        },
                                                        health: 0,
                                                        energy: 0,
                                                        team: 0,
                                                        stunned_for_turns: 0,
                                                        is_selected: false,
                                                        is_ai: false,
                                                    },
                                                )
                                            },
                                        }
                                    },
                                },
                            },
                        },
                    },
                }
            },
        },
    }
}

/// Reads the tail of an actor record (resources, team, stun and flags)
/// into the partial record built so far.
pub open spec fn spec_parse_entity_tail(b: Seq<u8>, i: int, e: EntityV) -> Option<(EntityV, int)> {
    match spec_parse_u32(b, i) {
        None => None,
        Some((h, i1)) => match spec_parse_u32(b, i1) {
            None => None,
            Some((en, i2)) => match spec_parse_u32(b, i2) {
                None => None,
                Some((team, i3)) => match spec_parse_u32(b, i3) {
                    None => None,
                    Some((stun, i4)) => match spec_parse_u32(b, i4) {
                        None => None,
                        Some((sel, i5)) => if sel > 1 {
                            None
                        } else {
                            match spec_parse_u32(b, i5) {
                                None => None,
                                Some((ai, i6)) => if ai > 1 {
                                    None
                                } else {
                                    Some(
                                        (
                                            EntityV {
                                                health: h,
                                                energy: en,
                                                team,
                                                stunned_for_turns: stun,
                                                is_selected: sel == 1,
                                                is_ai: ai == 1,
                                                ..e
                                            },
                                            i6,
                                        ),
                                    )
                                },
                            }
                        },
                    },
                },
            },
        },
    }
}

/// The bytes of a slice of an encoded region equal the same slice of the
/// encoding.
proof fn lemma_piece(b: Seq<u8>, i: int, enc: Seq<u8>, lo: int, hi: int)
    requires
        0 <= i,
        i + enc.len() <= b.len(),
        b.subrange(i, i + enc.len() as int) == enc,
        0 <= lo <= hi <= enc.len(),
    ensures
        b.subrange(i + lo, i + hi) == enc.subrange(lo, hi),
{
    assert forall|j: int| 0 <= j < hi - lo implies b.subrange(i + lo, i + hi)[j] == enc.subrange(
        lo,
        hi,
    )[j] by {
        assert(b.subrange(i, i + enc.len() as int)[lo + j] == enc[lo + j]);
    }
    assert(b.subrange(i + lo, i + hi) =~= enc.subrange(lo, hi));
}

/// Where the bytes at the position encode the tail of an actor record,
/// the tail parser fills exactly those fields into the record built so
/// far.
#[verifier::rlimit(50)]
proof fn lemma_parse_enc_entity_tail(b: Seq<u8>, i: int, e: EntityV, base: EntityV)
    requires
        0 <= i,
        i + 24 <= b.len(),
        b.subrange(i, i + 24) == spec_enc_entity_tail(e),
    ensures
        spec_parse_entity_tail(b, i, base) == Some(
            (
                EntityV {
                    health: e.health,
                    energy: e.energy,
                    team: e.team,
                    stunned_for_turns: e.stunned_for_turns,
                    is_selected: e.is_selected,
                    is_ai: e.is_ai,
                    ..base
                },
                i + 24,
            ),
        ),
{
    let enc = spec_enc_entity_tail(e);
    assert(enc.len() == 24);
    assert(b.subrange(i, i + 4) =~= enc.subrange(0, 4));
    assert(enc.subrange(0, 4) =~= spec_enc_u32(e.health));
    lemma_parse_enc_u32(b, i, e.health);
    assert(b.subrange(i + 4, i + 8) =~= enc.subrange(4, 8));
    assert(enc.subrange(4, 8) =~= spec_enc_u32(e.energy));
    lemma_parse_enc_u32(b, i + 4, e.energy);
    assert(b.subrange(i + 8, i + 12) =~= enc.subrange(8, 12));
    assert(enc.subrange(8, 12) =~= spec_enc_u32(e.team));
    lemma_parse_enc_u32(b, i + 8, e.team);
    assert(b.subrange(i + 12, i + 16) =~= enc.subrange(12, 16));
    assert(enc.subrange(12, 16) =~= spec_enc_u32(e.stunned_for_turns));
    lemma_parse_enc_u32(b, i + 12, e.stunned_for_turns);
    let selc: u32 = if e.is_selected {
        1
    } else {
        0
    };
    assert(b.subrange(i + 16, i + 20) =~= enc.subrange(16, 20));
    assert(enc.subrange(16, 20) =~= spec_enc_u32(selc));
    lemma_parse_enc_u32(b, i + 16, selc);
    let aic: u32 = if e.is_ai {
        1
    } else {
        0
    };
    assert(b.subrange(i + 20, i + 24) =~= enc.subrange(20, 24));
    assert(enc.subrange(20, 24) =~= spec_enc_u32(aic));
    lemma_parse_enc_u32(b, i + 20, aic);
}

/// Where the bytes at the position encode an actor whose name respects the
/// cap and whose coordinates are non-negative, the parser reads exactly
/// that actor.
#[verifier::rlimit(50)]
proof fn lemma_parse_enc_entity(b: Seq<u8>, i: int, e: EntityV)
    requires
        0 <= i,
        i + spec_enc_entity(e).len() <= b.len(),
        b.subrange(i, i + spec_enc_entity(e).len()) == spec_enc_entity(e),
        e.name.len() <= NAME_CAP,
        0 <= e.position.x,
        0 <= e.position.y,
    ensures
        spec_parse_entity(b, i) == Some((e, i + spec_enc_entity(e).len())),
{
    let enc = spec_enc_entity(e);
    let head = spec_enc_entity_head(e);
    let nl = e.name.len() as int;
    assert(head.len() == 28 + nl);
    assert(enc.len() == 52 + nl);
    lemma_i32_u32_round(e.position.x);
    lemma_i32_u32_round(e.position.y);

    lemma_piece(b, i, enc, 0, 4);
    assert(enc.subrange(0, 4) =~= spec_enc_u32(e.id));
    lemma_parse_enc_u32(b, i, e.id);

    lemma_piece(b, i, enc, 4, 8);
    assert(enc.subrange(4, 8) =~= spec_enc_u32(e.symbol as u32));
    lemma_parse_enc_u32(b, i + 4, e.symbol as u32);

    lemma_piece(b, i, enc, 8, 12);
    assert(enc.subrange(8, 12) =~= spec_enc_u32(e.name.len() as u32));
    lemma_parse_enc_u32(b, i + 8, e.name.len() as u32);

    lemma_piece(b, i, enc, 12, 12 + nl);
    assert(enc.subrange(12, 12 + nl) =~= e.name);
    assert(spec_parse_bytes(b, i + 12, e.name.len()) == Some((e.name, i + 12 + nl)));

    let o = i + 12 + nl;
    lemma_piece(b, i, enc, 12 + nl, 16 + nl);
    assert(enc.subrange(12 + nl, 16 + nl) =~= spec_enc_u32(e.max_health));
    lemma_parse_enc_u32(b, o, e.max_health);

    lemma_piece(b, i, enc, 16 + nl, 20 + nl);
    assert(enc.subrange(16 + nl, 20 + nl) =~= spec_enc_u32(e.max_energy));
    lemma_parse_enc_u32(b, o + 4, e.max_energy);

    lemma_piece(b, i, enc, 20 + nl, 24 + nl);
    assert(enc.subrange(20 + nl, 24 + nl) =~= spec_enc_u32(e.position.x as u32));
    lemma_parse_enc_u32(b, o + 8, e.position.x as u32);

    lemma_piece(b, i, enc, 24 + nl, 28 + nl);
    assert(enc.subrange(24 + nl, 28 + nl) =~= spec_enc_u32(e.position.y as u32));
    lemma_parse_enc_u32(b, o + 12, e.position.y as u32);

    lemma_piece(b, i, enc, 28 + nl, 52 + nl);
    assert(enc.subrange(28 + nl, 52 + nl) =~= spec_enc_entity_tail(e));
    let base = EntityV {
        id: e.id,
        symbol: (e.symbol as u32) as char,
        name: e.name,
        max_health: e.max_health,
        max_energy: e.max_energy,
        position: MapPosition { x: (e.position.x as u32) as i32, y: (e.position.y as u32) as i32 },
        health: 0,
        energy: 0,
        team: 0,
        stunned_for_turns: 0,
        is_selected: false,
        is_ai: false,
    };
    lemma_parse_enc_entity_tail(b, o + 16, e, base);
    assert((e.symbol as u32) as char == e.symbol);
    assert(spec_valid_scalar(e.symbol as u32));
    assert(spec_parse_entity(b, i) == Some((e, i + enc.len())));
}

/// The bytes of an actor sequence, in order.
pub open spec fn spec_enc_entities(es: Seq<EntityV>) -> Seq<u8>
    decreases es.len(),
{
    if es.len() == 0 {
        Seq::empty()
    } else {
        spec_enc_entity(es[0]) + spec_enc_entities(es.drop_first())
    }
}

/// Reads `n` actors in order.
pub open spec fn spec_parse_entities(b: Seq<u8>, i: int, n: nat) -> Option<(Seq<EntityV>, int)>
    decreases n,
{
    if n == 0 {
        Some((Seq::empty(), i))
    } else {
        match spec_parse_entity(b, i) {
            None => None,
            Some((e, j)) => match spec_parse_entities(b, j, (n - 1) as nat) {
                None => None,
                Some((es, k)) => Some((seq![e] + es, k)),
            },
        }
    }
}

/// Actor encoding distributes over concatenation.
proof fn lemma_enc_entities_app(s1: Seq<EntityV>, s2: Seq<EntityV>)
    ensures
        spec_enc_entities(s1 + s2) == spec_enc_entities(s1) + spec_enc_entities(s2),
    decreases s1.len(),
{
    if s1.len() == 0 {
        assert(s1 + s2 =~= s2);
        assert(spec_enc_entities(s1) + spec_enc_entities(s2) =~= spec_enc_entities(s2));
    } else {
        assert((s1 + s2).drop_first() =~= s1.drop_first() + s2);
        lemma_enc_entities_app(s1.drop_first(), s2);
        assert((s1 + s2)[0] == s1[0]);
        assert(spec_enc_entity(s1[0]) + (spec_enc_entities(s1.drop_first()) + spec_enc_entities(
            s2,
        )) =~= (spec_enc_entity(s1[0]) + spec_enc_entities(s1.drop_first())) + spec_enc_entities(
            s2,
        ));
    }
}

/// Extending an encoded prefix by one actor.
proof fn lemma_enc_entities_snoc(es: Seq<EntityV>, k: int)
    requires
        0 <= k < es.len(),
    ensures
        spec_enc_entities(es.take(k + 1)) == spec_enc_entities(es.take(k)) + spec_enc_entity(
            es[k],
        ),
{
    lemma_enc_entities_app(es.take(k), seq![es[k]]);
    assert(es.take(k + 1) =~= es.take(k) + seq![es[k]]);
    assert(seq![es[k]].drop_first() =~= Seq::<EntityV>::empty());
    assert(spec_enc_entities(seq![es[k]]) == spec_enc_entity(es[k]) + spec_enc_entities(
        Seq::<EntityV>::empty(),
    ));
    assert(spec_enc_entity(es[k]) + Seq::<u8>::empty() =~= spec_enc_entity(es[k]));
}

/// Where the bytes at the position encode a sequence of capped-name,
/// non-negative-position actors, the parser reads exactly that sequence.
proof fn lemma_parse_enc_entities(b: Seq<u8>, i: int, es: Seq<EntityV>)
    requires
        0 <= i,
        i + spec_enc_entities(es).len() <= b.len(),
        b.subrange(i, i + spec_enc_entities(es).len()) == spec_enc_entities(es),
        forall|k: int|
            0 <= k < es.len() ==> (#[trigger] es[k]).name.len() <= NAME_CAP && 0 <= es[k].position.x
                && 0 <= es[k].position.y,
    ensures
        spec_parse_entities(b, i, es.len()) == Some((es, i + spec_enc_entities(es).len())),
    decreases es.len(),
{
    if es.len() == 0 {
        assert(Seq::<EntityV>::empty() =~= es);
    } else {
        let e = spec_enc_entities(es);
        let e0 = spec_enc_entity(es[0]);
        let rest = es.drop_first();
        let erest = spec_enc_entities(rest);
        assert(e == e0 + erest);
        lemma_piece(b, i, e, 0, e0.len() as int);
        assert(e.subrange(0, e0.len() as int) =~= e0);
        lemma_parse_enc_entity(b, i, es[0]);
        lemma_piece(b, i, e, e0.len() as int, e.len() as int);
        assert(e.subrange(e0.len() as int, e.len() as int) =~= erest);
        assert(forall|k: int|
            0 <= k < rest.len() ==> (#[trigger] rest[k]).name.len() <= NAME_CAP && 0
                <= rest[k].position.x && 0 <= rest[k].position.y);
        lemma_parse_enc_entities(b, i + e0.len() as int, rest);
        assert(seq![es[0]] + rest =~= es);
    }
}

/// Appends the bytes of one actor.
fn push_entity(out: &mut Vec<u8>, e: &Entity)
    ensures
        final(out)@ == old(out)@ + spec_enc_entity(e@),
{
    push_u32(out, e.id);
    push_u32(out, e.symbol as u32);
    push_u32(out, e.name.len() as u32);
    let mut j: usize = 0;
    let nl = e.name.len();
    let ghost mid = out@;
    while j < nl
        invariant
            j <= nl,
            nl == e.name@.len(),
            out@ == mid + e.name@.subrange(0, j as int),
        decreases nl - j,
    {
        out.push(e.name[j]);
        proof {
            assert(mid + e.name@.subrange(0, j + 1) =~= (mid + e.name@.subrange(0, j as int)).push(
                e.name@[j as int],
            ));
        }
        j = j + 1;
    }
    proof {
        assert(e.name@.subrange(0, nl as int) =~= e.name@);
    }
    push_u32(out, e.max_health);
    push_u32(out, e.max_energy);
    push_u32(out, e.position.x as u32);
    push_u32(out, e.position.y as u32);
    push_u32(out, e.health);
    push_u32(out, e.energy);
    push_u32(out, e.team);
    push_u32(out, e.stunned_for_turns);
    push_u32(
        out,
        if e.is_selected {
            1
        } else {
            0
        },
    );
    push_u32(
        out,
        if e.is_ai {
            1
        } else {
            0
        },
    );
    proof {
        assert(out@ =~= old(out)@ + spec_enc_entity(e@));
    }
}

/// Reads one actor, mirroring `spec_parse_entity`.
fn read_entity(b: &Vec<u8>, i: usize) -> (r: Option<(Entity, usize)>)
    ensures
        r is Some <==> spec_parse_entity(b@, i as int) is Some,
        r matches Some(p) ==> Some((p.0@, p.1 as int)) == spec_parse_entity(b@, i as int),
{
    let (id, i1) = match read_u32(b, i) {
        Some(p) => p,
        None => {
            return None;
        },
    };
    let (sym, i2) = match read_u32(b, i1) {
        Some(p) => p,
        None => {
            return None;
        },
    };
    let symbol = match char::from_u32(sym) {
        Some(c) => c,
        None => {
            return None;
        },
    };
    let (nl, i3) = match read_u32(b, i2) {
        Some(p) => p,
        None => {
            return None;
        },
    };
    let (name, i4) = match read_bytes(b, i3, nl) {
        Some(p) => p,
        None => {
            return None;
        },
    };
    let (mh, i5) = match read_u32(b, i4) {
        Some(p) => p,
        None => {
            return None;
        },
    };
    let (me, i6) = match read_u32(b, i5) {
        Some(p) => p,
        None => {
            return None;
        },
    };
    let (x, i7) = match read_u32(b, i6) {
        Some(p) => p,
        None => {
            return None;
        },
    };
    if x > 0x7fff_ffffu32 {
        return None;
    }
    let (y, i8) = match read_u32(b, i7) {
        Some(p) => p,
        None => {
            return None;
        },
    };
    if y > 0x7fff_ffffu32 {
        return None;
    }
    let (h, i9) = match read_u32(b, i8) {
        Some(p) => p,
        None => {
            return None;
        },
    };
    let (en, i10) = match read_u32(b, i9) {
        Some(p) => p,
        None => {
            return None;
        },
    };
    let (team, i11) = match read_u32(b, i10) {
        Some(p) => p,
        None => {
            return None;
        },
    };
    let (stun, i12) = match read_u32(b, i11) {
        Some(p) => p,
        None => {
            return None;
        },
    };
    let (sel, i13) = match read_u32(b, i12) {
        Some(p) => p,
        None => {
            return None;
        },
    };
    if sel > 1 {
        return None;
    }
    let (ai, i14) = match read_u32(b, i13) {
        Some(p) => p,
        None => {
            return None;
        },
    };
    if ai > 1 {
        return None;
    }
    Some(
        (
            Entity {
                id,
                symbol,
                name,
                max_health: mh,
                max_energy: me,
                position: MapPosition { x: x as i32, y: y as i32 },
                health: h,
                energy: en,
                team,
                stunned_for_turns: stun,
                is_selected: sel == 1,
                is_ai: ai == 1,
            },
            i14,
        ),
    )
}

/// Appends the bytes of every actor in order.
fn push_entities(out: &mut Vec<u8>, es: &Vec<Entity>)
    ensures
        final(out)@ == old(out)@ + spec_enc_entities(
            Seq::new(es@.len(), |k: int| es@[k]@),
        ),
{
    let ghost view_seq = Seq::new(es@.len(), |k: int| es@[k]@);
    let n = es.len();
    let mut k: usize = 0;
    proof {
        assert(view_seq.take(0) =~= Seq::<EntityV>::empty());
        assert(out@ =~= out@ + spec_enc_entities(view_seq.take(0)));
    }
    while k < n
        invariant
            k <= n,
            n == es@.len(),
            view_seq == Seq::new(es@.len(), |j: int| es@[j]@),
            out@ == old(out)@ + spec_enc_entities(view_seq.take(k as int)),
        decreases n - k,
    {
        push_entity(out, &es[k]);
        proof {
            lemma_enc_entities_snoc(view_seq, k as int);
        }
        k = k + 1;
    }
    proof {
        assert(view_seq.take(n as int) =~= view_seq);
    }
}

/// Reads `n` actors, mirroring `spec_parse_entities`.
#[verifier::rlimit(50)]
fn read_entities(b: &Vec<u8>, i: usize, n: u32) -> (r: Option<(Vec<Entity>, usize)>)
    ensures
        r is Some <==> spec_parse_entities(b@, i as int, n as nat) is Some,
        r matches Some(p) ==> Some((Seq::new(p.0@.len(), |k: int| p.0@[k]@), p.1 as int))
            == spec_parse_entities(b@, i as int, n as nat),
{
    let count = n;
    let mut acc: Vec<Entity> = Vec::new();
    let ghost mut vacc: Seq<EntityV> = Seq::empty();
    let mut pos: usize = i;
    let mut k: u32 = 0;
    while k < count
        invariant
            count == n,
            k <= count,
            acc@.len() == k,
            vacc.len() == k,
            forall|j: int| 0 <= j < vacc.len() ==> vacc[j] == acc@[j]@,
            match spec_parse_entities(b@, pos as int, (count - k) as nat) {
                Some(p) => spec_parse_entities(b@, i as int, count as nat) == Some(
                    (vacc + p.0, p.1),
                ),
                None => spec_parse_entities(b@, i as int, count as nat) is None,
            },
        decreases count - k,
    {
        match read_entity(b, pos) {
            Some((e, j)) => {
                proof {
                    let m = (count - k) as nat;
                    assert(spec_parse_entity(b@, pos as int) == Some((e@, j as int)));
                    match spec_parse_entities(b@, j as int, (m - 1) as nat) {
                        Some(p2) => {
                            assert(spec_parse_entities(b@, pos as int, m) == Some(
                                (seq![e@] + p2.0, p2.1),
                            ));
                            assert(vacc + (seq![e@] + p2.0) =~= vacc.push(e@) + p2.0);
                        },
                        None => {},
                    }
                }
                acc.push(e);
                proof {
                    vacc = vacc.push(e@);
                }
                pos = j;
                k = k + 1;
            },
            None => {
                proof {
                    let m = (count - k) as nat;
                    assert(m > 0);
                    assert(spec_parse_entities(b@, pos as int, m) is None);
                }
                return None;
            },
        }
    }
    proof {
        assert(spec_parse_entities(b@, pos as int, 0) == Some((Seq::<EntityV>::empty(), pos as int)));
        assert(vacc + Seq::<EntityV>::empty() =~= vacc);
        assert(Seq::new(acc@.len(), |j: int| acc@[j]@) =~= vacc);
    }
    Some((acc, pos))
}

/// The pickup kind a stored code stands for.
fn powerup_of(n: u32) -> (r: PowerupType)
    ensures
        r == spec_powerup_of(n),
{
    if n == 1 {
        PowerupType::HealingPotion
    } else if n == 2 {
        PowerupType::SpeedBoost
    } else if n == 3 {
        PowerupType::WallBreaker
    } else {
        PowerupType::NoPowerup
    }
}


/// The bytes of a whole world: dimensions, the tiles in row-major order,
/// the actor count and actors in insertion order, and the identity
/// counter.
pub open spec fn spec_save(w: WorldStateV) -> Seq<u8> {
    spec_enc_u32(w.map.width as u32) + spec_enc_u32(w.map.height as u32) + spec_enc_tiles(
        w.map.tiles,
    ) + spec_enc_u32(w.entities.len() as u32) + spec_enc_entities(w.entities) + spec_enc_u32(
        w.next_entity_id,
    )
}

/// Reads a whole world from the bytes: the structure must parse, the
/// dimensions must be positive and fit the index arithmetic, and nothing
/// may trail the snapshot.
pub open spec fn spec_parse_world(b: Seq<u8>) -> Option<WorldStateV> {
    match spec_parse_u32(b, 0) {
        None => None,
        Some((w, i1)) => if w == 0 || w > 0x7fff_ffffu32 {
            None
        } else {
            match spec_parse_u32(b, i1) {
                None => None,
                Some((h, i2)) => if h == 0 || h > 0x7fff_ffffu32 || (w as int) * (h as int)
                    > 0x7fff_ffff {
                    None
                } else {
                    match spec_parse_tiles(b, i2, ((w as int) * (h as int)) as nat) {
                        None => None,
                        Some((tiles, i3)) => match spec_parse_u32(b, i3) {
                            None => None,
                            Some((cnt, i4)) => match spec_parse_entities(b, i4, cnt as nat) {
                                None => None,
                                Some((ents, i5)) => match spec_parse_u32(b, i5) {
                                    None => None,
                                    Some((nid, i6)) => if i6 == b.len() {
                                        Some(
                                            WorldStateV {
                                                map: GameMapV {
                                                    width: w as int,
                                                    height: h as int,
                                                    tiles,
                                                },
                                                entities: ents,
                                                next_entity_id: nid,
                                            },
                                        )
                                    } else {
                                        None
                                    },
                                },
                            },
                        },
                    }
                },
            }
        },
    }
}

/// What loading gives back: the parsed world when the bytes are a
/// well-formed snapshot, and nothing otherwise.
pub open spec fn spec_load(b: Seq<u8>) -> Option<WorldStateV> {
    match spec_parse_world(b) {
        Some(w) => if w.wf() {
            Some(w)
        } else {
            None
        },
        None => None,
    }
}

/// Whether one tile satisfies the tile invariant.
fn check_tile_wf(t: &Tile) -> (r: bool)
    ensures
        r == t.wf(),
{
    let glyph_ok = match t.tile_type {
        TileType::WalkableGeneric => t.symbol == '.',
        TileType::Wall => t.symbol == '\u{2588}',
    };
    let wall_ok = match t.tile_type {
        TileType::Wall => t.entity_id.is_none() && matches!(t.powerup, PowerupType::NoPowerup),
        TileType::WalkableGeneric => true,
    };
    glyph_ok && wall_ok
}

/// Whether a map satisfies the map invariant.
fn check_map_wf(m: &GameMap) -> (r: bool)
    ensures
        r == m@.wf(),
{
    if m.width <= 0 || m.height <= 0 {
        return false;
    }
    proof {
        let wi = m.width as int;
        let hi = m.height as int;
        assert(wi * hi <= 0x7fff_ffff * 0x7fff_ffff) by (nonlinear_arith)
            requires
                0 < wi <= 0x7fff_ffff,
                0 < hi <= 0x7fff_ffff,
        ;
    }
    let wh = (m.width as i64) * (m.height as i64);
    if wh > 0x7fff_ffffi64 {
        return false;
    }
    if m.tiles.len() > 0x7fff_ffffusize {
        return false;
    }
    if m.tiles.len() as i64 != wh {
        return false;
    }
    let n = m.tiles.len();
    let mut k: usize = 0;
    while k < n
        invariant
            k <= n,
            n == m.tiles@.len(),
            forall|j: int| 0 <= j < k ==> (#[trigger] m.tiles@[j]).wf(),
        decreases n - k,
    {
        if !check_tile_wf(&m.tiles[k]) {
            return false;
        }
        k = k + 1;
    }
    true
}

/// Whether some actor with the identity stands at the coordinates.
fn find_backing(entities: &Vec<Entity>, id: u32, x: i32, y: i32) -> (r: bool)
    ensures
        r == exists|i: int|
            0 <= i < entities@.len() && (#[trigger] entities@[i]@).id == id
                && entities@[i]@.position == (MapPosition { x, y }),
{
    let n = entities.len();
    let mut k: usize = 0;
    while k < n
        invariant
            k <= n,
            n == entities@.len(),
            forall|j: int|
                0 <= j < k ==> !((#[trigger] entities@[j]@).id == id && entities@[j]@.position == (
                MapPosition { x, y })),
        decreases n - k,
    {
        let e = &entities[k];
        if e.id == id && e.position.x == x && e.position.y == y {
            proof {
                assert(entities@[k as int]@.id == id && entities@[k as int]@.position == (
                MapPosition { x, y }));
            }
            return true;
        }
        k = k + 1;
    }
    false
}

/// Whether a whole world satisfies the central consistency invariant.
#[verifier::rlimit(50)]
fn check_world_wf(ws: &WorldState) -> (r: bool)
    ensures
        r == ws@.wf(),
{
    if !check_map_wf(&ws.map) {
        return false;
    }
    if (ws.next_entity_id as usize) < ws.entities.len() {
        proof {
            assert(!ws@.wf());
        }
        return false;
    }
    let n = ws.entities.len();

    // Every actor is well-formed, in bounds, backed by its tile, and has
    // an allocated identity.
    let mut k: usize = 0;
    while k < n
        invariant
            k <= n,
            n == ws@.entities.len(),
            ws@.map.wf(),
            forall|j: int|
                0 <= j < k ==> {
                    let e = #[trigger] ws@.entities[j];
                    &&& e.wf()
                    &&& ws@.map.in_bounds_pos(e.position)
                    &&& ws@.map.tile_at(e.position).entity_id == Some(e.id)
                    &&& e.id < ws@.next_entity_id
                },
        decreases n - k,
    {
        let e = &ws.entities[k];
        proof {
            assert(ws@.entities[k as int] == ws.entities@[k as int]@);
        }
        if e.health > e.max_health || e.energy > e.max_energy || e.name.len() > NAME_CAP {
            proof {
                assert(!ws@.entities[k as int].wf());
                assert(!ws@.entities_ok());
            }
            return false;
        }
        if e.id >= ws.next_entity_id {
            proof {
                assert(!ws@.entities_ok());
            }
            return false;
        }
        let tile = match ws.map.get_tile(&e.position) {
            Some(t) => *t,
            None => {
                proof {
                    assert(!ws@.map.in_bounds_pos(ws@.entities[k as int].position));
                    assert(!ws@.entities_ok());
                }
                return false;
            },
        };
        let backed = match tile.entity_id {
            Some(v) => v == e.id,
            None => false,
        };
        if !backed {
            proof {
                assert(ws@.map.tile_at(ws@.entities[k as int].position).entity_id != Some(
                    ws@.entities[k as int].id,
                ));
                assert(!ws@.entities_ok());
            }
            return false;
        }
        k = k + 1;
    }

    // No two actors carry the same identity.
    let mut a: usize = 0;
    while a < n
        invariant
            a <= n,
            n == ws@.entities.len(),
            forall|i: int, j: int|
                0 <= i < j < n && i < a ==> (#[trigger] ws@.entities[i]).id != (
                #[trigger] ws@.entities[j]).id,
        decreases n - a,
    {
        let mut bidx: usize = a + 1;
        while bidx < n
            invariant
                a < bidx,
                bidx <= n,
                a < n,
                n == ws@.entities.len(),
                forall|j: int|
                    a < j < bidx ==> (#[trigger] ws@.entities[j]).id != ws@.entities[a as int].id,
            decreases n - bidx,
        {
            if ws.entities[bidx].id == ws.entities[a].id {
                proof {
                    assert(ws@.entities[a as int].id == ws@.entities[bidx as int].id);
                    assert(!ws@.ids_unique());
                }
                return false;
            }
            bidx = bidx + 1;
        }
        a = a + 1;
    }

    // Every occupied tile is backed by a matching actor.
    let width = ws.map.width;
    let height = ws.map.height;
    let mut y: i32 = 0;
    while y < height
        invariant
            0 <= y <= height,
            n == ws@.entities.len(),
            ws@.map.wf(),
            width == ws@.map.width,
            height == ws@.map.height,
            forall|xi: int, yi: int|
                0 <= xi < width && 0 <= yi < y ==> occupant_backed_at(ws@, xi, yi),
        decreases height - y,
    {
        let mut x: i32 = 0;
        while x < width
            invariant
                0 <= y < height,
                0 <= x <= width,
                n == ws@.entities.len(),
                ws@.map.wf(),
                width == ws@.map.width,
                height == ws@.map.height,
                forall|xi: int, yi: int|
                    0 <= xi < width && 0 <= yi < y ==> occupant_backed_at(ws@, xi, yi),
                forall|xi: int| 0 <= xi < x ==> occupant_backed_at(ws@, xi, y as int),
            decreases width - x,
        {
            let pos = MapPosition { x, y };
            let tile = *ws.map.get_tile(&pos).unwrap();
            if let Some(id) = tile.entity_id {
                if !find_backing(&ws.entities, id, x, y) {
                    proof {
                        assert(ws@.map.in_bounds_pos(pos) && ws@.map.tile_at(pos).entity_id
                            is Some);
                        assert(forall|i: int|
                            0 <= i < ws@.entities.len() ==> (#[trigger] ws@.entities[i])
                                == ws.entities@[i]@);
                        assert(!ws@.occupants_backed());
                    }
                    return false;
                }
            }
            proof {
                assert(occupant_backed_at(ws@, x as int, y as int)) by {
                    if ws@.map.tile_at(pos).entity_id is Some {
                        let id0 = ws@.map.tile_at(pos).entity_id->0;
                        let i0 = choose|i: int|
                            0 <= i < ws.entities@.len() && (#[trigger] ws.entities@[i]@).id == id0
                                && ws.entities@[i]@.position == pos;
                        assert(0 <= i0 < ws@.entities.len() && (ws@.entities[i0]).id == id0
                            && ws@.entities[i0].position == pos);
                    }
                }
            }
            x = x + 1;
        }
        y = y + 1;
    }
    proof {
        assert(ws@.occupants_backed()) by {
            assert forall|p: MapPosition|
                ws@.map.in_bounds_pos(p) && (#[trigger] ws@.map.tile_at(p)).entity_id
                    is Some implies exists|i: int|
                0 <= i < ws@.entities.len() && (#[trigger] ws@.entities[i]).id == ws@.map.tile_at(
                    p,
                ).entity_id->0 && ws@.entities[i].position == p by {
                assert(occupant_backed_at(ws@, p.x as int, p.y as int));
                assert(MapPosition { x: p.x, y: p.y } == p);
            }
        }
    }
    true
}

/// Whether the tile at the coordinates, when occupied, is backed by an
/// actor with that identity standing there.
pub open spec fn occupant_backed_at(w: WorldStateV, xi: int, yi: int) -> bool {
    let p = MapPosition { x: xi as i32, y: yi as i32 };
    w.map.tile_at(p).entity_id is Some ==> exists|i: int|
        0 <= i < w.entities.len() && (#[trigger] w.entities[i]).id == w.map.tile_at(
            p,
        ).entity_id->0 && w.entities[i].position == p
}

impl WorldState {
    /// Serializes the whole world into one snapshot. The caller owns where
    /// the bytes go; the codec owns only their meaning.
    pub fn save(&self) -> (r: Vec<u8>)
        requires
            self@.wf(),
        ensures
            r@ == spec_save(self@),
    {
        let mut out: Vec<u8> = Vec::new();
        push_u32(&mut out, self.map.width as u32);
        push_u32(&mut out, self.map.height as u32);
        push_tiles(&mut out, &self.map.tiles);
        push_u32(&mut out, self.entities.len() as u32);
        push_entities(&mut out, &self.entities);
        push_u32(&mut out, self.next_entity_id);
        proof {
            assert(out@ =~= spec_save(self@));
        }
        out
    }

    /// Parses a snapshot back into a world. Returns the world exactly when
    /// the bytes are a well-formed snapshot; malformed bytes are a `None`,
    /// never an error.
    pub fn load(bytes: &Vec<u8>) -> (r: Option<WorldState>)
        ensures
            r is Some <==> spec_load(bytes@) is Some,
            r matches Some(w) ==> Some(w@) == spec_load(bytes@) && w@.wf(),
    {
        let (w, i1) = match read_u32(bytes, 0) {
            Some(p) => p,
            None => {
                return None;
            },
        };
        if w == 0 || w > 0x7fff_ffffu32 {
            return None;
        }
        let (h, i2) = match read_u32(bytes, i1) {
            Some(p) => p,
            None => {
                return None;
            },
        };
        if h == 0 || h > 0x7fff_ffffu32 {
            return None;
        }
        proof {
            assert((w as int) * (h as int) <= 0x7fff_ffff * 0x7fff_ffff) by (nonlinear_arith)
                requires
                    0 < w as int <= 0x7fff_ffff,
                    0 < h as int <= 0x7fff_ffff,
            ;
        }
        let wh = (w as u64) * (h as u64);
        if wh > 0x7fff_ffffu64 {
            return None;
        }
        let (tiles, i3) = match read_tiles(bytes, i2, wh as usize) {
            Some(p) => p,
            None => {
                return None;
            },
        };
        let (cnt, i4) = match read_u32(bytes, i3) {
            Some(p) => p,
            None => {
                return None;
            },
        };
        let (ents, i5) = match read_entities(bytes, i4, cnt) {
            Some(p) => p,
            None => {
                return None;
            },
        };
        let (nid, i6) = match read_u32(bytes, i5) {
            Some(p) => p,
            None => {
                return None;
            },
        };
        if i6 != bytes.len() {
            return None;
        }
        let ws = WorldState {
            map: GameMap { width: w as i32, height: h as i32, tiles },
            entities: ents,
            next_entity_id: nid,
        };
        proof {
            assert(spec_parse_world(bytes@) == Some(ws@));
        }
        if check_world_wf(&ws) {
            Some(ws)
        } else {
            None
        }
    }
}

/// Loading a saved world gives back exactly the world that was saved:
/// the persistence round trip is lossless for every well-formed world.
#[verifier::rlimit(100)]
pub proof fn lemma_save_load_round_trip(w: WorldStateV)
    requires
        w.wf(),
    ensures
        spec_load(spec_save(w)) == Some(w),
{
    let b = spec_save(w);
    assert(w.map.width <= 0x7fff_ffff && w.map.height <= 0x7fff_ffff) by (nonlinear_arith)
        requires
            0 < w.map.width,
            0 < w.map.height,
            w.map.width * w.map.height <= 0x7fff_ffff,
    ;
    let wu = w.map.width as u32;
    let hu = w.map.height as u32;
    let cu = w.entities.len() as u32;
    let et = spec_enc_tiles(w.map.tiles);
    let ee = spec_enc_entities(w.entities);
    let tl = et.len() as int;
    let el = ee.len() as int;
    assert(b.len() == 16 + tl + el);
    assert(b.subrange(0, b.len() as int) =~= b);

    assert(b.subrange(0, 4) =~= spec_enc_u32(wu));
    lemma_parse_enc_u32(b, 0, wu);
    assert(wu as int == w.map.width);

    assert(b.subrange(4, 8) =~= spec_enc_u32(hu));
    lemma_parse_enc_u32(b, 4, hu);
    assert(hu as int == w.map.height);

    assert(b.subrange(8, 8 + tl) =~= et);
    assert forall|k: int|
        0 <= k < w.map.tiles.len() implies (#[trigger] w.map.tiles[k]).symbol == spec_glyph(
        w.map.tiles[k].tile_type,
    ) by {
        assert(w.map.tiles[k].wf());
    }
    lemma_parse_enc_tiles(b, 8, w.map.tiles);
    assert(w.map.tiles.len() == ((wu as int) * (hu as int)) as nat);

    assert(b.subrange(8 + tl, 12 + tl) =~= spec_enc_u32(cu));
    lemma_parse_enc_u32(b, 8 + tl, cu);
    assert(cu as nat == w.entities.len());

    assert(b.subrange(12 + tl, 12 + tl + el) =~= ee);
    assert forall|k: int|
        0 <= k < w.entities.len() implies (#[trigger] w.entities[k]).name.len() <= NAME_CAP && 0
            <= w.entities[k].position.x && 0 <= w.entities[k].position.y by {
        assert(w.entities[k].wf());
        assert(w.map.in_bounds_pos(w.entities[k].position));
    }
    lemma_parse_enc_entities(b, 12 + tl, w.entities);

    assert(b.subrange(12 + tl + el, 16 + tl + el) =~= spec_enc_u32(w.next_entity_id));
    lemma_parse_enc_u32(b, 12 + tl + el, w.next_entity_id);

    assert(spec_parse_world(b) == Some(
        WorldStateV {
            map: GameMapV { width: wu as int, height: hu as int, tiles: w.map.tiles },
            entities: w.entities,
            next_entity_id: w.next_entity_id,
        },
    ));
    assert(GameMapV { width: wu as int, height: hu as int, tiles: w.map.tiles } == w.map);
    assert(spec_parse_world(b) == Some(w));
}

} // verus!
