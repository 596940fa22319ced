//! A byte encoding for a game, for the host's durable storage.
//!
//! The record is 36 bytes: the balance, the twelve stack bytes, and the two
//! claim timestamps, each integer in little-endian order. Decoding an
//! encoded game reproduces it exactly
//! ([`lemma_game_codec_round_trip`]).

use crate::game::Game;
use crate::game::STACK_SIZE;
use vstd::bytes::lemma_auto_spec_u64_to_from_le_bytes;
use vstd::bytes::spec_u64_from_le_bytes;
use vstd::bytes::spec_u64_to_le_bytes;
use vstd::bytes::u64_from_le_bytes;
use vstd::bytes::u64_to_le_bytes;
use vstd::prelude::*;
use vstd::slice::slice_subrange;

verus! {

/// Length in bytes of an encoded game: three 8-byte integers and the
/// twelve stack bytes.
pub const ENCODED_GAME_LEN: usize = 36;

/// The byte string that encodes `g`.
pub open spec fn spec_encode_game(g: Game) -> Seq<u8> {
    spec_u64_to_le_bytes(g.balance) + g.entity_stack@ + spec_u64_to_le_bytes(g.last_click)
        + spec_u64_to_le_bytes(g.current_click)
}

/// Encodes `g` as its 36-byte record.
pub fn encode_game(g: &Game) -> (r: Vec<u8>)
    requires
        g.wf(),
    ensures
        r@ == spec_encode_game(*g),
        r@.len() == ENCODED_GAME_LEN,
{
    proof {
        lemma_auto_spec_u64_to_from_le_bytes();
    }
    let mut out = u64_to_le_bytes(g.balance);
    let mut i: usize = 0;
    while i < STACK_SIZE
        invariant
            g.entity_stack@.len() == STACK_SIZE,
            i <= STACK_SIZE,
            out@ == spec_u64_to_le_bytes(g.balance) + g.entity_stack@.subrange(0, i as int),
        decreases STACK_SIZE - i,
    {
        out.push(g.entity_stack[i]);
        proof {
            assert(out@ =~= spec_u64_to_le_bytes(g.balance) + g.entity_stack@.subrange(
                0,
                i + 1 as int,
            ));
        }
        i = i + 1;
    }
    proof {
        assert(g.entity_stack@.subrange(0, STACK_SIZE as int) =~= g.entity_stack@);
    }
    let mut tail = u64_to_le_bytes(g.last_click);
    out.append(&mut tail);
    let mut tail2 = u64_to_le_bytes(g.current_click);
    out.append(&mut tail2);
    proof {
        assert(out@ =~= spec_encode_game(*g));
    }
    out
}

/// Decodes a 36-byte record back into a game. Any other length is refused.
pub fn decode_game(bytes: &Vec<u8>) -> (r: Option<Game>)
    ensures
        match r {
            Some(g) => {
                &&& bytes@.len() == ENCODED_GAME_LEN
                &&& g.wf()
                &&& g.balance == spec_u64_from_le_bytes(bytes@.subrange(0, 8))
                &&& g.entity_stack@ == bytes@.subrange(8, 20)
                &&& g.last_click == spec_u64_from_le_bytes(bytes@.subrange(20, 28))
                &&& g.current_click == spec_u64_from_le_bytes(bytes@.subrange(28, 36))
            },
            None => bytes@.len() != ENCODED_GAME_LEN,
        },
{
    if bytes.len() != ENCODED_GAME_LEN {
        return None;
    }
    let balance = u64_from_le_bytes(slice_subrange(bytes.as_slice(), 0, 8));
    let mut stack: Vec<u8> = Vec::new();
    let mut i: usize = 8;
    while i < 20
        invariant
            bytes@.len() == ENCODED_GAME_LEN,
            8 <= i <= 20,
            stack@ == bytes@.subrange(8, i as int),
        decreases 20 - i,
    {
        stack.push(bytes[i]);
        proof {
            assert(stack@ =~= bytes@.subrange(8, i + 1 as int));
        }
        i = i + 1;
    }
    let last_click = u64_from_le_bytes(slice_subrange(bytes.as_slice(), 20, 28));
    let current_click = u64_from_le_bytes(slice_subrange(bytes.as_slice(), 28, 36));
    Some(Game { balance, entity_stack: stack, last_click, current_click })
}

/// Round trip: decoding the encoding of any well-formed game recovers every
/// field — the byte string determines the game completely.
pub proof fn lemma_game_codec_round_trip(g: Game)
    requires
        g.wf(),
    ensures
        spec_encode_game(g).len() == ENCODED_GAME_LEN,
        spec_u64_from_le_bytes(spec_encode_game(g).subrange(0, 8)) == g.balance,
        spec_encode_game(g).subrange(8, 20) == g.entity_stack@,
        spec_u64_from_le_bytes(spec_encode_game(g).subrange(20, 28)) == g.last_click,
        spec_u64_from_le_bytes(spec_encode_game(g).subrange(28, 36)) == g.current_click,
{
    lemma_auto_spec_u64_to_from_le_bytes();
    let e = spec_encode_game(g);
    assert(e.subrange(0, 8) =~= spec_u64_to_le_bytes(g.balance));
    assert(e.subrange(8, 20) =~= g.entity_stack@);
    assert(e.subrange(20, 28) =~= spec_u64_to_le_bytes(g.last_click));
    assert(e.subrange(28, 36) =~= spec_u64_to_le_bytes(g.current_click));
}

} // verus!
