//! What holds of every decoded instruction and instruction stream.

use super::opcodes::{bare, wide_with_u16, with_i16, with_i32, with_i8, with_u16, with_u8};
use super::parser::{
    lemma_instruction_advances, spec_code, spec_fixed_instruction, spec_instruction,
    spec_local_variable_table, spec_lookupswitch, spec_tableswitch, spec_wide_instruction,
    switch_padding,
};
use super::types::{InstructionView, LocalVariableTableItem};
use crate::cursor::{lemma_tag_bytewise, remains_of, ParseError};
use crate::list::lemma_counted_advances;
use vstd::prelude::*;

verus! {

/// The number of bytes that the operands of an instruction of fixed length
/// take up, by its opcode `op`. Behind the `wide` prefix the first of them
/// is the opcode `next` that the prefix modifies. `None` for an opcode
/// that stands for no such instruction.
pub open spec fn operand_bytes(op: u8, next: u8) -> Option<nat> {
    if bare(op) is Some {
        Some(0)
    } else if with_u8(op, 0) is Some || with_i8(op, 0) is Some {
        Some(1)
    } else if with_u16(op, 0) is Some || with_i16(op, 0) is Some {
        Some(2)
    } else if with_i32(op, 0) is Some {
        Some(4)
    } else if op == 0x84 {
        Some(2)
    } else if op == 0xc5 {
        Some(3)
    } else if op == 0xb9 || op == 0xba {
        Some(4)
    } else if op == 0xc4 {
        if wide_with_u16(next, 0) is Some {
            Some(3)
        } else if next == 0x84 {
            Some(5)
        } else {
            None
        }
    } else {
        None
    }
}

/// An instruction of fixed length takes up its opcode and the operand bytes
/// of its shape, no more and no less.
pub proof fn lemma_fixed_width(s: Seq<u8>, address: usize)
    requires
        s.len() >= 1,
        s[0] != 0xaa,
        s[0] != 0xab,
    ensures
        spec_instruction(s, address) matches Ok((rest, instruction)) ==> {
            ||| bare(s[0]) is Some && rest.len() == s.len() - 1
            ||| s.len() >= 2 && operand_bytes(s[0], s[1]) == Some(
                (s.len() - 1 - rest.len()) as nat,
            )
        },
{
    reveal(spec_instruction);
    reveal(spec_fixed_instruction);
    reveal(spec_wide_instruction);
}

/// The opcodes of the two invoke instructions that end in zero bytes stand
/// in no table.
proof fn lemma_invokes_are_in_no_table(op: u8)
    requires
        op == 0xb9 || op == 0xba,
    ensures
        bare(op) is None,
        with_u8(op, 0) is None,
        with_i8(op, 0) is None,
        with_u16(op, 0) is None,
        with_i16(op, 0) is None,
        with_i32(op, 0) is None,
{
    reveal(bare);
    reveal(with_u8);
    reveal(with_i8);
    reveal(with_u16);
    reveal(with_i16);
    reveal(with_i32);
}

/// An instruction of fixed length decodes wherever the operand bytes of its
/// shape are there, and nowhere else, but for the two invoke instructions
/// that end in zero bytes: they decode where those bytes are zero.
pub proof fn lemma_fixed_decodes(s: Seq<u8>, address: usize, width: nat)
    requires
        s.len() >= 2,
        s[0] != 0xaa,
        s[0] != 0xab,
        operand_bytes(s[0], s[1]) == Some(width),
    ensures
        s.len() <= width ==> spec_instruction(s, address) is Err,
        s.len() > width && s[0] != 0xb9 && s[0] != 0xba ==> spec_instruction(s, address) is Ok,
        s[0] == 0xb9 || s[0] == 0xba ==> width == 4,
        s.len() > 4 && s[0] == 0xb9 ==> (spec_instruction(s, address) is Ok <==> s[4] == 0),
        s.len() > 4 && s[0] == 0xba ==> (spec_instruction(s, address) is Ok <==> s[3] == 0 && s[4]
            == 0),
{
    reveal(spec_instruction);
    reveal(spec_fixed_instruction);
    reveal(spec_wide_instruction);
    if s[0] == 0xb9 || s[0] == 0xba {
        lemma_invokes_are_in_no_table(s[0]);
    }
    let t = s.skip(1);
    if s[0] == 0xb9 && s.len() > 4 {
        let zero = t.skip(2).skip(1);
        lemma_tag_bytewise(zero, seq![0u8]);
        assert(zero[0] == s[4]);
    }
    if s[0] == 0xba && s.len() > 4 {
        let zeros = t.skip(2);
        lemma_tag_bytewise(zeros, seq![0u8, 0u8]);
        assert(zeros[0] == s[3] && zeros[1] == s[4]);
    }
}

/// The operands of a switch start at the first offset behind its opcode
/// that is a multiple of four, counted from the start of the stream.
///
/// So a switch at offset `address` that is followed by padding of the
/// length that belongs to that offset decodes to what its operands say,
/// whatever the offset is and whatever the padding holds: the same operands
/// at another offset, behind the padding of that offset, give the same
/// instruction and leave the same bytes.
pub proof fn lemma_switch_alignment(opcode: u8, padding: Seq<u8>, body: Seq<u8>, address: usize)
    requires
        opcode == 0xaa || opcode == 0xab,
        padding.len() == switch_padding(address),
    ensures
        (address + 1 + padding.len()) % 4 == 0,
        padding.len() <= 3,
        opcode == 0xaa ==> spec_instruction(seq![opcode] + padding + body, address)
            == spec_tableswitch(body),
        opcode == 0xab ==> spec_instruction(seq![opcode] + padding + body, address)
            == spec_lookupswitch(body),
{
    reveal(spec_instruction);
    let s = seq![opcode] + padding + body;
    assert(s.skip(1) == padding + body);
    assert((padding + body).skip(padding.len() as int) == body);
}

/// The offset at which instruction `i` of a decoded stream ends: the
/// offset of the instruction behind it, and for the last instruction the
/// offset `end` at which decoding stopped.
pub open spec fn end_of(code: Seq<(usize, InstructionView)>, i: int, end: int) -> int {
    if i + 1 < code.len() {
        code[i + 1].0 as int
    } else {
        end
    }
}

/// Whether `code` and `rest` are the instructions and the remainder of the
/// stream `s`, which starts at offset `address`, laid end to end: the first
/// instruction stands at `address`, each is what [`spec_instruction`]
/// decodes at its offset and ends where the next begins, and `rest` is the
/// stream from the end of the last instruction on.
pub open spec fn lies_end_to_end(
    s: Seq<u8>,
    address: usize,
    rest: Seq<u8>,
    code: Seq<(usize, InstructionView)>,
) -> bool {
    let end = address + s.len() - rest.len();
    &&& rest.len() <= s.len()
    &&& rest == s.skip(s.len() - rest.len())
    &&& code.len() > 0 ==> code[0].0 == address
    &&& code.len() == 0 ==> rest == s
    &&& forall|i: int|
        0 <= i < code.len() ==> {
            &&& address <= (#[trigger] code[i]).0 < end_of(code, i, end) <= end
            &&& spec_instruction(s.skip(code[i].0 - address), code[i].0) == Ok::<_, ParseError>(
                (s.skip(end_of(code, i, end) - address), code[i].1),
            )
        }
}

/// An instruction before instructions that lie end to end lies end to end
/// with them.
proof fn lemma_end_to_end_step(
    s: Seq<u8>,
    address: usize,
    next: Seq<u8>,
    instruction: InstructionView,
    rest: Seq<u8>,
    tail: Seq<(usize, InstructionView)>,
)
    requires
        address + s.len() <= usize::MAX,
        spec_instruction(s, address) == Ok::<_, ParseError>((next, instruction)),
        next.len() < s.len(),
        next == s.skip(s.len() - next.len()),
        lies_end_to_end(next, (address + s.len() - next.len()) as usize, rest, tail),
    ensures
        lies_end_to_end(s, address, rest, seq![(address, instruction)] + tail),
{
    let taken = s.len() - next.len();
    let address2 = (address + taken) as usize;
    let code = seq![(address, instruction)] + tail;
    let end = address + s.len() - rest.len();
    assert(s.skip(0) == s);
    assert(next.skip(next.len() - rest.len()) == s.skip(s.len() - rest.len()));
    assert(code[0] == (address, instruction));
    assert forall|i: int| 0 <= i < code.len() implies {
        &&& address <= (#[trigger] code[i]).0 < end_of(code, i, end) <= end
        &&& spec_instruction(s.skip(code[i].0 - address), code[i].0) == Ok::<_, ParseError>(
            (s.skip(end_of(code, i, end) - address), code[i].1),
        )
    } by {
        if i == 0 {
            if tail.len() > 0 {
                assert(code[1] == tail[0]);
            }
            assert(end_of(code, 0, end) == address2);
        } else {
            let j = i - 1;
            assert(code[i] == tail[j]);
            if j + 1 < tail.len() {
                assert(code[i + 1] == tail[j + 1]);
            }
            assert(end_of(code, i, end) == end_of(tail, j, end));
            assert(address2 <= tail[j].0 < end_of(tail, j, end) <= end);
            assert(next.skip(tail[j].0 - address2) == s.skip(tail[j].0 - address));
            assert(next.skip(end_of(tail, j, end) - address2) == s.skip(
                end_of(tail, j, end) - address,
            ));
        }
    }
}

/// The instructions of a decoded stream lie end to end, with no gap and no
/// overlap, and what remains of the stream behind them is too short for
/// one more instruction.
///
/// `s` is the stream from offset `address` on.
pub proof fn lemma_code_is_contiguous(s: Seq<u8>, address: usize)
    requires
        address + s.len() <= usize::MAX,
    ensures
        spec_code(s, address) matches Ok((rest, code)) ==> lies_end_to_end(s, address, rest, code)
            && spec_instruction(rest, (address + s.len() - rest.len()) as usize) == Err::<
            (Seq<u8>, InstructionView),
            _,
        >(ParseError::InsufficientInput),
    decreases s.len(),
{
    match spec_instruction(s, address) {
        Err(e) => {
            assert(s.skip(0) == s);
        },
        Ok((next, instruction)) => {
            lemma_instruction_advances(s, address);
            let address2 = (address + s.len() - next.len()) as usize;
            lemma_code_is_contiguous(next, address2);
            match spec_code(next, address2) {
                Ok((rest, tail)) => {
                    lemma_end_to_end_step(s, address, next, instruction, rest, tail);
                },
                Err(e) => {},
            }
        },
    }
}

/// A stream fails to decode just where one of its instructions does: the
/// instructions before it lie end to end, and at the offset behind them
/// stands a byte that the format does not allow at its place.
pub proof fn lemma_code_fails_at_an_instruction(s: Seq<u8>, address: usize)
    requires
        address + s.len() <= usize::MAX,
    ensures
        spec_code(s, address) is Err ==> spec_code(s, address) == Err::<
            (Seq<u8>, Seq<(usize, InstructionView)>),
            _,
        >(ParseError::InvalidDiscriminant) && exists|at: int|
            0 <= at < s.len() && #[trigger] spec_instruction(s.skip(at), (address + at) as usize)
                == Err::<(Seq<u8>, InstructionView), _>(ParseError::InvalidDiscriminant),
    decreases s.len(),
{
    match spec_instruction(s, address) {
        Err(e) => {
            if e == ParseError::InvalidDiscriminant {
                // an empty stream is insufficient, so this one holds a byte
                assert(s.len() > 0) by {
                    reveal(spec_instruction);
                }
                assert(s.skip(0) == s);
                assert(spec_instruction(s.skip(0), (address + 0) as usize) is Err);
            }
        },
        Ok((next, instruction)) => {
            lemma_instruction_advances(s, address);
            let taken = s.len() - next.len();
            let address2 = (address + taken) as usize;
            lemma_code_fails_at_an_instruction(next, address2);
            if spec_code(next, address2) is Err {
                let at = choose|at: int|
                    0 <= at < next.len() && #[trigger] spec_instruction(
                        next.skip(at),
                        (address2 + at) as usize,
                    ) == Err::<(Seq<u8>, InstructionView), _>(ParseError::InvalidDiscriminant);
                assert(next.skip(at) == s.skip(taken + at));
                assert(spec_instruction(s.skip(taken + at), (address + (taken + at)) as usize)
                    == Err::<(Seq<u8>, InstructionView), _>(ParseError::InvalidDiscriminant));
            }
        },
    }
}

/// A decoded stream holds no more instructions than it takes up bytes.
pub proof fn lemma_code_is_no_longer_than_its_bytes(s: Seq<u8>, address: usize)
    ensures
        spec_code(s, address) matches Ok((rest, code)) ==> rest.len() + code.len() <= s.len(),
    decreases s.len(),
{
    match spec_instruction(s, address) {
        Err(e) => {},
        Ok((next, instruction)) => {
            lemma_instruction_advances(s, address);
            lemma_code_is_no_longer_than_its_bytes(
                next,
                (address + (s.len() - next.len())) as usize,
            );
        },
    }
}

/// What the decoder of a `LocalVariableTable` payload leaves behind is what
/// remains of its input.
pub proof fn lemma_local_variable_table_advances(s: Seq<u8>)
    ensures
        spec_local_variable_table(s) matches Ok((rest, table)) ==> remains_of(rest, s),
{
    lemma_counted_advances::<LocalVariableTableItem>(s);
}

} // verus!
