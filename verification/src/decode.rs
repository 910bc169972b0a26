use vstd::prelude::*;

use crate::error::TranslateError;
use crate::instr::{DecodedInstr, MN_INVALID};

verus! {

/// What the instruction decoder returns for the byte stream `code` at
/// offset `offset`, decoding in 64-bit mode with the address base `base`.
/// The decode is a pure function of these arguments; the result is far too
/// involved to write out, so it only carries this name.
pub uninterp spec fn instr_at(code: Seq<u8>, offset: int, base: u64) -> DecodedInstr;

/// Relies on `iced_x86::Decoder::{with_ip, decode}`: decodes the single
/// instruction found at `code[offset..]` in 64-bit mode, with the
/// instruction pointer `base + offset`, and on the `iced_x86::Instruction`
/// accessors (`ip`, `len`, `mnemonic`, `op0_kind`, `op1_kind`,
/// `op0_register`, `op1_register`, `memory_base`, `memory_displacement64`,
/// `try_immediate`, `near_branch_target`) together with
/// `Register::full_register`, which widens a sub-register to its full
/// 64-bit register. The decode depends on the three arguments alone.
#[verifier::external_body]
fn decode_at(code: &Vec<u8>, offset: usize, base: u64) -> (r: DecodedInstr)
    requires
        offset < code@.len(),
    ensures
        r == instr_at(code@, offset as int, base),
{
    let opts = iced_x86::DecoderOptions::NONE;
    let mut d = iced_x86::Decoder::with_ip(64, &code[offset..], base.wrapping_add(offset as u64), opts);
    let i = d.decode();
    DecodedInstr {
        ip: i.ip(), len: i.len() as u64, mnemonic: i.mnemonic() as u32, op_count: i.op_count(),
        op0_kind: i.op0_kind() as u32, op1_kind: i.op1_kind() as u32,
        op0_reg: i.op0_register().full_register() as u32, op1_reg: i.op1_register().full_register() as u32,
        mem_base: i.memory_base().full_register() as u32, mem_disp: i.memory_displacement64(),
        imm: i.try_immediate(1).unwrap_or(0), branch_target: i.near_branch_target(),
    }
}

/// The decoded form of `code` from `offset` on: instructions are taken one
/// after the other, each advancing by its own length. A decode that yields
/// an invalid instruction, makes no progress, or runs past the end of the
/// byte stream fails with `InvalidEncoding`.
pub open spec fn spec_decode_from(code: Seq<u8>, base: u64, offset: int) -> Result<
    Seq<DecodedInstr>,
    TranslateError,
>
    decreases code.len() - offset,
{
    if offset < 0 || offset >= code.len() {
        Ok(Seq::empty())
    } else {
        let d = instr_at(code, offset, base);
        if d.mnemonic == MN_INVALID || d.len == 0 || offset + d.len > code.len() {
            Err(TranslateError::InvalidEncoding)
        } else {
            match spec_decode_from(code, base, offset + d.len) {
                Ok(rest) => Ok(seq![d] + rest),
                Err(e) => Err(e),
            }
        }
    }
}

/// The decoded instruction sequence of a whole function body.
pub open spec fn spec_decode(code: Seq<u8>, base: u64) -> Result<Seq<DecodedInstr>, TranslateError> {
    spec_decode_from(code, base, 0)
}

/// Prepends already-decoded instructions to the outcome of the remaining
/// decode.
pub open spec fn decode_join(prefix: Seq<DecodedInstr>, rest: Result<Seq<DecodedInstr>, TranslateError>) -> Result<
    Seq<DecodedInstr>,
    TranslateError,
> {
    match rest {
        Ok(s) => Ok(prefix + s),
        Err(e) => Err(e),
    }
}

/// Decodes a function's bytes into its instruction sequence, exactly as
/// `spec_decode` describes: sequential variable-length decode from offset
/// zero, failing with `InvalidEncoding` on the first byte position that
/// does not form a valid instruction within the remaining capacity.
pub fn decode_function(code: &Vec<u8>, base: u64) -> (r: Result<Vec<DecodedInstr>, TranslateError>)
    ensures
        match r {
            Ok(v) => spec_decode(code@, base) == Ok::<Seq<DecodedInstr>, TranslateError>(v@),
            Err(e) => spec_decode(code@, base) == Err::<Seq<DecodedInstr>, TranslateError>(e),
        },
{
    let mut out: Vec<DecodedInstr> = Vec::new();
    let mut offset: usize = 0;
    while offset < code.len()
        invariant
            offset <= code@.len(),
            spec_decode(code@, base) == decode_join(
                out@,
                spec_decode_from(code@, base, offset as int),
            ),
        decreases code@.len() - offset,
    {
        let d = decode_at(code, offset, base);
        if d.mnemonic == MN_INVALID || d.len == 0 || d.len > (code.len() - offset) as u64 {
            assert(spec_decode_from(code@, base, offset as int) == Err::<
                Seq<DecodedInstr>,
                TranslateError,
            >(TranslateError::InvalidEncoding));
            return Err(TranslateError::InvalidEncoding);
        }
        let ghost prev_offset = offset as int;
        let ghost prev_out = out@;
        let step = d.len as usize;
        out.push(d);
        offset = offset + step;
        proof {
            let next = spec_decode_from(code@, base, offset as int);
            assert(spec_decode_from(code@, base, prev_offset) == decode_join(seq![d], next));
            match next {
                Ok(rest) => {
                    assert(prev_out + (seq![d] + rest) =~= out@ + rest);
                },
                Err(_) => {},
            }
        }
    }
    assert(spec_decode_from(code@, base, offset as int) == Ok::<Seq<DecodedInstr>, TranslateError>(
        Seq::empty(),
    ));
    assert(out@ + Seq::<DecodedInstr>::empty() =~= out@);
    Ok(out)
}

} // verus!
