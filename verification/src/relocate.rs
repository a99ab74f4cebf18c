//! Stealing whole instructions from the start of a target function and
//! re-encoding them for the trampoline.
//!
//! Instruction decoding and encoding are iced_x86's; the library decides how
//! many instructions are taken and when the target is too short to hook.
use vstd::prelude::*;
use vstd::slice::slice_subrange;
use iced_x86::{
    BlockEncoder, BlockEncoderOptions, Decoder, DecoderOptions, FlowControl, IcedError,
    InstructionBlock,
};
use crate::error::Error;

verus! {

#[verifier::external_type_specification]
#[verifier::external_body]
pub struct ExIcedError(IcedError);

/// How control leaves an instruction, as iced_x86's `FlowControl` tells it.
#[derive(Debug, Clone, Copy, PartialEq, Eq)]
pub enum FlowKind {
    Next,
    UnconditionalBranch,
    IndirectBranch,
    ConditionalBranch,
    Return,
    Call,
    IndirectCall,
    Interrupt,
    XbeginXabortXend,
    Exception,
}

/// What the hook reads of one decoded instruction.
#[derive(Debug, Clone, Copy, PartialEq, Eq)]
pub struct DecodedInstr {
    /// The bytes do not start with a valid instruction.
    pub invalid: bool,
    /// The instruction's length in bytes.
    pub len: usize,
    /// How control leaves the instruction.
    pub flow: FlowKind,
}

/// What iced_x86's 64-bit `Decoder` reads as the first instruction of `code`
/// when the code sits at address `ip`.
pub uninterp spec fn first_instruction(code: Seq<u8>, ip: u64) -> DecodedInstr;

/// The machine code iced_x86's 64-bit `BlockEncoder` produces for the
/// instructions that its `Decoder` reads from all of `code` placed at `rip`,
/// when they are moved to `new_rip`; `None` when the encoder fails.
pub uninterp spec fn block_encoding(code: Seq<u8>, rip: u64, new_rip: u64) -> Option<Seq<u8>>;

/// Decodes the first instruction of `code`, placed at `ip`, with
/// `iced_x86::Decoder::with_ip(64, code, ip, DecoderOptions::NONE).decode()`
/// and reads its `is_invalid()`, `len()` and `flow_control()`.
///
/// Claimed: the result depends on `code` and `ip` alone; a valid instruction
/// is 1 to 15 bytes long and lies within `code` (the decoder marks invalid an
/// instruction that would need a byte past the end of its data).
/// Left unsaid: `with_ip` panics on a slice that ends within 15 bytes of the
/// top of the address space.
#[verifier::external_body]
fn decode_first(code: &[u8], ip: u64) -> (d: DecodedInstr)
    ensures
        d == first_instruction(code@, ip),
        !d.invalid ==> 1 <= d.len <= 15 && d.len <= code.len(),
{
    let i = Decoder::with_ip(64, code, ip, DecoderOptions::NONE).decode();
    let flow = match i.flow_control() {
        FlowControl::Next => FlowKind::Next,
        FlowControl::UnconditionalBranch => FlowKind::UnconditionalBranch,
        FlowControl::IndirectBranch => FlowKind::IndirectBranch,
        FlowControl::ConditionalBranch => FlowKind::ConditionalBranch,
        FlowControl::Return => FlowKind::Return,
        FlowControl::Call => FlowKind::Call,
        FlowControl::IndirectCall => FlowKind::IndirectCall,
        FlowControl::Interrupt => FlowKind::Interrupt,
        FlowControl::XbeginXabortXend => FlowKind::XbeginXabortXend,
        FlowControl::Exception => FlowKind::Exception,
    };
    DecodedInstr { invalid: i.is_invalid(), len: i.len(), flow }
}

/// Decodes the instructions of `code` placed at `rip` with iced_x86's
/// `Decoder` and encodes them for the base `new_rip` with
/// `BlockEncoder::encode(64, InstructionBlock::new(..), BlockEncoderOptions::NONE)`,
/// returning the encoder's `code_buffer`.
///
/// Claimed: the outcome depends on `code`, `rip` and `new_rip` alone.
#[verifier::external_body]
fn reencode(code: &[u8], rip: u64, new_rip: u64) -> (r: Result<Vec<u8>, IcedError>)
    ensures
        r is Ok <==> block_encoding(code@, rip, new_rip) is Some,
        r matches Ok(b) ==> block_encoding(code@, rip, new_rip) == Some(b@),
{
    let instructions: Vec<_> = Decoder::with_ip(64, code, rip, DecoderOptions::NONE).into_iter().collect();
    let block = InstructionBlock::new(&instructions, new_rip);
    BlockEncoder::encode(64, block, BlockEncoderOptions::NONE).map(|r| r.code_buffer)
}

/// Control does not fall through to the next instruction: a return, an
/// unconditional jump, an exception or an interrupt.
pub open spec fn ends_flow(f: FlowKind) -> bool {
    f == FlowKind::Return || f == FlowKind::UnconditionalBranch || f == FlowKind::Exception
        || f == FlowKind::Interrupt
}

impl FlowKind {
    /// Whether control does not fall through past this instruction.
    pub fn ends_flow(&self) -> (r: bool)
        ensures
            r == ends_flow(*self),
    {
        match self {
            FlowKind::Return | FlowKind::UnconditionalBranch | FlowKind::Exception
            | FlowKind::Interrupt => true,
            _ => false,
        }
    }
}

/// How taking whole instructions from the start of some code ends.
pub enum Theft {
    /// The first `n` bytes hold whole instructions and are enough.
    Stolen(nat),
    /// An instruction could not be decoded.
    Undecodable,
    /// The code ends (returns, jumps away, traps) after `n` bytes, too few.
    EndsEarly(nat),
}

/// Taking whole instructions of `code`, placed at `rip`, from byte `offset`
/// on, until at least `min` bytes are taken.
pub open spec fn steal(code: Seq<u8>, rip: u64, min: nat, offset: nat) -> Theft
    decreases min - offset,
{
    if offset >= min {
        Theft::Stolen(offset)
    } else {
        let d = first_instruction(
            code.subrange(offset as int, code.len() as int),
            vstd::wrapping::u64_specs::wrapping_add(rip, offset as u64),
        );
        if d.invalid || d.len == 0 {
            Theft::Undecodable
        } else if ends_flow(d.flow) && offset + d.len < min {
            Theft::EndsEarly((offset + d.len) as nat)
        } else if offset + d.len >= min {
            Theft::Stolen((offset + d.len) as nat)
        } else {
            steal(code, rip, min, (offset + d.len) as nat)
        }
    }
}

/// One step of taking instructions: with `stolen_len` bytes taken so far,
/// fewer than `min_bytes`, and `d` the next instruction, the new count of
/// bytes taken, or why taking stops.
pub open spec fn step_outcome(stolen_len: usize, min_bytes: usize, d: DecodedInstr) -> Result<usize, Error> {
    if d.invalid {
        Err(Error::RelocationFailed)
    } else if ends_flow(d.flow) && stolen_len + d.len < min_bytes {
        Err(Error::InsufficientSpace { need: min_bytes, have: (stolen_len + d.len) as usize })
    } else {
        Ok((stolen_len + d.len) as usize)
    }
}

/// Takes the instruction `d` after `stolen_len` bytes: fails on an invalid
/// instruction, and when the instruction ends the function before
/// `min_bytes` are reached.
pub fn take_instruction(stolen_len: usize, min_bytes: usize, d: DecodedInstr) -> (r: Result<usize, Error>)
    requires
        !d.invalid ==> stolen_len + d.len <= usize::MAX,
    ensures
        r == step_outcome(stolen_len, min_bytes, d),
{
    if d.invalid {
        return Err(Error::RelocationFailed);
    }
    let taken = stolen_len + d.len;
    if d.flow.ends_flow() && taken < min_bytes {
        return Err(Error::InsufficientSpace { need: min_bytes, have: taken });
    }
    Ok(taken)
}

/// Control leaves an instruction for good exactly after a return, an
/// unconditional jump, an exception or an interrupt.
pub proof fn lemma_flow_ending_kinds()
    ensures
        ends_flow(FlowKind::Return),
        ends_flow(FlowKind::UnconditionalBranch),
        ends_flow(FlowKind::Exception),
        ends_flow(FlowKind::Interrupt),
        !ends_flow(FlowKind::Next),
        !ends_flow(FlowKind::IndirectBranch),
        !ends_flow(FlowKind::ConditionalBranch),
        !ends_flow(FlowKind::Call),
        !ends_flow(FlowKind::IndirectCall),
        !ends_flow(FlowKind::XbeginXabortXend),
{
}

/// Taking one instruction adds its length to the bytes taken, fails on an
/// invalid one, and reports too little space only for an instruction that
/// ends the function before `min_bytes` are reached, with the bytes taken
/// so far including it.
pub proof fn lemma_step_outcome_meaning(stolen_len: usize, min_bytes: usize, d: DecodedInstr)
    requires
        !d.invalid ==> stolen_len + d.len <= usize::MAX,
    ensures
        step_outcome(stolen_len, min_bytes, d) is Ok <==> !d.invalid && !(ends_flow(d.flow)
            && stolen_len + d.len < min_bytes),
        step_outcome(stolen_len, min_bytes, d) matches Ok(n) ==> n == stolen_len + d.len,
        step_outcome(stolen_len, min_bytes, d) == Err::<usize, Error>(Error::RelocationFailed) <==> d.invalid,
        step_outcome(stolen_len, min_bytes, d) matches Err(Error::InsufficientSpace { need, have })
            ==> need == min_bytes && have == stolen_len + d.len && have < min_bytes,
{
}

/// Instructions taken from a target and re-encoded for the trampoline.
#[derive(Debug)]
pub struct Relocated {
    /// The re-encoded instructions.
    pub bytes: Vec<u8>,
    /// How many bytes of the target they replace.
    pub stolen_len: usize,
}

/// The outcome `relocate` owes for its arguments.
pub open spec fn relocation(code: Seq<u8>, original_rip: u64, new_rip: u64, min_bytes: usize) -> Result<
    (Seq<u8>, usize),
    Error,
> {
    match steal(code, original_rip, min_bytes as nat, 0) {
        Theft::Undecodable => Err(Error::RelocationFailed),
        Theft::EndsEarly(have) => Err(Error::InsufficientSpace { need: min_bytes, have: have as usize }),
        Theft::Stolen(n) => match block_encoding(code.take(n as int), original_rip, new_rip) {
            Some(bytes) => Ok((bytes, n as usize)),
            None => Err(Error::RelocationFailed),
        },
    }
}

/// What relocation produces is the encoder's output for exactly the stolen
/// bytes, decoded at the address they were taken from and placed at the new
/// address, wherever the new address lies.
pub proof fn lemma_relocation_reencodes_stolen_bytes(code: Seq<u8>, original_rip: u64, new_rip: u64, min_bytes: usize)
    ensures
        steal(code, original_rip, min_bytes as nat, 0) matches Theft::Stolen(n) ==> (relocation(
            code,
            original_rip,
            new_rip,
            min_bytes,
        ) matches Ok((bytes, m)) ==> m == n as usize && block_encoding(code.take(n as int), original_rip, new_rip)
            == Some(bytes)),
        relocation(code, original_rip, new_rip, min_bytes) is Ok ==> steal(code, original_rip, min_bytes as nat, 0) is Stolen,
{
}

/// When some bytes are to be taken, taking them starts with a valid
/// instruction decoded at the very address the code sits at.
pub proof fn lemma_stealing_starts_at_original_address(code: Seq<u8>, rip: u64, min: nat)
    requires
        min > 0,
        steal(code, rip, min, 0) is Stolen,
    ensures
        !first_instruction(code, rip).invalid,
        first_instruction(code, rip).len >= 1,
{
    assert(code.subrange(0, code.len() as int) =~= code);
    assert(vstd::wrapping::u64_specs::wrapping_add(rip, 0u64) == rip);
}

/// Takes whole instructions from the start of `code`, which sits at
/// `original_rip`, until at least `min_bytes` are taken, and re-encodes them
/// to run at `new_rip`.
pub fn relocate(code: &[u8], original_rip: u64, new_rip: u64, min_bytes: usize) -> (r: Result<
    Relocated,
    Error,
>)
    ensures
        match relocation(code@, original_rip, new_rip, min_bytes) {
            Ok((bytes, n)) => r matches Ok(rel) && rel.bytes@ == bytes && rel.stolen_len == n,
            Err(e) => r == Err::<Relocated, Error>(e),
        },
        r matches Ok(rel) ==> min_bytes <= rel.stolen_len <= code.len(),
        r matches Ok(rel) ==> block_encoding(code@.take(rel.stolen_len as int), original_rip, new_rip)
            == Some(rel.bytes@),
        r matches Err(Error::InsufficientSpace { need, have }) ==> need == min_bytes && have
            < min_bytes,
{
    let mut stolen_len: usize = 0;
    while stolen_len < min_bytes
        invariant
            stolen_len <= code.len(),
            steal(code@, original_rip, min_bytes as nat, stolen_len as nat) == steal(
                code@,
                original_rip,
                min_bytes as nat,
                0,
            ),
        decreases code.len() - stolen_len,
    {
        let tail = slice_subrange(code, stolen_len, code.len());
        let instr = decode_first(tail, original_rip.wrapping_add(stolen_len as u64));
        stolen_len = take_instruction(stolen_len, min_bytes, instr)?;
    }
    let stolen = slice_subrange(code, 0, stolen_len);
    assert(stolen@ == code@.take(stolen_len as int));
    match reencode(stolen, original_rip, new_rip) {
        Ok(bytes) => Ok(Relocated { bytes, stolen_len }),
        Err(_) => Err(Error::RelocationFailed),
    }
}

} // verus!
