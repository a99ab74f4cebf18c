use procmod_hook::relocate::{relocate, take_instruction, DecodedInstr, FlowKind};
use procmod_hook::Error;

const PROLOGUE: [u8; 16] = [
    0x55, // push rbp
    0x48, 0x89, 0xE5, // mov rbp, rsp
    0x48, 0x83, 0xEC, 0x10, // sub rsp, 0x10
    0x90, 0x90, 0x90, 0x90, 0x90, 0x90, 0x90, 0x90,
];

#[test]
fn steals_whole_instructions() {
    let r = relocate(&PROLOGUE, 0x1000, 0x7000_0000, 5).unwrap();
    assert_eq!(r.stolen_len, 8);
    assert_eq!(r.bytes, PROLOGUE[..8].to_vec());
}

#[test]
fn steals_enough_for_absolute_jump() {
    let r = relocate(&PROLOGUE, 0x1000, 0x7000_0000, 14).unwrap();
    assert_eq!(r.stolen_len, 14);
    assert_eq!(r.bytes, PROLOGUE[..14].to_vec());
}

#[test]
fn rip_relative_operand_is_adjusted() {
    // mov rax, [rip+0x10] at 0x1000 reads 0x1017.
    let code = [0x48, 0x8B, 0x05, 0x10, 0x00, 0x00, 0x00, 0x90, 0x90, 0x90, 0x90, 0x90, 0x90, 0x90, 0x90, 0x90];
    let r = relocate(&code, 0x1000, 0x2000, 5).unwrap();
    assert_eq!(r.stolen_len, 7);
    // At 0x2000 the displacement becomes 0x1017 - 0x2007 = -0xFF0.
    assert_eq!(r.bytes, vec![0x48, 0x8B, 0x05, 0x10, 0xF0, 0xFF, 0xFF]);
}

#[test]
fn return_before_enough_bytes_is_insufficient_space() {
    let code = [0xC3, 0x90, 0x90, 0x90, 0x90, 0x90, 0x90, 0x90, 0x90, 0x90, 0x90, 0x90, 0x90, 0x90, 0x90, 0x90];
    assert_eq!(
        relocate(&code, 0x1000, 0x2000, 5).unwrap_err(),
        Error::InsufficientSpace { need: 5, have: 1 }
    );
}

#[test]
fn trap_before_enough_bytes_is_insufficient_space() {
    // nop; int3
    let code = [0x90, 0xCC, 0x90, 0x90, 0x90, 0x90, 0x90, 0x90, 0x90, 0x90, 0x90, 0x90, 0x90, 0x90, 0x90, 0x90];
    assert_eq!(
        relocate(&code, 0x1000, 0x2000, 5).unwrap_err(),
        Error::InsufficientSpace { need: 5, have: 2 }
    );
}

#[test]
fn return_ending_exactly_at_min_bytes_is_stolen() {
    // nop x4; ret: the return ends at byte 5, which is enough.
    let code = [0x90, 0x90, 0x90, 0x90, 0xC3, 0xCC, 0xCC, 0xCC, 0xCC, 0xCC, 0xCC, 0xCC, 0xCC, 0xCC, 0xCC, 0xCC];
    let r = relocate(&code, 0x1000, 0x2000, 5).unwrap();
    assert_eq!(r.stolen_len, 5);
    assert_eq!(r.bytes, vec![0x90, 0x90, 0x90, 0x90, 0xC3]);
}

#[test]
fn invalid_instruction_fails() {
    // 0x06 (push es) does not exist in 64-bit mode.
    let code = [0x06, 0x90, 0x90, 0x90, 0x90, 0x90, 0x90, 0x90];
    assert_eq!(relocate(&code, 0x1000, 0x2000, 5).unwrap_err(), Error::RelocationFailed);
}

#[test]
fn code_running_out_fails() {
    let code = [0x90, 0x90, 0x90];
    assert_eq!(relocate(&code, 0x1000, 0x2000, 5).unwrap_err(), Error::RelocationFailed);
}

#[test]
fn take_instruction_rules() {
    let nop = DecodedInstr { invalid: false, len: 1, flow: FlowKind::Next };
    let ret = DecodedInstr { invalid: false, len: 1, flow: FlowKind::Return };
    let jmp = DecodedInstr { invalid: false, len: 5, flow: FlowKind::UnconditionalBranch };
    let call = DecodedInstr { invalid: false, len: 5, flow: FlowKind::Call };
    let bad = DecodedInstr { invalid: true, len: 0, flow: FlowKind::Exception };
    assert_eq!(take_instruction(0, 5, nop), Ok(1));
    assert_eq!(take_instruction(3, 5, ret), Err(Error::InsufficientSpace { need: 5, have: 4 }));
    assert_eq!(take_instruction(4, 5, ret), Ok(5));
    assert_eq!(take_instruction(0, 5, jmp), Ok(5));
    assert_eq!(take_instruction(0, 14, jmp), Err(Error::InsufficientSpace { need: 14, have: 5 }));
    assert_eq!(take_instruction(0, 14, call), Ok(5));
    assert_eq!(take_instruction(2, 5, bad), Err(Error::RelocationFailed));
    assert!(FlowKind::Interrupt.ends_flow());
    assert!(!FlowKind::ConditionalBranch.ends_flow());
}
