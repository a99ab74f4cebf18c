use procmod_hook::hook::{InstallPlan, RemovalPhase, UnhookAction, MIN_READ_LEN, NOP, TRAMPOLINE_SIZE};
use procmod_hook::jump::{encode_abs64, encode_rel32};
use procmod_hook::Error;

const PROLOGUE: [u8; 16] = [
    0x55, 0x48, 0x89, 0xE5, 0x48, 0x83, 0xEC, 0x10, 0x90, 0x90, 0x90, 0x90, 0x90, 0x90, 0x90, 0x90,
];

#[test]
fn near_detour_uses_rel32() {
    let plan = InstallPlan::new(0x1000, 0x2000);
    assert_eq!(plan.patch_len(), 5);
    assert_eq!(plan.read_len(), MIN_READ_LEN);
    assert_eq!(plan.patch_code(5), encode_rel32(0x1000, 0x2000).unwrap().to_vec());
}

#[test]
fn far_detour_uses_abs64() {
    let plan = InstallPlan::new(0x1000, 0x7000_0000_0000);
    assert_eq!(plan.patch_len(), 14);
    assert_eq!(plan.read_len(), 16);
    assert_eq!(plan.patch_code(14), encode_abs64(0x7000_0000_0000).to_vec());
}

#[test]
fn patch_is_padded_with_nops() {
    let plan = InstallPlan::new(0x1000, 0x2000);
    let patch = plan.patch_code(8);
    assert_eq!(patch.len(), 8);
    assert_eq!(&patch[..5], &encode_rel32(0x1000, 0x2000).unwrap()[..]);
    assert_eq!(&patch[5..], &[NOP, NOP, NOP]);
}

#[test]
fn trampoline_jumps_back_after_stolen_bytes() {
    let plan = InstallPlan::new(0x1000, 0x2000);
    let rel = plan.relocate(&PROLOGUE, 0x5000).unwrap();
    assert_eq!(rel.stolen_len, 8);
    let code = plan.trampoline_code(&rel, 0x5000).unwrap();
    assert!(code.len() <= TRAMPOLINE_SIZE);
    assert_eq!(&code[..8], &PROLOGUE[..8]);
    assert_eq!(code[8], 0xE9);
    let delta = i32::from_le_bytes(code[9..13].try_into().unwrap());
    // The jump sits at 0x5008 and must land on 0x1008.
    assert_eq!(0x5008u64.wrapping_add(5).wrapping_add(delta as i64 as u64), 0x1008);
}

#[test]
fn trampoline_out_of_reach_fails() {
    let plan = InstallPlan::new(0x1000, 0x2000);
    let rel = plan.relocate(&PROLOGUE, 0x7000_0000_0000).unwrap();
    assert_eq!(plan.trampoline_code(&rel, 0x7000_0000_0000), Err(Error::RelocationFailed));
}

#[test]
fn relocation_errors_pass_through() {
    let plan = InstallPlan::new(0x1000, 0x2000);
    let code = [0xC3, 0x90, 0x90, 0x90, 0x90, 0x90, 0x90, 0x90, 0x90, 0x90, 0x90, 0x90, 0x90, 0x90, 0x90, 0x90];
    assert_eq!(
        plan.relocate(&code, 0x5000).unwrap_err(),
        Error::InsufficientSpace { need: 5, have: 1 }
    );
}

#[test]
fn unhook_restores_original_bytes_once() {
    let plan = InstallPlan::new(0x1000, 0x2000);
    let rel = plan.relocate(&PROLOGUE, 0x5000).unwrap();
    let mut hook = plan.finish(0x5000, &PROLOGUE, rel.stolen_len);
    assert!(hook.is_installed());
    assert_eq!(hook.trampoline(), 0x5000);
    assert_eq!(hook.target(), 0x1000);
    assert_eq!(hook.stolen_len(), 8);
    assert_eq!(hook.removal_phase(), RemovalPhase::Idle);
    assert_eq!(hook.begin_unhook(), UnhookAction::MakeWritable { addr: 0x1000, len: 8 });
    assert_eq!(
        hook.unhook_protection_changed(Ok(0x20)),
        UnhookAction::WriteOriginal { addr: 0x1000, code: PROLOGUE[..8].to_vec() }
    );
    assert_eq!(
        hook.original_written(),
        UnhookAction::RestoreProtection { addr: 0x1000, len: 8, previous: 0x20 }
    );
    // The outcome of restoring the protection does not matter.
    assert_eq!(
        hook.unhook_protection_restored(Err(Error::ProtectFailed)),
        UnhookAction::FreeTrampoline { addr: 0x5000, size: TRAMPOLINE_SIZE }
    );
    assert_eq!(hook.trampoline_freed(), UnhookAction::Finish);
    assert!(!hook.is_installed());
    assert_eq!(hook.begin_unhook(), UnhookAction::Fail(Error::NotInstalled));
}

#[test]
fn unhook_keeps_hook_when_protection_fails() {
    let plan = InstallPlan::new(0x1000, 0x2000);
    let rel = plan.relocate(&PROLOGUE, 0x5000).unwrap();
    let mut hook = plan.finish(0x5000, &PROLOGUE, rel.stolen_len);
    assert_eq!(hook.begin_unhook(), UnhookAction::MakeWritable { addr: 0x1000, len: 8 });
    assert_eq!(
        hook.unhook_protection_changed(Err(Error::ProtectFailed)),
        UnhookAction::Fail(Error::ProtectFailed)
    );
    assert!(hook.is_installed());
    assert_eq!(hook.removal_phase(), RemovalPhase::Idle);
    // A second attempt starts over.
    assert_eq!(hook.begin_unhook(), UnhookAction::MakeWritable { addr: 0x1000, len: 8 });
}
