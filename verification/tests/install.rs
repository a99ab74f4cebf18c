use procmod_hook::hook::{RemovalPhase, UnhookAction, NOP, TRAMPOLINE_SIZE};
use procmod_hook::install::{InstallAction, InstallPhase, Installer};
use procmod_hook::jump::{encode_abs64, encode_rel32};
use procmod_hook::Error;

const PROLOGUE: [u8; 16] = [
    0x55, 0x48, 0x89, 0xE5, 0x48, 0x83, 0xEC, 0x10, 0x90, 0x90, 0x90, 0x90, 0x90, 0x90, 0x90, 0x90,
];

fn started() -> Installer {
    let (mut inst, action) = Installer::new(0x1000, 0x2000);
    assert_eq!(action, InstallAction::ReadCode { addr: 0x1000, len: 16 });
    assert_eq!(
        inst.code_read(PROLOGUE.to_vec()),
        InstallAction::AllocateTrampoline { near: 0x1000, size: TRAMPOLINE_SIZE }
    );
    inst
}

#[test]
fn install_runs_every_step_in_order() {
    let mut inst = started();
    let code = match inst.trampoline_allocated(Ok(0x5000)) {
        InstallAction::WriteTrampoline { addr, code } => {
            assert_eq!(addr, 0x5000);
            code
        }
        other => panic!("unexpected {:?}", other),
    };
    assert_eq!(&code[..8], &PROLOGUE[..8]);
    let delta = i32::from_le_bytes(code[9..13].try_into().unwrap());
    assert_eq!(0x5008u64.wrapping_add(5).wrapping_add(delta as i64 as u64), 0x1008);
    assert_eq!(inst.trampoline_written(), InstallAction::MakeWritable { addr: 0x1000, len: 8 });
    let mut patch = encode_rel32(0x1000, 0x2000).unwrap().to_vec();
    patch.extend_from_slice(&[NOP, NOP, NOP]);
    assert_eq!(inst.protection_changed(Ok(0x20)), InstallAction::WritePatch { addr: 0x1000, code: patch });
    assert_eq!(
        inst.patch_written(),
        InstallAction::RestoreProtection { addr: 0x1000, len: 8, previous: 0x20 }
    );
    // A failure to restore the protection is ignored.
    assert_eq!(inst.protection_restored(Err(Error::ProtectFailed)), InstallAction::Finish);
    assert_eq!(inst.phase(), InstallPhase::Finished);
    let hook = inst.into_hook();
    assert!(hook.is_installed());
    assert_eq!(hook.trampoline(), 0x5000);
    assert_eq!(hook.stolen_len(), 8);
}

#[test]
fn install_fails_without_trampoline() {
    let mut inst = started();
    assert_eq!(
        inst.trampoline_allocated(Err(Error::TrampolineAlloc)),
        InstallAction::Fail(Error::TrampolineAlloc)
    );
    assert_eq!(inst.phase(), InstallPhase::Failed);
}

#[test]
fn install_frees_trampoline_when_relocation_fails() {
    let (mut inst, _) = Installer::new(0x1000, 0x2000);
    let mut code = PROLOGUE.to_vec();
    code[0] = 0xC3;
    inst.code_read(code);
    assert_eq!(
        inst.trampoline_allocated(Ok(0x5000)),
        InstallAction::FreeTrampoline { addr: 0x5000, size: TRAMPOLINE_SIZE }
    );
    assert_eq!(inst.trampoline_freed(), InstallAction::Fail(Error::InsufficientSpace { need: 5, have: 1 }));
}

#[test]
fn install_frees_trampoline_when_protection_fails() {
    let mut inst = started();
    assert!(matches!(inst.trampoline_allocated(Ok(0x5000)), InstallAction::WriteTrampoline { .. }));
    inst.trampoline_written();
    assert_eq!(
        inst.protection_changed(Err(Error::ProtectFailed)),
        InstallAction::FreeTrampoline { addr: 0x5000, size: TRAMPOLINE_SIZE }
    );
    assert_eq!(inst.trampoline_freed(), InstallAction::Fail(Error::ProtectFailed));
    assert_eq!(inst.phase(), InstallPhase::Failed);
}

#[test]
fn install_writes_no_more_than_fourteen_bytes_of_the_target() {
    // Thirteen nops and a 3-byte instruction: the absolute jump needs 14
    // bytes, so 16 are moved to the trampoline.
    let mut code = vec![0x90u8; 13];
    code.extend_from_slice(&[0x48, 0x89, 0xE5]);
    let (mut inst, _) = Installer::new(0x1000, 0x7000_0000_0000);
    inst.code_read(code.clone());
    match inst.trampoline_allocated(Ok(0x5000)) {
        InstallAction::WriteTrampoline { addr, code: tramp } => {
            assert_eq!(addr, 0x5000);
            assert_eq!(&tramp[..16], &code[..]);
            // The jump back resumes the target after all 16 stolen bytes.
            let delta = i32::from_le_bytes(tramp[17..21].try_into().unwrap());
            assert_eq!(0x5010u64.wrapping_add(5).wrapping_add(delta as i64 as u64), 0x1010);
        }
        other => panic!("unexpected {:?}", other),
    }
    assert_eq!(inst.trampoline_written(), InstallAction::MakeWritable { addr: 0x1000, len: 14 });
    assert_eq!(
        inst.protection_changed(Ok(0x20)),
        InstallAction::WritePatch { addr: 0x1000, code: encode_abs64(0x7000_0000_0000).to_vec() }
    );
    assert_eq!(
        inst.patch_written(),
        InstallAction::RestoreProtection { addr: 0x1000, len: 14, previous: 0x20 }
    );
    assert_eq!(inst.protection_restored(Ok(())), InstallAction::Finish);
    let mut hook = inst.into_hook();
    assert_eq!(hook.stolen_len(), 16);
    assert_eq!(hook.patched_len(), 14);
    assert_eq!(hook.removal_phase(), RemovalPhase::Idle);
    assert_eq!(hook.begin_unhook(), UnhookAction::MakeWritable { addr: 0x1000, len: 14 });
    assert_eq!(
        hook.unhook_protection_changed(Ok(0x40)),
        UnhookAction::WriteOriginal { addr: 0x1000, code: code[..14].to_vec() }
    );
}
