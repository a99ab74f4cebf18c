//! The protocol of installing a hook, as a state machine.
//!
//! The caller performs each action the [`Installer`] asks for (reading the
//! target, allocating and freeing the trampoline, writing code, changing
//! protection) and hands back the outcome; the installer decides the next
//! action until the hook is in place or the installation has failed.
use vstd::prelude::*;
use crate::error::Error;
use crate::hook::{
    detour_jump, installed_hook, patch_extent, patch_extent_for, patch_region, trampoline_image, Hook, InstallPlan, MIN_READ_LEN,
    TRAMPOLINE_SIZE, consistent,
};
use crate::jump::{rel32_origin_ok, rel32_reachable, ABS64_LEN, REL32_LEN};
use crate::nearby::{distance, MAX_DELTA};
use crate::relocate::relocation;

verus! {

/// Which answer an installation waits for, or how it ended.
#[derive(Debug, Clone, Copy, PartialEq, Eq, Structural)]
pub enum InstallPhase {
    /// Waiting for the target's first bytes.
    ReadCode,
    /// Waiting for the trampoline's allocation.
    Allocate,
    /// Waiting for the trampoline's code to be written.
    WriteTrampoline,
    /// Waiting for the target to be made writable.
    MakeWritable,
    /// Waiting for the patch to be written over the target.
    WritePatch,
    /// Waiting for the target's protection to be restored.
    RestoreProtection,
    /// Waiting for the trampoline to be freed after a failure.
    FreeTrampoline,
    /// The hook is in place.
    Finished,
    /// The installation failed and left nothing behind.
    Failed,
    /// The installation stopped where unchecked arithmetic would overflow.
    Aborted,
}

/// What an installation asks of its caller.
#[derive(Debug, PartialEq, Eq)]
pub enum InstallAction {
    /// Read `len` bytes at `addr`.
    ReadCode { addr: usize, len: usize },
    /// Allocate `size` bytes of executable memory within reach of `near`.
    AllocateTrampoline { near: usize, size: usize },
    /// Write `code` into the trampoline at `addr`.
    WriteTrampoline { addr: usize, code: Vec<u8> },
    /// Make `[addr, addr + len)` writable.
    MakeWritable { addr: usize, len: usize },
    /// Write `code` over the target at `addr`.
    WritePatch { addr: usize, code: Vec<u8> },
    /// Give `[addr, addr + len)` back the protection `previous`.
    RestoreProtection { addr: usize, len: usize, previous: u32 },
    /// Free the `size` bytes of executable memory at `addr`.
    FreeTrampoline { addr: usize, size: usize },
    /// The installation failed with the error.
    Fail(Error),
    /// The address of the jump back does not fit: the caller stops as
    /// unchecked arithmetic overflowing does.
    Abort,
    /// The hook is in place; take it with [`Installer::into_hook`].
    Finish,
}

/// The jump back from the end of `relocated_len` bytes of relocated code in
/// a trampoline at `trampoline`, to `target + stolen_len`, can be computed
/// without overflow.
pub open spec fn jump_back_fits(trampoline: usize, relocated_len: nat, target: usize, stolen_len: nat) -> bool {
    &&& trampoline + relocated_len <= u64::MAX
    &&& target + stolen_len <= u64::MAX
    &&& rel32_origin_ok((trampoline + relocated_len) as u64)
}

/// The jump back fits exactly when neither 64-bit address sum overflows and
/// `from + 5` does not overflow a signed 64-bit number.
pub proof fn lemma_jump_back_fits_exactly(trampoline: usize, relocated_len: nat, target: usize, stolen_len: nat)
    ensures
        jump_back_fits(trampoline, relocated_len, target, stolen_len) <==> (trampoline + relocated_len
            <= 0xFFFF_FFFF_FFFF_FFFF && target + stolen_len <= 0xFFFF_FFFF_FFFF_FFFF && !(
        0x7FFF_FFFF_FFFF_FFFB <= trampoline + relocated_len <= 0x7FFF_FFFF_FFFF_FFFF)),
{
}

/// For user-space addresses (below 2^47) and relocated code shorter than
/// 4 GiB, the jump back always fits: installation never stops on overflow.
pub proof fn lemma_user_space_jump_back_fits(trampoline: usize, relocated_len: nat, target: usize, stolen_len: nat)
    requires
        trampoline < 0x8000_0000_0000,
        target < 0x8000_0000_0000,
        relocated_len <= 0x1_0000_0000,
        stolen_len <= 0x1_0000_0000,
    ensures
        jump_back_fits(trampoline, relocated_len, target, stolen_len),
{
}

/// The state of an installation.
pub struct Installer {
    plan: InstallPlan,
    phase: InstallPhase,
    code: Vec<u8>,
    trampoline: usize,
    stolen_len: usize,
    previous: u32,
    pending: Error,
}

/// The abstract state of an [`Installer`].
pub struct InstallerState {
    pub target: usize,
    pub detour: usize,
    /// The jump to be written over the target.
    pub patch: Seq<u8>,
    pub phase: InstallPhase,
    /// What was read at the target.
    pub code: Seq<u8>,
    pub trampoline: usize,
    pub stolen_len: usize,
    /// The protection the target had before it was made writable.
    pub previous: u32,
    /// The error reported once the trampoline is freed.
    pub pending: Error,
}

/// The installation holds a trampoline in this phase.
pub open spec fn holds_trampoline(p: InstallPhase) -> bool {
    p == InstallPhase::WriteTrampoline || p == InstallPhase::MakeWritable || p
        == InstallPhase::WritePatch || p == InstallPhase::RestoreProtection || p
        == InstallPhase::FreeTrampoline || p == InstallPhase::Finished
}

/// The installation has taken instructions from the target in this phase.
pub open spec fn has_stolen(p: InstallPhase) -> bool {
    p == InstallPhase::WriteTrampoline || p == InstallPhase::MakeWritable || p
        == InstallPhase::WritePatch || p == InstallPhase::RestoreProtection || p
        == InstallPhase::Finished
}

/// What holds of an installation in every phase.
pub open spec fn installer_valid(s: InstallerState) -> bool {
    &&& s.patch == detour_jump(s.target as u64, s.detour as u64)
    &&& s.target + MIN_READ_LEN <= usize::MAX
    &&& s.phase != InstallPhase::ReadCode ==> s.code.len() == MIN_READ_LEN
    &&& holds_trampoline(s.phase) ==> s.trampoline != 0 && distance(s.trampoline, s.target) <= MAX_DELTA
    &&& has_stolen(s.phase) ==> s.patch.len() <= s.stolen_len <= s.code.len()
}

impl Installer {
    #[verifier::type_invariant]
    spec fn well_formed(&self) -> bool {
        installer_valid(self@)
    }
}

impl View for Installer {
    type V = InstallerState;

    closed spec fn view(&self) -> InstallerState {
        InstallerState {
            target: self.plan@.target,
            detour: self.plan@.detour,
            patch: self.plan@.patch,
            phase: self.phase,
            code: self.code@,
            trampoline: self.trampoline,
            stolen_len: self.stolen_len,
            previous: self.previous,
            pending: self.pending,
        }
    }
}

impl Installer {
    /// Starts installing a hook that redirects `target` to `detour`, asking
    /// for the target's first bytes.
    pub fn new(target: usize, detour: usize) -> (r: (Installer, InstallAction))
        requires
            rel32_origin_ok(target as u64),
            target + MIN_READ_LEN <= usize::MAX,
        ensures
            r.0@.target == target,
            r.0@.detour == detour,
            r.0@.patch == detour_jump(target as u64, detour as u64),
            r.0@.phase == InstallPhase::ReadCode,
            r.1 == (InstallAction::ReadCode { addr: target, len: MIN_READ_LEN }),
    {
        let plan = InstallPlan::new(target, detour);
        proof {
            crate::hook::lemma_detour_jump_reaches_detour(target as u64, detour as u64);
        }
        let len = plan.read_len();
        let inst = Installer {
            plan,
            phase: InstallPhase::ReadCode,
            code: Vec::new(),
            trampoline: 0,
            stolen_len: 0,
            previous: 0,
            pending: Error::RelocationFailed,
        };
        (inst, InstallAction::ReadCode { addr: target, len })
    }

    /// Which answer the installation waits for, or how it ended.
    pub fn phase(&self) -> (p: InstallPhase)
        ensures
            p == self@.phase,
    {
        self.phase
    }

    /// The installation after the target's first bytes were read: ask for
    /// a trampoline near the target.
    pub fn code_read(&mut self, code: Vec<u8>) -> (a: InstallAction)
        requires
            old(self)@.phase == InstallPhase::ReadCode,
            code@.len() == MIN_READ_LEN,
        ensures
            a == (InstallAction::AllocateTrampoline { near: old(self)@.target, size: TRAMPOLINE_SIZE }),
            final(self)@ == (InstallerState { phase: InstallPhase::Allocate, code: code@, ..old(self)@ }),
    {
        proof {
            use_type_invariant(&*self);
        }
        self.code = code;
        self.phase = InstallPhase::Allocate;
        InstallAction::AllocateTrampoline { near: self.plan.target(), size: TRAMPOLINE_SIZE }
    }

    /// The installation after the trampoline's allocation was answered:
    /// fail when it was refused; else relocate the stolen instructions and
    /// write the trampoline, or free it again when relocation fails.
    pub fn trampoline_allocated(&mut self, r: Result<usize, Error>) -> (a: InstallAction)
        requires
            old(self)@.phase == InstallPhase::Allocate,
            r matches Ok(p) ==> p != 0 && distance(p, old(self)@.target) <= MAX_DELTA,
        ensures
            final(self)@.target == old(self)@.target,
            final(self)@.detour == old(self)@.detour,
            final(self)@.patch == old(self)@.patch,
            final(self)@.code == old(self)@.code,
            a is Abort ==> (r matches Ok(p) && relocation(
                old(self)@.code,
                old(self)@.target as u64,
                p as u64,
                old(self)@.patch.len() as usize,
            ) matches Ok((bytes, n)) && (p + bytes.len() > 0xFFFF_FFFF_FFFF_FFFF || old(self)@.target + n
                > 0xFFFF_FFFF_FFFF_FFFF || 0x7FFF_FFFF_FFFF_FFFB <= p + bytes.len()
                <= 0x7FFF_FFFF_FFFF_FFFF)),
            match r {
                Err(e) => a == InstallAction::Fail(e) && final(self)@.phase == InstallPhase::Failed,
                Ok(p) => match relocation(old(self)@.code, old(self)@.target as u64, p as u64, old(self)@.patch.len() as usize) {
                    Err(e) => {
                        &&& a == (InstallAction::FreeTrampoline { addr: p, size: TRAMPOLINE_SIZE })
                        &&& final(self)@.phase == InstallPhase::FreeTrampoline
                        &&& final(self)@.trampoline == p
                        &&& final(self)@.pending == e
                    },
                    Ok((bytes, n)) => if !jump_back_fits(p, bytes.len(), old(self)@.target, n as nat) {
                        &&& a == InstallAction::Abort
                        &&& final(self)@.phase == InstallPhase::Aborted
                    } else if rel32_reachable((p + bytes.len()) as u64, (old(self)@.target + n) as u64) {
                        &&& a matches InstallAction::WriteTrampoline { addr, code } && addr == p
                            && code@ == trampoline_image(p as u64, old(self)@.target as u64, bytes, n as nat)
                        &&& final(self)@.phase == InstallPhase::WriteTrampoline
                        &&& final(self)@.trampoline == p
                        &&& final(self)@.stolen_len == n
                        &&& old(self)@.patch.len() <= n <= final(self)@.code.len()
                    } else {
                        &&& a == (InstallAction::FreeTrampoline { addr: p, size: TRAMPOLINE_SIZE })
                        &&& final(self)@.phase == InstallPhase::FreeTrampoline
                        &&& final(self)@.trampoline == p
                        &&& final(self)@.pending == Error::RelocationFailed
                    },
                },
            },
    {
        proof {
            use_type_invariant(&*self);
        }
        let p = match r {
            Err(e) => {
                self.phase = InstallPhase::Failed;
                return InstallAction::Fail(e);
            },
            Ok(p) => p,
        };
        let relocated = match self.plan.relocate(self.code.as_slice(), p) {
            Ok(rel) => rel,
            Err(e) => {
                self.trampoline = p;
                self.pending = e;
                self.phase = InstallPhase::FreeTrampoline;
                return InstallAction::FreeTrampoline { addr: p, size: TRAMPOLINE_SIZE };
            },
        };
        let target = self.plan.target();
        let fits = match (p as u64).checked_add(relocated.bytes.len() as u64) {
            Some(from) => (target as u64).checked_add(relocated.stolen_len as u64).is_some() && !(
            0x7FFF_FFFF_FFFF_FFFB <= from && from <= 0x7FFF_FFFF_FFFF_FFFF),
            None => false,
        };
        if !fits {
            self.phase = InstallPhase::Aborted;
            return InstallAction::Abort;
        }
        match self.plan.trampoline_code(&relocated, p) {
            Ok(code) => {
                self.trampoline = p;
                self.stolen_len = relocated.stolen_len;
                self.phase = InstallPhase::WriteTrampoline;
                InstallAction::WriteTrampoline { addr: p, code }
            },
            Err(e) => {
                self.trampoline = p;
                self.pending = e;
                self.phase = InstallPhase::FreeTrampoline;
                InstallAction::FreeTrampoline { addr: p, size: TRAMPOLINE_SIZE }
            },
        }
    }

    /// The installation after the trampoline was written: ask for the
    /// stolen bytes of the target to be made writable.
    pub fn trampoline_written(&mut self) -> (a: InstallAction)
        requires
            old(self)@.phase == InstallPhase::WriteTrampoline,
        ensures
            a == (InstallAction::MakeWritable {
                addr: old(self)@.target,
                len: patch_extent(old(self)@.stolen_len as nat) as usize,
            }),
            final(self)@ == (InstallerState { phase: InstallPhase::MakeWritable, ..old(self)@ }),
    {
        proof {
            use_type_invariant(&*self);
        }
        self.phase = InstallPhase::MakeWritable;
        InstallAction::MakeWritable { addr: self.plan.target(), len: patch_extent_for(self.stolen_len) }
    }

    /// The installation after the request to make the target writable was
    /// answered: free the trampoline and fail with the error on failure,
    /// else write the patch (the jump padded with `nop`s).
    pub fn protection_changed(&mut self, r: Result<u32, Error>) -> (a: InstallAction)
        requires
            old(self)@.phase == InstallPhase::MakeWritable,
        ensures
            match r {
                Err(e) => {
                    &&& a == (InstallAction::FreeTrampoline { addr: old(self)@.trampoline, size: TRAMPOLINE_SIZE })
                    &&& final(self)@ == (InstallerState { phase: InstallPhase::FreeTrampoline, pending: e, ..old(self)@ })
                },
                Ok(previous) => {
                    &&& a matches InstallAction::WritePatch { addr, code } && addr == old(self)@.target
                        && code@ == patch_region(old(self)@.patch, patch_extent(old(self)@.stolen_len as nat))
                        && code@.len() <= ABS64_LEN
                    &&& final(self)@ == (InstallerState { phase: InstallPhase::WritePatch, previous, ..old(self)@ })
                },
            },
    {
        proof {
            use_type_invariant(&*self);
        }
        match r {
            Err(e) => {
                self.pending = e;
                self.phase = InstallPhase::FreeTrampoline;
                InstallAction::FreeTrampoline { addr: self.trampoline, size: TRAMPOLINE_SIZE }
            },
            Ok(previous) => {
                self.previous = previous;
                self.phase = InstallPhase::WritePatch;
                let code = self.plan.patch_code(self.stolen_len);
                InstallAction::WritePatch { addr: self.plan.target(), code }
            },
        }
    }

    /// The installation after the patch was written: restore the
    /// protection the target had.
    pub fn patch_written(&mut self) -> (a: InstallAction)
        requires
            old(self)@.phase == InstallPhase::WritePatch,
        ensures
            a == (InstallAction::RestoreProtection {
                addr: old(self)@.target,
                len: patch_extent(old(self)@.stolen_len as nat) as usize,
                previous: old(self)@.previous,
            }),
            final(self)@ == (InstallerState { phase: InstallPhase::RestoreProtection, ..old(self)@ }),
    {
        proof {
            use_type_invariant(&*self);
        }
        self.phase = InstallPhase::RestoreProtection;
        InstallAction::RestoreProtection {
            addr: self.plan.target(),
            len: patch_extent_for(self.stolen_len),
            previous: self.previous,
        }
    }

    /// The installation after the protection was restored, whatever the
    /// outcome: the hook is in place.
    pub fn protection_restored(&mut self, r: Result<(), Error>) -> (a: InstallAction)
        requires
            old(self)@.phase == InstallPhase::RestoreProtection,
        ensures
            a == InstallAction::Finish,
            final(self)@ == (InstallerState { phase: InstallPhase::Finished, ..old(self)@ }),
    {
        proof {
            use_type_invariant(&*self);
        }
        self.phase = InstallPhase::Finished;
        InstallAction::Finish
    }

    /// The installation after the trampoline was freed: it fails with the
    /// error that made it free the trampoline.
    pub fn trampoline_freed(&mut self) -> (a: InstallAction)
        requires
            old(self)@.phase == InstallPhase::FreeTrampoline,
        ensures
            a == InstallAction::Fail(old(self)@.pending),
            final(self)@ == (InstallerState { phase: InstallPhase::Failed, ..old(self)@ }),
    {
        proof {
            use_type_invariant(&*self);
        }
        self.phase = InstallPhase::Failed;
        InstallAction::Fail(self.pending)
    }

    /// The hook of a finished installation.
    pub fn into_hook(self) -> (h: Hook)
        requires
            self@.phase == InstallPhase::Finished,
        ensures
            h@ == installed_hook(self@.target, self@.detour, self@.trampoline, self@.code, self@.stolen_len),
            consistent(h@),
            h@.trampoline != 0,
            h@.stolen_len <= MIN_READ_LEN,
            distance(h@.trampoline, h@.target) <= MAX_DELTA,
    {
        proof {
            use_type_invariant(&self);
        }
        let Installer { plan, code, trampoline, stolen_len, .. } = self;
        plan.finish(trampoline, code.as_slice(), stolen_len)
    }
}

} // verus!
