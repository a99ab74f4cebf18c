//! The decisions of installing and removing an inline hook.
//!
//! Installing overwrites the first instructions of a target function with a
//! jump to a detour, after moving those instructions into a trampoline that
//! ends with a jump back. The caller reads and writes the memory and asks the
//! system for the trampoline; [`InstallPlan`] says what to read, what to write
//! where, and when to give up; [`Hook`] remembers what to put back.
use vstd::prelude::*;
use vstd::array::array_as_slice;
use vstd::slice::{slice_subrange, slice_to_vec};
use crate::error::Error;
use crate::jump::{
    abs64_bytes, abs64_destination, encode_abs64, encode_rel32, rel32_bytes, rel32_destination,
    rel32_origin_ok, rel32_reachable, ABS64_LEN, REL32_LEN,
};
use crate::relocate::{relocate, relocation, Relocated};
use crate::nearby::{distance, MAX_DELTA};

verus! {

/// Size in bytes of the executable memory allocated for a trampoline.
pub const TRAMPOLINE_SIZE: usize = 64;

/// The fewest bytes of the target read before relocation.
pub const MIN_READ_LEN: usize = 16;

/// The `nop` opcode that pads the patched region after the jump.
pub const NOP: u8 = 0x90;

/// The jump written over a target at `target` to reach `detour`: `jmp rel32`
/// where the detour is within reach, else an absolute indirect jump.
pub open spec fn detour_jump(target: u64, detour: u64) -> Seq<u8> {
    if rel32_reachable(target, detour) {
        rel32_bytes(target, detour)
    } else {
        abs64_bytes(detour)
    }
}

/// Where a jump produced by this library, placed at `at`, transfers control.
pub open spec fn jump_destination(at: u64, bytes: Seq<u8>) -> int {
    if bytes[0] == 0xE9 {
        rel32_destination(at, bytes)
    } else {
        abs64_destination(bytes) as int
    }
}

/// The jump written over the target reaches the detour.
pub proof fn lemma_detour_jump_reaches_detour(target: u64, detour: u64)
    ensures
        jump_destination(target, detour_jump(target, detour)) == detour,
        detour_jump(target, detour).len() == REL32_LEN || detour_jump(target, detour).len()
            == ABS64_LEN,
        rel32_reachable(target, detour) <==> detour_jump(target, detour).len() == REL32_LEN,
{
    if rel32_reachable(target, detour) {
        crate::jump::lemma_rel32_lands_on_target(target, detour);
    } else {
        crate::jump::lemma_abs64_lands_on_target(detour);
    }
}

/// The region written over the target: the jump, padded with `nop`s to
/// `len` bytes.
pub open spec fn patch_region(jump: Seq<u8>, len: nat) -> Seq<u8> {
    jump + Seq::new((len - jump.len()) as nat, |i: int| NOP)
}

/// How many bytes at the start of the target a hook overwrites when
/// `stolen_len` bytes of instructions were moved to the trampoline: the
/// stolen bytes, but never more than the first `ABS64_LEN` (14) bytes, the
/// only ones no other thread may be executing while the hook is installed.
/// Stolen bytes past those are never executed once the jump is in place, as
/// the trampoline resumes the target after them.
pub open spec fn patch_extent(stolen_len: nat) -> nat {
    if stolen_len < ABS64_LEN { stolen_len } else { ABS64_LEN as nat }
}

/// A hook overwrites all the stolen bytes when they fit in the first 14, and
/// exactly the first 14 otherwise.
pub proof fn lemma_patch_extent_caps_at_fourteen(stolen_len: nat)
    ensures
        stolen_len <= 14 ==> patch_extent(stolen_len) == stolen_len,
        stolen_len >= 14 ==> patch_extent(stolen_len) == 14,
{
}

/// The number of bytes at the start of the target that a hook overwrites
/// when `stolen_len` bytes were moved to the trampoline.
pub fn patch_extent_for(stolen_len: usize) -> (n: usize)
    ensures
        n == patch_extent(stolen_len as nat),
{
    if stolen_len < ABS64_LEN { stolen_len } else { ABS64_LEN }
}

/// The code of a trampoline at `trampoline` for a target at `target`: the
/// relocated instructions, then `jmp rel32` back to the first instruction of
/// the target that was not moved.
pub open spec fn trampoline_image(trampoline: u64, target: u64, relocated: Seq<u8>, stolen_len: nat) -> Seq<u8> {
    relocated + rel32_bytes((trampoline + relocated.len()) as u64, (target + stolen_len) as u64)
}

/// The state of a planned installation.
#[derive(Debug)]
pub struct InstallPlan {
    target: usize,
    detour: usize,
    patch: Vec<u8>,
}

/// The abstract state of an [`InstallPlan`].
pub struct InstallPlanState {
    pub target: usize,
    pub detour: usize,
    /// The jump that will be written over the target.
    pub patch: Seq<u8>,
}

impl InstallPlan {
    /// The planned patch is the jump from the target to the detour.
    #[verifier::type_invariant]
    spec fn patch_is_detour_jump(&self) -> bool {
        self.patch@ == detour_jump(self.target as u64, self.detour as u64)
    }
}

impl View for InstallPlan {
    type V = InstallPlanState;

    closed spec fn view(&self) -> InstallPlanState {
        InstallPlanState { target: self.target, detour: self.detour, patch: self.patch@ }
    }
}

impl InstallPlan {
    /// Plans a hook that redirects `target` to `detour`.
    pub fn new(target: usize, detour: usize) -> (p: Self)
        requires
            rel32_origin_ok(target as u64),
        ensures
            p@.target == target,
            p@.detour == detour,
            p@.patch == detour_jump(target as u64, detour as u64),
            jump_destination(target as u64, p@.patch) == detour,
    {
        proof {
            lemma_detour_jump_reaches_detour(target as u64, detour as u64);
        }
        let patch = match encode_rel32(target as u64, detour as u64) {
            Some(rel) => slice_to_vec(array_as_slice(&rel)),
            None => slice_to_vec(array_as_slice(&encode_abs64(detour as u64))),
        };
        InstallPlan { target, detour, patch }
    }

    /// The address of the target.
    pub fn target(&self) -> (t: usize)
        ensures
            t == self@.target,
    {
        self.target
    }

    /// The length of the jump written over the target.
    pub fn patch_len(&self) -> (n: usize)
        ensures
            n == self@.patch.len(),
    {
        self.patch.len()
    }

    /// How many bytes of the target to read: the jump's length, but at least
    /// `MIN_READ_LEN`.
    pub fn read_len(&self) -> (n: usize)
        ensures
            n == if self@.patch.len() > MIN_READ_LEN { self@.patch.len() } else { MIN_READ_LEN as nat },
    {
        if self.patch.len() > MIN_READ_LEN {
            self.patch.len()
        } else {
            MIN_READ_LEN
        }
    }

    /// Takes enough whole instructions from `code`, read at the target, to
    /// make room for the jump, and re-encodes them for a trampoline at
    /// `trampoline`.
    pub fn relocate(&self, code: &[u8], trampoline: usize) -> (r: Result<Relocated, Error>)
        ensures
            match relocation(code@, self@.target as u64, trampoline as u64, self@.patch.len() as usize) {
                Ok((bytes, n)) => r matches Ok(rel) && rel.bytes@ == bytes && rel.stolen_len == n,
                Err(e) => r == Err::<Relocated, Error>(e),
            },
            r matches Ok(rel) ==> self@.patch.len() <= rel.stolen_len <= code.len(),
    {
        relocate(code, self.target as u64, trampoline as u64, self.patch.len())
    }

    /// The code to write into the trampoline at `trampoline`: the relocated
    /// instructions and a jump back to the rest of the target, or
    /// `RelocationFailed` when that jump cannot reach.
    pub fn trampoline_code(&self, relocated: &Relocated, trampoline: usize) -> (r: Result<Vec<u8>, Error>)
        requires
            trampoline + relocated.bytes.len() <= u64::MAX,
            self@.target + relocated.stolen_len <= u64::MAX,
            rel32_origin_ok((trampoline + relocated.bytes.len()) as u64),
        ensures
            ({
                let from = (trampoline + relocated.bytes.len()) as u64;
                let to = (self@.target + relocated.stolen_len) as u64;
                if rel32_reachable(from, to) {
                    &&& r matches Ok(code)
                    &&& code@ == trampoline_image(trampoline as u64, self@.target as u64, relocated.bytes@, relocated.stolen_len as nat)
                    &&& rel32_destination(from, code@.skip(relocated.bytes.len() as int)) == to
                } else {
                    r == Err::<Vec<u8>, Error>(Error::RelocationFailed)
                }
            }),
    {
        let jump_back_rip = trampoline as u64 + relocated.bytes.len() as u64;
        let continue_addr = self.target as u64 + relocated.stolen_len as u64;
        match encode_rel32(jump_back_rip, continue_addr) {
            Some(jump_back) => {
                let mut code = relocated.bytes.clone();
                let mut i: usize = 0;
                while i < REL32_LEN
                    invariant
                        i <= REL32_LEN,
                        code@ == relocated.bytes@ + jump_back@.take(i as int),
                    decreases REL32_LEN - i,
                {
                    code.push(jump_back[i]);
                    i = i + 1;
                    assert(jump_back@.take(i as int) == jump_back@.take(i - 1).push(jump_back@[i - 1]));
                }
                assert(jump_back@.take(REL32_LEN as int) == jump_back@);
                assert(code@.skip(relocated.bytes.len() as int) == jump_back@);
                Ok(code)
            },
            None => Err(Error::RelocationFailed),
        }
    }

    /// The bytes to write over the target once `stolen_len` bytes of it were
    /// moved to the trampoline: the jump, then `nop`s up to the stolen length
    /// or the first 14 bytes, whichever ends first.
    pub fn patch_code(&self, stolen_len: usize) -> (r: Vec<u8>)
        requires
            stolen_len >= self@.patch.len(),
        ensures
            r@ == patch_region(self@.patch, patch_extent(stolen_len as nat)),
            r@.len() == patch_extent(stolen_len as nat),
            r@.len() <= ABS64_LEN,
            r@.take(self@.patch.len() as int) == self@.patch,
            self@.patch == detour_jump(self@.target as u64, self@.detour as u64),
            jump_destination(self@.target as u64, r@) == self@.detour,
    {
        proof {
            use_type_invariant(self);
            lemma_detour_jump_reaches_detour(self.target as u64, self.detour as u64);
        }
        let extent = patch_extent_for(stolen_len);
        let mut code = self.patch.clone();
        while code.len() < extent
            invariant
                self@.patch.len() <= code@.len() <= extent,
                extent == patch_extent(stolen_len as nat),
                self@.patch.len() <= ABS64_LEN,
                code@ == patch_region(self@.patch, code@.len() as nat),
            decreases extent - code.len(),
        {
            code.push(NOP);
            assert(code@ =~= patch_region(self@.patch, code@.len() as nat));
        }
        assert(code@.take(self@.patch.len() as int) =~= self@.patch);
        assert(code@.subrange(1, 5) =~= self@.patch.subrange(1, 5));
        if self.patch.len() >= ABS64_LEN {
            assert(code@.subrange(6, 14) =~= self@.patch.subrange(6, 14));
        }
        code
    }

    /// The hook once the patch is in place: the trampoline was allocated at
    /// `trampoline`, `code` is what was read at the target and its first
    /// `stolen_len` bytes were moved to the trampoline; the target's first
    /// bytes were overwritten by `patch_code(stolen_len)`.
    pub fn finish(self, trampoline: usize, code: &[u8], stolen_len: usize) -> (h: Hook)
        requires
            self@.patch.len() <= stolen_len <= code.len(),
            trampoline != 0,
            distance(trampoline, self@.target) <= MAX_DELTA,
        ensures
            h@ == installed_hook(self@.target, self@.detour, trampoline, code@, stolen_len),
            consistent(h@),
    {
        proof {
            use_type_invariant(&self);
        }
        proof {
            lemma_detour_jump_reaches_detour(self.target as u64, self.detour as u64);
        }
        let extent = patch_extent_for(stolen_len);
        let original_bytes = slice_to_vec(slice_subrange(code, 0, extent));
        Hook {
            target: self.target,
            detour: self.detour,
            trampoline_ptr: trampoline,
            original_bytes,
            stolen_len,
            progress: Progress {
                installed: true,
                removal: RemovalPhase::Idle,
                previous: 0,
                target_code: Ghost(patch_region(self.patch@, extent as nat)),
            },
        }
    }
}

/// How far the removal of a hook has come: which answer it waits for.
#[derive(Debug, Clone, Copy, PartialEq, Eq, Structural)]
pub enum RemovalPhase {
    /// No removal is under way.
    Idle,
    /// Waiting for the target to be made writable.
    AwaitWritable,
    /// Waiting for the original bytes to be written back.
    AwaitOriginalWrite,
    /// Waiting for the target's protection to be restored.
    AwaitRestore,
    /// Waiting for the trampoline to be freed.
    AwaitFree,
}

/// What removing a hook asks of its caller.
#[derive(Debug, PartialEq, Eq)]
pub enum UnhookAction {
    /// Make `[addr, addr + len)` writable.
    MakeWritable { addr: usize, len: usize },
    /// Write `code` at `addr`.
    WriteOriginal { addr: usize, code: Vec<u8> },
    /// Give `[addr, addr + len)` back the protection `previous`.
    RestoreProtection { addr: usize, len: usize, previous: u32 },
    /// Free the `size` bytes of executable memory at `addr`.
    FreeTrampoline { addr: usize, size: usize },
    /// The removal failed with the error.
    Fail(Error),
    /// The hook is removed.
    Finish,
}

/// An installed inline hook that redirects a target function to a detour.
///
/// It remembers where the target is, where its trampoline is, and the bytes
/// of the target that the patch replaced; it also drives the removal.
pub struct Hook {
    target: usize,
    detour: usize,
    trampoline_ptr: usize,
    original_bytes: Vec<u8>,
    stolen_len: usize,
    progress: Progress,
}

/// The parts of a hook that change while it is removed.
struct Progress {
    installed: bool,
    removal: RemovalPhase,
    previous: u32,
    target_code: Ghost<Seq<u8>>,
}

/// The abstract state of a [`Hook`].
pub struct HookState {
    pub target: usize,
    pub detour: usize,
    pub trampoline: usize,
    /// The bytes of the target that the patch replaced.
    pub original: Seq<u8>,
    /// How many bytes of instructions were moved to the trampoline.
    pub stolen_len: usize,
    pub installed: bool,
    pub removal: RemovalPhase,
    /// The protection the target had before the removal made it writable.
    pub previous: u32,
    /// What the hook's own writes have left in the target's first
    /// `patch_extent(stolen_len)` bytes.
    pub target_code: Seq<u8>,
}

/// What a hook keeps true of itself at every step of its life: the saved
/// bytes are exactly as long as the patch, the trampoline is non-null and
/// within reach of the target, and the target holds the jump to the detour
/// padded with `nop`s while the hook is in place, its original bytes once
/// they were written back.
pub open spec fn consistent(h: HookState) -> bool {
    &&& h.original.len() == patch_extent(h.stolen_len as nat)
    &&& detour_jump(h.target as u64, h.detour as u64).len() <= h.stolen_len
    &&& h.trampoline != 0
    &&& distance(h.trampoline, h.target) <= MAX_DELTA
    &&& (!h.installed ==> h.removal == RemovalPhase::Idle)
    &&& if h.removal == RemovalPhase::Idle || h.removal == RemovalPhase::AwaitWritable {
        if h.installed {
            h.target_code == patch_region(
                detour_jump(h.target as u64, h.detour as u64),
                patch_extent(h.stolen_len as nat),
            )
        } else {
            h.target_code == h.original
        }
    } else {
        h.target_code == h.original
    }
}

impl Hook {
    #[verifier::type_invariant]
    spec fn well_formed(&self) -> bool {
        consistent(self@)
    }
}

impl View for Hook {
    type V = HookState;

    closed spec fn view(&self) -> HookState {
        HookState {
            target: self.target,
            detour: self.detour,
            trampoline: self.trampoline_ptr,
            original: self.original_bytes@,
            stolen_len: self.stolen_len,
            installed: self.progress.installed,
            removal: self.progress.removal,
            previous: self.progress.previous,
            target_code: self.progress.target_code@,
        }
    }
}

/// The hook just installed at `target`, redirecting to `detour`, with its
/// trampoline at `trampoline`, after `stolen_len` bytes of `code`, read at
/// the target, were replaced by the patch.
pub open spec fn installed_hook(target: usize, detour: usize, trampoline: usize, code: Seq<u8>, stolen_len: usize) -> HookState {
    HookState {
        target,
        detour,
        trampoline,
        original: code.take(patch_extent(stolen_len as nat) as int),
        stolen_len,
        installed: true,
        removal: RemovalPhase::Idle,
        previous: 0,
        target_code: patch_region(
            detour_jump(target as u64, detour as u64),
            patch_extent(stolen_len as nat),
        ),
    }
}

impl Hook {
    /// The address of the trampoline that calls the original function.
    pub fn trampoline(&self) -> (p: usize)
        ensures
            p == self@.trampoline,
            p != 0,
            distance(p, self@.target) <= MAX_DELTA,
    {
        proof {
            use_type_invariant(self);
        }
        self.trampoline_ptr
    }

    /// The address of the hooked function.
    pub fn target(&self) -> (p: usize)
        ensures
            p == self@.target,
    {
        self.target
    }

    /// How many bytes of instructions were moved to the trampoline.
    pub fn stolen_len(&self) -> (n: usize)
        ensures
            n == self@.stolen_len,
    {
        self.stolen_len
    }

    /// How many bytes at the start of the target the patch covers.
    pub fn patched_len(&self) -> (n: usize)
        ensures
            n == patch_extent(self@.stolen_len as nat),
            n <= ABS64_LEN,
    {
        proof {
            use_type_invariant(self);
        }
        self.original_bytes.len()
    }

    /// Whether the hook is still in place (and must be removed before it is dropped).
    pub fn is_installed(&self) -> (b: bool)
        ensures
            b == self@.installed,
    {
        self.progress.installed
    }

    /// Which answer a removal under way waits for.
    pub fn removal_phase(&self) -> (p: RemovalPhase)
        ensures
            p == self@.removal,
    {
        self.progress.removal
    }

    /// Starts removing the hook: ask for the patched bytes to be made
    /// writable, or fail with `NotInstalled` when the hook was removed.
    pub fn begin_unhook(&mut self) -> (a: UnhookAction)
        requires
            old(self)@.removal == RemovalPhase::Idle,
        ensures
            consistent(final(self)@),
            final(self)@ == removal_next(old(self)@, RemovalEvent::Begin),
            if old(self)@.installed {
                &&& a == (UnhookAction::MakeWritable {
                    addr: old(self)@.target,
                    len: patch_extent(old(self)@.stolen_len as nat) as usize,
                })
                &&& final(self)@ == (HookState { removal: RemovalPhase::AwaitWritable, ..old(self)@ })
            } else {
                &&& a == UnhookAction::Fail(Error::NotInstalled)
                &&& final(self)@ == old(self)@
            },
    {
        proof {
            use_type_invariant(&*self);
        }
        if !self.progress.installed {
            return UnhookAction::Fail(Error::NotInstalled);
        }
        self.progress = Progress { removal: RemovalPhase::AwaitWritable, ..self.progress };
        UnhookAction::MakeWritable { addr: self.target, len: self.original_bytes.len() }
    }

    /// The removal after the request to make the target writable was
    /// answered: on failure the hook stays in place and the error is
    /// reported; on success the original bytes are to be written back.
    pub fn unhook_protection_changed(&mut self, r: Result<u32, Error>) -> (a: UnhookAction)
        requires
            old(self)@.removal == RemovalPhase::AwaitWritable,
        ensures
            consistent(final(self)@),
            final(self)@ == removal_next(old(self)@, RemovalEvent::ProtectionChanged(r)),
            match r {
                Err(e) => {
                    &&& a == UnhookAction::Fail(e)
                    &&& final(self)@ == (HookState { removal: RemovalPhase::Idle, ..old(self)@ })
                },
                Ok(previous) => {
                    &&& a matches UnhookAction::WriteOriginal { addr, code } && addr == old(self)@.target
                        && code@ == old(self)@.original
                    &&& final(self)@ == (HookState {
                        removal: RemovalPhase::AwaitOriginalWrite,
                        previous,
                        target_code: old(self)@.original,
                        ..old(self)@
                    })
                },
            },
    {
        proof {
            use_type_invariant(&*self);
        }
        match r {
            Err(e) => {
                self.progress = Progress { removal: RemovalPhase::Idle, ..self.progress };
                UnhookAction::Fail(e)
            },
            Ok(previous) => {
                let ghost original = self.original_bytes@;
                self.progress = Progress {
                    installed: self.progress.installed,
                    removal: RemovalPhase::AwaitOriginalWrite,
                    previous,
                    target_code: Ghost(original),
                };
                UnhookAction::WriteOriginal { addr: self.target, code: self.original_bytes.clone() }
            },
        }
    }

    /// The removal after the original bytes were written back: restore the
    /// protection the target had.
    pub fn original_written(&mut self) -> (a: UnhookAction)
        requires
            old(self)@.removal == RemovalPhase::AwaitOriginalWrite,
        ensures
            consistent(final(self)@),
            final(self)@ == removal_next(old(self)@, RemovalEvent::OriginalWritten),
            a == (UnhookAction::RestoreProtection {
                addr: old(self)@.target,
                len: patch_extent(old(self)@.stolen_len as nat) as usize,
                previous: old(self)@.previous,
            }),
            final(self)@ == (HookState { removal: RemovalPhase::AwaitRestore, ..old(self)@ }),
    {
        proof {
            use_type_invariant(&*self);
        }
        self.progress = Progress { removal: RemovalPhase::AwaitRestore, ..self.progress };
        UnhookAction::RestoreProtection {
            addr: self.target,
            len: self.original_bytes.len(),
            previous: self.progress.previous,
        }
    }

    /// The removal after the protection was restored, whatever the outcome:
    /// free the trampoline.
    pub fn unhook_protection_restored(&mut self, r: Result<(), Error>) -> (a: UnhookAction)
        requires
            old(self)@.removal == RemovalPhase::AwaitRestore,
        ensures
            consistent(final(self)@),
            final(self)@ == removal_next(old(self)@, RemovalEvent::ProtectionRestored),
            a == (UnhookAction::FreeTrampoline { addr: old(self)@.trampoline, size: TRAMPOLINE_SIZE }),
            final(self)@ == (HookState { removal: RemovalPhase::AwaitFree, ..old(self)@ }),
    {
        proof {
            use_type_invariant(&*self);
        }
        self.progress = Progress { removal: RemovalPhase::AwaitFree, ..self.progress };
        UnhookAction::FreeTrampoline { addr: self.trampoline_ptr, size: TRAMPOLINE_SIZE }
    }

    /// The removal after the trampoline was freed: the hook is removed.
    pub fn trampoline_freed(&mut self) -> (a: UnhookAction)
        requires
            old(self)@.removal == RemovalPhase::AwaitFree,
        ensures
            consistent(final(self)@),
            final(self)@ == removal_next(old(self)@, RemovalEvent::TrampolineFreed),
            a == UnhookAction::Finish,
            final(self)@ == (HookState { removal: RemovalPhase::Idle, installed: false, ..old(self)@ }),
            final(self)@.target_code == final(self)@.original,
    {
        proof {
            use_type_invariant(&*self);
        }
        self.progress = Progress { removal: RemovalPhase::Idle, installed: false, ..self.progress };
        UnhookAction::Finish
    }
}

/// The steps of a successful removal, from the hook's state before it.
pub open spec fn removed(h: HookState, previous: u32) -> HookState {
    HookState { installed: false, removal: RemovalPhase::Idle, previous, target_code: h.original, ..h }
}

/// An outcome the caller reports to a removal under way.
pub enum RemovalEvent {
    /// The caller starts a removal.
    Begin,
    /// The request to make the target writable was answered.
    ProtectionChanged(Result<u32, Error>),
    /// The original bytes were written back.
    OriginalWritten,
    /// The target's protection was restored (whatever the outcome).
    ProtectionRestored,
    /// The trampoline was freed.
    TrampolineFreed,
}

/// The removal step that an event is the answer to may be taken in `h`.
pub open spec fn removal_admits(h: HookState, ev: RemovalEvent) -> bool {
    match ev {
        RemovalEvent::Begin => h.removal == RemovalPhase::Idle,
        RemovalEvent::ProtectionChanged(_) => h.removal == RemovalPhase::AwaitWritable,
        RemovalEvent::OriginalWritten => h.removal == RemovalPhase::AwaitOriginalWrite,
        RemovalEvent::ProtectionRestored => h.removal == RemovalPhase::AwaitRestore,
        RemovalEvent::TrampolineFreed => h.removal == RemovalPhase::AwaitFree,
    }
}

/// The hook after the removal step answering `ev`.
pub open spec fn removal_next(h: HookState, ev: RemovalEvent) -> HookState {
    match ev {
        RemovalEvent::Begin => if h.installed {
            HookState { removal: RemovalPhase::AwaitWritable, ..h }
        } else {
            h
        },
        RemovalEvent::ProtectionChanged(Err(_)) => HookState { removal: RemovalPhase::Idle, ..h },
        RemovalEvent::ProtectionChanged(Ok(previous)) => HookState {
            removal: RemovalPhase::AwaitOriginalWrite,
            previous,
            target_code: h.original,
            ..h
        },
        RemovalEvent::OriginalWritten => HookState { removal: RemovalPhase::AwaitRestore, ..h },
        RemovalEvent::ProtectionRestored => HookState { removal: RemovalPhase::AwaitFree, ..h },
        RemovalEvent::TrampolineFreed => HookState {
            removal: RemovalPhase::Idle,
            installed: false,
            ..h
        },
    }
}

/// The removal step answering `ev` asks for the trampoline to be freed.
pub open spec fn removal_frees(ev: RemovalEvent) -> bool {
    ev is ProtectionRestored
}

/// The removal steps answering `events` in turn, all admissible.
pub open spec fn removal_run_admissible(h: HookState, events: Seq<RemovalEvent>) -> bool
    decreases events.len(),
{
    events.len() == 0 || (removal_admits(h, events[0]) && removal_run_admissible(
        removal_next(h, events[0]),
        events.drop_first(),
    ))
}

/// The hook after the removal steps answering `events` in turn.
pub open spec fn removal_run(h: HookState, events: Seq<RemovalEvent>) -> HookState
    decreases events.len(),
{
    if events.len() == 0 {
        h
    } else {
        removal_run(removal_next(h, events[0]), events.drop_first())
    }
}

/// How many of the removal steps answering `events` ask for the trampoline
/// to be freed.
pub open spec fn removal_frees_count(events: Seq<RemovalEvent>) -> nat
    decreases events.len(),
{
    if events.len() == 0 {
        0
    } else {
        (if removal_frees(events[0]) { 1nat } else { 0nat }) + removal_frees_count(events.drop_first())
    }
}

proof fn lemma_removal_run_step(h: HookState, started_installed: bool, n: nat, events: Seq<RemovalEvent>)
    requires
        removal_run_admissible(h, events),
        !h.installed ==> h.removal == RemovalPhase::Idle,
        !started_installed ==> !h.installed && n == 0,
        started_installed && h.installed ==> n == (if h.removal == RemovalPhase::AwaitFree { 1nat } else { 0nat }),
        started_installed && !h.installed ==> n == 1,
    ensures
        ({
            let h2 = removal_run(h, events);
            let m = n + removal_frees_count(events);
            &&& !h2.installed ==> h2.removal == RemovalPhase::Idle
            &&& !started_installed ==> !h2.installed && m == 0
            &&& started_installed && h2.installed ==> m == (if h2.removal == RemovalPhase::AwaitFree { 1nat } else { 0nat })
            &&& started_installed && !h2.installed ==> m == 1
        }),
    decreases events.len(),
{
    if events.len() > 0 {
        let ev = events[0];
        let h1 = removal_next(h, ev);
        let n1 = n + (if removal_frees(ev) { 1nat } else { 0nat });
        lemma_removal_run_step(h1, started_installed, n1, events.drop_first());
    }
}

/// Over any run of admissible removal steps from an idle hook, the
/// trampoline is asked to be freed at most once, and exactly once by the
/// time the hook goes from installed to removed; a removed hook is never
/// installed again and its trampoline never freed again.
pub proof fn lemma_trampoline_freed_once(h: HookState, events: Seq<RemovalEvent>)
    requires
        consistent(h),
        h.removal == RemovalPhase::Idle,
        removal_run_admissible(h, events),
    ensures
        removal_frees_count(events) <= 1,
        !h.installed ==> !removal_run(h, events).installed && removal_frees_count(events) == 0,
        h.installed && !removal_run(h, events).installed ==> removal_frees_count(events) == 1,
        removal_run(h, events).installed && removal_frees_count(events) == 1 ==> removal_run(h, events).removal
            == RemovalPhase::AwaitFree,
{
    lemma_removal_run_step(h, h.installed, 0, events);
}

/// A successful removal of a freshly installed hook leaves in the target
/// exactly the bytes that installing it overwrote, and leaves the hook out of
/// place.
pub proof fn lemma_unhook_restores_stolen_bytes(target: usize, detour: usize, trampoline: usize, code: Seq<u8>, stolen_len: usize, previous: u32)
    requires
        stolen_len <= code.len(),
    ensures
        removed(installed_hook(target, detour, trampoline, code, stolen_len), previous).target_code
            == code.take(patch_extent(stolen_len as nat) as int),
        !removed(installed_hook(target, detour, trampoline, code, stolen_len), previous).installed,
        code.take(patch_extent(stolen_len as nat) as int).len() == patch_extent(stolen_len as nat),
        patch_extent(stolen_len as nat) <= ABS64_LEN,
{
}

/// A removed hook is out of place and idle, so starting to remove it again
/// fails with `NotInstalled` (see [`Hook::begin_unhook`]).
pub proof fn lemma_unhook_twice_fails(h: HookState, previous: u32)
    requires
        consistent(h),
    ensures
        !removed(h, previous).installed,
        removed(h, previous).removal == RemovalPhase::Idle,
        consistent(removed(h, previous)),
{
}

/// The patch covers exactly the bytes that are saved to restore it.
pub proof fn lemma_patch_covers_saved_bytes(jump: Seq<u8>, code: Seq<u8>, stolen_len: usize)
    requires
        jump.len() <= stolen_len <= code.len(),
        jump.len() <= ABS64_LEN,
    ensures
        patch_region(jump, patch_extent(stolen_len as nat)).len() == code.take(
            patch_extent(stolen_len as nat) as int,
        ).len(),
        patch_extent(stolen_len as nat) <= ABS64_LEN,
{
}

} // verus!
