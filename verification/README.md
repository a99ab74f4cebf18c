# procmod_hook

Inline function hooking for x86_64, with its decisions verified by Verus.

`src/` is the verified library:

- `jump` — the two jumps a hook writes (`jmp rel32` and `jmp [rip+0]; dq target`),
  with proofs that each lands on its target.
- `nearby` — the search for trampoline memory within 2GB of the target, as a
  state machine the caller drives with the results of `mmap`/`VirtualAlloc`.
- `protect` — the pages a protection change covers and what the system's status
  codes mean.
- `relocate` — taking whole instructions from the target (decoded by `iced-x86`)
  and re-encoding them for the trampoline.
- `hook` — what an installation writes, the hook's own state, and the removal of a hook
  as a state machine.
- `install` — the installation of a hook as a state machine: which step follows
  each outcome, and when the trampoline is freed.
- `error` — the error type.

`app/` is the part that touches live memory: reading and patching code, mapping
and freeing the trampoline, changing page protection, and removing the hook on
drop. It runs the library's state machines, performing each action they ask for.

`tests/` exercises the library on concrete values.
