//! The platform side of the kernel's locks: entering and leaving an
//! execution context (which may mask interrupts), a spin lock, and a
//! reader-writer lock whose state word holds a writer bit and a reader
//! count.
//!
//! The processor's interrupt flag and the lock words are plain values
//! here; the caller keeps them in the real flag and atomics.

use vstd::prelude::*;

verus! {

/// Execution contexts a lock can be taken in.
#[derive(Clone, Copy, Debug, PartialEq, Eq, Structural)]
pub enum ExecutionContext {
    Raw,
    Preempt,
    IrqSave,
    PreemptIrqSave,
}

/// What entering a context saved, to be restored on exit.
#[derive(Clone, Copy, Debug, PartialEq, Eq, Structural)]
pub struct ContextState {
    pub preempt: usize,
    pub irq: usize,
}

/// The outcome of a non-blocking acquire: whether the lock was taken and
/// the context state to hand back on release.
#[derive(Clone, Copy, Debug, PartialEq, Eq, Structural)]
pub struct AcquireResult {
    pub acquired: bool,
    pub state: ContextState,
}

/// The processor's interrupt-enable flag.
#[derive(Clone, Copy, Debug)]
pub struct CpuInterrupts {
    pub enabled: bool,
}

/// Whether entering `context` masks interrupts.
pub open spec fn masks_interrupts(context: ExecutionContext) -> bool {
    context == ExecutionContext::IrqSave || context == ExecutionContext::PreemptIrqSave
}

/// The saved state and the interrupt flag after entering `context` with
/// the flag at `enabled`: the interrupt-saving contexts record whether
/// interrupts were on and turn them off; the others change nothing
/// (there is no preemption to count).
pub open spec fn entered(context: ExecutionContext, enabled: bool) -> (ContextState, bool) {
    if masks_interrupts(context) {
        (ContextState {
            preempt: 0,
            irq: if enabled {
                1
            } else {
                0
            },
        }, false)
    } else {
        (ContextState { preempt: 0, irq: 0 }, enabled)
    }
}

/// The interrupt flag after leaving `context` with `state` when it was at
/// `enabled`: the interrupt-saving contexts turn interrupts back on when
/// the saved state says they were on.
pub open spec fn exited(context: ExecutionContext, state: ContextState, enabled: bool) -> bool {
    if masks_interrupts(context) && state.irq != 0 {
        true
    } else {
        enabled
    }
}

/// Enters `context`.
pub fn context_enter(cpu: &mut CpuInterrupts, context: ExecutionContext) -> (r: ContextState)
    ensures
        (r, final(cpu).enabled) == entered(context, old(cpu).enabled),
{
    match context {
        ExecutionContext::Raw => ContextState { preempt: 0, irq: 0 },
        ExecutionContext::Preempt => ContextState { preempt: 0, irq: 0 },
        ExecutionContext::IrqSave | ExecutionContext::PreemptIrqSave => {
            let was_enabled = cpu.enabled;
            cpu.enabled = false;
            ContextState {
                preempt: 0,
                irq: if was_enabled {
                    1
                } else {
                    0
                },
            }
        },
    }
}

/// Leaves `context` with the state its entry saved.
pub fn context_exit(cpu: &mut CpuInterrupts, context: ExecutionContext, state: ContextState)
    ensures
        final(cpu).enabled == exited(context, state, old(cpu).enabled),
{
    match context {
        ExecutionContext::Raw => {},
        ExecutionContext::Preempt => {},
        ExecutionContext::IrqSave | ExecutionContext::PreemptIrqSave => {
            if state.irq != 0 {
                cpu.enabled = true;
            }
        },
    }
}

/// Leaving a context with the state its entry saved puts the interrupt
/// flag back as it was before the entry.
pub proof fn lemma_context_round_trip(context: ExecutionContext, enabled: bool)
    ensures
        exited(context, entered(context, enabled).0, entered(context, enabled).1) == enabled,
{
}

/// The execution-context interface of the lock library.
pub struct RustyContextOps;

impl RustyContextOps {
    /// Enters `context`.
    pub fn enter(cpu: &mut CpuInterrupts, context: ExecutionContext) -> (r: ContextState)
        ensures
            (r, final(cpu).enabled) == entered(context, old(cpu).enabled),
    {
        context_enter(cpu, context)
    }

    /// Leaves `context` with the state its entry saved.
    pub fn exit(cpu: &mut CpuInterrupts, context: ExecutionContext, state: ContextState)
        ensures
            final(cpu).enabled == exited(context, state, old(cpu).enabled),
    {
        context_exit(cpu, context, state)
    }

    /// Preemption state saved on return from an interrupt: there is no
    /// preemption counter, so always 0.
    pub fn irq_return_preempt_enter() -> (r: usize)
        ensures
            r == 0,
    {
        0
    }
}

// ============================================================
// Spin lock
// ============================================================

/// The spin-lock interface of the lock library; the lock word is a
/// `bool`, true while held.
pub struct RustySpinOps;

impl RustySpinOps {
    /// Tries once to take the lock in `context`: on success the lock is
    /// held and the entry state is returned; on failure the context is
    /// left again and an empty state returned.
    pub fn try_acquire(locked: &mut bool, cpu: &mut CpuInterrupts, context: ExecutionContext) -> (r: AcquireResult)
        ensures
            r.acquired == !*old(locked),
            *final(locked),
            r.acquired ==> (r.state, final(cpu).enabled) == entered(context, old(cpu).enabled),
            !r.acquired ==> r.state == (ContextState { preempt: 0, irq: 0 }) && final(cpu).enabled == old(
                cpu,
            ).enabled,
    {
        let state = context_enter(cpu, context);
        if !*locked {
            *locked = true;
            AcquireResult { acquired: true, state }
        } else {
            context_exit(cpu, context, state);
            AcquireResult { acquired: false, state: ContextState { preempt: 0, irq: 0 } }
        }
    }

    /// Releases the lock and leaves `context` with the entry state.
    pub fn release(locked: &mut bool, cpu: &mut CpuInterrupts, context: ExecutionContext, state: ContextState)
        ensures
            !*final(locked),
            final(cpu).enabled == exited(context, state, old(cpu).enabled),
    {
        *locked = false;
        context_exit(cpu, context, state);
    }

    /// Releases the lock without touching the context.
    pub fn force_release(locked: &mut bool)
        ensures
            !*final(locked),
    {
        *locked = false;
    }

    /// Whether the lock is held.
    pub fn is_locked(locked: &bool) -> (r: bool)
        ensures
            r == *locked,
    {
        *locked
    }
}

// ============================================================
// Reader-writer lock
// ============================================================

/// The writer bit of the reader-writer state word.
pub const RW_WRITER_BIT: u64 = 0x8000_0000_0000_0000;

/// The reader-count bits of the reader-writer state word.
pub const RW_READER_MASK: u64 = 0x7FFF_FFFF_FFFF_FFFF;

/// Modes a reader-writer lock is taken in.
#[derive(Clone, Copy, Debug, PartialEq, Eq, Structural)]
pub enum LockMode {
    Read,
    Write,
}

/// The state word after a reader enters, if one may: not while a writer
/// holds the lock.
pub open spec fn read_acquired(state: u64) -> Option<u64> {
    if state >= RW_WRITER_BIT {
        None
    } else {
        Some((state + 1) as u64)
    }
}

/// The state word after a writer enters, if one may: only when the lock
/// is free.
pub open spec fn write_acquired(state: u64) -> Option<u64> {
    if state == 0 {
        Some(RW_WRITER_BIT)
    } else {
        None
    }
}

/// Whether a reader may leave: some reader holds the lock and no writer.
pub open spec fn read_releasable(state: u64) -> bool {
    state != 0 && state < RW_WRITER_BIT
}

/// Whether a holder in `mode` may leave: a reader while some reader and
/// no writer holds the lock, the writer while it holds it alone.
pub open spec fn releasable(state: u64, mode: LockMode) -> bool {
    match mode {
        LockMode::Read => read_releasable(state),
        LockMode::Write => state == RW_WRITER_BIT,
    }
}

/// Whether the state word `state` lets a holder in `mode` leave.
pub fn can_release(state: u64, mode: LockMode) -> (r: bool)
    ensures
        r == releasable(state, mode),
{
    match mode {
        LockMode::Read => state != 0 && state < RW_WRITER_BIT,
        LockMode::Write => state == RW_WRITER_BIT,
    }
}

/// Tries once to enter as a reader; the reader count must not be full.
pub fn rw_read_try_acquire(state: &mut u64) -> (r: bool)
    requires
        *old(state) != RW_READER_MASK,
    ensures
        r == (read_acquired(*old(state)) is Some),
        r ==> *final(state) == read_acquired(*old(state))->0,
        !r ==> *final(state) == *old(state),
{
    let current = *state;
    proof {
        assert(current & RW_WRITER_BIT != 0 <==> current >= RW_WRITER_BIT) by (bit_vector);
    }
    if current & RW_WRITER_BIT != 0 {
        return false;
    }
    *state = current + 1;
    true
}

/// Tries once to enter as the writer.
pub fn rw_write_try_acquire(state: &mut u64) -> (r: bool)
    ensures
        r == (write_acquired(*old(state)) is Some),
        r ==> *final(state) == RW_WRITER_BIT,
        !r ==> *final(state) == *old(state),
{
    if *state == 0 {
        *state = RW_WRITER_BIT;
        true
    } else {
        false
    }
}

/// A held write lock keeps out both readers and a second writer, and a
/// held read lock keeps out writers.
pub proof fn lemma_rw_exclusion(state: u64)
    ensures
        write_acquired(state) matches Some(w) ==> read_acquired(w) is None && write_acquired(w) is None,
        read_acquired(state) matches Some(r) ==> write_acquired(r) is None,
{
}

/// A reader that leaves puts the state word back as it was before it
/// entered; a writer that leaves frees the lock.
pub proof fn lemma_rw_release_undoes_acquire(state: u64)
    requires
        state != RW_READER_MASK,
    ensures
        read_acquired(state) matches Some(r) ==> read_releasable(r) && (r - 1) as u64 == state,
        write_acquired(state) matches Some(w) ==> w == RW_WRITER_BIT,
{
}

/// The reader-writer-lock interface of the lock library; the lock word is
/// the state word.
pub struct RustyRwLockOps;

impl RustyRwLockOps {
    /// Tries once to take the lock in `mode` within `context`; on failure
    /// the context is left again and an empty state returned.
    pub fn try_acquire(state: &mut u64, cpu: &mut CpuInterrupts, context: ExecutionContext, mode: LockMode) -> (r:
        AcquireResult)
        requires
            mode == LockMode::Read ==> *old(state) != RW_READER_MASK,
        ensures
            mode == LockMode::Read ==> r.acquired == (read_acquired(*old(state)) is Some) && (r.acquired
                ==> *final(state) == read_acquired(*old(state))->0),
            mode == LockMode::Write ==> r.acquired == (write_acquired(*old(state)) is Some) && (r.acquired
                ==> *final(state) == RW_WRITER_BIT),
            !r.acquired ==> *final(state) == *old(state) && r.state == (ContextState { preempt: 0, irq: 0 })
                && final(cpu).enabled == old(cpu).enabled,
            r.acquired ==> (r.state, final(cpu).enabled) == entered(context, old(cpu).enabled),
    {
        let context_state = context_enter(cpu, context);
        let acquired = match mode {
            LockMode::Read => rw_read_try_acquire(state),
            LockMode::Write => rw_write_try_acquire(state),
        };
        if acquired {
            AcquireResult { acquired: true, state: context_state }
        } else {
            context_exit(cpu, context, context_state);
            AcquireResult { acquired: false, state: ContextState { preempt: 0, irq: 0 } }
        }
    }

    /// Releases the lock held in `mode` and leaves `context`: a reader
    /// decrements the count, the writer clears the word.
    pub fn release(state: &mut u64, cpu: &mut CpuInterrupts, context: ExecutionContext, context_state: ContextState, mode: LockMode)
        requires
            releasable(*old(state), mode),
        ensures
            mode == LockMode::Read ==> *final(state) == *old(state) - 1,
            mode == LockMode::Write ==> *final(state) == 0,
            final(cpu).enabled == exited(context, context_state, old(cpu).enabled),
    {
        match mode {
            LockMode::Read => {
                *state = *state - 1;
            },
            LockMode::Write => {
                *state = 0;
            },
        }
        context_exit(cpu, context, context_state);
    }

    /// Drops one reader without touching the context.
    pub fn force_read_decrement(state: &mut u64)
        requires
            read_releasable(*old(state)),
        ensures
            *final(state) == *old(state) - 1,
    {
        *state = *state - 1;
    }
}

} // verus!
