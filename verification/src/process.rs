//! The process table and its cooperative round-robin scheduler.
//!
//! At most one process is ever `Running`, and it is exactly the current
//! process; every operation keeps this and keeps process IDs unique.

use vstd::prelude::*;

verus! {

/// Number of process slots.
pub const MAX_PROCESSES: usize = 64;

#[derive(Debug, Clone, Copy, PartialEq, Eq, Structural)]
pub enum ProcessState {
    Ready,
    Running,
    Exited,
}

/// The user registers of a process while it is not running.
#[derive(Clone, Copy, PartialEq, Eq, Structural)]
pub struct SavedUserContext {
    pub rax: u64,
    pub rbx: u64,
    pub rcx: u64,
    pub rdx: u64,
    pub rsi: u64,
    pub rdi: u64,
    pub rbp: u64,
    pub r8: u64,
    pub r9: u64,
    pub r10: u64,
    pub r11: u64,
    pub r12: u64,
    pub r13: u64,
    pub r14: u64,
    pub r15: u64,
    pub rip: u64,
    pub cs: u64,
    pub rflags: u64,
    pub rsp: u64,
    pub ss: u64,
}

/// A process: its ID, the physical address of its root page table, its
/// state and its saved registers.
#[derive(Clone, Copy, PartialEq, Eq, Structural)]
pub struct Process {
    pub pid: u64,
    pub level_4_frame: u64,
    pub state: ProcessState,
    pub context: SavedUserContext,
}

/// What the scheduler decided: continue in another process with its saved
/// registers, or no process to switch to.
#[derive(Clone, Copy)]
pub enum ScheduleResult {
    Switched(SavedUserContext),
    NoProcess,
}

/// The registers a new process starts with: all zero, except the entry
/// point, the user code and data selectors, the stack top and the reserved
/// RFLAGS bit 1.
pub open spec fn initial_context(entry: u64, stack_top: u64, code_selector: u16, data_selector: u16) -> SavedUserContext {
    SavedUserContext {
        rax: 0,
        rbx: 0,
        rcx: 0,
        rdx: 0,
        rsi: 0,
        rdi: 0,
        rbp: 0,
        r8: 0,
        r9: 0,
        r10: 0,
        r11: 0,
        r12: 0,
        r13: 0,
        r14: 0,
        r15: 0,
        rip: entry,
        cs: code_selector as u64,
        rflags: 2,
        rsp: stack_top,
        ss: data_selector as u64,
    }
}

/// The first slot, scanning from slot `i`, that holds the process `pid`.
pub open spec fn slot_from(slots: Seq<Option<Process>>, pid: u64, i: int) -> Option<int>
    decreases slots.len() - i,
{
    if i < 0 || i >= slots.len() {
        None
    } else if slots[i] is Some && slots[i]->0.pid == pid {
        Some(i)
    } else {
        slot_from(slots, pid, i + 1)
    }
}

/// The first slot that holds the process `pid`.
pub open spec fn slot_of(slots: Seq<Option<Process>>, pid: u64) -> Option<int> {
    slot_from(slots, pid, 0)
}

/// Whether a slot holds a `Ready` process.
pub open spec fn is_ready(slot: Option<Process>) -> bool {
    slot is Some && slot->0.state == ProcessState::Ready
}

/// Round robin: the first slot after `start`, at offsets `k` to 64 and
/// wrapping around, that holds a `Ready` process.
pub open spec fn ready_after(slots: Seq<Option<Process>>, start: int, k: int) -> Option<int>
    decreases 65 - k,
{
    if k > 64 || k < 1 {
        None
    } else if is_ready(slots[(start + k) % 64]) {
        Some((start + k) % 64)
    } else {
        ready_after(slots, start, k + 1)
    }
}

/// Why a process could not be created.
#[derive(Debug, Clone, Copy, PartialEq, Eq, Structural)]
pub enum CreateError {
    NotInitialized,
    TableFull,
    PidsExhausted,
}

/// What `slot_from` finds: a slot at or after `i` that holds `pid`, with no
/// earlier such slot from `i` on; `None` when no slot from `i` on holds it.
pub proof fn lemma_slot_from(slots: Seq<Option<Process>>, pid: u64, i: int)
    requires
        0 <= i <= slots.len(),
    ensures
        slot_from(slots, pid, i) matches Some(k) ==> i <= k < slots.len() && slots[k] is Some && slots[k]->0.pid == pid
            && forall|j: int| i <= j < k ==> !(slots[j] is Some && slots[j]->0.pid == pid),
        slot_from(slots, pid, i) is None ==> forall|j: int|
            i <= j < slots.len() ==> !(#[trigger] slots[j] is Some && slots[j]->0.pid == pid),
    decreases slots.len() - i,
{
    if i < slots.len() {
        lemma_slot_from(slots, pid, i + 1);
    }
}

/// With unique IDs, the slot found for a process is the only slot that
/// holds it.
pub proof fn lemma_slot_of_unique(slots: Seq<Option<Process>>, pid: u64, k: int)
    requires
        0 <= k < slots.len(),
        slots[k] is Some,
        slots[k]->0.pid == pid,
        forall|i: int, j: int|
            0 <= i < slots.len() && 0 <= j < slots.len() && i != j && #[trigger] slots[i] is Some
                && #[trigger] slots[j] is Some ==> slots[i]->0.pid != slots[j]->0.pid,
    ensures
        slot_of(slots, pid) == Some(k),
{
    lemma_slot_from(slots, pid, 0);
    if slot_of(slots, pid) is None {
        assert(!(slots[k] is Some && slots[k]->0.pid == pid));
    }
}

/// Putting a process with a fresh ID into a slot leaves every other
/// process's slot where it was, and the new process is found in its slot.
proof fn lemma_slot_of_update_new(slots: Seq<Option<Process>>, slot: int, process: Process)
    requires
        0 <= slot < slots.len(),
        slots[slot] is None,
        forall|j: int| 0 <= j < slots.len() && #[trigger] slots[j] is Some ==> slots[j]->0.pid != process.pid,
    ensures
        forall|pid: u64| pid != process.pid ==> #[trigger] slot_of(slots.update(slot, Some(process)), pid) == slot_of(slots, pid),
{
    assert forall|pid: u64| pid != process.pid implies #[trigger] slot_of(slots.update(slot, Some(process)), pid)
        == slot_of(slots, pid) by {
        lemma_slot_from_update(slots, slot, Some(process), pid, 0);
    }
}

/// Replacing one slot by a value that holds `pid` exactly when the old one
/// did does not change where `pid` is found.
proof fn lemma_slot_from_update(slots: Seq<Option<Process>>, slot: int, value: Option<Process>, pid: u64, i: int)
    requires
        0 <= slot < slots.len(),
        0 <= i <= slots.len(),
        (value is Some && value->0.pid == pid) == (slots[slot] is Some && slots[slot]->0.pid == pid),
    ensures
        slot_from(slots.update(slot, value), pid, i) == slot_from(slots, pid, i),
    decreases slots.len() - i,
{
    if i < slots.len() {
        lemma_slot_from_update(slots, slot, value, pid, i + 1);
    }
}

/// The first empty slot at or after slot `i`.
pub open spec fn free_from(slots: Seq<Option<Process>>, i: int) -> Option<int>
    decreases slots.len() - i,
{
    if i < 0 || i >= slots.len() {
        None
    } else if slots[i] is None {
        Some(i)
    } else {
        free_from(slots, i + 1)
    }
}

/// The first empty slot.
pub open spec fn first_free(slots: Seq<Option<Process>>) -> Option<int> {
    free_from(slots, 0)
}

/// What `free_from` finds: an empty slot at or after `i`.
pub proof fn lemma_free_from(slots: Seq<Option<Process>>, i: int)
    requires
        0 <= i <= slots.len(),
    ensures
        free_from(slots, i) matches Some(k) ==> i <= k < slots.len() && slots[k] is None,
    decreases slots.len() - i,
{
    if i < slots.len() {
        lemma_free_from(slots, i + 1);
    }
}

/// The slot holding process `p` with only its state or registers changed.
pub open spec fn with_state(slots: Seq<Option<Process>>, i: int, state: ProcessState) -> Seq<Option<Process>> {
    slots.update(i, Some(Process { state, ..slots[i]->0 }))
}

/// The process table's invariant: 64 slots, IDs from 1 up to the counter
/// and unique, the running processes exactly the current one, and the
/// current process in the table and running.
pub open spec fn table_ok(slots: Seq<Option<Process>>, current: Option<u64>, counter: u64) -> bool {
    &&& slots.len() == MAX_PROCESSES
    &&& counter >= 1
    &&& forall|i: int| 0 <= i < slots.len() && #[trigger] slots[i] is Some ==> 1 <= slots[i]->0.pid < counter
    &&& forall|i: int, j: int|
        0 <= i < slots.len() && 0 <= j < slots.len() && i != j && #[trigger] slots[i] is Some
            && #[trigger] slots[j] is Some ==> slots[i]->0.pid != slots[j]->0.pid
    &&& forall|i: int|
        0 <= i < slots.len() && #[trigger] slots[i] is Some && slots[i]->0.state == ProcessState::Running
            ==> current == Some(slots[i]->0.pid)
    &&& current matches Some(pid) ==> (slot_of(slots, pid) matches Some(i) && slots[i]->0.state
        == ProcessState::Running)
}

/// At most one process is running: two running slots are the same slot.
pub proof fn lemma_at_most_one_running(manager: ProcessManager, i: int, j: int)
    requires
        manager.wf(),
        0 <= i < MAX_PROCESSES,
        0 <= j < MAX_PROCESSES,
        manager.table()[i] is Some,
        manager.table()[j] is Some,
        manager.table()[i]->0.state == ProcessState::Running,
        manager.table()[j]->0.state == ProcessState::Running,
    ensures
        i == j,
{
}

/// Making `pid` current keeps the invariant.
proof fn lemma_set_current_wf(
    t0: Seq<Option<Process>>,
    t1: Seq<Option<Process>>,
    t2: Seq<Option<Process>>,
    current: Option<u64>,
    counter: u64,
    pid: u64,
    i: int,
)
    requires
        table_ok(t0, current, counter),
        slot_of(t0, pid) == Some(i),
        t1 == demoted(t0, current, pid),
        t2 == with_state(t1, i, ProcessState::Running),
    ensures
        table_ok(t2, Some(pid), counter),
{
    lemma_slot_from(t0, pid, 0);
    let mut dj: int = -1;
    if let Some(p) = current {
        if p != pid {
            let j = slot_of(t0, p)->0;
            lemma_slot_from(t0, p, 0);
            lemma_with_state_same_ids(t0, j, ProcessState::Ready);
            dj = j;
        }
    }
    assert(forall|k: int| 0 <= k < t0.len() ==> (#[trigger] t1[k] is Some) == (t0[k] is Some) && (t0[k] is Some
        ==> t1[k]->0.pid == t0[k]->0.pid));
    assert(forall|q: u64| #[trigger] slot_of(t1, q) == slot_of(t0, q));
    lemma_with_state_same_ids(t1, i, ProcessState::Running);
    assert forall|k: int|
        0 <= k < t2.len() && #[trigger] t2[k] is Some && t2[k]->0.state == ProcessState::Running implies Some(pid)
            == Some(t2[k]->0.pid) by {
        if k != i {
            assert(t2[k] == t1[k]);
            if k != dj {
                assert(t1[k] == t0[k]);
                assert(current == Some(t0[k]->0.pid));
                let p = current->0;
                if p == pid {
                    lemma_slot_of_unique(t0, pid, k);
                } else {
                    lemma_slot_of_unique(t0, p, k);
                }
            }
        }
    }
}

/// The slot `d` places after slot `start`, wrapping around the table.
pub open spec fn slot_at_offset(start: int, d: int) -> int {
    (start + d) % 64
}

/// What the round-robin scan finds: the first slot after `start`, in
/// round-robin order from offset `k`, that holds a process whose state is
/// `Ready`; when it finds none, no slot it passed holds one.
pub proof fn lemma_ready_after(slots: Seq<Option<Process>>, start: int, k: int)
    requires
        slots.len() == MAX_PROCESSES,
        0 <= start,
    ensures
        ready_after(slots, start, k) matches Some(i) ==> 0 <= i < MAX_PROCESSES && is_ready(slots[i])
            && slots[i] is Some && slots[i]->0.state == ProcessState::Ready,
        ready_after(slots, start, k) matches Some(i) ==> exists|d: int|
            k <= d <= 64 && i == #[trigger] slot_at_offset(start, d) && forall|j: int|
                k <= j < d ==> !(#[trigger] slots[(start + j) % 64] is Some && slots[(start + j) % 64]->0.state
                    == ProcessState::Ready),
        ready_after(slots, start, k) is None ==> forall|j: int|
            1 <= k <= j <= 64 ==> !(#[trigger] slots[(start + j) % 64] is Some && slots[(start + j) % 64]->0.state
                == ProcessState::Ready),
    decreases 65 - k,
{
    if 1 <= k <= 64 && !is_ready(slots[(start + k) % 64]) {
        lemma_ready_after(slots, start, k + 1);
        if let Some(i) = ready_after(slots, start, k + 1) {
            let d = choose|d: int|
                k + 1 <= d <= 64 && i == #[trigger] slot_at_offset(start, d) && forall|j: int|
                    k + 1 <= j < d ==> !(#[trigger] slots[(start + j) % 64] is Some && slots[(start + j)
                        % 64]->0.state == ProcessState::Ready);
            assert(k <= d <= 64 && i == slot_at_offset(start, d));
        }
    } else if 1 <= k <= 64 {
        assert(ready_after(slots, start, k) == Some(slot_at_offset(start, k)));
    }
}

/// The facts shared by the scheduling lemmas: the current process's slot
/// `ci` is replaced by a copy with the same ID in a state other than
/// `Running`.
pub open spec fn descheduled(t0: Seq<Option<Process>>, t1: Seq<Option<Process>>, cp: u64, counter: u64, ci: int) -> bool {
    &&& table_ok(t0, Some(cp), counter)
    &&& slot_of(t0, cp) == Some(ci)
    &&& t1.len() == t0.len()
    &&& t1[ci] is Some
    &&& t1[ci]->0.pid == cp
    &&& t1[ci]->0.state != ProcessState::Running
    &&& forall|k: int| 0 <= k < t0.len() && k != ci ==> #[trigger] t1[k] == t0[k]
}

/// After descheduling, the table is still sound apart from having no
/// running process, and IDs are found where they were.
proof fn lemma_descheduled(t0: Seq<Option<Process>>, t1: Seq<Option<Process>>, cp: u64, counter: u64, ci: int)
    requires
        descheduled(t0, t1, cp, counter, ci),
    ensures
        table_ok(t1, None, counter),
        forall|q: u64| #[trigger] slot_of(t1, q) == slot_of(t0, q),
{
    lemma_slot_from(t0, cp, 0);
    assert(t1 == t0.update(ci, t1[ci]));
    assert forall|q: u64| #[trigger] slot_of(t1, q) == slot_of(t0, q) by {
        lemma_slot_from_update(t0, ci, t1[ci], q, 0);
    }
    assert forall|k: int|
        0 <= k < t1.len() && #[trigger] t1[k] is Some && t1[k]->0.state == ProcessState::Running implies None::<u64>
            == Some(t1[k]->0.pid) by {
        assert(k != ci);
        assert(t1[k] == t0[k]);
        lemma_slot_of_unique(t0, cp, k);
    }
    assert forall|i: int, j: int|
        0 <= i < t1.len() && 0 <= j < t1.len() && i != j && #[trigger] t1[i] is Some && #[trigger] t1[j] is Some
            implies t1[i]->0.pid != t1[j]->0.pid by {
        assert(t0[i] is Some && t0[j] is Some);
    }
    assert forall|i: int| 0 <= i < t1.len() && #[trigger] t1[i] is Some implies 1 <= t1[i]->0.pid < counter by {
        assert(t0[i] is Some);
    }
}

/// Yielding with no other process to run keeps the invariant.
proof fn lemma_stay_wf(
    t0: Seq<Option<Process>>,
    t1: Seq<Option<Process>>,
    t2: Seq<Option<Process>>,
    cp: u64,
    counter: u64,
    ci: int,
)
    requires
        descheduled(t0, t1, cp, counter, ci),
        t2 == with_state(t1, ci, ProcessState::Running),
    ensures
        table_ok(t2, Some(cp), counter),
{
    lemma_descheduled(t0, t1, cp, counter, ci);
    lemma_slot_from(t0, cp, 0);
    lemma_with_state_same_ids(t1, ci, ProcessState::Running);
    assert forall|k: int|
        0 <= k < t2.len() && #[trigger] t2[k] is Some && t2[k]->0.state == ProcessState::Running implies Some(cp)
            == Some(t2[k]->0.pid) by {
        if k != ci {
            assert(t2[k] == t1[k]);
        }
    }
}

/// Switching from a descheduled process to the `Ready` process in slot
/// `ni` keeps the invariant.
proof fn lemma_switch_wf(
    t0: Seq<Option<Process>>,
    t1: Seq<Option<Process>>,
    t2: Seq<Option<Process>>,
    cp: u64,
    counter: u64,
    ci: int,
    ni: int,
)
    requires
        descheduled(t0, t1, cp, counter, ci),
        0 <= ni < t1.len(),
        is_ready(t1[ni]),
        t2 == with_state(t1, ni, ProcessState::Running),
    ensures
        table_ok(t2, Some(t1[ni]->0.pid), counter),
{
    lemma_descheduled(t0, t1, cp, counter, ci);
    lemma_with_state_same_ids(t1, ni, ProcessState::Running);
    let np = t1[ni]->0.pid;
    lemma_slot_of_unique(t1, np, ni);
    assert forall|k: int|
        0 <= k < t2.len() && #[trigger] t2[k] is Some && t2[k]->0.state == ProcessState::Running implies Some(np)
            == Some(t2[k]->0.pid) by {
        if k != ni {
            assert(t2[k] == t1[k]);
        }
    }
}

/// Exiting with no process left to run keeps the invariant.
proof fn lemma_exit_wf(t0: Seq<Option<Process>>, t1: Seq<Option<Process>>, cp: u64, counter: u64, ci: int)
    requires
        descheduled(t0, t1, cp, counter, ci),
    ensures
        table_ok(t1, None, counter),
{
    lemma_descheduled(t0, t1, cp, counter, ci);
}

/// The table after the current process (when it is not `pid`) is demoted
/// to `Ready`.
pub open spec fn demoted(slots: Seq<Option<Process>>, current: Option<u64>, pid: u64) -> Seq<Option<Process>> {
    match current {
        Some(p) => if p != pid {
            match slot_of(slots, p) {
                Some(j) => with_state(slots, j, ProcessState::Ready),
                None => slots,
            }
        } else {
            slots
        },
        None => slots,
    }
}

/// Changing the state of a process leaves every ID in its slot.
pub proof fn lemma_with_state_same_ids(slots: Seq<Option<Process>>, i: int, state: ProcessState)
    requires
        0 <= i < slots.len(),
        slots[i] is Some,
    ensures
        with_state(slots, i, state).len() == slots.len(),
        forall|j: int|
            0 <= j < slots.len() ==> (#[trigger] with_state(slots, i, state)[j] is Some) == (slots[j] is Some) && (
            slots[j] is Some ==> with_state(slots, i, state)[j]->0.pid == slots[j]->0.pid),
        forall|pid: u64| #[trigger] slot_of(with_state(slots, i, state), pid) == slot_of(slots, pid),
{
    assert forall|pid: u64| #[trigger] slot_of(with_state(slots, i, state), pid) == slot_of(slots, pid) by {
        lemma_slot_from_update(slots, i, Some(Process { state, ..slots[i]->0 }), pid, 0);
    }
}

/// The process table.
pub struct ProcessManager {
    slots: Vec<Option<Process>>,
    current: Option<u64>,
    next_pid: u64,
    initialized: bool,
}

impl ProcessManager {
    pub closed spec fn table(&self) -> Seq<Option<Process>> {
        self.slots@
    }

    pub closed spec fn current_process(&self) -> Option<u64> {
        self.current
    }

    /// The ID the next created process receives.
    pub closed spec fn pid_counter(&self) -> u64 {
        self.next_pid
    }

    pub closed spec fn ready_to_create(&self) -> bool {
        self.initialized
    }

    /// The table's invariant: see `table_ok`.
    pub open spec fn wf(&self) -> bool {
        table_ok(self.table(), self.current_process(), self.pid_counter())
    }

    /// An empty, not yet initialized table.
    pub fn new() -> (r: Self)
        ensures
            r.wf(),
            r.table() == Seq::new(MAX_PROCESSES as nat, |i: int| None::<Process>),
            r.current_process() is None,
            r.pid_counter() == 1,
            !r.ready_to_create(),
    {
        let mut slots: Vec<Option<Process>> = Vec::new();
        let mut i: usize = 0;
        while i < MAX_PROCESSES
            invariant
                0 <= i <= MAX_PROCESSES,
                slots@ == Seq::new(i as nat, |k: int| None::<Process>),
            decreases MAX_PROCESSES - i,
        {
            slots.push(None);
            proof {
                assert(slots@ =~= Seq::new((i + 1) as nat, |k: int| None::<Process>));
            }
            i = i + 1;
        }
        let r = ProcessManager { slots, current: None, next_pid: 1, initialized: false };
        r
    }

    /// Whether the process `pid` is in the table and has not exited.
    pub open spec fn alive(&self, pid: u64) -> bool {
        slot_of(self.table(), pid) matches Some(i) && self.table()[i]->0.state != ProcessState::Exited
    }

    /// Marks the table ready for process creation.
    pub fn init(&mut self)
        requires
            old(self).wf(),
        ensures
            final(self).wf(),
            final(self).ready_to_create(),
            final(self).table() == old(self).table(),
            final(self).current_process() == old(self).current_process(),
            final(self).pid_counter() == old(self).pid_counter(),
    {
        self.initialized = true;
    }

    /// The index of the first slot that holds the process `pid`.
    fn find_slot(&self, pid: u64) -> (r: Option<usize>)
        ensures
            r matches Some(i) ==> slot_of(self.table(), pid) == Some(i as int),
            r is None ==> slot_of(self.table(), pid) is None,
    {
        let mut i: usize = 0;
        while i < self.slots.len()
            invariant
                0 <= i <= self.slots@.len(),
                slot_of(self.table(), pid) == slot_from(self.table(), pid, i as int),
            decreases self.slots@.len() - i,
        {
            match &self.slots[i] {
                Some(p) => {
                    if p.pid == pid {
                        return Some(i);
                    }
                },
                None => {},
            }
            i = i + 1;
        }
        None
    }

    /// The index of the first empty slot.
    fn find_free_slot(&self) -> (r: Option<usize>)
        ensures
            r matches Some(i) ==> first_free(self.table()) == Some(i as int),
            r is None ==> first_free(self.table()) is None,
    {
        let mut i: usize = 0;
        while i < self.slots.len()
            invariant
                0 <= i <= self.slots@.len(),
                first_free(self.table()) == free_from(self.table(), i as int),
            decreases self.slots@.len() - i,
        {
            if self.slots[i].is_none() {
                return Some(i);
            }
            i = i + 1;
        }
        None
    }

    /// The slot the scheduler picks after the slot `start`.
    fn find_ready_after(&self, start: usize) -> (r: Option<usize>)
        requires
            self.table().len() == MAX_PROCESSES,
            start < MAX_PROCESSES,
        ensures
            r matches Some(i) ==> ready_after(self.table(), start as int, 1) == Some(i as int),
            r is None ==> ready_after(self.table(), start as int, 1) is None,
    {
        let mut offset: usize = 1;
        while offset <= MAX_PROCESSES
            invariant
                1 <= offset <= MAX_PROCESSES + 1,
                start < MAX_PROCESSES,
                self.table().len() == MAX_PROCESSES,
                ready_after(self.table(), start as int, 1) == ready_after(self.table(), start as int, offset as int),
            decreases MAX_PROCESSES + 1 - offset,
        {
            let index = (start + offset) % MAX_PROCESSES;
            match &self.slots[index] {
                Some(p) => {
                    if p.state == ProcessState::Ready {
                        return Some(index);
                    }
                },
                None => {},
            }
            offset = offset + 1;
        }
        None
    }

    /// Creates a `Ready` process in the first empty slot, with the next
    /// process ID, the given root page table and the initial registers for
    /// the given entry point, stack top and selectors.  Fails when the table
    /// was not initialized, is full, or has used up its IDs.
    pub fn create_process(
        &mut self,
        level_4_frame: u64,
        entry: u64,
        stack_top: u64,
        code_selector: u16,
        data_selector: u16,
    ) -> (r: Result<u64, CreateError>)
        requires
            old(self).wf(),
        ensures
            final(self).wf(),
            final(self).current_process() == old(self).current_process(),
            final(self).ready_to_create() == old(self).ready_to_create(),
            !old(self).ready_to_create() ==> r == Err::<u64, CreateError>(CreateError::NotInitialized)
                && final(self).table() == old(self).table() && final(self).pid_counter() == old(self).pid_counter(),
            old(self).ready_to_create() && first_free(old(self).table()) is None ==> r == Err::<u64, CreateError>(
                CreateError::TableFull,
            ) && final(self).table() == old(self).table() && final(self).pid_counter() == old(self).pid_counter(),
            old(self).ready_to_create() && first_free(old(self).table()) is Some && old(self).pid_counter()
                == u64::MAX ==> r == Err::<u64, CreateError>(CreateError::PidsExhausted) && final(self).table() == old(
                self,
            ).table() && final(self).pid_counter() == old(self).pid_counter(),
            old(self).ready_to_create() && first_free(old(self).table()) is Some && old(self).pid_counter() < u64::MAX
                ==> ({
                let i = first_free(old(self).table())->0;
                &&& r == Ok::<u64, CreateError>(old(self).pid_counter())
                &&& final(self).pid_counter() == old(self).pid_counter() + 1
                &&& final(self).table() == old(self).table().update(
                    i,
                    Some(
                        Process {
                            pid: old(self).pid_counter(),
                            level_4_frame,
                            state: ProcessState::Ready,
                            context: initial_context(entry, stack_top, code_selector, data_selector),
                        },
                    ),
                )
            }),
    {
        if !self.initialized {
            return Err(CreateError::NotInitialized);
        }
        let slot = match self.find_free_slot() {
            Some(i) => i,
            None => {
                return Err(CreateError::TableFull);
            },
        };
        proof {
            lemma_free_from(self.table(), 0);
        }
        if self.next_pid == u64::MAX {
            return Err(CreateError::PidsExhausted);
        }
        let pid = self.next_pid;
        let process = Process {
            pid,
            level_4_frame,
            state: ProcessState::Ready,
            context: SavedUserContext {
                rax: 0,
                rbx: 0,
                rcx: 0,
                rdx: 0,
                rsi: 0,
                rdi: 0,
                rbp: 0,
                r8: 0,
                r9: 0,
                r10: 0,
                r11: 0,
                r12: 0,
                r13: 0,
                r14: 0,
                r15: 0,
                rip: entry,
                cs: code_selector as u64,
                rflags: 2,
                rsp: stack_top,
                ss: data_selector as u64,
            },
        };
        let ghost before = self.table();
        self.slots.set(slot, Some(process));
        self.next_pid = pid + 1;
        proof {
            let after = self.table();
            assert forall|i: int| 0 <= i < before.len() && i != slot implies after[i] == before[i] by {}
            lemma_slot_of_update_new(before, slot as int, process);
            assert forall|i: int|
                0 <= i < after.len() && #[trigger] after[i] is Some && after[i]->0.state
                    == ProcessState::Running implies self.current_process() == Some(after[i]->0.pid) by {
                assert(i != slot);
            }
            assert forall|i: int, j: int|
                0 <= i < after.len() && 0 <= j < after.len() && i != j && #[trigger] after[i] is Some
                    && #[trigger] after[j] is Some implies after[i]->0.pid != after[j]->0.pid by {
                if i != slot && j != slot {
                    assert(before[i] is Some && before[j] is Some);
                } else if i == slot {
                    assert(before[j] is Some);
                } else {
                    assert(before[i] is Some);
                }
            }
            assert forall|i: int| 0 <= i < after.len() && #[trigger] after[i] is Some implies 1 <= after[i]->0.pid
                < self.pid_counter() by {
                if i != slot {
                    assert(before[i] is Some);
                }
            }
            if let Some(cp) = self.current_process() {
                let ci = slot_of(before, cp)->0;
                lemma_slot_from(before, cp, 0);
                assert(before[ci] is Some);
                assert(cp != pid);
            }
        }
        Ok(pid)
    }

    /// Sets the state of the process in slot `i`.
    fn set_slot_state(&mut self, i: usize, state: ProcessState)
        requires
            i < old(self).table().len(),
            old(self).table()[i as int] is Some,
        ensures
            final(self).table() == with_state(old(self).table(), i as int, state),
            final(self).current_process() == old(self).current_process(),
            final(self).pid_counter() == old(self).pid_counter(),
            final(self).ready_to_create() == old(self).ready_to_create(),
    {
        let process = self.slots[i].unwrap();
        self.slots.set(i, Some(Process { state, ..process }));
    }

    /// The ID of the current process.
    pub fn current_pid(&self) -> (r: Option<u64>)
        ensures
            r == self.current_process(),
    {
        self.current
    }

    /// The root page table of the current process.
    pub fn current_level_4_frame(&self) -> (r: Option<u64>)
        ensures
            r == (match self.current_process() {
                Some(pid) => match slot_of(self.table(), pid) {
                    Some(i) => Some(self.table()[i]->0.level_4_frame),
                    None => None,
                },
                None => None,
            }),
    {
        let pid = match self.current {
            Some(pid) => pid,
            None => return None,
        };
        match self.find_slot(pid) {
            Some(i) => {
                proof {
                    lemma_slot_from(self.table(), pid, 0);
                }
                Some(self.slots[i].unwrap().level_4_frame)
            },
            None => None,
        }
    }

    /// The root page table and registers with which to enter the current
    /// process; `None` when there is no current process or it is not
    /// `Running`.
    pub fn current_entry(&self) -> (r: Option<(u64, SavedUserContext)>)
        ensures
            r == (match self.current_process() {
                Some(pid) => match slot_of(self.table(), pid) {
                    Some(i) => if self.table()[i]->0.state == ProcessState::Running {
                        Some((self.table()[i]->0.level_4_frame, self.table()[i]->0.context))
                    } else {
                        None
                    },
                    None => None,
                },
                None => None,
            }),
    {
        let pid = match self.current {
            Some(pid) => pid,
            None => return None,
        };
        match self.find_slot(pid) {
            Some(i) => {
                proof {
                    lemma_slot_from(self.table(), pid, 0);
                }
                let process = self.slots[i].unwrap();
                if process.state == ProcessState::Running {
                    Some((process.level_4_frame, process.context))
                } else {
                    None
                }
            },
            None => None,
        }
    }

    /// Whether the process `pid` exists and has not exited.
    pub fn process_exists(&self, pid: u64) -> (r: bool)
        ensures
            r == self.alive(pid),
    {
        match self.find_slot(pid) {
            Some(i) => {
                proof {
                    lemma_slot_from(self.table(), pid, 0);
                }
                self.slots[i].unwrap().state != ProcessState::Exited
            },
            None => false,
        }
    }

    /// The state of the process `pid`, if it is in the table.
    pub fn state(&self, pid: u64) -> (r: Option<ProcessState>)
        ensures
            r == (match slot_of(self.table(), pid) {
                Some(i) => Some(self.table()[i]->0.state),
                None => None,
            }),
    {
        match self.find_slot(pid) {
            Some(i) => {
                proof {
                    lemma_slot_from(self.table(), pid, 0);
                }
                Some(self.slots[i].unwrap().state)
            },
            None => None,
        }
    }

    /// Makes the process `pid` the current one and `Running`; the previous
    /// current process becomes `Ready`.  Refused, changing nothing, when
    /// `pid` is not in the table or has exited.
    pub fn set_current(&mut self, pid: u64) -> (r: bool)
        requires
            old(self).wf(),
        ensures
            final(self).wf(),
            final(self).pid_counter() == old(self).pid_counter(),
            final(self).ready_to_create() == old(self).ready_to_create(),
            r == old(self).alive(pid),
            !r ==> final(self).table() == old(self).table() && final(self).current_process() == old(
                self,
            ).current_process(),
            r ==> final(self).current_process() == Some(pid) && final(self).table() == with_state(
                demoted(old(self).table(), old(self).current_process(), pid),
                slot_of(old(self).table(), pid)->0,
                ProcessState::Running,
            ),
    {
        let i = match self.find_slot(pid) {
            Some(i) => i,
            None => return false,
        };
        proof {
            lemma_slot_from(self.table(), pid, 0);
        }
        if self.slots[i].unwrap().state == ProcessState::Exited {
            return false;
        }
        let ghost t0 = self.table();
        if let Some(previous_pid) = self.current {
            if previous_pid != pid {
                if let Some(j) = self.find_slot(previous_pid) {
                    proof {
                        lemma_slot_from(t0, previous_pid, 0);
                    }
                    if self.slots[j].unwrap().state == ProcessState::Running {
                        self.set_slot_state(j, ProcessState::Ready);
                    }
                }
            }
        }
        let ghost t1 = self.table();
        self.set_slot_state(i, ProcessState::Running);
        self.current = Some(pid);
        proof {
            lemma_set_current_wf(t0, t1, self.table(), old(self).current_process(), self.pid_counter(), pid, i as int);
        }
        true
    }


    /// Saves the registers of the current process, marks it `Ready` and
    /// switches to the next `Ready` process in round-robin order after it
    /// (possibly itself).  Without a current process nothing changes.
    pub fn yield_current(&mut self, current_context: SavedUserContext) -> (r: ScheduleResult)
        requires
            old(self).wf(),
        ensures
            final(self).wf(),
            final(self).pid_counter() == old(self).pid_counter(),
            final(self).ready_to_create() == old(self).ready_to_create(),
            old(self).current_process() is None ==> r is NoProcess && final(self).table() == old(self).table()
                && final(self).current_process() == old(self).current_process(),
            old(self).current_process() matches Some(cp) ==> ({
                let ci = slot_of(old(self).table(), cp)->0;
                let saved = old(self).table().update(
                    ci,
                    Some(
                        Process {
                            context: current_context,
                            state: ProcessState::Ready,
                            ..old(self).table()[ci]->0
                        },
                    ),
                );
                match ready_after(saved, ci, 1) {
                    None => r is NoProcess && final(self).table() == with_state(saved, ci, ProcessState::Running)
                        && final(self).current_process() == old(self).current_process(),
                    Some(ni) => r == ScheduleResult::Switched(saved[ni]->0.context) && final(self).table()
                        == with_state(saved, ni, ProcessState::Running) && final(self).current_process() == Some(
                        saved[ni]->0.pid,
                    ),
                }
            }),
            final(self).current_process() matches Some(np) ==> old(self).current_process() == Some(np) || (slot_of(
                old(self).table(),
                np,
            ) matches Some(j) && old(self).table()[j]->0.state == ProcessState::Ready),
            forall|i: int|
                0 <= i < old(self).table().len() && #[trigger] old(self).table()[i] is Some && old(self).table()[i]->0.state
                    == ProcessState::Exited ==> final(self).table()[i] is Some && final(self).table()[i]->0.state
                    == ProcessState::Exited,
    {
        let current_pid = match self.current {
            Some(pid) => pid,
            None => return ScheduleResult::NoProcess,
        };
        let ci = match self.find_slot(current_pid) {
            Some(i) => i,
            None => return ScheduleResult::NoProcess,
        };
        proof {
            lemma_slot_from(self.table(), current_pid, 0);
        }
        let ghost t0 = self.table();
        let process = self.slots[ci].unwrap();
        self.slots.set(ci, Some(Process { context: current_context, state: ProcessState::Ready, ..process }));
        let ghost t1 = self.table();
        match self.find_ready_after(ci) {
            None => {
                self.set_slot_state(ci, ProcessState::Running);
                proof {
                    lemma_stay_wf(t0, t1, self.table(), current_pid, self.pid_counter(), ci as int);
                }
                ScheduleResult::NoProcess
            },
            Some(ni) => {
                proof {
                    lemma_ready_after(t1, ci as int, 1);
                }
                let next = self.slots[ni].unwrap();
                self.set_slot_state(ni, ProcessState::Running);
                self.current = Some(next.pid);
                proof {
                    lemma_switch_wf(t0, t1, self.table(), current_pid, self.pid_counter(), ci as int, ni as int);
                    if ni != ci {
                        assert(t1[ni as int] == t0[ni as int]);
                        lemma_slot_of_unique(t0, next.pid, ni as int);
                    }
                }
                ScheduleResult::Switched(next.context)
            },
        }
    }

    /// Marks the current process `Exited` and switches to the next `Ready`
    /// process in round-robin order after it; when there is none, no process
    /// is current any more.  Without a current process nothing changes.
    pub fn exit_current(&mut self) -> (r: ScheduleResult)
        requires
            old(self).wf(),
        ensures
            final(self).wf(),
            final(self).pid_counter() == old(self).pid_counter(),
            final(self).ready_to_create() == old(self).ready_to_create(),
            old(self).current_process() is None ==> r is NoProcess && final(self).table() == old(self).table()
                && final(self).current_process() == old(self).current_process(),
            old(self).current_process() matches Some(cp) ==> ({
                let ci = slot_of(old(self).table(), cp)->0;
                let exited = with_state(old(self).table(), ci, ProcessState::Exited);
                match ready_after(exited, ci, 1) {
                    None => r is NoProcess && final(self).table() == exited && final(self).current_process() is None,
                    Some(ni) => r == ScheduleResult::Switched(exited[ni]->0.context) && final(self).table()
                        == with_state(exited, ni, ProcessState::Running) && final(self).current_process() == Some(
                        exited[ni]->0.pid,
                    ),
                }
            }),
            final(self).current_process() matches Some(np) ==> old(self).current_process() != Some(np) && (slot_of(
                old(self).table(),
                np,
            ) matches Some(j) && old(self).table()[j]->0.state == ProcessState::Ready),
            forall|i: int|
                0 <= i < old(self).table().len() && #[trigger] old(self).table()[i] is Some && old(self).table()[i]->0.state
                    == ProcessState::Exited ==> final(self).table()[i] is Some && final(self).table()[i]->0.state
                    == ProcessState::Exited,
    {
        let current_pid = match self.current {
            Some(pid) => pid,
            None => return ScheduleResult::NoProcess,
        };
        let ci = match self.find_slot(current_pid) {
            Some(i) => i,
            None => return ScheduleResult::NoProcess,
        };
        proof {
            lemma_slot_from(self.table(), current_pid, 0);
        }
        let ghost t0 = self.table();
        self.set_slot_state(ci, ProcessState::Exited);
        let ghost t1 = self.table();
        match self.find_ready_after(ci) {
            None => {
                self.current = None;
                proof {
                    lemma_exit_wf(t0, t1, current_pid, self.pid_counter(), ci as int);
                }
                ScheduleResult::NoProcess
            },
            Some(ni) => {
                proof {
                    lemma_ready_after(t1, ci as int, 1);
                }
                let next = self.slots[ni].unwrap();
                self.set_slot_state(ni, ProcessState::Running);
                self.current = Some(next.pid);
                proof {
                    lemma_switch_wf(t0, t1, self.table(), current_pid, self.pid_counter(), ci as int, ni as int);
                    if ni != ci {
                        assert(t1[ni as int] == t0[ni as int]);
                        lemma_slot_of_unique(t0, next.pid, ni as int);
                    }
                }
                ScheduleResult::Switched(next.context)
            },
        }
    }
}

} // verus!
