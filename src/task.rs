//! The calling task's state that the system calls read and change, and the
//! fixed-layout records that they copy out to user memory.

use vstd::prelude::*;

use crate::memory::MemorySet;

verus! {

/// Number of system call numbers that a task counts calls of.
pub const MAX_SYSCALL_NUM: usize = 500;

/// Microseconds in one second.
pub const USEC_PER_SEC: usize = 1_000_000;

/// Lifecycle label of a task.
#[derive(Clone, Copy, Debug, PartialEq, Eq, Structural)]
pub enum TaskStatus {
    UnInit,
    Ready,
    Running,
    Exited,
}

/// The byte that stands for a status in a copied-out record.
pub open spec fn status_code(s: TaskStatus) -> u8 {
    match s {
        TaskStatus::UnInit => 0u8,
        TaskStatus::Ready => 1u8,
        TaskStatus::Running => 2u8,
        TaskStatus::Exited => 3u8,
    }
}

/// The `n` low bytes of `x`, least significant first.
pub open spec fn le_bytes(x: nat, n: nat) -> Seq<u8>
    decreases n,
{
    if n == 0 {
        Seq::empty()
    } else {
        seq![(x % 256) as u8] + le_bytes(x / 256, (n - 1) as nat)
    }
}

/// `n` zero bytes.
pub open spec fn zeros(n: nat) -> Seq<u8> {
    Seq::new(n, |i: int| 0u8)
}

/// Each counter as four little-endian bytes, in order.
pub open spec fn counters_bytes(s: Seq<u32>) -> Seq<u8>
    decreases s.len(),
{
    if s.len() == 0 {
        Seq::empty()
    } else {
        counters_bytes(s.drop_last()) + le_bytes(s.last() as nat, 4)
    }
}

proof fn lemma_le_bytes_len(x: nat, n: nat)
    ensures
        le_bytes(x, n).len() == n,
    decreases n,
{
    if n > 0 {
        lemma_le_bytes_len(x / 256, (n - 1) as nat);
    }
}

proof fn lemma_counters_bytes_len(s: Seq<u32>)
    ensures
        counters_bytes(s).len() == 4 * s.len(),
    decreases s.len(),
{
    if s.len() > 0 {
        lemma_counters_bytes_len(s.drop_last());
        lemma_le_bytes_len(s.last() as nat, 4);
    }
}

/// Seconds and microseconds since boot.
#[derive(Clone, Copy, Debug, PartialEq, Eq, Structural)]
pub struct TimeVal {
    pub sec: usize,
    pub usec: usize,
}

/// The instant a `TimeVal` names, in microseconds.
pub open spec fn time_val_us(t: TimeVal) -> nat {
    t.sec as nat * USEC_PER_SEC as nat + t.usec as nat
}

/// Layout of a `TimeVal` in user memory: two 64-bit little-endian words.
pub open spec fn time_val_bytes(t: TimeVal) -> Seq<u8> {
    le_bytes(t.sec as nat, 8) + le_bytes(t.usec as nat, 8)
}

/// Appends the `n` low bytes of `x`, least significant first.
fn push_le(out: &mut Vec<u8>, x: u64, n: usize)
    ensures
        final(out)@ == old(out)@ + le_bytes(x as nat, n as nat),
{
    let mut y: u64 = x;
    let mut j: usize = 0;
    while j < n
        invariant
            j <= n,
            out@ + le_bytes(y as nat, (n - j) as nat) == old(out)@ + le_bytes(x as nat, n as nat),
        decreases n - j,
    {
        let ghost pre = out@;
        out.push((y % 256) as u8);
        proof {
            assert(le_bytes(y as nat, (n - j) as nat) == seq![(y as nat % 256) as u8] + le_bytes(
                (y / 256) as nat,
                (n - j - 1) as nat,
            ));
            assert(out@ + le_bytes((y / 256) as nat, (n - j - 1) as nat) =~= pre + le_bytes(
                y as nat,
                (n - j) as nat,
            ));
        }
        y = y / 256;
        j = j + 1;
    }
    assert(out@ =~= out@ + le_bytes(y as nat, 0));
}

/// Appends `n` zero bytes.
fn push_zeros(out: &mut Vec<u8>, n: usize)
    ensures
        final(out)@ == old(out)@ + zeros(n as nat),
{
    let mut j: usize = 0;
    while j < n
        invariant
            j <= n,
            out@ == old(out)@ + zeros(j as nat),
        decreases n - j,
    {
        out.push(0u8);
        j = j + 1;
        assert(out@ =~= old(out)@ + zeros(j as nat));
    }
}

impl TimeVal {
    /// Splits a count of microseconds into seconds and microseconds.
    pub fn from_us(us: usize) -> (r: TimeVal)
        ensures
            r.sec == us / USEC_PER_SEC,
            r.usec == us % USEC_PER_SEC,
            r.usec < USEC_PER_SEC,
            time_val_us(r) == us,
    {
        let r = TimeVal { sec: us / USEC_PER_SEC, usec: us % USEC_PER_SEC };
        proof {
            vstd::arithmetic::div_mod::lemma_fundamental_div_mod(us as int, USEC_PER_SEC as int);
        }
        r
    }

    /// The bytes of the record as it lies in user memory.
    pub fn to_bytes(&self) -> (r: Vec<u8>)
        ensures
            r@ == time_val_bytes(*self),
            r@.len() == 16,
    {
        proof {
            lemma_le_bytes_len(self.sec as nat, 8);
            lemma_le_bytes_len(self.usec as nat, 8);
        }
        let mut out: Vec<u8> = Vec::new();
        push_le(&mut out, self.sec as u64, 8);
        push_le(&mut out, self.usec as u64, 8);
        assert(out@ =~= time_val_bytes(*self));
        out
    }
}

/// What a task reports of itself: its status, how often it made each system
/// call, and how long it has run, in milliseconds.
#[derive(Clone, Copy, Debug)]
pub struct TaskInfo {
    pub status: TaskStatus,
    pub syscall_times: [u32; MAX_SYSCALL_NUM],
    pub time: usize,
}

/// Layout of a `TaskInfo` in user memory: the status byte and three bytes of
/// padding, each counter as a 32-bit little-endian word, four bytes of
/// padding, and the running time as a 64-bit little-endian word.
pub open spec fn task_info_bytes(t: TaskInfo) -> Seq<u8> {
    seq![status_code(t.status)] + zeros(3) + counters_bytes(t.syscall_times@) + zeros(4)
        + le_bytes(t.time as nat, 8)
}

impl TaskInfo {
    /// The bytes of the record as it lies in user memory.
    pub fn to_bytes(&self) -> (r: Vec<u8>)
        ensures
            r@ == task_info_bytes(*self),
            r@.len() == 2016,
    {
        proof {
            lemma_counters_bytes_len(self.syscall_times@);
            lemma_le_bytes_len(self.time as nat, 8);
        }
        let mut out: Vec<u8> = Vec::new();
        let code: u8 = match self.status {
            TaskStatus::UnInit => 0,
            TaskStatus::Ready => 1,
            TaskStatus::Running => 2,
            TaskStatus::Exited => 3,
        };
        out.push(code);
        push_zeros(&mut out, 3);
        let ghost head = out@;
        let mut i: usize = 0;
        while i < MAX_SYSCALL_NUM
            invariant
                i <= MAX_SYSCALL_NUM,
                self.syscall_times@.len() == MAX_SYSCALL_NUM,
                out@ == head + counters_bytes(self.syscall_times@.subrange(0, i as int)),
            decreases MAX_SYSCALL_NUM - i,
        {
            let ghost pre = out@;
            push_le(&mut out, self.syscall_times[i] as u64, 4);
            proof {
                let s = self.syscall_times@.subrange(0, i + 1);
                assert(s.drop_last() =~= self.syscall_times@.subrange(0, i as int));
                assert(out@ =~= head + counters_bytes(s));
            }
            i = i + 1;
        }
        assert(self.syscall_times@.subrange(0, MAX_SYSCALL_NUM as int) =~= self.syscall_times@);
        push_zeros(&mut out, 4);
        push_le(&mut out, self.time as u64, 8);
        assert(out@ =~= task_info_bytes(*self));
        out
    }
}

/// The state of the calling task that its system calls read and change.
pub struct Task {
    pub status: TaskStatus,
    pub memory_set: MemorySet,
    pub syscall_times: [u32; MAX_SYSCALL_NUM],
    /// Lowest address of the data segment's heap.
    pub heap_bottom: usize,
    /// Current end of the data segment.
    pub program_brk: usize,
    pub exit_code: i32,
}

impl Task {
    /// The memory set is well formed, and the data segment's end lies between
    /// its base and the largest value a system call can return.
    pub open spec fn wf(&self) -> bool {
        &&& self.memory_set.wf()
        &&& self.heap_bottom <= self.program_brk
        &&& self.program_brk <= isize::MAX
    }

    /// A running task with no user page mapped, no system call counted, and
    /// an empty heap at `heap_bottom`.
    pub fn new(heap_bottom: usize) -> (r: Task)
        requires
            heap_bottom <= isize::MAX,
        ensures
            r.wf(),
            r.status == TaskStatus::Running,
            r.memory_set.pages@ == Map::<usize, crate::memory::Page>::empty(),
            forall|i: int| 0 <= i < MAX_SYSCALL_NUM ==> r.syscall_times@[i] == 0,
            r.heap_bottom == heap_bottom,
            r.program_brk == heap_bottom,
            r.exit_code == 0,
    {
        Task {
            status: TaskStatus::Running,
            memory_set: MemorySet::new(),
            syscall_times: [0u32; MAX_SYSCALL_NUM],
            heap_bottom,
            program_brk: heap_bottom,
            exit_code: 0,
        }
    }
}

/// Sampling the clock later never gives an earlier time: converting a
/// microsecond count to a `TimeVal` keeps the order of the counts.
pub proof fn lemma_time_val_monotonic(us1: usize, us2: usize)
    requires
        us1 <= us2,
    ensures
        time_val_us(TimeVal { sec: us1 / USEC_PER_SEC, usec: us1 % USEC_PER_SEC }) <= time_val_us(
            TimeVal { sec: us2 / USEC_PER_SEC, usec: us2 % USEC_PER_SEC },
        ),
{
    vstd::arithmetic::div_mod::lemma_fundamental_div_mod(us1 as int, USEC_PER_SEC as int);
    vstd::arithmetic::div_mod::lemma_fundamental_div_mod(us2 as int, USEC_PER_SEC as int);
}

} // verus!
