//! Fixed-layout records handed to user programs, and their byte images
//! (little-endian, natural alignment, fields in declared order).
use vstd::prelude::*;

use crate::config::{MAX_SYSCALL_NUM, WORD_SIZE};

verus! {

/// Microseconds in one second.
pub const MICROS_PER_SEC: usize = 1_000_000;

/// Bytes in the image of a `TimeVal`.
pub const TIME_VAL_SIZE: usize = 16;

/// Bytes in the image of a `TaskInfo`: a 4-byte status tag, one 4-byte counter
/// per syscall id, 4 bytes of padding, then the 8-byte running time.
pub const TASK_INFO_SIZE: usize = 2016;

/// The `n` low-order bytes of `x`, least significant first.
pub open spec fn le_bytes(x: nat, n: nat) -> Seq<u8>
    decreases n,
{
    if n == 0 {
        Seq::empty()
    } else {
        seq![(x % 256) as u8] + le_bytes(x / 256, (n - 1) as nat)
    }
}

/// Appends the `n` low-order bytes of `x` to `out`, least significant first.
fn push_le(out: &mut Vec<u8>, x: u64, n: usize)
    ensures
        final(out)@ == old(out)@ + le_bytes(x as nat, n as nat),
{
    let mut v: u64 = x;
    let mut i: usize = 0;
    assert(old(out)@ + le_bytes(x as nat, n as nat) =~= out@ + le_bytes(v as nat, (n - i) as nat));
    while i < n
        invariant
            i <= n,
            out@ + le_bytes(v as nat, (n - i) as nat) == old(out)@ + le_bytes(x as nat, n as nat),
        decreases n - i,
    {
        let ghost pre = out@;
        let b = (v % 256) as u8;
        out.push(b);
        assert(le_bytes(v as nat, (n - i) as nat) == seq![b] + le_bytes((v / 256) as nat, (n - i - 1) as nat));
        assert(pre + le_bytes(v as nat, (n - i) as nat) =~= out@ + le_bytes((v / 256) as nat, (n - i - 1) as nat));
        v = v / 256;
        i = i + 1;
    }
}

/// Wall-clock reading handed to user programs.
#[derive(Clone, Copy, Debug, PartialEq, Eq, Structural)]
pub struct TimeVal {
    pub sec: usize,
    pub usec: usize,
}

/// Byte image of a time value: `sec` then `usec`, one word each.
pub open spec fn time_val_bytes(sec: nat, usec: nat) -> Seq<u8> {
    le_bytes(sec, WORD_SIZE as nat) + le_bytes(usec, WORD_SIZE as nat)
}

/// Microseconds that a time value stands for.
pub open spec fn total_micros(t: TimeVal) -> int {
    t.sec * 1_000_000 + t.usec
}

impl TimeVal {
    /// Splits a microsecond counter into whole seconds and the remainder.
    pub fn from_micros(us: usize) -> (r: TimeVal)
        ensures
            r.sec == us / 1_000_000,
            r.usec == us % 1_000_000,
    {
        TimeVal { sec: us / MICROS_PER_SEC, usec: us % MICROS_PER_SEC }
    }

    /// The byte image of this value.
    pub fn to_bytes(&self) -> (r: Vec<u8>)
        ensures
            r@ == time_val_bytes(self.sec as nat, self.usec as nat),
            r@.len() == TIME_VAL_SIZE,
    {
        let mut out: Vec<u8> = Vec::new();
        push_le(&mut out, self.sec as u64, WORD_SIZE);
        push_le(&mut out, self.usec as u64, WORD_SIZE);
        proof {
            lemma_le_bytes_len(self.sec as nat, WORD_SIZE as nat);
            lemma_le_bytes_len(self.usec as nat, WORD_SIZE as nat);
            assert(out@ =~= time_val_bytes(self.sec as nat, self.usec as nat));
        }
        out
    }
}

/// The encoding of `n` bytes has `n` bytes.
pub proof fn lemma_le_bytes_len(x: nat, n: nat)
    ensures
        le_bytes(x, n).len() == n,
    decreases n,
{
    if n > 0 {
        lemma_le_bytes_len(x / 256, (n - 1) as nat);
    }
}

/// A split counter stands for the counter it came from, with `usec` below one second.
pub proof fn lemma_split_exact(us: usize)
    ensures
        total_micros(TimeVal { sec: us / 1_000_000, usec: us % 1_000_000 }) == us,
        us % 1_000_000 < 1_000_000,
{
    assert((us / 1_000_000) * 1_000_000 + us % 1_000_000 == us) by (nonlinear_arith);
}

/// Two readings of a non-decreasing counter give non-decreasing time values.
pub proof fn lemma_time_monotone(t1: usize, t2: usize)
    requires
        t1 <= t2,
    ensures
        total_micros(TimeVal { sec: t1 / 1_000_000, usec: t1 % 1_000_000 }) <= total_micros(
            TimeVal { sec: t2 / 1_000_000, usec: t2 % 1_000_000 },
        ),
        (t1 / 1_000_000 < t2 / 1_000_000) || (t1 / 1_000_000 == t2 / 1_000_000 && t1 % 1_000_000
            <= t2 % 1_000_000),
{
    lemma_split_exact(t1);
    lemma_split_exact(t2);
    assert(t1 / 1_000_000 <= t2 / 1_000_000) by (nonlinear_arith)
        requires
            t1 <= t2,
    ;
}

/// Life-cycle state of a task.
#[derive(Clone, Copy, Debug, PartialEq, Eq, Structural)]
pub enum TaskStatus {
    UnInit,
    Ready,
    Running,
    Exited,
}

/// Tag stored for a status in a `TaskInfo` image.
pub open spec fn status_tag(s: TaskStatus) -> nat {
    match s {
        TaskStatus::UnInit => 0,
        TaskStatus::Ready => 1,
        TaskStatus::Running => 2,
        TaskStatus::Exited => 3,
    }
}

impl TaskStatus {
    /// Tag stored for this status in a `TaskInfo` image.
    pub fn tag(&self) -> (r: u32)
        ensures
            r as nat == status_tag(*self),
    {
        match self {
            TaskStatus::UnInit => 0,
            TaskStatus::Ready => 1,
            TaskStatus::Running => 2,
            TaskStatus::Exited => 3,
        }
    }
}

/// Per-task statistics handed to user programs.
#[derive(Debug)]
pub struct TaskInfo {
    /// Task status in its life cycle.
    pub status: TaskStatus,
    /// Number of calls of each syscall id.
    pub syscall_times: Vec<u32>,
    /// Milliseconds since the task first ran.
    pub time: usize,
}

/// Images of the counters, 4 bytes each, in order.
pub open spec fn counters_bytes(c: Seq<u32>) -> Seq<u8>
    decreases c.len(),
{
    if c.len() == 0 {
        Seq::empty()
    } else {
        counters_bytes(c.drop_last()) + le_bytes(c.last() as nat, 4)
    }
}

/// Byte image of a task record.
pub open spec fn task_info_bytes(status: TaskStatus, counts: Seq<u32>, time: nat) -> Seq<u8> {
    le_bytes(status_tag(status), 4) + counters_bytes(counts) + le_bytes(0, 4) + le_bytes(
        time,
        WORD_SIZE as nat,
    )
}

/// The images of `n` counters take `4 * n` bytes.
pub proof fn lemma_counters_bytes_len(c: Seq<u32>)
    ensures
        counters_bytes(c).len() == 4 * c.len(),
    decreases c.len(),
{
    if c.len() > 0 {
        lemma_counters_bytes_len(c.drop_last());
        lemma_le_bytes_len(c.last() as nat, 4);
    }
}

impl TaskInfo {
    /// Whether there is one counter per syscall id.
    pub open spec fn wf(&self) -> bool {
        self.syscall_times@.len() == MAX_SYSCALL_NUM
    }

    /// The byte image of this record.
    pub fn to_bytes(&self) -> (r: Vec<u8>)
        ensures
            r@ == task_info_bytes(self.status, self.syscall_times@, self.time as nat),
            self.wf() ==> r@.len() == TASK_INFO_SIZE,
    {
        let mut out: Vec<u8> = Vec::new();
        push_le(&mut out, self.status.tag() as u64, 4);
        let ghost head = out@;
        let mut i: usize = 0;
        assert(self.syscall_times@.take(0) =~= Seq::<u32>::empty());
        assert(out@ =~= head + counters_bytes(self.syscall_times@.take(0)));
        while i < self.syscall_times.len()
            invariant
                i <= self.syscall_times@.len(),
                out@ == head + counters_bytes(self.syscall_times@.take(i as int)),
            decreases self.syscall_times@.len() - i,
        {
            let c = self.syscall_times[i];
            push_le(&mut out, c as u64, 4);
            assert(self.syscall_times@.take(i as int + 1).drop_last() =~= self.syscall_times@.take(i as int));
            assert(out@ =~= head + counters_bytes(self.syscall_times@.take(i as int + 1)));
            i = i + 1;
        }
        assert(self.syscall_times@.take(i as int) =~= self.syscall_times@);
        push_le(&mut out, 0, 4);
        push_le(&mut out, self.time as u64, WORD_SIZE);
        proof {
            lemma_le_bytes_len(status_tag(self.status), 4);
            lemma_counters_bytes_len(self.syscall_times@);
            lemma_le_bytes_len(0, 4);
            lemma_le_bytes_len(self.time as nat, WORD_SIZE as nat);
            assert(out@ =~= task_info_bytes(self.status, self.syscall_times@, self.time as nat));
        }
        out
    }
}

} // verus!
