//! Syscall entry points for the running task. The task, its address space and
//! the clock readings are passed in explicitly; every failure reaches the
//! caller as `-1`.
use vstd::prelude::*;

use crate::accessor::{copy_to_user, range_writable, written};
use crate::config::MAX_SYSCALL_NUM;
use crate::marshal::{
    task_info_bytes, time_val_bytes, TaskInfo, TaskStatus, TimeVal, TASK_INFO_SIZE, TIME_VAL_SIZE,
};
use crate::region::{map_outcome, map_region, unmap_outcome, unmap_region};
use crate::space::AddressSpace;

verus! {

/// What the kernel keeps about the running task.
pub struct Task {
    /// Life-cycle state.
    pub status: TaskStatus,
    /// Exit code, once the task has exited.
    pub exit_code: Option<i32>,
    /// Number of calls of each syscall id.
    pub syscall_times: Vec<u32>,
    /// Clock reading, in milliseconds, when the task first ran.
    pub start_time_ms: usize,
    /// Lowest address the program break may take.
    pub heap_bottom: usize,
    /// Current program break.
    pub program_brk: usize,
    /// The task's page table.
    pub space: AddressSpace,
}

impl Task {
    /// One counter per syscall id, a well-formed page table, and a program
    /// break at or above the heap bottom that fits in a signed word.
    pub open spec fn wf(&self) -> bool {
        &&& self.syscall_times@.len() == MAX_SYSCALL_NUM
        &&& self.space.wf()
        &&& self.heap_bottom <= self.program_brk <= isize::MAX
    }

    /// A running task with an empty address space and an empty heap at `heap_bottom`.
    pub fn new(heap_bottom: usize, start_time_ms: usize) -> (r: Task)
        requires
            heap_bottom <= isize::MAX,
        ensures
            r.wf(),
            r.status == TaskStatus::Running,
            r.exit_code == None::<i32>,
            r.syscall_times@ == Seq::new(MAX_SYSCALL_NUM as nat, |i: int| 0u32),
            r.start_time_ms == start_time_ms,
            r.heap_bottom == heap_bottom,
            r.program_brk == heap_bottom,
            r.space@ == Map::<usize, crate::space::PageState>::empty(),
    {
        let mut times: Vec<u32> = Vec::new();
        let mut i: usize = 0;
        while i < MAX_SYSCALL_NUM
            invariant
                i <= MAX_SYSCALL_NUM,
                times@ == Seq::new(i as nat, |k: int| 0u32),
            decreases MAX_SYSCALL_NUM - i,
        {
            times.push(0u32);
            i = i + 1;
            assert(times@ =~= Seq::new(i as nat, |k: int| 0u32));
        }
        Task {
            status: TaskStatus::Running,
            exit_code: None,
            syscall_times: times,
            start_time_ms,
            heap_bottom,
            program_brk: heap_bottom,
            space: AddressSpace::new(),
        }
    }

    /// Counts one call of syscall `id`; ids out of range are ignored and a
    /// counter stops at its maximum.
    pub fn count_syscall(&mut self, id: usize)
        requires
            old(self).wf(),
        ensures
            final(self).wf(),
            final(self).syscall_times@ == (if id < MAX_SYSCALL_NUM && old(self).syscall_times@[id as int]
                < u32::MAX {
                old(self).syscall_times@.update(id as int, (old(self).syscall_times@[id as int] + 1) as u32)
            } else {
                old(self).syscall_times@
            }),
            final(self).status == old(self).status,
            final(self).exit_code == old(self).exit_code,
            final(self).start_time_ms == old(self).start_time_ms,
            final(self).heap_bottom == old(self).heap_bottom,
            final(self).program_brk == old(self).program_brk,
            final(self).space@ == old(self).space@,
    {
        if id < self.syscall_times.len() && self.syscall_times[id] < u32::MAX {
            let c = self.syscall_times[id];
            self.syscall_times.set(id, c + 1);
        }
    }
}

/// The task exits with `exit_code`; the caller then runs another task and
/// never comes back to this one.
pub fn sys_exit(task: &mut Task, exit_code: i32)
    requires
        old(task).wf(),
    ensures
        final(task).wf(),
        final(task).status == TaskStatus::Exited,
        final(task).exit_code == Some(exit_code),
        final(task).syscall_times == old(task).syscall_times,
        final(task).start_time_ms == old(task).start_time_ms,
        final(task).program_brk == old(task).program_brk,
        final(task).heap_bottom == old(task).heap_bottom,
        final(task).space@ == old(task).space@,
{
    task.status = TaskStatus::Exited;
    task.exit_code = Some(exit_code);
}

/// The task gives up the processor: it becomes ready and the call returns `0`
/// once it runs again.
pub fn sys_yield(task: &mut Task) -> (r: isize)
    requires
        old(task).wf(),
    ensures
        r == 0,
        final(task).wf(),
        final(task).status == TaskStatus::Ready,
        final(task).exit_code == old(task).exit_code,
        final(task).syscall_times == old(task).syscall_times,
        final(task).start_time_ms == old(task).start_time_ms,
        final(task).program_brk == old(task).program_brk,
        final(task).heap_bottom == old(task).heap_bottom,
        final(task).space@ == old(task).space@,
{
    task.status = TaskStatus::Ready;
    0
}

/// Writes the clock reading `now_us` (microseconds), split into seconds and
/// microseconds, to user address `ts`; `tz` is ignored. Returns `0`, or `-1`
/// with nothing written when the 16 target bytes are not user-writable.
pub fn sys_get_time(task: &mut Task, ts: usize, tz: usize, now_us: usize) -> (r: isize)
    requires
        old(task).wf(),
    ensures
        final(task).wf(),
        final(task).status == old(task).status,
        final(task).exit_code == old(task).exit_code,
        final(task).syscall_times == old(task).syscall_times,
        final(task).program_brk == old(task).program_brk,
        final(task).heap_bottom == old(task).heap_bottom,
        final(task).start_time_ms == old(task).start_time_ms,
        r == 0 || r == -1,
        (r == 0) == range_writable(old(task).space@, ts as int, TIME_VAL_SIZE as nat),
        r == 0 ==> final(task).space@ == written(
            old(task).space@,
            ts as int,
            time_val_bytes((now_us / 1_000_000) as nat, (now_us % 1_000_000) as nat),
        ),
        r == -1 ==> final(task).space@ == old(task).space@,
{
    let tv = TimeVal::from_micros(now_us);
    let bytes = tv.to_bytes();
    match copy_to_user(&mut task.space, ts, &bytes) {
        Ok(()) => 0,
        Err(_) => -1,
    }
}

/// Writes the task's status, its per-syscall counters and the milliseconds
/// since it first ran (`now_ms - start_time_ms`, or `0` if the clock reads
/// earlier) to user address `ti`. Returns `0`, or `-1` with nothing written
/// when the target bytes are not user-writable.
pub fn sys_task_info(task: &mut Task, ti: usize, now_ms: usize) -> (r: isize)
    requires
        old(task).wf(),
    ensures
        final(task).wf(),
        final(task).status == old(task).status,
        final(task).exit_code == old(task).exit_code,
        final(task).syscall_times == old(task).syscall_times,
        final(task).program_brk == old(task).program_brk,
        final(task).heap_bottom == old(task).heap_bottom,
        final(task).start_time_ms == old(task).start_time_ms,
        r == 0 || r == -1,
        (r == 0) == range_writable(old(task).space@, ti as int, TASK_INFO_SIZE as nat),
        r == 0 ==> final(task).space@ == written(
            old(task).space@,
            ti as int,
            task_info_bytes(
                old(task).status,
                old(task).syscall_times@,
                (if now_ms >= old(task).start_time_ms {
                    now_ms - old(task).start_time_ms
                } else {
                    0
                }) as nat,
            ),
        ),
        r == -1 ==> final(task).space@ == old(task).space@,
{
    let time = if now_ms >= task.start_time_ms {
        now_ms - task.start_time_ms
    } else {
        0
    };
    let info = TaskInfo { status: task.status, syscall_times: task.syscall_times.clone(), time };
    let bytes = info.to_bytes();
    match copy_to_user(&mut task.space, ti, &bytes) {
        Ok(()) => 0,
        Err(_) => -1,
    }
}

/// Maps `[start, start + len)` with the rights in `port`: `0` when the request
/// is applied, `-1` when it is refused, with the page table untouched.
pub fn sys_mmap(task: &mut Task, start: usize, len: usize, port: usize) -> (r: isize)
    requires
        old(task).wf(),
    ensures
        final(task).wf(),
        final(task).status == old(task).status,
        final(task).exit_code == old(task).exit_code,
        final(task).syscall_times == old(task).syscall_times,
        final(task).program_brk == old(task).program_brk,
        final(task).heap_bottom == old(task).heap_bottom,
        final(task).start_time_ms == old(task).start_time_ms,
        r == (if map_outcome(old(task).space@, start, len, port).0 is Ok {
            0isize
        } else {
            -1isize
        }),
        final(task).space@ == map_outcome(old(task).space@, start, len, port).1,
{
    match map_region(&mut task.space, start, len, port) {
        Ok(()) => 0,
        Err(_) => -1,
    }
}

/// Unmaps `[start, start + len)`: `0` when every page was mapped and is now
/// removed, `-1` when the request is refused, with the page table untouched.
pub fn sys_munmap(task: &mut Task, start: usize, len: usize) -> (r: isize)
    requires
        old(task).wf(),
    ensures
        final(task).wf(),
        final(task).status == old(task).status,
        final(task).exit_code == old(task).exit_code,
        final(task).syscall_times == old(task).syscall_times,
        final(task).program_brk == old(task).program_brk,
        final(task).heap_bottom == old(task).heap_bottom,
        final(task).start_time_ms == old(task).start_time_ms,
        r == (if unmap_outcome(old(task).space@, start, len).0 is Ok {
            0isize
        } else {
            -1isize
        }),
        final(task).space@ == unmap_outcome(old(task).space@, start, len).1,
{
    match unmap_region(&mut task.space, start, len) {
        Ok(()) => 0,
        Err(_) => -1,
    }
}

/// Whether moving the break `brk` by `size` is accepted: the new break stays
/// at or above the heap bottom and fits in a signed word.
pub open spec fn brk_move_ok(heap_bottom: int, brk: int, size: int) -> bool {
    heap_bottom <= brk + size <= isize::MAX
}

/// Moves the program break by `size` bytes and returns the previous break, or
/// `-1`, with the break unchanged, when the move is refused.
pub fn sys_sbrk(task: &mut Task, size: i32) -> (r: isize)
    requires
        old(task).wf(),
    ensures
        final(task).wf(),
        final(task).status == old(task).status,
        final(task).exit_code == old(task).exit_code,
        final(task).syscall_times == old(task).syscall_times,
        final(task).heap_bottom == old(task).heap_bottom,
        final(task).start_time_ms == old(task).start_time_ms,
        final(task).space@ == old(task).space@,
        brk_move_ok(old(task).heap_bottom as int, old(task).program_brk as int, size as int) ==> (r
            == old(task).program_brk as isize && final(task).program_brk == old(task).program_brk
            + size),
        !brk_move_ok(old(task).heap_bottom as int, old(task).program_brk as int, size as int) ==> (r
            == -1 && final(task).program_brk == old(task).program_brk),
{
    let old_brk = task.program_brk;
    if size < 0 {
        let dec = (-(size as i64)) as usize;
        if dec > old_brk - task.heap_bottom {
            return -1;
        }
        task.program_brk = old_brk - dec;
    } else {
        let inc = size as usize;
        if inc > (isize::MAX as usize) - old_brk {
            return -1;
        }
        task.program_brk = old_brk + inc;
    }
    old_brk as isize
}

} // verus!
