//! System call handlers for process management. Each takes the calling
//! task's state and the raw arguments, and returns the value handed back to
//! user space: 0 or a non-negative value on success, -1 on failure.

use vstd::prelude::*;

use crate::addr::{page_ceil, page_of, VirtAddr, PAGE_SIZE};
use crate::memory::{maps_range, range_free, range_mapped, unmaps_range, writes_bytes, MemorySet};
use crate::perm::{decode_port, port_permission, port_valid, write_flag};
use crate::task::{task_info_bytes, time_val_bytes, Task, TaskInfo, TaskStatus, TimeVal};

verus! {

/// Everything of `b` but its memory set is as in `a`.
pub open spec fn same_but_memory(a: Task, b: Task) -> bool {
    &&& b.status == a.status
    &&& b.syscall_times == a.syscall_times
    &&& b.heap_bottom == a.heap_bottom
    &&& b.program_brk == a.program_brk
    &&& b.exit_code == a.exit_code
}

/// First page past the range `[start, start + len)`.
pub open spec fn end_page(start: usize, len: usize) -> nat {
    page_ceil((start + len) as nat)
}

/// When `mmap(start, len, port)` succeeds on memory `m`: `start` is page
/// aligned, `port` is a valid permission request, the range fits in the
/// address space, and every page it covers is free.
pub open spec fn mmap_ok(m: MemorySet, start: usize, len: usize, port: usize) -> bool {
    &&& start % PAGE_SIZE == 0
    &&& port_valid(port)
    &&& start + len <= usize::MAX
    &&& range_free(m, page_of(start as nat), end_page(start, len))
}

/// When `munmap(start, len)` succeeds on memory `m`: `start` is page
/// aligned, the range fits in the address space, and every page it covers is
/// mapped.
pub open spec fn munmap_ok(m: MemorySet, start: usize, len: usize) -> bool {
    &&& start % PAGE_SIZE == 0
    &&& start + len <= usize::MAX
    &&& range_mapped(m, page_of(start as nat), end_page(start, len))
}

/// The task exits with `exit_code`; the scheduler then runs another task and
/// never comes back to this one.
pub fn sys_exit(task: &mut Task, exit_code: i32)
    requires
        old(task).wf(),
    ensures
        final(task).wf(),
        final(task).status == TaskStatus::Exited,
        final(task).exit_code == exit_code,
        final(task).memory_set == old(task).memory_set,
        final(task).syscall_times == old(task).syscall_times,
        final(task).heap_bottom == old(task).heap_bottom,
        final(task).program_brk == old(task).program_brk,
{
    task.status = TaskStatus::Exited;
    task.exit_code = exit_code;
}

/// The task gives up the processor and waits, ready, for its next turn.
pub fn sys_yield(task: &mut Task) -> (r: isize)
    requires
        old(task).wf(),
    ensures
        r == 0,
        final(task).wf(),
        final(task).status == TaskStatus::Ready,
        final(task).exit_code == old(task).exit_code,
        final(task).memory_set == old(task).memory_set,
        final(task).syscall_times == old(task).syscall_times,
        final(task).heap_bottom == old(task).heap_bottom,
        final(task).program_brk == old(task).program_brk,
{
    task.status = TaskStatus::Ready;
    0
}

/// Writes the time `us` microseconds since boot, as a `TimeVal`, to user
/// memory at `ts`. Fails, changing nothing, when some byte of the destination
/// is not in a writable mapped page.
pub fn sys_get_time(task: &mut Task, ts: usize, _tz: usize, us: usize) -> (r: isize)
    requires
        old(task).wf(),
    ensures
        final(task).wf(),
        same_but_memory(*old(task), *final(task)),
        r == 0 || r == -1,
        r == 0 <==> ts + 16 <= usize::MAX && old(task).memory_set.accessible(
            ts as nat,
            16,
            write_flag(),
        ),
        r == 0 ==> writes_bytes(
            old(task).memory_set,
            final(task).memory_set,
            ts as nat,
            time_val_bytes(TimeVal { sec: us / 1_000_000, usec: us % 1_000_000 }),
        ),
        r == -1 ==> final(task).memory_set == old(task).memory_set,
{
    let bytes = TimeVal::from_us(us).to_bytes();
    if ts > usize::MAX - bytes.len() {
        return -1;
    }
    if task.memory_set.copy_out(ts, &bytes) {
        0
    } else {
        -1
    }
}

/// Writes what the task reports of itself, with `time_ms` as its running
/// time, to user memory at `ti`. Fails, changing nothing, when some byte of
/// the destination is not in a writable mapped page.
pub fn sys_task_info(task: &mut Task, ti: usize, time_ms: usize) -> (r: isize)
    requires
        old(task).wf(),
    ensures
        final(task).wf(),
        same_but_memory(*old(task), *final(task)),
        r == 0 || r == -1,
        r == 0 <==> ti + 2016 <= usize::MAX && old(task).memory_set.accessible(
            ti as nat,
            2016,
            write_flag(),
        ),
        r == 0 ==> writes_bytes(
            old(task).memory_set,
            final(task).memory_set,
            ti as nat,
            task_info_bytes(
                TaskInfo {
                    status: old(task).status,
                    syscall_times: old(task).syscall_times,
                    time: time_ms,
                },
            ),
        ),
        r == -1 ==> final(task).memory_set == old(task).memory_set,
{
    let info = TaskInfo { status: task.status, syscall_times: task.syscall_times, time: time_ms };
    let bytes = info.to_bytes();
    if ti > usize::MAX - bytes.len() {
        return -1;
    }
    if task.memory_set.copy_out(ti, &bytes) {
        0
    } else {
        -1
    }
}

/// Maps the pages of `[start, start + len)` with the rights that `port`
/// asks for (bit 0 read, bit 1 write, bit 2 execute; always user), each
/// zero-filled. Fails, changing nothing, unless `mmap_ok` holds.
pub fn sys_mmap(task: &mut Task, start: usize, len: usize, port: usize) -> (r: isize)
    requires
        old(task).wf(),
    ensures
        final(task).wf(),
        same_but_memory(*old(task), *final(task)),
        r == 0 || r == -1,
        r == 0 <==> mmap_ok(old(task).memory_set, start, len, port),
        r == 0 ==> maps_range(
            old(task).memory_set,
            final(task).memory_set,
            page_of(start as nat),
            end_page(start, len),
            port_permission(port),
        ),
        r == -1 ==> final(task).memory_set == old(task).memory_set,
{
    let v_start = VirtAddr(start);
    if !v_start.aligned() {
        return -1;
    }
    let permission = match decode_port(port) {
        Some(p) => p,
        None => {
            return -1;
        },
    };
    if len > usize::MAX - start {
        return -1;
    }
    let v_end = VirtAddr(start + len);
    let start_vpn = v_start.floor();
    let end_vpn = v_end.ceil();
    if !task.memory_set.check_range(start_vpn, end_vpn, false) {
        return -1;
    }
    task.memory_set.map_range(start_vpn, end_vpn, permission);
    0
}

/// Unmaps the pages of `[start, start + len)`. Fails, changing nothing,
/// unless `munmap_ok` holds.
pub fn sys_munmap(task: &mut Task, start: usize, len: usize) -> (r: isize)
    requires
        old(task).wf(),
    ensures
        final(task).wf(),
        same_but_memory(*old(task), *final(task)),
        r == 0 || r == -1,
        r == 0 <==> munmap_ok(old(task).memory_set, start, len),
        r == 0 ==> unmaps_range(
            old(task).memory_set,
            final(task).memory_set,
            page_of(start as nat),
            end_page(start, len),
        ),
        r == -1 ==> final(task).memory_set == old(task).memory_set,
{
    let v_start = VirtAddr(start);
    if !v_start.aligned() {
        return -1;
    }
    if len > usize::MAX - start {
        return -1;
    }
    let v_end = VirtAddr(start + len);
    let start_vpn = v_start.floor();
    let end_vpn = v_end.ceil();
    if !task.memory_set.check_range(start_vpn, end_vpn, true) {
        return -1;
    }
    task.memory_set.unmap_range(start_vpn, end_vpn);
    0
}

/// Moves the end of the data segment by `size` bytes and returns where it
/// was. Fails with -1, changing nothing, when the new end would lie below
/// the heap's base or past the largest returnable value.
pub fn sys_sbrk(task: &mut Task, size: i32) -> (r: isize)
    requires
        old(task).wf(),
    ensures
        final(task).wf(),
        final(task).status == old(task).status,
        final(task).memory_set == old(task).memory_set,
        final(task).syscall_times == old(task).syscall_times,
        final(task).heap_bottom == old(task).heap_bottom,
        final(task).exit_code == old(task).exit_code,
        ({
            let new_brk = old(task).program_brk + size;
            if old(task).heap_bottom <= new_brk <= isize::MAX {
                r == old(task).program_brk && final(task).program_brk == new_brk
            } else {
                r == -1 && final(task).program_brk == old(task).program_brk
            }
        }),
{
    let old_brk = task.program_brk;
    let new_brk: i128 = old_brk as i128 + size as i128;
    if new_brk < task.heap_bottom as i128 || new_brk > isize::MAX as i128 {
        return -1;
    }
    task.program_brk = new_brk as usize;
    old_brk as isize
}

/// A non-empty range starting at an aligned address covers its first page.
proof fn lemma_first_page_covered(start: usize, len: usize)
    requires
        start % PAGE_SIZE == 0,
        len > 0,
        start + len <= usize::MAX,
    ensures
        page_of(start as nat) < end_page(start, len),
        page_of(start as nat) <= usize::MAX,
{
    let p = PAGE_SIZE as int;
    vstd::arithmetic::div_mod::lemma_fundamental_div_mod(start as int, p);
    let k = start as int / p;
    vstd::arithmetic::div_mod::lemma_div_is_ordered(k * p + p, (start + len + p - 1) as int, p);
    assert((k * p + p) / p == k + 1) by {
        vstd::arithmetic::mul::lemma_mul_is_distributive_add_other_way(p, k, 1);
    }
    vstd::arithmetic::div_mod::lemma_div_is_ordered(start as int, usize::MAX as int, p);
}

/// Mapping a free, page-aligned, non-empty range with a valid request
/// succeeds, and the same request on the memory that it leaves fails: a
/// range is never mapped twice.
pub proof fn lemma_mmap_twice_fails(
    before: MemorySet,
    after: MemorySet,
    start: usize,
    len: usize,
    port: usize,
)
    requires
        start % PAGE_SIZE == 0,
        port_valid(port),
        start + len <= usize::MAX,
        len > 0,
        range_free(before, page_of(start as nat), end_page(start, len)),
        maps_range(
            before,
            after,
            page_of(start as nat),
            end_page(start, len),
            port_permission(port),
        ),
    ensures
        mmap_ok(before, start, len, port),
        !mmap_ok(after, start, len, port),
{
    lemma_first_page_covered(start, len);
    let first = page_of(start as nat) as usize;
    assert(after.pages@.contains_key(first));
}

/// Unmapping a mapped, page-aligned, non-empty range succeeds, and the same
/// request on the memory that it leaves fails: a range is unmapped once.
pub proof fn lemma_munmap_twice_fails(before: MemorySet, after: MemorySet, start: usize, len: usize)
    requires
        start % PAGE_SIZE == 0,
        start + len <= usize::MAX,
        len > 0,
        range_mapped(before, page_of(start as nat), end_page(start, len)),
        unmaps_range(before, after, page_of(start as nat), end_page(start, len)),
    ensures
        munmap_ok(before, start, len),
        !munmap_ok(after, start, len),
{
    lemma_first_page_covered(start, len);
    let first = page_of(start as nat) as usize;
    assert(!after.pages@.contains_key(first));
}

} // verus!
