use process_syscalls::addr::{VirtAddr, PAGE_SIZE};
use process_syscalls::perm::{decode_port, MapPermission};
use process_syscalls::syscall::{
    sys_exit, sys_get_time, sys_mmap, sys_munmap, sys_sbrk, sys_task_info, sys_yield,
};
use process_syscalls::task::{Task, TaskInfo, TaskStatus, TimeVal, MAX_SYSCALL_NUM};

fn task() -> Task {
    Task::new(0x10000)
}

#[test]
fn aligned_matches_page_multiple() {
    for a in [0usize, 1, 0xfff, 0x1000, 0x1001, 0x2000, usize::MAX] {
        assert_eq!(VirtAddr(a).aligned(), a % PAGE_SIZE == 0);
    }
}

#[test]
fn page_numbers_round_down_and_up() {
    assert_eq!(VirtAddr(0x1fff).floor(), 1);
    assert_eq!(VirtAddr(0x1fff).ceil(), 2);
    assert_eq!(VirtAddr(0x2000).floor(), 2);
    assert_eq!(VirtAddr(0x2000).ceil(), 2);
    assert_eq!(VirtAddr(0x2001).page_offset(), 1);
}

#[test]
fn decode_port_bits() {
    assert_eq!(decode_port(0), None);
    assert_eq!(decode_port(8), None);
    assert_eq!(decode_port(0x9), None);
    let rw = decode_port(3).unwrap();
    assert_eq!(
        rw,
        MapPermission { user: true, read: true, write: true, execute: false }
    );
    let x = decode_port(4).unwrap();
    assert_eq!(
        x,
        MapPermission { user: true, read: false, write: false, execute: true }
    );
}

#[test]
fn mmap_then_munmap_twice() {
    let mut t = task();
    assert_eq!(sys_mmap(&mut t, 0x1000, 0x2000, 0x3), 0);
    assert!(t.memory_set.is_mapped(1));
    assert!(t.memory_set.is_mapped(2));
    assert!(!t.memory_set.is_mapped(3));
    assert_eq!(sys_munmap(&mut t, 0x1000, 0x2000), 0);
    assert_eq!(sys_munmap(&mut t, 0x1000, 0x2000), -1);
    assert!(!t.memory_set.is_mapped(1));
}

#[test]
fn mmap_misaligned_start_fails() {
    let mut t = task();
    assert_eq!(sys_mmap(&mut t, 0x1001, 0x1000, 0x1), -1);
    assert!(!t.memory_set.is_mapped(1));
}

#[test]
fn mmap_without_permission_bits_fails() {
    let mut t = task();
    assert_eq!(sys_mmap(&mut t, 0x2000, 0x1000, 0x0), -1);
    assert!(!t.memory_set.is_mapped(2));
}

#[test]
fn mmap_with_extra_bits_fails() {
    let mut t = task();
    assert_eq!(sys_mmap(&mut t, 0x2000, 0x1000, 0x9), -1);
    assert_eq!(sys_mmap(&mut t, 0x2000, 0x1000, 0x7), 0);
}

#[test]
fn mmap_twice_on_same_range_fails() {
    let mut t = task();
    assert_eq!(sys_mmap(&mut t, 0x4000, 0x1800, 0x1), 0);
    assert!(t.memory_set.is_mapped(4));
    assert!(t.memory_set.is_mapped(5));
    assert_eq!(sys_mmap(&mut t, 0x4000, 0x1800, 0x1), -1);
    assert_eq!(sys_mmap(&mut t, 0x5000, 0x1000, 0x1), -1);
    assert_eq!(sys_mmap(&mut t, 0x6000, 0x1000, 0x1), 0);
}

#[test]
fn mmap_overflowing_range_fails() {
    let mut t = task();
    assert_eq!(sys_mmap(&mut t, 0x1000, usize::MAX, 0x1), -1);
}

#[test]
fn munmap_partly_mapped_range_fails() {
    let mut t = task();
    assert_eq!(sys_mmap(&mut t, 0x1000, 0x1000, 0x3), 0);
    assert_eq!(sys_munmap(&mut t, 0x1000, 0x2000), -1);
    assert!(t.memory_set.is_mapped(1));
    assert_eq!(sys_munmap(&mut t, 0x1001, 0x1000), -1);
}

#[test]
fn copy_round_trip_across_pages() {
    let mut t = task();
    assert_eq!(sys_mmap(&mut t, 0x1000, 0x2000, 0x3), 0);
    let data: Vec<u8> = (0u8..32).collect();
    assert!(t.memory_set.copy_out(0x1ff0, &data));
    assert_eq!(t.memory_set.copy_in(0x1ff0, 32), Some(data.clone()));
    assert!(t.memory_set.copy_out(0x1100, &data));
    assert_eq!(t.memory_set.copy_in(0x1100, 32), Some(data));
    assert_eq!(t.memory_set.copy_in(0x1fff, 1), Some(vec![15u8]));
    assert_eq!(t.memory_set.copy_in(0x2000, 1), Some(vec![16u8]));
}

#[test]
fn copy_needs_rights_and_mapping() {
    let mut t = task();
    assert_eq!(sys_mmap(&mut t, 0x1000, 0x1000, 0x1), 0);
    assert!(!t.memory_set.copy_out(0x1000, &vec![1u8]));
    assert_eq!(t.memory_set.copy_in(0x1ff0, 32), None);
    assert_eq!(t.memory_set.copy_in(0x1000, 2), Some(vec![0u8, 0u8]));
}

#[test]
fn translate_splits_at_page_boundary() {
    let mut t = task();
    assert_eq!(sys_mmap(&mut t, 0x1000, 0x2000, 0x3), 0);
    let ws = t.memory_set.translate(0x1ff8, 16, MapPermission::r()).unwrap();
    assert_eq!(ws.len(), 2);
    assert_eq!((ws[0].vpn, ws[0].offset, ws[0].len), (1, 0xff8, 8));
    assert_eq!((ws[1].vpn, ws[1].offset, ws[1].len), (2, 0, 8));
}

#[test]
fn time_val_from_us_splits() {
    let t = TimeVal::from_us(3_000_123);
    assert_eq!(t, TimeVal { sec: 3, usec: 123 });
    let a = TimeVal::from_us(999_999);
    let b = TimeVal::from_us(1_000_000);
    assert!(a.sec * 1_000_000 + a.usec <= b.sec * 1_000_000 + b.usec);
}

#[test]
fn get_time_writes_across_pages() {
    let mut t = task();
    assert_eq!(sys_mmap(&mut t, 0x1000, 0x2000, 0x3), 0);
    assert_eq!(sys_get_time(&mut t, 0x1ff8, 0, 2_500_000), 0);
    let bytes = t.memory_set.copy_in(0x1ff8, 16).unwrap();
    let mut expected = vec![0u8; 16];
    expected[0] = 2;
    expected[8..12].copy_from_slice(&500_000u32.to_le_bytes());
    assert_eq!(bytes, expected);
    assert_eq!(
        bytes,
        TimeVal { sec: 2, usec: 500_000 }.to_bytes()
    );
}

#[test]
fn get_time_to_unmapped_memory_fails() {
    let mut t = task();
    assert_eq!(sys_mmap(&mut t, 0x1000, 0x1000, 0x3), 0);
    assert_eq!(sys_get_time(&mut t, 0x1ff8, 0, 7), -1);
    assert_eq!(t.memory_set.copy_in(0x1ff8, 8), Some(vec![0u8; 8]));
    assert_eq!(t.memory_set.copy_in(0x1ff8, 16), None);
}

#[test]
fn task_info_layout() {
    let mut times = [0u32; MAX_SYSCALL_NUM];
    times[0] = 0x01020304;
    times[MAX_SYSCALL_NUM - 1] = 7;
    let info = TaskInfo { status: TaskStatus::Running, syscall_times: times, time: 0x0a0b };
    let b = info.to_bytes();
    assert_eq!(b.len(), 2016);
    assert_eq!(&b[0..8], &[2u8, 0, 0, 0, 4, 3, 2, 1]);
    assert_eq!(&b[2000..2008], &[7u8, 0, 0, 0, 0, 0, 0, 0]);
    assert_eq!(&b[2008..2016], &[0x0bu8, 0x0a, 0, 0, 0, 0, 0, 0]);
}

#[test]
fn task_info_copies_counters() {
    let mut t = task();
    t.syscall_times[64] = 5;
    assert_eq!(sys_mmap(&mut t, 0x1000, 0x2000, 0x3), 0);
    assert_eq!(sys_task_info(&mut t, 0x1800, 42), 0);
    let bytes = t.memory_set.copy_in(0x1800, 2016).unwrap();
    assert_eq!(bytes[0], 2);
    assert_eq!(&bytes[4 + 64 * 4..4 + 65 * 4], &[5u8, 0, 0, 0]);
    assert_eq!(bytes[2008], 42);
    assert_eq!(sys_task_info(&mut t, 0x2900, 42), -1);
}

#[test]
fn sbrk_moves_boundary() {
    let mut t = task();
    assert_eq!(sys_sbrk(&mut t, 0x100), 0x10000);
    assert_eq!(t.program_brk, 0x10100);
    assert_eq!(sys_sbrk(&mut t, -0x100), 0x10100);
    assert_eq!(sys_sbrk(&mut t, -1), -1);
    assert_eq!(t.program_brk, 0x10000);
}

#[test]
fn yield_and_exit_change_status() {
    let mut t = task();
    assert_eq!(sys_yield(&mut t), 0);
    assert_eq!(t.status, TaskStatus::Ready);
    sys_exit(&mut t, 3);
    assert_eq!(t.status, TaskStatus::Exited);
    assert_eq!(t.exit_code, 3);
}

#[test]
fn sbrk_past_largest_return_value_fails() {
    let mut t = Task::new(isize::MAX as usize);
    assert_eq!(sys_sbrk(&mut t, 1), -1);
    assert_eq!(t.program_brk, isize::MAX as usize);
    assert_eq!(sys_sbrk(&mut t, 0), isize::MAX);
}

#[test]
fn task_info_bytes_same_across_page_boundary() {
    let mut t = task();
    t.syscall_times[93] = 2;
    assert_eq!(sys_mmap(&mut t, 0x1000, 0x3000, 0x3), 0);
    assert_eq!(sys_task_info(&mut t, 0x1000, 9), 0);
    assert_eq!(sys_task_info(&mut t, 0x2c00, 9), 0);
    let inside = t.memory_set.copy_in(0x1000, 2016).unwrap();
    let across = t.memory_set.copy_in(0x2c00, 2016).unwrap();
    assert_eq!(inside, across);
}
