use os_core::marshal::TaskStatus;
use os_core::syscall::{
    sys_exit, sys_get_time, sys_mmap, sys_munmap, sys_sbrk, sys_task_info, sys_yield, Task,
};

fn read_bytes(task: &Task, va: usize, len: usize) -> Vec<u8> {
    (0..len).map(|i| task.space.read_byte(va + i).unwrap()).collect()
}

fn word(b: &[u8]) -> u64 {
    let mut a = [0u8; 8];
    a.copy_from_slice(&b[..8]);
    u64::from_le_bytes(a)
}

#[test]
fn mmap_munmap_end_to_end() {
    let mut t = Task::new(0x10000, 0);
    assert_eq!(sys_mmap(&mut t, 0x1000, 0x2000, 0b011), 0);
    assert_eq!(sys_mmap(&mut t, 0x1000, 0x2000, 0b011), -1);
    assert_eq!(sys_munmap(&mut t, 0x1000, 0x2000), 0);
    assert_eq!(sys_munmap(&mut t, 0x1000, 0x2000), -1);
}

#[test]
fn mmap_bad_requests_return_minus_one() {
    let mut t = Task::new(0x10000, 0);
    assert_eq!(sys_mmap(&mut t, 0x1000, 0x1000, 0), -1);
    assert_eq!(sys_mmap(&mut t, 0x1000, 0x1000, 8), -1);
    assert_eq!(sys_mmap(&mut t, 0x1001, 0x1000, 1), -1);
    assert_eq!(sys_munmap(&mut t, 0x1001, 0x1000), -1);
}

#[test]
fn get_time_writes_split_counter() {
    let mut t = Task::new(0x10000, 0);
    assert_eq!(sys_mmap(&mut t, 0x1000, 0x1000, 0b011), 0);
    assert_eq!(sys_get_time(&mut t, 0x1000, 0, 3_250_000), 0);
    let b = read_bytes(&t, 0x1000, 16);
    assert_eq!(word(&b[0..8]), 3);
    assert_eq!(word(&b[8..16]), 250_000);
}

#[test]
fn get_time_sequential_non_decreasing() {
    let mut t = Task::new(0x10000, 0);
    assert_eq!(sys_mmap(&mut t, 0x1000, 0x1000, 0b011), 0);
    assert_eq!(sys_get_time(&mut t, 0x1000, 0, 1_999_999), 0);
    let first = read_bytes(&t, 0x1000, 16);
    assert_eq!(sys_get_time(&mut t, 0x1000, 0, 2_000_000), 0);
    let second = read_bytes(&t, 0x1000, 16);
    let a = word(&first[0..8]) * 1_000_000 + word(&first[8..16]);
    let b = word(&second[0..8]) * 1_000_000 + word(&second[8..16]);
    assert!(a <= b);
    assert_eq!((word(&first[0..8]), word(&first[8..16])), (1, 999_999));
    assert_eq!((word(&second[0..8]), word(&second[8..16])), (2, 0));
}

#[test]
fn get_time_straddling_matches_single_page() {
    let mut t = Task::new(0x10000, 0);
    assert_eq!(sys_mmap(&mut t, 0x1000, 0x2000, 0b011), 0);
    assert_eq!(sys_get_time(&mut t, 0x2000 - 4, 0, 7_000_042), 0);
    assert_eq!(sys_get_time(&mut t, 0x1100, 0, 7_000_042), 0);
    assert_eq!(read_bytes(&t, 0x2000 - 4, 16), read_bytes(&t, 0x1100, 16));
    assert_eq!(word(&read_bytes(&t, 0x2000 - 4, 16)[0..8]), 7);
}

#[test]
fn get_time_bad_pointer_fails() {
    let mut t = Task::new(0x10000, 0);
    assert_eq!(sys_get_time(&mut t, 0x1000, 0, 5), -1);
    assert_eq!(sys_mmap(&mut t, 0x1000, 0x1000, 0b001), 0);
    assert_eq!(sys_get_time(&mut t, 0x1000, 0, 5), -1);
    assert_eq!(t.space.read_byte(0x1000), Some(0));
    assert_eq!(sys_mmap(&mut t, 0x3000, 0x1000, 0b011), 0);
    assert_eq!(sys_get_time(&mut t, 0x4000 - 4, 0, 5), -1);
    assert_eq!(sys_get_time(&mut t, usize::MAX - 3, 0, 5), -1);
}

#[test]
fn task_info_reports_counts_and_time() {
    let mut t = Task::new(0x10000, 100);
    t.count_syscall(169);
    t.count_syscall(169);
    t.count_syscall(64);
    t.count_syscall(10_000);
    assert_eq!(sys_mmap(&mut t, 0x1000, 0x1000, 0b011), 0);
    assert_eq!(sys_task_info(&mut t, 0x1000, 350), 0);
    let b = read_bytes(&t, 0x1000, 2016);
    assert_eq!(u32::from_le_bytes([b[0], b[1], b[2], b[3]]), 2);
    let count = |id: usize| u32::from_le_bytes([b[4 + 4 * id], b[5 + 4 * id], b[6 + 4 * id], b[7 + 4 * id]]);
    assert_eq!(count(169), 2);
    assert_eq!(count(64), 1);
    assert_eq!(count(0), 0);
    assert_eq!(word(&b[2008..2016]), 250);
}

#[test]
fn task_info_spanning_pages() {
    let mut t = Task::new(0x10000, 0);
    assert_eq!(sys_mmap(&mut t, 0x1000, 0x2000, 0b011), 0);
    assert_eq!(sys_task_info(&mut t, 0x1f00, 9), 0);
    let b = read_bytes(&t, 0x1f00, 2016);
    assert_eq!(word(&b[2008..2016]), 9);
    assert_eq!(sys_task_info(&mut t, 0x2a00, 9), -1);
}

#[test]
fn sbrk_moves_break() {
    let mut t = Task::new(0x10000, 0);
    assert_eq!(sys_sbrk(&mut t, 0x100), 0x10000);
    assert_eq!(t.program_brk, 0x10100);
    assert_eq!(sys_sbrk(&mut t, -0x80), 0x10100);
    assert_eq!(t.program_brk, 0x10080);
    assert_eq!(sys_sbrk(&mut t, -0x81), -1);
    assert_eq!(t.program_brk, 0x10080);
    assert_eq!(sys_sbrk(&mut t, 0), 0x10080);
}

#[test]
fn sbrk_refuses_break_beyond_signed_word() {
    let mut t = Task::new(isize::MAX as usize - 4, 0);
    assert_eq!(sys_sbrk(&mut t, 5), -1);
    assert_eq!(sys_sbrk(&mut t, 4), isize::MAX - 4);
    assert_eq!(t.program_brk, isize::MAX as usize);
    assert_eq!(sys_sbrk(&mut t, i32::MIN), -1);
}

#[test]
fn yield_and_exit() {
    let mut t = Task::new(0x10000, 0);
    assert_eq!(t.status, TaskStatus::Running);
    assert_eq!(sys_yield(&mut t), 0);
    assert_eq!(t.status, TaskStatus::Ready);
    sys_exit(&mut t, 7);
    assert_eq!(t.status, TaskStatus::Exited);
    assert_eq!(t.exit_code, Some(7));
}
