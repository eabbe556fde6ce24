use os_core::marshal::{TaskInfo, TaskStatus, TimeVal};

#[test]
fn time_val_split() {
    assert_eq!(TimeVal::from_micros(0), TimeVal { sec: 0, usec: 0 });
    assert_eq!(TimeVal::from_micros(999_999), TimeVal { sec: 0, usec: 999_999 });
    assert_eq!(TimeVal::from_micros(12_345_678), TimeVal { sec: 12, usec: 345_678 });
}

#[test]
fn time_val_image() {
    let b = TimeVal { sec: 0x0102, usec: 0x0a0b0c }.to_bytes();
    assert_eq!(b, vec![2, 1, 0, 0, 0, 0, 0, 0, 0x0c, 0x0b, 0x0a, 0, 0, 0, 0, 0]);
}

#[test]
fn task_info_image_layout() {
    let mut times = vec![0u32; 500];
    times[1] = 0x01020304;
    let info = TaskInfo { status: TaskStatus::Exited, syscall_times: times, time: 0x55 };
    let b = info.to_bytes();
    assert_eq!(b.len(), 2016);
    assert_eq!(&b[0..4], &[3, 0, 0, 0]);
    assert_eq!(&b[8..12], &[4, 3, 2, 1]);
    assert_eq!(&b[2004..2008], &[0, 0, 0, 0]);
    assert_eq!(b[2008], 0x55);
}

#[test]
fn status_tags() {
    assert_eq!(TaskStatus::UnInit.tag(), 0);
    assert_eq!(TaskStatus::Ready.tag(), 1);
    assert_eq!(TaskStatus::Running.tag(), 2);
    assert_eq!(TaskStatus::Exited.tag(), 3);
}
