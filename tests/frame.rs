use jlrs::error::{AllocError, JlrsError};
use jlrs::frame::Frame;

#[test]
fn open_beyond_region_is_stack_overflow() {
    assert!(matches!(Frame::open(16, 17), Err(AllocError::StackOverflow(17, 16))));
    let f = Frame::open(16, 16).unwrap();
    assert_eq!(f.capacity(), 16);
    assert_eq!(f.used(), 0);
    assert_eq!(f.depth(), 1);
}

#[test]
fn rooting_past_capacity_is_frame_overflow() {
    let mut f = Frame::open(4, 3).unwrap();
    assert_eq!(f.root(10).unwrap(), 0);
    assert_eq!(f.root(11).unwrap(), 1);
    assert_eq!(f.root(12).unwrap(), 2);
    for _ in 0..5 {
        assert_eq!(f.root(13), Err(JlrsError::AllocError(AllocError::FrameOverflow(1, 3))));
        assert_eq!(f.used(), 3);
    }
    assert_eq!(f.get(2), Some(12));
    assert_eq!(f.get(3), None);
}

#[test]
fn heavy_slot_use_never_exceeds_capacity() {
    for cap in 0..20usize {
        let mut f = Frame::open(20, cap).unwrap();
        let mut ok = 0;
        for v in 0..50u64 {
            match f.root(v) {
                Ok(_) => ok += 1,
                Err(e) => assert!(matches!(e, JlrsError::AllocError(AllocError::FrameOverflow(1, _)))),
            }
            if v % 7 == 3 {
                let _ = f.reserve(2);
            }
            if v % 11 == 5 && f.depth() > 1 {
                f.close();
            }
            assert!(f.used() <= f.capacity());
        }
        assert!(ok <= 50);
    }
}

#[test]
fn nested_scope_releases_its_slots() {
    let mut f = Frame::open(8, 8).unwrap();
    f.root(1).unwrap();
    f.reserve(3).unwrap();
    assert_eq!(f.depth(), 2);
    assert_eq!(f.room(), 3);
    f.root(2).unwrap();
    f.root(3).unwrap();
    f.root(4).unwrap();
    assert_eq!(f.root(5), Err(JlrsError::AllocError(AllocError::FrameOverflow(1, 3))));
    f.close();
    assert_eq!(f.depth(), 1);
    assert_eq!(f.used(), 1);
    assert_eq!(f.get(0), Some(1));
    assert_eq!(f.get(1), None);
    assert_eq!(f.room(), 7);
}

#[test]
fn reserve_beyond_room_is_stack_overflow() {
    let mut f = Frame::open(8, 4).unwrap();
    f.root(1).unwrap();
    assert_eq!(f.reserve(4), Err(JlrsError::AllocError(AllocError::StackOverflow(4, 3))));
    assert_eq!(f.depth(), 1);
    assert_eq!(f.reserve(3), Ok(()));
}

#[test]
fn no_open_scope_is_an_error() {
    let mut f = Frame::open(2, 2).unwrap();
    f.root(9).unwrap();
    f.close();
    assert_eq!(f.depth(), 0);
    assert_eq!(f.used(), 0);
    assert_eq!(f.root(1), Err(JlrsError::NullFrame));
    assert_eq!(f.reserve(1), Err(JlrsError::NullFrame));
    assert_eq!(f.room(), 0);
}
