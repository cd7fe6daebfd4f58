use fountain::utils::{position_after, position_before};

#[test]
fn test_position_before() {
    let v: Vec<_> = (0..10).collect();
    assert_eq!(Some(3), position_before(&v, 5, |x| x % 2 == 1));
}

#[test]
fn test_position_after() {
    let v: Vec<_> = (0..10).collect();
    assert_eq!(Some(8), position_after(&v, 6, |x| x % 2 == 0));
}

#[test]
fn positions_at_the_edges() {
    let v: Vec<i32> = vec![1, 2, 3];
    assert_eq!(None, position_before(&v, 0, |_| true));
    assert_eq!(None, position_after(&v, 2, |_| true));
    assert_eq!(None, position_after(&v, usize::MAX, |_| true));
    assert_eq!(Some(0), position_before(&v, 3, |x| *x == 1));
    assert_eq!(None, position_after(&v, 0, |x| *x == 1));
}
