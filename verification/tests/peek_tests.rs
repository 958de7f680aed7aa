use handlevec::VecMutationHandle;

#[test]
fn peek_single_offsets() {
    let mut v = vec![10, 20, 30, 40];
    let mut index = 1;
    let handle = VecMutationHandle::new(&mut v, &mut index).unwrap();
    assert_eq!(handle.peek_forward_slice(0), Some(&20));
    assert_eq!(handle.peek_forward_slice(1), Some(&30));
    assert_eq!(handle.peek_forward_slice(2), Some(&40));
    assert_eq!(handle.peek_forward_slice(3), None);
    assert_eq!(handle.peek_forward_slice(usize::MAX), None);
}

#[test]
fn peek_ranges_count_from_the_handle() {
    let mut v = vec![10, 20, 30, 40];
    let mut index = 1;
    let handle = VecMutationHandle::new(&mut v, &mut index).unwrap();
    assert_eq!(handle.peek_forward_slice(0..2), Some(&[20, 30][..]));
    assert_eq!(handle.peek_forward_slice(1..3), Some(&[30, 40][..]));
    assert_eq!(handle.peek_forward_slice(0..), Some(&[20, 30, 40][..]));
    assert_eq!(handle.peek_forward_slice(..2), Some(&[20, 30][..]));
    assert_eq!(handle.peek_forward_slice(..), Some(&[20, 30, 40][..]));
    assert_eq!(handle.peek_forward_slice(..=1), Some(&[20, 30][..]));
}

#[test]
fn peek_empty_ranges() {
    let mut v = vec![10, 20, 30];
    let mut index = 0;
    let handle = VecMutationHandle::new(&mut v, &mut index).unwrap();
    let nothing: &[i32] = &[];
    assert_eq!(handle.peek_forward_slice(1..1), Some(nothing));
    assert_eq!(handle.peek_forward_slice(3..3), Some(nothing));
    assert_eq!(handle.peek_forward_slice(3..), Some(nothing));
    assert_eq!(handle.peek_forward_slice(..0), Some(nothing));
}

#[test]
fn peek_ranges_out_of_bounds() {
    let mut v = vec![10, 20, 30];
    let mut index = 1;
    let handle = VecMutationHandle::new(&mut v, &mut index).unwrap();
    // Two elements are left from the handle on.
    assert_eq!(handle.peek_forward_slice(0..3), None);
    assert_eq!(handle.peek_forward_slice(3..), None);
    assert_eq!(handle.peek_forward_slice(..3), None);
    assert_eq!(handle.peek_forward_slice(..=2), None);
    assert_eq!(handle.peek_forward_slice(..=usize::MAX), None);
    assert_eq!(handle.peek_forward_slice(2..1), None);
}

#[test]
fn peek_mut_single_offset_writes_in_place() {
    let mut v = vec![1, 2, 3, 4];
    let mut index = 1;
    let mut handle = VecMutationHandle::new(&mut v, &mut index).unwrap();
    *handle.peek_forward_slice_mut(0).unwrap() = 20;
    *handle.peek_forward_slice_mut(2).unwrap() = 40;
    assert!(handle.peek_forward_slice_mut(3).is_none());
    assert_eq!(v, vec![1, 20, 3, 40]);
    assert_eq!(index, 2);
}

#[test]
fn peek_mut_range_writes_only_the_peeked_part() {
    let mut v = vec![1, 2, 3, 4, 5];
    let mut index = 1;
    let mut handle = VecMutationHandle::new(&mut v, &mut index).unwrap();
    {
        let part = handle.peek_forward_slice_mut(1..3).unwrap();
        assert_eq!(part, &mut [3, 4][..]);
        part[0] = 30;
        part[1] = 40;
    }
    assert_eq!(handle.get(), &2);
    assert_eq!(v, vec![1, 2, 30, 40, 5]);
    assert_eq!(index, 2);
}

#[test]
fn peek_mut_other_ranges() {
    let mut v = vec![1, 2, 3, 4];
    let mut index = 1;
    let mut handle = VecMutationHandle::new(&mut v, &mut index).unwrap();
    handle.peek_forward_slice_mut(..2).unwrap()[1] = 30;
    handle.peek_forward_slice_mut(..).unwrap()[2] = 40;
    handle.peek_forward_slice_mut(..=0).unwrap()[0] = 20;
    handle.peek_forward_slice_mut(2..).unwrap()[0] += 1;
    assert!(handle.peek_forward_slice_mut(4..).is_none());
    assert!(handle.peek_forward_slice_mut(..4).is_none());
    assert!(handle.peek_forward_slice_mut(0..4).is_none());
    assert!(handle.peek_forward_slice_mut(..=3).is_none());
    assert_eq!(v, vec![1, 20, 30, 41]);
}
