use handlevec::VecMutationHandle;

#[test]
fn test_vec_mut_handle_new() {
    let mut v = vec![1, 2, 3];
    let mut index = 0;
    let handle = VecMutationHandle::new(&mut v, &mut index);
    assert!(handle.is_some());
    assert_eq!(handle.unwrap().get(), &1);
}

#[test]
fn test_vec_mut_handle_set() {
    let mut v = vec![1, 2, 3];
    let mut index = 0;
    let mut handle = VecMutationHandle::new(&mut v, &mut index).unwrap();
    handle.set(10);
    assert_eq!(handle.get(), &10);
}

#[test]
fn test_vec_mut_handle_discard() {
    let mut v = vec![1, 2, 3];
    let mut index = 0;
    let handle = VecMutationHandle::new(&mut v, &mut index).unwrap();
    assert_eq!(handle.discard(), 1);
    assert_eq!(v, vec![2, 3]);
}

#[test]
fn test_vec_mut_handle_insert_and_process() {
    let mut v = vec![1, 2, 3];
    let mut index = 0;
    let mut handle = VecMutationHandle::new(&mut v, &mut index).unwrap();
    handle.insert_and_process(10);
    assert_eq!(v, vec![1, 10, 2, 3]);
    assert_eq!(index, 1);
}

#[test]
fn test_vec_mut_handle_skip_forward() {
    let mut v = vec![1, 2, 3];
    let mut index = 0;
    let mut handle = VecMutationHandle::new(&mut v, &mut index).unwrap();
    handle.skip_forward(2);
    assert_eq!(index, 3);
}

#[test]
fn test_vec_mut_handle_peek_forward_slice() {
    let mut v = vec![1, 2, 3];
    let mut index = 0;
    let handle = VecMutationHandle::new(&mut v, &mut index).unwrap();
    assert_eq!(handle.peek_forward_slice(1..), Some(&[2, 3][..]));
    let handle_two = VecMutationHandle::new(&mut v, &mut index).unwrap();
    assert_eq!(handle_two.peek_forward_slice(1..), Some(&[3][..]));
    assert_eq!(handle_two.peek_forward_slice(2), None);
}

#[test]
fn test_vec_mut_handle_peek_forward_slice_mut() {
    let mut v = vec![1, 2, 3];
    let mut index = 0;
    let mut handle = VecMutationHandle::new(&mut v, &mut index).unwrap();
    assert_eq!(handle.peek_forward_slice_mut(1..), Some(&mut [2, 3][..]));
    handle.peek_forward_slice_mut(1..).unwrap()[1] = 70;
    assert_eq!(v[2], 70);
}

#[test]
fn test_vec_mut_handle_insert_and_skip() {
    let mut v = vec![1, 2, 3];
    let mut index = 1;
    let mut handle = VecMutationHandle::new(&mut v, &mut index).unwrap();
    handle.insert_and_skip(10);
    assert_eq!(v, vec![1, 2, 10, 3]);
    assert_eq!(index, 3);
}

#[test]
fn test_mutate_vec_handrolled_complex_break_loop() {
    let mut my_vec = vec![2, 3, 4, 5, 6, 11, 1, 5, 7];

    let mut my_index = 0;

    while let Some(elem) = VecMutationHandle::new(&mut my_vec, &mut my_index) {
        if *elem.get() > 10 {
            elem.stop_iteration();
        } else {
            elem.discard();
        }
    }

    assert_eq!(my_vec, vec![11, 1, 5, 7]);
}

#[test]
fn test_mutate_vec_handrolled_complex_break_loop_with_final_discard() {
    let mut my_vec = vec![2, 3, 4, 5, 6, 11, 1, 5, 7];

    let mut my_index = 0;

    while let Some(mut elem) = VecMutationHandle::new(&mut my_vec, &mut my_index) {
        if *elem.get() > 10 {
            elem.discard_and_stop_iteration();
        } else {
            elem.set(20);
        }
    }

    assert_eq!(my_vec, vec![20, 20, 20, 20, 20, 1, 5, 7]);
}
