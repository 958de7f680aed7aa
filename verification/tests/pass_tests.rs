use handlevec::{mutate_vec_by_handles, VecMutateByHandles, VecMutationHandle};

#[test]
fn set_only_pass_keeps_the_length_and_replaces_each_element() {
    let mut v = vec![3, 1, 4, 1, 5, 9, 2, 6];
    let mut visits = 0;
    mutate_vec_by_handles(&mut v, |mut handle| {
        visits += 1;
        let doubled = *handle.get() * 2;
        handle.set(doubled);
    });
    assert_eq!(v, vec![6, 2, 8, 2, 10, 18, 4, 12]);
    assert_eq!(visits, 8);
}

#[test]
fn pass_over_an_empty_vector_visits_nothing() {
    let mut v: Vec<i32> = vec![];
    let mut visits = 0;
    mutate_vec_by_handles(&mut v, |handle| {
        visits += 1;
        handle.discard();
    });
    assert!(v.is_empty());
    assert_eq!(visits, 0);
}

#[test]
fn pass_that_does_nothing_visits_each_element_once() {
    let mut v = vec![7, 8, 9];
    let mut seen = vec![];
    v.mutate_vec_by_handles(|handle| {
        seen.push(*handle.get());
    });
    assert_eq!(seen, vec![7, 8, 9]);
    assert_eq!(v, vec![7, 8, 9]);
}

#[test]
fn discarding_every_element_empties_the_vector_in_order() {
    let mut v = vec![5, 3, 8, 3, 1];
    let mut removed = vec![];
    mutate_vec_by_handles(&mut v, |handle| {
        removed.push(handle.discard());
    });
    assert!(v.is_empty());
    assert_eq!(removed, vec![5, 3, 8, 3, 1]);
}

#[test]
fn insert_and_skip_on_every_element_alternates() {
    let mut v = vec![1, 2, 3, 4];
    let mut seen = vec![];
    mutate_vec_by_handles(&mut v, |mut handle| {
        let value = *handle.get();
        seen.push(value);
        handle.insert_and_skip(value * 100);
    });
    assert_eq!(v, vec![1, 100, 2, 200, 3, 300, 4, 400]);
    assert_eq!(v.len(), 8);
    // No inserted element was handed out.
    assert_eq!(seen, vec![1, 2, 3, 4]);
}

#[test]
fn insert_and_process_on_the_first_element_is_visited_next() {
    let mut v = vec![1, 2, 3];
    let mut seen = vec![];
    let mut first = true;
    mutate_vec_by_handles(&mut v, |mut handle| {
        seen.push(*handle.get());
        if first {
            first = false;
            handle.insert_and_process(50);
        }
    });
    assert_eq!(v, vec![1, 50, 2, 3]);
    assert_eq!(seen, vec![1, 50, 2, 3]);
}

#[test]
fn insert_and_process_vec_is_visited_in_order() {
    let mut v = vec![1, 2];
    let mut seen = vec![];
    mutate_vec_by_handles(&mut v, |mut handle| {
        let value = *handle.get();
        seen.push(value);
        if value == 1 {
            handle.insert_and_process_vec(vec![10, 20]);
        }
    });
    assert_eq!(v, vec![1, 10, 20, 2]);
    assert_eq!(seen, vec![1, 10, 20, 2]);
}

#[test]
fn insert_and_skip_vec_is_not_visited() {
    let mut v = vec![1, 2];
    let mut seen = vec![];
    mutate_vec_by_handles(&mut v, |mut handle| {
        let value = *handle.get();
        seen.push(value);
        if value == 1 {
            handle.insert_and_skip_vec(vec![10, 20]);
        }
    });
    assert_eq!(v, vec![1, 10, 20, 2]);
    assert_eq!(seen, vec![1, 2]);
}

#[test]
fn stop_on_the_third_element_visits_three() {
    for len in [3usize, 4, 10, 100] {
        let mut v: Vec<usize> = (0..len).collect();
        let mut visits = 0;
        let mut after_stop = 0;
        mutate_vec_by_handles(&mut v, |handle| {
            visits += 1;
            if visits == 3 {
                handle.stop_iteration();
                // The call returns: what follows it still runs.
                after_stop += 1;
            }
        });
        assert_eq!(visits, 3);
        assert_eq!(after_stop, 1);
        assert_eq!(v, (0..len).collect::<Vec<usize>>());
    }
}

#[test]
fn skip_forward_leaves_elements_unvisited() {
    let mut v = vec![0, 1, 2, 3, 4, 5, 6];
    let mut seen = vec![];
    mutate_vec_by_handles(&mut v, |mut handle| {
        seen.push(*handle.get());
        handle.skip_forward(2);
    });
    assert_eq!(seen, vec![0, 3, 6]);
    assert_eq!(v, vec![0, 1, 2, 3, 4, 5, 6]);
}

#[test]
fn visits_come_in_the_order_of_their_indices() {
    let mut v = vec![4, 9, 2, 7, 7, 1];
    let mut index = 0;
    let mut last = 0;
    let mut steps = 0;
    loop {
        let position = index;
        let Some(mut handle) = VecMutationHandle::new(&mut v, &mut index) else {
            break;
        };
        assert!(position >= last);
        last = position;
        steps += 1;
        match *handle.get() {
            9 => {
                handle.discard();
            }
            2 => handle.insert_and_skip(20),
            7 => handle.set(8),
            _ => {}
        }
    }
    assert_eq!(v, vec![4, 2, 20, 8, 8, 1]);
    assert_eq!(steps, 6);
    assert_eq!(index, 6);
}

#[test]
fn multiply_by_next_or_discard() {
    let mut v = vec![1, 4, 9, 16, 25, 36, 49, 64, 81, 100];
    v.mutate_vec_by_handles(|mut elem| {
        if let Some(n) = elem.peek_forward_slice(1).copied() {
            *elem.get_mut() *= n;
        } else {
            elem.discard();
        }
    });
    assert_eq!(v, vec![4, 36, 144, 400, 900, 1764, 3136, 5184, 8100]);
    assert_eq!(v.len(), 9);

    v.mutate_vec_by_handles(|mut element| {
        if *element.get() == 900 {
            element.insert_and_skip(50);
        }
    });
    assert_eq!(v, vec![4, 36, 144, 400, 900, 50, 1764, 3136, 5184, 8100]);
}
