use chat::domain::circle_buffer::CircleBuffer;

fn collect(buffer: &CircleBuffer<i32>) -> Vec<i32> {
    let mut arr = Vec::<i32>::new();
    let mut it = buffer.iter();
    while let Some(item) = it.next() {
        arr.push(item.to_owned());
    }
    arr
}

#[test]
fn push_part() {
    let mut buffer = CircleBuffer::<i32>::with_capacity(10);

    for i in 0..5 {
        buffer.push(i)
    }

    let expected = vec![0, 1, 2, 3, 4];
    assert_eq!(*buffer.buffer(), expected)
}

#[test]
fn push_full() {
    let mut buffer = CircleBuffer::<i32>::with_capacity(5);

    for i in 0..5 {
        buffer.push(i)
    }

    let expected = vec![0, 1, 2, 3, 4];
    assert_eq!(*buffer.buffer(), expected)
}

#[test]
fn push_overflow() {
    let mut buffer = CircleBuffer::<i32>::with_capacity(5);

    for i in 0..7 {
        buffer.push(i)
    }

    let expected = vec![5, 6, 2, 3, 4];
    assert_eq!(*buffer.buffer(), expected)
}

#[test]
fn iner_part_push() {
    let mut buffer = CircleBuffer::<i32>::with_capacity(10);

    for i in 0..5 {
        buffer.push(i)
    }

    let arr = collect(&buffer);

    let expected = vec![0, 1, 2, 3, 4];
    assert_eq!(arr, expected)
}

#[test]
fn iter_full_push() {
    let mut buffer = CircleBuffer::<i32>::with_capacity(5);

    for i in 0..5 {
        buffer.push(i)
    }

    let arr = collect(&buffer);

    let expected = vec![0, 1, 2, 3, 4];
    assert_eq!(arr, expected)
}

#[test]
fn iter_overflow_push() {
    let mut buffer = CircleBuffer::<i32>::with_capacity(5);

    for i in 0..7 {
        buffer.push(i)
    }

    let arr = collect(&buffer);

    let expected = vec![2, 3, 4, 5, 6];
    assert_eq!(arr, expected)
}

#[test]
fn iter_empty_buffer_yields_nothing() {
    let buffer = CircleBuffer::<i32>::with_capacity(3);
    let mut it = buffer.iter();
    assert_eq!(it.next(), None);
    assert_eq!(it.next(), None);
    assert_eq!(*buffer.buffer(), Vec::<i32>::new());
}

#[test]
fn iter_after_exhaustion_stays_none() {
    let mut buffer = CircleBuffer::<i32>::with_capacity(2);
    buffer.push(1);
    buffer.push(2);
    buffer.push(3);
    let mut it = buffer.iter();
    assert_eq!(it.next(), Some(&2));
    assert_eq!(it.next(), Some(&3));
    assert_eq!(it.next(), None);
    assert_eq!(it.next(), None);
}

#[test]
fn keeps_latest_after_many_wraps() {
    // law: the buffer keeps exactly the last `capacity` items pushed
    let mut buffer = CircleBuffer::<i32>::with_capacity(3);
    for i in 0..11 {
        buffer.push(i);
    }
    assert_eq!(collect(&buffer), vec![8, 9, 10]);
    assert_eq!(*buffer.buffer(), vec![9, 10, 8]);
}

#[test]
fn capacity_one_keeps_last() {
    let mut buffer = CircleBuffer::<i32>::with_capacity(1);
    buffer.push(7);
    buffer.push(8);
    assert_eq!(collect(&buffer), vec![8]);
    assert_eq!(*buffer.buffer(), vec![8]);
}

#[test]
fn push_all_keeps_latest() {
    let mut buffer = CircleBuffer::<i32>::with_capacity(4);
    buffer.push(100);
    buffer.push_all(vec![1, 2, 3, 4, 5]);
    assert_eq!(collect(&buffer), vec![2, 3, 4, 5]);
}

#[test]
fn push_all_empty_changes_nothing() {
    let mut buffer = CircleBuffer::<i32>::with_capacity(4);
    buffer.push(1);
    buffer.push_all(Vec::new());
    assert_eq!(collect(&buffer), vec![1]);
}
