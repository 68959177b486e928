use vumeter::shared::{BlackHole, Consumer, RingBuf, Transition};

#[test]
fn test_ringbuf() {
    let mut rb = RingBuf::new(vec![0u8; 4]);
    let inputs = vec![7, 8, 9, 10, 11, 12, 13, 14, 15, 16, 17, 18, 19, 20, 21, 22, 23, 24, 25, 26];
    let write_sizes = [2, 1, 3, 5, 7, 0, 5, 2, 1, 3, 4, 5, 3, 2];
    let read_sizes = [3, 1, 7, 0, 2, 6, 1, 3, 4, 2, 0, 5];
    let mut r_head = 0;
    let mut result: Vec<u8> = vec![];
    for (write_upto, read_upto) in write_sizes.iter().zip(read_sizes.iter()) {
        for _ in 0..*write_upto {
            if r_head == inputs.len() {
                break;
            }
            match rb.push_end(inputs[r_head]) {
                None => break,
                Some(()) => r_head += 1,
            }
        }
        for _ in 0..*read_upto {
            match rb.with_front(Some) {
                None => break,
                Some(val) => result.push(val),
            }
        }
    }
    if inputs != result {
        panic!("not equal")
    }
}

#[test]
fn ring_buffer_counts_space() {
    let mut rb = RingBuf::new(vec![0u32; 3]);
    assert_eq!((rb.len(), rb.space()), (0, 3));
    assert_eq!(rb.push_end(1), Some(()));
    assert_eq!(rb.push_end(2), Some(()));
    assert_eq!(rb.push_end(3), Some(()));
    assert_eq!(rb.push_end(4), None);
    assert_eq!((rb.len(), rb.space()), (3, 0));
    assert_eq!(rb.with_front(|x| if x == 1 { Some(x * 10) } else { None }), Some(10));
    // A refusal by the callee keeps the item.
    assert_eq!(rb.with_front(|_| None::<u32>), None);
    assert_eq!(rb.len(), 2);
    assert_eq!(rb.push_end(4), Some(()));
    let mut out = vec![];
    while let Some(x) = rb.with_front(Some) {
        out.push(x);
    }
    assert_eq!(out, vec![2, 3, 4]);
}

#[test]
fn ring_buffer_without_slots_takes_nothing() {
    let mut rb: RingBuf<u8> = RingBuf::new(vec![]);
    assert_eq!(rb.space(), 0);
    assert_eq!(rb.push_end(1), None);
    assert_eq!(rb.with_front(Some), None);
}

#[test]
fn ring_buffer_takes_a_slice_only_when_it_fits() {
    let mut rb = RingBuf::new(vec![0u8; 5]);
    rb.consume(&[1u8, 2, 3][..]);
    rb.consume(&[4u8, 5, 6][..]);
    assert_eq!(rb.len(), 3);
    rb.consume(&[4u8, 5][..]);
    let mut out = vec![];
    while let Some(x) = rb.with_front(Some) {
        out.push(x);
    }
    assert_eq!(out, vec![1, 2, 3, 4, 5]);
    let mut hole = BlackHole;
    hole.consume(3u8);
}

#[test]
fn transition_counts_down_then_settles() {
    let t = Transition::TransitioningTo { state: 'x', ticks: 2 };
    let t = t.step();
    assert_eq!(t, Transition::TransitioningTo { state: 'x', ticks: 1 });
    let t = t.step().step();
    assert_eq!(t, Transition::In('x'));
    assert_eq!(t.step(), Transition::In('x'));
}
