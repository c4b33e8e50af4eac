use std::cell::Cell;
use std::rc::Rc;

use winmon::v2_safe_abstraction::RingBuffer;

#[derive(Debug)]
struct Bomb {
    counter: Rc<Cell<usize>>,
}

impl Drop for Bomb {
    fn drop(&mut self) {
        self.counter.set(self.counter.get() + 1);
    }
}

#[test]
fn fill_until_full_then_reject() {
    let mut rb = RingBuffer::with_capacity(3);
    assert!(rb.is_empty());
    assert_eq!(rb.push_back(10), Ok(()));
    assert_eq!(rb.push_back(20), Ok(()));
    assert_eq!(rb.push_back(30), Ok(()));
    assert!(rb.is_full());
    assert_eq!(rb.len(), 3);
    assert_eq!(rb.push_back(40), Err(40));
    assert_eq!(rb.front(), Some(&10));
    assert_eq!(rb.pop_front(), Some(10));
    assert_eq!(rb.pop_front(), Some(20));
    assert_eq!(rb.pop_front(), Some(30));
}

#[test]
fn drain_empty_returns_none() {
    let mut rb: RingBuffer<i32> = RingBuffer::with_capacity(2);
    assert_eq!(rb.front(), None);
    assert_eq!(rb.pop_front(), None);
    rb.push_back(1).unwrap();
    assert_eq!(rb.pop_front(), Some(1));
    assert_eq!(rb.pop_front(), None);
    assert_eq!(rb.pop_front(), None);
}

#[test]
fn wrap_around_preserves_fifo_order() {
    let mut rb = RingBuffer::with_capacity(3);
    rb.push_back(1).unwrap();
    rb.push_back(2).unwrap();
    assert_eq!(rb.pop_front(), Some(1));
    rb.push_back(3).unwrap();
    rb.push_back(4).unwrap();
    assert!(rb.is_full());
    assert_eq!(rb.pop_front(), Some(2));
    assert_eq!(rb.pop_front(), Some(3));
    assert_eq!(rb.pop_front(), Some(4));
    assert_eq!(rb.pop_front(), None);
}

#[test]
fn drop_runs_exactly_once_per_live_element() {
    let counter = Rc::new(Cell::new(0usize));
    {
        let mut rb = RingBuffer::with_capacity(4);
        for _ in 0..3 {
            rb.push_back(Bomb {
                counter: Rc::clone(&counter),
            })
            .unwrap();
        }
        drop(rb.pop_front());
        assert_eq!(counter.get(), 1, "pop 出来的元素应恰好析构一次");
    }
    assert_eq!(counter.get(), 3, "应恰好析构 3 次：无泄漏、无重复析构");
}

#[test]
fn drop_after_wrap_does_not_leak() {
    let counter = Rc::new(Cell::new(0usize));
    {
        let mut rb = RingBuffer::with_capacity(3);
        rb.push_back(Bomb {
            counter: Rc::clone(&counter),
        })
        .unwrap();
        rb.push_back(Bomb {
            counter: Rc::clone(&counter),
        })
        .unwrap();
        drop(rb.pop_front());
        rb.push_back(Bomb {
            counter: Rc::clone(&counter),
        })
        .unwrap();
        rb.push_back(Bomb {
            counter: Rc::clone(&counter),
        })
        .unwrap();
        assert_eq!(counter.get(), 1);
    }
    assert_eq!(counter.get(), 4, "回绕状态下 Drop 仍应精确析构每个活元素");
}

#[test]
fn clear_drops_all_and_resets() {
    let counter = Rc::new(Cell::new(0usize));
    let mut rb = RingBuffer::with_capacity(4);
    for _ in 0..3 {
        rb.push_back(Bomb {
            counter: Rc::clone(&counter),
        })
        .unwrap();
    }
    rb.clear();
    assert!(rb.is_empty());
    assert_eq!(counter.get(), 3, "clear 应析构全部在队元素");
    rb.push_back(Bomb {
        counter: Rc::clone(&counter),
    })
    .unwrap();
    assert_eq!(rb.len(), 1);
    drop(rb);
    assert_eq!(counter.get(), 4);
}

#[test]
fn capacity_one_push_pop_roundtrip() {
    let mut rb = RingBuffer::with_capacity(1);
    assert!(rb.is_empty());
    rb.push_back(1).unwrap();
    assert!(rb.is_full());
    assert_eq!(rb.push_back(2), Err(2));
    assert_eq!(rb.pop_front(), Some(1));
    assert!(rb.is_empty());
    for i in 10..15 {
        rb.push_back(i).unwrap();
        assert_eq!(rb.front(), Some(&i));
        assert_eq!(rb.pop_front(), Some(i));
        assert_eq!(rb.pop_front(), None);
    }
}

#[test]
fn capacity_one_drop_is_exact() {
    let counter = Rc::new(Cell::new(0usize));
    {
        let mut rb = RingBuffer::with_capacity(1);
        rb.push_back(Bomb {
            counter: Rc::clone(&counter),
        })
        .unwrap();
        drop(rb.pop_front());
        assert_eq!(counter.get(), 1);
        rb.push_back(Bomb {
            counter: Rc::clone(&counter),
        })
        .unwrap();
    }
    assert_eq!(counter.get(), 2, "共 2 个元素，各恰好析构一次");
}

#[test]
fn zero_capacity_is_always_full_and_empty() {
    let mut rb: RingBuffer<i32> = RingBuffer::with_capacity(0);
    assert!(rb.is_empty());
    assert!(rb.is_full());
    assert_eq!(rb.push_back(1), Err(1));
    assert_eq!(rb.pop_front(), None);
    assert_eq!(rb.front(), None);
}

#[test]
fn capacity_is_what_was_asked() {
    let rb: RingBuffer<u8> = RingBuffer::with_capacity(5);
    assert_eq!(rb.capacity(), 5);
    assert_eq!(rb.len(), 0);
}
