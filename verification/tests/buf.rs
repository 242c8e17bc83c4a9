use zerotier_utils::buf::{Buf, Pool, PoolState};

fn release_all(p: &mut Pool, buffers: &mut Vec<Buf>) {
    for b in buffers.drain(..) {
        p.release(b);
    }
}

#[test]
fn alloc_free() {
    let mut p = Pool::new(1024, 1024);
    assert_eq!(p.pool_remaining(), 1024);
    let mut buffers = Vec::new();
    for _ in 0..512 {
        buffers.push(p.get());
    }
    assert_eq!(p.pool_remaining(), 512);
    for _ in 0..512 {
        buffers.push(Buf::new(1024));
    }
    let bytes = [0x1; 1024];
    for b in buffers.iter_mut() {
        assert!(b.append(&bytes));
    }
    assert_eq!(p.pool_remaining(), 512);
    release_all(&mut p, &mut buffers);
    assert_eq!(p.pool_remaining(), 1024);
    for _ in 0..2048 {
        buffers.push(p.get());
    }
    assert_eq!(p.pool_remaining(), 0);
    for b in buffers.iter_mut() {
        assert!(b.append(&bytes));
    }
    release_all(&mut p, &mut buffers);
    assert_eq!(p.pool_remaining(), 1024);
}

#[test]
fn new_buffer_is_empty_and_standalone() {
    let b = Buf::new(64);
    assert_eq!(b.len(), 0);
    assert!(b.is_empty());
    assert_eq!(b.capacity(), 64);
    assert!(!b.is_pooled());
    assert_eq!(b.as_slice(), &[] as &[u8]);
    assert_eq!(Buf::MAX_CAPACITY, 0x7fffffff);
}

#[test]
fn append_extends_content() {
    let mut b = Buf::new(8);
    assert!(b.append(&[1, 2, 3]));
    assert!(b.append(&[4, 5]));
    assert_eq!(b.as_slice(), &[1, 2, 3, 4, 5]);
    assert_eq!(b.len(), 5);
    assert!(b.append(&[6, 7, 8]));
    assert_eq!(b.as_slice(), &[1, 2, 3, 4, 5, 6, 7, 8]);
    assert!(b.append(&[]));
    assert_eq!(b.len(), 8);
}

#[test]
fn append_that_does_not_fit_changes_nothing() {
    let mut b = Buf::new(8);
    assert!(b.append(&[1, 2, 3, 4, 5]));
    assert!(!b.append(&[6, 7, 8, 9]));
    assert_eq!(b.as_slice(), &[1, 2, 3, 4, 5]);
    assert_eq!(b.len(), 5);
    assert_eq!(b.capacity(), 8);
}

#[test]
fn repeat_appends_copies() {
    let mut b = Buf::new(8);
    assert!(b.append(&[9]));
    assert!(b.repeat(3, 7));
    assert_eq!(b.as_slice(), &[9, 7, 7, 7]);
    assert!(!b.repeat(5, 1));
    assert_eq!(b.as_slice(), &[9, 7, 7, 7]);
    assert!(b.repeat(4, 1));
    assert_eq!(b.as_slice(), &[9, 7, 7, 7, 1, 1, 1, 1]);
}

#[test]
fn resize_fills_new_bytes_and_cuts() {
    let mut b = Buf::new(16);
    assert!(b.append(&[1, 2, 3]));
    b.resize(6, 0xaa);
    assert_eq!(b.as_slice(), &[1, 2, 3, 0xaa, 0xaa, 0xaa]);
    b.resize(2, 0xbb);
    assert_eq!(b.as_slice(), &[1, 2]);
    b.resize(4, 0xcc);
    assert_eq!(b.as_slice(), &[1, 2, 0xcc, 0xcc]);
    b.resize(16, 0);
    assert_eq!(b.len(), 16);
    b.resize(0, 1);
    assert!(b.is_empty());
}

#[test]
fn clear_and_resize_overwrites() {
    let mut b = Buf::new(8);
    assert!(b.append(&[1, 2, 3, 4]));
    b.clear_and_resize(3, 5);
    assert_eq!(b.as_slice(), &[5, 5, 5]);
    b.clear();
    assert!(b.is_empty());
    assert_eq!(b.capacity(), 8);
}

#[test]
fn write_reports_count_or_error() {
    let mut b = Buf::new(8);
    assert_eq!(b.write(&[1, 2, 3]).ok(), Some(3));
    let e = b.write(&[0; 6]);
    assert!(e.is_err());
    assert_eq!(e.err().unwrap().to_string(), "insufficient capacity");
    assert_eq!(b.as_slice(), &[1, 2, 3]);
}

#[test]
fn get_and_set_bytes() {
    let mut b = Buf::new(8);
    assert!(b.append(&[1, 2, 3]));
    assert_eq!(b.get(1), 2);
    b.set(1, 9);
    assert_eq!(b.as_slice(), &[1, 9, 3]);
}

#[test]
fn copy_within_handles_overlap() {
    let mut b = Buf::new(8);
    assert!(b.append(&[1, 2, 3, 4, 5, 6, 7, 8]));
    b.copy_within(0..4, 2);
    assert_eq!(b.as_slice(), &[1, 2, 1, 2, 3, 4, 7, 8]);
    b.copy_within(4..8, 2);
    assert_eq!(b.as_slice(), &[1, 2, 3, 4, 7, 8, 7, 8]);
    b.copy_within(3..3, 8);
    assert_eq!(b.as_slice(), &[1, 2, 3, 4, 7, 8, 7, 8]);

    let mut expected = [10u8, 20, 30, 40, 50, 60, 70, 80];
    let mut c = Buf::new(8);
    assert!(c.append(&expected));
    expected.copy_within(1..6, 3);
    c.copy_within(1..6, 3);
    assert_eq!(c.as_slice(), &expected);
}

#[test]
fn equality_is_by_content() {
    let mut a = Buf::new(8);
    let mut b = Buf::new(16);
    assert!(a == b);
    assert!(a.append(&[1, 2]));
    assert!(a != b);
    assert!(b.append(&[1, 2]));
    assert!(a == b);
    assert!(b.append(&[3]));
    assert!(a != b);
}

#[test]
fn clone_of_pooled_buffer_is_standalone() {
    let mut p = Pool::new(8, 2);
    let mut first = p.get();
    assert!(first.is_pooled());
    assert!(first.append(&[1, 2, 3]));
    let mut copy = first.clone();
    assert!(!copy.is_pooled());
    assert_eq!(copy.capacity(), 8);
    assert_eq!(copy.as_slice(), &[1, 2, 3]);
    assert!(copy.append(&[4]));
    assert_eq!(first.as_slice(), &[1, 2, 3]);
    assert!(first.append(&[9, 9]));
    assert_eq!(copy.as_slice(), &[1, 2, 3, 4]);
    assert_eq!(p.pool_remaining(), 1);
    p.release(copy);
    assert_eq!(p.pool_remaining(), 1);
    p.release(first);
    assert_eq!(p.pool_remaining(), 2);
}

#[test]
fn pool_counts_checkouts_and_returns() {
    let mut p = Pool::new(16, 4);
    assert_eq!(p.buf_capacity(), 16);
    assert_eq!(p.pool_capacity(), 4);
    assert_eq!(p.pool_remaining(), 4);
    let a = p.get();
    let b = p.get();
    let c = p.get();
    assert_eq!(p.pool_remaining(), 1);
    p.release(b);
    assert_eq!(p.pool_remaining(), 2);
    p.release(a);
    p.release(c);
    assert_eq!(p.pool_remaining(), 4);
    assert!(p.state() == PoolState::Alive);
}

#[test]
fn pool_falls_back_when_empty() {
    let mut p = Pool::new(8, 2);
    let a = p.get();
    let b = p.get();
    assert!(a.is_pooled() && b.is_pooled());
    assert_eq!(p.pool_remaining(), 0);
    let mut c = p.get();
    assert!(!c.is_pooled());
    assert_eq!(c.capacity(), 8);
    assert!(c.is_empty());
    assert!(c.append(&[1, 2, 3, 4, 5, 6, 7, 8]));
    assert!(!c.append(&[9]));
    assert_eq!(p.pool_remaining(), 0);
    p.release(c);
    assert_eq!(p.pool_remaining(), 0);
    p.release(a);
    p.release(b);
    assert_eq!(p.pool_remaining(), 2);
}

#[test]
fn released_buffer_comes_back_empty() {
    let mut p = Pool::new(8, 1);
    let mut a = p.get();
    assert!(a.append(&[1, 2, 3]));
    p.release(a);
    let b = p.get();
    assert!(b.is_pooled());
    assert!(b.is_empty());
    assert_eq!(b.capacity(), 8);
    p.release(b);
}

#[test]
fn min_capacity_chooses_pool_or_standalone() {
    let mut p = Pool::new(16, 2);
    let a = p.get_with_min_capacity(8);
    assert!(a.is_pooled());
    assert_eq!(a.capacity(), 16);
    let b = p.get_with_min_capacity(16);
    assert!(b.is_pooled());
    assert_eq!(p.pool_remaining(), 0);
    let c = p.get_with_min_capacity(64);
    assert!(!c.is_pooled());
    assert_eq!(c.capacity(), 64);
    assert_eq!(c.len(), 0);
    let d = p.get_with_min_capacity(1);
    assert!(!d.is_pooled());
    assert_eq!(d.capacity(), 16);
    p.release(a);
    let e = p.get_with_min_capacity(24);
    assert!(!e.is_pooled());
    assert_eq!(e.capacity(), 24);
    assert_eq!(p.pool_remaining(), 1);
}

#[test]
fn teardown_waits_for_the_last_buffer() {
    let mut p = Pool::new(8, 4);
    let mut out = Vec::new();
    for _ in 0..3 {
        out.push(p.get());
    }
    p.close();
    assert!(p.state() == PoolState::TeardownPending);
    assert_eq!(p.pool_remaining(), 1);
    let mut last = out.pop().unwrap();
    for b in out.drain(..) {
        p.release(b);
        assert!(p.state() == PoolState::TeardownPending);
    }
    assert_eq!(p.pool_remaining(), 3);
    assert!(last.append(&[1, 2, 3]));
    assert_eq!(last.as_slice(), &[1, 2, 3]);
    p.release(last);
    assert!(p.state() == PoolState::TornDown);
}

#[test]
fn teardown_is_immediate_when_nothing_is_out() {
    let mut p = Pool::new(8, 4);
    let a = p.get();
    p.release(a);
    p.close();
    assert!(p.state() == PoolState::TornDown);
}

#[test]
fn standalone_release_during_teardown_changes_nothing() {
    let mut p = Pool::new(8, 1);
    let a = p.get();
    let extra = p.get();
    assert!(!extra.is_pooled());
    p.close();
    p.release(extra);
    assert!(p.state() == PoolState::TeardownPending);
    p.release(a);
    assert!(p.state() == PoolState::TornDown);
}

#[test]
fn length_never_exceeds_capacity() {
    let mut p = Pool::new(16, 1);
    let mut bufs = vec![Buf::new(16), p.get(), p.get()];
    for b in bufs.iter_mut() {
        for step in 0..40usize {
            let chunk = vec![step as u8; step % 7];
            let fits = b.len() + chunk.len() <= b.capacity();
            assert_eq!(b.append(&chunk), fits);
            assert!(b.len() <= b.capacity());
            if step % 11 == 10 {
                b.resize(step % 17, 0);
                assert!(b.len() <= b.capacity());
            }
            if step % 13 == 12 {
                b.clear();
            }
            assert_eq!(b.capacity(), 16);
        }
    }
    for b in bufs.drain(..) {
        p.release(b);
    }
    assert_eq!(p.pool_remaining(), 1);
}

#[test]
fn iter_and_mutable_slice() {
    let mut b = Buf::new(8);
    assert!(b.append(&[1, 2, 3]));
    assert_eq!(b.iter().copied().collect::<Vec<u8>>(), vec![1, 2, 3]);
    assert_eq!(b.iter().count(), 3);
    b.as_mut_slice()[2] = 30;
    assert_eq!(b.as_mut_slice().len(), 3);
    assert_eq!(b.as_slice(), &[1, 2, 30]);
    assert_eq!(b.capacity(), 8);
    assert!(b.append(&[4]));
    assert_eq!(b.as_slice(), &[1, 2, 30, 4]);
}

#[test]
fn shared_pool_counts_through_shared_references() {
    let p = zerotier_utils::buf::SharedPool::new(1024, 4);
    assert_eq!(p.buf_capacity(), 1024);
    assert_eq!(p.pool_capacity(), 4);
    assert_eq!(p.pool_remaining(), 4);
    let q = &p;
    let mut out = Vec::new();
    for _ in 0..6 {
        out.push(q.get());
    }
    assert_eq!(p.pool_remaining(), 0);
    assert_eq!(out.iter().filter(|b| b.is_pooled()).count(), 4);
    for b in out.iter_mut() {
        assert!(b.is_empty());
        assert_eq!(b.capacity(), 1024);
        assert!(b.append(&[1u8; 1024]));
    }
    for b in out.drain(..) {
        assert!(p.release(b));
    }
    assert_eq!(p.pool_remaining(), 4);
    assert!(p.get().is_empty());
    assert!(p.state() == PoolState::Alive);
}

#[test]
fn shared_pool_refuses_what_is_not_its_own() {
    let p = zerotier_utils::buf::SharedPool::new(8, 1);
    let mut other = Pool::new(8, 1);
    let stranger = other.get();
    assert!(!p.release(stranger));
    assert_eq!(p.pool_remaining(), 1);
    let mut wide = Pool::new(16, 1);
    let a = p.get();
    assert!(!p.release(wide.get()));
    assert_eq!(p.pool_remaining(), 0);
    assert!(p.release(a));
    assert!(p.release(Buf::new(64)));
    assert_eq!(p.pool_remaining(), 1);
}

#[test]
fn shared_pool_teardown_and_minimum_capacity() {
    let p = zerotier_utils::buf::SharedPool::new(8, 2);
    let a = p.get();
    let b = p.get_with_min_capacity(4);
    assert!(a.is_pooled() && b.is_pooled());
    let c = p.get_with_min_capacity(16);
    assert!(!c.is_pooled());
    assert_eq!(c.capacity(), 16);
    p.close();
    assert!(p.state() == PoolState::TeardownPending);
    let late = p.get();
    assert!(!late.is_pooled());
    assert_eq!(late.capacity(), 8);
    assert!(p.release(a));
    assert!(p.state() == PoolState::TeardownPending);
    p.close();
    assert!(p.state() == PoolState::TeardownPending);
    assert!(p.release(b));
    assert!(p.state() == PoolState::TornDown);
    assert!(p.release(c));
    assert!(p.state() == PoolState::TornDown);
    let q = zerotier_utils::buf::SharedPool::new(8, 2);
    q.close();
    assert!(q.state() == PoolState::TornDown);
}

#[test]
fn order_is_by_content() {
    let of = |cap: usize, bytes: &[u8]| {
        let mut b = Buf::new(cap);
        assert!(b.append(bytes));
        b
    };
    assert!(of(8, &[1, 2]) < of(8, &[1, 3]));
    assert!(of(64, &[1, 2]) < of(8, &[1, 3]));
    assert!(of(8, &[1, 2]) < of(8, &[1, 2, 0]));
    assert!(of(8, &[]) < of(8, &[0]));
    assert!(of(8, &[2]) > of(8, &[1, 9, 9]));
    assert!(of(8, &[1, 2]) <= of(16, &[1, 2]));
    assert!(of(8, &[1, 2]) >= of(16, &[1, 2]));
    assert_eq!(of(8, &[1, 2]).partial_cmp(&of(16, &[1, 2])), Some(std::cmp::Ordering::Equal));
    assert_eq!(of(8, &[255]).partial_cmp(&of(8, &[1])), Some(std::cmp::Ordering::Greater));
    assert_eq!(of(8, &[]).partial_cmp(&of(8, &[])), Some(std::cmp::Ordering::Equal));
}

#[test]
fn checkout_serves_a_pool_in_any_stage() {
    let mut p = Pool::new(8, 1);
    let a = p.checkout();
    assert!(a.is_pooled() && a.is_empty());
    assert_eq!(a.capacity(), 8);
    assert_eq!(p.pool_remaining(), 0);
    let b = p.checkout();
    assert!(!b.is_pooled());
    assert_eq!(p.pool_remaining(), 0);
    p.close();
    let c = p.checkout();
    assert!(!c.is_pooled() && c.is_empty());
    assert_eq!(c.capacity(), 8);
    assert!(p.state() == PoolState::TeardownPending);
    assert_eq!(p.pool_remaining(), 0);
    assert!(p.take_back(a));
    assert!(p.state() == PoolState::TornDown);
    let d = p.checkout();
    assert!(!d.is_pooled());
    assert_eq!(d.capacity(), 8);
    assert!(p.state() == PoolState::TornDown);
}

#[test]
fn take_back_tells_what_it_takes() {
    let mut p = Pool::new(8, 2);
    let mut wide = Pool::new(16, 1);
    let mut other = Pool::new(8, 1);
    assert!(!p.take_back(other.get()));
    assert_eq!(p.pool_remaining(), 2);
    let a = p.get();
    assert_eq!(p.pool_remaining(), 1);
    assert!(!p.take_back(wide.get()));
    assert_eq!(p.pool_remaining(), 1);
    assert!(p.take_back(Buf::new(64)));
    assert_eq!(p.pool_remaining(), 1);
    let mut used = a;
    assert!(used.append(&[1, 2, 3]));
    assert!(p.take_back(used));
    assert_eq!(p.pool_remaining(), 2);
    assert!(p.get().is_empty());
    assert!(p.state() == PoolState::Alive);
}

#[test]
fn retire_lets_go_once() {
    let mut p = Pool::new(8, 2);
    let a = p.get();
    p.retire();
    assert!(p.state() == PoolState::TeardownPending);
    assert_eq!(p.pool_remaining(), 1);
    p.retire();
    assert!(p.state() == PoolState::TeardownPending);
    assert_eq!(p.pool_remaining(), 1);
    assert!(p.take_back(a));
    assert!(p.state() == PoolState::TornDown);
    p.retire();
    assert!(p.state() == PoolState::TornDown);
    assert!(!p.take_back(Pool::new(8, 1).get()));
    let mut q = Pool::new(8, 2);
    q.retire();
    assert!(q.state() == PoolState::TornDown);
}

#[test]
fn sink_takes_all_or_nothing() {
    let mut b = Buf::new(8);
    assert!(zerotier_utils::stream::ByteSink::write_all(&mut b, &[1, 2, 3, 4, 5]).is_ok());
    let e = zerotier_utils::stream::ByteSink::write_all(&mut b, &[6, 7, 8, 9]);
    assert!(e.err() == Some(zerotier_utils::stream::StreamError::InsufficientCapacity));
    assert_eq!(b.as_slice(), &[1, 2, 3, 4, 5]);
    assert!(zerotier_utils::stream::ByteSink::write_all(&mut b, &[6, 7, 8]).is_ok());
    assert_eq!(b.as_slice(), &[1, 2, 3, 4, 5, 6, 7, 8]);
}
