use zerotier_utils::error::{InvalidFormatError, InvalidParameterError};
use zerotier_utils::stream::{ByteSink, ByteSource, StreamError};
use zerotier_utils::{is_default, slice_is_empty, NEVER_HAPPENED_TICKS};

#[test]
fn never_happened_is_half_of_the_least_tick() {
    assert_eq!(NEVER_HAPPENED_TICKS, i64::MIN / 2);
}

#[test]
fn slice_is_empty_tells() {
    assert!(slice_is_empty::<u8>(&[]));
    assert!(!slice_is_empty(&[1]));
}

#[test]
fn is_default_tells() {
    assert!(is_default(&0u32));
    assert!(!is_default(&1u32));
    assert!(is_default(&String::new()));
    assert!(!is_default(&String::from("x")));
    assert!(is_default(&None::<u8>));
}

#[test]
fn error_messages() {
    assert_eq!(InvalidFormatError.to_string(), "InvalidFormatError");
    assert_eq!(InvalidParameterError("not an IP address").to_string(), "InvalidParameterError: not an IP address");
    assert_eq!(StreamError::InsufficientCapacity.to_string(), "insufficient capacity");
    assert_eq!(StreamError::OutOfBounds.to_string(), "Buffer access out of bounds");
    assert_eq!(StreamError::OutOfSpace.to_string(), "ArrayVec out of space");
    assert_eq!(StreamError::UnexpectedEof.to_string(), "failed to fill whole buffer");
}

#[test]
fn vector_is_a_sink_without_limit() {
    let mut v: Vec<u8> = vec![1];
    assert!(v.write_all(&[2, 3]).is_ok());
    assert!(v.write_all(&[]).is_ok());
    assert_eq!(v, vec![1, 2, 3]);
}

#[test]
fn slice_is_a_source() {
    let bytes = [1u8, 2, 3, 4, 5];
    let mut s: &[u8] = &bytes;
    assert_eq!(s.read_exact(2).unwrap(), vec![1, 2]);
    assert_eq!(s, &[3, 4, 5]);
    assert!(s.read_exact(4).err() == Some(StreamError::UnexpectedEof));
    assert_eq!(s, &[3, 4, 5]);
    assert_eq!(s.read_exact(0).unwrap(), Vec::<u8>::new());
    assert_eq!(s.read_exact(3).unwrap(), vec![3, 4, 5]);
    assert!(s.is_empty());
}

#[test]
fn alloc_array_fills_every_place() {
    let a = zerotier_utils::alloc_array::<u32, 1000>(7).unwrap();
    assert_eq!(a.len(), 1000);
    assert!(a.iter().all(|x| *x == 7));
    let e = zerotier_utils::alloc_array::<u8, 0>(1).unwrap();
    assert_eq!(e.len(), 0);
    let big = zerotier_utils::alloc_array::<u8, 4194304>(0xab).unwrap();
    assert_eq!(big[4194303], 0xab);
}

#[test]
fn alloc_array_with_calls_for_each_index() {
    let a = zerotier_utils::alloc_array_with::<usize, _, 100>(|i| i * 3).unwrap();
    for i in 0..100 {
        assert_eq!(a[i], i * 3);
    }
    let s = zerotier_utils::alloc_array_with::<String, _, 3>(|i| format!("#{}", i)).unwrap();
    assert_eq!(*s, [String::from("#0"), String::from("#1"), String::from("#2")]);
}

#[test]
fn array_range_and_chunks() {
    let a = [1u8, 2, 3, 4, 5, 6, 7];
    let r: &[u8; 3] = zerotier_utils::memory::array_range::<u8, 7, 2, 3>(&a);
    assert_eq!(r, &[3, 4, 5]);
    let whole: &[u8; 7] = zerotier_utils::memory::array_range::<u8, 7, 0, 7>(&a);
    assert_eq!(whole, &a);
    let none: &[u8; 0] = zerotier_utils::memory::array_range::<u8, 7, 7, 0>(&a);
    assert_eq!(none.len(), 0);
    assert_eq!(zerotier_utils::memory::array_chunk::<u8, 3>(&a, 0), Some(&[1, 2, 3]));
    assert_eq!(zerotier_utils::memory::array_chunk::<u8, 3>(&a, 1), Some(&[4, 5, 6]));
    assert_eq!(zerotier_utils::memory::array_chunk::<u8, 3>(&a, 2), None);
    assert_eq!(zerotier_utils::memory::array_chunk::<u8, 7>(&a, 0), Some(&a));
    assert_eq!(zerotier_utils::memory::array_chunk::<u8, 8>(&a, 0), None);
    assert_eq!(zerotier_utils::memory::array_chunk::<u8, 0>(&a, 5), Some(&[]));
    assert_eq!(zerotier_utils::memory::array_chunk::<u8, 1>(&a, usize::MAX), None);
}
