use thrift::{FakeTransport, Transport, TransportError};

#[test]
fn fake_transport_supplies_its_buffer_in_order() {
    let mut t = FakeTransport::new(vec![1, 2, 3, 4, 5]);
    assert_eq!(t.remaining(), 5);
    assert_eq!(t.read_exact(2), Ok(vec![1, 2]));
    assert_eq!(t.remaining(), 3);
    assert_eq!(t.read_exact(0), Ok(vec![]));
    assert_eq!(t.read_exact(3), Ok(vec![3, 4, 5]));
    assert_eq!(t.remaining(), 0);
    assert_eq!(t.read_exact(0), Ok(vec![]));
}

#[test]
fn fake_transport_never_reads_short() {
    let mut t = FakeTransport::new(vec![1, 2, 3]);
    assert_eq!(t.read_exact(4), Err(TransportError::EndOfStream));
    assert_eq!(t.remaining(), 3);
    assert_eq!(t.read_exact(3), Ok(vec![1, 2, 3]));
    assert_eq!(t.read_exact(1), Err(TransportError::EndOfStream));
    assert_eq!(t.read_exact(usize::MAX), Err(TransportError::EndOfStream));
}

#[test]
fn fake_transport_collects_what_is_written() {
    let mut t = FakeTransport::new(vec![9]);
    assert_eq!(t.written(), &Vec::<u8>::new());
    assert_eq!(t.write(&[1, 2]), Ok(()));
    assert_eq!(t.write(&[]), Ok(()));
    assert_eq!(t.write(&[3]), Ok(()));
    assert_eq!(t.flush(), Ok(()));
    assert_eq!(t.written(), &vec![1, 2, 3]);
    assert_eq!(t.remaining(), 1);
    assert_eq!(t.read_exact(1), Ok(vec![9]));
    assert_eq!(t.written(), &vec![1, 2, 3]);
}
