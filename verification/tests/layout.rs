use rcstring::layout::{block_size, header_size, tail_size};

#[test]
fn header_is_one_machine_word() {
    assert_eq!(header_size(), std::mem::size_of::<usize>());
    assert_eq!(header_size(), std::mem::size_of::<std::sync::atomic::AtomicUsize>());
    assert_eq!(header_size() * 8, usize::BITS as usize);
}

#[test]
fn block_is_header_payload_and_terminator() {
    let header = std::mem::size_of::<usize>();
    assert_eq!(block_size(0), Some(header + 1));
    assert_eq!(block_size(3), Some(header + 4));
    assert_eq!(block_size(10), Some(header + 11));
    assert_eq!(block_size(4096), Some(header + 4097));
}

#[test]
fn block_size_at_the_limit() {
    let header = std::mem::size_of::<usize>();
    assert_eq!(block_size(usize::MAX - header - 1), Some(usize::MAX));
    assert_eq!(block_size(usize::MAX - header), None);
    assert_eq!(block_size(usize::MAX - 1), None);
    assert_eq!(block_size(usize::MAX), None);
}

#[test]
fn tail_is_payload_and_terminator() {
    let header = std::mem::size_of::<usize>();
    assert_eq!(tail_size(0), 1);
    assert_eq!(tail_size(3), 4);
    assert_eq!(tail_size(usize::MAX - header - 1), usize::MAX - header);
    assert_eq!(tail_size(usize::MAX - header), 0);
    assert_eq!(tail_size(usize::MAX), 0);
}
