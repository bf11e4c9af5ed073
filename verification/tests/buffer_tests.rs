use ws_uring::read_buf::{KernelBuffer, KernelBufferReader, KernelBufferVecReader};

fn kbuf(bytes: &[u8], bid: u16) -> KernelBuffer {
    KernelBuffer {
        data: bytes.to_vec(),
        data_len: bytes.len(),
        bid,
        bgid: 0,
        buf_len: 1500,
    }
}

#[test]
fn kernel_buffer_data_starts_at_offset() {
    let b = KernelBuffer { data: vec![1, 2, 3, 4, 5, 0, 0], data_len: 5, bid: 1, bgid: 2, buf_len: 7 };
    assert_eq!(b.data_len(), 5);
    assert_eq!(b.data(0), &[1, 2, 3, 4, 5]);
    assert_eq!(b.data(3), &[4, 5]);
    assert_eq!(b.data(5), &[] as &[u8]);
}

#[test]
fn kernel_buffer_data_mut_writes_the_prefix() {
    let mut b = KernelBuffer { data: vec![0; 6], data_len: 0, bid: 1, bgid: 2, buf_len: 6 };
    {
        let d = b.data_mut(4);
        assert_eq!(d.len(), 4);
        d[0] = 9;
        d[3] = 8;
    }
    assert_eq!(b.data, vec![9, 0, 0, 8, 0, 0]);
    assert_eq!(b.data_len, 0);
}

#[test]
fn reader_tracks_claimed_and_remaining() {
    let mut r = KernelBufferReader::new(kbuf(b"hello", 7));
    assert_eq!(r.claimed(), 0);
    assert_eq!(r.remaining(), 5);
    r.commit(2);
    assert_eq!(r.claimed(), 2);
    assert_eq!(r.remaining(), 3);
    assert_eq!(r.buf_ref().bid, 7);
    r.buf_ref_mut().bgid = 4;
    assert_eq!(r.buf_ref().bgid, 4);
    assert_eq!(r.release().bgid, 4);
}

#[test]
fn reader_read_copies_what_fits() {
    let mut r = KernelBufferReader::new(kbuf(b"abcdef", 1));
    let mut small = [0u8; 4];
    assert_eq!(r.read(&mut small), 4);
    assert_eq!(&small, b"abcd");
    let mut big = [b'x'; 5];
    assert_eq!(r.read(&mut big), 2);
    assert_eq!(&big, b"efxxx");
    assert_eq!(r.remaining(), 0);
    assert_eq!(r.claimed(), 6);
}

#[test]
fn vec_reader_of_nothing_reads_nothing() {
    let mut q = KernelBufferVecReader::new(4);
    let mut dst = [7u8; 3];
    let (n, released) = q.read(&mut dst);
    assert_eq!(n, 0);
    assert!(released.is_none());
    assert_eq!(dst, [7, 7, 7]);
}

#[test]
fn vec_reader_reads_buffers_in_arrival_order() {
    let mut q = KernelBufferVecReader::new(4);
    q.push(kbuf(b"abc", 1));
    q.push(kbuf(b"defg", 2));
    let mut dst = [0u8; 2];
    let (n, released) = q.read(&mut dst);
    assert_eq!((n, &dst), (2, b"ab"));
    assert!(released.is_none());
    let mut dst = [0u8; 8];
    let (n, released) = q.read(&mut dst);
    assert_eq!(n, 1);
    assert_eq!(dst[0], b'c');
    assert_eq!(released.map(|b| b.bid), Some(1));
    let (n, released) = q.read(&mut dst);
    assert_eq!(n, 4);
    assert_eq!(&dst[..4], b"defg");
    assert_eq!(released.map(|b| b.bid), Some(2));
    let (n, released) = q.read(&mut dst);
    assert_eq!(n, 0);
    assert!(released.is_none());
}

#[test]
fn vec_reader_read_stops_at_the_front_buffer() {
    let mut q = KernelBufferVecReader::new(2);
    q.push(kbuf(b"ab", 1));
    q.push(kbuf(b"cd", 2));
    let mut dst = [0u8; 10];
    let (n, released) = q.read(&mut dst);
    assert_eq!(n, 2);
    assert_eq!(&dst[..2], b"ab");
    assert_eq!(dst[2], 0);
    assert_eq!(released.map(|b| b.bid), Some(1));
}
