use pty_session::bridge::ReadBuffer;
use pty_session::error::SessionError;
use pty_session::utf8::{held_tail_len, lead_byte_len};

#[test]
fn read_with_nothing_pending_is_none() {
    let mut r = ReadBuffer::new();
    assert_eq!(r.read_chunk(), Ok(None));
    assert_eq!(r.pending_len(), 0);
}

#[test]
fn echoed_bytes_come_back_whole() {
    let mut r = ReadBuffer::new();
    let text = "echo héllo ✓\r\n";
    r.fill(text.as_bytes());
    assert_eq!(r.read_chunk(), Ok(Some(text.to_string())));
    assert_eq!(r.pending_len(), 0);
    assert_eq!(r.read_chunk(), Ok(None));
}

#[test]
fn split_two_byte_character_is_held() {
    let mut r = ReadBuffer::new();
    r.fill(&[b'h', 0xC3]);
    assert_eq!(r.deliverable_len(), 1);
    assert_eq!(r.read_chunk(), Ok(Some("h".to_string())));
    assert_eq!(r.pending_len(), 1);
    r.fill(&[0xA9]);
    assert_eq!(r.read_chunk(), Ok(Some("é".to_string())));
    assert_eq!(r.pending_len(), 0);
}

#[test]
fn four_byte_character_in_single_byte_fills() {
    let bytes = "😀".as_bytes();
    let mut r = ReadBuffer::new();
    for b in &bytes[..3] {
        r.fill(&[*b]);
        assert_eq!(r.read_chunk(), Ok(None));
    }
    r.fill(&bytes[3..]);
    assert_eq!(r.read_chunk(), Ok(Some("😀".to_string())));
}

#[test]
fn invalid_bytes_fail_and_consume_nothing() {
    let mut r = ReadBuffer::new();
    r.fill(&[b'a', 0xFF, b'b']);
    assert_eq!(r.read_chunk(), Err(SessionError::ReadFailed));
    assert_eq!(r.pending_len(), 3);
    assert_eq!(r.read_chunk(), Err(SessionError::ReadFailed));
}

#[test]
fn settle_read_consumes_exactly_len() {
    let mut r = ReadBuffer::new();
    r.fill(b"abcdef");
    assert_eq!(r.settle_read(2, Some("ab".to_string())), Ok(Some("ab".to_string())));
    assert_eq!(r.pending_len(), 4);
    assert_eq!(r.settle_read(3, None), Err(SessionError::ReadFailed));
    assert_eq!(r.pending_len(), 4);
    assert_eq!(r.read_chunk(), Ok(Some("cdef".to_string())));
}

#[test]
fn interleaved_fills_and_reads_account_for_every_byte() {
    let mut r = ReadBuffer::new();
    let mut produced = 0usize;
    let mut delivered = String::new();
    for piece in ["ab", "c", "", "défg", "h"] {
        r.fill(piece.as_bytes());
        produced += piece.len();
        if let Ok(Some(s)) = r.read_chunk() {
            delivered.push_str(&s);
        }
        assert_eq!(delivered.len() + r.pending_len(), produced);
    }
    assert_eq!(delivered, "abcdéfgh");
}

#[test]
fn held_tail_lengths() {
    assert_eq!(held_tail_len(b""), 0);
    assert_eq!(held_tail_len(b"abc"), 0);
    assert_eq!(held_tail_len(&[b'a', 0xE2]), 1);
    assert_eq!(held_tail_len(&[b'a', 0xE2, 0x9C]), 2);
    assert_eq!(held_tail_len(&[0xE2, 0x9C, 0x93]), 0);
    assert_eq!(held_tail_len(&[0xF0, 0x9F, 0x98]), 3);
    assert_eq!(held_tail_len(&[0x9F, 0x98]), 0);
}

#[test]
fn lead_byte_lengths() {
    assert_eq!(lead_byte_len(b'a'), 1);
    assert_eq!(lead_byte_len(0x80), 0);
    assert_eq!(lead_byte_len(0xC3), 2);
    assert_eq!(lead_byte_len(0xE2), 3);
    assert_eq!(lead_byte_len(0xF0), 4);
    assert_eq!(lead_byte_len(0xFF), 0);
}
