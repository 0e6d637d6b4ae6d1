use rp2350_hid_bridge::uart::{reply_bytes, LineEvent, LineReader, Reply};

fn feed(reader: &mut LineReader, bytes: &[u8]) -> Vec<LineEvent> {
    let mut events = Vec::new();
    for b in bytes {
        events.push(reader.on_byte(*b));
    }
    events
}

#[test]
fn newline_hands_out_the_line_without_carriage_returns() {
    let mut r = LineReader::new();
    let events = feed(&mut r, b"{\"type\":\"key_release\"}\r\n");
    let (last, rest) = events.split_last().unwrap();
    assert!(rest.iter().all(|e| *e == LineEvent::Pending));
    assert_eq!(*last, LineEvent::Line(b"{\"type\":\"key_release\"}".to_vec()));
    let events = feed(&mut r, b"a\rb\n");
    assert_eq!(events[3], LineEvent::Line(b"ab".to_vec()));
}

#[test]
fn empty_lines_are_ignored() {
    let mut r = LineReader::new();
    let events = feed(&mut r, b"\n\r\n\n");
    assert!(events.iter().all(|e| *e == LineEvent::Pending));
}

#[test]
fn long_line_overflows_and_is_dropped() {
    let mut r = LineReader::new();
    let events = feed(&mut r, &[b'x'; 256]);
    assert!(events.iter().all(|e| *e == LineEvent::Pending));
    assert_eq!(r.on_byte(b'y'), LineEvent::Overflow);
    assert_eq!(r.on_byte(b'\n'), LineEvent::Pending);
    assert_eq!(feed(&mut r, b"ok\n")[2], LineEvent::Line(b"ok".to_vec()));
}

#[test]
fn replies_to_the_host() {
    assert_eq!(reply_bytes(Reply::Queued, b"x"), b"[ok]\r\n".to_vec());
    assert_eq!(reply_bytes(Reply::Busy, b"x"), b"[err] busy\r\n".to_vec());
    assert_eq!(reply_bytes(Reply::Invalid, b"{bad"), b"[err] {bad\r\n".to_vec());
    assert_eq!(reply_bytes(Reply::Overflow, b""), b"[err] overflow\r\n".to_vec());
}
