use sspa_console::link::{LineOutcome, LinkReader, STARTUP_ROUNDS};
use sspa_console::packet::Paquete;
use sspa_console::view::bit_cells;

#[test]
fn banner_lines_are_dropped() {
    let mut r = LinkReader::new();
    for _ in 0..STARTUP_ROUNDS {
        assert!(r.in_startup());
        assert_eq!(r.on_line(b"Terminal ready\r\n"), LineOutcome::Discard);
        assert_eq!(r.on_line(b"0620953700\n"), LineOutcome::Discard);
        assert!(r.end_round());
    }
    assert!(!r.in_startup());
    assert_eq!(
        r.on_line(b"0620953700\n"),
        LineOutcome::Deliver(Paquete { comando: 0x25, registro: 3, valor: 100 })
    );
    assert_eq!(r.on_line(b"garbage\n"), LineOutcome::Malformed);
    assert!(r.end_round());
    assert_eq!(r.on_line(b""), LineOutcome::Closed);
    assert!(!r.end_round());
}

#[test]
fn close_during_banner_ends_banner() {
    let mut r = LinkReader::new();
    assert!(r.end_round());
    assert_eq!(r.on_line(b""), LineOutcome::Closed);
    assert!(r.end_round());
    assert!(!r.in_startup());
    assert!(!r.end_round());
}

#[test]
fn bit_row_layout() {
    let t = bit_cells(0x8001);
    assert_eq!(t.len(), 48);
    let expected: String = format!("{:016b}", 0x8001u16).chars().flat_map(|c| [c, ' ', ' ']).collect();
    assert_eq!(String::from_utf8(t).unwrap(), expected);
    assert_eq!(String::from_utf8(bit_cells(0)).unwrap(), "0  ".repeat(16));
}
