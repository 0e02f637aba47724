use sspa_console::packet::{
    arduino_pin_toggle, packet_word, pico_write, stop_packet, word_packet, Paquete, CMD_READ_REGISTER,
    CMD_SET_PIN, CMD_STOP, CMD_WRITE_REGISTER, PIN_ON, UNKNOWN_WORD,
};
use sspa_console::wire::{frame_word, parse_line};

#[test]
fn pico_write_builds_write_packet() {
    let p = pico_write(12, 3400);
    assert_eq!(p, Paquete { comando: CMD_WRITE_REGISTER, registro: 12, valor: 3400 });
}

#[test]
fn pin_toggle_on_and_off() {
    assert_eq!(arduino_pin_toggle(true, 4), Paquete { comando: CMD_SET_PIN, registro: 4, valor: PIN_ON });
    assert_eq!(arduino_pin_toggle(false, 4), Paquete { comando: CMD_SET_PIN, registro: 4, valor: 0 });
}

#[test]
fn word_of_each_command() {
    assert_eq!(packet_word(pico_write(3, 100)), Some(0x25030064));
    assert_eq!(packet_word(pico_write(3, 100)), Some(620953700));
    assert_eq!(packet_word(arduino_pin_toggle(true, 2)), Some(0x2902FFFF));
    let read = Paquete { comando: CMD_READ_REGISTER, registro: 10, valor: 77 };
    assert_eq!(packet_word(read), Some(0x3C0A0000));
    assert_eq!(packet_word(stop_packet()), None);
    assert_eq!(stop_packet().comando, CMD_STOP);
    let odd = Paquete { comando: 0x11, registro: 1, valor: 2 };
    assert_eq!(packet_word(odd), Some(UNKNOWN_WORD));
}

#[test]
fn word_splits_into_packet() {
    assert_eq!(word_packet(0x290900FF), Paquete { comando: 0x29, registro: 9, valor: 0x00FF });
    assert_eq!(word_packet(0), Paquete { comando: 0, registro: 0, valor: 0 });
    assert_eq!(word_packet(0xFFFFFFFF), Paquete { comando: 0xFF, registro: 0xFF, valor: 0xFFFF });
}

#[test]
fn word_roundtrip_for_write_and_pin() {
    for p in [pico_write(19, 65535), pico_write(0, 0), arduino_pin_toggle(true, 9), arduino_pin_toggle(false, 1)] {
        let w = packet_word(p).unwrap();
        assert_eq!(word_packet(w), p);
    }
    let read = Paquete { comando: CMD_READ_REGISTER, registro: 7, valor: 5 };
    assert_eq!(word_packet(packet_word(read).unwrap()), Paquete { valor: 0, ..read });
}

#[test]
fn frame_is_ten_zero_padded_digits() {
    assert_eq!(frame_word(0), b"0000000000".to_vec());
    assert_eq!(frame_word(620953700), b"0620953700".to_vec());
    assert_eq!(frame_word(4294967295), b"4294967295".to_vec());
    assert_eq!(frame_word(7), format!("{:010}", 7u32).into_bytes());
}

#[test]
fn parse_line_accepts_decimals() {
    assert_eq!(parse_line(b"620953700\r\n"), Some(620953700));
    assert_eq!(parse_line(b"0620953700\n"), Some(620953700));
    assert_eq!(parse_line(b"+12\r\n"), Some(12));
    assert_eq!(parse_line(b"42"), Some(42));
    assert_eq!(parse_line(b"4294967295\n"), Some(4294967295));
    assert_eq!(parse_line(b"1\r2\n"), Some(12));
}

#[test]
fn parse_line_rejects_what_u32_rejects() {
    for bad in [&b""[..], b"\r\n", b"+", b"+\n", b"-1\n", b"12a\n", b" 12\n", b"4294967296\n", b"99999999999\n", b"++1"] {
        assert_eq!(parse_line(bad), None, "{:?}", bad);
        let text: String = String::from_utf8_lossy(bad).replace('\n', "").replace('\r', "");
        assert!(text.parse::<u32>().is_err());
    }
}

#[test]
fn frame_then_parse_gives_word_back() {
    for w in [0u32, 1, 9, 10, 620953700, 688062463, 4294967295] {
        let mut line = frame_word(w);
        assert_eq!(parse_line(&line), Some(w));
        line.extend_from_slice(b"\r\n");
        assert_eq!(parse_line(&line), Some(w));
    }
}

#[test]
fn packet_through_frame_and_line() {
    let p = pico_write(15, 1234);
    let mut line = frame_word(packet_word(p).unwrap());
    line.push(b'\n');
    assert_eq!(word_packet(parse_line(&line).unwrap()), p);
}
