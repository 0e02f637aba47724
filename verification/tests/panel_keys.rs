use sspa_console::packet::{Paquete, CMD_READ_REGISTER, CMD_SET_PIN, CMD_WRITE_REGISTER, PIN_ON};
use sspa_console::panel::{command_of, fits_panel, pin_of_row, Command, Key, Panel, Reaction, NO_BIT};

fn press(p: &mut Panel, keys: &[Key]) -> Vec<Reaction> {
    keys.iter().map(|k| p.handle_key(*k)).collect()
}

fn chars(s: &str) -> Vec<Key> {
    s.chars().map(Key::Char).collect()
}

#[test]
fn starts_on_first_register() {
    let p = Panel::new();
    assert_eq!(p.reg_selected(), Some(0));
    assert_eq!(p.sig_selected(), None);
    assert!(!p.is_writing());
    assert_eq!(p.selected_bit(), NO_BIT);
    for i in 0..20 {
        assert_eq!(p.registro(i), 0);
    }
    for i in 0..10 {
        assert!(!p.senal(i));
    }
}

#[test]
fn key_bindings() {
    assert_eq!(command_of(Key::Char('q')), Command::Quit);
    assert_eq!(command_of(Key::Char('Q')), Command::Quit);
    assert_eq!(command_of(Key::Char('J')), Command::Next);
    assert_eq!(command_of(Key::Up), Command::Previous);
    assert_eq!(command_of(Key::Char('h')), Command::Left);
    assert_eq!(command_of(Key::Right), Command::Right);
    assert_eq!(command_of(Key::Char(' ')), Command::Toggle);
    assert_eq!(command_of(Key::Char('7')), Command::Digit(7));
    assert_eq!(command_of(Key::Char('x')), Command::Ignore);
    assert_eq!(command_of(Key::Enter), Command::Commit);
    assert_eq!(command_of(Key::Esc), Command::Cancel);
    assert_eq!(command_of(Key::Backspace), Command::Erase);
    assert_eq!(command_of(Key::Other), Command::Ignore);
}

#[test]
fn quit_key_quits() {
    let mut p = Panel::new();
    assert_eq!(p.handle_key(Key::Char('q')), Reaction::Quit);
    assert_eq!(p.reg_selected(), Some(0));
}

#[test]
fn selection_wraps_in_both_tables() {
    let mut p = Panel::new();
    p.handle_key(Key::Up);
    assert_eq!(p.reg_selected(), Some(19));
    p.handle_key(Key::Down);
    assert_eq!(p.reg_selected(), Some(0));
    p.handle_key(Key::Char('l'));
    assert_eq!(p.reg_selected(), None);
    assert_eq!(p.sig_selected(), Some(0));
    p.handle_key(Key::Char('k'));
    assert_eq!(p.sig_selected(), Some(17));
    p.handle_key(Key::Char('j'));
    assert_eq!(p.sig_selected(), Some(0));
    p.handle_key(Key::Left);
    assert_eq!(p.reg_selected(), Some(0));
    assert_eq!(p.sig_selected(), None);
}

#[test]
fn down_then_up_is_identity() {
    let mut p = Panel::new();
    press(&mut p, &[Key::Down, Key::Down, Key::Down]);
    press(&mut p, &[Key::Down, Key::Up]);
    assert_eq!(p.reg_selected(), Some(3));
}

#[test]
fn read_only_register_is_not_edited() {
    let mut p = Panel::new();
    press(&mut p, &[Key::Down, Key::Down]);
    assert_eq!(p.handle_key(Key::Char(' ')), Reaction::Nothing);
    assert!(!p.is_writing());
}

#[test]
fn decimal_edit_and_commit() {
    let mut p = Panel::new();
    p.apply_packet(Paquete { comando: CMD_WRITE_REGISTER, registro: 10, valor: 500 });
    for _ in 0..10 {
        p.handle_key(Key::Down);
    }
    assert_eq!(p.reg_selected(), Some(10));
    p.handle_key(Key::Char(' '));
    assert!(p.is_writing());
    assert_eq!(p.registro(10), 0);
    assert!(p.value_highlighted(10));
    press(&mut p, &chars("1234"));
    assert_eq!(p.registro(10), 1234);
    p.handle_key(Key::Backspace);
    assert_eq!(p.registro(10), 123);
    // navigation keys do nothing while editing
    press(&mut p, &[Key::Down, Key::Up, Key::Char('l')]);
    assert_eq!(p.reg_selected(), Some(10));
    let r = p.handle_key(Key::Enter);
    assert_eq!(r, Reaction::Send(Paquete { comando: CMD_WRITE_REGISTER, registro: 10, valor: 123 }));
    assert!(!p.is_writing());
    // the old value is shown until the controller reports the new one
    assert_eq!(p.registro(10), 500);
    p.apply_packet(Paquete { comando: CMD_WRITE_REGISTER, registro: 10, valor: 123 });
    assert_eq!(p.registro(10), 123);
}

#[test]
fn digits_stop_at_sixteen_bits() {
    let mut p = Panel::new();
    for _ in 0..19 {
        p.handle_key(Key::Down);
    }
    p.handle_key(Key::Char(' '));
    press(&mut p, &chars("65535"));
    assert_eq!(p.registro(19), 65535);
    p.handle_key(Key::Char('0'));
    assert_eq!(p.registro(19), 65535);
    p.handle_key(Key::Backspace);
    assert_eq!(p.registro(19), 6553);
    p.handle_key(Key::Char('6'));
    assert_eq!(p.registro(19), 6553);
    p.handle_key(Key::Char('5'));
    assert_eq!(p.registro(19), 65535);
    p.handle_key(Key::Backspace);
    p.handle_key(Key::Backspace);
    p.handle_key(Key::Char('9'));
    assert_eq!(p.registro(19), 6559);
}

#[test]
fn cancel_puts_value_back() {
    let mut p = Panel::new();
    p.apply_packet(Paquete { comando: CMD_READ_REGISTER, registro: 12, valor: 42 });
    for _ in 0..12 {
        p.handle_key(Key::Down);
    }
    p.handle_key(Key::Char(' '));
    press(&mut p, &chars("999"));
    assert_eq!(p.handle_key(Key::Esc), Reaction::Nothing);
    assert_eq!(p.registro(12), 42);
    assert!(!p.is_writing());
}

#[test]
fn control_register_bit_editor() {
    let mut p = Panel::new();
    p.apply_packet(Paquete { comando: CMD_WRITE_REGISTER, registro: 1, valor: 0x8001 });
    p.handle_key(Key::Down);
    p.handle_key(Key::Char(' '));
    assert_eq!(p.selected_bit(), 0);
    assert!(p.bit_highlighted(0));
    assert!(p.control_highlighted());
    assert_eq!(p.registro(1), 0);
    p.handle_key(Key::Char(' '));
    assert_eq!(p.registro(1), 0x0001);
    p.handle_key(Key::Right);
    assert_eq!(p.selected_bit(), 0);
    for _ in 0..20 {
        p.handle_key(Key::Left);
    }
    assert_eq!(p.selected_bit(), 15);
    p.handle_key(Key::Char(' '));
    assert_eq!(p.registro(1), 0x8001);
    p.handle_key(Key::Char(' '));
    p.handle_key(Key::Char(' '));
    assert_eq!(p.registro(1), 0x8001);
    p.handle_key(Key::Char('h'));
    p.handle_key(Key::Char('l'));
    assert_eq!(p.selected_bit(), 14);
    let r = p.handle_key(Key::Enter);
    assert_eq!(r, Reaction::Send(Paquete { comando: CMD_WRITE_REGISTER, registro: 1, valor: 0x8001 }));
    assert_eq!(p.selected_bit(), NO_BIT);
    assert!(!p.control_highlighted());
    assert_eq!(p.registro(1), 0x8001);
}

#[test]
fn pin_rows_and_toggle() {
    assert_eq!(pin_of_row(0), None);
    assert_eq!(pin_of_row(1), Some(1));
    assert_eq!(pin_of_row(5), None);
    assert_eq!(pin_of_row(10), Some(2));
    assert_eq!(pin_of_row(14), Some(6));
    assert_eq!(pin_of_row(15), None);
    assert_eq!(pin_of_row(16), Some(8));
    assert_eq!(pin_of_row(17), Some(9));
    let mut p = Panel::new();
    p.handle_key(Key::Right);
    assert_eq!(p.handle_key(Key::Char(' ')), Reaction::Nothing);
    p.handle_key(Key::Down);
    let r = p.handle_key(Key::Char(' '));
    let sent = Paquete { comando: CMD_SET_PIN, registro: 1, valor: PIN_ON };
    assert_eq!(r, Reaction::Send(sent));
    assert!(!p.senal(1));
    p.apply_packet(sent);
    assert!(p.senal(1));
    let r = p.handle_key(Key::Char(' '));
    assert_eq!(r, Reaction::Send(Paquete { comando: CMD_SET_PIN, registro: 1, valor: 0 }));
    for _ in 0..15 {
        p.handle_key(Key::Down);
    }
    assert_eq!(p.sig_selected(), Some(16));
    assert_eq!(p.handle_key(Key::Char(' ')), Reaction::Send(Paquete { comando: CMD_SET_PIN, registro: 8, valor: PIN_ON }));
}

#[test]
fn reports_update_panel() {
    let mut p = Panel::new();
    p.apply_packet(Paquete { comando: CMD_SET_PIN, registro: 9, valor: PIN_ON });
    assert!(p.senal(9));
    p.apply_packet(Paquete { comando: CMD_SET_PIN, registro: 9, valor: 0x1234 });
    assert!(!p.senal(9));
    p.apply_packet(Paquete { comando: 0x50, registro: 200, valor: 1 });
    assert_eq!(p.registro(0), 0);
    assert!(fits_panel(&Paquete { comando: CMD_WRITE_REGISTER, registro: 19, valor: 0 }));
    assert!(!fits_panel(&Paquete { comando: CMD_WRITE_REGISTER, registro: 20, valor: 0 }));
    assert!(!fits_panel(&Paquete { comando: CMD_SET_PIN, registro: 10, valor: 0 }));
    assert!(fits_panel(&Paquete { comando: 0x50, registro: 200, valor: 0 }));
}
