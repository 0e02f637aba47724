//! The operator's panel: a table of the controller's registers and a table of
//! its signals, driven from the keyboard, and kept up to date from the packets
//! that the controller reports.
//!
//! Exactly one of the two tables has a selected row. In the register table the
//! selected register can be edited: the control register bit by bit, the
//! threshold registers as a decimal number. Editing keeps the value that the
//! register had, so that cancelling puts it back; committing sends the edited
//! value to the controller and shows the old value until the controller
//! reports the new one. In the signal table, toggling an output row asks the
//! controller to drive that pin to the opposite of its reported state.

use vstd::prelude::*;

use crate::packet::{arduino_pin_toggle, pico_write, Paquete, CMD_READ_REGISTER, CMD_SET_PIN, CMD_WRITE_REGISTER, PIN_ON};

verus! {

/// Number of registers in the register table.
pub const NUM_REGISTERS: usize = 20;
/// Number of on/off signals that the controller reports.
pub const NUM_SIGNALS: usize = 10;
/// Number of rows in the signal table (signals and analog readings).
pub const NUM_SIGNAL_ROWS: usize = 18;
/// Number of analog readings shown in the signal table.
pub const NUM_ANALOG: usize = 8;
/// The register that is edited bit by bit.
pub const CONTROL_REGISTER: usize = 1;
/// The first register that is edited as a decimal number; it and all after it are.
pub const FIRST_THRESHOLD_REGISTER: usize = 10;
/// Value of the selected bit when no bit of the control register is being edited.
pub const NO_BIT: u16 = 16;

/// A key that the operator pressed.
#[derive(Clone, Copy, Debug, PartialEq, Eq, Structural)]
pub enum Key {
    Char(char),
    Up,
    Down,
    Left,
    Right,
    Enter,
    Esc,
    Backspace,
    Other,
}

/// What a key asks the panel to do.
#[derive(Clone, Copy, Debug, PartialEq, Eq, Structural)]
pub enum Command {
    Quit,
    Next,
    Previous,
    Right,
    Left,
    Toggle,
    Commit,
    Cancel,
    Erase,
    Digit(u16),
    Ignore,
}

/// What the program around the panel has to do after a key.
#[derive(Clone, Copy, Debug, PartialEq, Eq, Structural)]
pub enum Reaction {
    Nothing,
    Send(Paquete),
    Quit,
}

/// The key bindings: `q` quits; `j`/Down and `k`/Up move the selection; `l`/Right
/// and `h`/Left switch tables, or move the edited bit; space starts an edit,
/// toggles a pin or flips the edited bit; Enter commits, Esc cancels,
/// Backspace drops the last decimal digit; digits append to the edited value.
pub open spec fn spec_command(k: Key) -> Command {
    match k {
        Key::Char(c) => {
            if c == 'q' || c == 'Q' {
                Command::Quit
            } else if c == 'j' || c == 'J' {
                Command::Next
            } else if c == 'k' || c == 'K' {
                Command::Previous
            } else if c == 'l' || c == 'L' {
                Command::Right
            } else if c == 'h' || c == 'H' {
                Command::Left
            } else if c == ' ' {
                Command::Toggle
            } else if '0' <= c <= '9' {
                Command::Digit((c as int - '0' as int) as u16)
            } else {
                Command::Ignore
            }
        },
        Key::Down => Command::Next,
        Key::Up => Command::Previous,
        Key::Right => Command::Right,
        Key::Left => Command::Left,
        Key::Enter => Command::Commit,
        Key::Esc => Command::Cancel,
        Key::Backspace => Command::Erase,
        Key::Other => Command::Ignore,
    }
}

/// The abstract state of the panel.
pub struct PanelModel {
    /// The register values shown (the edited value for the register being edited).
    pub registros: Seq<u16>,
    /// The signal states that the controller last reported.
    pub senales: Seq<bool>,
    /// The selected row of the register table.
    pub reg_sel: Option<usize>,
    /// The selected row of the signal table.
    pub sig_sel: Option<usize>,
    /// The value the edited register had before the edit began.
    pub registro_buffer: u16,
    /// Whether a register is being edited.
    pub escribiendo: bool,
    /// The bit of the control register being edited, or `NO_BIT`.
    pub selected_bit: u16,
}

/// A register that the operator can edit.
pub open spec fn is_editable_register(n: usize) -> bool {
    n == CONTROL_REGISTER || FIRST_THRESHOLD_REGISTER <= n < NUM_REGISTERS
}

/// The pin that a row of the signal table drives, if the row is an output:
/// row 1 drives pin 1, rows 10 to 14 and 16, 17 drive pins 2 to 6 and 8, 9.
/// Inputs (rows 0 and 15) and analog readings (rows 2 to 9) drive none.
pub open spec fn spec_pin_of_row(row: usize) -> Option<usize> {
    if row == 1 {
        Some(1)
    } else if (10 <= row <= 14) || row == 16 || row == 17 {
        Some((row - 8) as usize)
    } else {
        None
    }
}

/// Moving down a table of `rows` rows, wrapping from the last row to the first.
pub open spec fn next_row(sel: Option<usize>, rows: usize) -> Option<usize> {
    match sel {
        Some(n) => Some(if n == rows - 1 { 0 } else { (n + 1) as usize }),
        None => None,
    }
}

/// Moving up a table of `rows` rows, wrapping from the first row to the last.
pub open spec fn previous_row(sel: Option<usize>, rows: usize) -> Option<usize> {
    match sel {
        Some(n) => Some(if n == 0 { (rows - 1) as usize } else { (n - 1) as usize }),
        None => None,
    }
}

/// `old * 10 + d` where that fits in 16 bits; `old` otherwise.
pub open spec fn append_digit(old: u16, d: u16) -> u16 {
    if old * 10 + d <= u16::MAX {
        (old * 10 + d) as u16
    } else {
        old
    }
}

/// The packet that toggling signal `pin` sends: drive it opposite to `senales`.
pub open spec fn toggle_packet(senales: Seq<bool>, pin: usize) -> Paquete {
    Paquete { comando: CMD_SET_PIN, registro: pin as u8, valor: if !senales[pin as int] { PIN_ON } else { 0 } }
}

impl PanelModel {
    /// The panel's invariant.
    pub open spec fn wf(self) -> bool {
        &&& self.registros.len() == NUM_REGISTERS
        &&& self.senales.len() == NUM_SIGNALS
        &&& (self.reg_sel is Some) != (self.sig_sel is Some)
        &&& (self.reg_sel matches Some(n) ==> n < NUM_REGISTERS)
        &&& (self.sig_sel matches Some(n) ==> n < NUM_SIGNAL_ROWS)
        &&& (self.escribiendo ==> (self.reg_sel matches Some(n) && is_editable_register(n)))
        &&& if self.escribiendo && self.reg_sel == Some(CONTROL_REGISTER) {
            self.selected_bit < NO_BIT
        } else {
            self.selected_bit == NO_BIT
        }
    }

    /// The state at start-up: all registers zero, all signals off, the first
    /// register selected, nothing being edited.
    pub open spec fn initial() -> PanelModel {
        PanelModel {
            registros: Seq::new(NUM_REGISTERS as nat, |i: int| 0u16),
            senales: Seq::new(NUM_SIGNALS as nat, |i: int| false),
            reg_sel: Some(0),
            sig_sel: None,
            registro_buffer: 0,
            escribiendo: false,
            selected_bit: NO_BIT,
        }
    }

    /// The state in which register `n` begins to be edited: its value is kept
    /// aside and it shows zero; the control register starts at bit 0.
    pub open spec fn begin_edit(self, n: usize) -> PanelModel {
        PanelModel {
            registros: self.registros.update(n as int, 0),
            registro_buffer: self.registros[n as int],
            escribiendo: true,
            selected_bit: if n == CONTROL_REGISTER { 0 } else { self.selected_bit },
            ..self
        }
    }

    /// The state in which the edit of register `n` ends: it shows the value it
    /// had before the edit.
    pub open spec fn end_edit(self, n: usize) -> PanelModel {
        PanelModel {
            registros: self.registros.update(n as int, self.registro_buffer),
            escribiendo: false,
            selected_bit: if n == CONTROL_REGISTER { NO_BIT } else { self.selected_bit },
            ..self
        }
    }

    /// The register being edited has its value replaced by `v`.
    pub open spec fn set_edited(self, n: usize, v: u16) -> PanelModel {
        PanelModel { registros: self.registros.update(n as int, v), ..self }
    }

    /// The state and the reaction after command `c`.
    pub open spec fn step(self, c: Command) -> (PanelModel, Reaction) {
        match c {
            Command::Quit => (self, Reaction::Quit),
            Command::Ignore => (self, Reaction::Nothing),
            Command::Next => if self.escribiendo {
                (self, Reaction::Nothing)
            } else {
                (
                    PanelModel {
                        reg_sel: next_row(self.reg_sel, NUM_REGISTERS),
                        sig_sel: next_row(self.sig_sel, NUM_SIGNAL_ROWS),
                        ..self
                    },
                    Reaction::Nothing,
                )
            },
            Command::Previous => if self.escribiendo {
                (self, Reaction::Nothing)
            } else {
                (
                    PanelModel {
                        reg_sel: previous_row(self.reg_sel, NUM_REGISTERS),
                        sig_sel: previous_row(self.sig_sel, NUM_SIGNAL_ROWS),
                        ..self
                    },
                    Reaction::Nothing,
                )
            },
            Command::Right => if !self.escribiendo {
                (
                    PanelModel {
                        reg_sel: None,
                        sig_sel: if self.sig_sel is None { Some(0) } else { self.sig_sel },
                        ..self
                    },
                    Reaction::Nothing,
                )
            } else if self.reg_sel == Some(CONTROL_REGISTER) && self.selected_bit != 0 {
                (PanelModel { selected_bit: (self.selected_bit - 1) as u16, ..self }, Reaction::Nothing)
            } else {
                (self, Reaction::Nothing)
            },
            Command::Left => if !self.escribiendo {
                (
                    PanelModel {
                        reg_sel: if self.reg_sel is None { Some(0) } else { self.reg_sel },
                        sig_sel: None,
                        ..self
                    },
                    Reaction::Nothing,
                )
            } else if self.reg_sel == Some(CONTROL_REGISTER) && self.selected_bit != 15 {
                (PanelModel { selected_bit: (self.selected_bit + 1) as u16, ..self }, Reaction::Nothing)
            } else {
                (self, Reaction::Nothing)
            },
            Command::Toggle => if !self.escribiendo {
                let next = match self.reg_sel {
                    Some(n) => if is_editable_register(n) { self.begin_edit(n) } else { self },
                    None => self,
                };
                let reaction = match self.sig_sel {
                    Some(row) => match spec_pin_of_row(row) {
                        Some(pin) => Reaction::Send(toggle_packet(self.senales, pin)),
                        None => Reaction::Nothing,
                    },
                    None => Reaction::Nothing,
                };
                (next, reaction)
            } else if self.reg_sel == Some(CONTROL_REGISTER) {
                (
                    self.set_edited(
                        CONTROL_REGISTER,
                        self.registros[CONTROL_REGISTER as int] ^ (1u16 << self.selected_bit),
                    ),
                    Reaction::Nothing,
                )
            } else {
                (self, Reaction::Nothing)
            },
            Command::Commit => match self.reg_sel {
                Some(n) => if self.escribiendo {
                    (
                        self.end_edit(n),
                        Reaction::Send(
                            Paquete {
                                comando: CMD_WRITE_REGISTER,
                                registro: n as u8,
                                valor: self.registros[n as int],
                            },
                        ),
                    )
                } else {
                    (self, Reaction::Nothing)
                },
                None => (self, Reaction::Nothing),
            },
            Command::Cancel => match self.reg_sel {
                Some(n) => if self.escribiendo {
                    (self.end_edit(n), Reaction::Nothing)
                } else {
                    (self, Reaction::Nothing)
                },
                None => (self, Reaction::Nothing),
            },
            Command::Erase => match self.reg_sel {
                Some(n) => if self.escribiendo {
                    (self.set_edited(n, self.registros[n as int] / 10), Reaction::Nothing)
                } else {
                    (self, Reaction::Nothing)
                },
                None => (self, Reaction::Nothing),
            },
            Command::Digit(d) => match self.reg_sel {
                Some(n) => if self.escribiendo {
                    (self.set_edited(n, append_digit(self.registros[n as int], d)), Reaction::Nothing)
                } else {
                    (self, Reaction::Nothing)
                },
                None => (self, Reaction::Nothing),
            },
        }
    }

    /// The state after the controller reports packet `p`: a register report or
    /// read answer sets the register, a pin report sets the signal (on exactly
    /// when the value is `PIN_ON`), any other packet changes nothing.
    pub open spec fn on_packet(self, p: Paquete) -> PanelModel {
        if p.comando == CMD_WRITE_REGISTER || p.comando == CMD_READ_REGISTER {
            PanelModel { registros: self.registros.update(p.registro as int, p.valor), ..self }
        } else if p.comando == CMD_SET_PIN {
            PanelModel { senales: self.senales.update(p.registro as int, p.valor == PIN_ON), ..self }
        } else {
            self
        }
    }
}

/// A reported packet that the panel can take: its register or signal exists.
pub open spec fn spec_fits_panel(p: Paquete) -> bool {
    &&& (p.comando == CMD_WRITE_REGISTER || p.comando == CMD_READ_REGISTER) ==> p.registro
        < NUM_REGISTERS
    &&& p.comando == CMD_SET_PIN ==> p.registro < NUM_SIGNALS
}

/// Whether the panel can take the reported packet `p`; a packet for a
/// register or signal that does not exist cannot be shown.
pub fn fits_panel(p: &Paquete) -> (b: bool)
    ensures
        b == spec_fits_panel(*p),
{
    if p.comando == CMD_WRITE_REGISTER || p.comando == CMD_READ_REGISTER {
        (p.registro as usize) < NUM_REGISTERS
    } else if p.comando == CMD_SET_PIN {
        (p.registro as usize) < NUM_SIGNALS
    } else {
        true
    }
}

/// What a key asks the panel to do.
pub fn command_of(k: Key) -> (c: Command)
    ensures
        c == spec_command(k),
{
    match k {
        Key::Char(c) => {
            if c == 'q' || c == 'Q' {
                Command::Quit
            } else if c == 'j' || c == 'J' {
                Command::Next
            } else if c == 'k' || c == 'K' {
                Command::Previous
            } else if c == 'l' || c == 'L' {
                Command::Right
            } else if c == 'h' || c == 'H' {
                Command::Left
            } else if c == ' ' {
                Command::Toggle
            } else {
                match c {
                    '0' => Command::Digit(0),
                    '1' => Command::Digit(1),
                    '2' => Command::Digit(2),
                    '3' => Command::Digit(3),
                    '4' => Command::Digit(4),
                    '5' => Command::Digit(5),
                    '6' => Command::Digit(6),
                    '7' => Command::Digit(7),
                    '8' => Command::Digit(8),
                    '9' => Command::Digit(9),
                    _ => Command::Ignore,
                }
            }
        },
        Key::Down => Command::Next,
        Key::Up => Command::Previous,
        Key::Right => Command::Right,
        Key::Left => Command::Left,
        Key::Enter => Command::Commit,
        Key::Esc => Command::Cancel,
        Key::Backspace => Command::Erase,
        Key::Other => Command::Ignore,
    }
}

/// The panel.
#[derive(Clone, Copy)]
pub struct Panel {
    registros: [u16; 20],
    senales: [bool; 10],
    reg_sel: Option<usize>,
    sig_sel: Option<usize>,
    registro_buffer: u16,
    escribiendo: bool,
    selected_bit: u16,
}

impl View for Panel {
    type V = PanelModel;

    closed spec fn view(&self) -> PanelModel {
        PanelModel {
            registros: self.registros@,
            senales: self.senales@,
            reg_sel: self.reg_sel,
            sig_sel: self.sig_sel,
            registro_buffer: self.registro_buffer,
            escribiendo: self.escribiendo,
            selected_bit: self.selected_bit,
        }
    }
}

impl Panel {
    #[verifier::type_invariant]
    closed spec fn inv(&self) -> bool {
        self@.wf()
    }

    /// The panel at start-up.
    pub fn new() -> (p: Panel)
        ensures
            p@ == PanelModel::initial(),
            p@.wf(),
    {
        let p = Panel {
            registros: [0u16; 20],
            senales: [false; 10],
            reg_sel: Some(0),
            sig_sel: None,
            registro_buffer: 0,
            escribiendo: false,
            selected_bit: NO_BIT,
        };
        assert(p@.registros =~= PanelModel::initial().registros);
        assert(p@.senales =~= PanelModel::initial().senales);
        p
    }

    /// The value shown for register `i`.
    pub fn registro(&self, i: usize) -> (v: u16)
        requires
            i < NUM_REGISTERS,
        ensures
            v == self@.registros[i as int],
    {
        self.registros[i]
    }

    /// The reported state of signal `i`.
    pub fn senal(&self, i: usize) -> (b: bool)
        requires
            i < NUM_SIGNALS,
        ensures
            b == self@.senales[i as int],
    {
        self.senales[i]
    }

    /// The selected row of the register table.
    pub fn reg_selected(&self) -> (r: Option<usize>)
        ensures
            r == self@.reg_sel,
    {
        self.reg_sel
    }

    /// The selected row of the signal table.
    pub fn sig_selected(&self) -> (r: Option<usize>)
        ensures
            r == self@.sig_sel,
    {
        self.sig_sel
    }

    /// Whether a register is being edited.
    pub fn is_writing(&self) -> (b: bool)
        ensures
            b == self@.escribiendo,
    {
        self.escribiendo
    }

    /// The bit of the control register being edited, or `NO_BIT`.
    pub fn selected_bit(&self) -> (b: u16)
        ensures
            b == self@.selected_bit,
    {
        self.selected_bit
    }

    /// Whether bit `bit` of the control register is the one being edited
    /// (its label is highlighted).
    pub fn bit_highlighted(&self, bit: u16) -> (b: bool)
        ensures
            b == (self@.selected_bit == bit),
    {
        self.selected_bit == bit
    }

    /// Whether the control register is being edited bit by bit (its value is
    /// highlighted).
    pub fn control_highlighted(&self) -> (b: bool)
        ensures
            b == (self@.selected_bit != NO_BIT),
    {
        self.selected_bit != NO_BIT
    }

    /// Whether register `row` is being edited (its value is highlighted).
    pub fn value_highlighted(&self, row: usize) -> (b: bool)
        ensures
            b == (self@.escribiendo && self@.reg_sel == Some(row)),
    {
        self.escribiendo && self.reg_sel == Some(row)
    }

    /// Handles a key: updates the panel and says what has to be done.
    pub fn handle_key(&mut self, key: Key) -> (r: Reaction)
        ensures
            (final(self)@, r) == old(self)@.step(spec_command(key)),
            final(self)@.wf(),
    {
        let c = command_of(key);
        let (next, r) = self.after(c);
        *self = next;
        proof {
            use_type_invariant(&*self);
        }
        r
    }

    /// Takes a packet that the controller reported.
    pub fn apply_packet(&mut self, p: Paquete)
        requires
            spec_fits_panel(p),
        ensures
            final(self)@ == old(self)@.on_packet(p),
            final(self)@.wf(),
    {
        proof {
            use_type_invariant(&*self);
        }
        let mut registros = self.registros;
        let mut senales = self.senales;
        if p.comando == CMD_WRITE_REGISTER || p.comando == CMD_READ_REGISTER {
            registros[p.registro as usize] = p.valor;
        } else if p.comando == CMD_SET_PIN {
            senales[p.registro as usize] = p.valor == PIN_ON;
        }
        let next = Panel { registros, senales, ..*self };
        assert(next@.registros =~= old(self)@.on_packet(p).registros);
        assert(next@.senales =~= old(self)@.on_packet(p).senales);
        *self = next;
        proof {
            use_type_invariant(&*self);
        }
    }

    /// The panel and the reaction after command `c`.
    fn after(&self, c: Command) -> (res: (Panel, Reaction))
        ensures
            (res.0@, res.1) == self@.step(c),
    {
        proof {
            use_type_invariant(self);
        }
        match c {
            Command::Quit => (*self, Reaction::Quit),
            Command::Ignore => (*self, Reaction::Nothing),
            Command::Next => {
                if self.escribiendo {
                    (*self, Reaction::Nothing)
                } else {
                    let reg_sel = match self.reg_sel {
                        Some(n) => Some(if n == NUM_REGISTERS - 1 { 0 } else { n + 1 }),
                        None => None,
                    };
                    let sig_sel = match self.sig_sel {
                        Some(n) => Some(if n == NUM_SIGNAL_ROWS - 1 { 0 } else { n + 1 }),
                        None => None,
                    };
                    (Panel { reg_sel, sig_sel, ..*self }, Reaction::Nothing)
                }
            },
            Command::Previous => {
                if self.escribiendo {
                    (*self, Reaction::Nothing)
                } else {
                    let reg_sel = match self.reg_sel {
                        Some(n) => Some(if n == 0 { NUM_REGISTERS - 1 } else { n - 1 }),
                        None => None,
                    };
                    let sig_sel = match self.sig_sel {
                        Some(n) => Some(if n == 0 { NUM_SIGNAL_ROWS - 1 } else { n - 1 }),
                        None => None,
                    };
                    (Panel { reg_sel, sig_sel, ..*self }, Reaction::Nothing)
                }
            },
            Command::Right => {
                if !self.escribiendo {
                    let sig_sel = match self.sig_sel {
                        Some(n) => Some(n),
                        None => Some(0),
                    };
                    (Panel { reg_sel: None, sig_sel, ..*self }, Reaction::Nothing)
                } else if self.reg_sel == Some(CONTROL_REGISTER) && self.selected_bit != 0 {
                    (Panel { selected_bit: self.selected_bit - 1, ..*self }, Reaction::Nothing)
                } else {
                    (*self, Reaction::Nothing)
                }
            },
            Command::Left => {
                if !self.escribiendo {
                    let reg_sel = match self.reg_sel {
                        Some(n) => Some(n),
                        None => Some(0),
                    };
                    (Panel { reg_sel, sig_sel: None, ..*self }, Reaction::Nothing)
                } else if self.reg_sel == Some(CONTROL_REGISTER) && self.selected_bit != 15 {
                    (Panel { selected_bit: self.selected_bit + 1, ..*self }, Reaction::Nothing)
                } else {
                    (*self, Reaction::Nothing)
                }
            },
            Command::Toggle => {
                if !self.escribiendo {
                    let next = match self.reg_sel {
                        Some(n) => {
                            if n == CONTROL_REGISTER || FIRST_THRESHOLD_REGISTER <= n {
                                let mut registros = self.registros;
                                registros[n] = 0;
                                let p = Panel {
                                    registros,
                                    registro_buffer: self.registros[n],
                                    escribiendo: true,
                                    selected_bit: if n == CONTROL_REGISTER { 0 } else { self.selected_bit },
                                    ..*self
                                };
                                assert(p@.registros =~= self@.begin_edit(n).registros);
                                p
                            } else {
                                *self
                            }
                        },
                        None => *self,
                    };
                    let reaction = match self.sig_sel {
                        Some(row) => match pin_of_row(row) {
                            Some(pin) => Reaction::Send(arduino_pin_toggle(!self.senales[pin], pin as u8)),
                            None => Reaction::Nothing,
                        },
                        None => Reaction::Nothing,
                    };
                    (next, reaction)
                } else if self.reg_sel == Some(CONTROL_REGISTER) {
                    let mut registros = self.registros;
                    registros[CONTROL_REGISTER] = self.registros[CONTROL_REGISTER] ^ (1u16 << self.selected_bit);
                    let p = Panel { registros, ..*self };
                    assert(p@.registros =~= self@.set_edited(
                        CONTROL_REGISTER,
                        self@.registros[CONTROL_REGISTER as int] ^ (1u16 << self.selected_bit),
                    ).registros);
                    (p, Reaction::Nothing)
                } else {
                    (*self, Reaction::Nothing)
                }
            },
            Command::Commit => {
                match self.reg_sel {
                    Some(n) => {
                        if self.escribiendo {
                            let sent = pico_write(n as u8, self.registros[n]);
                            let next = self.finish_edit(n);
                            (next, Reaction::Send(sent))
                        } else {
                            (*self, Reaction::Nothing)
                        }
                    },
                    None => (*self, Reaction::Nothing),
                }
            },
            Command::Cancel => {
                match self.reg_sel {
                    Some(n) => {
                        if self.escribiendo {
                            (self.finish_edit(n), Reaction::Nothing)
                        } else {
                            (*self, Reaction::Nothing)
                        }
                    },
                    None => (*self, Reaction::Nothing),
                }
            },
            Command::Erase => {
                match self.reg_sel {
                    Some(n) => {
                        if self.escribiendo {
                            let mut registros = self.registros;
                            registros[n] = self.registros[n] / 10;
                            let p = Panel { registros, ..*self };
                            assert(p@.registros =~= self@.set_edited(n, (self@.registros[n as int] / 10) as u16).registros);
                            (p, Reaction::Nothing)
                        } else {
                            (*self, Reaction::Nothing)
                        }
                    },
                    None => (*self, Reaction::Nothing),
                }
            },
            Command::Digit(d) => {
                match self.reg_sel {
                    Some(n) => {
                        if self.escribiendo {
                            let old = self.registros[n];
                            let limit: u16 = if d <= 5 { 6554 } else { 6553 };
                            let v = if d <= 9 && old < limit { old * 10 + d } else if d > 9 && (old as u32) * 10 + (d as u32) <= 0xFFFF { old * 10 + d } else { old };
                            let mut registros = self.registros;
                            registros[n] = v;
                            let p = Panel { registros, ..*self };
                            assert(p@.registros =~= self@.set_edited(n, append_digit(old, d)).registros);
                            (p, Reaction::Nothing)
                        } else {
                            (*self, Reaction::Nothing)
                        }
                    },
                    None => (*self, Reaction::Nothing),
                }
            },
        }
    }

    /// The panel with the edit of register `n` ended.
    fn finish_edit(&self, n: usize) -> (p: Panel)
        requires
            self@.escribiendo,
            self@.reg_sel == Some(n),
        ensures
            p@ == self@.end_edit(n),
    {
        proof {
            use_type_invariant(self);
        }
        let mut registros = self.registros;
        registros[n] = self.registro_buffer;
        let p = Panel {
            registros,
            escribiendo: false,
            selected_bit: if n == CONTROL_REGISTER { NO_BIT } else { self.selected_bit },
            ..*self
        };
        assert(p@.registros =~= self@.end_edit(n).registros);
        p
    }
}

/// The pin that row `row` of the signal table drives, if it is an output.
pub fn pin_of_row(row: usize) -> (pin: Option<usize>)
    ensures
        pin == spec_pin_of_row(row),
{
    if row == 1 {
        Some(1)
    } else if (10 <= row && row <= 14) || row == 16 || row == 17 {
        Some(row - 8)
    } else {
        None
    }
}

} // verus!
