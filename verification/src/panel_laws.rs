//! Laws of the panel: what every command keeps, what one command undoes of
//! another, and what the controller's report of a sent packet shows.

use vstd::prelude::*;

use crate::packet::{Paquete, CMD_READ_REGISTER, CMD_SET_PIN, CMD_WRITE_REGISTER};
use crate::panel::{is_editable_register, spec_command, spec_fits_panel, spec_pin_of_row, Command, Key, PanelModel, Reaction, CONTROL_REGISTER, NUM_REGISTERS, NUM_SIGNALS, NUM_SIGNAL_ROWS, NO_BIT};

verus! {

/// The panel after the commands `cs`, one after the other, from `s`.
pub open spec fn run(s: PanelModel, cs: Seq<Command>) -> PanelModel
    decreases cs.len(),
{
    if cs.len() == 0 {
        s
    } else {
        run(s, cs.drop_last()).step(cs.last()).0
    }
}

/// A command that does not end an edit.
pub open spec fn keeps_edit(c: Command) -> bool {
    c != Command::Commit && c != Command::Cancel
}

/// The number that the decimal digits `ds` spell, most significant first.
pub open spec fn digits_number(ds: Seq<u16>) -> nat
    decreases ds.len(),
{
    if ds.len() == 0 {
        0
    } else {
        digits_number(ds.drop_last()) * 10 + ds.last() as nat
    }
}

/// The commands that type the digits `ds`.
pub open spec fn typing(ds: Seq<u16>) -> Seq<Command> {
    Seq::new(ds.len(), |i: int| Command::Digit(ds[i]))
}

/// Every command keeps the panel's invariant.
pub proof fn lemma_step_keeps_wf(s: PanelModel, c: Command)
    requires
        s.wf(),
    ensures
        s.step(c).0.wf(),
{
    if c == Command::Left && s.escribiendo && s.reg_sel == Some(CONTROL_REGISTER) {
        assert(s.selected_bit < 16);
    }
}

/// Every report that fits the panel keeps the panel's invariant.
pub proof fn lemma_packet_keeps_wf(s: PanelModel, p: Paquete)
    requires
        s.wf(),
        spec_fits_panel(p),
    ensures
        s.on_packet(p).wf(),
{
}

/// Only toggling and committing send a packet, and only the quit command quits.
pub proof fn lemma_reactions(s: PanelModel, c: Command)
    ensures
        s.step(c).1 is Send ==> (c == Command::Toggle || c == Command::Commit),
        (s.step(c).1 == Reaction::Quit) <==> c == Command::Quit,
{
}

/// Moving down and then up, or up and then down, selects the row selected
/// before, in whichever table has the selection.
pub proof fn lemma_next_previous(s: PanelModel)
    requires
        s.wf(),
    ensures
        s.step(Command::Next).0.step(Command::Previous).0 == s,
        s.step(Command::Previous).0.step(Command::Next).0 == s,
{
}

/// Flipping the edited bit of the control register twice leaves it as it was.
pub proof fn lemma_bit_flip_twice(s: PanelModel)
    requires
        s.wf(),
        s.escribiendo,
        s.reg_sel == Some(CONTROL_REGISTER),
    ensures
        s.step(Command::Toggle).0.step(Command::Toggle).0 == s,
{
    let x = s.registros[CONTROL_REGISTER as int];
    let b = s.selected_bit;
    assert((x ^ (1u16 << b)) ^ (1u16 << b) == x) by (bit_vector);
    assert(s.step(Command::Toggle).0.step(Command::Toggle).0.registros =~= s.registros);
}

/// Erasing right after typing a digit gives back the value typed over, where
/// the digit fitted.
pub proof fn lemma_erase_undoes_digit(s: PanelModel, d: u16)
    requires
        s.wf(),
        s.escribiendo,
        d <= 9,
        s.reg_sel matches Some(n) && s.registros[n as int] * 10 + d <= u16::MAX,
    ensures
        s.step(Command::Digit(d)).0.step(Command::Erase).0 == s,
{
    let n = s.reg_sel.unwrap();
    let v = s.registros[n as int];
    assert((v * 10 + d) / 10 == v);
    assert(s.step(Command::Digit(d)).0.step(Command::Erase).0.registros =~= s.registros);
}

/// While an edit of register `n` that began in state `s` goes on, the
/// registers other than `n` are those of `s`, the value of `n` before the edit
/// is kept aside, the selection is unchanged, and nothing was sent.
pub open spec fn editing_from(t: PanelModel, s: PanelModel, n: usize) -> bool {
    &&& t.wf()
    &&& t.escribiendo
    &&& t.reg_sel == Some(n)
    &&& t.sig_sel == s.sig_sel
    &&& t.senales == s.senales
    &&& t.registro_buffer == s.registros[n as int]
    &&& t.registros.len() == s.registros.len()
    &&& forall|i: int| 0 <= i < t.registros.len() && i != n ==> t.registros[i] == s.registros[i]
}

proof fn lemma_edit_goes_on(s: PanelModel, n: usize, cs: Seq<Command>)
    requires
        s.wf(),
        !s.escribiendo,
        s.reg_sel == Some(n),
        is_editable_register(n),
        forall|i: int| 0 <= i < cs.len() ==> keeps_edit(#[trigger] cs[i]),
    ensures
        editing_from(run(s.step(Command::Toggle).0, cs), s, n),
    decreases cs.len(),
{
    let t = s.step(Command::Toggle).0;
    if cs.len() > 0 {
        let init = cs.drop_last();
        assert forall|i: int| 0 <= i < init.len() implies keeps_edit(#[trigger] init[i]) by {
            assert(init[i] == cs[i]);
        }
        lemma_edit_goes_on(s, n, init);
        let u = run(t, init);
        lemma_step_keeps_wf(u, cs.last());
        assert(keeps_edit(cs[cs.len() - 1]));
    }
}

/// Cancelling an edit puts every register back as it was before the edit
/// began, whatever was typed, flipped or erased in between, and sends nothing.
pub proof fn lemma_cancel_restores(s: PanelModel, n: usize, cs: Seq<Command>)
    requires
        s.wf(),
        !s.escribiendo,
        s.reg_sel == Some(n),
        is_editable_register(n),
        forall|i: int| 0 <= i < cs.len() ==> keeps_edit(#[trigger] cs[i]),
    ensures
        run(s.step(Command::Toggle).0, cs).step(Command::Cancel).0 == (PanelModel {
            registro_buffer: s.registros[n as int],
            ..s
        }),
        run(s.step(Command::Toggle).0, cs).step(Command::Cancel).1 == Reaction::Nothing,
{
    lemma_edit_goes_on(s, n, cs);
    let u = run(s.step(Command::Toggle).0, cs);
    assert(u.step(Command::Cancel).0.registros =~= s.registros);
}

/// Committing an edit sends the edited value to register `n` and shows the
/// registers as they were before the edit until the controller reports back.
pub proof fn lemma_commit_sends_edit(s: PanelModel, n: usize, cs: Seq<Command>)
    requires
        s.wf(),
        !s.escribiendo,
        s.reg_sel == Some(n),
        is_editable_register(n),
        forall|i: int| 0 <= i < cs.len() ==> keeps_edit(#[trigger] cs[i]),
    ensures
        ({
            let u = run(s.step(Command::Toggle).0, cs);
            &&& u.step(Command::Commit).0 == (PanelModel {
                registro_buffer: s.registros[n as int],
                ..s
            })
            &&& u.step(Command::Commit).1 == Reaction::Send(
                Paquete { comando: CMD_WRITE_REGISTER, registro: n as u8, valor: u.registros[n as int] },
            )
        }),
{
    lemma_edit_goes_on(s, n, cs);
    let u = run(s.step(Command::Toggle).0, cs);
    assert(u.step(Command::Commit).0.registros =~= s.registros);
}

/// When the controller reports the packet that a commit sent, the panel shows
/// the committed value in the committed register: a read gives back the write.
pub proof fn lemma_commit_echo(s: PanelModel)
    requires
        s.wf(),
        s.escribiendo,
    ensures
        s.step(Command::Commit).1 matches Reaction::Send(p) && spec_fits_panel(p)
            && s.step(Command::Commit).0.on_packet(p).registros[p.registro as int]
            == s.registros[p.registro as int] && s.reg_sel == Some(p.registro as usize),
{
}

/// When the controller reports the pin packet that a toggle sent, the panel
/// shows that signal flipped and every other signal as before.
pub proof fn lemma_toggle_echo(s: PanelModel, pin: usize)
    requires
        s.wf(),
        !s.escribiendo,
        s.sig_sel matches Some(row) && spec_pin_of_row(row) == Some(pin),
    ensures
        s.step(Command::Toggle).1 matches Reaction::Send(p) && spec_fits_panel(p) && {
            let shown = s.step(Command::Toggle).0.on_packet(p).senales;
            &&& shown[pin as int] == !s.senales[pin as int]
            &&& forall|i: int| 0 <= i < NUM_SIGNALS && i != pin ==> shown[i] == s.senales[i]
        },
{
}

/// Typing digits into a freshly begun edit shows the number they spell, as
/// long as that number fits in 16 bits.
pub proof fn lemma_typing_digits(s: PanelModel, n: usize, ds: Seq<u16>)
    requires
        s.wf(),
        !s.escribiendo,
        s.reg_sel == Some(n),
        is_editable_register(n),
        forall|i: int| 0 <= i < ds.len() ==> #[trigger] ds[i] <= 9,
        digits_number(ds) <= u16::MAX,
    ensures
        run(s.step(Command::Toggle).0, typing(ds)).registros[n as int] == digits_number(ds),
    decreases ds.len(),
{
    let t = s.step(Command::Toggle).0;
    assert forall|i: int| 0 <= i < typing(ds).len() implies keeps_edit(#[trigger] typing(ds)[i]) by {}
    lemma_edit_goes_on(s, n, typing(ds));
    if ds.len() > 0 {
        let init = ds.drop_last();
        assert forall|i: int| 0 <= i < init.len() implies #[trigger] init[i] <= 9 by {
            assert(init[i] == ds[i]);
        }
        assert(digits_number(init) <= digits_number(ds));
        lemma_typing_digits(s, n, init);
        assert(typing(ds).drop_last() =~= typing(init));
        assert forall|i: int| 0 <= i < typing(init).len() implies keeps_edit(#[trigger] typing(init)[i]) by {}
        lemma_edit_goes_on(s, n, typing(init));
        let u = run(t, typing(init));
        let d = ds[ds.len() - 1];
        assert(d <= 9);
        assert(typing(ds).last() == Command::Digit(d));
        assert(run(t, typing(ds)) == u.step(Command::Digit(d)).0);
        assert(u.registros[n as int] == digits_number(init));
        assert(digits_number(ds) == digits_number(init) * 10 + d);
    } else {
        assert(t.registros[n as int] == 0);
    }
}

/// Space on an output row of the signal table sends a pin packet for the
/// signal shown in that row (row 1 shows signal 1; rows 10 to 17 show signals
/// 2 to 9), driving it on when it is reported off and off when it is reported
/// on; the panel itself does not change. Space on an input or analog row (0,
/// 2 to 9, 15) does nothing.
pub proof fn lemma_toggle_output_row(s: PanelModel, r: usize)
    requires
        s.wf(),
        !s.escribiendo,
        s.sig_sel == Some(r),
    ensures
        s.step(Command::Toggle).0 == s,
        (r == 1 || (10 <= r <= 14) || r == 16 || r == 17) ==> {
            let pin: int = if r == 1 { 1 } else { r - 8 };
            s.step(Command::Toggle).1 == Reaction::Send(
                Paquete {
                    comando: CMD_SET_PIN,
                    registro: pin as u8,
                    valor: if s.senales[pin] { 0 } else { 0xFFFF },
                },
            )
        },
        (r == 0 || (2 <= r <= 9) || r == 15) ==> s.step(Command::Toggle).1 == Reaction::Nothing,
{
}

/// A register report or read answer for register `p.registro` shows `p.valor`
/// in that register, for every register, and changes nothing else.
pub proof fn lemma_report_register(s: PanelModel, p: Paquete)
    requires
        s.wf(),
        p.comando == CMD_WRITE_REGISTER || p.comando == CMD_READ_REGISTER,
        p.registro < NUM_REGISTERS,
    ensures
        s.on_packet(p).registros.len() == NUM_REGISTERS,
        s.on_packet(p).registros[p.registro as int] == p.valor,
        forall|i: int| 0 <= i < NUM_REGISTERS && i != p.registro ==> s.on_packet(p).registros[i] == s.registros[i],
        s.on_packet(p).senales == s.senales,
        s.on_packet(p).reg_sel == s.reg_sel,
        s.on_packet(p).sig_sel == s.sig_sel,
        s.on_packet(p).escribiendo == s.escribiendo,
        s.on_packet(p).registro_buffer == s.registro_buffer,
        s.on_packet(p).selected_bit == s.selected_bit,
{
}

/// A pin report for signal `p.registro` shows it on exactly when the value is
/// all ones, and changes nothing else; a report with any other command
/// changes nothing.
pub proof fn lemma_report_pin(s: PanelModel, p: Paquete)
    requires
        s.wf(),
    ensures
        (p.comando == CMD_SET_PIN && p.registro < NUM_SIGNALS) ==> {
            &&& s.on_packet(p).senales[p.registro as int] == (p.valor == 0xFFFF)
            &&& forall|i: int| 0 <= i < NUM_SIGNALS && i != p.registro ==> s.on_packet(p).senales[i] == s.senales[i]
            &&& s.on_packet(p).registros == s.registros
            &&& s.on_packet(p).reg_sel == s.reg_sel
            &&& s.on_packet(p).sig_sel == s.sig_sel
            &&& s.on_packet(p).escribiendo == s.escribiendo
        },
        (p.comando != CMD_SET_PIN && p.comando != CMD_WRITE_REGISTER && p.comando != CMD_READ_REGISTER)
            ==> s.on_packet(p) == s,
{
}

/// Every packet for an existing register, or for an existing signal, or with
/// a command the panel does not show, fits the panel.
pub proof fn lemma_fits(p: Paquete)
    ensures
        ((p.comando == CMD_WRITE_REGISTER || p.comando == CMD_READ_REGISTER) && p.registro < NUM_REGISTERS)
            ==> spec_fits_panel(p),
        (p.comando == CMD_SET_PIN && p.registro < NUM_SIGNALS) ==> spec_fits_panel(p),
        (p.comando != CMD_SET_PIN && p.comando != CMD_WRITE_REGISTER && p.comando != CMD_READ_REGISTER)
            ==> spec_fits_panel(p),
{
}

/// The number that the decimal digit characters `cs` spell, most significant first.
pub open spec fn chars_number(cs: Seq<char>) -> nat
    decreases cs.len(),
{
    if cs.len() == 0 {
        0
    } else {
        chars_number(cs.drop_last()) * 10 + (cs.last() as int - 48) as nat
    }
}

/// The commands of the keys `cs`, one after the other.
pub open spec fn key_commands(cs: Seq<char>) -> Seq<Command> {
    Seq::new(cs.len(), |i: int| spec_command(Key::Char(cs[i])))
}

/// Each digit key types its own digit.
pub proof fn lemma_digit_keys(c: char)
    requires
        '0' <= c <= '9',
    ensures
        spec_command(Key::Char(c)) == Command::Digit((c as int - 48) as u16),
{
}

proof fn lemma_chars_digits(cs: Seq<char>)
    requires
        forall|i: int| 0 <= i < cs.len() ==> '0' <= #[trigger] cs[i] <= '9',
    ensures
        key_commands(cs) == typing(Seq::new(cs.len(), |i: int| (cs[i] as int - 48) as u16)),
        digits_number(Seq::new(cs.len(), |i: int| (cs[i] as int - 48) as u16)) == chars_number(cs),
    decreases cs.len(),
{
    let ds = Seq::new(cs.len(), |i: int| (cs[i] as int - 48) as u16);
    assert forall|i: int| 0 <= i < cs.len() implies key_commands(cs)[i] == typing(ds)[i] by {
        lemma_digit_keys(cs[i]);
    }
    assert(key_commands(cs) =~= typing(ds));
    if cs.len() > 0 {
        let init = cs.drop_last();
        assert forall|i: int| 0 <= i < init.len() implies '0' <= #[trigger] init[i] <= '9' by {
            assert(init[i] == cs[i]);
        }
        lemma_chars_digits(init);
        let dsi = Seq::new(init.len(), |i: int| (init[i] as int - 48) as u16);
        assert(ds.drop_last() =~= dsi);
        assert('0' <= cs[cs.len() - 1] <= '9');
    }
}

/// Typing the digit keys `cs` into a freshly begun edit shows the number that
/// the characters spell, as long as it fits in 16 bits.
pub proof fn lemma_typing_keys(s: PanelModel, n: usize, cs: Seq<char>)
    requires
        s.wf(),
        !s.escribiendo,
        s.reg_sel == Some(n),
        is_editable_register(n),
        forall|i: int| 0 <= i < cs.len() ==> '0' <= #[trigger] cs[i] <= '9',
        chars_number(cs) <= u16::MAX,
    ensures
        run(s.step(spec_command(Key::Char(' '))).0, key_commands(cs)).registros[n as int] == chars_number(cs),
{
    let ds = Seq::new(cs.len(), |i: int| (cs[i] as int - 48) as u16);
    lemma_chars_digits(cs);
    assert forall|i: int| 0 <= i < ds.len() implies #[trigger] ds[i] <= 9 by {
        assert('0' <= cs[i] <= '9');
    }
    lemma_typing_digits(s, n, ds);
}

/// A digit that fits appends to the edited value (ten times it plus the
/// digit); one that does not fit changes nothing. Erasing divides by ten.
pub proof fn lemma_digit_and_erase(s: PanelModel, d: u16)
    requires
        s.wf(),
        s.escribiendo,
        d <= 9,
    ensures
        s.reg_sel matches Some(n) && {
            let v = s.registros[n as int];
            &&& (v * 10 + d <= 65535 ==> s.step(Command::Digit(d)).0 == s.set_edited(n, (v * 10 + d) as u16))
            &&& (v * 10 + d > 65535 ==> s.step(Command::Digit(d)).0 == s)
            &&& s.step(Command::Erase).0 == s.set_edited(n, (v / 10) as u16)
            &&& s.step(Command::Erase).0.registros[n as int] * 10 <= v
            &&& v < s.step(Command::Erase).0.registros[n as int] * 10 + 10
        },
{
    let n = s.reg_sel.unwrap();
    let v = s.registros[n as int];
    assert((v / 10) * 10 <= v < (v / 10) * 10 + 10);
    assert(s.step(Command::Erase).0.registros[n as int] == v / 10);
    if v * 10 + d > 65535 {
        assert(s.step(Command::Digit(d)).0.registros =~= s.registros);
    }
}

/// Down and Up move the selection of whichever table has it by one row, with
/// wrap-around; nothing else changes. While a register is edited they do nothing.
pub proof fn lemma_move_selection(s: PanelModel)
    requires
        s.wf(),
    ensures
        !s.escribiendo ==> s.step(Command::Next).0 == (PanelModel {
            reg_sel: match s.reg_sel { Some(n) => Some(((n + 1) % (NUM_REGISTERS as int)) as usize), None => None },
            sig_sel: match s.sig_sel { Some(n) => Some(((n + 1) % (NUM_SIGNAL_ROWS as int)) as usize), None => None },
            ..s
        }),
        !s.escribiendo ==> s.step(Command::Previous).0 == (PanelModel {
            reg_sel: match s.reg_sel {
                Some(n) => Some(((n + NUM_REGISTERS - 1) % (NUM_REGISTERS as int)) as usize),
                None => None,
            },
            sig_sel: match s.sig_sel {
                Some(n) => Some(((n + NUM_SIGNAL_ROWS - 1) % (NUM_SIGNAL_ROWS as int)) as usize),
                None => None,
            },
            ..s
        }),
        s.escribiendo ==> s.step(Command::Next) == (s, Reaction::Nothing),
        s.escribiendo ==> s.step(Command::Previous) == (s, Reaction::Nothing),
{
}

/// Right moves the selection from the register table to the first row of the
/// signal table; Left moves it from the signal table to the first register.
/// In the table that already has it they change nothing.
pub proof fn lemma_switch_tables(s: PanelModel)
    requires
        s.wf(),
        !s.escribiendo,
    ensures
        s.reg_sel is Some ==> s.step(Command::Right).0 == (PanelModel { reg_sel: None, sig_sel: Some(0), ..s }),
        s.sig_sel is Some ==> s.step(Command::Right).0 == s,
        s.sig_sel is Some ==> s.step(Command::Left).0 == (PanelModel { reg_sel: Some(0), sig_sel: None, ..s }),
        s.reg_sel is Some ==> s.step(Command::Left).0 == s,
        s.step(Command::Right).1 == Reaction::Nothing,
        s.step(Command::Left).1 == Reaction::Nothing,
{
}

/// While the control register is edited, Left moves to the next more
/// significant bit and Right to the next less significant one, stopping at
/// bit 15 and bit 0; nothing else changes.
pub proof fn lemma_move_bit(s: PanelModel)
    requires
        s.wf(),
        s.escribiendo,
        s.reg_sel == Some(CONTROL_REGISTER),
    ensures
        s.step(Command::Left).0 == (PanelModel {
            selected_bit: if s.selected_bit < 15 { (s.selected_bit + 1) as u16 } else { 15 },
            ..s
        }),
        s.step(Command::Right).0 == (PanelModel {
            selected_bit: if s.selected_bit > 0 { (s.selected_bit - 1) as u16 } else { 0 },
            ..s
        }),
{
}

/// While the control register is edited, space flips exactly the selected bit
/// of it and leaves every other bit and every other register as it was.
pub proof fn lemma_flip_selected_bit(s: PanelModel)
    requires
        s.wf(),
        s.escribiendo,
        s.reg_sel == Some(CONTROL_REGISTER),
    ensures
        ({
            let old = s.registros[CONTROL_REGISTER as int];
            let new = s.step(Command::Toggle).0.registros[CONTROL_REGISTER as int];
            forall|k: u16| k < 16 ==> ((((new >> k) & 1) != ((old >> k) & 1)) <==> k == s.selected_bit)
        }),
        forall|i: int| 0 <= i < NUM_REGISTERS && i != CONTROL_REGISTER ==> s.step(Command::Toggle).0.registros[i]
            == s.registros[i],
        s.step(Command::Toggle).1 == Reaction::Nothing,
{
    let old = s.registros[CONTROL_REGISTER as int];
    let b = s.selected_bit;
    let new = s.step(Command::Toggle).0.registros[CONTROL_REGISTER as int];
    assert(new == old ^ (1u16 << b));
    assert forall|k: u16| k < 16 implies ((((new >> k) & 1) != ((old >> k) & 1)) <==> k == b) by {
        assert(b < 16 && k < 16 && new == old ^ (1u16 << b) ==> ((((new >> k) & 1) != ((old >> k) & 1))
            <==> k == b)) by (bit_vector);
    }
}

/// Space on an editable register begins its edit: the register shows zero,
/// its value is kept aside, and the control register starts at bit 0. Space on
/// a read-only register (0, 2 to 9) does nothing.
pub proof fn lemma_begin_edit(s: PanelModel, n: usize)
    requires
        s.wf(),
        !s.escribiendo,
        s.reg_sel == Some(n),
    ensures
        (n == 1 || 10 <= n < 20) ==> {
            let t = s.step(Command::Toggle).0;
            &&& t.escribiendo
            &&& t.registros[n as int] == 0
            &&& t.registro_buffer == s.registros[n as int]
            &&& forall|i: int| 0 <= i < NUM_REGISTERS && i != n ==> t.registros[i] == s.registros[i]
            &&& t.selected_bit == (if n == 1 { 0 } else { NO_BIT })
            &&& t.reg_sel == s.reg_sel
        },
        (n == 0 || 2 <= n <= 9) ==> s.step(Command::Toggle).0 == s,
        s.step(Command::Toggle).1 == Reaction::Nothing,
{
}

/// The key bindings: q and Q quit; j, J and Down move down; k, K and Up move
/// up; l, L and Right move right; h, H and Left move left; space toggles;
/// Enter commits; Esc cancels; Backspace erases.
pub proof fn lemma_key_bindings()
    ensures
        spec_command(Key::Char('q')) == Command::Quit && spec_command(Key::Char('Q')) == Command::Quit,
        spec_command(Key::Char('j')) == Command::Next && spec_command(Key::Char('J')) == Command::Next
            && spec_command(Key::Down) == Command::Next,
        spec_command(Key::Char('k')) == Command::Previous && spec_command(Key::Char('K'))
            == Command::Previous && spec_command(Key::Up) == Command::Previous,
        spec_command(Key::Char('l')) == Command::Right && spec_command(Key::Char('L')) == Command::Right
            && spec_command(Key::Right) == Command::Right,
        spec_command(Key::Char('h')) == Command::Left && spec_command(Key::Char('H')) == Command::Left
            && spec_command(Key::Left) == Command::Left,
        spec_command(Key::Char(' ')) == Command::Toggle,
        spec_command(Key::Enter) == Command::Commit,
        spec_command(Key::Esc) == Command::Cancel,
        spec_command(Key::Backspace) == Command::Erase,
        spec_command(Key::Other) == Command::Ignore,
        forall|c: char| (#[trigger] spec_command(Key::Char(c)) == Command::Quit) <==> (c == 'q' || c == 'Q'),
        forall|c: char| (#[trigger] spec_command(Key::Char(c)) == Command::Next) <==> (c == 'j' || c == 'J'),
        forall|c: char| (#[trigger] spec_command(Key::Char(c)) == Command::Previous) <==> (c == 'k' || c == 'K'),
        forall|c: char| (#[trigger] spec_command(Key::Char(c)) == Command::Right) <==> (c == 'l' || c == 'L'),
        forall|c: char| (#[trigger] spec_command(Key::Char(c)) == Command::Left) <==> (c == 'h' || c == 'H'),
        forall|c: char| (#[trigger] spec_command(Key::Char(c)) == Command::Toggle) <==> c == ' ',
        forall|c: char| (#[trigger] spec_command(Key::Char(c)) is Digit) <==> ('0' <= c <= '9'),
        forall|c: char| #[trigger] spec_command(Key::Char(c)) != Command::Commit && spec_command(Key::Char(c))
            != Command::Cancel && spec_command(Key::Char(c)) != Command::Erase,
{
}

} // verus!
