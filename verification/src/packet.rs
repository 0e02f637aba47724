//! Packets exchanged with the controller board and their 32-bit word form.

use vstd::prelude::*;

verus! {

/// Command byte: write a register (also the controller's report of a register).
pub const CMD_WRITE_REGISTER: u8 = 0x25;
/// Command byte: read a register (also the controller's answer to a read).
pub const CMD_READ_REGISTER: u8 = 0x3C;
/// Command byte: set an output pin (also the controller's report of a pin).
pub const CMD_SET_PIN: u8 = 0x29;
/// Command byte that tells the writer to stop; it is never sent on the line.
pub const CMD_STOP: u8 = 0xFF;
/// Pin value that means "on"; every other value means "off".
pub const PIN_ON: u16 = 0xFFFF;
/// Word sent for a packet whose command the controller does not know.
pub const UNKNOWN_WORD: u32 = 0xFFFF_FFFF;

/// One packet: a command, a register (or pin) number and a 16-bit value.
#[derive(Clone, Copy, Debug, PartialEq, Eq, Structural)]
pub struct Paquete {
    pub comando: u8,
    pub registro: u8,
    pub valor: u16,
}

/// The word that the writer sends for `p`, or `None` for the stop command.
/// A write or pin packet is `comando`, `registro` and `valor` side by side
/// (bits 31..24, 23..16, 15..0); a read packet carries no value; any other
/// command becomes the all-ones word.
pub open spec fn spec_packet_word(p: Paquete) -> Option<u32> {
    if p.comando == CMD_WRITE_REGISTER || p.comando == CMD_SET_PIN {
        Some((p.comando as int * 0x100_0000 + p.registro as int * 0x1_0000 + p.valor as int) as u32)
    } else if p.comando == CMD_READ_REGISTER {
        Some((p.comando as int * 0x100_0000 + p.registro as int * 0x1_0000) as u32)
    } else if p.comando == CMD_STOP {
        None
    } else {
        Some(UNKNOWN_WORD)
    }
}

/// The packet that a received word stands for: its top byte is the command,
/// the next byte the register, the low half the value.
pub open spec fn spec_word_packet(w: u32) -> Paquete {
    Paquete {
        comando: (w / 0x100_0000) as u8,
        registro: ((w / 0x1_0000) % 0x100) as u8,
        valor: (w % 0x1_0000) as u16,
    }
}

/// The packet that asks the controller to write `dato` into register `reg`.
pub fn pico_write(reg: u8, dato: u16) -> (p: Paquete)
    ensures
        p == (Paquete { comando: CMD_WRITE_REGISTER, registro: reg, valor: dato }),
{
    Paquete { comando: CMD_WRITE_REGISTER, registro: reg, valor: dato }
}

/// The packet that asks the controller to drive `pin` on (`valor` true) or off.
pub fn arduino_pin_toggle(valor: bool, pin: u8) -> (p: Paquete)
    ensures
        p == (Paquete {
            comando: CMD_SET_PIN,
            registro: pin,
            valor: if valor { PIN_ON } else { 0 },
        }),
{
    Paquete { comando: CMD_SET_PIN, registro: pin, valor: if valor { PIN_ON } else { 0x0000 } }
}

/// The packet that tells the writer to stop.
pub fn stop_packet() -> (p: Paquete)
    ensures
        p == (Paquete { comando: CMD_STOP, registro: 0xFF, valor: 0 }),
{
    Paquete { comando: CMD_STOP, registro: 0xFF, valor: 0 }
}

/// The word that the writer sends for `p`; `None` for the stop command.
pub fn packet_word(p: Paquete) -> (w: Option<u32>)
    ensures
        w == spec_packet_word(p),
{
    let c = p.comando as u32;
    let r = p.registro as u32;
    let v = p.valor as u32;
    if p.comando == CMD_WRITE_REGISTER || p.comando == CMD_SET_PIN {
        let w = c << 24u32 | r << 16u32 | v;
        assert(c < 0x100 && r < 0x100 && v < 0x1_0000 ==> c << 24u32 | r << 16u32 | v
            == c * 0x100_0000 + r * 0x1_0000 + v) by (bit_vector);
        Some(w)
    } else if p.comando == CMD_READ_REGISTER {
        let w = c << 24u32 | r << 16u32;
        assert(c < 0x100 && r < 0x100 ==> c << 24u32 | r << 16u32 == c * 0x100_0000 + r
            * 0x1_0000) by (bit_vector);
        Some(w)
    } else if p.comando == CMD_STOP {
        None
    } else {
        Some(UNKNOWN_WORD)
    }
}

/// The packet that a word received from the controller stands for.
pub fn word_packet(com: u32) -> (p: Paquete)
    ensures
        p == spec_word_packet(com),
{
    assert((com >> 24u32) & 0xFFu32 == com / 0x100_0000) by (bit_vector);
    assert((com >> 16u32) & 0xFFu32 == (com / 0x1_0000) % 0x100) by (bit_vector);
    assert(com & 0xFFFFu32 == com % 0x1_0000) by (bit_vector);
    Paquete {
        comando: ((com >> 24u32) & 0xFFu32) as u8,
        registro: ((com >> 16u32) & 0xFFu32) as u8,
        valor: (com & 0xFFFFu32) as u16,
    }
}

/// A write or pin packet survives its word form: the controller side that
/// splits the word gets back the very packet that was encoded.
pub proof fn lemma_word_roundtrip(p: Paquete)
    requires
        p.comando == CMD_WRITE_REGISTER || p.comando == CMD_SET_PIN,
    ensures
        spec_packet_word(p) matches Some(w) && spec_word_packet(w) == p,
{
    let w = (p.comando as int * 0x100_0000 + p.registro as int * 0x1_0000 + p.valor as int);
    assert(0 <= w < 0x1_0000_0000);
    assert(w / 0x100_0000 == p.comando as int);
    assert((w / 0x1_0000) % 0x100 == p.registro as int);
    assert(w % 0x1_0000 == p.valor as int);
}

/// A read packet loses its value in word form: splitting the word gives the
/// same command and register with value zero.
pub proof fn lemma_read_word_drops_value(p: Paquete)
    requires
        p.comando == CMD_READ_REGISTER,
    ensures
        spec_packet_word(p) matches Some(w) && spec_word_packet(w) == (Paquete {
            valor: 0,
            ..p
        }),
{
    let w = (p.comando as int * 0x100_0000 + p.registro as int * 0x1_0000);
    assert(w / 0x100_0000 == p.comando as int);
    assert((w / 0x1_0000) % 0x100 == p.registro as int);
    assert(w % 0x1_0000 == 0);
}

/// Every word is the encoding of the packet it splits into, when that packet
/// is a write or pin packet: the word form loses nothing.
pub proof fn lemma_packet_roundtrip(w: u32)
    requires
        spec_word_packet(w).comando == CMD_WRITE_REGISTER || spec_word_packet(w).comando
            == CMD_SET_PIN,
    ensures
        spec_packet_word(spec_word_packet(w)) == Some(w),
{
    let p = spec_word_packet(w);
    assert(w == (w / 0x100_0000) * 0x100_0000 + ((w / 0x1_0000) % 0x100) * 0x1_0000 + w
        % 0x1_0000);
}

/// Splitting a word loses nothing, whatever its command: the word is its
/// command byte, register byte and 16-bit value put back side by side, and each
/// part is the corresponding bit field of the word.
pub proof fn lemma_word_split(w: u32)
    ensures
        w as int == spec_word_packet(w).comando as int * 0x100_0000 + spec_word_packet(w).registro as int
            * 0x1_0000 + spec_word_packet(w).valor as int,
        spec_word_packet(w).valor == w & 0xFFFF,
        spec_word_packet(w).registro == (w >> 16u32) & 0xFF,
        spec_word_packet(w).comando == w >> 24u32,
{
    assert(w & 0xFFFF == w % 0x1_0000) by (bit_vector);
    assert((w >> 16u32) & 0xFF == (w / 0x1_0000) % 0x100) by (bit_vector);
    assert(w >> 24u32 == w / 0x100_0000) by (bit_vector);
}

/// Any command, register and value put side by side in a word split back into
/// the same three: decoding depends on the bit fields only, never on the command.
pub proof fn lemma_fields_split_back(c: u8, r: u8, v: u16)
    ensures
        spec_word_packet((c as int * 0x100_0000 + r as int * 0x1_0000 + v as int) as u32) == (Paquete {
            comando: c,
            registro: r,
            valor: v,
        }),
{
    let w = c as int * 0x100_0000 + r as int * 0x1_0000 + v as int;
    assert(0 <= w < 0x1_0000_0000);
    assert(w / 0x100_0000 == c as int);
    assert((w / 0x1_0000) % 0x100 == r as int);
    assert(w % 0x1_0000 == v as int);
}

/// Every packet but the stop packet has a word; a packet whose command the
/// controller does not know becomes the all-ones word.
pub proof fn lemma_every_packet_has_word(p: Paquete)
    ensures
        (spec_packet_word(p) is None) <==> p.comando == CMD_STOP,
        (p.comando != CMD_WRITE_REGISTER && p.comando != CMD_SET_PIN && p.comando != CMD_READ_REGISTER
            && p.comando != CMD_STOP) ==> spec_packet_word(p) == Some(0xFFFF_FFFFu32),
{
}

} // verus!
