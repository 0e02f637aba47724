//! The reader of the controller's serial line. The serial terminal program
//! first prints a banner; the reader drops what arrives during the first
//! polling rounds, then turns every line into a packet, until the line closes.

use vstd::prelude::*;

use crate::packet::{spec_word_packet, word_packet, Paquete};
use crate::packet::lemma_word_split;
use crate::wire::{is_frame_of, lemma_frame_parses_back, parse_line, strip_line_breaks, u32_text_value, CR, LF};

verus! {

/// Number of polling rounds whose lines are the terminal's banner.
pub const STARTUP_ROUNDS: u32 = 27;

/// What became of one line read from the controller.
#[derive(Clone, Copy, Debug, PartialEq, Eq, Structural)]
pub enum LineOutcome {
    /// The line belongs to the banner and is dropped.
    Discard,
    /// The line carried this packet.
    Deliver(Paquete),
    /// The line carried no unsigned 32-bit decimal.
    Malformed,
    /// Nothing more can be read: the line is closed.
    Closed,
}

/// The abstract state of the reader.
pub struct LinkModel {
    /// Polling rounds completed while the banner was being dropped.
    pub rounds: u32,
    /// Whether lines are still dropped as banner.
    pub startup: bool,
    /// Whether the line has closed.
    pub closed: bool,
}

impl LinkModel {
    pub open spec fn wf(self) -> bool {
        &&& self.rounds <= STARTUP_ROUNDS
        &&& self.startup ==> self.rounds < STARTUP_ROUNDS
    }

    /// What becomes of `line`, as read in this state (an empty read means the
    /// line closed).
    pub open spec fn outcome(self, line: Seq<u8>) -> LineOutcome {
        if line.len() == 0 {
            LineOutcome::Closed
        } else if self.startup {
            LineOutcome::Discard
        } else {
            match u32_text_value(strip_line_breaks(line)) {
                Some(w) => LineOutcome::Deliver(spec_word_packet(w)),
                None => LineOutcome::Malformed,
            }
        }
    }

    /// The state after one more polling round: the banner ends after
    /// `STARTUP_ROUNDS` rounds, or at once when the line closed.
    pub open spec fn after_round(self) -> LinkModel {
        if self.startup {
            LinkModel {
                rounds: (self.rounds + 1) as u32,
                startup: !(self.closed || self.rounds + 1 == STARTUP_ROUNDS),
                ..self
            }
        } else {
            self
        }
    }
}

/// The reader's state.
pub struct LinkReader {
    rounds: u32,
    startup: bool,
    closed: bool,
}

impl View for LinkReader {
    type V = LinkModel;

    closed spec fn view(&self) -> LinkModel {
        LinkModel { rounds: self.rounds, startup: self.startup, closed: self.closed }
    }
}

impl LinkReader {
    #[verifier::type_invariant]
    closed spec fn inv(&self) -> bool {
        self@.wf()
    }

    /// A reader that has not polled yet: the banner is ahead.
    pub fn new() -> (r: LinkReader)
        ensures
            r@ == (LinkModel { rounds: 0, startup: true, closed: false }),
    {
        LinkReader { rounds: 0, startup: true, closed: false }
    }

    /// Whether lines are still dropped as banner.
    pub fn in_startup(&self) -> (b: bool)
        ensures
            b == self@.startup,
    {
        self.startup
    }

    /// Handles the bytes of one read (empty when the line closed or the read
    /// failed).
    pub fn on_line(&mut self, line: &[u8]) -> (o: LineOutcome)
        ensures
            o == old(self)@.outcome(line@),
            final(self)@ == (if line@.len() == 0 {
                LinkModel { closed: true, ..old(self)@ }
            } else {
                old(self)@
            }),
    {
        proof {
            use_type_invariant(&*self);
        }
        if line.len() == 0 {
            *self = LinkReader { rounds: self.rounds, startup: self.startup, closed: true };
            LineOutcome::Closed
        } else if self.startup {
            LineOutcome::Discard
        } else {
            match parse_line(line) {
                Some(w) => LineOutcome::Deliver(word_packet(w)),
                None => LineOutcome::Malformed,
            }
        }
    }

    /// Ends a polling round; says whether to keep polling.
    pub fn end_round(&mut self) -> (keep: bool)
        ensures
            final(self)@ == old(self)@.after_round(),
            keep == (old(self)@.startup || !old(self)@.closed),
    {
        proof {
            use_type_invariant(&*self);
        }
        if self.startup {
            let rounds = self.rounds + 1;
            let startup = !(self.closed || rounds == STARTUP_ROUNDS);
            *self = LinkReader { rounds, startup, closed: self.closed };
            true
        } else {
            !self.closed
        }
    }
}

/// The reader after `k` polling rounds in which the line stayed open.
pub open spec fn rounds_open(s: LinkModel, k: nat) -> LinkModel
    decreases k,
{
    if k == 0 {
        s
    } else {
        rounds_open(s, (k - 1) as nat).after_round()
    }
}

/// On an open line, the banner lasts exactly 27 polling rounds: lines read
/// before are dropped, lines read after are delivered.
pub proof fn lemma_banner_rounds(k: nat)
    requires
        k <= 27,
    ensures
        rounds_open(LinkModel { rounds: 0, startup: true, closed: false }, k) == (LinkModel {
            rounds: k as u32,
            startup: k < 27,
            closed: false,
        }),
    decreases k,
{
    if k > 0 {
        lemma_banner_rounds((k - 1) as nat);
    }
}

/// After the banner, more rounds on an open line change nothing.
pub proof fn lemma_after_banner(k: nat)
    ensures
        rounds_open(LinkModel { rounds: STARTUP_ROUNDS, startup: false, closed: false }, k) == (
        LinkModel { rounds: STARTUP_ROUNDS, startup: false, closed: false }),
    decreases k,
{
    if k > 0 {
        lemma_after_banner((k - 1) as nat);
    }
}

/// After the banner, a line holding the frame of a word (ended by a carriage
/// return and a line feed) delivers the packet whose command, register and
/// value are the word's top byte, next byte and low half.
pub proof fn lemma_delivers_framed_word(s: LinkModel, t: Seq<u8>, w: u32)
    requires
        !s.startup,
        is_frame_of(t, w),
    ensures
        s.outcome(t + seq![CR, LF]) matches LineOutcome::Deliver(p) && p.comando == w >> 24u32
            && p.registro == (w >> 16u32) & 0xFF && p.valor == w & 0xFFFF,
{
    lemma_frame_parses_back(t, w);
    lemma_word_split(w);
    assert((t + seq![CR, LF]).len() > 0);
}

/// An empty read means the line closed, in any state; during the banner
/// every non-empty line is dropped.
pub proof fn lemma_outcomes(s: LinkModel, line: Seq<u8>)
    ensures
        line.len() == 0 ==> s.outcome(line) == LineOutcome::Closed,
        (line.len() > 0 && s.startup) ==> s.outcome(line) == LineOutcome::Discard,
        (line.len() > 0 && !s.startup) ==> s.outcome(line) != LineOutcome::Discard && s.outcome(line)
            != LineOutcome::Closed,
{
}

/// A line that closes during the banner ends the banner at the end of that
/// round, and the reader stops after the next round; after the banner a
/// closed line stops the reader at the end of the round.
pub proof fn lemma_close(s: LinkModel)
    requires
        s.wf(),
        s.closed,
    ensures
        s.startup ==> !s.after_round().startup && s.after_round().closed,
        !s.startup ==> s.after_round() == s,
{
}

} // verus!
