//! Frames on the serial byte stream.
//!
//! A frame is the start sentinel, a length field of four bytes (little
//! endian), that many payload bytes, and the end sentinel. The reader takes
//! the stream byte by byte. It looks for a sentinel through a sliding
//! window that never grows beyond the sentinel, so bytes that belong to no
//! frame cost no memory and the reader falls into step again by itself.
//!
//! The end sentinel is looked for within a bound. A payload that is not
//! closed within the bound is a malformed frame: the reader gives it up,
//! yields nothing and stays out of step until it is reset, which is what
//! a link failure leads to.

use crate::views::{bytes_view, frames_view};
use vstd::prelude::*;

verus! {

/// The number of bytes of the length field.
pub const LENGTH_FIELD_BYTES: usize = 4;

/// How many bytes may follow a complete payload before its end sentinel
/// must be complete. The sentinel itself counts, so a frame that is closed
/// at once uses six of them.
pub const END_SEARCH_LIMIT: usize = 64;

/// The bytes that open a frame: the ASCII text `IMGSTART`.
pub open spec fn start_sentinel() -> Seq<u8> {
    seq![73u8, 77u8, 71u8, 83u8, 84u8, 65u8, 82u8, 84u8]
}

/// The bytes that close a frame: the ASCII text `IMGEND`.
pub open spec fn end_sentinel() -> Seq<u8> {
    seq![73u8, 77u8, 71u8, 69u8, 78u8, 68u8]
}

/// The window after `byte` has come in: the byte is appended, and the
/// oldest byte leaves once the window is longer than `cap`.
pub open spec fn slide(window: Seq<u8>, byte: u8, cap: nat) -> Seq<u8> {
    let grown = window.push(byte);
    if grown.len() > cap {
        grown.drop_first()
    } else {
        grown
    }
}

/// The number that the first four bytes of `field` write, lowest byte
/// first.
pub open spec fn le_value(field: Seq<u8>) -> nat {
    field[0] as nat + field[1] as nat * 0x100 + field[2] as nat * 0x1_0000 + field[3] as nat
        * 0x100_0000
}

/// What the reader is waiting for.
#[derive(Clone, Copy, Debug, PartialEq, Eq)]
pub enum ReaderPhase {
    /// The start sentinel.
    SeekStart,
    /// The rest of the length field.
    Length,
    /// The rest of the payload.
    Payload,
    /// The end sentinel.
    SeekEnd,
    /// Nothing: the end sentinel did not come within the bound, and the
    /// reader is out of step until it is reset.
    Desynced,
}

/// The state of a reader, as plain mathematical values.
pub struct ReaderModel {
    /// What the reader is waiting for.
    pub phase: ReaderPhase,
    /// The sliding window, while a sentinel is looked for.
    pub window: Seq<u8>,
    /// The bytes of the length field read so far.
    pub header: Seq<u8>,
    /// The payload size that the length field gave.
    pub expected: nat,
    /// The payload bytes read so far.
    pub payload: Seq<u8>,
    /// How many bytes were seen since the payload was complete.
    pub seen: nat,
}

impl ReaderModel {
    /// The state at the start of a stream, and after each frame.
    pub open spec fn initial() -> ReaderModel {
        ReaderModel {
            phase: ReaderPhase::SeekStart,
            window: Seq::empty(),
            header: Seq::empty(),
            expected: 0,
            payload: Seq::empty(),
            seen: 0,
        }
    }

    /// The state of a reader that is out of step: nothing of the frame that
    /// was under way is kept.
    pub open spec fn desynced() -> ReaderModel {
        ReaderModel { phase: ReaderPhase::Desynced, ..Self::initial() }
    }

    /// The state in which the length field is awaited.
    pub open spec fn awaiting_length() -> ReaderModel {
        ReaderModel { phase: ReaderPhase::Length, ..Self::initial() }
    }

    /// The state in which `payload`, complete, awaits the end sentinel;
    /// `window` is what the search holds of the `seen` bytes that came since.
    pub open spec fn awaiting_end(payload: Seq<u8>, window: Seq<u8>, seen: nat) -> ReaderModel {
        ReaderModel {
            phase: ReaderPhase::SeekEnd,
            window,
            header: Seq::empty(),
            expected: payload.len(),
            payload,
            seen,
        }
    }

    /// The state after the length field has announced `expected` bytes.
    pub open spec fn after_length(expected: nat) -> ReaderModel {
        if expected == 0 {
            Self::awaiting_end(Seq::empty(), Seq::empty(), 0)
        } else {
            ReaderModel { phase: ReaderPhase::Payload, expected, ..Self::initial() }
        }
    }

    /// The state after one more byte, and the payload of the frame that
    /// this byte completed, if it completed one. A byte that leaves the end
    /// sentinel incomplete when the bound is reached puts the reader out of
    /// step; a reader out of step takes bytes and yields nothing.
    pub open spec fn step(self, byte: u8) -> (ReaderModel, Option<Seq<u8>>) {
        match self.phase {
            ReaderPhase::SeekStart => {
                let window = slide(self.window, byte, start_sentinel().len());
                if window == start_sentinel() {
                    (Self::awaiting_length(), None)
                } else {
                    (ReaderModel { window, ..self }, None)
                }
            },
            ReaderPhase::Length => {
                let header = self.header.push(byte);
                if header.len() >= LENGTH_FIELD_BYTES {
                    (Self::after_length(le_value(header)), None)
                } else {
                    (ReaderModel { header, ..self }, None)
                }
            },
            ReaderPhase::Payload => {
                let payload = self.payload.push(byte);
                if payload.len() >= self.expected {
                    (
                        ReaderModel {
                            phase: ReaderPhase::SeekEnd,
                            window: Seq::empty(),
                            header: Seq::empty(),
                            payload,
                            seen: 0,
                            ..self
                        },
                        None,
                    )
                } else {
                    (ReaderModel { payload, ..self }, None)
                }
            },
            ReaderPhase::SeekEnd => {
                let window = slide(self.window, byte, end_sentinel().len());
                if window == end_sentinel() {
                    (Self::initial(), Some(self.payload))
                } else if self.seen + 1 >= END_SEARCH_LIMIT {
                    (Self::desynced(), None)
                } else {
                    (ReaderModel { window, seen: self.seen + 1, ..self }, None)
                }
            },
            ReaderPhase::Desynced => (self, None),
        }
    }

    /// The state after a run of bytes, and the payloads of the frames that
    /// the run completed, in order.
    pub open spec fn run(self, bytes: Seq<u8>) -> (ReaderModel, Seq<Seq<u8>>)
        decreases bytes.len(),
    {
        if bytes.len() == 0 {
            (self, Seq::empty())
        } else {
            let (before, frames) = self.run(bytes.drop_last());
            let (after, frame) = before.step(bytes.last());
            match frame {
                Some(payload) => (after, frames.push(payload)),
                None => (after, frames),
            }
        }
    }

    /// The bounds that every state reached from the initial one keeps: the
    /// window is no longer than the sentinel looked for, the length field
    /// is incomplete, a payload still awaited is incomplete, and the search
    /// for the end sentinel is within its bound.
    pub open spec fn wf(self) -> bool {
        &&& self.header.len() < LENGTH_FIELD_BYTES
        &&& self.expected <= u32::MAX
        &&& match self.phase {
            ReaderPhase::SeekStart => self.window.len() <= start_sentinel().len(),
            ReaderPhase::Length => self.window.len() == 0,
            ReaderPhase::Payload => self.window.len() == 0 && self.payload.len() < self.expected,
            ReaderPhase::SeekEnd => self.window.len() <= end_sentinel().len()
                && self.payload.len() == self.expected && self.seen < END_SEARCH_LIMIT,
            ReaderPhase::Desynced => self.window.len() == 0,
        }
    }

    /// How many bytes are sure to be taken without completing a frame
    /// before the last of them: one while a sentinel is looked for or the
    /// reader is out of step, else what is missing of the length field or
    /// of the payload.
    pub open spec fn wanted(self) -> nat {
        match self.phase {
            ReaderPhase::SeekStart | ReaderPhase::SeekEnd | ReaderPhase::Desynced => 1,
            ReaderPhase::Length => if self.header.len() < LENGTH_FIELD_BYTES {
                (LENGTH_FIELD_BYTES - self.header.len()) as nat
            } else {
                1
            },
            ReaderPhase::Payload => if self.payload.len() < self.expected {
                (self.expected - self.payload.len()) as nat
            } else {
                1
            },
        }
    }
}

/// Whether `window` is the start sentinel.
fn is_start_sentinel(window: &Vec<u8>) -> (found: bool)
    ensures
        found == (window@ == start_sentinel()),
{
    let found = window.len() == 8 && window[0] == 73 && window[1] == 77 && window[2] == 71
        && window[3] == 83 && window[4] == 84 && window[5] == 65 && window[6] == 82 && window[7]
        == 84;
    proof {
        if found {
            assert(window@ =~= start_sentinel());
        }
    }
    found
}

/// Whether `window` is the end sentinel.
fn is_end_sentinel(window: &Vec<u8>) -> (found: bool)
    ensures
        found == (window@ == end_sentinel()),
{
    let found = window.len() == 6 && window[0] == 73 && window[1] == 77 && window[2] == 71
        && window[3] == 69 && window[4] == 78 && window[5] == 68;
    proof {
        if found {
            assert(window@ =~= end_sentinel());
        }
    }
    found
}

/// Appends `byte` to `window` and drops the oldest byte once the window is
/// longer than `cap`.
fn slide_window(window: &mut Vec<u8>, byte: u8, cap: usize)
    ensures
        final(window)@ == slide(old(window)@, byte, cap as nat),
{
    window.push(byte);
    if window.len() > cap {
        let _ = window.remove(0);
        assert(window@ =~= old(window)@.push(byte).drop_first());
    }
}

/// The number that the first four bytes of `field` write, lowest byte
/// first.
fn length_of(field: &Vec<u8>) -> (length: u32)
    requires
        field.len() >= LENGTH_FIELD_BYTES,
    ensures
        length == le_value(field@),
{
    let b0: u32 = field[0] as u32;
    let b1: u32 = field[1] as u32;
    let b2: u32 = field[2] as u32;
    let b3: u32 = field[3] as u32;
    b0 + b1 * 0x100 + b2 * 0x1_0000 + b3 * 0x100_0000
}

/// Extracts image payloads from the serial byte stream.
pub struct FrameReader {
    phase: ReaderPhase,
    window: Vec<u8>,
    header: Vec<u8>,
    expected: u32,
    payload: Vec<u8>,
    seen: usize,
}

impl View for FrameReader {
    type V = ReaderModel;

    closed spec fn view(&self) -> ReaderModel {
        ReaderModel {
            phase: self.phase,
            window: self.window@,
            header: self.header@,
            expected: self.expected as nat,
            payload: self.payload@,
            seen: self.seen as nat,
        }
    }
}

impl FrameReader {
    /// A reader at the start of a stream.
    pub fn new() -> (reader: Self)
        ensures
            reader@ == ReaderModel::initial(),
            reader@.wf(),
    {
        FrameReader {
            phase: ReaderPhase::SeekStart,
            window: Vec::new(),
            header: Vec::new(),
            expected: 0,
            payload: Vec::new(),
            seen: 0,
        }
    }

    /// Forgets a frame that was under way and starts over, as after a
    /// failure of the link: nothing of a partial frame is kept.
    pub fn reset(&mut self)
        ensures
            final(self)@ == ReaderModel::initial(),
            final(self)@.wf(),
    {
        self.phase = ReaderPhase::SeekStart;
        self.window = Vec::new();
        self.header = Vec::new();
        self.expected = 0;
        self.payload = Vec::new();
        self.seen = 0;
    }

    /// Whether the reader is out of step: a payload was not closed by the
    /// end sentinel within the bound.
    pub fn is_desynced(&self) -> (desynced: bool)
        ensures
            desynced == (self@.phase is Desynced),
    {
        match self.phase {
            ReaderPhase::Desynced => true,
            _ => false,
        }
    }

    /// What the reader is waiting for.
    pub fn phase(&self) -> (phase: ReaderPhase)
        ensures
            phase == self@.phase,
    {
        self.phase
    }

    /// How many bytes to read from the link in one piece: one while a
    /// sentinel is looked for or the reader is out of step, else what is
    /// missing of the length field or of the payload.
    pub fn bytes_wanted(&self) -> (count: usize)
        ensures
            count == self@.wanted(),
            count >= 1,
    {
        match self.phase {
            ReaderPhase::SeekStart => 1,
            ReaderPhase::SeekEnd => 1,
            ReaderPhase::Desynced => 1,
            ReaderPhase::Length => if self.header.len() < LENGTH_FIELD_BYTES {
                LENGTH_FIELD_BYTES - self.header.len()
            } else {
                1
            },
            ReaderPhase::Payload => if self.payload.len() < self.expected as usize {
                self.expected as usize - self.payload.len()
            } else {
                1
            },
        }
    }

    /// Takes one byte of the stream. Returns the payload of the frame that
    /// this byte completed, if it completed one. When the byte leaves a
    /// payload unclosed at the bound, the payload is dropped and the reader
    /// is out of step.
    pub fn push(&mut self, byte: u8) -> (frame: Option<Vec<u8>>)
        ensures
            (final(self)@, bytes_view(frame)) == old(self)@.step(byte),
            old(self)@.wf() ==> final(self)@.wf(),
    {
        match self.phase {
            ReaderPhase::SeekStart => {
                slide_window(&mut self.window, byte, 8);
                if is_start_sentinel(&self.window) {
                    self.phase = ReaderPhase::Length;
                    self.window = Vec::new();
                    self.header = Vec::new();
                    self.expected = 0;
                    self.payload = Vec::new();
                    self.seen = 0;
                }
                None
            },
            ReaderPhase::Length => {
                self.header.push(byte);
                if self.header.len() >= LENGTH_FIELD_BYTES {
                    let expected = length_of(&self.header);
                    self.window = Vec::new();
                    self.header = Vec::new();
                    self.payload = Vec::new();
                    self.seen = 0;
                    if expected == 0 {
                        self.phase = ReaderPhase::SeekEnd;
                        self.expected = 0;
                    } else {
                        self.phase = ReaderPhase::Payload;
                        self.expected = expected;
                    }
                }
                None
            },
            ReaderPhase::Payload => {
                self.payload.push(byte);
                if self.payload.len() >= self.expected as usize {
                    self.phase = ReaderPhase::SeekEnd;
                    self.window = Vec::new();
                    self.header = Vec::new();
                    self.seen = 0;
                }
                None
            },
            ReaderPhase::SeekEnd => {
                slide_window(&mut self.window, byte, 6);
                if is_end_sentinel(&self.window) {
                    let mut payload: Vec<u8> = Vec::new();
                    core::mem::swap(&mut self.payload, &mut payload);
                    self.phase = ReaderPhase::SeekStart;
                    self.window = Vec::new();
                    self.header = Vec::new();
                    self.expected = 0;
                    self.seen = 0;
                    Some(payload)
                } else if self.seen >= END_SEARCH_LIMIT - 1 {
                    self.phase = ReaderPhase::Desynced;
                    self.window = Vec::new();
                    self.header = Vec::new();
                    self.expected = 0;
                    self.payload = Vec::new();
                    self.seen = 0;
                    None
                } else {
                    self.seen = self.seen + 1;
                    None
                }
            },
            ReaderPhase::Desynced => None,
        }
    }

    /// Takes a run of bytes of the stream. Returns the payloads of the
    /// frames that the run completed, in order.
    pub fn feed(&mut self, bytes: &[u8]) -> (frames: Vec<Vec<u8>>)
        ensures
            (final(self)@, frames_view(frames@)) == old(self)@.run(bytes@),
            old(self)@.wf() ==> final(self)@.wf(),
    {
        let mut frames: Vec<Vec<u8>> = Vec::new();
        let mut taken: usize = 0;
        while taken < bytes.len()
            invariant
                taken <= bytes.len(),
                (self@, frames_view(frames@)) == old(self)@.run(bytes@.take(taken as int)),
                old(self)@.wf() ==> self@.wf(),
            decreases bytes.len() - taken,
        {
            proof {
                let longer = bytes@.take(taken + 1);
                assert(longer.drop_last() =~= bytes@.take(taken as int));
                assert(longer.last() == bytes@[taken as int]);
            }
            let ghost before = frames@;
            match self.push(bytes[taken]) {
                Some(payload) => {
                    frames.push(payload);
                    assert(frames_view(frames@) =~= frames_view(before).push(payload@));
                },
                None => {},
            }
            taken += 1;
        }
        assert(bytes@.take(taken as int) =~= bytes@);
        frames
    }
}

} // verus!
