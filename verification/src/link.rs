//! Supervision of the serial link: what to do next after each thing that
//! happened on the link. The supervisor decides; its caller opens the
//! port, reads, waits and hands frames on, and reports back.
//!
//! Every failure of the link is met in the same way: the frame under way
//! is given up, the port is opened again after a fixed delay, and the
//! search for a frame starts afresh. A frame whose end sentinel does not
//! come within its bound counts as such a failure. A failure to hand a
//! frame on is met by opening the port again at once.

use crate::framing::{end_sentinel, start_sentinel, FrameReader, ReaderModel, END_SEARCH_LIMIT};
use crate::framing_laws::{free_of, le_bytes, lemma_malformed_frame_is_dropped};
use crate::views::frames_view;
use vstd::prelude::*;

verus! {

/// Seconds to wait before the port is opened again after a failure.
pub const RETRY_DELAY_SECS: u64 = 5;

/// Seconds after which a read that got no bytes counts as failed.
pub const READ_TIMEOUT_SECS: u64 = 10;

/// The speed of the link, in bits per second.
pub const BAUD_RATE: u32 = 115_200;

/// How many frames may wait between the reader and their consumer; the
/// reader is held back when that many wait.
pub const BRIDGE_CAPACITY: usize = 10;

/// What happened on the link.
pub enum LinkEvent {
    /// The port was opened.
    Opened,
    /// The port could not be opened.
    OpenFailed,
    /// These bytes were read.
    Received(Vec<u8>),
    /// A read failed or timed out.
    ReadFailed,
    /// The frames handed out were all taken.
    Delivered,
    /// A frame handed out could not be passed on.
    DeliveryFailed,
}

/// What to do next on the link.
#[derive(Debug, PartialEq, Eq)]
pub enum LinkAction {
    /// Wait this many seconds, then open the port.
    Open { delay_secs: u64 },
    /// Read exactly this many bytes.
    Read { count: usize },
    /// Pass these frames on, in order.
    Deliver { frames: Vec<Vec<u8>> },
}

/// An event, as plain mathematical values.
pub enum LinkEventModel {
    Opened,
    OpenFailed,
    Received(Seq<u8>),
    ReadFailed,
    Delivered,
    DeliveryFailed,
}

/// An action, as plain mathematical values.
pub enum LinkActionModel {
    Open { delay_secs: nat },
    Read { count: nat },
    Deliver { frames: Seq<Seq<u8>> },
}

impl View for LinkEvent {
    type V = LinkEventModel;

    open spec fn view(&self) -> LinkEventModel {
        match *self {
            LinkEvent::Opened => LinkEventModel::Opened,
            LinkEvent::OpenFailed => LinkEventModel::OpenFailed,
            LinkEvent::Received(bytes) => LinkEventModel::Received(bytes@),
            LinkEvent::ReadFailed => LinkEventModel::ReadFailed,
            LinkEvent::Delivered => LinkEventModel::Delivered,
            LinkEvent::DeliveryFailed => LinkEventModel::DeliveryFailed,
        }
    }
}

impl View for LinkAction {
    type V = LinkActionModel;

    open spec fn view(&self) -> LinkActionModel {
        match *self {
            LinkAction::Open { delay_secs } => LinkActionModel::Open {
                delay_secs: delay_secs as nat,
            },
            LinkAction::Read { count } => LinkActionModel::Read { count: count as nat },
            LinkAction::Deliver { frames } => LinkActionModel::Deliver {
                frames: frames_view(frames@),
            },
        }
    }
}

/// The state of a supervisor, as plain mathematical values.
pub struct LinkModel {
    /// Whether the port is open.
    pub connected: bool,
    /// The state of the frame reader.
    pub reader: ReaderModel,
}

impl LinkModel {
    /// The state before the port was first opened.
    pub open spec fn initial() -> LinkModel {
        LinkModel { connected: false, reader: ReaderModel::initial() }
    }

    /// The state after a failure: the port is closed and nothing of a
    /// frame under way is kept.
    pub open spec fn disconnected() -> LinkModel {
        Self::initial()
    }

    /// The action that asks for the bytes that the reader wants next.
    pub open spec fn read_more(self) -> LinkActionModel {
        LinkActionModel::Read { count: self.reader.wanted() }
    }

    /// How the link goes on when nothing is to be handed on: with a reader
    /// that is out of step the link has failed; else more is read.
    pub open spec fn proceed(self) -> (LinkModel, LinkActionModel) {
        if self.reader.phase is Desynced {
            (Self::disconnected(), LinkActionModel::Open { delay_secs: RETRY_DELAY_SECS as nat })
        } else {
            (self, self.read_more())
        }
    }

    /// The state after an event and the action that follows it.
    pub open spec fn step(self, event: LinkEventModel) -> (LinkModel, LinkActionModel) {
        match event {
            LinkEventModel::Opened => {
                let opened = LinkModel { connected: true, reader: ReaderModel::initial() };
                (opened, opened.read_more())
            },
            LinkEventModel::OpenFailed | LinkEventModel::ReadFailed => (
                Self::disconnected(),
                LinkActionModel::Open { delay_secs: RETRY_DELAY_SECS as nat },
            ),
            LinkEventModel::DeliveryFailed => (
                Self::disconnected(),
                LinkActionModel::Open { delay_secs: 0 },
            ),
            LinkEventModel::Received(bytes) => {
                let (reader, frames) = self.reader.run(bytes);
                let fed = LinkModel { reader, ..self };
                if frames.len() > 0 {
                    (fed, LinkActionModel::Deliver { frames })
                } else {
                    fed.proceed()
                }
            },
            LinkEventModel::Delivered => self.proceed(),
        }
    }
}

/// Decides what to do on the serial link.
pub struct LinkSupervisor {
    connected: bool,
    reader: FrameReader,
}

impl View for LinkSupervisor {
    type V = LinkModel;

    closed spec fn view(&self) -> LinkModel {
        LinkModel { connected: self.connected, reader: self.reader@ }
    }
}

impl LinkSupervisor {
    /// A supervisor of a link that is not yet open.
    pub fn new() -> (supervisor: Self)
        ensures
            supervisor@ == LinkModel::initial(),
    {
        LinkSupervisor { connected: false, reader: FrameReader::new() }
    }

    /// The first thing to do: open the port, without waiting.
    pub fn first_action(&self) -> (action: LinkAction)
        ensures
            action@ == (LinkActionModel::Open { delay_secs: 0 }),
    {
        LinkAction::Open { delay_secs: 0 }
    }

    /// Whether the port is taken to be open.
    pub fn is_connected(&self) -> (connected: bool)
        ensures
            connected == self@.connected,
    {
        self.connected
    }

    /// Takes in what happened and says what to do next.
    pub fn handle(&mut self, event: LinkEvent) -> (action: LinkAction)
        ensures
            (final(self)@, action@) == old(self)@.step(event@),
    {
        match event {
            LinkEvent::Opened => {
                self.connected = true;
                self.reader.reset();
                LinkAction::Read { count: self.reader.bytes_wanted() }
            },
            LinkEvent::OpenFailed => {
                self.connected = false;
                self.reader.reset();
                LinkAction::Open { delay_secs: RETRY_DELAY_SECS }
            },
            LinkEvent::ReadFailed => {
                self.connected = false;
                self.reader.reset();
                LinkAction::Open { delay_secs: RETRY_DELAY_SECS }
            },
            LinkEvent::DeliveryFailed => {
                self.connected = false;
                self.reader.reset();
                LinkAction::Open { delay_secs: 0 }
            },
            LinkEvent::Received(bytes) => {
                let frames = self.reader.feed(bytes.as_slice());
                if frames.len() > 0 {
                    LinkAction::Deliver { frames }
                } else {
                    self.proceed()
                }
            },
            LinkEvent::Delivered => self.proceed(),
        }
    }

    /// Goes on when nothing is to be handed on: a reader out of step is a
    /// failure of the link; else more is read.
    fn proceed(&mut self) -> (action: LinkAction)
        ensures
            (final(self)@, action@) == old(self)@.proceed(),
    {
        if self.reader.is_desynced() {
            self.connected = false;
            self.reader.reset();
            LinkAction::Open { delay_secs: RETRY_DELAY_SECS }
        } else {
            LinkAction::Read { count: self.reader.bytes_wanted() }
        }
    }
}

/// A malformed frame is a failure of the link: when a connected supervisor
/// at the start of a stream receives a payload that is followed by as many
/// bytes as the bound allows, the end sentinel not among them, it hands
/// nothing on, gives the link up and has the port opened again after the
/// delay.
pub proof fn lemma_malformed_frame_fails_the_link(
    noise: Seq<u8>,
    payload: Seq<u8>,
    junk: Seq<u8>,
    rest: Seq<u8>,
)
    requires
        free_of(noise, start_sentinel()),
        payload.len() <= u32::MAX,
        free_of(junk, end_sentinel()),
        junk.len() == END_SEARCH_LIMIT,
    ensures
        (LinkModel { connected: true, reader: ReaderModel::initial() }).step(
            LinkEventModel::Received(
                noise + start_sentinel() + le_bytes(payload.len()) + payload + junk + rest,
            ),
        ) == (
            LinkModel::disconnected(),
            LinkActionModel::Open { delay_secs: RETRY_DELAY_SECS as nat },
        ),
{
    lemma_malformed_frame_is_dropped(noise, payload, junk, rest);
}

} // verus!
