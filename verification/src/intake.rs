//! The intake coordinator: one viewable snapshot, a single-slot mailbox of
//! work, and the guard that keeps at most one recognition worker alive.
//!
//! The three pieces of state live in one value. Whoever shares a coordinator
//! between producers and the worker puts it behind one lock, so each method
//! here is one atomic step. In particular the worker's "slot is empty,
//! release the guard" is a single step of [`IntakeCoordinator::next_job`]:
//! an image can never be staged between the look at the slot and the
//! release, so no staged image is left without a worker.

use crate::views::bytes_view;
use vstd::prelude::*;

verus! {

/// The most recently received image, kept for viewing. Empty until the
/// first image arrives; no history is kept.
pub struct Snapshot {
    latest: Option<Vec<u8>>,
}

impl View for Snapshot {
    type V = Option<Seq<u8>>;

    closed spec fn view(&self) -> Option<Seq<u8>> {
        bytes_view(self.latest)
    }
}

impl Snapshot {
    /// An empty snapshot.
    pub fn new() -> (snapshot: Self)
        ensures
            snapshot@ is None,
    {
        Snapshot { latest: None }
    }

    /// Replaces whatever was held by `image`.
    pub fn store(&mut self, image: Vec<u8>)
        ensures
            final(self)@ == Some(image@),
    {
        self.latest = Some(image);
    }

    /// A copy of the image held, if any.
    pub fn read(&self) -> (image: Option<Vec<u8>>)
        ensures
            bytes_view(image) == self@,
    {
        match &self.latest {
            Some(bytes) => Some(bytes.clone()),
            None => None,
        }
    }
}

/// A mailbox of depth one: staging replaces what was staged before.
pub struct PendingSlot {
    item: Option<Vec<u8>>,
}

impl View for PendingSlot {
    type V = Option<Seq<u8>>;

    closed spec fn view(&self) -> Option<Seq<u8>> {
        bytes_view(self.item)
    }
}

impl PendingSlot {
    /// An empty slot.
    pub fn new() -> (slot: Self)
        ensures
            slot@ is None,
    {
        PendingSlot { item: None }
    }

    /// Stages `image`, discarding an image that was staged and not drained.
    pub fn stage(&mut self, image: Vec<u8>)
        ensures
            final(self)@ == Some(image@),
    {
        self.item = Some(image);
    }

    /// Removes and returns the staged image, or `None` if the slot is empty.
    pub fn drain(&mut self) -> (image: Option<Vec<u8>>)
        ensures
            bytes_view(image) == old(self)@,
            final(self)@ is None,
    {
        let mut taken: Option<Vec<u8>> = None;
        core::mem::swap(&mut self.item, &mut taken);
        taken
    }

    /// Whether an image is staged.
    pub fn is_staged(&self) -> (staged: bool)
        ensures
            staged == (self@ is Some),
    {
        self.item.is_some()
    }
}

/// The flag that says whether a worker loop is alive.
pub struct WorkerGuard {
    running: bool,
}

impl View for WorkerGuard {
    type V = bool;

    closed spec fn view(&self) -> bool {
        self.running
    }
}

impl WorkerGuard {
    /// A released guard.
    pub fn new() -> (guard: Self)
        ensures
            !guard@,
    {
        WorkerGuard { running: false }
    }

    /// Test-and-set: sets the guard and says whether this call is the one
    /// that set it.
    pub fn claim(&mut self) -> (claimed: bool)
        ensures
            final(self)@,
            claimed == !old(self)@,
    {
        let was_running = self.running;
        self.running = true;
        !was_running
    }

    /// Resets the guard.
    pub fn release(&mut self)
        ensures
            !final(self)@,
    {
        self.running = false;
    }

    /// Whether the guard is set.
    pub fn is_running(&self) -> (running: bool)
        ensures
            running == self@,
    {
        self.running
    }
}

/// What a coordinator holds, as plain mathematical values.
pub struct IntakeModel {
    /// The image last received, if any was.
    pub snapshot: Option<Seq<u8>>,
    /// The image staged for recognition, if one is.
    pub pending: Option<Seq<u8>>,
    /// Whether a worker loop holds the guard.
    pub running: bool,
    /// Whether the worker has taken an image and not yet reported it done.
    pub in_flight: bool,
}

impl IntakeModel {
    /// The state before any image has arrived.
    pub open spec fn initial() -> IntakeModel {
        IntakeModel { snapshot: None, pending: None, running: false, in_flight: false }
    }

    /// A staged image always has a worker, and only a worker has an image
    /// in flight.
    pub open spec fn wf(self) -> bool {
        &&& self.pending is Some ==> self.running
        &&& self.in_flight ==> self.running
    }

    /// The state after `image` has been received.
    pub open spec fn ingest(self, image: Seq<u8>) -> IntakeModel {
        IntakeModel { snapshot: Some(image), pending: Some(image), running: true, ..self }
    }

    /// Whether receiving an image in this state starts a worker.
    pub open spec fn ingest_starts_worker(self) -> bool {
        !self.running
    }

    /// Whether the worker may look at the slot: it holds the guard and has
    /// nothing in flight.
    pub open spec fn may_drain(self) -> bool {
        self.running && !self.in_flight
    }

    /// The image that the worker's next look at the slot hands out.
    pub open spec fn job(self) -> Option<Seq<u8>> {
        if self.may_drain() {
            self.pending
        } else {
            None
        }
    }

    /// The state after the worker's next look at the slot: a staged image
    /// is taken and is in flight; an empty slot releases the guard.
    pub open spec fn next_job(self) -> IntakeModel {
        if !self.may_drain() {
            self
        } else if self.pending is Some {
            IntakeModel { pending: None, in_flight: true, ..self }
        } else {
            IntakeModel { running: false, ..self }
        }
    }

    /// The state after the worker has reported its image done.
    pub open spec fn job_done(self) -> IntakeModel {
        IntakeModel { in_flight: false, ..self }
    }
}

/// The single entry point for new images and the source of the worker's
/// jobs.
pub struct IntakeCoordinator {
    snapshot: Snapshot,
    pending: PendingSlot,
    guard: WorkerGuard,
    in_flight: bool,
}

impl View for IntakeCoordinator {
    type V = IntakeModel;

    closed spec fn view(&self) -> IntakeModel {
        IntakeModel {
            snapshot: self.snapshot@,
            pending: self.pending@,
            running: self.guard@,
            in_flight: self.in_flight,
        }
    }
}

impl IntakeCoordinator {
    /// A coordinator that has received nothing and has no worker.
    pub fn new() -> (coordinator: Self)
        ensures
            coordinator@ == IntakeModel::initial(),
            coordinator@.wf(),
    {
        IntakeCoordinator {
            snapshot: Snapshot::new(),
            pending: PendingSlot::new(),
            guard: WorkerGuard::new(),
            in_flight: false,
        }
    }

    /// Receives `image`: it becomes the snapshot and the staged image, and
    /// the guard is claimed. Returns `true` when this call claimed the guard,
    /// so that the caller must start a worker loop; `false` when a worker is
    /// already alive and will find the image in the slot.
    pub fn ingest(&mut self, image: Vec<u8>) -> (start_worker: bool)
        ensures
            final(self)@ == old(self)@.ingest(image@),
            start_worker == old(self)@.ingest_starts_worker(),
            old(self)@.wf() ==> final(self)@.wf(),
    {
        self.snapshot.store(image.clone());
        self.pending.stage(image);
        self.guard.claim()
    }

    /// A copy of the snapshot, or `None` if no image was ever received.
    pub fn read_snapshot(&self) -> (image: Option<Vec<u8>>)
        ensures
            bytes_view(image) == self@.snapshot,
    {
        self.snapshot.read()
    }

    /// One turn of the worker loop. Hands out the staged image, which is
    /// then in flight until [`Self::job_done`]; or, when the slot is empty,
    /// releases the guard and returns `None`, on which the worker loop
    /// ends. A call from anyone who cannot be the worker (no guard is held,
    /// or an image is still in flight) hands out nothing and changes
    /// nothing.
    pub fn next_job(&mut self) -> (image: Option<Vec<u8>>)
        ensures
            bytes_view(image) == old(self)@.job(),
            final(self)@ == old(self)@.next_job(),
            old(self)@.wf() ==> final(self)@.wf(),
    {
        if !self.guard.is_running() || self.in_flight {
            return None;
        }
        let image = self.pending.drain();
        if image.is_some() {
            self.in_flight = true;
        } else {
            self.guard.release();
        }
        image
    }

    /// Reports that recognition of the image handed out last has ended,
    /// whether it succeeded or failed.
    pub fn job_done(&mut self)
        ensures
            final(self)@ == old(self)@.job_done(),
            old(self)@.wf() ==> final(self)@.wf(),
    {
        self.in_flight = false;
    }

    /// Whether a worker loop holds the guard.
    pub fn is_running(&self) -> (running: bool)
        ensures
            running == self@.running,
    {
        self.guard.is_running()
    }

    /// Whether an image is staged and not yet taken by the worker.
    pub fn has_pending(&self) -> (pending: bool)
        ensures
            pending == (self@.pending is Some),
    {
        self.pending.is_staged()
    }
}

} // verus!
