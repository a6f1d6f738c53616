//! What the two session state machines share: the phases of a session,
//! the events that the caller reports and the actions that it is asked to
//! perform.
//!
//! A session never touches the network or the disk. Each call of `step`
//! takes the outcome of the last action and answers with the next one; the
//! caller performs it and reports back. A session suspends exactly where an
//! action is handed out.

use crate::error::SyncError;
use vstd::prelude::*;

verus! {

/// Where a session stands.
#[derive(Clone, Copy, Debug, PartialEq, Eq, Structural)]
pub enum Phase {
    /// The stream is open and no manifest has crossed it yet.
    Connected,
    /// The sender has handed out its manifest frame.
    ManifestSent,
    /// The receiver has read the sender's manifest and knows what differs.
    ManifestReceived,
    /// Files are asked for and sent.
    Transferring,
    /// The receiver removes what the sender does not list.
    Reconciling,
    /// The session ended as it should.
    Closed,
    /// The session ended on an error.
    Aborted,
}

/// What the caller reports to a session.
#[derive(Debug, PartialEq, Eq)]
pub enum Event {
    /// The last action is done and has nothing to report. Also the first
    /// event of a session.
    Ready,
    /// The bytes read from the stream for a `Receive`. Fewer than asked for
    /// mean that the stream closed early.
    Bytes(Vec<u8>),
    /// The content of the file read for a `LoadFile`.
    File(Vec<u8>),
    /// The last action failed.
    Failed(SyncError),
}

/// What a session asks of the caller.
#[derive(Debug, PartialEq, Eq)]
pub enum Action {
    /// Write these bytes to the stream, then report `Ready`.
    Send(Vec<u8>),
    /// Read this many bytes from the stream, then report them as `Bytes`.
    Receive(u64),
    /// Read the file at this path below the mirror root, then report its
    /// content as `File`.
    LoadFile(String),
    /// Write this content to a temporary file below the mirror root and
    /// move it to this path in one step, then report `Ready`.
    StoreFile(String, Vec<u8>),
    /// Remove the file at this path below the mirror root, then report
    /// `Ready`.
    DeleteFile(String),
    /// The session is closed: close the connection.
    Finish,
    /// The session is aborted with this error: close the connection.
    Abort(SyncError),
}

/// An event, with its bytes as a sequence.
pub enum EventView {
    Ready,
    Bytes(Seq<u8>),
    File(Seq<u8>),
    Failed(SyncError),
}

/// An action, with its bytes and paths as sequences.
pub enum ActionView {
    Send(Seq<u8>),
    Receive(nat),
    LoadFile(Seq<char>),
    StoreFile(Seq<char>, Seq<u8>),
    DeleteFile(Seq<char>),
    Finish,
    Abort(SyncError),
}

impl View for Event {
    type V = EventView;

    open spec fn view(&self) -> EventView {
        match *self {
            Event::Ready => EventView::Ready,
            Event::Bytes(b) => EventView::Bytes(b@),
            Event::File(b) => EventView::File(b@),
            Event::Failed(e) => EventView::Failed(e),
        }
    }
}

impl View for Action {
    type V = ActionView;

    open spec fn view(&self) -> ActionView {
        match *self {
            Action::Send(b) => ActionView::Send(b@),
            Action::Receive(n) => ActionView::Receive(n as nat),
            Action::LoadFile(p) => ActionView::LoadFile(p@),
            Action::StoreFile(p, b) => ActionView::StoreFile(p@, b@),
            Action::DeleteFile(p) => ActionView::DeleteFile(p@),
            Action::Finish => ActionView::Finish,
            Action::Abort(e) => ActionView::Abort(e),
        }
    }
}

/// Whether a phase is one in which a session stays for good.
pub open spec fn is_terminal(phase: Phase) -> bool {
    phase == Phase::Closed || phase == Phase::Aborted
}

/// The error for a stream that gave `got` bytes where the first bytes of a
/// frame were asked for: between two frames the stream was lost, inside a
/// frame the frame is cut short.
pub open spec fn cut_short(got: nat) -> SyncError {
    if got == 0 {
        SyncError::IoError
    } else {
        SyncError::ProtocolError
    }
}

/// The error for a stream that gave `got` bytes where the first bytes of a
/// frame were asked for.
pub fn cut_short_error(got: usize) -> (e: SyncError)
    ensures
        e == cut_short(got as nat),
{
    if got == 0 {
        SyncError::IoError
    } else {
        SyncError::ProtocolError
    }
}

/// What the files of a mirror directory hold after `action` has been
/// performed on a directory that held `mirror`: only storing and deleting
/// change it.
pub open spec fn mirror_after(mirror: Map<Seq<char>, Seq<u8>>, action: ActionView) -> Map<
    Seq<char>,
    Seq<u8>,
> {
    match action {
        ActionView::StoreFile(path, content) => mirror.insert(path, content),
        ActionView::DeleteFile(path) => mirror.remove(path),
        _ => mirror,
    }
}

} // verus!
