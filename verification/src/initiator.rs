//! The sending side of a synchronization.
//!
//! The initiator hands out the manifest of its source directory and then
//! answers path requests, one at a time, with the file asked for, until the
//! other side says that it is done. It sends only files that its manifest
//! lists.

use crate::codec::{
    be32, be64, be_value, decode_request_header, decode_request_path, encode_file_header,
    encode_manifest, file_payload_frame, lemma_be_bytes_len, lemma_be_value_of_bytes,
    lemma_pow256, manifest_frame_of, path_request_frame, RequestHeader,
};
use crate::error::SyncError;
use crate::manifest::{has_path, pairs_ok, Manifest};
use crate::path::MAX_PATH_LEN;
use crate::session::{cut_short, cut_short_error, is_terminal, Action, ActionView, Event, EventView, Phase};
use vstd::prelude::*;
use vstd::utf8::{decode_utf8, encode_utf8, encode_utf8_decode_utf8, valid_utf8};

verus! {

/// What an initiator waits for.
#[derive(Clone, Copy, Debug, PartialEq, Eq, Structural)]
pub enum InitiatorWait {
    /// The first event.
    Start,
    /// The manifest frame to be written.
    ManifestSent,
    /// The four bytes in front of a path request.
    RequestHeader,
    /// The bytes of the path of a request.
    RequestPath,
    /// The content of the file asked for.
    FileLoaded,
    /// The eight bytes in front of a file to be written.
    HeaderSent,
    /// The bytes of a file to be written.
    PayloadSent,
}

/// The state of an initiator, as plain values.
pub struct InitiatorView {
    pub phase: Phase,
    pub wait: InitiatorWait,
    /// The entries of the own manifest.
    pub manifest: Seq<(Seq<char>, Seq<char>)>,
    /// How many bytes the last `Receive` asked for.
    pub expected: nat,
    /// The content of the file whose length has been handed out.
    pub staged: Seq<u8>,
    /// Why the session was aborted, if it was.
    pub failure: Option<SyncError>,
}

impl InitiatorView {
    /// The state of a session that has just been opened.
    pub open spec fn fresh(manifest: Seq<(Seq<char>, Seq<char>)>) -> InitiatorView {
        InitiatorView {
            phase: Phase::Connected,
            wait: InitiatorWait::Start,
            manifest,
            expected: 0,
            staged: Seq::empty(),
            failure: None,
        }
    }

    /// What holds of every state that a session can be in.
    pub open spec fn wf(self) -> bool {
        &&& pairs_ok(self.manifest)
        &&& (self.phase == Phase::Aborted) == (self.failure is Some)
        &&& !is_terminal(self.phase) ==> match self.wait {
            InitiatorWait::Start => self.phase == Phase::Connected,
            InitiatorWait::ManifestSent => self.phase == Phase::ManifestSent,
            _ => self.phase == Phase::Transferring,
        }
    }

    /// The session ends on `error`.
    pub open spec fn abort(self, error: SyncError) -> (InitiatorView, ActionView) {
        (
            InitiatorView { phase: Phase::Aborted, failure: Some(error), ..self },
            ActionView::Abort(error),
        )
    }

    /// The first event has come: the manifest goes out.
    pub open spec fn on_start(self) -> (InitiatorView, ActionView) {
        match manifest_frame_of(self.manifest) {
            Some(frame) => (
                InitiatorView {
                    phase: Phase::ManifestSent,
                    wait: InitiatorWait::ManifestSent,
                    ..self
                },
                ActionView::Send(frame),
            ),
            None => self.abort(SyncError::ProtocolError),
        }
    }

    /// The next request is awaited.
    pub open spec fn await_request(self) -> (InitiatorView, ActionView) {
        (
            InitiatorView {
                phase: Phase::Transferring,
                wait: InitiatorWait::RequestHeader,
                expected: 4,
                ..self
            },
            ActionView::Receive(4),
        )
    }

    /// The four bytes in front of a path request have been read.
    pub open spec fn on_request_header(self, bytes: Seq<u8>) -> (InitiatorView, ActionView) {
        if bytes.len() != 4 {
            self.abort(cut_short(bytes.len()))
        } else if be_value(bytes) > MAX_PATH_LEN {
            self.abort(SyncError::ProtocolError)
        } else if be_value(bytes) == 0 {
            (InitiatorView { phase: Phase::Closed, ..self }, ActionView::Finish)
        } else {
            (
                InitiatorView {
                    wait: InitiatorWait::RequestPath,
                    expected: be_value(bytes),
                    ..self
                },
                ActionView::Receive(be_value(bytes)),
            )
        }
    }

    /// The bytes of the path of a request have been read: the file is
    /// loaded if the manifest lists the path.
    pub open spec fn on_request_path(self, bytes: Seq<u8>) -> (InitiatorView, ActionView) {
        if bytes.len() != self.expected || !valid_utf8(bytes) || !has_path(
            self.manifest,
            decode_utf8(bytes),
        ) {
            self.abort(SyncError::ProtocolError)
        } else {
            (
                InitiatorView { wait: InitiatorWait::FileLoaded, ..self },
                ActionView::LoadFile(decode_utf8(bytes)),
            )
        }
    }

    /// The state after `event` and the action that answers it.
    pub open spec fn step(self, event: EventView) -> (InitiatorView, ActionView) {
        if self.phase == Phase::Closed {
            (self, ActionView::Finish)
        } else if self.phase == Phase::Aborted {
            (self, ActionView::Abort(self.failure.unwrap()))
        } else {
            match event {
                EventView::Failed(error) => self.abort(error),
                EventView::Ready => match self.wait {
                    InitiatorWait::Start => self.on_start(),
                    InitiatorWait::ManifestSent => self.await_request(),
                    InitiatorWait::HeaderSent => (
                        InitiatorView {
                            wait: InitiatorWait::PayloadSent,
                            staged: Seq::empty(),
                            ..self
                        },
                        ActionView::Send(self.staged),
                    ),
                    InitiatorWait::PayloadSent => self.await_request(),
                    _ => self.abort(SyncError::ProtocolError),
                },
                EventView::Bytes(bytes) => match self.wait {
                    InitiatorWait::RequestHeader => self.on_request_header(bytes),
                    InitiatorWait::RequestPath => self.on_request_path(bytes),
                    _ => self.abort(SyncError::ProtocolError),
                },
                EventView::File(content) => match self.wait {
                    InitiatorWait::FileLoaded => (
                        InitiatorView { wait: InitiatorWait::HeaderSent, staged: content, ..self },
                        ActionView::Send(be64(content.len() as u64)),
                    ),
                    _ => self.abort(SyncError::ProtocolError),
                },
            }
        }
    }
}

/// The sending side of one synchronization.
#[derive(Debug)]
pub struct Initiator {
    phase: Phase,
    wait: InitiatorWait,
    manifest: Manifest,
    expected: usize,
    staged: Vec<u8>,
    failure: Option<SyncError>,
}

impl View for Initiator {
    type V = InitiatorView;

    closed spec fn view(&self) -> InitiatorView {
        InitiatorView {
            phase: self.phase,
            wait: self.wait,
            manifest: self.manifest.pairs(),
            expected: self.expected as nat,
            staged: self.staged@,
            failure: self.failure,
        }
    }
}

impl Initiator {
    /// The invariant of the type.
    pub open spec fn wf(&self) -> bool {
        self@.wf()
    }

    /// A session for the source directory that `manifest` describes.
    pub fn new(manifest: Manifest) -> (s: Initiator)
        requires
            manifest.wf(),
        ensures
            s.wf(),
            s@ == InitiatorView::fresh(manifest.pairs()),
    {
        Initiator {
            phase: Phase::Connected,
            wait: InitiatorWait::Start,
            manifest,
            expected: 0,
            staged: Vec::new(),
            failure: None,
        }
    }

    /// Where the session stands.
    pub fn phase(&self) -> (phase: Phase)
        ensures
            phase == self@.phase,
    {
        self.phase
    }

    /// Why the session was aborted, if it was.
    pub fn failure(&self) -> (failure: Option<SyncError>)
        ensures
            failure == self@.failure,
    {
        self.failure
    }

    /// The manifest of the source directory, as it was when the session
    /// began.
    pub fn manifest(&self) -> (manifest: &Manifest)
        ensures
            manifest.pairs() == self@.manifest,
    {
        &self.manifest
    }

    fn abort(&mut self, error: SyncError) -> (action: Action)
        requires
            old(self).wf(),
            !is_terminal(old(self)@.phase),
        ensures
            final(self).wf(),
            (final(self)@, action@) == old(self)@.abort(error),
    {
        self.phase = Phase::Aborted;
        self.failure = Some(error);
        Action::Abort(error)
    }

    fn on_start(&mut self) -> (action: Action)
        requires
            old(self).wf(),
            !is_terminal(old(self)@.phase),
            old(self)@.wait == InitiatorWait::Start,
        ensures
            final(self).wf(),
            (final(self)@, action@) == old(self)@.on_start(),
    {
        match encode_manifest(&self.manifest) {
            Ok(frame) => {
                self.phase = Phase::ManifestSent;
                self.wait = InitiatorWait::ManifestSent;
                Action::Send(frame)
            },
            Err(e) => self.abort(e),
        }
    }

    fn await_request(&mut self) -> (action: Action)
        requires
            old(self).wf(),
            !is_terminal(old(self)@.phase),
        ensures
            final(self).wf(),
            (final(self)@, action@) == old(self)@.await_request(),
    {
        self.phase = Phase::Transferring;
        self.wait = InitiatorWait::RequestHeader;
        self.expected = 4;
        Action::Receive(4)
    }

    fn on_request_header(&mut self, bytes: Vec<u8>) -> (action: Action)
        requires
            old(self).wf(),
            !is_terminal(old(self)@.phase),
            old(self)@.wait == InitiatorWait::RequestHeader,
        ensures
            final(self).wf(),
            (final(self)@, action@) == old(self)@.on_request_header(bytes@),
    {
        if bytes.len() != 4 {
            return self.abort(cut_short_error(bytes.len()));
        }
        match decode_request_header(bytes.as_slice()) {
            Ok(RequestHeader::Done) => {
                self.phase = Phase::Closed;
                Action::Finish
            },
            Ok(RequestHeader::Path(len)) => {
                self.wait = InitiatorWait::RequestPath;
                self.expected = len;
                Action::Receive(len as u64)
            },
            Err(e) => self.abort(e),
        }
    }

    fn on_request_path(&mut self, bytes: Vec<u8>) -> (action: Action)
        requires
            old(self).wf(),
            !is_terminal(old(self)@.phase),
            old(self)@.wait == InitiatorWait::RequestPath,
        ensures
            final(self).wf(),
            (final(self)@, action@) == old(self)@.on_request_path(bytes@),
    {
        if bytes.len() != self.expected {
            return self.abort(SyncError::ProtocolError);
        }
        match decode_request_path(bytes) {
            Ok(path) => {
                proof {
                    encode_utf8_decode_utf8(path@);
                }
                if !self.manifest.contains(path.as_str()) {
                    return self.abort(SyncError::ProtocolError);
                }
                self.wait = InitiatorWait::FileLoaded;
                Action::LoadFile(path)
            },
            Err(e) => self.abort(e),
        }
    }

    fn on_ready(&mut self) -> (action: Action)
        requires
            old(self).wf(),
            !is_terminal(old(self)@.phase),
        ensures
            final(self).wf(),
            (final(self)@, action@) == old(self)@.step(EventView::Ready),
    {
        match self.wait {
            InitiatorWait::Start => self.on_start(),
            InitiatorWait::ManifestSent => self.await_request(),
            InitiatorWait::HeaderSent => {
                let mut payload: Vec<u8> = Vec::new();
                payload.append(&mut self.staged);
                self.wait = InitiatorWait::PayloadSent;
                Action::Send(payload)
            },
            InitiatorWait::PayloadSent => self.await_request(),
            _ => self.abort(SyncError::ProtocolError),
        }
    }

    /// Takes the outcome of the last action and says what to do next.
    ///
    /// A request for a path that the manifest does not list aborts the
    /// session with `ProtocolError`, and so do a frame that is cut short or
    /// malformed and an event that does not answer the last action. A
    /// failure that is reported aborts it with that failure. A session that
    /// is closed or aborted stays as it is and repeats its last word.
    pub fn step(&mut self, event: Event) -> (action: Action)
        requires
            old(self).wf(),
        ensures
            final(self).wf(),
            (final(self)@, action@) == old(self)@.step(event@),
    {
        match self.phase {
            Phase::Closed => {
                return Action::Finish;
            },
            Phase::Aborted => {
                return match self.failure {
                    Some(error) => Action::Abort(error),
                    None => Action::Abort(SyncError::ProtocolError),
                };
            },
            _ => {},
        }
        match event {
            Event::Failed(error) => self.abort(error),
            Event::Ready => self.on_ready(),
            Event::Bytes(bytes) => match self.wait {
                InitiatorWait::RequestHeader => self.on_request_header(bytes),
                InitiatorWait::RequestPath => self.on_request_path(bytes),
                _ => self.abort(SyncError::ProtocolError),
            },
            Event::File(content) => match self.wait {
                InitiatorWait::FileLoaded => {
                    let header = encode_file_header(content.len() as u64);
                    self.wait = InitiatorWait::HeaderSent;
                    self.staged = content;
                    Action::Send(header)
                },
                _ => self.abort(SyncError::ProtocolError),
            },
        }
    }
}

/// A request for a path that the sender's manifest does not list aborts the
/// session with `ProtocolError`: at the latest when the path has been read,
/// and already at the header where the path is too long to be one.
pub proof fn unlisted_request_aborts(s: InitiatorView, path: Seq<char>)
    requires
        s.wf(),
        !is_terminal(s.phase),
        s.wait == InitiatorWait::RequestHeader,
        !has_path(s.manifest, path),
        0 < encode_utf8(path).len() <= u32::MAX,
    ensures
        ({
            let frame = path_request_frame(path);
            let (t, asked) = s.step(EventView::Bytes(frame.take(4)));
            if encode_utf8(path).len() > MAX_PATH_LEN {
                t.phase == Phase::Aborted && asked == ActionView::Abort(SyncError::ProtocolError)
            } else {
                let (u, answer) = t.step(EventView::Bytes(frame.skip(4)));
                &&& asked == ActionView::Receive(encode_utf8(path).len())
                &&& u.phase == Phase::Aborted
                &&& answer == ActionView::Abort(SyncError::ProtocolError)
            }
        }),
{
    let bytes = encode_utf8(path);
    let frame = path_request_frame(path);
    let n = bytes.len() as u32;
    lemma_be_bytes_len(n as nat, 4);
    lemma_pow256();
    lemma_be_value_of_bytes(n as nat, 4);
    assert(frame.take(4) =~= be32(n));
    assert(frame.skip(4) =~= bytes);
    encode_utf8_decode_utf8(path);
}

/// A request for a path that the manifest lists is answered in full
/// before the next request is read: the file is loaded, then its length
/// and its content go out, which together are its payload frame.
pub proof fn listed_request_is_answered(s: InitiatorView, path: Seq<char>, content: Seq<u8>)
    requires
        s.wf(),
        !is_terminal(s.phase),
        s.wait == InitiatorWait::RequestPath,
        s.expected == encode_utf8(path).len(),
        has_path(s.manifest, path),
    ensures
        ({
            let (a, load) = s.step(EventView::Bytes(encode_utf8(path)));
            let (b, header) = a.step(EventView::File(content));
            let (c, body) = b.step(EventView::Ready);
            let (d, next) = c.step(EventView::Ready);
            &&& load == ActionView::LoadFile(path)
            &&& header matches ActionView::Send(first)
            &&& body matches ActionView::Send(second)
            &&& first + second == file_payload_frame(content)
            &&& next == ActionView::Receive(4)
            &&& d.wait == InitiatorWait::RequestHeader
            &&& d.phase == Phase::Transferring
        }),
{
    encode_utf8_decode_utf8(path);
    vstd::utf8::encode_utf8_valid_utf8(path);
}

/// An initiator hands out for loading only paths that its manifest lists.
pub proof fn only_listed_files_are_loaded(s: InitiatorView, event: EventView)
    requires
        s.wf(),
    ensures
        s.step(event).1 matches ActionView::LoadFile(path) ==> has_path(s.manifest, path),
        s.step(event).0.wf(),
{
}

} // verus!
