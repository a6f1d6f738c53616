//! The receiving side of a synchronization.
//!
//! The responder knows the manifest of its own mirror directory. It reads
//! the sender's manifest, works out what differs, asks for each file it
//! lacks, one at a time, and stores it only when all of it has arrived.
//! Then it says that it is done asking and removes what the sender does not
//! list.

use crate::codec::{
    be_value, decode_file_header, decode_manifest, decode_manifest_len, encode_path_request,
    end_marker, end_of_requests, manifest_entries_of, path_request_frame, MAX_MANIFEST_LEN,
};
use crate::diff::{delete_list, diff, fetch_list, fetch_set, lemma_delete_list, lemma_fetch_list};
use crate::digest::digest_of;
use crate::error::SyncError;
use crate::manifest::{has_path, map_of, pairs_ok, Manifest};
use crate::path::is_relative_path;
use crate::session::{
    cut_short, cut_short_error, is_terminal, mirror_after, Action, ActionView, Event, EventView,
    Phase,
};
use crate::text::texts;
use vstd::prelude::*;

verus! {

/// What a responder waits for.
#[derive(Clone, Copy, Debug, PartialEq, Eq, Structural)]
pub enum ResponderWait {
    /// The first event.
    Start,
    /// The four bytes in front of the manifest.
    ManifestHeader,
    /// The encoded manifest.
    ManifestBody,
    /// A path request to be written.
    RequestSent,
    /// The eight bytes in front of a file.
    FileHeader,
    /// The bytes of a file.
    FileBody,
    /// A file to be stored.
    Stored,
    /// The end marker to be written.
    EndSent,
    /// A file to be removed.
    Deleted,
}

/// The state of a responder, as plain values.
pub struct ResponderView {
    pub phase: Phase,
    pub wait: ResponderWait,
    /// The entries of the own manifest.
    pub local: Seq<(Seq<char>, Seq<char>)>,
    /// The entries of the sender's manifest, once it has been read.
    pub remote: Option<Seq<(Seq<char>, Seq<char>)>>,
    /// The paths to fetch, in the order in which they are asked for.
    pub fetch: Seq<Seq<char>>,
    /// The paths to delete, in the order in which they are removed.
    pub delete: Seq<Seq<char>>,
    /// How many files have arrived in full and been handed out for storing.
    pub fetched: nat,
    /// How many files have been handed out for removal.
    pub deleted: nat,
    /// How many bytes the last `Receive` asked for.
    pub expected: nat,
    /// Why the session was aborted, if it was.
    pub failure: Option<SyncError>,
}

impl ResponderView {
    /// The state of a session that has just been opened.
    pub open spec fn fresh(local: Seq<(Seq<char>, Seq<char>)>) -> ResponderView {
        ResponderView {
            phase: Phase::Connected,
            wait: ResponderWait::Start,
            local,
            remote: None,
            fetch: Seq::empty(),
            delete: Seq::empty(),
            fetched: 0,
            deleted: 0,
            expected: 0,
            failure: None,
        }
    }

    /// What holds of the lists and counters of every state.
    pub open spec fn inv(self) -> bool {
        &&& pairs_ok(self.local)
        &&& (self.phase == Phase::Aborted) == (self.failure is Some)
        &&& self.fetched <= self.fetch.len()
        &&& self.deleted <= self.delete.len()
        &&& match self.remote {
            Some(remote) => {
                &&& pairs_ok(remote)
                &&& self.fetch == fetch_list(map_of(self.local), remote)
                &&& self.delete == delete_list(self.local, map_of(remote))
            },
            None => self.fetch.len() == 0 && self.delete.len() == 0,
        }
        &&& self.deleted > 0 ==> self.fetched == self.fetch.len()
    }

    /// What holds of every state that a session can be in: the lists and
    /// counters are in order, and what the session waits for fits the phase.
    pub open spec fn wf(self) -> bool {
        &&& self.inv()
        &&& self.phase == Phase::Closed ==> {
            &&& self.remote is Some
            &&& self.fetched == self.fetch.len()
            &&& self.deleted == self.delete.len()
        }
        &&& !is_terminal(self.phase) ==> match self.wait {
            ResponderWait::Start | ResponderWait::ManifestHeader | ResponderWait::ManifestBody => {
                self.phase == Phase::Connected && self.remote is None
            },
            ResponderWait::RequestSent | ResponderWait::FileHeader | ResponderWait::FileBody => {
                &&& self.phase == Phase::ManifestReceived || self.phase == Phase::Transferring
                &&& self.remote is Some
                &&& self.fetched < self.fetch.len()
                &&& self.deleted == 0
            },
            ResponderWait::Stored => {
                &&& self.phase == Phase::Transferring
                &&& self.remote is Some
                &&& self.deleted == 0
            },
            ResponderWait::EndSent => {
                &&& self.phase == Phase::ManifestReceived || self.phase == Phase::Transferring
                &&& self.remote is Some
                &&& self.fetched == self.fetch.len()
                &&& self.deleted == 0
            },
            ResponderWait::Deleted => {
                &&& self.phase == Phase::Reconciling
                &&& self.remote is Some
                &&& self.fetched == self.fetch.len()
                &&& self.deleted > 0
            },
        }
    }

    /// The session ends on `error`.
    pub open spec fn abort(self, error: SyncError) -> (ResponderView, ActionView) {
        (
            ResponderView { phase: Phase::Aborted, failure: Some(error), ..self },
            ActionView::Abort(error),
        )
    }

    /// Asks for the next file, or says that no more is asked for.
    pub open spec fn request_next(self) -> (ResponderView, ActionView) {
        if self.fetched < self.fetch.len() {
            (
                ResponderView { wait: ResponderWait::RequestSent, ..self },
                ActionView::Send(path_request_frame(self.fetch[self.fetched as int])),
            )
        } else {
            (ResponderView { wait: ResponderWait::EndSent, ..self }, ActionView::Send(end_marker()))
        }
    }

    /// Removes the next file, or closes the session.
    pub open spec fn delete_next(self) -> (ResponderView, ActionView) {
        if self.deleted < self.delete.len() {
            (
                ResponderView {
                    wait: ResponderWait::Deleted,
                    deleted: self.deleted + 1,
                    ..self
                },
                ActionView::DeleteFile(self.delete[self.deleted as int]),
            )
        } else {
            (ResponderView { phase: Phase::Closed, ..self }, ActionView::Finish)
        }
    }

    /// The four bytes in front of the manifest have been read.
    pub open spec fn on_manifest_header(self, bytes: Seq<u8>) -> (ResponderView, ActionView) {
        if bytes.len() != 4 {
            self.abort(cut_short(bytes.len()))
        } else if be_value(bytes) > MAX_MANIFEST_LEN {
            self.abort(SyncError::ProtocolError)
        } else {
            (
                ResponderView {
                    wait: ResponderWait::ManifestBody,
                    expected: be_value(bytes),
                    ..self
                },
                ActionView::Receive(be_value(bytes)),
            )
        }
    }

    /// The encoded manifest has been read.
    pub open spec fn on_manifest_body(self, bytes: Seq<u8>) -> (ResponderView, ActionView) {
        if bytes.len() != self.expected {
            self.abort(SyncError::ProtocolError)
        } else {
            match manifest_entries_of(bytes) {
                Some(remote) => ResponderView {
                    phase: Phase::ManifestReceived,
                    remote: Some(remote),
                    fetch: fetch_list(map_of(self.local), remote),
                    delete: delete_list(self.local, map_of(remote)),
                    ..self
                }.request_next(),
                None => self.abort(SyncError::ProtocolError),
            }
        }
    }

    /// The eight bytes in front of a file have been read.
    pub open spec fn on_file_header(self, bytes: Seq<u8>) -> (ResponderView, ActionView) {
        if bytes.len() != 8 {
            self.abort(cut_short(bytes.len()))
        } else {
            (
                ResponderView { wait: ResponderWait::FileBody, expected: be_value(bytes), ..self },
                ActionView::Receive(be_value(bytes)),
            )
        }
    }

    /// The bytes of a file have been read: the file is stored if all of it
    /// is there.
    pub open spec fn on_file_body(self, bytes: Seq<u8>) -> (ResponderView, ActionView) {
        if bytes.len() != self.expected {
            self.abort(SyncError::ProtocolError)
        } else {
            (
                ResponderView {
                    phase: Phase::Transferring,
                    wait: ResponderWait::Stored,
                    fetched: self.fetched + 1,
                    ..self
                },
                ActionView::StoreFile(self.fetch[self.fetched as int], bytes),
            )
        }
    }

    /// The state after `event` and the action that answers it.
    pub open spec fn step(self, event: EventView) -> (ResponderView, ActionView) {
        if self.phase == Phase::Closed {
            (self, ActionView::Finish)
        } else if self.phase == Phase::Aborted {
            (self, ActionView::Abort(self.failure.unwrap()))
        } else {
            match event {
                EventView::Failed(error) => self.abort(error),
                EventView::File(_) => self.abort(SyncError::ProtocolError),
                EventView::Ready => match self.wait {
                    ResponderWait::Start => (
                        ResponderView { wait: ResponderWait::ManifestHeader, expected: 4, ..self },
                        ActionView::Receive(4),
                    ),
                    ResponderWait::RequestSent => (
                        ResponderView {
                            phase: Phase::Transferring,
                            wait: ResponderWait::FileHeader,
                            expected: 8,
                            ..self
                        },
                        ActionView::Receive(8),
                    ),
                    ResponderWait::Stored => self.request_next(),
                    ResponderWait::EndSent => ResponderView {
                        phase: Phase::Reconciling,
                        ..self
                    }.delete_next(),
                    ResponderWait::Deleted => self.delete_next(),
                    _ => self.abort(SyncError::ProtocolError),
                },
                EventView::Bytes(bytes) => match self.wait {
                    ResponderWait::ManifestHeader => self.on_manifest_header(bytes),
                    ResponderWait::ManifestBody => self.on_manifest_body(bytes),
                    ResponderWait::FileHeader => self.on_file_header(bytes),
                    ResponderWait::FileBody => self.on_file_body(bytes),
                    _ => self.abort(SyncError::ProtocolError),
                },
            }
        }
    }
}

/// The receiving side of one synchronization.
#[derive(Debug)]
pub struct Responder {
    phase: Phase,
    wait: ResponderWait,
    local: Manifest,
    remote: Option<Manifest>,
    fetch: Vec<String>,
    delete: Vec<String>,
    fetched: usize,
    deleted: usize,
    expected: u64,
    failure: Option<SyncError>,
}

impl View for Responder {
    type V = ResponderView;

    closed spec fn view(&self) -> ResponderView {
        ResponderView {
            phase: self.phase,
            wait: self.wait,
            local: self.local.pairs(),
            remote: match self.remote {
                Some(m) => Some(m.pairs()),
                None => None,
            },
            fetch: texts(self.fetch@),
            delete: texts(self.delete@),
            fetched: self.fetched as nat,
            deleted: self.deleted as nat,
            expected: self.expected as nat,
            failure: self.failure,
        }
    }
}

impl Responder {
    /// The invariant of the type.
    pub open spec fn wf(&self) -> bool {
        self@.wf()
    }

    /// A session for the mirror directory that `local` describes.
    pub fn new(local: Manifest) -> (s: Responder)
        requires
            local.wf(),
        ensures
            s.wf(),
            s@ == ResponderView::fresh(local.pairs()),
    {
        let s = Responder {
            phase: Phase::Connected,
            wait: ResponderWait::Start,
            local,
            remote: None,
            fetch: Vec::new(),
            delete: Vec::new(),
            fetched: 0,
            deleted: 0,
            expected: 0,
            failure: None,
        };
        assert(texts(s.delete@) =~= Seq::empty());
        s
    }

    /// Where the session stands.
    pub fn phase(&self) -> (phase: Phase)
        ensures
            phase == self@.phase,
    {
        self.phase
    }

    /// Why the session was aborted, if it was.
    pub fn failure(&self) -> (failure: Option<SyncError>)
        ensures
            failure == self@.failure,
    {
        self.failure
    }

    /// The manifest of the own mirror directory, as it was when the session
    /// began.
    pub fn local(&self) -> (local: &Manifest)
        ensures
            local.pairs() == self@.local,
    {
        &self.local
    }

    /// The sender's manifest, once it has been read.
    pub fn remote(&self) -> (remote: Option<&Manifest>)
        ensures
            match remote {
                Some(m) => self@.remote == Some(m.pairs()),
                None => self@.remote is None,
            },
    {
        self.remote.as_ref()
    }

    /// The paths that the session fetches, in order.
    pub fn fetch_paths(&self) -> (paths: &Vec<String>)
        ensures
            texts(paths@) == self@.fetch,
    {
        &self.fetch
    }

    /// The paths that the session deletes, in order.
    pub fn delete_paths(&self) -> (paths: &Vec<String>)
        ensures
            texts(paths@) == self@.delete,
    {
        &self.delete
    }

    /// How many files have arrived in full and been handed out for storing.
    pub fn fetched(&self) -> (n: usize)
        ensures
            n == self@.fetched,
    {
        self.fetched
    }

    /// How many files have been handed out for removal.
    pub fn deleted(&self) -> (n: usize)
        ensures
            n == self@.deleted,
    {
        self.deleted
    }

    fn abort(&mut self, error: SyncError) -> (action: Action)
        requires
            old(self).wf(),
            !is_terminal(old(self)@.phase),
        ensures
            final(self).wf(),
            (final(self)@, action@) == old(self)@.abort(error),
    {
        self.phase = Phase::Aborted;
        self.failure = Some(error);
        Action::Abort(error)
    }

    fn request_next(&mut self) -> (action: Action)
        requires
            old(self)@.inv(),
            old(self)@.remote is Some,
            old(self)@.deleted == 0,
            old(self)@.phase == Phase::ManifestReceived || old(self)@.phase == Phase::Transferring,
        ensures
            final(self).wf(),
            (final(self)@, action@) == old(self)@.request_next(),
    {
        if self.fetched < self.fetch.len() {
            proof {
                lemma_fetch_paths_valid(self@.local, self@.remote.unwrap(), self.fetched as int);
            }
            match encode_path_request(self.fetch[self.fetched].as_str()) {
                Ok(frame) => {
                    self.wait = ResponderWait::RequestSent;
                    Action::Send(frame)
                },
                Err(e) => {
                    self.phase = Phase::Aborted;
                    self.failure = Some(e);
                    Action::Abort(e)
                },
            }
        } else {
            self.wait = ResponderWait::EndSent;
            Action::Send(end_of_requests())
        }
    }

    fn delete_next(&mut self) -> (action: Action)
        requires
            old(self)@.inv(),
            old(self)@.remote is Some,
            old(self)@.phase == Phase::Reconciling,
            old(self)@.fetched == old(self)@.fetch.len(),
        ensures
            final(self).wf(),
            (final(self)@, action@) == old(self)@.delete_next(),
    {
        if self.deleted < self.delete.len() {
            let path = self.delete[self.deleted].clone();
            self.wait = ResponderWait::Deleted;
            self.deleted = self.deleted + 1;
            Action::DeleteFile(path)
        } else {
            self.phase = Phase::Closed;
            Action::Finish
        }
    }

    fn on_manifest_header(&mut self, bytes: Vec<u8>) -> (action: Action)
        requires
            old(self).wf(),
            !is_terminal(old(self)@.phase),
            old(self)@.wait == ResponderWait::ManifestHeader,
        ensures
            final(self).wf(),
            (final(self)@, action@) == old(self)@.on_manifest_header(bytes@),
    {
        if bytes.len() != 4 {
            return self.abort(cut_short_error(bytes.len()));
        }
        match decode_manifest_len(bytes.as_slice()) {
            Ok(len) => {
                self.wait = ResponderWait::ManifestBody;
                self.expected = len as u64;
                Action::Receive(len as u64)
            },
            Err(e) => self.abort(e),
        }
    }

    fn on_manifest_body(&mut self, bytes: Vec<u8>) -> (action: Action)
        requires
            old(self).wf(),
            !is_terminal(old(self)@.phase),
            old(self)@.wait == ResponderWait::ManifestBody,
        ensures
            final(self).wf(),
            (final(self)@, action@) == old(self)@.on_manifest_body(bytes@),
    {
        if bytes.len() as u64 != self.expected {
            return self.abort(SyncError::ProtocolError);
        }
        match decode_manifest(bytes.as_slice()) {
            Ok(remote) => {
                let d = diff(&self.local, &remote);
                self.phase = Phase::ManifestReceived;
                self.remote = Some(remote);
                self.fetch = d.fetch;
                self.delete = d.delete;
                self.request_next()
            },
            Err(e) => self.abort(e),
        }
    }

    fn on_file_header(&mut self, bytes: Vec<u8>) -> (action: Action)
        requires
            old(self).wf(),
            !is_terminal(old(self)@.phase),
            old(self)@.wait == ResponderWait::FileHeader,
        ensures
            final(self).wf(),
            (final(self)@, action@) == old(self)@.on_file_header(bytes@),
    {
        if bytes.len() != 8 {
            return self.abort(cut_short_error(bytes.len()));
        }
        match decode_file_header(bytes.as_slice()) {
            Ok(len) => {
                self.wait = ResponderWait::FileBody;
                self.expected = len;
                Action::Receive(len)
            },
            Err(e) => self.abort(e),
        }
    }

    fn on_file_body(&mut self, bytes: Vec<u8>) -> (action: Action)
        requires
            old(self).wf(),
            !is_terminal(old(self)@.phase),
            old(self)@.wait == ResponderWait::FileBody,
        ensures
            final(self).wf(),
            (final(self)@, action@) == old(self)@.on_file_body(bytes@),
    {
        if bytes.len() as u64 != self.expected {
            return self.abort(SyncError::ProtocolError);
        }
        assert(self.fetched < self.fetch.len());
        let path = self.fetch[self.fetched].clone();
        self.phase = Phase::Transferring;
        self.wait = ResponderWait::Stored;
        self.fetched = self.fetched + 1;
        Action::StoreFile(path, bytes)
    }

    fn on_ready(&mut self) -> (action: Action)
        requires
            old(self).wf(),
            !is_terminal(old(self)@.phase),
        ensures
            final(self).wf(),
            (final(self)@, action@) == old(self)@.step(EventView::Ready),
    {
        match self.wait {
            ResponderWait::Start => {
                self.wait = ResponderWait::ManifestHeader;
                self.expected = 4;
                Action::Receive(4)
            },
            ResponderWait::RequestSent => {
                self.phase = Phase::Transferring;
                self.wait = ResponderWait::FileHeader;
                self.expected = 8;
                Action::Receive(8)
            },
            ResponderWait::Stored => self.request_next(),
            ResponderWait::EndSent => {
                self.phase = Phase::Reconciling;
                self.delete_next()
            },
            ResponderWait::Deleted => self.delete_next(),
            _ => self.abort(SyncError::ProtocolError),
        }
    }

    /// Takes the outcome of the last action and says what to do next.
    ///
    /// A failure that is reported, a frame that is cut short or malformed,
    /// and an event that does not answer the last action abort the session.
    /// A session that is closed or aborted stays as it is and repeats its
    /// last word.
    pub fn step(&mut self, event: Event) -> (action: Action)
        requires
            old(self).wf(),
        ensures
            final(self).wf(),
            (final(self)@, action@) == old(self)@.step(event@),
    {
        match self.phase {
            Phase::Closed => {
                return Action::Finish;
            },
            Phase::Aborted => {
                return match self.failure {
                    Some(error) => Action::Abort(error),
                    None => Action::Abort(SyncError::ProtocolError),
                };
            },
            _ => {},
        }
        match event {
            Event::Failed(error) => self.abort(error),
            Event::File(_) => self.abort(SyncError::ProtocolError),
            Event::Ready => self.on_ready(),
            Event::Bytes(bytes) => match self.wait {
                ResponderWait::ManifestHeader => self.on_manifest_header(bytes),
                ResponderWait::ManifestBody => self.on_manifest_body(bytes),
                ResponderWait::FileHeader => self.on_file_header(bytes),
                ResponderWait::FileBody => self.on_file_body(bytes),
                _ => self.abort(SyncError::ProtocolError),
            },
        }
    }
}

/// Every path of a fetch list is a path of the sender's manifest, and so a
/// path below the mirror root.
pub proof fn lemma_fetch_paths_valid(
    local: Seq<(Seq<char>, Seq<char>)>,
    remote: Seq<(Seq<char>, Seq<char>)>,
    i: int,
)
    requires
        pairs_ok(remote),
        0 <= i < fetch_list(map_of(local), remote).len(),
    ensures
        has_path(remote, fetch_list(map_of(local), remote)[i]),
        is_relative_path(fetch_list(map_of(local), remote)[i]),
{
    let list = fetch_list(map_of(local), remote);
    lemma_fetch_list(map_of(local), remote);
    assert(list.contains(list[i]));
}

/// Where a session that began on a directory holding `mirror` ends after
/// the caller has reported `events`, one after the other, and performed
/// each action on the directory: the state, and what the directory holds.
pub open spec fn run(
    start: ResponderView,
    mirror: Map<Seq<char>, Seq<u8>>,
    events: Seq<EventView>,
) -> (ResponderView, Map<Seq<char>, Seq<u8>>)
    decreases events.len(),
{
    if events.len() == 0 {
        (start, mirror)
    } else {
        let (state, held) = run(start, mirror, events.drop_last());
        let (next, action) = state.step(events.last());
        (next, mirror_after(held, action))
    }
}

/// What a directory that held `before` holds at the path `p` while a
/// session is in the state `s`: a file removed so far is gone, a file that
/// has arrived in full is there, and any other file is as it was.
pub open spec fn file_holds(
    s: ResponderView,
    before: Map<Seq<char>, Seq<u8>>,
    now: Map<Seq<char>, Seq<u8>>,
    p: Seq<char>,
) -> bool {
    if s.delete.take(s.deleted as int).contains(p) {
        !now.contains_key(p)
    } else if s.fetch.take(s.fetched as int).contains(p) {
        now.contains_key(p)
    } else {
        now.contains_key(p) == before.contains_key(p) && (before.contains_key(p) ==> now[p]
            == before[p])
    }
}

/// What a directory that held `before` holds while a session is in the
/// state `s`: `file_holds` at every path.
pub open spec fn mirror_holds(
    s: ResponderView,
    before: Map<Seq<char>, Seq<u8>>,
    now: Map<Seq<char>, Seq<u8>>,
) -> bool {
    forall|p: Seq<char>| #[trigger] file_holds(s, before, now, p)
}

/// A step leads from a state that a session can be in to another.
pub proof fn step_preserves_wf(s: ResponderView, event: EventView)
    requires
        s.wf(),
    ensures
        s.step(event).0.wf(),
{
}

/// A file is handed out for storing only when all of its bytes, as many
/// as its frame announced, have arrived, and then it is the next file of
/// the fetch list. A file is handed out for removal only when every file
/// of the fetch list has arrived. A failure that is reported aborts the
/// session and hands out neither.
pub proof fn files_are_stored_whole(s: ResponderView, event: EventView)
    requires
        s.wf(),
    ensures
        ({
            let (t, action) = s.step(event);
            &&& action matches ActionView::StoreFile(path, content) ==> {
                &&& event == EventView::Bytes(content)
                &&& content.len() == s.expected
                &&& s.fetched < s.fetch.len()
                &&& path == s.fetch[s.fetched as int]
                &&& t.fetched == s.fetched + 1
                &&& s.deleted == 0
            }
            &&& !(action is StoreFile) ==> t.fetched == s.fetched
            &&& action matches ActionView::DeleteFile(path) ==> {
                &&& s.fetched == s.fetch.len()
                &&& s.deleted < s.delete.len()
                &&& path == s.delete[s.deleted as int]
                &&& t.deleted == s.deleted + 1
            }
            &&& !(action is DeleteFile) ==> t.deleted == s.deleted
            &&& (event is Failed || is_terminal(s.phase)) ==> !(action is StoreFile) && !(action is DeleteFile)
            &&& (event is Failed && !is_terminal(s.phase)) ==> t.phase == Phase::Aborted
        }),
{
}

/// What a session writes to the stream is a request for the next path of
/// the fetch list, which the sender's manifest lists, or the end marker
/// once every file of the list has arrived.
pub proof fn requests_name_listed_paths(s: ResponderView, event: EventView)
    requires
        s.wf(),
    ensures
        s.step(event).1 matches ActionView::Send(frame) ==> {
            let t = s.step(event).0;
            &&& t.remote matches Some(remote)
            &&& if t.fetched < t.fetch.len() {
                &&& frame == path_request_frame(t.fetch[t.fetched as int])
                &&& has_path(remote, t.fetch[t.fetched as int])
                &&& is_relative_path(t.fetch[t.fetched as int])
            } else {
                frame == end_marker()
            }
        },
{
    let (t, action) = s.step(event);
    if let ActionView::Send(frame) = action {
        if t.fetched < t.fetch.len() {
            lemma_fetch_paths_valid(t.local, t.remote.unwrap(), t.fetched as int);
        }
    }
}

/// No path that the sender's manifest lists is ever handed out for
/// removal: what is removed is listed locally and not by the sender, in the
/// manifest that this session has read.
pub proof fn listed_files_are_never_deleted(s: ResponderView, event: EventView)
    requires
        s.wf(),
    ensures
        s.step(event).1 matches ActionView::DeleteFile(path) ==> {
            &&& s.remote matches Some(remote)
            &&& !has_path(remote, path)
            &&& has_path(s.local, path)
        },
{
    let (t, action) = s.step(event);
    if let ActionView::DeleteFile(path) = action {
        let remote = s.remote.unwrap();
        lemma_delete_list(s.local, map_of(remote));
        assert(s.delete.contains(s.delete[s.deleted as int]));
    }
}

/// Against a directory that matches the sender's manifest already, the
/// session asks for no file and removes none: it answers the manifest with
/// the end marker and then closes.
pub proof fn matching_mirror_transfers_nothing(s: ResponderView, payload: Seq<u8>)
    requires
        s.wf(),
        !is_terminal(s.phase),
        s.wait == ResponderWait::ManifestBody,
        payload.len() == s.expected,
        manifest_entries_of(payload) matches Some(remote) && map_of(remote) == map_of(s.local),
    ensures
        ({
            let (t, action) = s.step(EventView::Bytes(payload));
            &&& t.fetch.len() == 0
            &&& t.delete.len() == 0
            &&& action == ActionView::Send(end_marker())
            &&& t.step(EventView::Ready).0.phase == Phase::Closed
            &&& t.step(EventView::Ready).1 == ActionView::Finish
        }),
{
    let remote = manifest_entries_of(payload).unwrap();
    let fetch = fetch_list(map_of(s.local), remote);
    let delete = delete_list(s.local, map_of(remote));
    lemma_fetch_list(map_of(s.local), remote);
    lemma_delete_list(s.local, map_of(remote));
    if fetch.len() > 0 {
        assert(fetch.contains(fetch[0]));
    }
    if delete.len() > 0 {
        assert(delete.contains(delete[0]));
    }
}

/// One step keeps what `mirror_holds` says.
proof fn lemma_step_keeps_mirror(
    s: ResponderView,
    event: EventView,
    before: Map<Seq<char>, Seq<u8>>,
    now: Map<Seq<char>, Seq<u8>>,
)
    requires
        s.wf(),
        mirror_holds(s, before, now),
    ensures
        mirror_holds(s.step(event).0, before, mirror_after(now, s.step(event).1)),
{
    let (t, action) = s.step(event);
    let after = mirror_after(now, action);
    match action {
        ActionView::StoreFile(path, content) => {
            assert forall|p: Seq<char>| #[trigger] file_holds(t, before, after, p) by {
                let new_list = t.fetch.take(t.fetched as int);
                assert(file_holds(s, before, now, p));
                if p == path {
                    assert(new_list[new_list.len() - 1] == p);
                }
            }
        },
        ActionView::DeleteFile(path) => {
            let remote = s.remote.unwrap();
            assert forall|p: Seq<char>| #[trigger] file_holds(t, before, after, p) by {
                let new_list = t.delete.take(t.deleted as int);
                assert(file_holds(s, before, now, p));
                if p == path {
                    assert(new_list[new_list.len() - 1] == p);
                }
            }
        },
        _ => {
            assert forall|p: Seq<char>| #[trigger] file_holds(t, before, after, p) by {
                assert(file_holds(s, before, now, p));
            }
        },
    }
}

/// However a session ends, and wherever it is cut off, the directory holds
/// whole files only: those removed so far are gone, those that have
/// arrived in full are there, and every other file is as it was before the
/// session began. While no file has been removed, the directory so holds
/// exactly the files that arrived in full besides what it held before.
pub proof fn interrupted_session_keeps_whole_files(
    local: Seq<(Seq<char>, Seq<char>)>,
    mirror: Map<Seq<char>, Seq<u8>>,
    events: Seq<EventView>,
)
    requires
        pairs_ok(local),
    ensures
        run(ResponderView::fresh(local), mirror, events).0.wf(),
        mirror_holds(
            run(ResponderView::fresh(local), mirror, events).0,
            mirror,
            run(ResponderView::fresh(local), mirror, events).1,
        ),
    decreases events.len(),
{
    let start = ResponderView::fresh(local);
    if events.len() == 0 {
        assert forall|p: Seq<char>| #[trigger] file_holds(start, mirror, mirror, p) by {}
    } else {
        interrupted_session_keeps_whole_files(local, mirror, events.drop_last());
        let (state, held) = run(start, mirror, events.drop_last());
        lemma_step_keeps_mirror(state, events.last(), mirror, held);
    }
}

/// When a session has closed on a directory that held the files of the
/// local manifest, the directory holds exactly the files that the sender's
/// manifest lists, and each file that was not fetched is as it was.
pub proof fn closed_session_matches_sender(
    local: Seq<(Seq<char>, Seq<char>)>,
    mirror: Map<Seq<char>, Seq<u8>>,
    events: Seq<EventView>,
)
    requires
        pairs_ok(local),
        mirror.dom() == map_of(local).dom(),
        run(ResponderView::fresh(local), mirror, events).0.phase == Phase::Closed,
    ensures
        ({
            let (s, now) = run(ResponderView::fresh(local), mirror, events);
            &&& s.remote matches Some(remote)
            &&& now.dom() == map_of(remote).dom()
            &&& forall|p: Seq<char>|
                now.contains_key(p) && !fetch_set(map_of(local), map_of(remote)).contains(p)
                    ==> mirror.contains_key(p) && now[p] == mirror[p]
        }),
{
    let (s, now) = run(ResponderView::fresh(local), mirror, events);
    interrupted_session_keeps_whole_files(local, mirror, events);
    lemma_run_keeps_local(ResponderView::fresh(local), mirror, events);
    let remote = s.remote.unwrap();
    lemma_fetch_list(map_of(local), remote);
    lemma_delete_list(local, map_of(remote));
    assert(s.fetch.take(s.fetched as int) =~= s.fetch);
    assert(s.delete.take(s.deleted as int) =~= s.delete);
    assert forall|p: Seq<char>| now.contains_key(p) == map_of(remote).contains_key(p) by {
        assert(file_holds(s, mirror, now, p));
    }
    assert forall|p: Seq<char>|
        now.contains_key(p) && !fetch_set(map_of(local), map_of(remote)).contains(p)
            implies mirror.contains_key(p) && now[p] == mirror[p] by {
        assert(file_holds(s, mirror, now, p));
    }
}

/// Whether the directory `held` holds exactly the files that `manifest`
/// lists, each with the content that has the listed digest.
pub open spec fn describes(
    manifest: Map<Seq<char>, Seq<char>>,
    held: Map<Seq<char>, Seq<u8>>,
) -> bool {
    &&& held.dom() == manifest.dom()
    &&& forall|p: Seq<char>| #[trigger] held.contains_key(p) ==> digest_of(held[p]) == manifest[p]
}

/// Whether every file that is handed out for storing along the run has the
/// content that the sender's manifest lists for its path: the sender sent
/// what it had announced.
pub open spec fn faithful(
    start: ResponderView,
    mirror: Map<Seq<char>, Seq<u8>>,
    events: Seq<EventView>,
) -> bool
    decreases events.len(),
{
    if events.len() == 0 {
        true
    } else {
        let state = run(start, mirror, events.drop_last()).0;
        &&& faithful(start, mirror, events.drop_last())
        &&& state.step(events.last()).1 matches ActionView::StoreFile(path, content) ==> {
            &&& state.remote matches Some(remote)
            &&& digest_of(content) == map_of(remote)[path]
        }
    }
}

/// Whether the file at `p`, if it has arrived, has the content that the
/// sender's manifest lists.
pub open spec fn arrival_holds(s: ResponderView, now: Map<Seq<char>, Seq<u8>>, p: Seq<char>) -> bool {
    s.fetch.take(s.fetched as int).contains(p) ==> {
        &&& s.remote matches Some(remote)
        &&& now.contains_key(p)
        &&& digest_of(now[p]) == map_of(remote)[p]
    }
}

/// Along a faithful run, every file that has arrived has the content that
/// the sender's manifest lists.
proof fn lemma_faithful_run(
    local: Seq<(Seq<char>, Seq<char>)>,
    mirror: Map<Seq<char>, Seq<u8>>,
    events: Seq<EventView>,
)
    requires
        pairs_ok(local),
        faithful(ResponderView::fresh(local), mirror, events),
    ensures
        forall|p: Seq<char>|
            #[trigger] arrival_holds(
                run(ResponderView::fresh(local), mirror, events).0,
                run(ResponderView::fresh(local), mirror, events).1,
                p,
            ),
    decreases events.len(),
{
    let start = ResponderView::fresh(local);
    let (t, after) = run(start, mirror, events);
    if events.len() > 0 {
        let (s, now) = run(start, mirror, events.drop_last());
        lemma_faithful_run(local, mirror, events.drop_last());
        interrupted_session_keeps_whole_files(local, mirror, events.drop_last());
        let event = events.last();
        assert forall|p: Seq<char>| #[trigger] arrival_holds(t, after, p) by {
            assert(arrival_holds(s, now, p));
            if s.step(event).1 is DeleteFile {
                // what is removed is not among the files that have arrived
                let remote = s.remote.unwrap();
                lemma_fetch_list(map_of(s.local), remote);
                lemma_delete_list(s.local, map_of(remote));
                assert(s.delete.contains(s.delete[s.deleted as int]));
                if s.fetch.take(s.fetched as int).contains(p) {
                    assert(s.fetch.contains(p));
                }
            }
        }
    }
}

/// When a session has closed on a directory that the local manifest
/// described, and every file arrived with the content that the sender had
/// announced, the sender's manifest describes the directory.
pub proof fn faithful_session_mirrors_sender(
    local: Seq<(Seq<char>, Seq<char>)>,
    mirror: Map<Seq<char>, Seq<u8>>,
    events: Seq<EventView>,
)
    requires
        pairs_ok(local),
        describes(map_of(local), mirror),
        faithful(ResponderView::fresh(local), mirror, events),
        run(ResponderView::fresh(local), mirror, events).0.phase == Phase::Closed,
    ensures
        ({
            let (s, now) = run(ResponderView::fresh(local), mirror, events);
            s.remote matches Some(remote) && describes(map_of(remote), now)
        }),
{
    let (s, now) = run(ResponderView::fresh(local), mirror, events);
    closed_session_matches_sender(local, mirror, events);
    lemma_faithful_run(local, mirror, events);
    interrupted_session_keeps_whole_files(local, mirror, events);
    lemma_run_keeps_local(ResponderView::fresh(local), mirror, events);
    let remote = s.remote.unwrap();
    lemma_fetch_list(map_of(local), remote);
    assert(s.fetch.take(s.fetched as int) =~= s.fetch);
    assert forall|p: Seq<char>| #[trigger] now.contains_key(p) implies digest_of(now[p]) == map_of(
        remote,
    )[p] by {
        assert(arrival_holds(s, now, p));
    }
}

/// A session keeps the local manifest that it began with.
proof fn lemma_run_keeps_local(
    start: ResponderView,
    mirror: Map<Seq<char>, Seq<u8>>,
    events: Seq<EventView>,
)
    ensures
        run(start, mirror, events).0.local == start.local,
    decreases events.len(),
{
    if events.len() > 0 {
        lemma_run_keeps_local(start, mirror, events.drop_last());
    }
}

} // verus!
