//! Where things lie on disk and what the protocols are called.
//!
//! For a local alias `L` and a remote alias `R`, the files received from
//! `R` lie under `<data>/L/mirror_from/R` and the files to send to `R`
//! under `<data>/L/mirror_to/R`. The secret key of an alias lies in the
//! file `<keys>/L`.

use crate::text::same_bytes;
use vstd::prelude::*;
use vstd::utf8::encode_utf8;

verus! {

/// Which of the two mirror directories of a pair of peers is meant.
#[derive(Clone, Copy, Debug, PartialEq, Eq, Structural)]
pub enum Direction {
    /// The directory that receives what the remote peer sends.
    From,
    /// The directory that holds what is sent to the remote peer.
    To,
}

/// The two protocols that a connection can be opened for.
#[derive(Clone, Copy, Debug, PartialEq, Eq, Structural)]
pub enum Protocol {
    /// One question and one answer, to see that the peer is there.
    Ping,
    /// The synchronization of a mirror directory.
    RemoteMirror,
}

/// The name of the directory for a direction.
pub open spec fn direction_name(direction: Direction) -> Seq<char> {
    match direction {
        Direction::From => "mirror_from"@,
        Direction::To => "mirror_to"@,
    }
}

/// The path of a mirror directory.
pub open spec fn mirror_dir_path(
    data: Seq<char>,
    local: Seq<char>,
    remote: Seq<char>,
    direction: Direction,
) -> Seq<char> {
    data + "/"@ + local + "/"@ + direction_name(direction) + "/"@ + remote
}

/// The path of the key file of an alias.
pub open spec fn key_file_path(keys: Seq<char>, alias: Seq<char>) -> Seq<char> {
    keys + "/"@ + alias
}

/// The tag of a protocol.
pub open spec fn tag_of(protocol: Protocol) -> Seq<char> {
    match protocol {
        Protocol::Ping => "nhardt/iroh-cli/ping"@,
        Protocol::RemoteMirror => "nhardt/iroh-cli/remote_mirror"@,
    }
}

/// The path of the mirror directory of the local alias `local` for the
/// remote alias `remote`, below the data directory `data`.
pub fn mirror_dir(data: &str, local: &str, remote: &str, direction: Direction) -> (path: String)
    ensures
        path@ == mirror_dir_path(data@, local@, remote@, direction),
{
    let mut path = String::from_str(data);
    path.append("/");
    path.append(local);
    path.append("/");
    match direction {
        Direction::From => path.append("mirror_from"),
        Direction::To => path.append("mirror_to"),
    }
    path.append("/");
    path.append(remote);
    path
}

/// The path of the key file of `alias`, below the key directory `keys`.
pub fn key_file(keys: &str, alias: &str) -> (path: String)
    ensures
        path@ == key_file_path(keys@, alias@),
{
    let mut path = String::from_str(keys);
    path.append("/");
    path.append(alias);
    path
}

/// The tag under which connections for `protocol` are opened and accepted.
pub fn protocol_tag(protocol: Protocol) -> (tag: &'static str)
    ensures
        tag@ == tag_of(protocol),
{
    match protocol {
        Protocol::Ping => "nhardt/iroh-cli/ping",
        Protocol::RemoteMirror => "nhardt/iroh-cli/remote_mirror",
    }
}

/// The protocol that a connection with the tag `tag` speaks, if it is one
/// of the two.
pub fn protocol_for_tag(tag: &[u8]) -> (protocol: Option<Protocol>)
    ensures
        protocol == if tag@ == encode_utf8(tag_of(Protocol::Ping)) {
            Some(Protocol::Ping)
        } else if tag@ == encode_utf8(tag_of(Protocol::RemoteMirror)) {
            Some(Protocol::RemoteMirror)
        } else {
            None
        },
{
    if same_bytes(tag, protocol_tag(Protocol::Ping).as_bytes()) {
        Some(Protocol::Ping)
    } else if same_bytes(tag, protocol_tag(Protocol::RemoteMirror).as_bytes()) {
        Some(Protocol::RemoteMirror)
    } else {
        None
    }
}

/// The two protocols have different tags, so a connection speaks one of
/// them only.
pub proof fn tags_differ()
    ensures
        tag_of(Protocol::Ping) != tag_of(Protocol::RemoteMirror),
        encode_utf8(tag_of(Protocol::Ping)) != encode_utf8(tag_of(Protocol::RemoteMirror)),
{
    reveal_strlit("nhardt/iroh-cli/ping");
    reveal_strlit("nhardt/iroh-cli/remote_mirror");
    vstd::utf8::encode_utf8_decode_utf8(tag_of(Protocol::Ping));
    vstd::utf8::encode_utf8_decode_utf8(tag_of(Protocol::RemoteMirror));
}

} // verus!
