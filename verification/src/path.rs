//! Relative paths inside a mirror directory.
//!
//! A path names a file below the mirror root by its segments, separated by
//! `/`. It may not leave the root: no segment is empty, `.` or `..`, so the
//! path is neither absolute nor does it climb upwards, and two different
//! paths never name the same file.

use crate::text::texts;
use vstd::prelude::*;
use vstd::utf8::encode_utf8;

verus! {

/// The longest path, in bytes of UTF-8, that a manifest or a request may carry.
pub const MAX_PATH_LEN: usize = 4096;

/// Whether `p[i..j]` is a segment of `p`: a longest stretch without `/`.
pub open spec fn is_segment(p: Seq<char>, i: int, j: int) -> bool {
    &&& 0 <= i <= j <= p.len()
    &&& (i == 0 || p[i - 1] == '/')
    &&& (j == p.len() || p[j] == '/')
    &&& forall|k: int| i <= k < j ==> p[k] != '/'
}

/// Whether a segment may occur in a path: it is not empty, not `.` and not `..`.
pub open spec fn segment_allowed(s: Seq<char>) -> bool {
    &&& s.len() > 0
    &&& s != seq!['.']
    &&& s != seq!['.', '.']
}

/// Whether `p` is a path that stays below the mirror root: at most
/// `MAX_PATH_LEN` bytes long, and every segment allowed. The empty path has
/// one segment, the empty one, and so is no path.
pub open spec fn is_relative_path(p: Seq<char>) -> bool {
    &&& encode_utf8(p).len() <= MAX_PATH_LEN
    &&& forall|i: int, j: int| #[trigger] is_segment(p, i, j) ==> segment_allowed(p.subrange(i, j))
}

/// The segments joined by `/`, in order.
pub open spec fn join_segments(parts: Seq<Seq<char>>) -> Seq<char>
    decreases parts.len(),
{
    if parts.len() == 0 {
        Seq::empty()
    } else if parts.len() == 1 {
        parts[0]
    } else {
        join_segments(parts.drop_last()) + seq!['/'] + parts.last()
    }
}

/// A path that is valid is not empty and does not begin with `/`.
pub proof fn relative_path_is_not_absolute(p: Seq<char>)
    requires
        is_relative_path(p),
    ensures
        p.len() > 0,
        p[0] != '/',
{
    if p.len() == 0 || p[0] == '/' {
        assert(is_segment(p, 0, 0));
    }
}

/// Joins the segments of a path by `/`, in order: a file is named by its
/// whole path below the root, not by its last segment alone.
pub fn join_path(segments: &Vec<String>) -> (path: String)
    ensures
        path@ == join_segments(texts(segments@)),
{
    let mut path = String::new();
    let mut i: usize = 0;
    while i < segments.len()
        invariant
            i <= segments.len(),
            path@ == join_segments(texts(segments@).take(i as int)),
        decreases segments.len() - i,
    {
        let ghost before = texts(segments@).take(i as int);
        let ghost after = texts(segments@).take(i as int + 1);
        proof {
            assert(after.drop_last() =~= before);
        }
        if i > 0 {
            path.append("/");
            proof {
                reveal_strlit("/");
            }
        }
        path.append(segments[i].as_str());
        i = i + 1;
    }
    assert(texts(segments@).take(segments@.len() as int) =~= texts(segments@));
    path
}

/// Whether the stretch of `len` characters (counted up to three), all of them
/// dots or not, may stand as a segment.
fn stretch_allowed(len: usize, dots_only: bool) -> (ok: bool)
    ensures
        ok == (len > 0 && !(dots_only && len <= 2)),
{
    len > 0 && !(dots_only && len <= 2)
}

/// Whether `text` is a path that stays below the mirror root.
pub fn is_valid_path(text: &str) -> (ok: bool)
    ensures
        ok == is_relative_path(text@),
{
    if text.as_bytes().len() > MAX_PATH_LEN {
        return false;
    }
    let ghost p = text@;
    let ghost mut start: int = 0;
    let mut seg_len: usize = 0;
    let mut dots_only: bool = true;
    for c in it: text.chars()
        invariant
            it.seq() == p,
            p == text@,
            encode_utf8(p).len() <= MAX_PATH_LEN,
            0 <= start <= it.index(),
            start == 0 || p[start - 1] == '/',
            forall|k: int| start <= k < it.index() ==> p[k] != '/',
            seg_len == if it.index() - start < 3 { it.index() - start } else { 3 },
            dots_only == (forall|k: int| start <= k < it.index() ==> p[k] == '.'),
            forall|i: int, j: int|
                #[trigger] is_segment(p, i, j) && j < it.index() ==> segment_allowed(
                    p.subrange(i, j),
                ),
    {
        let ghost n = it.index() as int;
        if c == '/' {
            let ok = stretch_allowed(seg_len, dots_only);
            proof {
                assert(is_segment(p, start, n));
                lemma_stretch(p, start, n);
            }
            if !ok {
                return false;
            }
            proof {
                assert forall|i: int, j: int| #[trigger] is_segment(p, i, j) && j < n + 1 implies segment_allowed(
                    p.subrange(i, j),
                ) by {
                    if j == n {
                    }
                }
                start = n + 1;
            }
            seg_len = 0;
            dots_only = true;
        } else {
            if seg_len < 3 {
                seg_len = seg_len + 1;
            }
            dots_only = dots_only && c == '.';
        }
    }
    let ok = stretch_allowed(seg_len, dots_only);
    proof {
        let n = p.len() as int;
        assert(is_segment(p, start, n));
        lemma_stretch(p, start, n);
        if ok {
            assert forall|i: int, j: int| #[trigger] is_segment(p, i, j) implies segment_allowed(
                p.subrange(i, j),
            ) by {
                if j == n {
                }
            }
        }
    }
    ok
}

/// A stretch is an allowed segment exactly if it is not empty and not one
/// or two dots.
proof fn lemma_stretch(p: Seq<char>, i: int, j: int)
    requires
        0 <= i <= j <= p.len(),
    ensures
        segment_allowed(p.subrange(i, j)) == (j - i > 0 && !((forall|k: int|
            i <= k < j ==> p[k] == '.') && j - i <= 2)),
{
    let s = p.subrange(i, j);
    if j - i == 1 {
        if p[i] == '.' {
            assert(s =~= seq!['.']);
        } else {
            assert(s[0] != '.');
        }
    } else if j - i == 2 {
        if p[i] == '.' && p[i + 1] == '.' {
            assert(s =~= seq!['.', '.']);
        }
    }
}

} // verus!
