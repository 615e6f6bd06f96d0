//! HTTP/0.9 requests: `GET <path>` followed by a line break.
//!
//! The server serves a file by the last normal component of the requested
//! path alone: `.`, `..` and empty components are skipped, so a request can
//! never name a file outside the directory the server runs in.
use vstd::prelude::*;

use crate::buf::{copy_bytes, matches_at};

verus! {

/// Line feed.
pub const LF: u8 = 0x0a;

/// Carriage return.
pub const CR: u8 = 0x0d;

/// The path separator `/`.
pub const SLASH: u8 = 0x2f;

/// The byte `.`.
pub const DOT: u8 = 0x2e;

/// The four bytes `GET ` that open a request.
pub open spec fn get_prefix() -> Seq<u8> {
    seq![0x47u8, 0x45u8, 0x54u8, 0x20u8]
}

/// Whether a chunk of stream data is a request: longer than `GET ` and
/// opening with it.
pub open spec fn spec_is_get_request(buf: Seq<u8>) -> bool {
    buf.len() > 4 && buf.take(4) == get_prefix()
}

/// The index of the first line feed in `s`, or its length when there is none.
pub open spec fn newline_index(s: Seq<u8>) -> int
    decreases s.len(),
{
    if s.len() == 0 {
        0
    } else if s[0] == LF {
        0
    } else {
        1 + newline_index(s.drop_first())
    }
}

/// The first line of `s`, as `str::lines` gives it: the bytes before the
/// first line feed, without a carriage return right before that line feed.
pub open spec fn spec_first_line(s: Seq<u8>) -> Seq<u8> {
    let k = newline_index(s);
    if k < s.len() && k > 0 && s[k - 1] == CR {
        s.take(k - 1)
    } else {
        s.take(k)
    }
}

/// The index of the last `/` in `s`, or -1 when there is none.
pub open spec fn last_slash(s: Seq<u8>) -> int
    decreases s.len(),
{
    if s.len() == 0 {
        -1
    } else if s.last() == SLASH {
        s.len() - 1
    } else {
        last_slash(s.drop_last())
    }
}

/// A normal path component: not empty, not `.` and not `..`.
pub open spec fn is_normal_component(c: Seq<u8>) -> bool {
    c.len() > 0 && c != seq![DOT] && c != seq![DOT, DOT]
}

/// The last normal component of a `/`-separated path, if it has one.
pub open spec fn spec_file_name(path: Seq<u8>) -> Option<Seq<u8>>
    decreases path.len(),
{
    let k = last_slash(path);
    if is_normal_component(path.skip(k + 1)) {
        Some(path.skip(k + 1))
    } else if k < 0 || k >= path.len() {
        None
    } else {
        spec_file_name(path.take(k))
    }
}

/// The name of the file that the request `buf` asks for, when `buf` is a request.
pub open spec fn spec_requested_file(buf: Seq<u8>) -> Option<Seq<u8>> {
    if spec_is_get_request(buf) {
        spec_file_name(spec_first_line(buf.skip(4)))
    } else {
        None
    }
}

/// The first line feed is the one at `k` when `k` holds one (or is the end)
/// and no line feed comes before it.
pub(crate) proof fn lemma_newline_index_is(s: Seq<u8>, k: int)
    requires
        0 <= k <= s.len(),
        k < s.len() ==> s[k] == LF,
        forall|j: int| 0 <= j < k ==> s[j] != LF,
    ensures
        newline_index(s) == k,
    decreases s.len(),
{
    if s.len() > 0 && k > 0 {
        assert(s[0] != LF);
        assert forall|j: int| 0 <= j < k - 1 implies s.drop_first()[j] != LF by {
            assert(s.drop_first()[j] == s[j + 1]);
        }
        if k - 1 < s.len() - 1 {
            assert(s.drop_first()[k - 1] == s[k]);
        }
        lemma_newline_index_is(s.drop_first(), k - 1);
    }
}

proof fn lemma_last_slash_bounds(s: Seq<u8>)
    ensures
        -1 <= last_slash(s) < s.len(),
        last_slash(s) >= 0 ==> s[last_slash(s)] == SLASH,
        forall|j: int| last_slash(s) < j < s.len() ==> s[j] != SLASH,
    decreases s.len(),
{
    if s.len() > 0 && s.last() != SLASH {
        lemma_last_slash_bounds(s.drop_last());
        assert forall|j: int| last_slash(s) < j < s.len() implies s[j] != SLASH by {
            if j < s.len() - 1 {
                assert(s[j] == s.drop_last()[j]);
            }
        }
    }
}

/// The last `/` is the one at `k` when `k` holds one (or is -1) and no `/`
/// comes after it.
pub(crate) proof fn lemma_last_slash_is(s: Seq<u8>, k: int)
    requires
        -1 <= k < s.len(),
        k >= 0 ==> s[k] == SLASH,
        forall|j: int| k < j < s.len() ==> s[j] != SLASH,
    ensures
        last_slash(s) == k,
    decreases s.len(),
{
    if s.len() > 0 && k < s.len() - 1 {
        assert(s.last() != SLASH);
        assert forall|j: int| k < j < s.len() - 1 implies s.drop_last()[j] != SLASH by {
            assert(s.drop_last()[j] == s[j]);
        }
        lemma_last_slash_is(s.drop_last(), k);
    }
}

/// A file name is always one normal component: it holds no `/`, and it is
/// neither empty nor `.` nor `..`.
pub proof fn lemma_file_name_is_component(path: Seq<u8>)
    ensures
        spec_file_name(path) matches Some(name) ==> {
            &&& is_normal_component(name)
            &&& forall|j: int| 0 <= j < name.len() ==> name[j] != SLASH
        },
    decreases path.len(),
{
    let k = last_slash(path);
    lemma_last_slash_bounds(path);
    if is_normal_component(path.skip(k + 1)) {
        let c = path.skip(k + 1);
        assert forall|j: int| 0 <= j < c.len() implies #[trigger] c[j] != SLASH by {
            assert(c[j] == path[k + 1 + j]);
        }
    } else if k >= 0 && k < path.len() {
        lemma_file_name_is_component(path.take(k));
    }
}

/// The first line of `s`, computed as `spec_first_line` says.
pub fn first_line(s: &[u8]) -> (line: Vec<u8>)
    ensures
        line@ == spec_first_line(s@),
{
    let mut k: usize = 0;
    while k < s.len() && s[k] != LF
        invariant
            k <= s@.len(),
            forall|j: int| 0 <= j < k ==> s@[j] != LF,
        decreases s@.len() - k,
    {
        k = k + 1;
    }
    proof {
        lemma_newline_index_is(s@, k as int);
    }
    let end = if k < s.len() && k > 0 && s[k - 1] == CR {
        k - 1
    } else {
        k
    };
    copy_bytes(&s[0..end])
}

/// Whether `c` is a normal path component.
fn normal_component(c: &[u8]) -> (res: bool)
    ensures
        res == is_normal_component(c@),
{
    if c.len() == 0 {
        return false;
    }
    if c.len() == 1 && c[0] == DOT {
        assert(c@ =~= seq![DOT]);
        return false;
    }
    if c.len() == 2 && c[0] == DOT && c[1] == DOT {
        assert(c@ =~= seq![DOT, DOT]);
        return false;
    }
    assert(c@ != seq![DOT]) by {
        if c@ == seq![DOT] {
            assert(c@[0] == DOT);
        }
    }
    assert(c@ != seq![DOT, DOT]) by {
        if c@ == seq![DOT, DOT] {
            assert(c@[0] == DOT && c@[1] == DOT);
        }
    }
    true
}

/// The last normal component of the path `path`, if it has one: the name of
/// the file that a request for `path` is served from.
pub fn file_name(path: &[u8]) -> (name: Option<Vec<u8>>)
    ensures
        match name {
            Some(n) => spec_file_name(path@) == Some(n@),
            None => spec_file_name(path@) is None,
        },
        name matches Some(n) ==> is_normal_component(n@) && forall|j: int|
            0 <= j < n@.len() ==> n@[j] != SLASH,
{
    proof {
        lemma_file_name_is_component(path@);
    }
    let mut end: usize = path.len();
    assert(path@.take(end as int) =~= path@);
    loop
        invariant
            end <= path@.len(),
            spec_file_name(path@) == spec_file_name(path@.take(end as int)),
        decreases end,
    {
        let ghost prefix = path@.take(end as int);
        let mut i: usize = end;
        while i > 0 && path[i - 1] != SLASH
            invariant
                i <= end,
                end <= path@.len(),
                forall|j: int| i <= j < end ==> path@[j] != SLASH,
            decreases i,
        {
            i = i - 1;
        }
        proof {
            lemma_last_slash_is(prefix, i - 1);
            assert(prefix.skip(i as int) =~= path@.subrange(i as int, end as int));
        }
        let component = &path[i..end];
        if normal_component(component) {
            return Some(copy_bytes(component));
        }
        if i == 0 {
            return None;
        }
        proof {
            assert(prefix.take(i - 1) =~= path@.take(i - 1));
        }
        end = i - 1;
    }
}

/// The first line of the request `buf`, when `buf` is a request (`GET `
/// followed by at least one byte); nothing otherwise.
pub fn request_line(buf: &[u8]) -> (line: Option<Vec<u8>>)
    ensures
        match line {
            Some(l) => spec_is_get_request(buf@) && l@ == spec_first_line(buf@.skip(4)),
            None => !spec_is_get_request(buf@),
        },
{
    let mut prefix: Vec<u8> = Vec::new();
    prefix.push(0x47u8);
    prefix.push(0x45u8);
    prefix.push(0x54u8);
    prefix.push(0x20u8);
    assert(prefix@ =~= get_prefix());
    if buf.len() > 4 && matches_at(buf, 0, prefix.as_slice()) {
        assert(buf@.subrange(0, 4) == buf@.take(4));
        assert(buf@.subrange(4, buf@.len() as int) == buf@.skip(4));
        Some(first_line(&buf[4..buf.len()]))
    } else {
        assert(buf@.len() > 4 ==> buf@.subrange(0, 4) == buf@.take(4));
        None
    }
}

/// The name of the file that the request `buf` asks for, or nothing when
/// `buf` is not a request. A request must be valid UTF-8 after `GET ` and
/// must name a file.
pub fn requested_file(buf: &[u8]) -> (name: Option<Vec<u8>>)
    requires
        spec_is_get_request(buf@) ==> {
            &&& vstd::utf8::valid_utf8(buf@.skip(4))
            &&& spec_file_name(spec_first_line(buf@.skip(4))) is Some
        },
    ensures
        match name {
            Some(n) => spec_requested_file(buf@) == Some(n@),
            None => !spec_is_get_request(buf@),
        },
{
    match request_line(buf) {
        None => None,
        Some(line) => file_name(line.as_slice()),
    }
}

} // verus!
