//! On-disk names derived from URLs.
//!
//! A fetched file is named after the last path segment of its URL: the text
//! after the final `/`. Two URLs with the same last segment name the same file,
//! and the one written last wins.
use vstd::prelude::*;

verus! {

/// The text after the final `/` of `s`, or the whole of `s` when it holds no `/`.
pub open spec fn last_segment(s: Seq<char>) -> Seq<char>
    decreases s.len(),
{
    if s.len() == 0 {
        s
    } else if s.last() == '/' {
        Seq::empty()
    } else {
        last_segment(s.drop_last()).push(s.last())
    }
}

/// The suffix of a gzip-compressed file's name.
pub open spec fn gz_suffix() -> Seq<char> {
    seq!['.', 'g', 'z']
}

pub open spec fn ends_with_gz(s: Seq<char>) -> bool {
    s.len() >= 3 && s.subrange(s.len() - 3, s.len() as int) == gz_suffix()
}

/// The name a decompressed file gets: `name` without its `.gz` suffix, or
/// `name` itself when it has none.
pub open spec fn decompressed_name_of(name: Seq<char>) -> Seq<char> {
    if ends_with_gz(name) {
        name.subrange(0, name.len() - 3)
    } else {
        name
    }
}

/// Relies on `str::rsplit_once`: it splits at the last `/`, so the tail holds no
/// `/`; it gives `None` when there is no `/` at all.
#[verifier::external_body]
fn split_at_last_slash(s: &str) -> (r: Option<(&str, &str)>)
    ensures
        match r {
            Some((head, tail)) => s@ == head@ + seq!['/'] + tail@ && !tail@.contains('/'),
            None => !s@.contains('/'),
        },
{
    s.rsplit_once('/')
}

/// Relies on `str::strip_suffix`: `Some` of what precedes a trailing `.gz`,
/// `None` when `s` does not end with `.gz`.
#[verifier::external_body]
fn strip_gz_suffix(s: &str) -> (r: Option<&str>)
    ensures
        match r {
            Some(t) => s@ == t@ + gz_suffix(),
            None => !ends_with_gz(s@),
        },
{
    s.strip_suffix(".gz")
}

proof fn lemma_last_segment_no_slash(s: Seq<char>)
    requires
        !s.contains('/'),
    ensures
        last_segment(s) == s,
    decreases s.len(),
{
    if s.len() > 0 {
        assert(s[s.len() - 1] == s.last());
        assert forall|i: int| 0 <= i < s.drop_last().len() implies s.drop_last()[i] != '/' by {
            assert(s[i] == s.drop_last()[i]);
        }
        lemma_last_segment_no_slash(s.drop_last());
        assert(s.drop_last().push(s.last()) =~= s);
    }
}

proof fn lemma_last_segment_after_slash(head: Seq<char>, tail: Seq<char>)
    requires
        !tail.contains('/'),
    ensures
        last_segment(head + seq!['/'] + tail) == tail,
    decreases tail.len(),
{
    let s = head + seq!['/'] + tail;
    if tail.len() == 0 {
        assert(s.last() == '/');
        assert(tail =~= Seq::<char>::empty());
    } else {
        assert(tail[tail.len() - 1] == tail.last());
        assert forall|i: int| 0 <= i < tail.drop_last().len() implies tail.drop_last()[i] != '/' by {
            assert(tail[i] == tail.drop_last()[i]);
        }
        lemma_last_segment_after_slash(head, tail.drop_last());
        assert(s.drop_last() =~= head + seq!['/'] + tail.drop_last());
        assert(s.last() == tail.last());
        assert(tail.drop_last().push(tail.last()) =~= tail);
    }
}

/// The on-disk name for `url`: its last path segment.
pub fn file_name(url: &str) -> (r: &str)
    ensures
        r@ == last_segment(url@),
{
    match split_at_last_slash(url) {
        Some((head, tail)) => {
            proof {
                lemma_last_segment_after_slash(head@, tail@);
            }
            tail
        },
        None => {
            proof {
                lemma_last_segment_no_slash(url@);
            }
            url
        },
    }
}

/// The name under which the decompressed contents of file `name` are saved.
pub fn decompressed_name(name: &str) -> (r: &str)
    ensures
        r@ == decompressed_name_of(name@),
{
    match strip_gz_suffix(name) {
        Some(t) => {
            assert((t@ + gz_suffix()).subrange(0, t@.len() as int) =~= t@);
            assert((t@ + gz_suffix()).subrange(t@.len() as int, t@.len() + 3int) =~= gz_suffix());
            t
        },
        None => name,
    }
}

} // verus!
