//! Glob recognition in container paths.
use vstd::prelude::*;

use crate::text::{joined, joined_segments, segments, split_segments, join_segments, views};

verus! {

/// One of the characters that make a path a glob pattern: `*`, `?`, `[`, `{`.
pub open spec fn is_glob_char(c: char) -> bool {
    c == '*' || c == '?' || c == '[' || c == '{'
}

/// The path holds at least one glob character.
pub open spec fn has_glob_char(s: Seq<char>) -> bool {
    exists|i: int| 0 <= i < s.len() && is_glob_char(s[i])
}

/// The pieces that hold no glob character, in their order.
pub open spec fn plain_pieces(pieces: Seq<Seq<char>>) -> Seq<Seq<char>>
    decreases pieces.len(),
{
    if pieces.len() == 0 {
        pieces
    } else if has_glob_char(pieces.last()) {
        plain_pieces(pieces.drop_last())
    } else {
        plain_pieces(pieces.drop_last()).push(pieces.last())
    }
}

/// The base directory of a glob pattern: its `/`-separated pieces that hold
/// no glob character, joined again with `/`.
pub open spec fn glob_base(pattern: Seq<char>) -> Seq<char> {
    joined_segments(plain_pieces(segments(pattern)))
}

/// Whether the path is a glob pattern.
pub fn is_path_glob(path: &str) -> (r: bool)
    ensures
        r == has_glob_char(path@),
{
    let n = path.unicode_len();
    let mut i: usize = 0;
    while i < n
        invariant
            n == path@.len(),
            i <= n,
            forall|j: int| 0 <= j < i ==> !is_glob_char(path@[j]),
        decreases n - i,
    {
        let c = path.get_char(i);
        if c == '*' || c == '?' || c == '[' || c == '{' {
            assert(is_glob_char(path@[i as int]));
            return true;
        }
        i = i + 1;
    }
    false
}

/// The part of a glob pattern that names a directory to fetch: the pieces of
/// the pattern that hold no glob character, joined with `/`.
pub fn get_base_from_glob(pattern: &str) -> (r: String)
    ensures
        r@ == glob_base(pattern@),
{
    let pieces = split_segments(pattern);
    let mut kept: Vec<String> = Vec::new();
    let mut i: usize = 0;
    assert(views(pieces@).subrange(0, 0) =~= Seq::<Seq<char>>::empty());
    assert(views(kept@) =~= Seq::<Seq<char>>::empty());
    while i < pieces.len()
        invariant
            i <= pieces@.len(),
            views(kept@) == plain_pieces(views(pieces@).subrange(0, i as int)),
        decreases pieces@.len() - i,
    {
        let ghost before = views(pieces@).subrange(0, i as int);
        let ghost after = views(pieces@).subrange(0, i + 1);
        assert(after.drop_last() =~= before);
        assert(after.last() == pieces@[i as int]@);
        let ghost old_kept = kept@;
        if !is_path_glob(pieces[i].as_str()) {
            kept.push(pieces[i].clone());
            assert(views(kept@) =~= views(old_kept).push(pieces@[i as int]@));
        }
        i = i + 1;
    }
    assert(views(pieces@).subrange(0, pieces@.len() as int) =~= views(pieces@));
    join_segments(&kept)
}


proof fn lemma_segment_chars_come_from(s: Seq<char>)
    ensures
        forall|i: int, j: int|
            0 <= i < segments(s).len() && 0 <= j < segments(s)[i].len() ==> s.contains(
                #[trigger] segments(s)[i][j],
            ),
    decreases s.len(),
{
    crate::text::lemma_segments_nonempty(s);
    if s.len() > 0 {
        let t = s.drop_last();
        lemma_segment_chars_come_from(t);
        crate::text::lemma_segments_nonempty(t);
        assert forall|i: int, j: int|
            0 <= i < segments(s).len() && 0 <= j < segments(s)[i].len() implies s.contains(
                #[trigger] segments(s)[i][j],
            ) by {
            let c = segments(s)[i][j];
            if s.last() != '/' && i == segments(t).len() - 1 && j == segments(t)[i].len() {
                assert(s[s.len() - 1] == c);
            } else {
                assert(segments(t)[i][j] == c);
                let k = choose|k: int| 0 <= k < t.len() && t[k] == c;
                assert(s[k] == c);
            }
        }
    }
}

proof fn lemma_plain_pieces_keeps_plain(pieces: Seq<Seq<char>>)
    requires
        forall|i: int| 0 <= i < pieces.len() ==> !has_glob_char(#[trigger] pieces[i]),
    ensures
        plain_pieces(pieces) == pieces,
    decreases pieces.len(),
{
    if pieces.len() > 0 {
        lemma_plain_pieces_keeps_plain(pieces.drop_last());
        assert(pieces.drop_last().push(pieces.last()) =~= pieces);
    }
}

proof fn lemma_plain_pieces_are_plain(pieces: Seq<Seq<char>>)
    ensures
        forall|i: int|
            0 <= i < plain_pieces(pieces).len() ==> !has_glob_char(#[trigger] plain_pieces(pieces)[i]),
    decreases pieces.len(),
{
    if pieces.len() > 0 {
        lemma_plain_pieces_are_plain(pieces.drop_last());
        let front = plain_pieces(pieces.drop_last());
        if !has_glob_char(pieces.last()) {
            assert forall|i: int| 0 <= i < front.push(pieces.last()).len() implies !has_glob_char(
                #[trigger] front.push(pieces.last())[i],
            ) by {
                if i < front.len() {
                    assert(front.push(pieces.last())[i] == front[i]);
                }
            }
        }
    }
}

proof fn lemma_joined_plain(pieces: Seq<Seq<char>>)
    requires
        forall|i: int| 0 <= i < pieces.len() ==> !has_glob_char(#[trigger] pieces[i]),
    ensures
        !has_glob_char(joined_segments(pieces)),
    decreases pieces.len(),
{
    if pieces.len() > 1 {
        let front = pieces.drop_last();
        lemma_joined_plain(front);
        let a = joined_segments(front);
        let b = pieces.last();
        assert(!has_glob_char(b));
        let j = joined(a, b);
        assert forall|k: int| 0 <= k < j.len() implies !is_glob_char(#[trigger] j[k]) by {
            if k < a.len() {
                assert(j[k] == a[k]);
            } else if k == a.len() {
                assert(j[k] == '/');
            } else {
                assert(j[k] == b[k - a.len() - 1]);
            }
        }
    } else if pieces.len() == 1 {
        assert(!has_glob_char(pieces[0]));
    }
}

/// A path without glob characters is its own glob base: the base of `/foo/bar`
/// is `/foo/bar`.
pub proof fn lemma_glob_base_of_plain_path(path: Seq<char>)
    requires
        !has_glob_char(path),
    ensures
        glob_base(path) == path,
{
    let segs = segments(path);
    lemma_segment_chars_come_from(path);
    assert forall|i: int| 0 <= i < segs.len() implies !has_glob_char(#[trigger] segs[i]) by {
        if has_glob_char(segs[i]) {
            let j = choose|j: int| 0 <= j < segs[i].len() && is_glob_char(segs[i][j]);
            assert(path.contains(segs[i][j]));
        }
    }
    lemma_plain_pieces_keeps_plain(segs);
    crate::text::lemma_join_segments_roundtrip(path);
}

/// The glob base of any pattern holds no glob character, so taking the base
/// again changes nothing.
pub proof fn lemma_glob_base_is_plain(pattern: Seq<char>)
    ensures
        !has_glob_char(glob_base(pattern)),
        glob_base(glob_base(pattern)) == glob_base(pattern),
{
    lemma_plain_pieces_are_plain(segments(pattern));
    lemma_joined_plain(plain_pieces(segments(pattern)));
    lemma_glob_base_of_plain_path(glob_base(pattern));
}

} // verus!
