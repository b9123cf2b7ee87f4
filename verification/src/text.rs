//! Character-level string helpers with exact specifications over `Seq<char>`.
use vstd::prelude::*;
use vstd::string::*;

verus! {

/// `prefix` is a prefix of `s`.
pub open spec fn has_prefix(s: Seq<char>, prefix: Seq<char>) -> bool {
    prefix.len() <= s.len() && s.subrange(0, prefix.len() as int) == prefix
}

/// Equality of two string slices, compared character by character.
pub fn str_equals(a: &str, b: &str) -> (r: bool)
    ensures
        r == (a@ == b@),
{
    let n = a.unicode_len();
    let m = b.unicode_len();
    if n != m {
        return false;
    }
    let mut i: usize = 0;
    while i < n
        invariant
            n == a@.len(),
            m == b@.len(),
            n == m,
            i <= n,
            forall|j: int| 0 <= j < i ==> a@[j] == b@[j],
        decreases n - i,
    {
        if a.get_char(i) != b.get_char(i) {
            assert(a@[i as int] != b@[i as int]);
            return false;
        }
        i = i + 1;
    }
    assert(a@ =~= b@);
    true
}

/// Whether `s` starts with `prefix`.
pub fn starts_with(s: &str, prefix: &str) -> (r: bool)
    ensures
        r == has_prefix(s@, prefix@),
{
    let n = s.unicode_len();
    let m = prefix.unicode_len();
    if m > n {
        return false;
    }
    let mut i: usize = 0;
    while i < m
        invariant
            n == s@.len(),
            m == prefix@.len(),
            m <= n,
            i <= m,
            forall|j: int| 0 <= j < i ==> s@[j] == prefix@[j],
        decreases m - i,
    {
        if s.get_char(i) != prefix.get_char(i) {
            assert(s@.subrange(0, m as int)[i as int] != prefix@[i as int]);
            return false;
        }
        i = i + 1;
    }
    assert(s@.subrange(0, m as int) =~= prefix@);
    true
}

/// `base`, a `/` and `name`, as `format!("{}/{}", base, name)` writes them.
pub open spec fn joined(base: Seq<char>, name: Seq<char>) -> Seq<char> {
    base + seq!['/'] + name
}

/// Joins two path pieces with a `/` between them.
pub fn join_path(base: &str, name: &str) -> (r: String)
    ensures
        r@ == joined(base@, name@),
{
    let mut r = String::from_str(base);
    r.append("/");
    r.append(name);
    proof {
        reveal_strlit("/");
    }
    r
}


/// The views of a sequence of strings.
pub open spec fn views(v: Seq<String>) -> Seq<Seq<char>> {
    v.map_values(|x: String| x@)
}

/// The pieces of `s` between the `/` separators, as `str::split("/")` gives
/// them: always at least one piece, empty pieces included.
pub open spec fn segments(s: Seq<char>) -> Seq<Seq<char>>
    decreases s.len(),
{
    if s.len() == 0 {
        seq![Seq::<char>::empty()]
    } else {
        let front = segments(s.drop_last());
        if s.last() == '/' {
            front.push(Seq::<char>::empty())
        } else {
            front.update(front.len() - 1, front.last().push(s.last()))
        }
    }
}

/// The pieces joined with a `/` between each two of them.
pub open spec fn joined_segments(pieces: Seq<Seq<char>>) -> Seq<char>
    decreases pieces.len(),
{
    if pieces.len() == 0 {
        Seq::<char>::empty()
    } else if pieces.len() == 1 {
        pieces[0]
    } else {
        joined(joined_segments(pieces.drop_last()), pieces.last())
    }
}

/// Splitting never yields an empty list of pieces.
pub proof fn lemma_segments_nonempty(s: Seq<char>)
    ensures
        segments(s).len() >= 1,
    decreases s.len(),
{
    if s.len() > 0 {
        lemma_segments_nonempty(s.drop_last());
    }
}

/// A piece of the split never holds the separator.
pub proof fn lemma_segments_have_no_separator(s: Seq<char>)
    ensures
        forall|i: int, j: int|
            0 <= i < segments(s).len() && 0 <= j < segments(s)[i].len() ==> segments(s)[i][j]
                != '/',
    decreases s.len(),
{
    lemma_segments_nonempty(s);
    if s.len() > 0 {
        lemma_segments_have_no_separator(s.drop_last());
        lemma_segments_nonempty(s.drop_last());
    }
}

proof fn lemma_join_extend_last(pieces: Seq<Seq<char>>, c: char)
    requires
        pieces.len() >= 1,
    ensures
        joined_segments(pieces.update(pieces.len() - 1, pieces.last().push(c))) == joined_segments(
            pieces,
        ).push(c),
{
    let up = pieces.update(pieces.len() - 1, pieces.last().push(c));
    if pieces.len() == 1 {
        assert(up[0] == pieces[0].push(c));
    } else {
        assert(up.drop_last() =~= pieces.drop_last());
        assert(joined(joined_segments(pieces.drop_last()), pieces.last().push(c)) =~= joined(
            joined_segments(pieces.drop_last()),
            pieces.last(),
        ).push(c));
    }
}

/// Joining the pieces of a split with `/` gives back the string.
pub proof fn lemma_join_segments_roundtrip(s: Seq<char>)
    ensures
        joined_segments(segments(s)) == s,
    decreases s.len(),
{
    if s.len() == 0 {
        assert(joined_segments(segments(s)) =~= s);
    } else {
        let t = s.drop_last();
        lemma_join_segments_roundtrip(t);
        lemma_segments_nonempty(t);
        let front = segments(t);
        if s.last() == '/' {
            let pushed = front.push(Seq::<char>::empty());
            assert(pushed.drop_last() =~= front);
            assert(joined(t, Seq::<char>::empty()) =~= s);
        } else {
            lemma_join_extend_last(front, s.last());
            assert(t.push(s.last()) =~= s);
        }
    }
}

/// Splits `s` at every `/`.
pub fn split_segments(s: &str) -> (r: Vec<String>)
    ensures
        views(r@) == segments(s@),
{
    let n = s.unicode_len();
    let mut pieces: Vec<String> = Vec::new();
    let mut start: usize = 0;
    let mut i: usize = 0;
    assert(s@.subrange(0, 0) =~= Seq::<char>::empty());
    assert(views(pieces@) =~= Seq::<Seq<char>>::empty());
    assert(views(pieces@).push(s@.subrange(0, 0)) =~= segments(s@.subrange(0, 0)));
    while i < n
        invariant
            n == s@.len(),
            start <= i <= n,
            segments(s@.subrange(0, i as int)) == views(pieces@).push(s@.subrange(start as int, i as int)),
        decreases n - i,
    {
        let c = s.get_char(i);
        let ghost pre = s@.subrange(0, i as int);
        let ghost cur = s@.subrange(0, i + 1);
        assert(cur.drop_last() =~= pre);
        assert(cur.last() == c);
        if c == '/' {
            let ghost old_pieces = pieces@;
            let piece = String::from_str(s.substring_char(start, i));
            pieces.push(piece);
            assert(views(pieces@) =~= views(old_pieces).push(s@.subrange(start as int, i as int)));
            start = i + 1;
            assert(s@.subrange(start as int, i + 1) =~= Seq::<char>::empty());
            assert(views(pieces@).push(s@.subrange(start as int, i + 1)) =~= segments(cur));
        } else {
            assert(s@.subrange(start as int, i as int).push(c) =~= s@.subrange(start as int, i + 1));
            assert(views(pieces@).push(s@.subrange(start as int, i + 1)) =~= segments(cur));
        }
        i = i + 1;
    }
    let last = String::from_str(s.substring_char(start, n));
    pieces.push(last);
    assert(s@.subrange(0, n as int) =~= s@);
    assert(views(pieces@) =~= segments(s@));
    pieces
}

/// Joins the pieces with `/` between each two of them.
pub fn join_segments(pieces: &Vec<String>) -> (r: String)
    ensures
        r@ == joined_segments(views(pieces@)),
{
    let mut r = String::new();
    let mut i: usize = 0;
    assert(views(pieces@).subrange(0, 0) =~= Seq::<Seq<char>>::empty());
    while i < pieces.len()
        invariant
            i <= pieces@.len(),
            r@ == joined_segments(views(pieces@).subrange(0, i as int)),
        decreases pieces@.len() - i,
    {
        let ghost before = views(pieces@).subrange(0, i as int);
        let ghost after = views(pieces@).subrange(0, i + 1);
        assert(after.drop_last() =~= before);
        if i > 0 {
            r.append("/");
            proof {
                reveal_strlit("/");
            }
        } else {
            assert(after =~= seq![pieces@[0]@]);
        }
        r.append(pieces[i].as_str());
        i = i + 1;
    }
    assert(views(pieces@).subrange(0, pieces@.len() as int) =~= views(pieces@));
    r
}

/// Strict lexicographic order on character sequences, by code point.
pub open spec fn precedes(a: Seq<char>, b: Seq<char>) -> bool
    decreases a.len(),
{
    if a.len() == 0 {
        b.len() > 0
    } else if b.len() == 0 {
        false
    } else if a[0] != b[0] {
        a[0] < b[0]
    } else {
        precedes(a.drop_first(), b.drop_first())
    }
}

/// Nothing precedes itself.
pub proof fn lemma_precedes_irreflexive(a: Seq<char>)
    ensures
        !precedes(a, a),
    decreases a.len(),
{
    if a.len() > 0 {
        lemma_precedes_irreflexive(a.drop_first());
    }
}

/// The order is transitive.
pub proof fn lemma_precedes_transitive(a: Seq<char>, b: Seq<char>, c: Seq<char>)
    requires
        precedes(a, b),
        precedes(b, c),
    ensures
        precedes(a, c),
    decreases a.len(),
{
    if a.len() > 0 && b.len() > 0 && c.len() > 0 && a[0] == b[0] && b[0] == c[0] {
        lemma_precedes_transitive(a.drop_first(), b.drop_first(), c.drop_first());
    }
}

/// Two different sequences are ordered one way or the other.
pub proof fn lemma_precedes_total(a: Seq<char>, b: Seq<char>)
    requires
        a != b,
    ensures
        precedes(a, b) || precedes(b, a),
    decreases a.len(),
{
    if a.len() > 0 && b.len() > 0 && a[0] == b[0] {
        if a.drop_first() == b.drop_first() {
            assert(a =~= seq![a[0]] + a.drop_first());
            assert(b =~= seq![b[0]] + b.drop_first());
        }
        lemma_precedes_total(a.drop_first(), b.drop_first());
    } else if a.len() == 0 && b.len() == 0 {
        assert(a =~= b);
    } else if a.len() > 0 && b.len() > 0 {
        assert(a[0] < b[0] || b[0] < a[0]);
    }
}

/// Whether `a` comes strictly before `b` in lexicographic order.
pub fn str_precedes(a: &str, b: &str) -> (r: bool)
    ensures
        r == precedes(a@, b@),
{
    let n = a.unicode_len();
    let m = b.unicode_len();
    let mut i: usize = 0;
    assert(a@.subrange(0, n as int) =~= a@);
    assert(b@.subrange(0, m as int) =~= b@);
    while i < n && i < m
        invariant
            n == a@.len(),
            m == b@.len(),
            i <= n,
            i <= m,
            precedes(a@, b@) == precedes(
                a@.subrange(i as int, n as int),
                b@.subrange(i as int, m as int),
            ),
        decreases n - i,
    {
        let x = a.get_char(i);
        let y = b.get_char(i);
        let ghost sa = a@.subrange(i as int, n as int);
        let ghost sb = b@.subrange(i as int, m as int);
        assert(sa[0] == x && sb[0] == y);
        if x != y {
            return x < y;
        }
        assert(sa.drop_first() =~= a@.subrange(i + 1, n as int));
        assert(sb.drop_first() =~= b@.subrange(i + 1, m as int));
        i = i + 1;
    }
    i == n && i < m
}


/// `p` occurs in `s` starting at position `i`.
pub open spec fn occurs_at(s: Seq<char>, p: Seq<char>, i: int) -> bool {
    0 <= i && i + p.len() <= s.len() && s.subrange(i, i + p.len()) == p
}

/// `i` is the first position at which `p` occurs in `s`.
pub open spec fn is_first_occurrence(s: Seq<char>, p: Seq<char>, i: int) -> bool {
    occurs_at(s, p, i) && forall|j: int| 0 <= j < i ==> !occurs_at(s, p, j)
}

/// The first position at which `p` occurs in `s`, if it occurs at all.
pub open spec fn first_occurrence(s: Seq<char>, p: Seq<char>) -> Option<int> {
    if exists|i: int| occurs_at(s, p, i) {
        Some(choose|i: int| is_first_occurrence(s, p, i))
    } else {
        None
    }
}

/// `s` with its first occurrence of `p` replaced by `t`, as
/// `str::replacen(p, t, 1)` computes it; `s` itself when `p` does not occur.
pub open spec fn replace_first(s: Seq<char>, p: Seq<char>, t: Seq<char>) -> Seq<char> {
    match first_occurrence(s, p) {
        Some(i) => s.subrange(0, i) + t + s.subrange(i + p.len(), s.len() as int),
        None => s,
    }
}

proof fn lemma_first_occurrence_is(s: Seq<char>, p: Seq<char>, i: int)
    requires
        is_first_occurrence(s, p, i),
    ensures
        first_occurrence(s, p) == Some(i),
{
    let w = choose|k: int| is_first_occurrence(s, p, k);
    assert(is_first_occurrence(s, p, w));
    if w < i {
        assert(!occurs_at(s, p, w));
    } else if i < w {
        assert(!occurs_at(s, p, i));
    }
}

fn occurs_at_exec(s: &str, p: &str, i: usize, n: usize, m: usize) -> (r: bool)
    requires
        n == s@.len(),
        m == p@.len(),
        i + m <= n,
    ensures
        r == occurs_at(s@, p@, i as int),
{
    let mut k: usize = 0;
    while k < m
        invariant
            n == s@.len(),
            m == p@.len(),
            i + m <= n,
            k <= m,
            forall|j: int| 0 <= j < k ==> s@[i + j] == p@[j],
        decreases m - k,
    {
        if s.get_char(i + k) != p.get_char(k) {
            assert(s@.subrange(i as int, i + m)[k as int] != p@[k as int]);
            return false;
        }
        k = k + 1;
    }
    assert(s@.subrange(i as int, i + m) =~= p@);
    true
}

/// The first position at which `p` occurs in `s`.
pub fn find_first(s: &str, p: &str) -> (r: Option<usize>)
    ensures
        match r {
            Some(i) => is_first_occurrence(s@, p@, i as int) && first_occurrence(s@, p@) == Some(
                i as int,
            ),
            None => first_occurrence(s@, p@) is None,
        },
{
    let n = s.unicode_len();
    let m = p.unicode_len();
    if m > n {
        return None;
    }
    let last = n - m;
    let mut i: usize = 0;
    loop
        invariant
            n == s@.len(),
            m == p@.len(),
            last == n - m,
            i <= last,
            forall|j: int| 0 <= j < i ==> !occurs_at(s@, p@, j),
        decreases last - i,
    {
        if occurs_at_exec(s, p, i, n, m) {
            proof {
                lemma_first_occurrence_is(s@, p@, i as int);
            }
            return Some(i);
        }
        if i == last {
            assert(forall|j: int| !occurs_at(s@, p@, j));
            return None;
        }
        i = i + 1;
    }
}

/// Replaces the first occurrence of `p` in `s` by `t`.
pub fn replace_first_str(s: &str, p: &str, t: &str) -> (r: String)
    ensures
        r@ == replace_first(s@, p@, t@),
{
    match find_first(s, p) {
        Some(i) => {
            let n = s.unicode_len();
            let m = p.unicode_len();
            let mut r = String::from_str(s.substring_char(0, i));
            r.append(t);
            r.append(s.substring_char(i + m, n));
            r
        },
        None => String::from_str(s),
    }
}

} // verus!
