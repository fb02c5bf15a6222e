//! Splitting and trimming of sequences (bytes or characters) around a
//! separator or a padding predicate.
use vstd::prelude::*;

use crate::text::{matches_at_bytes, matches_at_chars, occurs_at};

verus! {

// ── Splitting ───────────────────────────────────────────────────────────

/// The pieces of `h` between the non-overlapping occurrences of `n`, scanning
/// from the left; with an empty separator, `h` itself is the only piece.
pub open spec fn split_seq<T>(h: Seq<T>, n: Seq<T>) -> Seq<Seq<T>>
    decreases h.len(),
{
    if n.len() == 0 || h.len() < n.len() {
        seq![h]
    } else if h.take(n.len() as int) == n {
        seq![Seq::<T>::empty()] + split_seq(h.skip(n.len() as int), n)
    } else {
        let r = split_seq(h.drop_first(), n);
        r.update(0, seq![h[0]] + r[0])
    }
}

/// `r` with `p` prepended to its first piece.
pub open spec fn prepend_first<T>(p: Seq<T>, r: Seq<Seq<T>>) -> Seq<Seq<T>> {
    r.update(0, p + r[0])
}

pub proof fn lemma_split_nonempty<T>(h: Seq<T>, n: Seq<T>)
    ensures
        split_seq(h, n).len() >= 1,
    decreases h.len(),
{
    if n.len() == 0 || h.len() < n.len() {
    } else if h.take(n.len() as int) == n {
        lemma_split_nonempty(h.skip(n.len() as int), n);
    } else {
        lemma_split_nonempty(h.drop_first(), n);
    }
}

/// One step of a left-to-right scan for `n` at position `i` of `h`, where
/// `h[start..i]` is the piece gathered so far.
pub proof fn lemma_split_step<T>(h: Seq<T>, n: Seq<T>, start: int, i: int)
    requires
        n.len() > 0,
        0 <= start <= i,
        i + n.len() <= h.len(),
    ensures
        occurs_at(h, n, i) ==> prepend_first(h.subrange(start, i), split_seq(h.skip(i), n))
            == seq![h.subrange(start, i)] + prepend_first(
            Seq::<T>::empty(),
            split_seq(h.skip(i + n.len()), n),
        ),
        !occurs_at(h, n, i) ==> prepend_first(h.subrange(start, i), split_seq(h.skip(i), n))
            == prepend_first(h.subrange(start, i + 1), split_seq(h.skip(i + 1), n)),
{
    let s = h.skip(i);
    assert(s.take(n.len() as int) =~= h.subrange(i, i + n.len()));
    lemma_split_nonempty(s, n);
    if occurs_at(h, n, i) {
        assert(s.skip(n.len() as int) =~= h.skip(i + n.len()));
        let r = split_seq(h.skip(i + n.len()), n);
        lemma_split_nonempty(h.skip(i + n.len()), n);
        assert(split_seq(s, n) == seq![Seq::<T>::empty()] + r);
        assert(prepend_first(h.subrange(start, i), split_seq(s, n)) =~= seq![h.subrange(start, i)]
            + prepend_first(Seq::<T>::empty(), r)) by {
            assert(h.subrange(start, i) + Seq::<T>::empty() =~= h.subrange(start, i));
            assert(Seq::<T>::empty() + r[0] =~= r[0]);
        }
    } else {
        assert(s.drop_first() =~= h.skip(i + 1));
        let r = split_seq(h.skip(i + 1), n);
        lemma_split_nonempty(h.skip(i + 1), n);
        assert(split_seq(s, n) == r.update(0, seq![h[i]] + r[0]));
        assert(h.subrange(start, i) + (seq![h[i]] + r[0]) =~= h.subrange(start, i + 1) + r[0]);
        assert(prepend_first(h.subrange(start, i), split_seq(s, n)) =~= prepend_first(
            h.subrange(start, i + 1),
            r,
        ));
    }
}

/// The end of a left-to-right scan: fewer than `n.len()` elements remain.
pub proof fn lemma_split_end<T>(h: Seq<T>, n: Seq<T>, start: int, i: int)
    requires
        n.len() > 0,
        0 <= start <= i <= h.len(),
        i + n.len() > h.len(),
    ensures
        prepend_first(h.subrange(start, i), split_seq(h.skip(i), n)) == seq![h.skip(start)],
{
    assert(split_seq(h.skip(i), n) == seq![h.skip(i)]);
    assert(h.subrange(start, i) + h.skip(i) =~= h.skip(start));
    assert(prepend_first(h.subrange(start, i), seq![h.skip(i)]) =~= seq![h.skip(start)]);
}

pub proof fn lemma_prepend_empty<T>(r: Seq<Seq<T>>)
    requires
        r.len() >= 1,
    ensures
        prepend_first(Seq::<T>::empty(), r) == r,
{
    assert(Seq::<T>::empty() + r[0] =~= r[0]);
    assert(prepend_first(Seq::<T>::empty(), r) =~= r);
}

/// Splits `h` on every occurrence of the non-empty separator `needle`.
pub fn split_bytes(h: &[u8], needle: &[u8]) -> (r: Vec<Vec<u8>>)
    requires
        needle@.len() > 0,
    ensures
        r@.map_values(|p: Vec<u8>| p@) == split_seq(h@, needle@),
{
    let mut out: Vec<Vec<u8>> = Vec::new();
    let mut i: usize = 0;
    let mut start: usize = 0;
    proof {
        assert(h@.skip(0) =~= h@);
        lemma_split_nonempty(h@, needle@);
        lemma_prepend_empty(split_seq(h@, needle@));
        assert(h@.subrange(0, 0) =~= Seq::<u8>::empty());
        assert(out@.map_values(|p: Vec<u8>| p@) =~= Seq::<Seq<u8>>::empty());
    }
    while i <= h.len() && needle.len() <= h.len() - i
        invariant
            needle@.len() > 0,
            start <= i <= h@.len() == h.len(),
            split_seq(h@, needle@) =~= out@.map_values(|p: Vec<u8>| p@) + prepend_first(
                h@.subrange(start as int, i as int),
                split_seq(h@.skip(i as int), needle@),
            ),
        decreases h@.len() - i,
    {
        let ghost before = out@.map_values(|p: Vec<u8>| p@);
        proof {
            lemma_split_step(h@, needle@, start as int, i as int);
        }
        if matches_at_bytes(h, needle, i) {
            let piece = vstd::slice::slice_to_vec(vstd::slice::slice_subrange(h, start, i));
            out.push(piece);
            i = i + needle.len();
            start = i;
            proof {
                lemma_split_nonempty(h@.skip(i as int), needle@);
                lemma_prepend_empty(split_seq(h@.skip(i as int), needle@));
                assert(h@.subrange(start as int, i as int) =~= Seq::<u8>::empty());
                assert(out@.map_values(|p: Vec<u8>| p@) =~= before.push(piece@));
            }
        } else {
            i = i + 1;
        }
    }
    proof {
        lemma_split_end(h@, needle@, start as int, i as int);
    }
    let ghost before = out@.map_values(|p: Vec<u8>| p@);
    let last = vstd::slice::slice_to_vec(vstd::slice::slice_subrange(h, start, h.len()));
    out.push(last);
    proof {
        assert(h@.subrange(start as int, h@.len() as int) =~= h@.skip(start as int));
        assert(out@.map_values(|p: Vec<u8>| p@) =~= before.push(last@));
    }
    out
}

/// Splits the characters `h` on every occurrence of `sep`.
pub fn split_chars(h: &[char], sep: char) -> (r: Vec<Vec<char>>)
    ensures
        r@.map_values(|p: Vec<char>| p@) == split_seq(h@, seq![sep]),
{
    let needle = vec![sep];
    let mut out: Vec<Vec<char>> = Vec::new();
    let mut i: usize = 0;
    let mut start: usize = 0;
    proof {
        assert(needle@ =~= seq![sep]);
        assert(h@.skip(0) =~= h@);
        lemma_split_nonempty(h@, needle@);
        lemma_prepend_empty(split_seq(h@, needle@));
        assert(h@.subrange(0, 0) =~= Seq::<char>::empty());
        assert(out@.map_values(|p: Vec<char>| p@) =~= Seq::<Seq<char>>::empty());
    }
    while i < h.len()
        invariant
            needle@ == seq![sep],
            start <= i <= h@.len() == h.len(),
            split_seq(h@, needle@) =~= out@.map_values(|p: Vec<char>| p@) + prepend_first(
                h@.subrange(start as int, i as int),
                split_seq(h@.skip(i as int), needle@),
            ),
        decreases h@.len() - i,
    {
        let ghost before = out@.map_values(|p: Vec<char>| p@);
        proof {
            lemma_split_step(h@, needle@, start as int, i as int);
        }
        if matches_at_chars(h, needle.as_slice(), i) {
            let piece = vstd::slice::slice_to_vec(vstd::slice::slice_subrange(h, start, i));
            out.push(piece);
            i = i + 1;
            start = i;
            proof {
                lemma_split_nonempty(h@.skip(i as int), needle@);
                lemma_prepend_empty(split_seq(h@.skip(i as int), needle@));
                assert(h@.subrange(start as int, i as int) =~= Seq::<char>::empty());
                assert(out@.map_values(|p: Vec<char>| p@) =~= before.push(piece@));
            }
        } else {
            i = i + 1;
        }
    }
    proof {
        lemma_split_end(h@, needle@, start as int, i as int);
    }
    let ghost before = out@.map_values(|p: Vec<char>| p@);
    let last = vstd::slice::slice_to_vec(vstd::slice::slice_subrange(h, start, h.len()));
    out.push(last);
    proof {
        assert(h@.subrange(start as int, h@.len() as int) =~= h@.skip(start as int));
        assert(out@.map_values(|p: Vec<char>| p@) =~= before.push(last@));
    }
    out
}

// ── Trimming by a padding predicate ────────────────────────────────────

/// `s` without its leading elements that satisfy `pad`.
pub open spec fn trim_start_by<T>(s: Seq<T>, pad: spec_fn(T) -> bool) -> Seq<T>
    decreases s.len(),
{
    if s.len() > 0 && pad(s[0]) {
        trim_start_by(s.drop_first(), pad)
    } else {
        s
    }
}

/// `s` without its trailing elements that satisfy `pad`.
pub open spec fn trim_end_by<T>(s: Seq<T>, pad: spec_fn(T) -> bool) -> Seq<T>
    decreases s.len(),
{
    if s.len() > 0 && pad(s.last()) {
        trim_end_by(s.drop_last(), pad)
    } else {
        s
    }
}

/// `s` without padding at either end.
pub open spec fn trim_by<T>(s: Seq<T>, pad: spec_fn(T) -> bool) -> Seq<T> {
    trim_end_by(trim_start_by(s, pad), pad)
}

pub proof fn lemma_trim_start_by_at<T>(s: Seq<T>, pad: spec_fn(T) -> bool, k: int)
    requires
        0 <= k <= s.len(),
        forall|i: int| 0 <= i < k ==> pad(#[trigger] s[i]),
        k == s.len() || !pad(s[k]),
    ensures
        trim_start_by(s, pad) == s.skip(k),
    decreases k,
{
    if k == 0 {
        assert(s.skip(0) =~= s);
    } else {
        assert forall|i: int| 0 <= i < k - 1 implies pad(#[trigger] s.drop_first()[i]) by {
            assert(s.drop_first()[i] == s[i + 1]);
        }
        if k < s.len() {
            assert(s.drop_first()[k - 1] == s[k]);
        }
        lemma_trim_start_by_at(s.drop_first(), pad, k - 1);
        assert(s.drop_first().skip(k - 1) =~= s.skip(k));
    }
}

pub proof fn lemma_trim_end_by_at<T>(s: Seq<T>, pad: spec_fn(T) -> bool, k: int)
    requires
        0 <= k <= s.len(),
        forall|i: int| k <= i < s.len() ==> pad(#[trigger] s[i]),
        k == 0 || !pad(s[k - 1]),
    ensures
        trim_end_by(s, pad) == s.take(k),
    decreases s.len() - k,
{
    if k == s.len() {
        assert(s.take(k) =~= s);
    } else {
        assert forall|i: int| k <= i < s.drop_last().len() implies pad(
            #[trigger] s.drop_last()[i],
        ) by {
            assert(s.drop_last()[i] == s[i]);
        }
        if k > 0 {
            assert(s.drop_last()[k - 1] == s[k - 1]);
        }
        lemma_trim_end_by_at(s.drop_last(), pad, k);
        assert(s.drop_last().take(k) =~= s.take(k));
    }
}

/// Trimming the end leaves nothing or a last element that is not padding.
pub proof fn lemma_trim_end_last<T>(s: Seq<T>, pad: spec_fn(T) -> bool)
    ensures
        trim_end_by(s, pad).len() == 0 || !pad(trim_end_by(s, pad).last()),
    decreases s.len(),
{
    if s.len() > 0 && pad(s.last()) {
        lemma_trim_end_last(s.drop_last(), pad);
    }
}

/// Bytes trimmed from the ends of a porcelain block: NUL, LF, CR, space, tab.
pub open spec fn is_block_pad(b: u8) -> bool {
    b == 0u8 || b == 10u8 || b == 13u8 || b == 32u8 || b == 9u8
}

/// Bytes trimmed from the ends of a porcelain field: space, tab, CR.
pub open spec fn is_field_pad(b: u8) -> bool {
    b == 32u8 || b == 9u8 || b == 13u8
}

pub open spec fn block_pad() -> spec_fn(u8) -> bool {
    |b: u8| is_block_pad(b)
}

pub open spec fn field_pad() -> spec_fn(u8) -> bool {
    |b: u8| is_field_pad(b)
}

/// Trims a porcelain block (`trim_by(b, block_pad())`).
pub fn trim_block(b: &[u8]) -> (r: Vec<u8>)
    ensures
        r@ == trim_by(b@, block_pad()),
{
    let n = b.len();
    let mut start: usize = 0;
    while start < n && (b[start] == 0 || b[start] == 10 || b[start] == 13 || b[start] == 32
        || b[start] == 9)
        invariant
            start <= n == b@.len(),
            forall|i: int| 0 <= i < start ==> is_block_pad(#[trigger] b@[i]),
        decreases n - start,
    {
        start = start + 1;
    }
    let mut end: usize = n;
    while end > start && (b[end - 1] == 0 || b[end - 1] == 10 || b[end - 1] == 13 || b[end - 1]
        == 32 || b[end - 1] == 9)
        invariant
            start <= end <= n == b@.len(),
            forall|i: int| end <= i < n ==> is_block_pad(#[trigger] b@[i]),
        decreases end,
    {
        end = end - 1;
    }
    proof {
        let pad = block_pad();
        assert forall|i: int| 0 <= i < start implies pad(#[trigger] b@[i]) by {}
        lemma_trim_start_by_at(b@, pad, start as int);
        let t = b@.skip(start as int);
        assert forall|i: int| end - start <= i < t.len() implies pad(#[trigger] t[i]) by {
            assert(t[i] == b@[i + start]);
        }
        if end > start {
            assert(t[end - start - 1] == b@[end - 1]);
        }
        lemma_trim_end_by_at(t, pad, end - start);
        assert(t.take(end - start) =~= b@.subrange(start as int, end as int));
    }
    vstd::slice::slice_to_vec(vstd::slice::slice_subrange(b, start, end))
}

/// Trims a porcelain field (`trim_by(b, field_pad())`).
pub fn trim_field(b: &[u8]) -> (r: Vec<u8>)
    ensures
        r@ == trim_by(b@, field_pad()),
{
    let n = b.len();
    let mut start: usize = 0;
    while start < n && (b[start] == 32 || b[start] == 9 || b[start] == 13)
        invariant
            start <= n == b@.len(),
            forall|i: int| 0 <= i < start ==> is_field_pad(#[trigger] b@[i]),
        decreases n - start,
    {
        start = start + 1;
    }
    let mut end: usize = n;
    while end > start && (b[end - 1] == 32 || b[end - 1] == 9 || b[end - 1] == 13)
        invariant
            start <= end <= n == b@.len(),
            forall|i: int| end <= i < n ==> is_field_pad(#[trigger] b@[i]),
        decreases end,
    {
        end = end - 1;
    }
    proof {
        let pad = field_pad();
        assert forall|i: int| 0 <= i < start implies pad(#[trigger] b@[i]) by {}
        lemma_trim_start_by_at(b@, pad, start as int);
        let t = b@.skip(start as int);
        assert forall|i: int| end - start <= i < t.len() implies pad(#[trigger] t[i]) by {
            assert(t[i] == b@[i + start]);
        }
        if end > start {
            assert(t[end - start - 1] == b@[end - 1]);
        }
        lemma_trim_end_by_at(t, pad, end - start);
        assert(t.take(end - start) =~= b@.subrange(start as int, end as int));
    }
    vstd::slice::slice_to_vec(vstd::slice::slice_subrange(b, start, end))
}

} // verus!
