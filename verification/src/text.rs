//! Character-sequence helpers shared by the parsers: whitespace trimming,
//! whitespace-separated words, line splitting, prefix and substring tests,
//! and decimal rendering of integers.
use vstd::prelude::*;

verus! {

// ── Specifications ──────────────────────────────────────────────────────

/// Unicode `White_Space`, the set that `char::is_whitespace` accepts.
pub open spec fn is_ws(c: char) -> bool {
    let u = c as u32;
    ||| 0x09 <= u <= 0x0D
    ||| u == 0x20
    ||| u == 0x85
    ||| u == 0xA0
    ||| u == 0x1680
    ||| 0x2000 <= u <= 0x200A
    ||| u == 0x2028
    ||| u == 0x2029
    ||| u == 0x202F
    ||| u == 0x205F
    ||| u == 0x3000
}

/// `s` with its leading whitespace removed.
pub open spec fn trim_start(s: Seq<char>) -> Seq<char>
    decreases s.len(),
{
    if s.len() > 0 && is_ws(s[0]) {
        trim_start(s.drop_first())
    } else {
        s
    }
}

/// `s` with its trailing whitespace removed.
pub open spec fn trim_end(s: Seq<char>) -> Seq<char>
    decreases s.len(),
{
    if s.len() > 0 && is_ws(s.last()) {
        trim_end(s.drop_last())
    } else {
        s
    }
}

/// `str::trim`: both ends stripped of whitespace.
pub open spec fn trim(s: Seq<char>) -> Seq<char> {
    trim_end(trim_start(s))
}

/// Length of the leading run of non-whitespace characters.
pub open spec fn word_len(s: Seq<char>) -> nat
    decreases s.len(),
{
    if s.len() > 0 && !is_ws(s[0]) {
        1 + word_len(s.drop_first())
    } else {
        0
    }
}

/// `str::split_whitespace`: the maximal non-empty runs of non-whitespace.
pub open spec fn words(s: Seq<char>) -> Seq<Seq<char>>
    decreases s.len(),
{
    let t = trim_start(s);
    if t.len() == 0 {
        Seq::empty()
    } else {
        proof {
            lemma_trim_start_is_suffix(s);
            lemma_word_len_bounds(t);
        }
        seq![t.take(word_len(t) as int)] + words(t.skip(word_len(t) as int))
    }
}

/// Whether `prefix` is an initial segment of `s`.
pub open spec fn has_prefix<T>(s: Seq<T>, prefix: Seq<T>) -> bool {
    prefix.len() <= s.len() && s.take(prefix.len() as int) == prefix
}

/// Whether `pat` occurs in `s` starting at index `i`.
pub open spec fn occurs_at<T>(s: Seq<T>, pat: Seq<T>, i: int) -> bool {
    0 <= i && i + pat.len() <= s.len() && s.subrange(i, i + pat.len()) == pat
}

/// Whether `pat` occurs anywhere in `s` (`str::contains`).
pub open spec fn contains_seq<T>(s: Seq<T>, pat: Seq<T>) -> bool {
    exists|i: int| occurs_at(s, pat, i)
}

/// A line without its terminator: a trailing `\n` is dropped, and then a
/// `\r` just before it.
pub open spec fn strip_line_end(piece: Seq<char>) -> Seq<char> {
    if piece.len() > 0 && piece.last() == '\n' {
        let body = piece.drop_last();
        if body.len() > 0 && body.last() == '\r' {
            body.drop_last()
        } else {
            body
        }
    } else {
        piece
    }
}

/// Index just after the first `\n` of `s`, or `s.len()` when there is none.
pub open spec fn first_line_end(s: Seq<char>) -> nat
    decreases s.len(),
{
    if s.len() == 0 {
        0
    } else if s[0] == '\n' {
        1
    } else {
        1 + first_line_end(s.drop_first())
    }
}

/// `str::lines`: the string cut after each `\n`, each piece stripped of its
/// line ending; a final line ending yields no empty last line.
pub open spec fn lines(s: Seq<char>) -> Seq<Seq<char>>
    decreases s.len(),
{
    if s.len() == 0 {
        Seq::empty()
    } else {
        let k = first_line_end(s);
        proof {
            lemma_first_line_end_bounds(s);
        }
        seq![strip_line_end(s.take(k as int))] + lines(s.skip(k as int))
    }
}

/// The ASCII digit of a value below ten.
pub open spec fn digit_char(d: nat) -> char {
    if d == 0 { '0' }
    else if d == 1 { '1' }
    else if d == 2 { '2' }
    else if d == 3 { '3' }
    else if d == 4 { '4' }
    else if d == 5 { '5' }
    else if d == 6 { '6' }
    else if d == 7 { '7' }
    else if d == 8 { '8' }
    else { '9' }
}

/// The decimal rendering of a natural number, as `Display` prints it.
pub open spec fn decimal(n: nat) -> Seq<char>
    decreases n,
{
    if n < 10 {
        seq![digit_char(n)]
    } else {
        decimal(n / 10).push(digit_char(n % 10))
    }
}

/// The decimal rendering of an integer, with a leading `-` when negative.
pub open spec fn decimal_int(n: int) -> Seq<char> {
    if n < 0 {
        seq!['-'] + decimal((-n) as nat)
    } else {
        decimal(n as nat)
    }
}

// ── Lemmas ──────────────────────────────────────────────────────────────

pub proof fn lemma_trim_start_is_suffix(s: Seq<char>)
    ensures
        trim_start(s).len() <= s.len(),
        trim_start(s) == s.skip(s.len() - trim_start(s).len()),
        trim_start(s).len() > 0 ==> !is_ws(trim_start(s)[0]),
        forall|i: int| 0 <= i < s.len() - trim_start(s).len() ==> is_ws(#[trigger] s[i]),
    decreases s.len(),
{
    if s.len() > 0 && is_ws(s[0]) {
        lemma_trim_start_is_suffix(s.drop_first());
        let t = trim_start(s.drop_first());
        assert(s.drop_first().skip(s.drop_first().len() - t.len()) =~= s.skip(s.len() - t.len()));
        assert forall|i: int| 0 <= i < s.len() - t.len() implies is_ws(#[trigger] s[i]) by {
            if i > 0 {
                assert(s[i] == s.drop_first()[i - 1]);
            }
        }
    } else {
        assert(s.skip(0) =~= s);
    }
}

pub proof fn lemma_trim_end_is_prefix(s: Seq<char>)
    ensures
        trim_end(s).len() <= s.len(),
        trim_end(s) == s.take(trim_end(s).len() as int),
        trim_end(s).len() > 0 ==> !is_ws(trim_end(s).last()),
        forall|i: int| trim_end(s).len() <= i < s.len() ==> is_ws(#[trigger] s[i]),
    decreases s.len(),
{
    if s.len() > 0 && is_ws(s.last()) {
        lemma_trim_end_is_prefix(s.drop_last());
        let t = trim_end(s.drop_last());
        assert(s.drop_last().take(t.len() as int) =~= s.take(t.len() as int));
        assert forall|i: int| t.len() <= i < s.len() implies is_ws(#[trigger] s[i]) by {
            if i < s.len() - 1 {
                assert(s[i] == s.drop_last()[i]);
            }
        }
    } else {
        assert(s.take(s.len() as int) =~= s);
    }
}

/// `trim_start` is determined by the index of the first non-whitespace character.
pub proof fn lemma_trim_start_at(s: Seq<char>, k: int)
    requires
        0 <= k <= s.len(),
        forall|i: int| 0 <= i < k ==> is_ws(#[trigger] s[i]),
        k == s.len() || !is_ws(s[k]),
    ensures
        trim_start(s) == s.skip(k),
    decreases k,
{
    if k == 0 {
        assert(s.skip(0) =~= s);
    } else {
        assert forall|i: int| 0 <= i < k - 1 implies is_ws(#[trigger] s.drop_first()[i]) by {
            assert(s.drop_first()[i] == s[i + 1]);
        }
        if k < s.len() {
            assert(s.drop_first()[k - 1] == s[k]);
        }
        lemma_trim_start_at(s.drop_first(), k - 1);
        assert(s.drop_first().skip(k - 1) =~= s.skip(k));
    }
}

/// `trim_end` is determined by the index just past the last non-whitespace character.
pub proof fn lemma_trim_end_at(s: Seq<char>, k: int)
    requires
        0 <= k <= s.len(),
        forall|i: int| k <= i < s.len() ==> is_ws(#[trigger] s[i]),
        k == 0 || !is_ws(s[k - 1]),
    ensures
        trim_end(s) == s.take(k),
    decreases s.len() - k,
{
    if k == s.len() {
        assert(s.take(k) =~= s);
    } else {
        assert forall|i: int| k <= i < s.drop_last().len() implies is_ws(#[trigger] s.drop_last()[i]) by {
            assert(s.drop_last()[i] == s[i]);
        }
        if k > 0 {
            assert(s.drop_last()[k - 1] == s[k - 1]);
        }
        lemma_trim_end_at(s.drop_last(), k);
        assert(s.drop_last().take(k) =~= s.take(k));
    }
}

pub proof fn lemma_word_len_bounds(s: Seq<char>)
    ensures
        word_len(s) <= s.len(),
        s.len() > 0 && !is_ws(s[0]) ==> word_len(s) > 0,
        forall|i: int| 0 <= i < word_len(s) ==> !is_ws(#[trigger] s[i]),
        word_len(s) < s.len() ==> is_ws(s[word_len(s) as int]),
    decreases s.len(),
{
    if s.len() > 0 && !is_ws(s[0]) {
        lemma_word_len_bounds(s.drop_first());
        assert forall|i: int| 0 <= i < word_len(s) implies !is_ws(#[trigger] s[i]) by {
            if i > 0 {
                assert(s[i] == s.drop_first()[i - 1]);
            }
        }
        if word_len(s) < s.len() {
            assert(s[word_len(s) as int] == s.drop_first()[word_len(s) - 1]);
        }
    }
}

/// `word_len` is determined by the index of the first whitespace character.
pub proof fn lemma_word_len_at(s: Seq<char>, k: int)
    requires
        0 <= k <= s.len(),
        forall|i: int| 0 <= i < k ==> !is_ws(#[trigger] s[i]),
        k == s.len() || is_ws(s[k]),
    ensures
        word_len(s) == k,
    decreases k,
{
    if k > 0 {
        assert forall|i: int| 0 <= i < k - 1 implies !is_ws(#[trigger] s.drop_first()[i]) by {
            assert(s.drop_first()[i] == s[i + 1]);
        }
        if k < s.len() {
            assert(s.drop_first()[k - 1] == s[k]);
        }
        lemma_word_len_at(s.drop_first(), k - 1);
    }
}

pub proof fn lemma_first_line_end_bounds(s: Seq<char>)
    ensures
        s.len() > 0 ==> 0 < first_line_end(s) <= s.len(),
        s.len() == 0 ==> first_line_end(s) == 0,
        forall|i: int| 0 <= i < first_line_end(s) - 1 ==> #[trigger] s[i] != '\n',
        first_line_end(s) > 0 ==> (s[first_line_end(s) - 1] == '\n' || first_line_end(s) == s.len()),
    decreases s.len(),
{
    if s.len() > 0 && s[0] != '\n' {
        lemma_first_line_end_bounds(s.drop_first());
        assert forall|i: int| 0 <= i < first_line_end(s) - 1 implies #[trigger] s[i] != '\n' by {
            if i > 0 {
                assert(s[i] == s.drop_first()[i - 1]);
            }
        }
        if first_line_end(s.drop_first()) > 0 {
            assert(s[first_line_end(s) - 1] == s.drop_first()[first_line_end(s.drop_first()) - 1]);
        }
    }
}

/// `first_line_end` is determined by the position of the first `\n`.
pub proof fn lemma_first_line_end_at(s: Seq<char>, k: int)
    requires
        0 < k <= s.len(),
        forall|i: int| 0 <= i < k - 1 ==> #[trigger] s[i] != '\n',
        s[k - 1] == '\n' || k == s.len(),
    ensures
        first_line_end(s) == k,
    decreases k,
{
    if k > 1 {
        assert(s[0] != '\n');
        assert forall|i: int| 0 <= i < k - 2 implies #[trigger] s.drop_first()[i] != '\n' by {
            assert(s.drop_first()[i] == s[i + 1]);
        }
        assert(s.drop_first()[k - 2] == s[k - 1]);
        lemma_first_line_end_at(s.drop_first(), k - 1);
    } else {
        if s[0] != '\n' {
            assert(s.len() == 1);
            assert(s.drop_first().len() == 0);
            assert(first_line_end(s.drop_first()) == 0);
            assert(first_line_end(s) == 1 + first_line_end(s.drop_first()));
        }
    }
}

// ── Executable helpers ──────────────────────────────────────────────────

/// The characters of a string slice.
pub fn chars_of(s: &str) -> (v: Vec<char>)
    ensures
        v@ == s@,
{
    let mut v: Vec<char> = Vec::new();
    for c in it: s.chars()
        invariant
            v@ == it.seq().take(it.index() as int),
    {
        v.push(c);
    }
    v
}

/// A `String` holding exactly the given characters (std's `String::from_iter`).
#[verifier::external_body]
pub(crate) fn string_from_chars(v: &[char]) -> (s: String)
    ensures
        s@ == v@,
{
    String::from_iter(v.iter())
}

/// Classifies a character as `char::is_whitespace` does.
pub fn is_whitespace(c: char) -> (r: bool)
    ensures
        r == is_ws(c),
{
    let u = c as u32;
    (0x09 <= u && u <= 0x0D) || u == 0x20 || u == 0x85 || u == 0xA0 || u == 0x1680 || (0x2000
        <= u && u <= 0x200A) || u == 0x2028 || u == 0x2029 || u == 0x202F || u == 0x205F || u
        == 0x3000
}

/// Characters `from..to` of `v` as a new vector.
pub fn sub_chars(v: &[char], from: usize, to: usize) -> (r: Vec<char>)
    requires
        from <= to <= v@.len(),
    ensures
        r@ == v@.subrange(from as int, to as int),
{
    let mut r: Vec<char> = Vec::new();
    let mut i = from;
    while i < to
        invariant
            from <= i <= to <= v@.len(),
            r@ == v@.subrange(from as int, i as int),
        decreases to - i,
    {
        r.push(v[i]);
        i = i + 1;
        assert(r@ =~= v@.subrange(from as int, i as int));
    }
    r
}

/// The bounds `(start, end)` of `trim(v)` inside `v`.
pub fn trim_bounds(v: &[char]) -> (r: (usize, usize))
    ensures
        r.0 <= r.1 <= v@.len(),
        trim(v@) == v@.subrange(r.0 as int, r.1 as int),
        trim_start(v@) == v@.skip(r.0 as int),
{
    let n = v.len();
    let mut start: usize = 0;
    while start < n && is_whitespace(v[start])
        invariant
            start <= n == v@.len(),
            forall|i: int| 0 <= i < start ==> is_ws(#[trigger] v@[i]),
        decreases n - start,
    {
        start = start + 1;
    }
    proof {
        lemma_trim_start_at(v@, start as int);
    }
    let mut end: usize = n;
    while end > start && is_whitespace(v[end - 1])
        invariant
            start <= end <= n == v@.len(),
            forall|i: int| end <= i < n ==> is_ws(#[trigger] v@[i]),
        decreases end,
    {
        end = end - 1;
    }
    proof {
        let t = v@.skip(start as int);
        assert forall|i: int| end - start <= i < t.len() implies is_ws(#[trigger] t[i]) by {
            assert(t[i] == v@[i + start]);
        }
        if end > start {
            assert(t[end - start - 1] == v@[end - 1]);
        }
        lemma_trim_end_at(t, end - start);
        assert(t.take(end - start) =~= v@.subrange(start as int, end as int));
    }
    (start, end)
}

/// `str::trim` on a character vector.
pub fn trim_chars(v: &[char]) -> (r: Vec<char>)
    ensures
        r@ == trim(v@),
{
    let (s, e) = trim_bounds(v);
    sub_chars(v, s, e)
}

/// Whether `prefix` is an initial segment of `v`.
pub fn starts_with_chars(v: &[char], prefix: &[char]) -> (r: bool)
    ensures
        r == has_prefix(v@, prefix@),
{
    if prefix.len() > v.len() {
        return false;
    }
    let mut i: usize = 0;
    while i < prefix.len()
        invariant
            i <= prefix@.len() <= v@.len(),
            forall|j: int| 0 <= j < i ==> v@[j] == prefix@[j],
        decreases prefix@.len() - i,
    {
        if v[i] != prefix[i] {
            assert(v@.take(prefix@.len() as int)[i as int] != prefix@[i as int]);
            return false;
        }
        i = i + 1;
    }
    assert(v@.take(prefix@.len() as int) =~= prefix@);
    true
}

/// Whether `pat` occurs in `v` at index `at`.
pub fn matches_at_chars(v: &[char], pat: &[char], at: usize) -> (r: bool)
    ensures
        r == occurs_at(v@, pat@, at as int),
{
    if at > v.len() || pat.len() > v.len() - at {
        return false;
    }
    let mut i: usize = 0;
    while i < pat.len()
        invariant
            at + pat@.len() <= v@.len() == v.len(),
            i <= pat@.len(),
            forall|j: int| 0 <= j < i ==> v@[at + j] == pat@[j],
        decreases pat@.len() - i,
    {
        assert(at + i < v.len());
        if v[at + i] != pat[i] {
            assert(v@.subrange(at as int, at + pat@.len())[i as int] != pat@[i as int]);
            return false;
        }
        i = i + 1;
    }
    assert(v@.subrange(at as int, at + pat@.len()) =~= pat@);
    true
}

/// Whether the bytes `pat` occur in `v` at index `at`.
pub fn matches_at_bytes(v: &[u8], pat: &[u8], at: usize) -> (r: bool)
    ensures
        r == occurs_at(v@, pat@, at as int),
{
    if at > v.len() || pat.len() > v.len() - at {
        return false;
    }
    let mut i: usize = 0;
    while i < pat.len()
        invariant
            at + pat@.len() <= v@.len() == v.len(),
            i <= pat@.len(),
            forall|j: int| 0 <= j < i ==> v@[at + j] == pat@[j],
        decreases pat@.len() - i,
    {
        assert(at + i < v.len());
        if v[at + i] != pat[i] {
            assert(v@.subrange(at as int, at + pat@.len())[i as int] != pat@[i as int]);
            return false;
        }
        i = i + 1;
    }
    assert(v@.subrange(at as int, at + pat@.len()) =~= pat@);
    true
}

/// Whether `pat` occurs anywhere in `v`.
pub fn contains_chars(v: &[char], pat: &[char]) -> (r: bool)
    ensures
        r == contains_seq(v@, pat@),
{
    if pat.len() > v.len() {
        return false;
    }
    if pat.len() == 0 {
        assert(v@.subrange(0, 0) =~= pat@);
        assert(occurs_at(v@, pat@, 0));
        return true;
    }
    let mut i: usize = 0;
    while i <= v.len() - pat.len()
        invariant
            1 <= pat@.len() <= v@.len() == v.len(),
            i <= v@.len() - pat@.len() + 1,
            forall|j: int| 0 <= j < i ==> !occurs_at(v@, pat@, j),
        decreases v@.len() - pat@.len() + 1 - i,
    {
        if matches_at_chars(v, pat, i) {
            return true;
        }
        i = i + 1;
    }
    proof {
        assert forall|j: int| !occurs_at(v@, pat@, j) by {
            if 0 <= j < i {
            }
        }
    }
    false
}

/// `str::split_whitespace` on a character vector.
pub fn words_of(v: &[char]) -> (r: Vec<Vec<char>>)
    ensures
        r@.len() == words(v@).len(),
        forall|i: int| 0 <= i < r@.len() ==> (#[trigger] r@[i])@ == words(v@)[i],
{
    let mut r: Vec<Vec<char>> = Vec::new();
    let mut pos: usize = 0;
    assert(v@.skip(0) =~= v@);
    assert(r@.map_values(|w: Vec<char>| w@) =~= Seq::<Seq<char>>::empty());
    while pos < v.len()
        invariant
            pos <= v@.len(),
            words(v@) =~= r@.map_values(|w: Vec<char>| w@) + words(v@.skip(pos as int)),
        decreases v@.len() - pos,
    {
        let ghost rest = v@.skip(pos as int);
        let mut s = pos;
        while s < v.len() && is_whitespace(v[s])
            invariant
                pos <= s <= v@.len(),
                forall|i: int| pos <= i < s ==> is_ws(#[trigger] v@[i]),
            decreases v@.len() - s,
        {
            s = s + 1;
        }
        proof {
            assert forall|i: int| 0 <= i < s - pos implies is_ws(#[trigger] rest[i]) by {
                assert(rest[i] == v@[i + pos]);
            }
            if s < v@.len() {
                assert(rest[s - pos] == v@[s as int]);
            }
            lemma_trim_start_at(rest, s - pos);
            assert(rest.skip(s - pos) =~= v@.skip(s as int));
        }
        if s == v.len() {
            proof {
                assert(words(rest) =~= Seq::<Seq<char>>::empty());
                assert(v@.skip(s as int).len() == 0);
            }
            pos = s;
            proof {
                assert(words(v@.skip(pos as int)) =~= Seq::<Seq<char>>::empty());
            }
        } else {
            let mut e = s;
            while e < v.len() && !is_whitespace(v[e])
                invariant
                    s <= e <= v@.len(),
                    forall|i: int| s <= i < e ==> !is_ws(#[trigger] v@[i]),
                decreases v@.len() - e,
            {
                e = e + 1;
            }
            let w = sub_chars(v, s, e);
            proof {
                let t = v@.skip(s as int);
                assert forall|i: int| 0 <= i < e - s implies !is_ws(#[trigger] t[i]) by {
                    assert(t[i] == v@[i + s]);
                }
                if e < v@.len() {
                    assert(t[e - s] == v@[e as int]);
                }
                lemma_word_len_at(t, e - s);
                assert(t.take(e - s) =~= w@);
                assert(t.skip(e - s) =~= v@.skip(e as int));
                assert(words(rest) =~= seq![w@] + words(v@.skip(e as int)));
            }
            r.push(w);
            pos = e;
            proof {
                assert(r@.map_values(|w: Vec<char>| w@) =~= old_map_push(r@));
            }
        }
    }
    proof {
        assert(v@.skip(pos as int).len() == 0);
        assert(words(v@.skip(pos as int)) =~= Seq::<Seq<char>>::empty());
        assert forall|i: int| 0 <= i < r@.len() implies (#[trigger] r@[i])@ == words(v@)[i] by {
            assert(r@.map_values(|w: Vec<char>| w@)[i] == r@[i]@);
        }
    }
    r
}

spec fn old_map_push(r: Seq<Vec<char>>) -> Seq<Seq<char>> {
    r.map_values(|w: Vec<char>| w@)
}

/// `str::lines` on a character vector.
pub fn lines_of(v: &[char]) -> (r: Vec<Vec<char>>)
    ensures
        r@.len() == lines(v@).len(),
        forall|i: int| 0 <= i < r@.len() ==> (#[trigger] r@[i])@ == lines(v@)[i],
{
    let mut r: Vec<Vec<char>> = Vec::new();
    let mut pos: usize = 0;
    assert(v@.skip(0) =~= v@);
    assert(r@.map_values(|w: Vec<char>| w@) =~= Seq::<Seq<char>>::empty());
    while pos < v.len()
        invariant
            pos <= v@.len(),
            lines(v@) =~= r@.map_values(|w: Vec<char>| w@) + lines(v@.skip(pos as int)),
        decreases v@.len() - pos,
    {
        let ghost rest = v@.skip(pos as int);
        let mut e = pos;
        while e < v.len() && v[e] != '\n'
            invariant
                pos <= e <= v@.len(),
                forall|i: int| pos <= i < e ==> #[trigger] v@[i] != '\n',
            decreases v@.len() - e,
        {
            e = e + 1;
        }
        // `k` is the index just past the line terminator (or the end).
        let k = if e < v.len() { e + 1 } else { e };
        // The line body without terminator characters.
        let mut body_end = e;
        if e < v.len() && body_end > pos && v[body_end - 1] == '\r' {
            body_end = body_end - 1;
        }
        let line = sub_chars(v, pos, body_end);
        proof {
            assert forall|i: int| 0 <= i < (k - pos) - 1 implies #[trigger] rest[i] != '\n' by {
                assert(rest[i] == v@[i + pos]);
            }
            if e < v@.len() {
                assert(rest[(k - pos) - 1] == v@[e as int]);
            }
            lemma_first_line_end_at(rest, k - pos);
            let piece = rest.take(k - pos);
            assert(piece =~= v@.subrange(pos as int, k as int));
            if e < v@.len() {
                assert(piece.drop_last() =~= v@.subrange(pos as int, e as int));
                if e > pos && v@[e - 1] == '\r' {
                    assert(piece.drop_last().drop_last() =~= v@.subrange(pos as int, e - 1));
                }
            }
            assert(strip_line_end(piece) =~= line@);
            assert(rest.skip(k - pos) =~= v@.skip(k as int));
            assert(lines(rest) =~= seq![line@] + lines(v@.skip(k as int)));
        }
        r.push(line);
        pos = k;
        proof {
            assert(r@.map_values(|w: Vec<char>| w@) =~= old_map_push(r@));
        }
    }
    proof {
        assert(v@.skip(pos as int).len() == 0);
        assert(lines(v@.skip(pos as int)) =~= Seq::<Seq<char>>::empty());
        assert forall|i: int| 0 <= i < r@.len() implies (#[trigger] r@[i])@ == lines(v@)[i] by {
            assert(r@.map_values(|w: Vec<char>| w@)[i] == r@[i]@);
        }
    }
    r
}

/// Whether two character sequences are equal.
pub fn chars_eq(a: &[char], b: &[char]) -> (r: bool)
    ensures
        r == (a@ == b@),
{
    if a.len() != b.len() {
        return false;
    }
    let r = starts_with_chars(a, b);
    proof {
        assert(a@.take(b@.len() as int) =~= a@);
    }
    r
}

/// Whether a string slice equals a literal.
pub fn str_is(s: &str, lit: &str) -> (r: bool)
    ensures
        r == (s@ == lit@),
{
    let a = chars_of(s);
    let b = chars_of(lit);
    chars_eq(&a, &b)
}

/// Appends the decimal rendering of `n` to `out`.
pub fn push_decimal(out: &mut Vec<char>, n: u64)
    ensures
        final(out)@ == old(out)@ + decimal(n as nat),
    decreases n,
{
    if n >= 10 {
        push_decimal(out, n / 10);
    }
    let d = n % 10;
    let c = if d == 0 { '0' }
        else if d == 1 { '1' }
        else if d == 2 { '2' }
        else if d == 3 { '3' }
        else if d == 4 { '4' }
        else if d == 5 { '5' }
        else if d == 6 { '6' }
        else if d == 7 { '7' }
        else if d == 8 { '8' }
        else { '9' };
    out.push(c);
    proof {
        if n < 10 {
            assert(old(out)@ + decimal(n as nat) =~= old(out)@.push(digit_char(n as nat)));
        } else {
            assert(old(out)@ + decimal(n as nat) =~= (old(out)@ + decimal((n / 10) as nat)).push(
                digit_char((n % 10) as nat),
            ));
        }
    }
}

/// Appends the decimal rendering of a signed `n` to `out`.
pub fn push_decimal_i64(out: &mut Vec<char>, n: i64)
    ensures
        final(out)@ == old(out)@ + decimal_int(n as int),
{
    if n < 0 {
        out.push('-');
        let m: u64 = if n == i64::MIN { 9223372036854775808u64 } else { (-n) as u64 };
        push_decimal(out, m);
        proof {
            assert(old(out)@ + decimal_int(n as int) =~= old(out)@.push('-') + decimal(m as nat));
        }
    } else {
        push_decimal(out, n as u64);
    }
}

/// Appends the characters of `s` to `out`.
pub fn push_str(out: &mut Vec<char>, s: &str)
    ensures
        final(out)@ == old(out)@ + s@,
{
    let v = chars_of(s);
    push_chars(out, &v);
}

/// Appends the characters of `v` to `out`.
pub fn push_chars(out: &mut Vec<char>, v: &[char])
    ensures
        final(out)@ == old(out)@ + v@,
{
    let mut i: usize = 0;
    while i < v.len()
        invariant
            i <= v@.len(),
            out@ == old(out)@ + v@.take(i as int),
        decreases v@.len() - i,
    {
        out.push(v[i]);
        i = i + 1;
        assert(out@ =~= old(out)@ + v@.take(i as int));
    }
    assert(v@.take(v@.len() as int) =~= v@);
}

} // verus!
