//! The law of `git --version` parsing: "git version a.b.c", followed by
//! nothing, by whitespace and anything, or by `.` and anything (as in
//! "2.43.0.windows.1" or "2.39.3 (Apple Git-146)"), reads as version a.b.c.
use vstd::prelude::*;

use crate::git::{all_digits, digits_value, git_version_outcome, is_digit, parse_u32, unsigned_body, version_token};
use crate::seqs::{lemma_split_nonempty, split_seq};
use crate::text::{
    decimal, digit_char, has_prefix, is_ws, lemma_trim_end_is_prefix, lemma_trim_start_at, lemma_word_len_bounds, trim,
    trim_end, word_len, words,
};
use crate::types::GitVersion;

verus! {

proof fn lemma_digit_char(d: nat)
    requires
        d < 10,
    ensures
        digit_char(d) as u32 == 48 + d,
{
}

proof fn lemma_decimal_digits(n: nat)
    ensures
        decimal(n).len() > 0,
        all_digits(decimal(n)),
        digits_value(decimal(n)) == n,
    decreases n,
{
    if n < 10 {
        lemma_digit_char(n);
        let s = decimal(n);
        assert(s == seq![digit_char(n)]);
        assert(s.drop_last() =~= Seq::<char>::empty());
        assert(s.last() == digit_char(n));
        assert(digits_value(s) == digits_value(s.drop_last()) * 10 + ((s.last() as u32) - 48) as nat);
        assert(digits_value(Seq::<char>::empty()) == 0);
    } else {
        lemma_decimal_digits(n / 10);
        lemma_digit_char(n % 10);
        let d = decimal(n / 10);
        let s = decimal(n);
        assert(s == d.push(digit_char(n % 10)));
        assert(s.drop_last() =~= d);
        assert(s.last() == digit_char(n % 10));
        assert(digits_value(s) == digits_value(d) * 10 + ((s.last() as u32) - 48) as nat);
        assert((n / 10) * 10 + n % 10 == n);
        assert forall|i: int| 0 <= i < s.len() implies is_digit(#[trigger] s[i]) by {
            if i < d.len() {
                assert(s[i] == d[i]);
            }
        }
    }
}

proof fn lemma_parse_decimal(n: u32)
    ensures
        parse_u32(decimal(n as nat)) == Some(n),
{
    lemma_decimal_digits(n as nat);
    let s = decimal(n as nat);
    assert(is_digit(s[0]));
    assert(unsigned_body(s) == s);
}

/// A digit is neither whitespace nor a dot.
proof fn lemma_digit_plain(c: char)
    requires
        is_digit(c),
    ensures
        !is_ws(c),
        c != '.',
{
}

/// Splitting text that begins with a dot-free piece: the piece is glued to
/// the first part of what follows.
proof fn lemma_split_prefix(p: Seq<char>, q: Seq<char>)
    requires
        forall|i: int| 0 <= i < p.len() ==> #[trigger] p[i] != '.',
    ensures
        split_seq(p + q, seq!['.']) == split_seq(q, seq!['.']).update(0, p + split_seq(q, seq!['.'])[0]),
    decreases p.len(),
{
    lemma_split_nonempty(q, seq!['.']);
    let r = split_seq(q, seq!['.']);
    if p.len() == 0 {
        assert(p + q =~= q);
        assert(r.update(0, p + r[0]) =~= r);
    } else {
        let h = p + q;
        let t = p.drop_first();
        assert forall|i: int| 0 <= i < t.len() implies #[trigger] t[i] != '.' by {
            assert(t[i] == p[i + 1]);
        }
        lemma_split_prefix(t, q);
        assert(h.drop_first() =~= t + q);
        assert(h[0] == p[0]);
        assert(h.take(1) != seq!['.']) by {
            assert(h.take(1)[0] == p[0]);
        }
        let r2 = split_seq(t + q, seq!['.']);
        assert(split_seq(h, seq!['.']) == r2.update(0, seq![h[0]] + r2[0]));
        assert(seq![p[0]] + (t + r[0]) =~= p + r[0]);
        assert(r2.update(0, seq![h[0]] + r2[0]) =~= r.update(0, p + r[0]));
    }
}

/// Splitting `p . q` where `p` has no dot: `p`, then the parts of `q`.
proof fn lemma_split_dot(p: Seq<char>, q: Seq<char>)
    requires
        forall|i: int| 0 <= i < p.len() ==> #[trigger] p[i] != '.',
    ensures
        split_seq(p + seq!['.'] + q, seq!['.']) == seq![p] + split_seq(q, seq!['.']),
{
    let dq = seq!['.'] + q;
    lemma_split_prefix(p, dq);
    assert(p + seq!['.'] + q =~= p + dq);
    assert(dq.take(1) =~= seq!['.']);
    assert(dq.skip(1) =~= q);
    assert(split_seq(dq, seq!['.']) == seq![Seq::<char>::empty()] + split_seq(q, seq!['.']));
    assert(p + Seq::<char>::empty() =~= p);
    assert((seq![Seq::<char>::empty()] + split_seq(q, seq!['.'])).update(0, p) =~= seq![p] + split_seq(q, seq!['.']));
}

/// The third part of `c` followed by nothing or by a dot and more is `c`.
proof fn lemma_split_last(c: Seq<char>, s: Seq<char>)
    requires
        forall|i: int| 0 <= i < c.len() ==> #[trigger] c[i] != '.',
        s.len() == 0 || s[0] == '.',
    ensures
        split_seq(c + s, seq!['.'])[0] == c,
{
    if s.len() == 0 {
        lemma_split_prefix(c, s);
        assert(split_seq(s, seq!['.']) == seq![s]);
        assert(c + s =~= c);
    } else {
        lemma_split_dot(c, s.skip(1));
        assert(c + seq!['.'] + s.skip(1) =~= c + s);
    }
}

/// Trimming "git version " + x + s, where x is non-empty and free of
/// whitespace, keeps the prefix and all of x, and at most a prefix of s.
proof fn lemma_trim_part(p: Seq<char>, x: Seq<char>, s: Seq<char>) -> (s2: Seq<char>)
    requires
        p.len() > 0,
        !is_ws(p[0]),
        x.len() > 0,
        forall|i: int| 0 <= i < x.len() ==> !is_ws(#[trigger] x[i]),
    ensures
        has_prefix(trim(p + x + s), p),
        trim(p + x + s).skip(p.len() as int) == x + s2,
        s2.len() <= s.len(),
        s2.len() > 0 ==> s2[0] == s[0],
{
    let o = p + x + s;
    lemma_trim_start_at(o, 0);
    assert(o.skip(0) =~= o);
    lemma_trim_end_is_prefix(o);
    let te = trim_end(o);
    let l = te.len() as int;
    let last = p.len() + x.len() - 1;
    assert(o[last] == x[x.len() - 1]);
    assert(l > last) by {
        if l <= last {
            assert(is_ws(o[last]));
        }
    }
    assert(trim(o) == te);
    assert(te.take(p.len() as int) =~= p);
    let s2 = s.take(l - p.len() - x.len());
    assert(te.skip(p.len() as int) =~= x + s2);
    s2
}

/// The version token of x + s2, where x is non-empty and free of
/// whitespace and s2 starts (if at all) with whitespace or a dot: x,
/// followed by nothing or by a dot and more.
proof fn lemma_token_part(x: Seq<char>, s2: Seq<char>) -> (s3: Seq<char>)
    requires
        x.len() > 0,
        forall|i: int| 0 <= i < x.len() ==> !is_ws(#[trigger] x[i]),
        s2.len() == 0 || s2[0] == '.' || is_ws(s2[0]),
    ensures
        version_token(x + s2) == x + s3,
        s3.len() == 0 || s3[0] == '.',
{
    let v = x + s2;
    lemma_trim_start_at(v, 0);
    assert(v.skip(0) =~= v);
    lemma_word_len_bounds(v);
    let k = word_len(v) as int;
    assert(k >= x.len()) by {
        if k < x.len() {
            assert(v[k] == x[k]);
        }
    }
    assert(words(v)[0] == v.take(k));
    let s3 = s2.take(k - x.len());
    assert(v.take(k) =~= x + s3);
    if s3.len() > 0 {
        assert(v[x.len() as int] == s2[0]);
    }
    s3
}

/// `git --version` output "git version a.b.c" followed by nothing, by
/// whitespace and anything, or by a dot and anything reads as a.b.c.
pub proof fn lemma_version_text_parses(a: u32, b: u32, c: u32, s: Seq<char>)
    requires
        s.len() == 0 || s[0] == '.' || is_ws(s[0]),
    ensures
        git_version_outcome("git version "@ + decimal(a as nat) + seq!['.'] + decimal(b as nat) + seq!['.'] + decimal(
            c as nat,
        ) + s) == Ok::<GitVersion, Seq<char>>(GitVersion { major: a, minor: b, patch: c }),
{
    let p = "git version "@;
    assert(p.len() == 12 && p[0] == 'g') by {
        reveal_strlit("git version ");
    }
    let da = decimal(a as nat);
    let db = decimal(b as nat);
    let dc = decimal(c as nat);
    lemma_decimal_digits(a as nat);
    lemma_decimal_digits(b as nat);
    lemma_decimal_digits(c as nat);
    lemma_parse_decimal(a);
    lemma_parse_decimal(b);
    lemma_parse_decimal(c);
    let x = da + seq!['.'] + db + seq!['.'] + dc;
    let o = p + da + seq!['.'] + db + seq!['.'] + dc + s;
    assert(o =~= p + x + s);
    assert forall|i: int| 0 <= i < da.len() implies #[trigger] da[i] != '.' && !is_ws(da[i]) by {
        assert(is_digit(da[i]));
    }
    assert forall|i: int| 0 <= i < db.len() implies #[trigger] db[i] != '.' && !is_ws(db[i]) by {
        assert(is_digit(db[i]));
    }
    assert forall|i: int| 0 <= i < dc.len() implies #[trigger] dc[i] != '.' && !is_ws(dc[i]) by {
        assert(is_digit(dc[i]));
    }
    assert forall|i: int| 0 <= i < x.len() implies !is_ws(#[trigger] x[i]) by {
        if i < da.len() {
            assert(x[i] == da[i]);
        } else if i == da.len() {
        } else if i < da.len() + 1 + db.len() {
            assert(x[i] == db[i - da.len() - 1]);
        } else if i == da.len() + 1 + db.len() {
        } else {
            assert(x[i] == dc[i - da.len() - 2 - db.len()]);
        }
    }
    let s2 = lemma_trim_part(p, x, s);
    let s3 = lemma_token_part(x, s2);
    let rest_b = db + seq!['.'] + dc + s3;
    assert(x + s3 =~= da + seq!['.'] + rest_b);
    lemma_split_dot(da, rest_b);
    assert(rest_b =~= db + seq!['.'] + (dc + s3));
    lemma_split_dot(db, dc + s3);
    lemma_split_last(dc, s3);
    lemma_split_nonempty(dc + s3, seq!['.']);
    let parts = split_seq(x + s3, seq!['.']);
    assert(parts == seq![da] + (seq![db] + split_seq(dc + s3, seq!['.'])));
    assert(parts[0] == da);
    assert(parts[1] == db);
    assert(parts[2] == dc);
    assert(trim(o).skip(p.len() as int) == x + s2);
}

} // verus!
