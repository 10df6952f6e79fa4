use vstd::prelude::*;

verus! {

// ---------------------------------------------------------------------------
// Byte classes
// ---------------------------------------------------------------------------
/// ASCII whitespace as the wire format may carry it around tokens.
pub open spec fn is_ws(b: u8) -> bool {
    b == 32 || b == 9 || b == 10 || b == 13
}

/// A byte that can occur in the textual rendering of a double: a digit, a
/// sign, a decimal point, an exponent marker, or a letter of `inf`/`NaN`.
pub open spec fn is_number_byte(b: u8) -> bool {
    (48 <= b && b <= 57) || b == 43 || b == 45 || b == 46 || b == 69 || b == 101 || b == 105
        || b == 110 || b == 102 || b == 97 || b == 78
}

/// A non-empty run of number bytes: the raw form in which the library
/// carries a scalar between the wire and the embedding's float conversion.
pub open spec fn is_number_token(s: Seq<u8>) -> bool {
    s.len() > 0 && forall|i: int| 0 <= i < s.len() ==> is_number_byte(#[trigger] s[i])
}

fn is_ws_byte(b: u8) -> (r: bool)
    ensures
        r == is_ws(b),
{
    b == 32 || b == 9 || b == 10 || b == 13
}

fn is_number_byte_exec(b: u8) -> (r: bool)
    ensures
        r == is_number_byte(b),
{
    (48 <= b && b <= 57) || b == 43 || b == 45 || b == 46 || b == 69 || b == 101 || b == 105
        || b == 102 || b == 110 || b == 97 || b == 78
}

/// Checks that `s` is a plausible rendering of a number.
pub fn check_number_token(s: &[u8]) -> (r: bool)
    ensures
        r == is_number_token(s@),
{
    if s.len() == 0 {
        return false;
    }
    let mut i: usize = 0;
    while i < s.len()
        invariant
            0 <= i <= s@.len(),
            forall|k: int| 0 <= k < i ==> is_number_byte(#[trigger] s@[k]),
        decreases s@.len() - i,
    {
        if !is_number_byte_exec(s[i]) {
            return false;
        }
        i += 1;
    }
    true
}

// ---------------------------------------------------------------------------
// Trimming
// ---------------------------------------------------------------------------
/// `s` without its leading ASCII whitespace.
pub open spec fn trim_start(s: Seq<u8>) -> Seq<u8>
    decreases s.len(),
{
    if s.len() > 0 && is_ws(s[0]) {
        trim_start(s.skip(1))
    } else {
        s
    }
}

/// `s` without its trailing ASCII whitespace.
pub open spec fn trim_end(s: Seq<u8>) -> Seq<u8>
    decreases s.len(),
{
    if s.len() > 0 && is_ws(s.last()) {
        trim_end(s.drop_last())
    } else {
        s
    }
}

/// `s` without leading and trailing ASCII whitespace.
pub open spec fn trim(s: Seq<u8>) -> Seq<u8> {
    trim_end(trim_start(s))
}

pub proof fn lemma_trim_start_skip(s: Seq<u8>, j: int)
    requires
        0 <= j <= s.len(),
        forall|k: int| 0 <= k < j ==> is_ws(#[trigger] s[k]),
    ensures
        trim_start(s) == trim_start(s.skip(j)),
    decreases j,
{
    if j > 0 {
        assert(is_ws(s[0]));
        assert(forall|k: int| 0 <= k < j - 1 ==> is_ws(#[trigger] s.skip(1)[k]) && s.skip(1)[k]
            == s[k + 1]);
        lemma_trim_start_skip(s.skip(1), j - 1);
        assert(s.skip(1).skip(j - 1) =~= s.skip(j));
        assert(trim_start(s) == trim_start(s.skip(1)));
    } else {
        assert(s.skip(0) =~= s);
    }
}

proof fn lemma_trim_end_take(s: Seq<u8>, j: int)
    requires
        0 <= j <= s.len(),
        forall|k: int| j <= k < s.len() ==> is_ws(#[trigger] s[k]),
    ensures
        trim_end(s) == trim_end(s.take(j)),
    decreases s.len() - j,
{
    if j < s.len() {
        assert(is_ws(s.last()));
        assert(s.drop_last() =~= s.take(s.len() - 1));
        assert(forall|k: int| j <= k < s.len() - 1 ==> is_ws(#[trigger] s.take(s.len() - 1)[k]));
        lemma_trim_end_take(s.take(s.len() - 1), j);
        assert(s.take(s.len() - 1).take(j) =~= s.take(j));
        assert(trim_end(s) == trim_end(s.drop_last()));
    } else {
        assert(s.take(j) =~= s);
    }
}

/// Trimming is the identity on text whose two ends are not whitespace.
pub proof fn lemma_trim_id(s: Seq<u8>)
    requires
        s.len() > 0 ==> !is_ws(s[0]) && !is_ws(s.last()),
    ensures
        trim(s) == s,
{
    assert(trim_start(s) == s);
    assert(trim_end(s) == s);
}

/// Removes leading and trailing ASCII whitespace.
pub fn trim_bytes(s: &[u8]) -> (out: Vec<u8>)
    ensures
        out@ == trim(s@),
{
    let n = s.len();
    let mut lo: usize = 0;
    while lo < n && is_ws_byte(s[lo])
        invariant
            0 <= lo <= n,
            n == s@.len(),
            forall|k: int| 0 <= k < lo ==> is_ws(#[trigger] s@[k]),
        decreases n - lo,
    {
        lo += 1;
    }
    let mut hi: usize = n;
    while hi > lo && is_ws_byte(s[hi - 1])
        invariant
            lo <= hi <= n,
            n == s@.len(),
            forall|k: int| hi <= k < n ==> is_ws(#[trigger] s@[k]),
        decreases hi,
    {
        hi -= 1;
    }
    let mut out: Vec<u8> = Vec::new();
    let mut i: usize = lo;
    while i < hi
        invariant
            lo <= i <= hi <= n,
            n == s@.len(),
            out@ == s@.subrange(lo as int, i as int),
        decreases hi - i,
    {
        let b = s[i];
        out.push(b);
        proof {
            assert(s@.subrange(lo as int, i + 1) =~= s@.subrange(lo as int, i as int).push(
                s@[i as int],
            ));
        }
        i += 1;
    }
    proof {
        lemma_trim_start_skip(s@, lo as int);
        let rest = s@.skip(lo as int);
        assert(trim_start(rest) == rest);
        assert(trim_start(s@) == rest);
        lemma_trim_end_take(rest, hi - lo);
        let kept = rest.take(hi - lo);
        assert(trim_end(kept) == kept);
        assert(kept =~= s@.subrange(lo as int, hi as int));
    }
    out
}

// ---------------------------------------------------------------------------
// Finding a byte
// ---------------------------------------------------------------------------
/// The index of the first occurrence of `b` in `s`, or `s.len()` when `b`
/// does not occur.
pub open spec fn first_at(s: Seq<u8>, b: u8) -> int
    decreases s.len(),
{
    if s.len() == 0 {
        0
    } else if s[0] == b {
        0
    } else {
        1 + first_at(s.skip(1), b)
    }
}

pub proof fn lemma_first_at(s: Seq<u8>, b: u8)
    ensures
        0 <= first_at(s, b) <= s.len(),
        first_at(s, b) < s.len() ==> s[first_at(s, b)] == b,
        forall|k: int| 0 <= k < first_at(s, b) ==> s[k] != b,
    decreases s.len(),
{
    if s.len() == 0 {
    } else if s[0] == b {
    } else {
        lemma_first_at(s.skip(1), b);
        assert(forall|k: int| 1 <= k < 1 + first_at(s.skip(1), b) ==> s[k] == s.skip(1)[k - 1]);
    }
}

pub proof fn lemma_first_at_unique(s: Seq<u8>, b: u8, i: int)
    requires
        0 <= i <= s.len(),
        forall|k: int| 0 <= k < i ==> s[k] != b,
        i < s.len() ==> s[i] == b,
    ensures
        first_at(s, b) == i,
{
    lemma_first_at(s, b);
    let f = first_at(s, b);
    if f < i {
        assert(s[f] == b);
        assert(s[f] != b);
    } else if f > i {
        assert(i < s.len());
        assert(s[i] != b);
        assert(s[i] == b);
    }
}

/// Scans for the first occurrence of `b`, returning `s.len()` when it does
/// not occur.
pub fn find_byte(s: &[u8], b: u8) -> (r: usize)
    ensures
        r == first_at(s@, b),
{
    let mut i: usize = 0;
    while i < s.len()
        invariant
            0 <= i <= s@.len(),
            forall|k: int| 0 <= k < i ==> s@[k] != b,
        decreases s@.len() - i,
    {
        if s[i] == b {
            proof {
                lemma_first_at_unique(s@, b, i as int);
            }
            return i;
        }
        i += 1;
    }
    proof {
        lemma_first_at_unique(s@, b, i as int);
    }
    i
}

// ---------------------------------------------------------------------------
// Small executable helpers
// ---------------------------------------------------------------------------
/// Appends every byte of `s` to `out`.
pub fn push_bytes(out: &mut Vec<u8>, s: &[u8])
    ensures
        final(out)@ == old(out)@ + s@,
{
    let mut i: usize = 0;
    while i < s.len()
        invariant
            0 <= i <= s@.len(),
            out@ == old(out)@ + s@.take(i as int),
        decreases s@.len() - i,
    {
        let b = s[i];
        out.push(b);
        proof {
            assert(old(out)@ + s@.take(i + 1) =~= (old(out)@ + s@.take(i as int)).push(
                s@[i as int],
            ));
        }
        i += 1;
    }
    proof {
        assert(s@.take(s@.len() as int) =~= s@);
    }
}

/// Copies a slice into a fresh vector.
pub fn bytes_to_vec(s: &[u8]) -> (v: Vec<u8>)
    ensures
        v@ == s@,
{
    let mut v: Vec<u8> = Vec::new();
    push_bytes(&mut v, s);
    proof {
        assert(v@ =~= s@);
    }
    v
}

/// Byte-for-byte equality of two slices.
pub fn bytes_eq(a: &[u8], c: &[u8]) -> (r: bool)
    ensures
        r == (a@ == c@),
{
    if a.len() != c.len() {
        return false;
    }
    let mut i: usize = 0;
    while i < a.len()
        invariant
            0 <= i <= a@.len(),
            a@.len() == c@.len(),
            forall|k: int| 0 <= k < i ==> a@[k] == c@[k],
        decreases a@.len() - i,
    {
        if a[i] != c[i] {
            return false;
        }
        i += 1;
    }
    proof {
        assert(a@ =~= c@);
    }
    true
}

// ---------------------------------------------------------------------------
// Splitting on commas and joining with ", "
// ---------------------------------------------------------------------------
/// The segments of `s` between its commas, in order. Never empty: a text
/// without commas is one segment.
pub open spec fn split_commas(s: Seq<u8>) -> Seq<Seq<u8>>
    decreases s.len(),
{
    if s.len() == 0 {
        seq![Seq::empty()]
    } else if s.last() == 44 {
        split_commas(s.drop_last()).push(Seq::empty())
    } else {
        let p = split_commas(s.drop_last());
        p.update(p.len() - 1, p.last().push(s.last()))
    }
}

pub proof fn lemma_split_commas_len(s: Seq<u8>)
    ensures
        split_commas(s).len() >= 1,
    decreases s.len(),
{
    if s.len() > 0 {
        lemma_split_commas_len(s.drop_last());
    }
}

/// The segments joined back with `", "` between them.
pub open spec fn join_comma_space(parts: Seq<Seq<u8>>) -> Seq<u8>
    recommends
        parts.len() >= 1,
    decreases parts.len(),
{
    if parts.len() == 0 {
        Seq::empty()
    } else if parts.len() == 1 {
        parts[0]
    } else {
        join_comma_space(parts.drop_last()) + seq![44u8, 32u8] + parts.last()
    }
}

/// No byte of `s` is a comma.
pub open spec fn comma_free(s: Seq<u8>) -> bool {
    forall|i: int| 0 <= i < s.len() ==> #[trigger] s[i] != 44
}

/// Splits `s` at every comma.
pub fn split_on_commas(s: &[u8]) -> (parts: Vec<Vec<u8>>)
    ensures
        parts@.map_values(|v: Vec<u8>| v@) == split_commas(s@),
{
    let mut done: Vec<Vec<u8>> = Vec::new();
    let mut current: Vec<u8> = Vec::new();
    let mut i: usize = 0;
    while i < s.len()
        invariant
            0 <= i <= s@.len(),
            done@.map_values(|v: Vec<u8>| v@).push(current@) =~= split_commas(s@.take(i as int)),
        decreases s@.len() - i,
    {
        let ghost pre_done = done@.map_values(|v: Vec<u8>| v@);
        let ghost pre_current = current@;
        let b = s[i];
        proof {
            assert(s@.take(i + 1).drop_last() =~= s@.take(i as int));
            assert(s@.take(i + 1).last() == s@[i as int]);
            lemma_split_commas_len(s@.take(i as int));
        }
        if b == 44 {
            done.push(current);
            current = Vec::new();
            proof {
                assert(done@.map_values(|v: Vec<u8>| v@) =~= pre_done.push(pre_current));
                assert(done@.map_values(|v: Vec<u8>| v@).push(current@) =~= split_commas(
                    s@.take(i + 1),
                ));
            }
        } else {
            current.push(b);
            proof {
                let p = split_commas(s@.take(i as int));
                assert(p.update(p.len() - 1, p.last().push(s@[i as int])) =~= pre_done.push(
                    pre_current.push(s@[i as int]),
                ));
                assert(done@.map_values(|v: Vec<u8>| v@).push(current@) =~= split_commas(
                    s@.take(i + 1),
                ));
            }
        }
        i += 1;
    }
    proof {
        assert(s@.take(s@.len() as int) =~= s@);
    }
    done.push(current);
    proof {
        assert(done@.map_values(|v: Vec<u8>| v@) =~= split_commas(s@));
    }
    done
}

// ---------------------------------------------------------------------------
// Split/join round trip
// ---------------------------------------------------------------------------
proof fn lemma_split_no_comma(s: Seq<u8>)
    requires
        comma_free(s),
    ensures
        split_commas(s) =~~= seq![s],
    decreases s.len(),
{
    if s.len() == 0 {
        assert(split_commas(s) =~~= seq![s]);
    } else {
        assert(comma_free(s.drop_last()));
        lemma_split_no_comma(s.drop_last());
        assert(s.drop_last().push(s.last()) =~= s);
    }
}

proof fn lemma_split_append_tail(s: Seq<u8>, t: Seq<u8>)
    requires
        comma_free(t),
    ensures
        split_commas(s + t) =~~= split_commas(s).update(
            split_commas(s).len() - 1,
            split_commas(s).last() + t,
        ),
    decreases t.len(),
{
    lemma_split_commas_len(s);
    if t.len() == 0 {
        assert(s + t =~= s);
        assert(split_commas(s).last() + t =~= split_commas(s).last());
        assert(split_commas(s).update(
            split_commas(s).len() - 1,
            split_commas(s).last() + t,
        ) =~~= split_commas(s));
    } else {
        assert(comma_free(t.drop_last()));
        lemma_split_append_tail(s, t.drop_last());
        assert((s + t).drop_last() =~= s + t.drop_last());
        assert((s + t).last() == t.last());
        assert(t.last() != 44);
        let p = split_commas(s + t.drop_last());
        assert(split_commas(s + t) =~~= p.update(p.len() - 1, p.last().push(t.last())));
        assert(split_commas(s).last() + t.drop_last() + seq![t.last()] =~= split_commas(s).last()
            + t);
    }
}

/// Splitting the `", "`-joined image of comma-free segments returns the
/// segments: the first as it was, each later one with the single space the
/// separator put before it.
pub proof fn lemma_split_join(parts: Seq<Seq<u8>>)
    requires
        parts.len() >= 1,
        forall|i: int| 0 <= i < parts.len() ==> comma_free(#[trigger] parts[i]),
    ensures
        split_commas(join_comma_space(parts)) =~~= seq![parts[0]] + parts.skip(1).map_values(
            |p: Seq<u8>| seq![32u8] + p,
        ),
    decreases parts.len(),
{
    if parts.len() == 1 {
        lemma_split_no_comma(parts[0]);
        assert(split_commas(join_comma_space(parts)) =~~= seq![parts[0]] + parts.skip(
            1,
        ).map_values(|p: Seq<u8>| seq![32u8] + p));
    } else {
        let front = parts.drop_last();
        assert(forall|i: int| 0 <= i < front.len() ==> comma_free(#[trigger] front[i]));
        lemma_split_join(front);
        let j = join_comma_space(front);
        assert(join_comma_space(parts) == j + seq![44u8, 32u8] + parts.last());
        assert(j + seq![44u8, 32u8] + parts.last() =~= (j + seq![44u8]) + (seq![32u8]
            + parts.last()));
        assert((j + seq![44u8]).drop_last() =~= j);
        assert((j + seq![44u8]).last() == 44);
        assert(split_commas(j + seq![44u8]) =~~= split_commas(j).push(Seq::empty()));
        lemma_split_commas_len(j);
        assert(comma_free(seq![32u8] + parts.last()));
        lemma_split_append_tail(j + seq![44u8], seq![32u8] + parts.last());
        let q = split_commas(j).push(Seq::empty());
        assert(split_commas(join_comma_space(parts)) =~~= q.update(
            q.len() - 1,
            seq![32u8] + parts.last(),
        ));
        assert(q.update(q.len() - 1, seq![32u8] + parts.last()) =~~= split_commas(j).push(
            seq![32u8] + parts.last(),
        ));
        assert(front[0] == parts[0]);
        assert(split_commas(join_comma_space(parts)) =~~= (seq![parts[0]] + front.skip(
            1,
        ).map_values(|p: Seq<u8>| seq![32u8] + p)).push(seq![32u8] + parts.last()));
        assert((seq![parts[0]] + front.skip(1).map_values(|p: Seq<u8>| seq![32u8] + p)).push(
            seq![32u8] + parts.last(),
        ) =~~= seq![parts[0]] + parts.skip(1).map_values(|p: Seq<u8>| seq![32u8] + p));
    }
}

} // verus!
