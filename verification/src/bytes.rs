//! Byte-level text helpers shared by the document editors and the version
//! model: trimming, splitting, joining, searching and decimal conversion,
//! each proved against a recursive specification of its result.

use vstd::prelude::*;

verus! {

/// ASCII whitespace as the selector grammar understands it.
pub open spec fn is_ascii_ws(b: u8) -> bool {
    b == 32 || b == 9 || b == 10 || b == 13
}

/// ASCII decimal digit.
pub open spec fn is_digit(b: u8) -> bool {
    48 <= b && b <= 57
}

pub open spec fn all_digits(s: Seq<u8>) -> bool {
    forall|i: int| 0 <= i < s.len() ==> is_digit(#[trigger] s[i])
}

exec fn is_ascii_ws_exec(b: u8) -> (r: bool)
    ensures
        r == is_ascii_ws(b),
{
    b == 32 || b == 9 || b == 10 || b == 13
}

// ---------------------------------------------------------------------------
// Trimming
// ---------------------------------------------------------------------------

pub open spec fn spec_trim_start(s: Seq<u8>) -> Seq<u8>
    decreases s.len(),
{
    if s.len() > 0 && is_ascii_ws(s[0]) {
        spec_trim_start(s.drop_first())
    } else {
        s
    }
}

pub open spec fn spec_trim_end(s: Seq<u8>) -> Seq<u8>
    decreases s.len(),
{
    if s.len() > 0 && is_ascii_ws(s[s.len() - 1]) {
        spec_trim_end(s.drop_last())
    } else {
        s
    }
}

/// The sequence with ASCII whitespace removed from both ends.
pub open spec fn spec_trim(s: Seq<u8>) -> Seq<u8> {
    spec_trim_end(spec_trim_start(s))
}

proof fn lemma_trim_start_at(s: Seq<u8>, k: int)
    requires
        0 <= k <= s.len(),
        forall|j: int| 0 <= j < k ==> is_ascii_ws(#[trigger] s[j]),
        k < s.len() ==> !is_ascii_ws(s[k]),
    ensures
        spec_trim_start(s) == s.skip(k),
    decreases k,
{
    if k == 0 {
        assert(s.skip(0) =~= s);
    } else {
        assert(is_ascii_ws(s[0]));
        lemma_trim_start_at(s.drop_first(), k - 1);
        assert(s.drop_first().skip(k - 1) =~= s.skip(k));
    }
}

proof fn lemma_trim_end_at(s: Seq<u8>, k: int)
    requires
        0 <= k <= s.len(),
        forall|j: int| k <= j < s.len() ==> is_ascii_ws(#[trigger] s[j]),
        k > 0 ==> !is_ascii_ws(s[k - 1]),
    ensures
        spec_trim_end(s) == s.take(k),
    decreases s.len() - k,
{
    if k == s.len() {
        assert(s.take(k) =~= s);
    } else {
        assert(is_ascii_ws(s[s.len() - 1]));
        lemma_trim_end_at(s.drop_last(), k);
        assert(s.drop_last().take(k) =~= s.take(k));
    }
}

/// Copy of `v` with ASCII whitespace removed from both ends.
pub fn trim_bytes(v: &[u8]) -> (r: Vec<u8>)
    ensures
        r@ == spec_trim(v@),
{
    let mut start: usize = 0;
    while start < v.len() && is_ascii_ws_exec(v[start])
        invariant
            start <= v.len(),
            forall|j: int| 0 <= j < start ==> is_ascii_ws(#[trigger] v@[j]),
        decreases v.len() - start,
    {
        start += 1;
    }
    proof {
        lemma_trim_start_at(v@, start as int);
    }
    let mut end: usize = v.len();
    while end > start && is_ascii_ws_exec(v[end - 1])
        invariant
            start <= end <= v.len(),
            forall|j: int| end <= j < v.len() ==> is_ascii_ws(#[trigger] v@[j]),
        decreases end,
    {
        end -= 1;
    }
    let ghost trimmed = spec_trim_start(v@);
    proof {
        assert(trimmed == v@.skip(start as int));
        assert forall|j: int| end - start <= j < trimmed.len() implies is_ascii_ws(
            #[trigger] trimmed[j],
        ) by {
            assert(trimmed[j] == v@[j + start]);
        }
        if end > start {
            assert(trimmed[end - start - 1] == v@[end - 1]);
        }
        lemma_trim_end_at(trimmed, end - start);
    }
    let mut r: Vec<u8> = Vec::new();
    let mut i: usize = start;
    while i < end
        invariant
            start <= i <= end <= v.len(),
            r@ =~= v@.subrange(start as int, i as int),
        decreases end - i,
    {
        r.push(v[i]);
        i += 1;
    }
    proof {
        assert(v@.subrange(start as int, end as int) =~= v@.skip(start as int).take(
            end - start as int,
        ));
    }
    r
}

// ---------------------------------------------------------------------------
// Equality and search
// ---------------------------------------------------------------------------

/// Byte-wise equality of two slices.
pub fn bytes_eq(a: &[u8], b: &[u8]) -> (r: bool)
    ensures
        r == (a@ == b@),
{
    if a.len() != b.len() {
        assert(a@ != b@) by {
            assert(a@.len() != b@.len());
        }
        return false;
    }
    let mut i: usize = 0;
    while i < a.len()
        invariant
            i <= a.len(),
            a@.len() == b@.len(),
            forall|j: int| 0 <= j < i ==> a@[j] == b@[j],
        decreases a.len() - i,
    {
        if a[i] != b[i] {
            return false;
        }
        i += 1;
    }
    proof {
        assert(a@ =~= b@);
    }
    true
}

/// Index of the first occurrence of `b` in `s`, or `s.len()` if absent.
pub open spec fn spec_find(s: Seq<u8>, b: u8) -> nat
    decreases s.len(),
{
    if s.len() == 0 {
        0
    } else if s[0] == b {
        0
    } else {
        1 + spec_find(s.drop_first(), b)
    }
}

pub proof fn lemma_find_props(s: Seq<u8>, b: u8)
    ensures
        spec_find(s, b) <= s.len(),
        spec_find(s, b) < s.len() ==> s[spec_find(s, b) as int] == b,
        forall|j: int| 0 <= j < spec_find(s, b) ==> s[j] != b,
    decreases s.len(),
{
    if s.len() > 0 && s[0] != b {
        lemma_find_props(s.drop_first(), b);
        let f = spec_find(s.drop_first(), b);
        assert forall|j: int| 0 <= j < spec_find(s, b) implies s[j] != b by {
            if j > 0 {
                assert(s.drop_first()[j - 1] != b);
            }
        }
        if f < s.drop_first().len() {
            assert(s.drop_first()[f as int] == b);
        }
    }
}

proof fn lemma_find_at(s: Seq<u8>, b: u8, k: int)
    requires
        0 <= k <= s.len(),
        forall|j: int| 0 <= j < k ==> s[j] != b,
        k < s.len() ==> s[k] == b,
    ensures
        spec_find(s, b) == k,
    decreases k,
{
    if k == 0 {
    } else {
        lemma_find_at(s.drop_first(), b, k - 1);
    }
}

/// First occurrence of `b` in `v`, if any.
pub fn find_byte(v: &[u8], b: u8) -> (r: Option<usize>)
    ensures
        match r {
            Some(i) => i == spec_find(v@, b) && i < v@.len(),
            None => spec_find(v@, b) == v@.len(),
        },
{
    let mut i: usize = 0;
    while i < v.len()
        invariant
            i <= v.len(),
            forall|j: int| 0 <= j < i ==> v@[j] != b,
        decreases v.len() - i,
    {
        if v[i] == b {
            proof {
                lemma_find_at(v@, b, i as int);
            }
            return Some(i);
        }
        i += 1;
    }
    proof {
        lemma_find_at(v@, b, v@.len() as int);
    }
    None
}

/// Whether `needle` occurs as a contiguous subsequence of `hay`.
pub open spec fn spec_contains(hay: Seq<u8>, needle: Seq<u8>) -> bool {
    exists|i: int|
        0 <= i && i + needle.len() <= hay.len() && #[trigger] hay.subrange(
            i,
            i + needle.len() as int,
        ) == needle
}

#[verifier::loop_isolation(false)]
fn match_at(hay: &[u8], needle: &[u8], i: usize) -> (r: bool)
    requires
        i + needle@.len() <= hay@.len(),
    ensures
        r == (hay@.subrange(i as int, i + needle@.len() as int) == needle@),
{
    let hay_n = hay.len();
    let mut j: usize = 0;
    while j < needle.len()
        invariant
            i + needle@.len() <= hay@.len(),
            j <= needle.len(),
            forall|t: int| 0 <= t < j ==> hay@[i + t] == needle@[t],
        decreases needle.len() - j,
    {
        if hay[i + j] != needle[j] {
            proof {
                let ghost jj = j as int;
                assert(hay@.subrange(i as int, i + needle@.len() as int)[jj] != needle@[jj]);
            }
            return false;
        }
        j += 1;
    }
    proof {
        assert(hay@.subrange(i as int, i + needle@.len() as int) =~= needle@);
    }
    true
}

#[verifier::loop_isolation(false)]
pub fn contains_bytes(hay: &[u8], needle: &[u8]) -> (r: bool)
    ensures
        r == spec_contains(hay@, needle@),
{
    if needle.len() > hay.len() {
        return false;
    }
    if needle.len() == 0 {
        proof {
            assert(hay@.subrange(0, 0 + needle@.len() as int) =~= needle@);
        }
        return true;
    }
    let limit = hay.len() - needle.len();
    let mut i: usize = 0;
    while i <= limit
        invariant
            i <= limit + 1,
            forall|k: int|
                0 <= k < i ==> #[trigger] hay@.subrange(k, k + needle@.len() as int) != needle@,
        decreases limit + 1 - i,
    {
        if match_at(hay, needle, i) {
            return true;
        }
        i += 1;
    }
    proof {
        assert forall|k: int|
            0 <= k && k + needle@.len() <= hay@.len() implies #[trigger] hay@.subrange(
            k,
            k + needle@.len() as int,
        ) != needle@ by {
            assert(k < i);
        }
    }
    false
}

// ---------------------------------------------------------------------------
// Splitting and joining
// ---------------------------------------------------------------------------

/// `s` split on `sep`: always one more piece than separators, pieces may be
/// empty, the separator byte belongs to no piece.
pub open spec fn spec_split(s: Seq<u8>, sep: u8) -> Seq<Seq<u8>>
    decreases s.len(),
{
    if s.len() == 0 {
        seq![Seq::<u8>::empty()]
    } else {
        let rest = spec_split(s.drop_last(), sep);
        if s.last() == sep {
            rest.push(Seq::<u8>::empty())
        } else {
            rest.update(rest.len() - 1, rest.last().push(s.last()))
        }
    }
}

pub proof fn lemma_split_nonempty(s: Seq<u8>, sep: u8)
    ensures
        spec_split(s, sep).len() >= 1,
    decreases s.len(),
{
    if s.len() > 0 {
        lemma_split_nonempty(s.drop_last(), sep);
    }
}

/// `s` split on `sep`, as a vector of byte vectors.
pub fn split_bytes(v: &[u8], sep: u8) -> (r: Vec<Vec<u8>>)
    ensures
        r.deep_view() == spec_split(v@, sep),
        r.len() >= 1,
{
    let mut pieces: Vec<Vec<u8>> = Vec::new();
    let mut cur: Vec<u8> = Vec::new();
    let mut i: usize = 0;
    proof {
        assert(v@.take(0) =~= Seq::<u8>::empty());
    }
    while i < v.len()
        invariant
            i <= v.len(),
            pieces.deep_view().push(cur@) =~~= spec_split(v@.take(i as int), sep),
        decreases v.len() - i,
    {
        proof {
            assert(v@.take(i + 1).drop_last() =~= v@.take(i as int));
            assert(v@.take(i + 1).last() == v@[i as int]);
        }
        if v[i] == sep {
            pieces.push(cur);
            cur = Vec::new();
            proof {
                assert(pieces.deep_view().push(cur@) =~~= spec_split(v@.take(i + 1), sep));
            }
        } else {
            let ghost old_pieces = pieces.deep_view();
            let ghost old_cur = cur@;
            cur.push(v[i]);
            proof {
                let s = spec_split(v@.take(i as int), sep);
                assert(s == old_pieces.push(old_cur));
                assert(s.len() == old_pieces.len() + 1);
                assert(spec_split(v@.take(i + 1), sep) =~~= s.update(
                    s.len() - 1,
                    s.last().push(v@[i as int]),
                ));
                assert(s.last() == old_cur);
                assert(s.update(s.len() - 1, old_cur.push(v@[i as int])) =~~= old_pieces.push(
                    old_cur.push(v@[i as int]),
                ));
            }
        }
        i += 1;
    }
    proof {
        assert(v@.take(v@.len() as int) =~= v@);
    }
    let ghost done = pieces.deep_view();
    pieces.push(cur);
    proof {
        assert(pieces.deep_view() =~~= done.push(cur@));
    }
    pieces
}

/// The pieces joined with `sep` between consecutive pieces.
pub open spec fn spec_join(parts: Seq<Seq<u8>>, sep: u8) -> Seq<u8>
    decreases parts.len(),
{
    if parts.len() == 0 {
        Seq::<u8>::empty()
    } else if parts.len() == 1 {
        parts[0]
    } else {
        spec_join(parts.drop_last(), sep) + seq![sep] + parts.last()
    }
}

/// Copy of `v[from..to]`.
pub fn sub_bytes(v: &[u8], from: usize, to: usize) -> (r: Vec<u8>)
    requires
        from <= to <= v@.len(),
    ensures
        r@ == v@.subrange(from as int, to as int),
{
    let mut r: Vec<u8> = Vec::new();
    let mut i: usize = from;
    while i < to
        invariant
            from <= i <= to <= v@.len(),
            r@ =~= v@.subrange(from as int, i as int),
        decreases to - i,
    {
        r.push(v[i]);
        i += 1;
    }
    proof {
        assert(r@ =~= v@.subrange(from as int, to as int));
    }
    r
}

/// Append all of `src` to `out`.
#[verifier::loop_isolation(false)]
pub fn append_bytes(out: &mut Vec<u8>, src: &[u8])
    ensures
        final(out)@ == old(out)@ + src@,
{
    let mut i: usize = 0;
    while i < src.len()
        invariant
            i <= src@.len(),
            out@ =~= old(out)@ + src@.subrange(0, i as int),
        decreases src.len() - i,
    {
        out.push(src[i]);
        i += 1;
    }
    proof {
        assert(out@ =~= old(out)@ + src@);
    }
}

// ---------------------------------------------------------------------------
// Decimal numbers
// ---------------------------------------------------------------------------

/// Numeric value of a digit string (meaningful when `all_digits` holds).
pub open spec fn spec_dec_value(s: Seq<u8>) -> int
    decreases s.len(),
{
    if s.len() == 0 {
        0
    } else {
        spec_dec_value(s.drop_last()) * 10 + (s.last() - 48)
    }
}

pub proof fn lemma_dec_value_nonneg(s: Seq<u8>)
    requires
        all_digits(s),
    ensures
        spec_dec_value(s) >= 0,
    decreases s.len(),
{
    if s.len() > 0 {
        assert(is_digit(s.last()));
        assert(all_digits(s.drop_last())) by {
            assert(forall|i: int|
                0 <= i < s.drop_last().len() ==> #[trigger] s.drop_last()[i] == s[i]);
        }
        lemma_dec_value_nonneg(s.drop_last());
        assert(spec_dec_value(s.drop_last()) * 10 >= 0) by (nonlinear_arith)
            requires
                spec_dec_value(s.drop_last()) >= 0,
        ;
    }
}

proof fn lemma_dec_value_extend_ge(s: Seq<u8>, k: int)
    requires
        all_digits(s),
        0 <= k <= s.len(),
    ensures
        spec_dec_value(s) >= spec_dec_value(s.take(k)),
    decreases s.len() - k,
{
    if k < s.len() {
        lemma_dec_value_extend_ge(s, k + 1);
        let t = s.take(k + 1);
        assert(t.drop_last() =~= s.take(k));
        assert(all_digits(t)) by {
            assert(forall|i: int| 0 <= i < t.len() ==> #[trigger] t[i] == s[i]);
        }
        assert(is_digit(t.last()));
        assert(all_digits(s.take(k))) by {
            assert(forall|i: int|
                0 <= i < s.take(k).len() ==> #[trigger] s.take(k)[i] == s[i]);
        }
        lemma_dec_value_nonneg(s.take(k));
        let p = spec_dec_value(s.take(k));
        assert(p * 10 >= p) by (nonlinear_arith)
            requires
                p >= 0,
        ;
    } else {
        assert(s.take(k) =~= s);
    }
}

/// The value of a decimal string as `usize::from_str` sees it: an optional
/// leading `+`, then at least one digit, value within range; `None` otherwise.
pub open spec fn spec_parse_usize(s: Seq<u8>) -> Option<int> {
    let body = if s.len() > 0 && s[0] == 43 {
        s.drop_first()
    } else {
        s
    };
    if body.len() > 0 && all_digits(body) && spec_dec_value(body) <= usize::MAX {
        Some(spec_dec_value(body))
    } else {
        None
    }
}

/// Parse a digit string into a `usize`: `None` on empty input, a non-digit
/// byte, or overflow.  An optional single leading `+` is accepted.
#[verifier::loop_isolation(false)]
pub fn parse_usize_digits(v: &[u8]) -> (r: Option<usize>)
    ensures
        match r {
            Some(n) => spec_parse_usize(v@) == Some(n as int),
            None => spec_parse_usize(v@) is None,
        },
{
    let start: usize = if v.len() > 0 && v[0] == 43 {
        1
    } else {
        0
    };
    let ghost body = if v@.len() > 0 && v@[0] == 43 {
        v@.drop_first()
    } else {
        v@
    };
    assert(body =~= v@.subrange(start as int, v@.len() as int));
    if v.len() == start {
        return None;
    }
    let mut acc: usize = 0;
    let mut i: usize = start;
    while i < v.len()
        invariant
            start <= i <= v.len(),
            body =~= v@.subrange(start as int, v@.len() as int),
            all_digits(body.take(i - start)),
            acc == spec_dec_value(body.take(i - start)),
        decreases v.len() - i,
    {
        let b = v[i];
        if !(48 <= b && b <= 57) {
            assert(body[i - start] == b);
            return None;
        }
        let d = (b - 48) as usize;
        let next = match acc.checked_mul(10) {
            Some(m) => m.checked_add(d),
            None => None,
        };
        proof {
            let t = body.take(i - start + 1);
            assert(t.drop_last() =~= body.take(i - start));
            assert(t.last() == body[i - start]);
            assert(all_digits(t)) by {
                assert(forall|j: int| 0 <= j < t.len() ==> #[trigger] t[j] == body[j]);
            }
        }
        match next {
            Some(n) => {
                acc = n;
            },
            None => {
                proof {
                    lemma_dec_value_nonneg(body.take(i - start));
                    assert(spec_dec_value(body.take(i - start + 1)) > usize::MAX);
                    if all_digits(body) {
                        lemma_dec_value_extend_ge(body, i - start + 1);
                    }
                }
                return None;
            },
        }
        i += 1;
    }
    proof {
        assert(body.take(v@.len() - start) =~= body);
    }
    Some(acc)
}

/// Numeric value of a digit string as the lenient `u32` parser sees it:
/// the value when the string is a well-formed `u32`, otherwise 0.
pub open spec fn spec_parse_u32_lenient(s: Seq<u8>) -> u32 {
    let body = if s.len() > 0 && s[0] == 43 {
        s.drop_first()
    } else {
        s
    };
    if body.len() > 0 && all_digits(body) && spec_dec_value(body) <= u32::MAX {
        spec_dec_value(body) as u32
    } else {
        0
    }
}

/// Parse a `u32`, defaulting to 0 on any malformed or overflowing input.
#[verifier::loop_isolation(false)]
pub fn parse_u32_lenient(v: &[u8]) -> (r: u32)
    ensures
        r == spec_parse_u32_lenient(v@),
{
    let start: usize = if v.len() > 0 && v[0] == 43 {
        1
    } else {
        0
    };
    let ghost body = if v@.len() > 0 && v@[0] == 43 {
        v@.drop_first()
    } else {
        v@
    };
    assert(body =~= v@.subrange(start as int, v@.len() as int));
    if v.len() == start {
        return 0;
    }
    let mut acc: u32 = 0;
    let mut i: usize = start;
    while i < v.len()
        invariant
            start <= i <= v.len(),
            body =~= v@.subrange(start as int, v@.len() as int),
            all_digits(body.take(i - start)),
            acc == spec_dec_value(body.take(i - start)),
        decreases v.len() - i,
    {
        let b = v[i];
        if !(48 <= b && b <= 57) {
            assert(body[i - start] == b);
            return 0;
        }
        let d = (b - 48) as u32;
        let next = match acc.checked_mul(10) {
            Some(m) => m.checked_add(d),
            None => None,
        };
        proof {
            let t = body.take(i - start + 1);
            assert(t.drop_last() =~= body.take(i - start));
            assert(t.last() == body[i - start]);
            assert(all_digits(t)) by {
                assert(forall|j: int| 0 <= j < t.len() ==> #[trigger] t[j] == body[j]);
            }
        }
        match next {
            Some(n) => {
                acc = n;
            },
            None => {
                proof {
                    lemma_dec_value_nonneg(body.take(i - start));
                    assert(spec_dec_value(body.take(i - start + 1)) > u32::MAX);
                    if all_digits(body) {
                        lemma_dec_value_extend_ge(body, i - start + 1);
                    }
                }
                return 0;
            },
        }
        i += 1;
    }
    proof {
        assert(body.take(v@.len() - start) =~= body);
    }
    acc
}

/// Decimal digit string of `n`, most significant digit first, no padding.
pub open spec fn spec_dec(n: nat) -> Seq<u8>
    decreases n,
{
    if n < 10 {
        seq![(48 + n) as u8]
    } else {
        spec_dec(n / 10).push((48 + n % 10) as u8)
    }
}

/// Append the decimal digits of `n` to `out`.
pub fn push_dec_u32(n: u32, out: &mut Vec<u8>)
    ensures
        final(out)@ == old(out)@ + spec_dec(n as nat),
    decreases n,
{
    if n < 10 {
        out.push(48 + n as u8);
        assert(out@ =~= old(out)@ + spec_dec(n as nat));
    } else {
        push_dec_u32(n / 10, out);
        out.push(48 + (n % 10) as u8);
        assert(out@ =~= old(out)@ + spec_dec(n as nat));
    }
}

pub proof fn lemma_dec_digits(n: nat)
    ensures
        all_digits(spec_dec(n)),
        spec_dec(n).len() >= 1,
    decreases n,
{
    if n < 10 {
    } else {
        lemma_dec_digits(n / 10);
        assert(n % 10 < 10);
        assert forall|i: int| 0 <= i < spec_dec(n).len() implies is_digit(
            #[trigger] spec_dec(n)[i],
        ) by {
            if i < spec_dec(n / 10).len() {
                assert(spec_dec(n)[i] == spec_dec(n / 10)[i]);
            }
        }
    }
}

} // verus!
// ---------------------------------------------------------------------------
// Substring replacement
// ---------------------------------------------------------------------------

verus! {

/// Index of the first occurrence of `n` as a subsequence of `s`, or
/// `s.len()` when there is none.
pub open spec fn spec_find_sub(s: Seq<u8>, n: Seq<u8>) -> nat
    decreases s.len(),
{
    if n.len() == 0 {
        0
    } else if s.len() < n.len() {
        s.len()
    } else if s.take(n.len() as int) == n {
        0
    } else {
        1 + spec_find_sub(s.drop_first(), n)
    }
}

pub proof fn lemma_find_sub_at(s: Seq<u8>, n: Seq<u8>, k: int)
    requires
        n.len() >= 1,
        0 <= k <= s.len(),
        forall|j: int|
            0 <= j < k && j + n.len() <= s.len() ==> #[trigger] s.subrange(
                j,
                j + n.len() as int,
            ) != n,
        k + n.len() <= s.len() ==> s.subrange(k, k + n.len() as int) == n,
        k < s.len() ==> k + n.len() <= s.len(),
    ensures
        k + n.len() <= s.len() ==> spec_find_sub(s, n) == k,
        k == s.len() ==> spec_find_sub(s, n) == s.len(),
    decreases s.len(),
{
    if s.len() < n.len() {
        assert(k == s.len());
    } else if k == 0 {
        assert(s.take(n.len() as int) =~= s.subrange(0, 0 + n.len() as int));
    } else {
        assert(s.subrange(0, 0 + n.len() as int) != n);
        assert(s.take(n.len() as int) =~= s.subrange(0, 0 + n.len() as int));
        let t = s.drop_first();
        assert forall|j: int|
            0 <= j < k - 1 && j + n.len() <= t.len() implies #[trigger] t.subrange(
            j,
            j + n.len() as int,
        ) != n by {
            assert(t.subrange(j, j + n.len() as int) =~= s.subrange(
                j + 1,
                j + 1 + n.len() as int,
            ));
        }
        if k - 1 + n.len() <= t.len() {
            assert(t.subrange(k - 1, k - 1 + n.len() as int) =~= s.subrange(
                k,
                k + n.len() as int,
            ));
        }
        lemma_find_sub_at(t, n, k - 1);
    }
}

/// `s` with every (left-to-right, non-overlapping) occurrence of `needle`
/// replaced by `rep`.
pub open spec fn spec_replace_all(s: Seq<u8>, needle: Seq<u8>, rep: Seq<u8>) -> Seq<u8>
    decreases s.len(),
    when needle.len() >= 1
{
    let i = spec_find_sub(s, needle);
    if i + needle.len() <= s.len() {
        s.take(i as int) + rep + spec_replace_all(s.skip(i + needle.len() as int), needle, rep)
    } else {
        s
    }
}

/// First match of `n` in `s` at or after `from`.
#[verifier::loop_isolation(false)]
fn find_sub_from(s: &[u8], n: &[u8], from: usize) -> (r: Option<usize>)
    requires
        n@.len() >= 1,
        from <= s@.len(),
    ensures
        match r {
            Some(m) => from <= m && m + n@.len() <= s@.len() && s@.subrange(
                m as int,
                m + n@.len() as int,
            ) == n@ && forall|j: int|
                from <= j < m ==> #[trigger] s@.subrange(j, j + n@.len() as int) != n@,
            None => forall|j: int|
                from <= j && j + n@.len() <= s@.len() ==> #[trigger] s@.subrange(
                    j,
                    j + n@.len() as int,
                ) != n@,
        },
{
    if s.len() < n.len() {
        return None;
    }
    let limit = s.len() - n.len();
    if from > limit {
        return None;
    }
    let mut m = from;
    while m <= limit
        invariant
            from <= m <= limit + 1,
            forall|j: int| from <= j < m ==> #[trigger] s@.subrange(j, j + n@.len() as int) != n@,
        decreases limit + 1 - m,
    {
        if match_at(s, n, m) {
            return Some(m);
        }
        m += 1;
    }
    None
}

/// Replace every occurrence of `needle` in `s` with `rep`, left to right.
#[verifier::loop_isolation(false)]
pub fn replace_all_bytes(s: &[u8], needle: &[u8], rep: &[u8]) -> (r: Vec<u8>)
    requires
        needle@.len() >= 1,
    ensures
        r@ == spec_replace_all(s@, needle@, rep@),
{
    let mut out: Vec<u8> = Vec::new();
    let mut pos: usize = 0;
    proof {
        assert(s@.skip(0) =~= s@);
    }
    while pos < s.len()
        invariant
            pos <= s.len(),
            out@ + spec_replace_all(s@.skip(pos as int), needle@, rep@) =~= spec_replace_all(
                s@,
                needle@,
                rep@,
            ),
        decreases s.len() - pos,
    {
        match find_sub_from(s, needle, pos) {
            Some(m) => {
                let ghost suffix = s@.skip(pos as int);
                proof {
                    assert forall|j: int|
                        0 <= j < m - pos && j + needle@.len() <= suffix.len()
                        implies #[trigger] suffix.subrange(j, j + needle@.len() as int)
                        != needle@ by {
                        assert(suffix.subrange(j, j + needle@.len() as int) =~= s@.subrange(
                            pos + j,
                            pos + j + needle@.len() as int,
                        ));
                    }
                    assert(suffix.subrange(m - pos, m - pos + needle@.len() as int)
                        =~= s@.subrange(m as int, m + needle@.len() as int));
                    lemma_find_sub_at(suffix, needle@, m - pos);
                    assert(spec_find_sub(suffix, needle@) == m - pos);
                    assert(spec_replace_all(suffix, needle@, rep@) == suffix.take(m - pos)
                        + rep@ + spec_replace_all(
                        suffix.skip(m - pos + needle@.len() as int),
                        needle@,
                        rep@,
                    ));
                    assert(suffix.take(m - pos) =~= s@.subrange(pos as int, m as int));
                    assert(suffix.skip(m - pos + needle@.len() as int) =~= s@.skip(
                        m + needle@.len() as int,
                    ));
                }
                let ghost old_out = out@;
                let chunk = sub_bytes(s, pos, m);
                append_bytes(&mut out, chunk.as_slice());
                append_bytes(&mut out, rep);
                proof {
                    assert(out@ =~= old_out + s@.subrange(pos as int, m as int) + rep@);
                }
                pos = m + needle.len();
            },
            None => {
                let ghost suffix = s@.skip(pos as int);
                proof {
                    assert forall|j: int|
                        0 <= j && j + needle@.len() <= suffix.len()
                        implies #[trigger] suffix.subrange(j, j + needle@.len() as int)
                        != needle@ by {
                        assert(suffix.subrange(j, j + needle@.len() as int) =~= s@.subrange(
                            pos + j,
                            pos + j + needle@.len() as int,
                        ));
                    }
                    lemma_find_sub_at(suffix, needle@, suffix.len() as int);
                    assert(spec_replace_all(suffix, needle@, rep@) == suffix);
                }
                let chunk = sub_bytes(s, pos, s.len());
                append_bytes(&mut out, chunk.as_slice());
                proof {
                    assert(s@.subrange(pos as int, s@.len() as int) =~= s@.skip(pos as int));
                }
                return out;
            },
        }
    }
    proof {
        assert(s@.skip(pos as int) =~= Seq::<u8>::empty());
        assert(spec_find_sub(Seq::<u8>::empty(), needle@) == 0);
        assert(spec_replace_all(Seq::<u8>::empty(), needle@, rep@) =~= Seq::<u8>::empty());
        assert(out@ =~= out@ + Seq::<u8>::empty());
    }
    out
}

} // verus!
verus! {

/// Where `spec_find_sub` reports a match, the needle stands there.
pub proof fn lemma_find_sub_match(s: Seq<u8>, n: Seq<u8>)
    requires
        n.len() >= 1,
    ensures
        spec_find_sub(s, n) + n.len() <= s.len() ==> s.subrange(
            spec_find_sub(s, n) as int,
            spec_find_sub(s, n) + n.len() as int,
        ) == n,
    decreases s.len(),
{
    if s.len() >= n.len() && s.take(n.len() as int) != n {
        lemma_find_sub_match(s.drop_first(), n);
        let f = spec_find_sub(s.drop_first(), n) as int;
        if f + n.len() <= s.drop_first().len() {
            assert(s.drop_first().subrange(f, f + n.len() as int) =~= s.subrange(
                f + 1,
                f + 1 + n.len() as int,
            ));
        }
    } else if s.len() >= n.len() {
        assert(s.take(n.len() as int) =~= s.subrange(0, 0 + n.len() as int));
    }
}

} // verus!
verus! {

/// `spec_split` unfolded at the first separator: the piece before it,
/// then the split of what follows it; one piece when there is none.
pub proof fn lemma_split_first_unfold(s: Seq<u8>, sep: u8)
    ensures
        ({
            let f = spec_find(s, sep) as int;
            if f < s.len() {
                spec_split(s, sep) == seq![s.take(f)] + spec_split(s.skip(f + 1), sep)
            } else {
                spec_split(s, sep) == seq![s]
            }
        }),
    decreases s.len(),
{
    lemma_find_props(s, sep);
    if s.len() == 0 {
        assert(spec_split(s, sep) =~~= seq![s]);
    } else {
        let dl = s.drop_last();
        let rest = spec_split(dl, sep);
        lemma_split_nonempty(dl, sep);
        lemma_split_first_unfold(dl, sep);
        lemma_find_props(dl, sep);
        let fd = spec_find(dl, sep) as int;
        if fd < dl.len() {
            // the first separator sits inside the head part
            assert forall|j: int| 0 <= j < fd implies s[j] != sep by {
                assert(dl[j] != sep);
            }
            lemma_find_at(s, sep, fd);
            let f = fd;
            assert(s.take(f) =~= dl.take(f));
            let tail = s.skip(f + 1);
            let dtail = dl.skip(f + 1);
            assert(tail.drop_last() =~= dtail);
            assert(tail.last() == s.last());
            if s.last() == sep {
                assert(spec_split(s, sep) == rest.push(Seq::<u8>::empty()));
                assert(spec_split(tail, sep) == spec_split(dtail, sep).push(
                    Seq::<u8>::empty(),
                ));
                assert(rest.push(Seq::<u8>::empty()) =~~= seq![s.take(f)] + spec_split(
                    tail,
                    sep,
                ));
            } else {
                let b = spec_split(dtail, sep);
                lemma_split_nonempty(dtail, sep);
                assert(spec_split(s, sep) == rest.update(
                    rest.len() - 1,
                    rest.last().push(s.last()),
                ));
                assert(spec_split(tail, sep) == b.update(b.len() - 1, b.last().push(s.last())));
                assert(rest == seq![dl.take(f)] + b);
                assert(rest.last() == b.last());
                assert(rest.update(rest.len() - 1, rest.last().push(s.last())) =~~= seq![
                    s.take(f),
                ] + b.update(b.len() - 1, b.last().push(s.last())));
            }
        } else {
            // no separator in the head part
            assert(rest == seq![dl]);
            if s.last() == sep {
                assert forall|j: int| 0 <= j < dl.len() implies s[j] != sep by {
                    assert(dl[j] != sep);
                }
                lemma_find_at(s, sep, dl.len() as int);
                let f = dl.len() as int;
                assert(s.take(f) =~= dl);
                assert(s.skip(f + 1) =~= Seq::<u8>::empty());
                assert(spec_split(s, sep) == rest.push(Seq::<u8>::empty()));
                assert(spec_split(Seq::<u8>::empty(), sep) =~~= seq![Seq::<u8>::empty()]);
                assert(rest.push(Seq::<u8>::empty()) =~~= seq![s.take(f)] + spec_split(
                    s.skip(f + 1),
                    sep,
                ));
            } else {
                assert forall|j: int| 0 <= j < s.len() implies s[j] != sep by {
                    if j < dl.len() {
                        assert(dl[j] != sep);
                    }
                }
                lemma_find_at(s, sep, s.len() as int);
                assert(spec_split(s, sep) == rest.update(
                    rest.len() - 1,
                    rest.last().push(s.last()),
                ));
                assert(rest.update(0, dl.push(s.last())) =~~= seq![s]) by {
                    assert(dl.push(s.last()) =~= s);
                }
            }
        }
    }
}

} // verus!
