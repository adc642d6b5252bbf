//! Byte-sequence helpers shared by the decoder and the encoder: searching for
//! a delimiter, ASCII case folding, whitespace trimming and copying.
use vstd::prelude::*;

verus! {

/// The pattern `pat` occurs in `s` starting at index `i`.
pub open spec fn matches_at(s: Seq<u8>, i: int, pat: Seq<u8>) -> bool {
    0 <= i && i + pat.len() <= s.len() && s.subrange(i, i + pat.len()) == pat
}

/// Index of the first occurrence of `pat` in `s` at or after `from`.
pub open spec fn find_from(s: Seq<u8>, from: int, pat: Seq<u8>) -> Option<int>
    decreases s.len() + 1 - from,
{
    if from < 0 || from + pat.len() > s.len() {
        None
    } else if matches_at(s, from, pat) {
        Some(from)
    } else {
        find_from(s, from + 1, pat)
    }
}

/// A found occurrence lies inside the searched range and really matches.
pub proof fn lemma_find_from_sound(s: Seq<u8>, from: int, pat: Seq<u8>)
    ensures
        match find_from(s, from, pat) {
            Some(i) => from <= i && matches_at(s, i, pat),
            None => true,
        },
    decreases s.len() + 1 - from,
{
    if from < 0 || from + pat.len() > s.len() {
    } else if matches_at(s, from, pat) {
    } else {
        lemma_find_from_sound(s, from + 1, pat);
    }
}

/// Appending bytes after a found occurrence does not move it.
pub proof fn lemma_find_from_extend(s: Seq<u8>, t: Seq<u8>, from: int, pat: Seq<u8>)
    requires
        find_from(s, from, pat) is Some,
    ensures
        find_from(s + t, from, pat) == find_from(s, from, pat),
    decreases s.len() + 1 - from,
{
    let st = s + t;
    if matches_at(s, from, pat) {
        assert(st.subrange(from, from + pat.len()) =~= s.subrange(from, from + pat.len()));
    } else {
        if from + pat.len() <= s.len() {
            assert(st.subrange(from, from + pat.len()) =~= s.subrange(from, from + pat.len()));
        }
        lemma_find_from_extend(s, t, from + 1, pat);
    }
}

/// Finds the first occurrence of `pat` in `s` at or after `from`.
pub fn find(s: &[u8], from: usize, pat: &[u8]) -> (r: Option<usize>)
    ensures
        r matches Some(i) ==> find_from(s@, from as int, pat@) == Some(i as int),
        r is None ==> find_from(s@, from as int, pat@) is None,
{
    let n = s.len();
    let m = pat.len();
    if m > n {
        assert(find_from(s@, from as int, pat@) is None) by {
            lemma_none_past_end(s@, from as int, pat@);
        }
        return None;
    }
    let mut i: usize = from;
    while i <= n - m
        invariant
            m <= n,
            n == s@.len(),
            m == pat@.len(),
            from <= i,
            find_from(s@, from as int, pat@) == find_from(s@, i as int, pat@),
        decreases n - i,
    {
        let mut j: usize = 0;
        let mut ok = true;
        while j < m
            invariant
                i + m <= n,
                n == s@.len(),
                m == pat@.len(),
                j <= m,
                ok == (forall|k: int| 0 <= k < j ==> s@[i + k] == pat@[k]),
            decreases m - j,
        {
            if s[i + j] != pat[j] {
                ok = false;
            }
            j = j + 1;
        }
        if ok {
            assert(s@.subrange(i as int, i + m) =~= pat@);
            return Some(i);
        }
        assert(!matches_at(s@, i as int, pat@)) by {
            if matches_at(s@, i as int, pat@) {
                assert forall|k: int| 0 <= k < m implies s@[i + k] == pat@[k] by {
                    assert(s@.subrange(i as int, i + m)[k] == s@[i + k]);
                }
            }
        }
        i = i + 1;
    }
    proof {
        lemma_none_past_end(s@, i as int, pat@);
    }
    None
}

/// Searching a prefix of `s` finds the same first occurrence when it lies
/// wholly inside the prefix, and nothing otherwise.
pub proof fn lemma_find_from_prefix(s: Seq<u8>, k: int, from: int, pat: Seq<u8>)
    requires
        0 <= k <= s.len(),
        0 <= from,
    ensures
        find_from(s.subrange(0, k), from, pat) == match find_from(s, from, pat) {
            Some(i) => if i + pat.len() <= k {
                Some(i)
            } else {
                None
            },
            None => None,
        },
    decreases s.len() + 1 - from,
{
    let p = s.subrange(0, k);
    lemma_find_from_sound(s, from, pat);
    if from + pat.len() > k {
        lemma_none_past_end(p, from, pat);
    } else {
        assert(p.subrange(from, from + pat.len()) =~= s.subrange(from, from + pat.len()));
        if !matches_at(s, from, pat) {
            lemma_find_from_prefix(s, k, from + 1, pat);
        }
    }
}

proof fn lemma_none_past_end(s: Seq<u8>, from: int, pat: Seq<u8>)
    requires
        from + pat.len() > s.len(),
    ensures
        find_from(s, from, pat) is None,
{
}

/// ASCII lower-casing of one byte; other bytes are unchanged.
pub open spec fn ascii_lower(b: u8) -> u8 {
    if 65 <= b && b <= 90 {
        (b + 32) as u8
    } else {
        b
    }
}

/// ASCII lower-casing of a byte sequence.
pub open spec fn fold_case(s: Seq<u8>) -> Seq<u8> {
    s.map_values(|b: u8| ascii_lower(b))
}

pub fn lower_byte(b: u8) -> (r: u8)
    ensures
        r == ascii_lower(b),
{
    if 65 <= b && b <= 90 {
        b + 32
    } else {
        b
    }
}

/// Whether two byte sequences are equal up to ASCII case.
pub fn eq_ignore_case(a: &[u8], b: &[u8]) -> (r: bool)
    ensures
        r == (fold_case(a@) == fold_case(b@)),
{
    if a.len() != b.len() {
        assert(fold_case(a@).len() != fold_case(b@).len());
        return false;
    }
    let mut i: usize = 0;
    while i < a.len()
        invariant
            a@.len() == b@.len(),
            i <= a@.len(),
            forall|k: int| 0 <= k < i ==> ascii_lower(a@[k]) == ascii_lower(b@[k]),
        decreases a@.len() - i,
    {
        if lower_byte(a[i]) != lower_byte(b[i]) {
            assert(fold_case(a@)[i as int] != fold_case(b@)[i as int]);
            return false;
        }
        i = i + 1;
    }
    assert(fold_case(a@) =~= fold_case(b@));
    true
}

/// Lower-cases the ASCII letters of `s`.
pub fn to_lower(s: &[u8]) -> (r: Vec<u8>)
    ensures
        r@ == fold_case(s@),
{
    let mut r: Vec<u8> = Vec::new();
    let mut i: usize = 0;
    while i < s.len()
        invariant
            i <= s@.len(),
            r@ =~= fold_case(s@.subrange(0, i as int)),
        decreases s@.len() - i,
    {
        r.push(lower_byte(s[i]));
        i = i + 1;
        assert(fold_case(s@.subrange(0, i as int)) =~= fold_case(s@.subrange(0, i - 1)).push(
            ascii_lower(s@[i - 1]),
        ));
    }
    assert(s@.subrange(0, s@.len() as int) =~= s@);
    r
}

/// The bytes that trimming treats as white space: the ASCII white-space
/// characters space, tab, line feed, vertical tab, form feed and carriage
/// return.
pub open spec fn is_space(b: u8) -> bool {
    b == 32 || b == 9 || b == 10 || b == 11 || b == 12 || b == 13
}

/// `s` without its leading white space.
pub open spec fn trim_start(s: Seq<u8>) -> Seq<u8>
    decreases s.len(),
{
    if s.len() > 0 && is_space(s[0]) {
        trim_start(s.drop_first())
    } else {
        s
    }
}

/// `s` without its trailing white space.
pub open spec fn trim_end(s: Seq<u8>) -> Seq<u8>
    decreases s.len(),
{
    if s.len() > 0 && is_space(s.last()) {
        trim_end(s.drop_last())
    } else {
        s
    }
}

/// `s` without leading and trailing white space.
pub open spec fn trim(s: Seq<u8>) -> Seq<u8> {
    trim_end(trim_start(s))
}

/// Copies `s[start..end]` into a new vector.
pub fn copy_range(s: &[u8], start: usize, end: usize) -> (r: Vec<u8>)
    requires
        start <= end <= s@.len(),
    ensures
        r@ == s@.subrange(start as int, end as int),
{
    let mut r: Vec<u8> = Vec::new();
    let mut i: usize = start;
    while i < end
        invariant
            start <= i <= end,
            end <= s@.len(),
            r@ =~= s@.subrange(start as int, i as int),
        decreases end - i,
    {
        r.push(s[i]);
        i = i + 1;
        assert(r@ =~= s@.subrange(start as int, i as int));
    }
    r
}

/// Removes leading and trailing white space.
pub fn trim_bytes(s: &[u8]) -> (r: Vec<u8>)
    ensures
        r@ == trim(s@),
{
    let n = s.len();
    let mut i: usize = 0;
    assert(s@.subrange(0, n as int) =~= s@);
    while i < n && is_space_byte(s[i])
        invariant
            i <= n,
            n == s@.len(),
            trim_start(s@) == trim_start(s@.subrange(i as int, n as int)),
        decreases n - i,
    {
        assert(s@.subrange(i as int, n as int).drop_first() =~= s@.subrange(i + 1, n as int));
        i = i + 1;
    }
    assert(trim_start(s@.subrange(i as int, n as int)) == s@.subrange(i as int, n as int));
    let mut j: usize = n;
    while j > i && is_space_byte(s[j - 1])
        invariant
            i <= j <= n,
            n == s@.len(),
            trim(s@) == trim_end(s@.subrange(i as int, j as int)),
        decreases j,
    {
        assert(s@.subrange(i as int, j as int).drop_last() =~= s@.subrange(i as int, j - 1));
        j = j - 1;
    }
    copy_range(s, i, j)
}

pub fn is_space_byte(b: u8) -> (r: bool)
    ensures
        r == is_space(b),
{
    b == 32 || b == 9 || b == 10 || b == 11 || b == 12 || b == 13
}

/// Appends all of `src` to `dst`.
pub fn append_bytes(dst: &mut Vec<u8>, src: &[u8])
    ensures
        final(dst)@ == old(dst)@ + src@,
{
    let mut i: usize = 0;
    while i < src.len()
        invariant
            i <= src@.len(),
            dst@ =~= old(dst)@ + src@.subrange(0, i as int),
        decreases src@.len() - i,
    {
        dst.push(src[i]);
        i = i + 1;
        assert(dst@ =~= old(dst)@ + src@.subrange(0, i as int));
    }
    assert(src@.subrange(0, src@.len() as int) =~= src@);
}

/// Whether two byte sequences are equal.
pub fn bytes_equal(a: &[u8], b: &[u8]) -> (r: bool)
    ensures
        r == (a@ == b@),
{
    if a.len() != b.len() {
        return false;
    }
    let mut i: usize = 0;
    while i < a.len()
        invariant
            a@.len() == b@.len(),
            i <= a@.len(),
            forall|k: int| 0 <= k < i ==> a@[k] == b@[k],
        decreases a@.len() - i,
    {
        if a[i] != b[i] {
            return false;
        }
        i = i + 1;
    }
    assert(a@ =~= b@);
    true
}

/// Folding case twice is the same as folding it once.
pub proof fn lemma_fold_idempotent(s: Seq<u8>)
    ensures
        fold_case(fold_case(s)) == fold_case(s),
{
    assert(fold_case(fold_case(s)) =~= fold_case(s));
}

/// An ASCII decimal digit.
pub open spec fn is_digit(b: u8) -> bool {
    48 <= b && b <= 57
}

/// The number written by a sequence of decimal digits.
pub open spec fn digits_value(s: Seq<u8>) -> int
    decreases s.len(),
{
    if s.len() == 0 {
        0
    } else {
        digits_value(s.drop_last()) * 10 + (s.last() - 48)
    }
}

/// The value of a non-empty run of decimal digits that fits in `usize`.
pub open spec fn decimal(s: Seq<u8>) -> Option<int> {
    if s.len() > 0 && (forall|i: int| 0 <= i < s.len() ==> is_digit(#[trigger] s[i]))
        && digits_value(s) <= usize::MAX {
        Some(digits_value(s))
    } else {
        None
    }
}

proof fn lemma_digits_monotone(s: Seq<u8>, j: int)
    requires
        0 <= j <= s.len(),
        forall|i: int| 0 <= i < s.len() ==> is_digit(#[trigger] s[i]),
    ensures
        digits_value(s.subrange(0, j)) <= digits_value(s),
    decreases s.len(),
{
    if j < s.len() {
        let p = s.drop_last();
        assert(p.subrange(0, j) =~= s.subrange(0, j));
        assert forall|i: int| 0 <= i < p.len() implies is_digit(#[trigger] p[i]) by {
            assert(p[i] == s[i]);
        }
        lemma_digits_monotone(p, j);
        assert(digits_value(p) >= 0) by {
            lemma_digits_nonneg(p);
        }
    } else {
        assert(s.subrange(0, j) =~= s);
    }
}

pub proof fn lemma_digits_nonneg(s: Seq<u8>)
    requires
        forall|i: int| 0 <= i < s.len() ==> is_digit(#[trigger] s[i]),
    ensures
        digits_value(s) >= 0,
    decreases s.len(),
{
    if s.len() > 0 {
        let p = s.drop_last();
        assert forall|i: int| 0 <= i < p.len() implies is_digit(#[trigger] p[i]) by {
            assert(p[i] == s[i]);
        }
        lemma_digits_nonneg(p);
    }
}

/// Parses a non-empty run of ASCII decimal digits into a `usize`.
pub fn parse_decimal(s: &[u8]) -> (r: Option<usize>)
    ensures
        r matches Some(n) ==> decimal(s@) == Some(n as int),
        r is None ==> decimal(s@) is None,
{
    let n = s.len();
    if n == 0 {
        return None;
    }
    let mut k: usize = 0;
    while k < n
        invariant
            k <= n,
            n == s@.len(),
            forall|i: int| 0 <= i < k ==> is_digit(#[trigger] s@[i]),
        decreases n - k,
    {
        if !(48 <= s[k] && s[k] <= 57) {
            assert(!is_digit(s@[k as int]));
            return None;
        }
        k = k + 1;
    }
    let mut acc: usize = 0;
    let mut i: usize = 0;
    assert(s@.subrange(0, 0) =~= Seq::<u8>::empty());
    while i < n
        invariant
            i <= n,
            n == s@.len(),
            forall|j: int| 0 <= j < n ==> is_digit(#[trigger] s@[j]),
            acc == digits_value(s@.subrange(0, i as int)),
        decreases n - i,
    {
        let d = (s[i] - 48) as usize;
        assert(s@.subrange(0, i + 1).drop_last() =~= s@.subrange(0, i as int));
        match acc.checked_mul(10) {
            None => {
                proof {
                    lemma_digits_monotone(s@, i + 1);
                }
                return None;
            },
            Some(t) => match t.checked_add(d) {
                None => {
                    proof {
                        lemma_digits_monotone(s@, i + 1);
                    }
                    return None;
                },
                Some(v) => {
                    acc = v;
                },
            },
        }
        i = i + 1;
    }
    assert(s@.subrange(0, n as int) =~= s@);
    Some(acc)
}

} // verus!
