//! Reading text: characters of strings, prefixes and substrings, trimming,
//! splitting at commas, and decimal numbers in fixed point.
use vstd::prelude::*;

verus! {

/// The largest whole part of a decimal that `decimal_value` reads.
pub const MAX_WHOLE: u32 = 100_000;

/// The characters of a string.
pub fn chars_of(s: &str) -> (r: Vec<char>)
    ensures
        r@ == s@,
{
    let n = s.unicode_len();
    let mut out: Vec<char> = Vec::with_capacity(n);
    let mut i: usize = 0;
    while i < n
        invariant
            n == s@.len(),
            i <= n,
            out@ =~= s@.subrange(0, i as int),
        decreases n - i,
    {
        out.push(s.get_char(i));
        i = i + 1;
    }
    out
}

/// Whether `needle` occurs in `hay` at `i`.
pub open spec fn occurs_at(hay: Seq<char>, needle: Seq<char>, i: int) -> bool {
    0 <= i && i + needle.len() <= hay.len() && hay.subrange(i, i + needle.len()) == needle
}

pub open spec fn contains_seq(hay: Seq<char>, needle: Seq<char>) -> bool {
    exists|i: int| occurs_at(hay, needle, i)
}

/// Whether `needle` occurs in `hay`.
pub fn contains_chars(hay: &Vec<char>, needle: &Vec<char>) -> (r: bool)
    ensures
        r == contains_seq(hay@, needle@),
{
    if needle.len() > hay.len() {
        proof {
            assert forall|i: int| !occurs_at(hay@, needle@, i) by {}
        }
        return false;
    }
    let last = hay.len() - needle.len();
    let mut i: usize = 0;
    while i <= last
        invariant
            last == hay@.len() - needle@.len(),
            forall|k: int| 0 <= k < i ==> !occurs_at(hay@, needle@, k),
        decreases last + 1 - i,
    {
        let mut j: usize = 0;
        let mut same = true;
        while j < needle.len()
            invariant
                i <= last,
                last == hay@.len() - needle@.len(),
                needle@.len() <= hay@.len(),
                hay@.len() == hay.len(),
                j <= needle@.len(),
                same == (forall|k: int| 0 <= k < j ==> hay@[i + k] == needle@[k]),
            decreases needle@.len() - j,
        {
            if hay[i + j] != needle[j] {
                same = false;
            }
            j = j + 1;
        }
        if same {
            assert(hay@.subrange(i as int, i + needle@.len()) =~= needle@);
            assert(occurs_at(hay@, needle@, i as int));
            return true;
        }
        proof {
            let k0 = choose|k: int| 0 <= k < needle@.len() && hay@[i + k] != needle@[k];
            assert(hay@.subrange(i as int, i + needle@.len())[k0] != needle@[k0]);
        }
        if i == last {
            proof {
                assert forall|k: int| !occurs_at(hay@, needle@, k) by {
                    if 0 <= k < i {
                    } else if k == i {
                    } else {
                    }
                }
            }
            return false;
        }
        i = i + 1;
    }
    false
}

pub open spec fn starts_with(s: Seq<char>, p: Seq<char>) -> bool {
    p.len() <= s.len() && s.subrange(0, p.len() as int) == p
}

pub fn starts_with_exec(s: &Vec<char>, p: &str) -> (r: bool)
    ensures
        r == starts_with(s@, p@),
{
    let q = chars_of(p);
    if q.len() > s.len() {
        return false;
    }
    let mut i: usize = 0;
    while i < q.len()
        invariant
            q@ == p@,
            q@.len() <= s@.len(),
            i <= q@.len(),
            forall|j: int| 0 <= j < i ==> s@[j] == q@[j],
        decreases q@.len() - i,
    {
        if s[i] != q[i] {
            assert(s@.subrange(0, q@.len() as int)[i as int] != q@[i as int]);
            return false;
        }
        i = i + 1;
    }
    assert(s@.subrange(0, q@.len() as int) =~= q@);
    true
}

/// Whether two strings hold the same characters.
pub fn str_eq(a: &str, b: &str) -> (r: bool)
    ensures
        r == (a@ == b@),
{
    let n = a.unicode_len();
    if n != b.unicode_len() {
        return false;
    }
    let mut i: usize = 0;
    while i < n
        invariant
            n == a@.len(),
            n == b@.len(),
            i <= n,
            forall|j: int| 0 <= j < i ==> a@[j] == b@[j],
        decreases n - i,
    {
        if a.get_char(i) != b.get_char(i) {
            return false;
        }
        i = i + 1;
    }
    assert(a@ =~= b@);
    true
}

pub open spec fn is_digit(c: char) -> bool {
    '0' <= c && c <= '9'
}

pub open spec fn all_digits(s: Seq<char>) -> bool {
    forall|i: int| 0 <= i < s.len() ==> is_digit(#[trigger] s[i])
}

/// The number that a run of decimal digits spells.
pub open spec fn digits_value(s: Seq<char>) -> int
    decreases s.len(),
{
    if s.len() == 0 {
        0
    } else {
        digits_value(s.drop_last()) * 10 + (s.last() as int - '0' as int)
    }
}

/// The digits after a decimal point, in ten-thousandths, truncated.
pub open spec fn fraction_value(f: Seq<char>) -> int {
    if f.len() >= 4 {
        digits_value(f.subrange(0, 4))
    } else if f.len() == 3 {
        digits_value(f) * 10
    } else if f.len() == 2 {
        digits_value(f) * 100
    } else if f.len() == 1 {
        digits_value(f) * 1000
    } else {
        0
    }
}

/// The index of the first `c` in `s` from `i` on.
pub open spec fn find_char(s: Seq<char>, c: char, i: int) -> Option<int>
    decreases s.len() - i,
{
    if i < 0 || i >= s.len() {
        None
    } else if s[i] == c {
        Some(i)
    } else {
        find_char(s, c, i + 1)
    }
}

/// An unsigned decimal in ten-thousandths: digits, optionally a point and
/// more digits, at least one digit in all, and a whole part of at most
/// `MAX_WHOLE`.
pub open spec fn unsigned_value(body: Seq<char>) -> Option<int> {
    let (whole, frac) = match find_char(body, '.', 0) {
        Some(p) => (body.subrange(0, p), body.subrange(p + 1, body.len() as int)),
        None => (body, Seq::<char>::empty()),
    };
    if all_digits(whole) && all_digits(frac) && whole.len() + frac.len() > 0 && digits_value(whole) <= MAX_WHOLE {
        Some(digits_value(whole) * 10_000 + fraction_value(frac))
    } else {
        None
    }
}

/// A decimal with an optional sign, in ten-thousandths.
pub open spec fn decimal_value(s: Seq<char>) -> Option<int> {
    if s.len() > 0 && s[0] == '-' {
        match unsigned_value(s.subrange(1, s.len() as int)) {
            Some(v) => Some(-v),
            None => None,
        }
    } else if s.len() > 0 && s[0] == '+' {
        unsigned_value(s.subrange(1, s.len() as int))
    } else {
        unsigned_value(s)
    }
}

pub open spec fn trim_start(s: Seq<char>) -> Seq<char>
    decreases s.len(),
{
    if s.len() > 0 && s[0] == ' ' {
        trim_start(s.drop_first())
    } else {
        s
    }
}

pub open spec fn trim_end(s: Seq<char>) -> Seq<char>
    decreases s.len(),
{
    if s.len() > 0 && s.last() == ' ' {
        trim_end(s.drop_last())
    } else {
        s
    }
}

/// `s` without spaces at either end.
pub open spec fn trim(s: Seq<char>) -> Seq<char> {
    trim_end(trim_start(s))
}

/// `s` cut at every comma.
pub open spec fn split_commas(s: Seq<char>) -> Seq<Seq<char>>
    decreases s.len(),
{
    if s.len() == 0 {
        seq![Seq::<char>::empty()]
    } else {
        let prev = split_commas(s.drop_last());
        if s.last() == ',' {
            prev.push(Seq::<char>::empty())
        } else {
            prev.update(prev.len() - 1, prev.last().push(s.last()))
        }
    }
}

proof fn lemma_digits_value_prefix(s: Seq<char>, k: int)
    requires
        all_digits(s),
        0 <= k <= s.len(),
    ensures
        digits_value(s) >= digits_value(s.subrange(0, k)),
        digits_value(s) >= 0,
    decreases s.len(),
{
    if s.len() > 0 {
        assert(all_digits(s.drop_last())) by {
            assert forall|i: int| 0 <= i < s.drop_last().len() implies is_digit(#[trigger] s.drop_last()[i]) by {
                assert(s.drop_last()[i] == s[i]);
            }
        }
        assert(is_digit(s[s.len() - 1]));
        if k == s.len() {
            assert(s.subrange(0, k) =~= s);
            lemma_digits_value_prefix(s.drop_last(), 0);
        } else {
            assert(s.drop_last().subrange(0, k) =~= s.subrange(0, k));
            lemma_digits_value_prefix(s.drop_last(), k);
        }
    } else {
        assert(s.subrange(0, k) =~= s);
    }
}

/// The value of the digits `s[lo..hi]`, or `None` when they are not all
/// digits or spell more than `limit`.
pub fn digits_value_exec(s: &Vec<char>, lo: usize, hi: usize, limit: u32) -> (r: Option<u32>)
    requires
        lo <= hi <= s@.len(),
    ensures
        r matches Some(v) ==> all_digits(s@.subrange(lo as int, hi as int)) && v == digits_value(
            s@.subrange(lo as int, hi as int),
        ) && v <= limit,
        r is None ==> !(all_digits(s@.subrange(lo as int, hi as int)) && digits_value(
            s@.subrange(lo as int, hi as int),
        ) <= limit),
{
    let ghost full = s@.subrange(lo as int, hi as int);
    let mut acc: u32 = 0;
    let mut i: usize = lo;
    while i < hi
        invariant
            lo <= i <= hi,
            hi <= s@.len(),
            full == s@.subrange(lo as int, hi as int),
            all_digits(s@.subrange(lo as int, i as int)),
            acc == digits_value(s@.subrange(lo as int, i as int)),
            acc <= limit,
        decreases hi - i,
    {
        let c = s[i];
        let ghost next = s@.subrange(lo as int, i + 1);
        assert(next.drop_last() =~= s@.subrange(lo as int, i as int));
        if !('0' <= c && c <= '9') {
            assert(!is_digit(full[i - lo]));
            return None;
        }
        let d = c as u32 - '0' as u32;
        assert(all_digits(next)) by {
            assert forall|j: int| 0 <= j < next.len() implies is_digit(#[trigger] next[j]) by {
                if j < next.len() - 1 {
                    assert(next[j] == s@.subrange(lo as int, i as int)[j]);
                }
            }
        }
        if (acc as u64) * 10 + (d as u64) > limit as u64 {
            proof {
                if all_digits(full) {
                    assert(full.subrange(0, i + 1 - lo) =~= next);
                    lemma_digits_value_prefix(full, i + 1 - lo);
                }
            }
            return None;
        }
        acc = acc * 10 + d;
        i = i + 1;
    }
    Some(acc)
}

fn all_digits_exec(s: &Vec<char>, lo: usize, hi: usize) -> (r: bool)
    requires
        lo <= hi <= s@.len(),
    ensures
        r == all_digits(s@.subrange(lo as int, hi as int)),
{
    let ghost t = s@.subrange(lo as int, hi as int);
    let mut i: usize = lo;
    while i < hi
        invariant
            lo <= i <= hi,
            hi <= s@.len(),
            t == s@.subrange(lo as int, hi as int),
            forall|j: int| 0 <= j < i - lo ==> is_digit(#[trigger] t[j]),
        decreases hi - i,
    {
        let c = s[i];
        if !('0' <= c && c <= '9') {
            assert(!is_digit(t[i - lo]));
            return false;
        }
        assert(is_digit(t[i - lo]));
        i = i + 1;
    }
    true
}

fn find_char_exec(s: &Vec<char>, c: char, lo: usize, hi: usize) -> (r: Option<usize>)
    requires
        lo <= hi <= s@.len(),
    ensures
        r matches Some(p) ==> lo <= p < hi && find_char(s@.subrange(lo as int, hi as int), c, 0) == Some(p - lo),
        r is None ==> find_char(s@.subrange(lo as int, hi as int), c, 0) is None,
{
    let ghost t = s@.subrange(lo as int, hi as int);
    let mut i: usize = lo;
    while i < hi
        invariant
            lo <= i <= hi,
            hi <= s@.len(),
            t == s@.subrange(lo as int, hi as int),
            find_char(t, c, 0) == find_char(t, c, i - lo),
        decreases hi - i,
    {
        if s[i] == c {
            assert(t[i - lo] == c);
            return Some(i);
        }
        assert(t[i - lo] != c);
        i = i + 1;
    }
    None
}

proof fn lemma_sub_sub(s: Seq<char>, lo: int, hi: int, a: int, b: int)
    requires
        0 <= lo <= hi <= s.len(),
        0 <= a <= b <= hi - lo,
    ensures
        s.subrange(lo, hi).subrange(a, b) == s.subrange(lo + a, lo + b),
{
    assert(s.subrange(lo, hi).subrange(a, b) =~= s.subrange(lo + a, lo + b));
}

/// The value of the unsigned decimal `s[lo..hi]`; see `unsigned_value`.
fn unsigned_value_exec(s: &Vec<char>, lo: usize, hi: usize) -> (r: Option<u32>)
    requires
        lo <= hi <= s@.len(),
    ensures
        r matches Some(v) ==> unsigned_value(s@.subrange(lo as int, hi as int)) == Some(v as int),
        r is None ==> unsigned_value(s@.subrange(lo as int, hi as int)) is None,
        r matches Some(v) ==> v <= MAX_WHOLE * 10_000 + 9_999,
{
    let ghost body = s@.subrange(lo as int, hi as int);
    let (whole_end, frac_start) = match find_char_exec(s, '.', lo, hi) {
        Some(p) => (p, p + 1),
        None => (hi, hi),
    };
    proof {
        lemma_sub_sub(s@, lo as int, hi as int, 0, whole_end - lo);
        lemma_sub_sub(s@, lo as int, hi as int, frac_start - lo, hi - lo);
    }
    let ghost whole = s@.subrange(lo as int, whole_end as int);
    let ghost frac = s@.subrange(frac_start as int, hi as int);
    assert(find_char(body, '.', 0) is None ==> frac =~= Seq::<char>::empty());
    let w = match digits_value_exec(s, lo, whole_end, MAX_WHOLE) {
        Some(w) => w,
        None => {
            return None;
        },
    };
    let frac_len = hi - frac_start;
    let cut = if frac_len >= 4 { frac_start + 4 } else { hi };
    if !all_digits_exec(s, frac_start, hi) {
        return None;
    }
    let f = match digits_value_exec(s, frac_start, cut, 9_999) {
        Some(f) => f,
        None => {
            proof {
                lemma_sub_sub(s@, frac_start as int, hi as int, 0, cut - frac_start);
                assert(frac.subrange(0, cut - frac_start) =~= s@.subrange(frac_start as int, cut as int));
                assert forall|j: int| 0 <= j < cut - frac_start implies is_digit(#[trigger] s@.subrange(frac_start as int, cut as int)[j]) by {
                    assert(s@.subrange(frac_start as int, cut as int)[j] == frac[j]);
                }
                lemma_short_digits_bound(s@.subrange(frac_start as int, cut as int));
            }
            return None;
        },
    };
    if whole_end - lo + frac_len == 0 {
        return None;
    }
    let scaled: u32 = if frac_len >= 4 {
        f
    } else if frac_len == 3 {
        f * 10
    } else if frac_len == 2 {
        f * 100
    } else if frac_len == 1 {
        f * 1000
    } else {
        0
    };
    proof {
        if frac_len >= 4 {
            assert(frac.subrange(0, 4) =~= s@.subrange(frac_start as int, cut as int));
        } else {
            assert(frac =~= s@.subrange(frac_start as int, cut as int));
        }
        lemma_short_digits_bound(s@.subrange(frac_start as int, cut as int));
    }
    Some(w * 10_000 + scaled)
}

/// Up to four digits spell less than ten thousand, and so many less by a
/// power of ten for each digit short of four.
proof fn lemma_short_digits_bound(s: Seq<char>)
    requires
        all_digits(s),
        s.len() <= 4,
    ensures
        0 <= digits_value(s),
        s.len() == 0 ==> digits_value(s) == 0,
        s.len() <= 1 ==> digits_value(s) <= 9,
        s.len() <= 2 ==> digits_value(s) <= 99,
        s.len() <= 3 ==> digits_value(s) <= 999,
        digits_value(s) <= 9_999,
    decreases s.len(),
{
    if s.len() > 0 {
        assert(all_digits(s.drop_last())) by {
            assert forall|i: int| 0 <= i < s.drop_last().len() implies is_digit(#[trigger] s.drop_last()[i]) by {
                assert(s.drop_last()[i] == s[i]);
            }
        }
        assert(is_digit(s[s.len() - 1]));
        lemma_short_digits_bound(s.drop_last());
    }
}

/// The value of a signed decimal; see `decimal_value`.
pub fn decimal_value_exec(s: &Vec<char>) -> (r: Option<i32>)
    ensures
        r matches Some(v) ==> decimal_value(s@) == Some(v as int),
        r is None ==> decimal_value(s@) is None,
{
    let n = s.len();
    assert(s@.subrange(0, n as int) =~= s@);
    if n > 0 && (s[0] == '-' || s[0] == '+') {
        match unsigned_value_exec(s, 1, n) {
            Some(v) => if s[0] == '-' {
                Some(-(v as i32))
            } else {
                Some(v as i32)
            },
            None => None,
        }
    } else {
        match unsigned_value_exec(s, 0, n) {
            Some(v) => Some(v as i32),
            None => None,
        }
    }
}

proof fn lemma_trim_start_skip(s: Seq<char>, i: int)
    requires
        0 <= i < s.len(),
        s[i] == ' ',
    ensures
        trim_start(s.subrange(i, s.len() as int)) == trim_start(s.subrange(i + 1, s.len() as int)),
{
    assert(s.subrange(i, s.len() as int).drop_first() =~= s.subrange(i + 1, s.len() as int));
}

proof fn lemma_trim_end_skip(s: Seq<char>, j: int)
    requires
        0 < j <= s.len(),
        s[j - 1] == ' ',
    ensures
        trim_end(s.subrange(0, j)) == trim_end(s.subrange(0, j - 1)),
{
    assert(s.subrange(0, j).drop_last() =~= s.subrange(0, j - 1));
}

/// `s` without spaces at either end.
pub fn trim_exec(s: &Vec<char>) -> (r: Vec<char>)
    ensures
        r@ == trim(s@),
{
    let n = s.len();
    let mut lo: usize = 0;
    assert(s@.subrange(0, n as int) =~= s@);
    while lo < n && s[lo] == ' '
        invariant
            lo <= n,
            n == s@.len(),
            trim_start(s@) == trim_start(s@.subrange(lo as int, n as int)),
        decreases n - lo,
    {
        proof {
            lemma_trim_start_skip(s@, lo as int);
        }
        lo = lo + 1;
    }
    let ghost rest = s@.subrange(lo as int, n as int);
    assert(trim_start(rest) == rest);
    let mut hi: usize = n;
    assert(rest.subrange(0, (hi - lo) as int) =~= rest);
    while hi > lo && s[hi - 1] == ' '
        invariant
            lo <= hi <= n,
            n == s@.len(),
            rest == s@.subrange(lo as int, n as int),
            trim_end(rest) == trim_end(rest.subrange(0, hi - lo)),
        decreases hi - lo,
    {
        proof {
            lemma_trim_end_skip(rest, hi - lo);
        }
        hi = hi - 1;
    }
    let mut out: Vec<char> = Vec::with_capacity(hi - lo);
    let mut i: usize = lo;
    while i < hi
        invariant
            lo <= i <= hi <= n,
            n == s@.len(),
            out@ =~= s@.subrange(lo as int, i as int),
        decreases hi - i,
    {
        out.push(s[i]);
        i = i + 1;
    }
    assert(rest.subrange(0, hi - lo) =~= out@);
    out
}

/// `s[lo..hi]` cut at every comma.
pub fn split_commas_exec(s: &Vec<char>, lo: usize, hi: usize) -> (r: Vec<Vec<char>>)
    requires
        lo <= hi <= s@.len(),
    ensures
        r@.len() == split_commas(s@.subrange(lo as int, hi as int)).len(),
        forall|j: int| 0 <= j < r@.len() ==> #[trigger] r@[j]@ == split_commas(s@.subrange(lo as int, hi as int))[j],
{
    let mut done: Vec<Vec<char>> = Vec::new();
    let ghost mut views: Seq<Seq<char>> = Seq::empty();
    let mut cur: Vec<char> = Vec::new();
    let mut i: usize = lo;
    assert(s@.subrange(lo as int, lo as int) =~= Seq::<char>::empty());
    while i < hi
        invariant
            lo <= i <= hi <= s@.len(),
            done@.len() == views.len(),
            forall|j: int| 0 <= j < done@.len() ==> #[trigger] done@[j]@ == views[j],
            split_commas(s@.subrange(lo as int, i as int)) == views.push(cur@),
        decreases hi - i,
    {
        let ghost prefix = s@.subrange(lo as int, i + 1);
        assert(prefix.drop_last() =~= s@.subrange(lo as int, i as int));
        let c = s[i];
        if c == ',' {
            proof {
                views = views.push(cur@);
            }
            done.push(cur);
            cur = Vec::new();
            assert(split_commas(prefix) =~= views.push(cur@));
        } else {
            let ghost before = cur@;
            cur.push(c);
            assert(split_commas(prefix) =~= views.push(cur@)) by {
                let prev = split_commas(prefix.drop_last());
                assert(prev == views.push(before));
                assert(prev.update(prev.len() - 1, prev.last().push(c)) =~= views.push(cur@));
            }
        }
        i = i + 1;
    }
    proof {
        views = views.push(cur@);
    }
    done.push(cur);
    done
}

} // verus!
