use vstd::prelude::*;
use vstd::string::StringSliceAdditionalSpecFns;

verus! {

/// Value of digit `c` in base `radix` (10 or 16), or -1 when `c` is not one.
pub open spec fn digit_val(c: u8, radix: int) -> int {
    if 48 <= c <= 57 {
        c - 48
    } else if radix == 16 && 97 <= c <= 102 {
        c - 87
    } else if radix == 16 && 65 <= c <= 70 {
        c - 55
    } else {
        -1
    }
}

/// Value of a string of digits in base `radix`.
pub open spec fn digits_value(s: Seq<u8>, radix: int) -> int
    decreases s.len(),
{
    if s.len() == 0 {
        0
    } else {
        digits_value(s.drop_last(), radix) * radix + digit_val(s.last(), radix)
    }
}

pub open spec fn all_digits(s: Seq<u8>, radix: int) -> bool {
    forall|i: int| 0 <= i < s.len() ==> digit_val(#[trigger] s[i], radix) >= 0
}

/// An unsigned number in base `radix`: an optional `+`, then one or more
/// digits; `None` for anything else.
pub open spec fn unsigned_of(s: Seq<u8>, radix: int) -> Option<int> {
    let body = if s.len() > 0 && s[0] == 43 {
        s.subrange(1, s.len() as int)
    } else {
        s
    };
    if body.len() > 0 && all_digits(body, radix) {
        Some(digits_value(body, radix))
    } else {
        None
    }
}

/// `v` when it fits in `usize`.
pub open spec fn fit_usize(v: Option<int>) -> Option<usize> {
    match v {
        Some(x) => if 0 <= x <= usize::MAX {
            Some(x as usize)
        } else {
            None
        },
        None => None,
    }
}

fn digit_exec(c: u8, radix: usize) -> (r: Option<usize>)
    requires
        radix == 10 || radix == 16,
    ensures
        match r {
            Some(d) => d == digit_val(c, radix as int) && d < radix,
            None => digit_val(c, radix as int) < 0,
        },
{
    if 48 <= c && c <= 57 {
        Some((c - 48) as usize)
    } else if radix == 16 && 97 <= c && c <= 102 {
        Some((c - 87) as usize)
    } else if radix == 16 && 65 <= c && c <= 70 {
        Some((c - 55) as usize)
    } else {
        None
    }
}

/// Parse an unsigned number in base 10 or 16 (optional `+`, then digits),
/// failing on any other character, on no digits, and on overflow.
pub fn parse_unsigned(s: &[u8], radix: usize) -> (r: Option<usize>)
    requires
        radix == 10 || radix == 16,
    ensures
        r == fit_usize(unsigned_of(s@, radix as int)),
{
    let n = s.len();
    let start: usize = if n > 0 && s[0] == 43 { 1 } else { 0 };
    let ghost body = if s@.len() > 0 && s@[0] == 43 { s@.subrange(1, s@.len() as int) } else { s@ };
    assert(body =~= s@.subrange(start as int, n as int));
    if start >= n {
        return None;
    }
    let mut acc: usize = 0;
    let mut overflow = false;
    let mut i: usize = start;
    while i < n
        invariant
            start <= i <= n,
            n == s@.len(),
            body == s@.subrange(start as int, n as int),
            body == (if s@.len() > 0 && s@[0] == 43 { s@.subrange(1, s@.len() as int) } else { s@ }),
            radix == 10 || radix == 16,
            all_digits(s@.subrange(start as int, i as int), radix as int),
            !overflow ==> acc == digits_value(s@.subrange(start as int, i as int), radix as int),
            overflow ==> digits_value(s@.subrange(start as int, i as int), radix as int) > usize::MAX,
            digits_value(s@.subrange(start as int, i as int), radix as int) >= 0,
        decreases n - i,
    {
        let ghost pre = s@.subrange(start as int, i as int);
        let ghost next = s@.subrange(start as int, i + 1);
        assert(next.drop_last() =~= pre);
        assert(next.last() == s@[i as int]);
        match digit_exec(s[i], radix) {
            Some(d) => {
                if !overflow {
                    let bound = (usize::MAX - d) / radix;
                    if acc > bound {
                        assert(acc * radix + d > usize::MAX) by (nonlinear_arith)
                            requires acc > bound, bound == (usize::MAX - d) / (radix as int), radix > 0, d < radix;
                        overflow = true;
                    } else {
                        assert(acc * radix + d <= usize::MAX) by (nonlinear_arith)
                            requires acc <= bound, bound == (usize::MAX - d) / (radix as int), radix > 0, d <= usize::MAX;
                        acc = acc * radix + d;
                    }
                } else {
                    let ghost v = digits_value(pre, radix as int);
                    assert(v * radix + d > usize::MAX) by (nonlinear_arith)
                        requires v > usize::MAX, radix >= 10, d >= 0;
                }
                assert forall|k: int| 0 <= k < next.len() implies digit_val(#[trigger] next[k], radix as int)
                    >= 0 by {
                    if k < pre.len() {
                        assert(next[k] == pre[k]);
                    }
                }
                assert(digits_value(pre, radix as int) * radix >= 0) by (nonlinear_arith)
                    requires digits_value(pre, radix as int) >= 0, radix > 0;
            },
            None => {
                let ghost w = (i - start) as int;
                assert(0 <= w < body.len());
                assert(body[w] == s@[i as int]);
                assert(digit_val(body[w], radix as int) < 0);
                assert(!all_digits(body, radix as int));
                let ghost b2 = if s@.len() > 0 && s@[0] == 43 { s@.subrange(1, s@.len() as int) } else { s@ };
                assert(b2 == body);
                assert(unsigned_of(s@, radix as int) is None);
                return None;
            },
        }
        i = i + 1;
    }
    assert(s@.subrange(start as int, n as int) == body);
    if overflow {
        None
    } else {
        Some(acc)
    }
}

/// Whether `c` is ASCII white space (space, tab, line feed, vertical tab,
/// form feed, carriage return).
pub open spec fn is_ws(c: u8) -> bool {
    c == 32 || (9 <= c <= 13)
}

/// Upper-case of an ASCII letter; other bytes unchanged.
pub open spec fn ascii_upper(c: u8) -> u8 {
    if 97 <= c <= 122 {
        (c - 32) as u8
    } else {
        c
    }
}

pub open spec fn trim_start_ws(s: Seq<u8>) -> Seq<u8>
    decreases s.len(),
{
    if s.len() > 0 && is_ws(s[0]) {
        trim_start_ws(s.drop_first())
    } else {
        s
    }
}

pub open spec fn trim_end_ws(s: Seq<u8>) -> Seq<u8>
    decreases s.len(),
{
    if s.len() > 0 && is_ws(s.last()) {
        trim_end_ws(s.drop_last())
    } else {
        s
    }
}

/// `s` without its trailing bytes whose upper case is `u`.
pub open spec fn trim_end_upper(s: Seq<u8>, u: u8) -> Seq<u8>
    decreases s.len(),
{
    if s.len() > 0 && ascii_upper(s.last()) == u {
        trim_end_upper(s.drop_last(), u)
    } else {
        s
    }
}

/// Bytes a memory-limit string stands for: a decimal count followed by the
/// unit `M` (mebibytes) or `G` (gibibytes), in either case, with white space
/// around it allowed.
pub open spec fn memory_limit_of(s: Seq<u8>) -> Option<int> {
    let t = trim_start_ws(trim_end_ws(s));
    if t.len() == 0 {
        None
    } else {
        let u = ascii_upper(t.last());
        let unit: int = if u == 77 {
            0x10_0000
        } else if u == 71 {
            0x4000_0000
        } else {
            0
        };
        if unit == 0 {
            None
        } else {
            match unsigned_of(trim_end_upper(t, u), 10) {
                Some(v) => Some(v * unit),
                None => None,
            }
        }
    }
}

/// Index range of `s[lo..hi]` with trailing bytes satisfying the trimming
/// rule removed, as `trim_end_ws` does.
fn trim_end_index(s: &[u8], lo: usize, hi: usize) -> (r: usize)
    requires
        lo <= hi <= s@.len(),
    ensures
        lo <= r <= hi,
        trim_end_ws(s@.subrange(lo as int, hi as int)) == s@.subrange(lo as int, r as int),
{
    let mut j = hi;
    while j > lo && (s[j - 1] == 32 || (9 <= s[j - 1] && s[j - 1] <= 13))
        invariant
            lo <= j <= hi,
            hi <= s@.len(),
            trim_end_ws(s@.subrange(lo as int, hi as int)) == trim_end_ws(s@.subrange(lo as int, j as int)),
        decreases j,
    {
        assert(s@.subrange(lo as int, j as int).drop_last() =~= s@.subrange(lo as int, j - 1));
        j = j - 1;
    }
    j
}

/// Parse a memory limit such as `"2M"` or `" 1g "` into a byte count; `None`
/// for an unknown unit, a malformed count, or a count that overflows.
pub fn parse_memory_limit(size_str: &str) -> (r: Option<usize>)
    ensures
        r == fit_usize(memory_limit_of(size_str.spec_bytes())),
{
    let s = size_str.as_bytes();
    let n = s.len();
    let hi = trim_end_index(s, 0, n);
    assert(s@.subrange(0, n as int) =~= s@);
    let mut lo: usize = 0;
    while lo < hi && (s[lo] == 32 || (9 <= s[lo] && s[lo] <= 13))
        invariant
            lo <= hi,
            hi <= n,
            n == s@.len(),
            trim_start_ws(trim_end_ws(s@)) == trim_start_ws(s@.subrange(lo as int, hi as int)),
        decreases hi - lo,
    {
        assert(s@.subrange(lo as int, hi as int).drop_first() =~= s@.subrange(lo + 1, hi as int));
        lo = lo + 1;
    }
    let ghost t = s@.subrange(lo as int, hi as int);
    assert(trim_start_ws(t) == t);
    if lo == hi {
        return None;
    }
    let last = s[hi - 1];
    assert(t.last() == last);
    let u = upper_exec(last);
    let unit: usize = if u == 77 {
        0x10_0000
    } else if u == 71 {
        0x4000_0000
    } else {
        return None;
    };
    let mut end = hi;
    while end > lo && upper_exec(s[end - 1]) == u
        invariant
            lo <= end <= hi,
            hi <= n,
            n == s@.len(),
            trim_end_upper(t, u) == trim_end_upper(s@.subrange(lo as int, end as int), u),
        decreases end,
    {
        assert(s@.subrange(lo as int, end as int).drop_last() =~= s@.subrange(lo as int, end - 1));
        end = end - 1;
    }
    let ghost digits = s@.subrange(lo as int, end as int);
    assert(trim_end_upper(digits, u) == digits);
    let count = parse_unsigned(slice_range(s, lo, end), 10);
    match count {
        Some(v) => {
            if v > usize::MAX / unit {
                assert(v * unit > usize::MAX) by (nonlinear_arith)
                    requires v > usize::MAX / unit, unit > 0;
                None
            } else {
                assert(v * unit <= usize::MAX) by (nonlinear_arith)
                    requires v <= usize::MAX / unit, unit > 0;
                Some(v * unit)
            }
        },
        None => None,
    }
}

fn upper_exec(c: u8) -> (r: u8)
    ensures
        r == ascii_upper(c),
{
    if 97 <= c && c <= 122 {
        c - 32
    } else {
        c
    }
}

/// `s[lo..hi]`.
fn slice_range(s: &[u8], lo: usize, hi: usize) -> (r: &[u8])
    requires
        lo <= hi <= s@.len(),
    ensures
        r@ == s@.subrange(lo as int, hi as int),
{
    vstd::slice::slice_subrange(s, lo, hi)
}

/// `s` with every leading `a b` pair removed, repeatedly.
pub open spec fn strip_pairs(s: Seq<u8>, a: u8, b: u8) -> Seq<u8>
    decreases s.len(),
{
    if s.len() >= 2 && s[0] == a && s[1] == b {
        strip_pairs(s.subrange(2, s.len() as int), a, b)
    } else {
        s
    }
}

/// `s` without its `_` separators.
pub open spec fn drop_underscores(s: Seq<u8>) -> Seq<u8>
    decreases s.len(),
{
    if s.len() == 0 {
        s
    } else if s.last() == 95 {
        drop_underscores(s.drop_last())
    } else {
        drop_underscores(s.drop_last()).push(s.last())
    }
}

/// Address an entry string stands for: hexadecimal digits after any
/// leading `0x` prefixes and then any `0X` prefixes, `_` separators ignored.
pub open spec fn entry_of(s: Seq<u8>) -> Option<int> {
    unsigned_of(drop_underscores(strip_pairs(strip_pairs(s, 48, 120), 48, 88)), 16)
}

/// Index after the leading `a b` pairs of `s[lo..]`.
fn strip_pairs_index(s: &[u8], lo: usize, a: u8, b: u8) -> (r: usize)
    requires
        lo <= s@.len(),
    ensures
        lo <= r <= s@.len(),
        strip_pairs(s@.subrange(lo as int, s@.len() as int), a, b) == s@.subrange(r as int, s@.len() as int),
{
    let n = s.len();
    let mut i = lo;
    while n - i >= 2 && s[i] == a && s[i + 1] == b
        invariant
            lo <= i <= n,
            n == s@.len(),
            strip_pairs(s@.subrange(lo as int, n as int), a, b) == strip_pairs(s@.subrange(i as int, n as int), a, b),
        decreases n - i,
    {
        assert(s@.subrange(i as int, n as int).subrange(2, n - i) =~= s@.subrange(i + 2, n as int));
        i = i + 2;
    }
    i
}

/// Parse a guest entry address such as `"0x8020_0000"`; `None` when it is not
/// hexadecimal or does not fit.
pub fn parse_entry(entry: &str) -> (r: Option<usize>)
    ensures
        r == fit_usize(entry_of(entry.spec_bytes())),
{
    let s = entry.as_bytes();
    let n = s.len();
    assert(s@.subrange(0, n as int) =~= s@);
    let i = strip_pairs_index(s, 0, 48, 120);
    let j = strip_pairs_index(s, i, 48, 88);
    let mut digits: Vec<u8> = Vec::new();
    let mut k = j;
    while k < n
        invariant
            j <= k <= n,
            n == s@.len(),
            digits@ == drop_underscores(s@.subrange(j as int, k as int)),
        decreases n - k,
    {
        assert(s@.subrange(j as int, k + 1).drop_last() =~= s@.subrange(j as int, k as int));
        if s[k] != 95 {
            digits.push(s[k]);
        }
        k = k + 1;
    }
    parse_unsigned(digits.as_slice(), 16)
}

} // verus!
