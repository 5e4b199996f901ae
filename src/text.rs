use vstd::prelude::*;
use vstd::string::*;

verus! {

/// The Unicode `White_Space` characters, which `char::is_whitespace` and
/// `str::trim` treat as blanks.
pub open spec fn is_white(c: char) -> bool {
    let u = c as u32;
    (0x9 <= u <= 0xd) || u == 0x20 || u == 0x85 || u == 0xa0 || u == 0x1680 || (0x2000 <= u
        <= 0x200a) || u == 0x2028 || u == 0x2029 || u == 0x202f || u == 0x205f || u == 0x3000
}

/// `s` without its trailing blanks.
pub open spec fn trim_end(s: Seq<char>) -> Seq<char>
    decreases s.len(),
{
    if s.len() > 0 && is_white(s.last()) {
        trim_end(s.drop_last())
    } else {
        s
    }
}

/// `s` without its leading blanks.
pub open spec fn trim_start(s: Seq<char>) -> Seq<char>
    decreases s.len(),
{
    if s.len() > 0 && is_white(s[0]) {
        trim_start(s.drop_first())
    } else {
        s
    }
}

/// `s` without leading and trailing blanks.
pub open spec fn trim(s: Seq<char>) -> Seq<char> {
    trim_start(trim_end(s))
}

/// A text with no blank at either end.
pub open spec fn is_trimmed(s: Seq<char>) -> bool {
    s.len() > 0 ==> !is_white(s[0]) && !is_white(s.last())
}

/// `c` equals the lower-case ASCII character `p` once ASCII case is ignored.
pub open spec fn ascii_ci_eq(c: char, p: char) -> bool {
    c == p || ('a' as u32 <= p as u32 <= 'z' as u32 && c as u32 + 32 == p as u32)
}

/// `s` ends with the lower-case pattern `p`, ignoring ASCII case.
pub open spec fn ends_with_ci(s: Seq<char>, p: Seq<char>) -> bool {
    &&& p.len() <= s.len()
    &&& forall|i: int| 0 <= i < p.len() ==> ascii_ci_eq(#[trigger] s[s.len() - p.len() + i], p[i])
}

/// `s` with every trailing repetition of the lower-case `p` removed, each
/// matched without regard to ASCII case.
pub open spec fn strip_suffixes_ci(s: Seq<char>, p: Seq<char>) -> Seq<char>
    decreases s.len(),
{
    if p.len() > 0 && ends_with_ci(s, p) {
        strip_suffixes_ci(s.subrange(0, s.len() - p.len()), p)
    } else {
        s
    }
}

pub open spec fn occurs_at(s: Seq<char>, p: Seq<char>, i: int) -> bool {
    0 <= i && i + p.len() <= s.len() && s.subrange(i, i + p.len()) == p
}

pub open spec fn contains(s: Seq<char>, p: Seq<char>) -> bool {
    exists|i: int| occurs_at(s, p, i)
}

/// `s` with every occurrence of the non-empty `p` removed, scanning from the
/// left as `str::replace(p, "")` does.
pub open spec fn remove_all(s: Seq<char>, p: Seq<char>) -> Seq<char>
    decreases s.len(),
{
    if s.len() == 0 {
        s
    } else if p.len() > 0 && occurs_at(s, p, 0) {
        remove_all(s.subrange(p.len() as int, s.len() as int), p)
    } else {
        seq![s[0]] + remove_all(s.subrange(1, s.len() as int), p)
    }
}

pub fn is_white_char(c: char) -> (r: bool)
    ensures
        r == is_white(c),
{
    let u = c as u32;
    (0x9 <= u && u <= 0xd) || u == 0x20 || u == 0x85 || u == 0xa0 || u == 0x1680 || (0x2000 <= u
        && u <= 0x200a) || u == 0x2028 || u == 0x2029 || u == 0x202f || u == 0x205f || u == 0x3000
}

/// The length of `s` once its trailing blanks are dropped.
fn trimmed_end_len(s: &str) -> (e: usize)
    ensures
        e <= s@.len(),
        trim_end(s@) == s@.subrange(0, e as int),
{
    let mut e = s.unicode_len();
    assert(s@.subrange(0, e as int) =~= s@);
    while e > 0 && is_white_char(s.get_char(e - 1))
        invariant
            e <= s@.len(),
            trim_end(s@) == trim_end(s@.subrange(0, e as int)),
        decreases e,
    {
        assert(s@.subrange(0, e as int).drop_last() =~= s@.subrange(0, e - 1));
        e = e - 1;
    }
    e
}

/// The number of leading blanks of `s[..end]`.
fn blank_prefix_len(s: &str, end: usize) -> (b: usize)
    requires
        end <= s@.len(),
    ensures
        b <= end,
        trim_start(s@.subrange(0, end as int)) == s@.subrange(b as int, end as int),
{
    let mut b: usize = 0;
    assert(s@.subrange(0, end as int).subrange(0, end as int) =~= s@.subrange(0, end as int));
    while b < end && is_white_char(s.get_char(b))
        invariant
            b <= end <= s@.len(),
            trim_start(s@.subrange(0, end as int)) == trim_start(s@.subrange(b as int, end as int)),
        decreases end - b,
    {
        assert(s@.subrange(b as int, end as int).drop_first() =~= s@.subrange(b + 1, end as int));
        b = b + 1;
    }
    b
}

/// `str::trim`, over the blanks of `is_white`.
pub fn trim_str(s: &str) -> (r: String)
    ensures
        r@ == trim(s@),
{
    let e = trimmed_end_len(s);
    let b = blank_prefix_len(s, e);
    String::from_str(s.substring_char(b, e))
}

/// `str::trim_end`, over the blanks of `is_white`.
pub fn trim_end_str(s: &str) -> (r: String)
    ensures
        r@ == trim_end(s@),
{
    let e = trimmed_end_len(s);
    String::from_str(s.substring_char(0, e))
}

/// Whether `p` occurs in `s` starting at index `i`.
pub fn occurs_at_index(s: &str, p: &str, i: usize) -> (r: bool)
    ensures
        r == occurs_at(s@, p@, i as int),
{
    let n = s.unicode_len();
    let m = p.unicode_len();
    if i > n || m > n - i {
        return false;
    }
    let mut k: usize = 0;
    while k < m
        invariant
            i + m <= n == s@.len(),
            m == p@.len(),
            k <= m,
            forall|j: int| 0 <= j < k ==> s@[i + j] == p@[j],
        decreases m - k,
    {
        if s.get_char(i + k) != p.get_char(k) {
            assert(s@.subrange(i as int, i + m)[k as int] != p@[k as int]);
            return false;
        }
        k = k + 1;
    }
    assert(s@.subrange(i as int, i + m) =~= p@);
    true
}

/// Whether `p` occurs anywhere in `s`.
pub fn contains_str(s: &str, p: &str) -> (r: bool)
    ensures
        r == contains(s@, p@),
{
    let n = s.unicode_len();
    let m = p.unicode_len();
    if m > n {
        assert forall|i: int| !occurs_at(s@, p@, i) by {}
        return false;
    }
    let last = n - m;
    let mut i: usize = 0;
    loop
        invariant
            m <= n == s@.len(),
            m == p@.len(),
            last == n - m,
            i <= last,
            forall|j: int| 0 <= j < i ==> !occurs_at(s@, p@, j),
        ensures
            i == last,
            forall|j: int| 0 <= j <= i ==> !occurs_at(s@, p@, j),
        decreases last - i,
    {
        if occurs_at_index(s, p, i) {
            return true;
        }
        if i == last {
            break;
        }
        i = i + 1;
    }
    assert forall|j: int| !occurs_at(s@, p@, j) by {
        if 0 <= j && j + m <= n {
            assert(j <= i);
        }
    }
    false
}


pub fn ascii_ci_eq_char(c: char, p: char) -> (r: bool)
    ensures
        r == ascii_ci_eq(c, p),
{
    c == p || ('a' as u32 <= p as u32 && p as u32 <= 'z' as u32 && c as u32 == p as u32 - 32)
}

/// Whether `s` ends with the lower-case pattern `p`, ignoring ASCII case.
pub fn ends_with_ci_str(s: &str, p: &str) -> (r: bool)
    ensures
        r == ends_with_ci(s@, p@),
{
    let n = s.unicode_len();
    let m = p.unicode_len();
    if m > n {
        return false;
    }
    let mut k: usize = 0;
    while k < m
        invariant
            m <= n == s@.len(),
            m == p@.len(),
            k <= m,
            forall|i: int| 0 <= i < k ==> ascii_ci_eq(#[trigger] s@[n - m + i], p@[i]),
        decreases m - k,
    {
        if !ascii_ci_eq_char(s.get_char(n - m + k), p.get_char(k)) {
            assert(!ascii_ci_eq(s@[s@.len() - p@.len() + k], p@[k as int]));
            return false;
        }
        k = k + 1;
    }
    true
}

/// `str::replace(p, "")` for a non-empty `p`.
pub fn remove_all_str(s: &str, p: &str) -> (r: String)
    requires
        p@.len() > 0,
    ensures
        r@ == remove_all(s@, p@),
{
    let n = s.unicode_len();
    let m = p.unicode_len();
    let mut out = String::new();
    let mut seg: usize = 0;
    let mut i: usize = 0;
    assert(s@.subrange(0, n as int) =~= s@);
    assert(out@ + s@.subrange(0, 0) =~= Seq::<char>::empty());
    while i < n
        invariant
            n == s@.len(),
            m == p@.len() > 0,
            seg <= i <= n,
            out@ + s@.subrange(seg as int, i as int) + remove_all(s@.subrange(i as int, n as int), p@)
                == remove_all(s@, p@),
        decreases n - i,
    {
        let ghost rest = s@.subrange(i as int, n as int);
        if occurs_at_index(s, p, i) {
            assert(rest.subrange(0, m as int) =~= s@.subrange(i as int, i + m));
            assert(rest.subrange(m as int, rest.len() as int) =~= s@.subrange(i + m, n as int));
            let piece = s.substring_char(seg, i);
            out.append(piece);
            i = i + m;
            seg = i;
            assert(s@.subrange(seg as int, i as int) =~= Seq::<char>::empty());
            assert(out@ + s@.subrange(seg as int, i as int) =~= out@);
        } else {
            assert(!occurs_at(rest, p@, 0)) by {
                if m <= rest.len() {
                    assert(rest.subrange(0, m as int) =~= s@.subrange(i as int, i + m));
                }
            }
            assert(rest.subrange(1, rest.len() as int) =~= s@.subrange(i + 1, n as int));
            assert(s@.subrange(seg as int, i + 1) =~= s@.subrange(seg as int, i as int) + seq![
                rest[0],
            ]);
            i = i + 1;
        }
    }
    let tail = s.substring_char(seg, n);
    out.append(tail);
    assert(s@.subrange(n as int, n as int) =~= Seq::<char>::empty());
    out
}


/// Whether `s[..end]` ends with the lower-case `p`, ignoring ASCII case.
fn ends_with_ci_before(s: &str, end: usize, p: &str) -> (r: bool)
    requires
        end <= s@.len(),
    ensures
        r == ends_with_ci(s@.subrange(0, end as int), p@),
{
    let m = p.unicode_len();
    let ghost t = s@.subrange(0, end as int);
    if m > end {
        return false;
    }
    let mut k: usize = 0;
    while k < m
        invariant
            m <= end <= s@.len(),
            m == p@.len(),
            t == s@.subrange(0, end as int),
            k <= m,
            forall|i: int| 0 <= i < k ==> ascii_ci_eq(#[trigger] t[t.len() - m + i], p@[i]),
        decreases m - k,
    {
        assert(t[t.len() - m + k] == s@[end - m + k]);
        if !ascii_ci_eq_char(s.get_char(end - m + k), p.get_char(k)) {
            assert(!ascii_ci_eq(t[t.len() - p@.len() + k], p@[k as int]));
            return false;
        }
        k = k + 1;
    }
    true
}

/// The length of what is left of `s` once every trailing repetition of the
/// lower-case `p`, in any ASCII case, is removed.
pub fn stripped_len_ci(s: &str, p: &str) -> (e: usize)
    ensures
        e <= s@.len(),
        strip_suffixes_ci(s@, p@) == s@.subrange(0, e as int),
{
    let n = s.unicode_len();
    let m = p.unicode_len();
    assert(s@.subrange(0, n as int) =~= s@);
    if m == 0 {
        return n;
    }
    let mut e = n;
    while ends_with_ci_before(s, e, p)
        invariant
            e <= n == s@.len(),
            m == p@.len() > 0,
            strip_suffixes_ci(s@, p@) == strip_suffixes_ci(s@.subrange(0, e as int), p@),
        decreases e,
    {
        let ghost t = s@.subrange(0, e as int);
        assert(t.subrange(0, t.len() - p@.len()) =~= s@.subrange(0, e - m));
        e = e - m;
    }
    e
}

} // verus!
