//! Character-level text utilities with exact specifications.

use vstd::prelude::*;
use vstd::string::*;

verus! {

/// The Unicode `White_Space` property: the characters that `str::trim`,
/// `char::is_whitespace` and the regular-expression class `\s` agree on.
pub open spec fn is_white_space(c: char) -> bool {
    let u = c as u32;
    ||| 0x9 <= u <= 0xd
    ||| u == 0x20
    ||| u == 0x85
    ||| u == 0xa0
    ||| u == 0x1680
    ||| 0x2000 <= u <= 0x200a
    ||| u == 0x2028
    ||| u == 0x2029
    ||| u == 0x202f
    ||| u == 0x205f
    ||| u == 0x3000
}

/// Executable test for the `White_Space` property.
pub fn white_space(c: char) -> (r: bool)
    ensures
        r == is_white_space(c),
{
    let u = c as u32;
    (0x9 <= u && u <= 0xd) || u == 0x20 || u == 0x85 || u == 0xa0 || u == 0x1680 || (0x2000
        <= u && u <= 0x200a) || u == 0x2028 || u == 0x2029 || u == 0x202f || u == 0x205f || u
        == 0x3000
}

/// The characters of a string slice, in order.
pub fn to_chars(s: &str) -> (r: Vec<char>)
    ensures
        r@ == s@,
{
    let n = s.unicode_len();
    let mut v: Vec<char> = Vec::new();
    let mut i: usize = 0;
    while i < n
        invariant
            n == s@.len(),
            i <= n,
            v@ == s@.subrange(0, i as int),
        decreases n - i,
    {
        let c = s.get_char(i);
        v.push(c);
        i = i + 1;
        assert(v@ =~= s@.subrange(0, i as int));
    }
    assert(v@ =~= s@);
    v
}

/// `String::push`.  Claims: afterwards the string holds its old characters
/// followed by `c`.
#[verifier::external_body]
fn push_char(s: &mut String, c: char)
    ensures
        final(s)@ == old(s)@.push(c),
{
    s.push(c);
}

/// Appends the characters `v[from..to]` to `out`.
pub fn push_chars(out: &mut String, v: &Vec<char>, from: usize, to: usize)
    requires
        from <= to <= v@.len(),
    ensures
        final(out)@ == old(out)@ + v@.subrange(from as int, to as int),
{
    let mut i = from;
    while i < to
        invariant
            from <= i <= to <= v@.len(),
            out@ == old(out)@ + v@.subrange(from as int, i as int),
        decreases to - i,
    {
        push_char(out, v[i]);
        i = i + 1;
        assert(out@ =~= old(out)@ + v@.subrange(from as int, i as int));
    }
}

/// Number of occurrences of `c` in `s`.
pub open spec fn count_char(s: Seq<char>, c: char) -> nat
    decreases s.len(),
{
    if s.len() == 0 {
        0
    } else {
        count_char(s.drop_last(), c) + if s.last() == c {
            1nat
        } else {
            0nat
        }
    }
}

/// Counting distributes over concatenation.
pub proof fn lemma_count_char_concat(a: Seq<char>, b: Seq<char>, c: char)
    ensures
        count_char(a + b, c) == count_char(a, c) + count_char(b, c),
    decreases b.len(),
{
    if b.len() == 0 {
        assert(a + b =~= a);
    } else {
        assert((a + b).drop_last() =~= a + b.drop_last());
        lemma_count_char_concat(a, b.drop_last(), c);
    }
}

/// Executable count of the occurrences of `c` in `s`.
pub fn count_occurrences(s: &Vec<char>, c: char) -> (r: usize)
    ensures
        r == count_char(s@, c),
{
    let mut n: usize = 0;
    let mut i: usize = 0;
    while i < s.len()
        invariant
            i <= s@.len(),
            n == count_char(s@.subrange(0, i as int), c),
            n <= i,
        decreases s.len() - i,
    {
        assert(s@.subrange(0, i + 1).drop_last() =~= s@.subrange(0, i as int));
        if s[i] == c {
            n = n + 1;
        }
        i = i + 1;
    }
    assert(s@.subrange(0, s@.len() as int) =~= s@);
    n
}


/// The ASCII digit for `d < 10`.
pub open spec fn digit_char(d: nat) -> char {
    if d == 0 {
        '0'
    } else if d == 1 {
        '1'
    } else if d == 2 {
        '2'
    } else if d == 3 {
        '3'
    } else if d == 4 {
        '4'
    } else if d == 5 {
        '5'
    } else if d == 6 {
        '6'
    } else if d == 7 {
        '7'
    } else if d == 8 {
        '8'
    } else {
        '9'
    }
}

/// The ASCII digit for `d < 10`.
pub fn digit(d: u64) -> (c: char)
    requires
        d < 10,
    ensures
        c == digit_char(d as nat),
{
    if d == 0 {
        '0'
    } else if d == 1 {
        '1'
    } else if d == 2 {
        '2'
    } else if d == 3 {
        '3'
    } else if d == 4 {
        '4'
    } else if d == 5 {
        '5'
    } else if d == 6 {
        '6'
    } else if d == 7 {
        '7'
    } else if d == 8 {
        '8'
    } else {
        '9'
    }
}

/// Decimal notation of `n`, without leading zeros.
pub open spec fn decimal(n: nat) -> Seq<char>
    decreases n,
{
    if n < 10 {
        seq![digit_char(n)]
    } else {
        decimal(n / 10).push(digit_char(n % 10))
    }
}

/// Decimal notation holds no dot.
pub proof fn lemma_decimal_has_no_dot(n: nat)
    ensures
        count_char(decimal(n), '.') == 0,
    decreases n,
{
    let d = decimal(n);
    assert(d.last() != '.');
    if n >= 10 {
        lemma_decimal_has_no_dot(n / 10);
        assert(d.drop_last() =~= decimal(n / 10));
    } else {
        assert(d.drop_last() =~= Seq::<char>::empty());
        assert(count_char(d.drop_last(), '.') == 0);
    }
}

/// Appends the decimal notation of `n` to `out`.
pub fn push_decimal(out: &mut String, n: u64)
    ensures
        final(out)@ == old(out)@ + decimal(n as nat),
    decreases n,
{
    if n >= 10 {
        push_decimal(out, n / 10);
    }
    let c = digit(n % 10);
    push_char(out, c);
    assert(out@ =~= old(out)@ + decimal(n as nat));
}

/// `s` without its leading white space.
pub open spec fn trim_start_ws(s: Seq<char>) -> Seq<char>
    decreases s.len(),
{
    if s.len() > 0 && is_white_space(s[0]) {
        trim_start_ws(s.drop_first())
    } else {
        s
    }
}

/// `s` without its trailing white space.
pub open spec fn trim_end_ws(s: Seq<char>) -> Seq<char>
    decreases s.len(),
{
    if s.len() > 0 && is_white_space(s.last()) {
        trim_end_ws(s.drop_last())
    } else {
        s
    }
}

/// `s` without leading and trailing white space, as `str::trim` gives it.
pub open spec fn trim(s: Seq<char>) -> Seq<char> {
    trim_end_ws(trim_start_ws(s))
}

/// Moves `lo` past the leading white space of `s[lo..hi]`.
pub fn skip_leading_ws(s: &Vec<char>, lo: usize, hi: usize) -> (r: usize)
    requires
        lo <= hi <= s@.len(),
    ensures
        lo <= r <= hi,
        s@.subrange(r as int, hi as int) == trim_start_ws(s@.subrange(lo as int, hi as int)),
{
    let mut i = lo;
    while i < hi && white_space(s[i])
        invariant
            lo <= i <= hi <= s@.len(),
            trim_start_ws(s@.subrange(i as int, hi as int)) == trim_start_ws(
                s@.subrange(lo as int, hi as int),
            ),
        decreases hi - i,
    {
        assert(s@.subrange(i as int, hi as int).drop_first() =~= s@.subrange(i + 1, hi as int));
        i = i + 1;
    }
    i
}

/// Moves `hi` before the trailing white space of `s[lo..hi]`.
pub fn drop_trailing_ws(s: &Vec<char>, lo: usize, hi: usize) -> (r: usize)
    requires
        lo <= hi <= s@.len(),
    ensures
        lo <= r <= hi,
        s@.subrange(lo as int, r as int) == trim_end_ws(s@.subrange(lo as int, hi as int)),
{
    let mut j = hi;
    while j > lo && white_space(s[j - 1])
        invariant
            lo <= j <= hi <= s@.len(),
            trim_end_ws(s@.subrange(lo as int, j as int)) == trim_end_ws(
                s@.subrange(lo as int, hi as int),
            ),
        decreases j - lo,
    {
        assert(s@.subrange(lo as int, j as int).drop_last() =~= s@.subrange(lo as int, j - 1));
        j = j - 1;
    }
    j
}

/// A string holding `v[from..to]`.
pub fn string_of_range(v: &Vec<char>, from: usize, to: usize) -> (r: String)
    requires
        from <= to <= v@.len(),
    ensures
        r@ == v@.subrange(from as int, to as int),
{
    let mut out = String::new();
    push_chars(&mut out, v, from, to);
    assert(out@ =~= v@.subrange(from as int, to as int));
    out
}

/// Whether `a` and `b` hold the same characters.
pub fn str_eq(a: &str, b: &str) -> (r: bool)
    ensures
        r == (a@ == b@),
{
    let x = to_chars(a);
    let y = to_chars(b);
    if x.len() != y.len() {
        return false;
    }
    let mut i: usize = 0;
    while i < x.len()
        invariant
            x@ == a@,
            y@ == b@,
            x@.len() == y@.len(),
            i <= x@.len(),
            forall|k: int| 0 <= k < i ==> x@[k] == y@[k],
        decreases x@.len() - i,
    {
        if x[i] != y[i] {
            assert(x@[i as int] != y@[i as int]);
            return false;
        }
        i = i + 1;
    }
    assert(x@ =~= y@);
    true
}


/// `needle` occurs in `hay` at position `i`.
pub open spec fn occurs_at(hay: Seq<char>, i: int, needle: Seq<char>) -> bool {
    0 <= i && i + needle.len() <= hay.len() && hay.subrange(i, i + needle.len()) == needle
}

/// `needle` occurs somewhere in `hay`.
pub open spec fn contains_text(hay: Seq<char>, needle: Seq<char>) -> bool {
    exists|i: int| occurs_at(hay, i, needle)
}

/// Whether `needle` occurs in `hay`.
pub fn str_contains(hay: &str, needle: &str) -> (r: bool)
    ensures
        r == contains_text(hay@, needle@),
{
    let h = to_chars(hay);
    let n = to_chars(needle);
    if n.len() > h.len() {
        assert forall|i: int| !occurs_at(hay@, i, needle@) by {}
        return false;
    }
    let hl = h.len();
    let last = hl - n.len();
    let mut i: usize = 0;
    while i <= last
        invariant
            h@ == hay@,
            hl == h@.len(),
            n@ == needle@,
            last == h@.len() - n@.len(),
            forall|j: int| 0 <= j < i ==> !occurs_at(hay@, j, needle@),
        decreases last + 1 - i,
    {
        let mut k: usize = 0;
        let mut same = true;
        while k < n.len()
            invariant
                h@ == hay@,
                hl == h@.len(),
                n@ == needle@,
                i <= last,
                last == h@.len() - n@.len(),
                k <= n@.len(),
                same == forall|m: int| 0 <= m < k ==> h@[i + m] == n@[m],
            decreases n@.len() - k,
        {
            if h[i + k] != n[k] {
                same = false;
            }
            k = k + 1;
        }
        if same {
            assert(h@.subrange(i as int, i + n@.len()) =~= n@);
            assert(occurs_at(hay@, i as int, needle@));
            return true;
        }
        proof {
            if occurs_at(hay@, i as int, needle@) {
                let m = choose|m: int| 0 <= m < n@.len() && h@[i + m] != n@[m];
                assert(h@.subrange(i as int, i + n@.len())[m] == h@[i + m]);
            }
        }
        if i == last {
            assert forall|j: int| !occurs_at(hay@, j, needle@) by {
                if j > last as int {
                }
            }
            return false;
        }
        i = i + 1;
    }
    false
}

/// Whether `c` occurs in `s`.
pub fn has_char(s: &str, c: char) -> (r: bool)
    ensures
        r == s@.contains(c),
{
    let v = to_chars(s);
    let mut i: usize = 0;
    while i < v.len()
        invariant
            v@ == s@,
            i <= v@.len(),
            forall|j: int| 0 <= j < i ==> v@[j] != c,
        decreases v@.len() - i,
    {
        if v[i] == c {
            return true;
        }
        i = i + 1;
    }
    false
}

} // verus!
