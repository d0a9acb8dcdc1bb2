//! Locating and replacing the version of a dependency entry in manifest text.
//!
//! An entry is recognised in one of two forms, each starting at the beginning
//! of a line:
//!
//! * detailed: `name = { version = "x.y.z", ... }`
//! * simple:   `name = "x.y.z"`
//!
//! Whitespace (Unicode `White_Space`, line breaks included) may surround each
//! token, and may also precede the name at the start of the line.  The version
//! is the non-empty run of characters up to the next `"`.  The first entry in
//! the text is edited; when more than one count of leading whitespace makes an
//! entry fit at the same line start, the longest is taken.

use vstd::prelude::*;
use vstd::string::*;
use crate::text::{is_white_space, white_space, to_chars, push_chars};

verus! {

/// The two textual forms of a dependency entry.
#[derive(PartialEq, Eq, Structural, Clone, Copy, Debug)]
pub enum EntryForm {
    /// `name = { version = "..." ... }`
    Detailed,
    /// `name = "..."`
    Simple,
}

/// End of the maximal run of white space starting at `i`.
pub open spec fn ws_end(s: Seq<char>, i: int) -> int
    decreases s.len() - i,
{
    if 0 <= i < s.len() && is_white_space(s[i]) {
        ws_end(s, i + 1)
    } else {
        i
    }
}

/// End of the maximal run of characters other than `"` starting at `i`.
pub open spec fn value_end(s: Seq<char>, i: int) -> int
    decreases s.len() - i,
{
    if 0 <= i < s.len() && s[i] != '"' {
        value_end(s, i + 1)
    } else {
        i
    }
}

/// `lit` occurs in `s` at position `i`.
pub open spec fn lit_at(s: Seq<char>, i: int, lit: Seq<char>) -> bool {
    0 <= i && i + lit.len() <= s.len() && s.subrange(i, i + lit.len()) == lit
}

/// Position `i` holds the character `c`.
pub open spec fn char_at(s: Seq<char>, i: int, c: char) -> bool {
    0 <= i < s.len() && s[i] == c
}

/// Position `p` starts a line: it is the start of the text or follows `\n`.
pub open spec fn line_start(s: Seq<char>, p: int) -> bool {
    p == 0 || (0 < p <= s.len() && s[p - 1] == '\n')
}

/// Every character of `s[from..to]` is white space.
pub open spec fn all_white_space(s: Seq<char>, from: int, to: int) -> bool {
    forall|k: int| from <= k < to ==> is_white_space(#[trigger] s[k])
}

/// The key `version`.
pub open spec fn version_key() -> Seq<char> {
    seq!['v', 'e', 'r', 's', 'i', 'o', 'n']
}

/// After the name ends at `q`: the position just past the opening quote of
/// the version, when the text continues as `= "` (simple) or
/// `= { version = "` (detailed), white space allowed around every token.
pub open spec fn opening_quote_end(s: Seq<char>, q: int, form: EntryForm) -> Option<int> {
    let q1 = ws_end(s, q);
    if !char_at(s, q1, '=') {
        None
    } else {
        let q2 = ws_end(s, q1 + 1);
        match form {
            EntryForm::Simple => if char_at(s, q2, '"') {
                Some(q2 + 1)
            } else {
                None
            },
            EntryForm::Detailed => if !char_at(s, q2, '{') {
                None
            } else {
                let q3 = ws_end(s, q2 + 1);
                if !lit_at(s, q3, version_key()) {
                    None
                } else {
                    let q4 = ws_end(s, q3 + 7);
                    if !char_at(s, q4, '=') {
                        None
                    } else {
                        let q5 = ws_end(s, q4 + 1);
                        if char_at(s, q5, '"') {
                            Some(q5 + 1)
                        } else {
                            None
                        }
                    }
                }
            },
        }
    }
}

/// The version text starting at `o`: the non-empty run of non-quote
/// characters, which must be closed by a `"`.
pub open spec fn quoted_value(s: Seq<char>, o: int) -> Option<(int, int)> {
    let e = value_end(s, o);
    if o < e && e < s.len() {
        Some((o, e))
    } else {
        None
    }
}

/// The span of the version when an entry of the given form for `name` fits at
/// line start `p` after `a` characters of leading white space.
pub open spec fn candidate(s: Seq<char>, name: Seq<char>, form: EntryForm, p: int, a: int) -> Option<
    (int, int),
> {
    if line_start(s, p) && 0 <= a && p + a <= s.len() && all_white_space(s, p, p + a) && lit_at(
        s,
        p + a,
        name,
    ) {
        match opening_quote_end(s, p + a + name.len(), form) {
            Some(o) => quoted_value(s, o),
            None => None,
        }
    } else {
        None
    }
}

/// `(p, a)` is the entry that is edited: no entry fits at an earlier
/// position, and none fits at `p` with more leading white space.
pub open spec fn is_first_entry(s: Seq<char>, name: Seq<char>, form: EntryForm, p: int, a: int) -> bool {
    &&& candidate(s, name, form, p, a) is Some
    &&& forall|p2: int, a2: int| p2 < p ==> #[trigger] candidate(s, name, form, p2, a2) is None
    &&& forall|a2: int| a2 > a ==> #[trigger] candidate(s, name, form, p, a2) is None
}

/// Some entry of the given form for `name` occurs in `s`.
pub open spec fn has_entry(s: Seq<char>, name: Seq<char>, form: EntryForm) -> bool {
    exists|p: int, a: int| #[trigger] candidate(s, name, form, p, a) is Some
}

/// The span of the version text of the first entry of the given form.
pub open spec fn version_span(s: Seq<char>, name: Seq<char>, form: EntryForm) -> Option<(int, int)> {
    if exists|p: int, a: int| is_first_entry(s, name, form, p, a) {
        let (p, a) = choose|p: int, a: int| is_first_entry(s, name, form, p, a);
        candidate(s, name, form, p, a)
    } else {
        None
    }
}

/// `s` with `s[span.0..span.1]` replaced by `v`.
pub open spec fn splice(s: Seq<char>, span: (int, int), v: Seq<char>) -> Seq<char> {
    s.subrange(0, span.0) + v + s.subrange(span.1, s.len() as int)
}

/// The text after setting the version of `name` to `v`: the first detailed
/// entry is edited if there is one, else the first simple entry; `None` when
/// the text has neither.
pub open spec fn updated_text(s: Seq<char>, name: Seq<char>, v: Seq<char>) -> Option<Seq<char>> {
    match version_span(s, name, EntryForm::Detailed) {
        Some(span) => Some(splice(s, span, v)),
        None => match version_span(s, name, EntryForm::Simple) {
            Some(span) => Some(splice(s, span, v)),
            None => None,
        },
    }
}

proof fn lemma_ws_end(s: Seq<char>, i: int)
    requires
        0 <= i <= s.len(),
    ensures
        i <= ws_end(s, i) <= s.len(),
        all_white_space(s, i, ws_end(s, i)),
        ws_end(s, i) == s.len() || !is_white_space(s[ws_end(s, i)]),
    decreases s.len() - i,
{
    if i < s.len() && is_white_space(s[i]) {
        lemma_ws_end(s, i + 1);
    }
}

proof fn lemma_value_end(s: Seq<char>, i: int)
    requires
        0 <= i <= s.len(),
    ensures
        i <= value_end(s, i) <= s.len(),
        forall|k: int| i <= k < value_end(s, i) ==> s[k] != '"',
        value_end(s, i) == s.len() || s[value_end(s, i)] == '"',
    decreases s.len() - i,
{
    if i < s.len() && s[i] != '"' {
        lemma_value_end(s, i + 1);
    }
}

/// The first entry is unique.
proof fn lemma_first_entry_unique(
    s: Seq<char>,
    name: Seq<char>,
    form: EntryForm,
    p: int,
    a: int,
    p2: int,
    a2: int,
)
    requires
        is_first_entry(s, name, form, p, a),
        is_first_entry(s, name, form, p2, a2),
    ensures
        p == p2 && a == a2,
{
    if p < p2 {
        assert(candidate(s, name, form, p, a) is None);
    } else if p2 < p {
        assert(candidate(s, name, form, p2, a2) is None);
    } else if a < a2 {
        assert(candidate(s, name, form, p, a2) is None);
    } else if a2 < a {
        assert(candidate(s, name, form, p, a) is None);
    }
}

fn ws_end_exec(s: &Vec<char>, i: usize) -> (r: usize)
    requires
        i <= s@.len(),
    ensures
        r == ws_end(s@, i as int),
{
    let mut j = i;
    while j < s.len() && white_space(s[j])
        invariant
            i <= j <= s@.len(),
            ws_end(s@, j as int) == ws_end(s@, i as int),
        decreases s@.len() - j,
    {
        j = j + 1;
    }
    j
}

fn value_end_exec(s: &Vec<char>, i: usize) -> (r: usize)
    requires
        i <= s@.len(),
    ensures
        r == value_end(s@, i as int),
{
    let mut j = i;
    while j < s.len() && s[j] != '"'
        invariant
            i <= j <= s@.len(),
            value_end(s@, j as int) == value_end(s@, i as int),
        decreases s@.len() - j,
    {
        j = j + 1;
    }
    j
}

fn lit_at_exec(s: &Vec<char>, i: usize, lit: &Vec<char>) -> (r: bool)
    requires
        i <= s@.len(),
    ensures
        r == lit_at(s@, i as int, lit@),
{
    let n = s.len();
    if lit.len() > n - i {
        return false;
    }
    let mut k: usize = 0;
    while k < lit.len()
        invariant
            n == s@.len(),
            i + lit@.len() <= s@.len(),
            k <= lit@.len(),
            forall|m: int| 0 <= m < k ==> s@[i + m] == lit@[m],
        decreases lit@.len() - k,
    {
        if s[i + k] != lit[k] {
            assert(s@.subrange(i as int, i + lit@.len())[k as int] != lit@[k as int]);
            return false;
        }
        k = k + 1;
    }
    assert(s@.subrange(i as int, i + lit@.len()) =~= lit@);
    true
}

fn char_at_exec(s: &Vec<char>, i: usize, c: char) -> (r: bool)
    ensures
        r == char_at(s@, i as int, c),
{
    i < s.len() && s[i] == c
}

fn version_key_at(s: &Vec<char>, i: usize) -> (r: bool)
    requires
        i <= s@.len(),
    ensures
        r == lit_at(s@, i as int, version_key()),
{
    if 7 > s.len() - i {
        return false;
    }
    let r = s[i] == 'v' && s[i + 1] == 'e' && s[i + 2] == 'r' && s[i + 3] == 's' && s[i + 4] == 'i'
        && s[i + 5] == 'o' && s[i + 6] == 'n';
    let ghost sub = s@.subrange(i as int, i + 7);
    if r {
        assert(sub =~= version_key());
    } else {
        assert(sub != version_key()) by {
            if sub == version_key() {
                assert(sub[0] == 'v' && sub[1] == 'e' && sub[2] == 'r' && sub[3] == 's' && sub[4]
                    == 'i' && sub[5] == 'o' && sub[6] == 'n');
            }
        }
    }
    r
}

fn opening_quote_end_exec(s: &Vec<char>, q: usize, form: EntryForm) -> (r: Option<usize>)
    requires
        q <= s@.len(),
    ensures
        r matches Some(o) ==> opening_quote_end(s@, q as int, form) == Some(o as int) && o
            <= s@.len(),
        r is None ==> opening_quote_end(s@, q as int, form) is None,
{
    let n = s.len();
    let q1 = ws_end_exec(s, q);
    proof {
        lemma_ws_end(s@, q as int);
    }
    if !char_at_exec(s, q1, '=') {
        return None;
    }
    let q2 = ws_end_exec(s, q1 + 1);
    proof {
        lemma_ws_end(s@, q1 + 1);
    }
    match form {
        EntryForm::Simple => {
            if char_at_exec(s, q2, '"') {
                Some(q2 + 1)
            } else {
                None
            }
        },
        EntryForm::Detailed => {
            if !char_at_exec(s, q2, '{') {
                return None;
            }
            let q3 = ws_end_exec(s, q2 + 1);
            proof {
                lemma_ws_end(s@, q2 + 1);
            }
            if !version_key_at(s, q3) {
                return None;
            }
            let q4 = ws_end_exec(s, q3 + 7);
            proof {
                lemma_ws_end(s@, q3 + 7);
            }
            if !char_at_exec(s, q4, '=') {
                return None;
            }
            let q5 = ws_end_exec(s, q4 + 1);
            proof {
                lemma_ws_end(s@, q4 + 1);
            }
            if char_at_exec(s, q5, '"') {
                Some(q5 + 1)
            } else {
                None
            }
        },
    }
}

fn candidate_exec(s: &Vec<char>, name: &Vec<char>, form: EntryForm, p: usize, a: usize) -> (r:
    Option<(usize, usize)>)
    requires
        line_start(s@, p as int),
        p + a <= s@.len(),
        all_white_space(s@, p as int, p + a),
    ensures
        r matches Some((vs, ve)) ==> candidate(s@, name@, form, p as int, a as int) == Some(
            (vs as int, ve as int),
        ) && vs <= ve <= s@.len(),
        r is None ==> candidate(s@, name@, form, p as int, a as int) is None,
{
    let n = s.len();
    if !lit_at_exec(s, p + a, name) {
        return None;
    }
    let q = p + a + name.len();
    match opening_quote_end_exec(s, q, form) {
        None => None,
        Some(o) => {
            let e = value_end_exec(s, o);
            proof {
                lemma_value_end(s@, o as int);
            }
            if o < e && e < s.len() {
                Some((o, e))
            } else {
                None
            }
        },
    }
}

/// The version span of the first entry of the given form, if any.
fn find_first_entry(s: &Vec<char>, name: &Vec<char>, form: EntryForm) -> (r: Option<(usize, usize)>)
    ensures
        r matches Some((vs, ve)) ==> version_span(s@, name@, form) == Some((vs as int, ve as int))
            && vs <= ve <= s@.len(),
        r is None ==> version_span(s@, name@, form) is None && !has_entry(s@, name@, form),
{
    let n = s.len();
    let mut p: usize = 0;
    while p < n
        invariant
            n == s@.len(),
            p <= n,
            forall|p2: int, a2: int| p2 < p ==> #[trigger] candidate(s@, name@, form, p2, a2) is None,
        decreases n - p,
    {
        if p == 0 || s[p - 1] == '\n' {
            let we = ws_end_exec(s, p);
            proof {
                lemma_ws_end(s@, p as int);
            }
            let w = we - p;
            let mut a: usize = w;
            assert forall|a2: int| a2 > w implies #[trigger] candidate(s@, name@, form, p as int, a2) is None by {
                if p + a2 <= n {
                    assert(!all_white_space(s@, p as int, p + a2)) by {
                        assert(!is_white_space(s@[we as int]));
                    }
                }
            }
            loop
                invariant
                    n == s@.len(),
                    p < n,
                    line_start(s@, p as int),
                    we == ws_end(s@, p as int),
                    w == we - p,
                    p + w <= n,
                    all_white_space(s@, p as int, p + w),
                    we == n || !is_white_space(s@[we as int]),
                    a <= w,
                    forall|p2: int, a2: int| p2 < p ==> #[trigger] candidate(s@, name@, form, p2, a2) is None,
                    forall|a2: int| a2 > a ==> #[trigger] candidate(s@, name@, form, p as int, a2) is None,
                ensures
                    forall|a2: int| a2 >= 0 ==> #[trigger] candidate(s@, name@, form, p as int, a2) is None,
                decreases a,
            {
                match candidate_exec(s, name, form, p, a) {
                    Some((vs, ve)) => {
                        proof {
                            assert(is_first_entry(s@, name@, form, p as int, a as int));
                            let (p3, a3) = choose|p3: int, a3: int| is_first_entry(s@, name@, form, p3, a3);
                            lemma_first_entry_unique(s@, name@, form, p as int, a as int, p3, a3);
                        }
                        return Some((vs, ve));
                    },
                    None => {},
                }
                if a == 0 {
                    break;
                }
                a = a - 1;
            }
            assert forall|a2: int| true implies #[trigger] candidate(s@, name@, form, p as int, a2) is None by {
                if a2 < 0 {
                }
            }
        }
        p = p + 1;
    }
    proof {
        assert forall|p2: int, a2: int| true implies #[trigger] candidate(s@, name@, form, p2, a2) is None by {
            if p2 >= n as int && candidate(s@, name@, form, p2, a2) is Some {
                let q = p2 + a2 + name@.len();
                assert(q >= n);
                assert(ws_end(s@, q) == q);
            }
        }
        assert(!exists|p2: int, a2: int| is_first_entry(s@, name@, form, p2, a2));
    }
    None
}

fn splice_exec(s: &Vec<char>, vs: usize, ve: usize, v: &Vec<char>) -> (r: String)
    requires
        vs <= ve <= s@.len(),
    ensures
        r@ == splice(s@, (vs as int, ve as int), v@),
{
    let mut out = String::new();
    push_chars(&mut out, s, 0, vs);
    push_chars(&mut out, v, 0, v.len());
    push_chars(&mut out, s, ve, s.len());
    assert(v@.subrange(0, v@.len() as int) =~= v@);
    assert(out@ =~= splice(s@, (vs as int, ve as int), v@));
    out
}

/// The version text of the entry that an edit of `name` would change: that
/// of the first detailed entry, else that of the first simple entry.
pub open spec fn declared_text(s: Seq<char>, name: Seq<char>) -> Option<Seq<char>> {
    match version_span(s, name, EntryForm::Detailed) {
        Some(span) => Some(s.subrange(span.0, span.1)),
        None => match version_span(s, name, EntryForm::Simple) {
            Some(span) => Some(s.subrange(span.0, span.1)),
            None => None,
        },
    }
}

/// `x` holds no `"`.
pub open spec fn quote_free(x: Seq<char>) -> bool {
    forall|i: int| 0 <= i < x.len() ==> x[i] != '"'
}

/// `x` holds no line break.
pub open spec fn line_free(x: Seq<char>) -> bool {
    forall|i: int| 0 <= i < x.len() ==> x[i] != '\n'
}

/// `s` and `t` agree before `m`, and `s[m - 1]` is a quote.
spec fn agree_before_quote(s: Seq<char>, t: Seq<char>, m: int) -> bool {
    &&& 1 <= m <= s.len()
    &&& m <= t.len()
    &&& s[m - 1] == '"'
    &&& forall|i: int| 0 <= i < m ==> t[i] == s[i]
}

proof fn lemma_ws_end_prefix(s: Seq<char>, t: Seq<char>, m: int, q: int)
    requires
        agree_before_quote(s, t, m),
        0 <= q <= m - 1,
    ensures
        ws_end(s, q) == ws_end(t, q),
        q <= ws_end(s, q) <= m - 1,
    decreases m - q,
{
    assert(t[q] == s[q]);
    if is_white_space(s[q]) {
        assert(q < m - 1);
        lemma_ws_end_prefix(s, t, m, q + 1);
    }
}

proof fn lemma_value_end_prefix(s: Seq<char>, t: Seq<char>, m: int, q: int)
    requires
        agree_before_quote(s, t, m),
        0 <= q <= m - 1,
    ensures
        value_end(s, q) == value_end(t, q),
        q <= value_end(s, q) <= m - 1,
    decreases m - q,
{
    assert(t[q] == s[q]);
    if s[q] != '"' {
        assert(q < m - 1);
        lemma_value_end_prefix(s, t, m, q + 1);
    }
}

proof fn lemma_lit_at_prefix(s: Seq<char>, t: Seq<char>, m: int, i: int, lit: Seq<char>)
    requires
        agree_before_quote(s, t, m),
        0 <= i <= m - 1,
        quote_free(lit),
    ensures
        lit_at(s, i, lit) == lit_at(t, i, lit),
        lit_at(s, i, lit) ==> i + lit.len() <= m - 1,
{
    if i + lit.len() <= m - 1 {
        assert(s.subrange(i, i + lit.len()) =~= t.subrange(i, i + lit.len()));
    } else {
        if lit_at(s, i, lit) {
            assert(s.subrange(i, i + lit.len())[m - 1 - i] == s[m - 1]);
        }
        if lit_at(t, i, lit) {
            assert(t.subrange(i, i + lit.len())[m - 1 - i] == t[m - 1]);
        }
    }
}

proof fn lemma_version_key_quote_free()
    ensures
        quote_free(version_key()),
{
}

proof fn lemma_opening_prefix(s: Seq<char>, t: Seq<char>, m: int, q: int, form: EntryForm)
    requires
        agree_before_quote(s, t, m),
        0 <= q <= m - 1,
    ensures
        opening_quote_end(s, q, form) == opening_quote_end(t, q, form),
        opening_quote_end(s, q, form) matches Some(o) ==> o <= m,
{
    lemma_ws_end_prefix(s, t, m, q);
    let q1 = ws_end(s, q);
    if char_at(s, q1, '=') {
        assert(q1 < m - 1);
        lemma_ws_end_prefix(s, t, m, q1 + 1);
        let q2 = ws_end(s, q1 + 1);
        if form == EntryForm::Detailed && char_at(s, q2, '{') {
            assert(q2 < m - 1);
            lemma_ws_end_prefix(s, t, m, q2 + 1);
            let q3 = ws_end(s, q2 + 1);
            lemma_version_key_quote_free();
            lemma_lit_at_prefix(s, t, m, q3, version_key());
            if lit_at(s, q3, version_key()) {
                lemma_ws_end_prefix(s, t, m, q3 + 7);
                let q4 = ws_end(s, q3 + 7);
                if char_at(s, q4, '=') {
                    assert(q4 < m - 1);
                    lemma_ws_end_prefix(s, t, m, q4 + 1);
                }
            }
        }
    }
}

/// An opening quote ends after where the scan started, just past a quote.
proof fn lemma_opening_shape(s: Seq<char>, q: int, form: EntryForm)
    requires
        0 <= q <= s.len(),
        opening_quote_end(s, q, form) is Some,
    ensures
        ({
            let o = opening_quote_end(s, q, form).unwrap();
            q < o <= s.len() && s[o - 1] == '"'
        }),
{
    lemma_ws_end(s, q);
    let q1 = ws_end(s, q);
    lemma_ws_end(s, q1 + 1);
    let q2 = ws_end(s, q1 + 1);
    if form == EntryForm::Detailed {
        lemma_ws_end(s, q2 + 1);
        let q3 = ws_end(s, q2 + 1);
        lemma_ws_end(s, q3 + 7);
        let q4 = ws_end(s, q3 + 7);
        lemma_ws_end(s, q4 + 1);
    }
}

/// The end of a quote-free run closed by a quote.
proof fn lemma_value_end_at(s: Seq<char>, i: int, j: int)
    requires
        0 <= i <= j < s.len(),
        s[j] == '"',
        forall|k: int| i <= k < j ==> s[k] != '"',
    ensures
        value_end(s, i) == j,
{
    lemma_value_end(s, i);
    let e = value_end(s, i);
    if e < j {
        assert(s[e] == '"');
    }
    if e > j {
        assert(s[j] != '"');
    }
}

/// Before the edited span, an edit changes no entry: where the original
/// text has an entry, so does the edited one, with the same version span
/// unless the span is the edited one.
proof fn lemma_candidate_prefix(
    s: Seq<char>,
    t: Seq<char>,
    m: int,
    ve: int,
    vlen: int,
    name: Seq<char>,
    form: EntryForm,
    p: int,
    a: int,
)
    requires
        agree_before_quote(s, t, m),
        quote_free(name),
        m < ve < s.len(),
        value_end(s, m) == ve,
        0 < vlen,
        m + vlen < t.len(),
        value_end(t, m) == m + vlen,
        0 <= p < m,
    ensures
        (candidate(s, name, form, p, a) is Some) == (candidate(t, name, form, p, a) is Some),
        candidate(s, name, form, p, a) matches Some(span) ==> if span.0 < m {
            candidate(t, name, form, p, a) == Some(span)
        } else {
            span.0 == m && candidate(t, name, form, p, a) == Some((m, m + vlen))
        },
{
    if p > 0 {
        assert(t[p - 1] == s[p - 1]);
    }
    if 0 <= a && p + a <= s.len() && p + a <= t.len() {
        if p + a >= m {
            assert(!is_white_space(s[m - 1]));
            assert(!all_white_space(s, p, p + a));
            assert(!all_white_space(t, p, p + a)) by {
                assert(t[m - 1] == s[m - 1]);
            }
        } else {
            assert(all_white_space(s, p, p + a) == all_white_space(t, p, p + a)) by {
                assert forall|k: int| p <= k < p + a implies s[k] == t[k] by {}
            }
            lemma_lit_at_prefix(s, t, m, p + a, name);
            if lit_at(s, p + a, name) {
                let q = p + a + name.len();
                lemma_opening_prefix(s, t, m, q, form);
                if let Some(o) = opening_quote_end(s, q, form) {
                    if o < m {
                        lemma_value_end_prefix(s, t, m, o);
                    }
                }
            }
        }
    } else if 0 <= a && p + a <= s.len() {
        // p + a > t.len() >= m: the white space run would cross the quote.
        assert(!all_white_space(s, p, p + a)) by {
            assert(!is_white_space(s[m - 1]));
        }
    } else if 0 <= a && p + a <= t.len() {
        assert(!all_white_space(t, p, p + a)) by {
            assert(t[m - 1] == s[m - 1]);
            assert(!is_white_space(t[m - 1]));
        }
    }
}

/// `t` from `k1` on is `s` from `k0` on.
spec fn agree_after(s: Seq<char>, t: Seq<char>, k0: int, k1: int) -> bool {
    &&& 0 <= k0 <= s.len()
    &&& 0 <= k1 <= t.len()
    &&& t.len() - k1 == s.len() - k0
    &&& forall|j: int| 0 <= j < s.len() - k0 ==> #[trigger] t[k1 + j] == s[k0 + j]
}

proof fn lemma_ws_end_shift(s: Seq<char>, t: Seq<char>, k0: int, k1: int, q: int)
    requires
        agree_after(s, t, k0, k1),
        k1 <= q <= t.len(),
    ensures
        ws_end(t, q) == ws_end(s, q - (k1 - k0)) + (k1 - k0),
    decreases t.len() - q,
{
    let d = k1 - k0;
    if q < t.len() {
        assert(t[k1 + (q - k1)] == s[k0 + (q - k1)]);
        if is_white_space(t[q]) {
            lemma_ws_end_shift(s, t, k0, k1, q + 1);
        }
    }
}

proof fn lemma_value_end_shift(s: Seq<char>, t: Seq<char>, k0: int, k1: int, q: int)
    requires
        agree_after(s, t, k0, k1),
        k1 <= q <= t.len(),
    ensures
        value_end(t, q) == value_end(s, q - (k1 - k0)) + (k1 - k0),
    decreases t.len() - q,
{
    if q < t.len() {
        assert(t[k1 + (q - k1)] == s[k0 + (q - k1)]);
        if t[q] != '"' {
            lemma_value_end_shift(s, t, k0, k1, q + 1);
        }
    }
}

proof fn lemma_char_at_shift(s: Seq<char>, t: Seq<char>, k0: int, k1: int, i: int, c: char)
    requires
        agree_after(s, t, k0, k1),
        k1 <= i,
    ensures
        char_at(t, i, c) == char_at(s, i - (k1 - k0), c),
{
    if i < t.len() {
        assert(t[k1 + (i - k1)] == s[k0 + (i - k1)]);
    }
}

proof fn lemma_lit_at_shift(s: Seq<char>, t: Seq<char>, k0: int, k1: int, i: int, lit: Seq<char>)
    requires
        agree_after(s, t, k0, k1),
        k1 <= i,
    ensures
        lit_at(t, i, lit) == lit_at(s, i - (k1 - k0), lit),
{
    let d = k1 - k0;
    if i + lit.len() <= t.len() {
        assert forall|j: int| 0 <= j < lit.len() implies #[trigger] t.subrange(i, i + lit.len())[j]
            == s.subrange(i - d, i - d + lit.len())[j] by {
            assert(t[k1 + (i - k1 + j)] == s[k0 + (i - k1 + j)]);
        }
        assert(t.subrange(i, i + lit.len()) =~= s.subrange(i - d, i - d + lit.len()));
    }
}

proof fn lemma_opening_shift(s: Seq<char>, t: Seq<char>, k0: int, k1: int, q: int, form: EntryForm)
    requires
        agree_after(s, t, k0, k1),
        k1 <= q <= t.len(),
    ensures
        (opening_quote_end(t, q, form) is Some) == (opening_quote_end(s, q - (k1 - k0), form) is Some),
        opening_quote_end(t, q, form) matches Some(o) ==> opening_quote_end(s, q - (k1 - k0), form)
            == Some(o - (k1 - k0)),
{
    let d = k1 - k0;
    lemma_ws_end_shift(s, t, k0, k1, q);
    lemma_ws_end(t, q);
    let q1 = ws_end(t, q);
    lemma_char_at_shift(s, t, k0, k1, q1, '=');
    if char_at(t, q1, '=') {
        lemma_ws_end_shift(s, t, k0, k1, q1 + 1);
        lemma_ws_end(t, q1 + 1);
        let q2 = ws_end(t, q1 + 1);
        lemma_char_at_shift(s, t, k0, k1, q2, '"');
        lemma_char_at_shift(s, t, k0, k1, q2, '{');
        if form == EntryForm::Detailed && char_at(t, q2, '{') {
            lemma_ws_end_shift(s, t, k0, k1, q2 + 1);
            lemma_ws_end(t, q2 + 1);
            let q3 = ws_end(t, q2 + 1);
            lemma_lit_at_shift(s, t, k0, k1, q3, version_key());
            if lit_at(t, q3, version_key()) {
                lemma_ws_end_shift(s, t, k0, k1, q3 + 7);
                lemma_ws_end(t, q3 + 7);
                let q4 = ws_end(t, q3 + 7);
                lemma_char_at_shift(s, t, k0, k1, q4, '=');
                if char_at(t, q4, '=') {
                    lemma_ws_end_shift(s, t, k0, k1, q4 + 1);
                    lemma_ws_end(t, q4 + 1);
                    let q5 = ws_end(t, q4 + 1);
                    lemma_char_at_shift(s, t, k0, k1, q5, '"');
                }
            }
        }
    }
}

/// After the edited span, an edit changes no entry: entries of the edited
/// text are entries of the original, shifted by the change in length.
proof fn lemma_candidate_shift(
    s: Seq<char>,
    t: Seq<char>,
    k0: int,
    k1: int,
    name: Seq<char>,
    form: EntryForm,
    p: int,
    a: int,
)
    requires
        agree_after(s, t, k0, k1),
        k1 < p,
    ensures
        candidate(t, name, form, p, a) is Some ==> candidate(s, name, form, p - (k1 - k0), a) is Some,
{
    let d = k1 - k0;
    if candidate(t, name, form, p, a) is Some {
        assert(t[k1 + (p - 1 - k1)] == s[k0 + (p - 1 - k1)]);
        assert(all_white_space(s, p - d, p - d + a)) by {
            assert forall|k: int| p - d <= k < p - d + a implies is_white_space(#[trigger] s[k]) by {
                assert(t[k1 + (k + d - k1)] == s[k0 + (k + d - k1)]);
            }
        }
        lemma_lit_at_shift(s, t, k0, k1, p + a, name);
        let q = p + a + name.len();
        lemma_opening_shift(s, t, k0, k1, q, form);
        let o = opening_quote_end(t, q, form).unwrap();
        lemma_opening_shape(t, q, form);
        lemma_value_end_shift(s, t, k0, k1, o);
    }
}

/// An entry implies a first entry.
proof fn lemma_first_entry_exists(s: Seq<char>, name: Seq<char>, form: EntryForm, p: int, a: int)
    requires
        candidate(s, name, form, p, a) is Some,
    ensures
        exists|p2: int, a2: int| is_first_entry(s, name, form, p2, a2),
    decreases p, s.len() - a,
{
    if exists|p2: int, a2: int| p2 < p && #[trigger] candidate(s, name, form, p2, a2) is Some {
        let (p2, a2) = choose|p2: int, a2: int| p2 < p && #[trigger] candidate(s, name, form, p2, a2)
            is Some;
        lemma_first_entry_exists(s, name, form, p2, a2);
    } else if exists|a2: int| a2 > a && #[trigger] candidate(s, name, form, p, a2) is Some {
        let a2 = choose|a2: int| a2 > a && #[trigger] candidate(s, name, form, p, a2) is Some;
        lemma_first_entry_exists(s, name, form, p, a2);
    } else {
        assert(is_first_entry(s, name, form, p, a));
    }
}

/// `version_span` is the span of the first entry.
proof fn lemma_version_span_of_first(s: Seq<char>, name: Seq<char>, form: EntryForm, p: int, a: int)
    requires
        is_first_entry(s, name, form, p, a),
    ensures
        version_span(s, name, form) == candidate(s, name, form, p, a),
{
    let (p3, a3) = choose|p3: int, a3: int| is_first_entry(s, name, form, p3, a3);
    lemma_first_entry_unique(s, name, form, p, a, p3, a3);
}

/// The edit that `updated_text` makes: the form used, the entry edited and
/// its version span.
proof fn lemma_edited_entry(s: Seq<char>, name: Seq<char>, v: Seq<char>) -> (r: (EntryForm, int, int))
    requires
        updated_text(s, name, v) is Some,
    ensures
        is_first_entry(s, name, r.0, r.1, r.2),
        updated_text(s, name, v) == Some(splice(s, candidate(s, name, r.0, r.1, r.2).unwrap(), v)),
        declared_text(s, name) == Some(
            s.subrange(
                candidate(s, name, r.0, r.1, r.2).unwrap().0,
                candidate(s, name, r.0, r.1, r.2).unwrap().1,
            ),
        ),
        r.0 == EntryForm::Simple ==> !has_entry(s, name, EntryForm::Detailed),
        r.0 == (if version_span(s, name, EntryForm::Detailed) is Some {
            EntryForm::Detailed
        } else {
            EntryForm::Simple
        }),
{
    if version_span(s, name, EntryForm::Detailed) is Some {
        let (p, a) = choose|p: int, a: int| is_first_entry(s, name, EntryForm::Detailed, p, a);
        (EntryForm::Detailed, p, a)
    } else {
        if has_entry(s, name, EntryForm::Detailed) {
            let (p, a) = choose|p: int, a: int| #[trigger] candidate(s, name, EntryForm::Detailed, p, a)
                is Some;
            lemma_first_entry_exists(s, name, EntryForm::Detailed, p, a);
        }
        let (p, a) = choose|p: int, a: int| is_first_entry(s, name, EntryForm::Simple, p, a);
        (EntryForm::Simple, p, a)
    }
}

/// The facts about an edited span that the re-reading proof uses.
spec fn edit_setting(
    s: Seq<char>,
    t: Seq<char>,
    name: Seq<char>,
    v: Seq<char>,
    vs: int,
    ve: int,
) -> bool {
    &&& quote_free(name)
    &&& v.len() > 0
    &&& quote_free(v)
    &&& line_free(v)
    &&& 1 <= vs < ve < s.len()
    &&& s[vs - 1] == '"'
    &&& value_end(s, vs) == ve
    &&& t == splice(s, (vs, ve), v)
}

proof fn lemma_edit_setting_facts(
    s: Seq<char>,
    t: Seq<char>,
    name: Seq<char>,
    v: Seq<char>,
    vs: int,
    ve: int,
)
    requires
        edit_setting(s, t, name, v, vs, ve),
    ensures
        agree_before_quote(s, t, vs),
        vs + v.len() < t.len(),
        value_end(t, vs) == vs + v.len(),
        agree_after(s, t, ve, vs + v.len()),
        t.subrange(vs, vs + v.len()) == v,
{
    let m2 = vs + v.len();
    lemma_value_end(s, vs);
    assert(t.len() == s.len() - ve + m2);
    assert forall|i: int| 0 <= i < vs implies t[i] == s[i] by {}
    assert(t[m2] == s[ve]);
    assert forall|k: int| vs <= k < m2 implies t[k] != '"' by {
        assert(t[k] == v[k - vs]);
    }
    lemma_value_end_at(t, vs, m2);
    assert forall|j: int| 0 <= j < s.len() - ve implies #[trigger] t[m2 + j] == s[ve + j] by {}
    assert(t.subrange(vs, m2) =~= v);
}

/// The entry an edit changed is the first entry of the edited text, now
/// spanning the new version.
proof fn lemma_edit_keeps_entry(
    s: Seq<char>,
    t: Seq<char>,
    name: Seq<char>,
    v: Seq<char>,
    form: EntryForm,
    p: int,
    a: int,
    vs: int,
    ve: int,
)
    requires
        edit_setting(s, t, name, v, vs, ve),
        is_first_entry(s, name, form, p, a),
        candidate(s, name, form, p, a) == Some((vs, ve)),
        0 <= p < vs,
    ensures
        is_first_entry(t, name, form, p, a),
        candidate(t, name, form, p, a) == Some((vs, vs + v.len())),
{
    lemma_edit_setting_facts(s, t, name, v, vs, ve);
    lemma_candidate_prefix(s, t, vs, ve, v.len() as int, name, form, p, a);
    assert forall|p2: int, a2: int| p2 < p implies #[trigger] candidate(t, name, form, p2, a2) is None by {
        if p2 >= 0 {
            lemma_candidate_prefix(s, t, vs, ve, v.len() as int, name, form, p2, a2);
        }
    }
    assert forall|a2: int| a2 > a implies #[trigger] candidate(t, name, form, p, a2) is None by {
        lemma_candidate_prefix(s, t, vs, ve, v.len() as int, name, form, p, a2);
    }
}

/// An edit adds no detailed entry to a text that had none.
proof fn lemma_edit_adds_no_detailed(
    s: Seq<char>,
    t: Seq<char>,
    name: Seq<char>,
    v: Seq<char>,
    vs: int,
    ve: int,
)
    requires
        edit_setting(s, t, name, v, vs, ve),
        !has_entry(s, name, EntryForm::Detailed),
    ensures
        !has_entry(t, name, EntryForm::Detailed),
{
    lemma_edit_setting_facts(s, t, name, v, vs, ve);
    let m = vs;
    let m2 = vs + v.len();
    assert forall|p2: int, a2: int| #[trigger] candidate(t, name, EntryForm::Detailed, p2, a2)
        is None by {
        if p2 >= 0 && p2 < m {
            lemma_candidate_prefix(s, t, m, ve, v.len() as int, name, EntryForm::Detailed, p2, a2);
        } else if m <= p2 && p2 <= m2 {
            if p2 > m {
                assert(t[p2 - 1] == v[p2 - 1 - m]);
            }
            assert(!line_start(t, p2));
        } else if p2 > m2 {
            lemma_candidate_shift(s, t, ve, m2, name, EntryForm::Detailed, p2, a2);
        }
    }
}

/// The shape of an entry's version span.
proof fn lemma_candidate_shape(s: Seq<char>, name: Seq<char>, form: EntryForm, p: int, a: int)
    requires
        candidate(s, name, form, p, a) is Some,
    ensures
        ({
            let (vs, ve) = candidate(s, name, form, p, a).unwrap();
            &&& 0 <= p < vs
            &&& s[vs - 1] == '"'
            &&& value_end(s, vs) == ve
            &&& vs < ve < s.len()
        }),
{
    let q = p + a + name.len();
    lemma_opening_shape(s, q, form);
}

/// Reading and editing the edited text, given where its first entries are.
proof fn lemma_reread(
    s: Seq<char>,
    t: Seq<char>,
    name: Seq<char>,
    v: Seq<char>,
    v2: Seq<char>,
    form: EntryForm,
    vs: int,
    ve: int,
)
    requires
        version_span(t, name, form) == Some((vs, vs + v.len())),
        form == EntryForm::Simple ==> version_span(t, name, EntryForm::Detailed) is None,
        form == EntryForm::Simple ==> version_span(s, name, EntryForm::Detailed) is None,
        version_span(s, name, form) == Some((vs, ve)),
        0 <= vs <= ve <= s.len(),
        t == splice(s, (vs, ve), v),
    ensures
        declared_text(t, name) == Some(v),
        updated_text(t, name, v2) == updated_text(s, name, v2),
{
    assert(t.subrange(vs, vs + v.len()) =~= v);
    assert(splice(t, (vs, vs + v.len()), v2) =~= splice(s, (vs, ve), v2));
}

/// Reading back what an edit wrote: after setting the version of `name` to
/// `v`, the entry that an edit of `name` changes holds exactly `v`, and a
/// further edit gives the same text as editing the original directly (the
/// last write wins).  This holds for a name without quotes and a non-empty
/// version text without quotes or line breaks.
pub proof fn law_version_read_after_write(s: Seq<char>, name: Seq<char>, v: Seq<char>, v2: Seq<char>)
    requires
        updated_text(s, name, v) is Some,
        quote_free(name),
        v.len() > 0,
        quote_free(v),
        line_free(v),
    ensures
        declared_text(updated_text(s, name, v).unwrap(), name) == Some(v),
        updated_text(updated_text(s, name, v).unwrap(), name, v2) == updated_text(s, name, v2),
{
    let (form, p, a) = lemma_edited_entry(s, name, v);
    let (vs, ve) = candidate(s, name, form, p, a).unwrap();
    lemma_candidate_shape(s, name, form, p, a);
    let t = splice(s, (vs, ve), v);
    assert(edit_setting(s, t, name, v, vs, ve));
    lemma_edit_setting_facts(s, t, name, v, vs, ve);
    lemma_edit_keeps_entry(s, t, name, v, form, p, a, vs, ve);
    lemma_version_span_of_first(t, name, form, p, a);
    if form == EntryForm::Simple {
        lemma_edit_adds_no_detailed(s, t, name, v, vs, ve);
    }
    lemma_version_span_of_first(s, name, form, p, a);
    lemma_reread(s, t, name, v, v2, form, vs, ve);
}

/// An edit is undone by writing back the version it replaced: setting the
/// version of `name` to `v` and then back to the text it declared before
/// gives the original text.  This holds for a name without quotes and a
/// non-empty version text without quotes or line breaks.
pub proof fn law_version_edit_undone(s: Seq<char>, name: Seq<char>, v: Seq<char>)
    requires
        updated_text(s, name, v) is Some,
        quote_free(name),
        v.len() > 0,
        quote_free(v),
        line_free(v),
    ensures
        declared_text(s, name) is Some,
        updated_text(updated_text(s, name, v).unwrap(), name, declared_text(s, name).unwrap())
            == Some(s),
{
    let (form, p, a) = lemma_edited_entry(s, name, v);
    let (vs, ve) = candidate(s, name, form, p, a).unwrap();
    lemma_candidate_shape(s, name, form, p, a);
    lemma_version_span_of_first(s, name, form, p, a);
    let old = s.subrange(vs, ve);
    assert(declared_text(s, name) == Some(old));
    assert(updated_text(s, name, old) == Some(splice(s, (vs, ve), old)));
    assert(splice(s, (vs, ve), old) =~= s);
    law_version_read_after_write(s, name, v, old);
}

/// Why a version could not be written into manifest text.
#[derive(Debug)]
pub enum UpdateError {
    /// The text has no entry for the dependency in either form.
    DependencyNotFound { name: String },
    /// The dependency is inherited from a workspace whose root is unknown.
    NoWorkspaceRoot,
}

impl UpdateError {
    /// The message that reports the error.
    pub fn message(&self) -> (r: String)
        ensures
            r@ == match self {
                UpdateError::DependencyNotFound { name } => "Could not find dependency "@ + name@
                    + " in Cargo.toml"@,
                UpdateError::NoWorkspaceRoot => "No workspace root found for inherited dependency"@,
            },
    {
        match self {
            UpdateError::DependencyNotFound { name } => {
                let mut s = String::from_str("Could not find dependency ");
                s.append(name.as_str());
                s.append(" in Cargo.toml");
                s
            },
            UpdateError::NoWorkspaceRoot => String::from_str(
                "No workspace root found for inherited dependency",
            ),
        }
    }
}

/// Sets the version of `dep_name` in manifest text `content` to `new_version`.
///
/// The first entry in detailed form is edited if there is one, otherwise the
/// first entry in simple form; only the version text between its quotes
/// changes.  Fails when the text has an entry in neither form.
pub fn update_version_in_content(content: &str, dep_name: &str, new_version: &str) -> (r: Result<
    String,
    UpdateError,
>)
    ensures
        r is Ok <==> updated_text(content@, dep_name@, new_version@) is Some,
        r matches Ok(out) ==> Some(out@) == updated_text(content@, dep_name@, new_version@),
        r matches Err(e) ==> e matches UpdateError::DependencyNotFound { name } && name@
            == dep_name@,
        r is Err <==> !has_entry(content@, dep_name@, EntryForm::Detailed) && !has_entry(
            content@,
            dep_name@,
            EntryForm::Simple,
        ),
{
    let s = to_chars(content);
    let name = to_chars(dep_name);
    let v = to_chars(new_version);
    match find_first_entry(&s, &name, EntryForm::Detailed) {
        Some((vs, ve)) => Ok(splice_exec(&s, vs, ve, &v)),
        None => match find_first_entry(&s, &name, EntryForm::Simple) {
            Some((vs, ve)) => Ok(splice_exec(&s, vs, ve, &v)),
            None => Err(UpdateError::DependencyNotFound { name: String::from_str(dep_name) }),
        },
    }
}

} // verus!
