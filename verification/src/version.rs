//! Semantic versions: the library's own model of `semver::Version`, parsing
//! and ordering through the `semver` crate, display, and the reading of a
//! version out of a dependency requirement such as `^1.2`.

use vstd::prelude::*;
use vstd::string::*;
use crate::version_edit::{line_free, quote_free};
use crate::text::{
    count_char, count_occurrences, decimal, lemma_count_char_concat, lemma_decimal_has_no_dot,
    push_decimal, skip_leading_ws, drop_trailing_ws,
    string_of_range, to_chars, trim, trim_end_ws, trim_start_ws, is_white_space,
};

verus! {

/// The mathematical content of a version.
pub struct VersionView {
    pub major: u64,
    pub minor: u64,
    pub patch: u64,
    pub pre: Seq<char>,
    pub build: Seq<char>,
}

/// The view of the plain release `major.minor.patch`.
pub open spec fn release(major: u64, minor: u64, patch: u64) -> VersionView {
    VersionView { major, minor, patch, pre: Seq::empty(), build: Seq::empty() }
}

/// A character allowed inside a pre-release or build identifier.
pub open spec fn is_identifier_char(c: char) -> bool {
    let u = c as u32;
    ||| 0x30 <= u <= 0x39
    ||| 0x41 <= u <= 0x5a
    ||| 0x61 <= u <= 0x7a
    ||| c == '-'
}

/// An ASCII digit.
pub open spec fn is_ascii_digit(c: char) -> bool {
    0x30 <= (c as u32) <= 0x39
}

/// End of the identifier (run of non-dot characters) starting at `i`.
pub open spec fn segment_end(s: Seq<char>, i: int) -> int
    decreases s.len() - i,
{
    if 0 <= i < s.len() && s[i] != '.' {
        segment_end(s, i + 1)
    } else {
        i
    }
}

/// Position `i` starts an identifier of `s`.
pub open spec fn segment_start(s: Seq<char>, i: int) -> bool {
    0 <= i < s.len() && (i == 0 || s[i - 1] == '.')
}

/// Non-empty identifiers of `[0-9A-Za-z-]` separated by single dots.
pub open spec fn dot_separated_identifiers(s: Seq<char>) -> bool {
    &&& s.len() > 0
    &&& forall|k: int| 0 <= k < s.len() ==> is_identifier_char(#[trigger] s[k]) || s[k] == '.'
    &&& s[0] != '.'
    &&& s.last() != '.'
    &&& forall|k: int| 0 <= k < s.len() - 1 ==> !(#[trigger] s[k] == '.' && s[k + 1] == '.')
}

/// Text that `semver::Prerelease::new` accepts: empty, or dot-separated
/// identifiers of which none is a numeric identifier with a leading zero.
pub open spec fn valid_prerelease_text(s: Seq<char>) -> bool {
    s.len() == 0 || (dot_separated_identifiers(s) && forall|i: int|
        #![trigger segment_start(s, i)]
        segment_start(s, i) && s[i] == '0' && segment_end(s, i) > i + 1 ==> exists|k: int|
            i <= k < segment_end(s, i) && !is_ascii_digit(#[trigger] s[k]))
}

/// Text that `semver::BuildMetadata::new` accepts: empty, or dot-separated
/// identifiers.
pub open spec fn valid_build_text(s: Seq<char>) -> bool {
    s.len() == 0 || dot_separated_identifiers(s)
}

/// A semantic version `major.minor.patch[-pre][+build]`.
#[derive(PartialEq, Eq, Debug)]
pub struct Version {
    major: u64,
    minor: u64,
    patch: u64,
    pre: String,
    build: String,
}

impl View for Version {
    type V = VersionView;

    closed spec fn view(&self) -> VersionView {
        VersionView {
            major: self.major,
            minor: self.minor,
            patch: self.patch,
            pre: self.pre@,
            build: self.build@,
        }
    }
}

/// The view of an optional version.
pub open spec fn opt_view(v: Option<Version>) -> Option<VersionView> {
    match v {
        Some(x) => Some(x@),
        None => None,
    }
}

impl Version {
    /// Pre-release and build text are what `semver` accepts.
    #[verifier::type_invariant]
    spec fn well_formed(self) -> bool {
        valid_prerelease_text(self.pre@) && valid_build_text(self.build@)
    }

    /// The release `major.minor.patch`, without pre-release or build text.
    pub fn new(major: u64, minor: u64, patch: u64) -> (r: Self)
        ensures
            r@ == release(major, minor, patch),
    {
        Version { major, minor, patch, pre: String::new(), build: String::new() }
    }

    /// The major version number.
    pub fn major(&self) -> (r: u64)
        ensures
            r == self@.major,
    {
        self.major
    }

    /// The minor version number.
    pub fn minor(&self) -> (r: u64)
        ensures
            r == self@.minor,
    {
        self.minor
    }

    /// The patch version number.
    pub fn patch(&self) -> (r: u64)
        ensures
            r == self@.patch,
    {
        self.patch
    }

    /// The pre-release text (empty for a release).
    pub fn pre(&self) -> (r: &str)
        ensures
            r@ == self@.pre,
    {
        self.pre.as_str()
    }

    /// The build metadata text (empty when there is none).
    pub fn build(&self) -> (r: &str)
        ensures
            r@ == self@.build,
    {
        self.build.as_str()
    }

    /// A copy of this version.
    pub fn copy(&self) -> (r: Self)
        ensures
            r@ == self@,
    {
        proof {
            use_type_invariant(self);
        }
        Version {
            major: self.major,
            minor: self.minor,
            patch: self.patch,
            pre: self.pre.clone(),
            build: self.build.clone(),
        }
    }

    /// The text `major.minor.patch`, then `-pre` and `+build` when present.
    pub fn to_string(&self) -> (r: String)
        ensures
            r@ == version_text(self@),
    {
        let mut out = String::new();
        push_decimal(&mut out, self.major);
        out.append(".");
        push_decimal(&mut out, self.minor);
        out.append(".");
        push_decimal(&mut out, self.patch);
        proof {
            reveal_strlit(".");
        }
        let ghost core = out@;
        assert(core =~= core_text(self.major, self.minor, self.patch));
        if !self.pre.as_str().is_empty() {
            out.append("-");
            out.append(self.pre.as_str());
        }
        let ghost with_pre = out@;
        if !self.build.as_str().is_empty() {
            out.append("+");
            out.append(self.build.as_str());
        }
        proof {
            reveal_strlit("-");
            reveal_strlit("+");
        }
        assert(out@ =~= version_text(self@));
        out
    }
}

impl Clone for Version {
    fn clone(&self) -> (r: Self)
        ensures
            r@ == self@,
    {
        self.copy()
    }
}

/// `major.minor.patch` in decimal notation.
pub open spec fn core_text(major: u64, minor: u64, patch: u64) -> Seq<char> {
    decimal(major as nat) + seq!['.'] + decimal(minor as nat) + seq!['.'] + decimal(patch as nat)
}

/// The text of a version, as `semver`'s `Display` writes it.
pub open spec fn version_text(v: VersionView) -> Seq<char> {
    core_text(v.major, v.minor, v.patch) + (if v.pre.len() > 0 {
        seq!['-'] + v.pre
    } else {
        Seq::empty()
    }) + (if v.build.len() > 0 {
        seq!['+'] + v.build
    } else {
        Seq::empty()
    })
}

/// What `semver::Version::parse` gives for a text (`None` on a parse error).
pub uninterp spec fn semver_parse(text: Seq<char>) -> Option<VersionView>;

/// A character that can occur in a version text: an ASCII digit or letter,
/// `-`, `.` or `+`.
pub open spec fn is_version_char(c: char) -> bool {
    is_identifier_char(c) || c == '.' || c == '+'
}

/// The shape of every text that `semver::Version::parse` accepts: it starts
/// with an ASCII digit and holds version characters only.
pub open spec fn version_shaped(s: Seq<char>) -> bool {
    &&& s.len() > 0
    &&& is_ascii_digit(s[0])
    &&& forall|k: int| 0 <= k < s.len() ==> is_version_char(#[trigger] s[k])
}

/// `semver::Version::parse`.  Claims: the result is `semver_parse` of the
/// text; `x.y.z` in plain decimal parses to that release; a text with fewer
/// than two dots does not parse; a text that parses starts with a digit and
/// holds only ASCII digits and letters, `-`, `.` and `+`; and (by the type
/// invariant of `Version`) a parsed pre-release or build text is one that
/// `semver` accepts again.
#[verifier::external_body]
fn parse_semver(text: &str) -> (r: Option<Version>)
    ensures
        opt_view(r) == semver_parse(text@),
        r is Some ==> version_shaped(text@),
        forall|x: u64, y: u64, z: u64|
            text@ == #[trigger] core_text(x, y, z) ==> opt_view(r) == Some(release(x, y, z)),
        count_char(text@, '.') < 2 ==> r is None,
{
    match semver::Version::parse(text) {
        Ok(v) => Some(
            Version {
                major: v.major,
                minor: v.minor,
                patch: v.patch,
                pre: v.pre.as_str().to_string(),
                build: v.build.as_str().to_string(),
            },
        ),
        Err(_) => None,
    }
}

/// `a` orders at or before `b` in `semver::Version`'s total order.
pub uninterp spec fn semver_le(a: VersionView, b: VersionView) -> bool;

/// `(major, minor, patch)` of `a` is lexicographically below that of `b`.
pub open spec fn core_lt(a: VersionView, b: VersionView) -> bool {
    ||| a.major < b.major
    ||| a.major == b.major && a.minor < b.minor
    ||| a.major == b.major && a.minor == b.minor && a.patch < b.patch
}

/// `a` and `b` have the same `(major, minor, patch)`.
pub open spec fn core_eq(a: VersionView, b: VersionView) -> bool {
    a.major == b.major && a.minor == b.minor && a.patch == b.patch
}

/// `<=` on `semver::Version`.  Claims: the result is `semver_le`; the order
/// compares `(major, minor, patch)` first; with equal numbers a pre-release
/// orders below the release; every version is `<=` itself.
#[verifier::external_body]
fn semver_less_or_equal(a: &Version, b: &Version) -> (r: bool)
    ensures
        r == semver_le(a@, b@),
        core_lt(a@, b@) ==> r,
        core_lt(b@, a@) ==> !r,
        core_eq(a@, b@) && a@.pre.len() > 0 && b@.pre.len() == 0 ==> r,
        core_eq(a@, b@) && a@.pre.len() == 0 && b@.pre.len() > 0 ==> !r,
        a@ == b@ ==> r,
{
    let x = semver::Version {
        major: a.major,
        minor: a.minor,
        patch: a.patch,
        pre: semver::Prerelease::new(&a.pre).unwrap(),
        build: semver::BuildMetadata::new(&a.build).unwrap(),
    };
    let y = semver::Version {
        major: b.major,
        minor: b.minor,
        patch: b.patch,
        pre: semver::Prerelease::new(&b.pre).unwrap(),
        build: semver::BuildMetadata::new(&b.build).unwrap(),
    };
    x <= y
}

/// `a <= b` in semantic-version order.
pub fn version_le(a: &Version, b: &Version) -> (r: bool)
    ensures
        r == semver_le(a@, b@),
        core_lt(a@, b@) ==> r,
        core_lt(b@, a@) ==> !r,
        core_eq(a@, b@) && a@.pre.len() > 0 && b@.pre.len() == 0 ==> r,
        core_eq(a@, b@) && a@.pre.len() == 0 && b@.pre.len() > 0 ==> !r,
        a@ == b@ ==> r,
{
    semver_less_or_equal(a, b)
}

/// `major.minor` in decimal notation.
pub open spec fn minor_text(major: u64, minor: u64) -> Seq<char> {
    decimal(major as nat) + seq!['.'] + decimal(minor as nat)
}

/// Parses a full semantic version such as `1.2.3` or `1.0.0-rc.1+build.5`.
pub fn parse_version(text: &str) -> (r: Option<Version>)
    ensures
        opt_view(r) == semver_parse(text@),
        r is Some ==> version_shaped(text@),
        forall|x: u64, y: u64, z: u64|
            text@ == #[trigger] core_text(x, y, z) ==> opt_view(r) == Some(release(x, y, z)),
        count_char(text@, '.') < 2 ==> r is None,
{
    parse_semver(text)
}

/// A requirement operator character: `^`, `~`, `=`, `>` or `<`.
pub open spec fn is_requirement_operator(c: char) -> bool {
    c == '^' || c == '~' || c == '=' || c == '>' || c == '<'
}

/// `s` without its leading run of the character `c`.
pub open spec fn trim_start_char(s: Seq<char>, c: char) -> Seq<char>
    decreases s.len(),
{
    if s.len() > 0 && s[0] == c {
        trim_start_char(s.drop_first(), c)
    } else {
        s
    }
}

/// `s` without its leading requirement operators: the leading runs of `^`,
/// `~`, `=`, `>`, `=` again (so that `>=` goes as one operator) and `<` are
/// removed, one after the other in that order.
pub open spec fn trim_start_operators(s: Seq<char>) -> Seq<char> {
    trim_start_char(
        trim_start_char(
            trim_start_char(
                trim_start_char(trim_start_char(trim_start_char(s, '^'), '~'), '='),
                '>',
            ),
            '=',
        ),
        '<',
    )
}

/// The version text of a requirement: surrounding white space removed, then
/// the leading operators (`trim_start_operators`), then surrounding white
/// space again.
pub open spec fn requirement_core(req: Seq<char>) -> Seq<char> {
    trim(trim_start_operators(trim(req)))
}

/// Removing a run of `c` from text followed by a body that does not start
/// with `c` leaves the body after whatever remains of the text.
proof fn lemma_trim_char_concat(x: Seq<char>, body: Seq<char>, c: char)
    requires
        body.len() > 0,
        body[0] != c,
    ensures
        trim_start_char(x + body, c) == trim_start_char(x, c) + body,
    decreases x.len(),
{
    if x.len() == 0 {
        assert(x + body =~= body);
        assert(trim_start_char(x, c) + body =~= body);
    } else if x[0] == c {
        assert((x + body)[0] == c);
        assert((x + body).drop_first() =~= x.drop_first() + body);
        lemma_trim_char_concat(x.drop_first(), body, c);
    } else {
        assert((x + body)[0] == x[0]);
    }
}

/// Removing the operators from text followed by a body that does not start
/// with an operator leaves the body after whatever remains of the text.
proof fn lemma_trim_operators_concat(x: Seq<char>, body: Seq<char>)
    requires
        body.len() > 0,
        !is_requirement_operator(body[0]),
    ensures
        trim_start_operators(x + body) == trim_start_operators(x) + body,
{
    let x1 = trim_start_char(x, '^');
    let x2 = trim_start_char(x1, '~');
    let x3 = trim_start_char(x2, '=');
    let x4 = trim_start_char(x3, '>');
    let x5 = trim_start_char(x4, '=');
    lemma_trim_char_concat(x, body, '^');
    lemma_trim_char_concat(x1, body, '~');
    lemma_trim_char_concat(x2, body, '=');
    lemma_trim_char_concat(x3, body, '>');
    lemma_trim_char_concat(x4, body, '=');
    lemma_trim_char_concat(x5, body, '<');
}

/// Text that does not start with an operator keeps all of it.
proof fn lemma_trim_operators_none(s: Seq<char>)
    requires
        s.len() == 0 || !is_requirement_operator(s[0]),
    ensures
        trim_start_operators(s) == s,
{
}

/// The version that a requirement names does not depend on its leading
/// operators: with `ops` one of `^`, `~`, `=`, `>`, `<`, `>=` (or a run that
/// the reading removes whole, such as `^^`), `ops` followed by the version
/// text names what the text alone names (for a text that starts with a
/// digit and does not end with white space).
pub proof fn law_requirement_operators_ignored(ops: Seq<char>, body: Seq<char>)
    requires
        trim_start_operators(ops) == Seq::<char>::empty(),
        body.len() > 0,
        is_ascii_digit(body[0]),
        !is_white_space(body.last()),
    ensures
        requirement_core(ops + body) == body,
        required_version(ops + body) == required_version(body),
{
    let s = ops + body;
    assert(s.len() > 0);
    assert(!is_white_space(s[0])) by {
        if ops.len() > 0 {
            assert(s[0] == ops[0]);
            if !is_requirement_operator(ops[0]) {
                lemma_trim_operators_none(ops);
            }
        } else {
            assert(s[0] == body[0]);
        }
    }
    assert(trim_start_ws(s) == s);
    assert(s.last() == body.last());
    assert(trim_end_ws(s) == s);
    assert(trim(s) == s);
    lemma_trim_operators_concat(ops, body);
    assert(Seq::<char>::empty() + body =~= body);
    assert(trim_start_ws(body) == body);
    assert(trim_end_ws(body) == body);
    lemma_trim_operators_none(body);
}

/// Leading white space before text that starts with something else is
/// removed by `trim_start_ws`.
proof fn lemma_trim_start_ws_prefix(w: Seq<char>, u: Seq<char>)
    requires
        forall|i: int| 0 <= i < w.len() ==> is_white_space(#[trigger] w[i]),
        u.len() == 0 || !is_white_space(u[0]),
    ensures
        trim_start_ws(w + u) == u,
    decreases w.len(),
{
    if w.len() == 0 {
        assert(w + u =~= u);
    } else {
        assert((w + u)[0] == w[0]);
        assert((w + u).drop_first() =~= w.drop_first() + u);
        assert forall|i: int| 0 <= i < w.drop_first().len() implies is_white_space(
            #[trigger] w.drop_first()[i],
        ) by {
            assert(w.drop_first()[i] == w[i + 1]);
        }
        lemma_trim_start_ws_prefix(w.drop_first(), u);
    }
}

/// Trailing white space after text that ends with something else is
/// removed by `trim_end_ws`.
proof fn lemma_trim_end_ws_suffix(u: Seq<char>, w: Seq<char>)
    requires
        forall|i: int| 0 <= i < w.len() ==> is_white_space(#[trigger] w[i]),
        u.len() == 0 || !is_white_space(u.last()),
    ensures
        trim_end_ws(u + w) == u,
    decreases w.len(),
{
    if w.len() == 0 {
        assert(u + w =~= u);
    } else {
        assert((u + w).last() == w.last());
        assert((u + w).drop_last() =~= u + w.drop_last());
        assert forall|i: int| 0 <= i < w.drop_last().len() implies is_white_space(
            #[trigger] w.drop_last()[i],
        ) by {
            assert(w.drop_last()[i] == w[i]);
        }
        lemma_trim_end_ws_suffix(u, w.drop_last());
    }
}

/// A text that `semver` parses to `v` names `v` as a requirement too: bare,
/// after leading operators that the reading removes whole (such as `^`, `~`
/// or `>=`), and with white space around it.  (`version_shaped` holds of every text that `semver` parses:
/// `parse_version` states it of each text it reads.)
pub proof fn law_parsed_text_as_requirement(
    s: Seq<char>,
    v: VersionView,
    before: Seq<char>,
    ops: Seq<char>,
    after: Seq<char>,
)
    requires
        semver_parse(s) == Some(v),
        version_shaped(s),
        forall|i: int| 0 <= i < before.len() ==> is_white_space(#[trigger] before[i]),
        trim_start_operators(ops) == Seq::<char>::empty(),
        forall|i: int| 0 <= i < after.len() ==> is_white_space(#[trigger] after[i]),
    ensures
        required_version(before + ops + s + after) == Some(v),
        requirement_core(before + ops + s + after) == s,
{
    let body = ops + s;
    let t = before + ops + s + after;
    assert(is_version_char(s[0]));
    assert(is_version_char(s[s.len() - 1]));
    assert(!is_white_space(s.last()));
    assert(!is_white_space(body[0])) by {
        if ops.len() > 0 {
            assert(body[0] == ops[0]);
            if !is_requirement_operator(ops[0]) {
                lemma_trim_operators_none(ops);
            }
        } else {
            assert(body[0] == s[0]);
        }
    }
    assert(body.last() == s.last());
    assert(t =~= before + (body + after));
    assert((body + after).len() > 0 && (body + after)[0] == body[0]);
    lemma_trim_start_ws_prefix(before, body + after);
    lemma_trim_end_ws_suffix(body, after);
    assert(trim(t) == body);
    law_requirement_operators_ignored(ops, s);
    let e = Seq::<char>::empty();
    lemma_trim_start_ws_prefix(e, body);
    lemma_trim_end_ws_suffix(body, e);
    assert(e + body =~= body);
    assert(body + e =~= body);
    assert(trim(body) == body);
}

/// The text of a release is its three numbers in decimal notation,
/// separated by dots — the form that `parse_version` reads back as that
/// release.
pub proof fn law_release_text(major: u64, minor: u64, patch: u64)
    ensures
        version_text(release(major, minor, patch)) == core_text(major, minor, patch),
{
    let v = release(major, minor, patch);
    assert(version_text(v) =~= core_text(major, minor, patch));
}

/// Decimal notation is a non-empty run of ASCII digits.
proof fn lemma_decimal_digits(n: nat)
    ensures
        decimal(n).len() > 0,
        forall|i: int| 0 <= i < decimal(n).len() ==> is_ascii_digit(#[trigger] decimal(n)[i]),
    decreases n,
{
    if n >= 10 {
        lemma_decimal_digits(n / 10);
        let d = decimal(n);
        assert forall|i: int| 0 <= i < d.len() implies is_ascii_digit(#[trigger] d[i]) by {
            if i < d.len() - 1 {
                assert(d[i] == decimal(n / 10)[i]);
            }
        }
    }
}

/// The text of a release, as written into a manifest, is read back as that
/// release: it is non-empty, holds no quote or line break (so an edit
/// writes it whole), and is its own requirement core (so
/// `parse_version_req` reads it as the release).
pub proof fn law_release_text_reads_back(major: u64, minor: u64, patch: u64)
    ensures
        version_text(release(major, minor, patch)) == core_text(major, minor, patch),
        core_text(major, minor, patch).len() > 0,
        quote_free(core_text(major, minor, patch)),
        line_free(core_text(major, minor, patch)),
        requirement_core(core_text(major, minor, patch)) == core_text(major, minor, patch),
{
    law_release_text(major, minor, patch);
    let x = decimal(major as nat);
    let y = decimal(minor as nat);
    let z = decimal(patch as nat);
    lemma_decimal_digits(major as nat);
    lemma_decimal_digits(minor as nat);
    lemma_decimal_digits(patch as nat);
    let c = core_text(major, minor, patch);
    assert(c == x + seq!['.'] + y + seq!['.'] + z);
    assert forall|i: int| 0 <= i < c.len() implies is_ascii_digit(#[trigger] c[i]) || c[i] == '.' by {
        if i < x.len() {
            assert(c[i] == x[i]);
        } else if i == x.len() {
        } else if i < x.len() + 1 + y.len() {
            assert(c[i] == y[i - x.len() - 1]);
        } else if i == x.len() + 1 + y.len() {
        } else {
            assert(c[i] == z[i - x.len() - 2 - y.len()]);
        }
    }
    assert(c[0] == x[0]);
    assert(c.last() == z.last());
    let e = Seq::<char>::empty();
    law_requirement_operators_ignored(e, c);
    assert(e + c =~= c);
}

/// Moves `lo` past the leading run of `c` in `s[lo..hi]`.
fn skip_char(s: &Vec<char>, lo: usize, hi: usize, c: char) -> (r: usize)
    requires
        lo <= hi <= s@.len(),
    ensures
        lo <= r <= hi,
        s@.subrange(r as int, hi as int) == trim_start_char(s@.subrange(lo as int, hi as int), c),
{
    let mut i = lo;
    while i < hi && s[i] == c
        invariant
            lo <= i <= hi <= s@.len(),
            trim_start_char(s@.subrange(i as int, hi as int), c) == trim_start_char(
                s@.subrange(lo as int, hi as int),
                c,
            ),
        decreases hi - i,
    {
        assert(s@.subrange(i as int, hi as int).drop_first() =~= s@.subrange(i + 1, hi as int));
        i = i + 1;
    }
    i
}

/// Moves `lo` past the leading requirement operators of `s[lo..hi]`.
fn skip_operators(s: &Vec<char>, lo: usize, hi: usize) -> (r: usize)
    requires
        lo <= hi <= s@.len(),
    ensures
        lo <= r <= hi,
        s@.subrange(r as int, hi as int) == trim_start_operators(s@.subrange(lo as int, hi as int)),
{
    let i = skip_char(s, lo, hi, '^');
    let i = skip_char(s, i, hi, '~');
    let i = skip_char(s, i, hi, '=');
    let i = skip_char(s, i, hi, '>');
    let i = skip_char(s, i, hi, '=');
    skip_char(s, i, hi, '<')
}

/// Completes `1` to `1.0.0` and `1.2` to `1.2.0`; leaves other text as is.
pub open spec fn normalized(v: Seq<char>) -> Seq<char> {
    if count_char(v, '.') == 0 {
        v + seq!['.', '0', '.', '0']
    } else if count_char(v, '.') == 1 {
        v + seq!['.', '0']
    } else {
        v
    }
}

/// The version that a requirement names: its core parsed as a version, or
/// else the completed core parsed.
pub open spec fn required_version(req: Seq<char>) -> Option<VersionView> {
    let core = requirement_core(req);
    match semver_parse(core) {
        Some(v) => Some(v),
        None => semver_parse(normalized(core)),
    }
}

/// Completes a version with missing components: `"1"` becomes `"1.0.0"`,
/// `"1.0"` becomes `"1.0.0"`; a text with two or more dots is returned
/// unchanged.
pub fn normalize_version(version: &str) -> (r: String)
    ensures
        r@ == normalized(version@),
{
    let chars = to_chars(version);
    let dots = count_occurrences(&chars, '.');
    let mut out = String::from_str(version);
    proof {
        reveal_strlit(".0.0");
        reveal_strlit(".0");
    }
    if dots == 0 {
        out.append(".0.0");
    } else if dots == 1 {
        out.append(".0");
    }
    assert(out@ =~= normalized(version@));
    out
}

/// The concrete version named by a requirement such as `1.0.5`, `^1.0`,
/// `~1`, `>=1.0.5` or ` 1.2 `: surrounding white space and leading
/// operators are removed, and missing minor or patch numbers count as 0.
/// The leading runs of `^`, `~`, `=`, `>`, `=` and `<` are removed in that
/// order (`trim_start_operators`), so `>=1.0.5` names 1.0.5, while
/// `<=1.0.5`, `=^1.0.5` and `~^1.0` name none.
pub fn parse_version_req(req: &str) -> (r: Option<Version>)
    ensures
        opt_view(r) == required_version(req@),
        forall|x: u64, y: u64, z: u64|
            requirement_core(req@) == #[trigger] core_text(x, y, z) ==> opt_view(r) == Some(
                release(x, y, z),
            ),
        forall|x: u64, y: u64|
            requirement_core(req@) == #[trigger] minor_text(x, y) ==> opt_view(r) == Some(
                release(x, y, 0),
            ),
        forall|x: u64|
            requirement_core(req@) == #[trigger] decimal(x as nat) ==> opt_view(r) == Some(
                release(x, 0, 0),
            ),
{
    let s = to_chars(req);
    let n = s.len();
    let lo = skip_leading_ws(&s, 0, n);
    let hi = drop_trailing_ws(&s, lo, n);
    let lo = skip_operators(&s, lo, hi);
    let lo2 = skip_leading_ws(&s, lo, hi);
    let hi2 = drop_trailing_ws(&s, lo2, hi);
    let cleaned = string_of_range(&s, lo2, hi2);
    proof {
        assert(s@.subrange(0, n as int) =~= s@);
    }
    let ghost core = cleaned@;
    let first = parse_semver(cleaned.as_str());
    match first {
        Some(v) => {
            proof {
                assert forall|x: u64, y: u64| core != #[trigger] minor_text(x, y) by {
                    lemma_minor_text_dots(x, y);
                }
                assert forall|x: u64| core != #[trigger] decimal(x as nat) by {
                    lemma_decimal_has_no_dot(x as nat);
                }
            }
            Some(v)
        },
        None => {
            let normalized_text = normalize_version(cleaned.as_str());
            let second = parse_semver(normalized_text.as_str());
            proof {
                assert forall|x: u64, y: u64, z: u64| core == #[trigger] core_text(x, y, z) implies opt_view(
                    second,
                ) == Some(release(x, y, z)) by {
                    assert(first is Some);
                }
                assert forall|x: u64, y: u64| core == #[trigger] minor_text(x, y) implies opt_view(
                    second,
                ) == Some(release(x, y, 0)) by {
                    lemma_minor_text_dots(x, y);
                    assert(decimal(0) =~= seq!['0']);
                    assert(normalized(core) =~= core_text(x, y, 0));
                }
                assert forall|x: u64| core == #[trigger] decimal(x as nat) implies opt_view(second)
                    == Some(release(x, 0, 0)) by {
                    lemma_decimal_has_no_dot(x as nat);
                    assert(decimal(0) =~= seq!['0']);
                    assert(normalized(core) =~= core_text(x, 0, 0));
                }
            }
            second
        },
    }
}

proof fn lemma_minor_text_dots(x: u64, y: u64)
    ensures
        count_char(minor_text(x, y), '.') == 1,
{
    lemma_decimal_has_no_dot(x as nat);
    lemma_decimal_has_no_dot(y as nat);
    lemma_count_char_concat(decimal(x as nat), seq!['.'], '.');
    lemma_count_char_concat(decimal(x as nat) + seq!['.'], decimal(y as nat), '.');
    assert(seq!['.'].drop_last() =~= Seq::<char>::empty());
    assert(count_char(Seq::<char>::empty(), '.') == 0);
    assert(count_char(seq!['.'], '.') == 1);
}

} // verus!
