//! The [`Version`] type: a comparable value parsed leniently from a tag
//! string.
//!
//! A version keeps the original tag text for display and rewriting, and a
//! best-effort structured parse.  Two versions compare by the structured
//! parse first — numeric components, then pre-release precedence, then
//! build metadata — and unparseable tags order below parseable ones in a
//! stable fallback order on the raw text.  The whole order is deterministic
//! for a fixed input set, which is what makes "latest" well defined.

use vstd::prelude::*;
use vstd::string::StrSliceExecFns;

verus! {

/// Mathematical model of a structured version: the numeric components and
/// the pre-release / build-metadata identifier strings.
pub ghost struct SemVerView {
    pub major: u64,
    pub minor: u64,
    pub patch: u64,
    pub pre: Seq<char>,
    pub build: Seq<char>,
}

/// A structured version as produced by the lenient tag parse.
#[derive(Debug, PartialEq, Eq, Hash)]
pub struct SemVer {
    pub major: u64,
    pub minor: u64,
    pub patch: u64,
    /// Dot-separated pre-release identifiers; empty for a plain release.
    pub pre: String,
    /// Dot-separated build-metadata identifiers; empty when absent.
    pub build: String,
}

impl View for SemVer {
    type V = SemVerView;

    open spec fn view(&self) -> SemVerView {
        SemVerView {
            major: self.major,
            minor: self.minor,
            patch: self.patch,
            pre: self.pre@,
            build: self.build@,
        }
    }
}

impl DeepView for SemVer {
    type V = SemVerView;

    open spec fn deep_view(&self) -> SemVerView {
        self@
    }
}

impl Clone for SemVer {
    fn clone(&self) -> (r: Self)
        ensures
            r == *self,
    {
        SemVer {
            major: self.major,
            minor: self.minor,
            patch: self.patch,
            pre: self.pre.clone(),
            build: self.build.clone(),
        }
    }
}

/// Mathematical model of a [`Version`]: the optional structured parse and
/// the original tag text.
pub ghost struct VersionView {
    pub semver: Option<SemVerView>,
    pub string: Seq<char>,
}

/// A tag string together with its best-effort structured parse.
#[derive(Debug, PartialEq, Eq, Hash)]
pub struct Version {
    /// The structured parse, absent when the tag has no such reading.
    pub version: Option<SemVer>,
    /// The original tag text.
    pub string: String,
}

impl View for Version {
    type V = VersionView;

    open spec fn view(&self) -> VersionView {
        VersionView {
            semver: match self.version {
                Some(sv) => Some(sv@),
                None => None,
            },
            string: self.string@,
        }
    }
}

impl DeepView for Version {
    type V = VersionView;

    open spec fn deep_view(&self) -> VersionView {
        self@
    }
}

impl Clone for Version {
    fn clone(&self) -> (r: Self)
        ensures
            r == *self,
    {
        Version {
            version: match &self.version {
                Some(sv) => Some(sv.clone()),
                None => None,
            },
            string: self.string.clone(),
        }
    }
}

// ---------------------------------------------------------------------------
// The order, in specification form.  Comparisons return -1, 0 or 1.
// ---------------------------------------------------------------------------
/// Lexicographic comparison of two character sequences by code point,
/// shorter prefix first.
pub open spec fn cmp_chars(a: Seq<char>, b: Seq<char>) -> int
    decreases a.len(),
{
    if a.len() == 0 && b.len() == 0 {
        0
    } else if a.len() == 0 {
        -1
    } else if b.len() == 0 {
        1
    } else if (a[0] as u32) == (b[0] as u32) {
        cmp_chars(a.drop_first(), b.drop_first())
    } else if (a[0] as u32) < (b[0] as u32) {
        -1
    } else {
        1
    }
}

pub open spec fn spec_is_digit(c: char) -> bool {
    48 <= c as u32 <= 57
}

/// True when every character of `s` is an ASCII digit (vacuously true of
/// the empty sequence, as for the underlying byte test).
pub open spec fn all_digits(s: Seq<char>) -> bool {
    forall|i: int| 0 <= i < s.len() ==> spec_is_digit(#[trigger] s[i])
}

/// Index of the first `'.'` in `s`, or `s.len()` when there is none.
pub open spec fn first_dot(s: Seq<char>) -> int
    decreases s.len(),
{
    if s.len() == 0 {
        0
    } else if s[0] == '.' {
        0
    } else {
        1 + first_dot(s.drop_first())
    }
}

pub proof fn lemma_first_dot_bounds(s: Seq<char>)
    ensures
        0 <= first_dot(s) <= s.len(),
    decreases s.len(),
{
    if s.len() > 0 && s[0] != '.' {
        lemma_first_dot_bounds(s.drop_first());
    }
}

/// `s` with its leading `'0'` characters removed.
pub open spec fn drop_zeros(s: Seq<char>) -> Seq<char>
    decreases s.len(),
{
    if s.len() > 0 && s[0] == '0' {
        drop_zeros(s.drop_first())
    } else {
        s
    }
}

/// Precedence of two pre-release identifiers: all-digit identifiers
/// compare numerically (by length, then lexically) and below any
/// identifier with letters; the rest compare lexically.
pub open spec fn cmp_pre_ident(a: Seq<char>, b: Seq<char>) -> int {
    if all_digits(a) && all_digits(b) {
        if a.len() < b.len() {
            -1
        } else if a.len() > b.len() {
            1
        } else {
            cmp_chars(a, b)
        }
    } else if all_digits(a) {
        -1
    } else if all_digits(b) {
        1
    } else {
        cmp_chars(a, b)
    }
}

/// Precedence of two build-metadata identifiers: all-digit identifiers
/// compare by their value (leading zeros stripped), with the number of
/// leading zeros as the final tie-break, so that 0 < 00 < 1 < 01 < 001 < 2.
pub open spec fn cmp_build_ident(a: Seq<char>, b: Seq<char>) -> int {
    if all_digits(a) && all_digits(b) {
        let ta = drop_zeros(a);
        let tb = drop_zeros(b);
        if ta.len() < tb.len() {
            -1
        } else if ta.len() > tb.len() {
            1
        } else if cmp_chars(ta, tb) != 0 {
            cmp_chars(ta, tb)
        } else if a.len() < b.len() {
            -1
        } else if a.len() > b.len() {
            1
        } else {
            0
        }
    } else if all_digits(a) {
        -1
    } else if all_digits(b) {
        1
    } else {
        cmp_chars(a, b)
    }
}

/// Comparison of two dot-separated identifier lists, identifier by
/// identifier; when all shared positions tie, the longer list is greater.
/// `build` selects the build-metadata identifier precedence.
pub open spec fn cmp_ident_lists(a: Seq<char>, b: Seq<char>, build: bool) -> int
    decreases a.len(),
    via cmp_ident_lists_decreases
{
    let da = first_dot(a);
    let db = first_dot(b);
    let c = if build {
        cmp_build_ident(a.take(da), b.take(db))
    } else {
        cmp_pre_ident(a.take(da), b.take(db))
    };
    if c != 0 {
        c
    } else {
        let a_more = da < a.len();
        let b_more = db < b.len();
        if a_more && b_more {
            cmp_ident_lists(a.skip(da + 1), b.skip(db + 1), build)
        } else if a_more {
            1
        } else if b_more {
            -1
        } else {
            0
        }
    }
}

#[via_fn]
proof fn cmp_ident_lists_decreases(a: Seq<char>, b: Seq<char>, build: bool) {
    lemma_first_dot_bounds(a);
}

/// Pre-release precedence: an empty pre-release (a plain release) is
/// greater than any non-empty one.
pub open spec fn cmp_pre(a: Seq<char>, b: Seq<char>) -> int {
    if a.len() == 0 && b.len() == 0 {
        0
    } else if a.len() == 0 {
        1
    } else if b.len() == 0 {
        -1
    } else {
        cmp_ident_lists(a, b, false)
    }
}

pub open spec fn cmp_build(a: Seq<char>, b: Seq<char>) -> int {
    cmp_ident_lists(a, b, true)
}

/// Order of two structured versions: numeric components first, then
/// pre-release precedence, then build metadata.
pub open spec fn cmp_semver(a: SemVerView, b: SemVerView) -> int {
    if a.major < b.major {
        -1
    } else if a.major > b.major {
        1
    } else if a.minor < b.minor {
        -1
    } else if a.minor > b.minor {
        1
    } else if a.patch < b.patch {
        -1
    } else if a.patch > b.patch {
        1
    } else if cmp_pre(a.pre, b.pre) != 0 {
        cmp_pre(a.pre, b.pre)
    } else {
        cmp_build(a.build, b.build)
    }
}

/// The total order on versions: a tag without a structured reading orders
/// below any tag with one and such tags order among themselves by text;
/// structurally equal versions fall back to their text as well.
pub open spec fn cmp_version(a: VersionView, b: VersionView) -> int {
    match (a.semver, b.semver) {
        (None, None) => cmp_chars(a.string, b.string),
        (None, Some(y)) => -1,
        (Some(x), None) => 1,
        (Some(x), Some(y)) => if cmp_semver(x, y) != 0 {
            cmp_semver(x, y)
        } else {
            cmp_chars(a.string, b.string)
        },
    }
}

// ---------------------------------------------------------------------------
// Laws of the order: the comparison is reflexive, antisymmetric and
// transitive — a total order, deterministic for a fixed input set.
// ---------------------------------------------------------------------------
proof fn lemma_cmp_chars_refl(a: Seq<char>)
    ensures
        cmp_chars(a, a) == 0,
    decreases a.len(),
{
    if a.len() > 0 {
        lemma_cmp_chars_refl(a.drop_first());
    }
}

proof fn lemma_cmp_chars_flip(a: Seq<char>, b: Seq<char>)
    ensures
        cmp_chars(a, b) == -cmp_chars(b, a),
    decreases a.len(),
{
    if a.len() > 0 && b.len() > 0 && (a[0] as u32) == (b[0] as u32) {
        lemma_cmp_chars_flip(a.drop_first(), b.drop_first());
    }
}

proof fn lemma_cmp_chars_trans(a: Seq<char>, b: Seq<char>, c: Seq<char>)
    requires
        cmp_chars(a, b) <= 0,
        cmp_chars(b, c) <= 0,
    ensures
        cmp_chars(a, c) <= 0,
        cmp_chars(a, b) < 0 || cmp_chars(b, c) < 0 ==> cmp_chars(a, c) < 0,
    decreases a.len(),
{
    if a.len() > 0 && b.len() > 0 && c.len() > 0 && (a[0] as u32) == (b[0] as u32) && (
    b[0] as u32) == (c[0] as u32) {
        lemma_cmp_chars_trans(a.drop_first(), b.drop_first(), c.drop_first());
    }
}

proof fn lemma_cmp_pre_ident_refl(a: Seq<char>)
    ensures
        cmp_pre_ident(a, a) == 0,
{
    lemma_cmp_chars_refl(a);
}

proof fn lemma_cmp_pre_ident_flip(a: Seq<char>, b: Seq<char>)
    ensures
        cmp_pre_ident(a, b) == -cmp_pre_ident(b, a),
{
    lemma_cmp_chars_flip(a, b);
}

proof fn lemma_cmp_pre_ident_trans(a: Seq<char>, b: Seq<char>, c: Seq<char>)
    requires
        cmp_pre_ident(a, b) <= 0,
        cmp_pre_ident(b, c) <= 0,
    ensures
        cmp_pre_ident(a, c) <= 0,
        cmp_pre_ident(a, b) < 0 || cmp_pre_ident(b, c) < 0 ==> cmp_pre_ident(a, c) < 0,
{
    if all_digits(a) && all_digits(b) && all_digits(c) {
        if a.len() == b.len() && b.len() == c.len() {
            lemma_cmp_chars_trans(a, b, c);
        }
    } else if !all_digits(a) && !all_digits(b) && !all_digits(c) {
        lemma_cmp_chars_trans(a, b, c);
    }
}

proof fn lemma_cmp_build_ident_refl(a: Seq<char>)
    ensures
        cmp_build_ident(a, a) == 0,
{
    lemma_cmp_chars_refl(a);
    lemma_cmp_chars_refl(drop_zeros(a));
}

proof fn lemma_cmp_build_ident_flip(a: Seq<char>, b: Seq<char>)
    ensures
        cmp_build_ident(a, b) == -cmp_build_ident(b, a),
{
    lemma_cmp_chars_flip(a, b);
    lemma_cmp_chars_flip(drop_zeros(a), drop_zeros(b));
}

proof fn lemma_cmp_build_ident_trans(a: Seq<char>, b: Seq<char>, c: Seq<char>)
    requires
        cmp_build_ident(a, b) <= 0,
        cmp_build_ident(b, c) <= 0,
    ensures
        cmp_build_ident(a, c) <= 0,
        cmp_build_ident(a, b) < 0 || cmp_build_ident(b, c) < 0 ==> cmp_build_ident(a, c) < 0,
{
    if all_digits(a) && all_digits(b) && all_digits(c) {
        let ta = drop_zeros(a);
        let tb = drop_zeros(b);
        let tc = drop_zeros(c);
        if ta.len() == tb.len() && tb.len() == tc.len() {
            if cmp_chars(ta, tb) <= 0 && cmp_chars(tb, tc) <= 0 {
                lemma_cmp_chars_trans(ta, tb, tc);
            }
            if cmp_chars(tc, tb) <= 0 && cmp_chars(tb, ta) <= 0 {
                lemma_cmp_chars_trans(tc, tb, ta);
            }
            lemma_cmp_chars_flip(ta, tb);
            lemma_cmp_chars_flip(tb, tc);
            lemma_cmp_chars_flip(ta, tc);
        }
    } else if !all_digits(a) && !all_digits(b) && !all_digits(c) {
        lemma_cmp_chars_trans(a, b, c);
    }
}

proof fn lemma_cmp_ident_lists_refl(a: Seq<char>, build: bool)
    ensures
        cmp_ident_lists(a, a, build) == 0,
    decreases a.len(),
{
    lemma_first_dot_bounds(a);
    let da = first_dot(a);
    if build {
        lemma_cmp_build_ident_refl(a.take(da));
    } else {
        lemma_cmp_pre_ident_refl(a.take(da));
    }
    if da < a.len() {
        lemma_cmp_ident_lists_refl(a.skip(da + 1), build);
    }
}

proof fn lemma_cmp_ident_lists_flip(a: Seq<char>, b: Seq<char>, build: bool)
    ensures
        cmp_ident_lists(a, b, build) == -cmp_ident_lists(b, a, build),
    decreases a.len(),
{
    lemma_first_dot_bounds(a);
    lemma_first_dot_bounds(b);
    let da = first_dot(a);
    let db = first_dot(b);
    if build {
        lemma_cmp_build_ident_flip(a.take(da), b.take(db));
    } else {
        lemma_cmp_pre_ident_flip(a.take(da), b.take(db));
    }
    if da < a.len() && db < b.len() {
        lemma_cmp_ident_lists_flip(a.skip(da + 1), b.skip(db + 1), build);
    }
}

proof fn lemma_cmp_ident_lists_trans(a: Seq<char>, b: Seq<char>, c: Seq<char>, build: bool)
    requires
        cmp_ident_lists(a, b, build) <= 0,
        cmp_ident_lists(b, c, build) <= 0,
    ensures
        cmp_ident_lists(a, c, build) <= 0,
        cmp_ident_lists(a, b, build) < 0 || cmp_ident_lists(b, c, build) < 0
            ==> cmp_ident_lists(a, c, build) < 0,
    decreases a.len(),
{
    lemma_first_dot_bounds(a);
    lemma_first_dot_bounds(b);
    lemma_first_dot_bounds(c);
    let da = first_dot(a);
    let db = first_dot(b);
    let dc = first_dot(c);
    let ia = a.take(da);
    let ib = b.take(db);
    let ic = c.take(dc);
    if build {
        lemma_cmp_build_ident_flip(ia, ib);
        lemma_cmp_build_ident_flip(ib, ic);
        lemma_cmp_build_ident_flip(ia, ic);
        if cmp_build_ident(ia, ib) <= 0 && cmp_build_ident(ib, ic) <= 0 {
            lemma_cmp_build_ident_trans(ia, ib, ic);
        }
        if cmp_build_ident(ic, ib) <= 0 && cmp_build_ident(ib, ia) <= 0 {
            lemma_cmp_build_ident_trans(ic, ib, ia);
        }
    } else {
        lemma_cmp_pre_ident_flip(ia, ib);
        lemma_cmp_pre_ident_flip(ib, ic);
        lemma_cmp_pre_ident_flip(ia, ic);
        if cmp_pre_ident(ia, ib) <= 0 && cmp_pre_ident(ib, ic) <= 0 {
            lemma_cmp_pre_ident_trans(ia, ib, ic);
        }
        if cmp_pre_ident(ic, ib) <= 0 && cmp_pre_ident(ib, ia) <= 0 {
            lemma_cmp_pre_ident_trans(ic, ib, ia);
        }
    }
    let head_ab = if build {
        cmp_build_ident(ia, ib)
    } else {
        cmp_pre_ident(ia, ib)
    };
    let head_bc = if build {
        cmp_build_ident(ib, ic)
    } else {
        cmp_pre_ident(ib, ic)
    };
    if head_ab == 0 && head_bc == 0 && da < a.len() && db < b.len() && dc < c.len() {
        lemma_cmp_ident_lists_trans(a.skip(da + 1), b.skip(db + 1), c.skip(dc + 1), build);
    }
}

proof fn lemma_cmp_pre_refl(a: Seq<char>)
    ensures
        cmp_pre(a, a) == 0,
{
    if a.len() > 0 {
        lemma_cmp_ident_lists_refl(a, false);
    }
}

proof fn lemma_cmp_pre_flip(a: Seq<char>, b: Seq<char>)
    ensures
        cmp_pre(a, b) == -cmp_pre(b, a),
{
    if a.len() > 0 && b.len() > 0 {
        lemma_cmp_ident_lists_flip(a, b, false);
    }
}

proof fn lemma_cmp_pre_trans(a: Seq<char>, b: Seq<char>, c: Seq<char>)
    requires
        cmp_pre(a, b) <= 0,
        cmp_pre(b, c) <= 0,
    ensures
        cmp_pre(a, c) <= 0,
        cmp_pre(a, b) < 0 || cmp_pre(b, c) < 0 ==> cmp_pre(a, c) < 0,
{
    if a.len() > 0 && b.len() > 0 && c.len() > 0 {
        lemma_cmp_ident_lists_trans(a, b, c, false);
    }
}

proof fn lemma_cmp_semver_refl(a: SemVerView)
    ensures
        cmp_semver(a, a) == 0,
{
    lemma_cmp_pre_refl(a.pre);
    lemma_cmp_ident_lists_refl(a.build, true);
}

proof fn lemma_cmp_semver_flip(a: SemVerView, b: SemVerView)
    ensures
        cmp_semver(a, b) == -cmp_semver(b, a),
{
    lemma_cmp_pre_flip(a.pre, b.pre);
    lemma_cmp_ident_lists_flip(a.build, b.build, true);
}

proof fn lemma_cmp_semver_trans(a: SemVerView, b: SemVerView, c: SemVerView)
    requires
        cmp_semver(a, b) <= 0,
        cmp_semver(b, c) <= 0,
    ensures
        cmp_semver(a, c) <= 0,
        cmp_semver(a, b) < 0 || cmp_semver(b, c) < 0 ==> cmp_semver(a, c) < 0,
{
    lemma_cmp_pre_flip(a.pre, b.pre);
    lemma_cmp_pre_flip(b.pre, c.pre);
    lemma_cmp_pre_flip(a.pre, c.pre);
    if cmp_pre(a.pre, b.pre) <= 0 && cmp_pre(b.pre, c.pre) <= 0 {
        lemma_cmp_pre_trans(a.pre, b.pre, c.pre);
    }
    if cmp_pre(c.pre, b.pre) <= 0 && cmp_pre(b.pre, a.pre) <= 0 {
        lemma_cmp_pre_trans(c.pre, b.pre, a.pre);
    }
    lemma_cmp_ident_lists_flip(a.build, b.build, true);
    lemma_cmp_ident_lists_flip(b.build, c.build, true);
    lemma_cmp_ident_lists_flip(a.build, c.build, true);
    if cmp_build(a.build, b.build) <= 0 && cmp_build(b.build, c.build) <= 0 {
        lemma_cmp_ident_lists_trans(a.build, b.build, c.build, true);
    }
    if cmp_build(c.build, b.build) <= 0 && cmp_build(b.build, a.build) <= 0 {
        lemma_cmp_ident_lists_trans(c.build, b.build, a.build, true);
    }
}

/// The version comparison is reflexive: every version ties with itself.
pub proof fn lemma_cmp_version_refl(a: VersionView)
    ensures
        cmp_version(a, a) == 0,
{
    lemma_cmp_chars_refl(a.string);
    if a.semver is Some {
        lemma_cmp_semver_refl(a.semver->0);
    }
}

/// The version comparison is antisymmetric: swapping the arguments flips
/// the sign, so of two versions exactly one comes first unless they tie.
pub proof fn lemma_cmp_version_flip(a: VersionView, b: VersionView)
    ensures
        cmp_version(a, b) == -cmp_version(b, a),
{
    lemma_cmp_chars_flip(a.string, b.string);
    if a.semver is Some && b.semver is Some {
        lemma_cmp_semver_flip(a.semver->0, b.semver->0);
    }
}

/// The version comparison is transitive, strictly where either step is
/// strict.  With reflexivity and antisymmetry this makes it a total
/// order, deterministic for a fixed input set.
pub proof fn lemma_cmp_version_trans(a: VersionView, b: VersionView, c: VersionView)
    requires
        cmp_version(a, b) <= 0,
        cmp_version(b, c) <= 0,
    ensures
        cmp_version(a, c) <= 0,
        cmp_version(a, b) < 0 || cmp_version(b, c) < 0 ==> cmp_version(a, c) < 0,
{
    if a.semver is Some && b.semver is Some && c.semver is Some {
        let x = a.semver->0;
        let y = b.semver->0;
        let z = c.semver->0;
        lemma_cmp_semver_flip(x, y);
        lemma_cmp_semver_flip(y, z);
        lemma_cmp_semver_flip(x, z);
        if cmp_semver(x, y) <= 0 && cmp_semver(y, z) <= 0 {
            lemma_cmp_semver_trans(x, y, z);
        }
        if cmp_semver(z, y) <= 0 && cmp_semver(y, x) <= 0 {
            lemma_cmp_semver_trans(z, y, x);
        }
    }
    if cmp_chars(a.string, b.string) <= 0 && cmp_chars(b.string, c.string) <= 0 {
        lemma_cmp_chars_trans(a.string, b.string, c.string);
    }
}

// ---------------------------------------------------------------------------
// The order, executably.
// ---------------------------------------------------------------------------
fn cmp_chars_exec(a: &str, b: &str) -> (r: i32)
    ensures
        r as int == cmp_chars(a@, b@),
    decreases a@.len(),
{
    let na = a.unicode_len();
    let nb = b.unicode_len();
    if na == 0 && nb == 0 {
        0
    } else if na == 0 {
        -1
    } else if nb == 0 {
        1
    } else {
        let ca = a.get_char(0);
        let cb = b.get_char(0);
        if (ca as u32) == (cb as u32) {
            let ra = a.substring_char(1, na);
            let rb = b.substring_char(1, nb);
            assert(ra@ =~= a@.drop_first());
            assert(rb@ =~= b@.drop_first());
            cmp_chars_exec(ra, rb)
        } else if (ca as u32) < (cb as u32) {
            -1
        } else {
            1
        }
    }
}

fn is_digits(s: &str) -> (r: bool)
    ensures
        r == all_digits(s@),
{
    let n = s.unicode_len();
    let mut i: usize = 0;
    while i < n
        invariant
            0 <= i <= n,
            n == s@.len(),
            forall|j: int| 0 <= j < i ==> spec_is_digit(#[trigger] s@[j]),
        decreases n - i,
    {
        let c = s.get_char(i);
        if !(48 <= c as u32 && c as u32 <= 57) {
            return false;
        }
        i = i + 1;
    }
    true
}

fn find_dot(s: &str) -> (r: usize)
    ensures
        r as int == first_dot(s@),
        r <= s@.len(),
    decreases s@.len(),
{
    let n = s.unicode_len();
    if n == 0 {
        0
    } else if s.get_char(0) == '.' {
        0
    } else {
        let rest = s.substring_char(1, n);
        assert(rest@ =~= s@.drop_first());
        1 + find_dot(rest)
    }
}

fn trim_zeros<'a>(s: &'a str) -> (r: &'a str)
    ensures
        r@ == drop_zeros(s@),
    decreases s@.len(),
{
    let n = s.unicode_len();
    if n > 0 && s.get_char(0) == '0' {
        let rest = s.substring_char(1, n);
        assert(rest@ =~= s@.drop_first());
        trim_zeros(rest)
    } else {
        s
    }
}

fn cmp_pre_ident_exec(a: &str, b: &str) -> (r: i32)
    ensures
        r as int == cmp_pre_ident(a@, b@),
{
    let da = is_digits(a);
    let db = is_digits(b);
    if da && db {
        let na = a.unicode_len();
        let nb = b.unicode_len();
        if na < nb {
            -1
        } else if na > nb {
            1
        } else {
            cmp_chars_exec(a, b)
        }
    } else if da {
        -1
    } else if db {
        1
    } else {
        cmp_chars_exec(a, b)
    }
}

fn cmp_build_ident_exec(a: &str, b: &str) -> (r: i32)
    ensures
        r as int == cmp_build_ident(a@, b@),
{
    let da = is_digits(a);
    let db = is_digits(b);
    if da && db {
        let ta = trim_zeros(a);
        let tb = trim_zeros(b);
        let nta = ta.unicode_len();
        let ntb = tb.unicode_len();
        if nta < ntb {
            -1
        } else if nta > ntb {
            1
        } else {
            let c = cmp_chars_exec(ta, tb);
            if c != 0 {
                c
            } else {
                let na = a.unicode_len();
                let nb = b.unicode_len();
                if na < nb {
                    -1
                } else if na > nb {
                    1
                } else {
                    0
                }
            }
        }
    } else if da {
        -1
    } else if db {
        1
    } else {
        cmp_chars_exec(a, b)
    }
}

fn cmp_ident_lists_exec(a: &str, b: &str, build: bool) -> (r: i32)
    ensures
        r as int == cmp_ident_lists(a@, b@, build),
    decreases a@.len(),
{
    let na = a.unicode_len();
    let nb = b.unicode_len();
    let da = find_dot(a);
    let db = find_dot(b);
    let ia = a.substring_char(0, da);
    let ib = b.substring_char(0, db);
    assert(ia@ =~= a@.take(da as int));
    assert(ib@ =~= b@.take(db as int));
    let c = if build {
        cmp_build_ident_exec(ia, ib)
    } else {
        cmp_pre_ident_exec(ia, ib)
    };
    if c != 0 {
        c
    } else {
        let a_more = da < na;
        let b_more = db < nb;
        if a_more && b_more {
            let ra = a.substring_char(da + 1, na);
            let rb = b.substring_char(db + 1, nb);
            assert(ra@ =~= a@.skip(da + 1));
            assert(rb@ =~= b@.skip(db + 1));
            cmp_ident_lists_exec(ra, rb, build)
        } else if a_more {
            1
        } else if b_more {
            -1
        } else {
            0
        }
    }
}

fn cmp_pre_exec(a: &str, b: &str) -> (r: i32)
    ensures
        r as int == cmp_pre(a@, b@),
{
    let ae = a.is_empty();
    let be = b.is_empty();
    if ae && be {
        0
    } else if ae {
        1
    } else if be {
        -1
    } else {
        cmp_ident_lists_exec(a, b, false)
    }
}

fn cmp_build_exec(a: &str, b: &str) -> (r: i32)
    ensures
        r as int == cmp_build(a@, b@),
{
    cmp_ident_lists_exec(a, b, true)
}

fn cmp_semver_exec(a: &SemVer, b: &SemVer) -> (r: i32)
    ensures
        r as int == cmp_semver(a@, b@),
{
    if a.major < b.major {
        -1
    } else if a.major > b.major {
        1
    } else if a.minor < b.minor {
        -1
    } else if a.minor > b.minor {
        1
    } else if a.patch < b.patch {
        -1
    } else if a.patch > b.patch {
        1
    } else {
        let c = cmp_pre_exec(a.pre.as_str(), b.pre.as_str());
        if c != 0 {
            c
        } else {
            cmp_build_exec(a.build.as_str(), b.build.as_str())
        }
    }
}

/// The structured reading that the lenient tag parse gives to a string,
/// or `None` when the string has no such reading.  The result depends on
/// the characters of the string alone.
pub uninterp spec fn semver_of(s: Seq<char>) -> Option<SemVerView>;

/// The version that a tag string denotes: its structured reading, if any,
/// beside the original text.
pub open spec fn spec_version_of(s: Seq<char>) -> VersionView {
    VersionView { semver: semver_of(s), string: s }
}

/// Relies on lenient_semver::parse (into the semver crate's version type):
/// a pure parse whose result depends on the input characters alone, here
/// named `semver_of`.
#[verifier::external_body]
fn parse_semver(s: &str) -> (r: Option<SemVer>)
    ensures
        r.deep_view() == semver_of(s@),
{
    match lenient_semver::parse(s) {
        Ok(v) => Some(
            SemVer {
                major: v.major,
                minor: v.minor,
                patch: v.patch,
                pre: v.pre.as_str().to_owned(),
                build: v.build.as_str().to_owned(),
            },
        ),
        Err(_) => None,
    }
}

impl Version {
    /// Parse a tag string into a version.  Every string yields a version:
    /// one without a structured reading still carries its text and takes
    /// part in the fallback order.
    pub fn new(s: &str) -> (r: Option<Version>)
        ensures
            r matches Some(v) && v@ == spec_version_of(s@),
    {
        Some(Version { version: parse_semver(s), string: s.to_owned() })
    }

    /// Total-order comparison of two versions; negative, zero or positive
    /// as `self` comes before, ties with or comes after `other`.
    pub fn compare(&self, other: &Version) -> (r: i32)
        ensures
            r as int == cmp_version(self@, other@),
    {
        match (&self.version, &other.version) {
            (None, None) => cmp_chars_exec(self.string.as_str(), other.string.as_str()),
            (None, Some(_)) => -1,
            (Some(_), None) => 1,
            (Some(x), Some(y)) => {
                let c = cmp_semver_exec(x, y);
                if c != 0 {
                    c
                } else {
                    cmp_chars_exec(self.string.as_str(), other.string.as_str())
                }
            },
        }
    }

    /// Structural equality of two versions.
    pub fn equals(&self, other: &Version) -> (r: bool)
        ensures
            r == (self@ == other@),
    {
        let sv_eq = match (&self.version, &other.version) {
            (None, None) => true,
            (Some(x), Some(y)) => x.major == y.major && x.minor == y.minor && x.patch == y.patch
                && x.pre == y.pre && x.build == y.build,
            _ => false,
        };
        sv_eq && self.string == other.string
    }

    /// The original tag text, as shown to users and written back to files.
    pub fn display_string(&self) -> (r: String)
        ensures
            r@ == self@.string,
    {
        self.string.clone()
    }
}

// ---------------------------------------------------------------------------
// Selecting the latest version of a list.
// ---------------------------------------------------------------------------
/// The maximum of a non-empty sequence of versions under [`cmp_version`];
/// of equally-ordered versions the first encountered is kept.
pub open spec fn latest_of(s: Seq<VersionView>) -> VersionView
    recommends
        s.len() > 0,
    decreases s.len(),
{
    if s.len() <= 1 {
        s[0]
    } else {
        let m = latest_of(s.drop_last());
        if cmp_version(m, s.last()) < 0 {
            s.last()
        } else {
            m
        }
    }
}

/// The resolved latest version is a true maximum: it is one of the
/// list's versions, and no version of the list comes after it under the
/// total order.
pub proof fn lemma_latest_of_is_max(s: Seq<VersionView>)
    requires
        s.len() > 0,
    ensures
        exists|i: int| 0 <= i < s.len() && s[i] == latest_of(s),
        forall|i: int| 0 <= i < s.len() ==> cmp_version(#[trigger] s[i], latest_of(s)) <= 0,
    decreases s.len(),
{
    if s.len() == 1 {
        lemma_cmp_version_refl(s[0]);
        assert(s[0] == latest_of(s));
    } else {
        let dl = s.drop_last();
        lemma_latest_of_is_max(dl);
        let m = latest_of(dl);
        let last = s.last();
        let j = choose|j: int| 0 <= j < dl.len() && dl[j] == m;
        if cmp_version(m, last) < 0 {
            assert(latest_of(s) == last);
            assert forall|i: int| 0 <= i < s.len() implies cmp_version(
                #[trigger] s[i],
                latest_of(s),
            ) <= 0 by {
                if i < s.len() - 1 {
                    assert(dl[i] == s[i]);
                    lemma_cmp_version_trans(s[i], m, last);
                } else {
                    lemma_cmp_version_refl(last);
                }
            }
            assert(s[s.len() - 1] == latest_of(s));
        } else {
            assert(latest_of(s) == m);
            lemma_cmp_version_flip(m, last);
            assert forall|i: int| 0 <= i < s.len() implies cmp_version(
                #[trigger] s[i],
                latest_of(s),
            ) <= 0 by {
                if i < s.len() - 1 {
                    assert(dl[i] == s[i]);
                }
            }
            assert(s[j] == latest_of(s));
        }
    }
}

/// The latest of a list of versions: `None` exactly on the empty list,
/// otherwise the maximum under the total order.
pub fn latest(versions: &Vec<Version>) -> (r: Option<Version>)
    ensures
        match r {
            Some(v) => versions@.len() > 0 && v@ == latest_of(versions.deep_view()),
            None => versions@.len() == 0,
        },
{
    if versions.len() == 0 {
        return None;
    }
    let ghost dv = versions.deep_view();
    let mut best: usize = 0;
    let mut i: usize = 1;
    while i < versions.len()
        invariant
            versions@.len() > 0,
            dv == versions.deep_view(),
            dv.len() == versions@.len(),
            0 <= best < i <= versions@.len(),
            versions[best as int]@ == latest_of(dv.take(i as int)),
        decreases versions@.len() - i,
    {
        assert(dv.take(i + 1).drop_last() =~= dv.take(i as int));
        assert(dv.take(i + 1).last() == dv[i as int]);
        let c = versions[best].compare(&versions[i]);
        if c < 0 {
            best = i;
        }
        i = i + 1;
    }
    assert(dv.take(versions@.len() as int) =~= dv);
    Some(versions[best].clone())
}

/// Whether `v` occurs in `versions` (structural equality).
pub fn contains_version(versions: &Vec<Version>, v: &Version) -> (r: bool)
    ensures
        r == versions.deep_view().contains(v@),
{
    let mut i: usize = 0;
    while i < versions.len()
        invariant
            0 <= i <= versions@.len(),
            versions.deep_view().len() == versions@.len(),
            forall|j: int| 0 <= j < i ==> versions.deep_view()[j] != v@,
        decreases versions@.len() - i,
    {
        if versions[i].equals(v) {
            assert(versions.deep_view()[i as int] == v@);
            return true;
        }
        i = i + 1;
    }
    assert(!versions.deep_view().contains(v@));
    false
}

} // verus!
