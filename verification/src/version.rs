//! Toolchain versions and the rule that picks the upstream revision a
//! change is grafted onto.
//!
//! A change to the linting tool pins the toolchain it was authored against.
//! Its graft target is the release one minor version behind that pin: the
//! matching stable tag if the upstream repository already carries it, the
//! pre-release tracking branch if the decremented version is exactly the
//! next unreleased minor, and an error otherwise.

use vstd::prelude::*;

use crate::errors::PipelineError;

verus! {

/// An ASCII decimal digit.
pub open spec fn is_digit(b: u8) -> bool {
    48 <= b <= 57
}

/// The numeric value of a digit byte.
pub open spec fn digit_value(b: u8) -> nat {
    (b - 48) as nat
}

/// The number written by a sequence of digit bytes, most significant
/// first.
pub open spec fn digits_val(s: Seq<u8>) -> nat
    decreases s.len(),
{
    if s.len() == 0 {
        0
    } else {
        digits_val(s.drop_last()) * 10 + digit_value(s.last())
    }
}

/// The end of the maximal run of digit bytes starting at `i`: the first
/// position at or after `i` that is past the end or holds a non-digit.
pub open spec fn run_end(s: Seq<u8>, i: int) -> int
    decreases s.len() - i,
{
    if 0 <= i < s.len() && is_digit(s[i]) {
        run_end(s, i + 1)
    } else {
        i
    }
}

/// A digit run ends within the sequence, at or after its start.
pub proof fn lemma_run_end_bounds(s: Seq<u8>, i: int)
    requires
        0 <= i <= s.len(),
    ensures
        i <= run_end(s, i) <= s.len(),
    decreases s.len() - i,
{
    if 0 <= i < s.len() && is_digit(s[i]) {
        lemma_run_end_bounds(s, i + 1);
    }
}

/// A toolchain version `major.minor.patch`.
#[derive(Clone, Copy, Debug, PartialEq, Eq, Structural)]
pub struct ToolchainVersion {
    pub major: u64,
    pub minor: u64,
    pub patch: u64,
}

/// The upstream revision chosen to host a grafted change: either an exact
/// stable tag, or the pre-release tracking branch for a not-yet-released
/// version.
#[derive(Clone, Copy, Debug, PartialEq, Eq, Structural)]
pub enum TargetRevision {
    StableTag(ToolchainVersion),
    PreReleaseBranch,
}

/// Whether `v` occurs in the tag list `tags`.
pub open spec fn has_version(tags: Seq<ToolchainVersion>, v: ToolchainVersion) -> bool {
    exists|i: int| 0 <= i < tags.len() && tags[i] == v
}

/// The largest minor component among `tags` (`0` for an empty list).
pub open spec fn max_minor(tags: Seq<ToolchainVersion>) -> nat
    decreases tags.len(),
{
    if tags.len() == 0 {
        0
    } else {
        let rest = max_minor(tags.drop_last());
        if tags.last().minor >= rest {
            tags.last().minor as nat
        } else {
            rest
        }
    }
}

/// The pinned version with its minor component decremented by one, or
/// `VersionResolutionError` when the minor component is already zero and no
/// earlier release can exist.
pub fn decrement_minor(v: ToolchainVersion) -> (r: Result<ToolchainVersion, PipelineError>)
    ensures
        v.minor >= 1 ==> r == Ok::<ToolchainVersion, PipelineError>(
            ToolchainVersion { major: v.major, minor: (v.minor - 1) as u64, patch: v.patch },
        ),
        v.minor == 0 ==> r == Err::<ToolchainVersion, PipelineError>(
            PipelineError::VersionResolutionError,
        ),
{
    if v.minor >= 1 {
        Ok(ToolchainVersion { major: v.major, minor: v.minor - 1, patch: v.patch })
    } else {
        Err(PipelineError::VersionResolutionError)
    }
}

/// Picks the upstream revision for the already-decremented version `dec`:
/// the exact stable tag when one matches; the pre-release tracking branch
/// when `dec`'s minor is exactly one past the largest tagged minor; a
/// `VersionResolutionError` otherwise, so a run aborts rather than guesses.
pub fn resolve_target(dec: ToolchainVersion, tags: &Vec<ToolchainVersion>) -> (r: Result<
    TargetRevision,
    PipelineError,
>)
    ensures
        has_version(tags@, dec) ==> r == Ok::<TargetRevision, PipelineError>(
            TargetRevision::StableTag(dec),
        ),
        !has_version(tags@, dec) && tags@.len() > 0 && dec.minor == max_minor(tags@) + 1 ==> r
            == Ok::<TargetRevision, PipelineError>(TargetRevision::PreReleaseBranch),
        !has_version(tags@, dec) && !(tags@.len() > 0 && dec.minor == max_minor(tags@) + 1) ==> r
            == Err::<TargetRevision, PipelineError>(PipelineError::VersionResolutionError),
{
    let mut i: usize = 0;
    let mut found: bool = false;
    let mut maxm: u64 = 0;
    while i < tags.len()
        invariant
            0 <= i <= tags@.len(),
            found == has_version(tags@.take(i as int), dec),
            maxm as nat == max_minor(tags@.take(i as int)),
        decreases tags@.len() - i,
    {
        let t = tags[i];
        proof {
            assert(tags@.take(i + 1).drop_last() =~= tags@.take(i as int));
            assert(tags@.take(i + 1).last() == tags@[i as int]);
            if t == dec {
                assert(has_version(tags@.take(i + 1), dec)) by {
                    assert(tags@.take(i + 1)[i as int] == dec);
                }
            }
            if !found && t != dec {
                assert(!has_version(tags@.take(i + 1), dec)) by {
                    assert(forall|j: int|
                        0 <= j < i + 1 && tags@.take(i + 1)[j] == dec ==> tags@.take(
                            i as int,
                        )[j] == dec && 0 <= j < i);
                }
            }
        }
        if t == dec {
            found = true;
        }
        if t.minor > maxm {
            maxm = t.minor;
        }
        i = i + 1;
    }
    proof {
        assert(tags@.take(tags@.len() as int) =~= tags@);
    }
    if found {
        Ok(TargetRevision::StableTag(dec))
    } else if tags.len() > 0 && dec.minor >= 1 && maxm == dec.minor - 1 {
        Ok(TargetRevision::PreReleaseBranch)
    } else {
        Err(PipelineError::VersionResolutionError)
    }
}

/// Resolution for a pinned (not yet decremented) version: decrement the
/// minor component, then pick the target revision as `resolve_target` does.
pub fn resolve_pinned(pinned: ToolchainVersion, tags: &Vec<ToolchainVersion>) -> (r: Result<
    TargetRevision,
    PipelineError,
>)
    ensures
        pinned.minor == 0 ==> r == Err::<TargetRevision, PipelineError>(
            PipelineError::VersionResolutionError,
        ),
        pinned.minor >= 1 ==> {
            let dec = ToolchainVersion {
                major: pinned.major,
                minor: (pinned.minor - 1) as u64,
                patch: pinned.patch,
            };
            &&& has_version(tags@, dec) ==> r == Ok::<TargetRevision, PipelineError>(
                TargetRevision::StableTag(dec),
            )
            &&& !has_version(tags@, dec) && tags@.len() > 0 && dec.minor == max_minor(tags@) + 1
                ==> r == Ok::<TargetRevision, PipelineError>(TargetRevision::PreReleaseBranch)
            &&& !has_version(tags@, dec) && !(tags@.len() > 0 && dec.minor == max_minor(tags@)
                + 1) ==> r == Err::<TargetRevision, PipelineError>(
                PipelineError::VersionResolutionError,
            )
        },
{
    match decrement_minor(pinned) {
        Ok(dec) => resolve_target(dec, tags),
        Err(e) => Err(e),
    }
}

/// Whether the digit run `[i, e)` of `s` writes a number canonically: a
/// run of more than one digit does not start with a zero.  This keeps the
/// written form of a version component unique, so matching parsed tag
/// versions coincides with matching the tag names themselves.
pub open spec fn canonical_run(s: Seq<u8>, i: int, e: int) -> bool {
    e <= i + 1 || s[i] != 48
}

/// The version token grammar, read at position `i`: a maximal nonempty
/// digit run, a dot, a second such run, a dot, a third such run, each run
/// written canonically (no leading zero) and small enough for its
/// component.  Yields the version and the position right after the third
/// run; whatever follows (such as a channel suffix) is not part of the
/// token.
pub open spec fn version_at(s: Seq<u8>, i: int) -> Option<(ToolchainVersion, int)> {
    let a = run_end(s, i);
    let major = digits_val(s.subrange(i, a));
    if a == i || major > u64::MAX || !canonical_run(s, i, a) {
        None
    } else if !(a < s.len() && s[a] == 46) {
        None
    } else {
        let b = run_end(s, a + 1);
        let minor = digits_val(s.subrange(a + 1, b));
        if b == a + 1 || minor > u64::MAX || !canonical_run(s, a + 1, b) {
            None
        } else if !(b < s.len() && s[b] == 46) {
            None
        } else {
            let c = run_end(s, b + 1);
            let patch = digits_val(s.subrange(b + 1, c));
            if c == b + 1 || patch > u64::MAX || !canonical_run(s, b + 1, c) {
                None
            } else {
                Some(
                    (
                        ToolchainVersion {
                            major: major as u64,
                            minor: minor as u64,
                            patch: patch as u64,
                        },
                        c,
                    ),
                )
            }
        }
    }
}

/// Reads the maximal digit run starting at `start`: its value and its end
/// position, or nothing when the run is empty or its value does not fit
/// in a `u64`.
fn read_number(s: &Vec<u8>, start: usize) -> (r: Option<(u64, usize)>)
    requires
        start <= s@.len(),
    ensures
        ({
            let end = run_end(s@, start as int);
            match r {
                Some(p) => p.1 as int == end && end != start && p.0 as nat == digits_val(
                    s@.subrange(start as int, end),
                ),
                None => end == start || digits_val(s@.subrange(start as int, end)) > u64::MAX,
            }
        }),
{
    let ghost whole = s@;
    let mut k: usize = start;
    let mut val: u64 = 0;
    let mut overflowed: bool = false;
    proof {
        assert(whole.subrange(start as int, start as int) =~= Seq::empty());
    }
    while k < s.len() && 48 <= s[k] && s[k] <= 57
        invariant
            start <= k <= whole.len(),
            whole == s@,
            run_end(whole, start as int) == run_end(whole, k as int),
            !overflowed ==> val as nat == digits_val(whole.subrange(start as int, k as int)),
            overflowed ==> digits_val(whole.subrange(start as int, k as int)) > u64::MAX,
        decreases whole.len() - k,
    {
        let d: u8 = s[k] - 48;
        let ghost before = whole.subrange(start as int, k as int);
        let ghost after = whole.subrange(start as int, k as int + 1);
        proof {
            assert(after.drop_last() =~= before);
            assert(after.last() == whole[k as int]);
            assert(digits_val(after) == digits_val(before) * 10 + d);
        }
        if !overflowed {
            if val > (u64::MAX - d as u64) / 10 {
                overflowed = true;
                proof {
                    let q = (u64::MAX - d) as int / 10;
                    assert((u64::MAX - d) as int == q * 10 + (u64::MAX - d) as int % 10) by {
                        vstd::arithmetic::div_mod::lemma_fundamental_div_mod(
                            (u64::MAX - d) as int,
                            10,
                        );
                    };
                    assert(val as int * 10 >= (q + 1) * 10);
                    assert(digits_val(after) > u64::MAX);
                }
            } else {
                proof {
                    let q = (u64::MAX - d) as int / 10;
                    assert((u64::MAX - d) as int == q * 10 + (u64::MAX - d) as int % 10) by {
                        vstd::arithmetic::div_mod::lemma_fundamental_div_mod(
                            (u64::MAX - d) as int,
                            10,
                        );
                    };
                    assert(val as int * 10 <= q * 10);
                    assert(val as int * 10 + d <= u64::MAX);
                }
                val = val * 10 + d as u64;
            }
        } else {
            proof {
                assert(digits_val(after) >= digits_val(before));
            }
        }
        proof {
            assert(run_end(whole, k as int) == run_end(whole, k as int + 1));
        }
        k = k + 1;
    }
    proof {
        assert(run_end(whole, k as int) == k as int);
    }
    if k == start {
        None
    } else if overflowed {
        None
    } else {
        Some((val, k))
    }
}

/// Reads a version token at position `i`, as [`version_at`] describes it.
fn parse_version_at(s: &Vec<u8>, i: usize) -> (r: Option<(ToolchainVersion, usize)>)
    requires
        i <= s@.len(),
    ensures
        ({
            let v = version_at(s@, i as int);
            match r {
                Some(p) => v == Some((p.0, p.1 as int)),
                None => v is None,
            }
        }),
{
    proof {
        lemma_run_end_bounds(s@, i as int);
    }
    let (major, a) = match read_number(s, i) {
        Some(p) => p,
        None => {
            return None;
        },
    };
    if a > i + 1 && s[i] == 48 {
        return None;
    }
    if a >= s.len() || s[a] != 46 {
        return None;
    }
    proof {
        lemma_run_end_bounds(s@, a as int + 1);
    }
    let (minor, b) = match read_number(s, a + 1) {
        Some(p) => p,
        None => {
            return None;
        },
    };
    if b > a + 2 && s[a + 1] == 48 {
        return None;
    }
    if b >= s.len() || s[b] != 46 {
        return None;
    }
    proof {
        lemma_run_end_bounds(s@, b as int + 1);
    }
    let (patch, c) = match read_number(s, b + 1) {
        Some(p) => p,
        None => {
            return None;
        },
    };
    if c > b + 2 && s[b + 1] == 48 {
        return None;
    }
    Some((ToolchainVersion { major: major, minor: minor, patch: patch }, c))
}

/// Whether the six-byte label `rustc ` (the toolchain-query tool's leading
/// label) stands at position `i`.
pub open spec fn label_at(s: Seq<u8>, i: int) -> bool {
    &&& 0 <= i
    &&& i + 6 <= s.len()
    &&& s[i] == 114
    &&& s[i + 1] == 117
    &&& s[i + 2] == 115
    &&& s[i + 3] == 116
    &&& s[i + 4] == 99
    &&& s[i + 5] == 32
}

/// The first position at or after `i` where the label stands with a
/// well-formed version token right after it, or `-1` when there is none.
/// A label occurrence that no token follows is scanned past.
pub open spec fn first_version_label(s: Seq<u8>, i: int) -> int
    decreases s.len() - i,
{
    if i < 0 || i + 6 > s.len() {
        -1
    } else if label_at(s, i) && version_at(s, i + 6) is Some {
        i
    } else {
        first_version_label(s, i + 1)
    }
}

/// The version the toolchain-query tool's output declares: the version
/// token right after the first occurrence of the label that such a token
/// follows, with an optional suffix ignored.  Nothing only when the
/// pattern — label then token — is absent from the whole output.
pub open spec fn tool_output_version(s: Seq<u8>) -> Option<ToolchainVersion> {
    let p = first_version_label(s, 0);
    if p == -1 {
        None
    } else {
        match version_at(s, p + 6) {
            Some(q) => Some(q.0),
            None => None,
        }
    }
}

/// Parses the toolchain-query tool's output: the concrete version string
/// is recovered from the fixed pattern `label, dotted version, optional
/// suffix`, and `ToolchainParseError` is reported when that pattern is
/// absent.
pub fn parse_tool_output(s: &Vec<u8>) -> (r: Result<ToolchainVersion, PipelineError>)
    ensures
        ({
            match tool_output_version(s@) {
                Some(v) => r == Ok::<ToolchainVersion, PipelineError>(v),
                None => r == Err::<ToolchainVersion, PipelineError>(
                    PipelineError::ToolchainParseError,
                ),
            }
        }),
{
    let mut k: usize = 0;
    while k < s.len() && s.len() - k >= 6
        invariant
            0 <= k <= s@.len(),
            first_version_label(s@, 0) == first_version_label(s@, k as int),
        decreases s@.len() - k,
    {
        if s[k] == 114 && s[k + 1] == 117 && s[k + 2] == 115 && s[k + 3] == 116 && s[k + 4] == 99
            && s[k + 5] == 32 {
            proof {
                assert(label_at(s@, k as int));
            }
            match parse_version_at(s, k + 6) {
                Some(p) => {
                    proof {
                        assert(first_version_label(s@, k as int) == k as int);
                    }
                    return Ok(p.0);
                },
                None => {
                    // This label occurrence has no version token after
                    // it; keep scanning for a later occurrence that has.
                    proof {
                        assert(first_version_label(s@, k as int) == first_version_label(
                            s@,
                            k as int + 1,
                        ));
                    }
                },
            }
        } else {
            proof {
                assert(!label_at(s@, k as int));
                assert(first_version_label(s@, k as int) == first_version_label(
                    s@,
                    k as int + 1,
                ));
            }
        }
        k = k + 1;
    }
    proof {
        assert(first_version_label(s@, k as int) == -1);
    }
    Err(PipelineError::ToolchainParseError)
}

/// The version a stable tag name writes: a version token spanning the
/// whole name, with nothing before or after it.
pub open spec fn dotted_version_of(s: Seq<u8>) -> Option<ToolchainVersion> {
    match version_at(s, 0) {
        Some(q) => if q.1 == s.len() {
            Some(q.0)
        } else {
            None
        },
        None => None,
    }
}

/// Parses a whole byte string as a dotted version, as stable tag names
/// write one.
pub fn parse_dotted(s: &Vec<u8>) -> (r: Result<ToolchainVersion, PipelineError>)
    ensures
        ({
            match dotted_version_of(s@) {
                Some(v) => r == Ok::<ToolchainVersion, PipelineError>(v),
                None => r == Err::<ToolchainVersion, PipelineError>(
                    PipelineError::ToolchainParseError,
                ),
            }
        }),
{
    match parse_version_at(s, 0) {
        Some(p) => {
            if p.1 == s.len() {
                Ok(p.0)
            } else {
                Err(PipelineError::ToolchainParseError)
            }
        },
        None => Err(PipelineError::ToolchainParseError),
    }
}

/// The first position at or after `i` holding byte `b`, or `-1` when
/// there is none.
pub open spec fn find_from(s: Seq<u8>, b: u8, i: int) -> int
    decreases s.len() - i,
{
    if i < 0 || i >= s.len() {
        -1
    } else if s[i] == b {
        i
    } else {
        find_from(s, b, i + 1)
    }
}

/// The first position at or after `start` holding byte `b`.
fn find_byte(s: &Vec<u8>, b: u8, start: usize) -> (r: Option<usize>)
    requires
        start <= s@.len(),
    ensures
        ({
            match r {
                Some(i) => find_from(s@, b, start as int) == i as int && start <= i < s@.len(),
                None => find_from(s@, b, start as int) == -1,
            }
        }),
{
    let mut k: usize = start;
    while k < s.len()
        invariant
            start <= k <= s@.len(),
            find_from(s@, b, start as int) == find_from(s@, b, k as int),
        decreases s@.len() - k,
    {
        if s[k] == b {
            proof {
                assert(find_from(s@, b, k as int) == k as int);
            }
            return Some(k);
        }
        proof {
            assert(find_from(s@, b, k as int) == find_from(s@, b, k as int + 1));
        }
        k = k + 1;
    }
    proof {
        assert(find_from(s@, b, k as int) == -1);
    }
    None
}

/// The channel the pinned-toolchain declaration names: the text between
/// the first two double-quote bytes of the file.  Nothing when the file
/// holds fewer than two quotes.
pub open spec fn channel_value(s: Seq<u8>) -> Option<Seq<u8>> {
    let q1 = find_from(s, 34, 0);
    if q1 == -1 {
        None
    } else {
        let q2 = find_from(s, 34, q1 + 1);
        if q2 == -1 {
            None
        } else {
            Some(s.subrange(q1 + 1, q2))
        }
    }
}

/// Extracts the quoted channel name from the pinned-toolchain declaration
/// file, or `ToolchainParseError` when no quoted fragment is present.
pub fn channel_of_toolchain_file(s: &Vec<u8>) -> (r: Result<Vec<u8>, PipelineError>)
    ensures
        ({
            match channel_value(s@) {
                Some(c) => r is Ok && r->Ok_0@ == c,
                None => r == Err::<Vec<u8>, PipelineError>(PipelineError::ToolchainParseError),
            }
        }),
{
    let n: usize = s.len();
    let q1 = match find_byte(s, 34, 0) {
        Some(i) => i,
        None => {
            return Err(PipelineError::ToolchainParseError);
        },
    };
    assert(q1 < n);
    let q2 = match find_byte(s, 34, q1 + 1) {
        Some(i) => i,
        None => {
            return Err(PipelineError::ToolchainParseError);
        },
    };
    let mut out: Vec<u8> = Vec::new();
    let mut j: usize = q1 + 1;
    proof {
        assert(s@.subrange(q1 + 1, q1 + 1) =~= Seq::empty());
    }
    while j < q2
        invariant
            q1 + 1 <= j <= q2 < s@.len(),
            out@ == s@.subrange(q1 as int + 1, j as int),
        decreases q2 - j,
    {
        out.push(s[j]);
        proof {
            assert(s@.subrange(q1 as int + 1, j as int + 1) =~= s@.subrange(
                q1 as int + 1,
                j as int,
            ).push(s@[j as int]));
        }
        j = j + 1;
    }
    Ok(out)
}

/// The versions written by those of `names` that are well-formed dotted
/// versions, in order.  Tag enumeration matches names against a loose
/// glob, so names that are not versions are passed over.
pub open spec fn tag_versions(names: Seq<Vec<u8>>) -> Seq<ToolchainVersion>
    decreases names.len(),
{
    if names.len() == 0 {
        Seq::empty()
    } else {
        tag_versions(names.drop_last()) + match dotted_version_of(names.last()@) {
            Some(v) => seq![v],
            None => Seq::empty(),
        }
    }
}

/// Parses a list of tag names into the versions they write, passing over
/// names that are not dotted versions.
pub fn parse_stable_tags(names: &Vec<Vec<u8>>) -> (r: Vec<ToolchainVersion>)
    ensures
        r@ == tag_versions(names@),
{
    let mut r: Vec<ToolchainVersion> = Vec::new();
    let mut i: usize = 0;
    while i < names.len()
        invariant
            0 <= i <= names@.len(),
            r@ == tag_versions(names@.take(i as int)),
        decreases names@.len() - i,
    {
        let ghost r_before = r@;
        match parse_dotted(&names[i]) {
            Ok(v) => {
                r.push(v);
            },
            Err(_) => {},
        }
        proof {
            assert(names@.take(i + 1).drop_last() =~= names@.take(i as int));
            assert(names@.take(i + 1).last() == names@[i as int]);
        }
        i = i + 1;
    }
    proof {
        assert(names@.take(names@.len() as int) =~= names@);
    }
    r
}

} // verus!
