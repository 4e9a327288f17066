//! Release version handling for the self-update check: reading the version
//! from a release redirect and comparing dotted versions.
use vstd::prelude::*;

use crate::text::{
    chars_of, occurs_at, string_from_chars, substring, trim_chars, trim_spec,
};

use crate::ui::screens;

verus! {

/// The shell command that installs the latest release.
pub const INSTALL_COMMAND: &'static str = "curl --proto '=https' --tlsv1.2 -LsSf https://github.com/scriptology/open-course-cli/releases/latest/download/opencourse-installer.sh | sh";

/// Shell command the user can run to install the latest release.
pub fn install_command() -> (r: &'static str)
    ensures
        r@ == INSTALL_COMMAND@,
{
    INSTALL_COMMAND
}

/// `s` without every leading `v` (`trim_start_matches('v')`).
pub open spec fn strip_leading_v(s: Seq<char>) -> Seq<char>
    decreases s.len(),
{
    if s.len() > 0 && s[0] == 'v' {
        strip_leading_v(s.drop_first())
    } else {
        s
    }
}

fn strip_leading_v_exec(s: &Vec<char>) -> (r: Vec<char>)
    ensures
        r@ == strip_leading_v(s@),
{
    let mut i: usize = 0;
    assert(s@.skip(0) =~= s@);
    while i < s.len() && s[i] == 'v'
        invariant
            i <= s@.len(),
            strip_leading_v(s@) == strip_leading_v(s@.skip(i as int)),
        decreases s@.len() - i,
    {
        assert(s@.skip(i as int).drop_first() =~= s@.skip(i + 1));
        i = i + 1;
    }
    let mut r: Vec<char> = Vec::new();
    let mut j: usize = i;
    while j < s.len()
        invariant
            i <= j <= s@.len(),
            r@ == s@.subrange(i as int, j as int),
        decreases s@.len() - j,
    {
        r.push(s[j]);
        j = j + 1;
        assert(r@ =~= s@.subrange(i as int, j as int));
    }
    assert(r@ =~= s@.skip(i as int));
    r
}

/// Index of the last occurrence of `/tag/` in `s`, if any.
pub open spec fn last_tag_marker(s: Seq<char>) -> Option<int> {
    if exists|i: int| occurs_at(s, "/tag/"@, i) {
        Some(choose|i: int| occurs_at(s, "/tag/"@, i) && forall|j: int| occurs_at(s, "/tag/"@, j) ==> j <= i)
    } else {
        None
    }
}

/// What `version_from_location` returns: the text after the last `/tag/`
/// of the location, trimmed and without leading `v`s; `None` when there is
/// no `/tag/` or nothing is left.
pub open spec fn version_from_location_spec(location: Seq<char>) -> Option<Seq<char>> {
    match last_tag_marker(location) {
        None => None,
        Some(p) => {
            let version = strip_leading_v(trim_spec(location.subrange(p + 5, location.len() as int)));
            if version.len() == 0 {
                None
            } else {
                Some(version)
            }
        },
    }
}

/// Extracts the version from a `releases/latest` redirect target such as
/// `https://github.com/owner/repo/releases/tag/v0.5.3`.
pub fn version_from_location(location: &str) -> (r: Option<String>)
    ensures
        crate::session::models::opt_seq(r) == version_from_location_spec(location@),
{
    let lv = chars_of(location);
    let marker = chars_of("/tag/");
    proof {
        reveal_strlit("/tag/");
    }
    assert(marker@.len() == 5);
    if lv.len() < 5 {
        assert forall|i: int| !occurs_at(location@, "/tag/"@, i) by {}
        return None;
    }
    let n = lv.len();
    let mut p: usize = lv.len() - 5;
    loop
        invariant
            n == lv@.len(),
            lv@ == location@,
            marker@ == "/tag/"@,
            marker@.len() == 5,
            lv@.len() >= 5,
            p + 5 <= lv@.len(),
            forall|j: int| p < j ==> !occurs_at(location@, "/tag/"@, j),
        decreases p,
    {
        let mut matched = true;
        let mut k: usize = 0;
        while k < 5
            invariant
                k <= 5,
                n == lv@.len(),
                marker@.len() == 5,
                p + 5 <= lv@.len(),
                lv@ == location@,
                marker@ == "/tag/"@,
                matched == forall|m: int| 0 <= m < k ==> lv@[p + m] == marker@[m],
            decreases 5 - k,
        {
            if lv[p + k] != marker[k] {
                matched = false;
            }
            k = k + 1;
        }
        if matched {
            assert(location@.subrange(p as int, p + 5) =~= "/tag/"@);
            assert(occurs_at(location@, "/tag/"@, p as int));
            let ghost q = last_tag_marker(location@)->0;
            assert(occurs_at(location@, "/tag/"@, q) && forall|j: int|
                occurs_at(location@, "/tag/"@, j) ==> j <= q);
            assert(q == p);
            let tag = substring(&lv, p + 5, lv.len());
            let tv = chars_of(tag.as_str());
            let t = trim_chars(&tv);
            let version = strip_leading_v_exec(&t);
            if version.len() == 0 {
                return None;
            }
            return Some(string_from_chars(version.as_slice()));
        } else {
            assert(!(location@.subrange(p as int, p + 5) =~= "/tag/"@));
        }
        if p == 0 {
            assert forall|i: int| !occurs_at(location@, "/tag/"@, i) by {}
            return None;
        }
        p = p - 1;
    }
}

/// Whether `c` is an ASCII decimal digit.
pub open spec fn is_digit(c: char) -> bool {
    '0' <= c <= '9'
}

/// The number written by the decimal digits `d`.
pub open spec fn digits_value(d: Seq<char>) -> nat
    decreases d.len(),
{
    if d.len() == 0 {
        0
    } else {
        digits_value(d.drop_last()) * 10 + ((d.last() as u32) - ('0' as u32)) as nat
    }
}

/// `s` without one leading `+`.
pub open spec fn unsigned_part(s: Seq<char>) -> Seq<char> {
    if s.len() > 0 && s[0] == '+' {
        s.drop_first()
    } else {
        s
    }
}

/// Whether every character of `d` is an ASCII digit.
pub open spec fn all_digits(d: Seq<char>) -> bool {
    forall|i: int| 0 <= i < d.len() ==> is_digit(#[trigger] d[i])
}

/// What `u32::from_str` returns: an optional leading `+`, then one or more
/// ASCII digits whose value fits in a `u32`.
pub open spec fn parse_u32_spec(s: Seq<char>) -> Option<u32> {
    let d = unsigned_part(s);
    if d.len() == 0 || !all_digits(d) {
        None
    } else if digits_value(d) > u32::MAX {
        None
    } else {
        Some(digits_value(d) as u32)
    }
}

proof fn lemma_digits_value_grows(d: Seq<char>, i: int)
    requires
        0 <= i <= d.len(),
        forall|k: int| 0 <= k < d.len() ==> is_digit(#[trigger] d[k]),
    ensures
        digits_value(d.subrange(0, i)) <= digits_value(d),
    decreases d.len() - i,
{
    if i < d.len() {
        lemma_digits_value_grows(d, i + 1);
        let a = d.subrange(0, i + 1);
        assert(a.drop_last() =~= d.subrange(0, i));
    } else {
        assert(d.subrange(0, i) =~= d);
    }
}

/// Parses a decimal `u32` as `str::parse::<u32>` does.
pub fn parse_u32(s: &Vec<char>) -> (r: Option<u32>)
    ensures
        r == parse_u32_spec(s@),
{
    let start: usize = if s.len() > 0 && s[0] == '+' {
        1
    } else {
        0
    };
    let ghost d = unsigned_part(s@);
    assert(d =~= s@.subrange(start as int, s@.len() as int));
    if start == s.len() {
        return None;
    }
    let mut i: usize = start;
    while i < s.len()
        invariant
            start <= i <= s@.len(),
            d == s@.subrange(start as int, s@.len() as int),
            d == unsigned_part(s@),
            forall|k: int| start <= k < i ==> is_digit(#[trigger] s@[k]),
        decreases s@.len() - i,
    {
        if !('0' <= s[i] && s[i] <= '9') {
            assert(d[i - start] == s@[i as int]);
            assert(0 <= i - start < d.len());
            assert(!is_digit(d[i - start]));
            assert(!(forall|k: int| 0 <= k < d.len() ==> is_digit(#[trigger] d[k])));
            return None;
        }
        i = i + 1;
    }
    assert forall|k: int| 0 <= k < d.len() implies is_digit(#[trigger] d[k]) by {
        assert(s@[start + k] == d[k]);
    }
    let mut v: u64 = 0;
    let mut j: usize = start;
    while j < s.len()
        invariant
            start <= j <= s@.len(),
            d == s@.subrange(start as int, s@.len() as int),
            d == unsigned_part(s@),
            forall|k: int| 0 <= k < d.len() ==> is_digit(#[trigger] d[k]),
            v == digits_value(d.subrange(0, j - start)),
            v <= u32::MAX,
        decreases s@.len() - j,
    {
        proof {
            let pre = d.subrange(0, j - start + 1);
            assert(pre.drop_last() =~= d.subrange(0, j - start));
            assert(pre.last() == s@[j as int]);
            assert(d[j - start] == s@[j as int]);
            assert(is_digit(d[j - start]));
        }
        let digit = (s[j] as u32) - ('0' as u32);
        let nv: u64 = v * 10 + digit as u64;
        if nv > u32::MAX as u64 {
            proof {
                lemma_digits_value_grows(d, j - start + 1);
            }
            return None;
        }
        v = nv;
        j = j + 1;
    }
    assert(d.subrange(0, d.len() as int) =~= d);
    Some(v as u32)
}

/// The pieces of `s` between `.` characters.
pub open spec fn dot_pieces(s: Seq<char>) -> Seq<Seq<char>> {
    crate::words::split_pieces(s, crate::words::Sep::Char('.'))
}

/// A dotted version as `(major, minor, patch)`: exactly three pieces, each
/// a `u32`.
pub open spec fn parse_version_spec(version: Seq<char>) -> Option<(u32, u32, u32)> {
    let parts = dot_pieces(version);
    if parts.len() != 3 {
        None
    } else {
        match (parse_u32_spec(parts[0]), parse_u32_spec(parts[1]), parse_u32_spec(parts[2])) {
            (Some(a), Some(b), Some(c)) => Some((a, b, c)),
            _ => None,
        }
    }
}

/// Parses a dotted `major.minor.patch` version.
pub fn parse_version(version: &Vec<char>) -> (r: Option<(u32, u32, u32)>)
    ensures
        r == parse_version_spec(version@),
{
    let parts = crate::words::split_by(version, crate::words::Sep::Char('.'));
    if parts.len() != 3 {
        return None;
    }
    let major = parse_u32(&parts[0]);
    let minor = parse_u32(&parts[1]);
    let patch = parse_u32(&parts[2]);
    match (major, minor, patch) {
        (Some(a), Some(b), Some(c)) => Some((a, b, c)),
        _ => None,
    }
}

/// Lexicographic order on version triples.
pub open spec fn version_gt(a: (u32, u32, u32), b: (u32, u32, u32)) -> bool {
    a.0 > b.0 || (a.0 == b.0 && (a.1 > b.1 || (a.1 == b.1 && a.2 > b.2)))
}

/// Whether `latest` is a newer version than `current`: both, without
/// leading `v`s, parse as `major.minor.patch` and `latest` is greater.
pub open spec fn is_newer_spec(current: Seq<char>, latest: Seq<char>) -> bool {
    match (
        parse_version_spec(strip_leading_v(current)),
        parse_version_spec(strip_leading_v(latest)),
    ) {
        (Some(cur), Some(lat)) => version_gt(lat, cur),
        _ => false,
    }
}

/// Compares two dotted version strings (e.g. "0.1.0" vs "0.2.0"); either
/// may have a leading `v`. An unparsable version is never newer.
pub fn is_newer(current: &str, latest: &str) -> (r: bool)
    ensures
        r == is_newer_spec(current@, latest@),
{
    let cv = chars_of(current);
    let lv = chars_of(latest);
    let c = strip_leading_v_exec(&cv);
    let l = strip_leading_v_exec(&lv);
    match (parse_version(&c), parse_version(&l)) {
        (Some(cur), Some(lat)) => lat.0 > cur.0 || (lat.0 == cur.0 && (lat.1 > cur.1 || (lat.1
            == cur.1 && lat.2 > cur.2))),
        _ => false,
    }
}

/// A version is never newer than itself, and of two distinct versions at
/// most one is newer than the other.
pub proof fn lemma_is_newer_asymmetric(a: Seq<char>, b: Seq<char>)
    ensures
        !is_newer_spec(a, a),
        is_newer_spec(a, b) ==> !is_newer_spec(b, a),
{
}

/// The version named by a release's tag: the tag without its leading `v`s,
/// `None` when there is no tag or nothing is left.
pub fn release_tag_version(tag_name: Option<&str>) -> (r: Option<String>)
    ensures
        crate::session::models::opt_seq(r) == match tag_name {
            Some(t) => if strip_leading_v(t@).len() == 0 {
                None
            } else {
                Some(strip_leading_v(t@))
            },
            None => None,
        },
{
    match tag_name {
        Some(t) => {
            let chars = chars_of(t);
            let version = strip_leading_v_exec(&chars);
            if version.len() == 0 {
                None
            } else {
                Some(string_from_chars(version.as_slice()))
            }
        },
        None => None,
    }
}

/// What a finished update check does.
#[derive(Debug, Clone, Copy, PartialEq, Eq, Structural)]
pub enum UpdateNotice {
    /// No newer release: nothing changes.
    Nothing,
    /// Remember the newer release for the dashboard badge only.
    Badge,
    /// Remember it and open the update prompt.
    Prompt,
}

/// The effect of learning the latest release `latest` (none when the lookup
/// failed) while running `current` on `view`: a newer release is
/// remembered, and the update prompt opens only from the dashboard or
/// onboarding, never in the middle of other work.
pub fn update_notice(current: &str, latest: Option<&str>, view: screens::View) -> (r: UpdateNotice)
    ensures
        r == match latest {
            None => UpdateNotice::Nothing,
            Some(l) => if !is_newer_spec(current@, l@) {
                UpdateNotice::Nothing
            } else if view == screens::View::Dashboard || view == screens::View::Onboarding {
                UpdateNotice::Prompt
            } else {
                UpdateNotice::Badge
            },
        },
{
    match latest {
        None => UpdateNotice::Nothing,
        Some(l) => {
            if !is_newer(current, l) {
                UpdateNotice::Nothing
            } else {
                match view {
                    screens::View::Dashboard | screens::View::Onboarding => UpdateNotice::Prompt,
                    _ => UpdateNotice::Badge,
                }
            }
        },
    }
}

} // verus!
