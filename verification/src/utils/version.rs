//! Version bookkeeping: the running version, and how a published release
//! compares with it.

use crate::models::schemas::opt_view;
use crate::utils::text::{
    append_str, char_views, chars_of, copy_range, parse_u32, parse_u32_spec, split,
    split_on, string_of,
};
use vstd::prelude::*;

verus! {

/// The running version.
pub const CURRENT_VERSION: &'static str = "1.0.2";

/// What is known about the running version and the latest release.
#[derive(Debug, Clone)]
pub struct VersionInfo {
    pub current_version: String,
    pub latest_version: Option<String>,
    pub has_update_available: bool,
    pub release_notes: Option<String>,
    pub release_date: Option<String>,
}

/// Whether `info` says no more than the running version.
pub open spec fn is_current_only(info: VersionInfo) -> bool {
    &&& info.current_version@ == CURRENT_VERSION@
    &&& info.latest_version is None
    &&& !info.has_update_available
    &&& info.release_notes is None
    &&& info.release_date is None
}

impl Default for VersionInfo {
    fn default() -> (info: Self)
        ensures
            is_current_only(info),
    {
        VersionInfo::current()
    }
}

impl VersionInfo {
    /// The running version, with nothing known about releases.
    pub fn current() -> (info: Self)
        ensures
            is_current_only(info),
    {
        VersionInfo {
            current_version: CURRENT_VERSION.to_string(),
            latest_version: None,
            has_update_available: false,
            release_notes: None,
            release_date: None,
        }
    }
}

/// `s` without every leading `c`.
pub open spec fn strip_leading(s: Seq<char>, c: char) -> Seq<char>
    decreases s.len(),
{
    if s.len() > 0 && s[0] == c {
        strip_leading(s.drop_first(), c)
    } else {
        s
    }
}

/// A version tag without its leading `v`s and, after them, `V`s.
pub open spec fn cleaned_version(version: Seq<char>) -> Seq<char> {
    strip_leading(strip_leading(version, 'v'), 'V')
}

fn skip_leading(v: &[char], from: usize, c: char) -> (i: usize)
    requires
        from <= v.len(),
    ensures
        from <= i <= v.len(),
        v@.skip(i as int) == strip_leading(v@.skip(from as int), c),
{
    let mut i: usize = from;
    while i < v.len() && v[i] == c
        invariant
            from <= i <= v.len(),
            strip_leading(v@.skip(i as int), c) == strip_leading(v@.skip(from as int), c),
        decreases v.len() - i,
    {
        proof {
            assert(v@.skip(i as int).drop_first() == v@.skip(i as int + 1));
        }
        i += 1;
    }
    i
}

/// Removes the leading `v`s and `V`s of a version tag.
pub fn clean_version_string(version: &str) -> (r: String)
    ensures
        r@ == cleaned_version(version@),
{
    let v = chars_of(version);
    proof {
        assert(v@.skip(0) == v@);
    }
    let i = skip_leading(v.as_slice(), 0, 'v');
    let j = skip_leading(v.as_slice(), i, 'V');
    let rest = copy_range(v.as_slice(), j, v.len());
    proof {
        assert(v@.subrange(j as int, v.len() as int) == v@.skip(j as int));
    }
    string_of(rest.as_slice())
}

/// The numbers of the first three dot-separated parts of a version, if each
/// of them is a number.
pub open spec fn semantic_version(version: Seq<char>) -> Option<Seq<u32>> {
    let head = leading_parts(version);
    if all_numbers(head) {
        Some(Seq::new(head.len(), |i: int| parse_u32_spec(head[i])->0))
    } else {
        None
    }
}

/// The first three dot-separated parts of a version, or all of them if there
/// are no more.
pub open spec fn leading_parts(version: Seq<char>) -> Seq<Seq<char>> {
    let parts = split_on(version, '.');
    if parts.len() > 3 {
        parts.take(3)
    } else {
        parts
    }
}

/// Whether every part is a number.
pub open spec fn all_numbers(parts: Seq<Seq<char>>) -> bool {
    forall|i: int| 0 <= i < parts.len() ==> parse_u32_spec(#[trigger] parts[i]) is Some
}

/// Reads the major, minor and patch numbers of a version.
pub fn parse_semantic_version(version: &str) -> (r: Option<Vec<u32>>)
    ensures
        match r {
            Some(v) => semantic_version(version@) == Some(v@),
            None => semantic_version(version@) is None,
        },
{
    let v = chars_of(version);
    let parts = split(v.as_slice(), '.');
    let count: usize = if parts.len() > 3 {
        3
    } else {
        parts.len()
    };
    let ghost all = split_on(version@, '.');
    let ghost head = if all.len() > 3 {
        all.take(3)
    } else {
        all
    };
    let mut out: Vec<u32> = Vec::new();
    let mut i: usize = 0;
    while i < count
        invariant
            i <= count,
            count == head.len(),
            count <= parts.len(),
            char_views(parts@) == all,
            head == (if all.len() > 3 {
                all.take(3)
            } else {
                all
            }),
            all == split_on(version@, '.'),
            out@.len() == i,
            forall|k: int| 0 <= k < i ==> parse_u32_spec(#[trigger] head[k]) == Some(out@[k]),
        decreases count - i,
    {
        proof {
            assert(head[i as int] == all[i as int]);
            assert(all[i as int] == parts@[i as int]@);
        }
        match parse_u32(parts[i].as_slice()) {
            Some(n) => {
                out.push(n);
            },
            None => {
                proof {
                    assert(parse_u32_spec(head[i as int]) is None);
                    assert(head == leading_parts(version@));
                    assert(!all_numbers(head));
                    assert(semantic_version(version@) is None);
                }
                return None;
            },
        }
        i += 1;
    }
    proof {
        assert(head == leading_parts(version@));
        assert(all_numbers(head));
        assert(out@ =~= Seq::new(head.len(), |i: int| parse_u32_spec(head[i])->0));
    }
    Some(out)
}

/// The part of a version at position `i`, zero where there is none.
pub open spec fn part_at(v: Seq<u32>, i: int) -> u32 {
    if 0 <= i < v.len() {
        v[i]
    } else {
        0
    }
}

/// Whether `a` is a later version than `b`, by major, then minor, then patch.
pub open spec fn newer_parts(a: Seq<u32>, b: Seq<u32>) -> bool {
    part_at(a, 0) > part_at(b, 0) || (part_at(a, 0) == part_at(b, 0) && (part_at(a, 1) > part_at(
        b,
        1,
    ) || (part_at(a, 1) == part_at(b, 1) && part_at(a, 2) > part_at(b, 2))))
}

/// Whether `a` comes after `b` in the order of strings: at the first place
/// where they differ `a` has the greater character, or `b` is a proper
/// prefix of `a`.
pub open spec fn text_after(a: Seq<char>, b: Seq<char>) -> bool
    decreases a.len(),
{
    if a.len() == 0 {
        false
    } else if b.len() == 0 {
        true
    } else if a[0] != b[0] {
        a[0] as u32 > b[0] as u32
    } else {
        text_after(a.drop_first(), b.drop_first())
    }
}

/// Whether `latest` is a later version than `current`: by their numbers when
/// both have them, else as strings.
pub open spec fn newer_version(latest: Seq<char>, current: Seq<char>) -> bool {
    match (semantic_version(latest), semantic_version(current)) {
        (Some(a), Some(b)) => newer_parts(a, b),
        _ => text_after(latest, current),
    }
}

fn part(v: &Vec<u32>, i: usize) -> (r: u32)
    ensures
        r == part_at(v@, i as int),
{
    if i < v.len() {
        v[i]
    } else {
        0
    }
}

fn chars_after(a: &[char], b: &[char]) -> (r: bool)
    ensures
        r == text_after(a@, b@),
{
    let mut i: usize = 0;
    proof {
        assert(a@.skip(0) == a@);
        assert(b@.skip(0) == b@);
    }
    loop
        invariant
            i <= a.len(),
            i <= b.len(),
            text_after(a@, b@) == text_after(a@.skip(i as int), b@.skip(i as int)),
        decreases a.len() - i,
    {
        if i >= a.len() {
            return false;
        }
        if i >= b.len() {
            return true;
        }
        if a[i] != b[i] {
            return a[i] as u32 > b[i] as u32;
        }
        proof {
            assert(a@.skip(i as int).drop_first() == a@.skip(i as int + 1));
            assert(b@.skip(i as int).drop_first() == b@.skip(i as int + 1));
        }
        i += 1;
    }
}

/// Compares a published version with the running one.
pub fn is_newer_version(latest: &str, current: &str) -> (r: bool)
    ensures
        r == newer_version(latest@, current@),
{
    let a = parse_semantic_version(latest);
    let b = parse_semantic_version(current);
    match (a, b) {
        (Some(x), Some(y)) => {
            let mut i: usize = 0;
            while i < 3
                invariant
                    i <= 3,
                    semantic_version(latest@) == Some(x@),
                    semantic_version(current@) == Some(y@),
                    forall|k: int| 0 <= k < i ==> part_at(x@, k) == part_at(y@, k),
                decreases 3 - i,
            {
                let p = part(&x, i);
                let q = part(&y, i);
                if p > q {
                    return true;
                } else if p < q {
                    return false;
                }
                i += 1;
            }
            false
        },
        _ => {
            let x = chars_of(latest);
            let y = chars_of(current);
            chars_after(x.as_slice(), y.as_slice())
        },
    }
}

/// The running version.
pub fn get_current_version() -> (r: String)
    ensures
        r@ == CURRENT_VERSION@,
{
    CURRENT_VERSION.to_string()
}

/// How a version is shown.
pub open spec fn displayed(info: VersionInfo) -> Seq<char> {
    if info.has_update_available {
        match info.latest_version {
            Some(latest) => "v"@ + info.current_version@ + " (update available: v"@ + latest@
                + ")"@,
            None => "v"@ + info.current_version@,
        }
    } else {
        "v"@ + info.current_version@ + " (latest)"@
    }
}

/// Formats a version for display.
pub fn format_version_for_display(version_info: &VersionInfo) -> (r: String)
    ensures
        r@ == displayed(*version_info),
{
    let mut out: Vec<char> = Vec::new();
    append_str(&mut out, "v");
    append_str(&mut out, version_info.current_version.as_str());
    if version_info.has_update_available {
        match &version_info.latest_version {
            Some(latest) => {
                append_str(&mut out, " (update available: v");
                append_str(&mut out, latest.as_str());
                append_str(&mut out, ")");
            },
            None => {},
        }
    } else {
        append_str(&mut out, " (latest)");
    }
    string_of(out.as_slice())
}

/// What a published release means for the running version. Drafts and
/// pre-releases are passed over.
pub open spec fn release_seen(
    info: VersionInfo,
    tag_name: Seq<char>,
    body: Seq<char>,
    published_at: Seq<char>,
    draft: bool,
    prerelease: bool,
) -> bool {
    if draft || prerelease {
        is_current_only(info)
    } else {
        &&& info.current_version@ == CURRENT_VERSION@
        &&& opt_view(info.latest_version) == Some(cleaned_version(tag_name))
        &&& info.has_update_available == newer_version(
            cleaned_version(tag_name),
            cleaned_version(CURRENT_VERSION@),
        )
        &&& opt_view(info.release_notes) == Some(body)
        &&& opt_view(info.release_date) == Some(published_at)
    }
}

/// Evaluates the latest published release against the running version.
pub fn evaluate_release(
    tag_name: &str,
    body: String,
    published_at: String,
    draft: bool,
    prerelease: bool,
) -> (info: VersionInfo)
    ensures
        release_seen(info, tag_name@, body@, published_at@, draft, prerelease),
{
    if draft || prerelease {
        return VersionInfo::current();
    }
    let latest = clean_version_string(tag_name);
    let current = clean_version_string(CURRENT_VERSION);
    let has_update = is_newer_version(latest.as_str(), current.as_str());
    VersionInfo {
        current_version: CURRENT_VERSION.to_string(),
        latest_version: Some(latest),
        has_update_available: has_update,
        release_notes: Some(body),
        release_date: Some(published_at),
    }
}

} // verus!
