//! Service-account credentials of the secondary backend.

use crate::config::settings::list_contains;
use crate::utils::text::{chars_of, copy_range, string_of, views};
use vstd::prelude::*;

verus! {

/// The place where credential files are kept.
#[derive(Debug, Clone)]
pub struct CredentialManager {
    pub credentials_dir: String,
}

/// The fields that a service-account object must have.
pub open spec fn required_fields() -> Seq<Seq<char>> {
    seq!["type"@, "project_id"@, "private_key_id"@, "private_key"@, "client_email"@]
}

/// The keys of the object that `text` is the JSON text of, as `serde_json`
/// reads it and in the order in which it walks them; nothing if `text` is
/// not JSON or not an object.
pub uninterp spec fn json_object_keys_of(text: Seq<char>) -> Option<Seq<Seq<char>>>;

/// The keys of an object, if there is one, by their texts.
pub open spec fn keys_view(r: Option<Vec<String>>) -> Option<Seq<Seq<char>>> {
    match r {
        Some(keys) => Some(views(keys@)),
        None => None,
    }
}

/// Parses `text` with `serde_json::from_str` and, if the value is an
/// object, hands out its keys as `Map::keys` walks them.
#[verifier::external_body]
fn json_object_keys(text: &str) -> (r: Option<Vec<String>>)
    ensures
        keys_view(r) == json_object_keys_of(text@),
{
    match serde_json::from_str::<serde_json::Value>(text) {
        Ok(serde_json::Value::Object(object)) => Some(object.keys().cloned().collect()),
        _ => None,
    }
}

/// Whether every one of `wanted` is among `keys`.
pub open spec fn has_every(keys: Seq<Seq<char>>, wanted: Seq<Seq<char>>) -> bool {
    forall|i: int| 0 <= i < wanted.len() ==> keys.contains(#[trigger] wanted[i])
}

/// Whether `text` is the JSON text of a service-account object: an object
/// that has every required field.
pub open spec fn holds_service_account(text: Seq<char>) -> bool {
    match json_object_keys_of(text) {
        Some(keys) => has_every(keys, required_fields()),
        None => false,
    }
}

/// Whether every one of `wanted` is among `keys`.
pub fn has_all_fields(keys: &Vec<String>, wanted: &Vec<String>) -> (r: bool)
    ensures
        r == has_every(views(keys@), views(wanted@)),
{
    let mut i: usize = 0;
    while i < wanted.len()
        invariant
            i <= wanted.len(),
            forall|j: int| 0 <= j < i ==> views(keys@).contains(#[trigger] views(wanted@)[j]),
        decreases wanted.len() - i,
    {
        if !list_contains(keys, wanted[i].as_str()) {
            proof {
                assert(views(wanted@)[i as int] == wanted@[i as int]@);
            }
            return false;
        }
        proof {
            assert(views(wanted@)[i as int] == wanted@[i as int]@);
        }
        i += 1;
    }
    true
}

/// Where a scan for top-level objects stands: how deep in braces it is,
/// where the object that it is in began, and the objects that it has passed,
/// each by its first position and the position after its last.
pub struct ScanState {
    pub level: nat,
    pub start: int,
    pub found: Seq<(int, int)>,
}

/// The scan of `s`. An opening brace goes one level down; a closing brace
/// goes one level up, unless the scan is at the top; an object ends where
/// the scan comes back to the top. Braces are counted wherever they stand.
pub open spec fn scan(s: Seq<char>) -> ScanState
    decreases s.len(),
{
    if s.len() == 0 {
        ScanState { level: 0, start: 0, found: Seq::<(int, int)>::empty() }
    } else {
        let before = scan(s.drop_last());
        let i = s.len() - 1;
        if s.last() == '{' {
            ScanState {
                level: before.level + 1,
                start: if before.level == 0 {
                    i
                } else {
                    before.start
                },
                found: before.found,
            }
        } else if s.last() == '}' && before.level > 0 {
            ScanState {
                level: (before.level - 1) as nat,
                start: before.start,
                found: if before.level == 1 {
                    before.found.push((before.start, i + 1))
                } else {
                    before.found
                },
            }
        } else {
            before
        }
    }
}

/// The texts at the given places of `s`.
pub open spec fn texts_at(s: Seq<char>, places: Seq<(int, int)>) -> Seq<Seq<char>> {
    places.map_values(|p: (int, int)| s.subrange(p.0, p.1))
}

/// The texts of the top-level objects of `s`, in order.
pub open spec fn top_level_objects(s: Seq<char>) -> Seq<Seq<char>> {
    texts_at(s, scan(s).found)
}

/// The test that a text passes when it is a service-account object.
pub open spec fn is_service_account() -> spec_fn(Seq<char>) -> bool {
    |t: Seq<char>| holds_service_account(t)
}

/// The service-account objects among the top-level objects of `s`.
pub open spec fn service_accounts(s: Seq<char>) -> Seq<Seq<char>> {
    top_level_objects(s).filter(is_service_account())
}

/// The scan of a text keeps every place within the text, in order of the
/// place's bounds.
proof fn lemma_scan_bounds(s: Seq<char>)
    ensures
        scan(s).level > 0 ==> 0 <= scan(s).start < s.len(),
        forall|k: int|
            0 <= k < scan(s).found.len() ==> 0 <= (#[trigger] scan(s).found[k]).0 < scan(
                s,
            ).found[k].1 <= s.len(),
    decreases s.len(),
{
    if s.len() > 0 {
        lemma_scan_bounds(s.drop_last());
    }
}

fn required_field_names() -> (r: Vec<String>)
    ensures
        views(r@) == required_fields(),
{
    let mut r: Vec<String> = Vec::new();
    r.push("type".to_string());
    r.push("project_id".to_string());
    r.push("private_key_id".to_string());
    r.push("private_key".to_string());
    r.push("client_email".to_string());
    proof {
        assert(views(r@) =~= required_fields());
    }
    r
}

impl CredentialManager {
    /// A manager for the credential files under `credentials_dir`.
    pub fn new(credentials_dir: String) -> (m: Self)
        ensures
            m.credentials_dir == credentials_dir,
    {
        CredentialManager { credentials_dir }
    }

    /// Whether `text` holds a service-account object.
    pub fn validate_credential_text(text: &str) -> (r: bool)
        ensures
            r == holds_service_account(text@),
    {
        let fields = required_field_names();
        match json_object_keys(text) {
            Some(keys) => has_all_fields(&keys, &fields),
            None => false,
        }
    }

    /// Reads the service-account objects out of a text that holds several
    /// JSON objects one after another, with whatever stands between them.
    pub fn parse_multiple_json_credentials(json_str: &str) -> (r: Vec<String>)
        ensures
            views(r@) == service_accounts(json_str@),
    {
        let v = chars_of(json_str);
        let ghost keep = is_service_account();
        let mut out: Vec<String> = Vec::new();
        let mut level: usize = 0;
        let mut start: usize = 0;
        let mut i: usize = 0;
        proof {
            reveal(Seq::filter);
            assert(v@.take(0) == Seq::<char>::empty());
            assert(texts_at(v@, scan(v@.take(0)).found) == Seq::<Seq<char>>::empty());
        }
        while i < v.len()
            invariant
                i <= v.len(),
                v@ == json_str@,
                keep == is_service_account(),
                level == scan(v@.take(i as int)).level,
                level > 0 ==> start == scan(v@.take(i as int)).start,
                level <= i,
                views(out@) == texts_at(v@, scan(v@.take(i as int)).found).filter(keep),
            decreases v.len() - i,
        {
            let ghost before = scan(v@.take(i as int));
            let ghost shown = views(out@);
            proof {
                reveal(Seq::filter);
                assert(v@.take(i as int + 1).drop_last() == v@.take(i as int));
                assert(v@.take(i as int + 1).last() == v@[i as int]);
                lemma_scan_bounds(v@.take(i as int));
            }
            let c = v[i];
            if c == '{' {
                if level == 0 {
                    start = i;
                }
                level += 1;
            } else if c == '}' && level > 0 {
                level -= 1;
                if level == 0 {
                    let object = copy_range(v.as_slice(), start, i + 1);
                    let text = string_of(object.as_slice());
                    proof {
                        let places = before.found.push((start as int, i as int + 1));
                        assert(scan(v@.take(i as int + 1)).found == places);
                        assert(texts_at(v@, places) == texts_at(v@, before.found).push(text@));
                        assert(texts_at(v@, places).drop_last() == texts_at(v@, before.found));
                    }
                    if Self::validate_credential_text(text.as_str()) {
                        out.push(text);
                        proof {
                            assert(views(out@) == shown.push(
                                v@.subrange(start as int, i as int + 1),
                            ));
                        }
                    }
                }
            }
            i += 1;
        }
        proof {
            assert(v@.take(v.len() as int) == v@);
        }
        out
    }
}

} // verus!
