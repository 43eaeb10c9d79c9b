//! Which version of a dependency an update goes to.

use vstd::prelude::*;
use crate::json::{self, Json, JsonView};
use crate::text;

verus! {

/// Whether `semver::Version::parse` accepts a text.
pub uninterp spec fn version_valid(text: Seq<char>) -> bool;

/// Whether `semver::VersionReq::parse` accepts a text.
pub uninterp spec fn version_req_valid(text: Seq<char>) -> bool;

/// Whether both texts parse, the first as a requirement and the second as a
/// version, and `semver::VersionReq::matches` accepts the second for the first.
pub uninterp spec fn version_req_matches(req: Seq<char>, version: Seq<char>) -> bool;

/// Whether both texts parse as versions and the first is less than the second
/// in the order of `semver::Version`.
pub uninterp spec fn version_less(a: Seq<char>, b: Seq<char>) -> bool;

/// `semver::Version::parse`, and `to_string` on what it returns: the text of a
/// version is its only text, so a version that was read is written back as it
/// was read.
#[verifier::external_body]
fn read_version(text: &str) -> (r: Option<String>)
    ensures
        r is Some == version_valid(text@),
        r is Some ==> r->0@ == text@,
{
    match semver::Version::parse(text) {
        Ok(version) => Some(version.to_string()),
        Err(_) => None,
    }
}

/// `semver::VersionReq::parse`: whether it accepts the text.
#[verifier::external_body]
fn reads_as_version_req(text: &str) -> (valid: bool)
    ensures
        valid == version_req_valid(text@),
{
    semver::VersionReq::parse(text).is_ok()
}

/// `semver::VersionReq::matches` on the parsed texts; `false` where one of them
/// does not parse.
#[verifier::external_body]
fn matches_version_req(req: &str, version: &str) -> (matches: bool)
    ensures
        matches == version_req_matches(req@, version@),
{
    match (semver::VersionReq::parse(req), semver::Version::parse(version)) {
        (Ok(req), Ok(version)) => req.matches(&version),
        _ => false,
    }
}

/// `<` of `semver::Version` on the parsed texts; `false` where one of them does
/// not parse. The order is total: of two versions one is less, or they are
/// written the same, and what lies above the greater one, or below the lesser
/// one, lies above or below the other one too.
#[verifier::external_body]
fn version_before(a: &str, b: &str) -> (before: bool)
    ensures
        before == version_less(a@, b@),
        before ==> !version_less(b@, a@),
        !before && version_valid(a@) && version_valid(b@) ==> a@ == b@ || version_less(b@, a@),
        !before && version_valid(b@) ==> forall|c: Seq<char>|
            version_less(a@, c) ==> #[trigger] version_less(b@, c),
        !before && version_valid(a@) ==> forall|c: Seq<char>|
            version_less(c, b@) ==> #[trigger] version_less(c, a@),
{
    match (semver::Version::parse(a), semver::Version::parse(b)) {
        (Ok(a), Ok(b)) => a < b,
        _ => false,
    }
}

/// A version requirement, by its text.
#[derive(Debug)]
pub struct VersionReq {
    text: String,
}

impl View for VersionReq {
    type V = Seq<char>;

    closed spec fn view(&self) -> Seq<char> {
        self.text@
    }
}

impl VersionReq {
    /// Reads a version requirement, such as `^1.0.51`.
    pub fn parse(text: &str) -> (r: Option<VersionReq>)
        ensures
            r is Some == version_req_valid(text@),
            r is Some ==> r->0@ == text@,
    {
        if reads_as_version_req(text) {
            Some(VersionReq { text: text.to_owned() })
        } else {
            None
        }
    }
}

/// Whether `version` is a version that the requirement admits.
pub open spec fn admits(req: Seq<char>, version: Seq<char>) -> bool {
    version_valid(version) && version_req_matches(req, version)
}

/// The greatest of the versions that the requirement admits; of equal ones the
/// last.
pub open spec fn newest(versions: Seq<Seq<char>>, req: Seq<char>) -> Option<Seq<char>>
    decreases versions.len(),
{
    if versions.len() == 0 {
        None
    } else {
        let before = newest(versions.drop_last(), req);
        let version = versions.last();
        if !admits(req, version) {
            before
        } else if before is Some && version_less(version, before->0) {
            before
        } else {
            Some(version)
        }
    }
}

/// Whether `best` is admitted and every other admitted version among the first
/// `n` is less.
pub open spec fn tops(versions: Seq<Seq<char>>, n: int, req: Seq<char>, best: Seq<char>) -> bool {
    &&& admits(req, best)
    &&& exists|i: int| 0 <= i < n && #[trigger] versions[i] == best
    &&& forall|i: int|
        0 <= i < n && admits(req, #[trigger] versions[i]) ==> versions[i] == best || (version_less(
            versions[i],
            best,
        ) && !version_less(best, versions[i]))
}

/// Keeps of the versions those that parse and meet the requirement, and returns
/// the greatest of them.
pub fn filter_versions_by_req(versions: Vec<String>, req: &VersionReq) -> (r: Option<String>)
    ensures
        match r {
            Some(best) => newest(text::texts(versions@), req@) == Some(best@) && tops(
                text::texts(versions@),
                versions@.len() as int,
                req@,
                best@,
            ),
            None => newest(text::texts(versions@), req@) is None && forall|i: int|
                0 <= i < versions@.len() ==> !admits(req@, #[trigger] versions@[i]@),
        },
{
    let ghost all = text::texts(versions@);
    let mut best: Option<String> = None;
    let mut i: usize = 0;
    assert(all.take(0) =~= Seq::<Seq<char>>::empty());
    while i < versions.len()
        invariant
            i <= versions@.len(),
            all == text::texts(versions@),
            match best {
                Some(b) => newest(all.take(i as int), req@) == Some(b@) && tops(
                    all,
                    i as int,
                    req@,
                    b@,
                ),
                None => newest(all.take(i as int), req@) is None && forall|j: int|
                    0 <= j < i ==> !admits(req@, #[trigger] all[j]),
            },
        decreases versions@.len() - i,
    {
        let ghost version = all[i as int];
        assert(version == versions@[i as int]@);
        assert(all.take(i + 1).drop_last() == all.take(i as int));
        assert(all.take(i + 1).last() == version);
        match read_version(versions[i].as_str()) {
            Some(found) => {
                if matches_version_req(req.text.as_str(), found.as_str()) {
                    best = match best {
                        Some(held) => {
                            if version_before(found.as_str(), held.as_str()) {
                                Some(held)
                            } else {
                                Some(found)
                            }
                        },
                        None => Some(found),
                    };
                }
            },
            None => {},
        }
        i += 1;
    }
    assert(all.take(i as int) == all);
    assert forall|j: int| 0 <= j < versions@.len() implies all[j] == #[trigger] versions@[j]@ by {}
    best
}

/// The version number of one entry of the registry's version list, where the
/// version was not yanked.
pub open spec fn offered(entry: JsonView) -> Option<Seq<char>> {
    if entry.get("yanked"@) is Some && entry.get("yanked"@)->0.as_bool() == Some(true) {
        None
    } else {
        entry.text_at("num"@)
    }
}

/// The version numbers of the entries that offer one, in order.
pub open spec fn offers(entries: Seq<JsonView>) -> Seq<Seq<char>>
    decreases entries.len(),
{
    if entries.len() == 0 {
        Seq::empty()
    } else {
        match offered(entries.last()) {
            Some(num) => offers(entries.drop_last()).push(num),
            None => offers(entries.drop_last()),
        }
    }
}

/// The version numbers that a reply of the registry offers.
pub open spec fn reply_offers(reply: JsonView) -> Seq<Seq<char>> {
    match reply.get("versions"@) {
        Some(list) => match list.as_array() {
            Some(entries) => offers(entries),
            None => Seq::empty(),
        },
        None => Seq::empty(),
    }
}

/// Reads the versions that were not yanked from a reply of the registry.
pub fn versions_from_reply(reply: &Json) -> (versions: Vec<String>)
    ensures
        text::texts(versions@) == reply_offers(reply@),
{
    let mut versions: Vec<String> = Vec::new();
    assert(text::texts(versions@) =~= Seq::<Seq<char>>::empty());
    let list = match reply.get("versions") {
        Some(list) => list,
        None => return versions,
    };
    let entries = match list.as_array() {
        Some(entries) => entries,
        None => return versions,
    };
    let ghost all = json::views(entries@);
    let mut i: usize = 0;
    assert(all.take(0) =~= Seq::<JsonView>::empty());
    while i < entries.len()
        invariant
            i <= entries@.len(),
            all == json::views(entries@),
            text::texts(versions@) == offers(all.take(i as int)),
        decreases entries@.len() - i,
    {
        assert(all.take(i + 1).drop_last() == all.take(i as int));
        assert(all.take(i + 1).last() == entries@[i as int]@);
        let entry = &entries[i];
        let yanked = match entry.get("yanked") {
            Some(flag) => match flag.as_bool() {
                Some(yanked) => yanked,
                None => false,
            },
            None => false,
        };
        if !yanked {
            if let Some(num) = entry.text_at("num") {
                let ghost before = versions@;
                versions.push(num.clone());
                assert(text::texts(versions@) =~= text::texts(before).push(num@));
            }
        }
        i += 1;
    }
    assert(all.take(i as int) == all);
    versions
}

/// The versions that the body of a reply of the registry offers.
pub fn versions_from_body(body: &str) -> (r: Result<Vec<String>, serde_json::Error>)
    ensures
        match r {
            Ok(versions) => json::parsed_json(body@) is Some && text::texts(versions@)
                == reply_offers(json::parsed_json(body@)->0),
            Err(_) => json::parsed_json(body@) is None,
        },
{
    match json::parse_json(body) {
        Ok(reply) => Ok(versions_from_reply(&reply)),
        Err(e) => Err(e),
    }
}

/// Where the registry tells of a crate.
pub fn registry_url(crate_name: &str) -> (url: String)
    ensures
        url@ == "https://crates.io/api/v1/crates/"@ + crate_name@,
{
    "https://crates.io/api/v1/crates/".to_owned().concat(crate_name)
}

/// A version is chosen exactly where one of the list reads as a version and
/// meets the requirement, and it is one of those.
pub proof fn law_newest_is_admitted(versions: Seq<Seq<char>>, req: Seq<char>)
    ensures
        newest(versions, req) is Some <==> exists|i: int|
            0 <= i < versions.len() && version_valid(#[trigger] versions[i]) && version_req_matches(
                req,
                versions[i],
            ),
        newest(versions, req) matches Some(best) ==> versions.contains(best) && version_valid(best)
            && version_req_matches(req, best),
    decreases versions.len(),
{
    if versions.len() > 0 {
        let before = versions.drop_last();
        law_newest_is_admitted(before, req);
        if newest(before, req) is Some {
            let i = choose|i: int|
                0 <= i < before.len() && version_valid(#[trigger] before[i]) && version_req_matches(
                    req,
                    before[i],
                );
            assert(versions[i] == before[i]);
            let best = newest(before, req)->0;
            let j = choose|j: int| 0 <= j < before.len() && before[j] == best;
            assert(versions[j] == best);
        }
        assert(versions[versions.len() - 1] == versions.last());
        if newest(versions, req) is None {
            assert forall|i: int| 0 <= i < versions.len() implies !(version_valid(
                #[trigger] versions[i],
            ) && version_req_matches(req, versions[i])) by {
                if i < before.len() {
                    assert(before[i] == versions[i]);
                }
            }
        }
    }
}

/// Whether the versions are ordered as versions are: of two that are admitted
/// and differ one is less and the other is not, and what is less than the lesser
/// is less than the greater.
pub open spec fn ordered(versions: Seq<Seq<char>>, req: Seq<char>) -> bool {
    &&& forall|i: int, j: int|
        #![trigger versions[i], versions[j]]
        0 <= i < versions.len() && 0 <= j < versions.len() && admits(req, versions[i]) && admits(
            req,
            versions[j],
        ) && versions[i] != versions[j] ==> version_less(versions[i], versions[j])
            != version_less(versions[j], versions[i])
    &&& forall|i: int, j: int, k: int|
        #![trigger versions[i], versions[j], versions[k]]
        0 <= i < versions.len() && 0 <= j < versions.len() && 0 <= k < versions.len()
            && version_less(versions[i], versions[j]) && version_less(versions[j], versions[k])
            ==> version_less(versions[i], versions[k])
    &&& forall|i: int|
        0 <= i < versions.len() ==> !version_less(#[trigger] versions[i], versions[i])
}

/// No other version of the list that reads as a version and meets the
/// requirement is greater than the chosen one.
pub proof fn law_newest_is_the_greatest(versions: Seq<Seq<char>>, req: Seq<char>, i: int)
    requires
        ordered(versions, req),
        0 <= i < versions.len(),
        version_valid(versions[i]),
        version_req_matches(req, versions[i]),
    ensures
        newest(versions, req) is Some,
        versions[i] == newest(versions, req)->0 || version_less(
            versions[i],
            newest(versions, req)->0,
        ),
        !version_less(newest(versions, req)->0, versions[i]),
    decreases versions.len(),
{
    let before = versions.drop_last();
    let last = versions.len() - 1;
    assert(ordered(before, req)) by {
        assert forall|a: int, b: int|
            #![trigger before[a], before[b]]
            0 <= a < before.len() && 0 <= b < before.len() && admits(req, before[a]) && admits(
                req,
                before[b],
            ) && before[a] != before[b] implies version_less(before[a], before[b])
            != version_less(before[b], before[a]) by {
            assert(before[a] == versions[a] && before[b] == versions[b]);
        }
        assert forall|a: int, b: int, c: int|
            #![trigger before[a], before[b], before[c]]
            0 <= a < before.len() && 0 <= b < before.len() && 0 <= c < before.len() && version_less(
                before[a],
                before[b],
            ) && version_less(before[b], before[c]) implies version_less(before[a], before[c]) by {
            assert(before[a] == versions[a] && before[b] == versions[b] && before[c]
                == versions[c]);
        }
        assert forall|a: int| 0 <= a < before.len() implies !version_less(
            #[trigger] before[a],
            before[a],
        ) by {
            assert(before[a] == versions[a]);
        }
    }
    law_newest_is_admitted(before, req);
    law_newest_is_admitted(versions, req);
    if i < before.len() {
        assert(before[i] == versions[i]);
        law_newest_is_the_greatest(before, req, i);
    }
    if newest(before, req) is Some {
        let held = newest(before, req)->0;
        let h = choose|h: int| 0 <= h < before.len() && before[h] == held;
        assert(versions[h] == held);
        assert(admits(req, versions[h]));
        if admits(req, versions[last]) && versions[last] != held {
            assert(version_less(versions[h], versions[last]) != version_less(
                versions[last],
                versions[h],
            ));
            if i < before.len() && versions[i] != versions[last] && !version_less(
                versions[last],
                versions[h],
            ) {
                if versions[i] != held {
                    assert(version_less(versions[i], versions[h]));
                    assert(version_less(versions[i], versions[last]));
                }
                assert(admits(req, versions[i]));
                assert(version_less(versions[i], versions[last]) != version_less(
                    versions[last],
                    versions[i],
                ));
            }
        }
    }
    assert(!version_less(versions[i], versions[i]));
}

/// The registry offers of two lists, one after the other, what it offers of the
/// first and then what it offers of the second. A single entry offers its number
/// exactly where it has one and was not yanked.
pub proof fn law_offers_of_lists(a: Seq<JsonView>, b: Seq<JsonView>, entry: JsonView)
    ensures
        offers(a + b) == offers(a) + offers(b),
        offers(seq![entry]).len() <= 1,
        offers(seq![entry]).len() == 1 <==> entry.get("num"@) is Some && entry.get("num"@)->0 is Text
            && entry.get("yanked"@) != Some(JsonView::Bool(true)),
        offers(seq![entry]).len() == 1 ==> entry.get("num"@) == Some(
            JsonView::Text(offers(seq![entry])[0]),
        ),
    decreases b.len(),
{
    reveal_with_fuel(offers, 2);
    assert(seq![entry].drop_last() =~= Seq::<JsonView>::empty());
    if b.len() == 0 {
        assert(a + b =~= a);
    } else {
        law_offers_of_lists(a, b.drop_last(), entry);
        assert((a + b).drop_last() =~= a + b.drop_last());
        assert((a + b).last() == b.last());
    }
    assert(offers(a + b) =~= offers(a) + offers(b));
}

/// A reply offers what its member `versions` lists, and nothing where that is no
/// list.
pub proof fn law_reply_offers(reply: JsonView)
    ensures
        reply.get("versions"@) matches Some(JsonView::Array(entries)) ==> reply_offers(reply)
            == offers(entries),
        !(reply.get("versions"@) matches Some(JsonView::Array(_))) ==> reply_offers(reply).len()
            == 0,
{
}

} // verus!
