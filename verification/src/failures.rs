//! The record of the updates that broke a crate, as the JSON object that is
//! stored for it.

use vstd::prelude::*;
use crate::deps;
use crate::json::{self, JsonView};
use crate::text;

verus! {

/// `serde_json::Map`, the members of a JSON object.
#[verifier::external_type_specification]
#[verifier::external_body]
#[verifier::reject_recursive_types(K)]
#[verifier::reject_recursive_types(V)]
pub struct ExJsonMap<K, V>(serde_json::Map<K, V>);

/// The members that a `serde_json::Map` holds, by key.
pub uninterp spec fn members(m: serde_json::Map<String, serde_json::Value>) -> Map<Seq<char>, JsonView>;

/// No members at all.
pub open spec fn nothing() -> Map<Seq<char>, JsonView> {
    Map::empty()
}

/// Whether looking a key up in the entries gives the member of `m`.
pub open spec fn lists(entries: Seq<(Seq<char>, JsonView)>, m: Map<Seq<char>, JsonView>) -> bool {
    forall|key: Seq<char>| #[trigger]
        json::lookup(entries, key) == if m.contains_key(key) {
            Some(m[key])
        } else {
            None
        }
}

/// Whether `doc` is an object with the members `m`.
pub open spec fn is_object_of(doc: JsonView, m: Map<Seq<char>, JsonView>) -> bool {
    doc matches JsonView::Object(entries) && lists(entries, m)
}

/// `serde_json::Map::new`: a map without members.
#[verifier::external_body]
fn no_members() -> (m: serde_json::Map<String, serde_json::Value>)
    ensures
        members(m) == nothing(),
{
    serde_json::Map::new()
}

/// `serde_json::Map::is_empty`: whether there are no members.
#[verifier::external_body]
fn has_no_members(m: &serde_json::Map<String, serde_json::Value>) -> (empty: bool)
    ensures
        empty == (members(*m) == nothing()),
{
    m.is_empty()
}

/// `serde_json::Map::get`: the member of that key, where there is one.
#[verifier::external_body]
fn member<'a>(m: &'a serde_json::Map<String, serde_json::Value>, key: &str) -> (r: Option<
    &'a serde_json::Value,
>)
    ensures
        match r {
            Some(v) => members(*m).contains_key(key@) && json::value_view(*v) == members(*m)[key@],
            None => !members(*m).contains_key(key@),
        },
{
    m.get(key)
}

/// `serde_json::Map::insert`: the member of that key is now the given value,
/// and the other members are as they were.
#[verifier::external_body]
fn set_member(
    m: &mut serde_json::Map<String, serde_json::Value>,
    key: String,
    value: serde_json::Value,
)
    ensures
        members(*final(m)) == members(*old(m)).insert(key@, json::value_view(value)),
{
    m.insert(key, value);
}

/// The variant `String` of `serde_json::Value`.
#[verifier::external_body]
fn text_value(s: String) -> (v: serde_json::Value)
    ensures
        json::value_view(v) == JsonView::Text(s@),
{
    serde_json::Value::String(s)
}

/// The variant `Array` of `serde_json::Value`.
#[verifier::external_body]
fn array_value(items: Vec<serde_json::Value>) -> (v: serde_json::Value)
    ensures
        json::value_view(v) == JsonView::Array(
            items@.map_values(|item: serde_json::Value| json::value_view(item)),
        ),
{
    serde_json::Value::Array(items)
}

/// The variant `Object` of `serde_json::Value`: its members are those of the
/// map. In which order they are listed is left open.
#[verifier::external_body]
fn object_value(m: serde_json::Map<String, serde_json::Value>) -> (v: serde_json::Value)
    ensures
        is_object_of(json::value_view(v), members(m)),
{
    serde_json::Value::Object(m)
}

/// What is recorded of one dependency: its kind, its requirement, and the
/// versions to which the crate could not be moved.
pub struct FailureView {
    pub dep_type: Seq<char>,
    pub req: Seq<char>,
    pub failed_targets: Seq<Seq<char>>,
}

/// The string documents of a list of texts.
pub open spec fn text_items(items: Seq<Seq<char>>) -> Seq<JsonView> {
    items.map_values(|s: Seq<char>| JsonView::Text(s))
}

impl FailureView {
    /// Whether `doc` is the object for this record: three members and no more.
    pub open spec fn described_by(self, doc: JsonView) -> bool {
        &&& doc is Object
        &&& forall|key: Seq<char>| #[trigger]
            doc.get(key) == if key == "dep_type"@ {
                Some(JsonView::Text(self.dep_type))
            } else if key == "req"@ {
                Some(JsonView::Text(self.req))
            } else if key == "failed_targets"@ {
                Some(JsonView::Array(text_items(self.failed_targets)))
            } else {
                None
            }
    }

    /// The record with one more version, where it is not listed yet.
    pub open spec fn with(self, version: Seq<char>) -> FailureView {
        if self.failed_targets.contains(version) {
            self
        } else {
            FailureView { failed_targets: self.failed_targets.push(version), ..self }
        }
    }
}

/// The records after the move of a dependency to `version` broke the crate. The
/// kind and the requirement are those of the first failure under that name.
pub open spec fn failed(
    records: Map<Seq<char>, FailureView>,
    dep: deps::DependencyView,
    version: Seq<char>,
) -> Map<Seq<char>, FailureView> {
    let record = if records.contains_key(dep.name) {
        records[dep.name]
    } else {
        FailureView {
            dep_type: deps::label_of(dep.dep_type),
            req: dep.req,
            failed_targets: Seq::empty(),
        }
    };
    records.insert(dep.name, record.with(version))
}

/// Whether the members are the objects for the records.
pub open spec fn describe(
    m: Map<Seq<char>, JsonView>,
    records: Map<Seq<char>, FailureView>,
) -> bool {
    &&& m.dom() == records.dom()
    &&& forall|name: Seq<char>| #[trigger]
        records.contains_key(name) ==> records[name].described_by(m[name])
}

/// Whether `doc` is the object that is stored for the records.
pub open spec fn stored_as(doc: JsonView, records: Map<Seq<char>, FailureView>) -> bool {
    &&& doc is Object
    &&& forall|name: Seq<char>| #[trigger] doc.get(name) is Some <==> records.contains_key(name)
    &&& forall|name: Seq<char>| #[trigger]
        records.contains_key(name) ==> records[name].described_by(doc.get(name)->0)
}

/// The failures of one crate, by dependency.
pub struct Failures {
    errors: serde_json::Map<String, serde_json::Value>,
    records: Ghost<Map<Seq<char>, FailureView>>,
}

impl View for Failures {
    type V = Map<Seq<char>, FailureView>;

    closed spec fn view(&self) -> Map<Seq<char>, FailureView> {
        self.records@
    }
}

proof fn lemma_names()
    ensures
        "dep_type"@ != "req"@,
        "dep_type"@ != "failed_targets"@,
        "req"@ != "failed_targets"@,
{
    reveal_strlit("dep_type");
    reveal_strlit("req");
    reveal_strlit("failed_targets");
    assert("dep_type"@.len() == 8);
    assert("req"@.len() == 3);
    assert("failed_targets"@.len() == 14);
}

/// The object for one record.
fn failure_value(dep_type: String, req: String, targets: &Vec<String>) -> (v: serde_json::Value)
    ensures
        (FailureView {
            dep_type: dep_type@,
            req: req@,
            failed_targets: text::texts(targets@),
        }).described_by(json::value_view(v)),
{
    let ghost record = FailureView {
        dep_type: dep_type@,
        req: req@,
        failed_targets: text::texts(targets@),
    };
    let mut items: Vec<serde_json::Value> = Vec::new();
    let mut i: usize = 0;
    while i < targets.len()
        invariant
            i <= targets@.len(),
            items@.len() == i,
            forall|k: int| 0 <= k < i ==> json::value_view(#[trigger] items@[k]) == JsonView::Text(
                targets@[k]@,
            ),
        decreases targets@.len() - i,
    {
        items.push(text_value(targets[i].clone()));
        i += 1;
    }
    assert(items@.map_values(|item: serde_json::Value| json::value_view(item)) =~= text_items(
        text::texts(targets@),
    ));
    let mut m = no_members();
    set_member(&mut m, "dep_type".to_owned(), text_value(dep_type));
    set_member(&mut m, "req".to_owned(), text_value(req));
    set_member(&mut m, "failed_targets".to_owned(), array_value(items));
    let v = object_value(m);
    proof {
        lemma_names();
        let doc = json::value_view(v);
        assert forall|key: Seq<char>| #[trigger]
            doc.get(key) == if key == "dep_type"@ {
                Some(JsonView::Text(record.dep_type))
            } else if key == "req"@ {
                Some(JsonView::Text(record.req))
            } else if key == "failed_targets"@ {
                Some(JsonView::Array(text_items(record.failed_targets)))
            } else {
                None
            } by {
            assert(doc.get(key) == json::lookup(doc->Object_0, key));
        }
    }
    v
}

/// The texts of a list of string documents.
fn read_texts(items: &Vec<json::Json>) -> (r: Vec<String>)
    ensures
        forall|all: Seq<Seq<char>>|
            json::views(items@) == #[trigger] text_items(all) ==> text::texts(r@) == all,
{
    let mut r: Vec<String> = Vec::new();
    let mut i: usize = 0;
    while i < items.len()
        invariant
            i <= items@.len(),
            forall|all: Seq<Seq<char>>|
                json::views(items@) == #[trigger] text_items(all) ==> text::texts(r@) == all.take(
                    i as int,
                ),
        decreases items@.len() - i,
    {
        let ghost before = r@;
        match items[i].as_text() {
            Some(s) => r.push(s.clone()),
            None => {},
        }
        assert forall|all: Seq<Seq<char>>|
            json::views(items@) == #[trigger] text_items(all) implies text::texts(r@) == all.take(
            i + 1,
        ) by {
            assert(json::views(items@).len() == text_items(all).len());
            assert(json::views(items@)[i as int] == items@[i as int]@);
            assert(text_items(all)[i as int] == JsonView::Text(all[i as int]));
            assert(text::texts(r@) =~= text::texts(before).push(all[i as int]));
            assert(all.take(i + 1) =~= all.take(i as int).push(all[i as int]));
        }
        i += 1;
    }
    assert forall|all: Seq<Seq<char>>|
        json::views(items@) == #[trigger] text_items(all) implies text::texts(r@) == all by {
        assert(json::views(items@).len() == text_items(all).len());
        assert(all.take(i as int) =~= all);
    }
    r
}

/// Whether the list holds the text.
pub fn holds_text(list: &Vec<String>, wanted: &str) -> (found: bool)
    ensures
        found == text::texts(list@).contains(wanted@),
{
    let mut i: usize = 0;
    while i < list.len()
        invariant
            i <= list@.len(),
            forall|k: int| 0 <= k < i ==> (#[trigger] list@[k])@ != wanted@,
        decreases list@.len() - i,
    {
        if text::same_text(list[i].as_str(), wanted) {
            assert(text::texts(list@)[i as int] == wanted@);
            return true;
        }
        i += 1;
    }
    assert forall|k: int| 0 <= k < text::texts(list@).len() implies text::texts(list@)[k] != wanted@ by {
        assert(list@[k]@ != wanted@);
    }
    false
}

impl Failures {
    #[verifier::type_invariant]
    spec fn describes_records(&self) -> bool {
        describe(members(self.errors), self.records@)
    }

    /// No failures yet.
    pub fn new() -> (f: Failures)
        ensures
            f@ == Map::<Seq<char>, FailureView>::empty(),
    {
        let errors = no_members();
        assert(members(errors).dom() =~= Map::<Seq<char>, FailureView>::empty().dom());
        Failures { errors, records: Ghost(Map::empty()) }
    }

    /// Records that the move of a dependency to `version` broke the crate.
    pub fn record(&mut self, dep: &deps::DependencyInfo, version: &str)
        ensures
            final(self)@ == failed(old(self)@, dep@, version@),
    {
        proof {
            use_type_invariant(&*self);
            lemma_names();
        }
        let ghost before = self.records@;
        let mut dep_type = deps::dep_type_to_str(&dep.dep_type).to_owned();
        let mut req = dep.req.clone();
        let mut targets: Vec<String> = Vec::new();
        assert(text::texts(targets@) =~= Seq::<Seq<char>>::empty());
        if let Some(held) = member(&self.errors, dep.name.as_str()) {
            let doc = json::json_of(held);
            proof {
                assert(before[dep.name@].described_by(doc@));
                let held_type = doc@.get("dep_type"@);
                let held_req = doc@.get("req"@);
                let held_targets = doc@.get("failed_targets"@);
            }
            if let Some(s) = doc.text_at("dep_type") {
                dep_type = s.clone();
            }
            if let Some(s) = doc.text_at("req") {
                req = s.clone();
            }
            if let Some(list) = doc.get("failed_targets") {
                if let Some(items) = list.as_array() {
                    targets = read_texts(items);
                    assert(json::views(items@) == text_items(before[dep.name@].failed_targets));
                }
            }
        }
        let ghost record = if before.contains_key(dep@.name) {
            before[dep@.name]
        } else {
            FailureView {
                dep_type: deps::label_of(dep@.dep_type),
                req: dep@.req,
                failed_targets: Seq::empty(),
            }
        };
        assert(record.dep_type == dep_type@);
        assert(record.req == req@);
        assert(record.failed_targets == text::texts(targets@));
        if !holds_text(&targets, version) {
            let ghost listed = targets@;
            targets.push(version.to_owned());
            assert(text::texts(targets@) =~= text::texts(listed).push(version@));
        }
        let value = failure_value(dep_type, req, &targets);
        let mut taken = Failures::new();
        std::mem::swap(self, &mut taken);
        proof {
            use_type_invariant(&taken);
        }
        let Failures { mut errors, records: _ } = taken;
        set_member(&mut errors, dep.name.clone(), value);
        let ghost after = failed(before, dep@, version@);
        assert(describe(members(errors), after)) by {
            assert(members(errors).dom() =~= after.dom());
            assert(record.with(version@).described_by(json::value_view(value)));
        }
        *self = Failures { errors, records: Ghost(after) };
    }

    /// The object that is stored for the crate; none where nothing failed.
    pub fn into_value(self) -> (r: Option<serde_json::Value>)
        ensures
            r is None == (self@ == Map::<Seq<char>, FailureView>::empty()),
            r is Some ==> stored_as(json::value_view(r->0), self@),
    {
        proof {
            use_type_invariant(&self);
        }
        let Failures { errors, records } = self;
        if has_no_members(&errors) {
            assert(records@ =~= Map::<Seq<char>, FailureView>::empty());
            None
        } else {
            proof {
                if records@ == Map::<Seq<char>, FailureView>::empty() {
                    assert(members(errors) =~= nothing());
                }
            }
            Some(object_value(errors))
        }
    }
}

/// Whether no record lists a version twice.
pub open spec fn without_repeats(records: Map<Seq<char>, FailureView>) -> bool {
    forall|name: Seq<char>| #[trigger]
        records.contains_key(name) ==> records[name].failed_targets.no_duplicates()
}

/// A failure is listed under its dependency, no version is listed twice, the
/// kind and the requirement of an earlier failure stay, and the records of other
/// dependencies are as they were.
pub proof fn law_failure_is_listed(
    records: Map<Seq<char>, FailureView>,
    dep: deps::DependencyView,
    version: Seq<char>,
)
    requires
        without_repeats(records),
    ensures
        without_repeats(failed(records, dep, version)),
        failed(records, dep, version).contains_key(dep.name),
        failed(records, dep, version)[dep.name].failed_targets.contains(version),
        records.contains_key(dep.name) ==> failed(records, dep, version)[dep.name].dep_type
            == records[dep.name].dep_type && failed(records, dep, version)[dep.name].req
            == records[dep.name].req,
        records.contains_key(dep.name) ==> forall|v: Seq<char>|
            #![trigger failed(records, dep, version)[dep.name].failed_targets.contains(v)]
            failed(records, dep, version)[dep.name].failed_targets.contains(v) <==> v == version
                || records[dep.name].failed_targets.contains(v),
        !records.contains_key(dep.name) ==> {
            let record = failed(records, dep, version)[dep.name];
            &&& record.dep_type == match dep.dep_type {
                deps::DepType::Normal => "normal"@,
                deps::DepType::Build => "build"@,
                deps::DepType::Dev => "dev"@,
            }
            &&& record.req == dep.req
            &&& record.failed_targets == seq![version]
        },
        forall|other: Seq<char>|
            other != dep.name ==> (#[trigger] failed(records, dep, version).contains_key(other)
                <==> records.contains_key(other)),
        forall|other: Seq<char>|
            other != dep.name && records.contains_key(other) ==> #[trigger] failed(
                records,
                dep,
                version,
            )[other] == records[other],
{
    let record = if records.contains_key(dep.name) {
        records[dep.name]
    } else {
        FailureView {
            dep_type: deps::label_of(dep.dep_type),
            req: dep.req,
            failed_targets: Seq::empty(),
        }
    };
    assert(record.failed_targets.no_duplicates());
    if !record.failed_targets.contains(version) {
        let listed = record.failed_targets.push(version);
        assert(listed.last() == version);
        assert(listed[listed.len() - 1] == version);
        assert forall|v: Seq<char>| listed.contains(v) <==> v == version
            || record.failed_targets.contains(v) by {
            if record.failed_targets.contains(v) {
                let k = choose|k: int|
                    0 <= k < record.failed_targets.len() && record.failed_targets[k] == v;
                assert(listed[k] == v);
            }
            if listed.contains(v) {
                let k = choose|k: int| 0 <= k < listed.len() && listed[k] == v;
                if k < record.failed_targets.len() {
                    assert(record.failed_targets[k] == v);
                }
            }
        }
        if !records.contains_key(dep.name) {
            assert(listed =~= seq![version]);
        }
        assert(listed.no_duplicates()) by {
            assert forall|i: int, j: int|
                0 <= i < listed.len() && 0 <= j < listed.len() && i != j implies listed[i]
                != listed[j] by {
                if i < record.failed_targets.len() {
                    assert(record.failed_targets.contains(listed[i]));
                }
                if j < record.failed_targets.len() {
                    assert(record.failed_targets.contains(listed[j]));
                }
            }
        }
    }
}

/// The object that is stored has a member for every record and no other. It is
/// an object of three members: the kind, the requirement, and the list of the
/// versions, in order.
pub proof fn law_stored_object(doc: JsonView, records: Map<Seq<char>, FailureView>, name: Seq<char>)
    requires
        stored_as(doc, records),
    ensures
        doc.get(name) is Some <==> records.contains_key(name),
        records.contains_key(name) ==> {
            let entry = doc.get(name)->0;
            let targets = records[name].failed_targets;
            &&& entry.get("dep_type"@) == Some(JsonView::Text(records[name].dep_type))
            &&& entry.get("req"@) == Some(JsonView::Text(records[name].req))
            &&& entry.get("failed_targets"@) matches Some(JsonView::Array(items)) && items.len()
                == targets.len() && forall|i: int|
                0 <= i < items.len() ==> #[trigger] items[i] == JsonView::Text(targets[i])
            &&& forall|key: Seq<char>| #[trigger]
                entry.get(key) is Some ==> key == "dep_type"@ || key == "req"@ || key
                    == "failed_targets"@
        },
{
    lemma_names();
    if records.contains_key(name) {
        let entry = doc.get(name)->0;
        assert(records[name].described_by(entry));
        assert(entry.get("dep_type"@) == Some(JsonView::Text(records[name].dep_type)));
        assert(entry.get("req"@) == Some(JsonView::Text(records[name].req)));
        assert(entry.get("failed_targets"@) is Some);
    }
}

} // verus!
