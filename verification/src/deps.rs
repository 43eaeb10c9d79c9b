//! The dependencies that the index lists for one version of a crate.

use vstd::prelude::*;
use crate::json::{self, Json, JsonView};
use crate::text::same_text;

verus! {

/// In which part of a build a dependency is used.
#[derive(Debug, Clone, Copy, PartialEq, Eq, Structural)]
pub enum DepType {
    Normal,
    Dev,
    Build,
}

/// One dependency: its package name, its kind and its version requirement.
#[derive(Debug, Clone)]
pub struct DependencyInfo {
    pub name: String,
    pub dep_type: DepType,
    pub req: String,
}

/// What a [`DependencyInfo`] says.
pub struct DependencyView {
    pub name: Seq<char>,
    pub dep_type: DepType,
    pub req: Seq<char>,
}

impl View for DependencyInfo {
    type V = DependencyView;

    open spec fn view(&self) -> DependencyView {
        DependencyView { name: self.name@, dep_type: self.dep_type, req: self.req@ }
    }
}

/// The views of a list of dependencies, in order.
pub open spec fn dep_views(deps: Seq<DependencyInfo>) -> Seq<DependencyView> {
    deps.map_values(|d: DependencyInfo| d@)
}

/// The dependencies of a crate, by kind, each list in the order of the index.
#[derive(Debug)]
pub struct IndexDepsByKind {
    pub normal: Vec<DependencyInfo>,
    pub build: Vec<DependencyInfo>,
    pub dev: Vec<DependencyInfo>,
}

impl IndexDepsByKind {
    /// How many dependencies there are in all.
    pub open spec fn count(self) -> nat {
        self.normal@.len() + self.build@.len() + self.dev@.len()
    }

    /// All dependencies, the normal ones first, then those of build scripts,
    /// then those of tests and benches.
    pub open spec fn flat(self) -> Seq<DependencyView> {
        dep_views(self.normal@) + dep_views(self.build@) + dep_views(self.dev@)
    }

    /// Whether these are the dependencies `all`, told apart by kind.
    pub open spec fn sorts(self, all: Seq<DependencyView>) -> bool {
        &&& dep_views(self.normal@) == all.filter(of_kind(DepType::Normal))
        &&& dep_views(self.build@) == all.filter(of_kind(DepType::Build))
        &&& dep_views(self.dev@) == all.filter(of_kind(DepType::Dev))
    }

    pub fn new() -> (r: IndexDepsByKind)
        ensures
            r.flat() == Seq::<DependencyView>::empty(),
            r.count() == 0,
    {
        let r = IndexDepsByKind { normal: Vec::new(), build: Vec::new(), dev: Vec::new() };
        assert(r.flat() =~= Seq::<DependencyView>::empty());
        r
    }
}

pub open spec fn of_kind(kind: DepType) -> spec_fn(DependencyView) -> bool {
    |d: DependencyView| d.dep_type == kind
}

/// The kind that a `kind` label of the index stands for. An unknown label
/// stands for a normal dependency.
pub open spec fn kind_of(label: Seq<char>) -> DepType {
    if label == "dev"@ || label == "development"@ {
        DepType::Dev
    } else if label == "build"@ {
        DepType::Build
    } else {
        DepType::Normal
    }
}

/// The label under which a kind is written down.
pub open spec fn label_of(kind: DepType) -> Seq<char> {
    match kind {
        DepType::Normal => "normal"@,
        DepType::Dev => "dev"@,
        DepType::Build => "build"@,
    }
}

/// The dependency that one item of the index's `deps` list describes. An item
/// without a name describes none; without `req` the requirement is empty, and
/// without `kind` the dependency is a normal one.
pub open spec fn dependency_of(item: JsonView) -> Option<DependencyView> {
    match item.text_at("name"@) {
        Some(name) => if name.len() == 0 {
            None
        } else {
            Some(
                DependencyView {
                    name,
                    dep_type: match item.text_at("kind"@) {
                        Some(label) => kind_of(label),
                        None => DepType::Normal,
                    },
                    req: match item.text_at("req"@) {
                        Some(req) => req,
                        None => Seq::empty(),
                    },
                },
            )
        },
        None => None,
    }
}

/// The dependencies that the items describe, in order.
pub open spec fn dependencies(items: Seq<JsonView>) -> Seq<DependencyView>
    decreases items.len(),
{
    if items.len() == 0 {
        Seq::empty()
    } else {
        let before = dependencies(items.drop_last());
        match dependency_of(items.last()) {
            Some(d) => before.push(d),
            None => before,
        }
    }
}

/// The dependencies of a `deps` document: those of its items, none where it is
/// no array.
pub open spec fn listed_dependencies(deps: JsonView) -> Seq<DependencyView> {
    match deps.as_array() {
        Some(items) => dependencies(items),
        None => Seq::empty(),
    }
}

/// Reads one item of the index's `deps` list.
pub fn dependency_from(item: &Json) -> (r: Option<DependencyInfo>)
    ensures
        match r {
            Some(d) => dependency_of(item@) == Some(d@),
            None => dependency_of(item@) is None,
        },
{
    let name = match item.text_at("name") {
        Some(name) => if name.as_str().is_empty() {
            return None;
        } else {
            name.clone()
        },
        None => return None,
    };
    let req = match item.text_at("req") {
        Some(req) => req.clone(),
        None => String::new(),
    };
    let dep_type = match item.text_at("kind") {
        Some(label) => {
            let label = label.as_str();
            if same_text(label, "dev") || same_text(label, "development") {
                DepType::Dev
            } else if same_text(label, "build") {
                DepType::Build
            } else {
                DepType::Normal
            }
        },
        None => DepType::Normal,
    };
    Some(DependencyInfo { name, dep_type, req })
}

proof fn lemma_filter_push(all: Seq<DependencyView>, d: DependencyView, kind: DepType)
    ensures
        all.push(d).filter(of_kind(kind)) == if d.dep_type == kind {
            all.filter(of_kind(kind)).push(d)
        } else {
            all.filter(of_kind(kind))
        },
{
    reveal(Seq::filter);
    assert(all.push(d).drop_last() == all);
}

proof fn lemma_views_push(deps: Seq<DependencyInfo>, d: DependencyInfo)
    ensures
        dep_views(deps.push(d)) == dep_views(deps).push(d@),
{
    assert(dep_views(deps.push(d)) =~= dep_views(deps).push(d@));
}

/// Tells the dependencies of an index `deps` document apart by kind.
pub fn collect_deps_by_kind_from_index_deps(deps_json: &Json) -> (out: IndexDepsByKind)
    ensures
        out.sorts(listed_dependencies(deps_json@)),
        out.count() == listed_dependencies(deps_json@).len(),
        out.count() <= usize::MAX,
{
    let mut out = IndexDepsByKind::new();
    assert(dep_views(out.normal@) =~= Seq::<DependencyView>::empty());
    assert(dep_views(out.build@) =~= Seq::<DependencyView>::empty());
    assert(dep_views(out.dev@) =~= Seq::<DependencyView>::empty());
    proof {
        reveal(Seq::filter);
    }
    let items = match deps_json.as_array() {
        Some(items) => items,
        None => return out,
    };
    let ghost all = json::views(items@);
    let mut i: usize = 0;
    assert(all.take(0) =~= Seq::<JsonView>::empty());
    while i < items.len()
        invariant
            i <= items@.len(),
            all == json::views(items@),
            out.sorts(dependencies(all.take(i as int))),
            out.count() == dependencies(all.take(i as int)).len(),
            out.count() <= i,
        decreases items@.len() - i,
    {
        let ghost before = dependencies(all.take(i as int));
        assert(all.take(i + 1).drop_last() == all.take(i as int));
        assert(all.take(i + 1).last() == items@[i as int]@);
        if let Some(info) = dependency_from(&items[i]) {
            proof {
                lemma_filter_push(before, info@, DepType::Normal);
                lemma_filter_push(before, info@, DepType::Build);
                lemma_filter_push(before, info@, DepType::Dev);
                lemma_views_push(out.normal@, info);
                lemma_views_push(out.build@, info);
                lemma_views_push(out.dev@, info);
            }
            match info.dep_type {
                DepType::Normal => out.normal.push(info),
                DepType::Build => out.build.push(info),
                DepType::Dev => out.dev.push(info),
            }
        }
        i += 1;
    }
    assert(all.take(i as int) == all);
    out
}

/// A dependency that says the same.
pub fn copy_dependency(d: &DependencyInfo) -> (r: DependencyInfo)
    ensures
        r@ == d@,
{
    DependencyInfo { name: d.name.clone(), dep_type: d.dep_type, req: d.req.clone() }
}

fn extend_deps(out: &mut Vec<DependencyInfo>, more: &Vec<DependencyInfo>)
    ensures
        dep_views(final(out)@) == dep_views(old(out)@) + dep_views(more@),
{
    let ghost start = out@;
    let mut i: usize = 0;
    assert(dep_views(more@).take(0) =~= Seq::<DependencyView>::empty());
    while i < more.len()
        invariant
            i <= more@.len(),
            dep_views(out@) == dep_views(start) + dep_views(more@).take(i as int),
        decreases more@.len() - i,
    {
        let d = copy_dependency(&more[i]);
        proof {
            lemma_views_push(out@, d);
        }
        out.push(d);
        assert(dep_views(more@).take(i + 1) =~= dep_views(more@).take(i as int).push(d@));
        i += 1;
    }
    assert(dep_views(more@).take(i as int) =~= dep_views(more@));
}

/// All dependencies in one list: normal, then build, then dev.
pub fn flatten_index_deps(deps_by_kind: &IndexDepsByKind) -> (out: Vec<DependencyInfo>)
    ensures
        dep_views(out@) == deps_by_kind.flat(),
{
    let mut out: Vec<DependencyInfo> = Vec::new();
    assert(dep_views(out@) =~= Seq::<DependencyView>::empty());
    extend_deps(&mut out, &deps_by_kind.normal);
    extend_deps(&mut out, &deps_by_kind.build);
    extend_deps(&mut out, &deps_by_kind.dev);
    assert(dep_views(out@) =~= deps_by_kind.flat());
    out
}

/// The label under which a kind is written down.
pub fn dep_type_to_str(dep_type: &DepType) -> (label: &'static str)
    ensures
        label@ == label_of(*dep_type),
{
    match dep_type {
        DepType::Normal => "normal",
        DepType::Dev => "dev",
        DepType::Build => "build",
    }
}

/// A dependency says what its fields hold.
pub proof fn law_dependency_says_its_fields(d: DependencyInfo)
    ensures
        d@.name == d.name@,
        d@.dep_type == d.dep_type,
        d@.req == d.req@,
{
}

/// A kind is read back from the label under which it is written down. Tests and
/// benches have a second label, and any other label stands for a normal
/// dependency.
pub proof fn law_kind_is_read_back(kind: DepType, label: Seq<char>)
    ensures
        kind_of(label_of(kind)) == kind,
        kind_of("development"@) == DepType::Dev,
        kind_of(label) != DepType::Normal ==> label == "dev"@ || label == "development"@ || label
            == "build"@,
{
    reveal_strlit("normal");
    reveal_strlit("dev");
    reveal_strlit("development");
    reveal_strlit("build");
    assert("normal"@.len() == 6 && "dev"@.len() == 3 && "development"@.len() == 11 && "build"@.len()
        == 5);
}

/// An item describes a dependency exactly where it has a name that is not empty.
/// Then the name is that of the item, the requirement its `req` or empty, and
/// the kind that of its `kind` or normal.
pub proof fn law_item_describes_a_dependency(item: JsonView)
    ensures
        dependency_of(item) is Some <==> item.get("name"@) is Some && item.get("name"@)->0 is Text
            && item.get("name"@)->0->Text_0.len() > 0,
        dependency_of(item) matches Some(d) ==> {
            &&& item.get("name"@) == Some(JsonView::Text(d.name))
            &&& item.get("req"@) matches Some(JsonView::Text(req)) ==> d.req == req
            &&& !(item.get("req"@) matches Some(JsonView::Text(_))) ==> d.req.len() == 0
            &&& item.get("kind"@) matches Some(JsonView::Text(label)) ==> d.dep_type == kind_of(label)
            &&& !(item.get("kind"@) matches Some(JsonView::Text(_))) ==> d.dep_type
                == DepType::Normal
        },
{
}

/// The dependencies of two lists, one after the other, are those of the first
/// and then those of the second; a single item gives the one that it describes.
pub proof fn law_dependencies_of_lists(a: Seq<JsonView>, b: Seq<JsonView>, item: JsonView)
    ensures
        dependencies(a + b) == dependencies(a) + dependencies(b),
        dependencies(seq![item]) == match dependency_of(item) {
            Some(d) => seq![d],
            None => Seq::<DependencyView>::empty(),
        },
        listed_dependencies(JsonView::Array(a)) == dependencies(a),
        !(item is Array) ==> listed_dependencies(item) == Seq::<DependencyView>::empty(),
    decreases b.len(),
{
    reveal_with_fuel(dependencies, 2);
    assert(seq![item].drop_last() =~= Seq::<JsonView>::empty());
    assert(dependencies(seq![item]) =~= match dependency_of(item) {
        Some(d) => seq![d],
        None => Seq::<DependencyView>::empty(),
    });
    if b.len() == 0 {
        assert(a + b =~= a);
    } else {
        law_dependencies_of_lists(a, b.drop_last(), item);
        assert((a + b).drop_last() =~= a + b.drop_last());
        assert((a + b).last() == b.last());
    }
    assert(dependencies(a + b) =~= dependencies(a) + dependencies(b));
}

/// Dependencies that are told apart by kind are all there, and nothing else is:
/// put in one list they are first the normal ones, then those of build scripts,
/// then those of tests and benches, each in the order that they had.
pub proof fn law_no_kind_is_lost(sorted: IndexDepsByKind, all: Seq<DependencyView>)
    requires
        sorted.sorts(all),
    ensures
        sorted.flat() == all.filter(|d: DependencyView| d.dep_type == DepType::Normal)
            + all.filter(|d: DependencyView| d.dep_type == DepType::Build) + all.filter(
            |d: DependencyView| d.dep_type == DepType::Dev,
        ),
        sorted.count() == all.len(),
        forall|d: DependencyView| #[trigger] sorted.flat().contains(d) <==> all.contains(d),
        sorted.normal@.len() > 0 <==> exists|i: int|
            0 <= i < all.len() && (#[trigger] all[i]).dep_type == DepType::Normal,
        sorted.build@.len() > 0 <==> exists|i: int|
            0 <= i < all.len() && (#[trigger] all[i]).dep_type == DepType::Build,
        sorted.dev@.len() > 0 <==> exists|i: int|
            0 <= i < all.len() && (#[trigger] all[i]).dep_type == DepType::Dev,
{
    let normal = |d: DependencyView| d.dep_type == DepType::Normal;
    let build = |d: DependencyView| d.dep_type == DepType::Build;
    let dev = |d: DependencyView| d.dep_type == DepType::Dev;
    assert(of_kind(DepType::Normal) =~= normal);
    assert(of_kind(DepType::Build) =~= build);
    assert(of_kind(DepType::Dev) =~= dev);
    lemma_filter(all, normal);
    lemma_filter(all, build);
    lemma_filter(all, dev);
    lemma_kinds_add_up(all);
    assert(dep_views(sorted.normal@).len() == sorted.normal@.len());
    assert(dep_views(sorted.build@).len() == sorted.build@.len());
    assert(dep_views(sorted.dev@).len() == sorted.dev@.len());
    let flat = sorted.flat();
    let n = all.filter(normal);
    let b = all.filter(build);
    let v = all.filter(dev);
    assert(flat =~= n + b + v);
    assert forall|d: DependencyView| #[trigger] flat.contains(d) <==> all.contains(d) by {
        if flat.contains(d) {
            let i = choose|i: int| 0 <= i < flat.len() && flat[i] == d;
            if i < n.len() {
                assert(n.contains(n[i]));
            } else if i < n.len() + b.len() {
                assert(b.contains(b[i - n.len()]));
            } else {
                assert(v.contains(v[i - n.len() - b.len()]));
            }
        }
        if all.contains(d) {
            match d.dep_type {
                DepType::Normal => {
                    let i = choose|i: int| 0 <= i < n.len() && n[i] == d;
                    assert(n.contains(d));
                    assert(flat[i] == d);
                },
                DepType::Build => {
                    assert(b.contains(d));
                    let i = choose|i: int| 0 <= i < b.len() && b[i] == d;
                    assert(flat[n.len() + i] == d);
                },
                DepType::Dev => {
                    assert(v.contains(d));
                    let i = choose|i: int| 0 <= i < v.len() && v[i] == d;
                    assert(flat[n.len() + b.len() + i] == d);
                },
            }
        }
    }
    lemma_some(all, normal);
    lemma_some(all, build);
    lemma_some(all, dev);
    assert(n.len() > 0 <==> exists|i: int| 0 <= i < all.len() && normal(#[trigger] all[i]));
    assert(b.len() > 0 <==> exists|i: int| 0 <= i < all.len() && build(#[trigger] all[i]));
    assert(v.len() > 0 <==> exists|i: int| 0 <= i < all.len() && dev(#[trigger] all[i]));
}

proof fn lemma_filter(all: Seq<DependencyView>, keep: spec_fn(DependencyView) -> bool)
    ensures
        forall|d: DependencyView| #[trigger]
            all.filter(keep).contains(d) <==> all.contains(d) && keep(d),
    decreases all.len(),
{
    reveal(Seq::filter);
    if all.len() > 0 {
        let before = all.drop_last();
        let last = all.last();
        lemma_filter(before, keep);
        assert forall|d: DependencyView| #[trigger] all.filter(keep).contains(d) <==> all.contains(d)
            && keep(d) by {
            let kept = all.filter(keep);
            if kept.contains(d) {
                let i = choose|i: int| 0 <= i < kept.len() && kept[i] == d;
                if i < before.filter(keep).len() {
                    assert(before.filter(keep)[i] == d);
                    assert(before.filter(keep).contains(d));
                    let j = choose|j: int| 0 <= j < before.len() && before[j] == d;
                    assert(all[j] == d);
                } else {
                    assert(all[all.len() - 1] == d);
                }
            }
            if all.contains(d) && keep(d) {
                let i = choose|i: int| 0 <= i < all.len() && all[i] == d;
                if i < before.len() {
                    assert(before[i] == d);
                    assert(before.contains(d));
                    assert(before.filter(keep).contains(d));
                    let j = choose|j: int|
                        0 <= j < before.filter(keep).len() && before.filter(keep)[j] == d;
                    assert(kept[j] == d);
                } else {
                    assert(kept[kept.len() - 1] == d);
                }
            }
        }
    }
}

proof fn lemma_some(all: Seq<DependencyView>, keep: spec_fn(DependencyView) -> bool)
    ensures
        all.filter(keep).len() > 0 <==> exists|i: int| 0 <= i < all.len() && keep(#[trigger] all[i]),
{
    lemma_filter(all, keep);
    let kept = all.filter(keep);
    if kept.len() > 0 {
        assert(kept.contains(kept[0]));
        let i = choose|i: int| 0 <= i < all.len() && all[i] == kept[0];
        assert(keep(all[i]));
    }
    if exists|i: int| 0 <= i < all.len() && keep(#[trigger] all[i]) {
        let i = choose|i: int| 0 <= i < all.len() && keep(#[trigger] all[i]);
        assert(all.contains(all[i]));
        assert(kept.contains(all[i]));
    }
}

proof fn lemma_kinds_add_up(all: Seq<DependencyView>)
    ensures
        all.len() == all.filter(|d: DependencyView| d.dep_type == DepType::Normal).len()
            + all.filter(|d: DependencyView| d.dep_type == DepType::Build).len() + all.filter(
            |d: DependencyView| d.dep_type == DepType::Dev,
        ).len(),
    decreases all.len(),
{
    reveal(Seq::filter);
    if all.len() > 0 {
        lemma_kinds_add_up(all.drop_last());
    }
}

} // verus!
