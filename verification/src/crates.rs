//! The feature-graph resolver: for every feature of a manifest (the declared
//! ones, the implicit features of optional dependencies, the unconditional
//! empty feature and the synthesized default), the dependencies it activates.

use vstd::prelude::*;

use crate::manifest::{
    str_eq, DepKind, Dependency, DepView, Error, FeatureDecl, FeatureDeclView, FeatureEntry,
    FeatureEntryView, FeatureValue, FeatureValueView, Manifest, ManifestView, Version,
};
use crate::rpm::{default_feature_name, format_version, vpart_str};
use crate::semver::VPartial;

verus! {

/// The rendering of a full version triple.
pub open spec fn version_str(v: Version) -> Seq<char> {
    vpart_str(VPartial::MMP(v.major, v.minor, v.patch))
}

/// The synthesized self-dependency: the package itself, required at exactly
/// the manifest version, with default features disabled and `feats` as its
/// feature set.
pub open spec fn self_dep_view(m: ManifestView, feats: Seq<Seq<char>>) -> DepView {
    DepView {
        package_name: m.name,
        version_req: seq!['='] + version_str(m.version),
        kind: DepKind::Normal,
        optional: false,
        uses_default_features: false,
        features: feats,
    }
}

/// The non-development dependency a name resolves to: the last declared
/// non-development dependency with that package name, as in a name-keyed
/// table built by insertion.
pub open spec fn find_dep_spec(deps: Seq<DepView>, name: Seq<char>) -> Option<DepView>
    decreases deps.len(),
{
    if deps.len() == 0 {
        None
    } else if !(deps.last().kind is Development) && deps.last().package_name == name {
        Some(deps.last())
    } else {
        find_dep_spec(deps.drop_last(), name)
    }
}

/// Whether position `i` holds the winning occurrence of its package name:
/// non-development, and not shadowed by a later non-development dependency
/// of the same name.
pub open spec fn is_last_nondev(deps: Seq<DepView>, i: int) -> bool {
    &&& 0 <= i < deps.len()
    &&& !(deps[i].kind is Development)
    &&& forall|j: int|
        i < j < deps.len() ==> !(!(deps[j].kind is Development) && deps[j].package_name
            == deps[i].package_name)
}

/// The unconditional dependencies: every winning non-optional
/// non-development dependency, in declaration order.
pub open spec fn required_deps_upto(deps: Seq<DepView>, n: int) -> Seq<DepView>
    decreases n,
{
    if n <= 0 {
        Seq::empty()
    } else {
        let pre = required_deps_upto(deps, n - 1);
        if is_last_nondev(deps, n - 1) && !deps[n - 1].optional {
            pre.push(deps[n - 1])
        } else {
            pre
        }
    }
}

pub open spec fn required_deps(deps: Seq<DepView>) -> Seq<DepView> {
    required_deps_upto(deps, deps.len() as int)
}

/// Whether some declared feature has this name.
pub open spec fn feature_declared(fs: Seq<FeatureDeclView>, name: Seq<char>) -> bool {
    exists|i: int| 0 <= i < fs.len() && fs[i].name == name
}

/// The crate a feature value activates, if any.
pub open spec fn crate_target(v: FeatureValueView) -> Option<Seq<char>> {
    match v {
        FeatureValueView::FeatureRef(_) => None,
        FeatureValueView::CrateRef(n) => Some(n),
        FeatureValueView::CrateFeatureRef(n, _) => Some(n),
    }
}

/// Whether some declared feature activates this crate.
pub open spec fn feature_targets_crate(fs: Seq<FeatureDeclView>, name: Seq<char>) -> bool {
    exists|i: int, j: int|
        0 <= i < fs.len() && 0 <= j < fs[i].values.len() && crate_target(fs[i].values[j])
            == Some(name)
}

/// One step of building a declared feature's entry: a feature reference is
/// recorded descriptively, a crate reference includes the dependency as
/// declared, and a crate-feature reference includes it restricted to that
/// one feature with default features disabled. An unknown crate is an
/// `UnknownDependency` error.
pub open spec fn decl_entry_step(
    m: ManifestView,
    acc: Result<FeatureEntryView, Error>,
    v: FeatureValueView,
) -> Result<FeatureEntryView, Error> {
    match acc {
        Err(e) => Err(e),
        Ok(en) => match v {
            FeatureValueView::FeatureRef(n) => Ok(
                FeatureEntryView { name: en.name, refs: en.refs.push(n), deps: en.deps },
            ),
            FeatureValueView::CrateRef(n) => match find_dep_spec(m.dependencies, n) {
                None => Err(Error::UnknownDependency),
                Some(d) => Ok(
                    FeatureEntryView { name: en.name, refs: en.refs, deps: en.deps.push(d) },
                ),
            },
            FeatureValueView::CrateFeatureRef(n, f) => match find_dep_spec(m.dependencies, n) {
                None => Err(Error::UnknownDependency),
                Some(d) => Ok(
                    FeatureEntryView {
                        name: en.name,
                        refs: en.refs,
                        deps: en.deps.push(
                            DepView {
                                package_name: d.package_name,
                                version_req: d.version_req,
                                kind: d.kind,
                                optional: d.optional,
                                uses_default_features: false,
                                features: seq![f],
                            },
                        ),
                    },
                ),
            },
        },
    }
}

/// The entry of a declared feature after its first `n` values: it starts
/// with the empty feature reference and the self-dependency carrying the
/// feature's own name.
pub open spec fn decl_entry_upto(m: ManifestView, f: FeatureDeclView, n: int) -> Result<
    FeatureEntryView,
    Error,
>
    decreases n,
{
    if n <= 0 {
        Ok(
            FeatureEntryView {
                name: f.name,
                refs: seq![Seq::<char>::empty()],
                deps: seq![self_dep_view(m, seq![f.name])],
            },
        )
    } else {
        decl_entry_step(m, decl_entry_upto(m, f, n - 1), f.values[n - 1])
    }
}

pub open spec fn decl_entry(m: ManifestView, f: FeatureDeclView) -> Result<
    FeatureEntryView,
    Error,
> {
    decl_entry_upto(m, f, f.values.len() as int)
}

/// The entries of the first `n` declared features, or the first error.
pub open spec fn decl_entries_upto(m: ManifestView, n: int) -> Result<
    Seq<FeatureEntryView>,
    Error,
>
    decreases n,
{
    if n <= 0 {
        Ok(Seq::empty())
    } else {
        match decl_entries_upto(m, n - 1) {
            Err(e) => Err(e),
            Ok(es) => match decl_entry(m, m.features[n - 1]) {
                Err(e) => Err(e),
                Ok(en) => Ok(es.push(en)),
            },
        }
    }
}

pub open spec fn decl_entries(m: ManifestView) -> Result<Seq<FeatureEntryView>, Error> {
    decl_entries_upto(m, m.features.len() as int)
}

/// The implicit features of optional dependencies: every winning optional
/// dependency whose name no declared feature carries and no declared
/// feature activates as a crate becomes its own feature, activating the
/// self-dependency at the empty feature and the dependency itself.
pub open spec fn optional_entries_upto(m: ManifestView, n: int) -> Seq<FeatureEntryView>
    decreases n,
{
    if n <= 0 {
        Seq::empty()
    } else {
        let pre = optional_entries_upto(m, n - 1);
        let d = m.dependencies[n - 1];
        if is_last_nondev(m.dependencies, n - 1) && d.optional && !feature_declared(
            m.features,
            d.package_name,
        ) && !feature_targets_crate(m.features, d.package_name) {
            pre.push(
                FeatureEntryView {
                    name: d.package_name,
                    refs: seq![Seq::<char>::empty()],
                    deps: seq![self_dep_view(m, seq![Seq::<char>::empty()]), d],
                },
            )
        } else {
            pre
        }
    }
}

pub open spec fn optional_entries(m: ManifestView) -> Seq<FeatureEntryView> {
    optional_entries_upto(m, m.dependencies.len() as int)
}

/// The entry of the empty feature name: the unconditional dependency set.
pub open spec fn empty_entry(m: ManifestView) -> FeatureEntryView {
    FeatureEntryView {
        name: Seq::empty(),
        refs: Seq::empty(),
        deps: seq![self_dep_view(m, seq![Seq::<char>::empty()])] + required_deps(m.dependencies),
    }
}

/// The synthesized default entry: default degrades to "no optional
/// features".
pub open spec fn default_entry(m: ManifestView) -> FeatureEntryView {
    FeatureEntryView {
        name: default_feature_name(),
        refs: seq![Seq::<char>::empty()],
        deps: seq![self_dep_view(m, seq![Seq::<char>::empty()])],
    }
}

pub open spec fn entry_named(es: Seq<FeatureEntryView>, name: Seq<char>) -> bool {
    exists|i: int| 0 <= i < es.len() && es[i].name == name
}

/// The resolved feature set of a manifest: the declared features in order,
/// then the implicit features of optional dependencies, then the empty
/// feature, then — unless an entry of that name already exists — the
/// synthesized default.
pub open spec fn deps_by_feature_spec(m: ManifestView) -> Result<Seq<FeatureEntryView>, Error> {
    match decl_entries(m) {
        Err(e) => Err(e),
        Ok(es) => {
            let all = (es + optional_entries(m)).push(empty_entry(m));
            if entry_named(all, default_feature_name()) {
                Ok(all)
            } else {
                Ok(all.push(default_entry(m)))
            }
        },
    }
}

/// The first entry with this name, scanning from position `i`.
pub open spec fn find_entry_from(es: Seq<FeatureEntryView>, name: Seq<char>, i: int) -> Option<
    int,
>
    decreases es.len() - i,
{
    if i < 0 || i >= es.len() {
        None
    } else if es[i].name == name {
        Some(i)
    } else {
        find_entry_from(es, name, i + 1)
    }
}

pub open spec fn find_entry_spec(es: Seq<FeatureEntryView>, name: Seq<char>) -> Option<int> {
    find_entry_from(es, name, 0)
}

/// The initially active entries of a query: those carrying the requested
/// feature name.
pub open spec fn act0(es: Seq<FeatureEntryView>, name: Seq<char>) -> Seq<bool> {
    Seq::new(es.len(), |k: int| es[k].name == name)
}

/// One propagation step: an entry becomes active when an active entry
/// references its name.
pub open spec fn act_step(es: Seq<FeatureEntryView>, act: Seq<bool>) -> Seq<bool> {
    Seq::new(
        es.len(),
        |k: int|
            act[k] || exists|j: int|
                0 <= j < es.len() && act[j] && es[j].refs.contains(es[k].name),
    )
}

pub open spec fn act_n(es: Seq<FeatureEntryView>, name: Seq<char>, n: nat) -> Seq<bool>
    decreases n,
{
    if n == 0 {
        act0(es, name)
    } else {
        act_step(es, act_n(es, name, (n - 1) as nat))
    }
}

/// The entries a feature activates transitively: the propagation step
/// iterated as many times as there are entries, which reaches the closure.
pub open spec fn activated(es: Seq<FeatureEntryView>, name: Seq<char>) -> Seq<bool> {
    act_n(es, name, es.len())
}

/// A dependency list without its leading self-dependency.
pub open spec fn dep_tail(s: Seq<DepView>) -> Seq<DepView> {
    if s.len() >= 1 {
        s.skip(1)
    } else {
        Seq::empty()
    }
}

/// The dependencies of the active entries among the first `n`, in entry
/// order, each entry's self-dependency left out.
pub open spec fn flatten_upto(es: Seq<FeatureEntryView>, act: Seq<bool>, n: int) -> Seq<DepView>
    decreases n,
{
    if n <= 0 {
        Seq::empty()
    } else {
        let pre = flatten_upto(es, act, n - 1);
        if act[n - 1] {
            pre + dep_tail(es[n - 1].deps)
        } else {
            pre
        }
    }
}

/// What resolving one feature yields. Without flattening, the feature's own
/// entry. With flattening, the entry's self-dependency followed by the
/// dependency lists of every transitively referenced entry, in entry order;
/// a reference to a name with no entry activates nothing.
pub open spec fn resolve_spec(
    es: Seq<FeatureEntryView>,
    name: Seq<char>,
    flatten: bool,
) -> Result<Seq<DepView>, Error> {
    match find_entry_spec(es, name) {
        None => Err(Error::UnknownFeature),
        Some(i) => if !flatten {
            Ok(es[i].deps)
        } else {
            let head: Seq<DepView> = if es[i].deps.len() >= 1 {
                seq![es[i].deps[0]]
            } else {
                Seq::empty()
            };
            Ok(head + flatten_upto(es, activated(es, name), es.len() as int))
        },
    }
}

proof fn lemma_decl_entry_err_stays(m: ManifestView, f: FeatureDeclView, j: int, n: int)
    requires
        0 <= j <= n,
        decl_entry_upto(m, f, j) is Err,
    ensures
        decl_entry_upto(m, f, n) == decl_entry_upto(m, f, j),
    decreases n - j,
{
    if n > j {
        lemma_decl_entry_err_stays(m, f, j, n - 1);
    }
}

proof fn lemma_decl_entries_err_stays(m: ManifestView, j: int, n: int)
    requires
        0 <= j <= n,
        decl_entries_upto(m, j) is Err,
    ensures
        decl_entries_upto(m, n) == decl_entries_upto(m, j),
    decreases n - j,
{
    if n > j {
        lemma_decl_entries_err_stays(m, j, n - 1);
    }
}

/// Whether an entry's dependency list begins with the manifest's
/// self-dependency: the same package name, an exact-match requirement on
/// the manifest version, required, with default features disabled.
pub open spec fn starts_with_self_dep(m: ManifestView, en: FeatureEntryView) -> bool {
    &&& en.deps.len() >= 1
    &&& en.deps[0].package_name == m.name
    &&& en.deps[0].version_req == seq!['='] + version_str(m.version)
    &&& en.deps[0].kind is Normal
    &&& !en.deps[0].optional
    &&& !en.deps[0].uses_default_features
}

proof fn lemma_decl_entry_props(m: ManifestView, f: FeatureDeclView, n: int)
    requires
        decl_entry_upto(m, f, n) is Ok,
    ensures
        decl_entry_upto(m, f, n) matches Ok(en) && en.name == f.name && en.deps.len() >= 1
            && en.deps[0] == self_dep_view(m, seq![f.name]),
    decreases n,
{
    if n > 0 {
        match decl_entry_upto(m, f, n - 1) {
            Ok(_) => {
                lemma_decl_entry_props(m, f, n - 1);
            },
            Err(_) => {
                assert(false);
            },
        }
    }
}

proof fn lemma_decl_entries_props(m: ManifestView, n: int)
    requires
        0 <= n <= m.features.len(),
        decl_entries_upto(m, n) is Ok,
    ensures
        decl_entries_upto(m, n) matches Ok(es) && es.len() == n && forall|k: int|
            0 <= k < n ==> es[k].name == m.features[k].name && es[k].deps.len() >= 1
                && es[k].deps[0] == self_dep_view(m, seq![m.features[k].name]),
    decreases n,
{
    if n > 0 {
        match decl_entries_upto(m, n - 1) {
            Ok(_) => {
                lemma_decl_entries_props(m, n - 1);
                match decl_entry(m, m.features[n - 1]) {
                    Ok(_) => {
                        lemma_decl_entry_props(
                            m,
                            m.features[n - 1],
                            m.features[n - 1].values.len() as int,
                        );
                    },
                    Err(_) => {
                        assert(false);
                    },
                }
            },
            Err(_) => {
                assert(false);
            },
        }
    }
}

proof fn lemma_optional_entries_props(m: ManifestView, n: int)
    requires
        0 <= n <= m.dependencies.len(),
    ensures
        forall|k: int|
            0 <= k < optional_entries_upto(m, n).len()
                ==> optional_entries_upto(m, n)[k].deps.len() >= 1 && optional_entries_upto(
                m,
                n,
            )[k].deps[0] == self_dep_view(m, seq![Seq::<char>::empty()]) && exists|i: int|
                0 <= i < m.dependencies.len() && m.dependencies[i].package_name
                    == optional_entries_upto(m, n)[k].name,
    decreases n,
{
    if n > 0 {
        lemma_optional_entries_props(m, n - 1);
        let pre = optional_entries_upto(m, n - 1);
        let cur = optional_entries_upto(m, n);
        if cur.len() > pre.len() {
            assert(cur[cur.len() - 1].name == m.dependencies[n - 1].package_name);
        }
    }
}

proof fn lemma_find_entry_from_first(es: Seq<FeatureEntryView>, name: Seq<char>, i: int, n: int)
    requires
        0 <= i <= n < es.len(),
        forall|k: int| i <= k < n ==> es[k].name != name,
        es[n].name == name,
    ensures
        find_entry_from(es, name, i) == Some(n),
    decreases n - i,
{
    if i < n {
        lemma_find_entry_from_first(es, name, i + 1, n);
    }
}

/// Law: every entry of the resolved feature set begins with a
/// self-dependency on the manifest's package at exactly the manifest
/// version.
pub proof fn lemma_resolved_set_self_dep(m: ManifestView)
    requires
        deps_by_feature_spec(m) is Ok,
    ensures
        deps_by_feature_spec(m) matches Ok(es) && forall|k: int|
            0 <= k < es.len() ==> starts_with_self_dep(m, es[k]),
{
    match decl_entries(m) {
        Ok(des) => {
            lemma_decl_entries_props(m, m.features.len() as int);
            lemma_optional_entries_props(m, m.dependencies.len() as int);
            let opt = optional_entries(m);
            let all = (des + opt).push(empty_entry(m));
            assert(starts_with_self_dep(m, empty_entry(m)));
            assert(starts_with_self_dep(m, default_entry(m)));
            assert forall|k: int| 0 <= k < all.len() implies starts_with_self_dep(
                m,
                all[k],
            ) by {
                if k < des.len() {
                    assert(all[k] == des[k]);
                } else if k < des.len() + opt.len() {
                    assert(all[k] == opt[k - des.len()]);
                } else {
                    assert(all[k] == empty_entry(m));
                }
            }
        },
        Err(_) => {
            assert(false);
        },
    }
}

/// Law: on a manifest that declares no feature named `default` and has no
/// dependency of that name, the resolved set ends with the synthesized
/// default entry, and resolving `default` yields the self-dependency at
/// the empty feature set and nothing else.
pub proof fn lemma_default_synthesized(m: ManifestView)
    requires
        decl_entries(m) is Ok,
        !feature_declared(m.features, default_feature_name()),
        forall|i: int|
            0 <= i < m.dependencies.len() ==> m.dependencies[i].package_name
                != default_feature_name(),
    ensures
        deps_by_feature_spec(m) matches Ok(es) && es.len() >= 1 && es.last() == default_entry(m)
            && resolve_spec(es, default_feature_name(), false) == Ok::<Seq<DepView>, Error>(
            seq![self_dep_view(m, seq![Seq::<char>::empty()])],
        ),
{
    match decl_entries(m) {
        Ok(des) => {
            lemma_decl_entries_props(m, m.features.len() as int);
            lemma_optional_entries_props(m, m.dependencies.len() as int);
            let opt = optional_entries(m);
            let all = (des + opt).push(empty_entry(m));
            assert(empty_entry(m).name != default_feature_name());
            assert forall|k: int| 0 <= k < all.len() implies all[k].name
                != default_feature_name() by {
                if k < des.len() {
                    assert(all[k] == des[k]);
                    assert(feature_declared(m.features, des[k].name) || des[k].name
                        != default_feature_name());
                } else if k < des.len() + opt.len() {
                    assert(all[k] == opt[k - des.len()]);
                } else {
                    assert(all[k] == empty_entry(m));
                }
            }
            assert(!entry_named(all, default_feature_name()));
            let es = all.push(default_entry(m));
            assert(deps_by_feature_spec(m) == Ok::<Seq<FeatureEntryView>, Error>(es));
            assert(es.last() == default_entry(m));
            lemma_find_entry_from_first(es, default_feature_name(), 0, es.len() - 1);
            assert(resolve_spec(es, default_feature_name(), false) == Ok::<
                Seq<DepView>,
                Error,
            >(default_entry(m).deps));
        },
        Err(_) => {
            assert(false);
        },
    }
}

/// Whether a dependency kind is a development kind.
fn is_dev_kind(k: DepKind) -> (b: bool)
    ensures
        b == (k is Development),
{
    match k {
        DepKind::Development => true,
        _ => false,
    }
}

/// The winning non-development dependency with this package name, if any.
pub fn find_dep(deps: &Vec<Dependency>, name: &str) -> (r: Option<Dependency>)
    ensures
        match r {
            Some(d) => find_dep_spec(deps.deep_view(), name@) == Some(d@),
            None => find_dep_spec(deps.deep_view(), name@) is None,
        },
{
    let ghost dv = deps.deep_view();
    proof {
        assert(dv.take(deps.len() as int) =~= dv);
    }
    let mut i: usize = deps.len();
    while i > 0
        invariant
            0 <= i <= deps.len(),
            dv == deps.deep_view(),
            dv.len() == deps.len(),
            forall|k: int| 0 <= k < deps.len() ==> dv[k] == deps[k]@,
            find_dep_spec(dv, name@) == find_dep_spec(dv.take(i as int), name@),
        decreases i,
    {
        proof {
            assert(dv.take(i as int).drop_last() =~= dv.take(i - 1));
            assert(dv.take(i as int).last() == dv[i - 1]);
        }
        let d = &deps[i - 1];
        let is_dev = is_dev_kind(d.kind);
        if !is_dev && str_eq(d.package_name.as_str(), name) {
            return Some(d.duplicate());
        }
        i = i - 1;
    }
    proof {
        assert(dv.take(0) =~= Seq::<DepView>::empty());
    }
    None
}

/// The synthesized self-dependency of a manifest, carrying `features`.
pub fn create_self_dependency(manifest: &Manifest, features: Vec<String>) -> (d: Dependency)
    ensures
        d@ == self_dep_view(manifest@, features.deep_view()),
{
    proof {
        reveal_strlit("=");
    }
    assert("="@ =~= seq!['=']);
    let mut vr = String::from_str("=");
    let v = format_version(
        VPartial::MMP(manifest.version.major, manifest.version.minor, manifest.version.patch),
    );
    vr.append(v.as_str());
    let d = Dependency {
        package_name: manifest.name.clone(),
        version_req: vr,
        kind: DepKind::Normal,
        optional: false,
        uses_default_features: false,
        features,
    };
    proof {
        assert(d@ =~= self_dep_view(manifest@, d.features.deep_view()));
    }
    d
}

/// Whether some declared feature has this name.
fn feature_declared_exec(features: &Vec<FeatureDecl>, name: &str) -> (b: bool)
    ensures
        b == feature_declared(features.deep_view(), name@),
{
    let ghost fs = features.deep_view();
    let mut i: usize = 0;
    while i < features.len()
        invariant
            0 <= i <= features.len(),
            fs == features.deep_view(),
            fs.len() == features.len(),
            forall|k: int| 0 <= k < features.len() ==> fs[k] == features[k]@,
            forall|k: int| 0 <= k < i ==> fs[k].name != name@,
        decreases features.len() - i,
    {
        if str_eq(features[i].name.as_str(), name) {
            proof {
                assert(fs[i as int].name == name@);
            }
            return true;
        }
        i = i + 1;
    }
    false
}

/// Whether some declared feature activates this crate.
fn feature_targets_crate_exec(features: &Vec<FeatureDecl>, name: &str) -> (b: bool)
    ensures
        b == feature_targets_crate(features.deep_view(), name@),
{
    let ghost fs = features.deep_view();
    let mut i: usize = 0;
    while i < features.len()
        invariant
            0 <= i <= features.len(),
            fs == features.deep_view(),
            fs.len() == features.len(),
            forall|k: int| 0 <= k < features.len() ==> fs[k] == features[k]@,
            forall|k: int, l: int|
                0 <= k < i && 0 <= l < fs[k].values.len() ==> crate_target(fs[k].values[l])
                    != Some(name@),
        decreases features.len() - i,
    {
        let vals = &features[i].values;
        let mut j: usize = 0;
        while j < vals.len()
            invariant
                0 <= j <= vals.len(),
                fs == features.deep_view(),
                fs.len() == features.len(),
                0 <= i < features.len(),
                forall|k: int| 0 <= k < features.len() ==> fs[k] == features[k]@,
                vals.deep_view() == fs[i as int].values,
                vals.len() == fs[i as int].values.len(),
                forall|l: int| 0 <= l < vals.len() ==> vals[l]@ == fs[i as int].values[l],
                forall|k: int, l: int|
                    0 <= k < i && 0 <= l < fs[k].values.len() ==> crate_target(fs[k].values[l])
                        != Some(name@),
                forall|l: int|
                    0 <= l < j ==> crate_target(fs[i as int].values[l]) != Some(name@),
            decreases vals.len() - j,
        {
            match &vals[j] {
                FeatureValue::FeatureRef(_) => {},
                FeatureValue::CrateRef(n) => {
                    if str_eq(n.as_str(), name) {
                        proof {
                            assert(crate_target(fs[i as int].values[j as int]) == Some(
                                name@,
                            ));
                        }
                        return true;
                    }
                },
                FeatureValue::CrateFeatureRef(n, _) => {
                    if str_eq(n.as_str(), name) {
                        proof {
                            assert(crate_target(fs[i as int].values[j as int]) == Some(
                                name@,
                            ));
                        }
                        return true;
                    }
                },
            }
            proof {
                assert(crate_target(fs[i as int].values[j as int]) != Some(name@));
            }
            j = j + 1;
        }
        i = i + 1;
    }
    false
}

/// Whether position `i` holds the winning occurrence of its package name.
fn is_last_nondev_exec(deps: &Vec<Dependency>, i: usize) -> (b: bool)
    requires
        i < deps.len(),
    ensures
        b == is_last_nondev(deps.deep_view(), i as int),
{
    let ghost dv = deps.deep_view();
    if is_dev_kind(deps[i].kind) {
        return false;
    }
    let mut j: usize = i + 1;
    while j < deps.len()
        invariant
            i < j <= deps.len(),
            dv == deps.deep_view(),
            dv.len() == deps.len(),
            forall|k: int| 0 <= k < deps.len() ==> dv[k] == deps[k]@,
            !(dv[i as int].kind is Development),
            forall|k: int|
                i < k < j ==> !(!(dv[k].kind is Development) && dv[k].package_name
                    == dv[i as int].package_name),
        decreases deps.len() - j,
    {
        let e = &deps[j];
        let e_dev = is_dev_kind(e.kind);
        if !e_dev {
            if str_eq(e.package_name.as_str(), deps[i].package_name.as_str()) {
                proof {
                    assert(!(dv[j as int].kind is Development) && dv[j as int].package_name
                        == dv[i as int].package_name);
                }
                return false;
            }
        }
        proof {
            assert(!(!(dv[j as int].kind is Development) && dv[j as int].package_name
                == dv[i as int].package_name));
        }
        j = j + 1;
    }
    true
}

/// The resolved feature set of a manifest, as `deps_by_feature_spec`
/// states. The whole pass fails atomically on the first unknown crate
/// reference.
pub fn dependencies_by_feature(manifest: &Manifest) -> (r: Result<Vec<FeatureEntry>, Error>)
    ensures
        match r {
            Ok(es) => deps_by_feature_spec(manifest@) == Ok::<Seq<FeatureEntryView>, Error>(
                es.deep_view(),
            ),
            Err(e) => deps_by_feature_spec(manifest@) == Err::<Seq<FeatureEntryView>, Error>(e),
        },
{
    let ghost mv = manifest@;
    let mut entries: Vec<FeatureEntry> = Vec::new();
    proof {
        assert(entries.deep_view() =~= Seq::<FeatureEntryView>::empty());
    }
    let mut i: usize = 0;
    while i < manifest.features.len()
        invariant
            0 <= i <= manifest.features.len(),
            mv == manifest@,
            mv.features.len() == manifest.features.len(),
            forall|k: int| 0 <= k < manifest.features.len() ==> mv.features[k] == manifest
                .features[k]@,
            decl_entries_upto(mv, i as int) == Ok::<Seq<FeatureEntryView>, Error>(
                entries.deep_view(),
            ),
            entries.len() == i,
        decreases manifest.features.len() - i,
    {
        let f = &manifest.features[i];
        let ghost fv = mv.features[i as int];
        let mut refs: Vec<String> = Vec::new();
        refs.push(String::new());
        let mut ds: Vec<Dependency> = Vec::new();
        let mut selfname: Vec<String> = Vec::new();
        selfname.push(f.name.clone());
        proof {
            assert(selfname.deep_view() =~= seq![fv.name]);
        }
        let ghost snv = selfname.deep_view();
        let sd = create_self_dependency(manifest, selfname);
        let ghost sdv = sd@;
        ds.push(sd);
        proof {
            assert(refs.deep_view() =~= seq![Seq::<char>::empty()]);
            assert(sdv == self_dep_view(mv, snv));
            assert(snv == seq![fv.name]);
            assert(ds.deep_view() =~= seq![self_dep_view(mv, seq![fv.name])]);
        }
        let mut j: usize = 0;
        while j < f.values.len()
            invariant
                0 <= j <= f.values.len(),
                mv == manifest@,
                fv == mv.features[i as int],
                0 <= i < manifest.features.len(),
                mv.features.len() == manifest.features.len(),
                forall|k: int| 0 <= k < manifest.features.len() ==> mv.features[k] == manifest
                    .features[k]@,
                f@ == fv,
                fv.values.len() == f.values.len(),
                forall|k: int| 0 <= k < f.values.len() ==> f.values[k]@ == fv.values[k],
                decl_entries_upto(mv, i as int) == Ok::<Seq<FeatureEntryView>, Error>(
                    entries.deep_view(),
                ),
                entries.len() == i,
                decl_entry_upto(mv, fv, j as int) == Ok::<FeatureEntryView, Error>(
                    FeatureEntryView {
                        name: fv.name,
                        refs: refs.deep_view(),
                        deps: ds.deep_view(),
                    },
                ),
            decreases f.values.len() - j,
        {
            let ghost old_en = FeatureEntryView {
                name: fv.name,
                refs: refs.deep_view(),
                deps: ds.deep_view(),
            };
            match &f.values[j] {
                FeatureValue::FeatureRef(n) => {
                    let ghost old_refs = refs.deep_view();
                    refs.push(n.clone());
                    proof {
                        assert(refs.deep_view() =~= old_refs.push(n@));
                    }
                },
                FeatureValue::CrateRef(n) => {
                    match find_dep(&manifest.dependencies, n.as_str()) {
                        None => {
                            proof {
                                lemma_decl_entry_err_stays(
                                    mv,
                                    fv,
                                    j + 1,
                                    fv.values.len() as int,
                                );
                                lemma_decl_entries_err_stays(
                                    mv,
                                    i + 1,
                                    mv.features.len() as int,
                                );
                            }
                            return Err(Error::UnknownDependency);
                        },
                        Some(d) => {
                            let ghost old_ds = ds.deep_view();
                            let ghost dvw = d@;
                            ds.push(d);
                            proof {
                                assert(ds.deep_view() =~= old_ds.push(dvw));
                            }
                        },
                    }
                },
                FeatureValue::CrateFeatureRef(n, cf) => {
                    match find_dep(&manifest.dependencies, n.as_str()) {
                        None => {
                            proof {
                                lemma_decl_entry_err_stays(
                                    mv,
                                    fv,
                                    j + 1,
                                    fv.values.len() as int,
                                );
                                lemma_decl_entries_err_stays(
                                    mv,
                                    i + 1,
                                    mv.features.len() as int,
                                );
                            }
                            return Err(Error::UnknownDependency);
                        },
                        Some(d) => {
                            let mut d2 = d;
                            d2.uses_default_features = false;
                            let mut fs2: Vec<String> = Vec::new();
                            fs2.push(cf.clone());
                            d2.features = fs2;
                            let ghost old_ds = ds.deep_view();
                            let ghost dvw = d2@;
                            proof {
                                assert(d2@.features =~= seq![cf@]);
                            }
                            ds.push(d2);
                            proof {
                                assert(ds.deep_view() =~= old_ds.push(dvw));
                            }
                        },
                    }
                },
            }
            proof {
                match decl_entry_upto(mv, fv, j + 1) {
                    Ok(en) => {
                        assert(en =~= FeatureEntryView {
                            name: fv.name,
                            refs: refs.deep_view(),
                            deps: ds.deep_view(),
                        });
                    },
                    Err(_) => {
                        assert(false);
                    },
                }
            }
            j = j + 1;
        }
        let entry = FeatureEntry { name: f.name.clone(), refs, deps: ds };
        let ghost old_es = entries.deep_view();
        let ghost env = entry@;
        entries.push(entry);
        proof {
            assert(decl_entry(mv, fv) == decl_entry_upto(mv, fv, fv.values.len() as int));
            assert(entries.deep_view() =~= old_es.push(env));
            match decl_entries_upto(mv, i + 1) {
                Ok(es) => {
                    assert(es =~= entries.deep_view());
                },
                Err(_) => {
                    assert(false);
                },
            }
        }
        i = i + 1;
    }
    proof {
        assert(decl_entries(mv) == decl_entries_upto(mv, mv.features.len() as int));
    }
    let ghost decl_es = entries.deep_view();

    // Implicit features of optional dependencies.
    let mut i2: usize = 0;
    while i2 < manifest.dependencies.len()
        invariant
            0 <= i2 <= manifest.dependencies.len(),
            mv == manifest@,
            mv.dependencies.len() == manifest.dependencies.len(),
            forall|k: int| 0 <= k < manifest.dependencies.len() ==> mv.dependencies[k]
                == manifest.dependencies[k]@,
            decl_entries(mv) == Ok::<Seq<FeatureEntryView>, Error>(decl_es),
            entries.deep_view() =~= decl_es + optional_entries_upto(mv, i2 as int),
        decreases manifest.dependencies.len() - i2,
    {
        let d = &manifest.dependencies[i2];
        let winning = is_last_nondev_exec(&manifest.dependencies, i2);
        if winning && d.optional && !feature_declared_exec(
            &manifest.features,
            d.package_name.as_str(),
        ) && !feature_targets_crate_exec(&manifest.features, d.package_name.as_str()) {
            let mut refs: Vec<String> = Vec::new();
            refs.push(String::new());
            let mut selffeats: Vec<String> = Vec::new();
            selffeats.push(String::new());
            proof {
                assert(selffeats.deep_view() =~= seq![Seq::<char>::empty()]);
            }
            let ghost sfv = selffeats.deep_view();
            let mut ds: Vec<Dependency> = Vec::new();
            let sd = create_self_dependency(manifest, selffeats);
            let ghost sdv = sd@;
            ds.push(sd);
            let dd = d.duplicate();
            let ghost ddv = dd@;
            ds.push(dd);
            proof {
                assert(refs.deep_view() =~= seq![Seq::<char>::empty()]);
                assert(sdv == self_dep_view(mv, sfv));
                assert(ds.deep_view() =~= seq![sdv, ddv]);
            }
            let entry = FeatureEntry { name: d.package_name.clone(), refs, deps: ds };
            let ghost old_es = entries.deep_view();
            let ghost env = entry@;
            entries.push(entry);
            proof {
                assert(env.refs =~= seq![Seq::<char>::empty()]);
                assert(env.deps =~= seq![
                    self_dep_view(mv, seq![Seq::<char>::empty()]),
                    mv.dependencies[i2 as int],
                ]);
                assert(entries.deep_view() =~= old_es.push(env));
                assert(entries.deep_view() =~= decl_es + optional_entries_upto(
                    mv,
                    i2 + 1,
                ));
            }
        } else {
            proof {
                assert(optional_entries_upto(mv, i2 + 1) =~= optional_entries_upto(
                    mv,
                    i2 as int,
                ));
            }
        }
        i2 = i2 + 1;
    }

    // The unconditional entry.
    let mut req: Vec<Dependency> = Vec::new();
    let mut i3: usize = 0;
    while i3 < manifest.dependencies.len()
        invariant
            0 <= i3 <= manifest.dependencies.len(),
            mv == manifest@,
            mv.dependencies.len() == manifest.dependencies.len(),
            forall|k: int| 0 <= k < manifest.dependencies.len() ==> mv.dependencies[k]
                == manifest.dependencies[k]@,
            req.deep_view() =~= required_deps_upto(mv.dependencies, i3 as int),
        decreases manifest.dependencies.len() - i3,
    {
        let d = &manifest.dependencies[i3];
        if is_last_nondev_exec(&manifest.dependencies, i3) && !d.optional {
            let ghost old_req = req.deep_view();
            req.push(d.duplicate());
            proof {
                assert(req.deep_view() =~= old_req.push(mv.dependencies[i3 as int]));
            }
        }
        i3 = i3 + 1;
    }
    let mut selffeats: Vec<String> = Vec::new();
    selffeats.push(String::new());
    proof {
        assert(selffeats.deep_view() =~= seq![Seq::<char>::empty()]);
    }
    let ghost sfv = selffeats.deep_view();
    let mut empty_ds: Vec<Dependency> = Vec::new();
    let sd = create_self_dependency(manifest, selffeats);
    let ghost sdv = sd@;
    empty_ds.push(sd);
    proof {
        assert(sdv == self_dep_view(mv, sfv));
        assert(empty_ds.deep_view() =~= seq![self_dep_view(mv, seq![Seq::<char>::empty()])]);
    }
    let mut i4: usize = 0;
    let ghost head = empty_ds.deep_view();
    while i4 < req.len()
        invariant
            0 <= i4 <= req.len(),
            req.deep_view() =~= required_deps(mv.dependencies),
            empty_ds.deep_view() =~= head + req.deep_view().take(i4 as int),
        decreases req.len() - i4,
    {
        let ghost old_ds = empty_ds.deep_view();
        let x = req[i4].duplicate();
        let ghost xv = x@;
        empty_ds.push(x);
        proof {
            assert(empty_ds.deep_view() =~= old_ds.push(xv));
            assert(req.deep_view().take(i4 + 1) =~= req.deep_view().take(i4 as int).push(
                req.deep_view()[i4 as int],
            ));
        }
        i4 = i4 + 1;
    }
    let entry = FeatureEntry { name: String::new(), refs: Vec::new(), deps: empty_ds };
    let ghost before_empty = entries.deep_view();
    let ghost env = entry@;
    entries.push(entry);
    proof {
        assert(req.deep_view().take(req.len() as int) =~= req.deep_view());
        assert(env.deps =~= seq![self_dep_view(mv, seq![Seq::<char>::empty()])]
            + required_deps(mv.dependencies));
        assert(env.refs =~= Seq::<Seq<char>>::empty());
        assert(env =~= empty_entry(mv));
        assert(entries.deep_view() =~= before_empty.push(empty_entry(mv)));
    }

    // Synthesize the default entry unless one of that name exists.
    let mut have_default = false;
    let mut i5: usize = 0;
    proof {
        reveal_strlit("default");
        assert("default"@ =~= default_feature_name());
    }
    let ghost all = entries.deep_view();
    while i5 < entries.len()
        invariant
            0 <= i5 <= entries.len(),
            all == entries.deep_view(),
            all.len() == entries.len(),
            forall|k: int| 0 <= k < entries.len() ==> all[k] == entries[k]@,
            have_default ==> entry_named(all, default_feature_name()),
            !have_default ==> forall|k: int| 0 <= k < i5 ==> all[k].name
                != default_feature_name(),
        decreases entries.len() - i5,
    {
        proof {
            reveal_strlit("default");
            assert("default"@ =~= default_feature_name());
        }
        if !have_default {
            if str_eq(entries[i5].name.as_str(), "default") {
                proof {
                    assert(all[i5 as int].name == default_feature_name());
                }
                have_default = true;
            }
        }
        i5 = i5 + 1;
    }
    if !have_default {
        let mut refs: Vec<String> = Vec::new();
        refs.push(String::new());
        let mut selffeats2: Vec<String> = Vec::new();
        selffeats2.push(String::new());
        proof {
            assert(selffeats2.deep_view() =~= seq![Seq::<char>::empty()]);
        }
        let ghost sfv2 = selffeats2.deep_view();
        let mut ds: Vec<Dependency> = Vec::new();
        let sd = create_self_dependency(manifest, selffeats2);
        let ghost sdv2 = sd@;
        ds.push(sd);
        proof {
            assert(refs.deep_view() =~= seq![Seq::<char>::empty()]);
            assert(sdv2 == self_dep_view(mv, sfv2));
            assert(ds.deep_view() =~= seq![self_dep_view(mv, seq![Seq::<char>::empty()])]);
        }
        let entry = FeatureEntry { name: String::from_str("default"), refs, deps: ds };
        let ghost before_default = entries.deep_view();
        let ghost env = entry@;
        entries.push(entry);
        proof {
            assert(env =~= default_entry(mv));
            assert(entries.deep_view() =~= before_default.push(default_entry(mv)));
        }
        proof {
            assert(!entry_named(all, default_feature_name()));
            assert(deps_by_feature_spec(mv) == Ok::<Seq<FeatureEntryView>, Error>(
                entries.deep_view(),
            ));
        }
    } else {
        proof {
            assert(deps_by_feature_spec(mv) == Ok::<Seq<FeatureEntryView>, Error>(
                entries.deep_view(),
            ));
        }
    }
    Ok(entries)
}

/// Whether the list holds this string.
fn contains_str(v: &Vec<String>, s: &str) -> (b: bool)
    ensures
        b == v.deep_view().contains(s@),
{
    let ghost sv = v.deep_view();
    let mut i: usize = 0;
    while i < v.len()
        invariant
            0 <= i <= v.len(),
            sv == v.deep_view(),
            sv.len() == v.len(),
            forall|k: int| 0 <= k < v.len() ==> sv[k] == v[k]@,
            forall|k: int| 0 <= k < i ==> sv[k] != s@,
        decreases v.len() - i,
    {
        if str_eq(v[i].as_str(), s) {
            proof {
                assert(sv[i as int] == s@);
            }
            return true;
        }
        i = i + 1;
    }
    false
}

/// Copies a dependency list.
fn clone_deps(v: &Vec<Dependency>) -> (r: Vec<Dependency>)
    ensures
        r.deep_view() == v.deep_view(),
{
    let mut r: Vec<Dependency> = Vec::new();
    let mut i: usize = 0;
    while i < v.len()
        invariant
            0 <= i <= v.len(),
            r.len() == i,
            forall|k: int| 0 <= k < i ==> r.deep_view()[k] == v.deep_view()[k],
        decreases v.len() - i,
    {
        let ghost old_dv = r.deep_view();
        let x = v[i].duplicate();
        let ghost xv = x@;
        r.push(x);
        proof {
            assert(r.deep_view() =~= old_dv.push(xv));
        }
        i = i + 1;
    }
    proof {
        assert(r.deep_view() =~= v.deep_view());
    }
    r
}

/// The position of the first entry with this name.
fn find_entry(entries: &Vec<FeatureEntry>, name: &str) -> (r: Option<usize>)
    ensures
        match r {
            Some(i) => i < entries.len() && find_entry_spec(entries.deep_view(), name@)
                == Some(i as int),
            None => find_entry_spec(entries.deep_view(), name@) is None,
        },
{
    let ghost es = entries.deep_view();
    let mut i: usize = 0;
    while i < entries.len()
        invariant
            0 <= i <= entries.len(),
            es == entries.deep_view(),
            es.len() == entries.len(),
            forall|k: int| 0 <= k < entries.len() ==> es[k] == entries[k]@,
            find_entry_from(es, name@, 0) == find_entry_from(es, name@, i as int),
        decreases entries.len() - i,
    {
        if str_eq(entries[i].name.as_str(), name) {
            proof {
                assert(es[i as int].name == name@);
            }
            return Some(i);
        }
        i = i + 1;
    }
    None
}

/// One propagation step over the activation marks.
fn act_step_exec(entries: &Vec<FeatureEntry>, act: &Vec<bool>) -> (r: Vec<bool>)
    requires
        act.len() == entries.len(),
    ensures
        r@ == act_step(entries.deep_view(), act@),
{
    let ghost es = entries.deep_view();
    let ghost av = act@;
    let mut out: Vec<bool> = Vec::new();
    let mut k: usize = 0;
    while k < entries.len()
        invariant
            0 <= k <= entries.len(),
            es == entries.deep_view(),
            av == act@,
            es.len() == entries.len(),
            act.len() == entries.len(),
            forall|l: int| 0 <= l < entries.len() ==> es[l] == entries[l]@,
            out.len() == k,
            forall|l: int| 0 <= l < k ==> out@[l] == act_step(es, av)[l],
        decreases entries.len() - k,
    {
        let mut b = act[k];
        let mut j: usize = 0;
        while j < entries.len()
            invariant
                0 <= j <= entries.len(),
                0 <= k < entries.len(),
                es == entries.deep_view(),
                av == act@,
                es.len() == entries.len(),
                act.len() == entries.len(),
                forall|l: int| 0 <= l < entries.len() ==> es[l] == entries[l]@,
                b == (av[k as int] || exists|l: int|
                    0 <= l < j && av[l] && es[l].refs.contains(es[k as int].name)),
            decreases entries.len() - j,
        {
            if !b {
                if act[j] {
                    if contains_str(&entries[j].refs, entries[k].name.as_str()) {
                        proof {
                            assert(av[j as int] && es[j as int].refs.contains(
                                es[k as int].name,
                            ));
                        }
                        b = true;
                    }
                }
            }
            j = j + 1;
        }
        out.push(b);
        proof {
            assert(out@[k as int] == act_step(es, av)[k as int]);
        }
        k = k + 1;
    }
    proof {
        assert(out@ =~= act_step(es, av));
    }
    out
}

/// The dependency set one feature activates, as `resolve_spec` states.
///
/// Without `flatten_transitive_feature_deps` the entry stands as resolved:
/// feature-to-feature references stay descriptive, carried by the
/// self-dependency's feature flag. With it, the crate dependencies of every
/// transitively referenced feature are appended, each referenced entry
/// contributing once, in entry order.
pub fn resolve_dependencies_for_feature(
    entries: &Vec<FeatureEntry>,
    feature: &str,
    flatten_transitive_feature_deps: bool,
) -> (r: Result<Vec<Dependency>, Error>)
    ensures
        match r {
            Ok(ds) => resolve_spec(
                entries.deep_view(),
                feature@,
                flatten_transitive_feature_deps,
            ) == Ok::<Seq<DepView>, Error>(ds.deep_view()),
            Err(e) => resolve_spec(
                entries.deep_view(),
                feature@,
                flatten_transitive_feature_deps,
            ) == Err::<Seq<DepView>, Error>(e),
        },
{
    let ghost es = entries.deep_view();
    let idx = match find_entry(entries, feature) {
        None => {
            return Err(Error::UnknownFeature);
        },
        Some(i) => i,
    };
    if !flatten_transitive_feature_deps {
        return Ok(clone_deps(&entries[idx].deps));
    }
    // The marks after as many propagation steps as there are entries.
    let mut act: Vec<bool> = Vec::new();
    let mut k: usize = 0;
    while k < entries.len()
        invariant
            0 <= k <= entries.len(),
            es == entries.deep_view(),
            es.len() == entries.len(),
            forall|l: int| 0 <= l < entries.len() ==> es[l] == entries[l]@,
            act.len() == k,
            forall|l: int| 0 <= l < k ==> act@[l] == (es[l].name == feature@),
        decreases entries.len() - k,
    {
        let b = str_eq(entries[k].name.as_str(), feature);
        act.push(b);
        k = k + 1;
    }
    proof {
        assert(act@ =~= act0(es, feature@));
    }
    let mut rounds: usize = 0;
    while rounds < entries.len()
        invariant
            0 <= rounds <= entries.len(),
            es == entries.deep_view(),
            es.len() == entries.len(),
            act.len() == entries.len(),
            act@ == act_n(es, feature@, rounds as nat),
        decreases entries.len() - rounds,
    {
        let next = act_step_exec(entries, &act);
        act = next;
        rounds = rounds + 1;
    }
    let ghost actv = act@;
    proof {
        assert(actv == activated(es, feature@));
    }
    let mut out: Vec<Dependency> = Vec::new();
    if entries[idx].deps.len() >= 1 {
        let x = entries[idx].deps[0].duplicate();
        let ghost xv = x@;
        out.push(x);
        proof {
            assert(out.deep_view() =~= seq![es[idx as int].deps[0]]);
        }
    }
    let ghost head = out.deep_view();
    let mut k2: usize = 0;
    while k2 < entries.len()
        invariant
            0 <= k2 <= entries.len(),
            es == entries.deep_view(),
            es.len() == entries.len(),
            act.len() == entries.len(),
            actv == act@,
            forall|l: int| 0 <= l < entries.len() ==> es[l] == entries[l]@,
            out.deep_view() =~= head + flatten_upto(es, actv, k2 as int),
        decreases entries.len() - k2,
    {
        if act[k2] {
            let deps_k = &entries[k2].deps;
            let ghost base = out.deep_view();
            if deps_k.len() == 0 {
                proof {
                    assert(dep_tail(es[k2 as int].deps) =~= Seq::<DepView>::empty());
                    assert(out.deep_view() =~= head + flatten_upto(es, actv, k2 + 1));
                }
            } else {
                let mut l: usize = 1;
                while l < deps_k.len()
                    invariant
                        1 <= l <= deps_k.len(),
                        0 <= k2 < entries.len(),
                        es == entries.deep_view(),
                        es.len() == entries.len(),
                        forall|m: int| 0 <= m < entries.len() ==> es[m] == entries[m]@,
                        deps_k.deep_view() == es[k2 as int].deps,
                        deps_k.len() == es[k2 as int].deps.len(),
                        deps_k.len() >= 1,
                        out.deep_view() =~= base + es[k2 as int].deps.subrange(1, l as int),
                    decreases deps_k.len() - l,
                {
                    let ghost old_dv = out.deep_view();
                    let x = deps_k[l].duplicate();
                    let ghost xv = x@;
                    out.push(x);
                    proof {
                        assert(out.deep_view() =~= old_dv.push(xv));
                        assert(es[k2 as int].deps.subrange(1, l + 1) =~= es[
                            k2 as int
                        ].deps.subrange(1, l as int).push(es[k2 as int].deps[l as int]));
                    }
                    l = l + 1;
                }
                proof {
                    assert(es[k2 as int].deps.subrange(1, deps_k.len() as int) =~= dep_tail(
                        es[k2 as int].deps,
                    ));
                    assert(out.deep_view() =~= head + flatten_upto(es, actv, k2 + 1));
                }
            }
        } else {
            proof {
                assert(flatten_upto(es, actv, k2 + 1) =~= flatten_upto(es, actv, k2 as int));
            }
        }
        k2 = k2 + 1;
    }
    proof {
        assert(resolve_spec(es, feature@, true) == Ok::<Seq<DepView>, Error>(
            out.deep_view(),
        ));
    }
    Ok(out)
}

} // verus!
