//! The data model: dependencies, feature declarations and manifests, together
//! with the mathematical views that the contracts speak of.

use vstd::prelude::*;

verus! {

/// The errors of this library. All are terminal for the query that raised
/// them: nothing is retried or partially recovered.
#[derive(Clone, Copy, PartialEq, Eq, Structural, Debug)]
pub enum Error {
    /// A version predicate carries a patch component without a minor
    /// component, a requirement string does not parse, or a translated bound
    /// would not fit in a 64-bit component.
    MalformedVersion,
    /// A version predicate carries a pre-release qualifier, which this
    /// library deliberately does not handle.
    Unsupported,
    /// A requested feature name is absent from the resolved set.
    UnknownFeature,
    /// A feature references a crate that is not among the non-development
    /// dependencies of the manifest.
    UnknownDependency,
}

/// The kind of a declared dependency.
#[derive(Clone, Copy, PartialEq, Eq, Structural, Debug)]
pub enum DepKind {
    Normal,
    Build,
    Development,
}

/// One declared dependency of a package.
#[derive(Clone, Debug)]
pub struct Dependency {
    pub package_name: String,
    /// The semantic-version requirement, kept as source text and parsed on
    /// demand.
    pub version_req: String,
    pub kind: DepKind,
    pub optional: bool,
    pub uses_default_features: bool,
    /// Feature names requested on the dependency.
    pub features: Vec<String>,
}

/// The mathematical value of a `Dependency`.
#[verifier::ext_equal]
pub struct DepView {
    pub package_name: Seq<char>,
    pub version_req: Seq<char>,
    pub kind: DepKind,
    pub optional: bool,
    pub uses_default_features: bool,
    pub features: Seq<Seq<char>>,
}

impl View for Dependency {
    type V = DepView;

    open spec fn view(&self) -> DepView {
        DepView {
            package_name: self.package_name@,
            version_req: self.version_req@,
            kind: self.kind,
            optional: self.optional,
            uses_default_features: self.uses_default_features,
            features: self.features.deep_view(),
        }
    }
}

impl DeepView for Dependency {
    type V = DepView;

    open spec fn deep_view(&self) -> DepView {
        self.view()
    }
}

/// Copies a list of strings.
pub fn clone_strings(v: &Vec<String>) -> (r: Vec<String>)
    ensures
        r.deep_view() == v.deep_view(),
{
    let mut r: Vec<String> = Vec::new();
    let mut i: usize = 0;
    while i < v.len()
        invariant
            0 <= i <= v.len(),
            r.len() == i,
            forall|k: int| 0 <= k < i ==> r.deep_view()[k] == v.deep_view()[k],
        decreases v.len() - i,
    {
        r.push(v[i].clone());
        i = i + 1;
    }
    proof {
        assert(r.deep_view() =~= v.deep_view());
    }
    r
}

impl Dependency {
    /// An equal copy.
    pub fn duplicate(&self) -> (d: Dependency)
        ensures
            d@ == self@,
    {
        let d = Dependency {
            package_name: self.package_name.clone(),
            version_req: self.version_req.clone(),
            kind: self.kind,
            optional: self.optional,
            uses_default_features: self.uses_default_features,
            features: clone_strings(&self.features),
        };
        proof {
            assert(d@ =~= self@);
        }
        d
    }
}

/// One entry of a feature's value list.
#[derive(Clone, Debug)]
pub enum FeatureValue {
    /// Activates another feature of the same package.
    FeatureRef(String),
    /// Activates a dependency, with its default features as declared.
    CrateRef(String),
    /// Activates a dependency restricted to exactly one of its features,
    /// with its default features disabled.
    CrateFeatureRef(String, String),
}

/// The mathematical value of a `FeatureValue`.
#[verifier::ext_equal]
pub enum FeatureValueView {
    FeatureRef(Seq<char>),
    CrateRef(Seq<char>),
    CrateFeatureRef(Seq<char>, Seq<char>),
}

impl View for FeatureValue {
    type V = FeatureValueView;

    open spec fn view(&self) -> FeatureValueView {
        match self {
            FeatureValue::FeatureRef(n) => FeatureValueView::FeatureRef(n@),
            FeatureValue::CrateRef(n) => FeatureValueView::CrateRef(n@),
            FeatureValue::CrateFeatureRef(n, f) => FeatureValueView::CrateFeatureRef(n@, f@),
        }
    }
}

impl DeepView for FeatureValue {
    type V = FeatureValueView;

    open spec fn deep_view(&self) -> FeatureValueView {
        self.view()
    }
}

/// One declared feature: its name and its ordered value list.
#[derive(Clone, Debug)]
pub struct FeatureDecl {
    pub name: String,
    pub values: Vec<FeatureValue>,
}

/// The mathematical value of a `FeatureDecl`.
#[verifier::ext_equal]
pub struct FeatureDeclView {
    pub name: Seq<char>,
    pub values: Seq<FeatureValueView>,
}

impl View for FeatureDecl {
    type V = FeatureDeclView;

    open spec fn view(&self) -> FeatureDeclView {
        FeatureDeclView { name: self.name@, values: self.values.deep_view() }
    }
}

impl DeepView for FeatureDecl {
    type V = FeatureDeclView;

    open spec fn deep_view(&self) -> FeatureDeclView {
        self.view()
    }
}

/// A package version: major, minor and patch.
#[derive(Clone, Copy, PartialEq, Eq, Structural, Debug)]
pub struct Version {
    pub major: u64,
    pub minor: u64,
    pub patch: u64,
}

/// A package manifest, as handed in by the surrounding manifest reader.
#[derive(Clone, Debug)]
pub struct Manifest {
    pub name: String,
    pub version: Version,
    pub dependencies: Vec<Dependency>,
    pub features: Vec<FeatureDecl>,
}

/// The mathematical value of a `Manifest`.
#[verifier::ext_equal]
pub struct ManifestView {
    pub name: Seq<char>,
    pub version: Version,
    pub dependencies: Seq<DepView>,
    pub features: Seq<FeatureDeclView>,
}

impl View for Manifest {
    type V = ManifestView;

    open spec fn view(&self) -> ManifestView {
        ManifestView {
            name: self.name@,
            version: self.version,
            dependencies: self.dependencies.deep_view(),
            features: self.features.deep_view(),
        }
    }
}

/// One entry of the resolved feature set: the feature's name, the names of
/// the features it references, and the dependencies it activates. The
/// dependency list always begins with the synthesized self-dependency.
#[derive(Clone, Debug)]
pub struct FeatureEntry {
    pub name: String,
    pub refs: Vec<String>,
    pub deps: Vec<Dependency>,
}

/// The mathematical value of a `FeatureEntry`.
#[verifier::ext_equal]
pub struct FeatureEntryView {
    pub name: Seq<char>,
    pub refs: Seq<Seq<char>>,
    pub deps: Seq<DepView>,
}

impl View for FeatureEntry {
    type V = FeatureEntryView;

    open spec fn view(&self) -> FeatureEntryView {
        FeatureEntryView {
            name: self.name@,
            refs: self.refs.deep_view(),
            deps: self.deps.deep_view(),
        }
    }
}

impl DeepView for FeatureEntry {
    type V = FeatureEntryView;

    open spec fn deep_view(&self) -> FeatureEntryView {
        self.view()
    }
}

/// String equality, stated over the views.
pub fn str_eq(a: &str, b: &str) -> (r: bool)
    ensures
        r == (a@ == b@),
{
    let x = a.to_owned();
    let y = b.to_owned();
    x == y
}

} // verus!
