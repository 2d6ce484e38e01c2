// Feature-graph resolution scenarios.

use rust2rpm::crates::{create_self_dependency, dependencies_by_feature, find_dep,
    resolve_dependencies_for_feature};
use rust2rpm::manifest::{DepKind, Dependency, Error, FeatureDecl, FeatureValue, Manifest, Version};
use rust2rpm::rpm::rpm_dep;

fn dep(name: &str, req: &str) -> Dependency {
    Dependency {
        package_name: name.to_string(),
        version_req: req.to_string(),
        kind: DepKind::Normal,
        optional: false,
        uses_default_features: false,
        features: Vec::new(),
    }
}

fn manifest(deps: Vec<Dependency>, features: Vec<FeatureDecl>) -> Manifest {
    Manifest {
        name: "foo".to_string(),
        version: Version { major: 1, minor: 2, patch: 3 },
        dependencies: deps,
        features,
    }
}

#[test]
fn self_dependency_fields() {
    let m = manifest(Vec::new(), Vec::new());
    let d = create_self_dependency(&m, vec!["x".to_string()]);
    assert_eq!(d.package_name, "foo");
    assert_eq!(d.version_req, "=1.2.3");
    assert!(!d.optional);
    assert!(!d.uses_default_features);
    assert_eq!(d.features, vec!["x".to_string()]);
    assert_eq!(rpm_dep(&d).unwrap(), "crate(foo/x) = 1.2.3");
}

#[test]
fn default_synthesized_when_absent() {
    let m = manifest(Vec::new(), Vec::new());
    let entries = dependencies_by_feature(&m).unwrap();
    let resolved = resolve_dependencies_for_feature(&entries, "default", false).unwrap();
    assert_eq!(resolved.len(), 1);
    assert_eq!(resolved[0].package_name, "foo");
    assert_eq!(resolved[0].version_req, "=1.2.3");
    assert_eq!(resolved[0].features, vec!["".to_string()]);
    assert!(!resolved[0].uses_default_features);
}

#[test]
fn declared_default_is_kept() {
    let m = manifest(
        Vec::new(),
        vec![FeatureDecl {
            name: "default".to_string(),
            values: vec![FeatureValue::FeatureRef("extra".to_string())],
        }],
    );
    let entries = dependencies_by_feature(&m).unwrap();
    let names: Vec<&str> = entries.iter().map(|e| e.name.as_str()).collect();
    assert_eq!(names.iter().filter(|n| **n == "default").count(), 1);
    let resolved = resolve_dependencies_for_feature(&entries, "default", false).unwrap();
    assert_eq!(resolved.len(), 1);
    assert_eq!(resolved[0].features, vec!["default".to_string()]);
}

#[test]
fn every_entry_starts_with_self_dependency() {
    let mut opt = dep("baz", "^0.4");
    opt.optional = true;
    let m = manifest(
        vec![dep("bar", "^1.0"), opt],
        vec![FeatureDecl {
            name: "ext".to_string(),
            values: vec![FeatureValue::CrateRef("bar".to_string())],
        }],
    );
    let entries = dependencies_by_feature(&m).unwrap();
    assert!(entries.len() >= 4);
    for e in &entries {
        assert!(!e.deps.is_empty());
        assert_eq!(e.deps[0].package_name, "foo");
        assert_eq!(e.deps[0].version_req, "=1.2.3");
        assert!(!e.deps[0].optional);
        assert!(!e.deps[0].uses_default_features);
    }
}

#[test]
fn unconditional_feature_scenario() {
    let m = manifest(vec![dep("bar", "^1.0")], Vec::new());
    let entries = dependencies_by_feature(&m).unwrap();
    let resolved = resolve_dependencies_for_feature(&entries, "", false).unwrap();
    assert_eq!(resolved.len(), 2);
    assert_eq!(resolved[0].package_name, "foo");
    assert_eq!(resolved[0].features, vec!["".to_string()]);
    assert_eq!(resolved[1].package_name, "bar");
    assert_eq!(
        rpm_dep(&resolved[1]).unwrap(),
        "(crate(bar) >= 1.0.0 with crate(bar) < 2.0.0)"
    );
}

#[test]
fn crate_feature_ref_scenario() {
    let mut bar = dep("bar", "=2.0.0");
    bar.optional = true;
    let m = manifest(
        vec![bar],
        vec![FeatureDecl {
            name: "ext".to_string(),
            values: vec![FeatureValue::CrateFeatureRef("bar".to_string(), "x".to_string())],
        }],
    );
    let entries = dependencies_by_feature(&m).unwrap();
    let resolved = resolve_dependencies_for_feature(&entries, "ext", false).unwrap();
    assert_eq!(resolved.len(), 2);
    assert_eq!(resolved[0].package_name, "foo");
    assert_eq!(resolved[0].features, vec!["ext".to_string()]);
    assert_eq!(resolved[1].package_name, "bar");
    assert!(!resolved[1].uses_default_features);
    assert_eq!(resolved[1].features, vec!["x".to_string()]);
    assert_eq!(rpm_dep(&resolved[1]).unwrap(), "crate(bar/x) = 2.0.0");
}

#[test]
fn optional_dependency_becomes_feature() {
    let mut baz = dep("baz", "^0.4");
    baz.optional = true;
    let m = manifest(vec![baz], Vec::new());
    let entries = dependencies_by_feature(&m).unwrap();
    let resolved = resolve_dependencies_for_feature(&entries, "baz", false).unwrap();
    assert_eq!(resolved.len(), 2);
    assert_eq!(resolved[0].package_name, "foo");
    assert_eq!(resolved[0].features, vec!["".to_string()]);
    assert_eq!(resolved[1].package_name, "baz");
    // The optional dependency is not part of the unconditional set.
    let unconditional = resolve_dependencies_for_feature(&entries, "", false).unwrap();
    assert_eq!(unconditional.len(), 1);
}

#[test]
fn development_dependencies_are_excluded() {
    let mut devdep = dep("helper", "^1.0");
    devdep.kind = DepKind::Development;
    let m = manifest(vec![dep("bar", "^1.0"), devdep], Vec::new());
    let entries = dependencies_by_feature(&m).unwrap();
    let unconditional = resolve_dependencies_for_feature(&entries, "", false).unwrap();
    assert_eq!(unconditional.len(), 2);
    assert_eq!(unconditional[1].package_name, "bar");
    assert!(find_dep(&m.dependencies, "helper").is_none());
}

#[test]
fn unknown_feature_is_reported() {
    let m = manifest(Vec::new(), Vec::new());
    let entries = dependencies_by_feature(&m).unwrap();
    assert!(matches!(
        resolve_dependencies_for_feature(&entries, "nope", false),
        Err(Error::UnknownFeature)
    ));
}

#[test]
fn unknown_dependency_is_reported() {
    let m = manifest(
        Vec::new(),
        vec![FeatureDecl {
            name: "ext".to_string(),
            values: vec![FeatureValue::CrateRef("missing".to_string())],
        }],
    );
    assert!(matches!(dependencies_by_feature(&m), Err(Error::UnknownDependency)));
}

#[test]
fn flatten_pulls_referenced_feature_dependencies() {
    let mut baz = dep("baz", "^0.4");
    baz.optional = true;
    let m = manifest(
        vec![dep("bar", "^1.0"), baz],
        vec![
            FeatureDecl {
                name: "a".to_string(),
                values: vec![FeatureValue::FeatureRef("b".to_string())],
            },
            FeatureDecl {
                name: "b".to_string(),
                values: vec![FeatureValue::CrateRef("baz".to_string())],
            },
        ],
    );
    let entries = dependencies_by_feature(&m).unwrap();

    // Without flattening the feature-to-feature edge stays descriptive.
    let plain = resolve_dependencies_for_feature(&entries, "a", false).unwrap();
    assert_eq!(plain.len(), 1);
    assert_eq!(plain[0].features, vec!["a".to_string()]);

    // With flattening, `a` pulls the dependencies of `b` and of the
    // unconditional feature (which every declared feature references).
    let flat = resolve_dependencies_for_feature(&entries, "a", true).unwrap();
    let names: Vec<&str> = flat.iter().map(|d| d.package_name.as_str()).collect();
    assert_eq!(names[0], "foo");
    assert!(names.contains(&"baz"));
    assert!(names.contains(&"bar"));
}
