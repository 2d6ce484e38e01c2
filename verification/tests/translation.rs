// Version-range translation and formatting, exercised through the public
// functions with the real requirement parser linked.

use rust2rpm::manifest::{DepKind, Dependency, Error};
use rust2rpm::numfmt::u64_to_string;
use rust2rpm::rpm::{apply_version_range, capability_names, rpm_dep};
use rust2rpm::semver::{translate_predicates, CmpOp, Constraint, Pred, PreId, RangeOp, VPartial};

fn dep(name: &str, req: &str) -> Dependency {
    Dependency {
        package_name: name.to_string(),
        version_req: req.to_string(),
        kind: DepKind::Normal,
        optional: false,
        uses_default_features: false,
        features: Vec::new(),
    }
}

#[test]
fn caret_nonzero_major_two_constraints() {
    let p = Pred {
        op: RangeOp::Compatible,
        major: 1,
        minor: Some(2),
        patch: Some(3),
        pre: Vec::new(),
    };
    let cs = translate_predicates(&vec![p]).unwrap();
    assert_eq!(cs.len(), 2);
    assert_eq!(cs[0], Constraint { op: CmpOp::Ge, ver: VPartial::MMP(1, 2, 3) });
    assert_eq!(cs[1], Constraint { op: CmpOp::Lt, ver: VPartial::M(2) });
}

#[test]
fn wildcard_minor_bounds() {
    assert_eq!(
        rpm_dep(&dep("bar", "1.*")).unwrap(),
        "(crate(bar) >= 1.0.0 with crate(bar) < 2.0.0)"
    );
}

#[test]
fn wildcard_patch_bounds() {
    assert_eq!(
        rpm_dep(&dep("bar", "1.2.*")).unwrap(),
        "(crate(bar) >= 1.2.0 with crate(bar) < 1.3.0)"
    );
}

#[test]
fn bare_wildcard_yields_bare_capability() {
    assert_eq!(rpm_dep(&dep("bar", "*")).unwrap(), "crate(bar)");
}

#[test]
fn caret_zero_zero_patch() {
    assert_eq!(
        rpm_dep(&dep("bar", "^0.0.3")).unwrap(),
        "(crate(bar) >= 0.0.3 with crate(bar) < 0.0.4)"
    );
}

#[test]
fn caret_zero_minor() {
    assert_eq!(
        rpm_dep(&dep("bar", "^0.3")).unwrap(),
        "(crate(bar) >= 0.3.0 with crate(bar) < 0.4.0)"
    );
}

#[test]
fn tilde_minor() {
    assert_eq!(
        rpm_dep(&dep("bar", "~1.2")).unwrap(),
        "(crate(bar) >= 1.2.0 with crate(bar) < 1.3.0)"
    );
}

#[test]
fn tilde_major_only() {
    assert_eq!(
        rpm_dep(&dep("bar", "~1")).unwrap(),
        "(crate(bar) >= 1.0.0 with crate(bar) < 2.0.0)"
    );
}

#[test]
fn greater_equal_passes_through() {
    assert_eq!(rpm_dep(&dep("bar", ">= 1.2.3")).unwrap(), "crate(bar) >= 1.2.3");
}

#[test]
fn comparison_operators_pass_through() {
    assert_eq!(rpm_dep(&dep("bar", "< 2.0.0")).unwrap(), "crate(bar) < 2.0.0");
    assert_eq!(rpm_dep(&dep("bar", "<= 2.0.0")).unwrap(), "crate(bar) <= 2.0.0");
    assert_eq!(rpm_dep(&dep("bar", "> 0.5.1")).unwrap(), "crate(bar) > 0.5.1");
    assert_eq!(rpm_dep(&dep("bar", "= 2.0.0")).unwrap(), "crate(bar) = 2.0.0");
}

#[test]
fn multiple_predicates_joined() {
    assert_eq!(
        rpm_dep(&dep("bar", ">= 1.2.0, < 1.5.0")).unwrap(),
        "(crate(bar) >= 1.2.0 with crate(bar) < 1.5.0)"
    );
}

#[test]
fn prerelease_is_unsupported() {
    assert_eq!(rpm_dep(&dep("bar", "1.0.0-alpha")), Err(Error::Unsupported));
}

#[test]
fn unparseable_requirement_is_malformed() {
    assert_eq!(rpm_dep(&dep("bar", "not a version")), Err(Error::MalformedVersion));
}

#[test]
fn patch_without_minor_is_malformed() {
    let p = Pred {
        op: RangeOp::Ex,
        major: 1,
        minor: None,
        patch: Some(3),
        pre: Vec::new(),
    };
    assert_eq!(translate_predicates(&vec![p]), Err(Error::MalformedVersion));
}

#[test]
fn prerelease_predicate_is_unsupported() {
    let p = Pred {
        op: RangeOp::Ex,
        major: 1,
        minor: Some(0),
        patch: Some(0),
        pre: vec![PreId::AlphaNumeric("alpha".to_string())],
    };
    assert_eq!(translate_predicates(&vec![p]), Err(Error::Unsupported));
}

#[test]
fn bare_capability_when_no_features() {
    let caps = capability_names(&dep("bar", "*"));
    assert_eq!(caps, vec!["crate(bar)".to_string()]);
}

#[test]
fn default_and_named_features_capabilities() {
    let mut d = dep("bar", "^1.0");
    d.uses_default_features = true;
    d.features = vec!["serde".to_string(), "".to_string()];
    let caps = capability_names(&d);
    assert_eq!(
        caps,
        vec![
            "crate(bar/default)".to_string(),
            "crate(bar/serde)".to_string(),
            "crate(bar)".to_string(),
        ]
    );
    assert_eq!(
        rpm_dep(&d).unwrap(),
        "((crate(bar/default) >= 1.0.0 with crate(bar/default) < 2.0.0) and \
         (crate(bar/serde) >= 1.0.0 with crate(bar/serde) < 2.0.0) and \
         (crate(bar) >= 1.0.0 with crate(bar) < 2.0.0))"
    );
}

#[test]
fn upper_bound_beyond_u64_is_malformed() {
    let p = Pred {
        op: RangeOp::Compatible,
        major: u64::MAX,
        minor: Some(0),
        patch: Some(0),
        pre: Vec::new(),
    };
    assert_eq!(translate_predicates(&vec![p]), Err(Error::MalformedVersion));
}

#[test]
fn decimal_rendering_is_exact() {
    assert_eq!(u64_to_string(0), "0");
    assert_eq!(u64_to_string(10), "10");
    assert_eq!(u64_to_string(1234567890), "1234567890");
    assert_eq!(u64_to_string(u64::MAX), "18446744073709551615");
}

#[test]
fn empty_constraint_list_leaves_capability_bare() {
    let reqs: Vec<Constraint> = Vec::new();
    assert_eq!(apply_version_range("crate(x)", &reqs), "crate(x)");
}

#[test]
fn single_constraint_is_bare() {
    let reqs = vec![Constraint { op: CmpOp::Exact, ver: VPartial::MMP(2, 0, 0) }];
    assert_eq!(apply_version_range("crate(x)", &reqs), "crate(x) = 2.0.0");
}
