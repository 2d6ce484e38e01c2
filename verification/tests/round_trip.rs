// Formatting a constraint list and re-parsing the produced expression
// recovers the capability name and the operator and version pairs.

use rust2rpm::parse::parse_version_range;
use rust2rpm::rpm::{apply_version_range, rpm_dep};
use rust2rpm::manifest::{DepKind, Dependency};
use rust2rpm::semver::{CmpOp, Constraint, VPartial};

fn chars(s: &str) -> Vec<char> {
    s.chars().collect()
}

#[test]
fn round_trip_two_constraints() {
    let reqs = vec![
        Constraint { op: CmpOp::Ge, ver: VPartial::MM(1, 0) },
        Constraint { op: CmpOp::Lt, ver: VPartial::M(2) },
    ];
    let s = apply_version_range("crate(bar)", &reqs);
    assert_eq!(s, "(crate(bar) >= 1.0.0 with crate(bar) < 2.0.0)");
    let (cap, parsed) = parse_version_range(&s).unwrap();
    assert_eq!(cap, chars("crate(bar)"));
    // Re-parsing writes the omitted components out as 0.
    assert_eq!(
        parsed,
        vec![
            Constraint { op: CmpOp::Ge, ver: VPartial::MMP(1, 0, 0) },
            Constraint { op: CmpOp::Lt, ver: VPartial::MMP(2, 0, 0) },
        ]
    );
}

#[test]
fn round_trip_single_constraint() {
    let reqs = vec![Constraint { op: CmpOp::Exact, ver: VPartial::MMP(2, 0, 0) }];
    let s = apply_version_range("crate(bar/x)", &reqs);
    assert_eq!(s, "crate(bar/x) = 2.0.0");
    let (cap, parsed) = parse_version_range(&s).unwrap();
    assert_eq!(cap, chars("crate(bar/x)"));
    assert_eq!(parsed, reqs);
}

#[test]
fn round_trip_bare_capability() {
    let reqs: Vec<Constraint> = Vec::new();
    let s = apply_version_range("crate(bar)", &reqs);
    let (cap, parsed) = parse_version_range(&s).unwrap();
    assert_eq!(cap, chars("crate(bar)"));
    assert!(parsed.is_empty());
}

#[test]
fn round_trip_of_produced_dependency_expression() {
    let d = Dependency {
        package_name: "serde".to_string(),
        version_req: "~1.0".to_string(),
        kind: DepKind::Normal,
        optional: false,
        uses_default_features: false,
        features: Vec::new(),
    };
    let s = rpm_dep(&d).unwrap();
    let (cap, parsed) = parse_version_range(&s).unwrap();
    assert_eq!(cap, chars("crate(serde)"));
    assert_eq!(
        parsed,
        vec![
            Constraint { op: CmpOp::Ge, ver: VPartial::MMP(1, 0, 0) },
            Constraint { op: CmpOp::Lt, ver: VPartial::MMP(1, 1, 0) },
        ]
    );
}

#[test]
fn malformed_expressions_do_not_parse() {
    assert!(parse_version_range("crate(bar) >=").is_none());
    assert!(parse_version_range("(crate(bar) >= 1.0.0 and crate(x) < 2.0.0)").is_none());
    assert!(parse_version_range("crate(bar) >= 1.0.0.0").is_none());
    assert!(parse_version_range("crate(bar) >= 1.x.0").is_none());
}
