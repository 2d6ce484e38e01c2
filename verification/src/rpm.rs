//! Rendering of dependencies as RPM-style capability expressions, with an
//! exact character-level specification of every produced string.

use vstd::prelude::*;

use crate::manifest::{Dependency, DepView, Error};
use crate::numfmt::{dec_str, u64_to_string};
use crate::semver::{
    translate_preds, translate_predicates, semver_predicates, parse_version_req, CmpOp,
    Constraint, VPartial, vpart_major, vpart_minor, vpart_patch,
};

verus! {

/// The connective between constraints on one capability.
pub open spec fn sep_with() -> Seq<char> {
    seq![' ', 'w', 'i', 't', 'h', ' ']
}

/// The connective between the per-capability expressions of one dependency.
pub open spec fn sep_and() -> Seq<char> {
    seq![' ', 'a', 'n', 'd', ' ']
}

/// The rendering of a version: omitted components render as 0.
pub open spec fn vpart_str(v: VPartial) -> Seq<char> {
    dec_str(vpart_major(v) as int) + seq!['.'] + dec_str(vpart_minor(v) as int) + seq!['.']
        + dec_str(vpart_patch(v) as int)
}

/// The rendering of a comparison operator.
pub open spec fn cmp_op_str(op: CmpOp) -> Seq<char> {
    match op {
        CmpOp::Lt => seq!['<'],
        CmpOp::Le => seq!['<', '='],
        CmpOp::Gt => seq!['>'],
        CmpOp::Ge => seq!['>', '='],
        CmpOp::Exact => seq!['='],
    }
}

/// The rendering of one constraint against one capability name.
pub open spec fn constraint_str(cap: Seq<char>, c: Constraint) -> Seq<char> {
    cap + seq![' '] + cmp_op_str(c.op) + seq![' '] + vpart_str(c.ver)
}

/// `parts` joined with `sep`.
pub open spec fn join_with(parts: Seq<Seq<char>>, sep: Seq<char>) -> Seq<char>
    decreases parts.len(),
{
    if parts.len() == 0 {
        Seq::empty()
    } else if parts.len() == 1 {
        parts[0]
    } else {
        join_with(parts.drop_last(), sep) + sep + parts.last()
    }
}

/// The expression for one capability name under a constraint list: the bare
/// name when there is no constraint, one bare comparison when there is one,
/// and a parenthesized `with`-conjunction otherwise.
pub open spec fn apply_version_range_spec(cap: Seq<char>, reqs: Seq<Constraint>) -> Seq<char> {
    if reqs.len() == 0 {
        cap
    } else if reqs.len() == 1 {
        constraint_str(cap, reqs[0])
    } else {
        seq!['('] + join_with(
            Seq::new(reqs.len(), |i: int| constraint_str(cap, reqs[i])),
            sep_with(),
        ) + seq![')']
    }
}

/// The bare capability for a package.
pub open spec fn cap_plain(name: Seq<char>) -> Seq<char> {
    seq!['c', 'r', 'a', 't', 'e', '('] + name + seq![')']
}

/// The capability for one feature of a package.
pub open spec fn cap_feature(name: Seq<char>, feat: Seq<char>) -> Seq<char> {
    seq!['c', 'r', 'a', 't', 'e', '('] + name + seq!['/'] + feat + seq![')']
}

pub open spec fn default_feature_name() -> Seq<char> {
    seq!['d', 'e', 'f', 'a', 'u', 'l', 't']
}

/// The capability names of a dependency: `crate(name/default)` when default
/// features are used, one capability per requested feature (the empty
/// feature name yields the bare capability), and the bare capability alone
/// when neither applies.
pub open spec fn capability_names_spec(d: DepView) -> Seq<Seq<char>> {
    let base: Seq<Seq<char>> = if d.uses_default_features {
        seq![cap_feature(d.package_name, default_feature_name())]
    } else {
        Seq::empty()
    };
    let withf = base + Seq::new(
        d.features.len(),
        |i: int|
            if d.features[i].len() == 0 {
                cap_plain(d.package_name)
            } else {
                cap_feature(d.package_name, d.features[i])
            },
    );
    if withf.len() == 0 {
        seq![cap_plain(d.package_name)]
    } else {
        withf
    }
}

/// Law: a dependency without default features and with no requested
/// features yields exactly one bare capability.
pub proof fn lemma_bare_capability(d: DepView)
    requires
        !d.uses_default_features,
        d.features.len() == 0,
    ensures
        capability_names_spec(d) =~= seq![cap_plain(d.package_name)],
{
}

/// A dependency always yields at least one capability name.
pub proof fn lemma_capability_names_nonempty(d: DepView)
    ensures
        capability_names_spec(d).len() >= 1,
{
}

/// The whole expression for a dependency whose requirement translated to
/// `cs`: the per-capability expressions, joined with `and` and parenthesized
/// when there are several.
pub open spec fn rpm_dep_str(d: DepView, cs: Seq<Constraint>) -> Seq<char> {
    let caps = capability_names_spec(d);
    let exprs = Seq::new(caps.len(), |i: int| apply_version_range_spec(caps[i], cs));
    if exprs.len() == 1 {
        exprs[0]
    } else {
        seq!['('] + join_with(exprs, sep_and()) + seq![')']
    }
}

/// Renders a version.
pub fn format_version(v: VPartial) -> (s: String)
    ensures
        s@ == vpart_str(v),
{
    proof {
        reveal_strlit(".");
    }
    assert("."@ =~= seq!['.']);
    let mut s = u64_to_string(v.major());
    s.append(".");
    let mi = u64_to_string(v.minor());
    s.append(mi.as_str());
    s.append(".");
    let pa = u64_to_string(v.patch());
    s.append(pa.as_str());
    assert(s@ =~= vpart_str(v));
    s
}

/// The text of a comparison operator.
pub fn cmp_op_to_str(op: CmpOp) -> (s: &'static str)
    ensures
        s@ == cmp_op_str(op),
{
    proof {
        reveal_strlit("<");
        reveal_strlit("<=");
        reveal_strlit(">");
        reveal_strlit(">=");
        reveal_strlit("=");
    }
    match op {
        CmpOp::Lt => {
            assert("<"@ =~= cmp_op_str(CmpOp::Lt));
            "<"
        },
        CmpOp::Le => {
            assert("<="@ =~= cmp_op_str(CmpOp::Le));
            "<="
        },
        CmpOp::Gt => {
            assert(">"@ =~= cmp_op_str(CmpOp::Gt));
            ">"
        },
        CmpOp::Ge => {
            assert(">="@ =~= cmp_op_str(CmpOp::Ge));
            ">="
        },
        CmpOp::Exact => {
            assert("="@ =~= cmp_op_str(CmpOp::Exact));
            "="
        },
    }
}

/// Renders one constraint against one capability name.
fn constraint_to_string(cap: &str, c: Constraint) -> (s: String)
    ensures
        s@ == constraint_str(cap@, c),
{
    proof {
        reveal_strlit(" ");
    }
    assert(" "@ =~= seq![' ']);
    let mut s = cap.to_owned();
    s.append(" ");
    s.append(cmp_op_to_str(c.op));
    s.append(" ");
    let v = format_version(c.ver);
    s.append(v.as_str());
    assert(s@ =~= constraint_str(cap@, c));
    s
}

/// Joins rendered parts with a separator.
fn join_strings(parts: &Vec<String>, sep: &str) -> (s: String)
    requires
        parts.len() >= 1,
    ensures
        s@ == join_with(parts.deep_view(), sep@),
{
    let mut s = parts[0].clone();
    let mut i: usize = 1;
    while i < parts.len()
        invariant
            1 <= i <= parts.len(),
            s@ == join_with(parts.deep_view().take(i as int), sep@),
            parts.deep_view().len() == parts.len(),
            forall|k: int| 0 <= k < parts.len() ==> parts.deep_view()[k] == parts[k]@,
        decreases parts.len() - i,
    {
        s.append(sep);
        s.append(parts[i].as_str());
        proof {
            let t = parts.deep_view();
            assert(t.take(i + 1).drop_last() =~= t.take(i as int));
            assert(t.take(i + 1).last() == t[i as int]);
        }
        i = i + 1;
    }
    proof {
        assert(parts.deep_view().take(parts.len() as int) =~= parts.deep_view());
    }
    s
}

/// The expression for one capability name under a constraint list, as
/// `apply_version_range_spec` states.
pub fn apply_version_range(cap: &str, reqs: &Vec<Constraint>) -> (s: String)
    ensures
        s@ == apply_version_range_spec(cap@, reqs@),
{
    if reqs.len() == 0 {
        return cap.to_owned();
    }
    if reqs.len() == 1 {
        return constraint_to_string(cap, reqs[0]);
    }
    let mut parts: Vec<String> = Vec::new();
    let mut i: usize = 0;
    while i < reqs.len()
        invariant
            0 <= i <= reqs.len(),
            parts.len() == i,
            forall|k: int|
                0 <= k < i ==> parts.deep_view()[k] == constraint_str(cap@, reqs@[k]),
        decreases reqs.len() - i,
    {
        let ghost old_dv = parts.deep_view();
        let p = constraint_to_string(cap, reqs[i]);
        parts.push(p);
        proof {
            assert(parts.deep_view() =~= old_dv.push(p@));
        }
        i = i + 1;
    }
    proof {
        reveal_strlit("(");
        reveal_strlit(")");
        assert(parts.deep_view() =~= Seq::new(
            reqs@.len(),
            |k: int| constraint_str(cap@, reqs@[k]),
        ));
    }
    let mut s = String::from_str("(");
    let joined = join_strings(&parts, " with ");
    proof {
        reveal_strlit(" with ");
        assert(" with "@ =~= sep_with());
    }
    s.append(joined.as_str());
    s.append(")");
    assert(s@ =~= apply_version_range_spec(cap@, reqs@));
    s
}

/// The bare capability for a package.
fn make_cap(name: &str) -> (s: String)
    ensures
        s@ == cap_plain(name@),
{
    proof {
        reveal_strlit("crate(");
        reveal_strlit(")");
    }
    assert("crate("@ =~= seq!['c', 'r', 'a', 't', 'e', '(']);
    assert(")"@ =~= seq![')']);
    let mut s = String::from_str("crate(");
    s.append(name);
    s.append(")");
    assert(s@ =~= cap_plain(name@));
    s
}

/// The capability for one feature of a package.
fn make_cap_feature(name: &str, feat: &str) -> (s: String)
    ensures
        s@ == cap_feature(name@, feat@),
{
    proof {
        reveal_strlit("crate(");
        reveal_strlit("/");
        reveal_strlit(")");
    }
    assert("crate("@ =~= seq!['c', 'r', 'a', 't', 'e', '(']);
    assert("/"@ =~= seq!['/']);
    assert(")"@ =~= seq![')']);
    let mut s = String::from_str("crate(");
    s.append(name);
    s.append("/");
    s.append(feat);
    s.append(")");
    assert(s@ =~= cap_feature(name@, feat@));
    s
}

/// The capability names of a dependency, as `capability_names_spec` states.
pub fn capability_names(d: &Dependency) -> (r: Vec<String>)
    ensures
        r.deep_view() == capability_names_spec(d@),
        r.len() >= 1,
{
    let ghost base: Seq<Seq<char>> = if d.uses_default_features {
        seq![cap_feature(d@.package_name, default_feature_name())]
    } else {
        Seq::empty()
    };
    let mut caps: Vec<String> = Vec::new();
    if d.uses_default_features {
        proof {
            reveal_strlit("default");
            assert("default"@ =~= default_feature_name());
        }
        let c = make_cap_feature(d.package_name.as_str(), "default");
        caps.push(c);
    }
    proof {
        assert(caps.deep_view() =~= base);
    }
    let mut i: usize = 0;
    while i < d.features.len()
        invariant
            0 <= i <= d.features.len(),
            caps.len() == base.len() + i,
            d@.features.len() == d.features.len(),
            forall|k: int| 0 <= k < d.features.len() ==> d@.features[k] == d.features[k]@,
            caps.deep_view() =~= base + Seq::new(
                i as nat,
                |k: int|
                    if d@.features[k].len() == 0 {
                        cap_plain(d@.package_name)
                    } else {
                        cap_feature(d@.package_name, d@.features[k])
                    },
            ),
        decreases d.features.len() - i,
    {
        let ghost old_dv = caps.deep_view();
        let f = &d.features[i];
        if f.as_str().is_empty() {
            let c = make_cap(d.package_name.as_str());
            caps.push(c);
            proof {
                assert(caps.deep_view() =~= old_dv.push(c@));
            }
        } else {
            let c = make_cap_feature(d.package_name.as_str(), f.as_str());
            caps.push(c);
            proof {
                assert(caps.deep_view() =~= old_dv.push(c@));
            }
        }
        i = i + 1;
    }
    if caps.len() == 0 {
        let c = make_cap(d.package_name.as_str());
        caps.push(c);
        proof {
            assert(caps.deep_view() =~= capability_names_spec(d@));
        }
        caps
    } else {
        proof {
            assert(caps.deep_view() =~= capability_names_spec(d@));
        }
        caps
    }
}

/// The capability expression for one dependency.
///
/// The version requirement is parsed on demand: a string that does not
/// parse yields `MalformedVersion`; the errors of the predicate translation
/// propagate; otherwise the result is exactly `rpm_dep_str` of the
/// dependency and the translated constraints.
pub fn rpm_dep(dependency: &Dependency) -> (r: Result<String, Error>)
    ensures
        match semver_predicates(dependency@.version_req) {
            None => r == Err::<String, Error>(Error::MalformedVersion),
            Some(ps) => match translate_preds(ps) {
                Ok(cs) => r matches Ok(s) && s@ == rpm_dep_str(dependency@, cs),
                Err(e) => r == Err::<String, Error>(e),
            },
        },
{
    let preds = match parse_version_req(dependency.version_req.as_str()) {
        None => {
            return Err(Error::MalformedVersion);
        },
        Some(ps) => ps,
    };
    let reqs = match translate_predicates(&preds) {
        Ok(cs) => cs,
        Err(e) => {
            return Err(e);
        },
    };
    let caps = capability_names(dependency);
    let mut parts: Vec<String> = Vec::new();
    let mut i: usize = 0;
    let ghost capsv = capability_names_spec(dependency@);
    while i < caps.len()
        invariant
            0 <= i <= caps.len(),
            parts.len() == i,
            capsv == capability_names_spec(dependency@),
            caps.deep_view() == capsv,
            caps.len() == capsv.len(),
            forall|k: int| 0 <= k < caps.len() ==> caps[k]@ == capsv[k],
            forall|k: int|
                0 <= k < i ==> parts.deep_view()[k] == apply_version_range_spec(
                    capsv[k],
                    reqs@,
                ),
        decreases caps.len() - i,
    {
        let ghost old_dv = parts.deep_view();
        let e = apply_version_range(caps[i].as_str(), &reqs);
        parts.push(e);
        proof {
            assert(parts.deep_view() =~= old_dv.push(e@));
        }
        i = i + 1;
    }
    proof {
        assert(parts.deep_view() =~= Seq::new(
            capsv.len(),
            |k: int| apply_version_range_spec(capsv[k], reqs@),
        ));
    }
    if parts.len() == 1 {
        let s = parts[0].clone();
        assert(s@ == rpm_dep_str(dependency@, reqs@));
        Ok(s)
    } else {
        proof {
            reveal_strlit("(");
            reveal_strlit(")");
            reveal_strlit(" and ");
            assert(" and "@ =~= sep_and());
        }
        let mut s = String::from_str("(");
        let joined = join_strings(&parts, " and ");
        s.append(joined.as_str());
        s.append(")");
        assert(s@ =~= rpm_dep_str(dependency@, reqs@));
        Ok(s)
    }
}

} // verus!
