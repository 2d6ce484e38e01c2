//! Translation of semantic-version range predicates into inclusive and
//! exclusive bound constraints, and the trusted wrapper around the outside
//! requirement parser.

use vstd::prelude::*;

use crate::manifest::Error;
use semver_parser::range::parse as sv_parse;
use semver_parser::range::Op::{
    Compatible as PCompat, Ex as PEx, Gt as PGt, GtEq as PGtEq, Lt as PLt, LtEq as PLtEq,
    Tilde as PTilde, Wildcard as PWild,
};
use semver_parser::range::WildcardVersion::{
    Major as WMajor, Minor as WMinor, Patch as WPatch,
};
use semver_parser::version::Identifier::{AlphaNumeric as IAlpha, Numeric as INum};

verus! {

/// One atomic operator of a semantic-version requirement.
#[derive(Clone, Copy, PartialEq, Eq, Structural, Debug)]
pub enum RangeOp {
    Lt,
    LtEq,
    Gt,
    GtEq,
    Ex,
    Compatible,
    Tilde,
    WildcardMajor,
    WildcardMinor,
    WildcardPatch,
}

/// One pre-release identifier of a version predicate.
#[derive(Clone, Debug)]
pub enum PreId {
    Numeric(u64),
    AlphaNumeric(String),
}

/// The mathematical value of a `PreId`.
pub enum PreIdView {
    Numeric(u64),
    AlphaNumeric(Seq<char>),
}

impl View for PreId {
    type V = PreIdView;

    open spec fn view(&self) -> PreIdView {
        match self {
            PreId::Numeric(n) => PreIdView::Numeric(*n),
            PreId::AlphaNumeric(s) => PreIdView::AlphaNumeric(s@),
        }
    }
}

impl DeepView for PreId {
    type V = PreIdView;

    open spec fn deep_view(&self) -> PreIdView {
        self.view()
    }
}

/// One parsed predicate of a version requirement: an operator and a version
/// whose minor and patch components may be omitted.
#[derive(Clone, Debug)]
pub struct Pred {
    pub op: RangeOp,
    pub major: u64,
    pub minor: Option<u64>,
    pub patch: Option<u64>,
    pub pre: Vec<PreId>,
}

/// The mathematical value of a `Pred`.
#[verifier::ext_equal]
pub struct PredView {
    pub op: RangeOp,
    pub major: u64,
    pub minor: Option<u64>,
    pub patch: Option<u64>,
    pub pre: Seq<PreIdView>,
}

impl View for Pred {
    type V = PredView;

    open spec fn view(&self) -> PredView {
        PredView {
            op: self.op,
            major: self.major,
            minor: self.minor,
            patch: self.patch,
            pre: self.pre.deep_view(),
        }
    }
}

impl DeepView for Pred {
    type V = PredView;

    open spec fn deep_view(&self) -> PredView {
        self.view()
    }
}

/// A version with its omitted components tracked: major only, major.minor,
/// or a full triple. Omitted components format as 0.
#[derive(Clone, Copy, PartialEq, Eq, Structural, Debug)]
pub enum VPartial {
    M(u64),
    MM(u64, u64),
    MMP(u64, u64, u64),
}

/// The comparison operator of one emitted constraint.
#[derive(Clone, Copy, PartialEq, Eq, Structural, Debug)]
pub enum CmpOp {
    Lt,
    Le,
    Gt,
    Ge,
    Exact,
}

/// One emitted constraint: a comparison operator and a version.
#[derive(Clone, Copy, PartialEq, Eq, Structural, Debug)]
pub struct Constraint {
    pub op: CmpOp,
    pub ver: VPartial,
}

pub open spec fn vpart_major(v: VPartial) -> u64 {
    match v {
        VPartial::M(ma) => ma,
        VPartial::MM(ma, _) => ma,
        VPartial::MMP(ma, _, _) => ma,
    }
}

pub open spec fn vpart_minor(v: VPartial) -> u64 {
    match v {
        VPartial::M(_) => 0,
        VPartial::MM(_, mi) => mi,
        VPartial::MMP(_, mi, _) => mi,
    }
}

pub open spec fn vpart_patch(v: VPartial) -> u64 {
    match v {
        VPartial::M(_) => 0,
        VPartial::MM(_, _) => 0,
        VPartial::MMP(_, _, pa) => pa,
    }
}

impl VPartial {
    /// The major component.
    pub fn major(&self) -> (r: u64)
        ensures
            r == vpart_major(*self),
    {
        match *self {
            VPartial::M(ma) => ma,
            VPartial::MM(ma, _) => ma,
            VPartial::MMP(ma, _, _) => ma,
        }
    }

    /// The minor component; 0 when omitted.
    pub fn minor(&self) -> (r: u64)
        ensures
            r == vpart_minor(*self),
    {
        match *self {
            VPartial::M(_) => 0,
            VPartial::MM(_, mi) => mi,
            VPartial::MMP(_, mi, _) => mi,
        }
    }

    /// The patch component; 0 when omitted.
    pub fn patch(&self) -> (r: u64)
        ensures
            r == vpart_patch(*self),
    {
        match *self {
            VPartial::M(_) => 0,
            VPartial::MM(_, _) => 0,
            VPartial::MMP(_, _, pa) => pa,
        }
    }
}

/// The version of a predicate with its omitted components tracked. Only
/// meaningful when the predicate does not carry a patch without a minor.
pub open spec fn pred_vpart(p: PredView) -> VPartial {
    match (p.minor, p.patch) {
        (None, _) => VPartial::M(p.major),
        (Some(mi), None) => VPartial::MM(p.major, mi),
        (Some(mi), Some(pa)) => VPartial::MMP(p.major, mi, pa),
    }
}

pub open spec fn cons(op: CmpOp, v: VPartial) -> Constraint {
    Constraint { op, ver: v }
}

/// What one predicate translates to.
///
/// A comparison operator passes through (a `>=` predicate yields a `>=`
/// constraint); caret, tilde and wildcard predicates yield an inclusive
/// lower bound and an exclusive upper bound; a bare major wildcard admits
/// every version and yields no constraint. Errors: a pre-release qualifier
/// is `Unsupported`; a patch without a minor, or an upper bound whose
/// incremented component would not fit in 64 bits, is `MalformedVersion`.
pub open spec fn translate_pred(p: PredView) -> Result<Seq<Constraint>, Error> {
    if p.pre.len() > 0 {
        Err(Error::Unsupported)
    } else if p.minor is None && p.patch is Some {
        Err(Error::MalformedVersion)
    } else {
        let v = pred_vpart(p);
        match p.op {
            RangeOp::Lt => Ok(seq![cons(CmpOp::Lt, v)]),
            RangeOp::LtEq => Ok(seq![cons(CmpOp::Le, v)]),
            RangeOp::Gt => Ok(seq![cons(CmpOp::Gt, v)]),
            RangeOp::GtEq => Ok(seq![cons(CmpOp::Ge, v)]),
            RangeOp::Ex => Ok(seq![cons(CmpOp::Exact, v)]),
            RangeOp::Compatible => translate_caret(v),
            RangeOp::Tilde => translate_tilde(v),
            RangeOp::WildcardMajor => Ok(Seq::empty()),
            RangeOp::WildcardMinor => if vpart_major(v) == u64::MAX {
                Err(Error::MalformedVersion)
            } else {
                Ok(
                    seq![
                        cons(CmpOp::Ge, VPartial::M(vpart_major(v))),
                        cons(CmpOp::Lt, VPartial::M((vpart_major(v) + 1) as u64)),
                    ],
                )
            },
            RangeOp::WildcardPatch => if vpart_minor(v) == u64::MAX {
                Err(Error::MalformedVersion)
            } else {
                Ok(
                    seq![
                        cons(CmpOp::Ge, v),
                        cons(
                            CmpOp::Lt,
                            VPartial::MM(vpart_major(v), (vpart_minor(v) + 1) as u64),
                        ),
                    ],
                )
            },
        }
    }
}

/// The caret (compatible) ranges, with the zero-major special cases.
pub open spec fn translate_caret(v: VPartial) -> Result<Seq<Constraint>, Error> {
    match v {
        VPartial::MMP(ma, mi, pa) => if ma == 0 && mi == 0 {
            if pa == u64::MAX {
                Err(Error::MalformedVersion)
            } else {
                Ok(
                    seq![
                        cons(CmpOp::Ge, v),
                        cons(CmpOp::Lt, VPartial::MMP(0, 0, (pa + 1) as u64)),
                    ],
                )
            }
        } else if ma == 0 {
            if mi == u64::MAX {
                Err(Error::MalformedVersion)
            } else {
                Ok(
                    seq![cons(CmpOp::Ge, v), cons(CmpOp::Lt, VPartial::MM(0, (mi + 1) as u64))],
                )
            }
        } else {
            upper_next_major(v, ma)
        },
        VPartial::MM(ma, mi) => if ma == 0 {
            if mi == u64::MAX {
                Err(Error::MalformedVersion)
            } else {
                Ok(
                    seq![cons(CmpOp::Ge, v), cons(CmpOp::Lt, VPartial::MM(0, (mi + 1) as u64))],
                )
            }
        } else {
            upper_next_major(v, ma)
        },
        VPartial::M(ma) => upper_next_major(v, ma),
    }
}

/// The tilde ranges.
pub open spec fn translate_tilde(v: VPartial) -> Result<Seq<Constraint>, Error> {
    match v {
        VPartial::M(ma) => upper_next_major(v, ma),
        VPartial::MM(ma, mi) => if mi == u64::MAX {
            Err(Error::MalformedVersion)
        } else {
            Ok(seq![cons(CmpOp::Ge, v), cons(CmpOp::Lt, VPartial::MM(ma, (mi + 1) as u64))])
        },
        VPartial::MMP(ma, mi, _) => if mi == u64::MAX {
            Err(Error::MalformedVersion)
        } else {
            Ok(seq![cons(CmpOp::Ge, v), cons(CmpOp::Lt, VPartial::MM(ma, (mi + 1) as u64))])
        },
    }
}

/// An inclusive lower bound at `v` and an exclusive upper bound at the next
/// major version.
pub open spec fn upper_next_major(v: VPartial, ma: u64) -> Result<Seq<Constraint>, Error> {
    if ma == u64::MAX {
        Err(Error::MalformedVersion)
    } else {
        Ok(seq![cons(CmpOp::Ge, v), cons(CmpOp::Lt, VPartial::M((ma + 1) as u64))])
    }
}

/// What a whole predicate list translates to: the concatenation of the
/// per-predicate constraints, or the first error in predicate order.
pub open spec fn translate_preds(ps: Seq<PredView>) -> Result<Seq<Constraint>, Error>
    decreases ps.len(),
{
    if ps.len() == 0 {
        Ok(Seq::empty())
    } else {
        match translate_preds(ps.drop_last()) {
            Err(e) => Err(e),
            Ok(cs) => match translate_pred(ps.last()) {
                Err(e) => Err(e),
                Ok(c) => Ok(cs + c),
            },
        }
    }
}

proof fn lemma_translate_preds_err(ps: Seq<PredView>, i: int, e: Error)
    requires
        0 <= i < ps.len(),
        translate_preds(ps.take(i)) is Ok,
        translate_pred(ps[i]) == Err::<Seq<Constraint>, Error>(e),
    ensures
        translate_preds(ps) == Err::<Seq<Constraint>, Error>(e),
    decreases ps.len(),
{
    assert(ps.drop_last() =~= ps.take(ps.len() - 1));
    if i == ps.len() - 1 {
        assert(ps.last() == ps[i]);
    } else {
        assert(ps.take(ps.len() - 1).take(i) =~= ps.take(i));
        assert(ps.take(ps.len() - 1)[i] == ps[i]);
        lemma_translate_preds_err(ps.take(ps.len() - 1), i, e);
    }
}

/// Translates one predicate, as `translate_pred` states.
pub fn translate_predicate(p: &Pred) -> (r: Result<Vec<Constraint>, Error>)
    ensures
        match r {
            Ok(cs) => translate_pred(p@) == Ok::<Seq<Constraint>, Error>(cs@),
            Err(e) => translate_pred(p@) == Err::<Seq<Constraint>, Error>(e),
        },
{
    if p.pre.len() > 0 {
        return Err(Error::Unsupported);
    }
    if p.minor.is_none() && p.patch.is_some() {
        return Err(Error::MalformedVersion);
    }
    let v = match (p.minor, p.patch) {
        (None, _) => VPartial::M(p.major),
        (Some(mi), None) => VPartial::MM(p.major, mi),
        (Some(mi), Some(pa)) => VPartial::MMP(p.major, mi, pa),
    };
    let mut out: Vec<Constraint> = Vec::new();
    match p.op {
        RangeOp::Lt => out.push(Constraint { op: CmpOp::Lt, ver: v }),
        RangeOp::LtEq => out.push(Constraint { op: CmpOp::Le, ver: v }),
        RangeOp::Gt => out.push(Constraint { op: CmpOp::Gt, ver: v }),
        RangeOp::GtEq => out.push(Constraint { op: CmpOp::Ge, ver: v }),
        RangeOp::Ex => out.push(Constraint { op: CmpOp::Exact, ver: v }),
        RangeOp::Compatible => {
            match v {
                VPartial::MMP(0, 0, pa) => {
                    if pa == u64::MAX {
                        return Err(Error::MalformedVersion);
                    }
                    out.push(Constraint { op: CmpOp::Ge, ver: v });
                    out.push(Constraint { op: CmpOp::Lt, ver: VPartial::MMP(0, 0, pa + 1) });
                },
                VPartial::MMP(0, mi, _) | VPartial::MM(0, mi) => {
                    if mi == u64::MAX {
                        return Err(Error::MalformedVersion);
                    }
                    out.push(Constraint { op: CmpOp::Ge, ver: v });
                    out.push(Constraint { op: CmpOp::Lt, ver: VPartial::MM(0, mi + 1) });
                },
                VPartial::M(ma) | VPartial::MM(ma, _) | VPartial::MMP(ma, _, _) => {
                    if ma == u64::MAX {
                        return Err(Error::MalformedVersion);
                    }
                    out.push(Constraint { op: CmpOp::Ge, ver: v });
                    out.push(Constraint { op: CmpOp::Lt, ver: VPartial::M(ma + 1) });
                },
            }
        },
        RangeOp::Tilde => {
            match v {
                VPartial::M(ma) => {
                    if ma == u64::MAX {
                        return Err(Error::MalformedVersion);
                    }
                    out.push(Constraint { op: CmpOp::Ge, ver: v });
                    out.push(Constraint { op: CmpOp::Lt, ver: VPartial::M(ma + 1) });
                },
                VPartial::MM(ma, mi) | VPartial::MMP(ma, mi, _) => {
                    if mi == u64::MAX {
                        return Err(Error::MalformedVersion);
                    }
                    out.push(Constraint { op: CmpOp::Ge, ver: v });
                    out.push(Constraint { op: CmpOp::Lt, ver: VPartial::MM(ma, mi + 1) });
                },
            }
        },
        RangeOp::WildcardMajor => {},
        RangeOp::WildcardMinor => {
            let ma = v.major();
            if ma == u64::MAX {
                return Err(Error::MalformedVersion);
            }
            out.push(Constraint { op: CmpOp::Ge, ver: VPartial::M(ma) });
            out.push(Constraint { op: CmpOp::Lt, ver: VPartial::M(ma + 1) });
        },
        RangeOp::WildcardPatch => {
            let mi = v.minor();
            if mi == u64::MAX {
                return Err(Error::MalformedVersion);
            }
            out.push(Constraint { op: CmpOp::Ge, ver: v });
            out.push(Constraint { op: CmpOp::Lt, ver: VPartial::MM(v.major(), mi + 1) });
        },
    }
    proof {
        match translate_pred(p@) {
            Ok(cs) => {
                assert(out@ =~= cs);
            },
            Err(_) => {
                assert(false);
            },
        }
    }
    Ok(out)
}

/// Translates a predicate list, as `translate_preds` states.
pub fn translate_predicates(preds: &Vec<Pred>) -> (r: Result<Vec<Constraint>, Error>)
    ensures
        match r {
            Ok(cs) => translate_preds(preds.deep_view()) == Ok::<Seq<Constraint>, Error>(cs@),
            Err(e) => translate_preds(preds.deep_view()) == Err::<Seq<Constraint>, Error>(e),
        },
{
    let ghost ps = preds.deep_view();
    let mut out: Vec<Constraint> = Vec::new();
    let mut i: usize = 0;
    while i < preds.len()
        invariant
            0 <= i <= preds.len(),
            ps == preds.deep_view(),
            ps.len() == preds.len(),
            forall|k: int| 0 <= k < ps.len() ==> ps[k] == preds[k].deep_view(),
            translate_preds(ps.take(i as int)) == Ok::<Seq<Constraint>, Error>(out@),
        decreases preds.len() - i,
    {
        match translate_predicate(&preds[i]) {
            Ok(mut cs) => {
                proof {
                    assert(ps.take(i + 1).drop_last() =~= ps.take(i as int));
                    assert(ps.take(i + 1).last() == ps[i as int]);
                }
                let ghost old_out = out@;
                out.append(&mut cs);
                proof {
                    assert(translate_preds(ps.take(i + 1)) == Ok::<Seq<Constraint>, Error>(
                        out@,
                    ));
                }
            },
            Err(e) => {
                proof {
                    lemma_translate_preds_err(ps, i as int, e);
                }
                return Err(e);
            },
        }
        i = i + 1;
    }
    proof {
        assert(ps.take(preds.len() as int) =~= ps);
    }
    Ok(out)
}

/// The predicates that the outside requirement parser yields for a
/// requirement string, or `None` where the string does not parse. The
/// result depends on the characters alone.
pub uninterp spec fn semver_predicates(s: Seq<char>) -> Option<Seq<PredView>>;

/// Relies on `semver_parser::range::parse`: a deterministic parse of a
/// semantic-version requirement string into its predicates.
#[verifier::external_body]
pub(crate) fn parse_version_req(s: &str) -> (r: Option<Vec<Pred>>)
    ensures
        match r {
            Some(ps) => semver_predicates(s@) == Some(ps.deep_view()),
            None => semver_predicates(s@) is None,
        },
{
    let req = match sv_parse(s) { Ok(r) => r, Err(_) => return None };
    Some(req.predicates.into_iter().map(|p| Pred {
        op: match p.op {
            PEx => RangeOp::Ex, PGt => RangeOp::Gt, PGtEq => RangeOp::GtEq, PLt => RangeOp::Lt,
            PLtEq => RangeOp::LtEq, PTilde => RangeOp::Tilde, PCompat => RangeOp::Compatible,
            PWild(WMajor) => RangeOp::WildcardMajor, PWild(WMinor) => RangeOp::WildcardMinor,
            PWild(WPatch) => RangeOp::WildcardPatch,
        },
        major: p.major, minor: p.minor, patch: p.patch,
        pre: p.pre.into_iter().map(|x| match x {
            INum(n) => PreId::Numeric(n), IAlpha(a) => PreId::AlphaNumeric(a),
        }).collect(),
    }).collect())
}

/// Law: a caret predicate with nonzero major translates to exactly the two
/// constraints `>= major.minor.patch` and `< (major+1).0.0`.
pub proof fn lemma_caret_nonzero_major(p: PredView)
    requires
        p.op == RangeOp::Compatible,
        p.major > 0,
        p.major < u64::MAX,
        p.pre.len() == 0,
        !(p.minor is None && p.patch is Some),
    ensures
        translate_pred(p) matches Ok(cs) && cs.len() == 2
            && cs[0] == cons(CmpOp::Ge, pred_vpart(p))
            && vpart_major(cs[0].ver) == p.major
            && vpart_minor(cs[0].ver) == (if p.minor is Some { p.minor.unwrap() } else { 0 })
            && vpart_patch(cs[0].ver) == (if p.patch is Some { p.patch.unwrap() } else { 0 })
            && cs[1] == cons(CmpOp::Lt, VPartial::M((p.major + 1) as u64)),
{
}

/// Law: a wildcard-at-minor predicate translates to exactly the two
/// constraints `>= major.0.0` and `< (major+1).0.0`.
pub proof fn lemma_wildcard_minor(p: PredView)
    requires
        p.op == RangeOp::WildcardMinor,
        p.major < u64::MAX,
        p.pre.len() == 0,
        !(p.minor is None && p.patch is Some),
    ensures
        translate_pred(p) matches Ok(cs) && cs.len() == 2
            && cs[0] == cons(CmpOp::Ge, VPartial::M(p.major))
            && cs[1] == cons(CmpOp::Lt, VPartial::M((p.major + 1) as u64)),
{
}

} // verus!
