//! Re-parsing of produced capability expressions, and the round-trip law:
//! formatting a constraint list and parsing the result recovers the same
//! operator and version pairs.

use vstd::prelude::*;

use crate::numfmt::{dec_str, digit_char};
use crate::semver::{CmpOp, Constraint, VPartial, vpart_major, vpart_minor, vpart_patch};
use crate::rpm::{
    apply_version_range_spec, cmp_op_str, constraint_str, join_with, sep_with, vpart_str,
};

verus! {

/// Splitting a character sequence at a separator, accumulating the current
/// token; empty tokens are dropped.
pub open spec fn split_acc(s: Seq<char>, sep: char, cur: Seq<char>) -> Seq<Seq<char>>
    decreases s.len(),
{
    if s.len() == 0 {
        if cur.len() == 0 {
            Seq::empty()
        } else {
            seq![cur]
        }
    } else if s[0] == sep {
        if cur.len() == 0 {
            split_acc(s.skip(1), sep, Seq::empty())
        } else {
            seq![cur] + split_acc(s.skip(1), sep, Seq::empty())
        }
    } else {
        split_acc(s.skip(1), sep, cur.push(s[0]))
    }
}

/// The tokens of a sequence: its maximal separator-free pieces.
pub open spec fn split_at(s: Seq<char>, sep: char) -> Seq<Seq<char>> {
    split_acc(s, sep, Seq::empty())
}

pub open spec fn has_no(s: Seq<char>, sep: char) -> bool {
    forall|i: int| 0 <= i < s.len() ==> s[i] != sep
}

/// A separator-free piece followed by a separator starts the token list.
proof fn lemma_split_boundary(a: Seq<char>, sep: char, rest: Seq<char>, cur: Seq<char>)
    requires
        has_no(a, sep),
        cur.len() + a.len() > 0,
    ensures
        split_acc(a + seq![sep] + rest, sep, cur) == seq![cur + a] + split_acc(
            rest,
            sep,
            Seq::empty(),
        ),
    decreases a.len(),
{
    let s = a + seq![sep] + rest;
    if a.len() == 0 {
        assert(s =~= seq![sep] + rest);
        assert(s[0] == sep);
        assert(s.skip(1) =~= rest);
        assert(cur + a =~= cur);
    } else {
        assert(s[0] == a[0]);
        assert(a[0] != sep);
        assert(s.skip(1) =~= a.skip(1) + seq![sep] + rest);
        lemma_split_boundary(a.skip(1), sep, rest, cur.push(a[0]));
        assert(cur.push(a[0]) + a.skip(1) =~= cur + a);
    }
}

/// A separator-free tail is a single token.
proof fn lemma_split_last(a: Seq<char>, sep: char, cur: Seq<char>)
    requires
        has_no(a, sep),
        cur.len() + a.len() > 0,
    ensures
        split_acc(a, sep, cur) == seq![cur + a],
    decreases a.len(),
{
    if a.len() == 0 {
        assert(cur + a =~= cur);
    } else {
        lemma_split_last(a.skip(1), sep, cur.push(a[0]));
        assert(cur.push(a[0]) + a.skip(1) =~= cur + a);
    }
}

/// The numeric value of a digit character.
pub open spec fn digit_val(c: char) -> int {
    (c as int) - 48
}

pub open spec fn is_digit(c: char) -> bool {
    48 <= c as int && c as int <= 57
}

pub open spec fn all_digits(s: Seq<char>) -> bool {
    forall|i: int| 0 <= i < s.len() ==> is_digit(s[i])
}

/// The value of a digit string read left to right onto an accumulator.
pub open spec fn dec_val_acc(s: Seq<char>, acc: int) -> int
    decreases s.len(),
{
    if s.len() == 0 {
        acc
    } else {
        dec_val_acc(s.skip(1), acc * 10 + digit_val(s[0]))
    }
}

/// What a decimal token denotes: its value, when it is a nonempty string
/// of digits.
pub open spec fn parse_dec(s: Seq<char>) -> Option<int> {
    if s.len() >= 1 && all_digits(s) {
        Some(dec_val_acc(s, 0))
    } else {
        None
    }
}

proof fn lemma_digit_char_facts(d: int)
    requires
        0 <= d <= 9,
    ensures
        is_digit(digit_char(d)),
        digit_val(digit_char(d)) == d,
        digit_char(d) != ' ',
        digit_char(d) != '.',
        digit_char(d) != '(',
        digit_char(d) != ')',
{
}

proof fn lemma_dec_str_digits(n: int)
    requires
        n >= 0,
    ensures
        dec_str(n).len() >= 1,
        all_digits(dec_str(n)),
        has_no(dec_str(n), ' '),
        has_no(dec_str(n), '.'),
    decreases n,
{
    if n < 10 {
        lemma_digit_char_facts(n);
    } else {
        lemma_dec_str_digits(n / 10);
        lemma_digit_char_facts(n % 10);
        assert forall|i: int| 0 <= i < dec_str(n).len() implies is_digit(dec_str(n)[i])
            && dec_str(n)[i] != ' ' && dec_str(n)[i] != '.' by {
            if i < dec_str(n / 10).len() {
                assert(dec_str(n)[i] == dec_str(n / 10)[i]);
            } else {
                assert(dec_str(n)[i] == digit_char(n % 10));
            }
        }
    }
}

proof fn lemma_dec_val_push(s: Seq<char>, c: char, acc: int)
    ensures
        dec_val_acc(s.push(c), acc) == dec_val_acc(s, acc) * 10 + digit_val(c),
    decreases s.len(),
{
    if s.len() == 0 {
        assert(s.push(c).skip(1) =~= Seq::<char>::empty());
        assert(s.push(c)[0] == c);
        assert(dec_val_acc(s.push(c), acc) == dec_val_acc(
            Seq::<char>::empty(),
            acc * 10 + digit_val(c),
        ));
        assert(dec_val_acc(Seq::<char>::empty(), acc * 10 + digit_val(c)) == acc * 10
            + digit_val(c));
        assert(dec_val_acc(s, acc) == acc);
    } else {
        assert(s.push(c)[0] == s[0]);
        assert(s.push(c).skip(1) =~= s.skip(1).push(c));
        lemma_dec_val_push(s.skip(1), c, acc * 10 + digit_val(s[0]));
        assert(dec_val_acc(s.push(c), acc) == dec_val_acc(
            s.skip(1).push(c),
            acc * 10 + digit_val(s[0]),
        ));
        assert(dec_val_acc(s, acc) == dec_val_acc(s.skip(1), acc * 10 + digit_val(s[0])));
    }
}

/// The triple a version token denotes: three dot-separated decimal numbers
/// that fit in 64 bits.
pub open spec fn parse_ver(t: Seq<char>) -> Option<VPartial> {
    let parts = split_at(t, '.');
    if parts.len() == 3 {
        match (parse_dec(parts[0]), parse_dec(parts[1]), parse_dec(parts[2])) {
            (Some(ma), Some(mi), Some(pa)) => if ma <= u64::MAX && mi <= u64::MAX && pa
                <= u64::MAX {
                Some(VPartial::MMP(ma as u64, mi as u64, pa as u64))
            } else {
                None
            },
            _ => None,
        }
    } else {
        None
    }
}

/// The operator a token denotes.
pub open spec fn parse_op(t: Seq<char>) -> Option<CmpOp> {
    if t == cmp_op_str(CmpOp::Lt) {
        Some(CmpOp::Lt)
    } else if t == cmp_op_str(CmpOp::Le) {
        Some(CmpOp::Le)
    } else if t == cmp_op_str(CmpOp::Gt) {
        Some(CmpOp::Gt)
    } else if t == cmp_op_str(CmpOp::Ge) {
        Some(CmpOp::Ge)
    } else if t == cmp_op_str(CmpOp::Exact) {
        Some(CmpOp::Exact)
    } else {
        None
    }
}

pub open spec fn with_tok() -> Seq<char> {
    seq!['w', 'i', 't', 'h']
}

/// What a token list denotes: one or more `capability operator version`
/// groups joined by `with`, all against the same capability name.
pub open spec fn parse_toks(toks: Seq<Seq<char>>) -> Option<(Seq<char>, Seq<Constraint>)>
    decreases toks.len(),
{
    if toks.len() < 3 {
        None
    } else {
        match (parse_op(toks[1]), parse_ver(toks[2])) {
            (Some(op), Some(v)) => {
                let c = Constraint { op, ver: v };
                if toks.len() == 3 {
                    Some((toks[0], seq![c]))
                } else if toks[3] == with_tok() {
                    match parse_toks(toks.skip(4)) {
                        Some(rest) => if rest.0 == toks[0] {
                            Some((toks[0], seq![c] + rest.1))
                        } else {
                            None
                        },
                        None => None,
                    }
                } else {
                    None
                }
            },
            _ => None,
        }
    }
}

/// What a produced capability expression denotes: the bare capability, one
/// comparison, or a parenthesized `with`-conjunction.
pub open spec fn parse_expr_spec(s: Seq<char>) -> Option<(Seq<char>, Seq<Constraint>)> {
    if s.len() >= 2 && s[0] == '(' && s[s.len() - 1] == ')' {
        parse_toks(split_at(s.subrange(1, s.len() - 1), ' '))
    } else {
        let toks = split_at(s, ' ');
        if toks.len() == 1 {
            Some((toks[0], Seq::empty()))
        } else {
            parse_toks(toks)
        }
    }
}

/// A constraint list with the omitted version components written out as 0,
/// as rendering writes them.
pub open spec fn filled_constraints(reqs: Seq<Constraint>) -> Seq<Constraint> {
    Seq::new(
        reqs.len(),
        |i: int|
            Constraint {
                op: reqs[i].op,
                ver: VPartial::MMP(
                    vpart_major(reqs[i].ver),
                    vpart_minor(reqs[i].ver),
                    vpart_patch(reqs[i].ver),
                ),
            },
    )
}

/// The token list of a rendered constraint conjunction.
pub open spec fn constraint_toks(cap: Seq<char>, reqs: Seq<Constraint>) -> Seq<Seq<char>>
    decreases reqs.len(),
{
    if reqs.len() == 0 {
        Seq::empty()
    } else if reqs.len() == 1 {
        seq![cap, cmp_op_str(reqs[0].op), vpart_str(reqs[0].ver)]
    } else {
        seq![cap, cmp_op_str(reqs[0].op), vpart_str(reqs[0].ver), with_tok()]
            + constraint_toks(cap, reqs.skip(1))
    }
}

/// The decimal rendering parses back to the number it renders.
pub proof fn lemma_dec_round_trip(n: int)
    requires
        n >= 0,
    ensures
        parse_dec(dec_str(n)) == Some(n),
    decreases n,
{
    lemma_dec_str_digits(n);
    if n < 10 {
        lemma_digit_char_facts(n);
        assert(dec_str(n) =~= Seq::<char>::empty().push(digit_char(n)));
        lemma_dec_val_push(Seq::empty(), digit_char(n), 0);
    } else {
        lemma_dec_round_trip(n / 10);
        lemma_digit_char_facts(n % 10);
        lemma_dec_val_push(dec_str(n / 10), digit_char(n % 10), 0);
    }
}

proof fn lemma_vpart_str_shape(v: VPartial)
    ensures
        vpart_str(v).len() >= 1,
        has_no(vpart_str(v), ' '),
{
    lemma_dec_str_digits(vpart_major(v) as int);
    lemma_dec_str_digits(vpart_minor(v) as int);
    lemma_dec_str_digits(vpart_patch(v) as int);
}

/// The rendering of a version parses back to its filled triple.
proof fn lemma_ver_round_trip(v: VPartial)
    ensures
        parse_ver(vpart_str(v)) == Some(
            VPartial::MMP(vpart_major(v), vpart_minor(v), vpart_patch(v)),
        ),
{
    let ma = vpart_major(v) as int;
    let mi = vpart_minor(v) as int;
    let pa = vpart_patch(v) as int;
    lemma_dec_str_digits(ma);
    lemma_dec_str_digits(mi);
    lemma_dec_str_digits(pa);
    let tail = dec_str(mi) + seq!['.'] + dec_str(pa);
    assert(vpart_str(v) =~= dec_str(ma) + seq!['.'] + tail);
    lemma_split_boundary(dec_str(ma), '.', tail, Seq::empty());
    lemma_split_boundary(dec_str(mi), '.', dec_str(pa), Seq::empty());
    lemma_split_last(dec_str(pa), '.', Seq::empty());
    assert(Seq::<char>::empty() + dec_str(ma) =~= dec_str(ma));
    assert(Seq::<char>::empty() + dec_str(mi) =~= dec_str(mi));
    assert(Seq::<char>::empty() + dec_str(pa) =~= dec_str(pa));
    assert(split_at(vpart_str(v), '.') =~= seq![dec_str(ma), dec_str(mi), dec_str(pa)]);
    lemma_dec_round_trip(ma);
    lemma_dec_round_trip(mi);
    lemma_dec_round_trip(pa);
}

proof fn lemma_op_round_trip(op: CmpOp)
    ensures
        parse_op(cmp_op_str(op)) == Some(op),
        cmp_op_str(op).len() >= 1,
        has_no(cmp_op_str(op), ' '),
{
    assert(cmp_op_str(CmpOp::Lt).len() == 1 && cmp_op_str(CmpOp::Lt)[0] == '<');
    assert(cmp_op_str(CmpOp::Le).len() == 2 && cmp_op_str(CmpOp::Le)[0] == '<');
    assert(cmp_op_str(CmpOp::Gt).len() == 1 && cmp_op_str(CmpOp::Gt)[0] == '>');
    assert(cmp_op_str(CmpOp::Ge).len() == 2 && cmp_op_str(CmpOp::Ge)[0] == '>');
    assert(cmp_op_str(CmpOp::Exact).len() == 1 && cmp_op_str(CmpOp::Exact)[0] == '=');
}

/// Unfolding a joined rendering at the front.
proof fn lemma_join_front(parts: Seq<Seq<char>>, sep: Seq<char>)
    requires
        parts.len() >= 2,
    ensures
        join_with(parts, sep) == parts[0] + sep + join_with(parts.skip(1), sep),
    decreases parts.len(),
{
    if parts.len() == 2 {
        assert(parts.drop_last() =~= seq![parts[0]]);
        assert(parts.skip(1) =~= seq![parts[1]]);
        assert(join_with(parts, sep) == join_with(parts.drop_last(), sep) + sep
            + parts.last());
        assert(join_with(seq![parts[0]], sep) == parts[0]);
        assert(join_with(seq![parts[1]], sep) == parts[1]);
        assert(parts.skip(1).last() == parts[1]);
    } else {
        lemma_join_front(parts.drop_last(), sep);
        assert(parts.drop_last()[0] == parts[0]);
        assert(parts.drop_last().skip(1) =~= parts.skip(1).drop_last());
        assert(join_with(parts, sep) == join_with(parts.drop_last(), sep) + sep
            + parts.last());
        assert(join_with(parts.skip(1), sep) == join_with(parts.skip(1).drop_last(), sep)
            + sep + parts.skip(1).last());
        assert(parts.skip(1).last() == parts.last());
        assert((parts[0] + sep + join_with(parts.skip(1).drop_last(), sep)) + sep
            + parts.last() =~= parts[0] + sep + (join_with(parts.skip(1).drop_last(), sep)
            + sep + parts.last()));
    }
}

/// Splitting the rendered conjunction yields the token list.
#[verifier::rlimit(100)]
#[verifier::spinoff_prover]
proof fn lemma_split_expr(cap: Seq<char>, reqs: Seq<Constraint>)
    requires
        cap.len() > 0,
        has_no(cap, ' '),
        reqs.len() >= 1,
    ensures
        split_at(
            join_with(Seq::new(reqs.len(), |i: int| constraint_str(cap, reqs[i])), sep_with()),
            ' ',
        ) == constraint_toks(cap, reqs),
    decreases reqs.len(),
{
    let parts = Seq::new(reqs.len(), |i: int| constraint_str(cap, reqs[i]));
    let opst = cmp_op_str(reqs[0].op);
    let verst = vpart_str(reqs[0].ver);
    lemma_op_round_trip(reqs[0].op);
    lemma_vpart_str_shape(reqs[0].ver);
    if reqs.len() == 1 {
        assert(join_with(parts, sep_with()) == constraint_str(cap, reqs[0]));
        let t1 = opst + seq![' '] + verst;
        assert(constraint_str(cap, reqs[0]) =~= cap + seq![' '] + t1);
        lemma_split_boundary(cap, ' ', t1, Seq::empty());
        lemma_split_boundary(opst, ' ', verst, Seq::empty());
        lemma_split_last(verst, ' ', Seq::empty());
        assert(Seq::<char>::empty() + cap =~= cap);
        assert(Seq::<char>::empty() + opst =~= opst);
        assert(Seq::<char>::empty() + verst =~= verst);
        assert(split_at(constraint_str(cap, reqs[0]), ' ') =~= seq![cap, opst, verst]);
    } else {
        lemma_join_front(parts, sep_with());
        let rest = Seq::new(reqs.skip(1).len(), |i: int| constraint_str(cap, reqs.skip(1)[i]));
        assert(parts.skip(1) =~= rest);
        lemma_split_expr(cap, reqs.skip(1));
        let restj = join_with(rest, sep_with());
        let t3 = with_tok() + seq![' '] + restj;
        let t2 = verst + seq![' '] + t3;
        let t1 = opst + seq![' '] + t2;
        assert(join_with(parts, sep_with()) =~= cap + seq![' '] + t1);
        lemma_split_boundary(cap, ' ', t1, Seq::empty());
        lemma_split_boundary(opst, ' ', t2, Seq::empty());
        lemma_split_boundary(verst, ' ', t3, Seq::empty());
        assert(has_no(with_tok(), ' '));
        lemma_split_boundary(with_tok(), ' ', restj, Seq::empty());
        assert(Seq::<char>::empty() + cap =~= cap);
        assert(Seq::<char>::empty() + opst =~= opst);
        assert(Seq::<char>::empty() + verst =~= verst);
        assert(Seq::<char>::empty() + with_tok() =~= with_tok());
        assert(split_at(join_with(parts, sep_with()), ' ') =~= seq![cap, opst, verst,
            with_tok()] + constraint_toks(cap, reqs.skip(1)));
        assert(constraint_toks(cap, reqs) =~= seq![cap, opst, verst, with_tok()]
            + constraint_toks(cap, reqs.skip(1)));
    }
}

/// The token list of a rendering parses back to the capability and the
/// filled constraints.
proof fn lemma_parse_toks_round(cap: Seq<char>, reqs: Seq<Constraint>)
    requires
        reqs.len() >= 1,
    ensures
        parse_toks(constraint_toks(cap, reqs)) == Some((cap, filled_constraints(reqs))),
    decreases reqs.len(),
{
    let toks = constraint_toks(cap, reqs);
    lemma_op_round_trip(reqs[0].op);
    lemma_ver_round_trip(reqs[0].ver);
    let c0 = Constraint {
        op: reqs[0].op,
        ver: VPartial::MMP(
            vpart_major(reqs[0].ver),
            vpart_minor(reqs[0].ver),
            vpart_patch(reqs[0].ver),
        ),
    };
    if reqs.len() == 1 {
        assert(toks.len() == 3);
        assert(filled_constraints(reqs) =~= seq![c0]);
    } else {
        lemma_parse_toks_round(cap, reqs.skip(1));
        assert(toks.skip(4) =~= constraint_toks(cap, reqs.skip(1)));
        assert(toks[3] == with_tok());
        assert(constraint_toks(cap, reqs.skip(1)).len() >= 3);
        assert(toks.len() >= 7);
        assert(filled_constraints(reqs) =~= seq![c0] + filled_constraints(reqs.skip(1)));
    }
}

proof fn lemma_dec_val_lower(s: Seq<char>, acc: int)
    requires
        all_digits(s),
        acc >= 0,
    ensures
        dec_val_acc(s, acc) >= acc,
    decreases s.len(),
{
    if s.len() > 0 {
        lemma_dec_val_lower(s.skip(1), acc * 10 + digit_val(s[0]));
    }
}

/// Collects the characters of a string slice.
fn str_chars(s: &str) -> (v: Vec<char>)
    ensures
        v@ == s@,
{
    let n = s.unicode_len();
    let mut v: Vec<char> = Vec::new();
    let mut i: usize = 0;
    while i < n
        invariant
            0 <= i <= n,
            n == s@.len(),
            v@ =~= s@.take(i as int),
        decreases n - i,
    {
        let c = s.get_char(i);
        v.push(c);
        proof {
            assert(v@ =~= s@.take(i + 1));
        }
        i = i + 1;
    }
    proof {
        assert(s@.take(n as int) =~= s@);
    }
    v
}

/// Splits characters at a separator, dropping empty tokens.
fn split_exec(cs: &Vec<char>, sep: char) -> (toks: Vec<Vec<char>>)
    ensures
        toks.deep_view() == split_at(cs@, sep),
{
    let ghost sv = cs@;
    let mut out: Vec<Vec<char>> = Vec::new();
    let mut cur: Vec<char> = Vec::new();
    let mut i: usize = 0;
    proof {
        assert(sv.skip(0) =~= sv);
        assert(out.deep_view() =~= Seq::<Seq<char>>::empty());
    }
    while i < cs.len()
        invariant
            0 <= i <= cs.len(),
            sv == cs@,
            split_at(sv, sep) == out.deep_view() + split_acc(
                sv.skip(i as int),
                sep,
                cur@,
            ),
        decreases cs.len() - i,
    {
        proof {
            assert(sv.skip(i as int)[0] == sv[i as int]);
            assert(sv.skip(i as int).skip(1) =~= sv.skip(i + 1));
        }
        let ghost oldcur = cur@;
        let ghost oldout = out.deep_view();
        let c = cs[i];
        if c == sep {
            if cur.len() > 0 {
                out.push(cur);
                cur = Vec::new();
                proof {
                    assert(split_acc(sv.skip(i as int), sep, oldcur) == seq![oldcur]
                        + split_acc(sv.skip(i + 1), sep, Seq::<char>::empty()));
                    assert(out.deep_view() =~~= oldout.push(oldcur));
                    assert(oldout + (seq![oldcur] + split_acc(
                        sv.skip(i + 1),
                        sep,
                        Seq::<char>::empty(),
                    )) =~~= out.deep_view() + split_acc(sv.skip(i + 1), sep, cur@));
                }
            } else {
                proof {
                    assert(oldcur =~= Seq::<char>::empty());
                    assert(split_acc(sv.skip(i as int), sep, oldcur) == split_acc(
                        sv.skip(i + 1),
                        sep,
                        Seq::<char>::empty(),
                    ));
                    assert(cur@ =~= Seq::<char>::empty());
                }
            }
        } else {
            cur.push(c);
            proof {
                assert(cur@ == oldcur.push(sv[i as int]));
                assert(split_acc(sv.skip(i as int), sep, oldcur) == split_acc(
                    sv.skip(i + 1),
                    sep,
                    cur@,
                ));
            }
        }
        i = i + 1;
    }
    proof {
        assert(sv.skip(cs.len() as int) =~= Seq::<char>::empty());
    }
    if cur.len() > 0 {
        let ghost old_out = out.deep_view();
        let ghost curv = cur@;
        out.push(cur);
        proof {
            assert(out.deep_view() =~~= old_out.push(curv));
            assert(out.deep_view() =~~= split_at(sv, sep));
        }
    } else {
        proof {
            assert(out.deep_view() =~~= split_at(sv, sep));
        }
    }
    out
}

/// Parses a nonempty digit token into a 64-bit number.
fn parse_dec_exec(t: &Vec<char>) -> (r: Option<u64>)
    ensures
        match r {
            Some(n) => parse_dec(t@) == Some(n as int),
            None => !(parse_dec(t@) matches Some(v) && v <= u64::MAX),
        },
{
    if t.len() == 0 {
        return None;
    }
    let mut acc: u64 = 0;
    let mut i: usize = 0;
    proof {
        assert(t@.skip(0) =~= t@);
    }
    while i < t.len()
        invariant
            0 <= i <= t.len(),
            t@.len() >= 1,
            forall|k: int| 0 <= k < i ==> is_digit(t@[k]),
            all_digits(t@) ==> dec_val_acc(t@, 0) == dec_val_acc(
                t@.skip(i as int),
                acc as int,
            ),
        decreases t.len() - i,
    {
        proof {
            assert(t@.skip(i as int)[0] == t@[i as int]);
            assert(t@.skip(i as int).skip(1) =~= t@.skip(i + 1));
        }
        let c = t[i];
        let d: u64 = match c {
            '0' => 0,
            '1' => 1,
            '2' => 2,
            '3' => 3,
            '4' => 4,
            '5' => 5,
            '6' => 6,
            '7' => 7,
            '8' => 8,
            '9' => 9,
            _ => {
                proof {
                    assert(!is_digit(t@[i as int]));
                }
                return None;
            },
        };
        proof {
            assert(is_digit(t@[i as int]));
            assert(d as int == digit_val(t@[i as int]));
        }
        if acc > (u64::MAX - d) / 10 {
            proof {
                if all_digits(t@) {
                    let next = acc as int * 10 + d as int;
                    assert(u64::MAX - d == 10 * ((u64::MAX - d) / 10) + (u64::MAX - d)
                        % 10);
                    assert(next > u64::MAX);
                    assert(forall|k: int|
                        0 <= k < t@.skip(i + 1).len() ==> is_digit(
                            #[trigger] t@.skip(i + 1)[k],
                        ));
                    lemma_dec_val_lower(t@.skip(i + 1), next);
                    assert(dec_val_acc(t@, 0) > u64::MAX);
                }
            }
            return None;
        }
        proof {
            assert(acc as int * 10 + d as int <= u64::MAX);
        }
        acc = acc * 10 + d;
        i = i + 1;
    }
    proof {
        assert(t@.skip(t.len() as int) =~= Seq::<char>::empty());
        assert(all_digits(t@));
        assert(parse_dec(t@) == Some(acc as int));
    }
    Some(acc)
}

/// Character-list equality.
fn chars_eq(a: &Vec<char>, b: &Vec<char>) -> (r: bool)
    ensures
        r == (a@ == b@),
{
    if a.len() != b.len() {
        return false;
    }
    let mut i: usize = 0;
    while i < a.len()
        invariant
            0 <= i <= a.len(),
            a.len() == b.len(),
            forall|k: int| 0 <= k < i ==> a@[k] == b@[k],
        decreases a.len() - i,
    {
        if a[i] != b[i] {
            return false;
        }
        i = i + 1;
    }
    proof {
        assert(a@ =~= b@);
    }
    true
}

/// Copies a character list.
fn clone_chars(v: &Vec<char>) -> (r: Vec<char>)
    ensures
        r@ == v@,
{
    let mut r: Vec<char> = Vec::new();
    let mut i: usize = 0;
    while i < v.len()
        invariant
            0 <= i <= v.len(),
            r@ =~= v@.take(i as int),
        decreases v.len() - i,
    {
        r.push(v[i]);
        proof {
            assert(r@ =~= v@.take(i + 1));
        }
        i = i + 1;
    }
    proof {
        assert(v@.take(v.len() as int) =~= v@);
    }
    r
}

/// Parses a version token.
fn parse_ver_exec(t: &Vec<char>) -> (r: Option<VPartial>)
    ensures
        r == parse_ver(t@),
{
    let parts = split_exec(t, '.');
    if parts.len() != 3 {
        return None;
    }
    proof {
        assert(parts.deep_view()[0] == parts[0]@);
        assert(parts.deep_view()[1] == parts[1]@);
        assert(parts.deep_view()[2] == parts[2]@);
    }
    let ma = match parse_dec_exec(&parts[0]) {
        Some(n) => n,
        None => {
            return None;
        },
    };
    let mi = match parse_dec_exec(&parts[1]) {
        Some(n) => n,
        None => {
            return None;
        },
    };
    let pa = match parse_dec_exec(&parts[2]) {
        Some(n) => n,
        None => {
            return None;
        },
    };
    Some(VPartial::MMP(ma, mi, pa))
}

/// Parses an operator token.
fn parse_op_exec(t: &Vec<char>) -> (r: Option<CmpOp>)
    ensures
        r == parse_op(t@),
{
    if t.len() == 1 {
        let c = t[0];
        let r = if c == '<' {
            Some(CmpOp::Lt)
        } else if c == '>' {
            Some(CmpOp::Gt)
        } else if c == '=' {
            Some(CmpOp::Exact)
        } else {
            None
        };
        proof {
            assert(c == '<' ==> t@ =~= cmp_op_str(CmpOp::Lt));
            assert(c == '>' ==> t@ =~= cmp_op_str(CmpOp::Gt));
            assert(c == '=' ==> t@ =~= cmp_op_str(CmpOp::Exact));
        }
        r
    } else if t.len() == 2 {
        let c0 = t[0];
        let c1 = t[1];
        let r = if c0 == '<' && c1 == '=' {
            Some(CmpOp::Le)
        } else if c0 == '>' && c1 == '=' {
            Some(CmpOp::Ge)
        } else {
            None
        };
        proof {
            assert(c0 == '<' && c1 == '=' ==> t@ =~= cmp_op_str(CmpOp::Le));
            assert(c0 == '>' && c1 == '=' ==> t@ =~= cmp_op_str(CmpOp::Ge));
        }
        r
    } else {
        None
    }
}

/// Whether a token is the `with` connective.
fn is_with_tok(t: &Vec<char>) -> (r: bool)
    ensures
        r == (t@ == with_tok()),
{
    let r = t.len() == 4 && t[0] == 'w' && t[1] == 'i' && t[2] == 't' && t[3] == 'h';
    proof {
        if r {
            assert(t@ =~= with_tok());
        }
    }
    r
}

/// Parses the token list from position `i` on, as `parse_toks` states of
/// the remaining tokens.
fn parse_toks_at(toks: &Vec<Vec<char>>, i: usize) -> (r: Option<(Vec<char>, Vec<Constraint>)>)
    requires
        i <= toks.len(),
    ensures
        match r {
            Some(p) => parse_toks(toks.deep_view().skip(i as int)) == Some((p.0@, p.1@)),
            None => parse_toks(toks.deep_view().skip(i as int)) is None,
        },
    decreases toks.len() - i,
{
    let ghost tv = toks.deep_view().skip(i as int);
    if toks.len() - i < 3 {
        return None;
    }
    proof {
        assert(tv[0] == toks.deep_view()[i as int]);
        assert(tv[1] == toks.deep_view()[i + 1]);
        assert(tv[2] == toks.deep_view()[i + 2]);
        assert(toks.deep_view()[i as int] == toks[i as int]@);
        assert(toks.deep_view()[i + 1] == toks[i + 1]@);
        assert(toks.deep_view()[i + 2] == toks[i + 2]@);
    }
    let op = match parse_op_exec(&toks[i + 1]) {
        Some(op) => op,
        None => {
            return None;
        },
    };
    let v = match parse_ver_exec(&toks[i + 2]) {
        Some(v) => v,
        None => {
            return None;
        },
    };
    let c = Constraint { op, ver: v };
    if toks.len() - i == 3 {
        let cap = clone_chars(&toks[i]);
        let mut cs: Vec<Constraint> = Vec::new();
        cs.push(c);
        proof {
            assert(cs@ =~= seq![c]);
        }
        return Some((cap, cs));
    }
    proof {
        assert(tv[3] == toks.deep_view()[i + 3]);
        assert(toks.deep_view()[i + 3] == toks[i + 3]@);
    }
    if !is_with_tok(&toks[i + 3]) {
        return None;
    }
    proof {
        assert(tv.skip(4) =~= toks.deep_view().skip(i + 4));
    }
    match parse_toks_at(toks, i + 4) {
        Some(rest) => {
            if chars_eq(&rest.0, &toks[i]) {
                let cap = clone_chars(&toks[i]);
                let mut cs: Vec<Constraint> = Vec::new();
                cs.push(c);
                let mut tail = rest.1;
                let ghost tailv = tail@;
                cs.append(&mut tail);
                proof {
                    assert(cs@ =~= seq![c] + tailv);
                }
                Some((cap, cs))
            } else {
                None
            }
        },
        None => None,
    }
}

/// Parses a produced capability expression back into its capability name
/// and constraint list, as `parse_expr_spec` states.
pub fn parse_version_range(s: &str) -> (r: Option<(Vec<char>, Vec<Constraint>)>)
    ensures
        match r {
            Some(p) => parse_expr_spec(s@) == Some((p.0@, p.1@)),
            None => parse_expr_spec(s@) is None,
        },
{
    let cs = str_chars(s);
    if cs.len() >= 2 && cs[0] == '(' && cs[cs.len() - 1] == ')' {
        let mut inner: Vec<char> = Vec::new();
        let mut i: usize = 1;
        while i < cs.len() - 1
            invariant
                1 <= i <= cs.len() - 1,
                cs.len() >= 2,
                cs@ == s@,
                inner@ =~= cs@.subrange(1, i as int),
            decreases cs.len() - i,
        {
            inner.push(cs[i]);
            proof {
                assert(inner@ =~= cs@.subrange(1, i + 1));
            }
            i = i + 1;
        }
        let toks = split_exec(&inner, ' ');
        proof {
            assert(inner@ =~= s@.subrange(1, s@.len() - 1));
            assert(toks.deep_view().skip(0) =~= toks.deep_view());
        }
        parse_toks_at(&toks, 0)
    } else {
        let toks = split_exec(&cs, ' ');
        if toks.len() == 1 {
            proof {
                assert(toks.deep_view()[0] == toks[0]@);
            }
            let cap = clone_chars(&toks[0]);
            Some((cap, Vec::new()))
        } else {
            proof {
                assert(toks.deep_view().skip(0) =~= toks.deep_view());
            }
            parse_toks_at(&toks, 0)
        }
    }
}

/// Law (round trip): rendering a capability name under a constraint list
/// and re-parsing the rendered expression recovers the capability and the
/// same operator and version pairs, the omitted version components written
/// out as 0. The capability name must be nonempty, hold no space, and not
/// begin with a parenthesis, as every produced `crate(...)` name does.
pub proof fn lemma_format_parse_round_trip(cap: Seq<char>, reqs: Seq<Constraint>)
    requires
        cap.len() > 0,
        has_no(cap, ' '),
        cap[0] != '(',
    ensures
        parse_expr_spec(apply_version_range_spec(cap, reqs)) == Some(
            (cap, filled_constraints(reqs)),
        ),
{
    let s = apply_version_range_spec(cap, reqs);
    if reqs.len() == 0 {
        assert(s == cap);
        lemma_split_last(cap, ' ', Seq::empty());
        assert(Seq::<char>::empty() + cap =~= cap);
        assert(filled_constraints(reqs) =~= Seq::<Constraint>::empty());
    } else if reqs.len() == 1 {
        let opst = cmp_op_str(reqs[0].op);
        let verst = vpart_str(reqs[0].ver);
        lemma_op_round_trip(reqs[0].op);
        lemma_vpart_str_shape(reqs[0].ver);
        assert(s == constraint_str(cap, reqs[0]));
        assert(s[0] == cap[0]);
        let t1 = opst + seq![' '] + verst;
        assert(s =~= cap + seq![' '] + t1);
        lemma_split_boundary(cap, ' ', t1, Seq::empty());
        lemma_split_boundary(opst, ' ', verst, Seq::empty());
        lemma_split_last(verst, ' ', Seq::empty());
        assert(Seq::<char>::empty() + cap =~= cap);
        assert(Seq::<char>::empty() + opst =~= opst);
        assert(Seq::<char>::empty() + verst =~= verst);
        assert(split_at(s, ' ') =~= seq![cap, opst, verst]);
        lemma_ver_round_trip(reqs[0].ver);
        let c0 = Constraint {
            op: reqs[0].op,
            ver: VPartial::MMP(
                vpart_major(reqs[0].ver),
                vpart_minor(reqs[0].ver),
                vpart_patch(reqs[0].ver),
            ),
        };
        assert(filled_constraints(reqs) =~= seq![c0]);
    } else {
        let parts = Seq::new(reqs.len(), |i: int| constraint_str(cap, reqs[i]));
        let j = join_with(parts, sep_with());
        assert(s =~= seq!['('] + j + seq![')']);
        assert(s[0] == '(');
        assert(s[s.len() - 1] == ')');
        assert(s.subrange(1, s.len() - 1) =~= j);
        lemma_split_expr(cap, reqs);
        lemma_parse_toks_round(cap, reqs);
    }
}

} // verus!
