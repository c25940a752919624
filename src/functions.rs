//! The surface of the Bub-Fns language: scalar expressions, comparisons and
//! the tuples of a segment, parsed into syntax trees whose number literals are
//! kept as their text. Evaluating a tree is IEEE-754 arithmetic and is left to
//! the caller.
use vstd::prelude::*;

verus! {

/// A binary arithmetic operator.
#[derive(Clone, Copy, Debug, PartialEq, Eq, Structural)]
pub enum ArithOp {
    Add,
    Sub,
    Mul,
    Div,
}

/// A comparison operator.
#[derive(Clone, Copy, Debug, PartialEq, Eq, Structural)]
pub enum CmpOp {
    Eq,
    Ne,
    Lt,
    Le,
    Gt,
    Ge,
}

/// A scalar expression as written: literals keep their digits, parentheses
/// are kept as nodes.
#[derive(Debug)]
pub enum Expr {
    /// A decimal literal: digits with at most the dots the text had.
    Num(Vec<u8>),
    /// One of the variables `n N F T x y z X Y Z`.
    Var(u8),
    Neg(Box<Expr>),
    Paren(Box<Expr>),
    Bin(ArithOp, Box<Expr>, Box<Expr>),
}

/// The character of an arithmetic operator.
pub open spec fn arith_byte(op: ArithOp) -> u8 {
    match op {
        ArithOp::Add => 0x2b,
        ArithOp::Sub => 0x2d,
        ArithOp::Mul => 0x2a,
        ArithOp::Div => 0x2f,
    }
}

/// The text of a comparison operator.
pub open spec fn cmp_text(op: CmpOp) -> Seq<u8> {
    match op {
        CmpOp::Eq => seq![0x3du8, 0x3du8],
        CmpOp::Ne => seq![0x21u8, 0x3du8],
        CmpOp::Lt => seq![0x3cu8],
        CmpOp::Le => seq![0x3cu8, 0x3du8],
        CmpOp::Gt => seq![0x3eu8],
        CmpOp::Ge => seq![0x3eu8, 0x3du8],
    }
}

/// The text of an expression.
pub open spec fn show(e: Expr) -> Seq<u8>
    decreases e,
{
    match e {
        Expr::Num(digits) => digits@,
        Expr::Var(v) => seq![v],
        Expr::Neg(a) => seq![0x2du8] + show(*a),
        Expr::Paren(a) => seq![0x28u8] + show(*a) + seq![0x29u8],
        Expr::Bin(op, a, b) => show(*a) + seq![arith_byte(op)] + show(*b),
    }
}

/// A character of a decimal literal.
pub open spec fn is_num_byte(c: u8) -> bool {
    (0x30 <= c && c <= 0x39) || c == 0x2e
}

/// A variable name.
pub open spec fn is_var_byte(c: u8) -> bool {
    c == 0x6e || c == 0x4e || c == 0x46 || c == 0x54 || c == 0x78 || c == 0x79 || c == 0x7a
        || c == 0x58 || c == 0x59 || c == 0x5a
}

/// Whether `e` is a tree the grammar gives at `level`: 2 for a sum, 1 for a
/// product, 0 for a unary expression. Sums and products associate to the
/// left, a product binds tighter than a sum, a minus sign tighter than both.
pub open spec fn wf_expr(e: Expr, level: nat) -> bool
    decreases e,
{
    match e {
        Expr::Num(digits) => digits@.len() > 0 && forall|k: int|
            0 <= k < digits@.len() ==> is_num_byte(#[trigger] digits@[k]),
        Expr::Var(v) => is_var_byte(v),
        Expr::Neg(a) => wf_expr(*a, 0),
        Expr::Paren(a) => wf_expr(*a, 2),
        Expr::Bin(op, a, b) => match op {
            ArithOp::Add | ArithOp::Sub => level == 2 && wf_expr(*a, 2) && wf_expr(*b, 1),
            ArithOp::Mul | ArithOp::Div => level >= 1 && wf_expr(*a, 1) && wf_expr(*b, 0),
        },
    }
}

proof fn lemma_wf_expr_up(e: Expr, level: nat)
    requires
        wf_expr(e, level),
        level < 2,
    ensures
        wf_expr(e, level + 1),
{
}

/// Whether the expression text of `level` that ends at `j` of `s` cannot be
/// read on: what follows neither extends a literal nor continues an operator
/// chain of that level or a tighter one.
pub open spec fn ends_expr(s: Seq<u8>, j: int, level: nat) -> bool {
    j >= s.len() || {
        let c = s[j];
        &&& !is_num_byte(c)
        &&& level >= 1 ==> c != 0x2a && c != 0x2f
        &&& level >= 2 ==> c != 0x2b && c != 0x2d
    }
}

/// Whether `e` is written at `i` of `s`.
pub open spec fn written_at(s: Seq<u8>, i: int, e: Expr) -> bool {
    &&& 0 <= i
    &&& i + show(e).len() <= s.len()
    &&& s.subrange(i, i + show(e).len()) == show(e)
}

/// Whether `op` chains expressions of `level`.
pub open spec fn is_level_op(op: ArithOp, level: nat) -> bool {
    match op {
        ArithOp::Add | ArithOp::Sub => level == 2,
        ArithOp::Mul | ArithOp::Div => level == 1,
    }
}

/// Number of operators of `level` along the left edge of `e`.
pub open spec fn spine_len(e: Expr, level: nat) -> nat
    decreases e,
{
    match e {
        Expr::Bin(op, a, _) => if is_level_op(op, level) {
            1 + spine_len(*a, level)
        } else {
            0
        },
        _ => 0,
    }
}

/// The node `k` steps down the left edge of `e`.
pub open spec fn spine_node(e: Expr, k: nat) -> Expr
    decreases k,
{
    if k == 0 {
        e
    } else {
        match e {
            Expr::Bin(_, a, _) => spine_node(*a, (k - 1) as nat),
            _ => e,
        }
    }
}

proof fn lemma_show_nonempty(e: Expr)
    requires
        wf_expr(e, 2) || wf_expr(e, 1) || wf_expr(e, 0),
    ensures
        show(e).len() > 0,
        show(e)[0] != 0x3d,
    decreases e,
{
    match e {
        Expr::Bin(op, a, b) => {
            lemma_show_nonempty(*a);
            assert(show(e)[0] == show(*a)[0]);
        },
        Expr::Neg(a) => {},
        Expr::Paren(a) => {},
        Expr::Num(d) => {
            assert(is_num_byte(d@[0]));
        },
        Expr::Var(v) => {},
    }
}

/// Each step down the left edge of an expression of `level` is an operator of
/// that level whose operands sit next to each other in the text; the node at
/// the bottom is an expression of the next tighter level.
proof fn lemma_spine(e: Expr, level: nat, m: nat, s: Seq<u8>, i: int)
    requires
        1 <= level <= 2,
        wf_expr(e, level),
        written_at(s, i, e),
        m <= spine_len(e, level),
    ensures
        wf_expr(spine_node(e, m), level),
        written_at(s, i, spine_node(e, m)),
        m == spine_len(e, level) ==> wf_expr(spine_node(e, m), (level - 1) as nat),
        m < spine_len(e, level) ==> (spine_node(e, m) matches Expr::Bin(op, a, b) && {
            &&& is_level_op(op, level)
            &&& *a == spine_node(e, m + 1)
            &&& wf_expr(*b, (level - 1) as nat)
            &&& s[i + show(*a).len()] == arith_byte(op)
            &&& written_at(s, i + show(*a).len() + 1, *b)
            &&& show(spine_node(e, m)).len() == show(*a).len() + 1 + show(*b).len()
            &&& (m > 0 ==> is_level_op(
                spine_node(e, (m - 1) as nat)->Bin_0,
                level,
            ) && s[i + show(spine_node(e, m)).len()] == arith_byte(
                spine_node(e, (m - 1) as nat)->Bin_0,
            ))
        }),
    decreases e,
{
    if m == 0 {
        if spine_len(e, level) == 0 {
            match e {
                Expr::Bin(op, a, b) => {
                    assert(!is_level_op(op, level));
                },
                _ => {},
            }
        } else {
            let (op, a, b) = match e {
                Expr::Bin(op, a, b) => (op, a, b),
                _ => { proof_from_false() },
            };
            assert(show(e) == show(*a) + seq![arith_byte(op)] + show(*b));
            assert(s.subrange(i, i + show(e).len())[show(*a).len() as int] == arith_byte(op));
            assert(s.subrange(i + show(*a).len() + 1, i + show(*a).len() + 1 + show(*b).len())
                =~= show(*b)) by {
                assert(forall|k: int|
                    0 <= k < show(*b).len() ==> s.subrange(i, i + show(e).len())[show(*a).len()
                        + 1 + k] == show(*b)[k]);
            }
            assert(spine_node(e, 1) == spine_node(*a, 0));
        }
    } else {
        let (op, a, b) = match e {
            Expr::Bin(op, a, b) => (op, a, b),
            _ => { proof_from_false() },
        };
        assert(show(e) == show(*a) + seq![arith_byte(op)] + show(*b));
        assert(s.subrange(i, i + show(*a).len()) =~= show(*a)) by {
            assert(forall|k: int|
                0 <= k < show(*a).len() ==> s.subrange(i, i + show(e).len())[k] == show(*a)[k]);
        }
        assert(s.subrange(i, i + show(e).len())[show(*a).len() as int] == arith_byte(op));
        lemma_spine(*a, level, (m - 1) as nat, s, i);
        assert(spine_node(e, m) == spine_node(*a, (m - 1) as nat));
        assert(spine_node(e, m + 1) == spine_node(*a, m as nat));
        if m >= 2 {
            assert(spine_node(e, (m - 1) as nat) == spine_node(*a, (m - 2) as nat));
        } else {
            assert(spine_node(e, 0) == e);
            assert(spine_node(*a, 0) == *a);
        }
    }
}

proof fn lemma_level_op_byte(op: ArithOp, level: nat)
    requires
        is_level_op(op, level),
    ensures
        level == 2 ==> arith_byte(op) == 0x2b || arith_byte(op) == 0x2d,
        level == 1 ==> arith_byte(op) == 0x2a || arith_byte(op) == 0x2f,
{
}

/// The operator of `level` written as `c`, if any.
fn level_op(c: u8, level: u8) -> (r: Option<ArithOp>)
    requires
        1 <= level <= 2,
    ensures
        r matches Some(op) ==> arith_byte(op) == c && is_level_op(op, level as nat),
        (level == 2 && (c == 0x2b || c == 0x2d)) || (level == 1 && (c == 0x2a || c == 0x2f))
            ==> r is Some,
{
    if level == 2 {
        if c == 0x2b {
            Some(ArithOp::Add)
        } else if c == 0x2d {
            Some(ArithOp::Sub)
        } else {
            None
        }
    } else {
        if c == 0x2a {
            Some(ArithOp::Mul)
        } else if c == 0x2f {
            Some(ArithOp::Div)
        } else {
            None
        }
    }
}

fn is_var(c: u8) -> (r: bool)
    ensures
        r == is_var_byte(c),
{
    c == 0x6e || c == 0x4e || c == 0x46 || c == 0x54 || c == 0x78 || c == 0x79 || c == 0x7a
        || c == 0x58 || c == 0x59 || c == 0x5a
}

/// Parses the longest expression of `level` that starts at `i` of `s`;
/// returns it with the index after it. Where `target` is an expression of
/// `level` written at `i` and not read on after, the parse ends where it does.
fn parse_expr(s: &[u8], i: usize, level: u8, Ghost(target): Ghost<Option<Expr>>) -> (r: Option<
    (Expr, usize),
>)
    requires
        i <= s@.len(),
        level <= 2,
    ensures
        r matches Some((e, j)) ==> {
            &&& i < j <= s@.len()
            &&& show(e) == s@.subrange(i as int, j as int)
            &&& wf_expr(e, level as nat)
        },
        target matches Some(t) ==> wf_expr(t, level as nat) && written_at(s@, i as int, t)
            && ends_expr(s@, i + show(t).len(), level as nat) ==> (r matches Some((e, j)) && j
            == i + show(t).len()),
    decreases s@.len() - i, level,
{
    let ghost aimed = target matches Some(t) && wf_expr(t, level as nat) && written_at(
        s@,
        i as int,
        t,
    ) && ends_expr(s@, i + show(t).len(), level as nat);
    let ghost t = target->Some_0;
    if level == 0 {
        proof {
            if aimed {
                lemma_show_nonempty(t);
            }
        }
        if i >= s.len() {
            return None;
        }
        let c = s[i];
        proof {
            if aimed {
                assert(s@.subrange(i as int, i + show(t).len())[0] == show(t)[0]);
            }
        }
        if c == 0x2d {
            let ghost inner = match t {
                Expr::Neg(a) => Some(*a),
                _ => None,
            };
            proof {
                if aimed {
                    let a = inner->Some_0;
                    assert(show(t) == seq![0x2du8] + show(a));
                    assert(s@.subrange(i + 1, i + 1 + show(a).len()) =~= show(a)) by {
                        assert(forall|k: int|
                            0 <= k < show(a).len() ==> s@.subrange(i as int, i + show(t).len())[1
                                + k] == show(a)[k]);
                    }
                }
            }
            match parse_expr(s, i + 1, 0, Ghost(inner)) {
                Some((a, j)) => {
                    let e = Expr::Neg(Box::new(a));
                    assert(show(e) =~= s@.subrange(i as int, j as int));
                    Some((e, j))
                },
                None => None,
            }
        } else if c == 0x28 {
            let ghost inner = match t {
                Expr::Paren(a) => Some(*a),
                _ => None,
            };
            proof {
                if aimed {
                    let a = inner->Some_0;
                    assert(show(t) == seq![0x28u8] + show(a) + seq![0x29u8]);
                    assert(s@.subrange(i + 1, i + 1 + show(a).len()) =~= show(a)) by {
                        assert(forall|k: int|
                            0 <= k < show(a).len() ==> s@.subrange(i as int, i + show(t).len())[1
                                + k] == show(a)[k]);
                    }
                    assert(s@.subrange(i as int, i + show(t).len())[1 + show(a).len() as int] == 0x29);
                }
            }
            match parse_expr(s, i + 1, 2, Ghost(inner)) {
                Some((a, j)) => {
                    if j < s.len() && s[j] == 0x29 {
                        let e = Expr::Paren(Box::new(a));
                        assert(show(e) =~= s@.subrange(i as int, j + 1));
                        Some((e, j + 1))
                    } else {
                        None
                    }
                },
                None => None,
            }
        } else if is_var(c) {
            let e = Expr::Var(c);
            assert(show(e) =~= s@.subrange(i as int, i + 1));
            Some((e, i + 1))
        } else {
            let mut j = i;
            let mut digits: Vec<u8> = Vec::new();
            while j < s.len() && ((0x30 <= s[j] && s[j] <= 0x39) || s[j] == 0x2e)
                invariant
                    i <= j <= s@.len(),
                    digits@ == s@.subrange(i as int, j as int),
                    forall|k: int| 0 <= k < digits@.len() ==> is_num_byte(#[trigger] digits@[k]),
                    aimed ==> t is Num && j <= i + show(t).len(),
                    aimed ==> wf_expr(t, 0) && written_at(s@, i as int, t) && ends_expr(
                        s@,
                        i + show(t).len(),
                        0,
                    ),
                decreases s@.len() - j,
            {
                proof {
                    if aimed && j == i + show(t).len() {
                        assert(!is_num_byte(s@[j as int]));
                    }
                }
                digits.push(s[j]);
                j = j + 1;
                assert(digits@ =~= s@.subrange(i as int, j as int));
            }
            proof {
                if aimed && j < i + show(t).len() {
                    let d = t->Num_0;
                    assert(s@.subrange(i as int, i + show(t).len())[j - i] == d@[j - i]);
                    assert(is_num_byte(d@[j - i]));
                }
            }
            if j == i {
                None
            } else {
                Some((Expr::Num(digits), j))
            }
        }
    } else {
        let ghost n = spine_len(t, level as nat);
        proof {
            if aimed {
                lemma_spine(t, level as nat, n, s@, i as int);
            }
        }
        let ghost bottom = spine_node(t, n);
        let ghost first = if aimed {
            Some(bottom)
        } else {
            None
        };
        proof {
            if aimed {
                if n > 0 {
                    lemma_spine(t, level as nat, (n - 1) as nat, s@, i as int);
                }
            }
        }
        let (mut lhs, mut j) = match parse_expr(s, i, level - 1, Ghost(first)) {
            Some(p) => p,
            None => return None,
        };
        proof {
            lemma_wf_expr_up(lhs, (level - 1) as nat);
        }
        let ghost mut left: nat = n;
        proof {
            if aimed && left > 0 {
                lemma_spine(t, level as nat, (left - 1) as nat, s@, i as int);
            }
        }
        while j < s.len()
            invariant
                i < j <= s@.len(),
                1 <= level <= 2,
                show(lhs) == s@.subrange(i as int, j as int),
                wf_expr(lhs, level as nat),
                aimed ==> left <= n && j == i + show(spine_node(t, left)).len(),
                aimed ==> n == spine_len(t, level as nat) && wf_expr(t, level as nat) && written_at(
                    s@,
                    i as int,
                    t,
                ) && ends_expr(s@, i + show(t).len(), level as nat),
                aimed && left > 0 ==> j < s@.len(),
                aimed == (target matches Some(x) && wf_expr(x, level as nat) && written_at(
                    s@,
                    i as int,
                    x,
                ) && ends_expr(s@, i + show(x).len(), level as nat)),
                target matches Some(x) ==> x == t,
            ensures
                aimed ==> left == 0,
            decreases s@.len() - j,
        {
            proof {
                if aimed {
                    lemma_spine(t, level as nat, left, s@, i as int);
                    if left > 0 {
                        lemma_spine(t, level as nat, (left - 1) as nat, s@, i as int);
                        let up = spine_node(t, (left - 1) as nat);
                        lemma_level_op_byte(up->Bin_0, level as nat);
                    } else {
                        assert(spine_node(t, 0) == t);
                    }
                }
            }
            let op = match level_op(s[j], level) {
                Some(op) => op,
                None => break,
            };
            proof {
                if aimed && left == 0 {
                    lemma_level_op_byte(op, level as nat);
                    assert(false);
                }
            }
            let ghost rhs_target = if aimed {
                Some(*spine_node(t, (left - 1) as nat)->Bin_2)
            } else {
                None
            };
            proof {
                if aimed {
                    let up = spine_node(t, (left - 1) as nat);
                    let b = *up->Bin_2;
                    assert(written_at(s@, j + 1, b));
                    if left >= 2 {
                        lemma_spine(t, level as nat, (left - 2) as nat, s@, i as int);
                        lemma_level_op_byte(spine_node(t, (left - 2) as nat)->Bin_0, level as nat);
                    } else {
                        assert(spine_node(t, 0) == t);
                    }
                    assert(i + show(up).len() == j + 1 + show(b).len());
                    assert(ends_expr(s@, j + 1 + show(b).len(), (level - 1) as nat));
                }
            }
            let (rhs, k) = match parse_expr(s, j + 1, level - 1, Ghost(rhs_target)) {
                Some(p) => p,
                None => return None,
            };
            let ghost old_lhs = lhs;
            lhs = Expr::Bin(op, Box::new(lhs), Box::new(rhs));
            assert(show(lhs) =~= s@.subrange(i as int, k as int)) by {
                assert(show(lhs) == show(old_lhs) + seq![arith_byte(op)] + show(rhs));
            }
            j = k;
            proof {
                if aimed {
                    left = (left - 1) as nat;
                    if left > 0 {
                        lemma_spine(t, level as nat, (left - 1) as nat, s@, i as int);
                    }
                }
            }
        }
        proof {
            if aimed {
                assert(spine_node(t, 0) == t);
            }
        }
        Some((lhs, j))
    }
}

/// Parses a whole scalar expression; it succeeds on every text the grammar
/// gives.
pub fn parse_sum(s: &[u8]) -> (r: Option<Expr>)
    ensures
        r matches Some(e) ==> show(e) == s@ && wf_expr(e, 2),
        r is Some <==> is_sum_text(s@),
{
    let ghost target = if exists|e: Expr| wf_expr(e, 2) && show(e) == s@ {
        Some(choose|e: Expr| wf_expr(e, 2) && show(e) == s@)
    } else {
        None
    };
    proof {
        if target is Some {
            assert(s@.subrange(0, show(target->Some_0).len() as int) =~= s@);
        }
    }
    match parse_expr(s, 0, 2, Ghost(target)) {
        Some((e, j)) => {
            if j == s.len() {
                assert(s@.subrange(0, j as int) =~= s@);
                Some(e)
            } else {
                None
            }
        },
        None => None,
    }
}

/// A comparison of two scalar expressions.
#[derive(Debug)]
pub struct Predicate {
    pub op: CmpOp,
    pub lhs: Expr,
    pub rhs: Expr,
}

/// The text of a comparison.
pub open spec fn show_predicate(p: Predicate) -> Seq<u8> {
    show(p.lhs) + cmp_text(p.op) + show(p.rhs)
}

/// Whether `p` is a comparison of two sums.
pub open spec fn wf_predicate(p: Predicate) -> bool {
    wf_expr(p.lhs, 2) && wf_expr(p.rhs, 2)
}

/// The comparison operator written at `j` of `s`, the longer one where two
/// start alike, with the index after it.
fn cmp_at(s: &[u8], j: usize) -> (r: Option<(CmpOp, usize)>)
    requires
        j <= s@.len(),
    ensures
        r matches Some((op, k)) ==> {
            &&& k == j + cmp_text(op).len()
            &&& k <= s@.len()
            &&& s@.subrange(j as int, k as int) == cmp_text(op)
        },
        forall|op: CmpOp|
            j + cmp_text(op).len() <= s@.len() && s@.subrange(
                j as int,
                j + cmp_text(op).len(),
            ) == #[trigger] cmp_text(op) && (j + cmp_text(op).len() < s@.len() ==> s@[j
                + cmp_text(op).len()] != 0x3d) ==> r == Some((op, (j + cmp_text(op).len()) as usize)),
{
    if j >= s.len() {
        return None;
    }
    let c = s[j];
    let eq_next = j + 1 < s.len() && s[j + 1] == 0x3d;
    let r = if c == 0x3d && eq_next {
        Some((CmpOp::Eq, j + 2))
    } else if c == 0x21 && eq_next {
        Some((CmpOp::Ne, j + 2))
    } else if c == 0x3c && eq_next {
        Some((CmpOp::Le, j + 2))
    } else if c == 0x3e && eq_next {
        Some((CmpOp::Ge, j + 2))
    } else if c == 0x3c {
        Some((CmpOp::Lt, j + 1))
    } else if c == 0x3e {
        Some((CmpOp::Gt, j + 1))
    } else {
        None
    };
    proof {
        if let Some((op, k)) = r {
            assert(s@.subrange(j as int, k as int) =~= cmp_text(op));
        }
        assert forall|op: CmpOp|
            j + cmp_text(op).len() <= s@.len() && s@.subrange(j as int, j + cmp_text(op).len())
                == #[trigger] cmp_text(op) && (j + cmp_text(op).len() < s@.len() ==> s@[j
                + cmp_text(op).len()] != 0x3d) implies r == Some(
            (op, (j + cmp_text(op).len()) as usize),
        ) by {
            assert(s@.subrange(j as int, j + cmp_text(op).len())[0] == s@[j as int]);
            if cmp_text(op).len() == 2 {
                assert(s@.subrange(j as int, j + cmp_text(op).len())[1] == s@[j + 1]);
            }
        }
    }
    r
}

/// Parses a whole comparison `sum op sum`; it succeeds on every text the
/// grammar gives.
pub fn parse_predicate(s: &[u8]) -> (r: Option<Predicate>)
    ensures
        r matches Some(p) ==> show_predicate(p) == s@ && wf_predicate(p),
        r is Some <==> is_predicate_text(s@),
{
    let ghost aimed = exists|p: Predicate| wf_predicate(p) && show_predicate(p) == s@;
    let ghost t = choose|p: Predicate| wf_predicate(p) && show_predicate(p) == s@;
    let ghost lhs_len = show(t.lhs).len() as int;
    let ghost op_len = cmp_text(t.op).len() as int;
    proof {
        if aimed {
            lemma_show_nonempty(t.rhs);
            assert(show_predicate(t) == show(t.lhs) + cmp_text(t.op) + show(t.rhs));
            assert(s@.subrange(0, lhs_len) =~= show(t.lhs));
            assert(s@[lhs_len as int] == cmp_text(t.op)[0]);
            assert(s@.subrange(lhs_len as int, lhs_len + op_len) =~= cmp_text(t.op));
            assert(s@[lhs_len + op_len] == show(t.rhs)[0]);
            assert(s@.subrange(lhs_len + op_len, s@.len() as int) =~= show(t.rhs));
        }
    }
    let (lhs, j) = match parse_expr(
        s,
        0,
        2,
        Ghost(
            if aimed {
                Some(t.lhs)
            } else {
                None
            },
        ),
    ) {
        Some(p) => p,
        None => return None,
    };
    let (op, k) = match cmp_at(s, j) {
        Some(p) => p,
        None => return None,
    };
    let (rhs, m) = match parse_expr(
        s,
        k,
        2,
        Ghost(
            if aimed {
                Some(t.rhs)
            } else {
                None
            },
        ),
    ) {
        Some(p) => p,
        None => return None,
    };
    if m != s.len() {
        return None;
    }
    let p = Predicate { op, lhs, rhs };
    assert(show_predicate(p) =~= s@);
    Some(p)
}

/// ASCII whitespace.
pub open spec fn is_space_byte(c: u8) -> bool {
    c == 0x20 || c == 0x09 || c == 0x0a || c == 0x0c || c == 0x0d
}

/// The end of the word that starts at `i` of `s`.
pub open spec fn word_end(s: Seq<u8>, i: int) -> int
    decreases s.len() - i,
{
    if i < 0 || i >= s.len() || is_space_byte(s[i]) {
        i
    } else {
        word_end(s, i + 1)
    }
}

/// The words of `s` from `i` on: its maximal runs without whitespace.
pub open spec fn words_from(s: Seq<u8>, i: int) -> Seq<Seq<u8>>
    decreases s.len() - i
    via words_from_decreases
{
    if i < 0 || i >= s.len() {
        Seq::empty()
    } else if is_space_byte(s[i]) {
        words_from(s, i + 1)
    } else {
        seq![s.subrange(i, word_end(s, i))] + words_from(s, word_end(s, i))
    }
}

#[via_fn]
proof fn words_from_decreases(s: Seq<u8>, i: int) {
    if 0 <= i < s.len() && !is_space_byte(s[i]) {
        lemma_word_end_bounds(s, i + 1);
    }
}

/// The views of a sequence of byte vectors.
pub open spec fn views_of(v: Seq<Vec<u8>>) -> Seq<Seq<u8>> {
    v.map_values(|x: Vec<u8>| x@)
}

proof fn lemma_word_end_bounds(s: Seq<u8>, i: int)
    requires
        0 <= i <= s.len(),
    ensures
        i <= word_end(s, i) <= s.len(),
    decreases s.len() - i,
{
    if i < s.len() && !is_space_byte(s[i]) {
        lemma_word_end_bounds(s, i + 1);
    }
}

fn is_space(c: u8) -> (r: bool)
    ensures
        r == is_space_byte(c),
{
    c == 0x20 || c == 0x09 || c == 0x0a || c == 0x0c || c == 0x0d
}

/// The words of `s`, in order.
pub fn split_words(s: &[u8]) -> (r: Vec<Vec<u8>>)
    ensures
        views_of(r@) == words_from(s@, 0),
{
    let mut out: Vec<Vec<u8>> = Vec::new();
    let mut i: usize = 0;
    while i < s.len()
        invariant
            i <= s@.len(),
            views_of(out@) + words_from(s@, i as int) == words_from(s@, 0),
        decreases s@.len() - i,
    {
        if is_space(s[i]) {
            i = i + 1;
        } else {
            let start = i;
            let mut word: Vec<u8> = Vec::new();
            while i < s.len() && !is_space(s[i])
                invariant
                    start <= i <= s@.len(),
                    word_end(s@, start as int) == word_end(s@, i as int),
                    word@ == s@.subrange(start as int, i as int),
                decreases s@.len() - i,
            {
                word.push(s[i]);
                i = i + 1;
                assert(word@ =~= s@.subrange(start as int, i as int));
            }
            let ghost before = views_of(out@);
            out.push(word);
            assert(views_of(out@) =~= before.push(s@.subrange(start as int, i as int)));
            assert(words_from(s@, start as int) == seq![s@.subrange(start as int, i as int)]
                + words_from(s@, i as int));
            assert(views_of(out@) + words_from(s@, i as int) =~= before + words_from(
                s@,
                start as int,
            ));
        }
    }
    assert(views_of(out@) + words_from(s@, i as int) =~= views_of(out@));
    out
}

/// One tuple of a segment's functions: the bubble's origin, the predicate a
/// speaker must meet, and the gain it then receives.
#[derive(Debug)]
pub struct BubFn {
    pub origin_x: Expr,
    pub origin_y: Expr,
    pub origin_z: Expr,
    pub pred: Predicate,
    pub gain: Expr,
}

/// Whether `f` is the tuple written as the five words `w`.
pub open spec fn bub_fn_written_as(f: BubFn, w: Seq<Seq<u8>>) -> bool {
    &&& w.len() == 5
    &&& show(f.origin_x) == w[0] && wf_expr(f.origin_x, 2)
    &&& show(f.origin_y) == w[1] && wf_expr(f.origin_y, 2)
    &&& show(f.origin_z) == w[2] && wf_expr(f.origin_z, 2)
    &&& show_predicate(f.pred) == w[3] && wf_predicate(f.pred)
    &&& show(f.gain) == w[4] && wf_expr(f.gain, 2)
}

/// Whether `w` is a sum written as text.
pub open spec fn is_sum_text(w: Seq<u8>) -> bool {
    exists|e: Expr| wf_expr(e, 2) && show(e) == w
}

/// Whether `w` is a comparison written as text.
pub open spec fn is_predicate_text(w: Seq<u8>) -> bool {
    exists|p: Predicate| wf_predicate(p) && show_predicate(p) == w
}

/// The `k`-th group of five words of `w`.
pub open spec fn tuple_at(w: Seq<Seq<u8>>, k: int) -> Seq<Seq<u8>> {
    w.subrange(5 * k, 5 * k + 5)
}

/// Whether the five words `w` write a tuple.
pub open spec fn is_tuple_text(w: Seq<Seq<u8>>) -> bool {
    &&& w.len() == 5
    &&& is_sum_text(w[0]) && is_sum_text(w[1]) && is_sum_text(w[2])
    &&& is_predicate_text(w[3])
    &&& is_sum_text(w[4])
}

/// Whether the words `w` write a list of tuples.
pub open spec fn is_bub_fns_text(w: Seq<Seq<u8>>) -> bool {
    &&& w.len() % 5 == 0
    &&& forall|k: int| 0 <= k < w.len() / 5 ==> #[trigger] is_tuple_text(tuple_at(w, k))
}

/// Parses a segment's functions: whitespace-separated words taken five at a
/// time as `ex ey ez pred gain`.
pub fn parse_bub_fns(s: &[u8]) -> (r: Option<Vec<BubFn>>)
    ensures
        r is Some <==> is_bub_fns_text(words_from(s@, 0)),
        r matches Some(fns) ==> {
            let w = words_from(s@, 0);
            &&& w.len() == 5 * fns@.len()
            &&& forall|k: int|
                0 <= k < fns@.len() ==> bub_fn_written_as(
                    #[trigger] fns@[k],
                    w.subrange(5 * k, 5 * k + 5),
                )
        },
{
    let words = split_words(s);
    let ghost w = views_of(words@);
    if words.len() % 5 != 0 {
        return None;
    }
    let mut fns: Vec<BubFn> = Vec::new();
    let mut t: usize = 0;
    while t < words.len() / 5
        invariant
            w == views_of(words@),
            w == words_from(s@, 0),
            words@.len() % 5 == 0,
            t <= words@.len() / 5,
            fns@.len() == t,
            forall|k: int|
                0 <= k < t ==> bub_fn_written_as(#[trigger] fns@[k], w.subrange(5 * k, 5 * k + 5)),
            forall|k: int| 0 <= k < t ==> #[trigger] is_tuple_text(tuple_at(w, k)),
        decreases words@.len() / 5 - t,
    {
        let b = 5 * t;
        proof {
            if is_bub_fns_text(w) {
                assert(is_tuple_text(tuple_at(w, t as int)));
            }
            assert(tuple_at(w, t as int)[0] == words@[b as int]@);
            assert(tuple_at(w, t as int)[1] == words@[b + 1]@);
            assert(tuple_at(w, t as int)[2] == words@[b + 2]@);
            assert(tuple_at(w, t as int)[3] == words@[b + 3]@);
            assert(tuple_at(w, t as int)[4] == words@[b + 4]@);
        }
        let origin_x = match parse_sum(words[b].as_slice()) {
            Some(e) => e,
            None => return None,
        };
        let origin_y = match parse_sum(words[b + 1].as_slice()) {
            Some(e) => e,
            None => return None,
        };
        let origin_z = match parse_sum(words[b + 2].as_slice()) {
            Some(e) => e,
            None => return None,
        };
        let pred = match parse_predicate(words[b + 3].as_slice()) {
            Some(p) => p,
            None => return None,
        };
        let gain = match parse_sum(words[b + 4].as_slice()) {
            Some(e) => e,
            None => return None,
        };
        let f = BubFn { origin_x, origin_y, origin_z, pred, gain };
        assert(w.len() == words@.len());
        assert(w.subrange(5 * t, 5 * t + 5)[0] == words@[b as int]@);
        assert(w.subrange(5 * t, 5 * t + 5)[1] == words@[b + 1]@);
        assert(w.subrange(5 * t, 5 * t + 5)[2] == words@[b + 2]@);
        assert(w.subrange(5 * t, 5 * t + 5)[3] == words@[b + 3]@);
        assert(w.subrange(5 * t, 5 * t + 5)[4] == words@[b + 4]@);
        assert(bub_fn_written_as(f, w.subrange(5 * t, 5 * t + 5)));
        proof {
            let tw = tuple_at(w, t as int);
            assert(wf_expr(f.origin_x, 2) && show(f.origin_x) == tw[0]);
            assert(wf_expr(f.origin_y, 2) && show(f.origin_y) == tw[1]);
            assert(wf_expr(f.origin_z, 2) && show(f.origin_z) == tw[2]);
            assert(wf_predicate(f.pred) && show_predicate(f.pred) == tw[3]);
            assert(wf_expr(f.gain, 2) && show(f.gain) == tw[4]);
            assert(is_tuple_text(tw));
        }
        fns.push(f);
        t = t + 1;
    }
    Some(fns)
}

} // verus!
