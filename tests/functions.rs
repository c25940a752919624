use bubble_codec::functions::{
    parse_bub_fns, parse_predicate, parse_sum, split_words, ArithOp, CmpOp, Expr,
};

fn render(e: &Expr) -> String {
    match e {
        Expr::Num(d) => String::from_utf8(d.clone()).unwrap(),
        Expr::Var(v) => (*v as char).to_string(),
        Expr::Neg(a) => format!("neg({})", render(a)),
        Expr::Paren(a) => format!("paren({})", render(a)),
        Expr::Bin(op, a, b) => {
            let op = match op {
                ArithOp::Add => "add",
                ArithOp::Sub => "sub",
                ArithOp::Mul => "mul",
                ArithOp::Div => "div",
            };
            format!("{}({}, {})", op, render(a), render(b))
        }
    }
}

fn sum(s: &str) -> String {
    render(&parse_sum(s.as_bytes()).unwrap())
}

#[test]
fn products_bind_tighter_than_sums() {
    assert_eq!(sum("1+2*3"), "add(1, mul(2, 3))");
    assert_eq!(sum("1*2+3"), "add(mul(1, 2), 3)");
    assert_eq!(sum("0.1*N"), "mul(0.1, N)");
}

#[test]
fn operators_associate_to_the_left() {
    assert_eq!(sum("1-2-3"), "sub(sub(1, 2), 3)");
    assert_eq!(sum("8/n/2"), "div(div(8, n), 2)");
}

#[test]
fn unary_minus_and_parentheses() {
    assert_eq!(sum("-z"), "neg(z)");
    assert_eq!(sum("-x*2"), "mul(neg(x), 2)");
    assert_eq!(sum("-(1+2)*T"), "mul(neg(paren(add(1, 2))), T)");
    assert_eq!(sum("1/n"), "div(1, n)");
}

#[test]
fn malformed_expressions_are_refused() {
    for s in ["", "1+", "(1", "1)", "q", "1 + 2", "X<3", "*2"] {
        assert!(parse_sum(s.as_bytes()).is_none(), "{}", s);
    }
}

#[test]
fn predicates() {
    let p = parse_predicate(b"X>=3").unwrap();
    assert_eq!(p.op, CmpOp::Ge);
    assert_eq!(render(&p.lhs), "X");
    assert_eq!(render(&p.rhs), "3");
    let p = parse_predicate(b"0==0").unwrap();
    assert_eq!(p.op, CmpOp::Eq);
    let p = parse_predicate(b"Z<1").unwrap();
    assert_eq!(p.op, CmpOp::Lt);
    let p = parse_predicate(b"x+1!=y*2").unwrap();
    assert_eq!(p.op, CmpOp::Ne);
    assert_eq!(render(&p.lhs), "add(x, 1)");
    assert_eq!(render(&p.rhs), "mul(y, 2)");
    assert!(parse_predicate(b"X").is_none());
    assert!(parse_predicate(b"X<").is_none());
    assert!(parse_predicate(b"X<3<4").is_none());
}

#[test]
fn words_are_maximal_runs_without_whitespace() {
    let w = split_words(b"  1 2\t3\nX<3   0.1*N ");
    let w: Vec<&[u8]> = w.iter().map(|v| v.as_slice()).collect();
    assert_eq!(w, vec![&b"1"[..], b"2", b"3", b"X<3", b"0.1*N"]);
    assert!(split_words(b"   ").is_empty());
}

#[test]
fn bub_fns_tuples() {
    let fns = parse_bub_fns(b"1 2 3 X<3 0.1*N 0 0 n X>=3 -z").unwrap();
    assert_eq!(fns.len(), 2);
    assert_eq!(render(&fns[0].origin_x), "1");
    assert_eq!(render(&fns[0].gain), "mul(0.1, N)");
    assert_eq!(render(&fns[1].origin_z), "n");
    assert_eq!(fns[1].pred.op, CmpOp::Ge);
    assert_eq!(render(&fns[1].gain), "neg(z)");
    assert!(parse_bub_fns(b"").unwrap().is_empty());
}

#[test]
fn malformed_bub_fns_are_refused() {
    assert!(parse_bub_fns(b"1 2 3 X<3").is_none());
    assert!(parse_bub_fns(b"1 2 3 X 1").is_none());
    assert!(parse_bub_fns(b"1 2 3 X<3 +").is_none());
}
