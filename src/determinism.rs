use crate::arith::{Arithmetic, BinaryOp, ONE, ZERO};
use crate::env::{lookup_proc, lookup_var, Builtin, Frame};
use crate::eval::{
    abs_rest, binary_op_of, binary_rest, builtin_step, call_frames, call_step, compare_outcome,
    eval_step, first_non_symbol, if_choice, if_rest, lambda_step, let_rest, number_outcome,
    number_step, numbers_step, pass_error, scope_kept, unary_rest, value_then, values_step,
};
use crate::display::shown;
use crate::exp::{LexError, RispErr, RispExp, SExp};
use crate::reader::{lemma_read_deterministic, read_outcome};
use vstd::prelude::*;

verus! {

/// What a failure says, as values.
pub enum Failure {
    Lex(LexError),
    Arity(Seq<char>),
    Type(SExp),
    UndefinedProcedure(Seq<char>),
    NotCallable(SExp),
    TooDeep,
}

/// The value of an error.
pub open spec fn failure(e: RispErr) -> Failure {
    match e {
        RispErr::Lex(l) => Failure::Lex(l),
        RispErr::Arity(s) => Failure::Arity(s@),
        RispErr::Type(v) => Failure::Type(v@),
        RispErr::UndefinedProcedure(s) => Failure::UndefinedProcedure(s@),
        RispErr::NotCallable(v) => Failure::NotCallable(v@),
        RispErr::TooDeep => Failure::TooDeep,
    }
}

/// The value of an evaluation's outcome.
pub open spec fn outcome(r: Result<RispExp, RispErr>) -> Result<SExp, Failure> {
    match r {
        Ok(v) => Ok(v@),
        Err(e) => Err(failure(e)),
    }
}

/// The value of a number evaluation's outcome.
pub open spec fn number_outcome_value(r: Result<u64, RispErr>) -> Result<u64, Failure> {
    match r {
        Ok(n) => Ok(n),
        Err(e) => Err(failure(e)),
    }
}

/// The value of the outcome of evaluating several numbers.
pub open spec fn values_outcome(r: Result<Seq<u64>, RispErr>) -> Result<Seq<u64>, Failure> {
    match r {
        Ok(vals) => Ok(vals),
        Err(e) => Err(failure(e)),
    }
}

/// Reading, evaluating and printing a program is stable: two runs over the
/// same tokens, with the same readings of numbers, the same arithmetic and the
/// same chain of scopes, read the same form, leave the same chain, and end with
/// the same outcome and the same printed value.
pub proof fn lemma_round_trip_stable<A: Arithmetic>(
    arith: A,
    toks: Seq<Seq<char>>,
    nums: Seq<Option<u64>>,
    p1: Result<RispExp, RispErr>,
    p2: Result<RispExp, RispErr>,
    before: Seq<Frame>,
    after1: Seq<Frame>,
    r1: Result<RispExp, RispErr>,
    after2: Seq<Frame>,
    r2: Result<RispExp, RispErr>,
    depth: int,
)
    requires
        read_outcome(p1, toks, nums),
        read_outcome(p2, toks, nums),
        p1 is Ok,
        eval_step(arith, p1->Ok_0@, before, after1, r1, depth),
        p2 is Ok ==> eval_step(arith, p2->Ok_0@, before, after2, r2, depth),
    ensures
        p2 is Ok,
        p1->Ok_0@ == p2->Ok_0@,
        after1 == after2,
        outcome(r1) == outcome(r2),
        r1 is Ok ==> shown(arith, r1->Ok_0@) == shown(arith, r2->Ok_0@),
{
    lemma_read_deterministic(p1, p2, toks, nums);
    lemma_eval_deterministic(arith, p1->Ok_0@, before, after1, r1, after2, r2, depth);
}

/// Evaluation is deterministic: evaluating one expression from one chain of
/// scopes, with one arithmetic, leaves one chain and one outcome.
pub proof fn lemma_eval_deterministic<A: Arithmetic>(
    arith: A,
    x: SExp,
    before: Seq<Frame>,
    after1: Seq<Frame>,
    r1: Result<RispExp, RispErr>,
    after2: Seq<Frame>,
    r2: Result<RispExp, RispErr>,
    depth: int,
)
    requires
        eval_step(arith, x, before, after1, r1, depth),
        eval_step(arith, x, before, after2, r2, depth),
    ensures
        after1 == after2,
        outcome(r1) == outcome(r2),
    decreases depth, 1int, 0int,
{
    if depth > 0 {
        if let SExp::List(items) = x {
            lemma_call_deterministic(arith, items, before, after1, r1, after2, r2, depth);
        }
    }
}

proof fn lemma_call_deterministic<A: Arithmetic>(
    arith: A,
    items: Seq<SExp>,
    before: Seq<Frame>,
    after1: Seq<Frame>,
    r1: Result<RispExp, RispErr>,
    after2: Seq<Frame>,
    r2: Result<RispExp, RispErr>,
    depth: int,
)
    requires
        call_step(arith, items, before, after1, r1, depth),
        call_step(arith, items, before, after2, r2, depth),
    ensures
        after1 == after2,
        outcome(r1) == outcome(r2),
    decreases depth, 0int, 0int,
{
    if depth > 0 && items.len() > 0 {
        if let SExp::Symbol(p) = items[0] {
            match lookup_proc(before, p) {
                Some(b) => {
                    lemma_builtin_deterministic(
                        arith,
                        b,
                        p,
                        items.drop_first(),
                        before,
                        after1,
                        r1,
                        after2,
                        r2,
                        depth - 1,
                    );
                },
                None => {
                    if let Some(SExp::Lambda(params, body)) = lookup_var(before, p) {
                        lemma_lambda_deterministic(
                            arith,
                            p,
                            *params,
                            *body,
                            items.drop_first(),
                            before,
                            after1,
                            r1,
                            after2,
                            r2,
                            depth - 1,
                        );
                    }
                },
            }
        }
    }
}

proof fn lemma_lambda_deterministic<A: Arithmetic>(
    arith: A,
    name: Seq<char>,
    params: SExp,
    body: SExp,
    args: Seq<SExp>,
    before: Seq<Frame>,
    after1: Seq<Frame>,
    r1: Result<RispExp, RispErr>,
    after2: Seq<Frame>,
    r2: Result<RispExp, RispErr>,
    depth: int,
)
    requires
        lambda_step(arith, name, params, body, args, before, after1, r1, depth),
        lambda_step(arith, name, params, body, args, before, after2, r2, depth),
    ensures
        after1 == after2,
        outcome(r1) == outcome(r2),
    decreases depth, 2int, 0int,
{
    if let SExp::List(ps) = params {
        if ps.len() == args.len() && first_non_symbol(ps, 0) is None {
            let frames = call_frames(ps, args, before);
            let i1 = choose|inner: Seq<Frame>|
                #[trigger] scope_kept(frames, inner) && eval_step(arith, body, frames, inner, r1, depth);
            let i2 = choose|inner: Seq<Frame>|
                #[trigger] scope_kept(frames, inner) && eval_step(arith, body, frames, inner, r2, depth);
            lemma_eval_deterministic(arith, body, frames, i1, r1, i2, r2, depth);
        }
    }
}

proof fn lemma_if_rest_deterministic<A: Arithmetic>(
    arith: A,
    args: Seq<SExp>,
    rp1: Result<RispExp, RispErr>,
    rp2: Result<RispExp, RispErr>,
    mid: Seq<Frame>,
    after1: Seq<Frame>,
    r1: Result<RispExp, RispErr>,
    after2: Seq<Frame>,
    r2: Result<RispExp, RispErr>,
    depth: int,
)
    requires
        outcome(rp1) == outcome(rp2),
        if_rest(arith, args, rp1, mid, after1, r1, depth),
        if_rest(arith, args, rp2, mid, after2, r2, depth),
    ensures
        after1 == after2,
        outcome(r1) == outcome(r2),
    decreases depth, 2int, 0int,
{
    assert(if_choice(rp1) == if_choice(rp2));
    if let Some(k) = if_choice(rp1) {
        lemma_eval_deterministic(arith, args[k], mid, after1, r1, after2, r2, depth);
    }
}

proof fn lemma_number_deterministic<A: Arithmetic>(
    arith: A,
    x: SExp,
    before: Seq<Frame>,
    after1: Seq<Frame>,
    r1: Result<u64, RispErr>,
    after2: Seq<Frame>,
    r2: Result<u64, RispErr>,
    depth: int,
)
    requires
        number_step(arith, x, before, after1, r1, depth),
        number_step(arith, x, before, after2, r2, depth),
    ensures
        after1 == after2,
        number_outcome_value(r1) == number_outcome_value(r2),
    decreases depth, 2int, 0int,
{
    if !(x is Number) {
        let v1 = choose|rv: Result<RispExp, RispErr>|
            #[trigger] number_outcome(rv, x, r1) && eval_step(arith, x, before, after1, rv, depth);
        let v2 = choose|rv: Result<RispExp, RispErr>|
            #[trigger] number_outcome(rv, x, r2) && eval_step(arith, x, before, after2, rv, depth);
        lemma_eval_deterministic(arith, x, before, after1, v1, after2, v2, depth);
    }
}

proof fn lemma_numbers_deterministic<A: Arithmetic>(
    arith: A,
    args: Seq<SExp>,
    k: int,
    op: BinaryOp,
    acc: u64,
    minuend: Option<u64>,
    before: Seq<Frame>,
    after1: Seq<Frame>,
    r1: Result<RispExp, RispErr>,
    after2: Seq<Frame>,
    r2: Result<RispExp, RispErr>,
    depth: int,
)
    requires
        numbers_step(arith, args, k, op, acc, minuend, before, after1, r1, depth),
        numbers_step(arith, args, k, op, acc, minuend, before, after2, r2, depth),
    ensures
        after1 == after2,
        outcome(r1) == outcome(r2),
    decreases depth, 3int, args.len() - k,
{
    if !(k < 0 || k >= args.len()) {
        let (m1, x1) = choose|mid: Seq<Frame>, rx: Result<u64, RispErr>|
            #![trigger scope_kept(before, mid), pass_error(rx, r1)]
            scope_kept(before, mid) && pass_error(rx, r1) && number_step(arith, args[k], before, mid, rx, depth)
                && if rx is Ok {
                numbers_step(arith, args, k + 1, op, arith.binary_spec(op, acc, rx->Ok_0), minuend, mid, after1, r1, depth)
            } else {
                after1 == mid
            };
        let (m2, x2) = choose|mid: Seq<Frame>, rx: Result<u64, RispErr>|
            #![trigger scope_kept(before, mid), pass_error(rx, r2)]
            scope_kept(before, mid) && pass_error(rx, r2) && number_step(arith, args[k], before, mid, rx, depth)
                && if rx is Ok {
                numbers_step(arith, args, k + 1, op, arith.binary_spec(op, acc, rx->Ok_0), minuend, mid, after2, r2, depth)
            } else {
                after2 == mid
            };
        lemma_number_deterministic(arith, args[k], before, m1, x1, m2, x2, depth);
        if x1 is Ok {
            lemma_numbers_deterministic(
                arith,
                args,
                k + 1,
                op,
                arith.binary_spec(op, acc, x1->Ok_0),
                minuend,
                m1,
                after1,
                r1,
                after2,
                r2,
                depth,
            );
        }
    }
}

proof fn lemma_values_deterministic<A: Arithmetic>(
    arith: A,
    args: Seq<SExp>,
    k: int,
    before: Seq<Frame>,
    after1: Seq<Frame>,
    r1: Result<Seq<u64>, RispErr>,
    after2: Seq<Frame>,
    r2: Result<Seq<u64>, RispErr>,
    depth: int,
)
    requires
        values_step(arith, args, k, before, after1, r1, depth),
        values_step(arith, args, k, before, after2, r2, depth),
    ensures
        after1 == after2,
        values_outcome(r1) == values_outcome(r2),
    decreases depth, 3int, args.len() - k,
{
    if !(k < 0 || k >= args.len()) {
        let (m1, x1, s1) = choose|mid: Seq<Frame>, rx: Result<u64, RispErr>, rest: Result<Seq<u64>, RispErr>|
            #![trigger scope_kept(before, mid), value_then(rx, rest, r1)]
            scope_kept(before, mid) && value_then(rx, rest, r1) && number_step(arith, args[k], before, mid, rx, depth)
                && if rx is Ok {
                values_step(arith, args, k + 1, mid, after1, rest, depth)
            } else {
                after1 == mid
            };
        let (m2, x2, s2) = choose|mid: Seq<Frame>, rx: Result<u64, RispErr>, rest: Result<Seq<u64>, RispErr>|
            #![trigger scope_kept(before, mid), value_then(rx, rest, r2)]
            scope_kept(before, mid) && value_then(rx, rest, r2) && number_step(arith, args[k], before, mid, rx, depth)
                && if rx is Ok {
                values_step(arith, args, k + 1, mid, after2, rest, depth)
            } else {
                after2 == mid
            };
        lemma_number_deterministic(arith, args[k], before, m1, x1, m2, x2, depth);
        if x1 is Ok {
            lemma_values_deterministic(arith, args, k + 1, m1, after1, s1, after2, s2, depth);
        }
    }
}

proof fn lemma_builtin_deterministic<A: Arithmetic>(
    arith: A,
    b: Builtin,
    name: Seq<char>,
    args: Seq<SExp>,
    before: Seq<Frame>,
    after1: Seq<Frame>,
    r1: Result<RispExp, RispErr>,
    after2: Seq<Frame>,
    r2: Result<RispExp, RispErr>,
    depth: int,
)
    requires
        builtin_step(arith, b, name, args, before, after1, r1, depth),
        builtin_step(arith, b, name, args, before, after2, r2, depth),
    ensures
        after1 == after2,
        outcome(r1) == outcome(r2),
    decreases depth, 4int, 0int,
{
    match b {
        Builtin::If => {
            if args.len() >= 3 {
                let (m1, p1) = choose|mid: Seq<Frame>, rp: Result<RispExp, RispErr>|
                    #![trigger scope_kept(before, mid), if_choice(rp)]
                    scope_kept(before, mid) && eval_step(arith, args[0], before, mid, rp, depth)
                        && if_rest(arith, args, rp, mid, after1, r1, depth);
                let (m2, p2) = choose|mid: Seq<Frame>, rp: Result<RispExp, RispErr>|
                    #![trigger scope_kept(before, mid), if_choice(rp)]
                    scope_kept(before, mid) && eval_step(arith, args[0], before, mid, rp, depth)
                        && if_rest(arith, args, rp, mid, after2, r2, depth);
                lemma_eval_deterministic(arith, args[0], before, m1, p1, m2, p2, depth);
                lemma_if_rest_deterministic(arith, args, p1, p2, m1, after1, r1, after2, r2, depth);
            }
        },
        Builtin::Let => {
            if args.len() >= 2 && args[0] is Symbol {
                let s = args[0]->Symbol_0;
                let (m1, v1) = choose|mid: Seq<Frame>, rv: Result<RispExp, RispErr>|
                    #[trigger] let_rest(s, rv, mid, after1, r1) && eval_step(arith, args[1], before, mid, rv, depth);
                let (m2, v2) = choose|mid: Seq<Frame>, rv: Result<RispExp, RispErr>|
                    #[trigger] let_rest(s, rv, mid, after2, r2) && eval_step(arith, args[1], before, mid, rv, depth);
                lemma_eval_deterministic(arith, args[1], before, m1, v1, m2, v2, depth);
            }
        },
        Builtin::Add => {
            lemma_numbers_deterministic(arith, args, 0, BinaryOp::Add, ZERO, None, before, after1, r1, after2, r2, depth);
        },
        Builtin::Mul => {
            lemma_numbers_deterministic(arith, args, 0, BinaryOp::Mul, ONE, None, before, after1, r1, after2, r2, depth);
        },
        Builtin::Sub => {
            if args.len() >= 2 {
                let (m1, x1) = choose|mid: Seq<Frame>, rx: Result<u64, RispErr>|
                    #![trigger scope_kept(before, mid), pass_error(rx, r1)]
                    scope_kept(before, mid) && pass_error(rx, r1) && number_step(arith, args[0], before, mid, rx, depth)
                        && if rx is Ok {
                        numbers_step(arith, args, 1, BinaryOp::Add, ZERO, Some(rx->Ok_0), mid, after1, r1, depth)
                    } else {
                        after1 == mid
                    };
                let (m2, x2) = choose|mid: Seq<Frame>, rx: Result<u64, RispErr>|
                    #![trigger scope_kept(before, mid), pass_error(rx, r2)]
                    scope_kept(before, mid) && pass_error(rx, r2) && number_step(arith, args[0], before, mid, rx, depth)
                        && if rx is Ok {
                        numbers_step(arith, args, 1, BinaryOp::Add, ZERO, Some(rx->Ok_0), mid, after2, r2, depth)
                    } else {
                        after2 == mid
                    };
                lemma_number_deterministic(arith, args[0], before, m1, x1, m2, x2, depth);
                if x1 is Ok {
                    lemma_numbers_deterministic(arith, args, 1, BinaryOp::Add, ZERO, Some(x1->Ok_0), m1, after1, r1, after2, r2, depth);
                }
            }
        },
        Builtin::Div | Builtin::Pow => {
            if args.len() == 2 {
                let op = binary_op_of(b);
                let (m1, x1, y1) = choose|mid: Seq<Frame>, rx: Result<u64, RispErr>, ry: Result<u64, RispErr>|
                    #[trigger] binary_rest(arith, op, rx, ry, mid, r1) && number_step(arith, args[0], before, mid, rx, depth)
                        && if rx is Ok {
                        number_step(arith, args[1], mid, after1, ry, depth)
                    } else {
                        after1 == mid
                    };
                let (m2, x2, y2) = choose|mid: Seq<Frame>, rx: Result<u64, RispErr>, ry: Result<u64, RispErr>|
                    #[trigger] binary_rest(arith, op, rx, ry, mid, r2) && number_step(arith, args[0], before, mid, rx, depth)
                        && if rx is Ok {
                        number_step(arith, args[1], mid, after2, ry, depth)
                    } else {
                        after2 == mid
                    };
                lemma_number_deterministic(arith, args[0], before, m1, x1, m2, x2, depth);
                if x1 is Ok {
                    lemma_number_deterministic(arith, args[1], m1, after1, y1, after2, y2, depth);
                }
            }
        },
        Builtin::Unary(op) => {
            if args.len() == 1 {
                let x1 = choose|rx: Result<u64, RispErr>|
                    #[trigger] unary_rest(arith, op, rx, r1) && number_step(arith, args[0], before, after1, rx, depth);
                let x2 = choose|rx: Result<u64, RispErr>|
                    #[trigger] unary_rest(arith, op, rx, r2) && number_step(arith, args[0], before, after2, rx, depth);
                lemma_number_deterministic(arith, args[0], before, after1, x1, after2, x2, depth);
            }
        },
        Builtin::Abs => {
            if args.len() == 1 {
                let x1 = choose|rx: Result<u64, RispErr>|
                    #[trigger] abs_rest(rx, r1) && number_step(arith, args[0], before, after1, rx, depth);
                let x2 = choose|rx: Result<u64, RispErr>|
                    #[trigger] abs_rest(rx, r2) && number_step(arith, args[0], before, after2, rx, depth);
                lemma_number_deterministic(arith, args[0], before, after1, x1, after2, x2, depth);
            }
        },
        Builtin::Gt | Builtin::Gte => {
            if args.len() > 0 {
                let v1 = choose|rv: Result<Seq<u64>, RispErr>|
                    #[trigger] compare_outcome(b is Gt, rv, r1) && values_step(arith, args, 0, before, after1, rv, depth);
                let v2 = choose|rv: Result<Seq<u64>, RispErr>|
                    #[trigger] compare_outcome(b is Gt, rv, r2) && values_step(arith, args, 0, before, after2, rv, depth);
                lemma_values_deterministic(arith, args, 0, before, after1, v1, after2, v2, depth);
            }
        },
        _ => {},
    }
}

} // verus!
