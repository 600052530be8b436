use crate::arith::{abs_bits, number_abs, Arithmetic, BinaryOp, UnaryOp, ONE, ZERO};
use crate::env::{lookup_proc, lookup_var, with_vars, Builtin, Frame, RispEnv};
use crate::exp::{compare, exp_order, number_order, compare_numbers, same, RispErr, RispExp, SExp};
use core::cmp::Ordering;
use vstd::prelude::*;

verus! {

/// How deep evaluation may nest before it stops with `RispErr::TooDeep`.
pub const MAX_DEPTH: u64 = 512;

/// The values of a sequence of expressions.
pub open spec fn views(s: Seq<RispExp>) -> Seq<SExp> {
    s.map_values(|e: RispExp| e@)
}

/// `r` succeeds with the value `v`.
pub open spec fn ok_with(r: Result<RispExp, RispErr>, v: SExp) -> bool {
    r is Ok && r->Ok_0@ == v
}

/// `r` fails with a wrong number of arguments for `name`.
pub open spec fn arity_error(r: Result<RispExp, RispErr>, name: Seq<char>) -> bool {
    r is Err && r->Err_0 is Arity && r->Err_0->Arity_0@ == name
}

/// `r` fails because `v` is not of the kind expected.
pub open spec fn type_error(r: Result<RispExp, RispErr>, v: SExp) -> bool {
    r is Err && r->Err_0 is Type && r->Err_0->Type_0@ == v
}

/// Evaluation changes at most the variables of the innermost scope.
pub open spec fn scope_kept(before: Seq<Frame>, after: Seq<Frame>) -> bool {
    &&& after.len() == before.len()
    &&& before.len() >= 1
    &&& after.drop_first() == before.drop_first()
    &&& after[0].procs == before[0].procs
}

proof fn lemma_kept_trans(a: Seq<Frame>, b: Seq<Frame>, c: Seq<Frame>)
    requires
        scope_kept(a, b),
        scope_kept(b, c),
    ensures
        scope_kept(a, c),
{
}

proof fn lemma_with_vars_kept(f: Seq<Frame>, vars: Map<Seq<char>, SExp>)
    requires
        f.len() >= 1,
    ensures
        scope_kept(f, with_vars(f, vars)),
        with_vars(f, vars)[0].vars == vars,
{
    assert(with_vars(f, vars).drop_first() =~= f.drop_first());
}

/// `a` is below `b` in the structural order.
pub open spec fn below(a: SExp, b: SExp) -> bool {
    compare(a, b) == Some(Ordering::Less)
}

/// `a` is below or equal to `b` in the structural order.
pub open spec fn at_most(a: SExp, b: SExp) -> bool {
    compare(a, b) == Some(Ordering::Less) || compare(a, b) == Some(Ordering::Equal)
}

/// What `=` returns for raw arguments `args`: every later argument is
/// structurally equal to the first.
pub open spec fn all_same(args: Seq<SExp>) -> bool {
    forall|k: int| 1 <= k < args.len() ==> same(args[0], #[trigger] args[k])
}

/// What `<` returns for raw arguments `args`: the first is below each later one.
pub open spec fn all_below(args: Seq<SExp>) -> bool {
    forall|k: int| 1 <= k < args.len() ==> below(args[0], #[trigger] args[k])
}

/// What `<=` returns for raw arguments `args`.
pub open spec fn all_at_most(args: Seq<SExp>) -> bool {
    forall|k: int| 1 <= k < args.len() ==> at_most(args[0], #[trigger] args[k])
}

/// What `>` returns for the numbers `vals` of its arguments: the first is
/// above each later one.
pub open spec fn exceeds_rest(vals: Seq<u64>) -> bool {
    forall|k: int|
        1 <= k < vals.len() ==> compare_numbers(vals[0], #[trigger] vals[k]) == Some(
            Ordering::Greater,
        )
}

/// What `>=` returns for the numbers `vals` of its arguments: the first is
/// above or equal to each later one.
pub open spec fn reaches_rest(vals: Seq<u64>) -> bool {
    forall|k: int|
        1 <= k < vals.len() ==> {
            let o = compare_numbers(vals[0], #[trigger] vals[k]);
            o == Some(Ordering::Greater) || o == Some(Ordering::Equal)
        }
}

/// `vals` with `n` in front, or the same error.
pub open spec fn prepend(n: u64, r: Result<Seq<u64>, RispErr>) -> Result<Seq<u64>, RispErr> {
    match r {
        Ok(vals) => Ok(seq![n] + vals),
        Err(e) => Err(e),
    }
}

/// `prefix` followed by the numbers of `r`, or the same error.
pub open spec fn after_prefix(prefix: Seq<u64>, r: Result<Seq<u64>, RispErr>) -> Result<
    Seq<u64>,
    RispErr,
> {
    match r {
        Ok(vals) => Ok(prefix + vals),
        Err(e) => Err(e),
    }
}

/// The numbers from one operand on, given what the operand gave (`rx`) and
/// what the later ones gave (`rest`).
pub open spec fn value_then(
    rx: Result<u64, RispErr>,
    rest: Result<Seq<u64>, RispErr>,
    r: Result<Seq<u64>, RispErr>,
) -> bool {
    match rx {
        Ok(n) => r == prepend(n, rest),
        Err(e) => r == Err::<Seq<u64>, RispErr>(e),
    }
}

/// How `>` (`strict`) or `>=` ends once its arguments gave `rv`.
pub open spec fn compare_outcome(
    strict: bool,
    rv: Result<Seq<u64>, RispErr>,
    r: Result<RispExp, RispErr>,
) -> bool {
    match rv {
        Ok(vals) => ok_with(
            r,
            SExp::Bool(
                if strict {
                    exceeds_rest(vals)
                } else {
                    reaches_rest(vals)
                },
            ),
        ),
        Err(e) => r == Err::<RispExp, RispErr>(e),
    }
}

/// Which branch of `if` a predicate result selects: 1 for `true`, 2 for
/// `false`, none for anything else.
pub open spec fn if_choice(rp: Result<RispExp, RispErr>) -> Option<int> {
    match rp {
        Ok(v) => match v@ {
            SExp::Bool(true) => Some(1),
            SExp::Bool(false) => Some(2),
            _ => None,
        },
        Err(_) => None,
    }
}

/// How `if` goes on once its predicate has given `rp`, with the chain at
/// `mid`: a boolean selects the branch that is evaluated, anything else is a
/// type error.
pub open spec fn if_rest<A: Arithmetic>(
    arith: A,
    args: Seq<SExp>,
    rp: Result<RispExp, RispErr>,
    mid: Seq<Frame>,
    after: Seq<Frame>,
    r: Result<RispExp, RispErr>,
    depth: int,
) -> bool
    decreases depth, 2int, 0int,
{
    match if_choice(rp) {
        Some(k) => eval_step(arith, args[k], mid, after, r, depth),
        None => after == mid && match rp {
            Ok(v) => type_error(r, v@),
            Err(_) => r == rp,
        },
    }
}

/// How `let`, binding `name`, goes on once its value expression has given
/// `rv`, with the chain at `mid`: the value is bound in the innermost scope.
pub open spec fn let_rest(
    name: Seq<char>,
    rv: Result<RispExp, RispErr>,
    mid: Seq<Frame>,
    after: Seq<Frame>,
    r: Result<RispExp, RispErr>,
) -> bool {
    &&& r == rv
    &&& match rv {
        Ok(v) => after == with_vars(mid, mid[0].vars.insert(name, v@)),
        Err(_) => after == mid,
    }
}

/// How the builtin for `op` goes on once its operand gave `rx`: with a
/// number it yields `op` of it, and an error is passed on.
pub open spec fn unary_rest<A: Arithmetic>(
    arith: A,
    op: UnaryOp,
    rx: Result<u64, RispErr>,
    r: Result<RispExp, RispErr>,
) -> bool {
    match rx {
        Ok(n) => ok_with(r, SExp::Number(arith.unary_spec(op, n))),
        Err(e) => r == Err::<RispExp, RispErr>(e),
    }
}

/// The number a fold ends with: the accumulated value, or `minuend` minus it.
pub open spec fn fold_result<A: Arithmetic>(arith: A, acc: u64, minuend: Option<u64>) -> u64 {
    match minuend {
        Some(x) => arith.binary_spec(BinaryOp::Sub, x, acc),
        None => acc,
    }
}

/// An error of an operand is the error of the whole call.
pub open spec fn pass_error(rx: Result<u64, RispErr>, r: Result<RispExp, RispErr>) -> bool {
    match rx {
        Err(e) => r == Err::<RispExp, RispErr>(e),
        Ok(_) => true,
    }
}

/// What evaluating `args[k]`, `args[k + 1]`, ... for numbers, one after the
/// other, and folding them into `acc` with `op` does: the first error ends the
/// call, and otherwise it yields `fold_result` of the fold.
pub open spec fn numbers_step<A: Arithmetic>(
    arith: A,
    args: Seq<SExp>,
    k: int,
    op: BinaryOp,
    acc: u64,
    minuend: Option<u64>,
    before: Seq<Frame>,
    after: Seq<Frame>,
    r: Result<RispExp, RispErr>,
    depth: int,
) -> bool
    decreases depth, 3int, args.len() - k,
{
    if k < 0 || k >= args.len() {
        ok_with(r, SExp::Number(fold_result(arith, acc, minuend))) && after == before
    } else {
        exists|mid: Seq<Frame>, rx: Result<u64, RispErr>|
            #![trigger scope_kept(before, mid), pass_error(rx, r)]
            scope_kept(before, mid) && pass_error(rx, r) && number_step(arith, 
                args[k],
                before,
                mid,
                rx,
                depth,
            ) && if rx is Ok {
                numbers_step(
                    arith,
                    args,
                    k + 1,
                    op,
                    arith.binary_spec(op, acc, rx->Ok_0),
                    minuend,
                    mid,
                    after,
                    r,
                    depth,
                )
            } else {
                after == mid
            }
    }
}

/// What evaluating `args[k]`, `args[k + 1]`, ... to numbers, one after the
/// other, gives: their numbers, or the first error.
pub open spec fn values_step<A: Arithmetic>(
    arith: A,
    args: Seq<SExp>,
    k: int,
    before: Seq<Frame>,
    after: Seq<Frame>,
    r: Result<Seq<u64>, RispErr>,
    depth: int,
) -> bool
    decreases depth, 3int, args.len() - k,
{
    if k < 0 || k >= args.len() {
        r == Ok::<Seq<u64>, RispErr>(Seq::empty()) && after == before
    } else {
        exists|mid: Seq<Frame>, rx: Result<u64, RispErr>, rest: Result<Seq<u64>, RispErr>|
            #![trigger scope_kept(before, mid), value_then(rx, rest, r)]
            scope_kept(before, mid) && value_then(rx, rest, r) && number_step(arith, 
                args[k],
                before,
                mid,
                rx,
                depth,
            ) && if rx is Ok {
                values_step(arith, args, k + 1, mid, after, rest, depth)
            } else {
                after == mid
            }
    }
}

/// How `abs` goes on once its operand gave `rx`.
pub open spec fn abs_rest(rx: Result<u64, RispErr>, r: Result<RispExp, RispErr>) -> bool {
    match rx {
        Ok(n) => ok_with(r, SExp::Number(abs_bits(n))),
        Err(e) => r == Err::<RispExp, RispErr>(e),
    }
}

/// How the builtin for `op` on two operands goes on once they gave `rx` and
/// `ry`, the first leaving the chain at `mid`: an error is passed on, and with
/// two numbers it yields `op` of them.
pub open spec fn binary_rest<A: Arithmetic>(
    arith: A,
    op: BinaryOp,
    rx: Result<u64, RispErr>,
    ry: Result<u64, RispErr>,
    mid: Seq<Frame>,
    r: Result<RispExp, RispErr>,
) -> bool {
    match rx {
        Err(e) => r == Err::<RispExp, RispErr>(e),
        Ok(x) => match ry {
            Err(e) => r == Err::<RispExp, RispErr>(e),
            Ok(y) => ok_with(r, SExp::Number(arith.binary_spec(op, x, y))),
        },
    }
}

/// The operation of `/` or `pow`.
pub open spec fn binary_op_of(b: Builtin) -> BinaryOp {
    if b is Div {
        BinaryOp::Div
    } else {
        BinaryOp::Pow
    }
}

/// What a call of builtin `b`, under the name `name`, on raw arguments
/// `args` does, evaluating with `depth` levels of nesting left. `before` and
/// `after` are the environment chain before and after the call. Results of
/// the arithmetic are left open.
pub open spec fn builtin_step<A: Arithmetic>(
    arith: A,
    b: Builtin,
    name: Seq<char>,
    args: Seq<SExp>,
    before: Seq<Frame>,
    after: Seq<Frame>,
    r: Result<RispExp, RispErr>,
    depth: int,
) -> bool
    decreases depth, 4int, 0int,
{
    match b {
        Builtin::If => if args.len() < 3 {
            arity_error(r, name) && after == before
        } else {
            exists|mid: Seq<Frame>, rp: Result<RispExp, RispErr>|
                #![trigger scope_kept(before, mid), if_choice(rp)]
                scope_kept(before, mid) && eval_step(arith, args[0], before, mid, rp, depth) && if_rest(arith, 
                    args,
                    rp,
                    mid,
                    after,
                    r,
                    depth,
                )
        },
        Builtin::Let => if args.len() < 2 {
            arity_error(r, name) && after == before
        } else if !(args[0] is Symbol) {
            type_error(r, args[0]) && after == before
        } else {
            exists|mid: Seq<Frame>, rv: Result<RispExp, RispErr>|
                #[trigger] let_rest(args[0]->Symbol_0, rv, mid, after, r) && eval_step(arith, 
                    args[1],
                    before,
                    mid,
                    rv,
                    depth,
                )
        },
        Builtin::Fn => after == before && if args.len() == 2 {
            ok_with(r, SExp::Lambda(Box::new(args[0]), Box::new(args[1])))
        } else {
            arity_error(r, name)
        },
        Builtin::Add => numbers_step(
            arith,
            args,
            0,
            BinaryOp::Add,
            ZERO,
            None,
            before,
            after,
            r,
            depth,
        ),
        Builtin::Mul => numbers_step(
            arith,
            args,
            0,
            BinaryOp::Mul,
            ONE,
            None,
            before,
            after,
            r,
            depth,
        ),
        Builtin::Sub => if args.len() < 2 {
            arity_error(r, name) && after == before
        } else {
            exists|mid: Seq<Frame>, rx: Result<u64, RispErr>|
                #![trigger scope_kept(before, mid), pass_error(rx, r)]
                scope_kept(before, mid) && pass_error(rx, r) && number_step(
                    arith,
                    args[0],
                    before,
                    mid,
                    rx,
                    depth,
                ) && if rx is Ok {
                    numbers_step(
                        arith,
                        args,
                        1,
                        BinaryOp::Add,
                        ZERO,
                        Some(rx->Ok_0),
                        mid,
                        after,
                        r,
                        depth,
                    )
                } else {
                    after == mid
                }
        },
        Builtin::Div | Builtin::Pow => if args.len() != 2 {
            arity_error(r, name) && after == before
        } else {
            exists|mid: Seq<Frame>, rx: Result<u64, RispErr>, ry: Result<u64, RispErr>|
                #[trigger] binary_rest(arith, binary_op_of(b), rx, ry, mid, r) && number_step(arith, 
                    args[0],
                    before,
                    mid,
                    rx,
                    depth,
                ) && if rx is Ok {
                    number_step(arith, args[1], mid, after, ry, depth)
                } else {
                    after == mid
                }
        },
        Builtin::Unary(op) => if args.len() != 1 {
            arity_error(r, name) && after == before
        } else {
            exists|rx: Result<u64, RispErr>|
                #[trigger] unary_rest(arith, op, rx, r) && number_step(arith, args[0], before, after, rx, depth)
        },
        Builtin::Abs => if args.len() != 1 {
            arity_error(r, name) && after == before
        } else {
            exists|rx: Result<u64, RispErr>|
                #[trigger] abs_rest(rx, r) && number_step(arith, args[0], before, after, rx, depth)
        },
        Builtin::Eq => after == before && if args.len() == 0 {
            arity_error(r, name)
        } else {
            ok_with(r, SExp::Bool(all_same(args)))
        },
        Builtin::Neq => after == before && if args.len() == 0 {
            arity_error(r, name)
        } else {
            ok_with(r, SExp::Bool(!all_same(args)))
        },
        Builtin::Lt => after == before && if args.len() == 0 {
            arity_error(r, name)
        } else {
            ok_with(r, SExp::Bool(all_below(args)))
        },
        Builtin::Lte => after == before && if args.len() == 0 {
            arity_error(r, name)
        } else {
            ok_with(r, SExp::Bool(all_at_most(args)))
        },
        Builtin::Gt | Builtin::Gte => if args.len() == 0 {
            arity_error(r, name) && after == before
        } else {
            exists|rv: Result<Seq<u64>, RispErr>|
                #[trigger] compare_outcome(b is Gt, rv, r) && values_step(arith, 
                    args,
                    0,
                    before,
                    after,
                    rv,
                    depth,
                )
        },
    }
}

/// The position of the first parameter that is not a symbol, if any.
pub open spec fn first_non_symbol(params: Seq<SExp>, k: int) -> Option<int>
    decreases params.len() - k,
{
    if k < 0 || k >= params.len() {
        None
    } else if !(params[k] is Symbol) {
        Some(k)
    } else {
        first_non_symbol(params, k + 1)
    }
}

/// The first `n` parameters bound to their raw arguments, later bindings
/// replacing earlier ones of the same name.
pub open spec fn bound_params(params: Seq<SExp>, args: Seq<SExp>, n: int) -> Map<Seq<char>, SExp>
    decreases n,
{
    if n <= 0 {
        Map::empty()
    } else {
        bound_params(params, args, n - 1).insert(params[n - 1]->Symbol_0, args[n - 1])
    }
}

/// The chain in which a lambda's body runs: a new scope that binds its
/// parameters to the raw arguments, nested in the caller's chain.
pub open spec fn call_frames(params: Seq<SExp>, args: Seq<SExp>, caller: Seq<Frame>) -> Seq<
    Frame,
> {
    seq![Frame { vars: bound_params(params, args, params.len() as int), procs: Map::empty() }]
        + caller
}

/// What applying the lambda `(params, body)`, bound to `name`, to raw
/// arguments `args` does: the parameters must be a list of symbols as long as
/// the arguments, and the body is evaluated in `call_frames`. The caller's
/// chain is left as it was.
pub open spec fn lambda_step<A: Arithmetic>(
    arith: A,
    name: Seq<char>,
    params: SExp,
    body: SExp,
    args: Seq<SExp>,
    before: Seq<Frame>,
    after: Seq<Frame>,
    r: Result<RispExp, RispErr>,
    depth: int,
) -> bool
    decreases depth, 2int, 0int,
{
    &&& after == before
    &&& match params {
        SExp::List(ps) => if ps.len() != args.len() {
            arity_error(r, name)
        } else if first_non_symbol(ps, 0) is Some {
            type_error(r, ps[first_non_symbol(ps, 0)->Some_0])
        } else {
            exists|inner: Seq<Frame>|
                #[trigger] scope_kept(call_frames(ps, args, before), inner) && eval_step(arith, 
                    body,
                    call_frames(ps, args, before),
                    inner,
                    r,
                    depth,
                )
        },
        _ => type_error(r, params),
    }
}

/// What evaluating `x` for a number does: a number literal is its own value;
/// anything else is evaluated, and a result other than a number is a type
/// error that names `x`.
pub open spec fn number_step<A: Arithmetic>(
    arith: A,
    x: SExp,
    before: Seq<Frame>,
    after: Seq<Frame>,
    r: Result<u64, RispErr>,
    depth: int,
) -> bool
    decreases depth, 2int, 0int,
{
    match x {
        SExp::Number(n) => r == Ok::<u64, RispErr>(n) && after == before,
        _ => exists|rv: Result<RispExp, RispErr>|
            #[trigger] number_outcome(rv, x, r) && eval_step(arith, x, before, after, rv, depth),
    }
}

/// `r` is what evaluating `x` for a number gives when its evaluation gave
/// `rv`: the number, a type error naming `x`, or the same error.
pub open spec fn number_outcome(rv: Result<RispExp, RispErr>, x: SExp, r: Result<u64, RispErr>) -> bool {
    match rv {
        Ok(v) => match v@ {
            SExp::Number(n) => r == Ok::<u64, RispErr>(n),
            _ => r is Err && r->Err_0 is Type && r->Err_0->Type_0@ == x,
        },
        Err(e) => r == Err::<u64, RispErr>(e),
    }
}

/// What evaluating a list form `items` does: the head must be a symbol that
/// names a builtin, or else a lambda; the arguments are handed over raw.
pub open spec fn call_step<A: Arithmetic>(
    arith: A,
    items: Seq<SExp>,
    before: Seq<Frame>,
    after: Seq<Frame>,
    r: Result<RispExp, RispErr>,
    depth: int,
) -> bool
    decreases depth, 0int, 0int,
{
    if depth <= 0 {
        false
    } else if items.len() == 0 {
        arity_error(r, Seq::empty()) && after == before
    } else {
        match items[0] {
            SExp::Symbol(p) => match lookup_proc(before, p) {
                Some(b) => builtin_step(arith, b, p, items.drop_first(), before, after, r, depth - 1),
                None => match lookup_var(before, p) {
                    Some(SExp::Lambda(params, body)) => lambda_step(arith, 
                        p,
                        *params,
                        *body,
                        items.drop_first(),
                        before,
                        after,
                        r,
                        depth - 1,
                    ),
                    _ => after == before && r is Err && r->Err_0 is UndefinedProcedure
                        && r->Err_0->UndefinedProcedure_0@ == p,
                },
            },
            _ => after == before && r is Err && r->Err_0 is NotCallable
                && r->Err_0->NotCallable_0@ == items[0],
        }
    }
}

/// What evaluating `x` in the chain `before`, with `depth` levels of nesting
/// left, does: booleans and numbers are their own values, a symbol is its
/// binding (not evaluated further) or else itself, and a list is a call. With
/// no level left it fails with `TooDeep`.
pub open spec fn eval_step<A: Arithmetic>(
    arith: A,
    x: SExp,
    before: Seq<Frame>,
    after: Seq<Frame>,
    r: Result<RispExp, RispErr>,
    depth: int,
) -> bool
    decreases depth, 1int, 0int,
{
    if depth <= 0 {
        r is Err && r->Err_0 is TooDeep && after == before
    } else {
        match x {
            SExp::Bool(_) | SExp::Number(_) => ok_with(r, x) && after == before,
            SExp::Symbol(s) => after == before && match lookup_var(before, s) {
                Some(v) => ok_with(r, v),
                None => ok_with(r, x),
            },
            SExp::List(items) => call_step(arith, items, before, after, r, depth),
            SExp::Lambda(_, _) => type_error(r, x) && after == before,
        }
    }
}

/// Binding the first `n` parameters gives each bound name the argument of
/// its last occurrence among them.
proof fn lemma_bound_params(params: Seq<SExp>, args: Seq<SExp>, n: int, name: Seq<char>)
    requires
        0 <= n <= params.len(),
        n <= args.len(),
    ensures
        bound_params(params, args, n).contains_key(name) <==> exists|k: int|
            0 <= k < n && (#[trigger] params[k])->Symbol_0 == name,
    decreases n,
{
    if n > 0 {
        lemma_bound_params(params, args, n - 1, name);
        if params[n - 1]->Symbol_0 == name {
            assert(bound_params(params, args, n).contains_key(name));
        }
    }
}

/// Names in a lambda's body are looked up in the caller's chain: a name that
/// is not a parameter has there the binding it has for the caller, whatever
/// the scope in which the lambda was made; a parameter is bound to its raw
/// argument.
pub proof fn lemma_call_scope(params: Seq<SExp>, args: Seq<SExp>, caller: Seq<Frame>, name: Seq<char>)
    requires
        params.len() == args.len(),
    ensures
        (forall|k: int| 0 <= k < params.len() ==> (#[trigger] params[k])->Symbol_0 != name)
            ==> lookup_var(call_frames(params, args, caller), name) == lookup_var(caller, name),
        (exists|k: int| 0 <= k < params.len() && (#[trigger] params[k])->Symbol_0 == name)
            ==> lookup_var(call_frames(params, args, caller), name) == Some(
            bound_params(params, args, params.len() as int)[name],
        ),
{
    let frames = call_frames(params, args, caller);
    lemma_bound_params(params, args, params.len() as int, name);
    assert(frames.drop_first() =~= caller);
}

/// Evaluates `x` in `env`, allowing `depth` more levels of nesting.
fn eval_in<A: Arithmetic>(x: &RispExp, env: &mut RispEnv, arith: &A, depth: u64) -> (r: Result<
    RispExp,
    RispErr,
>)
    ensures
        scope_kept(old(env)@, final(env)@),
        eval_step(*arith, x@, old(env)@, final(env)@, r, depth as int),
    decreases depth, 0int,
{
    proof {
        env.lemma_nonempty();
    }
    if depth == 0 {
        return Err(RispErr::TooDeep);
    }
    match x {
        RispExp::Bool(_) => Ok(x.deep_copy()),
        RispExp::Number(_) => Ok(x.deep_copy()),
        RispExp::Symbol(s) => match env.get(s.as_str()) {
            Some(v) => Ok(v),
            None => Ok(RispExp::Symbol(s.clone())),
        },
        RispExp::Lambda(_, _) => Err(RispErr::Type(x.deep_copy())),
        RispExp::List(v) => {
            proof {
                crate::exp::lemma_list_view(*x, *v);
            }
            if v.len() == 0 {
                return Err(RispErr::Arity(String::new()));
            }
            let (_, tail) = v.as_slice().split_at(1);
            proof {
                assert(views(tail@) =~= x@->List_0.drop_first());
            }
            let first = &v[0];
            match first {
                RispExp::Symbol(p) => match env.get_function(p.as_str()) {
                    Some(b) => apply_builtin(b, p.as_str(), tail, env, arith, depth - 1),
                    None => match env.get(p.as_str()) {
                        Some(RispExp::Lambda(params, body)) => {
                            let r = apply_lambda(p, &params, &body, tail, env, arith, depth - 1);
                            proof {
                                env.lemma_nonempty();
                            }
                            r
                        },
                        _ => Err(RispErr::UndefinedProcedure(p.clone())),
                    },
                },
                _ => Err(RispErr::NotCallable(first.deep_copy())),
            }
        },
    }
}

/// Applies the lambda `(params, body)`, bound to `name`, to raw `args`: binds
/// each parameter to its argument expression, unevaluated, in a new scope
/// nested in the caller's, and evaluates the body there.
fn apply_lambda<A: Arithmetic>(
    name: &String,
    params: &RispExp,
    body: &RispExp,
    args: &[RispExp],
    env: &mut RispEnv,
    arith: &A,
    depth: u64,
) -> (r: Result<RispExp, RispErr>)
    ensures
        lambda_step(*arith, name@, params@, body@, views(args@), old(env)@, final(env)@, r, depth as int),
    decreases depth, 1int,
{
    let ps = match params {
        RispExp::List(ps) => ps,
        _ => {
            return Err(RispErr::Type(params.deep_copy()));
        },
    };
    proof {
        crate::exp::lemma_list_view(*params, *ps);
    }
    let ghost pv = params@->List_0;
    assert(views(args@).len() == args@.len());
    if ps.len() != args.len() {
        return Err(RispErr::Arity(name.clone()));
    }
    let ghost av = views(args@);
    let mut inner = RispEnv::nested_in(&*env);
    let mut k: usize = 0;
    assert(inner@ =~= seq![Frame { vars: bound_params(pv, av, 0), procs: Map::empty() }] + env@);
    while k < ps.len()
        invariant
            k <= ps.len(),
            av == views(args@),
            inner@ == seq![Frame { vars: bound_params(pv, av, k as int), procs: Map::empty() }]
                + env@,
            ps.len() == args.len(),
            pv.len() == ps.len(),
            forall|j: int| 0 <= j < ps.len() ==> #[trigger] pv[j] == ps[j]@,
            first_non_symbol(pv, 0) == first_non_symbol(pv, k as int),
            views(args@).len() == args@.len(),
            pv == params@->List_0,
            *params == RispExp::List(*ps),
        decreases ps.len() - k,
    {
        match &ps[k] {
            RispExp::Symbol(s) => {
                assert(pv[k as int] == ps[k as int]@);
                assert(av[k as int] == args@[k as int]@);
                inner.define_variable(s.as_str(), &args[k]);
                assert(inner@ =~= seq![
                    Frame { vars: bound_params(pv, av, k + 1), procs: Map::empty() },
                ] + env@);
            },
            other => {
                assert(pv[k as int] == ps[k as int]@);
                assert(!(pv[k as int] is Symbol));
                assert(first_non_symbol(pv, k as int) == Some(k as int));
                return Err(RispErr::Type(other.deep_copy()));
            },
        }
        assert(pv[k as int] == ps[k as int]@);
        k = k + 1;
    }
    let ghost start = inner@;
    assert(start == call_frames(pv, av, env@));
    let r = eval_in(body, &mut inner, arith, depth);
    assert(eval_step(*arith, body@, call_frames(pv, av, env@), inner@, r, depth as int));
    assert(first_non_symbol(pv, 0) is None);
    assert(scope_kept(call_frames(pv, av, env@), inner@));
    r
}

/// Evaluates `x` and takes the number it yields.
fn number_in<A: Arithmetic>(x: &RispExp, env: &mut RispEnv, arith: &A, depth: u64) -> (r: Result<
    u64,
    RispErr,
>)
    ensures
        scope_kept(old(env)@, final(env)@),
        x@ is Number ==> r == Ok::<u64, RispErr>(x@->Number_0) && final(env)@ == old(env)@,
        number_step(*arith, x@, old(env)@, final(env)@, r, depth as int),
    decreases depth, 1int,
{
    proof {
        env.lemma_nonempty();
    }
    if let RispExp::Number(n) = x {
        return Ok(*n);
    }
    let rv = eval_in(x, env, arith, depth);
    let ghost rvg = rv;
    let r = match rv {
        Ok(RispExp::Number(n)) => Ok(n),
        Ok(_) => Err(RispErr::Type(x.deep_copy())),
        Err(e) => Err(e),
    };
    assert(number_outcome(rvg, x@, r));
    r
}

/// Evaluates `args[from]`, `args[from + 1]`, ... to numbers, in order, and
/// folds them with `op`, starting from `start`; with `minuend`, the result is
/// that number minus the fold.
fn fold_numbers<A: Arithmetic>(
    args: &[RispExp],
    from: usize,
    start: u64,
    op: BinaryOp,
    minuend: Option<u64>,
    env: &mut RispEnv,
    arith: &A,
    depth: u64,
) -> (r: Result<RispExp, RispErr>)
    requires
        from <= args@.len(),
    ensures
        scope_kept(old(env)@, final(env)@),
        numbers_step(
            *arith,
            views(args@),
            from as int,
            op,
            start,
            minuend,
            old(env)@,
            final(env)@,
            r,
            depth as int,
        ),
    decreases depth, 2int,
{
    proof {
        env.lemma_nonempty();
    }
    let ghost av = views(args@);
    let mut total = start;
    let mut k: usize = from;
    while k < args.len()
        invariant
            from <= k <= args.len(),
            av == views(args@),
            av.len() == args@.len(),
            scope_kept(old(env)@, env@),
            forall|after: Seq<Frame>, rr: Result<RispExp, RispErr>|
                #[trigger] numbers_step(*arith, av, k as int, op, total, minuend, env@, after, rr, depth as int)
                    ==> numbers_step(*arith, av, from as int, op, start, minuend, old(env)@, after, rr, depth as int),
        decreases args.len() - k,
    {
        assert(av[k as int] == args@[k as int]@);
        let ghost cur = env@;
        let rx = number_in(&args[k], env, arith, depth);
        let ghost mid = env@;
        match rx {
            Ok(n) => {
                let ghost acc = total;
                total = arith.binary(op, total, n);
                proof {
                    assert forall|after: Seq<Frame>, rr: Result<RispExp, RispErr>|
                        #[trigger] numbers_step(*arith, av, k + 1, op, total, minuend, mid, after, rr, depth as int)
                            implies numbers_step(*arith, av, from as int, op, start, minuend, old(env)@, after, rr, depth as int) by {
                        assert(scope_kept(cur, mid));
                        assert(pass_error(rx, rr));
                        assert(numbers_step(*arith, av, k as int, op, acc, minuend, cur, after, rr, depth as int));
                    }
                    lemma_kept_trans(old(env)@, cur, mid);
                }
            },
            Err(e) => {
                let r = Err(e);
                proof {
                    assert(scope_kept(cur, mid));
                    assert(pass_error(rx, r));
                    assert(numbers_step(*arith, av, k as int, op, total, minuend, cur, mid, r, depth as int));
                    lemma_kept_trans(old(env)@, cur, mid);
                }
                return r;
            },
        }
        k = k + 1;
    }
    let t = match minuend {
        Some(x) => arith.binary(BinaryOp::Sub, x, total),
        None => total,
    };
    let r = Ok(RispExp::Number(t));
    assert(numbers_step(*arith, av, k as int, op, total, minuend, env@, env@, r, depth as int));
    r
}

/// `=`, `!=`, `<` or `<=` on raw arguments: compares the first argument with
/// each later one, structurally and without evaluating them.
fn compare_raw(b: Builtin, args: &[RispExp]) -> (r: bool)
    requires
        args@.len() > 0,
        b is Eq || b is Neq || b is Lt || b is Lte,
    ensures
        b is Eq ==> r == all_same(views(args@)),
        b is Neq ==> r == !all_same(views(args@)),
        b is Lt ==> r == all_below(views(args@)),
        b is Lte ==> r == all_at_most(views(args@)),
{
    let ghost av = views(args@);
    let mut k: usize = 1;
    while k < args.len()
        invariant
            1 <= k <= args.len(),
            av == views(args@),
            b is Eq || b is Neq || b is Lt || b is Lte,
            b is Eq || b is Neq ==> forall|j: int| 1 <= j < k ==> same(av[0], #[trigger] av[j]),
            b is Lt ==> forall|j: int| 1 <= j < k ==> below(av[0], #[trigger] av[j]),
            b is Lte ==> forall|j: int| 1 <= j < k ==> at_most(av[0], #[trigger] av[j]),
        decreases args.len() - k,
    {
        let o = exp_order(&args[0], &args[k]);
        assert(av[0] == args@[0]@ && av[k as int] == args@[k as int]@);
        let holds = match b {
            Builtin::Lt => match o {
                Some(Ordering::Less) => true,
                _ => false,
            },
            Builtin::Lte => match o {
                Some(Ordering::Less) => true,
                Some(Ordering::Equal) => true,
                _ => false,
            },
            _ => match o {
                Some(Ordering::Equal) => true,
                _ => false,
            },
        };
        if !holds {
            return match b {
                Builtin::Neq => true,
                _ => false,
            };
        }
        k = k + 1;
    }
    match b {
        Builtin::Neq => false,
        _ => true,
    }
}

/// `>` (`strict`) or `>=`: evaluates every argument to a number, in order,
/// then compares the first with each later one.
fn compare_numeric<A: Arithmetic>(
    strict: bool,
    args: &[RispExp],
    env: &mut RispEnv,
    arith: &A,
    depth: u64,
) -> (r: Result<RispExp, RispErr>)
    requires
        args@.len() > 0,
    ensures
        scope_kept(old(env)@, final(env)@),
        exists|rv: Result<Seq<u64>, RispErr>|
            #[trigger] compare_outcome(strict, rv, r) && values_step(*arith, 
                views(args@),
                0,
                old(env)@,
                final(env)@,
                rv,
                depth as int,
            ),
    decreases depth, 2int,
{
    proof {
        env.lemma_nonempty();
    }
    let ghost av = views(args@);
    let mut values: Vec<u64> = Vec::new();
    let mut k: usize = 0;
    while k < args.len()
        invariant
            k <= args.len(),
            av == views(args@),
            av.len() == args@.len(),
            values.len() == k,
            scope_kept(old(env)@, env@),
            forall|after: Seq<Frame>, rr: Result<Seq<u64>, RispErr>|
                #[trigger] values_step(*arith, av, k as int, env@, after, rr, depth as int)
                    ==> values_step(*arith, av, 0, old(env)@, after, after_prefix(values@, rr), depth as int),
        decreases args.len() - k,
    {
        assert(av[k as int] == args@[k as int]@);
        let ghost cur = env@;
        let ghost prefix = values@;
        let rx = number_in(&args[k], env, arith, depth);
        let ghost mid = env@;
        match rx {
            Ok(n) => {
                values.push(n);
                proof {
                    assert forall|after: Seq<Frame>, rr: Result<Seq<u64>, RispErr>|
                        #[trigger] values_step(*arith, av, k + 1, mid, after, rr, depth as int)
                            implies values_step(*arith, av, 0, old(env)@, after, after_prefix(values@, rr), depth as int) by {
                        assert(scope_kept(cur, mid));
                        assert(value_then(rx, rr, prepend(n, rr)));
                        assert(values_step(*arith, av, k as int, cur, after, prepend(n, rr), depth as int));
                        if rr is Ok {
                            assert(prefix + (seq![n] + rr->Ok_0) =~= values@ + rr->Ok_0);
                        }
                        assert(after_prefix(prefix, prepend(n, rr)) == after_prefix(values@, rr));
                    }
                    lemma_kept_trans(old(env)@, cur, mid);
                }
            },
            Err(e) => {
                let r = Err(e);
                proof {
                    let rv = Err::<Seq<u64>, RispErr>(e);
                    assert(scope_kept(cur, mid));
                    assert(value_then(rx, rv, rv));
                    assert(values_step(*arith, av, k as int, cur, mid, rv, depth as int));
                    assert(after_prefix(prefix, rv) == rv);
                    assert(compare_outcome(strict, rv, r));
                    lemma_kept_trans(old(env)@, cur, mid);
                }
                return r;
            },
        }
        k = k + 1;
    }
    proof {
        assert(values_step(*arith, av, k as int, env@, env@, Ok(Seq::empty()), depth as int));
        assert(values@ + Seq::<u64>::empty() =~= values@);
    }
    let left = values[0];
    let mut k: usize = 1;
    let mut holds = true;
    while k < values.len()
        invariant
            1 <= k <= values.len(),
            left == values@[0],
            holds ==> strict ==> forall|j: int|
                1 <= j < k ==> compare_numbers(values@[0], #[trigger] values@[j]) == Some(
                    Ordering::Greater,
                ),
            holds ==> !strict ==> forall|j: int|
                1 <= j < k ==> {
                    let o = compare_numbers(values@[0], #[trigger] values@[j]);
                    o == Some(Ordering::Greater) || o == Some(Ordering::Equal)
                },
            !holds ==> !(if strict {
                exceeds_rest(values@)
            } else {
                reaches_rest(values@)
            }),
        decreases values.len() - k,
    {
        let o = number_order(left, values[k]);
        let fails = match o {
            Some(Ordering::Greater) => false,
            Some(Ordering::Equal) => strict,
            _ => true,
        };
        if fails && holds {
            holds = false;
            proof {
                if strict {
                    assert(!exceeds_rest(values@));
                } else {
                    assert(!reaches_rest(values@));
                }
            }
        }
        k = k + 1;
    }
    let r = Ok(RispExp::Bool(holds));
    assert(compare_outcome(strict, Ok(values@), r));
    r
}

/// Calls builtin `b`, under the name `name`, on raw arguments `args`.
pub(crate) fn apply_builtin<A: Arithmetic>(
    b: Builtin,
    name: &str,
    args: &[RispExp],
    env: &mut RispEnv,
    arith: &A,
    depth: u64,
) -> (r: Result<RispExp, RispErr>)
    ensures
        scope_kept(old(env)@, final(env)@),
        builtin_step(*arith, b, name@, views(args@), old(env)@, final(env)@, r, depth as int),
    decreases depth, 3int,
{
    proof {
        env.lemma_nonempty();
    }
    let ghost av = views(args@);
    let n = args.len();
    match b {
        Builtin::If => {
            if n < 3 {
                return Err(RispErr::Arity(name.to_owned()));
            }
            let ghost before = env@;
            let rp = eval_in(&args[0], env, arith, depth);
            let ghost mid = env@;
            let ghost rpg = rp;
            assert(av[0] == args@[0]@ && av[1] == args@[1]@ && av[2] == args@[2]@);
            let r = match rp {
                Ok(RispExp::Bool(true)) => eval_in(&args[1], env, arith, depth),
                Ok(RispExp::Bool(false)) => eval_in(&args[2], env, arith, depth),
                Ok(other) => Err(RispErr::Type(other)),
                Err(e) => Err(e),
            };
            assert(eval_step(*arith, av[0], before, mid, rpg, depth as int));
            assert(scope_kept(before, mid));
            assert(if_rest(*arith, av, rpg, mid, env@, r, depth as int));
            r
        },
        Builtin::Let => {
            if n < 2 {
                return Err(RispErr::Arity(name.to_owned()));
            }
            assert(av[0] == args@[0]@);
            match &args[0] {
                RispExp::Symbol(s) => {
                    let ghost before = env@;
                    let rv = eval_in(&args[1], env, arith, depth);
                    let ghost rvg = rv;
                    assert(av[1] == args@[1]@);
                    assert(eval_step(*arith, av[1], before, env@, rvg, depth as int));
                    let v = match rv {
                        Ok(v) => v,
                        Err(e) => {
                            assert(av[0]->Symbol_0 == s@);
                            assert(let_rest(
                                av[0]->Symbol_0,
                                rvg,
                                env@,
                                env@,
                                Err::<RispExp, RispErr>(e),
                            ));
                            return Err(e);
                        },
                    };
                    let ghost mid = env@;
                    env.define_variable(s.as_str(), &v);
                    proof {
                        lemma_with_vars_kept(mid, mid[0].vars.insert(s@, v@));
                        lemma_kept_trans(old(env)@, mid, env@);
                        assert(av[0]->Symbol_0 == s@);
                        assert(let_rest(av[0]->Symbol_0, rvg, mid, env@, Ok::<RispExp, RispErr>(v)));
                    }
                    Ok(v)
                },
                _ => Err(RispErr::Type(args[0].deep_copy())),
            }
        },
        Builtin::Fn => {
            if n != 2 {
                return Err(RispErr::Arity(name.to_owned()));
            }
            assert(av[0] == args@[0]@ && av[1] == args@[1]@);
            Ok(RispExp::Lambda(Box::new(args[0].deep_copy()), Box::new(args[1].deep_copy())))
        },
        Builtin::Add => fold_numbers(args, 0, ZERO, BinaryOp::Add, None, env, arith, depth),
        Builtin::Mul => fold_numbers(args, 0, ONE, BinaryOp::Mul, None, env, arith, depth),
        Builtin::Sub => {
            if n < 2 {
                return Err(RispErr::Arity(name.to_owned()));
            }
            assert(av[0] == args@[0]@);
            let ghost before = env@;
            let rx = number_in(&args[0], env, arith, depth);
            let ghost mid = env@;
            let x = match rx {
                Ok(x) => x,
                Err(e) => {
                    let r = Err(e);
                    assert(scope_kept(before, mid));
                    assert(pass_error(rx, r));
                    return r;
                },
            };
            let r = fold_numbers(args, 1, ZERO, BinaryOp::Add, Some(x), env, arith, depth);
            proof {
                assert(scope_kept(before, mid));
                assert(pass_error(rx, r));
                lemma_kept_trans(old(env)@, mid, env@);
            }
            r
        },
        Builtin::Div | Builtin::Pow => {
            if n != 2 {
                return Err(RispErr::Arity(name.to_owned()));
            }
            assert(av[0] == args@[0]@ && av[1] == args@[1]@);
            let ghost before = env@;
            let rx = number_in(&args[0], env, arith, depth);
            let ghost mid = env@;
            let x = match rx {
                Ok(x) => x,
                Err(e) => {
                    assert(binary_rest(*arith, binary_op_of(b), rx, rx, mid, Err::<RispExp, RispErr>(e)));
                    return Err(e);
                },
            };
            let ry = number_in(&args[1], env, arith, depth);
            let y = match ry {
                Ok(y) => y,
                Err(e) => {
                    assert(binary_rest(*arith, binary_op_of(b), rx, ry, mid, Err::<RispExp, RispErr>(e)));
                    return Err(e);
                },
            };
            let op = match b {
                Builtin::Div => BinaryOp::Div,
                _ => BinaryOp::Pow,
            };
            let r = Ok(RispExp::Number(arith.binary(op, x, y)));
            assert(binary_rest(*arith, binary_op_of(b), rx, ry, mid, r));
            r
        },
        Builtin::Unary(op) => {
            if n != 1 {
                return Err(RispErr::Arity(name.to_owned()));
            }
            assert(av[0] == args@[0]@);
            let rx = number_in(&args[0], env, arith, depth);
            let r = match rx {
                Ok(x) => Ok(RispExp::Number(arith.unary(op, x))),
                Err(e) => Err(e),
            };
            assert(unary_rest(*arith, op, rx, r));
            r
        },
        Builtin::Abs => {
            if n != 1 {
                return Err(RispErr::Arity(name.to_owned()));
            }
            assert(av[0] == args@[0]@);
            let rx = number_in(&args[0], env, arith, depth);
            let r = match rx {
                Ok(x) => Ok(RispExp::Number(number_abs(x))),
                Err(e) => Err(e),
            };
            assert(abs_rest(rx, r));
            r
        },
        Builtin::Eq | Builtin::Neq | Builtin::Lt | Builtin::Lte => {
            if n == 0 {
                return Err(RispErr::Arity(name.to_owned()));
            }
            Ok(RispExp::Bool(compare_raw(b, args)))
        },
        Builtin::Gt | Builtin::Gte => {
            if n == 0 {
                return Err(RispErr::Arity(name.to_owned()));
            }
            let strict = match b {
                Builtin::Gt => true,
                _ => false,
            };
            compare_numeric(strict, args, env, arith, depth)
        },
    }
}

/// Evaluates `x` in `env`. Arguments reach builtins and lambdas unevaluated;
/// `let` binds in `env`'s own scope, and nothing else in the chain changes.
pub fn eval<A: Arithmetic>(x: RispExp, env: &mut RispEnv, arith: &A) -> (r: Result<
    RispExp,
    RispErr,
>)
    ensures
        scope_kept(old(env)@, final(env)@),
        eval_step(*arith, x@, old(env)@, final(env)@, r, MAX_DEPTH as int),
{
    eval_in(&x, env, arith, MAX_DEPTH)
}

/// Evaluates `x` in `env` and takes the number it yields; fails with
/// `RispErr::Type` when it yields something else.
pub fn eval_to_number<A: Arithmetic>(x: &RispExp, env: &mut RispEnv, arith: &A) -> (r: Result<
    u64,
    RispErr,
>)
    ensures
        scope_kept(old(env)@, final(env)@),
        number_step(*arith, x@, old(env)@, final(env)@, r, MAX_DEPTH as int),
{
    number_in(x, env, arith, MAX_DEPTH)
}

} // verus!
