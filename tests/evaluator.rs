use risp::{
    display, eval, eval_to_number, parse, risp_abs, risp_eq, risp_gt, risp_gte, risp_lambda, risp_lt, risp_lte, standard_env, Arithmetic, Builtin,
    BinaryOp, RispEnv, RispErr, RispExp, UnaryOp,
};

struct Float64;

impl Arithmetic for Float64 {
    fn number_spec(&self, token: String) -> u64 {
        self.parse_number(&token)
    }

    fn unary_spec(&self, op: UnaryOp, x: u64) -> u64 {
        self.unary(op, x)
    }

    fn binary_spec(&self, op: BinaryOp, x: u64, y: u64) -> u64 {
        self.binary(op, x, y)
    }

    fn number_text(&self, n: u64) -> String {
        self.format_number(n)
    }

    fn parse_number(&self, token: &String) -> u64 {
        token.parse::<f64>().map(f64::to_bits).expect("a numeric literal reads as f64")
    }

    fn unary(&self, op: UnaryOp, x: u64) -> u64 {
        let x = f64::from_bits(x);
        let r = match op {
            UnaryOp::Cos => x.cos(),
            UnaryOp::Sin => x.sin(),
            UnaryOp::Tan => x.tan(),
            UnaryOp::Acos => x.acos(),
            UnaryOp::Asin => x.asin(),
            UnaryOp::Atan => x.atan(),
            UnaryOp::Ln => x.ln(),
            UnaryOp::Log2 => x.log2(),
            UnaryOp::Log10 => x.log10(),
            UnaryOp::Sqrt => x.sqrt(),
            UnaryOp::Exp => x.exp(),
        };
        r.to_bits()
    }

    fn binary(&self, op: BinaryOp, x: u64, y: u64) -> u64 {
        let (x, y) = (f64::from_bits(x), f64::from_bits(y));
        let r = match op {
            BinaryOp::Add => x + y,
            BinaryOp::Sub => x - y,
            BinaryOp::Mul => x * y,
            BinaryOp::Div => x / y,
            BinaryOp::Pow => x.powf(y),
        };
        r.to_bits()
    }

    fn format_number(&self, n: u64) -> String {
        f64::from_bits(n).to_string()
    }
}

fn num(x: f64) -> RispExp {
    RispExp::Number(x.to_bits())
}

fn run(expr: &str, env: &mut RispEnv) -> Result<RispExp, RispErr> {
    eval(parse(expr, &Float64).expect("failed to parse"), env, &Float64)
}

fn run_fresh(expr: &str) -> Result<RispExp, RispErr> {
    let mut env = standard_env();
    run(expr, &mut env)
}

#[test]
fn test_add() {
    assert_eq!(run_fresh("(+ 10 5)").expect("failed to eval"), num(15_f64));
    assert_eq!(run_fresh("(+ 10 5 3 1 -12)").expect("failed to eval"), num(7_f64));
    assert_eq!(run_fresh("(+ 10 (+ 5 (+ 1 2)) 1 -12)").expect("failed to eval"), num(7_f64));
}

#[test]
fn test_subtract() {
    assert_eq!(run_fresh("(- 10 5)").expect("failed to eval"), num(5_f64));
    assert_eq!(run_fresh("(- 10 (- 8 3) 3 1 -12)").expect("failed to eval"), num(13_f64));
}

#[test]
fn test_multiply() {
    assert_eq!(run_fresh("(* 10 5)").expect("failed to eval"), num(50_f64));
    assert_eq!(run_fresh("(* 10 (- 8 3) 3 1)").expect("failed to eval"), num(150_f64));
}

#[test]
fn test_divide() {
    assert_eq!(run_fresh("(/ 10 5)").expect("failed to eval"), num(2_f64));
    assert_eq!(run_fresh("(/ 150 (- 8 3))").expect("failed to eval"), num(30_f64));
}

#[test]
fn test_trigonometry() {
    let mut env = standard_env();
    let pi = std::f64::consts::PI;
    assert_eq!(run("(cos 0)", &mut env).expect("failed to eval"), num(1_f64));
    assert_eq!(run("(cos pi)", &mut env).expect("failed to eval"), num(-1_f64));
    assert_eq!(run("(sin 0)", &mut env).expect("failed to eval"), num(0_f64));
    assert_eq!(run("(sin (/ pi 2))", &mut env).expect("failed to eval"), num(1_f64));
    assert_eq!(run("(tan 0)", &mut env).expect("failed to eval"), num(0_f64));
    assert_eq!(run("(tan (/ pi 4))", &mut env).expect("failed to eval"), num((pi / 4.0).tan()));
    assert_eq!(run("(tan (atan (/ pi 4)))", &mut env).expect("failed to eval"), num(pi / 4.0));
    assert_eq!(run("(cos (acos (/ pi 4)))", &mut env).expect("failed to eval"), num(pi / 4.0));
    assert_eq!(run("(sin (asin (/ pi 4)))", &mut env).expect("failed to eval"), num(pi / 4.0));
}

#[test]
fn test_bool() {
    assert_eq!(run_fresh("(> 10 5 4 2 1 9)").expect("failed to eval"), RispExp::Bool(true));
    assert_eq!(run_fresh("(> 10 5 4 2 11 9)").expect("failed to eval"), RispExp::Bool(false));
    assert_eq!(run_fresh("(> 10 5 4 2 10 9)").expect("failed to eval"), RispExp::Bool(false));
    assert_eq!(run_fresh("(= 10 10 10 10)").expect("failed to eval"), RispExp::Bool(true));
    assert_eq!(run_fresh("(<= 3 5 7 5 3 5)").expect("failed to eval"), RispExp::Bool(true));
    assert_eq!(run_fresh("(< 3 5 7 5 3 5)").expect("failed to eval"), RispExp::Bool(false));
    assert_eq!(run_fresh("(!= 10 10 10 9 10)").expect("failed to eval"), RispExp::Bool(true));
    assert_eq!(
        run_fresh("(!= 10 10 10 (+ 3 (+ 3 3)) 10)").expect("failed to eval"),
        RispExp::Bool(true)
    );
    assert_eq!(run_fresh("(!= 10 10 10 10)").expect("failed to eval"), RispExp::Bool(false));
}

#[test]
fn test_if() {
    assert_eq!(run_fresh("(if (!= 10 10 10 10) asdf 1)").expect("failed to eval"), num(1.0));
    assert_eq!(
        run_fresh("(if (= 10 10 10) asdf 1)").expect("failed to eval"),
        RispExp::Symbol("asdf".to_string())
    );
    assert_eq!(run_fresh("(if (< 10 11 9) asdf 1)").expect("failed to eval"), num(1.0));
    assert_eq!(
        run_fresh("(if (< 10 11 9) asdf (+ 1 (- 3 2)))").expect("failed to eval"),
        num(2.0)
    );
}

#[test]
fn test_let() {
    let mut env = standard_env();
    assert_eq!(run("(let a 3)", &mut env).expect("failed to eval"), num(3.0));
    assert_eq!(run("(let b 5)", &mut env).expect("failed to eval"), num(5.0));
    assert_eq!(run("(- b a)", &mut env).expect("failed to eval"), num(2.0));
    assert_eq!(
        run("(if (= a b) (let a 5) (let a 42))", &mut env).expect("failed to eval"),
        num(42.0)
    );
    assert_eq!(run("a", &mut env).expect("failed to eval"), num(42.0));
}

#[test]
fn test_outer_env() {
    let mut env = standard_env();
    assert_eq!(run("(let b 5)", &mut env).expect("failed to eval"), num(5.0));

    let mut inner_env = RispEnv::new();
    inner_env.outer = Some(&env);
    assert_eq!(run("(let a 3)", &mut inner_env).expect("failed to eval"), num(3.0));
    assert_eq!(run("a", &mut inner_env).expect("failed to eval"), num(3.0));
    assert_eq!(run("b", &mut inner_env).expect("failed to eval"), num(5.0));
}

#[test]
fn test_lambda() {
    let mut env = standard_env();
    run("(let addone (fn (x) (+ x 1)))", &mut env).expect("failed to eval");
    assert_eq!(run("(addone 4.3)", &mut env).expect("failed to eval"), num(5.3));
}

#[test]
fn free_names_resolve_in_the_callers_scope() {
    let mut env = standard_env();
    run("(let x 10)", &mut env).unwrap();
    run("(let addx (fn (y) (+ x y)))", &mut env).unwrap();
    assert_eq!(run("(addx 1)", &mut env).unwrap(), num(11.0));
    run("(let x 99)", &mut env).unwrap();
    assert_eq!(run("(addx 1)", &mut env).unwrap(), num(100.0));
}

#[test]
fn arguments_are_passed_unevaluated() {
    let mut env = standard_env();
    run("(let k (fn (a b) a))", &mut env).unwrap();
    // The second argument names nothing callable; it is never evaluated.
    assert_eq!(run("(k 7 (nothing 1))", &mut env).unwrap(), num(7.0));
    // A parameter stands for the argument's form itself, which a lookup
    // does not evaluate further.
    run("(let twice (fn (e) (+ e e)))", &mut env).unwrap();
    assert_eq!(run("(twice 3)", &mut env).unwrap(), num(6.0));
    assert_eq!(
        run("(twice (+ 1 2))", &mut env),
        Err(RispErr::Type(RispExp::Symbol("e".to_string())))
    );
    run("(let form (fn (e) e))", &mut env).unwrap();
    assert_eq!(run("(form (+ 1 2))", &mut env).unwrap(), parse("(+ 1 2)", &Float64).unwrap());
}

#[test]
fn less_than_compares_raw_forms() {
    // A list form sorts after every number, so `(+ 1 1)` is not below 3.
    assert_eq!(run_fresh("(< (+ 1 1) 3)").unwrap(), RispExp::Bool(false));
    assert_eq!(run_fresh("(<= 3 (+ 1 1))").unwrap(), RispExp::Bool(true));
    assert_eq!(run_fresh("(< false true)").unwrap(), RispExp::Bool(true));
    assert_eq!(run_fresh("(< abc abd)").unwrap(), RispExp::Bool(true));
    assert_eq!(run_fresh("(< 3 -4)").unwrap(), RispExp::Bool(false));
    assert_eq!(run_fresh("(< -5 -4)").unwrap(), RispExp::Bool(true));
    // The numeric comparisons evaluate their arguments.
    assert_eq!(run_fresh("(> 3 (+ 1 1))").unwrap(), RispExp::Bool(true));
    assert_eq!(run_fresh("(>= 2 (+ 1 1) 0)").unwrap(), RispExp::Bool(true));
}

#[test]
fn equality_compares_raw_forms() {
    assert_eq!(run_fresh("(= 2 (+ 1 1))").unwrap(), RispExp::Bool(false));
    assert_eq!(run_fresh("(= (a b) (a b))").unwrap(), RispExp::Bool(true));
    assert_eq!(run_fresh("(= 0 -0)").unwrap(), RispExp::Bool(true));
    assert_eq!(run_fresh("(!= x x)").unwrap(), RispExp::Bool(false));
    assert_eq!(run_fresh("(= 1)").unwrap(), RispExp::Bool(true));
}

#[test]
fn atoms_evaluate_to_themselves() {
    assert_eq!(run_fresh("true").unwrap(), RispExp::Bool(true));
    assert_eq!(run_fresh("2.5").unwrap(), num(2.5));
    assert_eq!(run_fresh("unbound").unwrap(), RispExp::Symbol("unbound".to_string()));
    assert_eq!(run_fresh("pi").unwrap(), num(std::f64::consts::PI));
    assert_eq!(run_fresh("if").unwrap(), RispExp::Symbol("if".to_string()));
}

#[test]
fn arithmetic_and_math_builtins() {
    assert_eq!(run_fresh("(+)").unwrap(), num(0.0));
    assert_eq!(run_fresh("(*)").unwrap(), num(1.0));
    assert_eq!(run_fresh("(abs -2.5)").unwrap(), num(2.5));
    assert_eq!(run_fresh("(abs 3)").unwrap(), num(3.0));
    assert_eq!(run_fresh("(pow 2 10)").unwrap(), num(1024.0));
    assert_eq!(run_fresh("(sqrt 16)").unwrap(), num(4.0));
    assert_eq!(run_fresh("(log2 8)").unwrap(), num(3.0));
    assert_eq!(run_fresh("(log10 1000)").unwrap(), num(3.0));
    assert_eq!(run_fresh("(log 1)").unwrap(), num(0.0));
    assert_eq!(run_fresh("(exp 0)").unwrap(), num(1.0));
    assert_eq!(run_fresh("(/ 1 4)").unwrap(), num(0.25));
}

#[test]
fn arity_errors() {
    assert_eq!(run_fresh("()"), Err(RispErr::Arity(String::new())));
    assert_eq!(run_fresh("(if true 1)"), Err(RispErr::Arity("if".to_string())));
    assert_eq!(run_fresh("(let a)"), Err(RispErr::Arity("let".to_string())));
    assert_eq!(run_fresh("(fn (x))"), Err(RispErr::Arity("fn".to_string())));
    assert_eq!(run_fresh("(fn (x) x x)"), Err(RispErr::Arity("fn".to_string())));
    assert_eq!(run_fresh("(- 5)"), Err(RispErr::Arity("-".to_string())));
    assert_eq!(run_fresh("(/ 1 2 3)"), Err(RispErr::Arity("/".to_string())));
    assert_eq!(run_fresh("(cos 1 2)"), Err(RispErr::Arity("cos".to_string())));
    assert_eq!(run_fresh("(pow 2)"), Err(RispErr::Arity("pow".to_string())));
    assert_eq!(run_fresh("(=)"), Err(RispErr::Arity("=".to_string())));
    assert_eq!(run_fresh("(>)"), Err(RispErr::Arity(">".to_string())));
    let mut env = standard_env();
    run("(let f (fn (a b) a))", &mut env).unwrap();
    assert_eq!(run("(f 1)", &mut env), Err(RispErr::Arity("f".to_string())));
}

#[test]
fn type_errors() {
    let list = parse("(a)", &Float64).unwrap();
    assert_eq!(run_fresh("(let (a) 1)"), Err(RispErr::Type(list)));
    assert_eq!(run_fresh("(+ 1 true)"), Err(RispErr::Type(RispExp::Bool(true))));
    assert_eq!(run_fresh("(if 1 2 3)"), Err(RispErr::Type(num(1.0))));
    let mut env = standard_env();
    run("(let g (fn x x))", &mut env).unwrap();
    assert_eq!(run("(g)", &mut env), Err(RispErr::Type(RispExp::Symbol("x".to_string()))));
    run("(let h (fn (a 2) a))", &mut env).unwrap();
    assert_eq!(run("(h 1 1)", &mut env), Err(RispErr::Type(num(2.0))));
}

#[test]
fn call_errors() {
    assert_eq!(run_fresh("(foo 1)"), Err(RispErr::UndefinedProcedure("foo".to_string())));
    assert_eq!(run_fresh("(1 2)"), Err(RispErr::NotCallable(num(1.0))));
    let mut env = standard_env();
    run("(let v 3)", &mut env).unwrap();
    assert_eq!(run("(v)", &mut env), Err(RispErr::UndefinedProcedure("v".to_string())));
}

#[test]
fn runaway_recursion_stops() {
    let mut env = standard_env();
    run("(let f (fn (x) (f x)))", &mut env).unwrap();
    assert_eq!(run("(f 1)", &mut env), Err(RispErr::TooDeep));
}

#[test]
fn builtins_called_directly() {
    let mut env = standard_env();
    let args = vec![num(1.0), num(1.0)];
    assert_eq!(risp_eq(&args, &mut env, &Float64), Ok(RispExp::Bool(true)));
    assert_eq!(risp_abs(&[num(-4.0)], &mut env, &Float64), Ok(num(4.0)));
    let lam = risp_lambda(&[RispExp::List(vec![]), num(1.0)], &mut env, &Float64).unwrap();
    assert_eq!(lam, RispExp::Lambda(Box::new(RispExp::List(vec![])), Box::new(num(1.0))));
    assert_eq!(eval_to_number(&parse("(+ 1 2)", &Float64).unwrap(), &mut env, &Float64), Ok(3.0_f64.to_bits()));
    assert_eq!(eval_to_number(&RispExp::Bool(true), &mut env, &Float64), Err(RispErr::Type(RispExp::Bool(true))));
}

#[test]
fn evaluation_is_repeatable() {
    let mut env = standard_env();
    run("(let sq (fn (v) (* v v)))", &mut env).unwrap();
    let first = run("(sq 2.5)", &mut env).unwrap();
    let second = run("(sq 2.5)", &mut env).unwrap();
    assert_eq!(first, num(6.25));
    assert_eq!(first, second);
}

#[test]
fn numeric_comparisons_follow_float_order() {
    // NaN stands in no order: every order test with it fails.
    assert_eq!(run_fresh("(> (/ 0 0) 1)").unwrap(), RispExp::Bool(false));
    assert_eq!(run_fresh("(>= 1 (/ 0 0))").unwrap(), RispExp::Bool(false));
    let mut env = standard_env();
    let nan = RispExp::Number(f64::NAN.to_bits());
    let one = num(1.0);
    let pair = [nan.clone(), one.clone()];
    assert_eq!(risp_lt(&pair, &mut env, &Float64), Ok(RispExp::Bool(false)));
    assert_eq!(risp_lte(&pair, &mut env, &Float64), Ok(RispExp::Bool(false)));
    assert_eq!(risp_gt(&pair, &mut env, &Float64), Ok(RispExp::Bool(false)));
    assert_eq!(risp_gte(&pair, &mut env, &Float64), Ok(RispExp::Bool(false)));
    assert_eq!(risp_eq(&[nan.clone(), nan.clone()], &mut env, &Float64), Ok(RispExp::Bool(false)));
    // `inf` and `NaN` are symbols, not numbers.
    assert_eq!(run_fresh("(= NaN NaN)").unwrap(), RispExp::Bool(true));
    assert_eq!(run_fresh("inf").unwrap(), RispExp::Symbol("inf".to_string()));
    assert_eq!(run_fresh("(> 0 -0)").unwrap(), RispExp::Bool(false));
    assert_eq!(run_fresh("(>= 0 -0)").unwrap(), RispExp::Bool(true));
    assert_eq!(run_fresh("(> -1 -2 -3)").unwrap(), RispExp::Bool(true));
}

#[test]
fn if_evaluates_only_the_chosen_branch() {
    let mut env = standard_env();
    assert_eq!(run("(if true (let a 1) (let b 2))", &mut env).unwrap(), num(1.0));
    assert_eq!(run("a", &mut env).unwrap(), num(1.0));
    assert_eq!(run("b", &mut env).unwrap(), RispExp::Symbol("b".to_string()));
    // Extra trailing arguments are ignored.
    assert_eq!(run("(if false 1 2 3)", &mut env).unwrap(), num(2.0));
}

#[test]
fn let_binds_in_the_current_scope_only() {
    let mut env = standard_env();
    run("(let x 1)", &mut env).unwrap();
    run("(let setx (fn () (let x 2)))", &mut env).unwrap();
    assert_eq!(run("(setx)", &mut env).unwrap(), num(2.0));
    // The binding made inside the call's scope is gone with it.
    assert_eq!(run("x", &mut env).unwrap(), num(1.0));
    // Extra arguments to `let` are ignored.
    assert_eq!(run("(let y 3 4)", &mut env).unwrap(), num(3.0));
}

#[test]
fn greater_than_evaluates_every_argument_first() {
    assert_eq!(
        run_fresh("(> 1 2 (foo))"),
        Err(RispErr::UndefinedProcedure("foo".to_string()))
    );
    assert_eq!(run_fresh("(>= 1 true)"), Err(RispErr::Type(RispExp::Bool(true))));
}

#[test]
fn operand_errors_pass_through() {
    assert_eq!(run_fresh("(+ 1 (foo))"), Err(RispErr::UndefinedProcedure("foo".to_string())));
    assert_eq!(run_fresh("(- (1) 2)"), Err(RispErr::NotCallable(num(1.0))));
    assert_eq!(run_fresh("(sqrt false)"), Err(RispErr::Type(RispExp::Bool(false))));
    assert_eq!(run_fresh("(pow 2 (bar))"), Err(RispErr::UndefinedProcedure("bar".to_string())));
}

#[test]
fn standard_env_registers_every_builtin() {
    let env = standard_env();
    assert_eq!(env.get_function("if"), Some(Builtin::If));
    assert_eq!(env.get_function("cos"), Some(Builtin::Unary(UnaryOp::Cos)));
    assert_eq!(env.get_function("log"), Some(Builtin::Unary(UnaryOp::Ln)));
    assert_eq!(env.get_function("<="), Some(Builtin::Lte));
    assert_eq!(env.get_function("pi"), None);
    assert_eq!(env.get("pi"), Some(num(std::f64::consts::PI)));
    assert_eq!(env.get(">="), Some(RispExp::Symbol(">=".to_string())));
    let mut inner = RispEnv::new();
    inner.outer = Some(&env);
    assert_eq!(inner.get_function("abs"), Some(Builtin::Abs));
    inner.define_variable("pi", &num(3.0));
    assert_eq!(inner.get("pi"), Some(num(3.0)));
    assert_eq!(env.get("pi"), Some(num(std::f64::consts::PI)));
}

#[test]
fn printed_forms() {
    assert_eq!(display(&num(7.0), &Float64), "7");
    assert_eq!(display(&num(5.3), &Float64), "5.3");
    assert_eq!(display(&RispExp::Bool(false), &Float64), "false");
    let e = parse("(a (1 true) ())", &Float64).unwrap();
    assert_eq!(display(&e, &Float64), "(a,(1,true),())");
    let lam = run_fresh("(fn (x y) (+ x y))").unwrap();
    assert_eq!(display(&lam, &Float64), "(x,y) (+,x,y)");
}

#[test]
fn builtin_shadowed_by_a_value_still_calls() {
    let mut env = standard_env();
    run("(let + 1)", &mut env).unwrap();
    assert_eq!(env.get("+"), Some(num(1.0)));
    assert_eq!(env.get_function("+"), Some(Builtin::Add));
    assert_eq!(run("(+ 2 3)", &mut env).unwrap(), num(5.0));
}
