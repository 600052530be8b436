use risp::{
    parse, parse_atom, read_form, read_from_tokens, token_count, tokenize, Arithmetic, BinaryOp,
    LexError, RispErr, RispExp, UnaryOp,
};

struct Float64;

impl Arithmetic for Float64 {
    fn number_spec(&self, token: String) -> u64 {
        self.parse_number(&token)
    }

    fn unary_spec(&self, op: UnaryOp, x: u64) -> u64 {
        self.unary(op, x)
    }

    fn binary_spec(&self, op: BinaryOp, x: u64, y: u64) -> u64 {
        self.binary(op, x, y)
    }

    fn number_text(&self, n: u64) -> String {
        self.format_number(n)
    }

    fn parse_number(&self, token: &String) -> u64 {
        token.parse::<f64>().map(f64::to_bits).expect("a numeric literal reads as f64")
    }

    fn unary(&self, _op: UnaryOp, x: u64) -> u64 {
        x
    }

    fn binary(&self, _op: BinaryOp, x: u64, _y: u64) -> u64 {
        x
    }

    fn format_number(&self, n: u64) -> String {
        f64::from_bits(n).to_string()
    }
}

fn num(x: f64) -> RispExp {
    RispExp::Number(x.to_bits())
}

fn sym(s: &str) -> RispExp {
    RispExp::Symbol(s.to_string())
}

#[test]
fn test_tokenize() {
    let expr = "(+ 10 5)";
    assert_eq!(tokenize(expr), vec!["(", "+", "10", "5", ")"]);

    let expr = "(begin (define r 10) (* pi (* r r)))";
    assert_eq!(
        tokenize(expr),
        vec![
            "(", "begin", "(", "define", "r", "10", ")", "(", "*", "pi", "(", "*", "r", "r", ")",
            ")", ")"
        ]
    );
}

#[test]
fn test_parse() {
    let expr = "(+ 10 5)";
    let output = parse(expr, &Float64).expect("failed to parse");
    let truth = RispExp::List(vec![sym("+"), num(10_f64), num(5_f64)]);
    assert_eq!(output, truth);

    let expr = "(begin (define r 10) (* pi (* r r)))";
    let output = parse(expr, &Float64).expect("failed to parse");
    let truth = RispExp::List(vec![
        sym("begin"),
        RispExp::List(vec![sym("define"), sym("r"), num(10_f64)]),
        RispExp::List(vec![
            sym("*"),
            sym("pi"),
            RispExp::List(vec![sym("*"), sym("r"), sym("r")]),
        ]),
    ]);
    assert_eq!(output, truth);
}

#[test]
fn tokenize_isolates_parentheses_and_splits_on_whitespace() {
    assert_eq!(tokenize("((a)b)"), vec!["(", "(", "a", ")", "b", ")"]);
    assert_eq!(tokenize("  x\t\ny  "), vec!["x", "y"]);
    assert_eq!(tokenize(""), Vec::<String>::new());
    assert_eq!(tokenize("   "), Vec::<String>::new());
    assert_eq!(tokenize("ab(cd"), vec!["ab", "(", "cd"]);
}

#[test]
fn parse_atom_kinds() {
    let atom = |t: &str| parse_atom(&t.to_string(), &Float64);
    assert_eq!(atom("true"), RispExp::Bool(true));
    assert_eq!(atom("false"), RispExp::Bool(false));
    assert_eq!(atom("4.5"), num(4.5));
    assert_eq!(atom("-.5"), num(-0.5));
    assert_eq!(atom("+3"), num(3.0));
    assert_eq!(atom("4."), num(4.0));
    assert_eq!(atom("2E-2"), num(0.02));
    assert_eq!(atom("abc"), sym("abc"));
    assert_eq!(atom("inf"), sym("inf"));
    assert_eq!(atom("NaN"), sym("NaN"));
    assert_eq!(atom("infinity"), sym("infinity"));
    assert_eq!(atom("."), sym("."));
    assert_eq!(atom("1e"), sym("1e"));
    assert_eq!(atom("1e+"), sym("1e+"));
    assert_eq!(atom("-"), sym("-"));
    assert_eq!(atom("1.2.3"), sym("1.2.3"));
    assert_eq!(parse(" -12 ", &Float64), Ok(num(-12.0)));
    assert_eq!(parse("1e3", &Float64), Ok(num(1000.0)));
    assert_eq!(parse("True", &Float64), Ok(sym("True")));
}

#[test]
fn token_count_of_forms() {
    let e = parse("(+ 10 (* 2 3))", &Float64).unwrap();
    assert_eq!(token_count(&e), 9);
    assert_eq!(token_count(&num(1.0)), 1);
    assert_eq!(token_count(&RispExp::List(vec![])), 2);
}

#[test]
fn reading_consumes_token_count_tokens() {
    let tokens = tokenize("(a (b c) d) e");
    let numbers: Vec<Option<u64>> = tokens.iter().map(|_| None).collect();
    let (e, next) = read_form(&tokens, &numbers, 0).unwrap();
    assert_eq!(next, token_count(&e));
    assert_eq!(next, 8);
    let (e2, next2) = read_form(&tokens, &numbers, next).unwrap();
    assert_eq!(e2, sym("e"));
    assert_eq!(next2, 9);
    let (inner, after) = read_form(&tokens, &numbers, 2).unwrap();
    assert_eq!(inner, RispExp::List(vec![sym("b"), sym("c")]));
    assert_eq!(after, 2 + token_count(&inner));
}

#[test]
fn reader_errors() {
    assert_eq!(parse("", &Float64), Err(RispErr::Lex(LexError::UnexpectedEnd)));
    assert_eq!(parse(")", &Float64), Err(RispErr::Lex(LexError::UnexpectedClose)));
    assert_eq!(parse("(+ 1 2", &Float64), Err(RispErr::Lex(LexError::UnexpectedEnd)));
    assert_eq!(parse("(a (b)", &Float64), Err(RispErr::Lex(LexError::UnexpectedEnd)));
    let tokens = tokenize("( ) )");
    let numbers = vec![None, None, None];
    assert_eq!(read_from_tokens(&tokens, &numbers), Ok(RispExp::List(vec![])));
}

#[test]
fn parse_ignores_tokens_after_the_first_form() {
    assert_eq!(parse("1 2", &Float64), Ok(num(1.0)));
    assert_eq!(parse("(a) )", &Float64), Ok(RispExp::List(vec![sym("a")])));
}
