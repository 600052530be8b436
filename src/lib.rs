//! An interpreter for a small parenthesized expression language: a reader
//! from text to expression trees, a chain of scopes, and an evaluator with
//! special forms and builtins, whose arguments reach them unevaluated.
pub mod arith;
pub mod determinism;
pub mod display;
pub mod env;
pub mod eval;
pub mod exp;
pub mod reader;

pub use arith::{number_abs, Arithmetic, BinaryOp, UnaryOp, ONE, PI, ZERO};
pub use env::{
    risp_abs, risp_acos, risp_add, risp_asin, risp_atan, risp_cosine, risp_divide, risp_eq,
    risp_exp, risp_gt, risp_gte, risp_if, risp_lambda, risp_let, risp_log, risp_log10, risp_log2,
    risp_lt, risp_lte, risp_multiply, risp_neq, risp_pow, risp_sine, risp_sqrt, risp_subtract,
    risp_tangent, standard_env, Builtin, Frame, RispEnv,
};
pub use display::display;
pub use eval::{eval, eval_to_number, MAX_DEPTH};
pub use exp::{exp_order, number_order, LexError, RispErr, RispExp, SExp};
pub use reader::{parse, parse_atom, read_form, read_from_tokens, token_count, tokenize};
