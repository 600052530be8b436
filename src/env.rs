use crate::arith::{Arithmetic, UnaryOp, PI};
use crate::eval::{apply_builtin, builtin_step, views, MAX_DEPTH};
use crate::exp::{RispErr, RispExp, SExp};
use vstd::hash_map::StringHashMap;
use vstd::prelude::*;

verus! {

/// A builtin procedure of the language.
#[derive(Debug, Clone, Copy, PartialEq, Eq)]
pub enum Builtin {
    If,
    Let,
    Fn,
    Add,
    Sub,
    Mul,
    Div,
    Unary(UnaryOp),
    Abs,
    Pow,
    Eq,
    Neq,
    Gt,
    Gte,
    Lt,
    Lte,
}

/// One scope: the values bound to names and the builtins registered under
/// names.
pub struct Frame {
    pub vars: Map<Seq<char>, SExp>,
    pub procs: Map<Seq<char>, Builtin>,
}

/// A scope of the environment chain, with a link to the scope it is nested
/// in.
pub struct RispEnv<'a> {
    /// The values bound in this scope.
    pub data: StringHashMap<RispExp>,
    /// The builtins registered in this scope.
    pub funcs: StringHashMap<Builtin>,
    /// The scope this one is nested in.
    pub outer: Option<&'a RispEnv<'a>>,
}

/// The value bound to `name` in the innermost scope that binds it.
pub open spec fn lookup_var(frames: Seq<Frame>, name: Seq<char>) -> Option<SExp>
    decreases frames.len(),
{
    if frames.len() == 0 {
        None
    } else if frames[0].vars.contains_key(name) {
        Some(frames[0].vars[name])
    } else {
        lookup_var(frames.drop_first(), name)
    }
}

/// The builtin registered under `name` in the innermost scope that has one.
pub open spec fn lookup_proc(frames: Seq<Frame>, name: Seq<char>) -> Option<Builtin>
    decreases frames.len(),
{
    if frames.len() == 0 {
        None
    } else if frames[0].procs.contains_key(name) {
        Some(frames[0].procs[name])
    } else {
        lookup_proc(frames.drop_first(), name)
    }
}

/// The chain with its innermost scope's variable map replaced.
pub open spec fn with_vars(frames: Seq<Frame>, vars: Map<Seq<char>, SExp>) -> Seq<Frame> {
    frames.update(0, Frame { vars, procs: frames[0].procs })
}

impl<'a> RispEnv<'a> {
    /// The scope's own bindings.
    pub open spec fn frame(&self) -> Frame {
        Frame { vars: self.data@.map_values(|e: RispExp| e@), procs: self.funcs@ }
    }

    /// The scopes of the chain, innermost first.
    pub open spec fn frames(&self) -> Seq<Frame>
        decreases self,
    {
        match self.outer {
            Some(o) => seq![self.frame()] + o.frames(),
            None => seq![self.frame()],
        }
    }
}

impl<'a> View for RispEnv<'a> {
    type V = Seq<Frame>;

    open spec fn view(&self) -> Seq<Frame> {
        self.frames()
    }
}

impl<'a> RispEnv<'a> {
    /// The chain is this scope's own bindings followed by the chain of the
    /// scope it is nested in.
    pub proof fn lemma_frames(&self)
        ensures
            self@.len() >= 1,
            self@[0] == self.frame(),
            self@.drop_first() == match self.outer {
                Some(o) => o@,
                None => Seq::empty(),
            },
    {
        match self.outer {
            Some(o) => {
                assert(self@.drop_first() =~= o@);
            },
            None => {
                assert(self@.drop_first() =~= Seq::<Frame>::empty());
            },
        }
    }

    /// A chain has at least one scope.
    pub proof fn lemma_nonempty(&self)
        ensures
            self@.len() >= 1,
    {
        self.lemma_frames();
    }

    /// An empty scope that is nested in nothing.
    pub fn new() -> (r: Self)
        ensures
            r@ == seq![Frame { vars: Map::empty(), procs: Map::empty() }],
            r.outer is None,
    {
        let r = RispEnv { data: StringHashMap::new(), funcs: StringHashMap::new(), outer: None };
        assert(r.data@.map_values(|e: RispExp| e@) =~= Map::empty());
        r
    }

    /// An empty scope nested in `outer`.
    pub fn nested_in(outer: &'a RispEnv<'a>) -> (r: Self)
        ensures
            r@ == seq![Frame { vars: Map::empty(), procs: Map::empty() }] + outer@,
            r.outer == Some(outer),
    {
        let r = RispEnv { data: StringHashMap::new(), funcs: StringHashMap::new(), outer: Some(outer) };
        assert(r.data@.map_values(|e: RispExp| e@) =~= Map::empty());
        r
    }

    /// Binds `symbol` to itself as a value and registers `proc` under it, in
    /// this scope.
    pub fn define_procedure(&mut self, symbol: &str, proc: Builtin)
        ensures
            final(self).outer == old(self).outer,
            final(self)@ == old(self)@.update(
                0,
                Frame {
                    vars: old(self)@[0].vars.insert(symbol@, SExp::Symbol(symbol@)),
                    procs: old(self)@[0].procs.insert(symbol@, proc),
                },
            ),
    {
        proof {
            self.lemma_frames();
        }
        let name = symbol.to_owned();
        self.data.insert(symbol.to_owned(), RispExp::Symbol(name));
        self.funcs.insert(symbol.to_owned(), proc);
        proof {
            self.lemma_frames();
            assert(self.data@.map_values(|e: RispExp| e@) =~= old(self)@[0].vars.insert(
                symbol@,
                SExp::Symbol(symbol@),
            ));
            assert(self@ =~= old(self)@.update(
                0,
                Frame {
                    vars: old(self)@[0].vars.insert(symbol@, SExp::Symbol(symbol@)),
                    procs: old(self)@[0].procs.insert(symbol@, proc),
                },
            ));
        }
    }

    /// Binds `symbol` to a copy of `var` in this scope, never in an outer one.
    pub fn define_variable(&mut self, symbol: &str, var: &RispExp)
        ensures
            final(self).outer == old(self).outer,
            final(self)@ == with_vars(old(self)@, old(self)@[0].vars.insert(symbol@, var@)),
    {
        proof {
            self.lemma_frames();
        }
        self.data.insert(symbol.to_owned(), var.deep_copy());
        proof {
            self.lemma_frames();
            assert(self.data@.map_values(|e: RispExp| e@) =~= old(self)@[0].vars.insert(
                symbol@,
                var@,
            ));
            assert(self@ =~= with_vars(old(self)@, old(self)@[0].vars.insert(symbol@, var@)));
        }
    }

    /// The value bound to `symbol` in the innermost scope that binds it.
    pub fn get(&self, symbol: &str) -> (r: Option<RispExp>)
        ensures
            match r {
                Some(v) => lookup_var(self@, symbol@) == Some(v@),
                None => lookup_var(self@, symbol@) is None,
            },
        decreases self,
    {
        proof {
            self.lemma_frames();
        }
        match self.data.get(symbol) {
            Some(v) => {
                assert(self@[0].vars.contains_key(symbol@));
                assert(self@[0].vars[symbol@] == v@);
                Some(v.deep_copy())
            },
            None => {
                assert(!self@[0].vars.contains_key(symbol@));
                assert(lookup_var(self@, symbol@) == lookup_var(self@.drop_first(), symbol@));
                match self.outer {
                    Some(o) => o.get(symbol),
                    None => None,
                }
            },
        }
    }

    /// The builtin registered under `symbol` in the innermost scope that has
    /// one.
    pub fn get_function(&self, symbol: &str) -> (r: Option<Builtin>)
        ensures
            r == lookup_proc(self@, symbol@),
        decreases self,
    {
        proof {
            self.lemma_frames();
        }
        match self.funcs.get(symbol) {
            Some(b) => {
                assert(self@[0].procs.contains_key(symbol@));
                Some(*b)
            },
            None => {
                assert(!self@[0].procs.contains_key(symbol@));
                assert(lookup_proc(self@, symbol@) == lookup_proc(self@.drop_first(), symbol@));
                match self.outer {
                    Some(o) => o.get_function(symbol),
                    None => None,
                }
            },
        }
    }
}

impl<'a> Default for RispEnv<'a> {
    fn default() -> (r: Self)
        ensures
            r@ == seq![Frame { vars: Map::empty(), procs: Map::empty() }],
            r.outer is None,
    {
        Self::new()
    }
}

/// The name under which the standard environment registers a builtin.
pub open spec fn builtin_name(b: Builtin) -> Seq<char> {
    match b {
        Builtin::If => "if"@,
        Builtin::Let => "let"@,
        Builtin::Fn => "fn"@,
        Builtin::Add => "+"@,
        Builtin::Sub => "-"@,
        Builtin::Mul => "*"@,
        Builtin::Div => "/"@,
        Builtin::Unary(UnaryOp::Cos) => "cos"@,
        Builtin::Unary(UnaryOp::Sin) => "sin"@,
        Builtin::Unary(UnaryOp::Tan) => "tan"@,
        Builtin::Unary(UnaryOp::Acos) => "acos"@,
        Builtin::Unary(UnaryOp::Asin) => "asin"@,
        Builtin::Unary(UnaryOp::Atan) => "atan"@,
        Builtin::Unary(UnaryOp::Ln) => "log"@,
        Builtin::Unary(UnaryOp::Log2) => "log2"@,
        Builtin::Unary(UnaryOp::Log10) => "log10"@,
        Builtin::Unary(UnaryOp::Sqrt) => "sqrt"@,
        Builtin::Unary(UnaryOp::Exp) => "exp"@,
        Builtin::Abs => "abs"@,
        Builtin::Pow => "pow"@,
        Builtin::Eq => "="@,
        Builtin::Neq => "!="@,
        Builtin::Gt => ">"@,
        Builtin::Gte => ">="@,
        Builtin::Lt => "<"@,
        Builtin::Lte => "<="@,
    }
}

/// The builtin `if` on raw arguments.
pub fn risp_if<A: Arithmetic>(args: &[RispExp], env: &mut RispEnv, arith: &A) -> (r: Result<
    RispExp,
    RispErr,
>)
    ensures
        builtin_step(*arith, Builtin::If, "if"@, views(args@), old(env)@, final(env)@, r, MAX_DEPTH as int),
{
    apply_builtin(Builtin::If, "if", args, env, arith, MAX_DEPTH)
}

/// The builtin `let` on raw arguments.
pub fn risp_let<A: Arithmetic>(args: &[RispExp], env: &mut RispEnv, arith: &A) -> (r: Result<
    RispExp,
    RispErr,
>)
    ensures
        builtin_step(*arith, Builtin::Let, "let"@, views(args@), old(env)@, final(env)@, r, MAX_DEPTH as int),
{
    apply_builtin(Builtin::Let, "let", args, env, arith, MAX_DEPTH)
}

/// The builtin `fn` on raw arguments.
pub fn risp_lambda<A: Arithmetic>(args: &[RispExp], env: &mut RispEnv, arith: &A) -> (r: Result<
    RispExp,
    RispErr,
>)
    ensures
        builtin_step(*arith, Builtin::Fn, "fn"@, views(args@), old(env)@, final(env)@, r, MAX_DEPTH as int),
{
    apply_builtin(Builtin::Fn, "fn", args, env, arith, MAX_DEPTH)
}

/// The builtin `+` on raw arguments.
pub fn risp_add<A: Arithmetic>(args: &[RispExp], env: &mut RispEnv, arith: &A) -> (r: Result<
    RispExp,
    RispErr,
>)
    ensures
        builtin_step(*arith, Builtin::Add, "+"@, views(args@), old(env)@, final(env)@, r, MAX_DEPTH as int),
{
    apply_builtin(Builtin::Add, "+", args, env, arith, MAX_DEPTH)
}

/// The builtin `-` on raw arguments.
pub fn risp_subtract<A: Arithmetic>(args: &[RispExp], env: &mut RispEnv, arith: &A) -> (r: Result<
    RispExp,
    RispErr,
>)
    ensures
        builtin_step(*arith, Builtin::Sub, "-"@, views(args@), old(env)@, final(env)@, r, MAX_DEPTH as int),
{
    apply_builtin(Builtin::Sub, "-", args, env, arith, MAX_DEPTH)
}

/// The builtin `*` on raw arguments.
pub fn risp_multiply<A: Arithmetic>(args: &[RispExp], env: &mut RispEnv, arith: &A) -> (r: Result<
    RispExp,
    RispErr,
>)
    ensures
        builtin_step(*arith, Builtin::Mul, "*"@, views(args@), old(env)@, final(env)@, r, MAX_DEPTH as int),
{
    apply_builtin(Builtin::Mul, "*", args, env, arith, MAX_DEPTH)
}

/// The builtin `/` on raw arguments.
pub fn risp_divide<A: Arithmetic>(args: &[RispExp], env: &mut RispEnv, arith: &A) -> (r: Result<
    RispExp,
    RispErr,
>)
    ensures
        builtin_step(*arith, Builtin::Div, "/"@, views(args@), old(env)@, final(env)@, r, MAX_DEPTH as int),
{
    apply_builtin(Builtin::Div, "/", args, env, arith, MAX_DEPTH)
}

/// The builtin `cos` on raw arguments.
pub fn risp_cosine<A: Arithmetic>(args: &[RispExp], env: &mut RispEnv, arith: &A) -> (r: Result<
    RispExp,
    RispErr,
>)
    ensures
        builtin_step(*arith, Builtin::Unary(UnaryOp::Cos), "cos"@, views(args@), old(env)@, final(env)@, r, MAX_DEPTH as int),
{
    apply_builtin(Builtin::Unary(UnaryOp::Cos), "cos", args, env, arith, MAX_DEPTH)
}

/// The builtin `sin` on raw arguments.
pub fn risp_sine<A: Arithmetic>(args: &[RispExp], env: &mut RispEnv, arith: &A) -> (r: Result<
    RispExp,
    RispErr,
>)
    ensures
        builtin_step(*arith, Builtin::Unary(UnaryOp::Sin), "sin"@, views(args@), old(env)@, final(env)@, r, MAX_DEPTH as int),
{
    apply_builtin(Builtin::Unary(UnaryOp::Sin), "sin", args, env, arith, MAX_DEPTH)
}

/// The builtin `tan` on raw arguments.
pub fn risp_tangent<A: Arithmetic>(args: &[RispExp], env: &mut RispEnv, arith: &A) -> (r: Result<
    RispExp,
    RispErr,
>)
    ensures
        builtin_step(*arith, Builtin::Unary(UnaryOp::Tan), "tan"@, views(args@), old(env)@, final(env)@, r, MAX_DEPTH as int),
{
    apply_builtin(Builtin::Unary(UnaryOp::Tan), "tan", args, env, arith, MAX_DEPTH)
}

/// The builtin `acos` on raw arguments.
pub fn risp_acos<A: Arithmetic>(args: &[RispExp], env: &mut RispEnv, arith: &A) -> (r: Result<
    RispExp,
    RispErr,
>)
    ensures
        builtin_step(*arith, Builtin::Unary(UnaryOp::Acos), "acos"@, views(args@), old(env)@, final(env)@, r, MAX_DEPTH as int),
{
    apply_builtin(Builtin::Unary(UnaryOp::Acos), "acos", args, env, arith, MAX_DEPTH)
}

/// The builtin `asin` on raw arguments.
pub fn risp_asin<A: Arithmetic>(args: &[RispExp], env: &mut RispEnv, arith: &A) -> (r: Result<
    RispExp,
    RispErr,
>)
    ensures
        builtin_step(*arith, Builtin::Unary(UnaryOp::Asin), "asin"@, views(args@), old(env)@, final(env)@, r, MAX_DEPTH as int),
{
    apply_builtin(Builtin::Unary(UnaryOp::Asin), "asin", args, env, arith, MAX_DEPTH)
}

/// The builtin `atan` on raw arguments.
pub fn risp_atan<A: Arithmetic>(args: &[RispExp], env: &mut RispEnv, arith: &A) -> (r: Result<
    RispExp,
    RispErr,
>)
    ensures
        builtin_step(*arith, Builtin::Unary(UnaryOp::Atan), "atan"@, views(args@), old(env)@, final(env)@, r, MAX_DEPTH as int),
{
    apply_builtin(Builtin::Unary(UnaryOp::Atan), "atan", args, env, arith, MAX_DEPTH)
}

/// The builtin `log` on raw arguments.
pub fn risp_log<A: Arithmetic>(args: &[RispExp], env: &mut RispEnv, arith: &A) -> (r: Result<
    RispExp,
    RispErr,
>)
    ensures
        builtin_step(*arith, Builtin::Unary(UnaryOp::Ln), "log"@, views(args@), old(env)@, final(env)@, r, MAX_DEPTH as int),
{
    apply_builtin(Builtin::Unary(UnaryOp::Ln), "log", args, env, arith, MAX_DEPTH)
}

/// The builtin `log2` on raw arguments.
pub fn risp_log2<A: Arithmetic>(args: &[RispExp], env: &mut RispEnv, arith: &A) -> (r: Result<
    RispExp,
    RispErr,
>)
    ensures
        builtin_step(*arith, Builtin::Unary(UnaryOp::Log2), "log2"@, views(args@), old(env)@, final(env)@, r, MAX_DEPTH as int),
{
    apply_builtin(Builtin::Unary(UnaryOp::Log2), "log2", args, env, arith, MAX_DEPTH)
}

/// The builtin `log10` on raw arguments.
pub fn risp_log10<A: Arithmetic>(args: &[RispExp], env: &mut RispEnv, arith: &A) -> (r: Result<
    RispExp,
    RispErr,
>)
    ensures
        builtin_step(*arith, Builtin::Unary(UnaryOp::Log10), "log10"@, views(args@), old(env)@, final(env)@, r, MAX_DEPTH as int),
{
    apply_builtin(Builtin::Unary(UnaryOp::Log10), "log10", args, env, arith, MAX_DEPTH)
}

/// The builtin `sqrt` on raw arguments.
pub fn risp_sqrt<A: Arithmetic>(args: &[RispExp], env: &mut RispEnv, arith: &A) -> (r: Result<
    RispExp,
    RispErr,
>)
    ensures
        builtin_step(*arith, Builtin::Unary(UnaryOp::Sqrt), "sqrt"@, views(args@), old(env)@, final(env)@, r, MAX_DEPTH as int),
{
    apply_builtin(Builtin::Unary(UnaryOp::Sqrt), "sqrt", args, env, arith, MAX_DEPTH)
}

/// The builtin `exp` on raw arguments.
pub fn risp_exp<A: Arithmetic>(args: &[RispExp], env: &mut RispEnv, arith: &A) -> (r: Result<
    RispExp,
    RispErr,
>)
    ensures
        builtin_step(*arith, Builtin::Unary(UnaryOp::Exp), "exp"@, views(args@), old(env)@, final(env)@, r, MAX_DEPTH as int),
{
    apply_builtin(Builtin::Unary(UnaryOp::Exp), "exp", args, env, arith, MAX_DEPTH)
}

/// The builtin `abs` on raw arguments.
pub fn risp_abs<A: Arithmetic>(args: &[RispExp], env: &mut RispEnv, arith: &A) -> (r: Result<
    RispExp,
    RispErr,
>)
    ensures
        builtin_step(*arith, Builtin::Abs, "abs"@, views(args@), old(env)@, final(env)@, r, MAX_DEPTH as int),
{
    apply_builtin(Builtin::Abs, "abs", args, env, arith, MAX_DEPTH)
}

/// The builtin `pow` on raw arguments.
pub fn risp_pow<A: Arithmetic>(args: &[RispExp], env: &mut RispEnv, arith: &A) -> (r: Result<
    RispExp,
    RispErr,
>)
    ensures
        builtin_step(*arith, Builtin::Pow, "pow"@, views(args@), old(env)@, final(env)@, r, MAX_DEPTH as int),
{
    apply_builtin(Builtin::Pow, "pow", args, env, arith, MAX_DEPTH)
}

/// The builtin `=` on raw arguments.
pub fn risp_eq<A: Arithmetic>(args: &[RispExp], env: &mut RispEnv, arith: &A) -> (r: Result<
    RispExp,
    RispErr,
>)
    ensures
        builtin_step(*arith, Builtin::Eq, "="@, views(args@), old(env)@, final(env)@, r, MAX_DEPTH as int),
{
    apply_builtin(Builtin::Eq, "=", args, env, arith, MAX_DEPTH)
}

/// The builtin `!=` on raw arguments.
pub fn risp_neq<A: Arithmetic>(args: &[RispExp], env: &mut RispEnv, arith: &A) -> (r: Result<
    RispExp,
    RispErr,
>)
    ensures
        builtin_step(*arith, Builtin::Neq, "!="@, views(args@), old(env)@, final(env)@, r, MAX_DEPTH as int),
{
    apply_builtin(Builtin::Neq, "!=", args, env, arith, MAX_DEPTH)
}

/// The builtin `>` on raw arguments.
pub fn risp_gt<A: Arithmetic>(args: &[RispExp], env: &mut RispEnv, arith: &A) -> (r: Result<
    RispExp,
    RispErr,
>)
    ensures
        builtin_step(*arith, Builtin::Gt, ">"@, views(args@), old(env)@, final(env)@, r, MAX_DEPTH as int),
{
    apply_builtin(Builtin::Gt, ">", args, env, arith, MAX_DEPTH)
}

/// The builtin `>=` on raw arguments.
pub fn risp_gte<A: Arithmetic>(args: &[RispExp], env: &mut RispEnv, arith: &A) -> (r: Result<
    RispExp,
    RispErr,
>)
    ensures
        builtin_step(*arith, Builtin::Gte, ">="@, views(args@), old(env)@, final(env)@, r, MAX_DEPTH as int),
{
    apply_builtin(Builtin::Gte, ">=", args, env, arith, MAX_DEPTH)
}

/// The builtin `<` on raw arguments.
pub fn risp_lt<A: Arithmetic>(args: &[RispExp], env: &mut RispEnv, arith: &A) -> (r: Result<
    RispExp,
    RispErr,
>)
    ensures
        builtin_step(*arith, Builtin::Lt, "<"@, views(args@), old(env)@, final(env)@, r, MAX_DEPTH as int),
{
    apply_builtin(Builtin::Lt, "<", args, env, arith, MAX_DEPTH)
}

/// The builtin `<=` on raw arguments.
pub fn risp_lte<A: Arithmetic>(args: &[RispExp], env: &mut RispEnv, arith: &A) -> (r: Result<
    RispExp,
    RispErr,
>)
    ensures
        builtin_step(*arith, Builtin::Lte, "<="@, views(args@), old(env)@, final(env)@, r, MAX_DEPTH as int),
{
    apply_builtin(Builtin::Lte, "<=", args, env, arith, MAX_DEPTH)
}

/// The builtins of the standard environment, each under `builtin_name`.
pub open spec fn standard_procs() -> Map<Seq<char>, Builtin> {
    Map::empty()
        .insert(builtin_name(Builtin::If), Builtin::If)
        .insert(builtin_name(Builtin::Let), Builtin::Let)
        .insert(builtin_name(Builtin::Fn), Builtin::Fn)
        .insert(builtin_name(Builtin::Add), Builtin::Add)
        .insert(builtin_name(Builtin::Sub), Builtin::Sub)
        .insert(builtin_name(Builtin::Mul), Builtin::Mul)
        .insert(builtin_name(Builtin::Div), Builtin::Div)
        .insert(builtin_name(Builtin::Unary(UnaryOp::Cos)), Builtin::Unary(UnaryOp::Cos))
        .insert(builtin_name(Builtin::Unary(UnaryOp::Sin)), Builtin::Unary(UnaryOp::Sin))
        .insert(builtin_name(Builtin::Unary(UnaryOp::Tan)), Builtin::Unary(UnaryOp::Tan))
        .insert(builtin_name(Builtin::Unary(UnaryOp::Acos)), Builtin::Unary(UnaryOp::Acos))
        .insert(builtin_name(Builtin::Unary(UnaryOp::Asin)), Builtin::Unary(UnaryOp::Asin))
        .insert(builtin_name(Builtin::Unary(UnaryOp::Atan)), Builtin::Unary(UnaryOp::Atan))
        .insert(builtin_name(Builtin::Unary(UnaryOp::Ln)), Builtin::Unary(UnaryOp::Ln))
        .insert(builtin_name(Builtin::Unary(UnaryOp::Log2)), Builtin::Unary(UnaryOp::Log2))
        .insert(builtin_name(Builtin::Unary(UnaryOp::Log10)), Builtin::Unary(UnaryOp::Log10))
        .insert(builtin_name(Builtin::Unary(UnaryOp::Sqrt)), Builtin::Unary(UnaryOp::Sqrt))
        .insert(builtin_name(Builtin::Unary(UnaryOp::Exp)), Builtin::Unary(UnaryOp::Exp))
        .insert(builtin_name(Builtin::Abs), Builtin::Abs)
        .insert(builtin_name(Builtin::Pow), Builtin::Pow)
        .insert(builtin_name(Builtin::Eq), Builtin::Eq)
        .insert(builtin_name(Builtin::Neq), Builtin::Neq)
        .insert(builtin_name(Builtin::Gt), Builtin::Gt)
        .insert(builtin_name(Builtin::Gte), Builtin::Gte)
        .insert(builtin_name(Builtin::Lt), Builtin::Lt)
        .insert(builtin_name(Builtin::Lte), Builtin::Lte)
}

/// The variables of the standard environment: each builtin's name bound to
/// itself as a symbol, and `pi`.
pub open spec fn standard_vars() -> Map<Seq<char>, SExp> {
    Map::empty()
        .insert(builtin_name(Builtin::If), SExp::Symbol(builtin_name(Builtin::If)))
        .insert(builtin_name(Builtin::Let), SExp::Symbol(builtin_name(Builtin::Let)))
        .insert(builtin_name(Builtin::Fn), SExp::Symbol(builtin_name(Builtin::Fn)))
        .insert(builtin_name(Builtin::Add), SExp::Symbol(builtin_name(Builtin::Add)))
        .insert(builtin_name(Builtin::Sub), SExp::Symbol(builtin_name(Builtin::Sub)))
        .insert(builtin_name(Builtin::Mul), SExp::Symbol(builtin_name(Builtin::Mul)))
        .insert(builtin_name(Builtin::Div), SExp::Symbol(builtin_name(Builtin::Div)))
        .insert(builtin_name(Builtin::Unary(UnaryOp::Cos)), SExp::Symbol(builtin_name(Builtin::Unary(UnaryOp::Cos))))
        .insert(builtin_name(Builtin::Unary(UnaryOp::Sin)), SExp::Symbol(builtin_name(Builtin::Unary(UnaryOp::Sin))))
        .insert(builtin_name(Builtin::Unary(UnaryOp::Tan)), SExp::Symbol(builtin_name(Builtin::Unary(UnaryOp::Tan))))
        .insert(builtin_name(Builtin::Unary(UnaryOp::Acos)), SExp::Symbol(builtin_name(Builtin::Unary(UnaryOp::Acos))))
        .insert(builtin_name(Builtin::Unary(UnaryOp::Asin)), SExp::Symbol(builtin_name(Builtin::Unary(UnaryOp::Asin))))
        .insert(builtin_name(Builtin::Unary(UnaryOp::Atan)), SExp::Symbol(builtin_name(Builtin::Unary(UnaryOp::Atan))))
        .insert(builtin_name(Builtin::Unary(UnaryOp::Ln)), SExp::Symbol(builtin_name(Builtin::Unary(UnaryOp::Ln))))
        .insert(builtin_name(Builtin::Unary(UnaryOp::Log2)), SExp::Symbol(builtin_name(Builtin::Unary(UnaryOp::Log2))))
        .insert(builtin_name(Builtin::Unary(UnaryOp::Log10)), SExp::Symbol(builtin_name(Builtin::Unary(UnaryOp::Log10))))
        .insert(builtin_name(Builtin::Unary(UnaryOp::Sqrt)), SExp::Symbol(builtin_name(Builtin::Unary(UnaryOp::Sqrt))))
        .insert(builtin_name(Builtin::Unary(UnaryOp::Exp)), SExp::Symbol(builtin_name(Builtin::Unary(UnaryOp::Exp))))
        .insert(builtin_name(Builtin::Abs), SExp::Symbol(builtin_name(Builtin::Abs)))
        .insert(builtin_name(Builtin::Pow), SExp::Symbol(builtin_name(Builtin::Pow)))
        .insert(builtin_name(Builtin::Eq), SExp::Symbol(builtin_name(Builtin::Eq)))
        .insert(builtin_name(Builtin::Neq), SExp::Symbol(builtin_name(Builtin::Neq)))
        .insert(builtin_name(Builtin::Gt), SExp::Symbol(builtin_name(Builtin::Gt)))
        .insert(builtin_name(Builtin::Gte), SExp::Symbol(builtin_name(Builtin::Gte)))
        .insert(builtin_name(Builtin::Lt), SExp::Symbol(builtin_name(Builtin::Lt)))
        .insert(builtin_name(Builtin::Lte), SExp::Symbol(builtin_name(Builtin::Lte)))
        .insert("pi"@, SExp::Number(PI))
}

/// The starting scope of a session: `pi` and every builtin under its name.
pub fn standard_env<'a>() -> (r: RispEnv<'a>)
    ensures
        r@ == seq![Frame { vars: standard_vars(), procs: standard_procs() }],
        r.outer is None,
{
    let mut env = RispEnv::default();
    env.define_procedure("if", Builtin::If);
    env.define_procedure("let", Builtin::Let);
    env.define_procedure("fn", Builtin::Fn);
    env.define_procedure("+", Builtin::Add);
    env.define_procedure("-", Builtin::Sub);
    env.define_procedure("*", Builtin::Mul);
    env.define_procedure("/", Builtin::Div);
    env.define_procedure("cos", Builtin::Unary(UnaryOp::Cos));
    env.define_procedure("sin", Builtin::Unary(UnaryOp::Sin));
    env.define_procedure("tan", Builtin::Unary(UnaryOp::Tan));
    env.define_procedure("acos", Builtin::Unary(UnaryOp::Acos));
    env.define_procedure("asin", Builtin::Unary(UnaryOp::Asin));
    env.define_procedure("atan", Builtin::Unary(UnaryOp::Atan));
    env.define_procedure("log", Builtin::Unary(UnaryOp::Ln));
    env.define_procedure("log2", Builtin::Unary(UnaryOp::Log2));
    env.define_procedure("log10", Builtin::Unary(UnaryOp::Log10));
    env.define_procedure("sqrt", Builtin::Unary(UnaryOp::Sqrt));
    env.define_procedure("exp", Builtin::Unary(UnaryOp::Exp));
    env.define_procedure("abs", Builtin::Abs);
    env.define_procedure("pow", Builtin::Pow);
    env.define_procedure("=", Builtin::Eq);
    env.define_procedure("!=", Builtin::Neq);
    env.define_procedure(">", Builtin::Gt);
    env.define_procedure(">=", Builtin::Gte);
    env.define_procedure("<", Builtin::Lt);
    env.define_procedure("<=", Builtin::Lte);
    env.define_variable("pi", &RispExp::Number(PI));
    assert(env@ =~= seq![Frame { vars: standard_vars(), procs: standard_procs() }]);
    env
}

} // verus!
