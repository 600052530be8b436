use core::cmp::Ordering;
use vstd::prelude::*;
use vstd::utf8::encode_utf8;

verus! {

/// An expression of the language. A number is held as the IEEE-754 binary64
/// bit pattern of its value.
#[derive(Debug)]
pub enum RispExp {
    Bool(bool),
    Symbol(String),
    Number(u64),
    List(Vec<RispExp>),
    Lambda(Box<RispExp>, Box<RispExp>),
}

/// The mathematical value of an expression.
pub enum SExp {
    Bool(bool),
    Symbol(Seq<char>),
    Number(u64),
    List(Seq<SExp>),
    Lambda(Box<SExp>, Box<SExp>),
}

impl View for RispExp {
    type V = SExp;

    open spec fn view(&self) -> SExp {
        exp_view(*self)
    }
}

/// The value of an expression.
pub open spec fn exp_view(e: RispExp) -> SExp
    decreases e, 1nat,
{
    match e {
        RispExp::Bool(b) => SExp::Bool(b),
        RispExp::Symbol(s) => SExp::Symbol(s@),
        RispExp::Number(n) => SExp::Number(n),
        RispExp::List(v) => SExp::List(items_view(v, v.len() as int)),
        RispExp::Lambda(p, b) => SExp::Lambda(Box::new(exp_view(*p)), Box::new(exp_view(*b))),
    }
}

/// The values of the first `n` items of `v`.
pub open spec fn items_view(v: Vec<RispExp>, n: int) -> Seq<SExp>
    decreases v, 0nat, n,
{
    if n <= 0 || n > v.len() {
        Seq::empty()
    } else {
        items_view(v, n - 1).push(exp_view(v[n - 1]))
    }
}

impl RispExp {
    /// A copy of the expression, item by item.
    pub fn deep_copy(&self) -> (r: RispExp)
        ensures
            r@ == self@,
        decreases self,
    {
        match self {
            RispExp::Bool(b) => RispExp::Bool(*b),
            RispExp::Symbol(s) => RispExp::Symbol(s.clone()),
            RispExp::Number(n) => RispExp::Number(*n),
            RispExp::List(v) => {
                let mut w: Vec<RispExp> = Vec::new();
                let mut i: usize = 0;
                while i < v.len()
                    invariant
                        *self == RispExp::List(*v),
                        i <= v.len(),
                        w.len() == i,
                        forall|j: int| 0 <= j < i ==> (#[trigger] w[j])@ == v[j]@,
                    decreases v.len() - i,
                {
                    proof {
                        let ghost me: RispExp = *self;
                        assert(decreases_to!(me => me->List_0));
                    }
                    w.push(v[i].deep_copy());
                    i = i + 1;
                }
                let ghost wv = w;
                let r = RispExp::List(w);
                assert(r@ == self@) by {
                    lemma_list_view(*self, *v);
                    lemma_list_view(r, wv);
                    assert(r@->List_0 =~= (*self)@->List_0);
                }
                r
            },
            RispExp::Lambda(p, b) => RispExp::Lambda(
                Box::new(p.deep_copy()),
                Box::new(b.deep_copy()),
            ),
        }
    }
}

proof fn lemma_items_view(v: Vec<RispExp>, n: int)
    requires
        0 <= n <= v.len(),
    ensures
        items_view(v, n).len() == n,
        forall|j: int| 0 <= j < n ==> items_view(v, n)[j] == (#[trigger] v[j])@,
    decreases n,
{
    if n > 0 {
        lemma_items_view(v, n - 1);
    }
}

pub(crate) proof fn lemma_list_view(e: RispExp, v: Vec<RispExp>)
    requires
        e == RispExp::List(v),
    ensures
        e@ is List,
        e@->List_0.len() == v.len(),
        forall|j: int| 0 <= j < v.len() ==> #[trigger] e@->List_0[j] == v[j]@,
{
    lemma_items_view(v, v.len() as int);
}

impl Clone for RispExp {
    fn clone(&self) -> (r: Self)
        ensures
            r@ == self@,
    {
        self.deep_copy()
    }
}

/// How many tokens the written form of `e` takes: one for an atom, and for a
/// list its two parentheses and the tokens of its items.
pub open spec fn token_count_of(e: SExp) -> nat
    decreases e,
{
    match e {
        SExp::List(items) => 2 + items_token_count(items),
        _ => 1,
    }
}

/// The sum of `token_count_of` over a sequence of expressions.
pub open spec fn items_token_count(items: Seq<SExp>) -> nat
    decreases items,
{
    if items.len() == 0 {
        0
    } else {
        items_token_count(items.drop_last()) + token_count_of(items.last())
    }
}

/// The order of two integers.
pub open spec fn order_of(x: int, y: int) -> Ordering {
    if x < y {
        Ordering::Less
    } else if x == y {
        Ordering::Equal
    } else {
        Ordering::Greater
    }
}

/// The position of a variant in the declaration, which orders values of
/// different variants.
pub open spec fn variant_rank(e: SExp) -> int {
    match e {
        SExp::Bool(_) => 0,
        SExp::Symbol(_) => 1,
        SExp::Number(_) => 2,
        SExp::List(_) => 3,
        SExp::Lambda(_, _) => 4,
    }
}

/// The bit pattern is a NaN: all exponent bits set and a nonzero fraction.
pub open spec fn is_nan_bits(b: u64) -> bool {
    (b & 0x7ff0_0000_0000_0000u64) == 0x7ff0_0000_0000_0000u64 && (b & 0x000f_ffff_ffff_ffffu64)
        != 0
}

/// A key that orders non-NaN bit patterns as their values are ordered: the
/// magnitude bits, negated when the sign bit is set (so both zeros are 0).
pub open spec fn number_key(b: u64) -> int {
    let m = (b & 0x7fff_ffff_ffff_ffffu64) as int;
    if b >= 0x8000_0000_0000_0000u64 {
        -m
    } else {
        m
    }
}

/// How two binary64 values compare: no order if either is NaN.
pub open spec fn compare_numbers(a: u64, b: u64) -> Option<Ordering> {
    if is_nan_bits(a) || is_nan_bits(b) {
        None
    } else {
        Some(order_of(number_key(a), number_key(b)))
    }
}

/// Lexicographic order of byte strings from position `i` on.
pub open spec fn compare_bytes_from(x: Seq<u8>, y: Seq<u8>, i: int) -> Ordering
    decreases x.len() - i,
{
    if i < 0 || i >= x.len() || i >= y.len() {
        order_of(x.len() as int, y.len() as int)
    } else if x[i] != y[i] {
        order_of(x[i] as int, y[i] as int)
    } else {
        compare_bytes_from(x, y, i + 1)
    }
}

/// The order of two names: by the bytes of their UTF-8 encoding.
pub open spec fn compare_text(x: Seq<char>, y: Seq<char>) -> Ordering {
    compare_bytes_from(encode_utf8(x), encode_utf8(y), 0)
}

/// The structural order of expressions: by variant first, then by contents,
/// lists lexicographically and lambdas by parameters, then body.
pub open spec fn compare(a: SExp, b: SExp) -> Option<Ordering>
    decreases a, 0int,
{
    match (a, b) {
        (SExp::Bool(x), SExp::Bool(y)) => Some(order_of(x as int, y as int)),
        (SExp::Symbol(x), SExp::Symbol(y)) => Some(compare_text(x, y)),
        (SExp::Number(x), SExp::Number(y)) => compare_numbers(x, y),
        (SExp::List(xs), SExp::List(ys)) => compare_items(xs, ys, 0),
        (SExp::Lambda(p, q), SExp::Lambda(r, t)) => match compare(*p, *r) {
            Some(Ordering::Equal) => compare(*q, *t),
            o => o,
        },
        _ => Some(order_of(variant_rank(a), variant_rank(b))),
    }
}

/// Lexicographic order of item sequences from position `i` on.
pub open spec fn compare_items(xs: Seq<SExp>, ys: Seq<SExp>, i: int) -> Option<Ordering>
    decreases xs, xs.len() - i,
{
    if i < 0 || i >= xs.len() || i >= ys.len() {
        Some(order_of(xs.len() as int, ys.len() as int))
    } else {
        match compare(xs[i], ys[i]) {
            Some(Ordering::Equal) => compare_items(xs, ys, i + 1),
            o => o,
        }
    }
}

/// Structural equality: the two expressions compare as equal.
pub open spec fn same(a: SExp, b: SExp) -> bool {
    compare(a, b) == Some(Ordering::Equal)
}

fn order_u64(x: u64, y: u64) -> (r: Ordering)
    ensures
        r == order_of(x as int, y as int),
{
    if x < y {
        Ordering::Less
    } else if x == y {
        Ordering::Equal
    } else {
        Ordering::Greater
    }
}

fn order_usize(x: usize, y: usize) -> (r: Ordering)
    ensures
        r == order_of(x as int, y as int),
{
    order_u64(x as u64, y as u64)
}

/// Compares two binary64 values given by their bit patterns.
pub fn number_order(a: u64, b: u64) -> (r: Option<Ordering>)
    ensures
        r == compare_numbers(a, b),
{
    let a_nan = (a & 0x7ff0_0000_0000_0000u64) == 0x7ff0_0000_0000_0000u64 && (a
        & 0x000f_ffff_ffff_ffffu64) != 0;
    let b_nan = (b & 0x7ff0_0000_0000_0000u64) == 0x7ff0_0000_0000_0000u64 && (b
        & 0x000f_ffff_ffff_ffffu64) != 0;
    if a_nan || b_nan {
        return None;
    }
    let am = a & 0x7fff_ffff_ffff_ffffu64;
    let bm = b & 0x7fff_ffff_ffff_ffffu64;
    let a_neg = a >= 0x8000_0000_0000_0000u64;
    let b_neg = b >= 0x8000_0000_0000_0000u64;
    let r = if !a_neg && !b_neg {
        order_u64(am, bm)
    } else if a_neg && b_neg {
        order_u64(bm, am)
    } else if am == 0 && bm == 0 {
        Ordering::Equal
    } else if a_neg {
        Ordering::Less
    } else {
        Ordering::Greater
    };
    Some(r)
}

fn text_order(x: &String, y: &String) -> (r: Ordering)
    ensures
        r == compare_text(x@, y@),
{
    let xb = x.as_str().as_bytes();
    let yb = y.as_str().as_bytes();
    let mut i: usize = 0;
    while i < xb.len() && i < yb.len()
        invariant
            xb@ == encode_utf8(x@),
            yb@ == encode_utf8(y@),
            i <= xb.len(),
            i <= yb.len(),
            compare_bytes_from(xb@, yb@, 0) == compare_bytes_from(xb@, yb@, i as int),
        decreases xb.len() - i,
    {
        if xb[i] != yb[i] {
            return order_u64(xb[i] as u64, yb[i] as u64);
        }
        i = i + 1;
    }
    order_usize(xb.len(), yb.len())
}

/// Compares two expressions in the structural order.
pub fn exp_order(a: &RispExp, b: &RispExp) -> (r: Option<Ordering>)
    ensures
        r == compare(a@, b@),
    decreases a,
{
    match (a, b) {
        (RispExp::Bool(x), RispExp::Bool(y)) => Some(order_u64(*x as u64, *y as u64)),
        (RispExp::Symbol(x), RispExp::Symbol(y)) => Some(text_order(x, y)),
        (RispExp::Number(x), RispExp::Number(y)) => number_order(*x, *y),
        (RispExp::List(xs), RispExp::List(ys)) => {
            proof {
                lemma_list_view(*a, *xs);
                lemma_list_view(*b, *ys);
            }
            let ghost xv = a@->List_0;
            let ghost yv = b@->List_0;
            let mut i: usize = 0;
            while i < xs.len() && i < ys.len()
                invariant
                    *a == RispExp::List(*xs),
                    *b == RispExp::List(*ys),
                    xv == a@->List_0,
                    yv == b@->List_0,
                    xv.len() == xs.len(),
                    yv.len() == ys.len(),
                    forall|j: int| 0 <= j < xs.len() ==> #[trigger] xv[j] == xs[j]@,
                    forall|j: int| 0 <= j < ys.len() ==> #[trigger] yv[j] == ys[j]@,
                    i <= xs.len(),
                    i <= ys.len(),
                    compare_items(xv, yv, 0) == compare_items(xv, yv, i as int),
                decreases xs.len() - i,
            {
                proof {
                    let ghost me: RispExp = *a;
                    assert(decreases_to!(me => me->List_0));
                }
                let o = exp_order(&xs[i], &ys[i]);
                assert(xv[i as int] == xs[i as int]@);
                assert(yv[i as int] == ys[i as int]@);
                match o {
                    Some(Ordering::Equal) => {},
                    _ => {
                        return o;
                    },
                }
                i = i + 1;
            }
            Some(order_usize(xs.len(), ys.len()))
        },
        (RispExp::Lambda(p, q), RispExp::Lambda(r, t)) => {
            let o = exp_order(p, r);
            match o {
                Some(Ordering::Equal) => exp_order(q, t),
                _ => o,
            }
        },
        _ => Some(order_u64(rank(a), rank(b))),
    }
}

fn rank(e: &RispExp) -> (r: u64)
    ensures
        r == variant_rank(e@),
{
    match e {
        RispExp::Bool(_) => 0,
        RispExp::Symbol(_) => 1,
        RispExp::Number(_) => 2,
        RispExp::List(_) => 3,
        RispExp::Lambda(_, _) => 4,
    }
}

impl PartialEq for RispExp {
    fn eq(&self, other: &RispExp) -> (r: bool)
        ensures
            r == same(self@, other@),
    {
        match exp_order(self, other) {
            Some(Ordering::Equal) => true,
            _ => false,
        }
    }
}

impl vstd::std_specs::cmp::PartialEqSpecImpl for RispExp {
    open spec fn obeys_eq_spec() -> bool {
        true
    }

    open spec fn eq_spec(&self, other: &RispExp) -> bool {
        same(self@, other@)
    }
}

impl PartialOrd for RispExp {
    fn partial_cmp(&self, other: &RispExp) -> (r: Option<Ordering>)
        ensures
            r == compare(self@, other@),
    {
        exp_order(self, other)
    }
}

impl vstd::std_specs::cmp::PartialOrdSpecImpl for RispExp {
    open spec fn obeys_partial_cmp_spec() -> bool {
        true
    }

    open spec fn partial_cmp_spec(&self, other: &RispExp) -> Option<Ordering> {
        compare(self@, other@)
    }
}

/// Why reading program text failed.
#[derive(Debug, PartialEq, Eq, Clone, Copy)]
pub enum LexError {
    /// The tokens ran out where a form was expected.
    UnexpectedEnd,
    /// A form starts with `)`.
    UnexpectedClose,
}

/// Why reading or evaluating failed.
#[derive(Debug, PartialEq)]
pub enum RispErr {
    /// The text holds no complete form where one is expected.
    Lex(LexError),
    /// A form or builtin got a wrong number of arguments; it carries the name
    /// that was called.
    Arity(String),
    /// A value is not of the kind expected; it carries the offending
    /// expression.
    Type(RispExp),
    /// The head of a call names neither a builtin nor a lambda.
    UndefinedProcedure(String),
    /// The head of a call is not a symbol.
    NotCallable(RispExp),
    /// Evaluation nested deeper than the evaluator allows.
    TooDeep,
}

} // verus!
