use crate::arith::Arithmetic;
use crate::exp::{RispExp, SExp};
use crate::reader::push_char;
use vstd::prelude::*;
use vstd::string::StringExecFns;

verus! {

/// The printed form of a value: booleans as `true` and `false`, symbols as
/// written, numbers as `arith` writes them, a list as its items' printed forms
/// between parentheses and separated by commas, and a lambda as its parameter
/// list, a space, and its body.
pub open spec fn shown<A: Arithmetic>(arith: A, e: SExp) -> Seq<char>
    decreases e, 1int,
{
    match e {
        SExp::Bool(true) => seq!['t', 'r', 'u', 'e'],
        SExp::Bool(false) => seq!['f', 'a', 'l', 's', 'e'],
        SExp::Symbol(s) => s,
        SExp::Number(n) => arith.number_text(n)@,
        SExp::List(items) => seq!['('] + joined(arith, items, items.len() as int) + seq![')'],
        SExp::Lambda(p, b) => shown(arith, *p) + seq![' '] + shown(arith, *b),
    }
}

/// The printed forms of the first `n` items, separated by commas.
pub open spec fn joined<A: Arithmetic>(arith: A, items: Seq<SExp>, n: int) -> Seq<char>
    decreases items, n,
{
    if n <= 0 || n > items.len() {
        Seq::empty()
    } else if n == 1 {
        shown(arith, items[0])
    } else {
        joined(arith, items, n - 1) + seq![','] + shown(arith, items[n - 1])
    }
}

/// The printed form of `e`; numbers as `arith` writes them.
pub fn display<A: Arithmetic>(e: &RispExp, arith: &A) -> (r: String)
    ensures
        r@ == shown(*arith, e@),
    decreases e,
{
    match e {
        RispExp::Bool(b) => {
            let s = if *b {
                "true".to_owned()
            } else {
                "false".to_owned()
            };
            proof {
                reveal_strlit("true");
                reveal_strlit("false");
            }
            assert(s@ =~= shown(*arith, e@));
            s
        },
        RispExp::Symbol(s) => s.clone(),
        RispExp::Number(n) => arith.format_number(*n),
        RispExp::List(v) => {
            proof {
                crate::exp::lemma_list_view(*e, *v);
            }
            let ghost items = e@->List_0;
            let mut out = String::new();
            push_char(&mut out, '(');
            let mut i: usize = 0;
            while i < v.len()
                invariant
                    *e == RispExp::List(*v),
                    items == e@->List_0,
                    items.len() == v.len(),
                    forall|j: int| 0 <= j < v.len() ==> #[trigger] items[j] == v[j]@,
                    i <= v.len(),
                    out@ == seq!['('] + joined(*arith, items, i as int),
                decreases v.len() - i,
            {
                proof {
                    let ghost me: RispExp = *e;
                    assert(decreases_to!(me => me->List_0));
                }
                let ghost before = out@;
                if i > 0 {
                    push_char(&mut out, ',');
                }
                let part = display(&v[i], arith);
                out.append(part.as_str());
                proof {
                    assert(items[i as int] == v[i as int]@);
                    if i == 0 {
                        assert(joined(*arith, items, 0) =~= Seq::<char>::empty());
                        assert(out@ =~= seq!['('] + joined(*arith, items, 1));
                    } else {
                        assert(out@ =~= seq!['('] + joined(*arith, items, i + 1));
                    }
                }
                i = i + 1;
            }
            push_char(&mut out, ')');
            out
        },
        RispExp::Lambda(p, b) => {
            let mut out = display(p, arith);
            push_char(&mut out, ' ');
            let body = display(b, arith);
            out.append(body.as_str());
            out
        },
    }
}

} // verus!
