use crate::arith::Arithmetic;
use crate::exp::{items_token_count, token_count_of, LexError, RispErr, RispExp, SExp};
use vstd::prelude::*;

verus! {

/// The characters that `char::is_whitespace` accepts (Unicode White_Space).
pub open spec fn is_space(c: char) -> bool {
    ||| c == ' '
    ||| ('\u{9}' <= c && c <= '\u{d}')
    ||| c == '\u{85}'
    ||| c == '\u{a0}'
    ||| c == '\u{1680}'
    ||| ('\u{2000}' <= c && c <= '\u{200a}')
    ||| c == '\u{2028}'
    ||| c == '\u{2029}'
    ||| c == '\u{202f}'
    ||| c == '\u{205f}'
    ||| c == '\u{3000}'
}

pub open spec fn is_paren(c: char) -> bool {
    c == '(' || c == ')'
}

/// The pending word `cur` as a token list: nothing when it is empty.
pub open spec fn flush(cur: Seq<char>) -> Seq<Seq<char>> {
    if cur.len() == 0 {
        Seq::empty()
    } else {
        seq![cur]
    }
}

/// Tokens of `s`, where `cur` is the word read so far: whitespace separates
/// words, and each parenthesis is a token of its own.
pub open spec fn lex(s: Seq<char>, cur: Seq<char>) -> Seq<Seq<char>>
    decreases s.len(),
{
    if s.len() == 0 {
        flush(cur)
    } else if is_space(s[0]) {
        flush(cur) + lex(s.drop_first(), Seq::empty())
    } else if is_paren(s[0]) {
        flush(cur) + seq![seq![s[0]]] + lex(s.drop_first(), Seq::empty())
    } else {
        lex(s.drop_first(), cur.push(s[0]))
    }
}

/// The token sequence of a program text.
pub open spec fn tokens_of(s: Seq<char>) -> Seq<Seq<char>> {
    lex(s, Seq::empty())
}

fn is_whitespace(c: char) -> (r: bool)
    ensures
        r == is_space(c),
{
    c == ' ' || ('\u{9}' <= c && c <= '\u{d}') || c == '\u{85}' || c == '\u{a0}' || c
        == '\u{1680}' || ('\u{2000}' <= c && c <= '\u{200a}') || c == '\u{2028}' || c
        == '\u{2029}' || c == '\u{202f}' || c == '\u{205f}' || c == '\u{3000}'
}

proof fn lemma_lex_step(s: Seq<char>, i: int, cur: Seq<char>)
    requires
        0 <= i < s.len(),
    ensures
        !is_space(s[i]) && !is_paren(s[i]) ==> lex(s.subrange(i, s.len() as int), cur) == lex(
            s.subrange(i + 1, s.len() as int),
            cur.push(s[i]),
        ),
        is_space(s[i]) ==> lex(s.subrange(i, s.len() as int), cur) == flush(cur) + lex(
            s.subrange(i + 1, s.len() as int),
            Seq::empty(),
        ),
        is_paren(s[i]) ==> lex(s.subrange(i, s.len() as int), cur) == flush(cur) + seq![
            seq![s[i]],
        ] + lex(s.subrange(i + 1, s.len() as int), Seq::empty()),
{
    let t = s.subrange(i, s.len() as int);
    assert(t.drop_first() =~= s.subrange(i + 1, s.len() as int));
    assert(t[0] == s[i]);
}

/// Relies on `String::push`: appends one character.
#[verifier::external_body]
pub(crate) fn push_char(s: &mut String, c: char)
    ensures
        final(s)@ == old(s)@.push(c),
{
    s.push(c);
}

/// Splits program text into tokens: each `(` and `)` stands alone, and the
/// rest is split on runs of whitespace.
pub fn tokenize(expr: &str) -> (r: Vec<String>)
    ensures
        r@.map_values(|t: String| t@) == tokens_of(expr@),
{
    let ghost s = expr@;
    let mut out: Vec<String> = Vec::new();
    let mut cur: String = String::new();
    let ghost mut i: int = 0;
    proof {
        assert(s.subrange(0, s.len() as int) =~= s);
        assert(out@.map_values(|t: String| t@) + lex(s, cur@) =~= lex(s, cur@));
    }
    for c in it: expr.chars()
        invariant
            s == expr@,
            it.seq() == s,
            i == it.index(),
            0 <= i <= s.len(),
            out@.map_values(|t: String| t@) + lex(s.subrange(i, s.len() as int), cur@)
                == tokens_of(s),
    {
        let ghost before = out@.map_values(|t: String| t@);
        let ghost old_cur = cur@;
        let ghost rest = lex(s.subrange(i + 1, s.len() as int), Seq::empty());
        proof {
            lemma_lex_step(s, i, cur@);
        }
        if is_whitespace(c) || c == '(' || c == ')' {
            if !cur.as_str().is_empty() {
                out.push(cur);
                cur = String::new();
            }
            assert(out@.map_values(|t: String| t@) =~= before + flush(old_cur));
            if c == '(' || c == ')' {
                let mut p = String::new();
                push_char(&mut p, c);
                out.push(p);
                assert(out@.map_values(|t: String| t@) =~= before + flush(old_cur) + seq![
                    seq![c],
                ]);
                assert(before + flush(old_cur) + seq![seq![c]] + rest =~= before + (flush(
                    old_cur,
                ) + seq![seq![c]] + rest));
            } else {
                assert(before + flush(old_cur) + rest =~= before + (flush(old_cur) + rest));
            }
            assert(cur@ =~= Seq::<char>::empty());
        } else {
            push_char(&mut cur, c);
            assert(out@.map_values(|t: String| t@) =~= before);
        }
        proof {
            i = i + 1;
        }
    }
    let ghost before = out@.map_values(|t: String| t@);
    let ghost last = cur@;
    if !cur.as_str().is_empty() {
        out.push(cur);
    }
    assert(out@.map_values(|t: String| t@) =~= before + flush(last));
    proof {
        assert(s.subrange(s.len() as int, s.len() as int) =~= Seq::<char>::empty());
    }
    out
}

/// The atom that a token denotes, given how the token reads as a number.
pub open spec fn atom_of(token: Seq<char>, number: Option<u64>) -> SExp {
    if token == seq!['t', 'r', 'u', 'e'] {
        SExp::Bool(true)
    } else if token == seq!['f', 'a', 'l', 's', 'e'] {
        SExp::Bool(false)
    } else {
        match number {
            Some(n) => SExp::Number(n),
            None => SExp::Symbol(token),
        }
    }
}

pub open spec fn open_token() -> Seq<char> {
    seq!['(']
}

pub open spec fn close_token() -> Seq<char> {
    seq![')']
}

/// `e` is written in `toks` from position `i` on: an atom as one token that
/// is no parenthesis, a list as `(`, its items one after the other, and `)`.
/// `nums[k]` is how `toks[k]` reads as a number.
#[verifier::opaque]
pub open spec fn written_at(e: SExp, toks: Seq<Seq<char>>, nums: Seq<Option<u64>>, i: int) -> bool
    decreases e,
{
    0 <= i < toks.len() && match e {
        SExp::List(items) => {
            &&& toks[i] == open_token()
            &&& forall|k: int|
                0 <= k < items.len() ==> written_at(
                    #[trigger] items[k],
                    toks,
                    nums,
                    i + 1 + items_token_count(items.take(k)),
                )
            &&& i + 1 + items_token_count(items) < toks.len()
            &&& toks[i + 1 + items_token_count(items)] == close_token()
        },
        SExp::Lambda(_, _) => false,
        _ => {
            &&& toks[i] != open_token()
            &&& toks[i] != close_token()
            &&& i < nums.len()
            &&& atom_of(toks[i], nums[i]) == e
        },
    }
}

/// The text of each token.
pub open spec fn texts(tokens: Seq<String>) -> Seq<Seq<char>> {
    tokens.map_values(|t: String| t@)
}

/// No expression is written starting at a `)`.
proof fn lemma_not_at_close(e: SExp, toks: Seq<Seq<char>>, nums: Seq<Option<u64>>, q: int)
    requires
        written_at(e, toks, nums, q),
    ensures
        0 <= q < toks.len(),
        toks[q] != close_token(),
{
    reveal(written_at);
    assert(open_token()[0] != close_token()[0]);
}

/// What a list written at `i` consists of.
proof fn lemma_list_parts(
    e: SExp,
    items: Seq<SExp>,
    toks: Seq<Seq<char>>,
    nums: Seq<Option<u64>>,
    i: int,
)
    requires
        e == SExp::List(items),
        written_at(e, toks, nums, i),
    ensures
        0 <= i < toks.len(),
        toks[i] == open_token(),
        forall|k: int|
            0 <= k < items.len() ==> written_at(
                #[trigger] items[k],
                toks,
                nums,
                i + 1 + items_token_count(items.take(k)),
            ),
        i + 1 + items_token_count(items) < toks.len(),
        toks[i + 1 + items_token_count(items)] == close_token(),
{
    reveal(written_at);
}

/// A list is written at `i` when its parts are.
proof fn lemma_list_written(items: Seq<SExp>, toks: Seq<Seq<char>>, nums: Seq<Option<u64>>, i: int)
    requires
        0 <= i < toks.len(),
        toks[i] == open_token(),
        forall|k: int|
            0 <= k < items.len() ==> written_at(
                #[trigger] items[k],
                toks,
                nums,
                i + 1 + items_token_count(items.take(k)),
            ),
        i + 1 + items_token_count(items) < toks.len(),
        toks[i + 1 + items_token_count(items)] == close_token(),
    ensures
        written_at(SExp::List(items), toks, nums, i),
{
    reveal(written_at);
}

/// The written form of `e` takes exactly `token_count_of(e)` tokens: it lies
/// within the tokens from `i` on, and a list's closing parenthesis is its last
/// token.
pub proof fn lemma_written_span(e: SExp, toks: Seq<Seq<char>>, nums: Seq<Option<u64>>, i: int)
    requires
        written_at(e, toks, nums, i),
    ensures
        1 <= token_count_of(e),
        i + token_count_of(e) <= toks.len(),
        e is List ==> toks[i] == open_token() && toks[i + token_count_of(e) - 1] == close_token(),
{
    reveal(written_at);
}

/// What is written at an opening parenthesis is a list.
proof fn lemma_open_is_list(e: SExp, toks: Seq<Seq<char>>, nums: Seq<Option<u64>>, i: int)
    requires
        written_at(e, toks, nums, i),
        toks[i] == open_token(),
    ensures
        e is List,
{
    reveal(written_at);
}

/// An atom is written at `i` when the token there is no parenthesis and
/// denotes it.
proof fn lemma_atom_written(toks: Seq<Seq<char>>, nums: Seq<Option<u64>>, i: int)
    requires
        0 <= i < toks.len(),
        i < nums.len(),
        toks[i] != open_token(),
        toks[i] != close_token(),
    ensures
        written_at(atom_of(toks[i], nums[i]), toks, nums, i),
        token_count_of(atom_of(toks[i], nums[i])) == 1,
{
    reveal(written_at);
}

/// At most one expression is written at a given position.
pub proof fn lemma_written_unique(
    e1: SExp,
    e2: SExp,
    toks: Seq<Seq<char>>,
    nums: Seq<Option<u64>>,
    i: int,
)
    requires
        written_at(e1, toks, nums, i),
        written_at(e2, toks, nums, i),
    ensures
        e1 == e2,
    decreases e1, 1int, 0int,
{
    match (e1, e2) {
        (SExp::List(xs), SExp::List(ys)) => {
            lemma_list_parts(e1, xs, toks, nums, i);
            lemma_list_parts(e2, ys, toks, nums, i);
            let n: int = if xs.len() < ys.len() {
                xs.len() as int
            } else {
                ys.len() as int
            };
            lemma_items_agree(e1, e2, xs, ys, toks, nums, i, n);
            if xs.len() < ys.len() {
                assert(xs.take(n) =~= xs);
                lemma_not_at_close(ys[n], toks, nums, i + 1 + items_token_count(ys.take(n)));
            } else if ys.len() < xs.len() {
                assert(ys.take(n) =~= ys);
                lemma_not_at_close(xs[n], toks, nums, i + 1 + items_token_count(xs.take(n)));
            } else {
                assert(xs.take(n) =~= xs);
                assert(ys.take(n) =~= ys);
                assert(xs =~= ys);
            }
        },
        _ => {
            reveal(written_at);
        },
    }
}

/// Two lists written at one position agree on their first `k` items.
proof fn lemma_items_agree(
    e1: SExp,
    e2: SExp,
    xs: Seq<SExp>,
    ys: Seq<SExp>,
    toks: Seq<Seq<char>>,
    nums: Seq<Option<u64>>,
    i: int,
    k: int,
)
    requires
        e1 == SExp::List(xs),
        e2 == SExp::List(ys),
        written_at(e1, toks, nums, i),
        written_at(e2, toks, nums, i),
        0 <= k <= xs.len(),
        k <= ys.len(),
    ensures
        xs.take(k) =~= ys.take(k),
    decreases e1, 0int, k,
{
    if k > 0 {
        lemma_items_agree(e1, e2, xs, ys, toks, nums, i, k - 1);
        let j = k - 1;
        lemma_list_parts(e1, xs, toks, nums, i);
        lemma_list_parts(e2, ys, toks, nums, i);
        assert(xs.take(j) =~= ys.take(j));
        let p = i + 1 + items_token_count(xs.take(j));
        assert(written_at(xs[j], toks, nums, p));
        assert(written_at(ys[j], toks, nums, p));
        assert(decreases_to!(e1 => e1->List_0));
        assert(decreases_to!(xs => xs[j]));
        assert(decreases_to!(e1 => xs[j]));
        lemma_written_unique(xs[j], ys[j], toks, nums, p);
        assert(xs.take(k) =~= xs.take(j).push(xs[j]));
        assert(ys.take(k) =~= ys.take(j).push(ys[j]));
    }
}

/// Number of tokens in the written form of `re`.
pub fn token_count(re: &RispExp) -> (r: usize)
    requires
        token_count_of(re@) <= usize::MAX,
    ensures
        r == token_count_of(re@),
    decreases re,
{
    match re {
        RispExp::List(v) => {
            proof {
                crate::exp::lemma_list_view(*re, *v);
            }
            let ghost items = re@->List_0;
            let mut sum: usize = 0;
            let mut i: usize = 0;
            while i < v.len()
                invariant
                    *re == RispExp::List(*v),
                    items == re@->List_0,
                    items.len() == v.len(),
                    forall|j: int| 0 <= j < v.len() ==> #[trigger] items[j] == v[j]@,
                    token_count_of(re@) == 2 + items_token_count(items),
                    token_count_of(re@) <= usize::MAX,
                    i <= v.len(),
                    sum == items_token_count(items.take(i as int)),
                decreases v.len() - i,
            {
                proof {
                    let ghost me: RispExp = *re;
                    assert(decreases_to!(me => me->List_0));
                    lemma_items_count_prefix(items, i as int + 1);
                    assert(items.take(i as int + 1).drop_last() =~= items.take(i as int));
                    assert(items[i as int] == v[i as int]@);
                }
                let c = token_count(&v[i]);
                sum = sum + c;
                i = i + 1;
            }
            proof {
                assert(items.take(i as int) =~= items);
            }
            sum + 2
        },
        _ => 1,
    }
}

/// The tokens of a prefix count no more than those of the whole sequence.
proof fn lemma_items_count_prefix(items: Seq<SExp>, k: int)
    requires
        0 <= k <= items.len(),
    ensures
        items_token_count(items.take(k)) <= items_token_count(items),
    decreases items.len() - k,
{
    if k < items.len() {
        lemma_items_count_prefix(items, k + 1);
        assert(items.take(k + 1).drop_last() =~= items.take(k));
    } else {
        assert(items.take(k) =~= items);
    }
}

pub open spec fn is_digit(c: char) -> bool {
    '0' <= c && c <= '9'
}

/// The first position from `i` on that holds no digit.
pub open spec fn digits_end(t: Seq<char>, i: int) -> int
    decreases t.len() - i,
{
    if i < 0 || i >= t.len() || !is_digit(t[i]) {
        i
    } else {
        digits_end(t, i + 1)
    }
}

/// Where the digits after an optional sign at `i` end.
pub open spec fn signed_digits_start(t: Seq<char>, i: int) -> int {
    if 0 <= i < t.len() && (t[i] == '+' || t[i] == '-') {
        i + 1
    } else {
        i
    }
}

/// `t` is a numeric literal: an optional sign, digits, an optional point
/// and fraction digits (with at least one digit before or after the point),
/// and an optional exponent: `e` or `E`, an optional sign and digits.
pub open spec fn is_number_literal(t: Seq<char>) -> bool {
    let s = signed_digits_start(t, 0);
    let i1 = digits_end(t, s);
    let has_point = i1 < t.len() && t[i1] == '.';
    let i2 = if has_point {
        digits_end(t, i1 + 1)
    } else {
        i1
    };
    let mantissa_digits = (i1 - s) + (if has_point {
        i2 - (i1 + 1)
    } else {
        0
    });
    &&& mantissa_digits > 0
    &&& (i2 == t.len() || (t[i2] == 'e' || t[i2] == 'E') && {
        let e = signed_digits_start(t, i2 + 1);
        digits_end(t, e) > e && digits_end(t, e) == t.len()
    })
}

/// How `arith` reads a token: the value of a numeric literal, and nothing for
/// any other token.
pub open spec fn reading<A: Arithmetic>(arith: A, t: String) -> Option<u64> {
    if is_number_literal(t@) {
        Some(arith.number_spec(t))
    } else {
        None
    }
}

fn digits_end_exec(t: &Vec<char>, i: usize) -> (r: usize)
    requires
        i <= t.len(),
    ensures
        r == digits_end(t@, i as int),
        i <= r <= t.len(),
{
    let mut k = i;
    while k < t.len() && '0' <= t[k] && t[k] <= '9'
        invariant
            i <= k <= t.len(),
            digits_end(t@, i as int) == digits_end(t@, k as int),
        decreases t.len() - k,
    {
        k = k + 1;
    }
    k
}

fn signed_start_exec(t: &Vec<char>, i: usize) -> (r: usize)
    requires
        i <= t.len(),
    ensures
        r == signed_digits_start(t@, i as int),
        r <= t.len(),
{
    if i < t.len() && (t[i] == '+' || t[i] == '-') {
        i + 1
    } else {
        i
    }
}

fn chars_of(s: &str) -> (r: Vec<char>)
    ensures
        r@ == s@,
{
    let mut out: Vec<char> = Vec::new();
    for c in it: s.chars()
        invariant
            it.seq() == s@,
            out@ == s@.take(it.index() as int),
    {
        proof {
            assert(s@.take(it.index() as int + 1) =~= out@.push(c));
        }
        out.push(c);
    }
    proof {
        assert(s@.take(s@.len() as int) =~= s@);
    }
    out
}

/// Tells whether a token is a numeric literal.
pub fn is_number(token: &str) -> (r: bool)
    ensures
        r == is_number_literal(token@),
{
    let t = chars_of(token);
    let s = signed_start_exec(&t, 0);
    let i1 = digits_end_exec(&t, s);
    let has_point = i1 < t.len() && t[i1] == '.';
    let i2 = if has_point {
        digits_end_exec(&t, i1 + 1)
    } else {
        i1
    };
    let mantissa_digits = (i1 - s) + (if has_point {
        i2 - (i1 + 1)
    } else {
        0
    });
    if mantissa_digits == 0 {
        return false;
    }
    if i2 == t.len() {
        return true;
    }
    if t[i2] != 'e' && t[i2] != 'E' {
        return false;
    }
    let e = signed_start_exec(&t, i2 + 1);
    let d = digits_end_exec(&t, e);
    d > e && d == t.len()
}

/// Reads a token as an atom: `true` and `false` are booleans, a numeric
/// literal is the number `arith` reads from it, and any other token is a
/// symbol.
pub fn parse_atom<A: Arithmetic>(token: &String, arith: &A) -> (r: RispExp)
    ensures
        r@ == atom_of(token@, reading(*arith, *token)),
        r@ is Number <==> is_number_literal(token@),
{
    let number = if is_number(token.as_str()) {
        Some(arith.parse_number(token))
    } else {
        None
    };
    let r = atom_with(token.as_str(), number);
    proof {
        assert(!is_number_literal(seq!['t', 'r', 'u', 'e']));
        assert(!is_number_literal(seq!['f', 'a', 'l', 's', 'e']));
    }
    r
}

/// The atom a token denotes, given its reading as a number.
fn atom_with(token: &str, number: Option<u64>) -> (r: RispExp)
    ensures
        r@ == atom_of(token@, number),
{
    let t = token.to_owned();
    let yes = "true".to_owned();
    let no = "false".to_owned();
    proof {
        reveal_strlit("true");
        reveal_strlit("false");
    }
    assert(yes@ =~= seq!['t', 'r', 'u', 'e']);
    assert(no@ =~= seq!['f', 'a', 'l', 's', 'e']);
    if t == yes {
        RispExp::Bool(true)
    } else if t == no {
        RispExp::Bool(false)
    } else {
        match number {
            Some(n) => RispExp::Number(n),
            None => RispExp::Symbol(t),
        }
    }
}

fn is_token(t: &String, c: char) -> (r: bool)
    ensures
        r == (t@ == seq![c]),
{
    let mut one = String::new();
    push_char(&mut one, c);
    assert(one@ =~= seq![c]);
    *t == one
}

/// The error of reading at `i` where no form is written: a `)` there, or
/// else the tokens ending too soon.
pub open spec fn lex_error(toks: Seq<Seq<char>>, i: int) -> RispErr {
    if 0 <= i < toks.len() && toks[i] == close_token() {
        RispErr::Lex(LexError::UnexpectedClose)
    } else {
        RispErr::Lex(LexError::UnexpectedEnd)
    }
}

/// Reads the form written in `tokens` at `pos`, with `numbers[k]` the
/// reading of `tokens[k]` as a number. On success it returns the form and the
/// position just after it, which lies `token_count` tokens further on. It
/// fails exactly when no form is written there: the tokens end too soon, or
/// the form would start with `)`.
pub fn read_form(tokens: &[String], numbers: &[Option<u64>], pos: usize) -> (r: Result<
    (RispExp, usize),
    RispErr,
>)
    requires
        numbers@.len() == tokens@.len(),
    ensures
        match r {
            Ok((e, next)) => written_at(e@, texts(tokens@), numbers@, pos as int) && next == pos
                + token_count_of(e@),
            Err(err) => err == lex_error(texts(tokens@), pos as int) && !exists|e: SExp|
                written_at(e, texts(tokens@), numbers@, pos as int),
        },
    decreases tokens@.len() - pos,
{
    let ghost toks = texts(tokens@);
    let ghost nums = numbers@;
    if pos >= tokens.len() {
        proof {
            assert forall|e: SExp| !written_at(e, toks, nums, pos as int) by {
                if written_at(e, toks, nums, pos as int) {
                    lemma_not_at_close(e, toks, nums, pos as int);
                }
            }
        }
        return Err(RispErr::Lex(LexError::UnexpectedEnd));
    }
    assert(toks[pos as int] == tokens@[pos as int]@);
    if is_token(&tokens[pos], ')') {
        proof {
            assert forall|e: SExp| !written_at(e, toks, nums, pos as int) by {
                if written_at(e, toks, nums, pos as int) {
                    lemma_not_at_close(e, toks, nums, pos as int);
                }
            }
        }
        return Err(RispErr::Lex(LexError::UnexpectedClose));
    }
    if !is_token(&tokens[pos], '(') {
        let e = atom_with(tokens[pos].as_str(), numbers[pos]);
        proof {
            lemma_atom_written(toks, nums, pos as int);
        }
        return Ok((e, pos + 1));
    }
    let mut items: Vec<RispExp> = Vec::new();
    let ghost mut iv: Seq<SExp> = Seq::empty();
    let mut p: usize = pos + 1;
    loop
        invariant
            toks == texts(tokens@),
            nums == numbers@,
            numbers@.len() == tokens@.len(),
            pos < tokens@.len(),
            toks[pos as int] == open_token(),
            iv.len() == items@.len(),
            forall|j: int| 0 <= j < iv.len() ==> #[trigger] iv[j] == items@[j]@,
            p == pos + 1 + items_token_count(iv),
            forall|k: int|
                0 <= k < iv.len() ==> written_at(
                    #[trigger] iv[k],
                    toks,
                    nums,
                    pos + 1 + items_token_count(iv.take(k)),
                ),
            forall|its: Seq<SExp>|
                #[trigger] written_at(SExp::List(its), toks, nums, pos as int) ==> its.len()
                    >= iv.len() && its.take(iv.len() as int) =~= iv,
            p <= tokens@.len(),
        ensures
            p < tokens@.len(),
            toks[p as int] == close_token(),
        decreases tokens@.len() - p,
    {
        if p >= tokens.len() {
            proof {
                assert forall|e: SExp| !written_at(e, toks, nums, pos as int) by {
                    if written_at(e, toks, nums, pos as int) {
                        lemma_open_is_list(e, toks, nums, pos as int);
                        let its = e->List_0;
                        assert(written_at(SExp::List(its), toks, nums, pos as int));
                        lemma_list_parts(e, its, toks, nums, pos as int);
                        lemma_items_count_prefix(its, iv.len() as int);
                    }
                }
                assert(open_token()[0] != close_token()[0]);
                assert(lex_error(toks, pos as int) == RispErr::Lex(LexError::UnexpectedEnd));
            }
            return Err(RispErr::Lex(LexError::UnexpectedEnd));
        }
        assert(toks[p as int] == tokens@[p as int]@);
        if is_token(&tokens[p], ')') {
            break;
        }
        match read_form(tokens, numbers, p) {
            Ok((c, next)) => {
                let ghost old_iv = iv;
                proof {
                    lemma_written_span(c@, toks, nums, p as int);
                    iv = iv.push(c@);
                    assert(iv.drop_last() =~= old_iv);
                    assert forall|k: int| 0 <= k < iv.len() implies written_at(
                        #[trigger] iv[k],
                        toks,
                        nums,
                        pos + 1 + items_token_count(iv.take(k)),
                    ) by {
                        if k < old_iv.len() {
                            assert(iv.take(k) =~= old_iv.take(k));
                            assert(iv[k] == old_iv[k]);
                        } else {
                            assert(iv.take(k) =~= old_iv);
                        }
                    }
                    assert forall|its: Seq<SExp>|
                        #[trigger] written_at(
                            SExp::List(its),
                            toks,
                            nums,
                            pos as int,
                        ) implies its.len() >= iv.len() && its.take(iv.len() as int) =~= iv by {
                        let n = old_iv.len() as int;
                        lemma_list_parts(SExp::List(its), its, toks, nums, pos as int);
                        assert(its.take(n) =~= old_iv);
                        if its.len() == n {
                            assert(its.take(n) =~= its);
                        }
                        assert(its.len() > n);
                        assert(written_at(its[n], toks, nums, pos + 1 + items_token_count(its.take(n))));
                        lemma_written_unique(its[n], c@, toks, nums, p as int);
                        assert(its.take(n + 1) =~= its.take(n).push(its[n]));
                    }
                }
                items.push(c);
                p = next;
            },
            Err(err) => {
                proof {
                    assert(open_token()[0] != close_token()[0]);
                    assert(lex_error(toks, pos as int) == RispErr::Lex(LexError::UnexpectedEnd));
                    assert(lex_error(toks, p as int) == RispErr::Lex(LexError::UnexpectedEnd));
                    assert forall|e: SExp| !written_at(e, toks, nums, pos as int) by {
                        if written_at(e, toks, nums, pos as int) {
                            lemma_open_is_list(e, toks, nums, pos as int);
                            let its = e->List_0;
                            let n = iv.len() as int;
                            assert(written_at(SExp::List(its), toks, nums, pos as int));
                            lemma_list_parts(e, its, toks, nums, pos as int);
                            if its.len() == n {
                                assert(its.take(n) =~= its);
                            }
                            assert(written_at(its[n], toks, nums, pos + 1 + items_token_count(its.take(n))));
                        }
                    }
                }
                return Err(err);
            },
        }
    }
    let ghost list_view = SExp::List(iv);
    let e = RispExp::List(items);
    proof {
        crate::exp::lemma_list_view(e, items);
        assert(e@->List_0 =~= iv);
        lemma_list_written(iv, toks, nums, pos as int);
    }
    Ok((e, p + 1))
}

/// `r` is the outcome of reading the first form of `toks`, with `nums` the
/// readings of the tokens as numbers: the form written at the start, or a
/// lexical error when none is.
pub open spec fn read_outcome(
    r: Result<RispExp, RispErr>,
    toks: Seq<Seq<char>>,
    nums: Seq<Option<u64>>,
) -> bool {
    &&& nums.len() == toks.len()
    &&& match r {
        Ok(e) => written_at(e@, toks, nums, 0),
        Err(err) => err == lex_error(toks, 0) && !exists|e: SExp| written_at(e, toks, nums, 0),
    }
}

/// Reading is deterministic: two outcomes of reading the same tokens, with
/// the same readings of numbers, are both failures or the same expression.
pub proof fn lemma_read_deterministic(
    r1: Result<RispExp, RispErr>,
    r2: Result<RispExp, RispErr>,
    toks: Seq<Seq<char>>,
    nums: Seq<Option<u64>>,
)
    requires
        read_outcome(r1, toks, nums),
        read_outcome(r2, toks, nums),
    ensures
        r1 is Ok <==> r2 is Ok,
        r1 is Ok ==> r1->Ok_0@ == r2->Ok_0@,
{
    if r1 is Ok && r2 is Ok {
        lemma_written_unique(r1->Ok_0@, r2->Ok_0@, toks, nums, 0);
    }
}

/// Reads the form at the start of `tokens`, with `numbers[k]` the reading of
/// `tokens[k]` as a number. Tokens after that form are not read.
pub fn read_from_tokens(tokens: &[String], numbers: &[Option<u64>]) -> (r: Result<
    RispExp,
    RispErr,
>)
    requires
        numbers@.len() == tokens@.len(),
    ensures
        read_outcome(r, texts(tokens@), numbers@),
{
    match read_form(tokens, numbers, 0) {
        Ok((e, _)) => Ok(e),
        Err(err) => Err(err),
    }
}

/// How `arith` reads each token as a number.
pub open spec fn readings<A: Arithmetic>(arith: A, tokens: Seq<String>) -> Seq<Option<u64>> {
    tokens.map_values(|t: String| reading(arith, t))
}

/// Reads the first form of a program text. A token is a number exactly when
/// it is a numeric literal, and then its value is the one `arith` reads.
pub fn parse<A: Arithmetic>(program: &str, arith: &A) -> (r: Result<RispExp, RispErr>)
    ensures
        exists|tokens: Seq<String>|
            #[trigger] texts(tokens) == tokens_of(program@) && read_outcome(
                r,
                tokens_of(program@),
                readings(*arith, tokens),
            ),
{
    let tokens = tokenize(program);
    let mut numbers: Vec<Option<u64>> = Vec::new();
    let mut i: usize = 0;
    while i < tokens.len()
        invariant
            i <= tokens.len(),
            numbers.len() == i,
            forall|j: int| 0 <= j < i ==> numbers@[j] == reading(*arith, #[trigger] tokens@[j]),
        decreases tokens.len() - i,
    {
        let n = if is_number(tokens[i].as_str()) {
            Some(arith.parse_number(&tokens[i]))
        } else {
            None
        };
        numbers.push(n);
        i = i + 1;
    }
    proof {
        assert(texts(tokens@) =~= tokens_of(program@));
        assert(numbers@ =~= readings(*arith, tokens@));
    }
    read_from_tokens(tokens.as_slice(), numbers.as_slice())
}

} // verus!
