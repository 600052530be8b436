use vstd::prelude::*;

verus! {

/// A builtin that maps one number to another.
#[derive(Debug, Clone, Copy, PartialEq, Eq)]
pub enum UnaryOp {
    Cos,
    Sin,
    Tan,
    Acos,
    Asin,
    Atan,
    Ln,
    Log2,
    Log10,
    Sqrt,
    Exp,
}

/// A builtin that maps two numbers to a number.
#[derive(Debug, Clone, Copy, PartialEq, Eq)]
pub enum BinaryOp {
    Add,
    Sub,
    Mul,
    Div,
    Pow,
}

/// The floating-point arithmetic the language computes with. Numbers are
/// IEEE-754 binary64 values given by their bit patterns. Each operation is a
/// function of its arguments alone, named by a spec function that an
/// implementation defines as the operation itself; nothing else is assumed of
/// what it computes.
pub trait Arithmetic {
    /// The value of the numeric literal `token`.
    spec fn number_spec(&self, token: String) -> u64;

    /// The result of `op` on `x`.
    spec fn unary_spec(&self, op: UnaryOp, x: u64) -> u64;

    /// The result of `op` on `x` and `y`.
    spec fn binary_spec(&self, op: BinaryOp, x: u64, y: u64) -> u64;

    /// The printed form of the number `n`.
    spec fn number_text(&self, n: u64) -> String;

    /// Reads the numeric literal `token`.
    fn parse_number(&self, token: &String) -> (r: u64)
        requires
            crate::reader::is_number_literal(token@),
        ensures
            r == self.number_spec(*token),
    ;

    /// `op` applied to `x`.
    fn unary(&self, op: UnaryOp, x: u64) -> (r: u64)
        ensures
            r == self.unary_spec(op, x),
    ;

    /// `op` applied to `x` and `y`, in this order.
    fn binary(&self, op: BinaryOp, x: u64, y: u64) -> (r: u64)
        ensures
            r == self.binary_spec(op, x, y),
    ;

    /// Writes the number `n`.
    fn format_number(&self, n: u64) -> (r: String)
        ensures
            r@ == self.number_text(n)@,
    ;
}

/// Bit pattern of 0.0.
pub const ZERO: u64 = 0;

/// Bit pattern of 1.0.
pub const ONE: u64 = 0x3ff0_0000_0000_0000;

/// Bit pattern of the binary64 value nearest to pi.
pub const PI: u64 = 0x4009_21fb_5444_2d18;

/// The absolute value of a binary64 value: its sign bit cleared.
pub open spec fn abs_bits(x: u64) -> u64 {
    x & 0x7fff_ffff_ffff_ffffu64
}

/// The absolute value of a number, as `f64::abs` computes it.
pub fn number_abs(x: u64) -> (r: u64)
    ensures
        r == abs_bits(x),
{
    x & 0x7fff_ffff_ffff_ffffu64
}

} // verus!
