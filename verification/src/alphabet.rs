//! The standard base64 alphabet: `A`-`Z`, `a`-`z`, `0`-`9`, `+` and `/`, with
//! `=` as padding.

use vstd::prelude::*;

verus! {

/// The padding symbol, `=`.
pub const PAD: u8 = 61;

/// The symbol that stands for the six-bit value `v`.
pub open spec fn symbol(v: int) -> u8
    recommends
        0 <= v < 64,
{
    if v < 26 {
        (v + 65) as u8
    } else if v < 52 {
        (v + 71) as u8
    } else if v < 62 {
        (v - 4) as u8
    } else if v == 62 {
        43u8
    } else {
        47u8
    }
}

/// Whether `b` is one of the sixty-four symbols. The padding symbol is none.
pub open spec fn is_symbol(b: u8) -> bool {
    ||| 65 <= b <= 90
    ||| 97 <= b <= 122
    ||| 48 <= b <= 57
    ||| b == 43
    ||| b == 47
}

/// The six-bit value that the symbol `b` stands for.
pub open spec fn sextet(b: u8) -> int
    recommends
        is_symbol(b),
{
    if 65 <= b <= 90 {
        b - 65
    } else if 97 <= b <= 122 {
        b - 71
    } else if 48 <= b <= 57 {
        b + 4
    } else if b == 43 {
        62
    } else {
        63
    }
}

/// Every six-bit value has a symbol of its own, and `sextet` reads it back.
pub proof fn lemma_symbol_of_value(v: int)
    requires
        0 <= v < 64,
    ensures
        is_symbol(symbol(v)),
        symbol(v) != PAD,
        sextet(symbol(v)) == v,
{
}

/// Every symbol stands for a six-bit value, and `symbol` gives it back.
pub proof fn lemma_value_of_symbol(b: u8)
    requires
        is_symbol(b),
    ensures
        0 <= sextet(b) < 64,
        symbol(sextet(b)) == b,
        b != PAD,
{
}

} // verus!
