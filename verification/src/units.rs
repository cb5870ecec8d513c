//! Amounts of wei and their conversion to and from ether units.
use vstd::prelude::*;
use vstd::arithmetic::power::pow;
use crate::decimal::{decimal, decimal_value, lemma_decimal_len_bound, lemma_decimal_value, lemma_decimal_value_concat, lemma_decimal_value_zeros};

verus! {

/// 2 to the 64th power.
pub open spec fn word_base() -> int {
    0x1_0000_0000_0000_0000
}

/// 2 to the 256th power: the first amount a 256-bit word cannot hold.
pub open spec fn word256_bound() -> int {
    word_base() * word_base() * word_base() * word_base()
}

/// The number that four little-endian 64-bit words stand for.
pub open spec fn words_value(w: Seq<u64>) -> nat
    recommends
        w.len() == 4,
{
    (w[0] + word_base() * (w[1] + word_base() * (w[2] + word_base() * w[3]))) as nat
}

/// A unit conversion that cannot be carried out.
#[derive(Clone, Copy, Debug, PartialEq, Eq, Structural)]
pub enum UnitsError {
    /// The unit's power of ten does not fit in 256 bits.
    Overflow,
}

/// An amount of wei, held as the four little-endian 64-bit words of a 256-bit integer.
#[derive(Clone, Copy, Debug)]
pub struct Wei {
    pub limbs: [u64; 4],
}

impl View for Wei {
    type V = nat;

    open spec fn view(&self) -> nat {
        words_value(self.limbs@)
    }
}

/// Every amount of wei fits in 256 bits.
pub proof fn lemma_wei_fits(w: Wei)
    ensures
        w@ < word256_bound(),
{
    let b = word_base();
    let (a0, a1, a2, a3) = (w.limbs[0] as int, w.limbs[1] as int, w.limbs[2] as int, w.limbs[3] as int);
    assert(a0 + b * (a1 + b * (a2 + b * a3)) < b * b * b * b) by (nonlinear_arith)
        requires
            0 <= a0 < b, 0 <= a1 < b, 0 <= a2 < b, 0 <= a3 < b, b == 0x1_0000_0000_0000_0000;
}

/// Number of decimals of one ether, counted in wei.
pub open spec fn ether_decimals() -> nat {
    18
}

/// `s` padded on the left with `'0'` to at least `width` characters.
pub open spec fn zero_padded(s: Seq<char>, width: nat) -> Seq<char> {
    if s.len() >= width {
        s
    } else {
        Seq::new((width - s.len()) as nat, |i: int| '0') + s
    }
}

/// An amount of wei written in ether: the whole part, a point, and all 18 decimals.
pub open spec fn ether_text(v: nat) -> Seq<char> {
    let unit = pow(10, ether_decimals()) as nat;
    decimal(v / unit) + seq!['.'] + zero_padded(decimal(v % unit), ether_decimals())
}

/// Calls `ethers_core::utils::format_units(amount, "ether")`. `format_units` divides the amount by
/// 10^18 and writes `{integer}.{decimals:0>18}`; with the unit `"ether"` (18 decimals, below
/// the overflow bound of 78) no error path is taken.
#[verifier::external_body]
fn format_ether_units(limbs: [u64; 4]) -> (r: Result<String, ethers_core::utils::ConversionError>)
    ensures
        r is Ok,
        r->Ok_0@ == ether_text(words_value(limbs@)),
{
    ethers_core::utils::format_units(ethers_core::types::U256(limbs), "ether")
}

/// Calls `ethers_core::utils::parse_units(amount, units)` on a whole amount. `parse_units` reads
/// the decimal text of `amount` and multiplies it by 10^units: it fails where 10^units does
/// not fit in 256 bits and panics where the product does not, which the precondition rules out.
#[verifier::external_body]
fn parse_whole_units(amount: u32, units: u32) -> (r: Result<[u64; 4], ethers_core::utils::ConversionError>)
    requires
        pow(10, units as nat) >= word256_bound() || amount * pow(10, units as nat) < word256_bound(),
    ensures
        (r is Ok) == (pow(10, units as nat) < word256_bound()),
        r is Ok ==> words_value(r->Ok_0@) == amount * pow(10, units as nat),
{
    match ethers_core::utils::parse_units(amount, units) {
        Ok(p) => Ok(ethers_core::types::U256::from(p).0),
        Err(e) => Err(e),
    }
}

/// The ether text of an amount is exact: its whole part reads as the amount divided by
/// 10^18, and after the point come exactly 18 digits that read as the remainder.
pub proof fn lemma_ether_text_exact(v: nat)
    ensures
        ({
            let unit = pow(10, ether_decimals()) as nat;
            let t = ether_text(v);
            let w = decimal(v / unit);
            &&& t.len() == w.len() + 1 + ether_decimals()
            &&& t.subrange(0, w.len() as int) == w
            &&& decimal_value(w) == v / unit
            &&& t[w.len() as int] == '.'
            &&& decimal_value(t.subrange(w.len() + 1int, t.len() as int)) == v % unit
        }),
{
    vstd::arithmetic::power::lemma_pow_positive(10, ether_decimals());
    let unit = pow(10, ether_decimals()) as nat;
    let w = decimal(v / unit);
    let r = decimal(v % unit);
    lemma_decimal_value(v / unit);
    lemma_decimal_value(v % unit);
    lemma_decimal_len_bound(v % unit, ether_decimals());
    let zeros = Seq::new((ether_decimals() - r.len()) as nat, |i: int| '0');
    let f = zero_padded(r, ether_decimals());
    if r.len() < ether_decimals() {
        assert(f == zeros + r);
        lemma_decimal_value_concat(zeros, r);
        lemma_decimal_value_zeros((ether_decimals() - r.len()) as nat);
    }
    assert(f.len() == ether_decimals());
    assert(decimal_value(f) == v % unit);
    let t = ether_text(v);
    assert(t == w + seq!['.'] + f);
    assert(t.subrange(0, w.len() as int) =~= w);
    assert(t.subrange(w.len() + 1int, t.len() as int) =~= f);
}

/// The amount written in ether with all 18 decimals, e.g. `1.500000000000000000`.
pub fn ether_string(value: &Wei) -> (s: String)
    ensures
        s@ == ether_text(value@),
{
    match format_ether_units(value.limbs) {
        Ok(s) => s,
        Err(_) => {
            proof { assert(false); }
            String::new()
        }
    }
}

/// `amount * 10^units` wei, the value of `amount` counted in a unit of `units` decimals;
/// an error where 10^units does not fit in 256 bits.
pub fn whole_units(amount: u32, units: u32) -> (r: Result<Wei, UnitsError>)
    requires
        pow(10, units as nat) >= word256_bound() || amount * pow(10, units as nat) < word256_bound(),
    ensures
        (r is Ok) == (pow(10, units as nat) < word256_bound()),
        r matches Ok(w) ==> w@ == amount * pow(10, units as nat),
        r matches Err(e) ==> e == UnitsError::Overflow,
{
    match parse_whole_units(amount, units) {
        Ok(limbs) => Ok(Wei { limbs }),
        Err(_) => Err(UnitsError::Overflow),
    }
}

/// Whole amounts in units of up to 38 decimals always fit in 256 bits.
pub proof fn lemma_whole_units_fit(amount: u32, units: u32)
    requires
        units <= 38,
    ensures
        pow(10, units as nat) < word256_bound(),
        amount * pow(10, units as nat) < word256_bound(),
{
    vstd::arithmetic::power::lemma_pow_increases(10, units as nat, 38);
    assert(pow(10, 38) < 0x1_0000_0000_0000_0000_0000_0000_0000_0000) by {
        vstd::arithmetic::power::lemma_pow_positive(10, 38);
        reveal_with_fuel(pow, 39);
    }
    vstd::arithmetic::power::lemma_pow_positive(10, units as nat);
    let p = pow(10, units as nat);
    assert(amount * p <= 0xffff_ffff * p) by (nonlinear_arith)
        requires amount <= 0xffff_ffff, p > 0;
    assert(0xffff_ffff * p < 0xffff_ffff * 0x1_0000_0000_0000_0000_0000_0000_0000_0000) by (nonlinear_arith)
        requires p < 0x1_0000_0000_0000_0000_0000_0000_0000_0000;
    assert(word256_bound() == 0x1_0000_0000_0000_0000_0000_0000_0000_0000_0000_0000_0000_0000_0000_0000_0000_0000);
}

} // verus!
