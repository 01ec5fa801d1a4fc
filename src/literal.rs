//! Numeric literals, held exactly as a fraction.
use vstd::prelude::*;

verus! {

/// The number `num / den`; `den` is always positive.
#[derive(Debug, Clone, Copy)]
pub struct Number {
    num: i64,
    den: u64,
}

impl Number {
    #[verifier::type_invariant]
    spec fn positive_denominator(&self) -> bool {
        self.den > 0
    }

    pub closed spec fn spec_num(&self) -> int {
        self.num as int
    }

    pub closed spec fn spec_den(&self) -> int {
        self.den as int
    }

    /// Two numbers denote the same value.
    pub open spec fn same(&self, o: &Number) -> bool {
        self.spec_num() * o.spec_den() == o.spec_num() * self.spec_den()
    }

    /// The whole number `n`.
    pub fn whole(n: i64) -> (r: Number)
        ensures
            r.spec_num() == n,
            r.spec_den() == 1,
    {
        Number { num: n, den: 1 }
    }

    /// `num / den`; `None` for a zero denominator.
    pub fn ratio(num: i64, den: u64) -> (r: Option<Number>)
        ensures
            den == 0 <==> r.is_none(),
            r matches Some(x) ==> x.spec_num() == num && x.spec_den() == den,
    {
        if den == 0 {
            None
        } else {
            Some(Number { num, den })
        }
    }

    pub fn numerator(&self) -> (r: i64)
        ensures
            r == self.spec_num(),
    {
        self.num
    }

    /// Always positive.
    pub fn denominator(&self) -> (r: u64)
        ensures
            r == self.spec_den(),
            r > 0,
    {
        proof { use_type_invariant(self); }
        self.den
    }

    /// Compares the values, not the written forms.
    pub fn equals(&self, o: &Number) -> (r: bool)
        ensures
            r == self.same(o),
    {
        proof {
            assert(-0x8000_0000_0000_0000 * 0x1_0000_0000_0000_0000 <= self.num * o.den <= 0x7fff_ffff_ffff_ffff * 0xffff_ffff_ffff_ffff) by (nonlinear_arith)
                requires -0x8000_0000_0000_0000 <= self.num <= 0x7fff_ffff_ffff_ffff, 0 <= o.den <= 0xffff_ffff_ffff_ffff;
            assert(-0x8000_0000_0000_0000 * 0x1_0000_0000_0000_0000 <= o.num * self.den <= 0x7fff_ffff_ffff_ffff * 0xffff_ffff_ffff_ffff) by (nonlinear_arith)
                requires -0x8000_0000_0000_0000 <= o.num <= 0x7fff_ffff_ffff_ffff, 0 <= self.den <= 0xffff_ffff_ffff_ffff;
        }
        let a = (self.num as i128) * (o.den as i128);
        let b = (o.num as i128) * (self.den as i128);
        a == b
    }
}

/// A literal of the language.
#[derive(Debug, Clone, Copy)]
pub enum Literal {
    Num(Number),
}

} // verus!
