use crate::error::Error;
use vstd::prelude::*;

verus! {

/// The number of values that half a machine word can take: two to the power
/// of half the width of `usize`.
pub open spec fn half_limit() -> int {
    if usize::BITS == 64 {
        0x1_0000_0000
    } else {
        0x1_0000
    }
}

/// The number in the low half of `word`.
pub open spec fn low_half(word: usize) -> nat {
    (word as int % half_limit()) as nat
}

/// The number in the high half of `word`.
pub open spec fn high_half(word: usize) -> nat {
    (word as int / half_limit()) as nat
}

/// Both halves of a word lie below the limit, and together they make up the
/// word.
pub proof fn lemma_halves(word: usize)
    ensures
        low_half(word) < half_limit(),
        high_half(word) < half_limit(),
        low_half(word) + high_half(word) * half_limit() == word,
{
    let lo = low_half(word);
    let hi = high_half(word);
    vstd::arithmetic::div_mod::lemma_fundamental_div_mod(word as int, half_limit());
    assert(half_limit() * hi == hi * half_limit()) by (nonlinear_arith);
    assert(hi < half_limit()) by (nonlinear_arith)
        requires
            hi * half_limit() <= word,
            word < half_limit() * half_limit(),
            half_limit() > 0,
    ;
}

/// An unsigned integer half as wide as `usize`.
#[derive(Clone, Copy, Debug)]
pub struct Halfsize(usize);

impl View for Halfsize {
    type V = nat;

    closed spec fn view(&self) -> nat {
        self.0 as nat
    }
}

impl Halfsize {
    /// Every executable `Halfsize` lies below `half_limit()`.
    #[verifier::type_invariant]
    pub open spec fn wf(self) -> bool {
        self@ < half_limit()
    }

    /// The half word that stands for `n`, for `n` below `half_limit()`.
    pub closed spec fn of(n: nat) -> Halfsize {
        Halfsize(n as usize)
    }

    /// `of` builds the half word with the value asked for.
    pub proof fn lemma_of(n: nat)
        requires
            n < half_limit(),
        ensures
            Halfsize::of(n)@ == n,
    {
    }

    /// The largest value of the type.
    pub fn max() -> (h: Halfsize)
        ensures
            h@ == half_limit() - 1,
    {
        if usize::BITS == 64 {
            Halfsize(0xFFFF_FFFF)
        } else {
            Halfsize(0xFFFF)
        }
    }

    /// The low half of a whole word.
    pub fn low(word: usize) -> (h: Halfsize)
        ensures
            h@ == low_half(word),
    {
        let max: usize = Halfsize::max().0;
        Halfsize(word % (max + 1))
    }

    /// The high half of a whole word.
    pub fn high(word: usize) -> (h: Halfsize)
        ensures
            h@ == high_half(word),
    {
        let max: usize = Halfsize::max().0;
        proof {
            lemma_halves(word);
        }
        Halfsize(word / (max + 1))
    }

    /// A `Halfsize` is determined by the number it stands for.
    pub proof fn lemma_view_injective(a: Halfsize, b: Halfsize)
        requires
            a@ == b@,
        ensures
            a == b,
    {
    }

    /// The product of two half words, taken as whole words, fits in a whole
    /// word.
    pub proof fn lemma_product_fits(a: Halfsize, b: Halfsize)
        requires
            a.wf(),
            b.wf(),
        ensures
            a@ * b@ <= usize::MAX,
    {
        assert(a@ * b@ <= (half_limit() - 1) * (half_limit() - 1)) by (nonlinear_arith)
            requires
                a@ <= half_limit() - 1,
                b@ <= half_limit() - 1,
        ;
        assert((half_limit() - 1) * (half_limit() - 1) == half_limit() * half_limit() - 2
            * half_limit() + 1) by (nonlinear_arith);
    }
}

impl TryFrom<usize> for Halfsize {
    type Error = Error;

    /// Narrows a whole word, which succeeds exactly when it lies below
    /// `half_limit()`.
    fn try_from(n: usize) -> (r: Result<Halfsize, Error>)
        ensures
            r is Ok <==> n < half_limit(),
            r is Ok ==> r->Ok_0@ == n,
            r is Err ==> r->Err_0 == Error::Range,
    {
        let max: usize = usize::from(Halfsize::max());
        if n <= max {
            Ok(Halfsize(n))
        } else {
            Err(Error::Range)
        }
    }
}

impl vstd::std_specs::convert::TryFromSpecImpl<usize> for Halfsize {
    open spec fn obeys_try_from_spec() -> bool {
        true
    }

    open spec fn try_from_spec(n: usize) -> Result<Halfsize, Error> {
        if n < half_limit() {
            Ok(Halfsize::of(n as nat))
        } else {
            Err(Error::Range)
        }
    }
}

impl From<Halfsize> for usize {
    /// Widens a half word, which keeps its value.
    fn from(h: Halfsize) -> (n: usize)
        ensures
            n == h@,
            n < half_limit(),
    {
        proof {
            use_type_invariant(&h);
        }
        h.0
    }
}

impl vstd::std_specs::convert::FromSpecImpl<Halfsize> for usize {
    open spec fn obeys_from_spec() -> bool {
        true
    }

    open spec fn from_spec(h: Halfsize) -> usize {
        h@ as usize
    }
}

impl std::ops::Mul for Halfsize {
    type Output = usize;

    /// Multiplies two half words as whole words; the product never overflows.
    fn mul(self, rhs: Halfsize) -> (product: usize)
        ensures
            product == self@ * rhs@,
    {
        proof {
            use_type_invariant(&self);
            use_type_invariant(&rhs);
            Halfsize::lemma_product_fits(self, rhs);
        }
        self.0 * rhs.0
    }
}

impl vstd::std_specs::ops::MulSpecImpl for Halfsize {
    open spec fn obeys_mul_spec() -> bool {
        true
    }

    open spec fn mul_req(self, rhs: Halfsize) -> bool {
        true
    }

    open spec fn mul_spec(self, rhs: Halfsize) -> usize {
        (self@ * rhs@) as usize
    }
}

} // verus!
