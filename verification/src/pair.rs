use crate::half::{half_limit, high_half, lemma_halves, low_half, Halfsize};
use crate::meta::{is_encoding, Meta};
use vstd::prelude::*;

verus! {

/// Two values of one type, the first before the second.
#[derive(Debug)]
pub struct Pair<T>(pub T, pub T);

impl Meta for Pair<Halfsize> {
    /// The first half word fills the low half of the word, the second the
    /// high half.
    open spec fn encode(self) -> usize {
        (self.0@ + self.1@ * half_limit()) as usize
    }

    open spec fn decode(word: usize) -> Self {
        Pair(Halfsize::of(low_half(word)), Halfsize::of(high_half(word)))
    }

    fn into_bytes(self) -> (word: usize) {
        proof {
            use_type_invariant(&self.0);
            use_type_invariant(&self.1);
            lemma_round_trip(self);
            lemma_packed_fits(self.0@, self.1@);
        }
        let limit: usize = usize::from(Halfsize::max()) + 1;
        usize::from(self.0) + usize::from(self.1) * limit
    }

    fn from_bytes(word: usize) -> (meta: Self) {
        let meta = Pair(Halfsize::low(word), Halfsize::high(word));
        proof {
            lemma_halves(word);
            Halfsize::lemma_of(low_half(word));
            Halfsize::lemma_of(high_half(word));
            Halfsize::lemma_view_injective(meta.0, Self::decode(word).0);
            Halfsize::lemma_view_injective(meta.1, Self::decode(word).1);
        }
        meta
    }
}

/// Two half words side by side fill no more than a whole word.
pub proof fn lemma_packed_fits(lo: nat, hi: nat)
    requires
        lo < half_limit(),
        hi < half_limit(),
    ensures
        lo + hi * half_limit() <= usize::MAX,
        (lo + hi * half_limit()) % half_limit() == lo,
        (lo + hi * half_limit()) / half_limit() == hi,
{
    assert(hi * half_limit() <= (half_limit() - 1) * half_limit()) by (nonlinear_arith)
        requires
            hi <= half_limit() - 1,
            half_limit() > 0,
    ;
    assert((half_limit() - 1) * half_limit() == half_limit() * half_limit() - half_limit())
        by (nonlinear_arith);
    vstd::arithmetic::div_mod::lemma_fundamental_div_mod_converse(
        lo + hi * half_limit(),
        half_limit(),
        hi as int,
        lo as int,
    );
}

/// Unpacking undoes packing: a pair of half words comes back unchanged out of
/// the word that encodes it.
pub proof fn lemma_round_trip(m: Pair<Halfsize>)
    requires
        m.0.wf(),
        m.1.wf(),
    ensures
        Pair::<Halfsize>::decode(m.encode()) == m,
{
    lemma_packed_fits(m.0@, m.1@);
    let back = Pair::<Halfsize>::decode(m.encode());
    Halfsize::lemma_of(m.0@);
    Halfsize::lemma_of(m.1@);
    Halfsize::lemma_view_injective(back.0, m.0);
    Halfsize::lemma_view_injective(back.1, m.1);
}

/// Every word is the encoding of a pair of half words, so any word may be
/// unpacked.
pub proof fn lemma_every_word_encodes(word: usize)
    ensures
        is_encoding::<Pair<Halfsize>>(word),
        Pair::<Halfsize>::decode(word).0.wf(),
        Pair::<Halfsize>::decode(word).1.wf(),
{
    lemma_halves(word);
    Halfsize::lemma_of(low_half(word));
    Halfsize::lemma_of(high_half(word));
}

} // verus!
