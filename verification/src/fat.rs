use crate::meta::{is_encoding, Meta};
use std::marker::PhantomData;
use vstd::prelude::*;

verus! {

/// A wide reference: a handle `B` on a run of values, and beside it one word
/// that holds metadata of type `M` in packed form.
///
/// The handle is a shared or an exclusive slice; the word takes the place
/// that a slice reference gives to its length.
pub struct Fat<B, M: Meta> {
    data: B,
    packed: Packed<M>,
}

/// One word that is known to be the encoding of some value of `M`.
struct Packed<M: Meta> {
    word: usize,
    _meta: PhantomData<M>,
}

impl<M: Meta> Packed<M> {
    #[verifier::type_invariant]
    spec fn wf(self) -> bool {
        is_encoding::<M>(self.word)
    }

    fn pack(meta: M) -> (packed: Self)
        ensures
            packed.word == meta.encode(),
            M::decode(packed.word) == meta,
    {
        let word: usize = meta.into_bytes();
        Packed { word, _meta: PhantomData }
    }

    fn unpack(&self) -> (meta: M)
        ensures
            meta == M::decode(self.word),
    {
        proof {
            use_type_invariant(self);
        }
        M::from_bytes(self.word)
    }
}

impl<B, M: Meta> Fat<B, M> {
    /// The handle on the run of values.
    pub closed spec fn data(self) -> B {
        self.data
    }

    /// The packed metadata.
    pub closed spec fn word(self) -> usize {
        self.packed.word
    }

    /// The metadata that the reference carries.
    pub open spec fn spec_meta(self) -> M {
        M::decode(self.word())
    }

    /// Unpacks the metadata.
    pub fn meta(&self) -> (meta: M)
        ensures
            meta == self.spec_meta(),
    {
        self.packed.unpack()
    }
}

impl<'a, T, M: Meta> Fat<&'a [T], M> {
    /// Forms a shared wide reference to `data` that carries `meta`.
    pub fn from_slice(data: &'a [T], meta: M) -> (fat: Self)
        ensures
            fat.data()@ == data@,
            fat.word() == meta.encode(),
            fat.spec_meta() == meta,
    {
        Fat { data, packed: Packed::pack(meta) }
    }

    /// The run of values that the reference leads to.
    pub fn ptr(&self) -> (run: &'a [T])
        ensures
            run@ == self.data()@,
    {
        self.data
    }
}

impl<'a, T, M: Meta> Fat<&'a mut [T], M> {
    /// Forms an exclusive wide reference to `data` that carries `meta`. What
    /// is written through it is written to `data`.
    pub fn from_slice_mut(data: &'a mut [T], meta: M) -> (fat: Self)
        ensures
            fat.data()@ == old(data)@,
            final(fat.data())@ == final(data)@,
            fat.word() == meta.encode(),
            fat.spec_meta() == meta,
    {
        Fat { data, packed: Packed::pack(meta) }
    }

    /// The run of values that the reference leads to, for reading.
    pub fn ptr(&self) -> (run: &[T])
        ensures
            run@ == self.data()@,
    {
        &*self.data
    }

    /// Once nothing more is written through the reference, the run holds
    /// its final value.
    pub proof fn lemma_resolved(self)
        requires
            has_resolved(self),
        ensures
            final(self.data())@ == self.data()@,
    {
    }

    /// The run of values that the reference leads to, for writing. The
    /// metadata stays as it is.
    pub fn mut_ptr(&mut self) -> (run: &mut [T])
        ensures
            run@ == old(self).data()@,
            final(self).data()@ == final(run)@,
            final(final(self).data())@ == final(old(self).data())@,
            final(self).word() == old(self).word(),
        no_unwind
    {
        &mut *self.data
    }
}

} // verus!
