use vstd::prelude::*;

verus! {

/// A value that can ride in the one spare word of a wide reference.
///
/// `encode` says which word stands for a value and `decode` which value a
/// word stands for. Packing a value loses nothing: the word that
/// `into_bytes` returns decodes to the value that went in.
pub trait Meta: Sized {
    /// The word that stands for `self`.
    spec fn encode(self) -> usize;

    /// The value that `word` stands for.
    spec fn decode(word: usize) -> Self;

    /// Packs the value into one machine word.
    fn into_bytes(self) -> (word: usize)
        ensures
            word == self.encode(),
            Self::decode(word) == self,
    ;

    /// Unpacks a word that some value was packed into. A word that no value
    /// encodes is never handed in.
    fn from_bytes(word: usize) -> (meta: Self)
        requires
            Self::decode(word).encode() == word,
        ensures
            meta == Self::decode(word),
    ;
}

/// Whether `word` is the encoding of some value of `M`. If it is, then it is
/// the encoding of the value that it decodes to, so that is what is asked.
pub open spec fn is_encoding<M: Meta>(word: usize) -> bool {
    M::decode(word).encode() == word
}

} // verus!
