//! Fixed-width byte strings and the copying between them.
use vstd::prelude::*;

verus! {

/// A 20-byte account address.
pub type Address = [u8; 20];

/// A 32-byte word: a hash, a salt or an ABI slot.
pub type Word = [u8; 32];

/// `len` zero bytes.
pub open spec fn zero_bytes(len: nat) -> Seq<u8> {
    Seq::new(len, |i: int| 0u8)
}

/// The bytes of each of `words`.
pub open spec fn words_view(words: Seq<Word>) -> Seq<Seq<u8>> {
    words.map_values(|word: Word| word@)
}

/// Whether two byte strings are equal.
pub(crate) fn same_bytes(a: &[u8], b: &[u8]) -> (same: bool)
    ensures
        same == (a@ == b@),
{
    if a.len() != b.len() {
        return false;
    }
    let mut i: usize = 0;
    while i < a.len()
        invariant
            i <= a@.len(),
            a@.len() == b@.len(),
            forall|j: int| 0 <= j < i ==> a@[j] == b@[j],
        decreases a@.len() - i,
    {
        if a[i] != b[i] {
            return false;
        }
        i = i + 1;
    }
    assert(a@ =~= b@);
    true
}

/// Appends `tail` to `out`.
pub(crate) fn append_bytes(out: &mut Vec<u8>, tail: &[u8])
    ensures
        final(out)@ == old(out)@ + tail@,
{
    out.extend_from_slice(tail);
    assert(out@ =~= old(out)@ + tail@);
}

/// An owned copy of `bytes`.
pub(crate) fn copy_bytes(bytes: &[u8]) -> (out: Vec<u8>)
    ensures
        out@ == bytes@,
{
    let mut out: Vec<u8> = Vec::with_capacity(bytes.len());
    append_bytes(&mut out, bytes);
    assert(out@ =~= bytes@);
    out
}

/// The word holding exactly `bytes`.
pub(crate) fn word_from(bytes: &[u8]) -> (word: Word)
    requires
        bytes@.len() == 32,
    ensures
        word@ == bytes@,
{
    let mut word: Word = [0u8; 32];
    let mut i: usize = 0;
    while i < 32
        invariant
            i <= 32,
            bytes@.len() == 32,
            forall|j: int| 0 <= j < i ==> word@[j] == bytes@[j],
        decreases 32 - i,
    {
        word[i] = bytes[i];
        i = i + 1;
    }
    assert(word@ =~= bytes@);
    word
}

/// The address in the low 20 bytes of `word`.
pub(crate) fn low_address(word: &Word) -> (address: Address)
    ensures
        address@ == word@.subrange(12, 32),
{
    let mut address: Address = [0u8; 20];
    let mut i: usize = 0;
    while i < 20
        invariant
            i <= 20,
            forall|j: int| 0 <= j < i ==> address@[j] == word@[j + 12],
        decreases 20 - i,
    {
        address[i] = word[i + 12];
        i = i + 1;
    }
    assert(address@ =~= word@.subrange(12, 32));
    address
}

} // verus!
