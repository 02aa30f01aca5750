//! Byte strings and fixed-width words: models, comparisons and conversions.

use vstd::prelude::*;

verus! {

/// A 20-byte account address.
pub type Address = [u8; 20];

/// A 32-byte word: a hash, or one topic of a log.
pub type B256 = [u8; 32];

/// The models of the items of a sequence, in order.
pub open spec fn views<T: View>(items: Seq<T>) -> Seq<T::V> {
    Seq::new(items.len(), |i: int| items[i]@)
}

/// The model of an optional item.
pub open spec fn option_view<T: View>(item: Option<T>) -> Option<T::V> {
    match item {
        Some(value) => Some(value@),
        None => None,
    }
}

/// The models of a sequence of optional items, in order.
pub open spec fn option_views<T: View>(items: Seq<Option<T>>) -> Seq<Option<T::V>> {
    Seq::new(items.len(), |i: int| option_view(items[i]))
}

/// The number that `bytes` writes in base 256, most significant digit first.
pub open spec fn be_value(bytes: Seq<u8>) -> nat
    decreases bytes.len(),
{
    if bytes.len() == 0 {
        0
    } else {
        be_value(bytes.drop_last()) * 256 + bytes.last() as nat
    }
}

/// Whether two byte strings hold the same bytes.
pub fn bytes_eq(a: &[u8], b: &[u8]) -> (equal: bool)
    ensures
        equal == (a@ == b@),
{
    if a.len() != b.len() {
        return false;
    }
    let mut i: usize = 0;
    while i < a.len()
        invariant
            a@.len() == b@.len(),
            i <= a@.len(),
            forall|j: int| 0 <= j < i ==> a@[j] == b@[j],
        decreases a@.len() - i,
    {
        if a[i] != b[i] {
            return false;
        }
        i += 1;
    }
    assert(a@ =~= b@);
    true
}

/// Whether a word occurs in a list of words.
pub fn contains_word(words: &Vec<B256>, word: &B256) -> (found: bool)
    ensures
        found == views(words@).contains(word@),
{
    let mut i: usize = 0;
    while i < words.len()
        invariant
            i <= words@.len(),
            forall|j: int| 0 <= j < i ==> words@[j]@ != word@,
        decreases words@.len() - i,
    {
        if bytes_eq(&words[i], word) {
            assert(views(words@)[i as int] == word@);
            return true;
        }
        i += 1;
    }
    assert(!views(words@).contains(word@));
    false
}

/// The low 32 bits of a number.
pub open spec fn low_bits(number: u64) -> u32 {
    (number % 0x1_0000_0000) as u32
}

/// The low 32 bits of a block number or an index.
pub fn low32(number: u64) -> (low: u32)
    ensures
        low == low_bits(number),
        low == number % 0x1_0000_0000,
{
    let low: u32 = #[verifier::truncate] (number as u32);
    assert(low as u64 == number % 0x1_0000_0000u64) by (bit_vector)
        requires
            low == number as u32,
    ;
    low
}

pub broadcast proof fn lemma_views_push<T: View>(items: Seq<T>, item: T)
    ensures
        #[trigger] views(items.push(item)) == views(items).push(item@),
{
    assert(views(items.push(item)) =~= views(items).push(item@));
}

pub broadcast proof fn lemma_option_views_push<T: View>(items: Seq<Option<T>>, item: Option<T>)
    ensures
        #[trigger] option_views(items.push(item)) == option_views(items).push(option_view(item)),
{
    assert(option_views(items.push(item)) =~= option_views(items).push(option_view(item)));
}

} // verus!
