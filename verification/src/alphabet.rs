//! The fixed 62-symbol alphabet candidate strings are built from:
//! the digits `0`-`9`, then the lowercase letters `a`-`z`, then the
//! uppercase letters `A`-`Z`, in that order.

use vstd::prelude::*;

verus! {

/// Number of symbols in the alphabet.
pub const ALPHABET_SIZE: usize = 62;

/// The symbol at position `i` of the alphabet, as an ASCII byte.
pub open spec fn symbol(i: int) -> u8 {
    if i < 10 {
        (48 + i) as u8
    } else if i < 36 {
        (87 + i) as u8
    } else {
        (29 + i) as u8
    }
}

/// The textual rendering of a tuple of alphabet indices: the symbols
/// looked up position by position, in order.
pub open spec fn render(t: Seq<usize>) -> Seq<u8> {
    t.map(|j: int, i: usize| symbol(i as int))
}

/// A byte sequence read as a sequence of characters (meaningful for
/// ASCII bytes, which every alphabet symbol is).
pub open spec fn ascii_chars(bs: Seq<u8>) -> Seq<char> {
    bs.map(|j: int, b: u8| b as char)
}

/// Looks the symbol at position `i` up in the alphabet.
pub fn symbol_at(i: usize) -> (b: u8)
    requires
        i < ALPHABET_SIZE,
    ensures
        b == symbol(i as int),
{
    if i < 10 {
        48 + (i as u8)
    } else if i < 36 {
        87 + (i as u8)
    } else {
        29 + (i as u8)
    }
}

/// Every alphabet symbol is an ASCII byte.
pub proof fn lemma_symbol_ascii(i: int)
    requires
        0 <= i < ALPHABET_SIZE,
    ensures
        symbol(i) < 128,
{
}

/// Distinct positions of the alphabet hold distinct symbols.
pub proof fn lemma_symbol_injective(i: int, j: int)
    requires
        0 <= i < ALPHABET_SIZE,
        0 <= j < ALPHABET_SIZE,
        symbol(i) == symbol(j),
    ensures
        i == j,
{
}

/// Distinct index tuples render distinct candidate strings: the
/// alphabet's symbols being distinct, no two candidates of one length
/// ever spell the same text.
pub proof fn lemma_render_injective(t1: Seq<usize>, t2: Seq<usize>)
    requires
        t1.len() == t2.len(),
        forall|i: int| 0 <= i < t1.len() ==> (#[trigger] t1[i]) < ALPHABET_SIZE,
        forall|i: int| 0 <= i < t2.len() ==> (#[trigger] t2[i]) < ALPHABET_SIZE,
        render(t1) == render(t2),
    ensures
        t1 == t2,
{
    assert forall|i: int| 0 <= i < t1.len() implies t1[i] == t2[i] by {
        assert(render(t1)[i] == symbol(t1[i] as int));
        assert(render(t2)[i] == symbol(t2[i] as int));
        lemma_symbol_injective(t1[i] as int, t2[i] as int);
    }
    assert(t1 =~= t2);
}

} // verus!
