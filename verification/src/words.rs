//! How a run of bytes is cut into FIFO words and put together again.

use vstd::prelude::*;
use vstd::arithmetic::div_mod::lemma_fundamental_div_mod_converse;

verus! {

/// The number of words of `width` bytes that it takes to hold `len` bytes:
/// `len / width`, rounded up.
pub open spec fn word_count(len: nat, width: nat) -> nat {
    ((len + width - 1) / (width as int)) as nat
}

/// The `index`-th word of `width` bytes of `data`. Where `data` ends inside
/// the word, zeros fill the rest of it.
pub open spec fn padded_word(data: Seq<u8>, width: nat, index: nat) -> Seq<u8> {
    Seq::new(
        width,
        |i: int|
            if index * width + i < data.len() {
                data[index * width + i]
            } else {
                0u8
            },
    )
}

/// `buffer` after `word` has taken the place of its `index`-th word of
/// `width` bytes.
pub open spec fn stored_word(buffer: Seq<u8>, width: nat, index: nat, word: Seq<u8>) -> Seq<u8> {
    Seq::new(
        buffer.len(),
        |i: int|
            if index * width <= i < index * width + width {
                word[i - index * width]
            } else {
                buffer[i]
            },
    )
}

/// The word count is the least number of words that hold all the bytes.
pub proof fn lemma_word_count(len: nat, width: nat)
    requires
        width > 0,
    ensures
        word_count(len, width) * width >= len,
        len > 0 ==> (word_count(len, width) - 1) * width < len,
        len == 0 ==> word_count(len, width) == 0,
        word_count(len, width) == len / width + if len % width == 0 { 0nat } else { 1nat },
{
    let q = (len / width) as int;
    let r = (len % width) as int;
    let w = width as int;
    assert(len == w * q + r) by {
        vstd::arithmetic::div_mod::lemma_fundamental_div_mod(len as int, w);
    }
    assert(w * q == q * w) by (nonlinear_arith);
    if r == 0 {
        lemma_fundamental_div_mod_converse(len + w - 1, w, q, w - 1);
    } else {
        assert((q + 1) * w == q * w + w) by (nonlinear_arith);
        lemma_fundamental_div_mod_converse(len + w - 1, w, q + 1, r - 1);
    }
    let n = word_count(len, width) as int;
    assert(n * w >= len) by (nonlinear_arith)
        requires
            len == q * w + r,
            0 <= r < w,
            n == q + if r == 0 { 0int } else { 1int },
    ;
    if len > 0 {
        assert((n - 1) * w < len) by (nonlinear_arith)
            requires
                len == q * w + r,
                0 <= r < w,
                n == q + if r == 0 { 0int } else { 1int },
                len > 0,
        ;
    }
}

/// Every word below the word count starts inside the bytes.
pub proof fn lemma_word_starts_inside(len: nat, width: nat, index: nat)
    requires
        width > 0,
        index < word_count(len, width),
    ensures
        index * width < len,
{
    lemma_word_count(len, width);
    let n = word_count(len, width) as int;
    assert(index * width <= (n - 1) * width) by (nonlinear_arith)
        requires
            index <= n - 1,
            width > 0,
    ;
}

/// Returns the number of words of `width` bytes that it takes to hold `len`
/// bytes.
pub fn count_words(len: usize, width: usize) -> (count: usize)
    requires
        width > 0,
    ensures
        count == word_count(len as nat, width as nat),
{
    proof {
        lemma_word_count(len as nat, width as nat);
    }
    let whole: usize = len / width;
    if len % width == 0 {
        whole
    } else {
        assert(whole < len) by (nonlinear_arith)
            requires
                whole == len / width,
                len % width != 0,
                width > 0,
        ;
        whole + 1
    }
}

/// Returns the `index`-th word of `width` bytes of `data`, filled up with
/// zeros where `data` ends inside it.
pub fn take_word(data: &[u8], width: usize, index: usize) -> (word: Vec<u8>)
    requires
        width > 0,
        index < word_count(data@.len(), width as nat),
    ensures
        word@ == padded_word(data@, width as nat, index as nat),
{
    let len: usize = data.len();
    proof {
        lemma_word_starts_inside(len as nat, width as nat, index as nat);
        assert(index * width == (index as nat) * (width as nat)) by (nonlinear_arith);
    }
    let start: usize = index * width;
    let rest: usize = len - start;
    let mut word: Vec<u8> = Vec::with_capacity(width);
    let mut i: usize = 0;
    while i < width
        invariant
            start == index * width,
            len == data@.len(),
            start < len,
            rest == len - start,
            i <= width,
            word@.len() == i,
            forall|j: int|
                0 <= j < i ==> word@[j] == padded_word(data@, width as nat, index as nat)[j],
        decreases width - i,
    {
        let byte: u8 = if i < rest {
            data[start + i]
        } else {
            0
        };
        word.push(byte);
        i = i + 1;
    }
    assert(word@ =~= padded_word(data@, width as nat, index as nat));
    word
}

/// Puts `word` in the place of the `index`-th word of `width` bytes of
/// `buffer`.
pub fn store_word(buffer: &mut Vec<u8>, width: usize, index: usize, word: &[u8])
    requires
        word@.len() == width,
        index * width + width <= old(buffer)@.len(),
    ensures
        final(buffer)@ == stored_word(old(buffer)@, width as nat, index as nat, word@),
    no_unwind
{
    let len: usize = buffer.len();
    assert(index * width <= len) by (nonlinear_arith)
        requires
            index * width + width <= len,
            width >= 0,
    ;
    let start: usize = index * width;
    let mut i: usize = 0;
    while i < width
        invariant
            start == index * width,
            len == buffer@.len(),
            start + width <= len,
            word@.len() == width,
            buffer@.len() == old(buffer)@.len(),
            i <= width,
            forall|j: int| 0 <= j < buffer@.len() ==> buffer@[j] == if start <= j < start + i {
                word@[j - start]
            } else {
                old(buffer)@[j]
            },
        decreases width - i,
    {
        buffer[start + i] = word[i];
        i = i + 1;
    }
    assert(buffer@ =~= stored_word(old(buffer)@, width as nat, index as nat, word@));
}

} // verus!
