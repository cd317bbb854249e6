//! Words as the bytes that a device buffer holds.

use vstd::prelude::*;

verus! {

/// Byte `k` of a word, counted from the least significant one.
pub open spec fn word_byte(w: u32, k: int) -> u8 {
    if k == 0 {
        (w % 256) as u8
    } else if k == 1 {
        (w / 256 % 256) as u8
    } else if k == 2 {
        (w / 65536 % 256) as u8
    } else {
        (w / 16777216) as u8
    }
}

/// The bytes of `words` in memory, on a machine of the given byte order.
pub open spec fn image(words: Seq<u32>, little_endian: bool) -> Seq<u8> {
    Seq::new(
        4 * words.len(),
        |i: int|
            word_byte(
                words[i / 4],
                if little_endian {
                    i % 4
                } else {
                    3 - i % 4
                },
            ),
    )
}

/// The bytes of `words`, through `bytemuck::cast_slice`.
///
/// Trusted: the call reads the memory of the words as bytes and does not fail,
/// so each word gives four bytes in the machine's byte order.
#[verifier::external_body]
fn cast_words(words: &[u32]) -> (bytes: Vec<u8>)
    ensures
        bytes@ == image(words@, true) || bytes@ == image(words@, false),
{
    bytemuck::cast_slice::<u32, u8>(words).to_vec()
}

/// The bytes of a uniform block, in the machine's byte order.
pub fn uniform_bytes(words: &Vec<u32>) -> (bytes: Vec<u8>)
    ensures
        bytes@ == image(words@, true) || bytes@ == image(words@, false),
        bytes@.len() == 4 * words@.len(),
{
    cast_words(words.as_slice())
}

/// Different words have different bytes.
pub proof fn law_image_is_faithful(a: Seq<u32>, b: Seq<u32>, little_endian: bool)
    requires
        image(a, little_endian) == image(b, little_endian),
    ensures
        a == b,
{
    assert(image(a, little_endian).len() == 4 * a.len());
    assert(image(b, little_endian).len() == 4 * b.len());
    assert forall|i: int| 0 <= i < a.len() implies a[i] == b[i] by {
        let x = image(a, little_endian);
        let y = image(b, little_endian);
        assert(x[4 * i] == y[4 * i] && x[4 * i + 1] == y[4 * i + 1] && x[4 * i + 2] == y[4 * i + 2]
            && x[4 * i + 3] == y[4 * i + 3]);
        lemma_bytes_of_word(a[i], b[i]);
    }
    assert(a =~= b);
}

proof fn lemma_bytes_of_word(v: u32, w: u32)
    requires
        word_byte(v, 0) == word_byte(w, 0),
        word_byte(v, 1) == word_byte(w, 1),
        word_byte(v, 2) == word_byte(w, 2),
        word_byte(v, 3) == word_byte(w, 3),
    ensures
        v == w,
{
    assert(v / 65536 == v / 256 / 256 && v / 16777216 == v / 256 / 256 / 256);
    assert(w / 65536 == w / 256 / 256 && w / 16777216 == w / 256 / 256 / 256);
}

/// The bytes of a word add up to it: on a little-endian machine the first counts
/// least, on a big-endian one the last.
pub proof fn law_bytes_add_up_to_words(words: Seq<u32>, i: int)
    requires
        0 <= i < words.len(),
    ensures
        ({
            let l = image(words, true);
            let b = image(words, false);
            &&& l.len() == 4 * words.len() && b.len() == 4 * words.len()
            &&& l[4 * i] + 256 * l[4 * i + 1] + 65536 * l[4 * i + 2] + 16777216 * l[4 * i + 3]
                == words[i]
            &&& b[4 * i + 3] + 256 * b[4 * i + 2] + 65536 * b[4 * i + 1] + 16777216 * b[4 * i]
                == words[i]
        }),
{
    let w = words[i];
    let l = image(words, true);
    let b = image(words, false);
    assert(l[4 * i] == word_byte(w, 0) && b[4 * i + 3] == word_byte(w, 0));
    assert(l[4 * i + 1] == word_byte(w, 1) && b[4 * i + 2] == word_byte(w, 1));
    assert(l[4 * i + 2] == word_byte(w, 2) && b[4 * i + 1] == word_byte(w, 2));
    assert(l[4 * i + 3] == word_byte(w, 3) && b[4 * i] == word_byte(w, 3));
}

} // verus!
