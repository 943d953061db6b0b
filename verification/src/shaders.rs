use vstd::prelude::*;

verus! {

/// Post-composite effect bit: fast approximate anti-aliasing.
pub const POST_FXAA: u32 = 0x0001;

/// Post-composite effect bit: multi-level bloom.
pub const POST_BLOOM: u32 = 0x0002;

/// Post-composite effect bit: darkened corners.
pub const POST_VIGNETTE: u32 = 0x0004;

/// Post-composite effect bit: animated film grain.
pub const POST_GRAIN: u32 = 0x0008;

/// Post-composite effect bit: boosted color saturation.
pub const POST_SATURATION: u32 = 0x0010;

/// Post-composite effect bit: radial red/blue shift.
pub const POST_CHROMA: u32 = 0x0020;

/// Post-composite effect bit: rain droplets on the camera lens.
pub const POST_RAINDROPS: u32 = 0x0040;

/// Post-composite effect bit: puddle reflections on the wet asphalt.
pub const POST_REFLECT: u32 = 0x0080;

/// Post-composite diagnostic bit: show the puddle mask.
pub const POST_DEBUG_MASK: u32 = 0x0100;

/// Post-composite diagnostic bit: show the planar reflection sample.
pub const POST_DEBUG_PLANAR: u32 = 0x0200;

/// Post-composite diagnostic bit: show the planar reflection texture.
pub const POST_DEBUG_REFLTEX: u32 = 0x0400;

/// The little-endian 32-bit word formed by four bytes, least significant first.
pub open spec fn le_word(b0: u8, b1: u8, b2: u8, b3: u8) -> u32 {
    (b0 as int + 256 * b1 as int + 65536 * b2 as int + 16777216 * b3 as int) as u32
}

/// The SPIR-V word stream of a byte blob: every complete 4-byte group read as a
/// little-endian `u32`; a trailing partial group is dropped.
pub open spec fn spec_spv_words(bytes: Seq<u8>) -> Seq<u32> {
    Seq::new(
        bytes.len() / 4,
        |i: int| le_word(bytes[4 * i], bytes[4 * i + 1], bytes[4 * i + 2], bytes[4 * i + 3]),
    )
}

/// Reinterprets a SPIR-V blob as its little-endian 32-bit words.
pub fn spv_words(bytes: &[u8]) -> (words: Vec<u32>)
    ensures
        words@ == spec_spv_words(bytes@),
{
    let n = bytes.len() / 4;
    assert(4 * n <= bytes@.len()) by (nonlinear_arith)
        requires n == bytes@.len() / 4;
    let mut words: Vec<u32> = Vec::with_capacity(n);
    let mut i: usize = 0;
    while i < n
        invariant
            n == bytes@.len() / 4,
            4 * n <= bytes.len(),
            i <= n,
            words@.len() == i,
            forall|k: int| 0 <= k < i ==> words@[k] == #[trigger] spec_spv_words(bytes@)[k],
        decreases n - i,
    {
        let b0 = bytes[4 * i];
        let b1 = bytes[4 * i + 1];
        let b2 = bytes[4 * i + 2];
        let b3 = bytes[4 * i + 3];
        let w: u32 = (b0 as u32) | ((b1 as u32) << 8u32) | ((b2 as u32) << 16u32) | ((b3 as u32) << 24u32);
        assert(w == le_word(b0, b1, b2, b3)) by (bit_vector)
            requires w == (b0 as u32) | ((b1 as u32) << 8u32) | ((b2 as u32) << 16u32) | ((b3 as u32) << 24u32);
        words.push(w);
        i = i + 1;
    }
    assert(words@ =~= spec_spv_words(bytes@));
    words
}

/// Byte `j` (0 = least significant) of a 32-bit word.
pub open spec fn word_byte(w: u32, j: int) -> u8 {
    ((w >> (8 * j) as u32) & 0xffu32) as u8
}

/// Reading a SPIR-V blob as words loses nothing but a trailing partial word:
/// byte `j` of word `i` is byte `4 * i + j` of the blob.
pub proof fn law_spv_words_keep_every_byte(bytes: Seq<u8>, i: int, j: int)
    requires
        0 <= i < bytes.len() / 4,
        0 <= j < 4,
    ensures
        spec_spv_words(bytes).len() == bytes.len() / 4,
        word_byte(spec_spv_words(bytes)[i], j) == bytes[4 * i + j],
{
    assert(4 * i + 3 < bytes.len()) by (nonlinear_arith)
        requires
            0 <= i < bytes.len() / 4,
    ;
    let b0 = bytes[4 * i];
    let b1 = bytes[4 * i + 1];
    let b2 = bytes[4 * i + 2];
    let b3 = bytes[4 * i + 3];
    let w = le_word(b0, b1, b2, b3);
    assert(w == (b0 as u32) | ((b1 as u32) << 8u32) | ((b2 as u32) << 16u32) | ((b3 as u32) << 24u32)) by (bit_vector)
        requires
            w == le_word(b0, b1, b2, b3),
    ;
    assert({
        &&& ((w >> 0u32) & 0xffu32) as u8 == b0
        &&& ((w >> 8u32) & 0xffu32) as u8 == b1
        &&& ((w >> 16u32) & 0xffu32) as u8 == b2
        &&& ((w >> 24u32) & 0xffu32) as u8 == b3
    }) by (bit_vector)
        requires
            w == (b0 as u32) | ((b1 as u32) << 8u32) | ((b2 as u32) << 16u32) | ((b3 as u32) << 24u32),
    ;
    assert(spec_spv_words(bytes)[i] == w);
}

} // verus!
