use vstd::prelude::*;

verus! {

/// Version byte written after the magic.
pub const STORAGE_VERSION: u8 = 1;

/// Length of the magic that opens every stored calibration.
pub const STORAGE_MAGIC_LEN: usize = 4;

/// Bytes after the version that are written as zero and ignored on reading.
pub const STORAGE_RESERVED_LEN: usize = 3;

/// Number of entries of the soft-iron matrix (3 x 3, stored row by row).
pub const MATRIX_ELEMENT_COUNT: usize = 9;

/// Number of entries of the hard-iron bias vector.
pub const BIAS_ELEMENT_COUNT: usize = 3;

/// Number of 32-bit words in a calibration: the matrix, then the bias.
pub const WORD_COUNT: usize = 12;

/// Offset of the first stored word: magic, version, reserved bytes.
pub const HEADER_LEN: usize = 8;

/// Total length of a stored calibration.
pub const MAG_CALIBRATION_BLOB_LEN: usize = 56;

/// Bit pattern of the single-precision value `1.0`.
pub const F32_ONE_BITS: u32 = 0x3f80_0000;

/// The magic `"MCAL"` in ASCII.
pub open spec fn storage_magic() -> Seq<u8> {
    seq![0x4du8, 0x43u8, 0x41u8, 0x4cu8]
}

/// Little-endian bytes of a 32-bit word, least significant first.
pub open spec fn le_bytes(w: u32) -> Seq<u8> {
    seq![(w & 0xff) as u8, ((w >> 8) & 0xff) as u8, ((w >> 16) & 0xff) as u8, (w >> 24) as u8]
}

/// The 32-bit word whose little-endian bytes are `b0, b1, b2, b3`.
pub open spec fn le_word(b0: u8, b1: u8, b2: u8, b3: u8) -> u32 {
    (b0 as u32) | ((b1 as u32) << 8u32) | ((b2 as u32) << 16u32) | ((b3 as u32) << 24u32)
}

/// A single-precision bit pattern is finite (neither infinite nor NaN)
/// exactly when its exponent field is not all ones.
pub open spec fn is_finite_bits(w: u32) -> bool {
    (w >> 23u32) & 0xff != 0xff
}

/// Every word of `words` is the bit pattern of a finite value.
pub open spec fn all_finite(words: Seq<u32>) -> bool {
    forall|k: int| 0 <= k < words.len() ==> is_finite_bits(#[trigger] words[k])
}

/// The bytes of a stored calibration whose words are `words`.
pub open spec fn blob_of(words: Seq<u32>) -> Seq<u8> {
    storage_magic() + seq![STORAGE_VERSION, 0u8, 0u8, 0u8] + Seq::new(
        (4 * WORD_COUNT) as nat,
        |i: int| le_bytes(words[i / 4])[i % 4],
    )
}

/// The `k`-th word stored in `blob`.
pub open spec fn blob_word(blob: Seq<u8>, k: int) -> u32 {
    let o = HEADER_LEN + 4 * k;
    le_word(blob[o], blob[o + 1], blob[o + 2], blob[o + 3])
}

/// All words stored in `blob`.
pub open spec fn blob_words(blob: Seq<u8>) -> Seq<u32> {
    Seq::new(WORD_COUNT as nat, |k: int| blob_word(blob, k))
}

/// `blob` has the length, magic and version of a stored calibration.
pub open spec fn frame_accepted(blob: Seq<u8>) -> bool {
    &&& blob.len() == MAG_CALIBRATION_BLOB_LEN
    &&& blob.subrange(0, STORAGE_MAGIC_LEN as int) == storage_magic()
    &&& blob[STORAGE_MAGIC_LEN as int] == STORAGE_VERSION
}

/// What reading `blob` gives: its words when the frame is accepted and every
/// word is finite, nothing otherwise.
pub open spec fn decode_blob(blob: Seq<u8>) -> Option<Seq<u32>> {
    if frame_accepted(blob) && all_finite(blob_words(blob)) {
        Some(blob_words(blob))
    } else {
        None
    }
}

/// Decoding the little-endian bytes of a word gives the word back.
pub proof fn lemma_le_word_of_bytes(w: u32)
    ensures
        le_word(le_bytes(w)[0], le_bytes(w)[1], le_bytes(w)[2], le_bytes(w)[3]) == w,
{
    assert(((w & 0xff) as u8 as u32) | ((((w >> 8) & 0xff) as u8 as u32) << 8u32) | ((((w
        >> 16) & 0xff) as u8 as u32) << 16u32) | (((w >> 24) as u8 as u32) << 24u32) == w)
        by (bit_vector);
}

/// Encoding a decoded word gives its four bytes back.
pub proof fn lemma_le_bytes_of_word(b0: u8, b1: u8, b2: u8, b3: u8)
    ensures
        le_bytes(le_word(b0, b1, b2, b3)) == seq![b0, b1, b2, b3],
{
    let w = le_word(b0, b1, b2, b3);
    assert(((((b0 as u32) | ((b1 as u32) << 8u32) | ((b2 as u32) << 16u32) | ((b3 as u32)
        << 24u32)) & 0xff) as u8) == b0) by (bit_vector);
    assert((((((b0 as u32) | ((b1 as u32) << 8u32) | ((b2 as u32) << 16u32) | ((b3 as u32)
        << 24u32)) >> 8) & 0xff) as u8) == b1) by (bit_vector);
    assert((((((b0 as u32) | ((b1 as u32) << 8u32) | ((b2 as u32) << 16u32) | ((b3 as u32)
        << 24u32)) >> 16) & 0xff) as u8) == b2) by (bit_vector);
    assert(((((b0 as u32) | ((b1 as u32) << 8u32) | ((b2 as u32) << 16u32) | ((b3 as u32)
        << 24u32)) >> 24) as u8) == b3) by (bit_vector);
    assert(le_bytes(w) =~= seq![b0, b1, b2, b3]);
}

/// The bytes of a word, as numbers: least significant first.
pub proof fn lemma_le_bytes_values(w: u32)
    ensures
        le_bytes(w)[0] as int == w % 256,
        le_bytes(w)[1] as int == (w / 256) % 256,
        le_bytes(w)[2] as int == (w / 65536) % 256,
        le_bytes(w)[3] as int == w / 16777216,
{
    assert(((w & 0xff) as u8) as u32 == w % 256) by (bit_vector);
    assert((((w >> 8) & 0xff) as u8) as u32 == (w / 256) % 256) by (bit_vector);
    assert((((w >> 16) & 0xff) as u8) as u32 == (w / 65536) % 256) by (bit_vector);
    assert(((w >> 24) as u8) as u32 == w / 16777216) by (bit_vector);
}

/// The word of four little-endian bytes, as a number.
pub proof fn lemma_le_word_value(b0: u8, b1: u8, b2: u8, b3: u8)
    ensures
        le_word(b0, b1, b2, b3) as int == b0 + 256 * b1 + 65536 * b2 + 16777216 * b3,
{
    assert((b0 as u32) | ((b1 as u32) << 8u32) | ((b2 as u32) << 16u32) | ((b3 as u32) << 24u32)
        == (b0 as u32) + (b1 as u32) * 256 + (b2 as u32) * 65536 + (b3 as u32) * 16777216)
        by (bit_vector);
}

/// Layout of a stored calibration: the magic "MCAL", version 1, three zero
/// bytes, then word `k` of the calibration (matrix entry `(k / 3, k % 3)` for
/// `k < 9`, bias entry `k - 9` after) in the four bytes at `8 + 4 * k`,
/// least significant byte first. No word is moved from its place.
pub proof fn lemma_blob_layout(words: Seq<u32>)
    requires
        words.len() == WORD_COUNT,
    ensures
        blob_of(words).len() == MAG_CALIBRATION_BLOB_LEN,
        blob_of(words)[0] == 0x4d && blob_of(words)[1] == 0x43 && blob_of(words)[2] == 0x41
            && blob_of(words)[3] == 0x4c,
        blob_of(words)[4] == 1,
        blob_of(words)[5] == 0 && blob_of(words)[6] == 0 && blob_of(words)[7] == 0,
        forall|k: int| #![trigger words[k]] 0 <= k < WORD_COUNT ==> {
            &&& blob_of(words)[8 + 4 * k] as int == words[k] % 256
            &&& blob_of(words)[8 + 4 * k + 1] as int == (words[k] / 256) % 256
            &&& blob_of(words)[8 + 4 * k + 2] as int == (words[k] / 65536) % 256
            &&& blob_of(words)[8 + 4 * k + 3] as int == words[k] / 16777216
        },
{
    let blob = blob_of(words);
    assert forall|k: int| #![trigger words[k]] 0 <= k < WORD_COUNT implies {
        &&& blob[8 + 4 * k] as int == words[k] % 256
        &&& blob[8 + 4 * k + 1] as int == (words[k] / 256) % 256
        &&& blob[8 + 4 * k + 2] as int == (words[k] / 65536) % 256
        &&& blob[8 + 4 * k + 3] as int == words[k] / 16777216
    } by {
        lemma_le_bytes_values(words[k]);
        assert(blob[8 + 4 * k] == le_bytes(words[k])[0]);
        assert(blob[8 + 4 * k + 1] == le_bytes(words[k])[1]);
        assert(blob[8 + 4 * k + 2] == le_bytes(words[k])[2]);
        assert(blob[8 + 4 * k + 3] == le_bytes(words[k])[3]);
    }
}

/// Reading a stored calibration takes word `k` from the four bytes at
/// `8 + 4 * k`, least significant byte first; no word is moved from its
/// place.
pub proof fn lemma_blob_words_layout(blob: Seq<u8>)
    requires
        blob.len() == MAG_CALIBRATION_BLOB_LEN,
    ensures
        blob_words(blob).len() == WORD_COUNT,
        forall|k: int| #![trigger blob_words(blob)[k]] 0 <= k < WORD_COUNT ==> blob_words(blob)[k] as int
            == blob[8 + 4 * k] + 256 * blob[8 + 4 * k + 1] + 65536 * blob[8 + 4 * k + 2]
            + 16777216 * blob[8 + 4 * k + 3],
{
    assert forall|k: int| #![trigger blob_words(blob)[k]] 0 <= k < WORD_COUNT implies blob_words(blob)[k] as int
        == blob[8 + 4 * k] + 256 * blob[8 + 4 * k + 1] + 65536 * blob[8 + 4 * k + 2]
        + 16777216 * blob[8 + 4 * k + 3] by {
        lemma_le_word_value(blob[8 + 4 * k], blob[8 + 4 * k + 1], blob[8 + 4 * k + 2], blob[8 + 4 * k + 3]);
    }
}

/// A single-precision value is finite exactly when its exponent field, bits
/// 23 to 30, is not all ones; the sign bit plays no part.
pub proof fn lemma_finite_bits_exponent(w: u32)
    ensures
        is_finite_bits(w) <==> (w / 0x80_0000) % 0x100 != 0xff,
        is_finite_bits(w) <==> is_finite_bits(w ^ 0x8000_0000),
{
    assert((((w >> 23u32) & 0xff) != 0xff) <==> ((w / 0x80_0000) % 0x100 != 0xff)) by (bit_vector);
    assert(((w >> 23u32) & 0xff) == (((w ^ 0x8000_0000) >> 23u32) & 0xff)) by (bit_vector);
}

/// `blob` is 56 bytes long, starts with "MCAL" and version 1, and none of
/// the twelve little-endian words at `8 + 4 * k` has an exponent field of all
/// ones.
pub open spec fn readable_bytes(blob: Seq<u8>) -> bool {
    &&& blob.len() == MAG_CALIBRATION_BLOB_LEN
    &&& blob[0] == 0x4d && blob[1] == 0x43 && blob[2] == 0x41 && blob[3] == 0x4c
    &&& blob[4] == STORAGE_VERSION
    &&& forall|k: int|
        0 <= k < WORD_COUNT ==> ((blob[8 + 4 * k] + 256 * blob[8 + 4 * k + 1] + 65536 * #[trigger] blob[8
            + 4 * k + 2] + 16777216 * blob[8 + 4 * k + 3]) / 0x80_0000) % 0x100 != 0xff
}

/// A blob is read successfully exactly when it is 56 bytes long, starts with
/// "MCAL" and version 1, and none of its twelve words has an exponent field
/// of all ones (an infinity or a NaN, of either sign).
pub proof fn lemma_decode_accepts(blob: Seq<u8>)
    ensures
        decode_blob(blob) is Some <==> readable_bytes(blob),
{
    if blob.len() == MAG_CALIBRATION_BLOB_LEN {
        let m = blob.subrange(0, 4);
        assert(m[0] == blob[0] && m[1] == blob[1] && m[2] == blob[2] && m[3] == blob[3]);
        if blob[0] == 0x4d && blob[1] == 0x43 && blob[2] == 0x41 && blob[3] == 0x4c {
            assert(m =~= storage_magic());
        }
        let ws = blob_words(blob);
        lemma_blob_words_layout(blob);
        assert forall|k: int| 0 <= k < WORD_COUNT implies (is_finite_bits(#[trigger] ws[k]) <==> (
        (blob[8 + 4 * k] + 256 * blob[8 + 4 * k + 1] + 65536 * blob[8 + 4 * k + 2] + 16777216 * blob[8
            + 4 * k + 3]) / 0x80_0000) % 0x100 != 0xff) by {
            lemma_finite_bits_exponent(ws[k]);
        }
        if all_finite(ws) {
            assert forall|k: int| 0 <= k < WORD_COUNT implies ((blob[8 + 4 * k] + 256 * blob[8 + 4 * k + 1]
                + 65536 * #[trigger] blob[8 + 4 * k + 2] + 16777216 * blob[8 + 4 * k + 3]) / 0x80_0000) % 0x100
                != 0xff by {
                assert(is_finite_bits(ws[k]));
            }
        }
        if readable_bytes(blob) {
            assert forall|k: int| 0 <= k < ws.len() implies is_finite_bits(#[trigger] ws[k]) by {
                assert(((blob[8 + 4 * k] + 256 * blob[8 + 4 * k + 1] + 65536 * blob[8 + 4 * k + 2]
                    + 16777216 * blob[8 + 4 * k + 3]) / 0x80_0000) % 0x100 != 0xff);
            }
        }
    }
}

/// Writing a calibration and reading it back gives the same calibration,
/// provided every stored value is finite; a calibration holding a non-finite
/// value is refused when read back.
pub proof fn lemma_blob_round_trip(words: Seq<u32>)
    requires
        words.len() == WORD_COUNT,
    ensures
        all_finite(words) ==> decode_blob(blob_of(words)) == Some(words),
        !all_finite(words) ==> decode_blob(blob_of(words)) is None,
{
    let blob = blob_of(words);
    assert(blob.subrange(0, 4) =~= storage_magic());
    assert forall|k: int| 0 <= k < WORD_COUNT implies #[trigger] blob_word(blob, k) == words[k] by {
        let o = HEADER_LEN + 4 * k;
        assert(blob[o] == le_bytes(words[k])[0]);
        assert(blob[o + 1] == le_bytes(words[k])[1]);
        assert(blob[o + 2] == le_bytes(words[k])[2]);
        assert(blob[o + 3] == le_bytes(words[k])[3]);
        lemma_le_word_of_bytes(words[k]);
    }
    assert(blob_words(blob) =~= words);
}

/// A stored calibration that is read successfully is written back byte for
/// byte, except for the reserved bytes, which come back as zero.
pub proof fn lemma_blob_canonical(blob: Seq<u8>)
    requires
        decode_blob(blob) is Some,
    ensures
        blob_of(decode_blob(blob)->0) == blob.subrange(0, 5) + seq![0u8, 0u8, 0u8] + blob.subrange(8, 56),
{
    let words = decode_blob(blob)->0;
    let expected = blob.subrange(0, 5) + seq![0u8, 0u8, 0u8] + blob.subrange(8, 56);
    let out = blob_of(words);
    assert(blob.subrange(0, 4) == storage_magic());
    assert forall|i: int| 0 <= i < 56 implies out[i] == expected[i] by {
        if i < 4 {
            assert(blob.subrange(0, 4)[i] == blob[i]);
        } else if i >= 8 {
            let k = (i - 8) / 4;
            let o = HEADER_LEN + 4 * k;
            lemma_le_bytes_of_word(blob[o], blob[o + 1], blob[o + 2], blob[o + 3]);
            assert(words[k] == blob_word(blob, k));
            assert(le_bytes(words[k]) == seq![blob[o], blob[o + 1], blob[o + 2], blob[o + 3]]);
        }
    }
    assert(out =~= expected);
}

/// The calibration that changes nothing holds only finite values, so it is
/// always read back unchanged.
pub proof fn lemma_identity_round_trip()
    ensures
        decode_blob(blob_of(identity_words())) == Some(identity_words()),
{
    let w = identity_words();
    assert(is_finite_bits(F32_ONE_BITS)) by (bit_vector);
    assert(is_finite_bits(0u32)) by (bit_vector);
    assert(all_finite(w));
    lemma_blob_round_trip(w);
}

fn word_from_le_bytes(b0: u8, b1: u8, b2: u8, b3: u8) -> (w: u32)
    ensures
        w == le_word(b0, b1, b2, b3),
{
    (b0 as u32) | ((b1 as u32) << 8u32) | ((b2 as u32) << 16u32) | ((b3 as u32) << 24u32)
}

fn bits_are_finite(w: u32) -> (r: bool)
    ensures
        r == is_finite_bits(w),
{
    (w >> 23u32) & 0xff != 0xff
}

/// Magnetometer calibration `m' = A1 * (m - b)`, held as the bit patterns of
/// its single-precision entries: the soft-iron matrix `A1` row by row and the
/// hard-iron bias `b`.
#[derive(Clone, Copy, Debug)]
pub struct MagCalibration {
    a1: [u32; 9],
    b: [u32; 3],
}

impl View for MagCalibration {
    type V = Seq<u32>;

    /// The twelve words: the matrix row by row, then the bias.
    closed spec fn view(&self) -> Seq<u32> {
        self.a1@ + self.b@
    }
}

/// The words of the identity matrix followed by a zero bias.
pub open spec fn identity_words() -> Seq<u32> {
    seq![F32_ONE_BITS, 0u32, 0u32, 0u32, F32_ONE_BITS, 0u32, 0u32, 0u32, F32_ONE_BITS, 0u32, 0u32, 0u32]
}

impl MagCalibration {
    /// Every calibration has twelve words.
    pub proof fn lemma_len(&self)
        ensures
            self@.len() == WORD_COUNT,
    {
    }

    /// The calibration that changes nothing: identity matrix, zero bias.
    pub fn new() -> (c: Self)
        ensures
            c@ == identity_words(),
    {
        let c = Self::from_parts(
            [F32_ONE_BITS, 0, 0, 0, F32_ONE_BITS, 0, 0, 0, F32_ONE_BITS],
            [0, 0, 0],
        );
        assert(c@ =~= identity_words());
        c
    }

    /// A calibration with the matrix `a1` (row by row) and the bias `b`.
    pub fn from_parts(a1: [u32; 9], b: [u32; 3]) -> (c: Self)
        ensures
            c@ == a1@ + b@,
    {
        MagCalibration { a1, b }
    }

    /// The matrix, row by row.
    pub fn matrix(&self) -> (m: &[u32; 9])
        ensures
            m@ == self@.subrange(0, MATRIX_ELEMENT_COUNT as int),
    {
        assert(self.a1@ =~= self@.subrange(0, 9));
        &self.a1
    }

    /// The bias.
    pub fn bias(&self) -> (b: &[u32; 3])
        ensures
            b@ == self@.subrange(MATRIX_ELEMENT_COUNT as int, WORD_COUNT as int),
    {
        assert(self.b@ =~= self@.subrange(9, 12));
        &self.b
    }

    /// The stored form of this calibration: the magic, the version, three
    /// zero bytes, then each word in little-endian order.
    pub fn to_blob(&self) -> (blob: [u8; 56])
        ensures
            blob@ == blob_of(self@),
            blob@[0] == 0x4d && blob@[1] == 0x43 && blob@[2] == 0x41 && blob@[3] == 0x4c,
            blob@[4] == STORAGE_VERSION && blob@[5] == 0 && blob@[6] == 0 && blob@[7] == 0,
            forall|k: int| #![trigger self@[k]] 0 <= k < WORD_COUNT ==> {
                &&& blob@[8 + 4 * k] as int == self@[k] % 256
                &&& blob@[8 + 4 * k + 1] as int == (self@[k] / 256) % 256
                &&& blob@[8 + 4 * k + 2] as int == (self@[k] / 65536) % 256
                &&& blob@[8 + 4 * k + 3] as int == self@[k] / 16777216
            },
    {
        let ghost words = self@;
        let ghost target = blob_of(words);
        let mut blob = [0u8; 56];
        blob[0] = 0x4d;
        blob[1] = 0x43;
        blob[2] = 0x41;
        blob[3] = 0x4c;
        blob[4] = STORAGE_VERSION;
        assert(target.len() == 56);
        let mut k: usize = 0;
        while k < WORD_COUNT
            invariant
                0 <= k <= WORD_COUNT,
                words == self@,
                words.len() == 12,
                target == blob_of(words),
                target.len() == 56,
                blob@.len() == 56,
                forall|i: int| 0 <= i < HEADER_LEN + 4 * k ==> blob@[i] == target[i],
            decreases WORD_COUNT - k,
        {
            let w = if k < MATRIX_ELEMENT_COUNT {
                self.a1[k]
            } else {
                self.b[k - MATRIX_ELEMENT_COUNT]
            };
            assert(w == words[k as int]);
            let o = HEADER_LEN + 4 * k;
            blob[o] = (w & 0xff) as u8;
            blob[o + 1] = ((w >> 8) & 0xff) as u8;
            blob[o + 2] = ((w >> 16) & 0xff) as u8;
            blob[o + 3] = (w >> 24) as u8;
            assert forall|i: int| 0 <= i < HEADER_LEN + 4 * (k + 1) implies blob@[i] == target[i] by {
                if i >= o {
                    let j = i - 8;
                    assert(j / 4 == k as int);
                    assert(j % 4 == i - o);
                }
            }
            k = k + 1;
        }
        assert(blob@ =~= target);
        proof {
            lemma_blob_layout(words);
        }
        blob
    }

    /// Reads a stored calibration. It is refused (`None`) when `blob` does
    /// not have the length, magic and version of one, or when a stored value
    /// is not finite.
    ///
    /// This does not check that the matrix can be inverted: a finite but
    /// singular matrix (all zeros, say) is accepted here. That test is
    /// single-precision arithmetic on the decoded values, and the caller must
    /// make it before using the calibration.
    pub fn from_blob(blob: &[u8]) -> (r: Option<Self>)
        ensures
            r is Some <==> decode_blob(blob@) is Some,
            r is Some <==> readable_bytes(blob@),
            r matches Some(c) ==> Some(c@) == decode_blob(blob@),
            r matches Some(c) ==> forall|k: int| #![trigger c@[k]] 0 <= k < WORD_COUNT ==> {
                &&& c@[k] as int == blob@[8 + 4 * k] + 256 * blob@[8 + 4 * k + 1] + 65536 * blob@[8
                    + 4 * k + 2] + 16777216 * blob@[8 + 4 * k + 3]
                &&& (c@[k] / 0x80_0000) % 0x100 != 0xff
            },
    {
        proof {
            lemma_decode_accepts(blob@);
        }
        assert(decode_blob(blob@) is Some <==> readable_bytes(blob@));
        if blob.len() != MAG_CALIBRATION_BLOB_LEN {
            return None;
        }
        if blob[0] != 0x4d || blob[1] != 0x43 || blob[2] != 0x41 || blob[3] != 0x4c {
            assert(blob@.subrange(0, 4) != storage_magic()) by {
                if blob@.subrange(0, 4) == storage_magic() {
                    assert(blob@.subrange(0, 4)[0] == blob@[0]);
                    assert(blob@.subrange(0, 4)[1] == blob@[1]);
                    assert(blob@.subrange(0, 4)[2] == blob@[2]);
                    assert(blob@.subrange(0, 4)[3] == blob@[3]);
                }
            }
            return None;
        }
        assert(blob@.subrange(0, 4) =~= storage_magic());
        if blob[STORAGE_MAGIC_LEN] != STORAGE_VERSION {
            return None;
        }
        let ghost words = blob_words(blob@);
        let mut a1 = [0u32; 9];
        let mut b = [0u32; 3];
        let mut k: usize = 0;
        while k < WORD_COUNT
            invariant
                0 <= k <= WORD_COUNT,
                blob@.len() == 56,
                words == blob_words(blob@),
                decode_blob(blob@) is Some <==> readable_bytes(blob@),
                forall|j: int| 0 <= j < k ==> is_finite_bits(#[trigger] words[j]),
                forall|j: int| 0 <= j < k && j < 9 ==> a1@[j] == words[j],
                forall|j: int| 9 <= j < k ==> b@[j - 9] == words[j],
            decreases WORD_COUNT - k,
        {
            let o = HEADER_LEN + 4 * k;
            let w = word_from_le_bytes(blob[o], blob[o + 1], blob[o + 2], blob[o + 3]);
            assert(w == words[k as int]);
            if !bits_are_finite(w) {
                return None;
            }
            if k < MATRIX_ELEMENT_COUNT {
                a1[k] = w;
            } else {
                b[k - MATRIX_ELEMENT_COUNT] = w;
            }
            k = k + 1;
        }
        let c = MagCalibration { a1, b };
        assert(c@ =~= words);
        proof {
            lemma_blob_words_layout(blob@);
            assert forall|k: int| 0 <= k < WORD_COUNT implies (#[trigger] c@[k] / 0x80_0000) % 0x100 != 0xff by {
                lemma_finite_bits_exponent(c@[k]);
            }
        }
        Some(c)
    }
}

impl Default for MagCalibration {
    /// The calibration that changes nothing.
    fn default() -> (c: Self)
        ensures
            c@ == identity_words(),
    {
        Self::new()
    }
}

} // verus!
