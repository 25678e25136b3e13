//! Kaspa HeavyHash proof of work: a mining job and the hash of a nonce.

use vstd::arithmetic::power2::{lemma2_to64, pow2};
use vstd::bits::{lemma_low_bits_mask_values, lemma_u64_low_bits_mask_is_mod, lemma_u64_shr_is_div, low_bits_mask};
use vstd::prelude::*;

use crate::keccak::{keccak_f1600, keccak_p};
use crate::uint256::{word_byte, Uint256};

verus! {

/// Keccak state absorbed with the PoW domain, before the header is mixed in.
pub const POW_INITIAL_STATE: [u64; 25] = [
    1242148031264380989, 3008272977830772284, 2188519011337848018, 1992179434288343456,
    8876506674959887717, 5399642050693751366, 1745875063082670864, 8605242046444978844,
    17936695144567157056, 3343109343542796272, 1123092876221303306, 4963925045340115282,
    17037383077651887893, 16629644495023626889, 12833675776649114147, 3784524041015224902,
    1082795874807940378, 13952716920571277634, 13411128033953605860, 15060696040649351053,
    9928834659948351306, 5237849264682708699, 12825353012139217522, 6706187291358897596,
    196324915476054915,
];

/// Keccak state absorbed with the HeavyHash domain.
pub const HEAVY_INITIAL_STATE: [u64; 25] = [
    4239941492252378377, 8746723911537738262, 8796936657246353646, 1272090201925444760,
    16654558671554924250, 8270816933120786537, 13907396207649043898, 6782861118970774626,
    9239690602118867528, 11582319943599406348, 17596056728278508070, 15212962468105129023,
    7812475424661425213, 3370482334374859748, 5690099369266491460, 8596393687355028144,
    570094237299545110, 9119540418498120711, 16901969272480492857, 13372017233735502424,
    14372891883993151831, 5171152063242093102, 10573107899694386186, 6096431547456407061,
    1592359455985097269,
];

/// The word whose little-endian bytes are `bytes[8k..8k + 8]`.
pub open spec fn le_word(bytes: Seq<u8>, k: int) -> u64 {
    (bytes[8 * k] as u64) | ((bytes[8 * k + 1] as u64) << 8u64) | ((bytes[8 * k + 2] as u64)
        << 16u64) | ((bytes[8 * k + 3] as u64) << 24u64) | ((bytes[8 * k + 4] as u64) << 32u64)
        | ((bytes[8 * k + 5] as u64) << 40u64) | ((bytes[8 * k + 6] as u64) << 48u64) | ((bytes[8
        * k + 7] as u64) << 56u64)
}

/// The 32 little-endian bytes of four words.
pub open spec fn hash_bytes(h: Seq<u64>) -> Seq<u8> {
    Seq::new(32, |i: int| word_byte(h[i / 8], i % 8))
}

/// The 64 nibbles of 32 bytes, high nibble of each byte first.
pub open spec fn nibbles(bytes: Seq<u8>) -> Seq<u8> {
    Seq::new(
        64,
        |j: int|
            if j % 2 == 0 {
                bytes[j / 2] >> 4u8
            } else {
                bytes[j / 2] & 0x0fu8
            },
    )
}

/// The sum of the first `n` products of row `r` of the 64x64 matrix with `v`.
pub open spec fn row_dot(m: Seq<u8>, r: int, v: Seq<u8>, n: int) -> int
    decreases n,
{
    if n <= 0 {
        0
    } else {
        row_dot(m, r, v, n - 1) + m[64 * r + n - 1] * v[n - 1]
    }
}

/// Byte `i` of the matrix product, folded back into the hash byte.
pub open spec fn product_byte(m: Seq<u8>, bytes: Seq<u8>, i: int) -> u8 {
    let v = nibbles(bytes);
    let s0 = row_dot(m, 2 * i, v, 64) as u32;
    let s1 = row_dot(m, 2 * i + 1, v, 64) as u32;
    ((((s0 >> 10u32) << 4u32) | (s1 >> 10u32)) as u8) ^ bytes[i]
}

/// HeavyHash of a 256-bit hash under a matrix: the first four words of the
/// Keccak-f permutation of the HeavyHash state mixed with the product.
pub open spec fn heavy_hash_words(m: Seq<u8>, h: Seq<u64>) -> Seq<u64> {
    let bytes = hash_bytes(h);
    let product = Seq::new(32, |i: int| product_byte(m, bytes, i));
    let st = Seq::new(
        25,
        |i: int|
            if i < 4 {
                HEAVY_INITIAL_STATE[i] ^ le_word(product, i)
            } else {
                HEAVY_INITIAL_STATE[i]
            },
    );
    keccak_p(st).subrange(0, 4)
}

/// The PoW value of `nonce` for a job with the given Keccak state and matrix.
pub open spec fn pow_words(initial_state: Seq<u64>, m: Seq<u8>, nonce: u64) -> Seq<u64> {
    let st = keccak_p(initial_state.update(9, initial_state[9] ^ nonce));
    heavy_hash_words(m, st.subrange(0, 4))
}

/// The Keccak state of a job: the PoW state with the pre-PoW hash mixed into
/// lanes 0 to 3 and the timestamp into lane 4.
pub open spec fn job_initial_state(pre_pow_hash: Seq<u64>, timestamp: u64) -> Seq<u64> {
    Seq::new(
        25,
        |i: int|
            if i < 4 {
                POW_INITIAL_STATE[i] ^ pre_pow_hash[i]
            } else if i == 4 {
                POW_INITIAL_STATE[i] ^ timestamp
            } else {
                POW_INITIAL_STATE[i]
            },
    )
}

/// A mining job as the device and the CPU check see it.
#[derive(Clone, Debug)]
pub struct Job {
    pub id: String,
    pub target: Uint256,
    pub nonce_mask: u64,
    pub nonce_fixed: u64,
    pub matrix: [u8; 4096],
    pub initial_state: [u64; 25],
}

impl Job {
    /// Builds a job from a block template and the HeavyHash matrix that the
    /// pre-PoW hash seeds.
    pub fn new(
        id: String,
        pre_pow_hash: [u64; 4],
        timestamp: u64,
        target: Uint256,
        nonce_mask: u64,
        nonce_fixed: u64,
        matrix: [u8; 4096],
    ) -> (job: Self)
        ensures
            job.id@ == id@,
            job.target == target,
            job.nonce_mask == nonce_mask,
            job.nonce_fixed == nonce_fixed,
            job.matrix@ == matrix@,
            job.initial_state@ == job_initial_state(pre_pow_hash@, timestamp),
            forall|i: int| 0 <= i < 4 ==> job.initial_state[i] == POW_INITIAL_STATE[i] ^ pre_pow_hash[i],
            job.initial_state[4] == POW_INITIAL_STATE[4] ^ timestamp,
            forall|i: int| 5 <= i < 25 ==> job.initial_state[i] == POW_INITIAL_STATE[i],
    {
        let mut initial_state = POW_INITIAL_STATE;
        for i in 0..4
            invariant
                forall|k: int|
                    0 <= k < 25 ==> initial_state[k] == if k < i {
                        POW_INITIAL_STATE[k] ^ pre_pow_hash[k]
                    } else {
                        POW_INITIAL_STATE[k]
                    },
        {
            initial_state[i] = initial_state[i] ^ pre_pow_hash[i];
        }
        initial_state[4] = initial_state[4] ^ timestamp;
        assert(initial_state@ =~= job_initial_state(pre_pow_hash@, timestamp));
        Job { id, target, nonce_mask, nonce_fixed, matrix, initial_state }
    }

    /// The nonce that the device tries for a counter value: the counter's
    /// bits under the mask, with the fixed bits laid over them.
    pub fn nonce_for_counter(&self, counter: u64) -> (nonce: u64)
        ensures
            nonce == (counter & self.nonce_mask) | self.nonce_fixed,
    {
        (counter & self.nonce_mask) | self.nonce_fixed
    }

    /// The PoW value of a nonce for this job.
    pub fn calculate_pow(&self, nonce: u64) -> (pow: Uint256)
        ensures
            pow.0@ == pow_words(self.initial_state@, self.matrix@, nonce),
    {
        let mut st = self.initial_state;
        st[9] = st[9] ^ nonce;
        assert(st@ =~= self.initial_state@.update(9, self.initial_state@[9] ^ nonce));
        keccak_f1600(&mut st);
        let hash = [st[0], st[1], st[2], st[3]];
        assert(hash@ =~= st@.subrange(0, 4));
        heavy_hash(&self.matrix, hash)
    }
}

/// A job's Keccak state is the PoW state with word `i` of the pre-PoW hash
/// mixed into lane `i` (for `i < 4`), the timestamp into lane 4, and the
/// other lanes untouched.
pub proof fn law_job_initial_state(pre_pow_hash: Seq<u64>, timestamp: u64)
    requires
        pre_pow_hash.len() == 4,
    ensures
        job_initial_state(pre_pow_hash, timestamp).len() == 25,
        forall|i: int|
            0 <= i < 4 ==> #[trigger] job_initial_state(pre_pow_hash, timestamp)[i]
                == POW_INITIAL_STATE[i] ^ pre_pow_hash[i],
        job_initial_state(pre_pow_hash, timestamp)[4] == POW_INITIAL_STATE[4] ^ timestamp,
        forall|i: int|
            5 <= i < 25 ==> #[trigger] job_initial_state(pre_pow_hash, timestamp)[i]
                == POW_INITIAL_STATE[i],
{
}

/// The vector that the matrix multiplies holds, for each hash byte `i`, its
/// high four bits at entry `2i` and its low four bits at entry `2i + 1`.
pub proof fn law_nibbles(bytes: Seq<u8>)
    requires
        bytes.len() == 32,
    ensures
        nibbles(bytes).len() == 64,
        forall|i: int|
            0 <= i < 32 ==> #[trigger] nibbles(bytes)[2 * i] == bytes[i] / 16 && nibbles(bytes)[2
                * i + 1] == bytes[i] % 16,
{
    assert forall|i: int| 0 <= i < 32 implies #[trigger] nibbles(bytes)[2 * i] == bytes[i] / 16
        && nibbles(bytes)[2 * i + 1] == bytes[i] % 16 by {
        let b = bytes[i];
        assert((2 * i) % 2 == 0 && (2 * i) / 2 == i);
        assert((2 * i + 1) % 2 == 1 && (2 * i + 1) / 2 == i);
        assert(b >> 4u8 == b / 16 && b & 0x0fu8 == b % 16) by (bit_vector);
    }
}

/// Byte `i` of a hash is bits `8i .. 8i + 8` of the little-endian hash
/// words: byte `i % 8` of word `i / 8`, least significant byte first.
pub proof fn law_hash_bytes(h: Seq<u64>)
    requires
        h.len() == 4,
    ensures
        hash_bytes(h).len() == 32,
        forall|i: int|
            0 <= i < 32 ==> #[trigger] hash_bytes(h)[i] as int == (h[i / 8] as int / pow2(
                (8 * (i % 8)) as nat,
            ) as int) % 256,
{
    assert forall|i: int| 0 <= i < 32 implies #[trigger] hash_bytes(h)[i] as int == (h[i / 8] as int
        / pow2((8 * (i % 8)) as nat) as int) % 256 by {
        let w = h[i / 8];
        let sh = (8 * (i % 8)) as u64;
        let y = w >> sh;
        lemma_u64_shr_is_div(w, sh);
        lemma_u64_low_bits_mask_is_mod(y, 8);
        lemma2_to64();
        assert(low_bits_mask(8) == 255) by {
            lemma_low_bits_mask_values();
        }
        assert(((y & 0xff) as u8) as u64 == y & 0xff) by (bit_vector);
    }
}

/// A nonce that a job tries keeps the job's fixed bits wherever the mask is
/// clear and the counter's bits wherever it is set, when the fixed bits and
/// the mask do not overlap (as the Stratum extranonce layout guarantees).
pub proof fn law_nonce_layout(counter: u64, mask: u64, fixed: u64)
    requires
        fixed & mask == 0,
    ensures
        ((counter & mask) | fixed) & mask == counter & mask,
        ((counter & mask) | fixed) & !mask == fixed,
{
    assert(((counter & mask) | fixed) & mask == counter & mask) by (bit_vector)
        requires
            fixed & mask == 0,
    ;
    assert(((counter & mask) | fixed) & !mask == fixed) by (bit_vector)
        requires
            fixed & mask == 0,
    ;
}

/// A word is the little-endian word of its own bytes.
pub proof fn lemma_le_word_of_hash_bytes(h: Seq<u64>, k: int)
    requires
        h.len() == 4,
        0 <= k < 4,
    ensures
        le_word(hash_bytes(h), k) == h[k],
{
    let b = hash_bytes(h);
    let x = h[k];
    assert(b[8 * k] == word_byte(x, 0));
    assert(b[8 * k + 1] == word_byte(x, 1));
    assert(b[8 * k + 2] == word_byte(x, 2));
    assert(b[8 * k + 3] == word_byte(x, 3));
    assert(b[8 * k + 4] == word_byte(x, 4));
    assert(b[8 * k + 5] == word_byte(x, 5));
    assert(b[8 * k + 6] == word_byte(x, 6));
    assert(b[8 * k + 7] == word_byte(x, 7));
    assert(x == ((((x >> 0u64) & 0xff) as u8) as u64) | (((((x >> 8u64) & 0xff) as u8) as u64)
        << 8u64) | (((((x >> 16u64) & 0xff) as u8) as u64) << 16u64) | (((((x >> 24u64) & 0xff)
        as u8) as u64) << 24u64) | (((((x >> 32u64) & 0xff) as u8) as u64) << 32u64) | (((((x
        >> 40u64) & 0xff) as u8) as u64) << 40u64) | (((((x >> 48u64) & 0xff) as u8) as u64)
        << 48u64) | (((((x >> 56u64) & 0xff) as u8) as u64) << 56u64)) by (bit_vector);
}

proof fn lemma_row_dot_zero(m: Seq<u8>, r: int, v: Seq<u8>, n: int)
    requires
        0 <= r < 64,
        n <= 64,
        m.len() == 4096,
        forall|i: int| 0 <= i < 4096 ==> m[i] == 0,
    ensures
        row_dot(m, r, v, n) == 0,
    decreases n,
{
    if n > 0 {
        lemma_row_dot_zero(m, r, v, n - 1);
    }
}

/// With an all-zero matrix the matrix product adds nothing: HeavyHash is
/// Keccak-f of the HeavyHash state with the hash words mixed in.
pub proof fn law_heavy_hash_zero_matrix(m: Seq<u8>, h: Seq<u64>)
    requires
        m.len() == 4096,
        forall|i: int| 0 <= i < 4096 ==> m[i] == 0,
        h.len() == 4,
    ensures
        heavy_hash_words(m, h) == keccak_p(
            Seq::new(
                25,
                |i: int|
                    if i < 4 {
                        HEAVY_INITIAL_STATE[i] ^ h[i]
                    } else {
                        HEAVY_INITIAL_STATE[i]
                    },
            ),
        ).subrange(0, 4),
{
    let bytes = hash_bytes(h);
    let product = Seq::new(32, |i: int| product_byte(m, bytes, i));
    assert forall|i: int| 0 <= i < 32 implies product[i] == bytes[i] by {
        let v = nibbles(bytes);
        lemma_row_dot_zero(m, 2 * i, v, 64);
        lemma_row_dot_zero(m, 2 * i + 1, v, 64);
        let z = 0u32;
        let b = bytes[i];
        assert(((((z >> 10u32) << 4u32) | (z >> 10u32)) as u8) ^ b == b) by (bit_vector)
            requires
                z == 0,
        ;
    }
    assert(product =~= bytes);
    let st = Seq::new(
        25,
        |i: int|
            if i < 4 {
                HEAVY_INITIAL_STATE[i] ^ le_word(product, i)
            } else {
                HEAVY_INITIAL_STATE[i]
            },
    );
    let st2 = Seq::new(
        25,
        |i: int|
            if i < 4 {
                HEAVY_INITIAL_STATE[i] ^ h[i]
            } else {
                HEAVY_INITIAL_STATE[i]
            },
    );
    assert forall|i: int| 0 <= i < 4 implies le_word(product, i) == h[i] by {
        lemma_le_word_of_hash_bytes(h, i);
    }
    assert(st =~= st2);
}

proof fn lemma_nibble_bounds(b: u8)
    ensures
        b >> 4u8 <= 15,
        b & 0x0fu8 <= 15,
{
    assert(b >> 4u8 <= 15) by (bit_vector);
    assert(b & 0x0fu8 <= 15) by (bit_vector);
}

/// The product of matrix row `r` with the nibble vector.
fn matrix_row_dot(matrix: &[u8; 4096], r: usize, v: &[u8; 64]) -> (s: u32)
    requires
        r < 64,
        forall|j: int| 0 <= j < 64 ==> v[j] <= 15,
    ensures
        s == row_dot(matrix@, r as int, v@, 64),
        s <= 64 * 3825,
{
    let mut s = 0u32;
    for j in 0..64
        invariant
            r < 64,
            forall|k: int| 0 <= k < 64 ==> v[k] <= 15,
            s == row_dot(matrix@, r as int, v@, j as int),
            s <= j * 3825,
    {
        let m = matrix[r * 64 + j];
        let x = v[j];
        assert(m as u32 * x as u32 <= 3825) by (nonlinear_arith)
            requires
                m <= 255,
                x <= 15,
        ;
        s = s + m as u32 * x as u32;
    }
    s
}

/// HeavyHash of a 256-bit hash under a matrix.
fn heavy_hash(matrix: &[u8; 4096], hash: [u64; 4]) -> (r: Uint256)
    ensures
        r.0@ == heavy_hash_words(matrix@, hash@),
{
    let ghost bytes_spec = hash_bytes(hash@);
    let mut bytes = [0u8; 32];
    for i in 0..32
        invariant
            bytes_spec == hash_bytes(hash@),
            forall|k: int| 0 <= k < i ==> bytes[k] == bytes_spec[k],
    {
        bytes[i] = #[verifier::truncate] (((hash[i / 8] >> (8 * (i % 8)) as u64) & 0xff) as u8);
    }
    assert(bytes@ =~= bytes_spec);

    let ghost v_spec = nibbles(bytes@);
    let mut vec = [0u8; 64];
    for i in 0..32
        invariant
            bytes@ == bytes_spec,
            v_spec == nibbles(bytes@),
            forall|k: int| 0 <= k < 2 * i ==> vec[k] == v_spec[k],
    {
        vec[2 * i] = bytes[i] >> 4;
        vec[2 * i + 1] = bytes[i] & 0x0f;
    }
    assert(vec@ =~= v_spec);
    assert forall|j: int| 0 <= j < 64 implies vec[j] <= 15 by {
        lemma_nibble_bounds(bytes[j / 2]);
    }

    let ghost p_spec = Seq::new(32, |i: int| product_byte(matrix@, bytes@, i));
    let mut product = [0u8; 32];
    for i in 0..32
        invariant
            bytes@ == bytes_spec,
            vec@ == nibbles(bytes@),
            forall|j: int| 0 <= j < 64 ==> vec[j] <= 15,
            p_spec == Seq::new(32, |i: int| product_byte(matrix@, bytes@, i)),
            forall|k: int| 0 <= k < i ==> product[k] == p_spec[k],
    {
        let s0 = matrix_row_dot(matrix, 2 * i, &vec);
        let s1 = matrix_row_dot(matrix, 2 * i + 1, &vec);
        product[i] = #[verifier::truncate] ((((s0 >> 10) << 4) | (s1 >> 10)) as u8);
        product[i] = product[i] ^ bytes[i];
    }
    assert(product@ =~= p_spec);

    let mut st = HEAVY_INITIAL_STATE;
    for i in 0..4
        invariant
            product@ == p_spec,
            forall|k: int|
                0 <= k < 25 ==> st[k] == if k < i {
                    HEAVY_INITIAL_STATE[k] ^ le_word(product@, k)
                } else {
                    HEAVY_INITIAL_STATE[k]
                },
    {
        let b = 8 * i;
        let w = (product[b] as u64) | ((product[b + 1] as u64) << 8u64) | ((product[b + 2] as u64)
            << 16u64) | ((product[b + 3] as u64) << 24u64) | ((product[b + 4] as u64) << 32u64)
            | ((product[b + 5] as u64) << 40u64) | ((product[b + 6] as u64) << 48u64) | ((product[b
            + 7] as u64) << 56u64);
        st[i] = st[i] ^ w;
    }
    let ghost st0 = st@;
    assert(st0 =~= Seq::new(
        25,
        |i: int|
            if i < 4 {
                HEAVY_INITIAL_STATE[i] ^ le_word(p_spec, i)
            } else {
                HEAVY_INITIAL_STATE[i]
            },
    ));
    keccak_f1600(&mut st);
    let r = Uint256([st[0], st[1], st[2], st[3]]);
    assert(r.0@ =~= keccak_p(st0).subrange(0, 4));
    r
}

} // verus!
