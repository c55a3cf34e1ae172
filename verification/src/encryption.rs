//! The envelope that protects course, thumbnail and save files.
//!
//! An envelope is a body followed by 48 bytes: an initialisation vector, a
//! seed and an authentication tag, 16 bytes each. The seed starts a small
//! generator that picks the bytes of two keys out of a key table: the first
//! key encrypts the body with AES-128 in CBC mode, the second one signs the
//! plain body with CMAC.

use crate::errors::{Smm2Error, Smm2ErrorView};
use crate::wire::{copy_range, le_bytes_of_u32, le_u32, read_u32_le, u32_to_le_bytes, write_range};
use aes::cipher::generic_array::GenericArray;
use aes::Aes128;
use block_modes::block_padding::ZeroPadding;
use block_modes::{BlockMode, Cbc};
use cmac::{Cmac, Mac, NewMac};
use rand::Rng;
use vstd::prelude::*;

verus! {

/// State of the four-lane generator that keys are drawn from.
#[derive(Clone, Copy, Debug, PartialEq, Eq, Structural)]
pub struct RandState {
    pub s0: u32,
    pub s1: u32,
    pub s2: u32,
    pub s3: u32,
}

/// The state a seed starts the generator in: its four little-endian words,
/// or fixed constants where all four are zero.
pub open spec fn seeded_state(seed: Seq<u8>) -> RandState {
    let in0 = le_u32(seed, 0);
    let in1 = le_u32(seed, 4);
    let in2 = le_u32(seed, 8);
    let in3 = le_u32(seed, 12);
    if in0 == 0 && in1 == 0 && in2 == 0 && in3 == 0 {
        RandState { s0: 1, s1: 0x6C07_8967, s2: 0x714A_CB41, s3: 0x4807_7044 }
    } else {
        RandState { s0: in0, s1: in1, s2: in2, s3: in3 }
    }
}

/// The value that the generator gives next.
pub open spec fn next_output(s: RandState) -> u32 {
    let n = s.s0 ^ (s.s0 << 11);
    n ^ ((n >> 8) ^ s.s3 ^ (s.s3 >> 19))
}

/// The state after one value has been drawn.
pub open spec fn next_state(s: RandState) -> RandState {
    RandState { s0: s.s1, s1: s.s2, s2: s.s3, s3: next_output(s) }
}

/// The state after `n` values have been drawn.
pub open spec fn state_after(s: RandState, n: nat) -> RandState
    decreases n,
{
    if n == 0 {
        s
    } else {
        next_state(state_after(s, (n - 1) as nat))
    }
}

/// The `n`-th value drawn from `s`, counting from zero.
pub open spec fn output_at(s: RandState, n: nat) -> u32 {
    next_output(state_after(s, n))
}

/// The byte that two consecutive values pick out of the key table: the first
/// value chooses the entry, the second one the byte inside it.
pub open spec fn picked_byte(table: Seq<u32>, first: u32, second: u32) -> u32 {
    (table[(first >> 26) as int] >> ((second >> 27) & 24)) & 0xFF
}

/// The `j`-th key byte in drawing order.
pub open spec fn stream_byte(s: RandState, table: Seq<u32>, j: nat) -> u32 {
    picked_byte(table, output_at(s, 2 * j), output_at(s, 2 * j + 1))
}

/// The key drawn from `s`: sixteen bytes in drawing order, each group of four
/// reversed, since a group is packed most significant byte first into a word
/// that is then stored least significant byte first.
pub open spec fn derived_key(s: RandState, table: Seq<u32>) -> Seq<u8> {
    Seq::new(16, |i: int| stream_byte(s, table, (4 * (i / 4) + 3 - i % 4) as nat) as u8)
}

/// Number of values that one key consumes.
pub open spec fn draws_per_key() -> nat {
    32
}

/// The AES key that belongs to a seed.
pub open spec fn aes_key(seed: Seq<u8>, table: Seq<u32>) -> Seq<u8> {
    derived_key(seeded_state(seed), table)
}

/// The CMAC key that belongs to a seed: the key drawn after the AES key.
pub open spec fn cmac_key(seed: Seq<u8>, table: Seq<u32>) -> Seq<u8> {
    derived_key(state_after(seeded_state(seed), draws_per_key()), table)
}

/// What AES-128 in CBC mode makes of `data` under `key` and `iv`.
pub uninterp spec fn aes128_cbc_encrypt(key: Seq<u8>, iv: Seq<u8>, data: Seq<u8>) -> Seq<u8>;

/// What AES-128 in CBC mode recovers from `data` under `key` and `iv`.
pub uninterp spec fn aes128_cbc_decrypt(key: Seq<u8>, iv: Seq<u8>, data: Seq<u8>) -> Seq<u8>;

/// The CMAC-AES-128 tag of `data` under `key`.
pub uninterp spec fn cmac_aes128(key: Seq<u8>, data: Seq<u8>) -> Seq<u8>;

/// A checksum register after `bits` more bits were shifted out of it: each
/// bit that leaves as one folds the reflected polynomial 0xEDB88320 in.
pub open spec fn crc32_shifted(register: u32, bits: nat) -> u32
    decreases bits,
{
    if bits == 0 {
        register
    } else {
        let before = crc32_shifted(register, (bits - 1) as nat);
        if before & 1 == 1 {
            (before >> 1) ^ 0xEDB8_8320
        } else {
            before >> 1
        }
    }
}

/// A checksum register after the bytes of `data` were fed to it.
pub open spec fn crc32_fed(register: u32, data: Seq<u8>) -> u32
    decreases data.len(),
{
    if data.len() == 0 {
        register
    } else {
        crc32_shifted(crc32_fed(register, data.drop_last()) ^ (data.last() as u32), 8)
    }
}

/// The CRC-32 (IEEE) checksum of `data`: the register starts with all bits
/// set, and all its bits are flipped at the end.
pub open spec fn crc32_ieee(data: Seq<u8>) -> u32 {
    crc32_fed(0xFFFF_FFFF, data) ^ 0xFFFF_FFFF
}

/// A body can be encrypted when it is a whole number of cipher blocks; it
/// may be empty.
pub open spec fn valid_body_len(n: int) -> bool {
    n >= 0 && n % 16 == 0
}

/// What a body is encrypted to: nothing where it is empty, else what the
/// cipher makes of it.
pub open spec fn cbc_encrypted(key: Seq<u8>, iv: Seq<u8>, data: Seq<u8>) -> Seq<u8> {
    if data.len() == 0 {
        data
    } else {
        aes128_cbc_encrypt(key, iv, data)
    }
}

/// What a body is decrypted to: nothing where it is empty, else what the
/// cipher recovers from it.
pub open spec fn cbc_decrypted(key: Seq<u8>, iv: Seq<u8>, data: Seq<u8>) -> Seq<u8> {
    if data.len() == 0 {
        data
    } else {
        aes128_cbc_decrypt(key, iv, data)
    }
}

/// An envelope is a valid body followed by the 48-byte trailer.
pub open spec fn valid_envelope_len(n: int) -> bool {
    n >= 48 && valid_body_len(n - 48)
}

pub open spec fn envelope_body(e: Seq<u8>) -> Seq<u8> {
    e.subrange(0, e.len() - 48)
}

pub open spec fn envelope_iv(e: Seq<u8>) -> Seq<u8> {
    e.subrange(e.len() - 48, e.len() - 32)
}

pub open spec fn envelope_seed(e: Seq<u8>) -> Seq<u8> {
    e.subrange(e.len() - 32, e.len() - 16)
}

pub open spec fn envelope_tag(e: Seq<u8>) -> Seq<u8> {
    e.subrange(e.len() - 16, e.len() as int)
}

/// The tag that signs the plain body `plain` under the keys of `seed`.
pub open spec fn body_tag(plain: Seq<u8>, seed: Seq<u8>, table: Seq<u32>) -> Seq<u8> {
    cmac_aes128(cmac_key(seed, table), plain)
}

/// The plain body inside an envelope, whether or not its tag is right.
pub open spec fn decrypted_body(e: Seq<u8>, table: Seq<u32>) -> Seq<u8> {
    cbc_decrypted(aes_key(envelope_seed(e), table), envelope_iv(e), envelope_body(e))
}

/// The trailer for the plain body `plain`.
pub open spec fn aes_info(plain: Seq<u8>, iv: Seq<u8>, seed: Seq<u8>, table: Seq<u32>) -> Seq<u8> {
    iv + seed + body_tag(plain, seed, table)
}

/// The envelope that holds the plain body `plain` under `iv` and `seed`.
pub open spec fn sealed(plain: Seq<u8>, iv: Seq<u8>, seed: Seq<u8>, table: Seq<u32>) -> Seq<u8> {
    cbc_encrypted(aes_key(seed, table), iv, plain) + aes_info(plain, iv, seed, table)
}

/// An envelope opens when its length is valid and its tag signs the body it
/// decrypts to.
pub open spec fn opens(e: Seq<u8>, table: Seq<u32>) -> bool {
    valid_envelope_len(e.len() as int) && envelope_tag(e) == body_tag(
        decrypted_body(e, table),
        envelope_seed(e),
        table,
    )
}

/// The error with which an envelope that does not open is refused: its
/// length where that is not valid, else the tag that it holds and the tag
/// that signs the body it decrypts to.
pub open spec fn refusal(e: Seq<u8>, table: Seq<u32>) -> Smm2ErrorView {
    if !valid_envelope_len(e.len() as int) {
        Smm2ErrorView::InvalidLength
    } else {
        Smm2ErrorView::CmacMismatch {
            expected: envelope_tag(e),
            got: body_tag(decrypted_body(e, table), envelope_seed(e), table),
        }
    }
}

/// The header's checksum field holds the checksum of all that follows the
/// header.
pub open spec fn crc_fixed(data: Seq<u8>) -> bool {
    data.len() >= 16 && data.subrange(8, 12) == le_bytes_of_u32(
        crc32_ieee(data.subrange(16, data.len() as int)),
    )
}

/// `data` with its checksum field set.
pub open spec fn with_crc(data: Seq<u8>) -> Seq<u8> {
    data.subrange(0, 8) + le_bytes_of_u32(crc32_ieee(data.subrange(16, data.len() as int)))
        + data.subrange(12, data.len() as int)
}

/// Setting the checksum of data whose checksum is right changes nothing.
pub proof fn lemma_with_crc_of_fixed(data: Seq<u8>)
    requires
        crc_fixed(data),
    ensures
        with_crc(data) == data,
{
    assert(with_crc(data) =~= data.subrange(0, 8) + data.subrange(8, 12) + data.subrange(
        12,
        data.len() as int,
    ));
    assert(with_crc(data) =~= data);
}

/// Decrypts, in place, a body of one or more whole cipher blocks.
///
/// Trusted: calls `Cbc::<Aes128, ZeroPadding>::decrypt` of `block-modes`. The
/// contract names the buffer it leaves, says that the length stays, and that
/// encrypting with the same key and vector gives the input back, as holds of
/// a block cipher in CBC mode. The call fails on a length that is not a
/// multiple of 16 and reads out of bounds on an empty buffer, so both are
/// left out.
#[verifier::external_body]
fn cbc_decrypt(key: &[u8; 16], iv: &[u8; 16], data: &mut Vec<u8>)
    requires
        old(data)@.len() > 0,
        old(data)@.len() % 16 == 0,
    ensures
        final(data)@ == aes128_cbc_decrypt(key@, iv@, old(data)@),
        final(data)@.len() == old(data)@.len(),
        aes128_cbc_encrypt(key@, iv@, final(data)@) == old(data)@,
{
    let cipher = Cbc::<Aes128, ZeroPadding>::new_fix(
        GenericArray::from_slice(key),
        GenericArray::from_slice(iv),
    );
    let _ = cipher.decrypt(data.as_mut_slice());
}

/// Encrypts, in place, a body of one or more whole cipher blocks.
///
/// Trusted: calls `Cbc::<Aes128, ZeroPadding>::encrypt` of `block-modes` with
/// the whole buffer as message, so that no padding is added. The contract
/// names the buffer it leaves, says that the length stays, and that
/// decrypting with the same key and vector gives the input back.
#[verifier::external_body]
fn cbc_encrypt(key: &[u8; 16], iv: &[u8; 16], data: &mut Vec<u8>)
    requires
        old(data)@.len() > 0,
        old(data)@.len() % 16 == 0,
    ensures
        final(data)@ == aes128_cbc_encrypt(key@, iv@, old(data)@),
        final(data)@.len() == old(data)@.len(),
        aes128_cbc_decrypt(key@, iv@, final(data)@) == old(data)@,
{
    let cipher = Cbc::<Aes128, ZeroPadding>::new_fix(
        GenericArray::from_slice(key),
        GenericArray::from_slice(iv),
    );
    let len = data.len();
    let _ = cipher.encrypt(data.as_mut_slice(), len);
}

/// Decrypts, in place, a body of whole cipher blocks. An empty body stays
/// empty: the cipher is not called on it.
fn decrypt_body(key: &[u8; 16], iv: &[u8; 16], data: &mut Vec<u8>)
    requires
        valid_body_len(old(data)@.len() as int),
    ensures
        final(data)@ == cbc_decrypted(key@, iv@, old(data)@),
        final(data)@.len() == old(data)@.len(),
        cbc_encrypted(key@, iv@, final(data)@) == old(data)@,
{
    if data.len() > 0 {
        cbc_decrypt(key, iv, data);
    }
}

/// Encrypts, in place, a body of whole cipher blocks. An empty body stays
/// empty: the cipher is not called on it.
fn encrypt_body(key: &[u8; 16], iv: &[u8; 16], data: &mut Vec<u8>)
    requires
        valid_body_len(old(data)@.len() as int),
    ensures
        final(data)@ == cbc_encrypted(key@, iv@, old(data)@),
        final(data)@.len() == old(data)@.len(),
        cbc_decrypted(key@, iv@, final(data)@) == old(data)@,
{
    if data.len() > 0 {
        cbc_encrypt(key, iv, data);
    }
}

/// Trusted: feeds `data` to `Cmac::<Aes128>` of `cmac` and takes the tag. The
/// contract names the 16 bytes that come back.
#[verifier::external_body]
fn cmac_of(key: &[u8; 16], data: &[u8]) -> (tag: [u8; 16])
    ensures
        tag@ == cmac_aes128(key@, data@),
{
    let mut mac = Cmac::<Aes128>::new(GenericArray::from_slice(key));
    mac.update(data);
    mac.finalize().into_bytes().into()
}

/// Trusted: calls `crc32::checksum_ieee` of `crc`, which computes the same
/// checksum from a table. The contract states the checksum that comes back.
#[verifier::external_body]
fn crc32_of(data: &[u8]) -> (sum: u32)
    ensures
        sum == crc32_ieee(data@),
{
    crc::crc32::checksum_ieee(data)
}

/// Trusted: draws 16 bytes from `rand::thread_rng`. Nothing is known of them.
#[verifier::external_body]
pub(crate) fn random_block() -> [u8; 16] {
    rand::thread_rng().gen::<[u8; 16]>()
}

/// Starts the generator from a seed.
pub fn rand_init(seed: &[u8; 16]) -> (state: RandState)
    ensures
        state == seeded_state(seed@),
{
    let in0: u32 = read_u32_le(seed.as_slice(), 0);
    let in1: u32 = read_u32_le(seed.as_slice(), 4);
    let in2: u32 = read_u32_le(seed.as_slice(), 8);
    let in3: u32 = read_u32_le(seed.as_slice(), 12);
    if in0 == 0 && in1 == 0 && in2 == 0 && in3 == 0 {
        RandState { s0: 1, s1: 0x6C07_8967, s2: 0x714A_CB41, s3: 0x4807_7044 }
    } else {
        RandState { s0: in0, s1: in1, s2: in2, s3: in3 }
    }
}

/// Draws one value.
pub fn rand_gen(state: &mut RandState) -> (n: u32)
    ensures
        n == next_output(*old(state)),
        *final(state) == next_state(*old(state)),
{
    let mut n: u32 = state.s0 ^ (state.s0 << 11);
    n = n ^ ((n >> 8) ^ state.s3 ^ (state.s3 >> 19));
    state.s0 = state.s1;
    state.s1 = state.s2;
    state.s2 = state.s3;
    state.s3 = n;
    n
}

/// Drawing `n + 1` values is drawing `n` and then one more.
proof fn lemma_state_after_step(s: RandState, n: nat)
    ensures
        state_after(s, n + 1) == next_state(state_after(s, n)),
{
}

/// Draws one key byte: two values of the generator.
fn gen_byte(state: &mut RandState, key_table: &[u32; 256], Ghost(start): Ghost<RandState>, Ghost(
    j,
): Ghost<nat>) -> (b: u32)
    requires
        *old(state) == state_after(start, 2 * j),
    ensures
        b == stream_byte(start, key_table@, j),
        b <= 0xFF,
        *final(state) == state_after(start, 2 * j + 2),
{
    let first: u32 = rand_gen(state);
    let second: u32 = rand_gen(state);
    let index: u32 = first >> 26;
    let shift: u32 = (second >> 27) & 24;
    assert(index < 64 && shift < 32) by (bit_vector)
        requires
            index == first >> 26,
            shift == (second >> 27) & 24,
    ;
    let entry: u32 = key_table[index as usize];
    let b: u32 = (entry >> shift) & 0xFF;
    assert(b <= 0xFF) by (bit_vector)
        requires
            b == (entry >> shift) & 0xFF,
    ;
    proof {
        lemma_state_after_step(start, 2 * j);
        lemma_state_after_step(start, 2 * j + 1);
    }
    b
}

/// Draws the four bytes of one key word and packs them, first byte highest.
fn gen_word(state: &mut RandState, key_table: &[u32; 256], Ghost(start): Ghost<RandState>, Ghost(
    w,
): Ghost<nat>) -> (k: u32)
    requires
        *old(state) == state_after(start, 8 * w),
    ensures
        *final(state) == state_after(start, 8 * w + 8),
        (k & 0xFF) as u8 == stream_byte(start, key_table@, 4 * w + 3) as u8,
        ((k & 0xFF00) >> 8) as u8 == stream_byte(start, key_table@, 4 * w + 2) as u8,
        ((k & 0x00FF_0000) >> 16) as u8 == stream_byte(start, key_table@, 4 * w + 1) as u8,
        ((k & 0xFF00_0000) >> 24) as u8 == stream_byte(start, key_table@, 4 * w) as u8,
{
    let b0: u32 = gen_byte(state, key_table, Ghost(start), Ghost(4 * w));
    let b1: u32 = gen_byte(state, key_table, Ghost(start), Ghost(4 * w + 1));
    let b2: u32 = gen_byte(state, key_table, Ghost(start), Ghost(4 * w + 2));
    let b3: u32 = gen_byte(state, key_table, Ghost(start), Ghost(4 * w + 3));
    let mut k: u32 = 0;
    k = (k << 8) | b0;
    k = (k << 8) | b1;
    k = (k << 8) | b2;
    k = (k << 8) | b3;
    assert((k & 0xFF) == b3 && ((k & 0xFF00) >> 8) == b2 && ((k & 0x00FF_0000) >> 16) == b1 && ((k
        & 0xFF00_0000) >> 24) == b0) by (bit_vector)
        requires
            b0 <= 0xFF,
            b1 <= 0xFF,
            b2 <= 0xFF,
            b3 <= 0xFF,
            k == (((((((0u32 << 8) | b0) << 8) | b1) << 8) | b2) << 8) | b3,
    ;
    k
}

/// Draws one 16-byte key from the generator and the key table.
pub fn gen_key(state: &mut RandState, key_table: &[u32; 256]) -> (key: [u8; 16])
    ensures
        key@ == derived_key(*old(state), key_table@),
        *final(state) == state_after(*old(state), draws_per_key()),
{
    let ghost start = *state;
    let k0: u32 = gen_word(state, key_table, Ghost(start), Ghost(0));
    let k1: u32 = gen_word(state, key_table, Ghost(start), Ghost(1));
    let k2: u32 = gen_word(state, key_table, Ghost(start), Ghost(2));
    let k3: u32 = gen_word(state, key_table, Ghost(start), Ghost(3));
    let key: [u8; 16] = [
        (k0 & 0xFF) as u8,
        ((k0 & 0xFF00) >> 8) as u8,
        ((k0 & 0x00FF_0000) >> 16) as u8,
        ((k0 & 0xFF00_0000) >> 24) as u8,
        (k1 & 0xFF) as u8,
        ((k1 & 0xFF00) >> 8) as u8,
        ((k1 & 0x00FF_0000) >> 16) as u8,
        ((k1 & 0xFF00_0000) >> 24) as u8,
        (k2 & 0xFF) as u8,
        ((k2 & 0xFF00) >> 8) as u8,
        ((k2 & 0x00FF_0000) >> 16) as u8,
        ((k2 & 0xFF00_0000) >> 24) as u8,
        (k3 & 0xFF) as u8,
        ((k3 & 0xFF00) >> 8) as u8,
        ((k3 & 0x00FF_0000) >> 16) as u8,
        ((k3 & 0xFF00_0000) >> 24) as u8,
    ];
    proof {
        let expected = derived_key(start, key_table@);
        assert(expected[0] == key@[0]);
        assert(expected[1] == key@[1]);
        assert(expected[2] == key@[2]);
        assert(expected[3] == key@[3]);
        assert(expected[4] == key@[4]);
        assert(expected[5] == key@[5]);
        assert(expected[6] == key@[6]);
        assert(expected[7] == key@[7]);
        assert(expected[8] == key@[8]);
        assert(expected[9] == key@[9]);
        assert(expected[10] == key@[10]);
        assert(expected[11] == key@[11]);
        assert(expected[12] == key@[12]);
        assert(expected[13] == key@[13]);
        assert(expected[14] == key@[14]);
        assert(expected[15] == key@[15]);
        assert(key@ =~= expected);
    }
    key
}

/// The 16 bytes of `data` from `at` on.
pub fn block_at(data: &[u8], at: usize) -> (block: [u8; 16])
    requires
        at + 16 <= data@.len(),
    ensures
        block@ == data@.subrange(at as int, at + 16),
{
    let len: usize = data.len();
    let block: [u8; 16] = [
        data[at],
        data[at + 1],
        data[at + 2],
        data[at + 3],
        data[at + 4],
        data[at + 5],
        data[at + 6],
        data[at + 7],
        data[at + 8],
        data[at + 9],
        data[at + 10],
        data[at + 11],
        data[at + 12],
        data[at + 13],
        data[at + 14],
        data[at + 15],
    ];
    assert(block@ =~= data@.subrange(at as int, at + 16));
    block
}

/// Whether two byte strings are equal.
pub fn bytes_equal(a: &[u8], b: &[u8]) -> (same: bool)
    ensures
        same == (a@ == b@),
{
    if a.len() != b.len() {
        return false;
    }
    let mut i: usize = 0;
    while i < a.len()
        invariant
            a@.len() == b@.len(),
            0 <= i <= a@.len(),
            a@.subrange(0, i as int) == b@.subrange(0, i as int),
        decreases a@.len() - i,
    {
        if a[i] != b[i] {
            return false;
        }
        i += 1;
        assert(a@.subrange(0, i as int) =~= a@.subrange(0, i - 1).push(a@[i - 1]));
        assert(b@.subrange(0, i as int) =~= b@.subrange(0, i - 1).push(b@[i - 1]));
    }
    assert(a@ =~= a@.subrange(0, i as int));
    assert(b@ =~= b@.subrange(0, i as int));
    true
}

/// Decrypts an envelope in place and checks its tag.
///
/// An envelope is refused for its length where it is shorter than a trailer
/// or its body is no whole number of cipher blocks. On a valid length the body is replaced by what it decrypts to, whether or
/// not the tag is right, and the trailer stays. An envelope that opens can be
/// sealed again from the plain body, its vector and its seed, byte for byte.
pub fn decrypt(bytes: &mut Vec<u8>, key_table: &[u32; 256]) -> (res: Result<(), Smm2Error>)
    ensures
        final(bytes)@.len() == old(bytes)@.len(),
        !valid_envelope_len(old(bytes)@.len() as int) ==> final(bytes)@ == old(bytes)@,
        valid_envelope_len(old(bytes)@.len() as int) ==> final(bytes)@ == decrypted_body(
            old(bytes)@,
            key_table@,
        ) + old(bytes)@.subrange(old(bytes)@.len() - 48, old(bytes)@.len() as int),
        res is Ok <==> opens(old(bytes)@, key_table@),
        res matches Err(e) ==> e@ == refusal(old(bytes)@, key_table@),
        res is Ok ==> sealed(
            envelope_body(final(bytes)@),
            envelope_iv(old(bytes)@),
            envelope_seed(old(bytes)@),
            key_table@,
        ) == old(bytes)@,
{
    let len: usize = bytes.len();
    if len < 48 || len % 16 != 0 {
        return Err(Smm2Error::InvalidLength);
    }
    let end: usize = len - 48;
    let iv: [u8; 16] = block_at(bytes.as_slice(), end);
    let seed: [u8; 16] = block_at(bytes.as_slice(), end + 16);
    let tag: Vec<u8> = copy_range(bytes.as_slice(), end + 32, len);
    let mut state: RandState = rand_init(&seed);
    let key: [u8; 16] = gen_key(&mut state, key_table);
    let mac_key: [u8; 16] = gen_key(&mut state, key_table);
    let mut body: Vec<u8> = copy_range(bytes.as_slice(), 0, end);
    decrypt_body(&key, &iv, &mut body);
    let got: [u8; 16] = cmac_of(&mac_key, body.as_slice());
    write_range(bytes, 0, body.as_slice());
    proof {
        let e = old(bytes)@;
        assert(bytes@ =~= decrypted_body(e, key_table@) + e.subrange(e.len() - 48, e.len() as int));
        assert(envelope_body(bytes@) =~= body@);
        assert(e =~= envelope_body(e) + (envelope_iv(e) + envelope_seed(e) + envelope_tag(e)));
    }
    if bytes_equal(tag.as_slice(), got.as_slice()) {
        Ok(())
    } else {
        let got: Vec<u8> = copy_range(got.as_slice(), 0, 16);
        assert(got@ =~= body_tag(body@, seed@, key_table@));
        Err(Smm2Error::CmacMismatch { expected: tag, got })
    }
}

/// Encrypts a plain body in place under the given vector and seed, and
/// returns the trailer that belongs behind it.
///
/// The envelope made of the encrypted body and the trailer opens, and
/// decrypts to the plain body.
pub fn encrypt_with(
    bytes: &mut Vec<u8>,
    key_table: &[u32; 256],
    iv: &[u8; 16],
    seed: &[u8; 16],
) -> (res: Result<Vec<u8>, Smm2Error>)
    ensures
        !valid_body_len(old(bytes)@.len() as int) ==> res == Err::<Vec<u8>, Smm2Error>(
            Smm2Error::InvalidLength,
        ) && final(bytes)@ == old(bytes)@,
        valid_body_len(old(bytes)@.len() as int) ==> (match res {
            Ok(info) => {
                &&& info@.len() == 48
                &&& info@ == aes_info(old(bytes)@, iv@, seed@, key_table@)
                &&& final(bytes)@ + info@ == sealed(old(bytes)@, iv@, seed@, key_table@)
                &&& final(bytes)@.len() == old(bytes)@.len()
                &&& opens(final(bytes)@ + info@, key_table@)
                &&& decrypted_body(final(bytes)@ + info@, key_table@) == old(bytes)@
            },
            Err(_) => false,
        }),
{
    let len: usize = bytes.len();
    if len % 16 != 0 {
        return Err(Smm2Error::InvalidLength);
    }
    let mut state: RandState = rand_init(seed);
    let key: [u8; 16] = gen_key(&mut state, key_table);
    let mac_key: [u8; 16] = gen_key(&mut state, key_table);
    let tag: [u8; 16] = cmac_of(&mac_key, bytes.as_slice());
    let mut info: Vec<u8> = copy_range(iv.as_slice(), 0, 16);
    info.extend_from_slice(seed.as_slice());
    info.extend_from_slice(tag.as_slice());
    encrypt_body(&key, iv, bytes);
    proof {
        let e = bytes@ + info@;
        assert(iv@.subrange(0, 16) =~= iv@);
        assert(info@ =~= aes_info(old(bytes)@, iv@, seed@, key_table@));
        assert(envelope_body(e) =~= bytes@);
        assert(envelope_iv(e) =~= iv@);
        assert(envelope_seed(e) =~= seed@);
        assert(envelope_tag(e) =~= tag@);
    }
    Ok(info)
}

/// Encrypts a plain body in place under a fresh random vector and seed, and
/// returns the trailer that belongs behind it.
///
/// Whatever vector and seed were drawn, they stand in the trailer, and the
/// envelope made of the encrypted body and the trailer opens and decrypts to
/// the plain body.
pub fn encrypt(bytes: &mut Vec<u8>, key_table: &[u32; 256]) -> (res: Result<Vec<u8>, Smm2Error>)
    ensures
        !valid_body_len(old(bytes)@.len() as int) ==> res == Err::<Vec<u8>, Smm2Error>(
            Smm2Error::InvalidLength,
        ) && final(bytes)@ == old(bytes)@,
        valid_body_len(old(bytes)@.len() as int) ==> (match res {
            Ok(info) => {
                &&& info@.len() == 48
                &&& final(bytes)@ + info@ == sealed(
                    old(bytes)@,
                    info@.subrange(0, 16),
                    info@.subrange(16, 32),
                    key_table@,
                )
                &&& final(bytes)@.len() == old(bytes)@.len()
                &&& opens(final(bytes)@ + info@, key_table@)
                &&& decrypted_body(final(bytes)@ + info@, key_table@) == old(bytes)@
            },
            Err(_) => false,
        }),
{
    let iv: [u8; 16] = random_block();
    let seed: [u8; 16] = random_block();
    let res = encrypt_with(bytes, key_table, &iv, &seed);
    proof {
        if let Ok(info) = &res {
            assert(info@.subrange(0, 16) =~= iv@);
            assert(info@.subrange(16, 32) =~= seed@);
        }
    }
    res
}

/// Writes the checksum of all that follows the 16-byte header into the
/// header, least significant byte first.
pub fn fix_crc32(data: &mut Vec<u8>) -> (res: Result<(), Smm2Error>)
    ensures
        old(data)@.len() < 16 ==> res == Err::<(), Smm2Error>(Smm2Error::InvalidLength)
            && final(data)@ == old(data)@,
        old(data)@.len() >= 16 ==> res is Ok && final(data)@ == with_crc(old(data)@)
            && crc_fixed(final(data)@),
{
    let len: usize = data.len();
    if len < 16 {
        return Err(Smm2Error::InvalidLength);
    }
    let rest: Vec<u8> = copy_range(data.as_slice(), 16, len);
    let sum: u32 = crc32_of(rest.as_slice());
    let field: [u8; 4] = u32_to_le_bytes(sum);
    write_range(data, 8, field.as_slice());
    proof {
        assert(data@ =~= with_crc(old(data)@));
        assert(data@.subrange(16, data@.len() as int) =~= old(data)@.subrange(16, len as int));
        assert(data@.subrange(8, 12) =~= le_bytes_of_u32(sum));
    }
    Ok(())
}

} // verus!
