//! The legacy PKWARE stream cipher that protects ZipCrypto entries: three
//! rolling key words fed by a CRC-32 step, a keystream byte derived from
//! the third word, and a 12-byte encryption prelude whose last byte checks
//! the password against the entry's CRC-32 or timestamp (a 1-in-256
//! false-accept rate, inherent to the scheme).

use vstd::prelude::*;

verus! {

/// One bit of the reflected CRC-32 feedback shift.
pub open spec fn crc32_shift(crc: u32) -> u32 {
    if crc % 2 == 1 {
        (crc / 2) ^ 0xEDB88320u32
    } else {
        crc / 2
    }
}

/// The CRC-32 step that folds one byte into a running word.
#[verifier::opaque]
pub open spec fn crc32_word_update(crc: u32, b: u8) -> u32 {
    crc32_shift(
        crc32_shift(
            crc32_shift(
                crc32_shift(
                    crc32_shift(crc32_shift(crc32_shift(crc32_shift(crc ^ (b as u32))))),
                ),
            ),
        ),
    )
}

/// One bit of the feedback shift, executable form.
fn crc32_shift_exec(crc: u32) -> (r: u32)
    ensures
        r == crc32_shift(crc),
{
    if crc % 2 == 1 {
        (crc / 2) ^ 0xEDB88320u32
    } else {
        crc / 2
    }
}

/// Fold one byte into a running CRC-32 word.
fn crc32_word_update_exec(crc: u32, b: u8) -> (r: u32)
    ensures
        r == crc32_word_update(crc, b),
{
    proof {
        reveal(crc32_word_update);
    }
    let mut x = crc ^ (b as u32);
    x = crc32_shift_exec(x);
    x = crc32_shift_exec(x);
    x = crc32_shift_exec(x);
    x = crc32_shift_exec(x);
    x = crc32_shift_exec(x);
    x = crc32_shift_exec(x);
    x = crc32_shift_exec(x);
    x = crc32_shift_exec(x);
    x
}

/// The cipher's rolling state.
#[derive(Clone, Copy, Debug, PartialEq, Eq, Structural)]
pub struct ZipCryptoKeys {
    pub key0: u32,
    pub key1: u32,
    pub key2: u32,
}

/// The state before any byte has been folded in.
pub open spec fn initial_keys() -> ZipCryptoKeys {
    ZipCryptoKeys { key0: 0x12345678, key1: 0x23456789, key2: 0x34567890 }
}

/// The state after folding one plaintext byte in.
#[verifier::opaque]
pub open spec fn update_keys(k: ZipCryptoKeys, b: u8) -> ZipCryptoKeys {
    let key0 = crc32_word_update(k.key0, b);
    let key1 = (k.key1.wrapping_add((key0 % 0x100) as u32)).wrapping_mul(
        134775813,
    ).wrapping_add(1);
    let key2 = crc32_word_update(k.key2, (key1 / 0x1000000) as u8);
    ZipCryptoKeys { key0, key1, key2 }
}

/// Fold one plaintext byte into the state.
fn update_keys_exec(k: ZipCryptoKeys, b: u8) -> (r: ZipCryptoKeys)
    ensures
        r == update_keys(k, b),
{
    proof {
        reveal(update_keys);
    }
    let key0 = crc32_word_update_exec(k.key0, b);
    let key1 = (k.key1.wrapping_add(key0 % 0x100)).wrapping_mul(134775813).wrapping_add(1);
    let key2 = crc32_word_update_exec(k.key2, (key1 / 0x1000000) as u8);
    ZipCryptoKeys { key0, key1, key2 }
}

/// The keystream byte the current state emits.
#[verifier::opaque]
pub open spec fn stream_byte(k: ZipCryptoKeys) -> u8 {
    let temp = ((k.key2 % 0x10000) as u16) | 2;
    ((temp.wrapping_mul(temp ^ 1)) / 0x100) as u8
}

/// Emit the keystream byte of the current state.
fn stream_byte_exec(k: ZipCryptoKeys) -> (r: u8)
    ensures
        r == stream_byte(k),
{
    proof {
        reveal(stream_byte);
    }
    let temp: u16 = ((k.key2 % 0x10000) as u16) | 2;
    ((temp.wrapping_mul(temp ^ 1)) / 0x100) as u8
}

/// The state after folding in a whole password.
pub open spec fn keys_after_password(password: Seq<u8>) -> ZipCryptoKeys
    decreases password.len(),
{
    if password.len() == 0 {
        initial_keys()
    } else {
        update_keys(keys_after_password(password.drop_last()), password.last())
    }
}

/// The plaintext of a ciphertext under a starting state: each byte is the
/// ciphertext byte XORed with the keystream, and the plaintext byte then
/// rolls the state forward.
pub open spec fn decrypt_stream(k: ZipCryptoKeys, c: Seq<u8>) -> Seq<u8>
    decreases c.len(),
{
    if c.len() == 0 {
        Seq::<u8>::empty()
    } else {
        let p = c[0] ^ stream_byte(k);
        seq![p] + decrypt_stream(update_keys(k, p), c.drop_first())
    }
}

/// The plaintext of a whole encrypted payload under a password.
pub open spec fn spec_decrypt(password: Seq<u8>, c: Seq<u8>) -> Seq<u8> {
    decrypt_stream(keys_after_password(password), c)
}

/// Decryption keeps the length of its input.
pub proof fn lemma_decrypt_stream_len(k: ZipCryptoKeys, c: Seq<u8>)
    ensures
        decrypt_stream(k, c).len() == c.len(),
    decreases c.len(),
{
    if c.len() > 0 {
        let p = c[0] ^ stream_byte(k);
        lemma_decrypt_stream_len(update_keys(k, p), c.drop_first());
    }
}

/// The byte the last prelude byte must equal for the password to be
/// accepted: the top byte of the recorded CRC-32, or of the timestamp's
/// time word when the sizes live in a data descriptor.
pub open spec fn validation_byte(crc32: u32, timepart: u16, using_data_descriptor: bool) -> u8 {
    if using_data_descriptor {
        (timepart / 0x100) as u8
    } else {
        (crc32 / 0x1000000) as u8
    }
}

/// Fold a whole password into the starting state.
pub fn keys_from_password(password: &[u8]) -> (r: ZipCryptoKeys)
    ensures
        r == keys_after_password(password@),
{
    let mut k = ZipCryptoKeys { key0: 0x12345678, key1: 0x23456789, key2: 0x34567890 };
    let n = password.len();
    let mut i: usize = 0;
    while i < n
        invariant
            n == password@.len(),
            i <= n,
            k == keys_after_password(password@.subrange(0, i as int)),
        decreases n - i,
    {
        proof {
            assert(password@.subrange(0, i + 1).drop_last() =~= password@.subrange(0, i as int));
            assert(password@.subrange(0, i + 1).last() == password@[i as int]);
        }
        k = update_keys_exec(k, password[i]);
        i = i + 1;
    }
    proof {
        assert(password@.subrange(0, n as int) =~= password@);
    }
    k
}

/// Decrypt a whole payload under a password.
#[verifier::rlimit(100)]
pub fn decrypt(password: &[u8], ciphertext: &[u8]) -> (r: Vec<u8>)
    ensures
        r@ == spec_decrypt(password@, ciphertext@),
{
    let mut k = keys_from_password(password);
    let ghost kstart = k;
    let mut out: Vec<u8> = Vec::new();
    let n = ciphertext.len();
    proof {
        assert(ciphertext@.subrange(0, n as int) =~= ciphertext@);
        assert(out@ + decrypt_stream(kstart, ciphertext@) =~= decrypt_stream(
            kstart,
            ciphertext@,
        ));
    }
    let mut i: usize = 0;
    while i < n
        invariant
            n == ciphertext@.len(),
            i <= n,
            out@.len() == i,
            decrypt_stream(kstart, ciphertext@) == out@ + decrypt_stream(
                k,
                ciphertext@.subrange(i as int, n as int),
            ),
        decreases n - i,
    {
        let ghost k0 = k;
        let ghost out0 = out@;
        let ghost rest = ciphertext@.subrange(i as int, n as int);
        proof {
            assert(rest.len() > 0);
            assert(rest[0] == ciphertext@[i as int]);
            assert(rest.drop_first() =~= ciphertext@.subrange(i + 1, n as int));
        }
        let p = ciphertext[i] ^ stream_byte_exec(k);
        out.push(p);
        k = update_keys_exec(k, p);
        proof {
            assert(p == rest[0] ^ stream_byte(k0));
            assert(decrypt_stream(k0, rest) == seq![p] + decrypt_stream(
                update_keys(k0, p),
                rest.drop_first(),
            ));
            assert(out@ + decrypt_stream(k, ciphertext@.subrange(i + 1, n as int)) =~= out0
                + decrypt_stream(k0, rest));
            assert(decrypt_stream(kstart, ciphertext@) == out@ + decrypt_stream(
                k,
                ciphertext@.subrange(i + 1, n as int),
            ));
        }
        i = i + 1;
    }
    proof {
        assert(ciphertext@.subrange(n as int, n as int) =~= Seq::<u8>::empty());
        assert(decrypt_stream(kstart, ciphertext@) =~= out@);
        assert(spec_decrypt(password@, ciphertext@) == decrypt_stream(kstart, ciphertext@));
    }
    out
}

} // verus!
