//! Streaming AES-256-GCM decryption. The ciphertext of an archive is the
//! concatenation of its parts in index order; the authentication tag is
//! computed across that whole concatenation, never per part. The AES block
//! encryption and the GHASH accumulator come from vetted primitive crates;
//! the GCM framing around them — counter management, residual-block
//! buffering, the length block, and the tag comparison — is verified here.

use crate::bytes::{be32_val, be64_bytes, copy_bytes, ct_bytes_eq, push_be64, zero_vec, zeros};
use crate::primitives::{
    aes256_block, aes_encrypt_block, aes_key, aes_new, b64_decode, base64_decode_of, ghash_absorbed,
    ghash_finalize, ghash_h, ghash_new, ghash_of, ghash_update_block, sha256, sha256_of,
};
use vstd::prelude::*;

verus! {

/// One step of the 32-bit big-endian ripple-carry increment, over the whole
/// of a byte string: the last byte is incremented; 255 rolls over to 0 and
/// carries left; a carry off the front is dropped.
pub open spec fn be_inc(s: Seq<u8>) -> Seq<u8>
    decreases s.len(),
{
    if s.len() == 0 {
        s
    } else if s.last() == 255 {
        be_inc(s.drop_last()).push(0u8)
    } else {
        s.drop_last().push((s.last() + 1) as u8)
    }
}

/// A 16-byte counter block with only its low 32 bits incremented
/// (big-endian, wrapping), as GCM requires.
pub open spec fn spec_inc32(b: Seq<u8>) -> Seq<u8>
    recommends
        b.len() == 16,
{
    b.take(12) + be_inc(b.skip(12))
}

/// `spec_inc32` applied `n` times.
pub open spec fn inc32_n(b: Seq<u8>, n: nat) -> Seq<u8>
    decreases n,
{
    if n == 0 {
        b
    } else {
        spec_inc32(inc32_n(b, (n - 1) as nat))
    }
}

/// Stepping the counter keeps its length.
pub proof fn lemma_be_inc_len(s: Seq<u8>)
    ensures
        be_inc(s).len() == s.len(),
    decreases s.len(),
{
    if s.len() > 0 && s.last() == 255 {
        lemma_be_inc_len(s.drop_last());
    }
}

/// Increments only the low 32 bits, big-endian and wrapping, of a 16-byte
/// counter block.
pub fn inc32(block: &mut Vec<u8>)
    requires
        old(block)@.len() == 16,
    ensures
        final(block)@ == spec_inc32(old(block)@),
        final(block)@.len() == 16,
{
    proof {
        lemma_be_inc_len(old(block)@.skip(12));
    }
    let ghost orig = block@;
    let ghost t = orig.skip(12);
    proof {
        assert(t.len() == 4 && t[0] == orig[12] && t[1] == orig[13] && t[2] == orig[14] && t[3]
            == orig[15]);
    }
    let b15 = block[15];
    if b15 != 255 {
        block.set(15, b15 + 1);
        proof {
            assert(be_inc(t) == t.drop_last().push((b15 + 1) as u8));
            assert(block@ =~= orig.take(12) + be_inc(t));
        }
        return ;
    }
    block.set(15, 0);
    let b14 = block[14];
    if b14 != 255 {
        block.set(14, b14 + 1);
        proof {
            assert(be_inc(t) == be_inc(t.drop_last()).push(0u8));
            assert(t.drop_last().last() == b14);
            assert(be_inc(t.drop_last()) == t.drop_last().drop_last().push((b14 + 1) as u8));
            assert(block@ =~= orig.take(12) + be_inc(t));
        }
        return ;
    }
    block.set(14, 0);
    let b13 = block[13];
    if b13 != 255 {
        block.set(13, b13 + 1);
        proof {
            assert(be_inc(t) == be_inc(t.drop_last()).push(0u8));
            assert(t.drop_last().last() == b14 && b14 == 255);
            assert(be_inc(t.drop_last()) == be_inc(t.drop_last().drop_last()).push(0u8));
            assert(t.drop_last().drop_last().last() == b13);
            assert(be_inc(t.drop_last().drop_last()) == t.drop_last().drop_last().drop_last().push(
                (b13 + 1) as u8,
            ));
            assert(block@ =~= orig.take(12) + be_inc(t));
        }
        return ;
    }
    block.set(13, 0);
    let b12 = block[12];
    if b12 != 255 {
        block.set(12, b12 + 1);
    } else {
        block.set(12, 0);
    }
    proof {
        assert(be_inc(t) == be_inc(t.drop_last()).push(0u8));
        assert(t.drop_last().last() == 255);
        assert(be_inc(t.drop_last()) == be_inc(t.drop_last().drop_last()).push(0u8));
        assert(t.drop_last().drop_last().last() == 255);
        assert(be_inc(t.drop_last().drop_last()) == be_inc(
            t.drop_last().drop_last().drop_last(),
        ).push(0u8));
        let u = t.drop_last().drop_last().drop_last();
        assert(u.len() == 1 && u.last() == b12);
        if b12 != 255 {
            assert(be_inc(u) == u.drop_last().push((b12 + 1) as u8));
        } else {
            assert(be_inc(u) == be_inc(u.drop_last()).push(0u8));
            assert(u.drop_last().len() == 0);
        }
        assert(block@ =~= orig.take(12) + be_inc(t));
    }
}

/// The ripple-carry step really is `+1 mod 2³²` on the low 32 bits: the
/// first 12 bytes stay, and the value of the last 4 bytes, read big-endian,
/// increments and wraps.
pub proof fn lemma_inc32_adds_one(b: Seq<u8>)
    requires
        b.len() == 16,
    ensures
        spec_inc32(b).len() == 16,
        spec_inc32(b).take(12) == b.take(12),
        be32_val(spec_inc32(b).skip(12)) == (be32_val(b.skip(12)) + 1) % 0x1_0000_0000,
{
    let t = b.skip(12);
    lemma_be_inc_len(t);
    assert(spec_inc32(b).take(12) =~= b.take(12));
    assert(spec_inc32(b).skip(12) =~= be_inc(t));
    let r = be_inc(t);
    assert(t.len() == 4 && t[0] == b[12] && t[1] == b[13] && t[2] == b[14] && t[3] == b[15]);
    if t[3] != 255 {
        assert(r == t.drop_last().push((t[3] + 1) as u8));
        assert(r[0] == t[0] && r[1] == t[1] && r[2] == t[2] && r[3] == t[3] + 1);
        assert(be32_val(t) < 0xffff_ffff);
    } else if t[2] != 255 {
        assert(r == be_inc(t.drop_last()).push(0u8));
        assert(be_inc(t.drop_last()) == t.drop_last().drop_last().push((t[2] + 1) as u8));
        assert(r[0] == t[0] && r[1] == t[1] && r[2] == t[2] + 1 && r[3] == 0);
        assert(be32_val(t) < 0xffff_ffff);
    } else if t[1] != 255 {
        assert(r == be_inc(t.drop_last()).push(0u8));
        assert(be_inc(t.drop_last()) == be_inc(t.drop_last().drop_last()).push(0u8));
        assert(be_inc(t.drop_last().drop_last()) == t.drop_last().drop_last().drop_last().push(
            (t[1] + 1) as u8,
        ));
        assert(r[0] == t[0] && r[1] == t[1] + 1 && r[2] == 0 && r[3] == 0);
        assert(be32_val(t) < 0xffff_ffff);
    } else if t[0] != 255 {
        assert(r == be_inc(t.drop_last()).push(0u8));
        assert(be_inc(t.drop_last()) == be_inc(t.drop_last().drop_last()).push(0u8));
        assert(be_inc(t.drop_last().drop_last()) == be_inc(
            t.drop_last().drop_last().drop_last(),
        ).push(0u8));
        let u = t.drop_last().drop_last().drop_last();
        assert(u.len() == 1 && u.last() == t[0]);
        assert(be_inc(u) == u.drop_last().push((t[0] + 1) as u8));
        assert(r[0] == t[0] + 1 && r[1] == 0 && r[2] == 0 && r[3] == 0);
        assert(be32_val(t) < 0xffff_ffff);
    } else {
        assert(r == be_inc(t.drop_last()).push(0u8));
        assert(be_inc(t.drop_last()) == be_inc(t.drop_last().drop_last()).push(0u8));
        assert(be_inc(t.drop_last().drop_last()) == be_inc(
            t.drop_last().drop_last().drop_last(),
        ).push(0u8));
        let u = t.drop_last().drop_last().drop_last();
        assert(u.len() == 1 && u.last() == 255);
        assert(be_inc(u) == be_inc(u.drop_last()).push(0u8));
        assert(u.drop_last().len() == 0);
        assert(r[0] == 0 && r[1] == 0 && r[2] == 0 && r[3] == 0);
        assert(be32_val(t) == 0xffff_ffff);
    }
}

/// The pre-counter block `J0` for a 12-byte IV: `IV ‖ 0x00000001`.
pub open spec fn j0_of(iv: Seq<u8>) -> Seq<u8>
    recommends
        iv.len() == 12,
{
    iv + seq![0u8, 0u8, 0u8, 1u8]
}

/// The GCM hash subkey: AES of the all-zero block.
pub open spec fn gcm_subkey(key: Seq<u8>) -> Seq<u8> {
    aes256_block(key, zeros(16))
}

/// Keystream block `i` of the GCM CTR stream: the first data block is
/// encrypted under `inc32(J0)`, the next under `inc32(inc32(J0))`, and so
/// on.
pub open spec fn ks_block(key: Seq<u8>, j0: Seq<u8>, i: nat) -> Seq<u8> {
    aes256_block(key, inc32_n(j0, i + 1))
}

/// Keystream byte at stream offset `i`.
pub open spec fn ks_byte(key: Seq<u8>, j0: Seq<u8>, i: nat) -> u8 {
    ks_block(key, j0, i / 16)[(i % 16) as int]
}

/// `data` XORed with the keystream starting at stream offset `pos`. Applying
/// this at offset 0 to a ciphertext yields the plaintext, and to a plaintext
/// the ciphertext: CTR mode is its own inverse.
pub open spec fn ctr_xor(key: Seq<u8>, j0: Seq<u8>, pos: nat, data: Seq<u8>) -> Seq<u8> {
    Seq::new(data.len(), |k: int| data[k] ^ ks_byte(key, j0, (pos + k) as nat))
}

/// The ciphertext zero-padded to a whole number of 16-byte blocks.
pub open spec fn gcm_pad(c: Seq<u8>) -> Seq<u8> {
    if c.len() % 16 == 0 {
        c
    } else {
        c + zeros((16 - c.len() % 16) as nat)
    }
}

/// The GCM length block: 8 zero bytes (no AAD), then the ciphertext
/// bit-length, big-endian.
pub open spec fn gcm_len_block(c_len: nat) -> Seq<u8> {
    zeros(8) + be64_bytes(8 * c_len)
}

/// Everything GHASH absorbs for a ciphertext: its padded blocks, then the
/// length block.
pub open spec fn gcm_ghash_input(c: Seq<u8>) -> Seq<u8> {
    gcm_pad(c) + gcm_len_block(c.len())
}

/// Byte-wise XOR of two equal-length strings.
pub open spec fn xor16(a: Seq<u8>, b: Seq<u8>) -> Seq<u8>
    recommends
        a.len() == b.len(),
{
    Seq::new(a.len(), |i: int| a[i] ^ b[i])
}

/// The GCM authentication tag for a whole ciphertext: GHASH under the
/// subkey, masked with AES of `J0`.
pub open spec fn gcm_tag(key: Seq<u8>, iv: Seq<u8>, c: Seq<u8>) -> Seq<u8> {
    xor16(ghash_of(gcm_subkey(key), gcm_ghash_input(c)), aes256_block(key, j0_of(iv)))
}

/// The plaintext of a ciphertext: the CTR keystream XOR, from offset 0.
pub open spec fn gcm_plaintext(key: Seq<u8>, iv: Seq<u8>, c: Seq<u8>) -> Seq<u8> {
    ctr_xor(key, j0_of(iv), 0, c)
}

/// The ciphertext of a plaintext: the same keystream XOR.
pub open spec fn gcm_ciphertext(key: Seq<u8>, iv: Seq<u8>, p: Seq<u8>) -> Seq<u8> {
    ctr_xor(key, j0_of(iv), 0, p)
}

/// The GCM hash subkey `H = AES_K(0¹²⁸)`, computed with the key schedule.
pub fn derive_hash_subkey(cipher: &aes::Aes256) -> (r: Vec<u8>)
    ensures
        r@ == gcm_subkey(aes_key(*cipher)),
        r@.len() == 16,
{
    let z = zero_vec(16);
    aes_encrypt_block(cipher, z.as_slice())
}

/// A streaming GCM decryptor: ciphertext is fed in arbitrary chunks; the
/// plaintext comes out chunk by chunk; the tag over everything consumed
/// comes at the end.
pub struct GcmStream {
    cipher: aes::Aes256,
    gh: ghash::GHash,
    counter: Vec<u8>,
    block: Vec<u8>,
    used: usize,
    rem: Vec<u8>,
    total: u64,
    tag_mask: Vec<u8>,
    iv: Ghost<Seq<u8>>,
}

impl GcmStream {
    /// The AES-256 key this stream decrypts under.
    pub closed spec fn key(self) -> Seq<u8> {
        aes_key(self.cipher)
    }

    /// The 12-byte IV this stream was started with.
    pub closed spec fn iv(self) -> Seq<u8> {
        self.iv@
    }

    /// All ciphertext bytes consumed so far, in order.
    pub closed spec fn consumed(self) -> Seq<u8> {
        ghash_absorbed(self.gh) + self.rem@
    }

    /// Internal consistency: the GHASH accumulator holds the whole blocks of
    /// the consumed ciphertext, the residue holds the rest, and the counter
    /// state matches the stream position.
    pub closed spec fn wf(self) -> bool {
        let j0 = j0_of(self.iv@);
        &&& self.iv@.len() == 12
        &&& ghash_h(self.gh) == gcm_subkey(self.key())
        &&& ghash_absorbed(self.gh).len() % 16 == 0
        &&& self.rem@.len() < 16
        &&& self.total as int == self.consumed().len()
        &&& self.total < 0x2000_0000_0000_0000
        &&& self.tag_mask@ == aes256_block(self.key(), j0)
        &&& self.tag_mask@.len() == 16
        &&& self.counter@.len() == 16
        &&& self.used <= 16
        &&& (self.used == 16 ==> self.total as int % 16 == 0 && self.counter@ == inc32_n(
            j0,
            (self.total as int / 16 + 1) as nat,
        ))
        &&& (self.used < 16 ==> self.used as int == self.total as int % 16 && self.block@
            == ks_block(self.key(), j0, (self.total as int / 16) as nat) && self.block@.len() == 16
            && self.counter@ == inc32_n(j0, (self.total as int / 16 + 2) as nat))
    }

    /// Starts a stream for a 32-byte key and a 12-byte IV.
    pub fn new(key: &[u8], iv: &[u8]) -> (r: Self)
        requires
            key@.len() == 32,
            iv@.len() == 12,
        ensures
            r.wf(),
            r.key() == key@,
            r.iv() == iv@,
            r.consumed() == Seq::<u8>::empty(),
    {
        let cipher = aes_new(key);
        let mut j0 = copy_bytes(iv);
        j0.push(0);
        j0.push(0);
        j0.push(0);
        j0.push(1);
        proof {
            assert(j0@ =~= j0_of(iv@));
        }
        let h = derive_hash_subkey(&cipher);
        let gh = ghash_new(h.as_slice());
        let tag_mask = aes_encrypt_block(&cipher, j0.as_slice());
        let mut counter = j0;
        inc32(&mut counter);
        let r = GcmStream {
            cipher,
            gh,
            counter,
            block: Vec::new(),
            used: 16,
            rem: Vec::new(),
            total: 0,
            tag_mask,
            iv: Ghost(iv@),
        };
        proof {
            assert(inc32_n(j0_of(iv@), 1) == spec_inc32(inc32_n(j0_of(iv@), 0)));
            assert(r.counter@ == inc32_n(j0_of(iv@), 1));
            assert(r.consumed() =~= Seq::<u8>::empty());
        }
        r
    }

    /// Decrypts one chunk of ciphertext in place: absorbs it into GHASH and
    /// XORs it with the keystream at the current position.
    #[verifier::loop_isolation(false)]
    pub fn process(&mut self, data: &mut Vec<u8>)
        requires
            old(self).wf(),
            old(self).consumed().len() + old(data)@.len() < 0x2000_0000_0000_0000,
        ensures
            final(self).wf(),
            final(self).key() == old(self).key(),
            final(self).iv() == old(self).iv(),
            final(self).consumed() == old(self).consumed() + old(data)@,
            final(data)@ == ctr_xor(
                old(self).key(),
                j0_of(old(self).iv()),
                old(self).consumed().len() as nat,
                old(data)@,
            ),
    {
        let ghost s0 = *self;
        let ghost dorig = data@;
        let ghost key = aes_key(s0.cipher);
        let ghost j0 = j0_of(s0.iv@);
        let mut i: usize = 0;
        while i < data.len()
            invariant
                i <= data@.len(),
                data@ == dorig,
                self.cipher == s0.cipher,
                self.counter == s0.counter,
                self.block == s0.block,
                self.used == s0.used,
                self.total == s0.total,
                self.tag_mask == s0.tag_mask,
                self.iv == s0.iv,
                ghash_h(self.gh) == ghash_h(s0.gh),
                ghash_absorbed(self.gh).len() % 16 == 0,
                self.rem@.len() < 16,
                ghash_absorbed(self.gh) + self.rem@ == s0.consumed() + dorig.take(i as int),
            decreases data@.len() - i,
        {
            let b = data[i];
            self.rem.push(b);
            proof {
                assert(s0.consumed() + dorig.take(i as int) + seq![b] =~= s0.consumed()
                    + dorig.take(i + 1 as int));
                assert(ghash_absorbed(self.gh) + self.rem@ =~= s0.consumed() + dorig.take(
                    i + 1 as int,
                ));
            }
            if self.rem.len() == 16 {
                ghash_update_block(&mut self.gh, self.rem.as_slice());
                self.rem.clear();
                proof {
                    assert(ghash_absorbed(self.gh) + self.rem@ =~= s0.consumed() + dorig.take(
                        i + 1 as int,
                    ));
                }
            }
            i = i + 1;
        }
        proof {
            assert(dorig.take(dorig.len() as int) =~= dorig);
        }
        let ghost s1 = *self;
        let mut k: usize = 0;
        while k < data.len()
            invariant
                k <= data@.len(),
                data@.len() == dorig.len(),
                s0.total as int + dorig.len() < 0x2000_0000_0000_0000,
                self.gh == s1.gh,
                self.rem == s1.rem,
                self.cipher == s0.cipher,
                self.tag_mask == s0.tag_mask,
                self.iv == s0.iv,
                self.total as int == s0.total as int + k,
                self.counter@.len() == 16,
                self.used <= 16,
                (self.used == 16 ==> self.total as int % 16 == 0 && self.counter@ == inc32_n(
                    j0,
                    (self.total as int / 16 + 1) as nat,
                )),
                (self.used < 16 ==> self.used as int == self.total as int % 16 && self.block@
                    == ks_block(key, j0, (self.total as int / 16) as nat) && self.block@.len() == 16
                    && self.counter@ == inc32_n(j0, (self.total as int / 16 + 2) as nat)),
                forall|j: int|
                    0 <= j < k ==> data@[j] == (dorig[j] ^ ks_byte(
                        key,
                        j0,
                        (s0.total as int + j) as nat,
                    )),
                forall|j: int| k <= j < dorig.len() ==> data@[j] == dorig[j],
            decreases data@.len() - k,
        {
            if self.used == 16 {
                let ghost q = self.total as int / 16;
                let ghost cpre = self.counter@;
                let nb = aes_encrypt_block(&self.cipher, self.counter.as_slice());
                proof {
                    assert(cpre == inc32_n(j0, (q + 1) as nat));
                    assert(aes_key(self.cipher) == key);
                    assert(0 <= q && (q + 1) as nat == q as nat + 1);
                    assert(nb@ == ks_block(key, j0, q as nat));
                }
                self.block = nb;
                inc32(&mut self.counter);
                self.used = 0;
                proof {
                    assert(inc32_n(j0, (q + 2) as nat) == spec_inc32(inc32_n(j0, (q + 1) as nat)));
                    assert(self.counter@ == inc32_n(j0, (q + 2) as nat));
                }
            }
            let d = data[k];
            let m = self.block[self.used];
            let ghost t = self.total as int;
            let ghost u = self.used as int;
            proof {
                assert(u == t % 16 && 0 <= t);
                assert((t as nat) / 16 == (t / 16) as nat && (t as nat) % 16 == (t % 16) as nat);
                assert(m == ks_byte(key, j0, t as nat));
            }
            data.set(k, d ^ m);
            self.used = self.used + 1;
            self.total = self.total + 1;
            k = k + 1;
            proof {
                let t2 = self.total as int;
                assert(t2 == t + 1);
                assert(t == 16 * (t / 16) + t % 16) by (nonlinear_arith);
                if u + 1 == 16 {
                    assert(t % 16 == 15);
                    assert(t2 == 16 * (t / 16 + 1));
                    assert(t2 % 16 == 0 && t2 / 16 == t / 16 + 1) by (nonlinear_arith)
                        requires
                            t2 == 16 * (t / 16 + 1),
                    ;
                } else {
                    assert(t2 == 16 * (t / 16) + (u + 1) && 0 <= u + 1 < 16);
                    assert(t2 % 16 == u + 1 && t2 / 16 == t / 16) by (nonlinear_arith)
                        requires
                            t2 == 16 * (t / 16) + (u + 1) && 0 <= u + 1 < 16,
                    ;
                }
            }
        }
        proof {
            assert(self.consumed() == s0.consumed() + dorig);
            assert(self.total as int == self.consumed().len());
            assert(data@ =~= ctr_xor(key, j0, s0.consumed().len() as nat, dorig));
        }
    }

    /// Finishes the stream: pads the residue, absorbs the length block, and
    /// returns the computed 16-byte tag over everything consumed.
    #[verifier::loop_isolation(false)]
    pub fn finish(self) -> (tag: Vec<u8>)
        requires
            self.wf(),
        ensures
            tag@ == gcm_tag(self.key(), self.iv(), self.consumed()),
            tag@.len() == 16,
    {
        let GcmStream { cipher: _, mut gh, counter: _, block: _, used: _, mut rem, total, tag_mask, iv } =
            self;
        let ghost c = ghash_absorbed(gh) + rem@;
        if rem.len() > 0 {
            let ghost ab = ghash_absorbed(gh);
            let ghost r0 = rem@;
            let pad = 16 - rem.len();
            let mut i: usize = 0;
            while i < pad
                invariant
                    i <= pad,
                    pad == 16 - r0.len(),
                    0 < r0.len() < 16,
                    rem@ =~= r0 + zeros(i as nat),
                decreases pad - i,
            {
                rem.push(0);
                proof {
                    assert(rem@ =~= r0 + zeros((i + 1) as nat));
                }
                i = i + 1;
            }
            ghash_update_block(&mut gh, rem.as_slice());
            proof {
                let a = ab.len() as int;
                let r = r0.len() as int;
                assert((a + r) % 16 == r) by (nonlinear_arith)
                    requires
                        a % 16 == 0 && 0 < r < 16 && 0 <= a,
                ;
                assert(c.len() % 16 != 0);
                assert(ghash_absorbed(gh) =~= gcm_pad(c));
            }
        } else {
            proof {
                assert(c =~= ghash_absorbed(gh));
                assert(gcm_pad(c) == c);
            }
        }
        let mut lb = zero_vec(8);
        push_be64(&mut lb, total * 8);
        ghash_update_block(&mut gh, lb.as_slice());
        proof {
            assert(lb@ == gcm_len_block(c.len() as nat));
            assert(ghash_absorbed(gh) =~= gcm_ghash_input(c));
        }
        let y = ghash_finalize(gh);
        let mut tag: Vec<u8> = Vec::new();
        let mut i: usize = 0;
        while i < 16
            invariant
                i <= 16,
                y@.len() == 16,
                tag_mask@.len() == 16,
                tag@.len() == i,
                forall|j: int| 0 <= j < i ==> tag@[j] == (y@[j] ^ tag_mask@[j]),
            decreases 16 - i,
        {
            tag.push(y[i] ^ tag_mask[i]);
            i = i + 1;
        }
        proof {
            assert(tag@ =~= xor16(y@, tag_mask@));
        }
        tag
    }
}

/// Why decryption of an archive failed.
#[derive(Clone, Copy, Debug, PartialEq, Eq, Structural)]
pub enum DecryptError {
    /// The manifest's IV is not base64, or not 12 bytes once decoded.
    InvalidIv,
    /// The manifest's tag is not base64, or not 16 bytes once decoded.
    InvalidAuthTag,
    /// The tag computed over the whole ciphertext differs from the
    /// manifest's tag.
    AuthTagMismatch,
}

/// The concatenation of a sequence of byte strings, in order.
pub open spec fn concat_bytes(parts: Seq<Seq<u8>>) -> Seq<u8>
    decreases parts.len(),
{
    if parts.len() == 0 {
        Seq::empty()
    } else {
        concat_bytes(parts.drop_last()) + parts.last()
    }
}

/// Concatenating one more part extends the concatenation by that part.
pub proof fn lemma_concat_take_succ(parts: Seq<Seq<u8>>, i: int)
    requires
        0 <= i < parts.len(),
    ensures
        concat_bytes(parts.take(i + 1)) == concat_bytes(parts.take(i)) + parts[i],
{
    assert(parts.take(i + 1).drop_last() =~= parts.take(i));
    assert(parts.take(i + 1).last() == parts[i]);
}

/// A prefix of the parts concatenates to at most the whole length.
pub proof fn lemma_concat_prefix_len(parts: Seq<Seq<u8>>, i: int)
    requires
        0 <= i <= parts.len(),
    ensures
        concat_bytes(parts.take(i)).len() <= concat_bytes(parts).len(),
    decreases parts.len() - i,
{
    if i == parts.len() {
        assert(parts.take(i) =~= parts);
    } else {
        lemma_concat_take_succ(parts, i);
        lemma_concat_prefix_len(parts, i + 1);
    }
}

/// The keystream XOR distributes over concatenation: decrypting two chunks
/// in sequence equals decrypting their concatenation.
pub proof fn lemma_ctr_xor_append(key: Seq<u8>, j0: Seq<u8>, d1: Seq<u8>, d2: Seq<u8>)
    ensures
        ctr_xor(key, j0, 0, d1 + d2) == ctr_xor(key, j0, 0, d1) + ctr_xor(key, j0, d1.len(), d2),
{
    assert(ctr_xor(key, j0, 0, d1 + d2) =~= ctr_xor(key, j0, 0, d1) + ctr_xor(
        key,
        j0,
        d1.len(),
        d2,
    ));
}

/// What decrypting an archive means, over the manifest's base64 fields and
/// the concatenated ciphertext: the key is SHA-256 of the master key; a
/// malformed IV or tag is rejected as such; otherwise the plaintext comes
/// out iff the GCM tag over the whole ciphertext matches.
pub open spec fn archive_decrypt_spec(
    master: Seq<u8>,
    iv_b64: Seq<u8>,
    tag_b64: Seq<u8>,
    c: Seq<u8>,
) -> Result<Seq<u8>, DecryptError> {
    let key = sha256_of(master);
    match base64_decode_of(iv_b64) {
        Option::None => Result::Err(DecryptError::InvalidIv),
        Option::Some(iv) => if iv.len() != 12 {
            Result::Err(DecryptError::InvalidIv)
        } else {
            match base64_decode_of(tag_b64) {
                Option::None => Result::Err(DecryptError::InvalidAuthTag),
                Option::Some(tag) => if tag.len() != 16 {
                    Result::Err(DecryptError::InvalidAuthTag)
                } else if gcm_tag(key, iv, c) == tag {
                    Result::Ok(gcm_plaintext(key, iv, c))
                } else {
                    Result::Err(DecryptError::AuthTagMismatch)
                },
            }
        },
    }
}

/// Decrypts a whole archive held in memory: the parts, already verified and
/// in index order, are streamed through GCM; the plaintext is returned iff
/// the tag over the whole ciphertext matches the manifest's tag.
#[verifier::loop_isolation(false)]
pub fn decrypt_archive(
    master_key: &[u8],
    iv_b64: &[u8],
    auth_tag_b64: &[u8],
    parts: &Vec<Vec<u8>>,
) -> (r: Result<Vec<u8>, DecryptError>)
    requires
        concat_bytes(parts@.map_values(|p: Vec<u8>| p@)).len() < 0x2000_0000_0000_0000,
    ensures
        ({
            let s = archive_decrypt_spec(
                master_key@,
                iv_b64@,
                auth_tag_b64@,
                concat_bytes(parts@.map_values(|p: Vec<u8>| p@)),
            );
            match r {
                Ok(p) => s == Result::<Seq<u8>, DecryptError>::Ok(p@),
                Err(e) => s == Result::<Seq<u8>, DecryptError>::Err(e),
            }
        }),
{
    let key = sha256(master_key);
    let iv = match b64_decode(iv_b64) {
        Some(v) => v,
        None => {
            return Err(DecryptError::InvalidIv);
        },
    };
    if iv.len() != 12 {
        return Err(DecryptError::InvalidIv);
    }
    let tag = match b64_decode(auth_tag_b64) {
        Some(v) => v,
        None => {
            return Err(DecryptError::InvalidAuthTag);
        },
    };
    if tag.len() != 16 {
        return Err(DecryptError::InvalidAuthTag);
    }
    let ghost cs = parts@.map_values(|p: Vec<u8>| p@);
    let ghost c = concat_bytes(cs);
    let mut gs = GcmStream::new(key.as_slice(), iv.as_slice());
    let mut out: Vec<u8> = Vec::new();
    let mut i: usize = 0;
    while i < parts.len()
        invariant
            i <= parts@.len(),
            gs.wf(),
            gs.key() == sha256_of(master_key@),
            gs.iv() == iv@,
            gs.consumed() == concat_bytes(cs.take(i as int)),
            out@ == ctr_xor(gs.key(), j0_of(iv@), 0, gs.consumed()),
        decreases parts@.len() - i,
    {
        proof {
            lemma_concat_take_succ(cs, i as int);
            lemma_concat_prefix_len(cs, i + 1 as int);
            assert(cs[i as int] == parts@[i as int]@);
        }
        let mut buf = copy_bytes(parts[i].as_slice());
        gs.process(&mut buf);
        proof {
            lemma_ctr_xor_append(
                gs.key(),
                j0_of(iv@),
                concat_bytes(cs.take(i as int)),
                cs[i as int],
            );
        }
        out.append(&mut buf);
        i = i + 1;
    }
    proof {
        assert(cs.take(cs.len() as int) =~= cs);
    }
    let computed = gs.finish();
    if ct_bytes_eq(computed.as_slice(), tag.as_slice()) {
        Ok(out)
    } else {
        Err(DecryptError::AuthTagMismatch)
    }
}

/// Decrypt round-trip: for any key, IV and plaintext, partition the GCM
/// ciphertext into any sequence of parts whose concatenation is the whole;
/// decrypting that concatenation yields the plaintext exactly (and the tag
/// over it is by construction the matching tag, so decryption does not
/// fail).
pub proof fn lemma_decrypt_round_trip(key: Seq<u8>, iv: Seq<u8>, p: Seq<u8>, parts: Seq<Seq<u8>>)
    requires
        concat_bytes(parts) == gcm_ciphertext(key, iv, p),
    ensures
        gcm_plaintext(key, iv, concat_bytes(parts)) == p,
{
    let c = concat_bytes(parts);
    assert forall|k: int| 0 <= k < p.len() implies gcm_plaintext(key, iv, c)[k] == p[k] by {
        let x = p[k];
        let m = ks_byte(key, j0_of(iv), k as nat);
        assert(((x ^ m) ^ m) == x) by (bit_vector);
    }
    assert(gcm_plaintext(key, iv, c) =~= p);
}

/// Decrypt round-trip at the manifest level: when the manifest's IV field
/// decodes to the IV the ciphertext was made with and its tag field decodes
/// to the matching GCM tag, decryption succeeds and yields the plaintext
/// exactly, for every partition of the ciphertext into parts.
pub proof fn lemma_archive_round_trip(
    master: Seq<u8>,
    iv: Seq<u8>,
    iv_b64: Seq<u8>,
    tag_b64: Seq<u8>,
    p: Seq<u8>,
    parts: Seq<Seq<u8>>,
)
    requires
        base64_decode_of(iv_b64) == Option::Some(iv),
        iv.len() == 12,
        base64_decode_of(tag_b64) == Option::Some(
            gcm_tag(sha256_of(master), iv, gcm_ciphertext(sha256_of(master), iv, p)),
        ),
        // a GCM tag is 16 bytes; at spec level this comes from the caller,
        // who has it from the primitive that computed the tag
        gcm_tag(sha256_of(master), iv, gcm_ciphertext(sha256_of(master), iv, p)).len() == 16,
        concat_bytes(parts) == gcm_ciphertext(sha256_of(master), iv, p),
    ensures
        archive_decrypt_spec(master, iv_b64, tag_b64, concat_bytes(parts)) == Result::<
            Seq<u8>,
            DecryptError,
        >::Ok(p),
{
    lemma_decrypt_round_trip(sha256_of(master), iv, p, parts);
}

/// Resume correctness: decryption depends only on the concatenated
/// ciphertext bytes, never on how they were split into parts or fetched, so
/// a resumed download that reuses valid cached parts decrypts to the same
/// plaintext as a clean run.
pub proof fn lemma_resume_equivalence(
    master: Seq<u8>,
    iv_b64: Seq<u8>,
    tag_b64: Seq<u8>,
    parts1: Seq<Seq<u8>>,
    parts2: Seq<Seq<u8>>,
)
    requires
        concat_bytes(parts1) == concat_bytes(parts2),
    ensures
        archive_decrypt_spec(master, iv_b64, tag_b64, concat_bytes(parts1))
            == archive_decrypt_spec(master, iv_b64, tag_b64, concat_bytes(parts2)),
{
}

} // verus!
