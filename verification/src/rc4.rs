//! An RC4-style stream cipher over a 256-byte key: key scheduling, the
//! pseudo-random generator, and XOR enciphering, each pinned to a
//! mathematical model of the keystream.

use rand::RngCore;
use vstd::prelude::*;

verus! {

pub const KEY_SIZE_BYTES: usize = 256;

/// The state array before scheduling: the identity permutation of 0..=255.
pub open spec fn initial_s() -> Seq<u8> {
    Seq::new(256, |i: int| i as u8)
}

/// `s` with the entries at `a` and `b` exchanged.
pub open spec fn swapped(s: Seq<u8>, a: int, b: int) -> Seq<u8> {
    s.update(a, s[b]).update(b, s[a])
}

/// The `(s, j)` pair after `n` steps of key scheduling with `key`.
pub open spec fn ksa_state(key: Seq<u8>, n: nat) -> (Seq<u8>, int)
    decreases n,
{
    if n == 0 {
        (initial_s(), 0)
    } else {
        let prev = ksa_state(key, (n - 1) as nat);
        let s = prev.0;
        let i = n - 1;
        let j = (prev.1 + s[i] + key[i]) % 256;
        (swapped(s, i, j), j)
    }
}

/// The fully scheduled state array for `key`.
pub open spec fn scheduled_s(key: Seq<u8>) -> Seq<u8> {
    ksa_state(key, 256).0
}

/// The `(s, i, j, output)` tuple after the generator has emitted `n` bytes,
/// starting from the freshly scheduled state for `key`.
pub open spec fn prga_state(key: Seq<u8>, n: nat) -> (Seq<u8>, int, int, Seq<u8>)
    decreases n,
{
    if n == 0 {
        (scheduled_s(key), 0, 0, Seq::empty())
    } else {
        let prev = prga_state(key, (n - 1) as nat);
        let i = (prev.1 + 1) % 256;
        let j = (prev.2 + prev.0[i]) % 256;
        let s = swapped(prev.0, i, j);
        let k = s[(s[i] + s[j]) % 256];
        (s, i, j, prev.3.push(k))
    }
}

/// The first `n` keystream bytes derived from `key`. Each enciphering call
/// reschedules the state, so the stream depends on the key alone.
pub open spec fn keystream(key: Seq<u8>, n: nat) -> Seq<u8> {
    prga_state(key, n).3
}

/// `data` combined bytewise by XOR with `ks`.
pub open spec fn xor_with(data: Seq<u8>, ks: Seq<u8>) -> Seq<u8>
    recommends
        ks.len() >= data.len(),
{
    Seq::new(data.len(), |i: int| data[i] ^ ks[i])
}

/// XOR with the same stream twice gives the bytes back: deciphering an
/// enciphered message with the same key restores it.
pub proof fn lemma_xor_round_trip(data: Seq<u8>, ks: Seq<u8>)
    requires
        ks.len() >= data.len(),
    ensures
        xor_with(xor_with(data, ks), ks) == data,
{
    assert forall|i: int| 0 <= i < data.len() implies xor_with(xor_with(data, ks), ks)[i]
        == data[i] by {
        let x = data[i];
        let y = ks[i];
        assert(((x ^ y) ^ y) == x) by (bit_vector);
    }
    assert(xor_with(xor_with(data, ks), ks) =~= data);
}

/// The generator emits exactly one keystream byte per step.
pub proof fn lemma_keystream_len(key: Seq<u8>, n: nat)
    ensures
        keystream(key, n).len() == n,
    decreases n,
{
    if n > 0 {
        lemma_keystream_len(key, (n - 1) as nat);
    }
}

/// Enciphering and then deciphering under one key restores the data: both
/// calls XOR against the keystream that the key alone determines.
pub proof fn lemma_cipher_round_trip(key: Seq<u8>, data: Seq<u8>)
    ensures
        xor_with(xor_with(data, keystream(key, data.len())), keystream(key, data.len())) == data,
{
    lemma_keystream_len(key, data.len());
    lemma_xor_round_trip(data, keystream(key, data.len()));
}

/// A 256-byte cipher key.
pub struct Rc4Key {
    pub key: Vec<u8>,
}

impl Rc4Key {
    pub open spec fn wf(self) -> bool {
        self.key@.len() == KEY_SIZE_BYTES
    }

    /// Wraps 256 key bytes.
    pub fn new(key: Vec<u8>) -> (r: Rc4Key)
        requires
            key@.len() == KEY_SIZE_BYTES,
        ensures
            r.key == key,
            r.wf(),
    {
        Rc4Key { key }
    }
}

/// The cipher state: the permutation array `s`, the two cursors, and the
/// key that scheduling starts from.
pub struct Rc4State {
    pub s: Vec<u8>,
    pub i: usize,
    pub j: usize,
    pub key: Rc4Key,
}

/// Relies on `rand::rng()` and `rand_core::RngCore::fill_bytes`: fills the
/// buffer entirely with random bytes, leaving its length unchanged.
#[verifier::external_body]
fn fill_random(buf: &mut Vec<u8>)
    ensures
        final(buf)@.len() == old(buf)@.len(),
{
    rand::rng().fill_bytes(buf.as_mut_slice());
}

impl Rc4State {
    pub open spec fn wf(self) -> bool {
        &&& self.s@.len() == KEY_SIZE_BYTES
        &&& self.i < KEY_SIZE_BYTES
        &&& self.j < KEY_SIZE_BYTES
        &&& self.key.wf()
    }

    /// A cipher state with a freshly drawn random key and the cursors at
    /// their starting positions.
    pub fn new() -> (r: Rc4State)
        ensures
            r.wf(),
            r.i == 0,
            r.j == 0,
    {
        let mut st = Rc4State {
            s: vec![0u8; KEY_SIZE_BYTES],
            i: 0,
            j: 0,
            key: Rc4Key { key: vec![0u8; KEY_SIZE_BYTES] },
        };
        st.initialize();
        st
    }

    /// Draws a fresh key; called once at construction, and again only to
    /// discard the old key for a new one.
    pub fn initialize(&mut self)
        ensures
            final(self).key.wf(),
            final(self).s == old(self).s,
            final(self).i == old(self).i,
            final(self).j == old(self).j,
    {
        self.generate_key();
    }

    /// Replaces the key with 256 freshly drawn random bytes; the rest of
    /// the state is untouched.
    pub fn generate_key(&mut self)
        ensures
            final(self).key.wf(),
            final(self).s == old(self).s,
            final(self).i == old(self).i,
            final(self).j == old(self).j,
    {
        let mut key = vec![0u8; KEY_SIZE_BYTES];
        fill_random(&mut key);
        self.key = Rc4Key { key };
    }

    /// Rebuilds the state array from the key: the identity permutation
    /// stirred once through the key bytes, with both cursors reset.
    fn key_scheduling(&mut self)
        requires
            old(self).wf(),
        ensures
            final(self).wf(),
            final(self).key == old(self).key,
            final(self).s@ == scheduled_s(old(self).key.key@),
            final(self).i == 0,
            final(self).j == 0,
    {
        let mut idx: usize = 0;
        while idx < KEY_SIZE_BYTES
            invariant
                self.s@.len() == KEY_SIZE_BYTES,
                idx <= KEY_SIZE_BYTES,
                self.key == old(self).key,
                forall|k: int| 0 <= k < idx ==> self.s@[k] == k as u8,
            decreases KEY_SIZE_BYTES - idx,
        {
            self.s[idx] = idx as u8;
            idx += 1;
        }
        proof {
            assert(self.s@ =~= initial_s());
        }
        let mut j: usize = 0;
        let mut i: usize = 0;
        while i < KEY_SIZE_BYTES
            invariant
                self.s@.len() == KEY_SIZE_BYTES,
                i <= KEY_SIZE_BYTES,
                j < KEY_SIZE_BYTES,
                self.key == old(self).key,
                self.key.key@.len() == KEY_SIZE_BYTES,
                self.s@ == ksa_state(self.key.key@, i as nat).0,
                j as int == ksa_state(self.key.key@, i as nat).1,
            decreases KEY_SIZE_BYTES - i,
        {
            let ghost key = self.key.key@;
            let si = self.s[i];
            let ki = self.key.key[i];
            j = (j + si as usize + ki as usize) % 256;
            let a = self.s[i];
            let b = self.s[j];
            self.s[i] = b;
            self.s[j] = a;
            proof {
                let next = ksa_state(key, (i + 1) as nat);
                assert(next.1 == j as int);
                assert(self.s@ =~= next.0);
            }
            i += 1;
        }
        self.i = 0;
        self.j = 0;
    }

    /// Emits the next `count` keystream bytes, scheduling the state afresh
    /// from the key first, so the result is `keystream` of the key alone.
    fn prga(&mut self, count: usize) -> (out: Vec<u8>)
        requires
            old(self).wf(),
        ensures
            final(self).wf(),
            final(self).key == old(self).key,
            out@ == keystream(old(self).key.key@, count as nat),
            out@.len() == count,
    {
        self.key_scheduling();
        let ghost key = self.key.key@;
        let mut out: Vec<u8> = Vec::new();
        let mut n: usize = 0;
        while n < count
            invariant
                self.s@.len() == KEY_SIZE_BYTES,
                self.i < KEY_SIZE_BYTES,
                self.j < KEY_SIZE_BYTES,
                self.key == old(self).key,
                key == self.key.key@,
                self.key.key@.len() == KEY_SIZE_BYTES,
                n <= count,
                out@.len() == n,
                self.s@ == prga_state(key, n as nat).0,
                self.i as int == prga_state(key, n as nat).1,
                self.j as int == prga_state(key, n as nat).2,
                out@ == prga_state(key, n as nat).3,
            decreases count - n,
        {
            self.i = (self.i + 1) % 256;
            self.j = (self.j + self.s[self.i] as usize) % 256;
            let a = self.s[self.i];
            let b = self.s[self.j];
            self.s[self.i] = b;
            self.s[self.j] = a;
            let t = (self.s[self.i] as usize + self.s[self.j] as usize) % 256;
            let kbyte = self.s[t];
            out.push(kbyte);
            proof {
                let next = prga_state(key, (n + 1) as nat);
                assert(next.1 == self.i as int);
                assert(next.2 == self.j as int);
                assert(self.s@ =~= next.0);
                assert(out@ =~= next.3);
            }
            n += 1;
        }
        out
    }

    /// XORs `input` against the keystream into the front of `output`. An
    /// output buffer shorter than the input leaves everything untouched;
    /// otherwise the first `input.len()` bytes of `output` become the
    /// enciphered text and the rest of `output` keeps its old contents.
    pub fn encrypt(&mut self, input: &Vec<u8>, output: &mut Vec<u8>)
        requires
            old(self).wf(),
        ensures
            final(self).wf(),
            final(self).key == old(self).key,
            old(output)@.len() < input@.len() ==> final(output)@ == old(output)@
                && *final(self) == *old(self),
            old(output)@.len() >= input@.len() ==> final(output)@ == xor_with(
                input@,
                keystream(old(self).key.key@, input@.len()),
            ) + old(output)@.skip(input@.len() as int),
    {
        if output.len() < input.len() {
            return ;
        }
        let ks = self.prga(input.len());
        let mut idx: usize = 0;
        while idx < input.len()
            invariant
                ks@ == keystream(old(self).key.key@, input@.len()),
                ks@.len() == input@.len(),
                idx <= input@.len(),
                input@.len() <= output@.len(),
                output@.len() == old(output)@.len(),
                forall|k: int| 0 <= k < idx ==> output@[k] == (input@[k] ^ ks@[k]),
                forall|k: int| idx <= k < output@.len() ==> output@[k] == old(output)@[k],
            decreases input@.len() - idx,
        {
            let x = input[idx];
            let k = ks[idx];
            output[idx] = x ^ k;
            idx += 1;
        }
        proof {
            assert(output@ =~= xor_with(input@, ks@) + old(output)@.skip(input@.len() as int));
        }
    }

    /// Deciphers by enciphering again: XOR against the same keystream. With
    /// the key unchanged since `encrypt`, this restores the original bytes.
    pub fn decrypt(&mut self, input: &Vec<u8>, output: &mut Vec<u8>)
        requires
            old(self).wf(),
        ensures
            final(self).wf(),
            final(self).key == old(self).key,
            old(output)@.len() < input@.len() ==> final(output)@ == old(output)@
                && *final(self) == *old(self),
            old(output)@.len() >= input@.len() ==> final(output)@ == xor_with(
                input@,
                keystream(old(self).key.key@, input@.len()),
            ) + old(output)@.skip(input@.len() as int),
    {
        self.encrypt(input, output);
    }
}

} // verus!
