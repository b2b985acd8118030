//! RC4 stream cipher: key scheduling (KSA) and keystream generation (PRGA).
use vstd::prelude::*;

verus! {

/// The abstract state of an RC4 cipher: the S-box and the two indices.
pub struct Rc4State {
    pub s: Seq<u8>,
    pub i: int,
    pub j: int,
}

/// `s` with the entries at `a` and `b` exchanged.
pub open spec fn swap_at(s: Seq<u8>, a: int, b: int) -> Seq<u8> {
    s.update(a, s[b]).update(b, s[a])
}

/// The S-box before key scheduling: `[0, 1, ..., 255]`.
pub open spec fn identity_box() -> Seq<u8> {
    Seq::new(256, |k: int| k as u8)
}

/// The S-box and `j` after the first `n` rounds of the key-scheduling algorithm.
pub open spec fn ksa_rounds(key: Seq<u8>, n: nat) -> (Seq<u8>, int)
    decreases n,
{
    if n == 0 {
        (identity_box(), 0)
    } else {
        let (s, j) = ksa_rounds(key, (n - 1) as nat);
        let i = n - 1;
        let j2 = (j + s[i] + key[i % (key.len() as int)]) % 256;
        (swap_at(s, i, j2), j2)
    }
}

/// The cipher state right after construction with `key`: an empty key leaves
/// the S-box as the identity; otherwise all 256 rounds of the KSA are applied.
pub open spec fn initial_state(key: Seq<u8>) -> Rc4State {
    Rc4State {
        s: if key.len() == 0 { identity_box() } else { ksa_rounds(key, 256).0 },
        i: 0,
        j: 0,
    }
}

/// One PRGA step: the next state and the keystream byte it yields.
pub open spec fn prga_step(st: Rc4State) -> (Rc4State, u8) {
    let i = (st.i + 1) % 256;
    let j = (st.j + st.s[i]) % 256;
    let s = swap_at(st.s, i, j);
    (Rc4State { s, i, j }, s[(s[i] + s[j]) % 256])
}

/// The state after `n` PRGA steps from `st`.
pub open spec fn advance(st: Rc4State, n: nat) -> Rc4State
    decreases n,
{
    if n == 0 {
        st
    } else {
        prga_step(advance(st, (n - 1) as nat)).0
    }
}

/// The first `n` keystream bytes produced from `st`.
pub open spec fn keystream(st: Rc4State, n: nat) -> Seq<u8>
    decreases n,
{
    if n == 0 {
        Seq::empty()
    } else {
        keystream(st, (n - 1) as nat).push(prga_step(advance(st, (n - 1) as nat)).1)
    }
}

/// Byte-wise exclusive or of `data` with the first `data.len()` bytes of `pad`.
pub open spec fn xor_bytes(data: Seq<u8>, pad: Seq<u8>) -> Seq<u8> {
    Seq::new(data.len(), |k: int| data[k] ^ pad[k])
}

/// What `crypt` makes of `data` when the cipher is in state `st`.
pub open spec fn apply_keystream(st: Rc4State, data: Seq<u8>) -> Seq<u8> {
    xor_bytes(data, keystream(st, data.len()))
}

/// The S-box is a permutation of the 256 byte values (256 pairwise distinct entries).
pub open spec fn is_permutation(s: Seq<u8>) -> bool {
    &&& s.len() == 256
    &&& forall|a: int, b: int| 0 <= a < 256 && 0 <= b < 256 && a != b ==> s[a] != s[b]
}

/// The keystream from `st` has exactly `n` bytes.
pub proof fn lemma_keystream_len(st: Rc4State, n: nat)
    ensures
        keystream(st, n).len() == n,
    decreases n,
{
    if n > 0 {
        lemma_keystream_len(st, (n - 1) as nat);
    }
}

/// Running `n` and then `m` PRGA steps is running `n + m` steps.
pub proof fn lemma_advance_add(st: Rc4State, n: nat, m: nat)
    ensures
        advance(st, n + m) == advance(advance(st, n), m),
    decreases m,
{
    if m > 0 {
        lemma_advance_add(st, n, (m - 1) as nat);
        assert((n + m - 1) as nat == n + (m - 1) as nat);
    }
}

/// The keystream is consumed in order: the first `n + m` bytes from `st` are the
/// first `n` bytes followed by the first `m` bytes from the state reached after `n` steps.
pub proof fn lemma_keystream_concat(st: Rc4State, n: nat, m: nat)
    ensures
        keystream(st, n + m) == keystream(st, n) + keystream(advance(st, n), m),
    decreases m,
{
    if m == 0 {
        assert(keystream(st, n) + keystream(advance(st, n), 0) =~= keystream(st, n));
    } else {
        lemma_keystream_concat(st, n, (m - 1) as nat);
        lemma_advance_add(st, n, (m - 1) as nat);
        assert((n + m - 1) as nat == n + (m - 1) as nat);
        assert(keystream(st, n + m) =~= keystream(st, n) + keystream(advance(st, n), m));
    }
}

/// Encrypting `a` and then `b` with one cipher gives the same bytes as encrypting
/// `a + b` in one call, and leaves the cipher in the same state.
pub proof fn lemma_crypt_in_pieces(st: Rc4State, a: Seq<u8>, b: Seq<u8>)
    ensures
        apply_keystream(st, a + b) == apply_keystream(st, a) + apply_keystream(advance(st, a.len()), b),
        advance(st, (a + b).len()) == advance(advance(st, a.len()), b.len()),
{
    lemma_keystream_concat(st, a.len(), b.len());
    lemma_advance_add(st, a.len(), b.len());
    lemma_keystream_len(st, a.len());
    lemma_keystream_len(advance(st, a.len()), b.len());
    assert(apply_keystream(st, a + b) =~= apply_keystream(st, a) + apply_keystream(advance(st, a.len()), b));
}

/// Decryption undoes encryption: applying the keystream of a state twice gives the data back.
pub proof fn lemma_crypt_roundtrip(st: Rc4State, data: Seq<u8>)
    ensures
        apply_keystream(st, apply_keystream(st, data)) == data,
{
    let pad = keystream(st, data.len());
    assert forall|k: int| 0 <= k < data.len() implies #[trigger] apply_keystream(st, apply_keystream(st, data))[k] == data[k] by {
        let x = data[k];
        let y = pad[k];
        assert((x ^ y) ^ y == x) by (bit_vector);
    }
    assert(apply_keystream(st, apply_keystream(st, data)) =~= data);
}

/// Two ciphers made from the same key encrypt and decrypt each other's output:
/// decrypting with a fresh cipher what a fresh cipher encrypted gives the plaintext back.
pub proof fn lemma_same_key_roundtrip(key: Seq<u8>, data: Seq<u8>)
    ensures
        apply_keystream(initial_state(key), apply_keystream(initial_state(key), data)) == data,
{
    lemma_crypt_roundtrip(initial_state(key), data);
}

proof fn lemma_swap_keeps_permutation(s: Seq<u8>, a: int, b: int)
    requires
        is_permutation(s),
        0 <= a < 256,
        0 <= b < 256,
    ensures
        is_permutation(swap_at(s, a, b)),
{
    let t = swap_at(s, a, b);
    assert forall|x: int, y: int| 0 <= x < 256 && 0 <= y < 256 && x != y implies t[x] != t[y] by {
        let sx = if x == a { b } else if x == b { a } else { x };
        let sy = if y == a { b } else if y == b { a } else { y };
        assert(t[x] == s[sx]);
        assert(t[y] == s[sy]);
    }
}

proof fn lemma_ksa_keeps_permutation(key: Seq<u8>, n: nat)
    requires
        key.len() > 0,
        n <= 256,
    ensures
        is_permutation(ksa_rounds(key, n).0),
        0 <= ksa_rounds(key, n).1 < 256,
    decreases n,
{
    if n == 0 {
        assert forall|a: int, b: int| 0 <= a < 256 && 0 <= b < 256 && a != b implies identity_box()[a] != identity_box()[b] by {
            assert(identity_box()[a] == a as u8);
            assert(identity_box()[b] == b as u8);
        }
    } else {
        lemma_ksa_keeps_permutation(key, (n - 1) as nat);
        let (s, j) = ksa_rounds(key, (n - 1) as nat);
        let i = n - 1;
        let j2 = (j + s[i] + key[i % (key.len() as int)]) % 256;
        lemma_swap_keeps_permutation(s, i, j2);
    }
}

/// Every cipher starts with an S-box that is a permutation of the 256 byte values.
pub proof fn lemma_initial_state_is_permutation(key: Seq<u8>)
    ensures
        is_permutation(initial_state(key).s),
{
    if key.len() == 0 {
        assert forall|a: int, b: int| 0 <= a < 256 && 0 <= b < 256 && a != b implies identity_box()[a] != identity_box()[b] by {
            assert(identity_box()[a] == a as u8);
            assert(identity_box()[b] == b as u8);
        }
    } else {
        lemma_ksa_keeps_permutation(key, 256);
    }
}

/// Generating keystream keeps the S-box a permutation of the 256 byte values.
pub proof fn lemma_advance_keeps_permutation(st: Rc4State, n: nat)
    requires
        is_permutation(st.s),
    ensures
        is_permutation(advance(st, n).s),
    decreases n,
{
    if n > 0 {
        lemma_advance_keeps_permutation(st, (n - 1) as nat);
        let p = advance(st, (n - 1) as nat);
        let i = (p.i + 1) % 256;
        let j = (p.j + p.s[i]) % 256;
        lemma_swap_keeps_permutation(p.s, i, j);
    }
}

/// The key byte that round `i` of the key schedule reads: the key taken cyclically.
pub open spec fn key_byte(key: Seq<u8>, i: int) -> u8 {
    key[i % (key.len() as int)]
}

/// The key schedule reads the key cyclically, one byte per round: round `i` adds
/// `key[i mod key.len()]` to `j`. So two keys whose cyclic byte streams agree on
/// the first `m` rounds are scheduled alike up to round `m`; and if they then differ
/// in the byte of round `m`, the `j` of round `m` differs too — every byte that the
/// schedule reaches (every byte of a key of at most 256 bytes) affects the cipher.
pub proof fn lemma_ksa_reads_key_cyclically(k1: Seq<u8>, k2: Seq<u8>, m: nat)
    requires
        k1.len() > 0,
        k2.len() > 0,
        forall|i: int| 0 <= i < m ==> #[trigger] key_byte(k1, i) == key_byte(k2, i),
    ensures
        ksa_rounds(k1, m) == ksa_rounds(k2, m),
        key_byte(k1, m as int) == key_byte(k2, m as int) ==> ksa_rounds(k1, m + 1) == ksa_rounds(
            k2,
            m + 1,
        ),
        key_byte(k1, m as int) != key_byte(k2, m as int) ==> ksa_rounds(k1, m + 1).1 != ksa_rounds(
            k2,
            m + 1,
        ).1,
    decreases m,
{
    if m > 0 {
        lemma_ksa_reads_key_cyclically(k1, k2, (m - 1) as nat);
        assert(key_byte(k1, m - 1) == key_byte(k2, m - 1));
        assert(((m - 1) as nat) + 1 == m);
    }
    assert(ksa_rounds(k1, m) == ksa_rounds(k2, m));
    let a = key_byte(k1, m as int);
    let b = key_byte(k2, m as int);
    let (s, j) = ksa_rounds(k1, m);
    assert(ksa_rounds(k1, m + 1).1 == (j + s[m as int] + a) % 256);
    assert(ksa_rounds(k2, m + 1).1 == (j + s[m as int] + b) % 256);
    if a != b {
        let x = j + s[m as int];
        assert((x + a) % 256 != (x + b) % 256) by (nonlinear_arith)
            requires
                a != b,
                0 <= a < 256,
                0 <= b < 256,
        ;
    }
}

/// Keys whose cyclic byte streams agree over the 256 rounds of the key schedule
/// make the same cipher; in particular a key repeated any number of times makes
/// the same cipher as the key itself.
pub proof fn lemma_same_key_stream_same_cipher(k1: Seq<u8>, k2: Seq<u8>)
    requires
        k1.len() > 0,
        k2.len() > 0,
        forall|i: int| 0 <= i < 256 ==> #[trigger] key_byte(k1, i) == key_byte(k2, i),
    ensures
        initial_state(k1) == initial_state(k2),
{
    lemma_ksa_reads_key_cyclically(k1, k2, 256);
}

/// Round `i` of the key schedule exchanges `s[i]` with `s[j]`, where the new `j`
/// is the old `j` plus `s[i]` plus the key byte `key[i mod key.len()]`, modulo 256;
/// an empty key schedules nothing and leaves the identity.
pub proof fn lemma_ksa_round(key: Seq<u8>, i: nat)
    requires
        key.len() > 0,
        i < 256,
    ensures
        ({
            let before = ksa_rounds(key, i);
            let after = ksa_rounds(key, i + 1);
            let j = (before.1 + before.0[i as int] + key[(i as int) % (key.len() as int)]) % 256;
            &&& after.1 == j
            &&& after.0.len() == 256
            &&& after.0[i as int] == before.0[j]
            &&& after.0[j] == before.0[i as int]
            &&& forall|x: int| 0 <= x < 256 && x != i && x != j ==> after.0[x] == before.0[x]
        }),
        initial_state(Seq::empty()).s == identity_box(),
        identity_box()[0] == 0u8 && identity_box()[255] == 255u8,
{
    lemma_ksa_len(key, i);
    lemma_ksa_len(key, i + 1);
}

/// The first round of the key schedule sets `j` to the first key byte and
/// exchanges the entries 0 and `key[0]` of the identity box.
pub proof fn lemma_ksa_first_round(key: Seq<u8>)
    requires
        key.len() > 0,
    ensures
        ksa_rounds(key, 1).1 == key[0] as int,
        ksa_rounds(key, 1).0[0] == key[0],
        ksa_rounds(key, 1).0[key[0] as int] == 0u8,
{
    let s0 = identity_box();
    assert(ksa_rounds(key, 0) == (s0, 0int));
    assert(s0[0] == 0u8);
    assert(s0[key[0] as int] == key[0]);
    assert(0int % (key.len() as int) == 0);
    let j = (0 + s0[0] + key[0]) % 256;
    assert(j == key[0] as int);
    assert(ksa_rounds(key, 1) == (swap_at(s0, 0, j), j));
}

/// Each keystream step moves `i` on by one (mod 256), adds the entry at the new
/// `i` to `j` (mod 256), exchanges the entries at `i` and `j`, and yields the entry
/// at the sum of the two exchanged values (mod 256); nothing else changes.
pub proof fn lemma_prga_step_explicit(st: Rc4State)
    requires
        st.s.len() == 256,
        0 <= st.i < 256,
        0 <= st.j < 256,
    ensures
        ({
            let (next, byte) = prga_step(st);
            let i = (st.i + 1) % 256;
            let j = (st.j + st.s[i]) % 256;
            &&& next.i == i
            &&& next.j == j
            &&& next.s.len() == 256
            &&& next.s[i] == st.s[j]
            &&& next.s[j] == st.s[i]
            &&& forall|x: int| 0 <= x < 256 && x != i && x != j ==> next.s[x] == st.s[x]
            &&& byte == next.s[(st.s[i] + st.s[j]) % 256]
        }),
{
}

/// After `n` keystream steps, `i` has moved on by `n` (mod 256).
pub proof fn lemma_advance_moves_i(st: Rc4State, n: nat)
    requires
        0 <= st.i < 256,
    ensures
        advance(st, n).i == (st.i + n) % 256,
    decreases n,
{
    if n > 0 {
        lemma_advance_moves_i(st, (n - 1) as nat);
        assert(((st.i + (n - 1)) % 256 + 1) % 256 == (st.i + n) % 256) by (nonlinear_arith)
            requires n > 0;
    }
}

/// RC4 stream cipher implementation.
pub struct Rc4 {
    s_box: [u8; 256],
    i: u8,
    j: u8,
}

impl View for Rc4 {
    type V = Rc4State;

    closed spec fn view(&self) -> Rc4State {
        Rc4State { s: self.s_box@, i: self.i as int, j: self.j as int }
    }
}

proof fn lemma_ksa_len(key: Seq<u8>, n: nat)
    requires
        n <= 256,
        key.len() > 0,
    ensures
        ksa_rounds(key, n).0.len() == 256,
        0 <= ksa_rounds(key, n).1 < 256,
    decreases n,
{
    if n > 0 {
        lemma_ksa_len(key, (n - 1) as nat);
    }
}

impl Rc4 {
    /// Every cipher's S-box holds 256 entries, and both of its indices lie in 0..256.
    pub proof fn lemma_state_bounds(&self)
        ensures
            self@.s.len() == 256,
            0 <= self@.i < 256,
            0 <= self@.j < 256,
    {
    }

    /// Create a new RC4 cipher initialized with the given key.
    ///
    /// Performs the Key Scheduling Algorithm (KSA) to initialize the S-box.
    pub fn new(key: &[u8]) -> (cipher: Self)
        ensures
            cipher@ == initial_state(key@),
    {
        let mut s_box = [0u8; 256];
        for idx in 0..256usize
            invariant
                forall|k: int| 0 <= k < idx ==> s_box@[k] == k as u8,
        {
            s_box[idx] = idx as u8;
        }
        assert(s_box@ =~= identity_box());
        if !key.is_empty() {
            let mut j: u8 = 0;
            for i in 0..256usize
                invariant
                    key@.len() > 0,
                    s_box@ == ksa_rounds(key@, i as nat).0,
                    j as int == ksa_rounds(key@, i as nat).1,
            {
                proof {
                    lemma_ksa_len(key@, i as nat);
                }
                let k = key[i % key.len()];
                j = j.wrapping_add(s_box[i]).wrapping_add(k);
                let a = s_box[i];
                let b = s_box[j as usize];
                s_box[i] = b;
                s_box[j as usize] = a;
            }
        }
        Rc4 { s_box, i: 0, j: 0 }
    }

    /// One PRGA step: update the indices and the S-box, and yield the next keystream byte.
    fn next_byte(&mut self) -> (k: u8)
        ensures
            final(self)@ == prga_step(old(self)@).0,
            k == prga_step(old(self)@).1,
    {
        let ghost st = self@;
        self.i = self.i.wrapping_add(1);
        self.j = self.j.wrapping_add(self.s_box[self.i as usize]);
        let a = self.s_box[self.i as usize];
        let b = self.s_box[self.j as usize];
        self.s_box[self.i as usize] = b;
        self.s_box[self.j as usize] = a;
        assert(self.s_box@ =~= swap_at(st.s, self.i as int, self.j as int));
        let t = self.s_box[self.i as usize].wrapping_add(self.s_box[self.j as usize]);
        self.s_box[t as usize]
    }

    /// Encrypt or decrypt data in-place using the PRGA keystream.
    pub fn crypt(&mut self, data: &mut [u8])
        ensures
            final(data)@ == apply_keystream(old(self)@, old(data)@),
            final(self)@ == advance(old(self)@, old(data)@.len()),
    {
        let ghost st0 = self@;
        let ghost d0 = data@;
        let n = data.len();
        for idx in 0..n
            invariant
                n == data@.len(),
                d0.len() == n,
                self@ == advance(st0, idx as nat),
                forall|k: int| 0 <= k < idx ==> data@[k] == d0[k] ^ keystream(st0, idx as nat)[k],
                forall|k: int| idx <= k < n ==> data@[k] == d0[k],
                keystream(st0, idx as nat).len() == idx,
        {
            let k = self.next_byte();
            data[idx] = data[idx] ^ k;
        }
        assert(data@ =~= apply_keystream(st0, d0));
    }
}

} // verus!
