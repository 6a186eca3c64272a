//! A keyed, path-parameterised key-derivation function built from nested
//! HMAC-style chaining over SHA-256.
//!
//! The first MAC in the chain is keyed by a fixed domain constant over
//! plain SHA-256; each path label keys a fresh MAC whose underlying hash is
//! the whole previous chain, used as both its inner and its outer hash; the
//! caller's key material is absorbed by the outermost MAC, whose 32-byte
//! tag is the derived key.

mod sha256;

use vstd::prelude::*;
use crate::sha256::{sha256_digest, sha256_new, sha256_of, sha256_update};

verus! {

/// The hash block size in bytes: every MAC key must fit in one block.
pub const BLOCK_LEN: usize = 64;

/// `key` zero-extended to one block and XORed with `pad` at every position.
pub open spec fn xor_pad(key: Seq<u8>, pad: u8) -> Seq<u8> {
    Seq::new(BLOCK_LEN as nat, |i: int| if i < key.len() { key[i] ^ pad } else { pad })
}

/// The inner padded key block of the HMAC construction.
pub open spec fn ipad_of(key: Seq<u8>) -> Seq<u8> {
    xor_pad(key, 0x36)
}

/// The outer padded key block of the HMAC construction.
pub open spec fn opad_of(key: Seq<u8>) -> Seq<u8> {
    xor_pad(key, 0x5c)
}

/// The HMAC-SHA-256 tag of `msg` under `key` (a key of at most one block):
/// the outer hash of the outer padded key followed by the inner digest.
pub open spec fn hmac(key: Seq<u8>, msg: Seq<u8>) -> Seq<u8> {
    sha256_of(opad_of(key) + sha256_of(ipad_of(key) + msg))
}

/// The digest of `m` under the chain with the given MAC keys: with no keys
/// it is plain SHA-256; each further key wraps the whole previous chain in
/// the HMAC construction, using it as both the inner and the outer hash.
pub open spec fn chained_hash(keys: Seq<Seq<u8>>, m: Seq<u8>) -> Seq<u8>
    decreases keys.len(),
{
    if keys.len() == 0 {
        sha256_of(m)
    } else {
        chained_hash(
            keys.drop_last(),
            opad_of(keys.last()) + chained_hash(keys.drop_last(), ipad_of(keys.last()) + m),
        )
    }
}

/// The views of a vector of byte vectors.
pub open spec fn keys_view(keys: Seq<Vec<u8>>) -> Seq<Seq<u8>> {
    keys.map_values(|k: Vec<u8>| k@)
}

/// The error of MAC construction: a key longer than one hash block.
#[derive(Clone, Copy, Debug, PartialEq, Eq, Structural)]
pub enum KdfError {
    KeyTooLong,
}

/// Appends all of `data` to `v`, in order.
fn push_bytes(v: &mut Vec<u8>, data: &[u8])
    ensures
        final(v)@ == old(v)@ + data@,
{
    proof {
        assert(old(v)@ + data@.take(0) =~= old(v)@);
    }
    let mut i: usize = 0;
    while i < data.len()
        invariant
            i <= data@.len(),
            v@ == old(v)@ + data@.take(i as int),
        decreases data@.len() - i,
    {
        v.push(data[i]);
        i = i + 1;
        proof {
            assert(v@ =~= old(v)@ + data@.take(i as int));
        }
    }
    proof {
        assert(data@.take(data@.len() as int) =~= data@);
    }
}

/// `key` zero-extended to one block and XORed with `pad` at every position.
fn xor_pad_bytes(key: &[u8], pad: u8) -> (r: Vec<u8>)
    requires
        key@.len() <= BLOCK_LEN,
    ensures
        r@ == xor_pad(key@, pad),
{
    let mut r: Vec<u8> = Vec::new();
    let mut i: usize = 0;
    while i < BLOCK_LEN
        invariant
            i <= BLOCK_LEN,
            key@.len() <= BLOCK_LEN,
            r@ == xor_pad(key@, pad).take(i as int),
        decreases BLOCK_LEN - i,
    {
        let b: u8 = if i < key.len() {
            key[i] ^ pad
        } else {
            pad
        };
        r.push(b);
        i = i + 1;
        proof {
            assert(r@ =~= xor_pad(key@, pad).take(i as int));
        }
    }
    proof {
        assert(xor_pad(key@, pad).take(BLOCK_LEN as int) =~= xor_pad(key@, pad));
    }
    r
}

/// The digest of `m` under the chain of the first `n` keys of `keys`.
fn chained_digest(keys: &Vec<Vec<u8>>, n: usize, m: &[u8]) -> (r: [u8; 32])
    requires
        n <= keys@.len(),
        forall|i: int| 0 <= i < n ==> (#[trigger] keys@[i])@.len() <= BLOCK_LEN,
    ensures
        r@ == chained_hash(keys_view(keys@).take(n as int), m@),
    decreases n,
{
    if n == 0 {
        let mut s = sha256_new();
        sha256_update(&mut s, m);
        proof {
            assert(Seq::<u8>::empty() + m@ =~= m@);
            assert(keys_view(keys@).take(0) =~= Seq::<Seq<u8>>::empty());
        }
        sha256_digest(s)
    } else {
        let k: &Vec<u8> = &keys[n - 1];
        let mut inner_msg = xor_pad_bytes(k.as_slice(), 0x36);
        push_bytes(&mut inner_msg, m);
        let inner_digest = chained_digest(keys, n - 1, inner_msg.as_slice());
        let mut outer_msg = xor_pad_bytes(k.as_slice(), 0x5c);
        push_bytes(&mut outer_msg, inner_digest.as_slice());
        let r = chained_digest(keys, n - 1, outer_msg.as_slice());
        proof {
            let kv = keys_view(keys@);
            assert(kv.take(n as int).drop_last() =~= kv.take(n as int - 1));
            assert(kv.take(n as int).last() == keys@[n as int - 1]@);
        }
        r
    }
}

/// One chained MAC instance: the ordered MAC keys of the chain, innermost
/// first, and the bytes fed so far. The tag is computed at `finalize`,
/// which consumes the instance, so reuse of a finalized MAC is impossible.
pub struct RecursiveHash {
    keys: Vec<Vec<u8>>,
    msg: Vec<u8>,
}

impl RecursiveHash {
    /// The MAC keys of the chain, innermost first.
    pub closed spec fn keys(&self) -> Seq<Seq<u8>> {
        keys_view(self.keys@)
    }

    /// The bytes fed through `update` so far, in order.
    pub closed spec fn msg(&self) -> Seq<u8> {
        self.msg@
    }

    /// Well-formed: at least one key, and every key fits in one block.
    pub closed spec fn wf(&self) -> bool {
        &&& self.keys().len() >= 1
        &&& forall|i: int| 0 <= i < self.keys().len() ==> (#[trigger] self.keys()[i]).len() <= BLOCK_LEN
    }

    /// Constructs a MAC keyed by `key` over plain SHA-256. Returns the
    /// instance exactly when the key fits in one hash block, and
    /// `KeyTooLong` otherwise.
    pub fn new(key: &[u8]) -> (r: Result<Self, KdfError>)
        ensures
            match r {
                Ok(h) => key@.len() <= BLOCK_LEN && h.wf() && h.keys() == seq![key@]
                    && h.msg() == Seq::<u8>::empty(),
                Err(e) => key@.len() > BLOCK_LEN && e == KdfError::KeyTooLong,
            },
    {
        if key.len() > BLOCK_LEN {
            return Err(KdfError::KeyTooLong);
        }
        let mut k: Vec<u8> = Vec::new();
        push_bytes(&mut k, key);
        let mut keys: Vec<Vec<u8>> = Vec::new();
        keys.push(k);
        let h = RecursiveHash { keys, msg: Vec::new() };
        proof {
            assert(Seq::<u8>::empty() + key@ =~= key@);
            assert(h.keys() =~= seq![key@]);
        }
        Ok(h)
    }

    /// Consumes a MAC that has absorbed nothing yet and returns one keyed
    /// by `key` whose underlying hash is the consumed chain. Succeeds
    /// exactly when the new key fits in one hash block.
    pub fn nest(self, key: &[u8]) -> (r: Result<Self, KdfError>)
        requires
            self.wf(),
            self.msg() == Seq::<u8>::empty(),
        ensures
            match r {
                Ok(h) => key@.len() <= BLOCK_LEN && h.wf()
                    && h.keys() == self.keys().push(key@)
                    && h.msg() == Seq::<u8>::empty(),
                Err(e) => key@.len() > BLOCK_LEN && e == KdfError::KeyTooLong,
            },
    {
        if key.len() > BLOCK_LEN {
            return Err(KdfError::KeyTooLong);
        }
        let mut k: Vec<u8> = Vec::new();
        push_bytes(&mut k, key);
        let mut keys = self.keys;
        keys.push(k);
        let h = RecursiveHash { keys, msg: self.msg };
        proof {
            assert(Seq::<u8>::empty() + key@ =~= key@);
            assert(h.keys() =~= self.keys().push(key@));
        }
        Ok(h)
    }

    /// Feeds `data` into the MAC, after everything fed before; order is
    /// significant.
    pub fn update(&mut self, data: &[u8])
        requires
            old(self).wf(),
        ensures
            final(self).wf(),
            final(self).keys() == old(self).keys(),
            final(self).msg() == old(self).msg() + data@,
    {
        push_bytes(&mut self.msg, data);
    }

    /// Consumes the MAC and returns its 32-byte tag: the digest of the fed
    /// bytes under the chain of its keys.
    pub fn finalize(self) -> (r: [u8; 32])
        requires
            self.wf(),
        ensures
            r@ == chained_hash(self.keys(), self.msg()),
    {
        proof {
            assert forall|i: int| 0 <= i < self.keys@.len() implies (#[trigger] self.keys@[i])@.len()
                <= BLOCK_LEN by {
                assert(self.keys()[i].len() <= BLOCK_LEN);
            }
        }
        let n = self.keys.len();
        let r = chained_digest(&self.keys, n, self.msg.as_slice());
        proof {
            assert(keys_view(self.keys@).take(n as int) =~= keys_view(self.keys@));
        }
        r
    }
}

/// The fixed domain-separation constant, the ASCII bytes of
/// "VMess AEAD KDF": the key of the first MAC in the chain.
pub open spec fn domain_label() -> Seq<u8> {
    seq![86u8, 77u8, 101u8, 115u8, 115u8, 32u8, 65u8, 69u8, 65u8, 68u8, 32u8, 75u8, 68u8, 70u8]
}

/// The domain-separation constant as a byte vector.
pub fn domain_bytes() -> (v: Vec<u8>)
    ensures
        v@ == domain_label(),
{
    let mut v: Vec<u8> = Vec::new();
    v.push(86);
    v.push(77);
    v.push(101);
    v.push(115);
    v.push(115);
    v.push(32);
    v.push(65);
    v.push(69);
    v.push(65);
    v.push(68);
    v.push(32);
    v.push(75);
    v.push(68);
    v.push(70);
    proof {
        assert(v@ =~= domain_label());
    }
    v
}

/// Every label of `path` fits in one hash block.
pub open spec fn labels_fit(path: Seq<Seq<u8>>) -> bool {
    forall|i: int| 0 <= i < path.len() ==> (#[trigger] path[i]).len() <= BLOCK_LEN
}

/// The derived key: the digest of the caller's key material under the
/// chain keyed by the domain constant and then by each label of `path`, in
/// order.
pub open spec fn kdf_spec(key: Seq<u8>, path: Seq<Seq<u8>>) -> Seq<u8> {
    chained_hash(seq![domain_label()] + path, key)
}

/// The views of the labels of `path`.
pub open spec fn path_view(path: Seq<&[u8]>) -> Seq<Seq<u8>> {
    path.map_values(|p: &[u8]| p@)
}

/// Derives a 32-byte key from `key` along the ordered labels of `path`.
/// Succeeds, with the tag `kdf_spec` describes, exactly when every label
/// fits in one hash block; the caller's key itself is unconstrained.
pub fn kdf(key: &[u8], path: &[&[u8]]) -> (r: Result<[u8; 32], KdfError>)
    ensures
        match r {
            Ok(v) => labels_fit(path_view(path@)) && v@ == kdf_spec(key@, path_view(path@)),
            Err(e) => !labels_fit(path_view(path@)) && e == KdfError::KeyTooLong,
        },
{
    let ghost pv = path_view(path@);
    let domain = domain_bytes();
    let mut state = match RecursiveHash::new(domain.as_slice()) {
        Ok(s) => s,
        Err(_) => {
            proof {
                assert(false);
            }
            return Err(KdfError::KeyTooLong);
        },
    };
    proof {
        assert(state.keys() =~= seq![domain_label()] + pv.take(0));
    }
    let mut idx: usize = 0;
    while idx < path.len()
        invariant
            idx <= path@.len(),
            pv == path_view(path@),
            pv.len() == path@.len(),
            state.wf(),
            state.msg() == Seq::<u8>::empty(),
            state.keys() == seq![domain_label()] + pv.take(idx as int),
            forall|j: int| 0 <= j < idx ==> (#[trigger] pv[j]).len() <= BLOCK_LEN,
        decreases path@.len() - idx,
    {
        let p: &[u8] = path[idx];
        state = match state.nest(p) {
            Ok(next) => next,
            Err(e) => {
                proof {
                    assert(pv[idx as int].len() > BLOCK_LEN);
                }
                return Err(e);
            },
        };
        proof {
            assert(seq![domain_label()] + pv.take(idx as int + 1)
                =~= (seq![domain_label()] + pv.take(idx as int)).push(pv[idx as int]));
        }
        idx = idx + 1;
    }
    proof {
        assert(pv.take(path@.len() as int) =~= pv);
        assert(Seq::<u8>::empty() + key@ =~= key@);
    }
    state.update(key);
    let out = state.finalize();
    Ok(out)
}

/// A chain of one key is exactly the HMAC construction over SHA-256.
pub proof fn lemma_single_key_chain_is_hmac(key: Seq<u8>, msg: Seq<u8>)
    ensures
        chained_hash(seq![key], msg) == hmac(key, msg),
{
    assert(seq![key].drop_last() =~= Seq::<Seq<u8>>::empty());
    assert(seq![key].last() == key);
    assert(chained_hash(Seq::<Seq<u8>>::empty(), ipad_of(key) + msg) == sha256_of(
        ipad_of(key) + msg,
    ));
    assert(chained_hash(Seq::<Seq<u8>>::empty(), opad_of(key) + sha256_of(ipad_of(key) + msg))
        == sha256_of(opad_of(key) + sha256_of(ipad_of(key) + msg)));
}

/// Determinism: the derived key is a function of the key material and the
/// ordered path alone, so two independent calls of `kdf` on equal inputs
/// return equal tags.
pub proof fn lemma_kdf_deterministic(
    key1: Seq<u8>,
    key2: Seq<u8>,
    path1: Seq<Seq<u8>>,
    path2: Seq<Seq<u8>>,
)
    requires
        key1 == key2,
        path1 == path2,
    ensures
        kdf_spec(key1, path1) == kdf_spec(key2, path2),
{
}

/// Empty path: with no labels the derived key is the tag of a single MAC
/// keyed by the domain constant that absorbs the key material directly.
pub proof fn lemma_kdf_empty_path(key: Seq<u8>)
    ensures
        kdf_spec(key, Seq::<Seq<u8>>::empty()) == hmac(domain_label(), key),
{
    assert(seq![domain_label()] + Seq::<Seq<u8>>::empty() =~= seq![domain_label()]);
    lemma_single_key_chain_is_hmac(domain_label(), key);
}

} // verus!
