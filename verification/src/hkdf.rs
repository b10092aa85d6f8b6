//! HMAC-based extract-and-expand key derivation.
//!
//! A [`Salt`] extracts a pseudorandom key, a [`Prk`], from secret input. The
//! `Prk` is then expanded, any number of times, into output keying material:
//! each expansion is described by an [`Okm`], which produces its bytes when it
//! is filled into a buffer of exactly the requested length.

use vstd::prelude::*;
use vstd::std_specs::convert::FromSpecImpl;

use crate::digest;
use crate::error::Unspecified;
use crate::hmac;

verus! {

/// The number of blocks that one expansion can produce at most.
pub const MAX_BLOCKS: usize = 255;

/// An HKDF algorithm: HKDF over the HMAC of one of the supported hash
/// functions.
#[derive(Clone, Copy, Debug, PartialEq, Eq, Structural)]
pub struct Algorithm(pub hmac::Algorithm);

/// HKDF over HMAC-SHA-1, kept for protocols that cannot yet do without it.
#[allow(non_snake_case)]
pub fn HKDF_SHA1_FOR_LEGACY_USE_ONLY() -> (algorithm: Algorithm)
    ensures
        algorithm == Algorithm(hmac::Algorithm(digest::Algorithm::SHA1)),
{
    Algorithm(hmac::Algorithm(digest::Algorithm::SHA1))
}

/// HKDF over HMAC-SHA-256.
#[allow(non_snake_case)]
pub fn HKDF_SHA256() -> (algorithm: Algorithm)
    ensures
        algorithm == Algorithm(hmac::Algorithm(digest::Algorithm::SHA256)),
{
    Algorithm(hmac::Algorithm(digest::Algorithm::SHA256))
}

/// HKDF over HMAC-SHA-384.
#[allow(non_snake_case)]
pub fn HKDF_SHA384() -> (algorithm: Algorithm)
    ensures
        algorithm == Algorithm(hmac::Algorithm(digest::Algorithm::SHA384)),
{
    Algorithm(hmac::Algorithm(digest::Algorithm::SHA384))
}

/// HKDF over HMAC-SHA-512.
#[allow(non_snake_case)]
pub fn HKDF_SHA512() -> (algorithm: Algorithm)
    ensures
        algorithm == Algorithm(hmac::Algorithm(digest::Algorithm::SHA512)),
{
    Algorithm(hmac::Algorithm(digest::Algorithm::SHA512))
}

impl Algorithm {
    /// The HMAC algorithm that this algorithm is built on.
    pub open spec fn spec_hmac_algorithm(&self) -> hmac::Algorithm {
        self.0
    }

    /// The length of one block of output: the digest length of the hash
    /// function underneath.
    pub open spec fn hash_len(&self) -> nat {
        self.0.digest_algorithm().output_len() as nat
    }

    /// The greatest length that one expansion can have: `MAX_BLOCKS` blocks.
    pub open spec fn spec_max_output_len(&self) -> usize {
        (MAX_BLOCKS * self.0.digest_algorithm().output_len()) as usize
    }

    /// The HMAC algorithm that this algorithm is built on.
    #[verifier::when_used_as_spec(spec_hmac_algorithm)]
    pub fn hmac_algorithm(&self) -> (h: hmac::Algorithm)
        ensures
            h == self.0,
    {
        self.0
    }

    /// The greatest length that one expansion can have: `MAX_BLOCKS` blocks.
    #[verifier::when_used_as_spec(spec_max_output_len)]
    pub fn max_output_len(&self) -> (n: usize)
        ensures
            n == self.spec_max_output_len(),
            n == MAX_BLOCKS * self.hash_len(),
    {
        MAX_BLOCKS * self.0.digest_algorithm().output_len()
    }
}

/// The byte string that the parts of `parts` make when they are put one
/// after another, in order.
pub open spec fn concat(parts: Seq<&[u8]>) -> Seq<u8>
    decreases parts.len(),
{
    if parts.len() == 0 {
        Seq::<u8>::empty()
    } else {
        concat(parts.drop_last()) + parts.last()@
    }
}

/// The pseudorandom key that extraction gives: the code of `secret` under the
/// key `salt`.
pub open spec fn extracted(algorithm: Algorithm, salt: Seq<u8>, secret: Seq<u8>) -> Seq<u8> {
    hmac::tag_of(algorithm.0, salt, secret)
}

/// Block `i` of an expansion, counted from 1: the code, under the key `prk`,
/// of the block before it, then `info`, then the one byte `i`. Block 0, which
/// comes before the first, is empty.
pub open spec fn block(algorithm: Algorithm, prk: Seq<u8>, info: Seq<u8>, i: nat) -> Seq<u8>
    decreases i,
{
    if i == 0 {
        Seq::<u8>::empty()
    } else {
        hmac::tag_of(
            algorithm.0,
            prk,
            block(algorithm, prk, info, (i - 1) as nat) + info + seq![i as u8],
        )
    }
}

/// The first `n` blocks of an expansion, one after another.
pub open spec fn stream(algorithm: Algorithm, prk: Seq<u8>, info: Seq<u8>, n: nat) -> Seq<u8>
    decreases n,
{
    if n == 0 {
        Seq::<u8>::empty()
    } else {
        stream(algorithm, prk, info, (n - 1) as nat) + block(algorithm, prk, info, n)
    }
}

/// The number of blocks of `block_len` bytes that it takes to cover `len`
/// bytes.
pub open spec fn blocks_needed(len: nat, block_len: nat) -> nat
    recommends
        block_len > 0,
{
    ((len + block_len - 1) / (block_len as int)) as nat
}

/// The output keying material of `len` bytes that `prk` and `info` expand to:
/// the first `len` bytes of as many blocks as it takes to cover them.
pub open spec fn expanded(algorithm: Algorithm, prk: Seq<u8>, info: Seq<u8>, len: nat) -> Seq<u8> {
    stream(algorithm, prk, info, blocks_needed(len, algorithm.hash_len())).take(len as int)
}

/// A description of how long the output of an expansion is to be.
///
/// One `Okm` type serves every kind of key that can be derived, while the
/// descriptor keeps the kinds apart: the output asked for as one kind of key
/// is not given out as another.
pub trait KeyType {
    /// The length of the output, in bytes.
    ///
    /// An expansion asks for it once and keeps the answer.
    fn len(&self) -> usize;
}

/// Whether `n` is a length that `key_type` reports.
pub open spec fn reports_len<L: KeyType>(key_type: L, n: usize) -> bool {
    call_ensures(L::len, (&key_type,), n)
}

impl KeyType for Algorithm {
    /// The digest length of the hash function underneath: the length of a
    /// salt or of a pseudorandom key for this algorithm.
    fn len(&self) -> (n: usize)
        ensures
            n == self.hash_len(),
    {
        self.0.digest_algorithm().output_len()
    }
}

impl KeyType for hmac::Algorithm {
    /// The digest length of the hash function underneath: the length
    /// recommended for a key of this algorithm.
    fn len(&self) -> (n: usize)
        ensures
            n == self.digest_algorithm().output_len(),
    {
        self.digest_algorithm().output_len()
    }
}

/// A salt for extraction: an HMAC key under which secrets are turned into
/// pseudorandom keys.
pub struct Salt(hmac::Key);

impl View for Salt {
    type V = Seq<u8>;

    /// The bytes of the salt.
    closed spec fn view(&self) -> Seq<u8> {
        self.0@
    }
}

impl Salt {
    /// The algorithm that the salt is for.
    pub closed spec fn spec_algorithm(&self) -> Algorithm {
        Algorithm(self.0.algorithm())
    }

    /// Builds a salt for `algorithm` with the bytes `value`.
    ///
    /// A salt of any length is accepted, the empty one included.
    pub fn new(algorithm: Algorithm, value: &[u8]) -> (salt: Salt)
        ensures
            salt.algorithm() == algorithm,
            salt@ == value@,
    {
        Salt(hmac::Key::new(algorithm.hmac_algorithm(), value))
    }

    /// The extract step: derives a pseudorandom key from `secret`.
    ///
    /// A secret of any length is accepted, the empty one included. The key is
    /// as long as a digest. A salt that is no longer than a block of the hash
    /// function extracts what the salt padded with zeros to a block extracts:
    /// the empty salt stands for a block of zeros.
    pub fn extract(&self, secret: &[u8]) -> (prk: Prk)
        ensures
            prk.algorithm() == self.algorithm(),
            prk@ == extracted(self.algorithm(), self@, secret@),
            prk@.len() == self.algorithm().hash_len(),
            self@.len() <= self.algorithm().0.digest_algorithm().block_len() ==> prk@
                == extracted(
                self.algorithm(),
                hmac::zero_padded(
                    self@,
                    self.algorithm().0.digest_algorithm().block_len() as nat,
                ),
                secret@,
            ),
    {
        let key = hmac::sign(&self.0, secret);
        Prk(hmac::Key::new(self.0.algorithm(), key.as_slice()))
    }

    /// The algorithm that the salt is for.
    #[verifier::when_used_as_spec(spec_algorithm)]
    pub fn algorithm(&self) -> (algorithm: Algorithm)
        ensures
            algorithm == self.spec_algorithm(),
    {
        Algorithm(self.0.algorithm())
    }
}

/// A pseudorandom key: what extraction gives and expansion starts from.
pub struct Prk(hmac::Key);

impl View for Prk {
    type V = Seq<u8>;

    /// The bytes of the key.
    closed spec fn view(&self) -> Seq<u8> {
        self.0@
    }
}

impl Clone for Prk {
    /// The copy is for the same algorithm and holds the same key, so it
    /// expands as this key does.
    fn clone(&self) -> (copy: Prk)
        ensures
            copy.algorithm() == self.algorithm(),
            copy@ == self@,
    {
        Prk(self.0.clone())
    }
}

impl Prk {
    /// The algorithm that the key is for.
    pub closed spec fn algorithm(&self) -> Algorithm {
        Algorithm(self.0.algorithm())
    }

    /// Takes `value` as a pseudorandom key for `algorithm` without
    /// extracting it.
    ///
    /// This is for keys that were derived elsewhere: whether `value` is fit
    /// to be a key is left to the caller.
    pub fn new_less_safe(algorithm: Algorithm, value: &[u8]) -> (prk: Prk)
        ensures
            prk.algorithm() == algorithm,
            prk@ == value@,
    {
        Prk(hmac::Key::new(algorithm.hmac_algorithm(), value))
    }

    /// The expand step: describes the output keying material of the length
    /// that `len` reports, derived from this key and from the parts of `info`
    /// taken one after another.
    ///
    /// Nothing is computed yet. The request is refused, before any
    /// computation, when the reported length is more than `MAX_BLOCKS` blocks.
    pub fn expand<'a, L: KeyType>(&'a self, info: &'a [&'a [u8]], len: L) -> (r: Result<
        Okm<'a, L>,
        Unspecified,
    >)
        ensures
            match r {
                Ok(okm) => {
                    &&& okm.algorithm() == self.algorithm()
                    &&& okm.key() == self@
                    &&& okm.info() == concat(info@)
                    &&& okm.key_type() == len
                    &&& reports_len(len, okm.requested_len())
                    &&& okm.requested_len() <= self.algorithm().max_output_len()
                },
                Err(_) => exists|n: usize|
                    reports_len(len, n) && n > self.algorithm().max_output_len(),
            },
    {
        let len_cached = len.len();
        if len_cached > Algorithm(self.0.algorithm()).max_output_len() {
            assert(reports_len(len, len_cached));
            return Err(Unspecified);
        }
        Ok(Okm { prk: self, info, len, len_cached })
    }
}

/// Output keying material that has been asked for and not yet computed.
///
/// The length is fixed when the `Okm` is made. Filling consumes the `Okm`, so
/// one request gives its bytes once.
pub struct Okm<'a, L: KeyType> {
    prk: &'a Prk,
    info: &'a [&'a [u8]],
    len: L,
    len_cached: usize,
}

impl<'a, L: KeyType> Okm<'a, L> {
    /// The length is one that the descriptor reported, and it is within the
    /// limit of the algorithm.
    #[verifier::type_invariant]
    spec fn well_formed(self) -> bool {
        &&& reports_len(self.len, self.len_cached)
        &&& self.len_cached <= self.prk.algorithm().max_output_len()
    }

    /// The algorithm of the pseudorandom key that is expanded.
    pub closed spec fn algorithm(self) -> Algorithm {
        self.prk.algorithm()
    }

    /// The bytes of the pseudorandom key that is expanded.
    pub closed spec fn key(self) -> Seq<u8> {
        self.prk@
    }

    /// The info that is bound into the output: the parts given at expansion,
    /// one after another.
    pub closed spec fn info(self) -> Seq<u8> {
        concat(self.info@)
    }

    /// The descriptor that the output was asked for with.
    pub closed spec fn key_type(self) -> L {
        self.len
    }

    /// The length of the output, in bytes.
    pub closed spec fn requested_len(self) -> usize {
        self.len_cached
    }

    /// The bytes that filling gives.
    pub open spec fn output(self) -> Seq<u8> {
        expanded(self.algorithm(), self.key(), self.info(), self.requested_len() as nat)
    }

    /// The descriptor that the output was asked for with.
    pub fn len(&self) -> (len: &L)
        ensures
            *len == self.key_type(),
    {
        &self.len
    }

    /// Computes the output into `out`, which must be exactly as long as the
    /// output that was asked for.
    ///
    /// A buffer of any other length is refused and left as it was: the output
    /// is never cut short or padded.
    pub fn fill(self, out: &mut [u8]) -> (r: Result<(), Unspecified>)
        ensures
            r.is_ok() <==> old(out)@.len() == self.requested_len(),
            r.is_ok() ==> final(out)@ == self.output(),
            r.is_err() ==> final(out)@ == old(out)@,
            final(out)@.len() == old(out)@.len(),
    {
        proof {
            use_type_invariant(&self);
        }
        if out.len() != self.len_cached {
            return Err(Unspecified);
        }
        fill_okm(self.prk, self.info, out, self.len_cached);
        Ok(())
    }

    /// Computes the output into a buffer of its own, which is as long as the
    /// output that was asked for.
    pub(crate) fn into_bytes(self) -> (bytes: Vec<u8>)
        ensures
            bytes@ == self.output(),
            bytes@.len() == self.requested_len(),
            reports_len(self.key_type(), self.requested_len()),
    {
        proof {
            use_type_invariant(&self);
        }
        let mut bytes: Vec<u8> = vec![0u8; self.len_cached];
        fill_okm(self.prk, self.info, bytes.as_mut_slice(), self.len_cached);
        bytes
    }
}

/// The message whose code is the block numbered `counter`: the block before
/// it, then the parts of `info` one after another, then the byte `counter`.
pub fn block_input(previous: &[u8], info: &[&[u8]], counter: u8) -> (message: Vec<u8>)
    ensures
        message@ == previous@ + concat(info@) + seq![counter],
{
    let mut message: Vec<u8> = Vec::new();
    message.extend_from_slice(previous);
    assert(message@ =~= previous@ + concat(info@.take(0)));
    let mut j: usize = 0;
    while j < info.len()
        invariant
            j <= info@.len(),
            message@ == previous@ + concat(info@.take(j as int)),
        decreases info@.len() - j,
    {
        let part: &[u8] = info[j];
        let ghost before = message@;
        message.extend_from_slice(part);
        proof {
            let upto = info@.take(j as int + 1);
            assert(upto.drop_last() =~= info@.take(j as int));
            assert(upto.last() == info@[j as int]);
            assert(message@ =~= before + part@);
        }
        j = j + 1;
    }
    assert(info@.take(j as int) =~= info@);
    message.push(counter);
    message
}

/// Writes the bytes of `block` into `out` from position `filled` on, as many
/// as there is room for, and returns the position after the last byte
/// written.
///
/// Nothing is written where `filled` is at or past the end of `out`.
pub fn write_block(out: &mut [u8], filled: usize, block: &[u8]) -> (end: usize)
    ensures
        filled >= old(out)@.len() ==> end == filled && final(out)@ == old(out)@,
        filled < old(out)@.len() ==> {
            &&& end == if filled + block@.len() <= old(out)@.len() {
                filled + block@.len()
            } else {
                old(out)@.len() as int
            }
            &&& final(out)@ == old(out)@.take(filled as int) + block@.take(end - filled)
                + old(out)@.skip(end as int)
        },
{
    if filled >= out.len() {
        return filled;
    }
    let total: usize = out.len();
    let room: usize = total - filled;
    let count: usize = if block.len() <= room {
        block.len()
    } else {
        room
    };
    let mut k: usize = 0;
    while k < count
        invariant
            k <= count,
            count <= block@.len(),
            filled + count <= total,
            out@.len() == total,
            old(out)@.len() == total,
            out@ == old(out)@.take(filled as int) + block@.take(k as int) + old(out)@.skip(
                filled + k,
            ),
        decreases count - k,
    {
        out[filled + k] = block[k];
        k = k + 1;
    }
    filled + count
}

/// Computes the output keying material of `len` bytes into `out`.
fn fill_okm(prk: &Prk, info: &[&[u8]], out: &mut [u8], len: usize)
    requires
        old(out)@.len() == len,
        len <= prk.algorithm().max_output_len(),
    ensures
        final(out)@ == expanded(prk.algorithm(), prk@, concat(info@), len as nat),
        final(out)@.len() == len,
{
    let ghost algorithm = prk.algorithm();
    let ghost key = prk@;
    let ghost bound = concat(info@);
    let block_len: usize = prk.0.algorithm().digest_algorithm().output_len();
    let mut previous: Vec<u8> = Vec::new();
    let mut counter: u8 = 1;
    let mut filled: usize = 0;
    let ghost mut done: nat = 0;
    while filled < len
        invariant
            algorithm == prk.algorithm(),
            key == prk@,
            bound == concat(info@),
            block_len == algorithm.hash_len(),
            0 < block_len <= digest::MAX_OUTPUT_LEN,
            len <= MAX_BLOCKS * block_len,
            out@.len() == len,
            filled <= len,
            filled < len ==> filled == done * block_len && counter == done + 1,
            filled == len ==> len <= done * block_len,
            done > 0 ==> (done - 1) * block_len < len,
            done <= MAX_BLOCKS,
            previous@ == block(algorithm, key, bound, done),
            stream(algorithm, key, bound, done).len() == done * block_len,
            out@.take(filled as int) == stream(algorithm, key, bound, done).take(filled as int),
        decreases len - filled,
    {
        assert(done < MAX_BLOCKS) by (nonlinear_arith)
            requires
                filled == done * block_len,
                filled < len,
                len <= MAX_BLOCKS * block_len,
                0 < block_len,
        ;
        let message = block_input(previous.as_slice(), info, counter);
        let tag = hmac::sign(&prk.0, message.as_slice());
        let ghost before = out@;
        let ghost start = filled;
        let end = write_block(out, filled, tag.as_slice());
        proof {
            let next = (done + 1) as nat;
            assert(counter == next as u8);
            assert(tag@ == block(algorithm, key, bound, next));
            assert(stream(algorithm, key, bound, next) == stream(algorithm, key, bound, done)
                + tag@);
            assert((done + 1) * block_len == done * block_len + block_len)
                by (nonlinear_arith);
            assert(before.take(start as int) == stream(algorithm, key, bound, done));
            assert(out@.take(end as int) =~= stream(algorithm, key, bound, next).take(
                end as int,
            ));
            done = next;
        }
        filled = end;
        previous = tag;
        if filled < len {
            counter = counter + 1;
        }
    }
    proof {
        lemma_blocks_needed(len as nat, block_len as nat, done);
        assert(out@.take(len as int) =~= out@);
    }
}

/// When `done` blocks cover `len` bytes and one block fewer does not, `done`
/// is the number of blocks needed.
proof fn lemma_blocks_needed(len: nat, block_len: nat, done: nat)
    requires
        block_len > 0,
        len <= done * block_len,
        done > 0 ==> (done - 1) * block_len < len,
    ensures
        blocks_needed(len, block_len) == done,
{
    let total = len + block_len - 1;
    assert(done * block_len <= total < (done + 1) * block_len) by (nonlinear_arith)
        requires
            block_len > 0,
            len <= done * block_len,
            done > 0 ==> (done - 1) * block_len < len,
            total == len + block_len - 1,
    ;
    assert(total / (block_len as int) == done) by (nonlinear_arith)
        requires
            block_len > 0,
            done * block_len <= total < (done + 1) * block_len,
    ;
}

impl<'a> From<Okm<'a, Algorithm>> for Prk {
    /// Takes the output of an expansion as the pseudorandom key of a further
    /// derivation, for the algorithm that the output was asked for with.
    fn from(okm: Okm<'a, Algorithm>) -> (prk: Prk)
        ensures
            prk.algorithm() == okm.key_type(),
            prk@ == okm.output(),
            prk@.len() == okm.key_type().hash_len(),
    {
        let algorithm = okm.len;
        let key = okm.into_bytes();
        Prk(hmac::Key::new(algorithm.hmac_algorithm(), key.as_slice()))
    }
}

/// What the conversion gives is stated on `from` itself: a key is no value of
/// specifications, so there is no function here to say it with.
impl<'a> FromSpecImpl<Okm<'a, Algorithm>> for Prk {
    open spec fn obeys_from_spec() -> bool {
        false
    }

    open spec fn from_spec(okm: Okm<'a, Algorithm>) -> Prk {
        arbitrary()
    }
}

impl<'a> From<Okm<'a, Algorithm>> for Salt {
    /// Takes the output of an expansion as the salt of a further derivation,
    /// for the algorithm that the output was asked for with.
    fn from(okm: Okm<'a, Algorithm>) -> (salt: Salt)
        ensures
            salt.algorithm() == okm.key_type(),
            salt@ == okm.output(),
            salt@.len() == okm.key_type().hash_len(),
    {
        let algorithm = okm.len;
        let key = okm.into_bytes();
        Salt(hmac::Key::new(algorithm.hmac_algorithm(), key.as_slice()))
    }
}

/// What the conversion gives is stated on `from` itself: a key is no value of
/// specifications, so there is no function here to say it with.
impl<'a> FromSpecImpl<Okm<'a, Algorithm>> for Salt {
    open spec fn obeys_from_spec() -> bool {
        false
    }

    open spec fn from_spec(okm: Okm<'a, Algorithm>) -> Salt {
        arbitrary()
    }
}

impl<'a> From<Okm<'a, hmac::Algorithm>> for hmac::Key {
    /// Takes the output of an expansion as an HMAC key, for the algorithm
    /// that the output was asked for with.
    fn from(okm: Okm<'a, hmac::Algorithm>) -> (key: hmac::Key)
        ensures
            key.algorithm() == okm.key_type(),
            key@ == okm.output(),
            key@.len() == okm.key_type().digest_algorithm().output_len(),
    {
        let algorithm = okm.len;
        let value = okm.into_bytes();
        hmac::Key::new(algorithm, value.as_slice())
    }
}

/// What the conversion gives is stated on `from` itself: a key is no value of
/// specifications, so there is no function here to say it with.
impl<'a> FromSpecImpl<Okm<'a, hmac::Algorithm>> for hmac::Key {
    open spec fn obeys_from_spec() -> bool {
        false
    }

    open spec fn from_spec(okm: Okm<'a, hmac::Algorithm>) -> hmac::Key {
        arbitrary()
    }
}

/// A single part is its own concatenation.
pub proof fn lemma_concat_single(part: &[u8])
    ensures
        concat(seq![part]) == part@,
{
    let parts = seq![part];
    assert(parts.drop_last() =~= Seq::<&[u8]>::empty());
    assert(concat(parts.drop_last()) =~= Seq::<u8>::empty());
    assert(concat(parts) =~= part@);
}

/// Info may be given in parts: what counts is the bytes that the parts make
/// one after another, however they are divided.
pub proof fn lemma_concat_append(first: Seq<&[u8]>, second: Seq<&[u8]>)
    ensures
        concat(first + second) == concat(first) + concat(second),
    decreases second.len(),
{
    if second.len() == 0 {
        assert(first + second =~= first);
        assert(concat(first) + concat(second) =~= concat(first));
    } else {
        lemma_concat_append(first, second.drop_last());
        assert((first + second).drop_last() =~= first + second.drop_last());
        assert((first + second).last() == second.last());
        assert(concat(first + second) =~= concat(first) + concat(second));
    }
}

/// The limit on the length is exact. The longest output that is accepted
/// takes `MAX_BLOCKS` blocks, whose numbers fit in the one byte that counts
/// them; an output one byte longer would take one block more.
pub proof fn lemma_length_limit(algorithm: Algorithm)
    ensures
        algorithm.max_output_len() == MAX_BLOCKS * algorithm.hash_len(),
        blocks_needed(algorithm.max_output_len() as nat, algorithm.hash_len()) == MAX_BLOCKS,
        blocks_needed((algorithm.max_output_len() + 1) as nat, algorithm.hash_len())
            == MAX_BLOCKS + 1,
{
    lemma_blocks_needed(
        algorithm.max_output_len() as nat,
        algorithm.hash_len(),
        MAX_BLOCKS as nat,
    );
    lemma_blocks_needed(
        (algorithm.max_output_len() + 1) as nat,
        algorithm.hash_len(),
        (MAX_BLOCKS + 1) as nat,
    );
}

/// An expansion to length zero gives no bytes, whatever the key and the info.
pub proof fn lemma_zero_length_output(algorithm: Algorithm, prk: Seq<u8>, info: Seq<u8>)
    ensures
        expanded(algorithm, prk, info, 0) == Seq::<u8>::empty(),
{
    lemma_blocks_needed(0, algorithm.hash_len(), 0);
    assert(expanded(algorithm, prk, info, 0) =~= Seq::<u8>::empty());
}

/// Derivation is a function of the algorithm, the salt, the secret, the info
/// and the length: two derivations that agree on these five describe the same
/// bytes.
///
/// Each derivation is given by its salt, its secret, the pseudorandom key
/// that the salt extracts from the secret, and a request that expands that
/// key.
pub proof fn lemma_derivation_deterministic<'a, 'b, L1: KeyType, L2: KeyType>(
    first_salt: Salt,
    first_secret: Seq<u8>,
    first_prk: Prk,
    first: Okm<'a, L1>,
    second_salt: Salt,
    second_secret: Seq<u8>,
    second_prk: Prk,
    second: Okm<'b, L2>,
)
    requires
        first_salt.algorithm() == second_salt.algorithm(),
        first_salt@ == second_salt@,
        first_secret == second_secret,
        first.info() == second.info(),
        first.requested_len() == second.requested_len(),
        first_prk.algorithm() == first_salt.algorithm(),
        first_prk@ == extracted(first_salt.algorithm(), first_salt@, first_secret),
        first.algorithm() == first_prk.algorithm(),
        first.key() == first_prk@,
        second_prk.algorithm() == second_salt.algorithm(),
        second_prk@ == extracted(second_salt.algorithm(), second_salt@, second_secret),
        second.algorithm() == second_prk.algorithm(),
        second.key() == second_prk@,
    ensures
        first.output() == second.output(),
{
}

/// Expansions of one pseudorandom key are independent of one another: two
/// requests with the same info and the same length describe the same bytes,
/// whenever they are made and whatever kind of key each is for.
pub proof fn lemma_same_request_same_output<'a, 'b, L1: KeyType, L2: KeyType>(
    first: Okm<'a, L1>,
    second: Okm<'b, L2>,
)
    requires
        first.algorithm() == second.algorithm(),
        first.key() == second.key(),
        first.info() == second.info(),
        first.requested_len() == second.requested_len(),
    ensures
        first.output() == second.output(),
{
}

} // verus!
