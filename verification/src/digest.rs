//! The hash engine: incremental hashing over byte chunks with a selectable
//! algorithm, and the digest as a fixed-width lowercase hexadecimal string.
//!
//! The hash functions themselves are those of the `md-5`, `sha1` and
//! `xxhash-rust` crates. What this module takes on trust from them is stated on
//! the items marked `external_body` below; everything else is proved.

use vstd::prelude::*;
use vstd::slice::slice_subrange;
use crate::algorithm::Algorithm;
use crate::hex::{
    hex_of_bytes,
    hex_of_u64,
    spec_all_lower_hex,
    spec_hex_of_bytes,
    spec_hex_of_u64,
};

verus! {

/// A running MD5 computation (`md5::Md5`).
#[verifier::external_body]
pub struct Md5State {
    inner: md5::Md5,
}

/// A running SHA-1 computation (`sha1::Sha1`).
#[verifier::external_body]
pub struct Sha1State {
    inner: sha1::Sha1,
}

/// A running XXH64 computation.
#[verifier::external_type_specification]
#[verifier::external_body]
pub struct ExXxh64(xxhash_rust::xxh64::Xxh64);

/// The bytes that a running MD5 computation has been given so far, in order.
pub uninterp spec fn md5_absorbed(state: Md5State) -> Seq<u8>;

/// The MD5 digest of a message.
pub uninterp spec fn md5_digest(message: Seq<u8>) -> [u8; 16];

/// The bytes that a running SHA-1 computation has been given so far, in order.
pub uninterp spec fn sha1_absorbed(state: Sha1State) -> Seq<u8>;

/// The SHA-1 digest of a message.
pub uninterp spec fn sha1_digest(message: Seq<u8>) -> [u8; 20];

/// The bytes that a running XXH64 computation has been given so far, in order.
pub uninterp spec fn xxh64_absorbed(state: xxhash_rust::xxh64::Xxh64) -> Seq<u8>;

/// The seed that a running XXH64 computation was started with.
pub uninterp spec fn xxh64_seed(state: xxhash_rust::xxh64::Xxh64) -> u64;

/// The XXH64 hash of a message under a seed.
pub uninterp spec fn xxh64_digest(seed: u64, message: Seq<u8>) -> u64;

/// SHA-1 counts the message length in bits in 64 bits: the crate's arithmetic
/// on that count is exact only below this many bytes.
pub const SHA1_MAX_INPUT: u64 = 0x2000_0000_0000_0000;

/// `Digest::new` for `md5::Md5`: a computation that has been given nothing yet.
#[verifier::external_body]
fn md5_new() -> (state: Md5State)
    ensures
        md5_absorbed(state) == Seq::<u8>::empty(),
{
    Md5State { inner: <md5::Md5 as md5::Digest>::new() }
}

/// `Digest::update` for `md5::Md5`: the computation has been given `data` after
/// what it had.
#[verifier::external_body]
fn md5_update(state: &mut Md5State, data: &[u8])
    ensures
        md5_absorbed(*final(state)) == md5_absorbed(*old(state)) + data@,
{
    md5::Digest::update(&mut state.inner, data)
}

/// `Digest::finalize` for `md5::Md5`: the digest of all that was given, however
/// it was divided among the calls of `update`.
#[verifier::external_body]
fn md5_finalize(state: Md5State) -> (digest: [u8; 16])
    ensures
        digest == md5_digest(md5_absorbed(state)),
{
    md5::Digest::finalize(state.inner).into()
}

/// `Digest::new` for `sha1::Sha1`: a computation that has been given nothing yet.
#[verifier::external_body]
fn sha1_new() -> (state: Sha1State)
    ensures
        sha1_absorbed(state) == Seq::<u8>::empty(),
{
    Sha1State { inner: <sha1::Sha1 as sha1::Digest>::new() }
}

/// `Digest::update` for `sha1::Sha1`: the computation has been given `data`
/// after what it had. The total is kept where the crate's length arithmetic
/// cannot overflow.
#[verifier::external_body]
fn sha1_update(state: &mut Sha1State, data: &[u8])
    requires
        sha1_absorbed(*old(state)).len() + data@.len() < SHA1_MAX_INPUT,
    ensures
        sha1_absorbed(*final(state)) == sha1_absorbed(*old(state)) + data@,
{
    sha1::Digest::update(&mut state.inner, data)
}

/// `Digest::finalize` for `sha1::Sha1`: the digest of all that was given,
/// however it was divided among the calls of `update`.
#[verifier::external_body]
fn sha1_finalize(state: Sha1State) -> (digest: [u8; 20])
    requires
        sha1_absorbed(state).len() < SHA1_MAX_INPUT,
    ensures
        digest == sha1_digest(sha1_absorbed(state)),
{
    sha1::Digest::finalize(state.inner).into()
}

/// `Xxh64::new`: a computation under `seed` that has been given nothing yet.
#[verifier::external_body]
fn xxh64_new(seed: u64) -> (state: xxhash_rust::xxh64::Xxh64)
    ensures
        xxh64_absorbed(state) == Seq::<u8>::empty(),
        xxh64_seed(state) == seed,
{
    xxhash_rust::xxh64::Xxh64::new(seed)
}

/// `Xxh64::update`: the computation has been given `data` after what it had;
/// its seed stays.
#[verifier::external_body]
fn xxh64_update(state: &mut xxhash_rust::xxh64::Xxh64, data: &[u8])
    ensures
        xxh64_absorbed(*final(state)) == xxh64_absorbed(*old(state)) + data@,
        xxh64_seed(*final(state)) == xxh64_seed(*old(state)),
{
    state.update(data)
}

/// `Xxh64::digest`: the hash, under the seed, of all that was given, however it
/// was divided among the calls of `update`.
#[verifier::external_body]
fn xxh64_finish(state: &xxhash_rust::xxh64::Xxh64) -> (hash: u64)
    ensures
        hash == xxh64_digest(xxh64_seed(*state), xxh64_absorbed(*state)),
{
    state.digest()
}

/// The checksum of `data` under `algorithm`: its digest in lowercase
/// hexadecimal. XXH64 is taken with seed zero and written most significant
/// digit first.
pub open spec fn spec_checksum(algorithm: Algorithm, data: Seq<u8>) -> Seq<char> {
    match algorithm {
        Algorithm::Md5 => spec_hex_of_bytes(md5_digest(data)@),
        Algorithm::Sha1 => spec_hex_of_bytes(sha1_digest(data)@),
        Algorithm::Xxh64 => spec_hex_of_u64(xxh64_digest(0, data)),
    }
}

/// Whether `algorithm` can hash a message of `len` bytes.
pub open spec fn spec_accepts_len(algorithm: Algorithm, len: nat) -> bool {
    algorithm == Algorithm::Sha1 ==> len < SHA1_MAX_INPUT
}

/// The bytes of all `chunks`, one after the other.
pub open spec fn spec_concat(chunks: Seq<Seq<u8>>) -> Seq<u8>
    decreases chunks.len(),
{
    if chunks.len() == 0 {
        Seq::<u8>::empty()
    } else {
        spec_concat(chunks.drop_last()) + chunks.last()
    }
}

/// `data` cut into consecutive chunks of `size` bytes, the last one shorter if
/// need be; a `size` of zero means one chunk.
pub open spec fn spec_split(data: Seq<u8>, size: nat) -> Seq<Seq<u8>>
    decreases data.len(),
{
    if data.len() == 0 {
        Seq::<Seq<u8>>::empty()
    } else if size == 0 || data.len() <= size {
        seq![data]
    } else {
        seq![data.take(size as int)] + spec_split(data.skip(size as int), size)
    }
}

/// Concatenation goes through the joining of two lists of chunks.
pub proof fn lemma_concat_append(a: Seq<Seq<u8>>, b: Seq<Seq<u8>>)
    ensures
        spec_concat(a + b) == spec_concat(a) + spec_concat(b),
    decreases b.len(),
{
    if b.len() == 0 {
        assert(a + b =~= a);
        assert(spec_concat(a) + spec_concat(b) =~= spec_concat(a));
    } else {
        lemma_concat_append(a, b.drop_last());
        assert((a + b).drop_last() =~= a + b.drop_last());
        assert((a + b).last() == b.last());
        assert(spec_concat(a) + (spec_concat(b.drop_last()) + b.last()) =~= (spec_concat(a)
            + spec_concat(b.drop_last())) + b.last());
    }
}

/// A list of one chunk concatenates to that chunk.
pub proof fn lemma_concat_one(chunk: Seq<u8>)
    ensures
        spec_concat(seq![chunk]) == chunk,
{
    assert(seq![chunk].drop_last() =~= Seq::<Seq<u8>>::empty());
    assert(spec_concat(seq![chunk]) =~= spec_concat(Seq::<Seq<u8>>::empty()) + chunk);
    assert(Seq::<u8>::empty() + chunk =~= chunk);
}

/// Cutting a message into chunks of a fixed size loses and reorders nothing.
pub proof fn lemma_split_concat(data: Seq<u8>, size: nat)
    ensures
        spec_concat(spec_split(data, size)) == data,
    decreases data.len(),
{
    if data.len() == 0 {
        assert(data =~= Seq::<u8>::empty());
    } else if size == 0 || data.len() <= size {
        lemma_concat_one(data);
    } else {
        lemma_split_concat(data.skip(size as int), size);
        lemma_concat_append(seq![data.take(size as int)], spec_split(data.skip(size as int), size));
        lemma_concat_one(data.take(size as int));
        assert(data.take(size as int) + data.skip(size as int) =~= data);
    }
}

/// The checksum does not depend on how the message is cut into chunks: any
/// chunks that concatenate to `data` give the checksum of `data`.
pub proof fn lemma_checksum_chunk_invariant(
    algorithm: Algorithm,
    data: Seq<u8>,
    chunks: Seq<Seq<u8>>,
)
    requires
        spec_concat(chunks) == data,
    ensures
        spec_checksum(algorithm, spec_concat(chunks)) == spec_checksum(algorithm, data),
        forall|size: nat|
            spec_checksum(algorithm, spec_concat(#[trigger] spec_split(data, size)))
                == spec_checksum(algorithm, data),
{
    assert forall|size: nat|
        spec_checksum(algorithm, spec_concat(#[trigger] spec_split(data, size))) == spec_checksum(
            algorithm,
            data,
        ) by {
        lemma_split_concat(data, size);
    }
}

/// Why a hash engine refused input.
#[derive(Clone, Copy, Debug, PartialEq, Eq, Structural)]
pub enum DigestError {
    /// The message would be longer than the algorithm can hash.
    InputTooLong,
}

enum EngineState {
    Md5(Md5State),
    Sha1 { core: Sha1State, fed: u64 },
    Xxh64(xxhash_rust::xxh64::Xxh64),
}

/// An incremental hash computation under one algorithm.
pub struct HashEngine {
    state: EngineState,
}

impl HashEngine {
    /// The algorithm that this engine was started with.
    pub closed spec fn algorithm(&self) -> Algorithm {
        match self.state {
            EngineState::Md5(_) => Algorithm::Md5,
            EngineState::Sha1 { .. } => Algorithm::Sha1,
            EngineState::Xxh64(_) => Algorithm::Xxh64,
        }
    }

    /// All bytes accepted so far, in the order in which they came.
    pub closed spec fn absorbed(&self) -> Seq<u8> {
        match self.state {
            EngineState::Md5(core) => md5_absorbed(core),
            EngineState::Sha1 { core, .. } => sha1_absorbed(core),
            EngineState::Xxh64(core) => xxh64_absorbed(core),
        }
    }

    /// The engine's invariant: what it holds is within its algorithm's reach.
    pub closed spec fn wf(&self) -> bool {
        match self.state {
            EngineState::Md5(_) => true,
            EngineState::Sha1 { core, fed } => fed == sha1_absorbed(core).len() && fed
                < SHA1_MAX_INPUT,
            EngineState::Xxh64(core) => xxh64_seed(core) == 0,
        }
    }

    /// A well-formed engine holds no more than its algorithm can hash.
    pub proof fn lemma_wf_within_reach(&self)
        requires
            self.wf(),
        ensures
            spec_accepts_len(self.algorithm(), self.absorbed().len()),
    {
    }

    /// A fresh engine for `algorithm`.
    pub fn new(algorithm: Algorithm) -> (engine: HashEngine)
        ensures
            engine.wf(),
            engine.algorithm() == algorithm,
            engine.absorbed() == Seq::<u8>::empty(),
    {
        match algorithm {
            Algorithm::Md5 => HashEngine { state: EngineState::Md5(md5_new()) },
            Algorithm::Sha1 => HashEngine { state: EngineState::Sha1 { core: sha1_new(), fed: 0 } },
            Algorithm::Xxh64 => HashEngine { state: EngineState::Xxh64(xxh64_new(0)) },
        }
    }

    /// Feeds one chunk. The chunk is refused, and the engine left as it was,
    /// exactly when the message would outgrow the algorithm.
    pub fn update(&mut self, chunk: &[u8]) -> (outcome: Result<(), DigestError>)
        requires
            old(self).wf(),
        ensures
            final(self).wf(),
            final(self).algorithm() == old(self).algorithm(),
            outcome is Ok <==> spec_accepts_len(
                old(self).algorithm(),
                old(self).absorbed().len() + chunk@.len(),
            ),
            outcome is Ok ==> final(self).absorbed() == old(self).absorbed() + chunk@,
            outcome is Err ==> final(self).absorbed() == old(self).absorbed(),
            outcome is Err ==> outcome == Err::<(), DigestError>(DigestError::InputTooLong),
    {
        match &mut self.state {
            EngineState::Md5(core) => {
                md5_update(core, chunk);
                Ok(())
            },
            EngineState::Sha1 { core, fed } => {
                if chunk.len() as u64 >= SHA1_MAX_INPUT - *fed {
                    Err(DigestError::InputTooLong)
                } else {
                    sha1_update(core, chunk);
                    *fed = *fed + chunk.len() as u64;
                    Ok(())
                }
            },
            EngineState::Xxh64(core) => {
                xxh64_update(core, chunk);
                Ok(())
            },
        }
    }

    /// Ends the computation and gives the checksum of all that was fed.
    pub fn finalize(self) -> (checksum: String)
        requires
            self.wf(),
        ensures
            checksum@ == spec_checksum(self.algorithm(), self.absorbed()),
            checksum@.len() == self.algorithm().spec_hex_width(),
            spec_all_lower_hex(checksum@),
    {
        match self.state {
            EngineState::Md5(core) => {
                let digest: [u8; 16] = md5_finalize(core);
                hex_of_bytes(digest.as_slice())
            },
            EngineState::Sha1 { core, fed } => {
                let digest: [u8; 20] = sha1_finalize(core);
                hex_of_bytes(digest.as_slice())
            },
            EngineState::Xxh64(core) => {
                let hash: u64 = xxh64_finish(&core);
                hex_of_u64(hash)
            },
        }
    }
}

/// What a checksum computation over a whole message owes: the checksum of the
/// message where the algorithm can hash it, the refusal where it cannot.
pub open spec fn spec_checksum_outcome(
    algorithm: Algorithm,
    data: Seq<u8>,
    outcome: Result<String, DigestError>,
) -> bool {
    match outcome {
        Ok(checksum) => {
            &&& spec_accepts_len(algorithm, data.len())
            &&& checksum@ == spec_checksum(algorithm, data)
            &&& checksum@.len() == algorithm.spec_hex_width()
            &&& spec_all_lower_hex(checksum@)
        },
        Err(e) => !spec_accepts_len(algorithm, data.len()) && e == DigestError::InputTooLong,
    }
}

/// The checksum of `data`, fed to the engine in one piece.
pub fn checksum_of(algorithm: Algorithm, data: &[u8]) -> (outcome: Result<String, DigestError>)
    ensures
        spec_checksum_outcome(algorithm, data@, outcome),
{
    let mut engine = HashEngine::new(algorithm);
    match engine.update(data) {
        Ok(()) => {
            assert(Seq::<u8>::empty() + data@ =~= data@);
            Ok(engine.finalize())
        },
        Err(e) => Err(e),
    }
}

/// The checksum of `data`, fed to the engine in chunks of `chunk_size` bytes
/// (in one piece if `chunk_size` is zero). The chunk size has no influence on
/// the result.
pub fn checksum_in_chunks(algorithm: Algorithm, data: &[u8], chunk_size: usize) -> (outcome: Result<
    String,
    DigestError,
>)
    ensures
        spec_checksum_outcome(algorithm, data@, outcome),
{
    if chunk_size == 0 {
        return checksum_of(algorithm, data);
    }
    let mut engine = HashEngine::new(algorithm);
    let mut done: usize = 0;
    while done < data.len()
        invariant
            chunk_size > 0,
            done <= data.len(),
            engine.wf(),
            engine.algorithm() == algorithm,
            engine.absorbed() == data@.take(done as int),
        decreases data.len() - done,
    {
        let end: usize = if data.len() - done <= chunk_size {
            data.len()
        } else {
            done + chunk_size
        };
        let chunk = slice_subrange(data, done, end);
        match engine.update(chunk) {
            Ok(()) => {
                assert(data@.take(done as int) + data@.subrange(done as int, end as int)
                    =~= data@.take(end as int));
            },
            Err(e) => {
                assert(data@.take(done as int).len() + chunk@.len() <= data@.len());
                return Err(e);
            },
        }
        done = end;
    }
    assert(data@.take(data.len() as int) =~= data@);
    proof {
        engine.lemma_wf_within_reach();
    }
    Ok(engine.finalize())
}

/// The checksum of the message that `chunks` spell when laid end to end.
pub fn checksum_of_chunks(algorithm: Algorithm, chunks: &Vec<Vec<u8>>) -> (outcome: Result<
    String,
    DigestError,
>)
    ensures
        spec_checksum_outcome(algorithm, spec_concat(chunks.deep_view()), outcome),
{
    let ghost all = chunks.deep_view();
    let mut engine = HashEngine::new(algorithm);
    let mut i: usize = 0;
    while i < chunks.len()
        invariant
            i <= chunks.len(),
            all == chunks.deep_view(),
            all.len() == chunks.len(),
            engine.wf(),
            engine.algorithm() == algorithm,
            engine.absorbed() == spec_concat(all.take(i as int)),
        decreases chunks.len() - i,
    {
        let chunk: &Vec<u8> = &chunks[i];
        proof {
            assert(all[i as int] == chunk@);
            assert(all.take(i + 1).drop_last() =~= all.take(i as int));
            assert(all.take(i + 1).last() == chunk@);
            lemma_concat_append(all.take(i + 1), all.skip(i + 1));
            assert(all.take(i + 1) + all.skip(i + 1) =~= all);
        }
        match engine.update(chunk.as_slice()) {
            Ok(()) => {},
            Err(e) => {
                return Err(e);
            },
        }
        i += 1;
    }
    assert(all.take(chunks.len() as int) =~= all);
    proof {
        engine.lemma_wf_within_reach();
    }
    Ok(engine.finalize())
}

} // verus!
