//! One file's passage through the pipeline: the chunks that are read are
//! counted, metered and, where a checksum was asked for, hashed. The caller
//! does the reading and the writing; what is decided and computed on the way
//! is here.

use vstd::prelude::*;
use vstd::slice::slice_subrange;
use crate::algorithm::Algorithm;
use crate::digest::{spec_accepts_len, spec_checksum, DigestError, HashEngine};
use crate::hex::spec_all_lower_hex;
use crate::verify::{spec_checksum_view, Checksum, ChecksumView};
use crate::throughput::{spec_recorded, ThroughputMeter};

verus! {

/// Files are moved in chunks of this many bytes: eight mebibytes.
pub const CHUNK_SIZE: usize = 8_388_608;

/// The passage of one file's bytes, chunk by chunk.
pub struct Transfer {
    algorithm: Option<Algorithm>,
    engine: Option<HashEngine>,
    meter: ThroughputMeter,
    seen: Ghost<Seq<u8>>,
}

/// The checksum that a finished transfer owes: that of all bytes that went
/// through, where an algorithm was asked for; none where none was.
pub open spec fn spec_transfer_checksum(algorithm: Option<Algorithm>, bytes: Seq<u8>) -> Option<
    ChecksumView,
> {
    match algorithm {
        Some(a) => Some(ChecksumView { algorithm: a, text: spec_checksum(a, bytes) }),
        None => None,
    }
}

/// Whether a transfer under `algorithm` can take a stream of `len` bytes.
pub open spec fn spec_transfer_accepts(algorithm: Option<Algorithm>, len: nat) -> bool {
    match algorithm {
        Some(a) => spec_accepts_len(a, len),
        None => true,
    }
}

impl Transfer {
    /// The algorithm under which the bytes are hashed, if any.
    pub closed spec fn algorithm(&self) -> Option<Algorithm> {
        self.algorithm
    }

    /// All bytes that went through so far, in order.
    pub closed spec fn transferred(&self) -> Seq<u8> {
        self.seen@
    }

    /// The rate meter of this transfer.
    pub closed spec fn meter(&self) -> ThroughputMeter {
        self.meter
    }

    /// The transfer's invariant: the engine, if there is one, has been fed
    /// exactly the bytes that went through.
    pub closed spec fn wf(&self) -> bool {
        &&& self.meter.wf()
        &&& match self.engine {
            Some(engine) => {
                &&& engine.wf()
                &&& engine.absorbed() == self.seen@
                &&& self.algorithm == Some(engine.algorithm())
            },
            None => self.algorithm is None,
        }
    }

    /// A transfer through which nothing has gone yet. With an algorithm the
    /// bytes are hashed by a fresh engine; without one they are only counted.
    pub fn begin(algorithm: Option<Algorithm>) -> (transfer: Transfer)
        ensures
            transfer.wf(),
            transfer.algorithm() == algorithm,
            transfer.transferred() == Seq::<u8>::empty(),
            transfer.meter().window() == Seq::<u64>::empty(),
            transfer.meter().pending() == 0,
    {
        let engine = match algorithm {
            Some(a) => Some(HashEngine::new(a)),
            None => None,
        };
        Transfer {
            algorithm,
            engine,
            meter: ThroughputMeter::new(),
            seen: Ghost(Seq::<u8>::empty()),
        }
    }

    /// Takes the chunk that was just read and moved, and the nanoseconds gone
    /// by since the last progress report. The chunk is hashed, if hashing was
    /// asked for, and metered. A rate comes back when a progress report is
    /// due: the smoothed rate in bytes per second; the caller shows it and
    /// starts its clock again. A chunk that would take the stream beyond what
    /// the algorithm can hash is refused and changes nothing.
    pub fn on_chunk(&mut self, chunk: &[u8], elapsed_nanos: u64) -> (outcome: Result<
        Option<u64>,
        DigestError,
    >)
        requires
            old(self).wf(),
        ensures
            final(self).wf(),
            final(self).algorithm() == old(self).algorithm(),
            outcome is Ok <==> spec_transfer_accepts(
                old(self).algorithm(),
                old(self).transferred().len() + chunk@.len(),
            ),
            match outcome {
                Ok(smoothed) => {
                    &&& final(self).transferred() == old(self).transferred() + chunk@
                    &&& spec_recorded(
                        old(self).meter(),
                        chunk@.len() as u64,
                        elapsed_nanos,
                        final(self).meter(),
                        smoothed,
                    )
                },
                Err(e) => {
                    &&& e == DigestError::InputTooLong
                    &&& final(self).transferred() == old(self).transferred()
                    &&& final(self).meter() == old(self).meter()
                },
            },
    {
        match &mut self.engine {
            Some(engine) => {
                match engine.update(chunk) {
                    Ok(()) => {},
                    Err(e) => {
                        return Err(e);
                    },
                }
            },
            None => {},
        }
        self.seen = Ghost(self.seen@ + chunk@);
        let smoothed: Option<u64> = self.meter.record(chunk.len() as u64, elapsed_nanos);
        Ok(smoothed)
    }

    /// Ends the transfer: the checksum of everything that went through, or
    /// nothing where no checksum was asked for.
    pub fn finish(self) -> (checksum: Option<Checksum>)
        requires
            self.wf(),
        ensures
            spec_checksum_view(checksum) == spec_transfer_checksum(
                self.algorithm(),
                self.transferred(),
            ),
            checksum matches Some(c) ==> {
                &&& c.text@.len() == c.algorithm.spec_hex_width()
                &&& spec_all_lower_hex(c.text@)
            },
    {
        match self.engine {
            Some(engine) => {
                match self.algorithm {
                    Some(algorithm) => Some(Checksum { algorithm, text: engine.finalize() }),
                    None => None,
                }
            },
            None => None,
        }
    }
}

fn append_bytes(destination: &mut Vec<u8>, chunk: &[u8])
    ensures
        final(destination)@ == old(destination)@ + chunk@,
{
    let mut i: usize = 0;
    assert(destination@ =~= old(destination)@ + chunk@.take(0));
    while i < chunk.len()
        invariant
            i <= chunk.len(),
            destination@ == old(destination)@ + chunk@.take(i as int),
        decreases chunk.len() - i,
    {
        destination.push(chunk[i]);
        i += 1;
        assert(destination@ =~= old(destination)@ + chunk@.take(i as int));
    }
    assert(chunk@.take(chunk.len() as int) =~= chunk@);
}

/// Copies a stream of bytes that is held in memory the way a file is copied:
/// the destination is emptied, and the source goes over chunk by chunk, each
/// chunk written and then hashed, if a checksum was asked for. When all has
/// gone over, the destination holds what the source holds, and the checksum
/// is that of the source. When the stream is longer than the algorithm can
/// hash, the copy stops, and the destination is left with a beginning of the
/// source.
pub fn copy_bytes(source: &[u8], destination: &mut Vec<u8>, algorithm: Option<Algorithm>) -> (outcome:
    Result<Option<Checksum>, DigestError>)
    ensures
        outcome is Ok <==> spec_transfer_accepts(algorithm, source@.len()),
        match outcome {
            Ok(checksum) => {
                &&& final(destination)@ == source@
                &&& spec_checksum_view(checksum) == spec_transfer_checksum(algorithm, source@)
            },
            Err(e) => {
                &&& e == DigestError::InputTooLong
                &&& final(destination)@.len() <= source@.len()
                &&& final(destination)@ == source@.take(final(destination)@.len() as int)
            },
        },
{
    destination.clear();
    let mut transfer = Transfer::begin(algorithm);
    let mut done: usize = 0;
    assert(destination@ =~= source@.take(0));
    while done < source.len()
        invariant
            done <= source.len(),
            transfer.wf(),
            transfer.algorithm() == algorithm,
            transfer.transferred() == source@.take(done as int),
            destination@ == source@.take(done as int),
            spec_transfer_accepts(algorithm, done as nat),
        decreases source.len() - done,
    {
        let end: usize = if source.len() - done <= CHUNK_SIZE {
            source.len()
        } else {
            done + CHUNK_SIZE
        };
        let chunk = slice_subrange(source, done, end);
        append_bytes(destination, chunk);
        assert(source@.take(done as int) + source@.subrange(done as int, end as int) =~= source@.take(
            end as int,
        ));
        match transfer.on_chunk(chunk, 0) {
            Ok(_) => {},
            Err(e) => {
                return Err(e);
            },
        }
        done = end;
    }
    assert(source@.take(source.len() as int) =~= source@);
    Ok(transfer.finish())
}

} // verus!
