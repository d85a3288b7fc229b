//! Resume-offset detection: the chunked comparison of a source file against a
//! destination file that already exists.
//!
//! The caller reads both files; a [`ResumeScan`] says how much to read next,
//! how to align short reads, and when to stop, and keeps the matched length.
use vstd::prelude::*;
use crate::prefix::{agree_up_to, is_common_prefix_len, matching_prefix};

verus! {

/// What to do after one read of a chunk from each file.
#[derive(Debug, Clone, Copy, PartialEq, Eq, Structural)]
pub enum Alignment {
    /// Both reads returned this many bytes: compare them.
    Aligned(usize),
    /// The source read came back shorter: read the source buffer's bytes
    /// `from..to` exactly, then compare `to` bytes.
    ReadSource { from: usize, to: usize },
    /// The destination read came back shorter: read the destination buffer's
    /// bytes `from..to` exactly, then compare `to` bytes.
    ReadDestination { from: usize, to: usize },
}

/// Decides how to align the two reads of one step, given how many bytes each
/// returned.
pub fn align_reads(source_read: usize, destination_read: usize) -> (r: Alignment)
    ensures
        source_read == destination_read ==> r == Alignment::Aligned(source_read),
        source_read < destination_read ==> r == (Alignment::ReadSource {
            from: source_read,
            to: destination_read,
        }),
        source_read > destination_read ==> r == (Alignment::ReadDestination {
            from: destination_read,
            to: source_read,
        }),
{
    if source_read < destination_read {
        Alignment::ReadSource { from: source_read, to: destination_read }
    } else if source_read > destination_read {
        Alignment::ReadDestination { from: destination_read, to: source_read }
    } else {
        Alignment::Aligned(source_read)
    }
}

/// The state of one resume-offset detection.
pub struct ResumeScan {
    min_size: u64,
    chunk_size: usize,
    matched: u64,
    diverged: bool,
    exhausted: bool,
    source_seen: Ghost<Seq<u8>>,
    destination_seen: Ghost<Seq<u8>>,
}

impl ResumeScan {
    /// The smaller of the two file sizes: the most that can match.
    pub closed spec fn min_size(&self) -> nat {
        self.min_size as nat
    }

    /// How many bytes each read of a step asks for at most.
    pub closed spec fn chunk_size(&self) -> nat {
        self.chunk_size as nat
    }

    /// The matched prefix length found so far.
    pub closed spec fn matched(&self) -> nat {
        self.matched as nat
    }

    /// A byte that differs has been found.
    pub closed spec fn diverged(&self) -> bool {
        self.diverged
    }

    /// A file ended before the two reads of a step could be aligned.
    pub closed spec fn exhausted(&self) -> bool {
        self.exhausted
    }

    /// The bytes of the source compared so far, in order.
    pub closed spec fn source_seen(&self) -> Seq<u8> {
        self.source_seen@
    }

    /// The bytes of the destination compared so far, in order.
    pub closed spec fn destination_seen(&self) -> Seq<u8> {
        self.destination_seen@
    }

    /// Nothing more is to be read.
    pub open spec fn done(&self) -> bool {
        self.diverged() || self.exhausted() || self.matched() == self.min_size()
    }

    /// How many bytes the next step asks of each file.
    pub open spec fn next_len(&self) -> nat {
        let rest = self.min_size() - self.matched();
        if self.chunk_size() < rest {
            self.chunk_size()
        } else {
            rest as nat
        }
    }

    /// The scan's invariant: as many bytes were compared on each side, never
    /// more than the smaller size, and the matched length is the longest
    /// common prefix of what was compared; until the scan stops, all of it.
    pub open spec fn wf(&self) -> bool {
        &&& self.chunk_size() >= 1
        &&& self.source_seen().len() == self.destination_seen().len()
        &&& self.source_seen().len() <= self.min_size()
        &&& is_common_prefix_len(self.source_seen(), self.destination_seen(), self.matched())
        &&& !self.diverged() ==> self.matched() == self.source_seen().len()
        &&& self.diverged() ==> self.matched() < self.source_seen().len()
    }

    /// Starts a scan of a source of `source_size` bytes against a destination
    /// of `destination_size` bytes, reading half of `buffer_size` per step.
    pub fn new(source_size: u64, destination_size: u64, buffer_size: usize) -> (r: Self)
        requires
            buffer_size >= 2,
        ensures
            r.wf(),
            r.min_size() == if source_size < destination_size {
                source_size
            } else {
                destination_size
            },
            r.chunk_size() == buffer_size / 2,
            r.matched() == 0,
            !r.diverged(),
            !r.exhausted(),
            r.source_seen() == Seq::<u8>::empty(),
            r.destination_seen() == Seq::<u8>::empty(),
    {
        let min_size = if source_size < destination_size {
            source_size
        } else {
            destination_size
        };
        ResumeScan {
            min_size,
            chunk_size: buffer_size / 2,
            matched: 0,
            diverged: false,
            exhausted: false,
            source_seen: Ghost(Seq::empty()),
            destination_seen: Ghost(Seq::empty()),
        }
    }

    /// The smaller of the two file sizes.
    pub fn min_size_of(&self) -> (r: u64)
        ensures
            r == self.min_size(),
    {
        self.min_size
    }

    /// The matched prefix length found so far: once the scan is done, the
    /// offset at which copying resumes.
    pub fn matched_len(&self) -> (r: u64)
        ensures
            r == self.matched(),
    {
        self.matched
    }

    /// Whether nothing more is to be read.
    pub fn is_done(&self) -> (r: bool)
        requires
            self.wf(),
        ensures
            r == self.done(),
    {
        self.diverged || self.exhausted || self.matched == self.min_size
    }

    /// How many bytes to ask of each file in the next step.
    pub fn next_read_len(&self) -> (r: usize)
        requires
            self.wf(),
            !self.done(),
        ensures
            r == self.next_len(),
            r >= 1,
    {
        let rest = self.min_size - self.matched;
        if (self.chunk_size as u64) < rest {
            self.chunk_size
        } else {
            rest as usize
        }
    }

    /// Records one aligned step: `source` and `destination` are the bytes
    /// that the step read from each file. The matched length grows by the
    /// bytes that agree before the first difference, and the scan stops at a
    /// difference. An empty step means that both files ended: it stops the
    /// scan too.
    pub fn record_chunk(&mut self, source: &[u8], destination: &[u8])
        requires
            old(self).wf(),
            !old(self).done(),
            source@.len() == destination@.len(),
            source@.len() <= old(self).next_len(),
        ensures
            final(self).wf(),
            final(self).min_size() == old(self).min_size(),
            final(self).chunk_size() == old(self).chunk_size(),
            final(self).source_seen() == old(self).source_seen() + source@,
            final(self).destination_seen() == old(self).destination_seen() + destination@,
            is_common_prefix_len(
                source@,
                destination@,
                (final(self).matched() - old(self).matched()) as nat,
            ),
            final(self).diverged() == (source@ != destination@),
            final(self).exhausted() == (source@.len() == 0),
    {
        let n = matching_prefix(source, destination);
        let ghost s0 = self.source_seen@;
        let ghost d0 = self.destination_seen@;
        proof {
            self.source_seen = Ghost(s0 + source@);
            self.destination_seen = Ghost(d0 + destination@);
        }
        let ghost s1 = self.source_seen@;
        let ghost d1 = self.destination_seen@;
        let ghost m1 = self.matched + n;
        assert(agree_up_to(s1, d1, m1 as nat)) by {
            assert forall|i: int| 0 <= i < m1 implies s1[i] == d1[i] by {
                if i >= s0.len() {
                    assert(source@[i - s0.len()] == destination@[i - s0.len()]);
                }
            }
        }
        if n < source.len() {
            assert(s1[m1 as int] == source@[n as int]);
            assert(d1[m1 as int] == destination@[n as int]);
            assert(source@ != destination@);
        } else {
            assert(source@ =~= destination@);
        }
        self.matched = self.matched + n as u64;
        self.diverged = n < source.len();
        self.exhausted = source.len() == 0;
    }

    /// Stops the scan because a file ended before a step's reads could be
    /// aligned: no further comparison is possible, and the matched length
    /// stays as it is.
    pub fn stop_unaligned(&mut self)
        requires
            old(self).wf(),
        ensures
            final(self).wf(),
            final(self).done(),
            final(self).exhausted(),
            final(self).min_size() == old(self).min_size(),
            final(self).chunk_size() == old(self).chunk_size(),
            final(self).matched() == old(self).matched(),
            final(self).diverged() == old(self).diverged(),
            final(self).source_seen() == old(self).source_seen(),
            final(self).destination_seen() == old(self).destination_seen(),
    {
        self.exhausted = true;
    }
}

/// When a scan that was fed the leading bytes of a source and of a
/// destination is done without a file ending early, its matched length is the
/// length of the longest common prefix of the two files, and so no more than
/// the smaller size.
pub proof fn lemma_scan_finds_common_prefix(scan: ResumeScan, source: Seq<u8>, destination: Seq<u8>)
    requires
        scan.wf(),
        scan.done(),
        !scan.exhausted(),
        scan.min_size() == if source.len() < destination.len() {
            source.len()
        } else {
            destination.len()
        },
        scan.source_seen() == source.subrange(0, scan.source_seen().len() as int),
        scan.destination_seen() == destination.subrange(0, scan.destination_seen().len() as int),
    ensures
        is_common_prefix_len(source, destination, scan.matched()),
        scan.matched() <= source.len(),
        scan.matched() <= destination.len(),
{
    let s = scan.source_seen();
    let d = scan.destination_seen();
    let m = scan.matched();
    assert forall|i: int| 0 <= i < m implies source[i] == destination[i] by {
        assert(s[i] == source[i]);
        assert(d[i] == destination[i]);
    }
    if scan.diverged() {
        assert(s[m as int] == source[m as int]);
        assert(d[m as int] == destination[m as int]);
    }
}

/// A scan never compares more bytes of either file than the smaller file
/// holds, so a resumed transfer re-reads at most that much.
pub proof fn lemma_scan_reads_at_most_smaller(scan: ResumeScan)
    requires
        scan.wf(),
    ensures
        scan.source_seen().len() <= scan.min_size(),
        scan.destination_seen().len() <= scan.min_size(),
        scan.matched() <= scan.min_size(),
{
}

/// Runs a whole scan over two files whose contents are at hand, one chunk at a
/// time, and returns the resume offset: the length of their longest common
/// prefix.
pub fn resume_offset_in(source: &[u8], destination: &[u8], buffer_size: usize) -> (r: u64)
    requires
        buffer_size >= 2,
    ensures
        is_common_prefix_len(source@, destination@, r as nat),
{
    let mut scan = ResumeScan::new(source.len() as u64, destination.len() as u64, buffer_size);
    while !scan.is_done()
        invariant
            scan.wf(),
            !scan.exhausted(),
            scan.min_size() == if source@.len() < destination@.len() {
                source@.len()
            } else {
                destination@.len()
            },
            scan.source_seen() == source@.subrange(0, scan.source_seen().len() as int),
            scan.destination_seen() == destination@.subrange(0, scan.destination_seen().len() as int),
        decreases scan.min_size() - scan.source_seen().len(),
    {
        // until the scan stops, everything compared so far matched
        assert(scan.matched() == scan.source_seen().len());
        let source_len = source.len();
        let matched = scan.matched_len();
        assert(matched <= source_len);
        let start = matched as usize;
        let len = scan.next_read_len();
        let src_chunk = slice_range(source, start, start + len);
        let dest_chunk = slice_range(destination, start, start + len);
        proof {
            assert(source@.subrange(0, start + len) =~= scan.source_seen() + src_chunk@);
            assert(destination@.subrange(0, start + len) =~= scan.destination_seen() + dest_chunk@);
        }
        scan.record_chunk(src_chunk, dest_chunk);
    }
    proof {
        lemma_scan_finds_common_prefix(scan, source@, destination@);
    }
    scan.matched_len()
}

/// The bytes `from..to` of `bytes`.
fn slice_range(bytes: &[u8], from: usize, to: usize) -> (r: &[u8])
    requires
        from <= to <= bytes@.len(),
    ensures
        r@ == bytes@.subrange(from as int, to as int),
{
    let (head, _) = bytes.split_at(to);
    let (_, mid) = head.split_at(from);
    mid
}

} // verus!
