//! Line and byte counts of the active file, and the thresholds they are
//! held against.

use vstd::prelude::*;

verus! {

/// The byte that ends a line.
pub const NEWLINE: u8 = 10;

/// How many bytes the recovery scan asks for at a time.
pub const SCAN_CHUNK: usize = 1024;

/// The number of line ends among `bytes`.
pub open spec fn count_newlines(bytes: Seq<u8>) -> nat {
    bytes.filter(|b: u8| b == NEWLINE).len()
}

/// `n`, held at the largest value a `usize` can take.
pub open spec fn saturate(n: int) -> usize {
    if n > usize::MAX {
        usize::MAX
    } else if n < 0 {
        0
    } else {
        n as usize
    }
}

/// Extending a byte string by one byte adds one line end exactly when that
/// byte is a newline.
pub proof fn lemma_count_newlines_push(bytes: Seq<u8>, b: u8)
    ensures
        count_newlines(bytes.push(b)) == count_newlines(bytes) + if b == NEWLINE {
            1nat
        } else {
            0nat
        },
{
    reveal(Seq::filter);
    assert(bytes.push(b).drop_last() =~= bytes);
}

/// Line ends add up over concatenation.
pub proof fn lemma_count_newlines_concat(a: Seq<u8>, b: Seq<u8>)
    ensures
        count_newlines(a + b) == count_newlines(a) + count_newlines(b),
{
    Seq::filter_distributes_over_add(a, b, |x: u8| x == NEWLINE);
}

/// Counts the line ends in `buf`.
pub fn countlines(buf: &[u8]) -> (lines: usize)
    ensures
        lines == count_newlines(buf@),
{
    let mut lines: usize = 0;
    let mut i: usize = 0;
    while i < buf.len()
        invariant
            i <= buf.len(),
            lines <= i,
            lines == count_newlines(buf@.take(i as int)),
        decreases buf.len() - i,
    {
        proof {
            lemma_count_newlines_push(buf@.take(i as int), buf@[i as int]);
            assert(buf@.take(i as int).push(buf@[i as int]) =~= buf@.take(i + 1));
        }
        if buf[i] == NEWLINE {
            lines = lines + 1;
        }
        i = i + 1;
    }
    proof {
        assert(buf@.take(i as int) =~= buf@);
    }
    lines
}

/// What triggers a rotation: a number of lines, or a number of bytes, that
/// the active file has reached.
#[derive(Clone, Copy, Debug, PartialEq, Eq)]
pub enum RotationMode {
    Lines(usize),
    Bytes(usize),
}

/// The running counts of one file epoch. Each count stops at `usize::MAX`
/// instead of wrapping; since no threshold is larger than that, a count that
/// has stopped there is held against a threshold as the exact count would be.
#[derive(Clone, Copy, Debug, PartialEq, Eq)]
pub struct Counters {
    pub lines: usize,
    pub bytes: usize,
}

impl Counters {
    /// The counts of an empty file.
    pub open spec fn zero() -> Counters {
        Counters { lines: 0, bytes: 0 }
    }

    /// The counts after `written` has been appended to a file with the
    /// counts `self`.
    pub open spec fn credited(self, written: Seq<u8>) -> Counters {
        Counters {
            lines: saturate(self.lines + count_newlines(written)),
            bytes: saturate(self.bytes + written.len()),
        }
    }

    /// The counts of a file that holds exactly `content`.
    pub open spec fn of(content: Seq<u8>) -> Counters {
        Counters::zero().credited(content)
    }

    /// The counts of an empty file.
    pub fn new() -> (c: Counters)
        ensures
            c == Counters::zero(),
    {
        Counters { lines: 0, bytes: 0 }
    }

    /// Adds the bytes of `written`, and the line ends among them, to the
    /// counts.
    pub fn credit(&mut self, written: &[u8])
        ensures
            *final(self) == old(self).credited(written@),
    {
        let lines = countlines(written);
        self.lines = self.lines.saturating_add(lines);
        self.bytes = self.bytes.saturating_add(written.len());
    }

}

/// The recovery scan: the reading of a file that exists when its writer is
/// made, to its end, for its counts.
#[derive(Clone, Copy, Debug, PartialEq, Eq)]
pub enum Recovery {
    /// More of the file is to be read. The counts are those of what was
    /// read so far.
    Scanning(Counters),
    /// The file was read to its end, or there is none. The counts are those
    /// of the file.
    Complete(Counters),
    /// A read failed. There are no counts.
    Failed,
}

impl Recovery {
    /// The scan after one more read, which gave `read`: the bytes read,
    /// none at the end of the file, or `None` where the read failed. A scan
    /// that has ended, either way, stays as it is.
    pub open spec fn absorbed(self, read: Option<Seq<u8>>) -> Recovery {
        match self {
            Recovery::Scanning(c) => match read {
                Some(chunk) => if chunk.len() == 0 {
                    Recovery::Complete(c)
                } else {
                    Recovery::Scanning(c.credited(chunk))
                },
                None => Recovery::Failed,
            },
            _ => self,
        }
    }

    /// The scan of a file after reads that gave `chunks`, one after the
    /// other.
    pub open spec fn scan(chunks: Seq<Seq<u8>>) -> Recovery
        decreases chunks.len(),
    {
        if chunks.len() == 0 {
            Recovery::Scanning(Counters::zero())
        } else {
            Recovery::scan(chunks.drop_last()).absorbed(Some(chunks.last()))
        }
    }

    /// The scan of a file that exists, before its first read.
    pub fn begin() -> (scan: Recovery)
        ensures
            scan == Recovery::Scanning(Counters::zero()),
    {
        Recovery::Scanning(Counters::new())
    }

    /// The scan where no file exists: complete, with counts of zero.
    pub fn missing() -> (scan: Recovery)
        ensures
            scan == Recovery::Complete(Counters::zero()),
    {
        Recovery::Complete(Counters::new())
    }

    /// One step of the scan. `read` is what reading the file into `buf`
    /// gave: the number of bytes, or `None` where the read failed. The bytes
    /// read are counted. A read of no bytes completes the scan, and a failed
    /// read fails it. The result tells whether the scan goes on.
    pub fn absorb(&mut self, buf: &[u8], read: Option<usize>) -> (more: bool)
        requires
            read matches Some(n) ==> n <= buf@.len(),
        ensures
            *final(self) == old(self).absorbed(
                match read {
                    Some(n) => Some(buf@.take(n as int)),
                    None => None,
                },
            ),
            more == (*final(self) is Scanning),
    {
        match *self {
            Recovery::Scanning(counters) => match read {
                Some(n) => {
                    if n == 0 {
                        *self = Recovery::Complete(counters);
                        false
                    } else {
                        let mut counted = counters;
                        counted.credit(vstd::slice::slice_subrange(buf, 0, n));
                        *self = Recovery::Scanning(counted);
                        true
                    }
                },
                None => {
                    *self = Recovery::Failed;
                    false
                },
            },
            _ => false,
        }
    }
}

impl RotationMode {
    /// The configured number of lines or bytes.
    pub open spec fn threshold(self) -> usize {
        match self {
            RotationMode::Lines(n) => n,
            RotationMode::Bytes(n) => n,
        }
    }

    /// Whether a file with exactly `lines` line ends and `bytes` bytes has
    /// reached the threshold.
    pub open spec fn reached(self, lines: nat, bytes: nat) -> bool {
        match self {
            RotationMode::Lines(n) => lines >= n,
            RotationMode::Bytes(n) => bytes >= n,
        }
    }

    /// Whether a file that holds exactly `content` has reached the
    /// threshold.
    pub open spec fn reached_by(self, content: Seq<u8>) -> bool {
        self.reached(count_newlines(content), content.len())
    }

    /// Whether rotation is due at the counts `c`.
    pub open spec fn due(self, c: Counters) -> bool {
        self.reached(c.lines as nat, c.bytes as nat)
    }

    /// Decides whether rotation is due at the counts `c`.
    pub fn is_due(&self, c: &Counters) -> (due: bool)
        ensures
            due == self.due(*c),
    {
        match self {
            RotationMode::Lines(n) => c.lines >= *n,
            RotationMode::Bytes(n) => c.bytes >= *n,
        }
    }
}

/// Crediting two byte strings in turn gives the counts of crediting their
/// concatenation: how a file is cut into chunks does not change its counts.
pub proof fn lemma_credit_in_parts(c: Counters, a: Seq<u8>, b: Seq<u8>)
    ensures
        c.credited(a).credited(b) == c.credited(a + b),
{
    lemma_count_newlines_concat(a, b);
}

/// A scan of a file in chunks, of whatever sizes, arrives at the counts of
/// the file: while it reads it holds the counts of what it has read, at the
/// end of the file it is complete with the counts of the whole, and a read
/// that fails leaves it failed, with no counts at all.
pub proof fn lemma_scan_counts_the_file(chunks: Seq<Seq<u8>>)
    requires
        forall|i: int| 0 <= i < chunks.len() ==> (#[trigger] chunks[i]).len() > 0,
    ensures
        Recovery::scan(chunks) == Recovery::Scanning(Counters::of(chunks.flatten())),
        Recovery::scan(chunks).absorbed(Some(Seq::empty())) == Recovery::Complete(
            Counters::of(chunks.flatten()),
        ),
        Recovery::scan(chunks).absorbed(None) == Recovery::Failed,
        Recovery::Failed.absorbed(Some(Seq::empty())) == Recovery::Failed,
    decreases chunks.len(),
{
    if chunks.len() == 0 {
        assert(chunks.flatten() =~= Seq::<u8>::empty());
        assert(count_newlines(Seq::<u8>::empty()) == 0) by {
            reveal(Seq::filter);
        }
    } else {
        let front = chunks.drop_last();
        lemma_scan_counts_the_file(front);
        lemma_credit_in_parts(Counters::zero(), front.flatten(), chunks.last());
        front.lemma_flatten_push(chunks.last());
        assert(front.push(chunks.last()) =~= chunks);
    }
}

/// Counts that have stopped at `usize::MAX` decide as the exact counts do:
/// rotation is due at the counts of `content` exactly when `content` itself
/// has reached the threshold.
pub proof fn lemma_due_is_exact(mode: RotationMode, content: Seq<u8>)
    ensures
        mode.due(Counters::of(content)) <==> mode.reached_by(content),
{
}

} // verus!
