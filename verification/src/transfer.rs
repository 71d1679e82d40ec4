use vstd::prelude::*;

verus! {

/// The size of the buffer a download is read through, and the amount the
/// progress display moves for each chunk.
pub const CHUNK_SIZE: u64 = 8192;

/// The sum of the sizes of the chunks read so far.
pub open spec fn total(reads: Seq<nat>) -> nat
    decreases reads.len(),
{
    if reads.len() == 0 {
        0
    } else {
        total(reads.drop_last()) + reads.last()
    }
}

/// The counter the download loop compares with the file size: it starts at
/// one chunk and grows by each chunk read.
pub open spec fn counter_of(reads: Seq<nat>) -> nat {
    CHUNK_SIZE as nat + total(reads)
}

/// Whether the loop goes on reading: the counter is still below the file size.
pub open spec fn unfinished(file_size: nat, reads: Seq<nat>) -> bool {
    counter_of(reads) < file_size
}

/// A sequence of chunk sizes that the loop can have read: each read happened
/// while the loop was unfinished, and returned at most one chunk.
pub open spec fn valid_run(file_size: nat, reads: Seq<nat>) -> bool {
    forall|i: int|
        0 <= i < reads.len() ==> unfinished(file_size, #[trigger] reads.take(i)) && reads[i]
            <= CHUNK_SIZE
}

/// The state of one download: the file's size and the chunks read so far.
pub struct TransferView {
    pub file_size: nat,
    pub reads: Seq<nat>,
}

/// What the download loop does next.
#[derive(Clone, Copy, Debug, PartialEq, Eq, Structural)]
pub enum TransferStep {
    /// Read at most `len` bytes from the file and send them.
    Read { len: usize },
    /// Stop: the loop is over.
    Finish,
}

/// The decisions of the loop that streams a file to a downloader.
pub struct Transfer {
    file_size: u64,
    counter: u64,
    reads: Ghost<Seq<nat>>,
}

impl View for Transfer {
    type V = TransferView;

    closed spec fn view(&self) -> TransferView {
        TransferView { file_size: self.file_size as nat, reads: self.reads@ }
    }
}

impl Transfer {
    #[verifier::type_invariant]
    spec fn inv(self) -> bool {
        &&& self.counter == counter_of(self.reads@)
        &&& valid_run(self.file_size as nat, self.reads@)
    }

    /// A download of a file of `file_size` bytes that has read nothing yet.
    pub fn start(file_size: u64) -> (t: Transfer)
        ensures
            t@.file_size == file_size,
            t@.reads == Seq::<nat>::empty(),
            valid_run(t@.file_size, t@.reads),
    {
        Transfer { file_size, counter: CHUNK_SIZE, reads: Ghost(Seq::empty()) }
    }

    /// The counter that the loop compares with the file size.
    pub fn counter(&self) -> (c: u64)
        ensures
            c == counter_of(self@.reads),
    {
        proof {
            use_type_invariant(self);
        }
        self.counter
    }

    /// The number of file bytes sent so far.
    pub fn delivered(&self) -> (d: u64)
        ensures
            d == total(self@.reads),
    {
        proof {
            use_type_invariant(self);
        }
        self.counter - CHUNK_SIZE
    }

    /// The size of the file being sent.
    pub fn file_size(&self) -> (s: u64)
        ensures
            s == self@.file_size,
    {
        self.file_size
    }

    /// The next thing to do: read as much as the buffer holds (never more than
    /// the counter) while the counter is below the file size, else stop.
    pub fn next_step(&self) -> (step: TransferStep)
        ensures
            unfinished(self@.file_size, self@.reads) ==> step == (TransferStep::Read {
                len: CHUNK_SIZE as usize,
            }),
            !unfinished(self@.file_size, self@.reads) ==> step == TransferStep::Finish,
    {
        proof {
            use_type_invariant(self);
        }
        if self.counter < self.file_size {
            let len: u64 = if self.counter < CHUNK_SIZE { self.counter } else { CHUNK_SIZE };
            TransferStep::Read { len: len as usize }
        } else {
            TransferStep::Finish
        }
    }

    /// Records that a read returned `bytes_read` bytes, which were sent;
    /// returns how far the progress display moves (one chunk, whatever was read).
    pub fn record_chunk(&mut self, bytes_read: usize) -> (advance: u64)
        requires
            unfinished(old(self)@.file_size, old(self)@.reads),
            bytes_read <= CHUNK_SIZE,
            counter_of(old(self)@.reads) + bytes_read <= u64::MAX,
        ensures
            final(self)@.file_size == old(self)@.file_size,
            final(self)@.reads == old(self)@.reads.push(bytes_read as nat),
            counter_of(final(self)@.reads) == counter_of(old(self)@.reads) + bytes_read,
            valid_run(final(self)@.file_size, final(self)@.reads),
            advance == CHUNK_SIZE,
    {
        proof {
            use_type_invariant(&*self);
        }
        let ghost old_reads = self.reads@;
        let ghost new_reads = old_reads.push(bytes_read as nat);
        proof {
            assert(new_reads.drop_last() =~= old_reads);
            assert forall|i: int| 0 <= i < new_reads.len() implies unfinished(
                self.file_size as nat,
                #[trigger] new_reads.take(i),
            ) && new_reads[i] <= CHUNK_SIZE by {
                if i < old_reads.len() {
                    assert(new_reads.take(i) =~= old_reads.take(i));
                } else {
                    assert(new_reads.take(i) =~= old_reads);
                }
            }
        }
        let counter: u64 = self.counter + bytes_read as u64;
        *self = Transfer { file_size: self.file_size, counter, reads: Ghost(new_reads) };
        CHUNK_SIZE
    }
}

/// The head of the response that carries a download.
pub struct ResponseHead {
    pub content_type: String,
    pub content_length: usize,
}

/// The response head for a file of `file_size` bytes: an octet stream whose
/// announced length is the file size converted to `usize` (cut to the low bits
/// where `usize` is narrower).
pub fn response_head(file_size: u64) -> (h: ResponseHead)
    ensures
        h.content_type@ == "application/octet-stream"@,
        h.content_length == file_size as usize,
        file_size <= usize::MAX ==> h.content_length == file_size,
{
    ResponseHead {
        content_type: String::from_str("application/octet-stream"),
        content_length: #[verifier::truncate] (file_size as usize),
    }
}

/// Law: when the loop has stopped, what was sent falls short of the file: a
/// file of at most one chunk gets nothing, and a larger one gets at least its
/// size less one chunk and less than its whole size.
pub proof fn lemma_finished_delivery(file_size: nat, reads: Seq<nat>)
    requires
        valid_run(file_size, reads),
        !unfinished(file_size, reads),
    ensures
        reads.len() == 0 ==> file_size <= CHUNK_SIZE && total(reads) == 0,
        reads.len() > 0 ==> file_size - CHUNK_SIZE <= total(reads) < file_size,
{
    if reads.len() > 0 {
        let last: int = reads.len() - 1;
        assert(reads.take(last) =~= reads.drop_last());
        assert(unfinished(file_size, reads.take(last)));
    }
}

/// Law: while the loop goes on, every chunk it has read was read while it was
/// unfinished, so the counter never passes the file size by more than a chunk.
pub proof fn lemma_counter_bound(file_size: nat, reads: Seq<nat>)
    requires
        valid_run(file_size, reads),
    ensures
        counter_of(reads) < file_size + CHUNK_SIZE || reads.len() == 0,
{
    if reads.len() > 0 {
        let last: int = reads.len() - 1;
        assert(reads.take(last) =~= reads.drop_last());
        assert(unfinished(file_size, reads.take(last)));
    }
}

proof fn lemma_total_of_full_reads(reads: Seq<nat>)
    requires
        forall|i: int| 0 <= i < reads.len() ==> #[trigger] reads[i] == CHUNK_SIZE,
    ensures
        total(reads) == CHUNK_SIZE * reads.len(),
    decreases reads.len(),
{
    if reads.len() > 0 {
        lemma_total_of_full_reads(reads.drop_last());
        assert(reads.last() == CHUNK_SIZE);
    }
}

/// Law: when every read fills its chunk, a file larger than one chunk is
/// read in exactly `(file_size - 1) / 8192` chunks, and a smaller one in none.
pub proof fn lemma_full_reads_count(file_size: nat, reads: Seq<nat>)
    requires
        valid_run(file_size, reads),
        !unfinished(file_size, reads),
        forall|i: int| 0 <= i < reads.len() ==> #[trigger] reads[i] == CHUNK_SIZE,
    ensures
        file_size <= CHUNK_SIZE ==> reads.len() == 0,
        file_size > CHUNK_SIZE ==> reads.len() == (file_size - 1) / (CHUNK_SIZE as int),
{
    lemma_total_of_full_reads(reads);
    lemma_finished_delivery(file_size, reads);
    if file_size <= CHUNK_SIZE {
        if reads.len() > 0 {
            assert(reads.take(0) =~= Seq::<nat>::empty());
            assert(unfinished(file_size, reads.take(0)));
        }
    } else {
        let n: int = reads.len() as int;
        let s: int = file_size as int;
        assert(n > 0);
        assert(s - 8192 <= 8192 * n < s);
        assert(n == (s - 1) / 8192) by (nonlinear_arith)
            requires
                s - 8192 <= 8192 * n,
                8192 * n < s,
        ;
    }
}

} // verus!
