//! Decoding the selector line of a request.
//!
//! A request is one line: the selector, ended by CRLF. The caller reads from
//! the connection and hands each read to a [`SelectorDecoder`], until the
//! decoder says that it has seen the end of the line or of the input. The
//! empty selector asks for the home resource.
//!
//! An input that ends before the line does is a malformed request: no
//! selector comes of it, however much was read.

use vstd::prelude::*;
use crate::bytes::append_bytes;
use crate::error::GopherError;
use crate::error::outcome_view;

verus! {

/// The byte CR, the first of the two that end the selector line.
pub const CR: u8 = 13;

/// The byte LF, the second of the two that end the selector line.
pub const LF: u8 = 10;

/// Whether the last two bytes are CR and LF.
pub open spec fn ends_with_crlf(bytes: Seq<u8>) -> bool {
    &&& bytes.len() >= 2
    &&& bytes[bytes.len() - 2] == CR
    &&& bytes[bytes.len() - 1] == LF
}

/// How far the decoding of a selector line has come.
#[derive(Clone, Copy, Debug, PartialEq, Eq, Structural)]
pub enum DecodeStatus {
    /// The line has not ended yet: another read is wanted.
    Reading,
    /// The bytes read so far end with CRLF: the line is complete.
    Terminated,
    /// The input ended before the line did.
    EndOfInput,
}

/// A decoder as a mathematical value.
pub struct DecoderModel {
    /// The bytes taken in so far.
    pub buffer: Seq<u8>,
    /// How far the decoding has come.
    pub status: DecodeStatus,
}

impl DecoderModel {
    /// The decoder before any read.
    pub open spec fn initial() -> DecoderModel {
        DecoderModel { buffer: Seq::empty(), status: DecodeStatus::Reading }
    }

    /// What holds of every decoder: the line counts as complete exactly when
    /// the bytes taken in end with CRLF.
    pub open spec fn wf(self) -> bool {
        self.status == DecodeStatus::Terminated <==> ends_with_crlf(self.buffer)
    }

    /// The decoder after one more read. An empty read is the end of the
    /// input. Once the line or the input has ended, nothing more is taken in.
    pub open spec fn feed(self, chunk: Seq<u8>) -> DecoderModel {
        if self.status != DecodeStatus::Reading {
            self
        } else if chunk.len() == 0 {
            DecoderModel { status: DecodeStatus::EndOfInput, ..self }
        } else if ends_with_crlf(self.buffer + chunk) {
            DecoderModel { buffer: self.buffer + chunk, status: DecodeStatus::Terminated }
        } else {
            DecoderModel { buffer: self.buffer + chunk, status: DecodeStatus::Reading }
        }
    }

    /// The decoder after the reads of `reads`, in their order.
    pub open spec fn feed_all(self, reads: Seq<Seq<u8>>) -> DecoderModel
        decreases reads.len(),
    {
        if reads.len() == 0 {
            self
        } else {
            self.feed_all(reads.drop_last()).feed(reads.last())
        }
    }

    /// The selector that was decoded: the line without its CRLF if the line
    /// is complete, and no selector if it is not.
    pub open spec fn selector(self) -> Result<Seq<u8>, GopherError> {
        if self.status == DecodeStatus::Terminated {
            Ok(self.buffer.take(self.buffer.len() - 2))
        } else {
            Err(GopherError::MalformedRequest)
        }
    }
}

/// What a sequence of reads decodes to.
pub open spec fn decoded(reads: Seq<Seq<u8>>) -> Result<Seq<u8>, GopherError> {
    DecoderModel::initial().feed_all(reads).selector()
}

/// The views of the reads held in `reads`.
pub open spec fn read_views(reads: Seq<Vec<u8>>) -> Seq<Seq<u8>> {
    Seq::new(reads.len(), |i: int| reads[i]@)
}

/// Takes in the reads of a connection one by one and finds the selector.
#[derive(Clone, Debug, PartialEq, Eq)]
pub struct SelectorDecoder {
    buffer: Vec<u8>,
    ended: bool,
}

impl View for SelectorDecoder {
    type V = DecoderModel;

    closed spec fn view(&self) -> DecoderModel {
        DecoderModel {
            buffer: self.buffer@,
            status: if ends_with_crlf(self.buffer@) {
                DecodeStatus::Terminated
            } else if self.ended {
                DecodeStatus::EndOfInput
            } else {
                DecodeStatus::Reading
            },
        }
    }
}

impl SelectorDecoder {
    /// A decoder that has read nothing.
    pub fn new() -> (decoder: SelectorDecoder)
        ensures
            decoder@ == DecoderModel::initial(),
            decoder@.wf(),
    {
        SelectorDecoder { buffer: Vec::new(), ended: false }
    }

    /// How far the decoding has come.
    pub fn status(&self) -> (status: DecodeStatus)
        ensures
            status == self@.status,
            self@.wf(),
    {
        let len: usize = self.buffer.len();
        if len >= 2 && self.buffer[len - 2] == CR && self.buffer[len - 1] == LF {
            DecodeStatus::Terminated
        } else if self.ended {
            DecodeStatus::EndOfInput
        } else {
            DecodeStatus::Reading
        }
    }

    /// Takes in one read; an empty one stands for the end of the input. Says
    /// how far the decoding has come with it: while that is `Reading`, the
    /// caller reads on.
    pub fn feed(&mut self, chunk: &[u8]) -> (status: DecodeStatus)
        ensures
            final(self)@ == old(self)@.feed(chunk@),
            final(self)@.wf(),
            status == final(self)@.status,
    {
        match self.status() {
            DecodeStatus::Reading => {
                if chunk.len() == 0 {
                    self.ended = true;
                } else {
                    append_bytes(&mut self.buffer, chunk);
                }
            },
            _ => {},
        }
        self.status()
    }

    /// The bytes taken in so far.
    pub fn buffered(&self) -> (bytes: &[u8])
        ensures
            bytes@ == self@.buffer,
    {
        self.buffer.as_slice()
    }

    /// Ends the decoding. Gives the selector, which is the line without its
    /// CRLF, if the line is complete, and `MalformedRequest` if it is not,
    /// be the bytes read fewer than the two of a CRLF or more.
    pub fn finish(self) -> (selector: Result<Vec<u8>, GopherError>)
        ensures
            outcome_view(selector) == self@.selector(),
            selector matches Ok(bytes) ==> bytes@ + seq![CR, LF] == self@.buffer,
            selector is Ok <==> self@.status == DecodeStatus::Terminated,
    {
        match self.status() {
            DecodeStatus::Terminated => {
                let mut line: Vec<u8> = self.buffer;
                let ghost whole = line@;
                let len: usize = line.len();
                line.truncate(len - 2);
                assert(line@ == whole.take(whole.len() - 2));
                assert(line@ + seq![CR, LF] =~= whole);
                Ok(line)
            },
            _ => Err(GopherError::MalformedRequest),
        }
    }
}

/// Decodes the selector from the reads of a connection, taken in their order
/// up to the one that ends the line or the input.
pub fn decode(reads: &[Vec<u8>]) -> (selector: Result<Vec<u8>, GopherError>)
    ensures
        outcome_view(selector) == decoded(read_views(reads@)),
{
    let mut decoder: SelectorDecoder = SelectorDecoder::new();
    let mut i: usize = 0;
    assert(read_views(reads@).take(0) == Seq::<Seq<u8>>::empty());
    while i < reads.len()
        invariant
            i <= reads@.len(),
            decoder@ == DecoderModel::initial().feed_all(read_views(reads@).take(i as int)),
        decreases reads@.len() - i,
    {
        let ghost before = read_views(reads@).take(i as int);
        let ghost after = read_views(reads@).take(i + 1);
        decoder.feed(reads[i].as_slice());
        proof {
            assert(after.drop_last() == before);
            assert(after.last() == reads@[i as int]@);
        }
        i = i + 1;
    }
    assert(read_views(reads@).take(i as int) == read_views(reads@));
    decoder.finish()
}

/// A decoder that has come to an end takes in nothing more.
pub proof fn lemma_reads_after_the_end_are_ignored(
    decoder: DecoderModel,
    reads: Seq<Seq<u8>>,
)
    requires
        decoder.status != DecodeStatus::Reading,
    ensures
        decoder.feed_all(reads) == decoder,
    decreases reads.len(),
{
    if reads.len() > 0 {
        lemma_reads_after_the_end_are_ignored(decoder, reads.drop_last());
    }
}

/// Whatever is read, in whatever pieces, the line counts as complete exactly
/// when the bytes taken in end with CRLF, and a decoded selector followed by
/// CRLF is what was taken in.
pub proof fn lemma_decoder_stays_wf(decoder: DecoderModel, reads: Seq<Seq<u8>>)
    requires
        decoder.wf(),
    ensures
        decoder.feed_all(reads).wf(),
        decoder.feed_all(reads).selector() matches Ok(selector) ==> selector + seq![CR, LF]
            == decoder.feed_all(reads).buffer,
    decreases reads.len(),
{
    if reads.len() > 0 {
        lemma_decoder_stays_wf(decoder, reads.drop_last());
    }
    let end = decoder.feed_all(reads);
    if end.status == DecodeStatus::Terminated {
        assert(end.buffer.take(end.buffer.len() - 2) + seq![CR, LF] =~= end.buffer);
    }
}

/// A request that arrives whole decodes to its selector: the line `selector`
/// CRLF, in one read, gives `selector`. The empty line gives the empty
/// selector, which asks for the home resource.
pub proof fn lemma_whole_line_decodes(selector: Seq<u8>)
    ensures
        decoded(seq![selector + seq![CR, LF]]) == Ok::<Seq<u8>, GopherError>(selector),
{
    let line = selector + seq![CR, LF];
    let reads = seq![line];
    assert(reads.drop_last() == Seq::<Seq<u8>>::empty());
    assert(reads.last() == line);
    let start = DecoderModel::initial();
    assert(start.feed_all(reads.drop_last()) == start);
    assert(start.buffer + line == line);
    assert(ends_with_crlf(line));
    assert(line.take(line.len() - 2) == selector);
}

/// The bytes of the reads, one after another.
pub open spec fn joined(reads: Seq<Seq<u8>>) -> Seq<u8>
    decreases reads.len(),
{
    if reads.len() == 0 {
        Seq::empty()
    } else {
        joined(reads.drop_last()) + reads.last()
    }
}

/// Whether CR stands at `at` and LF behind it.
pub open spec fn crlf_at(bytes: Seq<u8>, at: int) -> bool {
    &&& 0 <= at
    &&& at + 1 < bytes.len()
    &&& bytes[at] == CR
    &&& bytes[at + 1] == LF
}

/// The first reads of a connection hold the first bytes of all its reads, and
/// fewer of them if a read that is not empty is still to come.
pub proof fn lemma_joined_prefix(reads: Seq<Seq<u8>>, k: int)
    requires
        0 <= k <= reads.len(),
    ensures
        joined(reads.take(k)).is_prefix_of(joined(reads)),
        k < reads.len() && (forall|i: int| 0 <= i < reads.len() ==> (#[trigger] reads[i]).len()
            > 0) ==> joined(reads.take(k)).len() < joined(reads).len(),
    decreases reads.len(),
{
    if k == reads.len() {
        assert(reads.take(k) == reads);
    } else {
        let shorter = reads.drop_last();
        assert(reads.take(k) == shorter.take(k));
        lemma_joined_prefix(shorter, k);
        assert(joined(shorter).is_prefix_of(joined(reads)));
        if forall|i: int| 0 <= i < reads.len() ==> (#[trigger] reads[i]).len() > 0 {
            assert(reads.last() == reads[reads.len() - 1]);
            assert forall|i: int| 0 <= i < shorter.len() implies (#[trigger] shorter[i]).len()
                > 0 by {
                assert(shorter[i] == reads[i]);
            }
        }
    }
}

/// No read boundary within a line ends with CRLF if the selector holds none.
proof fn lemma_line_ends_once(selector: Seq<u8>, start: Seq<u8>)
    requires
        forall|i: int| !#[trigger] crlf_at(selector, i),
        start.is_prefix_of(selector + seq![CR, LF]),
        start.len() < selector.len() + 2,
    ensures
        !ends_with_crlf(start),
{
    let line = selector + seq![CR, LF];
    if ends_with_crlf(start) {
        let n = start.len() as int;
        assert(start[n - 2] == line[n - 2]);
        assert(start[n - 1] == line[n - 1]);
        if n - 1 < selector.len() {
            assert(crlf_at(selector, n - 2));
        }
    }
}

/// How far the decoder has come after the first `k` reads of a line that
/// comes in pieces.
proof fn lemma_pieces_so_far(selector: Seq<u8>, reads: Seq<Seq<u8>>, k: int)
    requires
        forall|i: int| !#[trigger] crlf_at(selector, i),
        forall|i: int| 0 <= i < reads.len() ==> (#[trigger] reads[i]).len() > 0,
        joined(reads) == selector + seq![CR, LF],
        0 <= k <= reads.len(),
    ensures
        DecoderModel::initial().feed_all(reads.take(k)).buffer == joined(reads.take(k)),
        k < reads.len() ==> DecoderModel::initial().feed_all(reads.take(k)).status
            == DecodeStatus::Reading,
        k == reads.len() ==> DecoderModel::initial().feed_all(reads.take(k)).status
            == DecodeStatus::Terminated,
    decreases k,
{
    let line = selector + seq![CR, LF];
    if k == 0 {
        assert(reads.take(0) == Seq::<Seq<u8>>::empty());
        if reads.len() == 0 {
            assert(joined(reads).len() == 0);
            assert(line.len() == selector.len() + 2);
        }
    } else {
        lemma_pieces_so_far(selector, reads, k - 1);
        let now = reads.take(k);
        assert(now.drop_last() == reads.take(k - 1));
        assert(now.last() == reads[k - 1]);
        lemma_joined_prefix(reads, k);
        if k < reads.len() {
            lemma_line_ends_once(selector, joined(now));
        } else {
            assert(now == reads);
            assert(ends_with_crlf(line));
        }
    }
}

/// A request may arrive in pieces: however the line `selector` CRLF is cut
/// into reads, none of them empty, it decodes to `selector`, as long as the
/// selector itself holds no CRLF.
pub proof fn lemma_line_in_pieces_decodes(selector: Seq<u8>, reads: Seq<Seq<u8>>)
    requires
        forall|i: int| !#[trigger] crlf_at(selector, i),
        forall|i: int| 0 <= i < reads.len() ==> (#[trigger] reads[i]).len() > 0,
        joined(reads) == selector + seq![CR, LF],
    ensures
        decoded(reads) == Ok::<Seq<u8>, GopherError>(selector),
{
    lemma_pieces_so_far(selector, reads, reads.len() as int);
    assert(reads.take(reads.len() as int) == reads);
    let line = selector + seq![CR, LF];
    assert(line.take(line.len() - 2) == selector);
}

/// An input that ends before the line does gives no selector, whatever was
/// read before, even nothing at all.
pub proof fn lemma_unterminated_input_is_malformed(reads: Seq<Seq<u8>>)
    requires
        DecoderModel::initial().feed_all(reads).status != DecodeStatus::Terminated,
    ensures
        decoded(reads) == Err::<Seq<u8>, GopherError>(GopherError::MalformedRequest),
{
}

} // verus!
