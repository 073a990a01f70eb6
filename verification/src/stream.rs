//! Objects cut into the pieces of a stream, and put together again.
use crate::messages::{
    DataChunk, DataChunkView, DescriptorDataChunk, DescriptorDataChunkView, ObjectDescriptor,
    ObjectDescriptorView, PlacementChunk, PlacementChunkView, PlacementDescriptor,
    PlacementDescriptorView,
};
use crate::payload::{
    bytes_of, bytes_of_each, bytes_slice, joined, joined_add, joined_prefix_len,
};
use crate::stripes::{
    lemma_stripe_count, lemma_stripes_join, stripe_bytes, stripe_count, stripes,
    stripes_hold_the_object,
};
use prost::bytes::Bytes;
use vstd::prelude::*;

verus! {

/// The size of a piece of a stream. Only the last piece of a segment may be smaller.
pub const SUB_CHUNK: usize = 4 * 1024 * 1024;

/// One piece of a stream: its bytes, and where they begin.
pub struct Piece {
    pub data: Bytes,
    pub offset: i64,
}

/// The mathematical content of a [`Piece`].
#[verifier::ext_equal]
pub struct PieceView {
    pub data: Seq<u8>,
    pub offset: int,
}

impl DeepView for Piece {
    type V = PieceView;

    open spec fn deep_view(&self) -> PieceView {
        PieceView { data: bytes_of(self.data), offset: self.offset as int }
    }
}

/// The number of pieces of a segment of `len` bytes: a segment is cut like an object into
/// stripes.
pub open spec fn piece_count(len: nat) -> nat {
    stripe_count(len, SUB_CHUNK as nat)
}

/// Piece `i` of a segment that begins at `base`.
pub open spec fn piece_of(segment: Seq<u8>, base: int, i: int) -> PieceView {
    PieceView { data: stripe_bytes(segment, SUB_CHUNK as nat, i), offset: base + i * SUB_CHUNK }
}

/// The pieces of a segment that begins at `base`.
pub open spec fn segment_pieces(segment: Seq<u8>, base: int) -> Seq<PieceView> {
    Seq::new(piece_count(segment.len()), |i: int| piece_of(segment, base, i))
}

/// The pieces of several segments, one behind the other.
pub open spec fn stream_pieces(segments: Seq<Seq<u8>>) -> Seq<PieceView>
    decreases segments.len(),
{
    if segments.len() == 0 {
        seq![]
    } else {
        stream_pieces(segments.drop_last()) + segment_pieces(
            segments.last(),
            joined(segments.drop_last()).len() as int,
        )
    }
}

/// The bytes of each of several pieces.
pub open spec fn piece_bytes(pieces: Seq<PieceView>) -> Seq<Seq<u8>> {
    Seq::new(pieces.len(), |i: int| pieces[i].data)
}

/// Whether the offsets of the pieces of a segment of `len` bytes that begins at `base` can be
/// counted in 64 bits.
pub open spec fn piece_offsets_fit(base: int, len: nat) -> bool {
    len == 0 || {
        let last = (piece_count(len) - 1) * SUB_CHUNK;
        last <= i64::MAX && base + last <= i64::MAX
    }
}

/// All pieces but the last are full, and the last one is not empty.
proof fn lemma_piece_count(len: nat)
    ensures
        len == 0 <==> piece_count(len) == 0,
        len <= piece_count(len) * SUB_CHUNK,
        len > 0 ==> (piece_count(len) - 1) * SUB_CHUNK < len,
{
    lemma_stripe_count(len, SUB_CHUNK as nat);
}

fn push_pieces(out: &mut Vec<Piece>, segment: &Bytes, base: i64)
    requires
        piece_offsets_fit(base as int, bytes_of(*segment).len()),
    ensures
        final(out).deep_view() == old(out).deep_view() + segment_pieces(
            bytes_of(*segment),
            base as int,
        ),
{
    let ghost before = out.deep_view();
    let ghost bytes = bytes_of(*segment);
    let len: usize = segment.len();
    let ghost count = piece_count(len as nat);
    let mut start: usize = 0;
    let ghost mut i: int = 0;
    proof {
        lemma_piece_count(len as nat);
    }
    assert(out.deep_view() =~= before + segment_pieces(bytes, base as int).take(0));
    while start < len
        invariant
            bytes == bytes_of(*segment),
            len == bytes.len(),
            count == piece_count(len as nat),
            piece_offsets_fit(base as int, len as nat),
            0 <= i <= count,
            i < count ==> start == i * SUB_CHUNK && start < len,
            i == count ==> start == len,
            out.deep_view() == before + segment_pieces(bytes, base as int).take(i),
        decreases len - start,
    {
        let end: usize = if len - start > SUB_CHUNK {
            start + SUB_CHUNK
        } else {
            len
        };
        let ghost pieces = segment_pieces(bytes, base as int);
        proof {
            lemma_piece_count(len as nat);
            let last = count - 1;
            assert(i * SUB_CHUNK <= last * SUB_CHUNK) by (nonlinear_arith)
                requires
                    i <= last,
            ;
            assert((i + 1) * SUB_CHUNK == i * SUB_CHUNK + SUB_CHUNK) by (nonlinear_arith);
            if i + 1 < count {
                let next = i + 1;
                assert(next * SUB_CHUNK <= last * SUB_CHUNK) by (nonlinear_arith)
                    requires
                        next <= last,
                ;
            }
        }
        let ghost prev = out.deep_view();
        let piece = Piece { data: bytes_slice(segment, start, end), offset: base + start as i64 };
        assert(piece.deep_view() == pieces[i]);
        out.push(piece);
        proof {
            assert(out.deep_view() =~= prev.push(pieces[i]));
            assert(pieces.take(i + 1) =~= pieces.take(i).push(pieces[i]));
            assert(out.deep_view() =~= before + pieces.take(i + 1));
            i = i + 1;
        }
        start = end;
    }
    assert(segment_pieces(bytes, base as int).take(i) =~= segment_pieces(bytes, base as int));
}

/// Whether the offsets of the pieces of several segments can be counted in 64 bits.
pub open spec fn stream_fits(segments: Seq<Seq<u8>>) -> bool {
    joined(segments).len() <= i64::MAX
}

/// Cuts several segments into pieces.
pub fn split_segments(segments: &Vec<Bytes>) -> (r: Vec<Piece>)
    requires
        stream_fits(bytes_of_each(segments@)),
    ensures
        r.deep_view() == stream_pieces(bytes_of_each(segments@)),
{
    let ghost parts = bytes_of_each(segments@);
    let mut pieces: Vec<Piece> = Vec::new();
    let mut running: i64 = 0;
    let mut i: usize = 0;
    assert(pieces.deep_view() =~= stream_pieces(parts.take(0)));
    while i < segments.len()
        invariant
            i <= segments.len(),
            parts == bytes_of_each(segments@),
            stream_fits(parts),
            running == joined(parts.take(i as int)).len(),
            pieces.deep_view() == stream_pieces(parts.take(i as int)),
        decreases segments.len() - i,
    {
        proof {
            joined_prefix_len(parts, i as int);
            joined_prefix_len(parts, i + 1);
            lemma_piece_count(parts[i as int].len());
            assert(parts.take(i + 1).drop_last() =~= parts.take(i as int));
        }
        push_pieces(&mut pieces, &segments[i], running);
        running = running + segments[i].len() as i64;
        i = i + 1;
    }
    assert(parts.take(i as int) =~= parts);
    pieces
}

/// The messages that carry the pieces of a stream of `total` bytes. The last one says so.
pub open spec fn data_chunks(pieces: Seq<PieceView>, total: i64) -> Seq<DataChunkView> {
    Seq::new(
        pieces.len(),
        |i: int|
            DataChunkView {
                data: pieces[i].data,
                offset: pieces[i].offset as i64,
                total_size: total,
                is_last: i == pieces.len() - 1,
            },
    )
}

/// Puts the pieces of a stream of `total` bytes into messages.
pub fn chunks_of_pieces(pieces: Vec<Piece>, total: i64) -> (r: Vec<DataChunk>)
    ensures
        r.deep_view() == data_chunks(pieces.deep_view(), total),
{
    let ghost views = pieces.deep_view();
    let n: usize = pieces.len();
    let mut chunks: Vec<DataChunk> = Vec::new();
    for piece in iter: pieces
        invariant
            n == pieces.len(),
            n == iter.seq().len(),
            iter.seq() == pieces@,
            views == pieces.deep_view(),
            chunks.len() == iter.index(),
            forall|j: int|
                0 <= j < chunks.len() ==> (#[trigger] chunks@[j]).deep_view() == data_chunks(
                    views,
                    total,
                )[j],
    {
        let is_last = chunks.len() == n - 1;
        chunks.push(DataChunk { data: piece.data, offset: piece.offset, total_size: total, is_last });
    }
    chunks
}

/// The messages in which the segments of an object are streamed.
pub open spec fn data_stream(segments: Seq<Seq<u8>>) -> Seq<DataChunkView> {
    data_chunks(stream_pieces(segments), joined(segments).len() as i64)
}

fn stream_total(segments: &Vec<Bytes>) -> (total: i64)
    requires
        stream_fits(bytes_of_each(segments@)),
    ensures
        total == joined(bytes_of_each(segments@)).len(),
{
    let ghost parts = bytes_of_each(segments@);
    let mut total: i64 = 0;
    let mut i: usize = 0;
    while i < segments.len()
        invariant
            i <= segments.len(),
            parts == bytes_of_each(segments@),
            stream_fits(parts),
            total == joined(parts.take(i as int)).len(),
        decreases segments.len() - i,
    {
        proof {
            joined_prefix_len(parts, i as int);
            joined_prefix_len(parts, i + 1);
        }
        total = total + segments[i].len() as i64;
        i = i + 1;
    }
    assert(parts.take(i as int) =~= parts);
    total
}

/// Puts the segments of an object into the messages of a stream.
pub fn stream_object(segments: &Vec<Bytes>) -> (r: Vec<DataChunk>)
    requires
        stream_fits(bytes_of_each(segments@)),
    ensures
        r.deep_view() == data_stream(bytes_of_each(segments@)),
{
    let total: i64 = stream_total(segments);
    chunks_of_pieces(split_segments(segments), total)
}

/// The messages in which a stripe is streamed. They count from the stripe's offset in its
/// object, and give the stripe's length.
pub open spec fn stripe_stream(data: Seq<u8>, chunk: PlacementChunkView) -> Seq<DataChunkView> {
    data_chunks(segment_pieces(data, (chunk.offset as i64) as int), chunk.length as i64)
}

/// Puts a stripe into the messages of a stream.
pub fn stream_stripe(data: &Bytes, chunk: &PlacementChunk) -> (r: Vec<DataChunk>)
    requires
        piece_offsets_fit((chunk.offset as i64) as int, bytes_of(*data).len()),
    ensures
        r.deep_view() == stripe_stream(bytes_of(*data), chunk.deep_view()),
{
    let mut pieces: Vec<Piece> = Vec::new();
    push_pieces(&mut pieces, data, chunk.offset as i64);
    assert(pieces.deep_view() =~= segment_pieces(bytes_of(*data), (chunk.offset as i64) as int));
    chunks_of_pieces(pieces, chunk.length as i64)
}

/// Tells whether the offsets of the pieces of a stripe can be counted in 64 bits.
pub fn stripe_offsets_fit(data: &Bytes, chunk: &PlacementChunk) -> (r: bool)
    ensures
        r == piece_offsets_fit((chunk.offset as i64) as int, bytes_of(*data).len()),
{
    let len: usize = data.len();
    if len == 0 {
        return true;
    }
    proof {
        lemma_piece_count(len as nat);
        let count = piece_count(len as nat);
        let d = SUB_CHUNK as int;
        assert((count - 1) * d == d * (count - 1)) by (nonlinear_arith);
        assert(d * count == count * d) by (nonlinear_arith);
        assert((count - 1) * d == count * d - d) by (nonlinear_arith);
        vstd::arithmetic::div_mod::lemma_fundamental_div_mod_converse(
            len - 1,
            d,
            count - 1,
            len - 1 - d * (count - 1),
        );
    }
    let last: usize = (len - 1) - (len - 1) % SUB_CHUNK;
    last as u64 <= i64::MAX as u64 && (chunk.offset as i64).checked_add(last as i64).is_some()
}

/// The messages in which the segments of an object are streamed by descriptor. The first one
/// carries the descriptor and the placement.
pub open spec fn descriptor_stream(
    segments: Seq<Seq<u8>>,
    descriptor: ObjectDescriptorView,
    placement: PlacementDescriptorView,
) -> Seq<DescriptorDataChunkView> {
    let chunks = data_stream(segments);
    Seq::new(
        chunks.len(),
        |i: int|
            DescriptorDataChunkView {
                data: chunks[i].data,
                offset: chunks[i].offset,
                total_size: chunks[i].total_size,
                is_last: chunks[i].is_last,
                descriptor: if i == 0 {
                    Some(descriptor)
                } else {
                    None
                },
                placement: if i == 0 {
                    Some(placement)
                } else {
                    None
                },
            },
    )
}

/// Puts the segments of an object into the messages of a stream by descriptor.
pub fn stream_object_by_descriptor(
    segments: &Vec<Bytes>,
    descriptor: &ObjectDescriptor,
    placement: &PlacementDescriptor,
) -> (r: Vec<DescriptorDataChunk>)
    requires
        stream_fits(bytes_of_each(segments@)),
    ensures
        r.deep_view() == descriptor_stream(
            bytes_of_each(segments@),
            descriptor.deep_view(),
            placement.deep_view(),
        ),
{
    let chunks = stream_object(segments);
    let ghost plain = chunks.deep_view();
    let ghost expected = descriptor_stream(
        bytes_of_each(segments@),
        descriptor.deep_view(),
        placement.deep_view(),
    );
    let mut out: Vec<DescriptorDataChunk> = Vec::new();
    for chunk in iter: chunks
        invariant
            iter.seq() == chunks@,
            plain == chunks.deep_view(),
            plain == data_stream(bytes_of_each(segments@)),
            expected == descriptor_stream(
                bytes_of_each(segments@),
                descriptor.deep_view(),
                placement.deep_view(),
            ),
            out.len() == iter.index(),
            forall|j: int|
                0 <= j < out.len() ==> (#[trigger] out@[j]).deep_view() == expected[j],
    {
        let first = out.is_empty();
        assert(plain[out.len() as int] == chunk.deep_view());
        out.push(
            DescriptorDataChunk {
                data: chunk.data,
                offset: chunk.offset,
                total_size: chunk.total_size,
                is_last: chunk.is_last,
                descriptor: if first {
                    Some(descriptor.clone())
                } else {
                    None
                },
                placement: if first {
                    Some(placement.clone())
                } else {
                    None
                },
            },
        );
    }
    out
}

/// The pieces of a stripe that have arrived so far.
pub struct StripeReader {
    pub parts: Vec<Bytes>,
    pub finished: bool,
}

/// The mathematical content of a [`StripeReader`].
#[verifier::ext_equal]
pub struct StripeReaderView {
    pub parts: Seq<Seq<u8>>,
    pub finished: bool,
}

impl DeepView for StripeReader {
    type V = StripeReaderView;

    open spec fn deep_view(&self) -> StripeReaderView {
        StripeReaderView { parts: bytes_of_each(self.parts@), finished: self.finished }
    }
}

/// A reader before anything has arrived.
pub open spec fn empty_reader() -> StripeReaderView {
    StripeReaderView { parts: seq![], finished: false }
}

/// A reader after `chunk` has arrived. Nothing counts after the last piece.
pub open spec fn after_piece(reader: StripeReaderView, chunk: DataChunkView) -> StripeReaderView {
    if reader.finished {
        reader
    } else {
        StripeReaderView { parts: reader.parts.push(chunk.data), finished: chunk.is_last }
    }
}

/// A reader after all of `chunks` have arrived.
pub open spec fn after_pieces(chunks: Seq<DataChunkView>) -> StripeReaderView
    decreases chunks.len(),
{
    if chunks.len() == 0 {
        empty_reader()
    } else {
        after_piece(after_pieces(chunks.drop_last()), chunks.last())
    }
}

impl StripeReader {
    /// A reader before anything has arrived.
    pub fn new() -> (r: Self)
        ensures
            r.deep_view() == empty_reader(),
    {
        let r = StripeReader { parts: Vec::new(), finished: false };
        assert(r.deep_view() =~= empty_reader());
        r
    }

    /// Takes the next piece in, and tells whether another one is expected.
    pub fn accept(&mut self, chunk: DataChunk) -> (more: bool)
        ensures
            final(self).deep_view() == after_piece(old(self).deep_view(), chunk.deep_view()),
            more == !final(self).finished,
    {
        if !self.finished {
            let ghost before = self.deep_view();
            self.finished = chunk.is_last;
            self.parts.push(chunk.data);
            assert(self.deep_view() =~= after_piece(before, chunk.deep_view()));
        }
        !self.finished
    }
}

proof fn lemma_segment_pieces_join(segment: Seq<u8>, base: int, n: int)
    requires
        0 <= n <= piece_count(segment.len()),
    ensures
        joined(piece_bytes(segment_pieces(segment, base).take(n))) == segment.take(
            if n * SUB_CHUNK < segment.len() {
                n * SUB_CHUNK
            } else {
                segment.len() as int
            },
        ),
{
    assert(piece_bytes(segment_pieces(segment, base).take(n)) =~= stripes(
        segment,
        SUB_CHUNK as nat,
    ).take(n));
    lemma_stripes_join(segment, SUB_CHUNK as nat, n);
}

/// The pieces of a segment hold exactly the bytes of the segment, in order.
pub proof fn segment_pieces_hold_the_segment(segment: Seq<u8>, base: int)
    ensures
        joined(piece_bytes(segment_pieces(segment, base))) == segment,
{
    assert(piece_bytes(segment_pieces(segment, base)) =~= stripes(segment, SUB_CHUNK as nat));
    stripes_hold_the_object(segment, SUB_CHUNK as nat);
}

/// The pieces of a stream hold exactly the bytes of the segments, in order.
pub proof fn stream_holds_the_object(segments: Seq<Seq<u8>>)
    ensures
        joined(piece_bytes(stream_pieces(segments))) == joined(segments),
    decreases segments.len(),
{
    if segments.len() == 0 {
        assert(piece_bytes(stream_pieces(segments)) =~= seq![]);
    } else {
        let before = segments.drop_last();
        let base = joined(before).len() as int;
        let head = stream_pieces(before);
        let tail = segment_pieces(segments.last(), base);
        stream_holds_the_object(before);
        segment_pieces_hold_the_segment(segments.last(), base);
        assert(piece_bytes(head + tail) =~= piece_bytes(head) + piece_bytes(tail));
        joined_add(piece_bytes(head), piece_bytes(tail));
    }
}

/// Each piece of a stream begins where the pieces before it end, holds at least one byte, and
/// no more than a piece may hold.
pub proof fn stream_pieces_are_contiguous(segments: Seq<Seq<u8>>, i: int)
    requires
        0 <= i < stream_pieces(segments).len(),
    ensures
        ({
            let pieces = stream_pieces(segments);
            &&& pieces[i].offset == joined(piece_bytes(pieces.take(i))).len()
            &&& 0 < pieces[i].data.len() <= SUB_CHUNK
        }),
    decreases segments.len(),
{
    let pieces = stream_pieces(segments);
    let before = segments.drop_last();
    let segment = segments.last();
    let base = joined(before).len() as int;
    let head = stream_pieces(before);
    let tail = segment_pieces(segment, base);
    if i < head.len() {
        stream_pieces_are_contiguous(before, i);
        assert(pieces.take(i) =~= head.take(i));
    } else {
        let j = i - head.len();
        let count = piece_count(segment.len());
        lemma_piece_count(segment.len());
        lemma_segment_pieces_join(segment, base, j);
        stream_holds_the_object(before);
        assert(pieces.take(i) =~= head + tail.take(j));
        assert(piece_bytes(head + tail.take(j)) =~= piece_bytes(head) + piece_bytes(tail.take(j)));
        joined_add(piece_bytes(head), piece_bytes(tail.take(j)));
        let start = j * SUB_CHUNK;
        let top = (count - 1) * SUB_CHUNK;
        assert(0 <= start <= top) by (nonlinear_arith)
            requires
                0 <= j <= count - 1,
                start == j * SUB_CHUNK,
                top == (count - 1) * SUB_CHUNK,
        ;
    }
}

proof fn lemma_reader_collects(pieces: Seq<PieceView>, total: i64, n: int)
    requires
        0 <= n <= pieces.len(),
    ensures
        ({
            let reader = after_pieces(data_chunks(pieces, total).take(n));
            &&& reader.parts == piece_bytes(pieces.take(n))
            &&& reader.finished == (0 < n && n == pieces.len())
        }),
    decreases n,
{
    let chunks = data_chunks(pieces, total);
    if n == 0 {
        assert(chunks.take(0) =~= seq![]);
        assert(piece_bytes(pieces.take(0)) =~= seq![]);
    } else {
        lemma_reader_collects(pieces, total, n - 1);
        assert(chunks.take(n).drop_last() =~= chunks.take(n - 1));
        assert(piece_bytes(pieces.take(n)) =~= piece_bytes(pieces.take(n - 1)).push(
            pieces[n - 1].data,
        ));
    }
}

/// A reader that takes in the messages of a streamed stripe ends up with exactly the bytes of
/// the stripe, and knows that it is done, unless the stripe is empty and there are no messages.
pub proof fn streamed_stripe_is_read_back(data: Seq<u8>, chunk: PlacementChunkView)
    ensures
        ({
            let reader = after_pieces(stripe_stream(data, chunk));
            &&& joined(reader.parts) == data
            &&& reader.finished == (data.len() > 0)
        }),
{
    let base = (chunk.offset as i64) as int;
    let pieces = segment_pieces(data, base);
    let n = pieces.len() as int;
    lemma_piece_count(data.len());
    lemma_reader_collects(pieces, chunk.length as i64, n);
    assert(stripe_stream(data, chunk).take(n) =~= stripe_stream(data, chunk));
    assert(pieces.take(n) =~= pieces);
    segment_pieces_hold_the_segment(data, base);
}

/// A reader that takes in the messages of a streamed object ends up with exactly the bytes of
/// the object.
pub proof fn streamed_object_is_read_back(segments: Seq<Seq<u8>>)
    ensures
        joined(after_pieces(data_stream(segments)).parts) == joined(segments),
{
    let pieces = stream_pieces(segments);
    let n = pieces.len() as int;
    lemma_reader_collects(pieces, joined(segments).len() as i64, n);
    assert(data_stream(segments).take(n) =~= data_stream(segments));
    assert(pieces.take(n) =~= pieces);
    stream_holds_the_object(segments);
}

/// Of the messages of a streamed object, exactly the last one says that it is the last, each
/// one gives the size of the whole object, and, where the stream is by descriptor, exactly the
/// first one carries the descriptor and the placement.
pub proof fn stream_marks_its_ends(
    segments: Seq<Seq<u8>>,
    descriptor: ObjectDescriptorView,
    placement: PlacementDescriptorView,
    i: int,
)
    requires
        stream_fits(segments),
        0 <= i < data_stream(segments).len(),
    ensures
        ({
            let plain = data_stream(segments);
            let described = descriptor_stream(segments, descriptor, placement);
            &&& described.len() == plain.len()
            &&& plain[i].is_last <==> i == plain.len() - 1
            &&& described[i].is_last <==> i == plain.len() - 1
            &&& plain[i].total_size == joined(segments).len()
            &&& described[i].data == plain[i].data
            &&& described[i].offset == plain[i].offset
            &&& described[i].total_size == joined(segments).len()
            &&& described[i].descriptor is Some <==> i == 0
            &&& described[i].placement is Some <==> i == 0
            &&& i == 0 ==> described[i].descriptor == Some(descriptor)
            &&& i == 0 ==> described[i].placement == Some(placement)
        }),
{
}

/// The bytes of each of several messages of a stream.
pub open spec fn message_bytes(messages: Seq<DataChunkView>) -> Seq<Seq<u8>> {
    Seq::new(messages.len(), |i: int| messages[i].data)
}

/// The messages of a streamed object carry its bytes in order: each one begins where the ones
/// before it end, is not empty and holds at most a piece, and all together hold the object.
pub proof fn stream_messages_are_contiguous(segments: Seq<Seq<u8>>, i: int)
    requires
        stream_fits(segments),
        0 <= i < data_stream(segments).len(),
    ensures
        ({
            let messages = data_stream(segments);
            &&& messages[i].offset == joined(message_bytes(messages.take(i))).len()
            &&& 0 < messages[i].data.len() <= SUB_CHUNK
            &&& joined(message_bytes(messages)) == joined(segments)
        }),
{
    let messages = data_stream(segments);
    let pieces = stream_pieces(segments);
    stream_pieces_are_contiguous(segments, i);
    stream_holds_the_object(segments);
    assert(message_bytes(messages) =~= piece_bytes(pieces));
    assert(message_bytes(messages.take(i)) =~= piece_bytes(pieces.take(i)));
    assert(piece_bytes(pieces.take(i)) =~= piece_bytes(pieces).take(i));
    joined_prefix_len(piece_bytes(pieces), i);
}

/// The messages of a streamed stripe carry its bytes in order, count from the stripe's offset in
/// its object, give the stripe's length, and exactly the last one says that it is the last.
pub proof fn stripe_messages_are_contiguous(data: Seq<u8>, chunk: PlacementChunkView, i: int)
    requires
        piece_offsets_fit((chunk.offset as i64) as int, data.len()),
        0 <= i < stripe_stream(data, chunk).len(),
    ensures
        ({
            let messages = stripe_stream(data, chunk);
            &&& messages[i].offset == chunk.offset as i64 + joined(
                message_bytes(messages.take(i)),
            ).len()
            &&& messages[i].total_size == chunk.length as i64
            &&& messages[i].is_last <==> i == messages.len() - 1
            &&& 0 < messages[i].data.len() <= SUB_CHUNK
            &&& joined(message_bytes(messages)) == data
        }),
{
    let base = (chunk.offset as i64) as int;
    let messages = stripe_stream(data, chunk);
    let pieces = segment_pieces(data, base);
    let count = piece_count(data.len());
    lemma_piece_count(data.len());
    lemma_segment_pieces_join(data, base, i);
    segment_pieces_hold_the_segment(data, base);
    assert(message_bytes(messages) =~= piece_bytes(pieces));
    assert(message_bytes(messages.take(i)) =~= piece_bytes(pieces.take(i)));
    let start = i * SUB_CHUNK;
    let top = (count - 1) * SUB_CHUNK;
    assert(0 <= start <= top) by (nonlinear_arith)
        requires
            0 <= i <= count - 1,
            start == i * SUB_CHUNK,
            top == (count - 1) * SUB_CHUNK,
    ;
}

/// The offsets of the pieces of a segment can be counted exactly where that of the last piece
/// can.
pub proof fn last_piece_has_the_largest_offset(base: int, len: nat, i: int)
    requires
        0 <= base,
        0 <= i < piece_count(len),
    ensures
        piece_offsets_fit(base, len) ==> base + i * SUB_CHUNK <= i64::MAX,
        !piece_offsets_fit(base, len) ==> base + (piece_count(len) - 1) * SUB_CHUNK > i64::MAX,
{
    lemma_piece_count(len);
    let last = piece_count(len) - 1;
    assert(i * SUB_CHUNK <= last * SUB_CHUNK) by (nonlinear_arith)
        requires
            0 <= i <= last,
    ;
}

/// A segment is cut as coarsely as it may be: every piece but its last one is full.
pub proof fn pieces_are_full_but_the_last(segment: Seq<u8>, base: int, i: int)
    requires
        0 <= i < segment_pieces(segment, base).len() - 1,
    ensures
        segment_pieces(segment, base)[i].data.len() == 4 * 1024 * 1024,
{
    let count = piece_count(segment.len());
    lemma_piece_count(segment.len());
    let start = i * SUB_CHUNK;
    let top = (count - 1) * SUB_CHUNK;
    assert(0 <= start && start + SUB_CHUNK <= top) by (nonlinear_arith)
        requires
            0 <= i,
            i + 1 <= count - 1,
            start == i * SUB_CHUNK,
            top == (count - 1) * SUB_CHUNK,
    ;
}

/// The pieces of a stream never reach over the end of a segment: one segment more adds its own
/// pieces at the end, counted from where the segments before it end.
pub proof fn segments_are_cut_one_by_one(segments: Seq<Seq<u8>>, segment: Seq<u8>)
    ensures
        stream_pieces(segments.push(segment)) == stream_pieces(segments) + segment_pieces(
            segment,
            joined(segments).len() as int,
        ),
{
    assert(segments.push(segment).drop_last() =~= segments);
}

/// A reader of a stripe stops at the first piece that says it is the last: all pieces up to it
/// count, and none behind it. Where none says so, all pieces count.
pub proof fn readers_stop_at_the_last_piece(chunks: Seq<DataChunkView>, n: nat)
    requires
        n <= chunks.len(),
        forall|i: int| 0 <= i < n ==> !(#[trigger] chunks[i]).is_last,
        n < chunks.len() ==> chunks[n as int].is_last,
    ensures
        after_pieces(chunks).finished == (n < chunks.len()),
        after_pieces(chunks).parts == message_bytes(
            if n < chunks.len() {
                chunks.take(n as int + 1)
            } else {
                chunks
            },
        ),
    decreases chunks.len(),
{
    if chunks.len() > 0 {
        let before = chunks.drop_last();
        if n == chunks.len() {
            readers_stop_at_the_last_piece(before, (n - 1) as nat);
            assert(message_bytes(before).push(chunks.last().data) =~= message_bytes(chunks));
        } else {
            readers_stop_at_the_last_piece(before, n);
            if n == chunks.len() - 1 {
                assert(message_bytes(before).push(chunks.last().data) =~= message_bytes(
                    chunks.take(n as int + 1),
                ));
            } else {
                assert(before.take(n as int + 1) =~= chunks.take(n as int + 1));
            }
        }
    } else {
        assert(after_pieces(chunks).parts =~= message_bytes(chunks));
    }
}

} // verus!
