//! The bytes of objects, in reference-counted buffers.
use prost::bytes::{Bytes, BytesMut};
use vstd::prelude::*;

verus! {

/// `prost::bytes::Bytes`: a view of some bytes that cannot change.
#[verifier::external_type_specification]
#[verifier::external_body]
pub struct ExBytes(prost::bytes::Bytes);

/// `prost::bytes::BytesMut`: a buffer that grows.
#[verifier::external_type_specification]
#[verifier::external_body]
pub struct ExBytesMut(prost::bytes::BytesMut);

/// The bytes that a `Bytes` holds.
pub uninterp spec fn bytes_of(b: Bytes) -> Seq<u8>;

/// The bytes that a `BytesMut` holds.
pub uninterp spec fn buffer_of(b: BytesMut) -> Seq<u8>;

/// `Bytes::len` is the number of bytes.
pub assume_specification[ Bytes::len ](b: &Bytes) -> (n: usize)
    ensures
        n == bytes_of(*b).len(),
;

/// `Bytes::new` holds no bytes.
pub assume_specification[ Bytes::new ]() -> (b: Bytes)
    ensures
        bytes_of(b) == Seq::<u8>::empty(),
;

/// `Bytes::slice` on the range from `start` to `end`: it holds the bytes of that range. It
/// panics on a range that is not inside the buffer.
#[verifier::external_body]
pub(crate) fn bytes_slice(b: &Bytes, start: usize, end: usize) -> (r: Bytes)
    requires
        start <= end <= bytes_of(*b).len(),
    ensures
        bytes_of(r) == bytes_of(*b).subrange(start as int, end as int),
{
    b.slice(start..end)
}

/// `BytesMut::with_capacity` holds no bytes. It panics where the capacity is more than a
/// vector can have.
pub assume_specification[ BytesMut::with_capacity ](capacity: usize) -> (b: BytesMut)
    requires
        capacity <= isize::MAX,
    ensures
        buffer_of(b) == Seq::<u8>::empty(),
;

/// `BytesMut::extend_from_slice` on the bytes of `b`: it puts them behind those that are there.
/// It panics where the buffer would be larger than a vector can be.
#[verifier::external_body]
fn buffer_extend(buf: &mut BytesMut, b: &Bytes)
    requires
        buffer_of(*old(buf)).len() + bytes_of(*b).len() <= isize::MAX,
    ensures
        buffer_of(*final(buf)) == buffer_of(*old(buf)) + bytes_of(*b),
{
    buf.extend_from_slice(b)
}

/// `BytesMut::freeze` holds the bytes of the buffer.
pub assume_specification[ BytesMut::freeze ](b: BytesMut) -> (r: Bytes)
    ensures
        bytes_of(r) == buffer_of(b),
;

/// The bytes of each of several buffers.
pub open spec fn bytes_of_each(segments: Seq<Bytes>) -> Seq<Seq<u8>> {
    Seq::new(segments.len(), |i: int| bytes_of(segments[i]))
}

/// Several byte strings, one behind the other.
pub open spec fn joined(parts: Seq<Seq<u8>>) -> Seq<u8>
    decreases parts.len(),
{
    if parts.len() == 0 {
        seq![]
    } else {
        joined(parts.drop_last()) + parts.last()
    }
}

/// The parts of a list of parts and one more are joined by joining the list and appending it.
pub proof fn joined_push(parts: Seq<Seq<u8>>, part: Seq<u8>)
    ensures
        joined(parts.push(part)) == joined(parts) + part,
{
    assert(parts.push(part).drop_last() =~= parts);
}

/// Two lists of parts are joined by joining each.
pub proof fn joined_add(a: Seq<Seq<u8>>, b: Seq<Seq<u8>>)
    ensures
        joined(a + b) == joined(a) + joined(b),
    decreases b.len(),
{
    if b.len() == 0 {
        assert(a + b =~= a);
        assert(joined(a) + joined(b) =~= joined(a));
    } else {
        joined_add(a, b.drop_last());
        assert((a + b).drop_last() =~= a + b.drop_last());
        assert(joined(a + b) =~= joined(a) + joined(b));
    }
}

/// A part of a joined byte string is no longer than the whole.
pub proof fn joined_prefix_len(parts: Seq<Seq<u8>>, n: int)
    requires
        0 <= n <= parts.len(),
    ensures
        joined(parts.take(n)).len() <= joined(parts).len(),
        n < parts.len() ==> joined(parts.take(n + 1)) == joined(parts.take(n)) + parts[n],
    decreases parts.len(),
{
    if n < parts.len() {
        assert(parts.take(n + 1).drop_last() =~= parts.take(n));
        joined_prefix_len(parts.drop_last(), n);
        assert(parts.drop_last().take(n) =~= parts.take(n));
    } else {
        assert(parts.take(n) =~= parts);
    }
}

/// Whether the joined bytes of several buffers fit into one buffer.
pub open spec fn fit_one_buffer(segments: Seq<Bytes>) -> bool {
    joined(bytes_of_each(segments)).len() <= isize::MAX
}

/// Counts the bytes of several buffers, where the machine can count them.
pub fn total_len(segments: &Vec<Bytes>) -> (r: Option<usize>)
    ensures
        match r {
            Some(n) => n == joined(bytes_of_each(segments@)).len(),
            None => joined(bytes_of_each(segments@)).len() > usize::MAX,
        },
{
    let ghost parts = bytes_of_each(segments@);
    let mut total: usize = 0;
    let mut i: usize = 0;
    while i < segments.len()
        invariant
            i <= segments.len(),
            parts == bytes_of_each(segments@),
            total == joined(parts.take(i as int)).len(),
        decreases segments.len() - i,
    {
        proof {
            joined_prefix_len(parts, i as int);
            joined_prefix_len(parts, i + 1);
        }
        match total.checked_add(segments[i].len()) {
            Some(sum) => {
                total = sum;
            },
            None => {
                return None;
            },
        }
        i = i + 1;
    }
    assert(parts.take(i as int) =~= parts);
    Some(total)
}

/// Joins several buffers into one. A single buffer is handed back as it is.
pub fn flatten_segments(segments: Vec<Bytes>) -> (r: Bytes)
    requires
        segments.len() == 1 || fit_one_buffer(segments@),
    ensures
        bytes_of(r) == joined(bytes_of_each(segments@)),
{
    let ghost parts = bytes_of_each(segments@);
    let mut segments = segments;
    if segments.len() == 1 {
        proof {
            joined_push(seq![], parts[0]);
            assert(seq![].push(parts[0]) =~= parts);
            assert(joined(parts) =~= parts[0]);
        }
        return segments.remove(0);
    }
    let total: usize = match total_len(&segments) {
        Some(n) => n,
        None => 0,
    };
    let mut buf = BytesMut::with_capacity(total);
    let mut i: usize = 0;
    while i < segments.len()
        invariant
            i <= segments.len(),
            parts == bytes_of_each(segments@),
            joined(parts).len() <= isize::MAX,
            buffer_of(buf) == joined(parts.take(i as int)),
        decreases segments.len() - i,
    {
        proof {
            joined_prefix_len(parts, i as int);
            joined_prefix_len(parts, i + 1);
        }
        buffer_extend(&mut buf, &segments[i]);
        i = i + 1;
    }
    assert(parts.take(i as int) =~= parts);
    buf.freeze()
}

} // verus!
