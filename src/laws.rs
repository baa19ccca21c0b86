//! Laws of the protocol, stated over the models that the functions' contracts
//! use and proved from them.

use vstd::prelude::*;
use vstd::arithmetic::div_mod::{lemma_div_denominator, lemma_fundamental_div_mod};
use crate::decoder::{concat_chunks, index_set, lemma_index_set_len, DecoderView};
use crate::encoder::{chunk_count_for, encodable, lemma_slice_bounds, planned_chunks, slice_of};
use crate::protocol::{
    be16, be32, checksum_matches, crc32_of, frame_accepted, frame_chunk, frame_data_len,
    frame_end, frame_index, frame_of, frame_rejection, frame_session, frame_total, header_of,
    layout_accepted, read_be16, read_be32, ChunkView, TransportError, MAGIC, VERSION,
};
use crate::text::base45_bytes;

verus! {

proof fn lemma_be16_read(x: u16, b: Seq<u8>, i: int)
    requires
        0 <= i,
        i + 2 <= b.len(),
        b.subrange(i, i + 2) == be16(x),
    ensures
        read_be16(b, i) == x,
{
    assert(b[i] == be16(x)[0] && b[i + 1] == be16(x)[1]);
    lemma_fundamental_div_mod(x as int, 256);
}

proof fn lemma_be32_read(x: u32, b: Seq<u8>, i: int)
    requires
        0 <= i,
        i + 4 <= b.len(),
        b.subrange(i, i + 4) == be32(x),
    ensures
        read_be32(b, i) == x,
{
    assert(b[i] == be32(x)[0] && b[i + 1] == be32(x)[1] && b[i + 2] == be32(x)[2] && b[i + 3]
        == be32(x)[3]);
    let a = x as int / 256;
    let q = x as int / 0x1_0000;
    let h = x as int / 0x100_0000;
    lemma_fundamental_div_mod(x as int, 256);
    lemma_fundamental_div_mod(a, 256);
    lemma_fundamental_div_mod(q, 256);
    lemma_div_denominator(x as int, 256, 256);
    lemma_div_denominator(x as int, 0x1_0000, 256);
    assert(x == h * 0x100_0000 + (q % 256) * 0x1_0000 + (a % 256) * 256 + x % 256);
}

/// Layout of a serialized frame: what the parser reads back at each place.
proof fn lemma_frame_fields(c: ChunkView)
    requires
        c.data.len() <= 0xFFFF,
    ensures
        ({
            let b = frame_of(c);
            let end = 16 + c.data.len() as int;
            &&& b.len() == end + 4
            &&& read_be16(b, 0) == MAGIC
            &&& b[2] == VERSION
            &&& frame_total(b) == c.total_chunks
            &&& frame_index(b) == c.chunk_index
            &&& frame_session(b) == c.session_id
            &&& frame_data_len(b) == c.data.len()
            &&& frame_end(b) == end
            &&& b.subrange(16, end) == c.data
            &&& b.subrange(0, end) == header_of(c) + c.data
            &&& checksum_matches(b)
        }),
{
    let h = header_of(c);
    let body = h + c.data;
    let b = frame_of(c);
    let end = 16 + c.data.len() as int;
    assert(h.len() == 16);
    assert(b.subrange(0, 2) =~= be16(MAGIC));
    lemma_be16_read(MAGIC, b, 0);
    assert(b.subrange(3, 5) =~= be16(c.total_chunks));
    lemma_be16_read(c.total_chunks, b, 3);
    assert(b.subrange(5, 7) =~= be16(c.chunk_index));
    lemma_be16_read(c.chunk_index, b, 5);
    assert(b.subrange(7, 11) =~= be32(c.session_id));
    lemma_be32_read(c.session_id, b, 7);
    assert(b.subrange(11, 13) =~= be16(c.data.len() as u16));
    lemma_be16_read(c.data.len() as u16, b, 11);
    assert(b.subrange(16, end) =~= c.data);
    assert(b.subrange(0, end) =~= body);
    assert(b.subrange(end, end + 4) =~= be32(crc32_of(body)));
    lemma_be32_read(crc32_of(body), b, end);
}

/// Serializing a well-formed chunk gives a frame that the parser accepts and
/// reads back as the same chunk.
pub proof fn lemma_frame_round_trip(c: ChunkView)
    requires
        c.wf(),
    ensures
        frame_accepted(frame_of(c)),
        frame_chunk(frame_of(c)) == c,
{
    lemma_frame_fields(c);
    assert(frame_chunk(frame_of(c)) =~= c);
}

/// Flipping one bit of a frame's data region makes the parser report a
/// checksum mismatch, unless the checksum of the altered header and data
/// happens to equal the unaltered one.
pub proof fn lemma_flipped_bit_rejected(c: ChunkView, pos: int, bit: u8)
    requires
        c.wf(),
        16 <= pos < 16 + c.data.len(),
        bit < 8,
        crc32_of(frame_of(c).update(pos, frame_of(c)[pos] ^ (1u8 << bit)).subrange(
            0,
            16 + c.data.len() as int,
        )) != crc32_of(frame_of(c).subrange(0, 16 + c.data.len() as int)),
    ensures
        ({
            let b = frame_of(c).update(pos, frame_of(c)[pos] ^ (1u8 << bit));
            &&& !frame_accepted(b)
            &&& forall|e: TransportError| frame_rejection(b, e) <==> e == TransportError::CrcMismatch
        }),
{
    let f = frame_of(c);
    let b = f.update(pos, f[pos] ^ (1u8 << bit));
    let end = 16 + c.data.len() as int;
    lemma_frame_fields(c);
    assert(b.subrange(0, 13) =~= f.subrange(0, 13));
    assert(read_be16(b, 0) == read_be16(f, 0));
    assert(frame_total(b) == frame_total(f));
    assert(frame_index(b) == frame_index(f));
    assert(frame_data_len(b) == frame_data_len(f));
    assert(b.subrange(end, end + 4) =~= f.subrange(end, end + 4));
    assert(read_be32(b, end) == read_be32(f, end));
    assert(layout_accepted(b));
    assert(!checksum_matches(b));
}

/// Offering again a text that was just taken is taken again and changes
/// nothing: no error, same progress, same state.
pub proof fn lemma_repeat_text_idempotent(v: DecoderView, t: Seq<char>)
    requires
        v.wf(),
        base45_bytes(t) is Some,
        v.admits(base45_bytes(t)->0),
    ensures
        v.after_text(t).admits(base45_bytes(t)->0),
        v.after_text(t).after_text(t) == v.after_text(t),
        v.after_text(t).after_text(t).received() == v.after_text(t).received(),
        v.after_text(t).after_text(t).total() == v.after_text(t).total(),
{
    let b = base45_bytes(t)->0;
    let w = v.after_text(t);
    let c = frame_chunk(b);
    assert(w.matches(c));
    assert(w.store(c).chunks =~= w.chunks);
}

/// A valid frame of another session, with the latched total, is rejected as a
/// session mismatch and leaves the state as it was.
pub proof fn lemma_foreign_session_rejected(v: DecoderView, b: Seq<u8>, session_id: u32, total: u16)
    requires
        v.wf(),
        v.latch == Some((session_id, total)),
        frame_accepted(b),
        frame_total(b) == total,
        frame_session(b) != session_id,
    ensures
        !v.admits(b),
        v.after_frame(b) == v,
        forall|e: TransportError| v.rejection(b, e) <==> e == TransportError::SessionMismatch,
{
}

/// The state after offering the texts in order.
pub open spec fn feed_texts(v: DecoderView, texts: Seq<Seq<char>>) -> DecoderView
    decreases texts.len(),
{
    if texts.len() == 0 {
        v
    } else {
        feed_texts(v, texts.drop_last()).after_text(texts.last())
    }
}

/// `order` lists each of `0..n` exactly once.
pub open spec fn is_permutation(order: Seq<int>, n: nat) -> bool {
    &&& order.len() == n
    &&& order.no_duplicates()
    &&& forall|j: int| 0 <= j < order.len() ==> 0 <= #[trigger] order[j] < n
    &&& forall|i: int| 0 <= i < n ==> #[trigger] order.contains(i)
}

/// `texts` are the text forms of the chunks of a session: each decodes to the
/// frame of the chunk with its index.
pub open spec fn texts_of_session(texts: Seq<Seq<char>>, chunks: Seq<ChunkView>) -> bool {
    &&& texts.len() == chunks.len()
    &&& forall|i: int|
        0 <= i < texts.len() ==> base45_bytes(#[trigger] texts[i]) == Some(frame_of(chunks[i]))
}

/// The texts in the given order of scanning.
pub open spec fn scanned(texts: Seq<Seq<char>>, order: Seq<int>) -> Seq<Seq<char>> {
    order.map_values(|j: int| texts[j])
}

proof fn lemma_planned_chunk_wf(data: Seq<u8>, size: nat, session_id: u32, i: int)
    requires
        encodable(data.len(), size),
        0 <= i < chunk_count_for(data.len(), size),
    ensures
        planned_chunks(data, size, session_id)[i].wf(),
        planned_chunks(data, size, session_id)[i].data == slice_of(data, size, i),
{
    lemma_slice_bounds(data.len(), size, i as nat);
}

/// The last chunk reaches the end of the payload.
proof fn lemma_chunks_cover(len: nat, size: nat)
    requires
        size > 0,
    ensures
        chunk_count_for(len, size) * size >= len,
{
    lemma_fundamental_div_mod(len as int, size as int);
    let q = len / size;
    let r = len % size;
    let n = chunk_count_for(len, size);
    assert(n * size >= len) by (nonlinear_arith)
        requires
            len == size * q + r,
            0 <= r < size,
            r == 0 ==> n == q,
            r != 0 ==> n == q + 1,
    ;
}

/// The slices `0..m`, concatenated, are the payload's first `m` slices'
/// worth of bytes.
proof fn lemma_concat_slices(data: Seq<u8>, size: nat, chunks: Map<u16, Seq<u8>>, m: nat)
    requires
        size > 0,
        m <= chunk_count_for(data.len(), size),
        m <= 0x1_0000,
        forall|i: int| 0 <= i < m ==> chunks[i as u16] == slice_of(data, size, i),
    ensures
        concat_chunks(chunks, m) == data.subrange(
            0,
            if m * size <= data.len() {
                (m * size) as int
            } else {
                data.len() as int
            },
        ),
    decreases m,
{
    if m == 0 {
        assert(data.subrange(0, 0) =~= Seq::<u8>::empty());
    } else {
        let k = (m - 1) as nat;
        lemma_concat_slices(data, size, chunks, k);
        lemma_slice_bounds(data.len(), size, k);
        assert(chunks[k as u16] == slice_of(data, size, k as int));
        assert(m * size == k * size + size) by (nonlinear_arith)
            requires
                m == k + 1,
        ;
        assert(concat_chunks(chunks, m) =~= data.subrange(
            0,
            if m * size <= data.len() {
                (m * size) as int
            } else {
                data.len() as int
            },
        ));
    }
}

/// After the first `k` texts of a scanning order, the decoder holds exactly
/// the chunks those texts carry, under the session's latch.
proof fn lemma_scan_prefix(
    data: Seq<u8>,
    size: nat,
    session_id: u32,
    texts: Seq<Seq<char>>,
    order: Seq<int>,
    k: nat,
)
    requires
        encodable(data.len(), size),
        texts_of_session(texts, planned_chunks(data, size, session_id)),
        is_permutation(order, chunk_count_for(data.len(), size)),
        k <= order.len(),
    ensures
        ({
            let n = chunk_count_for(data.len(), size);
            let v = feed_texts(DecoderView::empty(), scanned(texts, order).take(k as int));
            &&& v.wf()
            &&& k == 0 ==> v.latch is None
            &&& k > 0 ==> v.latch == Some((session_id, n as u16))
            &&& forall|i: u16| #[trigger]
                v.chunks.contains_key(i) <==> exists|j: int| 0 <= j < k && order[j] == i as int
            &&& forall|i: u16| #[trigger]
                v.chunks.contains_key(i) ==> v.chunks[i] == slice_of(data, size, i as int)
        }),
    decreases k,
{
    let n = chunk_count_for(data.len(), size);
    let plan = planned_chunks(data, size, session_id);
    let seq = scanned(texts, order);
    if k == 0 {
        assert(seq.take(0) =~= Seq::<Seq<char>>::empty());
        let v = feed_texts(DecoderView::empty(), seq.take(0));
        assert(v.chunks.dom() =~= Set::empty());
    } else {
        let km = (k - 1) as nat;
        lemma_scan_prefix(data, size, session_id, texts, order, km);
        let u = feed_texts(DecoderView::empty(), seq.take(km as int));
        assert(seq.take(k as int).drop_last() =~= seq.take(km as int));
        let j = order[km as int];
        assert(0 <= j < n);
        let t = seq.take(k as int).last();
        assert(t == texts[j]);
        let c = plan[j];
        lemma_planned_chunk_wf(data, size, session_id, j);
        lemma_frame_round_trip(c);
        assert(base45_bytes(t) == Some(frame_of(c)));
        let v = u.after_text(t);
        assert(u.admits(frame_of(c)));
        assert(v == u.store(c));
        assert forall|i: u16|
            (exists|jj: int| 0 <= jj < k && order[jj] == i as int) implies #[trigger] v.chunks.contains_key(i) by {
            {
                let jj = choose|jj: int| 0 <= jj < k && order[jj] == i as int;
                if jj < km {
                    assert(u.chunks.contains_key(i));
                } else {
                    assert(i == c.chunk_index);
                }
            }
        }
        assert forall|i: u16| #[trigger]
            v.chunks.contains_key(i) implies exists|jj: int| 0 <= jj < k && order[jj] == i as int by {
            {
                if i == c.chunk_index {
                    assert(order[km as int] == i as int);
                } else {
                    assert(u.chunks.contains_key(i));
                    let jj = choose|jj: int| 0 <= jj < km && order[jj] == i as int;
                    assert(0 <= jj < k && order[jj] == i as int);
                }
            }
        }
    }
}

/// Encoding a payload and offering every chunk's text to a fresh decoder
/// exactly once, in any order, completes the session and reassembles the
/// payload.
pub proof fn lemma_round_trip(
    data: Seq<u8>,
    size: nat,
    session_id: u32,
    texts: Seq<Seq<char>>,
    order: Seq<int>,
)
    requires
        encodable(data.len(), size),
        texts_of_session(texts, planned_chunks(data, size, session_id)),
        is_permutation(order, chunk_count_for(data.len(), size)),
    ensures
        feed_texts(DecoderView::empty(), scanned(texts, order)).complete(),
        feed_texts(DecoderView::empty(), scanned(texts, order)).assembled() == data,
{
    let n = chunk_count_for(data.len(), size);
    let seq = scanned(texts, order);
    lemma_scan_prefix(data, size, session_id, texts, order, n);
    assert(seq.take(n as int) =~= seq);
    let v = feed_texts(DecoderView::empty(), seq);
    assert(v.chunks.dom() =~= index_set(n)) by {
        assert forall|i: u16| v.chunks.contains_key(i) <==> #[trigger] index_set(n).contains(i) by {
            if (i as nat) < n {
                assert(order.contains(i as int));
                let jj = choose|jj: int| 0 <= jj < order.len() && order[jj] == i as int;
                assert(exists|j: int| 0 <= j < n && order[j] == i as int);
            }
        }
    }
    lemma_index_set_len(n);
    assert(v.total() == n);
    assert forall|i: int| 0 <= i < n implies v.chunks[i as u16] == slice_of(data, size, i) by {
        assert(index_set(n).contains(i as u16));
    }
    lemma_concat_slices(data, size, v.chunks, n);
    lemma_chunks_cover(data.len(), size);
    assert(data.subrange(0, data.len() as int) =~= data);
}

/// Two scanning orders of one session's texts reassemble the same payload.
pub proof fn lemma_order_independent(
    data: Seq<u8>,
    size: nat,
    session_id: u32,
    texts: Seq<Seq<char>>,
    first: Seq<int>,
    second: Seq<int>,
)
    requires
        encodable(data.len(), size),
        texts_of_session(texts, planned_chunks(data, size, session_id)),
        is_permutation(first, chunk_count_for(data.len(), size)),
        is_permutation(second, chunk_count_for(data.len(), size)),
    ensures
        feed_texts(DecoderView::empty(), scanned(texts, first)).assembled() == feed_texts(
            DecoderView::empty(),
            scanned(texts, second),
        ).assembled(),
{
    lemma_round_trip(data, size, session_id, texts, first);
    lemma_round_trip(data, size, session_id, texts, second);
}

} // verus!
