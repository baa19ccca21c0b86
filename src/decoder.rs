//! The decoder: a session-scoped state machine that collects frames and puts
//! the payload back together.

use std::collections::HashMap;
use vstd::prelude::*;
use vstd::set_lib::{lemma_len_subset, lemma_subset_equality};
use crate::protocol::{
    append_bytes, encoding_error, frame_accepted, frame_chunk, frame_rejection, frame_total, Chunk, ChunkView,
    TransportError,
};
use crate::text::{base45_bytes, base45_decode, decode_error_text};

verus! {

broadcast use vstd::std_specs::hash::group_hash_axioms;

/// The abstract state of a decoder: the latched session and total, if any,
/// and the data received for each index.
pub struct DecoderView {
    pub latch: Option<(u32, u16)>,
    pub chunks: Map<u16, Seq<u8>>,
}

/// The data of indices `0..n`, concatenated in ascending order.
pub open spec fn concat_chunks(chunks: Map<u16, Seq<u8>>, n: nat) -> Seq<u8>
    decreases n,
{
    if n == 0 {
        Seq::empty()
    } else {
        concat_chunks(chunks, (n - 1) as nat) + chunks[(n - 1) as u16]
    }
}

/// The indices `0..n`.
pub open spec fn index_set(n: nat) -> Set<u16> {
    Set::new(|i: u16| (i as nat) < n)
}

impl DecoderView {
    /// The state of a fresh or reset decoder.
    pub open spec fn empty() -> DecoderView {
        DecoderView { latch: None, chunks: Map::empty() }
    }

    /// Number of distinct indices received.
    pub open spec fn received(self) -> nat {
        self.chunks.dom().len()
    }

    /// The latched total, 0 before anything is latched.
    pub open spec fn total(self) -> nat {
        match self.latch {
            Some((_, t)) => t as nat,
            None => 0,
        }
    }

    /// Every index of the session has been received.
    pub open spec fn complete(self) -> bool {
        self.latch is Some && self.received() == self.total()
    }

    /// The state is reachable: nothing is stored before a latch, and every
    /// stored index lies inside the latched total.
    pub open spec fn wf(self) -> bool {
        &&& self.chunks.dom().finite()
        &&& self.latch is None ==> self.chunks.dom().is_empty()
        &&& self.latch is Some ==> self.total() >= 1
        &&& forall|i: u16| #[trigger] self.chunks.contains_key(i) ==> (i as nat) < self.total()
    }

    /// A chunk agrees with the latched session and total (or nothing is latched).
    pub open spec fn matches(self, c: ChunkView) -> bool {
        match self.latch {
            Some((s, t)) => c.total_chunks == t && c.session_id == s,
            None => true,
        }
    }

    /// The state after a matching chunk is stored, latching its session and
    /// total if nothing was latched.
    pub open spec fn store(self, c: ChunkView) -> DecoderView {
        DecoderView {
            latch: match self.latch {
                Some(l) => Some(l),
                None => Some((c.session_id, c.total_chunks)),
            },
            chunks: self.chunks.insert(c.chunk_index, c.data),
        }
    }

    /// A frame is taken: it is valid and matches the session.
    pub open spec fn admits(self, b: Seq<u8>) -> bool {
        frame_accepted(b) && self.matches(frame_chunk(b))
    }

    /// The state after a frame is offered; a rejected frame changes nothing.
    pub open spec fn after_frame(self, b: Seq<u8>) -> DecoderView {
        if self.admits(b) {
            self.store(frame_chunk(b))
        } else {
            self
        }
    }

    /// The error reported for a frame that is not taken.
    pub open spec fn rejection(self, b: Seq<u8>, e: TransportError) -> bool {
        if !frame_accepted(b) {
            frame_rejection(b, e)
        } else {
            match self.latch {
                Some((s, t)) => if frame_total(b) != t {
                    e == TransportError::MetadataMismatch
                } else {
                    e == TransportError::SessionMismatch
                },
                None => false,
            }
        }
    }

    /// The state after a text is offered: the frame it decodes to, or no
    /// change for a malformed text.
    pub open spec fn after_text(self, t: Seq<char>) -> DecoderView {
        match base45_bytes(t) {
            Some(b) => self.after_frame(b),
            None => self,
        }
    }

    /// The reassembled payload.
    pub open spec fn assembled(self) -> Seq<u8> {
        concat_chunks(self.chunks, self.total())
    }
}

/// The indices below `n` are exactly `n` values.
pub proof fn lemma_index_set_len(n: nat)
    requires
        n <= 0x1_0000,
    ensures
        index_set(n).finite(),
        index_set(n).len() == n,
    decreases n,
{
    if n == 0 {
        assert(index_set(0) =~= Set::empty());
    } else {
        lemma_index_set_len((n - 1) as nat);
        assert(index_set(n) =~= index_set((n - 1) as nat).insert((n - 1) as u16));
    }
}

/// A well-formed state never holds more indices than its total.
pub proof fn lemma_received_bounded(v: DecoderView)
    requires
        v.wf(),
    ensures
        v.received() <= v.total(),
{
    lemma_index_set_len(v.total());
    assert(v.chunks.dom().subset_of(index_set(v.total())));
    lemma_len_subset(v.chunks.dom(), index_set(v.total()));
}

/// A well-formed complete state holds every index of its session.
pub proof fn lemma_complete_has_all(v: DecoderView)
    requires
        v.wf(),
        v.complete(),
    ensures
        v.chunks.dom() == index_set(v.total()),
{
    lemma_index_set_len(v.total());
    assert(v.chunks.dom().subset_of(index_set(v.total())));
    lemma_subset_equality(v.chunks.dom(), index_set(v.total()));
}

/// Collects the frames of one transfer and reassembles its payload.
pub struct Decoder {
    received_chunks: HashMap<u16, Vec<u8>>,
    session_id: Option<u32>,
    total_chunks: Option<u16>,
}

impl View for Decoder {
    type V = DecoderView;

    closed spec fn view(&self) -> DecoderView {
        DecoderView {
            latch: match (self.session_id, self.total_chunks) {
                (Some(s), Some(t)) => Some((s, t)),
                _ => None,
            },
            chunks: self.received_chunks@.map_values(|v: Vec<u8>| v@),
        }
    }
}

fn copy_bytes(v: &Vec<u8>) -> (r: Vec<u8>)
    ensures
        r@ == v@,
{
    let mut r: Vec<u8> = Vec::new();
    append_bytes(&mut r, v.as_slice());
    r
}

impl Decoder {
    /// The decoder's internal invariant.
    pub closed spec fn wf(&self) -> bool {
        &&& self.session_id is Some <==> self.total_chunks is Some
        &&& self@.wf()
    }

    /// What the internal invariant tells of the abstract state: it is
    /// well formed, so stored indices lie inside the latched total, a latched
    /// total is at least 1, and at most `total` indices are held.
    pub proof fn lemma_view_wf(&self)
        requires
            self.wf(),
        ensures
            self@.wf(),
            self@.received() <= self@.total(),
    {
        lemma_received_bounded(self@);
    }

    /// A decoder with nothing latched and nothing stored.
    pub fn new() -> (r: Decoder)
        ensures
            r.wf(),
            r@ == DecoderView::empty(),
    {
        let r = Decoder { received_chunks: HashMap::new(), session_id: None, total_chunks: None };
        assert(r@.chunks =~= Map::empty());
        r
    }

    /// Offers one serialized frame. A valid frame that matches the latched
    /// session (or the first one after a reset) is stored under its index;
    /// anything else is rejected and leaves the state as it was.
    pub fn process_frame(&mut self, bytes: &[u8]) -> (r: Result<Chunk, TransportError>)
        requires
            old(self).wf(),
        ensures
            final(self).wf(),
            final(self)@ == old(self)@.after_frame(bytes@),
            r is Ok <==> old(self)@.admits(bytes@),
            r is Ok ==> r->Ok_0@ == frame_chunk(bytes@),
            r is Err ==> old(self)@.rejection(bytes@, r->Err_0),
    {
        let chunk = match Chunk::from_bytes(bytes) {
            Ok(c) => c,
            Err(e) => return Err(e),
        };
        match (self.session_id, self.total_chunks) {
            (Some(s), Some(t)) => {
                if chunk.total_chunks != t {
                    return Err(TransportError::MetadataMismatch);
                }
                if chunk.session_id != s {
                    return Err(TransportError::SessionMismatch);
                }
            },
            _ => {
                self.session_id = Some(chunk.session_id);
                self.total_chunks = Some(chunk.total_chunks);
            },
        }
        let data = copy_bytes(&chunk.data);
        self.received_chunks.insert(chunk.chunk_index, data);
        proof {
            let post = old(self)@.store(chunk@);
            assert(self@.chunks =~= post.chunks);
        }
        Ok(chunk)
    }

    /// Offers one scanned text: its base45 bytes are processed as a frame; a
    /// malformed text is an encoding error and changes nothing.
    pub fn process_qr_string(&mut self, qr_data: &str) -> (r: Result<Chunk, TransportError>)
        requires
            old(self).wf(),
        ensures
            final(self).wf(),
            final(self)@ == old(self)@.after_text(qr_data@),
            base45_bytes(qr_data@) is None ==> r is Err && encoding_error(
                r->Err_0,
                "Invalid base45 string"@,
            ),
            base45_bytes(qr_data@) is Some ==> {
                let b = base45_bytes(qr_data@)->0;
                &&& r is Ok <==> old(self)@.admits(b)
                &&& r is Ok ==> r->Ok_0@ == frame_chunk(b)
                &&& r is Err ==> old(self)@.rejection(b, r->Err_0)
            },
    {
        match base45_decode(qr_data) {
            Ok(bytes) => self.process_frame(bytes.as_slice()),
            Err(e) => Err(TransportError::EncodingError(decode_error_text(&e))),
        }
    }

    /// Whether every index of the latched session has been received.
    pub fn is_complete(&self) -> (r: bool)
        requires
            self.wf(),
        ensures
            r == self@.complete(),
    {
        proof {
            assert(self@.chunks.dom() =~= self.received_chunks@.dom());
        }
        match self.total_chunks {
            Some(total) => self.received_chunks.len() == total as usize,
            None => false,
        }
    }

    /// The number of distinct indices received and the latched total (0
    /// before a latch).
    pub fn progress(&self) -> (r: (usize, usize))
        requires
            self.wf(),
        ensures
            r.0 == self@.received(),
            r.1 == self@.total(),
            r.0 <= r.1,
    {
        proof {
            lemma_received_bounded(self@);
        }
        proof {
            assert(self@.chunks.dom() =~= self.received_chunks@.dom());
        }
        let received = self.received_chunks.len();
        let total = match self.total_chunks {
            Some(t) => t as usize,
            None => 0,
        };
        (received, total)
    }

    /// The latched session, if any.
    pub fn session_id(&self) -> (r: Option<u32>)
        requires
            self.wf(),
        ensures
            r == match self@.latch {
                Some((s, _)) => Some(s),
                None => None::<u32>,
            },
    {
        self.session_id
    }

    /// The reassembled payload of a complete session; an encoding error
    /// naming the progress otherwise.
    pub fn get_data(&self) -> (r: Result<Vec<u8>, TransportError>)
        requires
            self.wf(),
        ensures
            self@.complete() ==> r is Ok && r->Ok_0@ == self@.assembled(),
            !self@.complete() ==> r is Err && encoding_error(
                r->Err_0,
                incomplete_message(self@.received(), self@.total()),
            ),
    {
        if !self.is_complete() {
            let (received, total) = self.progress();
            return Err(TransportError::EncodingError(progress_text(received, total)));
        }
        let total_chunks = match self.total_chunks {
            Some(t) => t,
            None => 0,
        };
        proof {
            lemma_complete_has_all(self@);
        }
        let mut result: Vec<u8> = Vec::new();
        let mut i: u16 = 0;
        while i < total_chunks
            invariant
                self.wf(),
                self@.complete(),
                total_chunks as nat == self@.total(),
                self@.chunks.dom() == index_set(self@.total()),
                i <= total_chunks,
                result@ == concat_chunks(self@.chunks, i as nat),
            decreases total_chunks - i,
        {
            assert(index_set(self@.total()).contains(i));
            match self.received_chunks.get(&i) {
                Some(chunk_data) => {
                    append_bytes(&mut result, chunk_data.as_slice());
                },
                None => {
                    return Err(TransportError::MissingChunk(i));
                },
            }
            i = i + 1;
        }
        Ok(result)
    }

    /// Forgets the session: nothing latched, nothing stored.
    pub fn reset(&mut self)
        ensures
            final(self).wf(),
            final(self)@ == DecoderView::empty(),
    {
        self.received_chunks.clear();
        self.session_id = None;
        self.total_chunks = None;
        assert(self@.chunks =~= Map::empty());
    }
}

impl Default for Decoder {
    /// The same as [`Decoder::new`].
    fn default() -> (r: Decoder)
        ensures
            r.wf(),
            r@ == DecoderView::empty(),
    {
        Decoder::new()
    }
}

/// The decimal digits of `n`, as `Display` writes an integer.
pub open spec fn decimal(n: nat) -> Seq<char>
    decreases n,
{
    let digit = seq!['0', '1', '2', '3', '4', '5', '6', '7', '8', '9'][(n % 10) as int];
    if n < 10 {
        seq![digit]
    } else {
        decimal(n / 10) + seq![digit]
    }
}

/// The message of an incomplete reassembly.
pub open spec fn incomplete_message(received: nat, total: nat) -> Seq<char> {
    "Incomplete: "@ + decimal(received) + "/"@ + decimal(total) + " chunks"@
}

/// Relies on `format!`, which writes each integer in decimal: the message of
/// an incomplete reassembly.
#[verifier::external_body]
fn progress_text(received: usize, total: usize) -> (r: String)
    ensures
        r@ == incomplete_message(received as nat, total as nat),
{
    format!("Incomplete: {}/{} chunks", received, total)
}

} // verus!
