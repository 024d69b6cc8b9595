//! The container: the signature, then chunks in order.

use crate::chunk::{lemma_parse_serialized, lemma_serialize_parsed, parse_chunk, Chunk, ChunkView};
use crate::error::Error;
use crate::text::lossy_text;
use vstd::prelude::*;
use vstd::slice::slice_subrange;
use vstd::string::StringExecFns;

verus! {

/// The eight bytes with which every container begins.
pub open spec fn signature() -> Seq<u8> {
    seq![0x89u8, 0x50u8, 0x4eu8, 0x47u8, 0x0du8, 0x0au8, 0x1au8, 0x0au8]
}

/// `bytes` begins with the signature.
pub open spec fn has_signature(bytes: Seq<u8>) -> bool {
    bytes.len() >= 8 && bytes.subrange(0, 8) == signature()
}

/// The chunks' serializations, one after the other.
pub open spec fn serialize_chunks(chunks: Seq<ChunkView>) -> Seq<u8>
    decreases chunks.len(),
{
    if chunks.len() == 0 {
        Seq::empty()
    } else {
        chunks[0].serialize() + serialize_chunks(chunks.drop_first())
    }
}

/// The serialized container: the signature, then the chunks.
pub open spec fn serialize_png(chunks: Seq<ChunkView>) -> Seq<u8> {
    signature() + serialize_chunks(chunks)
}

/// `result` with `done` put in front of the chunks it holds.
pub open spec fn after(done: Seq<ChunkView>, result: Result<Seq<ChunkView>, Error>) -> Result<
    Seq<ChunkView>,
    Error,
> {
    match result {
        Ok(rest) => Ok(done + rest),
        Err(e) => Err(e),
    }
}

/// What parsing chunk after chunk gives, until no byte is left. The first
/// chunk that fails to parse decides the error.
pub open spec fn parse_chunks(bytes: Seq<u8>) -> Result<Seq<ChunkView>, Error>
    decreases bytes.len(),
{
    if bytes.len() == 0 {
        Ok(Seq::empty())
    } else {
        match parse_chunk(bytes) {
            Err(e) => Err(e),
            Ok(first) => after(
                seq![first],
                parse_chunks(bytes.skip((first.data.len() + 12) as int)),
            ),
        }
    }
}

/// What parsing a whole container gives.
pub open spec fn parse_png(bytes: Seq<u8>) -> Result<Seq<ChunkView>, Error> {
    if has_signature(bytes) {
        parse_chunks(bytes.skip(8))
    } else {
        Err(Error::SignatureMismatch)
    }
}

/// The renderings of the chunks, one after the other.
pub open spec fn render_chunks(chunks: Seq<ChunkView>) -> Seq<char>
    decreases chunks.len(),
{
    if chunks.len() == 0 {
        Seq::empty()
    } else {
        render_chunks(chunks.drop_last()) + chunks.last().rendering()
    }
}

/// The container set out for reading: every chunk's rendering, in order,
/// between an opening and a closing line.
pub open spec fn render_png(chunks: Seq<ChunkView>) -> Seq<char> {
    "Png {\n"@ + render_chunks(chunks) + "}\n"@
}

/// The chunk's type code, read as text, is `text`.
pub open spec fn has_type(chunk: ChunkView, text: Seq<char>) -> bool {
    lossy_text(chunk.chunk_type) == text
}

/// The index of the first chunk whose type code reads as `text`, or the
/// number of chunks if there is none.
pub open spec fn position(chunks: Seq<ChunkView>, text: Seq<char>) -> int
    decreases chunks.len(),
{
    if chunks.len() == 0 {
        0
    } else if has_type(chunks[0], text) {
        0
    } else {
        1 + position(chunks.drop_first(), text)
    }
}

/// Every chunk carries the checksum of its own type code and payload.
pub open spec fn all_well_formed(chunks: Seq<ChunkView>) -> bool {
    forall|i: int| 0 <= i < chunks.len() ==> (#[trigger] chunks[i]).well_formed()
}

/// Every payload is short enough for its length to be written in four
/// bytes.
pub open spec fn all_fit(chunks: Seq<ChunkView>) -> bool {
    forall|i: int| 0 <= i < chunks.len() ==> (#[trigger] chunks[i]).fits()
}

/// `position` is where the first chunk of the type stands: no chunk before
/// it has the type, and the chunk at it has, if there is one.
pub proof fn lemma_position(chunks: Seq<ChunkView>, text: Seq<char>)
    ensures
        0 <= position(chunks, text) <= chunks.len(),
        forall|j: int| 0 <= j < position(chunks, text) ==> !has_type(#[trigger] chunks[j], text),
        position(chunks, text) < chunks.len() ==> has_type(chunks[position(chunks, text)], text),
    decreases chunks.len(),
{
    if chunks.len() > 0 && !has_type(chunks[0], text) {
        let tail = chunks.drop_first();
        lemma_position(tail, text);
        assert forall|j: int| 0 <= j < position(chunks, text) implies !has_type(
            #[trigger] chunks[j],
            text,
        ) by {
            if j > 0 {
                assert(chunks[j] == tail[j - 1]);
            }
        }
    }
}

/// An index before which no chunk has the type, and which is the end or
/// holds a chunk of the type, is the `position`.
pub proof fn lemma_position_is(chunks: Seq<ChunkView>, text: Seq<char>, at: int)
    requires
        0 <= at <= chunks.len(),
        forall|j: int| 0 <= j < at ==> !has_type(#[trigger] chunks[j], text),
        at < chunks.len() ==> has_type(chunks[at], text),
    ensures
        position(chunks, text) == at,
    decreases chunks.len(),
{
    if at > 0 {
        let tail = chunks.drop_first();
        assert(!has_type(chunks[0], text));
        assert forall|j: int| 0 <= j < at - 1 implies !has_type(#[trigger] tail[j], text) by {
            assert(tail[j] == chunks[j + 1]);
        }
        lemma_position_is(tail, text, at - 1);
    }
}

/// Append and remove: a chunk put at the end of a container that has none
/// of its type is the one that a lookup of the type finds, and taking it out
/// again leaves the container as it was, with no chunk of the type.
pub proof fn lemma_append_then_remove(chunks: Seq<ChunkView>, chunk: ChunkView, text: Seq<char>)
    requires
        position(chunks, text) == chunks.len(),
        has_type(chunk, text),
    ensures
        position(chunks.push(chunk), text) == chunks.len(),
        chunks.push(chunk)[position(chunks.push(chunk), text)] == chunk,
        chunks.push(chunk).remove(position(chunks.push(chunk), text)) == chunks,
{
    lemma_position(chunks, text);
    let longer = chunks.push(chunk);
    assert forall|j: int| 0 <= j < chunks.len() implies !has_type(#[trigger] longer[j], text) by {
        assert(longer[j] == chunks[j]);
    }
    lemma_position_is(longer, text, chunks.len() as int);
    assert(longer.remove(chunks.len() as int) =~= chunks);
}

/// Serializing two runs of chunks one after the other serializes their
/// concatenation.
pub proof fn lemma_serialize_concat(front: Seq<ChunkView>, back: Seq<ChunkView>)
    ensures
        serialize_chunks(front + back) == serialize_chunks(front) + serialize_chunks(back),
    decreases front.len(),
{
    if front.len() == 0 {
        assert(front + back =~= back);
        assert(serialize_chunks(front) + serialize_chunks(back) =~= serialize_chunks(back));
    } else {
        lemma_serialize_concat(front.drop_first(), back);
        assert((front + back).drop_first() =~= front.drop_first() + back);
        assert(serialize_chunks(front + back) =~= serialize_chunks(front) + serialize_chunks(
            back,
        ));
    }
}

/// Serialized chunks parse back to themselves.
pub proof fn lemma_parse_serialized_chunks(chunks: Seq<ChunkView>)
    requires
        all_well_formed(chunks),
        all_fit(chunks),
    ensures
        parse_chunks(serialize_chunks(chunks)) == Ok::<Seq<ChunkView>, Error>(chunks),
    decreases chunks.len(),
{
    if chunks.len() == 0 {
        assert(chunks =~= Seq::<ChunkView>::empty());
    } else {
        let first = chunks[0];
        let tail = chunks.drop_first();
        let rest = serialize_chunks(tail);
        let bytes = first.serialize() + rest;
        assert(first.well_formed() && first.fits());
        assert forall|i: int| 0 <= i < tail.len() implies (#[trigger] tail[i]).well_formed()
            && tail[i].fits() by {
            assert(tail[i] == chunks[i + 1]);
        }
        lemma_parse_serialized(first, rest);
        lemma_parse_serialized_chunks(tail);
        assert(bytes.len() >= first.data.len() + 12);
        assert(parse_chunks(bytes) == after(seq![first], parse_chunks(rest)));
        assert(seq![first] + tail =~= chunks);
    }
}

/// Container round trip: a serialized container parses back to its chunks,
/// so that serializing what was parsed gives the same bytes again.
pub proof fn lemma_png_round_trip(chunks: Seq<ChunkView>)
    requires
        all_well_formed(chunks),
        all_fit(chunks),
    ensures
        parse_png(serialize_png(chunks)) == Ok::<Seq<ChunkView>, Error>(chunks),
        serialize_png(parse_png(serialize_png(chunks)).unwrap()) == serialize_png(chunks),
{
    let bytes = serialize_png(chunks);
    assert(bytes.subrange(0, 8) =~= signature());
    assert(bytes.skip(8) =~= serialize_chunks(chunks));
    lemma_parse_serialized_chunks(chunks);
}

/// Chunks parsed from a buffer are well formed, and serializing them gives
/// the buffer.
pub proof fn lemma_serialize_parsed_chunks(bytes: Seq<u8>, chunks: Seq<ChunkView>)
    requires
        parse_chunks(bytes) == Ok::<Seq<ChunkView>, Error>(chunks),
    ensures
        all_well_formed(chunks),
        all_fit(chunks),
        serialize_chunks(chunks) == bytes,
    decreases bytes.len(),
{
    if bytes.len() == 0 {
        assert(serialize_chunks(chunks) =~= bytes);
    } else {
        let first = parse_chunk(bytes).unwrap();
        let used = (first.data.len() + 12) as int;
        let tail = parse_chunks(bytes.skip(used)).unwrap();
        lemma_serialize_parsed(bytes, first);
        lemma_serialize_parsed_chunks(bytes.skip(used), tail);
        assert(chunks =~= seq![first] + tail);
        assert(chunks.drop_first() =~= tail);
        assert forall|i: int| 0 <= i < chunks.len() implies (#[trigger] chunks[i]).well_formed()
            && chunks[i].fits() by {
            if i > 0 {
                assert(chunks[i] == tail[i - 1]);
            }
        }
        assert(bytes.subrange(0, used) + bytes.skip(used) =~= bytes);
    }
}

/// Serializing is the inverse of parsing: the chunks parsed from a buffer
/// serialize to that buffer, byte for byte.
pub proof fn lemma_serialize_parsed_png(bytes: Seq<u8>, chunks: Seq<ChunkView>)
    requires
        parse_png(bytes) == Ok::<Seq<ChunkView>, Error>(chunks),
    ensures
        all_well_formed(chunks),
        all_fit(chunks),
        serialize_png(chunks) == bytes,
{
    lemma_serialize_parsed_chunks(bytes.skip(8), chunks);
    assert(bytes.subrange(0, 8) + bytes.skip(8) =~= bytes);
}

/// The serialization of a single chunk.
proof fn lemma_serialize_one(chunk: ChunkView)
    ensures
        serialize_chunks(seq![chunk]) == chunk.serialize(),
{
    assert(seq![chunk].drop_first() =~= Seq::<ChunkView>::empty());
    assert(serialize_chunks(seq![chunk]) =~= chunk.serialize() + serialize_chunks(
        Seq::<ChunkView>::empty(),
    ));
}

/// One step of parsing chunk after chunk: a chunk parsed from the front of
/// the bytes that are left joins those parsed before it, and parsing goes on
/// behind it.
proof fn lemma_parse_step(done: Seq<ChunkView>, rest: Seq<u8>, chunk: ChunkView)
    requires
        rest.len() > 0,
        parse_chunk(rest) == Ok::<ChunkView, Error>(chunk),
    ensures
        chunk.data.len() + 12 <= rest.len(),
        after(done, parse_chunks(rest)) == after(
            done.push(chunk),
            parse_chunks(rest.skip((chunk.data.len() + 12) as int)),
        ),
{
    lemma_serialize_parsed(rest, chunk);
    let behind = parse_chunks(rest.skip((chunk.data.len() + 12) as int));
    assert(parse_chunks(rest) == after(seq![chunk], behind));
    if behind is Ok {
        assert(done + (seq![chunk] + behind.unwrap()) =~= done.push(chunk) + behind.unwrap());
    }
}

/// The views of the chunks, in order.
pub open spec fn views(chunks: Seq<Chunk>) -> Seq<ChunkView> {
    chunks.map_values(|c: Chunk| c@)
}

/// The container signature.
pub const STANDARD_HEADER: [u8; 8] = [137, 80, 78, 71, 13, 10, 26, 10];

/// A container: chunks in the order in which they are serialized. Every
/// chunk in it carries the checksum of its own contents.
#[derive(Debug)]
pub struct Png {
    chunks: Vec<Chunk>,
}

impl View for Png {
    type V = Seq<ChunkView>;

    closed spec fn view(&self) -> Seq<ChunkView> {
        views(self.chunks@)
    }
}

impl PartialEq for Png {
    /// Two containers are equal when they hold equal chunks in the same
    /// order.
    fn eq(&self, other: &Png) -> (r: bool) {
        let same = self.chunks == other.chunks;
        proof {
            if self.chunks@.len() == other.chunks@.len() && (forall|i: int|
                0 <= i < self.chunks@.len() ==> self.chunks@[i]@ == other.chunks@[i]@) {
                assert(self@ =~= other@);
            }
            assert(self@.len() == self.chunks@.len() && other@.len() == other.chunks@.len());
            if self@ == other@ {
                assert forall|i: int| 0 <= i < self.chunks@.len() implies self.chunks@[i]@
                    == other.chunks@[i]@ by {
                    assert(self@[i] == other@[i]);
                }
            }
        }
        same
    }
}

impl Eq for Png {

}

impl vstd::std_specs::cmp::PartialEqSpecImpl for Png {
    open spec fn obeys_eq_spec() -> bool {
        true
    }

    open spec fn eq_spec(&self, other: &Png) -> bool {
        self@ == other@
    }
}

impl Clone for Png {
    /// A container with copies of the same chunks in the same order.
    fn clone(&self) -> (r: Png)
        ensures
            r@ == self@,
    {
        proof {
            use_type_invariant(self);
        }
        let mut chunks: Vec<Chunk> = Vec::new();
        let mut i: usize = 0;
        while i < self.chunks.len()
            invariant
                i <= self.chunks.len(),
                chunks@.len() == i,
                forall|j: int| 0 <= j < i ==> (#[trigger] chunks@[j])@ == self.chunks@[j]@,
                all_well_formed(self@),
            decreases self.chunks.len() - i,
        {
            let chunk = self.chunks[i].clone();
            chunks.push(chunk);
            i += 1;
        }
        assert(views(chunks@) =~= self@);
        Png { chunks }
    }
}

impl Png {
    /// Holds of every container there is.
    #[verifier::type_invariant]
    pub open spec fn well_formed(&self) -> bool {
        all_well_formed(self@)
    }

    /// The signature.
    pub fn header(&self) -> (r: &[u8; 8])
        ensures
            r@ == signature(),
    {
        assert(STANDARD_HEADER@ =~= signature());
        &STANDARD_HEADER
    }

    /// The chunks, in order.
    pub fn chunks(&self) -> (r: &[Chunk])
        ensures
            views(r@) == self@,
    {
        self.chunks.as_slice()
    }

    /// Puts `chunk` at the end. Chunks of the same type may already be
    /// there.
    pub fn append_chunk(&mut self, chunk: Chunk)
        ensures
            final(self)@ == old(self)@.push(chunk@),
    {
        proof {
            use_type_invariant(&*self);
            use_type_invariant(&chunk);
        }
        let mut chunks: Vec<Chunk> = Vec::new();
        std::mem::swap(&mut chunks, &mut self.chunks);
        chunks.push(chunk);
        assert(views(chunks@) =~= old(self)@.push(chunk@));
        self.chunks = chunks;
    }

    /// The index of the first chunk whose type code reads as `chunk_type`,
    /// or the number of chunks if there is none.
    fn find(&self, chunk_type: &str) -> (r: usize)
        ensures
            r == position(self@, chunk_type@),
            r <= self.chunks@.len(),
    {
        let wanted = chunk_type.to_owned();
        let mut i: usize = 0;
        while i < self.chunks.len()
            invariant
                i <= self.chunks.len(),
                wanted@ == chunk_type@,
                forall|j: int| 0 <= j < i ==> !has_type(#[trigger] self@[j], chunk_type@),
            decreases self.chunks.len() - i,
        {
            let text = self.chunks[i].chunk_type().as_string();
            assert(self@[i as int] == self.chunks@[i as int]@);
            if text == wanted {
                proof {
                    lemma_position_is(self@, chunk_type@, i as int);
                }
                return i;
            }
            i += 1;
        }
        proof {
            lemma_position_is(self@, chunk_type@, i as int);
        }
        i
    }

    /// The first chunk whose type code reads as `chunk_type`, if there is
    /// one.
    pub fn chunk_by_type(&self, chunk_type: &str) -> (r: Option<&Chunk>)
        ensures
            match r {
                Some(c) => position(self@, chunk_type@) < self@.len() && c@ == self@[position(
                    self@,
                    chunk_type@,
                )],
                None => position(self@, chunk_type@) == self@.len(),
            },
    {
        let at = self.find(chunk_type);
        if at < self.chunks.len() {
            Some(&self.chunks[at])
        } else {
            None
        }
    }

    /// Takes the first chunk whose type code reads as `chunk_type` out of
    /// the container and returns it. The chunks after it move up by one and
    /// keep their order. Without such a chunk the container stays as it is.
    pub fn remove_first_chunk(&mut self, chunk_type: &str) -> (r: Result<Chunk, Error>)
        ensures
            match r {
                Ok(c) => {
                    let at = position(old(self)@, chunk_type@);
                    &&& at < old(self)@.len()
                    &&& c@ == old(self)@[at]
                    &&& final(self)@ == old(self)@.remove(at)
                },
                Err(e) => {
                    &&& e == Error::ChunkNotFound
                    &&& position(old(self)@, chunk_type@) == old(self)@.len()
                    &&& final(self)@ == old(self)@
                },
            },
    {
        proof {
            use_type_invariant(&*self);
        }
        let at = self.find(chunk_type);
        if at >= self.chunks.len() {
            return Err(Error::ChunkNotFound);
        }
        let mut chunks: Vec<Chunk> = Vec::new();
        std::mem::swap(&mut chunks, &mut self.chunks);
        let chunk = chunks.remove(at);
        assert(views(chunks@) =~= old(self)@.remove(at as int));
        self.chunks = chunks;
        Ok(chunk)
    }

    /// The container set out for reading.
    pub fn to_string(&self) -> (r: String)
        ensures
            r@ == render_png(self@),
    {
        let mut r = String::from_str("Png {\n");
        let mut i: usize = 0;
        assert(self@.take(0) =~= Seq::<ChunkView>::empty());
        assert(r@ =~= "Png {\n"@ + render_chunks(self@.take(0)));
        while i < self.chunks.len()
            invariant
                i <= self.chunks.len(),
                self.chunks@.len() == self@.len(),
                r@ == "Png {\n"@ + render_chunks(self@.take(i as int)),
            decreases self.chunks.len() - i,
        {
            let line = self.chunks[i].to_string();
            r.append(line.as_str());
            proof {
                let next = self@.take(i + 1);
                assert(next.drop_last() =~= self@.take(i as int));
                assert(next.last() == self.chunks@[i as int]@);
                assert(r@ =~= "Png {\n"@ + render_chunks(next));
            }
            i += 1;
        }
        assert(self@.take(i as int) =~= self@);
        r.append("}\n");
        r
    }

    /// The serialized container: the signature, then each chunk in order.
    /// Where every payload is short enough for its length field, the bytes
    /// parse back to this container.
    pub fn as_bytes(&self) -> (r: Vec<u8>)
        ensures
            r@ == serialize_png(self@),
            all_fit(self@) ==> parse_png(r@) == Ok::<Seq<ChunkView>, Error>(self@),
    {
        let mut out: Vec<u8> = Vec::new();
        out.extend_from_slice(STANDARD_HEADER.as_slice());
        assert(out@ =~= signature() + serialize_chunks(self@.take(0))) by {
            assert(self@.take(0) =~= Seq::<ChunkView>::empty());
        }
        let mut i: usize = 0;
        while i < self.chunks.len()
            invariant
                i <= self.chunks.len(),
                self.chunks@.len() == self@.len(),
                out@ == signature() + serialize_chunks(self@.take(i as int)),
            decreases self.chunks.len() - i,
        {
            let bytes = self.chunks[i].as_bytes();
            out.extend_from_slice(bytes.as_slice());
            proof {
                let done = self@.take(i as int);
                lemma_serialize_concat(done, seq![self@[i as int]]);
                assert(self@.take(i + 1) =~= done + seq![self@[i as int]]);
                lemma_serialize_one(self@[i as int]);
                assert(out@ =~= signature() + serialize_chunks(self@.take(i + 1)));
            }
            i += 1;
        }
        proof {
            assert(self@.take(i as int) =~= self@);
            use_type_invariant(self);
            if all_fit(self@) {
                lemma_png_round_trip(self@);
            }
        }
        out
    }
}

impl vstd::std_specs::convert::TryFromSpecImpl<&[u8]> for Png {
    /// The result of parsing is stated over views, by the `ensures` of
    /// `try_from` itself.
    open spec fn obeys_try_from_spec() -> bool {
        false
    }

    open spec fn try_from_spec(v: &[u8]) -> Result<Png, Error> {
        Err(Error::SignatureMismatch)
    }
}

impl TryFrom<&[u8]> for Png {
    type Error = Error;

    /// Parses a whole container: the signature, then chunks until no byte
    /// is left. A buffer that does not begin with the signature is refused
    /// whatever follows; a chunk that fails to parse fails the container
    /// with the chunk's error. A container that was parsed serializes to
    /// the bytes it was parsed from.
    fn try_from(bytes: &[u8]) -> (r: Result<Png, Error>)
        ensures
            match r {
                Ok(png) => parse_png(bytes@) == Ok::<Seq<ChunkView>, Error>(png@),
                Err(e) => parse_png(bytes@) == Err::<Seq<ChunkView>, Error>(e),
            },
            !has_signature(bytes@) ==> r == Err::<Png, Error>(Error::SignatureMismatch),
            r matches Ok(png) ==> serialize_png(png@) == bytes@,
    {
        proof {
            if parse_png(bytes@) is Ok {
                lemma_serialize_parsed_png(bytes@, parse_png(bytes@).unwrap());
            }
        }
        let total = bytes.len();
        if total < 8 {
            return Err(Error::SignatureMismatch);
        }
        let mut i: usize = 0;
        while i < 8
            invariant
                i <= 8,
                total == bytes@.len(),
                total >= 8,
                forall|j: int| 0 <= j < i ==> bytes@[j] == #[trigger] signature()[j],
            decreases 8 - i,
        {
            if bytes[i] != STANDARD_HEADER[i] {
                assert(bytes@.subrange(0, 8)[i as int] != signature()[i as int]);
                return Err(Error::SignatureMismatch);
            }
            i += 1;
        }
        assert(bytes@.subrange(0, 8) =~= signature());
        let mut chunks: Vec<Chunk> = Vec::new();
        let mut at: usize = 8;
        assert(parse_chunks(bytes@.skip(8)) == after(views(chunks@), parse_chunks(bytes@.skip(8))))
            by {
            if parse_chunks(bytes@.skip(8)) is Ok {
                assert(views(chunks@) + parse_chunks(bytes@.skip(8)).unwrap() =~= parse_chunks(
                    bytes@.skip(8),
                ).unwrap());
            }
        }
        while at < total
            invariant
                8 <= at <= total,
                total == bytes@.len(),
                has_signature(bytes@),
                all_well_formed(views(chunks@)),
                parse_chunks(bytes@.skip(8)) == after(
                    views(chunks@),
                    parse_chunks(bytes@.skip(at as int)),
                ),
            decreases total - at,
        {
            let ghost done = views(chunks@);
            let ghost rest = bytes@.skip(at as int);
            assert(bytes@.subrange(at as int, total as int) =~= rest);
            match Chunk::try_from(slice_subrange(bytes, at, total)) {
                Err(e) => {
                    assert(parse_chunks(rest) == Err::<Seq<ChunkView>, Error>(e));
                    return Err(e);
                },
                Ok(chunk) => {
                    proof {
                        use_type_invariant(&chunk);
                        lemma_parse_step(done, rest, chunk@);
                    }
                    let used = chunk.data().len() + 12;
                    assert(rest.skip(used as int) =~= bytes@.skip(at + used));
                    at = at + used;
                    chunks.push(chunk);
                    assert(views(chunks@) =~= done.push(chunk@));
                },
            }
        }
        assert(bytes@.skip(at as int) =~= Seq::<u8>::empty());
        assert(views(chunks@) + Seq::<ChunkView>::empty()
            =~= views(chunks@));
        Ok(Png { chunks })
    }
}

} // verus!
