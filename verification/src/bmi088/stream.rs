//! Incremental decoding of a byte stream that mixes text lines and binary
//! frames.

use super::decoder::{decode_binary_frame_with_schema, decode_frame_spec, lemma_sample_frame_roundtrip};
use super::encoder::sample_frame;
use super::sample::{sample_fields, sample_raws};
use super::frame::{envelope_spec, find_sof, has_no_sof, is_first_sof, sof_at};
use super::models::{
    Bmi088Frame, Bmi088IdentityFrame, Bmi088SampleFrame, Bmi088SchemaFrame, DecodeErrorModel, FrameModel,
    IdentityModel, SampleModel, SchemaModel,
};
use crate::message::{LinePayload, LinePayloadModel};
use crate::serial::{framer_push, FramedLine, FramedLineModel, LineFramer};
use vstd::prelude::*;

verus! {

/// One item decoded from the stream.
#[derive(Debug)]
pub enum TelemetryPacket {
    Text(FramedLine),
    ShellOutput(LinePayload),
    Identity(Bmi088IdentityFrame),
    Schema(Bmi088SchemaFrame),
    Sample(Bmi088SampleFrame),
}

/// Abstract value of a decoded stream item.
pub enum PacketModel {
    Text(FramedLineModel),
    ShellOutput(LinePayloadModel),
    Identity(IdentityModel),
    Schema(SchemaModel),
    Sample(SampleModel),
}

impl View for TelemetryPacket {
    type V = PacketModel;

    open spec fn view(&self) -> PacketModel {
        match self {
            TelemetryPacket::Text(l) => PacketModel::Text(l@),
            TelemetryPacket::ShellOutput(l) => PacketModel::ShellOutput(l@),
            TelemetryPacket::Identity(i) => PacketModel::Identity(i@),
            TelemetryPacket::Schema(s) => PacketModel::Schema(s@),
            TelemetryPacket::Sample(s) => PacketModel::Sample(s@),
        }
    }
}

/// The abstract values of a list of packets.
pub open spec fn packets_model(ps: Seq<TelemetryPacket>) -> Seq<PacketModel> {
    ps.map_values(|p: TelemetryPacket| p@)
}

/// The decoder state: unconsumed bytes, the byte budget, the text framer and
/// the last identity and cached schema.
pub struct StreamModel {
    pub buffer: Seq<u8>,
    pub max_buffer_bytes: usize,
    pub pending_text: Seq<u8>,
    pub schema: Option<SchemaModel>,
    pub identity: Option<IdentityModel>,
}

/// Text lines as packets.
pub open spec fn text_packets(lines: Seq<FramedLineModel>) -> Seq<PacketModel> {
    lines.map_values(|l: FramedLineModel| PacketModel::Text(l))
}

/// Whether a schema is cached: always without an identity, else only when
/// its shape matches what the identity announced.
pub open spec fn should_cache_spec(identity: Option<IdentityModel>, schema: SchemaModel) -> bool {
    match identity {
        Some(id) => schema.sample_len == id.sample_payload_len as usize && schema.fields.len()
            == id.schema_field_count as nat,
        None => true,
    }
}

/// The position of the first start marker, if any.
pub open spec fn sof_position(buffer: Seq<u8>) -> Option<int> {
    if exists|i: int| is_first_sof(buffer, i) {
        Some(choose|i: int| is_first_sof(buffer, i))
    } else {
        None
    }
}

/// Whether `n` is the position of the first `\n`.
pub open spec fn is_first_newline(buffer: Seq<u8>, n: int) -> bool {
    &&& 0 <= n < buffer.len()
    &&& buffer[n] == 10
    &&& forall|j: int| 0 <= j < n ==> buffer[j] != 10
}

/// The position of the first `\n`, if any.
pub open spec fn newline_position(buffer: Seq<u8>) -> Option<int> {
    if exists|n: int| is_first_newline(buffer, n) {
        Some(choose|n: int| is_first_newline(buffer, n))
    } else {
        None
    }
}

/// Prefixes packets to the outcome of the rest of a run.
pub open spec fn after(ps: Seq<PacketModel>, r: (StreamModel, Seq<PacketModel>)) -> (StreamModel, Seq<PacketModel>) {
    (r.0, ps + r.1)
}

/// Runs the decoder over its buffer until it needs more bytes: the state it
/// ends in and the packets it emits, in order. Bytes before a start marker,
/// and lines when no marker is present, go to the text framer; a frame
/// longer than the budget, or one that does not decode, loses its first
/// byte; a buffer over budget without a marker or line end keeps its last
/// `max_buffer_bytes` bytes.
pub open spec fn stream_run(st: StreamModel) -> (StreamModel, Seq<PacketModel>)
    decreases st.buffer.len(),
{
    let buf = st.buffer;
    match sof_position(buf) {
        Some(i) => if i > 0 {
            let (pending, lines) = framer_push(st.pending_text, buf.take(i));
            after(
                text_packets(lines),
                stream_run(StreamModel { buffer: buf.skip(i), pending_text: pending, ..st }),
            )
        } else if buf.len() < 9 {
            (st, Seq::empty())
        } else {
            let frame_len = 9 + buf[6];
            if frame_len > st.max_buffer_bytes {
                stream_run(StreamModel { buffer: buf.skip(1), ..st })
            } else if buf.len() < frame_len {
                (st, Seq::empty())
            } else {
                let rest = StreamModel { buffer: buf.skip(frame_len), ..st };
                match decode_frame_spec(buf.take(frame_len), st.schema) {
                    Ok(FrameModel::Identity(id)) => after(
                        seq![PacketModel::Identity(id)],
                        stream_run(StreamModel { identity: Some(id), ..rest }),
                    ),
                    Ok(FrameModel::Schema(sc)) => after(
                        seq![PacketModel::Schema(sc)],
                        stream_run(
                            if should_cache_spec(st.identity, sc) {
                                StreamModel { schema: Some(sc), ..rest }
                            } else {
                                rest
                            },
                        ),
                    ),
                    Ok(FrameModel::Sample(s)) => after(seq![PacketModel::Sample(s)], stream_run(rest)),
                    Ok(FrameModel::ShellOutput(l)) => after(
                        seq![PacketModel::ShellOutput(l)],
                        stream_run(rest),
                    ),
                    Err(_) => stream_run(StreamModel { buffer: buf.skip(1), ..st }),
                }
            }
        },
        None => match newline_position(buf) {
            Some(n) => {
                let (pending, lines) = framer_push(st.pending_text, buf.take(n + 1));
                after(
                    text_packets(lines),
                    stream_run(StreamModel { buffer: buf.skip(n + 1), pending_text: pending, ..st }),
                )
            },
            None => if buf.len() > st.max_buffer_bytes {
                (StreamModel { buffer: buf.skip(buf.len() - st.max_buffer_bytes), ..st }, Seq::empty())
            } else {
                (st, Seq::empty())
            },
        },
    }
}

/// The first start marker is unique.
pub proof fn lemma_first_sof_unique(buffer: Seq<u8>, i: int, j: int)
    requires
        is_first_sof(buffer, i),
        is_first_sof(buffer, j),
    ensures
        i == j,
{
    if i < j {
        assert(!sof_at(buffer, i));
    } else if j < i {
        assert(!sof_at(buffer, j));
    }
}

/// Finds the first `\n`.
pub fn find_newline(buffer: &[u8], start: usize) -> (out: Option<usize>)
    requires
        start <= buffer@.len(),
    ensures
        match out {
            Some(n) => start <= n < buffer@.len() && is_first_newline(buffer@.skip(start as int), n - start),
            None => forall|j: int| start <= j < buffer@.len() ==> buffer@[j] != 10,
        },
{
    let mut k: usize = start;
    while k < buffer.len()
        invariant
            start <= k <= buffer@.len(),
            forall|j: int| start <= j < k ==> buffer@[j] != 10,
        decreases buffer.len() - k,
    {
        if buffer[k] == 10 {
            assert(is_first_newline(buffer@.skip(start as int), k - start));
            return Some(k);
        }
        k = k + 1;
    }
    None
}

/// Decoder for a byte stream that mixes text lines and BMI088 frames.
#[derive(Debug)]
pub struct Bmi088StreamDecoder {
    buffer: Vec<u8>,
    max_buffer_bytes: usize,
    text_framer: LineFramer,
    schema: Option<Bmi088SchemaFrame>,
    identity: Option<Bmi088IdentityFrame>,
}

impl View for Bmi088StreamDecoder {
    type V = StreamModel;

    closed spec fn view(&self) -> StreamModel {
        StreamModel {
            buffer: self.buffer@,
            max_buffer_bytes: self.max_buffer_bytes,
            pending_text: self.text_framer@,
            schema: match self.schema {
                Some(s) => Some(s@),
                None => None,
            },
            identity: match self.identity {
                Some(i) => Some(i@),
                None => None,
            },
        }
    }
}

impl Bmi088StreamDecoder {
    /// An empty decoder with a byte budget of at least one byte.
    pub fn new(max_buffer_bytes: usize) -> (out: Self)
        ensures
            out@ == (StreamModel {
                buffer: Seq::empty(),
                max_buffer_bytes: if max_buffer_bytes > 1 {
                    max_buffer_bytes
                } else {
                    1
                },
                pending_text: Seq::empty(),
                schema: None,
                identity: None,
            }),
    {
        Bmi088StreamDecoder {
            buffer: Vec::new(),
            max_buffer_bytes: if max_buffer_bytes > 1 {
                max_buffer_bytes
            } else {
                1
            },
            text_framer: LineFramer::new(),
            schema: None,
            identity: None,
        }
    }

    /// The last identity received, if any.
    pub fn identity(&self) -> (out: Option<&Bmi088IdentityFrame>)
        ensures
            match out {
                Some(i) => self@.identity == Some(i@),
                None => self@.identity is None,
            },
    {
        self.identity.as_ref()
    }

    /// The cached schema, if any.
    pub fn schema(&self) -> (out: Option<&Bmi088SchemaFrame>)
        ensures
            match out {
                Some(s) => self@.schema == Some(s@),
                None => self@.schema is None,
            },
    {
        self.schema.as_ref()
    }

    /// Whether a newly decoded schema replaces the cached one.
    fn should_cache_schema(&self, schema: &Bmi088SchemaFrame) -> (out: bool)
        ensures
            out == should_cache_spec(self@.identity, schema@),
    {
        match &self.identity {
            Some(identity) => schema.sample_len == identity.sample_payload_len as usize
                && schema.fields.len() == identity.schema_field_count as usize,
            None => true,
        }
    }
}

/// No start marker in a buffer means none in any suffix of it.
pub proof fn lemma_no_sof_skip(buffer: Seq<u8>, k: int)
    requires
        has_no_sof(buffer),
        0 <= k <= buffer.len(),
    ensures
        has_no_sof(buffer.skip(k)),
{
    assert forall|j: int| !#[trigger] sof_at(buffer.skip(k), j) by {
        if sof_at(buffer.skip(k), j) {
            assert(sof_at(buffer, j + k));
        }
    }
}

/// Appends text lines as packets.
fn push_text_packets(packets: &mut Vec<TelemetryPacket>, lines: &Vec<FramedLine>)
    ensures
        packets_model(final(packets)@) == packets_model(old(packets)@) + text_packets(
            lines@.map_values(|l: FramedLine| l@),
        ),
{
    let mut i: usize = 0;
    while i < lines.len()
        invariant
            i <= lines@.len(),
            packets_model(packets@) =~= packets_model(old(packets)@) + text_packets(
                lines@.map_values(|l: FramedLine| l@),
            ).take(i as int),
        decreases lines.len() - i,
    {
        let ghost before = packets@;
        packets.push(TelemetryPacket::Text(lines[i].clone()));
        assert(packets_model(packets@) =~= packets_model(before).push(PacketModel::Text(lines@[i as int]@)));
        i = i + 1;
    }
    assert(text_packets(lines@.map_values(|l: FramedLine| l@)).take(lines@.len() as int) =~= text_packets(
        lines@.map_values(|l: FramedLine| l@),
    ));
}

/// No `\n` anywhere means no first `\n`.
pub proof fn lemma_no_newline(buffer: Seq<u8>)
    requires
        forall|j: int| 0 <= j < buffer.len() ==> buffer[j] != 10,
    ensures
        newline_position(buffer) is None,
{
    assert forall|n: int| !is_first_newline(buffer, n) by {}
}

/// What one step of the decoder loop did: bytes consumed, packets emitted,
/// and whether the loop stops.
pub open spec fn step_ok(cur: StreamModel, next: StreamModel, consumed: int, emitted: Seq<PacketModel>, stop: bool) -> bool {
    &&& 0 <= consumed <= cur.buffer.len()
    &&& next.buffer == cur.buffer.skip(consumed)
    &&& next.max_buffer_bytes == cur.max_buffer_bytes
    &&& stream_run(cur) == after(emitted, stream_run(next))
    &&& stop ==> stream_run(next) == (next, Seq::<PacketModel>::empty())
    &&& !stop ==> consumed > 0
}

impl Bmi088StreamDecoder {
    /// The decoder state with the given unconsumed bytes.
    pub closed spec fn with_buffer(&self, buffer: Seq<u8>) -> StreamModel {
        StreamModel { buffer, ..self@ }
    }

    /// Handles a buffer that starts with a start marker.
    fn frame_step(&mut self, view: &[u8], packets: &mut Vec<TelemetryPacket>) -> (out: (usize, bool))
        requires
            sof_position(view@) == Some(0int),
        ensures
            step_ok(
                old(self).with_buffer(view@),
                final(self).with_buffer(view@.skip(out.0 as int)),
                out.0 as int,
                packets_model(final(packets)@).skip(old(packets)@.len() as int),
                out.1,
            ),
            packets_model(final(packets)@).take(old(packets)@.len() as int) == packets_model(old(packets)@),
            final(packets)@.len() >= old(packets)@.len(),
    {
        let ghost cur = self.with_buffer(view@);
        let ghost n0 = packets@.len();
        if view.len() < 9 {
            assert(packets_model(packets@).skip(n0 as int) =~= Seq::<PacketModel>::empty());
            assert(view@.skip(0) =~= view@);
            return (0, true);
        }
        let frame_len: usize = 9 + view[6] as usize;
        if frame_len > self.max_buffer_bytes {
            assert(packets_model(packets@).skip(n0 as int) =~= Seq::<PacketModel>::empty());
            assert(after(Seq::empty(), stream_run(self.with_buffer(view@.skip(1)))) =~= stream_run(self.with_buffer(view@.skip(1))));
            return (1, false);
        }
        if view.len() < frame_len {
            assert(packets_model(packets@).skip(n0 as int) =~= Seq::<PacketModel>::empty());
            assert(view@.skip(0) =~= view@);
            return (0, true);
        }
        let frame = vstd::slice::slice_subrange(view, 0, frame_len);
        assert(frame@ =~= view@.take(frame_len as int));
        let decoded = decode_binary_frame_with_schema(frame, self.schema.as_ref());
        let consumed: usize;
        match decoded {
            Ok(Bmi088Frame::Identity(identity)) => {
                self.identity = Some(identity.clone());
                packets.push(TelemetryPacket::Identity(identity));
                consumed = frame_len;
            },
            Ok(Bmi088Frame::Schema(schema)) => {
                if self.should_cache_schema(&schema) {
                    self.schema = Some(schema.clone());
                }
                packets.push(TelemetryPacket::Schema(schema));
                consumed = frame_len;
            },
            Ok(Bmi088Frame::Sample(sample)) => {
                packets.push(TelemetryPacket::Sample(sample));
                consumed = frame_len;
            },
            Ok(Bmi088Frame::ShellOutput(output)) => {
                packets.push(TelemetryPacket::ShellOutput(output));
                consumed = frame_len;
            },
            Err(_) => {
                consumed = 1;
            },
        }
        proof {
            if packets@.len() > n0 {
                assert(packets_model(packets@).skip(n0 as int) =~= seq![packets@.last()@]);
            } else {
                assert(packets_model(packets@).skip(n0 as int) =~= Seq::<PacketModel>::empty());
                assert(after(Seq::empty(), stream_run(self.with_buffer(view@.skip(1)))) =~= stream_run(self.with_buffer(view@.skip(1))));
            }
            assert(packets_model(packets@).take(n0 as int) =~= packets_model(old(packets)@));
        }
        (consumed, false)
    }

    /// One step of the decoder loop on the unconsumed bytes `view`.
    fn scan_step(&mut self, view: &[u8], packets: &mut Vec<TelemetryPacket>) -> (out: (usize, bool))
        ensures
            step_ok(
                old(self).with_buffer(view@),
                final(self).with_buffer(view@.skip(out.0 as int)),
                out.0 as int,
                packets_model(final(packets)@).skip(old(packets)@.len() as int),
                out.1,
            ),
            packets_model(final(packets)@).take(old(packets)@.len() as int) == packets_model(old(packets)@),
            final(packets)@.len() >= old(packets)@.len(),
    {
        let ghost n0 = packets@.len();
        match find_sof(view) {
            Some(i) => {
                proof {
                    lemma_first_sof_unique(view@, i as int, choose|j: int| is_first_sof(view@, j));
                    assert(sof_position(view@) == Some(i as int));
                }
                if i > 0 {
                    let prefix = vstd::slice::slice_subrange(view, 0, i);
                    assert(prefix@ =~= view@.take(i as int));
                    let lines = self.text_framer.push(prefix);
                    push_text_packets(packets, &lines);
                    assert(packets_model(packets@).skip(n0 as int) =~= text_packets(lines@.map_values(|l: FramedLine| l@)));
                    assert(packets_model(packets@).take(n0 as int) =~= packets_model(old(packets)@));
                    (i, false)
                } else {
                    self.frame_step(view, packets)
                }
            },
            None => {
                proof {
                    assert forall|j: int| !is_first_sof(view@, j) by {}
                }
                match find_newline(view, 0) {
                    Some(n) => {
                        proof {
                            assert(view@.skip(0) =~= view@);
                            assert(is_first_newline(view@, n as int));
                            assert(newline_position(view@) == Some(n as int));
                        }
                        let total = view.len();
                        assert(n < total);
                        let prefix = vstd::slice::slice_subrange(view, 0, n + 1);
                        assert(prefix@ =~= view@.take(n + 1));
                        let lines = self.text_framer.push(prefix);
                        push_text_packets(packets, &lines);
                        assert(packets_model(packets@).skip(n0 as int) =~= text_packets(lines@.map_values(|l: FramedLine| l@)));
                        assert(packets_model(packets@).take(n0 as int) =~= packets_model(old(packets)@));
                        (n + 1, false)
                    },
                    None => {
                        proof {
                            assert(view@.skip(0) =~= view@);
                            lemma_no_newline(view@);
                            assert(packets_model(packets@).skip(n0 as int) =~= Seq::<PacketModel>::empty());
                            assert(packets_model(packets@).take(n0 as int) =~= packets_model(old(packets)@));
                        }
                        if view.len() > self.max_buffer_bytes {
                            let drop = view.len() - self.max_buffer_bytes;
                            proof {
                                lemma_no_sof_skip(view@, drop as int);
                                let nb = view@.skip(drop as int);
                                assert forall|j: int| !is_first_sof(nb, j) by {}
                                assert forall|j: int| 0 <= j < nb.len() implies nb[j] != 10 by {
                                    assert(nb[j] == view@[j + drop]);
                                }
                                lemma_no_newline(nb);
                            }
                            (drop, true)
                        } else {
                            (0, true)
                        }
                    },
                }
            },
        }
    }

    /// Feeds a chunk of received bytes and returns the packets decoded from
    /// the stream so far, in order.
    pub fn push(&mut self, chunk: &[u8]) -> (out: Vec<TelemetryPacket>)
        ensures
            (final(self)@, packets_model(out@)) == stream_run(
                StreamModel { buffer: old(self)@.buffer + chunk@, ..old(self)@ },
            ),
    {
        let mut buf: Vec<u8> = Vec::new();
        std::mem::swap(&mut buf, &mut self.buffer);
        let mut k: usize = 0;
        while k < chunk.len()
            invariant
                k <= chunk@.len(),
                buf@ =~= old(self)@.buffer + chunk@.take(k as int),
            decreases chunk.len() - k,
        {
            buf.push(chunk[k]);
            k = k + 1;
        }
        assert(chunk@.take(chunk@.len() as int) =~= chunk@);
        let ghost init = StreamModel { buffer: old(self)@.buffer + chunk@, ..old(self)@ };
        let mut packets: Vec<TelemetryPacket> = Vec::new();
        let mut start: usize = 0;
        let mut done = false;
        assert(buf@.skip(0) =~= buf@);
        assert(self.with_buffer(buf@.skip(0)) == init);
        assert(after(packets_model(packets@), stream_run(init)) =~= stream_run(init));
        while !done
            invariant
                start <= buf@.len(),
                stream_run(init) == after(packets_model(packets@), stream_run(self.with_buffer(buf@.skip(start as int)))),
                done ==> stream_run(self.with_buffer(buf@.skip(start as int))) == (self.with_buffer(
                    buf@.skip(start as int),
                ), Seq::<PacketModel>::empty()),
            decreases buf@.len() - start + (if done {
                0int
            } else {
                1int
            }),
        {
            let view = vstd::slice::slice_subrange(buf.as_slice(), start, buf.len());
            assert(view@ =~= buf@.skip(start as int));
            let ghost before = packets@;
            let (consumed, stop) = self.scan_step(view, &mut packets);
            proof {
                assert(buf@.skip(start + consumed) =~= view@.skip(consumed as int));
                let emitted = packets_model(packets@).skip(before.len() as int);
                assert(packets_model(packets@) =~= packets_model(before) + emitted);
                assert(packets_model(before) + (emitted + stream_run(self.with_buffer(buf@.skip(start + consumed))).1)
                    =~= packets_model(packets@) + stream_run(self.with_buffer(buf@.skip(start + consumed))).1);
            }
            start = start + consumed;
            done = stop;
        }
        self.buffer = vstd::slice::slice_to_vec(vstd::slice::slice_subrange(buf.as_slice(), start, buf.len()));
        assert(self.buffer@ =~= buf@.skip(start as int));
        assert(packets_model(packets@) + Seq::<PacketModel>::empty() =~= packets_model(packets@));
        packets
    }
}

/// The packet that carries a decoded frame.
pub open spec fn packet_of(frame: FrameModel) -> PacketModel {
    match frame {
        FrameModel::Identity(i) => PacketModel::Identity(i),
        FrameModel::Schema(s) => PacketModel::Schema(s),
        FrameModel::Sample(s) => PacketModel::Sample(s),
        FrameModel::ShellOutput(l) => PacketModel::ShellOutput(l),
    }
}

/// A decoder with no unconsumed bytes that receives one whole, valid frame
/// within its budget emits exactly the decoded frame and consumes it all.
pub proof fn lemma_stream_single_frame(st: StreamModel, frame: Seq<u8>)
    requires
        st.buffer.len() == 0,
        frame.len() <= st.max_buffer_bytes,
        decode_frame_spec(frame, st.schema) is Ok,
    ensures
        stream_run(StreamModel { buffer: frame, ..st }).1 == seq![
            packet_of(decode_frame_spec(frame, st.schema)->Ok_0),
        ],
        stream_run(StreamModel { buffer: frame, ..st }).0.buffer.len() == 0,
{
    let s0 = StreamModel { buffer: frame, ..st };
    assert(envelope_spec(frame) is Ok);
    assert(is_first_sof(frame, 0));
    lemma_first_sof_unique(frame, 0, choose|j: int| is_first_sof(frame, j));
    assert(sof_position(frame) == Some(0int));
    assert(frame.take(frame.len() as int) =~= frame);
    let empty: Seq<u8> = frame.skip(frame.len() as int);
    assert(empty =~= Seq::<u8>::empty());
    assert forall|j: int| !is_first_sof(empty, j) by {}
    assert forall|n: int| !is_first_newline(empty, n) by {}
    let fm = decode_frame_spec(frame, st.schema)->Ok_0;
    match fm {
        FrameModel::Identity(id) => {
            assert(stream_run(StreamModel { buffer: empty, identity: Some(id), ..st }).1 =~= Seq::<PacketModel>::empty());
        },
        FrameModel::Schema(sc) => {
            assert(stream_run(StreamModel { buffer: empty, schema: Some(sc), ..st }).1 =~= Seq::<PacketModel>::empty());
            assert(stream_run(StreamModel { buffer: empty, ..st }).1 =~= Seq::<PacketModel>::empty());
        },
        _ => {
            assert(stream_run(StreamModel { buffer: empty, ..st }).1 =~= Seq::<PacketModel>::empty());
        },
    }
    assert(stream_run(s0).1 =~= seq![packet_of(fm)]);
}

/// A valid frame that arrives in two reads decodes as if it arrived in
/// one: the first part emits nothing and waits in the buffer, and the
/// second part completes the frame.
pub proof fn lemma_stream_split_frame(st: StreamModel, frame: Seq<u8>, k: int)
    requires
        st.buffer.len() == 0,
        frame.len() <= st.max_buffer_bytes,
        decode_frame_spec(frame, st.schema) is Ok,
        0 < k < frame.len(),
    ensures
        stream_run(StreamModel { buffer: frame.take(k), ..st }) == (
            StreamModel { buffer: frame.take(k), ..st },
            Seq::<PacketModel>::empty(),
        ),
        stream_run(StreamModel { buffer: frame.take(k) + frame.skip(k), ..st }).1 == seq![
            packet_of(decode_frame_spec(frame, st.schema)->Ok_0),
        ],
        stream_run(StreamModel { buffer: frame.take(k) + frame.skip(k), ..st }).0.buffer.len() == 0,
{
    let b = frame.take(k);
    assert(envelope_spec(frame) is Ok);
    if k == 1 {
        assert forall|j: int| !is_first_sof(b, j) by {}
        assert(sof_position(b) is None);
        assert forall|n: int| !is_first_newline(b, n) by {
            if is_first_newline(b, n) {
                assert(b[0] == frame[0]);
            }
        }
        assert(newline_position(b) is None);
    } else {
        assert(b[0] == frame[0] && b[1] == frame[1]);
        assert(is_first_sof(b, 0));
        lemma_first_sof_unique(b, 0, choose|j: int| is_first_sof(b, j));
        assert(sof_position(b) == Some(0int));
        if b.len() >= 9 {
            assert(b[6] == frame[6]);
        }
    }
    assert(frame.take(k) + frame.skip(k) =~= frame);
    lemma_stream_single_frame(st, frame);
}

/// A schema frame received before any identity is cached, and a sample
/// frame written for that schema and received next decodes with it.
pub proof fn lemma_cached_schema_decodes_samples(
    st: StreamModel,
    schema_bytes: Seq<u8>,
    sc: SchemaModel,
    sample: SampleModel,
    seq: u8,
)
    requires
        st.buffer.len() == 0,
        st.identity is None,
        schema_bytes.len() <= st.max_buffer_bytes,
        decode_frame_spec(schema_bytes, st.schema) == Ok::<FrameModel, DecodeErrorModel>(FrameModel::Schema(sc)),
        sample.fields.len() == sc.fields.len(),
        sc.sample_len == 2 * sample.fields.len(),
        sample.fields.len() <= 127,
        sample_frame(sample, seq).len() <= st.max_buffer_bytes,
    ensures
        stream_run(StreamModel { buffer: schema_bytes, ..st }) == (
            StreamModel { buffer: Seq::empty(), schema: Some(sc), ..st },
            seq![PacketModel::Schema(sc)],
        ),
        stream_run(StreamModel { buffer: sample_frame(sample, seq), schema: Some(sc), ..st }).1 == seq![
            PacketModel::Sample(SampleModel { seq, fields: sample_fields(sc.fields, sample_raws(sample)) }),
        ],
{
    let frame = schema_bytes;
    assert(envelope_spec(frame) is Ok);
    assert(is_first_sof(frame, 0));
    lemma_first_sof_unique(frame, 0, choose|j: int| is_first_sof(frame, j));
    assert(sof_position(frame) == Some(0int));
    assert(frame.take(frame.len() as int) =~= frame);
    let empty: Seq<u8> = frame.skip(frame.len() as int);
    assert(empty =~= Seq::<u8>::empty());
    assert forall|j: int| !is_first_sof(empty, j) by {}
    assert forall|n: int| !is_first_newline(empty, n) by {}
    assert(stream_run(StreamModel { buffer: empty, schema: Some(sc), ..st }) == (
        StreamModel { buffer: empty, schema: Some(sc), ..st },
        Seq::<PacketModel>::empty(),
    ));
    assert(seq![PacketModel::Schema(sc)] + Seq::<PacketModel>::empty() =~= seq![PacketModel::Schema(sc)]);
    let st1 = StreamModel { buffer: Seq::empty(), schema: Some(sc), ..st };
    lemma_sample_frame_roundtrip(sample, seq, sc);
    lemma_stream_single_frame(st1, sample_frame(sample, seq));
}

/// The decoder's state after it emitted a decoded frame, its buffer aside:
/// an identity is remembered, and a schema is cached when it fits the
/// identity.
pub open spec fn after_frame(st: StreamModel, fm: FrameModel) -> StreamModel {
    match fm {
        FrameModel::Identity(id) => StreamModel { identity: Some(id), ..st },
        FrameModel::Schema(sc) => if should_cache_spec(st.identity, sc) {
            StreamModel { schema: Some(sc), ..st }
        } else {
            st
        },
        _ => st,
    }
}

/// The bytes of a list of frames sent one after the other.
pub open spec fn concat_frames(frames: Seq<Seq<u8>>) -> Seq<u8>
    decreases frames.len(),
{
    if frames.len() == 0 {
        Seq::empty()
    } else {
        frames[0] + concat_frames(frames.drop_first())
    }
}

/// What a decoder in state `st` makes of a list of frames received in
/// order, each within the budget and decoding with what the decoder knows
/// when it arrives: the state it ends in and the packets, one per frame;
/// `None` if some frame does not fit or does not decode.
pub open spec fn frames_outcome(st: StreamModel, frames: Seq<Seq<u8>>) -> Option<(StreamModel, Seq<PacketModel>)>
    decreases frames.len(),
{
    if frames.len() == 0 {
        Some((st, Seq::empty()))
    } else if frames[0].len() > st.max_buffer_bytes {
        None
    } else {
        match decode_frame_spec(frames[0], st.schema) {
            Ok(fm) => match frames_outcome(after_frame(st, fm), frames.drop_first()) {
                Some(r) => Some((r.0, seq![packet_of(fm)] + r.1)),
                None => None,
            },
            Err(_) => None,
        }
    }
}

/// A whole valid frame at the head of the buffer is emitted, and the run
/// goes on with the bytes after it.
proof fn lemma_stream_frame_then(st: StreamModel, frame: Seq<u8>, rest: Seq<u8>)
    requires
        frame.len() <= st.max_buffer_bytes,
        decode_frame_spec(frame, st.schema) is Ok,
    ensures
        stream_run(StreamModel { buffer: frame + rest, ..st }) == after(
            seq![packet_of(decode_frame_spec(frame, st.schema)->Ok_0)],
            stream_run(
                StreamModel {
                    buffer: rest,
                    ..after_frame(st, decode_frame_spec(frame, st.schema)->Ok_0)
                },
            ),
        ),
{
    let buf = frame + rest;
    assert(envelope_spec(frame) is Ok);
    assert(buf[0] == frame[0] && buf[1] == frame[1] && buf[6] == frame[6]);
    assert(is_first_sof(buf, 0));
    lemma_first_sof_unique(buf, 0, choose|j: int| is_first_sof(buf, j));
    assert(sof_position(buf) == Some(0int));
    assert(buf.take(frame.len() as int) =~= frame);
    assert(buf.skip(frame.len() as int) =~= rest);
}

/// An identity frame followed by a schema frame: both are emitted, the
/// identity is remembered, and the schema is cached exactly when its sample
/// length is the identity's sample payload length and its field count is
/// the identity's schema field count; otherwise the cached schema stays as
/// it was.
pub proof fn lemma_identity_then_schema(
    st: StreamModel,
    identity_bytes: Seq<u8>,
    id: IdentityModel,
    schema_bytes: Seq<u8>,
    sc: SchemaModel,
)
    requires
        identity_bytes.len() <= st.max_buffer_bytes,
        schema_bytes.len() <= st.max_buffer_bytes,
        decode_frame_spec(identity_bytes, st.schema) == Ok::<FrameModel, DecodeErrorModel>(FrameModel::Identity(id)),
        decode_frame_spec(schema_bytes, st.schema) == Ok::<FrameModel, DecodeErrorModel>(FrameModel::Schema(sc)),
    ensures
        ({
            let r = stream_run(StreamModel { buffer: identity_bytes + schema_bytes, ..st });
            &&& r.1 == seq![PacketModel::Identity(id), PacketModel::Schema(sc)]
            &&& r.0.identity == Some(id)
            &&& r.0.buffer.len() == 0
            &&& r.0.schema == if sc.sample_len == id.sample_payload_len && sc.fields.len()
                == id.schema_field_count {
                Some(sc)
            } else {
                st.schema
            }
        }),
{
    let st1 = StreamModel { identity: Some(id), ..st };
    lemma_stream_frame_then(st, identity_bytes, schema_bytes);
    assert(after_frame(st, FrameModel::Identity(id)) == st1);
    assert(StreamModel { buffer: schema_bytes, ..st1 }.schema == st.schema);
    lemma_stream_frame_then(st1, schema_bytes, Seq::empty());
    assert(schema_bytes + Seq::<u8>::empty() =~= schema_bytes);
    let st2 = after_frame(st1, FrameModel::Schema(sc));
    let empty = Seq::<u8>::empty();
    assert forall|j: int| !is_first_sof(empty, j) by {}
    assert forall|n: int| !is_first_newline(empty, n) by {}
    assert(stream_run(StreamModel { buffer: empty, ..st2 }) == (
        StreamModel { buffer: empty, ..st2 },
        Seq::<PacketModel>::empty(),
    ));
    assert(seq![PacketModel::Identity(id)] + (seq![PacketModel::Schema(sc)] + Seq::<PacketModel>::empty())
        =~= seq![PacketModel::Identity(id), PacketModel::Schema(sc)]);
}

/// The two reads of `bytes`, split at `k`, agree with `frames_outcome`,
/// and so does one read of all of them.
pub open spec fn split_agrees(st: StreamModel, frames: Seq<Seq<u8>>, k: int) -> bool {
    let bytes = concat_frames(frames);
    let expected = frames_outcome(st, frames)->Some_0;
    let first = stream_run(StreamModel { buffer: bytes.take(k), ..st });
    let second = stream_run(StreamModel { buffer: first.0.buffer + bytes.skip(k), ..first.0 });
    &&& stream_run(StreamModel { buffer: bytes, ..st }) == (
        StreamModel { buffer: Seq::empty(), ..expected.0 },
        expected.1,
    )
    &&& first.1 + second.1 == expected.1
    &&& second.0 == StreamModel { buffer: Seq::empty(), ..expected.0 }
}

/// The state after the head frame of a list, with nothing buffered.
spec fn head_state(st: StreamModel, frames: Seq<Seq<u8>>) -> StreamModel {
    StreamModel { buffer: Seq::empty(), ..after_frame(st, decode_frame_spec(frames[0], st.schema)->Ok_0) }
}

/// No frame: nothing is emitted, however the empty input is split.
proof fn lemma_split_no_frames(st: StreamModel, k: int)
    requires
        st.buffer.len() == 0,
        k == 0,
    ensures
        split_agrees(st, Seq::empty(), k),
{
    let frames = Seq::<Seq<u8>>::empty();
    let bytes = concat_frames(frames);
    assert(bytes =~= Seq::<u8>::empty());
    assert(st.buffer =~= Seq::<u8>::empty());
    assert(bytes.take(k) =~= Seq::<u8>::empty());
    assert(bytes.skip(k) =~= Seq::<u8>::empty());
    assert forall|j: int| !is_first_sof(bytes, j) by {}
    assert forall|n: int| !is_first_newline(bytes, n) by {}
    assert(StreamModel { buffer: bytes, ..st } == st);
    assert(Seq::<u8>::empty() + Seq::<u8>::empty() =~= Seq::<u8>::empty());
    assert(Seq::<PacketModel>::empty() + Seq::<PacketModel>::empty() =~= Seq::<PacketModel>::empty());
}

/// The facts about the head frame that every case below uses.
proof fn lemma_split_head_facts(st: StreamModel, frames: Seq<Seq<u8>>)
    requires
        st.buffer.len() == 0,
        frames.len() > 0,
        frames_outcome(st, frames) is Some,
    ensures
        frames[0].len() <= st.max_buffer_bytes,
        decode_frame_spec(frames[0], st.schema) is Ok,
        head_state(st, frames) == after_frame(st, decode_frame_spec(frames[0], st.schema)->Ok_0),
        frames_outcome(head_state(st, frames), frames.drop_first()) is Some,
        frames_outcome(st, frames)->Some_0.0 == frames_outcome(head_state(st, frames), frames.drop_first())->Some_0.0,
        frames_outcome(st, frames)->Some_0.1 == seq![packet_of(decode_frame_spec(frames[0], st.schema)->Ok_0)]
            + frames_outcome(head_state(st, frames), frames.drop_first())->Some_0.1,
        concat_frames(frames) == frames[0] + concat_frames(frames.drop_first()),
        head_state(st, frames).buffer.len() == 0,
{
    assert(st.buffer =~= Seq::<u8>::empty());
    let fm = decode_frame_spec(frames[0], st.schema)->Ok_0;
    assert(after_frame(st, fm).buffer == st.buffer);
    assert(head_state(st, frames) == after_frame(st, fm));
}

/// One read of all the bytes.
#[verifier::spinoff_prover]
proof fn lemma_split_one_read(st: StreamModel, frames: Seq<Seq<u8>>)
    requires
        st.buffer.len() == 0,
        frames.len() > 0,
        frames_outcome(st, frames) is Some,
        split_agrees(head_state(st, frames), frames.drop_first(), 0),
    ensures
        stream_run(StreamModel { buffer: concat_frames(frames), ..st }) == (
            StreamModel { buffer: Seq::empty(), ..frames_outcome(st, frames)->Some_0.0 },
            frames_outcome(st, frames)->Some_0.1,
        ),
{
    lemma_split_head_facts(st, frames);
    let f = frames[0];
    let b = concat_frames(frames.drop_first());
    let st1 = head_state(st, frames);
    lemma_stream_frame_then(st, f, b);
    assert(StreamModel { buffer: b, ..after_frame(st, decode_frame_spec(f, st.schema)->Ok_0) }
        == StreamModel { buffer: b, ..st1 });
}

/// A split that falls after the head frame.
#[verifier::spinoff_prover]
#[verifier::rlimit(50)]
proof fn lemma_split_after_head(st: StreamModel, frames: Seq<Seq<u8>>, k: int)
    requires
        st.buffer.len() == 0,
        frames.len() > 0,
        frames_outcome(st, frames) is Some,
        frames[0].len() <= k <= concat_frames(frames).len(),
        split_agrees(head_state(st, frames), frames.drop_first(), 0),
        split_agrees(head_state(st, frames), frames.drop_first(), k - frames[0].len()),
    ensures
        split_agrees(st, frames, k),
{
    lemma_split_head_facts(st, frames);
    lemma_split_one_read(st, frames);
    let f = frames[0];
    let b = concat_frames(frames.drop_first());
    let st1 = head_state(st, frames);
    let fm = decode_frame_spec(f, st.schema)->Ok_0;
    let bytes = concat_frames(frames);
    let k1 = k - f.len();
    assert(bytes.take(k) =~= f + b.take(k1));
    assert(bytes.skip(k) =~= b.skip(k1));
    lemma_stream_frame_then(st, f, b.take(k1));
    assert(StreamModel { buffer: b.take(k1), ..after_frame(st, fm) } == StreamModel { buffer: b.take(k1), ..st1 });
    let first1 = stream_run(StreamModel { buffer: b.take(k1), ..st1 });
    let second1 = stream_run(StreamModel { buffer: first1.0.buffer + b.skip(k1), ..first1.0 });
    assert(seq![packet_of(fm)] + first1.1 + second1.1 =~= seq![packet_of(fm)] + (first1.1 + second1.1));
}

/// A split that falls inside the head frame.
#[verifier::spinoff_prover]
#[verifier::rlimit(50)]
proof fn lemma_split_inside_head(st: StreamModel, frames: Seq<Seq<u8>>, k: int)
    requires
        st.buffer.len() == 0,
        frames.len() > 0,
        frames_outcome(st, frames) is Some,
        0 <= k < frames[0].len(),
        split_agrees(head_state(st, frames), frames.drop_first(), 0),
    ensures
        split_agrees(st, frames, k),
{
    lemma_split_head_facts(st, frames);
    lemma_split_one_read(st, frames);
    let f = frames[0];
    let bytes = concat_frames(frames);
    let expected = frames_outcome(st, frames)->Some_0;
    assert(st.buffer =~= Seq::<u8>::empty());
    assert(StreamModel { buffer: Seq::empty(), ..st } == st);
    assert(bytes.take(k) =~= f.take(k));
    if k == 0 {
        assert(f.take(0) =~= Seq::<u8>::empty());
        assert(StreamModel { buffer: f.take(k), ..st } == st);
        assert forall|j: int| !is_first_sof(f.take(0), j) by {}
        assert forall|n: int| !is_first_newline(f.take(0), n) by {}
    } else {
        lemma_stream_split_frame(st, f, k);
    }
    assert(stream_run(StreamModel { buffer: f.take(k), ..st }) == (
        StreamModel { buffer: f.take(k), ..st },
        Seq::<PacketModel>::empty(),
    ));
    assert(f.take(k) + bytes.skip(k) =~= bytes);
    assert(Seq::<PacketModel>::empty() + expected.1 =~= expected.1);
}

/// A list of valid frames decodes the same however its bytes are split
/// between two reads: the first read emits the frames it holds whole and
/// keeps the start of the next, the second emits the others, and together
/// they give the packets and the state of one read of all the bytes.
pub proof fn lemma_stream_frames_any_split(st: StreamModel, frames: Seq<Seq<u8>>, k: int)
    requires
        st.buffer.len() == 0,
        frames_outcome(st, frames) is Some,
        0 <= k <= concat_frames(frames).len(),
    ensures
        split_agrees(st, frames, k),
    decreases frames.len(),
{
    if frames.len() == 0 {
        assert(concat_frames(frames).len() == 0);
        assert(frames =~= Seq::<Seq<u8>>::empty());
        lemma_split_no_frames(st, k);
    } else {
        lemma_split_head_facts(st, frames);
        let st1 = head_state(st, frames);
        let tail = frames.drop_first();
        lemma_stream_frames_any_split(st1, tail, 0);
        if k >= frames[0].len() {
            lemma_stream_frames_any_split(st1, tail, k - frames[0].len());
            lemma_split_after_head(st, frames, k);
        } else {
            lemma_split_inside_head(st, frames, k);
        }
    }
}

} // verus!
