//! Finding the fields of a message by feeding it single-field inputs and watching
//! which of its fields change.
use vstd::prelude::*;
use crate::saved_values::{
    lemma_detect_keeps_offsets, lemma_first_same_offsets, spec_all_saved,
    spec_detect, spec_has, spec_is_watched, spec_saved, spec_watched, FieldSnapshot,
    TrackedValues,
};
use crate::text::str_eq;
use crate::varint::{
    encode_varint, lemma_wire_tag_parts, pack_wire_tag, spec_varint, WIRE_TYPE_I32,
    WIRE_TYPE_I64, WIRE_TYPE_LENGTH_PREFIXED, WIRE_TYPE_VAR_INT,
};
use crate::vm::{spec_signature_matches, Il2cppClass, Il2cppMethod, Il2cppObject, Il2cppType, MethodSignature};

verus! {

/// Obfuscated name of the protobuf input stream class.
pub const CODED_INPUT_STREAM: &'static str = "CPAGGPCFFMK";

/// Obfuscated name of `MergeFrom(CodedInputStream)`.
pub const MERGE_FROM: &'static str = "DFPJONEONIO";

/// Obfuscated name of the method that returns a message's command id.
pub const GET_CMD_ID: &'static str = "LCKPHIEEODG";

/// Field numbers are tried from one up to, not including, this bound.
pub const FIELD_ID_LIMIT: u32 = 4096;

/// The alternative a oneof field belongs to.
pub struct OneofVariantInfo {
    /// Offset of the field holding which alternative is set.
    pub oneof_enum_offset: u32,
    /// The type of the value that was stored.
    pub variant_type: Il2cppType,
}

/// What one probe found out about the field it hit.
pub struct FieldDetectionInfo {
    /// The value the field took (its low 32 bits).
    pub value: u32,
    /// Offset of the field that changed.
    pub offset: u32,
    pub oneof_extra_data: Option<OneofVariantInfo>,
}

/// A field found in a message.
pub struct FieldMinimalInfo {
    /// The wire tag that hit it.
    pub tag: u32,
    /// The constant its value is xored with.
    pub xor: u32,
    pub offset: u32,
    pub oneof_extra_data: Option<OneofVariantInfo>,
}

/// The fields found in a message, with its command id.
pub struct MessageMinimalInfo {
    pub cmd_id: u16,
    pub fields: Vec<FieldMinimalInfo>,
}

impl MessageMinimalInfo {
    /// A message with the command id and no field found yet.
    pub fn new(cmd_id: u16) -> (r: Self)
        ensures
            r.cmd_id == cmd_id,
            r.fields@.len() == 0,
    {
        MessageMinimalInfo { cmd_id, fields: Vec::new() }
    }
}

// ---------------------------------------------------------------------------
// One probe
// ---------------------------------------------------------------------------

/// The input of a probe: the wire tag as a varint followed by the payload.
pub fn probe_buffer(wire_tag: u32, data: &[u8]) -> (buf: Vec<u8>)
    ensures
        buf@ == spec_varint(wire_tag as nat) + data@,
{
    let mut buf: Vec<u8> = Vec::new();
    encode_varint(&mut buf, wire_tag);
    let ghost head = buf@;
    let mut i: usize = 0;
    while i < data.len()
        invariant
            i <= data@.len(),
            head == spec_varint(wire_tag as nat),
            buf@ == head + data@.take(i as int),
        decreases data@.len() - i,
    {
        buf.push(data[i]);
        assert(data@.take(i + 1) =~= data@.take(i as int).push(data@[i as int]));
        i = i + 1;
    }
    assert(data@.take(i as int) =~= data@);
    buf
}

/// What the fields that changed in one probe say.
pub enum Detection {
    /// No field changed: the tag is not a field of the message.
    Nothing,
    /// One field changed.
    Field(FieldDetectionInfo),
    /// Two fields changed: the storage of a oneof and the field telling which
    /// alternative is set.
    Oneof { data_offset: u32, oneof_enum_offset: u32 },
}

/// The first field at the offset (the length when there is none).
pub open spec fn spec_field_at(fields: Seq<FieldSnapshot>, offset: u32) -> int
    decreases fields.len(),
{
    if fields.len() == 0 {
        0
    } else if fields[0].offset == offset {
        0
    } else {
        1 + spec_field_at(fields.drop_first(), offset)
    }
}

/// What the offsets that changed say, given the fields of the object and the
/// saved values; one input changes at most two fields.
pub open spec fn spec_classify(
    changed: Seq<u32>,
    saved: Seq<(u32, usize)>,
    fields: Seq<FieldSnapshot>,
) -> Detection {
    if changed.len() == 0 {
        Detection::Nothing
    } else if changed.len() == 1 {
        Detection::Field(
            FieldDetectionInfo {
                value: spec_saved(saved, changed[0]) as u32,
                offset: changed[0],
                oneof_extra_data: None,
            },
        )
    } else if fields[spec_field_at(fields, changed[0])].type_class@ == "Object"@ {
        Detection::Oneof { data_offset: changed[0], oneof_enum_offset: changed[1] }
    } else {
        Detection::Oneof { data_offset: changed[1], oneof_enum_offset: changed[0] }
    }
}

/// Whether a method is the merge method: named `MERGE_FROM`, with one argument
/// of type `CODED_INPUT_STREAM`.
pub open spec fn spec_merge_signature(m: MethodSignature) -> bool {
    spec_signature_matches(m, MERGE_FROM@, seq![CODED_INPUT_STREAM@])
}

/// Whether some method is the merge method.
pub open spec fn spec_has_merge_method(methods: Seq<MethodSignature>) -> bool {
    exists|i: int| 0 <= i < methods.len() && spec_merge_signature(#[trigger] methods[i])
}

/// Whether the class's methods include the merge method, which `Bruteforcer::new` needs.
pub fn has_merge_method(methods: &[MethodSignature]) -> (r: bool)
    ensures
        r == spec_has_merge_method(methods@),
{
    let arg_types: Vec<&str> = vec![CODED_INPUT_STREAM];
    assert(arg_types@.map_values(|t: &str| t@) =~= seq![CODED_INPUT_STREAM@]);
    let found = Il2cppClass::find_method(methods, MERGE_FROM, arg_types.as_slice());
    match found {
        Some(_) => true,
        None => {
            assert(!spec_has_merge_method(methods@));
            false
        },
    }
}

/// Whether some watched field has the offset.
pub open spec fn spec_watched_offset(fields: Seq<FieldSnapshot>, offset: u32) -> bool {
    exists|i: int| 0 <= i < fields.len() && spec_is_watched(#[trigger] fields[i]) && fields[i].offset == offset
}

/// Every changed offset is the offset of a watched field.
proof fn lemma_changed_from_fields(values: Seq<(u32, usize)>, fields: Seq<FieldSnapshot>)
    requires
        spec_all_saved(values, fields),
    ensures
        forall|k: int|
            0 <= k < spec_detect(values, fields).0.len() ==> spec_watched_offset(
                fields,
                #[trigger] spec_detect(values, fields).0[k],
            ),
        forall|k: int|
            0 <= k < spec_detect(values, fields).0.len() ==> spec_has(
                spec_detect(values, fields).1,
                #[trigger] spec_detect(values, fields).0[k],
            ),
    decreases fields.len(),
{
    if fields.len() > 0 {
        let prefix = fields.drop_last();
        assert forall|i: int| 0 <= i < prefix.len() implies #[trigger] prefix[i] == fields[i] by {}
        assert(spec_all_saved(values, prefix));
        lemma_changed_from_fields(values, prefix);
        lemma_detect_keeps_offsets(values, prefix);
        lemma_detect_keeps_offsets(values, fields);
        let (ch, saved) = spec_detect(values, prefix);
        let (ch2, saved2) = spec_detect(values, fields);
        assert forall|k: int| 0 <= k < ch2.len() implies spec_watched_offset(fields, #[trigger] ch2[k]) by {
            if k < ch.len() {
                assert(ch2[k] == ch[k]);
                assert(spec_watched_offset(prefix, ch[k]));
                let i = choose|i: int|
                    0 <= i < prefix.len() && spec_is_watched(#[trigger] prefix[i]) && prefix[i].offset
                        == ch[k];
                assert(fields[i] == prefix[i]);
            } else {
                assert(fields[fields.len() - 1].offset == ch2[k]);
                assert(spec_is_watched(fields[fields.len() - 1]));
            }
        }
        assert forall|k: int| 0 <= k < ch2.len() implies spec_has(saved2, #[trigger] ch2[k]) by {
            assert(spec_watched_offset(fields, ch2[k]));
            let i = choose|i: int|
                0 <= i < fields.len() && spec_is_watched(#[trigger] fields[i]) && fields[i].offset
                    == ch2[k];
            assert(spec_has(values, fields[i].offset));
            lemma_first_same_offsets(saved2, values, ch2[k]);
        }
    }
}

/// The first field at an offset exists when some field has the offset.
proof fn lemma_field_at(fields: Seq<FieldSnapshot>, offset: u32, i: int)
    requires
        0 <= i < fields.len(),
        fields[i].offset == offset,
    ensures
        0 <= spec_field_at(fields, offset) < fields.len(),
        fields[spec_field_at(fields, offset)].offset == offset,
    decreases fields.len(),
{
    if fields[0].offset != offset {
        lemma_field_at(fields.drop_first(), offset, i - 1);
    }
}

/// The index of the first field at the offset.
fn field_at(fields: &[FieldSnapshot], offset: u32) -> (i: usize)
    ensures
        i == spec_field_at(fields@, offset),
{
    let mut i: usize = 0;
    assert(fields@.skip(0) =~= fields@);
    while i < fields.len()
        invariant
            i <= fields@.len(),
            spec_field_at(fields@, offset) == i + spec_field_at(fields@.skip(i as int), offset),
        decreases fields@.len() - i,
    {
        if fields[i].offset == offset {
            return i;
        }
        assert(fields@.skip(i as int).drop_first() =~= fields@.skip(i + 1));
        i = i + 1;
    }
    i
}

/// Probes one message object: its saved field values and its merge method.
pub struct Bruteforcer {
    pub object: Il2cppObject,
    pub tracked_values: TrackedValues,
    pub merge_from_method: Il2cppMethod,
}

impl Bruteforcer {
    /// Starts probing an object: saves the values of its watched fields and looks
    /// up its merge method, the first method named `MERGE_FROM` that takes one
    /// `CODED_INPUT_STREAM`, which the class must have (see `has_merge_method`).
    pub fn new(object: Il2cppObject, fields: &[FieldSnapshot], methods: &[MethodSignature]) -> (b:
        Self)
        requires
            spec_has_merge_method(methods@),
        ensures
            b.object.0 == object.0,
            b.tracked_values.values@ == spec_watched(fields@),
            exists|i: int|
                0 <= i < methods@.len() && spec_merge_signature(#[trigger] methods@[i])
                    && methods@[i].method.0 == b.merge_from_method.0 && forall|j: int|
                    0 <= j < i ==> !spec_merge_signature(#[trigger] methods@[j]),
    {
        let tracked_values = TrackedValues::new(fields);
        let arg_types: Vec<&str> = vec![CODED_INPUT_STREAM];
        assert(arg_types@.map_values(|t: &str| t@) =~= seq![CODED_INPUT_STREAM@]);
        let found = Il2cppClass::find_method(methods, MERGE_FROM, arg_types.as_slice());
        let merge_from_method = match found {
            Some(m) => m,
            None => {
                assert(false);
                Il2cppMethod(0)
            },
        };
        Bruteforcer { object, tracked_values, merge_from_method }
    }

    /// After a probe's input was merged without an exception: reads which watched
    /// fields changed, saves their new values, and says what the change means.
    pub fn record_merge(&mut self, fields: &[FieldSnapshot]) -> (d: Detection)
        requires
            spec_all_saved(old(self).tracked_values.values@, fields@),
            spec_detect(old(self).tracked_values.values@, fields@).0.len() <= 2,
        ensures
            final(self).tracked_values.values@ == spec_detect(
                old(self).tracked_values.values@,
                fields@,
            ).1,
            final(self).object == old(self).object,
            final(self).merge_from_method == old(self).merge_from_method,
            d == spec_classify(
                spec_detect(old(self).tracked_values.values@, fields@).0,
                spec_detect(old(self).tracked_values.values@, fields@).1,
                fields@,
            ),
    {
        proof {
            lemma_changed_from_fields(self.tracked_values.values@, fields@);
        }
        let changed = self.tracked_values.detect_changes_and_update(fields);
        let n = changed.len();
        if n == 0 {
            Detection::Nothing
        } else if n == 1 {
            let offset = changed[0];
            let value = self.tracked_values.get_saved_value(offset);
            Detection::Field(
                FieldDetectionInfo {
                    value: #[verifier::truncate] (value as u32),
                    offset,
                    oneof_extra_data: None,
                },
            )
        } else {
            let first = changed[0];
            let second = changed[1];
            assert(spec_watched_offset(fields@, first));
            let ghost i = choose|i: int|
                0 <= i < fields@.len() && spec_is_watched(#[trigger] fields@[i]) && fields@[i].offset
                    == first;
            proof {
                lemma_field_at(fields@, first, i);
            }
            let at = field_at(fields, first);
            if str_eq(fields[at].type_class.as_str(), "Object") {
                Detection::Oneof { data_offset: first, oneof_enum_offset: second }
            } else {
                Detection::Oneof { data_offset: second, oneof_enum_offset: first }
            }
        }
    }
}

// ---------------------------------------------------------------------------
// The probe sequence of one message
// ---------------------------------------------------------------------------

/// Where the probing of one field number stands.
#[derive(PartialEq, Eq, Structural, Clone, Copy)]
pub enum ProbeStage {
    /// A varint of value one.
    VarInt,
    /// An empty length-prefixed payload (a nested message left at its defaults).
    EmptyLengthPrefixed,
    /// A length-prefixed payload of one zero byte.
    LengthPrefixedOne,
    /// One of the length-prefixed samples for repeated fixed-size values and maps.
    Sample(u8),
    /// A fixed 32-bit value of one.
    Fixed32,
    /// A fixed 64-bit value of one.
    Fixed64,
}

/// How a probe ended.
pub enum ProbeOutcome {
    /// Exactly the fields described changed.
    Found(FieldDetectionInfo),
    /// Nothing changed.
    Missing,
    /// Merging the input threw an exception.
    Exception,
}

/// Number of length-prefixed samples.
pub const SAMPLE_COUNT: u8 = 4;

/// The length-prefixed samples tried after an exception: repeated fixed32,
/// repeated fixed64, a map with varint keys and one with string keys.
pub open spec fn spec_sample(k: u8) -> Seq<u8> {
    if k == 0 {
        seq![1u8, 0, 0, 0, 0]
    } else if k == 1 {
        seq![1u8, 0, 0, 0, 0, 0, 0, 0, 0]
    } else if k == 2 {
        seq![5u8, 0x08, 0x01, 0x33, 0x01, 0x00]
    } else {
        seq![5u8, 0x10, 0x01, 0x33, 0x10, 0x00]
    }
}

/// The length-prefixed sample with the given number.
pub fn sample(k: u8) -> (s: Vec<u8>)
    requires
        k < SAMPLE_COUNT,
    ensures
        s@ == spec_sample(k),
{
    let s = if k == 0 {
        vec![1u8, 0, 0, 0, 0]
    } else if k == 1 {
        vec![1u8, 0, 0, 0, 0, 0, 0, 0, 0]
    } else if k == 2 {
        vec![5u8, 0x08, 0x01, 0x33, 0x01, 0x00]
    } else {
        vec![5u8, 0x10, 0x01, 0x33, 0x10, 0x00]
    };
    assert(s@ =~= spec_sample(k));
    s
}

/// The probing of one message: the field number and stage tried next, the
/// estimated number of fields, and the fields found so far.
pub struct MessageProbe {
    pub field_id: u32,
    pub stage: ProbeStage,
    /// When known, probing stops as soon as this many fields were found.
    pub estimated_field_count: Option<usize>,
    pub info: MessageMinimalInfo,
}

/// A probe: the wire tag and the payload after it.
pub struct Probe {
    pub tag: u32,
    pub data: Vec<u8>,
}

/// The wire tag of a field number and wire type, as `pack_wire_tag` computes it.
pub open spec fn spec_tag(field_id: u32, wire_type: u8) -> u32 {
    (field_id << 3u32) | (wire_type as u32)
}

/// The probe a stage sends for a field number.
pub open spec fn spec_probe(field_id: u32, stage: ProbeStage) -> (u32, Seq<u8>) {
    match stage {
        ProbeStage::VarInt => (spec_tag(field_id, WIRE_TYPE_VAR_INT), seq![1u8]),
        ProbeStage::EmptyLengthPrefixed => (
            spec_tag(field_id, WIRE_TYPE_LENGTH_PREFIXED),
            seq![0u8],
        ),
        ProbeStage::LengthPrefixedOne => (
            spec_tag(field_id, WIRE_TYPE_LENGTH_PREFIXED),
            seq![1u8, 0u8],
        ),
        ProbeStage::Sample(k) => (spec_tag(field_id, WIRE_TYPE_LENGTH_PREFIXED), spec_sample(k)),
        ProbeStage::Fixed32 => (spec_tag(field_id, WIRE_TYPE_I32), seq![0u8, 0, 0, 1]),
        ProbeStage::Fixed64 => (spec_tag(field_id, WIRE_TYPE_I64), seq![0u8, 0, 0, 0, 0, 0, 0, 1]),
    }
}

/// Whether the probing of a message is over: before the next field number, when
/// every number was tried or the estimated number of fields was found.
pub open spec fn spec_done(p: MessageProbe) -> bool {
    &&& p.stage == ProbeStage::VarInt
    &&& (p.field_id >= FIELD_ID_LIMIT || (p.estimated_field_count matches Some(c)
        && p.info.fields@.len() >= c))
}

/// The field a probe records, if any: what it found, with the wire tag sent and
/// the xor constant (the value xored with one for a varint, zero otherwise).
pub open spec fn spec_recorded(p: MessageProbe, outcome: ProbeOutcome) -> Option<
    FieldMinimalInfo,
> {
    match outcome {
        ProbeOutcome::Found(info) => Some(
            FieldMinimalInfo {
                tag: spec_probe(p.field_id, p.stage).0,
                xor: if p.stage == ProbeStage::VarInt {
                    info.value ^ 1u32
                } else {
                    0
                },
                offset: info.offset,
                oneof_extra_data: info.oneof_extra_data,
            },
        ),
        _ => None,
    }
}

/// A recorded field carries the wire tag of the probe that hit it, and its xor
/// constant is the probed value xored with one only when that tag is a varint
/// tag; a field hit by a length-prefixed or fixed-size probe has xor constant zero.
pub proof fn lemma_recorded_xor(p: MessageProbe, outcome: ProbeOutcome)
    requires
        spec_probe_wf(p),
    ensures
        outcome matches ProbeOutcome::Found(info) ==> spec_recorded(p, outcome) matches Some(f) && {
            &&& f.tag >> 3u32 == p.field_id
            &&& f.offset == info.offset
            &&& f.tag & 7 == WIRE_TYPE_VAR_INT ==> f.xor == info.value ^ 1u32
            &&& f.tag & 7 != WIRE_TYPE_VAR_INT ==> f.xor == 0
        },
        !(outcome is Found) ==> spec_recorded(p, outcome) is None,
{
    let f = p.field_id;
    assert(f < 0x2000_0000);
    assert(f < 0x2000_0000 ==> ((f << 3u32) | 0u32) >> 3u32 == f && ((f << 3u32) | 0u32) & 7 == 0) by (bit_vector);
    assert(f < 0x2000_0000 ==> ((f << 3u32) | 1u32) >> 3u32 == f && ((f << 3u32) | 1u32) & 7 == 1) by (bit_vector);
    assert(f < 0x2000_0000 ==> ((f << 3u32) | 2u32) >> 3u32 == f && ((f << 3u32) | 2u32) & 7 == 2) by (bit_vector);
    assert(f < 0x2000_0000 ==> ((f << 3u32) | 5u32) >> 3u32 == f && ((f << 3u32) | 5u32) & 7 == 5) by (bit_vector);
}

/// The field number and stage after a probe. A varint or an empty payload that
/// hits ends the field number; otherwise the length-prefixed probes go on with
/// the samples after an exception, and the fixed-size probes are always tried.
pub open spec fn spec_next(p: MessageProbe, outcome: ProbeOutcome) -> (u32, ProbeStage) {
    let found = outcome is Found;
    let next_field = ((p.field_id + 1) as u32, ProbeStage::VarInt);
    match p.stage {
        ProbeStage::VarInt => if found {
            next_field
        } else {
            (p.field_id, ProbeStage::EmptyLengthPrefixed)
        },
        ProbeStage::EmptyLengthPrefixed => if found {
            next_field
        } else {
            (p.field_id, ProbeStage::LengthPrefixedOne)
        },
        ProbeStage::LengthPrefixedOne => if outcome is Exception {
            (p.field_id, ProbeStage::Sample(0))
        } else {
            (p.field_id, ProbeStage::Fixed32)
        },
        ProbeStage::Sample(k) => if outcome is Exception && k + 1 < SAMPLE_COUNT {
            (p.field_id, ProbeStage::Sample((k + 1) as u8))
        } else {
            (p.field_id, ProbeStage::Fixed32)
        },
        ProbeStage::Fixed32 => (p.field_id, ProbeStage::Fixed64),
        ProbeStage::Fixed64 => next_field,
    }
}

/// The rank of a stage within one field number.
pub open spec fn spec_stage_rank(s: ProbeStage) -> nat {
    match s {
        ProbeStage::VarInt => 0,
        ProbeStage::EmptyLengthPrefixed => 1,
        ProbeStage::LengthPrefixedOne => 2,
        ProbeStage::Sample(k) => 3 + k as nat,
        ProbeStage::Fixed32 => 7,
        ProbeStage::Fixed64 => 8,
    }
}

/// How many probes are left at most.
pub open spec fn spec_progress(field_id: u32, stage: ProbeStage) -> int {
    (FIELD_ID_LIMIT - field_id) * 9 - spec_stage_rank(stage)
}

/// The state every probing keeps: the field number is in range, sample numbers
/// are valid, and every recorded field was hit by a tag of a field number already
/// tried, with one of the four wire types, in nondecreasing field number order;
/// only a field hit by a varint tag has a non-zero xor constant.
pub open spec fn spec_probe_wf(p: MessageProbe) -> bool {
    &&& 1 <= p.field_id <= FIELD_ID_LIMIT
    &&& p.field_id == FIELD_ID_LIMIT ==> p.stage == ProbeStage::VarInt
    &&& p.stage matches ProbeStage::Sample(k) ==> k < SAMPLE_COUNT
    &&& forall|i: int|
        0 <= i < p.info.fields@.len() ==> {
            let tag = (#[trigger] p.info.fields@[i]).tag;
            &&& 1 <= tag >> 3u32 <= p.field_id
            &&& (tag & 7 == WIRE_TYPE_VAR_INT || tag & 7 == WIRE_TYPE_I64 || tag & 7
                == WIRE_TYPE_LENGTH_PREFIXED || tag & 7 == WIRE_TYPE_I32)
            &&& tag & 7 != WIRE_TYPE_VAR_INT ==> p.info.fields@[i].xor == 0
        }
    &&& forall|i: int, j: int|
        0 <= i < j < p.info.fields@.len() ==> (#[trigger] p.info.fields@[i]).tag >> 3u32 <= (
        #[trigger] p.info.fields@[j]).tag >> 3u32
}

impl MessageProbe {
    /// Starts probing a message with the field number one.
    pub fn new(cmd_id: u16, estimated_field_count: Option<usize>) -> (p: Self)
        ensures
            p.field_id == 1,
            p.stage == ProbeStage::VarInt,
            p.estimated_field_count == estimated_field_count,
            p.info.cmd_id == cmd_id,
            p.info.fields@.len() == 0,
            spec_probe_wf(p),
    {
        MessageProbe {
            field_id: 1,
            stage: ProbeStage::VarInt,
            estimated_field_count,
            info: MessageMinimalInfo::new(cmd_id),
        }
    }

    /// Whether the probing is over.
    pub fn is_done(&self) -> (r: bool)
        ensures
            r == spec_done(*self),
    {
        self.stage == ProbeStage::VarInt && (self.field_id >= FIELD_ID_LIMIT || match self.estimated_field_count {
            Some(c) => self.info.fields.len() >= c,
            None => false,
        })
    }

    /// The probe to send next; `None` once the probing is over.
    pub fn next_probe(&self) -> (r: Option<Probe>)
        requires
            spec_probe_wf(*self),
        ensures
            spec_done(*self) <==> r is None,
            r matches Some(p) ==> (p.tag, p.data@) == spec_probe(self.field_id, self.stage),
    {
        if self.is_done() {
            return None;
        }
        let (wire_type, data): (u8, Vec<u8>) = match self.stage {
            ProbeStage::VarInt => (WIRE_TYPE_VAR_INT, vec![1u8]),
            ProbeStage::EmptyLengthPrefixed => (WIRE_TYPE_LENGTH_PREFIXED, vec![0u8]),
            ProbeStage::LengthPrefixedOne => (WIRE_TYPE_LENGTH_PREFIXED, vec![1u8, 0u8]),
            ProbeStage::Sample(k) => (WIRE_TYPE_LENGTH_PREFIXED, sample(k)),
            ProbeStage::Fixed32 => (WIRE_TYPE_I32, vec![0u8, 0, 0, 1]),
            ProbeStage::Fixed64 => (WIRE_TYPE_I64, vec![0u8, 0, 0, 0, 0, 0, 0, 1]),
        };
        let tag = pack_wire_tag(self.field_id, wire_type);
        assert(data@ =~= spec_probe(self.field_id, self.stage).1);
        Some(Probe { tag, data })
    }

    /// Takes in how the last probe ended: records the field it hit, if any, and
    /// moves on to the next stage or field number.
    pub fn on_outcome(&mut self, outcome: ProbeOutcome)
        requires
            spec_probe_wf(*old(self)),
            !spec_done(*old(self)),
            !(old(self).stage is Sample && outcome is Missing),
        ensures
            spec_probe_wf(*final(self)),
            (final(self).field_id, final(self).stage) == spec_next(*old(self), outcome),
            final(self).info.fields@ == match spec_recorded(*old(self), outcome) {
                Some(f) => old(self).info.fields@.push(f),
                None => old(self).info.fields@,
            },
            final(self).info.cmd_id == old(self).info.cmd_id,
            final(self).estimated_field_count == old(self).estimated_field_count,
            spec_progress(final(self).field_id, final(self).stage) < spec_progress(
                old(self).field_id,
                old(self).stage,
            ),
    {
        let ghost before = *self;
        let tag = match self.stage {
            ProbeStage::VarInt => pack_wire_tag(self.field_id, WIRE_TYPE_VAR_INT),
            ProbeStage::Fixed32 => pack_wire_tag(self.field_id, WIRE_TYPE_I32),
            ProbeStage::Fixed64 => pack_wire_tag(self.field_id, WIRE_TYPE_I64),
            _ => pack_wire_tag(self.field_id, WIRE_TYPE_LENGTH_PREFIXED),
        };
        assert(tag == spec_probe(self.field_id, self.stage).0);
        proof {
            lemma_wire_tag_parts(self.field_id, spec_probe(self.field_id, self.stage).0 & 7);
            assert(tag >> 3u32 == self.field_id && (tag & 7 == WIRE_TYPE_VAR_INT || tag & 7
                == WIRE_TYPE_I64 || tag & 7 == WIRE_TYPE_LENGTH_PREFIXED || tag & 7
                == WIRE_TYPE_I32)) by {
                let f = self.field_id;
                assert(f < 0x2000_0000);
                assert(f < 0x2000_0000 ==> ((f << 3u32) | 0u32) >> 3u32 == f && ((f << 3u32) | 0u32) & 7 == 0) by (bit_vector);
                assert(f < 0x2000_0000 ==> ((f << 3u32) | 1u32) >> 3u32 == f && ((f << 3u32) | 1u32) & 7 == 1) by (bit_vector);
                assert(f < 0x2000_0000 ==> ((f << 3u32) | 2u32) >> 3u32 == f && ((f << 3u32) | 2u32) & 7 == 2) by (bit_vector);
                assert(f < 0x2000_0000 ==> ((f << 3u32) | 5u32) >> 3u32 == f && ((f << 3u32) | 5u32) & 7 == 5) by (bit_vector);
            }
        }
        let found = match &outcome {
            ProbeOutcome::Found(_) => true,
            _ => false,
        };
        let exception = match &outcome {
            ProbeOutcome::Exception => true,
            _ => false,
        };
        let is_varint = self.stage == ProbeStage::VarInt;
        match outcome {
            ProbeOutcome::Found(info) => {
                let xor = if is_varint {
                    info.value ^ 1u32
                } else {
                    0
                };
                self.info.fields.push(
                    FieldMinimalInfo {
                        tag,
                        xor,
                        offset: info.offset,
                        oneof_extra_data: info.oneof_extra_data,
                    },
                );
            },
            _ => {},
        }
        let field_id = self.field_id;
        let (next_id, next_stage): (u32, ProbeStage) = match self.stage {
            ProbeStage::VarInt => if found {
                (field_id + 1, ProbeStage::VarInt)
            } else {
                (field_id, ProbeStage::EmptyLengthPrefixed)
            },
            ProbeStage::EmptyLengthPrefixed => if found {
                (field_id + 1, ProbeStage::VarInt)
            } else {
                (field_id, ProbeStage::LengthPrefixedOne)
            },
            ProbeStage::LengthPrefixedOne => if exception {
                (field_id, ProbeStage::Sample(0))
            } else {
                (field_id, ProbeStage::Fixed32)
            },
            ProbeStage::Sample(k) => if exception && k + 1 < SAMPLE_COUNT {
                (field_id, ProbeStage::Sample(k + 1))
            } else {
                (field_id, ProbeStage::Fixed32)
            },
            ProbeStage::Fixed32 => (field_id, ProbeStage::Fixed64),
            ProbeStage::Fixed64 => (field_id + 1, ProbeStage::VarInt),
        };
        self.field_id = next_id;
        self.stage = next_stage;
        proof {
            let fs = self.info.fields@;
            assert forall|i: int| 0 <= i < fs.len() implies {
                let tag = (#[trigger] fs[i]).tag;
                &&& 1 <= tag >> 3u32 <= self.field_id
                &&& (tag & 7 == WIRE_TYPE_VAR_INT || tag & 7 == WIRE_TYPE_I64 || tag & 7
                    == WIRE_TYPE_LENGTH_PREFIXED || tag & 7 == WIRE_TYPE_I32)
                &&& tag & 7 != WIRE_TYPE_VAR_INT ==> fs[i].xor == 0
            } by {
                if i < before.info.fields@.len() {
                    assert(fs[i] == before.info.fields@[i]);
                }
            }
            assert forall|i: int, j: int| 0 <= i < j < fs.len() implies (#[trigger] fs[i]).tag
                >> 3u32 <= (#[trigger] fs[j]).tag >> 3u32 by {
                assert(fs[i] == before.info.fields@[i]);
                if j < before.info.fields@.len() {
                    assert(fs[j] == before.info.fields@[j]);
                }
            }
        }
    }

    /// The fields found.
    pub fn finish(self) -> (info: MessageMinimalInfo)
        ensures
            info == self.info,
    {
        self.info
    }
}

/// The field count to expect, when it can be known: the number of watched
/// fields, unless some field has type `System.Object` (a oneof, whose
/// alternatives share one storage field).
pub open spec fn spec_estimated_field_count(fields: Seq<FieldSnapshot>, watched: nat) -> Option<
    usize,
> {
    if exists|i: int| 0 <= i < fields.len() && (#[trigger] fields[i]).field_type@ == "System.Object"@ {
        None
    } else {
        Some(watched as usize)
    }
}

/// The field count to expect for a message with these fields, `watched` of them watched.
pub fn estimated_field_count(fields: &[FieldSnapshot], watched: usize) -> (r: Option<usize>)
    ensures
        r == spec_estimated_field_count(fields@, watched as nat),
{
    let mut i: usize = 0;
    while i < fields.len()
        invariant
            i <= fields@.len(),
            forall|j: int| 0 <= j < i ==> (#[trigger] fields@[j]).field_type@ != "System.Object"@,
        decreases fields@.len() - i,
    {
        if str_eq(fields[i].field_type.as_str(), "System.Object") {
            return None;
        }
        i = i + 1;
    }
    Some(watched)
}

} // verus!
