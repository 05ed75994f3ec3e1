//! The per-instance vertex records that carry the trail buffer to the GPU,
//! and the layout that tells the pipeline how to read them.
//!
//! One record is thirteen 32-bit words, 52 bytes, in this order: position
//! (3), length (1), rotation (4), color (3), birth time (1), lifetime (1).
//! The shader reads the same bytes through five attributes. Order and offsets
//! on the two sides must agree, and nothing at run time reports it when they
//! do not.

use crate::segment::TrailSegment;
use crate::trails::Trails;
use bevy::render::render_resource::VertexFormat;
use vstd::prelude::*;

verus! {

/// Words in one instance record.
pub const RECORD_WORDS: usize = 13;

/// Bytes in one instance record, the stride of the instance buffer.
pub const RECORD_BYTES: u64 = 52;

/// First shader location of the instance attributes. The locations below it
/// belong to the position, normal and texture coordinate of the base mesh.
pub const FIRST_SHADER_LOCATION: u32 = 3;

/// The instance record of one segment, word by word.
pub open spec fn record(segment: TrailSegment) -> Seq<u32> {
    seq![
        segment.position[0],
        segment.position[1],
        segment.position[2],
        segment.length,
        segment.rotation[0],
        segment.rotation[1],
        segment.rotation[2],
        segment.rotation[3],
        segment.color[0],
        segment.color[1],
        segment.color[2],
        segment.birth_time.bits,
        segment.lifetime.bits,
    ]
}

/// The records of `segments` one after the other, in the order of the buffer.
pub open spec fn records(segments: Seq<TrailSegment>) -> Seq<u32> {
    Seq::new((13 * segments.len()) as nat, |k: int| record(segments[k / 13])[k % 13])
}

/// Byte `k` of `word`, counted from the least significant.
pub open spec fn word_byte(word: u32, k: int) -> u8 {
    if k == 0 {
        (word % 0x100) as u8
    } else if k == 1 {
        (word / 0x100 % 0x100) as u8
    } else if k == 2 {
        (word / 0x1_0000 % 0x100) as u8
    } else {
        (word / 0x100_0000) as u8
    }
}

/// The bytes of `words` in memory where the least significant byte of a word
/// comes first.
pub open spec fn little_endian(words: Seq<u32>) -> Seq<u8> {
    Seq::new((4 * words.len()) as nat, |i: int| word_byte(words[i / 4], i % 4))
}

/// The bytes of `words` in memory where the most significant byte of a word
/// comes first.
pub open spec fn big_endian(words: Seq<u32>) -> Seq<u8> {
    Seq::new((4 * words.len()) as nat, |i: int| word_byte(words[i / 4], 3 - i % 4))
}

/// `bytes` is what `words` looks like in the memory of some machine.
pub open spec fn is_memory_image(bytes: Seq<u8>, words: Seq<u32>) -> bool {
    bytes == little_endian(words) || bytes == big_endian(words)
}

/// Calls `bytemuck::cast_slice` to view the words as bytes and copies the
/// view. The cast reinterprets the memory of the slice, so the result has
/// four bytes per word in the byte order of the machine, which is one of the
/// two orders. From `u32` to `u8` the cast cannot fail: the target has
/// alignment and size one.
#[verifier::external_body]
fn memory_image(words: &Vec<u32>) -> (bytes: Vec<u8>)
    ensures
        is_memory_image(bytes@, words@),
{
    bytemuck::cast_slice::<u32, u8>(words.as_slice()).to_vec()
}

/// The instance records of the whole buffer as words.
pub fn pack_words(trails: &Trails) -> (words: Vec<u32>)
    ensures
        words@ == records(trails@),
{
    let count = trails.len();
    let mut words: Vec<u32> = Vec::new();
    let mut index: usize = 0;
    while index < count
        invariant
            index <= count,
            count == trails@.len(),
            words@.len() == 13 * index,
            forall|k: int| 0 <= k < words@.len() ==> words@[k] == record(trails@[k / 13])[k % 13],
        decreases count - index,
    {
        if let Some(segment) = trails.get(index) {
            words.push(segment.position[0]);
            words.push(segment.position[1]);
            words.push(segment.position[2]);
            words.push(segment.length);
            words.push(segment.rotation[0]);
            words.push(segment.rotation[1]);
            words.push(segment.rotation[2]);
            words.push(segment.rotation[3]);
            words.push(segment.color[0]);
            words.push(segment.color[1]);
            words.push(segment.color[2]);
            words.push(segment.birth_time.bits);
            words.push(segment.lifetime.bits);
        }
        index += 1;
    }
    assert(words@ =~= records(trails@));
    words
}

/// The instance records of the whole buffer as the bytes to upload: the
/// memory image of the records, tightly packed, 52 bytes for each segment in
/// the order of the buffer.
pub fn pack_bytes(trails: &Trails) -> (bytes: Vec<u8>)
    ensures
        is_memory_image(bytes@, records(trails@)),
        bytes@.len() == 52 * trails@.len(),
{
    let words = pack_words(trails);
    memory_image(&words)
}

/// How the shader reads one attribute of the instance record.
#[derive(Clone, Copy, Debug, PartialEq, Eq)]
pub enum AttributeFormat {
    /// One single-precision number.
    Float32,
    /// Three single-precision numbers.
    Float32x3,
    /// Four single-precision numbers.
    Float32x4,
}

impl AttributeFormat {
    /// The size of the format in bytes.
    pub open spec fn size(self) -> u64 {
        match self {
            AttributeFormat::Float32 => 4,
            AttributeFormat::Float32x3 => 12,
            AttributeFormat::Float32x4 => 16,
        }
    }
}

/// Calls `VertexFormat::size` on the vertex format of the same name. It
/// returns the byte size of the format: 4 for one 32-bit float, 12 for three
/// and 16 for four.
#[verifier::external_body]
fn format_size(format: AttributeFormat) -> (size: u64)
    ensures
        size == format.size(),
{
    match format {
        AttributeFormat::Float32 => VertexFormat::Float32.size(),
        AttributeFormat::Float32x3 => VertexFormat::Float32x3.size(),
        AttributeFormat::Float32x4 => VertexFormat::Float32x4.size(),
    }
}

/// One attribute of the instance record as the pipeline is told of it.
#[derive(Clone, Copy, Debug)]
pub struct InstanceAttribute {
    pub format: AttributeFormat,
    /// Offset of the attribute in the record, in bytes.
    pub offset: u64,
    pub shader_location: u32,
}

/// The vertex buffer layout of the instance buffer. It steps once per instance.
#[derive(Debug)]
pub struct InstanceLayout {
    /// Bytes from one record to the next.
    pub array_stride: u64,
    pub attributes: Vec<InstanceAttribute>,
}

/// The attributes of the instance record: position with length, rotation,
/// color, birth time and lifetime, one behind the other.
pub open spec fn instance_attributes() -> Seq<InstanceAttribute> {
    seq![
        InstanceAttribute { format: AttributeFormat::Float32x4, offset: 0, shader_location: 3 },
        InstanceAttribute { format: AttributeFormat::Float32x4, offset: 16, shader_location: 4 },
        InstanceAttribute { format: AttributeFormat::Float32x3, offset: 32, shader_location: 5 },
        InstanceAttribute { format: AttributeFormat::Float32, offset: 44, shader_location: 6 },
        InstanceAttribute { format: AttributeFormat::Float32, offset: 48, shader_location: 7 },
    ]
}

/// The layout of the instance buffer.
pub fn instance_layout() -> (layout: InstanceLayout)
    ensures
        layout.array_stride == RECORD_BYTES,
        layout.attributes@ == instance_attributes(),
{
    let quad = format_size(AttributeFormat::Float32x4);
    let triple = format_size(AttributeFormat::Float32x3);
    let single = format_size(AttributeFormat::Float32);
    let mut attributes: Vec<InstanceAttribute> = Vec::new();
    attributes.push(
        InstanceAttribute {
            format: AttributeFormat::Float32x4,
            offset: 0,
            shader_location: FIRST_SHADER_LOCATION,
        },
    );
    attributes.push(
        InstanceAttribute {
            format: AttributeFormat::Float32x4,
            offset: quad,
            shader_location: FIRST_SHADER_LOCATION + 1,
        },
    );
    attributes.push(
        InstanceAttribute {
            format: AttributeFormat::Float32x3,
            offset: quad * 2,
            shader_location: FIRST_SHADER_LOCATION + 2,
        },
    );
    attributes.push(
        InstanceAttribute {
            format: AttributeFormat::Float32,
            offset: quad * 2 + triple,
            shader_location: FIRST_SHADER_LOCATION + 3,
        },
    );
    attributes.push(
        InstanceAttribute {
            format: AttributeFormat::Float32,
            offset: quad * 2 + triple + single,
            shader_location: FIRST_SHADER_LOCATION + 4,
        },
    );
    assert(attributes@ =~= instance_attributes());
    InstanceLayout { array_stride: RECORD_BYTES, attributes }
}

/// The words of a segment's record that `attribute` covers.
pub open spec fn attribute_words(segment: TrailSegment, attribute: InstanceAttribute) -> Seq<u32> {
    record(segment).subrange(
        attribute.offset as int / 4,
        (attribute.offset + attribute.format.size()) / 4,
    )
}

/// The records lie one behind the other, thirteen words each: the record of
/// the segment at `index` starts at word `13 * index`.
pub proof fn lemma_records_are_strided(segments: Seq<TrailSegment>, index: int)
    requires
        0 <= index < segments.len(),
    ensures
        records(segments).len() == 13 * segments.len(),
        records(segments).subrange(13 * index, 13 * index + 13) == record(segments[index]),
{
    let all = records(segments);
    let one = all.subrange(13 * index, 13 * index + 13);
    assert forall|k: int| 0 <= k < 13 implies one[k] == record(segments[index])[k] by {
        assert((13 * index + k) / 13 == index);
        assert((13 * index + k) % 13 == k);
    }
    assert(one =~= record(segments[index]));
}

/// In the bytes to upload, the record of the segment at `index` starts at
/// byte `52 * index` and is the memory image of that segment's record alone,
/// in either byte order.
pub proof fn lemma_bytes_are_strided(segments: Seq<TrailSegment>, index: int)
    requires
        0 <= index < segments.len(),
    ensures
        little_endian(records(segments)).len() == 52 * segments.len(),
        big_endian(records(segments)).len() == 52 * segments.len(),
        little_endian(records(segments)).subrange(52 * index, 52 * index + 52) == little_endian(
            record(segments[index]),
        ),
        big_endian(records(segments)).subrange(52 * index, 52 * index + 52) == big_endian(
            record(segments[index]),
        ),
{
    lemma_records_are_strided(segments, index);
    let words = records(segments);
    let one = record(segments[index]);
    let little = little_endian(words).subrange(52 * index, 52 * index + 52);
    let big = big_endian(words).subrange(52 * index, 52 * index + 52);
    assert forall|i: int| 0 <= i < 52 implies #[trigger] little[i] == little_endian(one)[i]
        && #[trigger] big[i] == big_endian(one)[i] by {
        assert((52 * index + i) / 4 == 13 * index + i / 4);
        assert((52 * index + i) % 4 == i % 4);
        assert(words.subrange(13 * index, 13 * index + 13)[i / 4] == words[13 * index + i / 4]);
    }
    assert(little =~= little_endian(one));
    assert(big =~= big_endian(one));
}

/// The layout and the record agree. The attributes follow one another
/// without gap or overlap from byte 0 to the stride, which is the size of one
/// record, their shader locations count up from the first free one, and each
/// attribute covers the fields meant for it: position and length, rotation,
/// color, birth time, lifetime.
pub proof fn lemma_layout_matches_record(segment: TrailSegment)
    ensures
        instance_attributes().len() == 5,
        instance_attributes()[0].offset == 0,
        forall|k: int|
            0 <= k < 4 ==> (#[trigger] instance_attributes()[k]).offset
                + instance_attributes()[k].format.size() == instance_attributes()[k + 1].offset,
        instance_attributes()[4].offset + instance_attributes()[4].format.size() == RECORD_BYTES,
        RECORD_BYTES == 4 * RECORD_WORDS,
        record(segment).len() == RECORD_WORDS,
        forall|k: int|
            0 <= k < 5 ==> (#[trigger] instance_attributes()[k]).shader_location
                == FIRST_SHADER_LOCATION + k,
        attribute_words(segment, instance_attributes()[0]) == segment.position@.push(
            segment.length,
        ),
        attribute_words(segment, instance_attributes()[1]) == segment.rotation@,
        attribute_words(segment, instance_attributes()[2]) == segment.color@,
        attribute_words(segment, instance_attributes()[3]) == seq![segment.birth_time.bits],
        attribute_words(segment, instance_attributes()[4]) == seq![segment.lifetime.bits],
{
    let attributes = instance_attributes();
    assert(attribute_words(segment, attributes[0]) =~= segment.position@.push(segment.length));
    assert(attribute_words(segment, attributes[1]) =~= segment.rotation@);
    assert(attribute_words(segment, attributes[2]) =~= segment.color@);
    assert(attribute_words(segment, attributes[3]) =~= seq![segment.birth_time.bits]);
    assert(attribute_words(segment, attributes[4]) =~= seq![segment.lifetime.bits]);
}

/// The four bytes of a word determine it, so no two words share an image and
/// the shader reads back the number that was stored.
pub proof fn lemma_word_bytes_determine_word(word: u32)
    ensures
        word == word_byte(word, 0) + 0x100 * word_byte(word, 1) + 0x1_0000 * word_byte(word, 2)
            + 0x100_0000 * word_byte(word, 3),
{
}

} // verus!
