//! The closed vocabulary of the layout language.

use crate::text::span_is;
use vstd::prelude::*;

verus! {

/// The words that structure a description.
pub open spec fn is_structural_word(text: Seq<char>) -> bool {
    text == "enum"@ || text == "packet"@ || text == "protocol"@ || text == "message"@ || text
        == "field"@
}

/// The names of the boolean, integer and floating-point types.
pub open spec fn is_scalar_type(text: Seq<char>) -> bool {
    text == "bool"@ || text == "u8"@ || text == "u16"@ || text == "u32"@ || text == "u64"@ || text
        == "u128"@ || text == "i8"@ || text == "i16"@ || text == "i32"@ || text == "i64"@ || text
        == "i128"@ || text == "f32"@ || text == "f64"@
}

/// The string encodings: terminated, plain, and prefixed by a length of 8 to 64 bits in
/// little or big endian.
pub open spec fn is_string_encoding(text: Seq<char>) -> bool {
    text == "CString"@ || text == "String"@ || text == "String8le"@ || text == "String16le"@
        || text == "String32le"@ || text == "String64le"@ || text == "String8be"@ || text
        == "String16be"@ || text == "String32be"@ || text == "String64be"@
}

/// The byte-array encodings, in the same family as the string encodings.
pub open spec fn is_bytes_encoding(text: Seq<char>) -> bool {
    text == "Cbytes"@ || text == "Bytes"@ || text == "Bytes8le"@ || text == "Bytes16le"@ || text
        == "Bytes32le"@ || text == "Bytes64le"@ || text == "Bytes8be"@ || text == "Bytes16be"@
        || text == "Bytes32be"@ || text == "Bytes64be"@
}

/// The remaining layout words.
pub open spec fn is_layout_word(text: Seq<char>) -> bool {
    text == "Array"@ || text == "Padding"@ || text == "Bits"@
}

/// Whether `text` is a keyword.
pub open spec fn is_keyword(text: Seq<char>) -> bool {
    is_structural_word(text) || is_scalar_type(text) || is_string_encoding(text)
        || is_bytes_encoding(text) || is_layout_word(text)
}

fn structural_word_span(data: &Vec<char>, start: usize, end: usize) -> (found: bool)
    requires
        start <= end <= data.len(),
    ensures
        found == is_structural_word(data@.subrange(start as int, end as int)),
{
    span_is(data, start, end, "enum") || span_is(data, start, end, "packet") || span_is(
        data,
        start,
        end,
        "protocol",
    ) || span_is(data, start, end, "message") || span_is(data, start, end, "field")
}

fn scalar_type_span(data: &Vec<char>, start: usize, end: usize) -> (found: bool)
    requires
        start <= end <= data.len(),
    ensures
        found == is_scalar_type(data@.subrange(start as int, end as int)),
{
    span_is(data, start, end, "bool") || span_is(data, start, end, "u8") || span_is(
        data,
        start,
        end,
        "u16",
    ) || span_is(data, start, end, "u32") || span_is(data, start, end, "u64") || span_is(
        data,
        start,
        end,
        "u128",
    ) || span_is(data, start, end, "i8") || span_is(data, start, end, "i16") || span_is(
        data,
        start,
        end,
        "i32",
    ) || span_is(data, start, end, "i64") || span_is(data, start, end, "i128") || span_is(
        data,
        start,
        end,
        "f32",
    ) || span_is(data, start, end, "f64")
}

fn string_encoding_span(data: &Vec<char>, start: usize, end: usize) -> (found: bool)
    requires
        start <= end <= data.len(),
    ensures
        found == is_string_encoding(data@.subrange(start as int, end as int)),
{
    span_is(data, start, end, "CString") || span_is(data, start, end, "String") || span_is(
        data,
        start,
        end,
        "String8le",
    ) || span_is(data, start, end, "String16le") || span_is(data, start, end, "String32le")
        || span_is(data, start, end, "String64le") || span_is(data, start, end, "String8be")
        || span_is(data, start, end, "String16be") || span_is(data, start, end, "String32be")
        || span_is(data, start, end, "String64be")
}

fn bytes_encoding_span(data: &Vec<char>, start: usize, end: usize) -> (found: bool)
    requires
        start <= end <= data.len(),
    ensures
        found == is_bytes_encoding(data@.subrange(start as int, end as int)),
{
    span_is(data, start, end, "Cbytes") || span_is(data, start, end, "Bytes") || span_is(
        data,
        start,
        end,
        "Bytes8le",
    ) || span_is(data, start, end, "Bytes16le") || span_is(data, start, end, "Bytes32le")
        || span_is(data, start, end, "Bytes64le") || span_is(data, start, end, "Bytes8be")
        || span_is(data, start, end, "Bytes16be") || span_is(data, start, end, "Bytes32be")
        || span_is(data, start, end, "Bytes64be")
}

fn layout_word_span(data: &Vec<char>, start: usize, end: usize) -> (found: bool)
    requires
        start <= end <= data.len(),
    ensures
        found == is_layout_word(data@.subrange(start as int, end as int)),
{
    span_is(data, start, end, "Array") || span_is(data, start, end, "Padding") || span_is(
        data,
        start,
        end,
        "Bits",
    )
}

/// Whether the characters `data[start..end]` spell a keyword.
pub fn keyword_span(data: &Vec<char>, start: usize, end: usize) -> (found: bool)
    requires
        start <= end <= data.len(),
    ensures
        found == is_keyword(data@.subrange(start as int, end as int)),
{
    structural_word_span(data, start, end) || scalar_type_span(data, start, end)
        || string_encoding_span(data, start, end) || bytes_encoding_span(data, start, end)
        || layout_word_span(data, start, end)
}

} // verus!
