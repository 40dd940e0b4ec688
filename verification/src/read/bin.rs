//! The metadata stream of a quest: a fixed-layout record holding the quest
//! name and its short description as NUL-terminated UTF-16LE fields.

use vstd::prelude::*;
use crate::read::{append_range, ReadError};
use crate::util::{first_nul_pair, read_utf_16le_string, utf16le_chars};

verus! {

/// The quest name and short description of the metadata stream.
pub struct BinFile {
    pub quest_name: String,
    pub short_description: String,
}

/// The text of a NUL-terminated UTF-16LE field: the bytes before its first
/// aligned NUL-NUL unit, decoded with malformed units dropped.
pub open spec fn utf16_field(s: Seq<u8>) -> Seq<char> {
    utf16le_chars(s.take(first_nul_pair(s)))
}

/// The meaning of a metadata stream: after a 24-byte preamble, the 64-byte
/// quest-name field and the 256-byte short-description field; a stream too
/// short for them is `Io`.
pub open spec fn spec_bin_result(bytes: Seq<u8>) -> Result<(Seq<char>, Seq<char>), ReadError> {
    if bytes.len() < 344 {
        Err(ReadError::Io)
    } else {
        Ok((utf16_field(bytes.subrange(24, 88)), utf16_field(bytes.subrange(88, 344))))
    }
}

/// Decode the metadata stream into the quest name and short description.
pub fn read(data: &Vec<u8>) -> (r: Result<BinFile, ReadError>)
    ensures
        match r {
            Ok(b) => spec_bin_result(data@) == Ok::<_, ReadError>(
                (b.quest_name@, b.short_description@),
            ),
            Err(e) => spec_bin_result(data@) == Err::<(Seq<char>, Seq<char>), ReadError>(e),
        },
{
    if data.len() < 344 {
        return Err(ReadError::Io);
    }
    let mut name_buffer: Vec<u8> = Vec::new();
    append_range(&mut name_buffer, data, 24, 64);
    let mut desc_buffer: Vec<u8> = Vec::new();
    append_range(&mut desc_buffer, data, 88, 256);
    proof {
        assert(name_buffer@ =~= data@.subrange(24, 88));
        assert(desc_buffer@ =~= data@.subrange(88, 344));
    }
    let quest_name = read_utf_16le_string(&name_buffer);
    let short_description = read_utf_16le_string(&desc_buffer);
    Ok(BinFile { quest_name, short_description })
}

} // verus!
