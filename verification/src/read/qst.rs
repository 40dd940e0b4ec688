//! Quest containers: a fixed-layout header table naming the two embedded
//! files and their sizes, followed by fixed-size frames that interleave the
//! two compressed streams.  The demultiplexer reassembles the streams; each
//! is then expanded by the back-reference decompressor and parsed.

use vstd::prelude::*;
use crate::prs;
use crate::read::{le32, read_u32_le, append_range, ReadError};
use crate::read::bin::{self, spec_bin_result, BinFile};
use crate::read::dat::{self, spec_dat_result, DatFile};
use crate::util::{ascii_pred, is_ascii_byte, lenient_ascii, lemma_first_nul_at};

verus! {

/// Byte offset of the first frame: two 88-byte header records.
pub const FRAMES_START: usize = 176;

/// The suffix that marks a frame or header tag as the object stream's.
pub open spec fn dat_suffix() -> Seq<u8> {
    seq![46u8, 100u8, 97u8, 116u8]
}

/// The suffix that marks a frame or header tag as the metadata stream's.
pub open spec fn bin_suffix() -> Seq<u8> {
    seq![46u8, 98u8, 105u8, 110u8]
}

/// Whether `s` ends with `suffix`.
pub open spec fn ends_with(s: Seq<u8>, suffix: Seq<u8>) -> bool {
    s.len() >= suffix.len() && s.subrange(s.len() - suffix.len(), s.len() as int) == suffix
}

/// Whether a raw sixteen-byte tag field names the object stream: its lenient
/// ASCII reading ends with the object-file suffix.
pub open spec fn is_dat_tag(raw: Seq<u8>) -> bool {
    ends_with(lenient_ascii(raw), dat_suffix())
}

/// Whether a raw sixteen-byte tag field names the metadata stream.
pub open spec fn is_bin_tag(raw: Seq<u8>) -> bool {
    ends_with(lenient_ascii(raw), bin_suffix())
}

/// The demultiplexer's meaning, one 1056-byte frame at a time, from frame
/// position `pos` with `dat` and `bin` already reassembled: a frame is
/// skipped 8 bytes in, its 16-byte tag read leniently, its payload length
/// checked against the 1024-byte payload region, and its payload appended to
/// the stream its tag names (frames naming neither are skipped whole); the
/// walk ends once both streams hold their declared sizes.  A source too
/// short for the next needed frame is `Io`; an oversized payload length or a
/// payload overflowing its stream's declared size is `InvalidData`.
pub open spec fn spec_demux(
    data: Seq<u8>,
    pos: int,
    dat_size: int,
    bin_size: int,
    dat: Seq<u8>,
    bin: Seq<u8>,
) -> Result<(Seq<u8>, Seq<u8>), ReadError>
    decreases data.len() + 1056 - pos,
{
    if dat.len() >= dat_size && bin.len() >= bin_size {
        Ok((dat, bin))
    } else if pos + 1052 > data.len() {
        Err(ReadError::Io)
    } else {
        let raw_tag = data.subrange(pos + 8, pos + 24);
        let n = le32(data, pos + 1048);
        if n > 1024 {
            Err(ReadError::InvalidData)
        } else {
            let payload = data.subrange(pos + 24, pos + 24 + n);
            if is_dat_tag(raw_tag) {
                if dat.len() + n <= dat_size {
                    spec_demux(data, pos + 1056, dat_size, bin_size, dat + payload, bin)
                } else {
                    Err(ReadError::InvalidData)
                }
            } else if is_bin_tag(raw_tag) {
                if bin.len() + n <= bin_size {
                    spec_demux(data, pos + 1056, dat_size, bin_size, dat, bin + payload)
                } else {
                    Err(ReadError::InvalidData)
                }
            } else {
                spec_demux(data, pos + 1056, dat_size, bin_size, dat, bin)
            }
        }
    }
}

/// Read the sixteen-byte tag field at `start` leniently: the bytes before
/// its first NUL, with non-ASCII bytes dropped.
fn lenient_tag(data: &Vec<u8>, start: usize) -> (t: Vec<u8>)
    requires
        start + 16 <= data@.len(),
    ensures
        t@ == lenient_ascii(data@.subrange(start as int, start as int + 16)),
{
    let ghost n = data.len();
    let ghost raw = data@.subrange(start as int, start as int + 16);
    let mut t: Vec<u8> = Vec::new();
    let mut i: usize = 0;
    let mut sawnul = false;
    while !sawnul && i < 16
        invariant
            i <= 16,
            start + 16 <= data@.len(),
            data@.len() <= usize::MAX,
            raw == data@.subrange(start as int, start as int + 16),
            !sawnul ==> forall|j: int| 0 <= j < i ==> raw[j] != 0,
            sawnul ==> i <= raw.len() && raw[i as int] == 0 && forall|j: int|
                0 <= j < i ==> raw[j] != 0,
            !sawnul ==> t@ == raw.take(i as int).filter(ascii_pred()),
            sawnul ==> t@ == raw.take(i as int).filter(ascii_pred()),
        decreases 17 - i - (if sawnul { 1int } else { 0 }),
    {
        let b = data[start + i];
        if b == 0 {
            sawnul = true;
        } else {
            if b < 128 {
                t.push(b);
            }
            proof {
                lemma_ascii_filter_push(raw.take(i as int), raw[i as int]);
                assert(raw.take(i as int).push(raw[i as int]) =~= raw.take(i as int + 1));
            }
            i = i + 1;
        }
    }
    proof {
        lemma_first_nul_at(raw, i as int);
        assert(t@ == lenient_ascii(raw));
    }
    t
}

/// Filtering one appended element keeps it exactly when the predicate holds.
proof fn lemma_ascii_filter_push(s: Seq<u8>, b: u8)
    ensures
        s.push(b).filter(ascii_pred()) == if is_ascii_byte(b) {
            s.filter(ascii_pred()).push(b)
        } else {
            s.filter(ascii_pred())
        },
{
    reveal_with_fuel(Seq::<_>::filter, 2);
    assert(s.push(b).drop_last() =~= s);
    assert(s.push(b).last() == b);
}

/// Whether `t` ends with the four given bytes.
fn ends_with4(t: &Vec<u8>, a: u8, b: u8, c: u8, d: u8) -> (r: bool)
    ensures
        r == ends_with(t@, seq![a, b, c, d]),
{
    if t.len() < 4 {
        return false;
    }
    let n = t.len();
    let r = t[n - 4] == a && t[n - 3] == b && t[n - 2] == c && t[n - 1] == d;
    proof {
        let suffix = seq![a, b, c, d];
        if r {
            assert(t@.subrange(n - 4, n as int) =~= suffix);
        }
        if ends_with(t@, suffix) {
            assert(t@.subrange(n - 4, n as int)[0] == a);
            assert(t@.subrange(n - 4, n as int)[1] == b);
            assert(t@.subrange(n - 4, n as int)[2] == c);
            assert(t@.subrange(n - 4, n as int)[3] == d);
        }
    }
    r
}

/// Reassemble the two compressed streams from the container's frames,
/// starting at byte `start`, until each stream holds its declared size.
/// Exactly the successful results leave both streams at their declared
/// sizes; a source exhausted first is `Io`, and a frame declaring a payload
/// over 1024 bytes or overflowing its stream is `InvalidData`.
pub fn extract_file_data(data: &Vec<u8>, start: usize, dat_size: usize, bin_size: usize) -> (r:
    Result<(Vec<u8>, Vec<u8>), ReadError>)
    ensures
        match r {
            Ok(bufs) => spec_demux(
                data@,
                start as int,
                dat_size as int,
                bin_size as int,
                Seq::empty(),
                Seq::empty(),
            ) == Ok::<_, ReadError>((bufs.0@, bufs.1@)) && bufs.0@.len() == dat_size
                && bufs.1@.len() == bin_size,
            Err(e) => spec_demux(
                data@,
                start as int,
                dat_size as int,
                bin_size as int,
                Seq::empty(),
                Seq::empty(),
            ) == Err::<(Seq<u8>, Seq<u8>), ReadError>(e),
        },
{
    let ghost target = spec_demux(
        data@,
        start as int,
        dat_size as int,
        bin_size as int,
        Seq::empty(),
        Seq::empty(),
    );
    let data_len = data.len();
    let mut dat_data: Vec<u8> = Vec::new();
    let mut bin_data: Vec<u8> = Vec::new();
    let mut pos: u128 = start as u128;
    while dat_data.len() < dat_size || bin_data.len() < bin_size
        invariant
            dat_data@.len() <= dat_size,
            bin_data@.len() <= bin_size,
            pos as int <= usize::MAX as int + 4,
            data_len == data@.len(),
            target == spec_demux(
                data@,
                start as int,
                dat_size as int,
                bin_size as int,
                Seq::empty(),
                Seq::empty(),
            ),
            spec_demux(
                data@,
                pos as int,
                dat_size as int,
                bin_size as int,
                dat_data@,
                bin_data@,
            ) == target,
        decreases data@.len() + 1056 - pos,
    {
        if pos + 1052 > data_len as u128 {
            return Err(ReadError::Io);
        }
        let p = pos as usize;
        let tag = lenient_tag(data, p + 8);
        let n32 = read_u32_le(data, p + 1048);
        if n32 > 1024 {
            return Err(ReadError::InvalidData);
        }
        let n = n32 as usize;
        let is_dat = ends_with4(&tag, 46, 100, 97, 116);
        let is_bin = if is_dat {
            false
        } else {
            ends_with4(&tag, 46, 98, 105, 110)
        };
        if is_dat {
            if n <= dat_size - dat_data.len() {
                append_range(&mut dat_data, data, p + 24, n);
            } else {
                return Err(ReadError::InvalidData);
            }
        } else if is_bin {
            if n <= bin_size - bin_data.len() {
                append_range(&mut bin_data, data, p + 24, n);
            } else {
                return Err(ReadError::InvalidData);
            }
        }
        pos = pos + 1056;
    }
    Ok((dat_data, bin_data))
}

/// Law: a frame declaring a payload length over 1024 bytes, met while either
/// stream still needs bytes, makes the whole demultiplex `InvalidData`,
/// whatever stream its tag names.
pub proof fn lemma_oversized_frame(
    data: Seq<u8>,
    pos: int,
    dat_size: int,
    bin_size: int,
    dat: Seq<u8>,
    bin: Seq<u8>,
)
    requires
        !(dat.len() >= dat_size && bin.len() >= bin_size),
        0 <= pos,
        pos + 1052 <= data.len(),
        le32(data, pos + 1048) > 1024,
    ensures
        spec_demux(data, pos, dat_size, bin_size, dat, bin) == Err::<
            (Seq<u8>, Seq<u8>),
            ReadError,
        >(ReadError::InvalidData),
{
}

/// The declared sizes of the two embedded streams, from the container's two
/// 88-byte header records: each holds a 16-byte tag at offset 44 and a
/// little-endian 32-bit size at offset 60 of the record.  The first record
/// must name the object stream, the second the metadata stream, and both
/// sizes must be nonzero, else the container is `InvalidData`; a container
/// shorter than its header table is `Io`.
pub open spec fn spec_header_sizes(data: Seq<u8>) -> Result<(int, int), ReadError> {
    if data.len() < 152 {
        Err(ReadError::Io)
    } else {
        let dat_size = if is_dat_tag(data.subrange(44, 60)) {
            le32(data, 60)
        } else {
            0
        };
        let bin_size = if is_bin_tag(data.subrange(132, 148)) {
            le32(data, 148)
        } else {
            0
        };
        if dat_size == 0 || bin_size == 0 {
            Err(ReadError::InvalidData)
        } else {
            Ok((dat_size, bin_size))
        }
    }
}

/// The two decompressed streams of a container: the header table gives the
/// declared sizes, the frames from byte 176 are demultiplexed into the two
/// compressed streams, and each stream is expanded by the back-reference
/// decompressor, whose failure is `Io`.
pub open spec fn spec_read_qst(data: Seq<u8>) -> Result<(Seq<u8>, Seq<u8>), ReadError> {
    match spec_header_sizes(data) {
        Err(e) => Err(e),
        Ok(sizes) => match spec_demux(data, 176, sizes.0, sizes.1, Seq::empty(), Seq::empty()) {
            Err(e) => Err(e),
            Ok(streams) => match prs::spec_decompress(streams.0) {
                None => Err(ReadError::Io),
                Some(dd) => match prs::spec_decompress(streams.1) {
                    None => Err(ReadError::Io),
                    Some(db) => Ok((dd, db)),
                },
            },
        },
    }
}

/// A decoded quest container: its object file and its metadata file.
pub struct QstFile {
    pub dat: DatFile,
    pub bin: BinFile,
}

/// Decode a whole quest container: read the header table, demultiplex and
/// decompress the two embedded streams, and parse each into its file.
pub fn read(data: &Vec<u8>) -> (r: Result<QstFile, ReadError>)
    ensures
        match r {
            Ok(q) => match spec_read_qst(data@) {
                Ok(streams) => spec_dat_result(streams.0) == Ok::<_, ReadError>(
                    (q.dat.episode, q.dat.monster_counts@),
                ) && spec_bin_result(streams.1) == Ok::<_, ReadError>(
                    (q.bin.quest_name@, q.bin.short_description@),
                ),
                Err(_) => false,
            },
            Err(e) => match spec_read_qst(data@) {
                Err(e2) => e == e2,
                Ok(streams) => match spec_dat_result(streams.0) {
                    Err(e2) => e == e2,
                    Ok(_) => spec_bin_result(streams.1) == Err::<(Seq<char>, Seq<char>), ReadError>(
                        e,
                    ),
                },
            },
        },
{
    if data.len() < 152 {
        return Err(ReadError::Io);
    }
    let tag1 = lenient_tag(data, 44);
    let size1 = read_u32_le(data, 60);
    let tag2 = lenient_tag(data, 132);
    let size2 = read_u32_le(data, 148);
    let dat_size: u32 = if ends_with4(&tag1, 46, 100, 97, 116) {
        size1
    } else {
        0
    };
    let bin_size: u32 = if ends_with4(&tag2, 46, 98, 105, 110) {
        size2
    } else {
        0
    };
    if dat_size == 0 || bin_size == 0 {
        return Err(ReadError::InvalidData);
    }
    let streams = match extract_file_data(data, FRAMES_START, dat_size as usize, bin_size as usize) {
        Ok(s) => s,
        Err(e) => {
            return Err(e);
        },
    };
    let decompressed_dat = match prs::decompress(&streams.0) {
        Ok(v) => v,
        Err(e) => {
            return Err(e);
        },
    };
    let decompressed_bin = match prs::decompress(&streams.1) {
        Ok(v) => v,
        Err(e) => {
            return Err(e);
        },
    };
    let dat_file = match dat::read(&decompressed_dat) {
        Ok(d) => d,
        Err(e) => {
            return Err(e);
        },
    };
    let bin_file = match bin::read(&decompressed_bin) {
        Ok(b) => b,
        Err(e) => {
            return Err(e);
        },
    };
    Ok(QstFile { dat: dat_file, bin: bin_file })
}

} // verus!
