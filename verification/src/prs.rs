//! Back-reference decompressor for the archive's LZ-style compressed
//! encoding.
//!
//! A compressed stream is a sequence of units, each selected by control bits
//! drawn from an eight-bit flag register that is refilled from the source
//! whenever it runs empty.  A set control bit copies one literal byte from
//! the source; a clear one introduces a back-reference (short or long form)
//! that copies already-produced output, possibly overlapping the region being
//! written, which encodes run-length repetition.  A long-form field of zero
//! ends the stream.

use vstd::prelude::*;
use crate::read::ReadError;

verus! {

/// The state of one decompression run: a cursor into the compressed source,
/// the flag register with the count of control bits still unread from it, and
/// the output produced so far, which doubles as the window that
/// back-references read.
pub ghost struct PrsState {
    pub pos: int,
    pub flags: u8,
    pub bit_pos: u8,
    pub out: Seq<u8>,
}

/// The starting state of a decompression run: an empty flag register, forcing
/// a refill on the first control bit, and no output.
pub open spec fn init_state() -> PrsState {
    PrsState { pos: 0, flags: 0, bit_pos: 0, out: Seq::empty() }
}

/// Draw one control bit.  An exhausted register is refilled from the source
/// (consuming one byte); bits are dequeued from the low end.  Yields the bit
/// and the successor state, or `None` when a refill runs past the source.
pub open spec fn flag_step(src: Seq<u8>, s: PrsState) -> Option<(u8, PrsState)> {
    if s.bit_pos == 0 {
        if 0 <= s.pos < src.len() {
            Some(
                (
                    src[s.pos] % 2,
                    PrsState { pos: s.pos + 1, flags: src[s.pos] / 2, bit_pos: 7, out: s.out },
                ),
            )
        } else {
            None
        }
    } else {
        Some(
            (
                s.flags % 2,
                PrsState { flags: s.flags / 2, bit_pos: (s.bit_pos - 1) as u8, ..s },
            ),
        )
    }
}

/// Read one byte from the source, or `None` when it is exhausted.
pub open spec fn byte_step(src: Seq<u8>, s: PrsState) -> Option<(u8, PrsState)> {
    if 0 <= s.pos < src.len() {
        Some((src[s.pos], PrsState { pos: s.pos + 1, ..s }))
    } else {
        None
    }
}

/// Copy one literal byte from the source to the output.
pub open spec fn lit_step(src: Seq<u8>, s: PrsState) -> Option<PrsState> {
    match byte_step(src, s) {
        None => None,
        Some((b, s1)) => Some(PrsState { out: s1.out.push(b), ..s1 }),
    }
}

/// Read a little-endian sixteen-bit field from the source.
pub open spec fn short_step(src: Seq<u8>, s: PrsState) -> Option<(int, PrsState)> {
    match byte_step(src, s) {
        None => None,
        Some((lo, s1)) => match byte_step(src, s1) {
            None => None,
            Some((hi, s2)) => Some((lo + 256 * hi, s2)),
        },
    }
}

/// One byte of a back-reference copy of distance `dist` (strictly negative):
/// within the referenced window it reads output already present; past the
/// window it repeats the window, which is how a copy longer than `-dist`
/// produces a repeating pattern.
pub open spec fn back_ref_byte(out: Seq<u8>, dist: int, j: int) -> u8
    decreases j when dist < 0 && j >= 0
{
    if j < -dist {
        out[out.len() + dist + j]
    } else {
        back_ref_byte(out, dist, j + dist)
    }
}

/// The output after a back-reference copy of `len` bytes at distance `dist`.
pub open spec fn back_copy(out: Seq<u8>, dist: int, len: int) -> Seq<u8> {
    out + Seq::new(len as nat, |j: int| back_ref_byte(out, dist, j))
}

/// The meaning of a compressed stream, decoded from state `s`: `Some` of the
/// final output when a long-form field of zero is reached, `None` when the
/// source is exhausted first or a back-reference reaches before the start of
/// the output.
pub open spec fn decode_from(src: Seq<u8>, s: PrsState) -> Option<Seq<u8>>
    decreases src.len() - s.pos
{
    match flag_step(src, s) {
        None => None,
        Some((b, s1)) => {
            if b == 1 {
                // Single byte copy.
                match lit_step(src, s1) {
                    None => None,
                    Some(s2) => decode_from(src, s2),
                }
            } else {
                match flag_step(src, s1) {
                    None => None,
                    Some((b2, s2)) => {
                        if b2 == 0 {
                            // Short copy: a two-bit size code, then a distance byte.
                            match flag_step(src, s2) {
                                None => None,
                                Some((h, s3)) => match flag_step(src, s3) {
                                    None => None,
                                    Some((l, s4)) => match byte_step(src, s4) {
                                        None => None,
                                        Some((d, s5)) => {
                                            let len = 2 * h + l + 2;
                                            let dist = d - 256;
                                            if s5.out.len() + dist >= 0 {
                                                decode_from(
                                                    src,
                                                    PrsState { out: back_copy(s5.out, dist, len), ..s5 },
                                                )
                                            } else {
                                                None
                                            }
                                        },
                                    },
                                },
                            }
                        } else {
                            // Long copy, or the end marker.
                            match short_step(src, s2) {
                                None => None,
                                Some((field, s3)) => {
                                    if field == 0 {
                                        Some(s3.out)
                                    } else {
                                        let dist = field / 8 - 8192;
                                        let sel = field % 8;
                                        if sel == 0 {
                                            match byte_step(src, s3) {
                                                None => None,
                                                Some((sz, s4)) => {
                                                    let len = sz + 1;
                                                    if s4.out.len() + dist >= 0 {
                                                        decode_from(
                                                            src,
                                                            PrsState { out: back_copy(s4.out, dist, len), ..s4 },
                                                        )
                                                    } else {
                                                        None
                                                    }
                                                },
                                            }
                                        } else {
                                            let len = sel + 2;
                                            if s3.out.len() + dist >= 0 {
                                                decode_from(
                                                    src,
                                                    PrsState { out: back_copy(s3.out, dist, len), ..s3 },
                                                )
                                            } else {
                                                None
                                            }
                                        }
                                    }
                                },
                            }
                        }
                    },
                }
            }
        },
    }
}

/// The meaning of a whole compressed stream.
pub open spec fn spec_decompress(src: Seq<u8>) -> Option<Seq<u8>> {
    decode_from(src, init_state())
}

/// Every byte of a distance -1 back-reference is the last byte the output
/// held before the copy began.
proof fn lemma_back_ref_run(out: Seq<u8>, j: int)
    requires
        out.len() >= 1,
        j >= 0,
    ensures
        back_ref_byte(out, -1, j) == out.last(),
    decreases j,
{
    if j >= 1 {
        lemma_back_ref_run(out, j - 1);
    }
}

/// Law: an overlapping copy one byte behind the end of the output is a run:
/// a back-reference of distance -1 and length `len` appends `len` repetitions
/// of the single preceding byte.
pub proof fn lemma_run_length_copy(out: Seq<u8>, len: int)
    requires
        out.len() >= 1,
        len >= 0,
    ensures
        back_copy(out, -1, len) == out + Seq::new(len as nat, |j: int| out.last()),
{
    assert forall|j: int| 0 <= j < len implies #[trigger] back_ref_byte(out, -1, j)
        == out.last() by {
        lemma_back_ref_run(out, j);
    }
    assert(back_copy(out, -1, len) =~= out + Seq::new(len as nat, |j: int| out.last()));
}

/// Law: a long-form field of exactly zero ends decompression at once with
/// the output produced so far — here from the start, so with empty output —
/// whatever source bytes remain after it.
pub proof fn lemma_end_marker_terminates(tail: Seq<u8>)
    ensures
        spec_decompress(seq![2u8, 0u8, 0u8] + tail) == Some(Seq::<u8>::empty()),
{
    let src = seq![2u8, 0u8, 0u8] + tail;
    assert(src[0] == 2);
    assert(src[1] == 0);
    assert(src[2] == 0);
    let s0 = init_state();
    let s1 = PrsState { pos: 1, flags: 1, bit_pos: 7, out: Seq::empty() };
    let s2 = PrsState { pos: 1, flags: 0, bit_pos: 6, out: Seq::empty() };
    assert(flag_step(src, s0) == Some((0u8, s1)));
    assert(flag_step(src, s1) == Some((1u8, s2)));
    let s3 = PrsState { pos: 3, flags: 0, bit_pos: 6, out: Seq::empty() };
    assert(short_step(src, s2) == Some((0int, s3)));
}

/// A compressed stream that encodes `data` with literal copies alone:
/// groups of eight literal bytes under an all-set flag byte, a shorter final
/// group under a flag byte that also carries the end marker's two control
/// bits, and the end marker itself.  Every byte sequence has this conforming
/// encoding.
pub open spec fn literal_encoding(data: Seq<u8>) -> Seq<u8>
    decreases data.len(),
{
    if data.len() >= 8 {
        seq![255u8] + data.take(8) + literal_encoding(data.skip(8))
    } else if data.len() == 7 {
        seq![127u8] + data + seq![1u8, 0u8, 0u8]
    } else {
        let flag = if data.len() == 0 {
            2u8
        } else if data.len() == 1 {
            5u8
        } else if data.len() == 2 {
            11u8
        } else if data.len() == 3 {
            23u8
        } else if data.len() == 4 {
            47u8
        } else if data.len() == 5 {
            95u8
        } else {
            191u8
        };
        seq![flag] + data + seq![0u8, 0u8]
    }
}

/// Unfolding one literal unit of the decoder.
proof fn lemma_decode_literal_step(src: Seq<u8>, s: PrsState, s1: PrsState, s2: PrsState)
    requires
        flag_step(src, s) == Some((1u8, s1)),
        lit_step(src, s1) == Some(s2),
    ensures
        decode_from(src, s) == decode_from(src, s2),
{
}

/// Unfolding the end-marker unit of the decoder.
proof fn lemma_decode_end_step(src: Seq<u8>, s: PrsState, s1: PrsState, s2: PrsState, s3: PrsState)
    requires
        flag_step(src, s) == Some((0u8, s1)),
        flag_step(src, s1) == Some((1u8, s2)),
        short_step(src, s2) == Some((0int, s3)),
    ensures
        decode_from(src, s) == Some(s3.out),
{
}

/// Decoding one full group of eight literals under an all-set flag byte.
#[verifier::rlimit(60)]
#[verifier::spinoff_prover]
proof fn lemma_literal_chunk(src: Seq<u8>, pos: int, flags: u8, out: Seq<u8>, data: Seq<u8>)
    requires
        0 <= pos <= src.len(),
        src.skip(pos) == literal_encoding(data),
        data.len() >= 8,
    ensures
        decode_from(src, PrsState { pos, flags, bit_pos: 0, out }) == decode_from(
            src,
            PrsState { pos: pos + 9, flags: 0u8, bit_pos: 0, out: out + data.take(8) },
        ),
        src.skip(pos + 9) == literal_encoding(data.skip(8)),
        pos + 9 <= src.len(),
{
    assert forall|k: int| 0 <= k < src.len() - pos implies #[trigger] src[pos + k]
        == literal_encoding(data)[k] by {
        assert(src.skip(pos)[k] == src[pos + k]);
    }
    let enc = literal_encoding(data);
    let rest = literal_encoding(data.skip(8));
    assert(enc.len() == src.len() - pos);
    assert forall|k: int| 0 <= k < 8 implies #[trigger] enc[1 + k] == data[k] by {
        assert((seq![255u8] + data.take(8) + rest)[1 + k] == data.take(8)[k]);
    }
        assert(enc[0] == 255u8);
        assert(src[pos + 0] == enc[0]);
        let t0 = PrsState { pos, flags, bit_pos: 0, out };
        let o1 = out.push(src[pos + 1]);
        let s1 = PrsState { pos: pos + 1, flags: 127u8, bit_pos: 7, out };
        assert(flag_step(src, t0) == Some((1u8, s1)));
        let s2 = PrsState { pos: pos + 2, flags: 127u8, bit_pos: 7, out: o1 };
        assert(lit_step(src, s1) == Some(s2));
        lemma_decode_literal_step(src, t0, s1, s2);
        let o2 = o1.push(src[pos + 2]);
        let s3 = PrsState { pos: pos + 2, flags: 63u8, bit_pos: 6, out: o1 };
        assert(flag_step(src, s2) == Some((1u8, s3)));
        let s4 = PrsState { pos: pos + 3, flags: 63u8, bit_pos: 6, out: o2 };
        assert(lit_step(src, s3) == Some(s4));
        lemma_decode_literal_step(src, s2, s3, s4);
        let o3 = o2.push(src[pos + 3]);
        let s5 = PrsState { pos: pos + 3, flags: 31u8, bit_pos: 5, out: o2 };
        assert(flag_step(src, s4) == Some((1u8, s5)));
        let s6 = PrsState { pos: pos + 4, flags: 31u8, bit_pos: 5, out: o3 };
        assert(lit_step(src, s5) == Some(s6));
        lemma_decode_literal_step(src, s4, s5, s6);
        let o4 = o3.push(src[pos + 4]);
        let s7 = PrsState { pos: pos + 4, flags: 15u8, bit_pos: 4, out: o3 };
        assert(flag_step(src, s6) == Some((1u8, s7)));
        let s8 = PrsState { pos: pos + 5, flags: 15u8, bit_pos: 4, out: o4 };
        assert(lit_step(src, s7) == Some(s8));
        lemma_decode_literal_step(src, s6, s7, s8);
        let o5 = o4.push(src[pos + 5]);
        let s9 = PrsState { pos: pos + 5, flags: 7u8, bit_pos: 3, out: o4 };
        assert(flag_step(src, s8) == Some((1u8, s9)));
        let s10 = PrsState { pos: pos + 6, flags: 7u8, bit_pos: 3, out: o5 };
        assert(lit_step(src, s9) == Some(s10));
        lemma_decode_literal_step(src, s8, s9, s10);
        let o6 = o5.push(src[pos + 6]);
        let s11 = PrsState { pos: pos + 6, flags: 3u8, bit_pos: 2, out: o5 };
        assert(flag_step(src, s10) == Some((1u8, s11)));
        let s12 = PrsState { pos: pos + 7, flags: 3u8, bit_pos: 2, out: o6 };
        assert(lit_step(src, s11) == Some(s12));
        lemma_decode_literal_step(src, s10, s11, s12);
        let o7 = o6.push(src[pos + 7]);
        let s13 = PrsState { pos: pos + 7, flags: 1u8, bit_pos: 1, out: o6 };
        assert(flag_step(src, s12) == Some((1u8, s13)));
        let s14 = PrsState { pos: pos + 8, flags: 1u8, bit_pos: 1, out: o7 };
        assert(lit_step(src, s13) == Some(s14));
        lemma_decode_literal_step(src, s12, s13, s14);
        let o8 = o7.push(src[pos + 8]);
        let s15 = PrsState { pos: pos + 8, flags: 0u8, bit_pos: 0, out: o7 };
        assert(flag_step(src, s14) == Some((1u8, s15)));
        let s16 = PrsState { pos: pos + 9, flags: 0u8, bit_pos: 0, out: o8 };
        assert(lit_step(src, s15) == Some(s16));
        lemma_decode_literal_step(src, s14, s15, s16);
        assert(o8 =~= out + data.take(8));
        assert(s16 == (PrsState { pos: pos + 9, flags: 0u8, bit_pos: 0, out: out + data.take(8) }));
    assert forall|k: int| 0 <= k < rest.len() implies #[trigger] src.skip(pos + 9)[k]
        == rest[k] by {
        assert(src.skip(pos + 9)[k] == src[pos + 9 + k]);
        assert(src.skip(pos)[9 + k] == src[pos + (9 + k)]);
        assert((seq![255u8] + data.take(8) + rest)[9 + k] == rest[k]);
    }
    assert(src.skip(pos + 9) =~= rest);
}

/// Decoding a final group of four to seven literals and the end marker.
#[verifier::rlimit(100)]
#[verifier::spinoff_prover]
proof fn lemma_literal_tail_long(src: Seq<u8>, pos: int, flags: u8, out: Seq<u8>, data: Seq<u8>)
    requires
        0 <= pos <= src.len(),
        src.skip(pos) == literal_encoding(data),
        4 <= data.len() < 8,
    ensures
        decode_from(src, PrsState { pos, flags, bit_pos: 0, out }) == Some(out + data),
{
    assert forall|k: int| 0 <= k < src.len() - pos implies #[trigger] src[pos + k]
        == literal_encoding(data)[k] by {
        assert(src.skip(pos)[k] == src[pos + k]);
    }
    let enc = literal_encoding(data);
    assert(enc.len() == src.len() - pos);
    if data.len() == 7 {
        assert forall|k: int| 0 <= k < 7 implies #[trigger] enc[1 + k] == data[k] by {
            assert((seq![127u8] + data + seq![1u8, 0u8, 0u8])[1 + k] == data[k]);
        }
        assert(enc[8] == 1u8 && enc[9] == 0u8 && enc[10] == 0u8);
        assert(enc[0] == 127u8);
        assert(src[pos + 0] == enc[0]);
        let t0 = PrsState { pos, flags, bit_pos: 0, out };
        let go1 = out.push(src[pos + 1]);
        let gs1 = PrsState { pos: pos + 1, flags: 63u8, bit_pos: 7, out };
        assert(flag_step(src, t0) == Some((1u8, gs1)));
        let gs2 = PrsState { pos: pos + 2, flags: 63u8, bit_pos: 7, out: go1 };
        assert(lit_step(src, gs1) == Some(gs2));
        lemma_decode_literal_step(src, t0, gs1, gs2);
        let go2 = go1.push(src[pos + 2]);
        let gs3 = PrsState { pos: pos + 2, flags: 31u8, bit_pos: 6, out: go1 };
        assert(flag_step(src, gs2) == Some((1u8, gs3)));
        let gs4 = PrsState { pos: pos + 3, flags: 31u8, bit_pos: 6, out: go2 };
        assert(lit_step(src, gs3) == Some(gs4));
        lemma_decode_literal_step(src, gs2, gs3, gs4);
        let go3 = go2.push(src[pos + 3]);
        let gs5 = PrsState { pos: pos + 3, flags: 15u8, bit_pos: 5, out: go2 };
        assert(flag_step(src, gs4) == Some((1u8, gs5)));
        let gs6 = PrsState { pos: pos + 4, flags: 15u8, bit_pos: 5, out: go3 };
        assert(lit_step(src, gs5) == Some(gs6));
        lemma_decode_literal_step(src, gs4, gs5, gs6);
        let go4 = go3.push(src[pos + 4]);
        let gs7 = PrsState { pos: pos + 4, flags: 7u8, bit_pos: 4, out: go3 };
        assert(flag_step(src, gs6) == Some((1u8, gs7)));
        let gs8 = PrsState { pos: pos + 5, flags: 7u8, bit_pos: 4, out: go4 };
        assert(lit_step(src, gs7) == Some(gs8));
        lemma_decode_literal_step(src, gs6, gs7, gs8);
        let go5 = go4.push(src[pos + 5]);
        let gs9 = PrsState { pos: pos + 5, flags: 3u8, bit_pos: 3, out: go4 };
        assert(flag_step(src, gs8) == Some((1u8, gs9)));
        let gs10 = PrsState { pos: pos + 6, flags: 3u8, bit_pos: 3, out: go5 };
        assert(lit_step(src, gs9) == Some(gs10));
        lemma_decode_literal_step(src, gs8, gs9, gs10);
        let go6 = go5.push(src[pos + 6]);
        let gs11 = PrsState { pos: pos + 6, flags: 1u8, bit_pos: 2, out: go5 };
        assert(flag_step(src, gs10) == Some((1u8, gs11)));
        let gs12 = PrsState { pos: pos + 7, flags: 1u8, bit_pos: 2, out: go6 };
        assert(lit_step(src, gs11) == Some(gs12));
        lemma_decode_literal_step(src, gs10, gs11, gs12);
        let go7 = go6.push(src[pos + 7]);
        let gs13 = PrsState { pos: pos + 7, flags: 0u8, bit_pos: 1, out: go6 };
        assert(flag_step(src, gs12) == Some((1u8, gs13)));
        let gs14 = PrsState { pos: pos + 8, flags: 0u8, bit_pos: 1, out: go7 };
        assert(lit_step(src, gs13) == Some(gs14));
        lemma_decode_literal_step(src, gs12, gs13, gs14);
        let ge1 = PrsState { pos: pos + 8, flags: 0u8, bit_pos: 0, out: go7 };
        assert(flag_step(src, gs14) == Some((0u8, ge1)));
        assert(src[pos + 8] == 1u8);
        let ge2 = PrsState { pos: pos + 9, flags: 0u8, bit_pos: 7, out: go7 };
        assert(flag_step(src, ge1) == Some((1u8, ge2)));
        assert(src[pos + 9] == 0u8 && src[pos + 10] == 0u8);
        let ge3 = PrsState { pos: pos + 11, flags: 0u8, bit_pos: 7, out: go7 };
        assert(short_step(src, ge2) == Some((0int, ge3)));
        lemma_decode_end_step(src, gs14, ge1, ge2, ge3);
        assert(go7 =~= out + data);
    } else if data.len() == 6 {
        assert forall|k: int| 0 <= k < 6 implies #[trigger] enc[1 + k] == data[k] by {
            assert((seq![191u8] + data + seq![0u8, 0u8])[1 + k] == data[k]);
        }
        assert(enc[7] == 0u8 && enc[8] == 0u8);
        assert(enc[0] == 191u8);
        assert(src[pos + 0] == enc[0]);
        let t0 = PrsState { pos, flags, bit_pos: 0, out };
        let c6o1 = out.push(src[pos + 1]);
        let c6s1 = PrsState { pos: pos + 1, flags: 95u8, bit_pos: 7, out };
        assert(flag_step(src, t0) == Some((1u8, c6s1)));
        let c6s2 = PrsState { pos: pos + 2, flags: 95u8, bit_pos: 7, out: c6o1 };
        assert(lit_step(src, c6s1) == Some(c6s2));
        lemma_decode_literal_step(src, t0, c6s1, c6s2);
        let c6o2 = c6o1.push(src[pos + 2]);
        let c6s3 = PrsState { pos: pos + 2, flags: 47u8, bit_pos: 6, out: c6o1 };
        assert(flag_step(src, c6s2) == Some((1u8, c6s3)));
        let c6s4 = PrsState { pos: pos + 3, flags: 47u8, bit_pos: 6, out: c6o2 };
        assert(lit_step(src, c6s3) == Some(c6s4));
        lemma_decode_literal_step(src, c6s2, c6s3, c6s4);
        let c6o3 = c6o2.push(src[pos + 3]);
        let c6s5 = PrsState { pos: pos + 3, flags: 23u8, bit_pos: 5, out: c6o2 };
        assert(flag_step(src, c6s4) == Some((1u8, c6s5)));
        let c6s6 = PrsState { pos: pos + 4, flags: 23u8, bit_pos: 5, out: c6o3 };
        assert(lit_step(src, c6s5) == Some(c6s6));
        lemma_decode_literal_step(src, c6s4, c6s5, c6s6);
        let c6o4 = c6o3.push(src[pos + 4]);
        let c6s7 = PrsState { pos: pos + 4, flags: 11u8, bit_pos: 4, out: c6o3 };
        assert(flag_step(src, c6s6) == Some((1u8, c6s7)));
        let c6s8 = PrsState { pos: pos + 5, flags: 11u8, bit_pos: 4, out: c6o4 };
        assert(lit_step(src, c6s7) == Some(c6s8));
        lemma_decode_literal_step(src, c6s6, c6s7, c6s8);
        let c6o5 = c6o4.push(src[pos + 5]);
        let c6s9 = PrsState { pos: pos + 5, flags: 5u8, bit_pos: 3, out: c6o4 };
        assert(flag_step(src, c6s8) == Some((1u8, c6s9)));
        let c6s10 = PrsState { pos: pos + 6, flags: 5u8, bit_pos: 3, out: c6o5 };
        assert(lit_step(src, c6s9) == Some(c6s10));
        lemma_decode_literal_step(src, c6s8, c6s9, c6s10);
        let c6o6 = c6o5.push(src[pos + 6]);
        let c6s11 = PrsState { pos: pos + 6, flags: 2u8, bit_pos: 2, out: c6o5 };
        assert(flag_step(src, c6s10) == Some((1u8, c6s11)));
        let c6s12 = PrsState { pos: pos + 7, flags: 2u8, bit_pos: 2, out: c6o6 };
        assert(lit_step(src, c6s11) == Some(c6s12));
        lemma_decode_literal_step(src, c6s10, c6s11, c6s12);
        let c6e1 = PrsState { pos: pos + 7, flags: 1u8, bit_pos: 1, out: c6o6 };
        assert(flag_step(src, c6s12) == Some((0u8, c6e1)));
        let c6e2 = PrsState { pos: pos + 7, flags: 0u8, bit_pos: 0, out: c6o6 };
        assert(flag_step(src, c6e1) == Some((1u8, c6e2)));
        assert(src[pos + 7] == 0u8 && src[pos + 8] == 0u8);
        let c6e3 = PrsState { pos: pos + 9, flags: 0u8, bit_pos: 0, out: c6o6 };
        assert(short_step(src, c6e2) == Some((0int, c6e3)));
        lemma_decode_end_step(src, c6s12, c6e1, c6e2, c6e3);
        assert(c6o6 =~= out + data);
    } else if data.len() == 5 {
        assert forall|k: int| 0 <= k < 5 implies #[trigger] enc[1 + k] == data[k] by {
            assert((seq![95u8] + data + seq![0u8, 0u8])[1 + k] == data[k]);
        }
        assert(enc[6] == 0u8 && enc[7] == 0u8);
        assert(enc[0] == 95u8);
        assert(src[pos + 0] == enc[0]);
        let t0 = PrsState { pos, flags, bit_pos: 0, out };
        let c5o1 = out.push(src[pos + 1]);
        let c5s1 = PrsState { pos: pos + 1, flags: 47u8, bit_pos: 7, out };
        assert(flag_step(src, t0) == Some((1u8, c5s1)));
        let c5s2 = PrsState { pos: pos + 2, flags: 47u8, bit_pos: 7, out: c5o1 };
        assert(lit_step(src, c5s1) == Some(c5s2));
        lemma_decode_literal_step(src, t0, c5s1, c5s2);
        let c5o2 = c5o1.push(src[pos + 2]);
        let c5s3 = PrsState { pos: pos + 2, flags: 23u8, bit_pos: 6, out: c5o1 };
        assert(flag_step(src, c5s2) == Some((1u8, c5s3)));
        let c5s4 = PrsState { pos: pos + 3, flags: 23u8, bit_pos: 6, out: c5o2 };
        assert(lit_step(src, c5s3) == Some(c5s4));
        lemma_decode_literal_step(src, c5s2, c5s3, c5s4);
        let c5o3 = c5o2.push(src[pos + 3]);
        let c5s5 = PrsState { pos: pos + 3, flags: 11u8, bit_pos: 5, out: c5o2 };
        assert(flag_step(src, c5s4) == Some((1u8, c5s5)));
        let c5s6 = PrsState { pos: pos + 4, flags: 11u8, bit_pos: 5, out: c5o3 };
        assert(lit_step(src, c5s5) == Some(c5s6));
        lemma_decode_literal_step(src, c5s4, c5s5, c5s6);
        let c5o4 = c5o3.push(src[pos + 4]);
        let c5s7 = PrsState { pos: pos + 4, flags: 5u8, bit_pos: 4, out: c5o3 };
        assert(flag_step(src, c5s6) == Some((1u8, c5s7)));
        let c5s8 = PrsState { pos: pos + 5, flags: 5u8, bit_pos: 4, out: c5o4 };
        assert(lit_step(src, c5s7) == Some(c5s8));
        lemma_decode_literal_step(src, c5s6, c5s7, c5s8);
        let c5o5 = c5o4.push(src[pos + 5]);
        let c5s9 = PrsState { pos: pos + 5, flags: 2u8, bit_pos: 3, out: c5o4 };
        assert(flag_step(src, c5s8) == Some((1u8, c5s9)));
        let c5s10 = PrsState { pos: pos + 6, flags: 2u8, bit_pos: 3, out: c5o5 };
        assert(lit_step(src, c5s9) == Some(c5s10));
        lemma_decode_literal_step(src, c5s8, c5s9, c5s10);
        let c5e1 = PrsState { pos: pos + 6, flags: 1u8, bit_pos: 2, out: c5o5 };
        assert(flag_step(src, c5s10) == Some((0u8, c5e1)));
        let c5e2 = PrsState { pos: pos + 6, flags: 0u8, bit_pos: 1, out: c5o5 };
        assert(flag_step(src, c5e1) == Some((1u8, c5e2)));
        assert(src[pos + 6] == 0u8 && src[pos + 7] == 0u8);
        let c5e3 = PrsState { pos: pos + 8, flags: 0u8, bit_pos: 1, out: c5o5 };
        assert(short_step(src, c5e2) == Some((0int, c5e3)));
        lemma_decode_end_step(src, c5s10, c5e1, c5e2, c5e3);
        assert(c5o5 =~= out + data);
    } else if data.len() == 4 {
        assert forall|k: int| 0 <= k < 4 implies #[trigger] enc[1 + k] == data[k] by {
            assert((seq![47u8] + data + seq![0u8, 0u8])[1 + k] == data[k]);
        }
        assert(enc[5] == 0u8 && enc[6] == 0u8);
        assert(enc[0] == 47u8);
        assert(src[pos + 0] == enc[0]);
        let t0 = PrsState { pos, flags, bit_pos: 0, out };
        let c4o1 = out.push(src[pos + 1]);
        let c4s1 = PrsState { pos: pos + 1, flags: 23u8, bit_pos: 7, out };
        assert(flag_step(src, t0) == Some((1u8, c4s1)));
        let c4s2 = PrsState { pos: pos + 2, flags: 23u8, bit_pos: 7, out: c4o1 };
        assert(lit_step(src, c4s1) == Some(c4s2));
        lemma_decode_literal_step(src, t0, c4s1, c4s2);
        let c4o2 = c4o1.push(src[pos + 2]);
        let c4s3 = PrsState { pos: pos + 2, flags: 11u8, bit_pos: 6, out: c4o1 };
        assert(flag_step(src, c4s2) == Some((1u8, c4s3)));
        let c4s4 = PrsState { pos: pos + 3, flags: 11u8, bit_pos: 6, out: c4o2 };
        assert(lit_step(src, c4s3) == Some(c4s4));
        lemma_decode_literal_step(src, c4s2, c4s3, c4s4);
        let c4o3 = c4o2.push(src[pos + 3]);
        let c4s5 = PrsState { pos: pos + 3, flags: 5u8, bit_pos: 5, out: c4o2 };
        assert(flag_step(src, c4s4) == Some((1u8, c4s5)));
        let c4s6 = PrsState { pos: pos + 4, flags: 5u8, bit_pos: 5, out: c4o3 };
        assert(lit_step(src, c4s5) == Some(c4s6));
        lemma_decode_literal_step(src, c4s4, c4s5, c4s6);
        let c4o4 = c4o3.push(src[pos + 4]);
        let c4s7 = PrsState { pos: pos + 4, flags: 2u8, bit_pos: 4, out: c4o3 };
        assert(flag_step(src, c4s6) == Some((1u8, c4s7)));
        let c4s8 = PrsState { pos: pos + 5, flags: 2u8, bit_pos: 4, out: c4o4 };
        assert(lit_step(src, c4s7) == Some(c4s8));
        lemma_decode_literal_step(src, c4s6, c4s7, c4s8);
        let c4e1 = PrsState { pos: pos + 5, flags: 1u8, bit_pos: 3, out: c4o4 };
        assert(flag_step(src, c4s8) == Some((0u8, c4e1)));
        let c4e2 = PrsState { pos: pos + 5, flags: 0u8, bit_pos: 2, out: c4o4 };
        assert(flag_step(src, c4e1) == Some((1u8, c4e2)));
        assert(src[pos + 5] == 0u8 && src[pos + 6] == 0u8);
        let c4e3 = PrsState { pos: pos + 7, flags: 0u8, bit_pos: 2, out: c4o4 };
        assert(short_step(src, c4e2) == Some((0int, c4e3)));
        lemma_decode_end_step(src, c4s8, c4e1, c4e2, c4e3);
        assert(c4o4 =~= out + data);
    } else {
        assert(false);
    }
}

/// Decoding a final group of at most three literals and the end marker.
#[verifier::rlimit(100)]
#[verifier::spinoff_prover]
proof fn lemma_literal_tail_short(src: Seq<u8>, pos: int, flags: u8, out: Seq<u8>, data: Seq<u8>)
    requires
        0 <= pos <= src.len(),
        src.skip(pos) == literal_encoding(data),
        data.len() < 4,
    ensures
        decode_from(src, PrsState { pos, flags, bit_pos: 0, out }) == Some(out + data),
{
    assert forall|k: int| 0 <= k < src.len() - pos implies #[trigger] src[pos + k]
        == literal_encoding(data)[k] by {
        assert(src.skip(pos)[k] == src[pos + k]);
    }
    let enc = literal_encoding(data);
    assert(enc.len() == src.len() - pos);
    if data.len() == 3 {

        assert forall|k: int| 0 <= k < 3 implies #[trigger] enc[1 + k] == data[k] by {
            assert((seq![23u8] + data + seq![0u8, 0u8])[1 + k] == data[k]);
        }
        assert(enc[4] == 0u8 && enc[5] == 0u8);
        assert(enc[0] == 23u8);
        assert(src[pos + 0] == enc[0]);
        let t0 = PrsState { pos, flags, bit_pos: 0, out };
        let c3o1 = out.push(src[pos + 1]);
        let c3s1 = PrsState { pos: pos + 1, flags: 11u8, bit_pos: 7, out };
        assert(flag_step(src, t0) == Some((1u8, c3s1)));
        let c3s2 = PrsState { pos: pos + 2, flags: 11u8, bit_pos: 7, out: c3o1 };
        assert(lit_step(src, c3s1) == Some(c3s2));
        lemma_decode_literal_step(src, t0, c3s1, c3s2);
        let c3o2 = c3o1.push(src[pos + 2]);
        let c3s3 = PrsState { pos: pos + 2, flags: 5u8, bit_pos: 6, out: c3o1 };
        assert(flag_step(src, c3s2) == Some((1u8, c3s3)));
        let c3s4 = PrsState { pos: pos + 3, flags: 5u8, bit_pos: 6, out: c3o2 };
        assert(lit_step(src, c3s3) == Some(c3s4));
        lemma_decode_literal_step(src, c3s2, c3s3, c3s4);
        let c3o3 = c3o2.push(src[pos + 3]);
        let c3s5 = PrsState { pos: pos + 3, flags: 2u8, bit_pos: 5, out: c3o2 };
        assert(flag_step(src, c3s4) == Some((1u8, c3s5)));
        let c3s6 = PrsState { pos: pos + 4, flags: 2u8, bit_pos: 5, out: c3o3 };
        assert(lit_step(src, c3s5) == Some(c3s6));
        lemma_decode_literal_step(src, c3s4, c3s5, c3s6);
        let c3e1 = PrsState { pos: pos + 4, flags: 1u8, bit_pos: 4, out: c3o3 };
        assert(flag_step(src, c3s6) == Some((0u8, c3e1)));
        let c3e2 = PrsState { pos: pos + 4, flags: 0u8, bit_pos: 3, out: c3o3 };
        assert(flag_step(src, c3e1) == Some((1u8, c3e2)));
        assert(src[pos + 4] == 0u8 && src[pos + 5] == 0u8);
        let c3e3 = PrsState { pos: pos + 6, flags: 0u8, bit_pos: 3, out: c3o3 };
        assert(short_step(src, c3e2) == Some((0int, c3e3)));
        lemma_decode_end_step(src, c3s6, c3e1, c3e2, c3e3);
        assert(c3o3 =~= out + data);
    } else if data.len() == 2 {
        assert forall|k: int| 0 <= k < 2 implies #[trigger] enc[1 + k] == data[k] by {
            assert((seq![11u8] + data + seq![0u8, 0u8])[1 + k] == data[k]);
        }
        assert(enc[3] == 0u8 && enc[4] == 0u8);
        assert(enc[0] == 11u8);
        assert(src[pos + 0] == enc[0]);
        let t0 = PrsState { pos, flags, bit_pos: 0, out };
        let c2o1 = out.push(src[pos + 1]);
        let c2s1 = PrsState { pos: pos + 1, flags: 5u8, bit_pos: 7, out };
        assert(flag_step(src, t0) == Some((1u8, c2s1)));
        let c2s2 = PrsState { pos: pos + 2, flags: 5u8, bit_pos: 7, out: c2o1 };
        assert(lit_step(src, c2s1) == Some(c2s2));
        lemma_decode_literal_step(src, t0, c2s1, c2s2);
        let c2o2 = c2o1.push(src[pos + 2]);
        let c2s3 = PrsState { pos: pos + 2, flags: 2u8, bit_pos: 6, out: c2o1 };
        assert(flag_step(src, c2s2) == Some((1u8, c2s3)));
        let c2s4 = PrsState { pos: pos + 3, flags: 2u8, bit_pos: 6, out: c2o2 };
        assert(lit_step(src, c2s3) == Some(c2s4));
        lemma_decode_literal_step(src, c2s2, c2s3, c2s4);
        let c2e1 = PrsState { pos: pos + 3, flags: 1u8, bit_pos: 5, out: c2o2 };
        assert(flag_step(src, c2s4) == Some((0u8, c2e1)));
        let c2e2 = PrsState { pos: pos + 3, flags: 0u8, bit_pos: 4, out: c2o2 };
        assert(flag_step(src, c2e1) == Some((1u8, c2e2)));
        assert(src[pos + 3] == 0u8 && src[pos + 4] == 0u8);
        let c2e3 = PrsState { pos: pos + 5, flags: 0u8, bit_pos: 4, out: c2o2 };
        assert(short_step(src, c2e2) == Some((0int, c2e3)));
        lemma_decode_end_step(src, c2s4, c2e1, c2e2, c2e3);
        assert(c2o2 =~= out + data);
    } else if data.len() == 1 {
        assert forall|k: int| 0 <= k < 1 implies #[trigger] enc[1 + k] == data[k] by {
            assert((seq![5u8] + data + seq![0u8, 0u8])[1 + k] == data[k]);
        }
        assert(enc[2] == 0u8 && enc[3] == 0u8);
        assert(enc[0] == 5u8);
        assert(src[pos + 0] == enc[0]);
        let t0 = PrsState { pos, flags, bit_pos: 0, out };
        let c1o1 = out.push(src[pos + 1]);
        let c1s1 = PrsState { pos: pos + 1, flags: 2u8, bit_pos: 7, out };
        assert(flag_step(src, t0) == Some((1u8, c1s1)));
        let c1s2 = PrsState { pos: pos + 2, flags: 2u8, bit_pos: 7, out: c1o1 };
        assert(lit_step(src, c1s1) == Some(c1s2));
        lemma_decode_literal_step(src, t0, c1s1, c1s2);
        let c1e1 = PrsState { pos: pos + 2, flags: 1u8, bit_pos: 6, out: c1o1 };
        assert(flag_step(src, c1s2) == Some((0u8, c1e1)));
        let c1e2 = PrsState { pos: pos + 2, flags: 0u8, bit_pos: 5, out: c1o1 };
        assert(flag_step(src, c1e1) == Some((1u8, c1e2)));
        assert(src[pos + 2] == 0u8 && src[pos + 3] == 0u8);
        let c1e3 = PrsState { pos: pos + 4, flags: 0u8, bit_pos: 5, out: c1o1 };
        assert(short_step(src, c1e2) == Some((0int, c1e3)));
        lemma_decode_end_step(src, c1s2, c1e1, c1e2, c1e3);
        assert(c1o1 =~= out + data);
    } else if data.len() == 0 {
        assert forall|k: int| 0 <= k < 0 implies #[trigger] enc[1 + k] == data[k] by {
            assert((seq![2u8] + data + seq![0u8, 0u8])[1 + k] == data[k]);
        }
        assert(enc[1] == 0u8 && enc[2] == 0u8);
        assert(enc[0] == 2u8);
        assert(src[pos + 0] == enc[0]);
        let t0 = PrsState { pos, flags, bit_pos: 0, out };
        let c0a = PrsState { pos: pos + 1, flags: 1u8, bit_pos: 7, out };
        assert(flag_step(src, t0) == Some((0u8, c0a)));
        let c0b = PrsState { pos: pos + 1, flags: 0u8, bit_pos: 6, out };
        assert(flag_step(src, c0a) == Some((1u8, c0b)));
        assert(src[pos + 1] == 0u8 && src[pos + 2] == 0u8);
        let c0c = PrsState { pos: pos + 3, flags: 0u8, bit_pos: 6, out };
        assert(short_step(src, c0b) == Some((0int, c0c)));
        lemma_decode_end_step(src, t0, c0a, c0b, c0c);
        assert(out + data =~= out);
    } else {
        assert(false);
    }
}

/// Decoding a literal encoding from any state whose flag register is spent
/// appends exactly the encoded bytes to the output.
proof fn lemma_literal_decode(src: Seq<u8>, pos: int, flags: u8, out: Seq<u8>, data: Seq<u8>)
    requires
        0 <= pos <= src.len(),
        src.skip(pos) == literal_encoding(data),
    ensures
        decode_from(src, PrsState { pos, flags, bit_pos: 0, out }) == Some(out + data),
    decreases data.len(),
{
    if data.len() >= 8 {
        lemma_literal_chunk(src, pos, flags, out, data);
        lemma_literal_decode(src, pos + 9, 0u8, out + data.take(8), data.skip(8));
        assert(out + data.take(8) + data.skip(8) =~= out + data);
    } else if data.len() >= 4 {
        lemma_literal_tail_long(src, pos, flags, out, data);
    } else {
        lemma_literal_tail_short(src, pos, flags, out, data);
    }
}

/// Law: the decoder inverts a conforming compressor — decoding the
/// all-literal encoding of any byte sequence, empty input included, yields
/// that sequence exactly.
pub proof fn lemma_literal_round_trip(data: Seq<u8>)
    ensures
        spec_decompress(literal_encoding(data)) == Some(data),
{
    let src = literal_encoding(data);
    assert(src.skip(0) =~= src);
    lemma_literal_decode(src, 0, 0u8, Seq::empty(), data);
    assert(Seq::empty() + data =~= data);
}

/// Transient state of one decompression run over in-memory buffers.
struct Context {
    pos: usize,
    flags: u8,
    bit_pos: u8,
    dst: Vec<u8>,
}

impl Context {
    spec fn st(&self) -> PrsState {
        PrsState { pos: self.pos as int, flags: self.flags, bit_pos: self.bit_pos, out: self.dst@ }
    }

    fn read_flag_bit(&mut self, src: &Vec<u8>) -> (r: Result<u8, ReadError>)
        requires
            old(self).pos <= src@.len(),
        ensures
            final(self).pos <= src@.len(),
            match r {
                Ok(b) => flag_step(src@, old(self).st()) == Some((b, final(self).st())),
                Err(e) => flag_step(src@, old(self).st()) is None && e == ReadError::Io,
            },
    {
        if self.bit_pos == 0 {
            // Fetch a new flag byte once the previous one is used up.
            if self.pos < src.len() {
                let b = src[self.pos];
                self.pos = self.pos + 1;
                self.flags = b / 2;
                self.bit_pos = 7;
                Ok(b % 2)
            } else {
                Err(ReadError::Io)
            }
        } else {
            let rv = self.flags % 2;
            self.flags = self.flags / 2;
            self.bit_pos = self.bit_pos - 1;
            Ok(rv)
        }
    }

    fn copy_byte(&mut self, src: &Vec<u8>) -> (r: Result<(), ReadError>)
        requires
            old(self).pos <= src@.len(),
        ensures
            final(self).pos <= src@.len(),
            match r {
                Ok(_) => lit_step(src@, old(self).st()) == Some(final(self).st()),
                Err(e) => lit_step(src@, old(self).st()) is None && e == ReadError::Io,
            },
    {
        if self.pos < src.len() {
            let b = src[self.pos];
            self.pos = self.pos + 1;
            self.dst.push(b);
            Ok(())
        } else {
            Err(ReadError::Io)
        }
    }

    fn read_byte(&mut self, src: &Vec<u8>) -> (r: Result<u8, ReadError>)
        requires
            old(self).pos <= src@.len(),
        ensures
            final(self).pos <= src@.len(),
            match r {
                Ok(b) => byte_step(src@, old(self).st()) == Some((b, final(self).st())),
                Err(e) => byte_step(src@, old(self).st()) is None && e == ReadError::Io,
            },
    {
        if self.pos < src.len() {
            let b = src[self.pos];
            self.pos = self.pos + 1;
            Ok(b)
        } else {
            Err(ReadError::Io)
        }
    }

    fn read_short(&mut self, src: &Vec<u8>) -> (r: Result<u16, ReadError>)
        requires
            old(self).pos <= src@.len(),
        ensures
            final(self).pos <= src@.len(),
            match r {
                Ok(v) => short_step(src@, old(self).st()) == Some((v as int, final(self).st())),
                Err(e) => short_step(src@, old(self).st()) is None && e == ReadError::Io,
            },
    {
        // In little endian format.
        if self.pos < src.len() {
            let lo = src[self.pos];
            self.pos = self.pos + 1;
            if self.pos < src.len() {
                let hi = src[self.pos];
                self.pos = self.pos + 1;
                Ok((hi as u16) * 256 + (lo as u16))
            } else {
                Err(ReadError::Io)
            }
        } else {
            Err(ReadError::Io)
        }
    }

    fn offset_copy(&mut self, offset: i16, size: u16) -> (r: Result<(), ReadError>)
        requires
            -8192 <= offset < 0,
            1 <= size <= 256,
        ensures
            final(self).pos == old(self).pos,
            final(self).flags == old(self).flags,
            final(self).bit_pos == old(self).bit_pos,
            match r {
                Ok(_) => old(self).dst@.len() + offset >= 0 && final(self).dst@ == back_copy(
                    old(self).dst@,
                    offset as int,
                    size as int,
                ),
                Err(e) => e == ReadError::Io && old(self).dst@.len() + offset < 0
                    && final(self).dst@ == old(self).dst@,
            },
    {
        let w: usize = (-(offset as i32)) as usize;
        if self.dst.len() < w {
            return Err(ReadError::Io);
        }
        let ghost out0 = self.dst@;
        let size: usize = size as usize;
        let mut k: usize = 0;
        while k < size
            invariant
                self.pos == old(self).pos,
                self.flags == old(self).flags,
                self.bit_pos == old(self).bit_pos,
                w == -(offset as int),
                1 <= w <= 8192,
                out0.len() >= w,
                k <= size,
                self.dst@ =~= out0 + Seq::new(
                    k as nat,
                    |j: int| back_ref_byte(out0, offset as int, j),
                ),
            decreases size - k,
        {
            let i = self.dst.len() - w;
            let b = self.dst[i];
            proof {
                if k < w {
                    assert(b == out0[out0.len() + offset + k]);
                } else {
                    assert(b == back_ref_byte(out0, offset as int, k - w));
                    assert(back_ref_byte(out0, offset as int, k as int) == back_ref_byte(
                        out0,
                        offset as int,
                        k + offset,
                    ));
                }
            }
            self.dst.push(b);
            k = k + 1;
            proof {
                assert(self.dst@ =~= out0 + Seq::new(
                    k as nat,
                    |j: int| back_ref_byte(out0, offset as int, j),
                ));
            }
        }
        proof {
            assert(self.dst@ == back_copy(out0, offset as int, size as int));
        }
        Ok(())
    }
}

/// Expand one compressed stream into its raw bytes.  Succeeds exactly when
/// the stream has a meaning under the format — a well-formed unit sequence
/// reaching an end marker — and then returns precisely that meaning; a
/// truncated stream or a back-reference reaching before the start of the
/// output is reported as `ReadError::Io`.
#[verifier::rlimit(30)]
pub fn decompress(src: &Vec<u8>) -> (r: Result<Vec<u8>, ReadError>)
    ensures
        match r {
            Ok(out) => spec_decompress(src@) == Some(out@),
            Err(e) => spec_decompress(src@) is None && e == ReadError::Io,
        },
{
    let mut cxt = Context { pos: 0, flags: 0, bit_pos: 0, dst: Vec::new() };
    proof {
        assert(cxt.st() == init_state());
    }
    loop
        invariant
            cxt.pos <= src@.len(),
            decode_from(src@, cxt.st()) == spec_decompress(src@),
        decreases src@.len() - cxt.pos,
    {
        let ghost s0 = cxt.st();
        let b = match cxt.read_flag_bit(src) {
            Ok(b) => b,
            Err(e) => {
                return Err(e);
            },
        };
        if b == 1 {
            // Single byte copy.
            match cxt.copy_byte(src) {
                Ok(_) => {},
                Err(e) => {
                    return Err(e);
                },
            }
        } else {
            // Multi byte copy.
            let b2 = match cxt.read_flag_bit(src) {
                Ok(b2) => b2,
                Err(e) => {
                    return Err(e);
                },
            };
            if b2 == 0 {
                // Short copy.
                let h = match cxt.read_flag_bit(src) {
                    Ok(h) => h,
                    Err(e) => {
                        return Err(e);
                    },
                };
                let l = match cxt.read_flag_bit(src) {
                    Ok(l) => l,
                    Err(e) => {
                        return Err(e);
                    },
                };
                let size: u16 = (h as u16) * 2 + (l as u16) + 2;
                let d = match cxt.read_byte(src) {
                    Ok(d) => d,
                    Err(e) => {
                        return Err(e);
                    },
                };
                let offset: i16 = (d as i16) - 256;
                match cxt.offset_copy(offset, size) {
                    Ok(_) => {},
                    Err(e) => {
                        return Err(e);
                    },
                }
            } else {
                // Long copy or end of stream.
                let v = match cxt.read_short(src) {
                    Ok(v) => v,
                    Err(e) => {
                        return Err(e);
                    },
                };
                // Two zero bytes end the stream.
                if v == 0 {
                    return Ok(cxt.dst);
                }
                let sel: u16 = v % 8;
                let offset: i16 = (v / 8) as i16 - 8192;
                let size: u16 = if sel == 0 {
                    let sz = match cxt.read_byte(src) {
                        Ok(sz) => sz,
                        Err(e) => {
                            return Err(e);
                        },
                    };
                    (sz as u16) + 1
                } else {
                    sel + 2
                };
                match cxt.offset_copy(offset, size) {
                    Ok(_) => {},
                    Err(e) => {
                        return Err(e);
                    },
                }
            }
        }
    }
}

} // verus!

