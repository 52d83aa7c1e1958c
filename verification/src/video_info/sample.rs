//! Raw audio samples.

use vstd::endian::{endianness, Endian};
use vstd::prelude::*;
use vstd::slice::slice_subrange;

use crate::binary64::Binary64;

verus! {

/// How the channels of a recording lie in memory.
#[derive(Debug, Clone, Copy, PartialEq, Eq, Structural)]
pub enum SampleType {
    /// The channels alternate.
    Packed,
    /// Each channel has a plane of its own.
    Planar,
}

/// How samples are encoded.
#[derive(Debug, Clone, Copy, PartialEq, Eq, Structural)]
pub enum SampleFormat {
    /// Not at all.
    Unknown,
    U8(SampleType),
    I16(SampleType),
    I32(SampleType),
    I64(SampleType),
    F32(SampleType),
    F64(SampleType),
}

/// A sample. Numbers with a fraction are held as their bit patterns.
#[derive(Debug, Clone, Copy, PartialEq, Eq, Structural)]
pub enum SampleValue {
    Unsigned8(u8),
    Signed16(i16),
    Signed32(i32),
    Signed64(i64),
    Single(u32),
    Double(u64),
}

/// Why samples could not be decoded.
#[derive(Debug, Clone, Copy, PartialEq, Eq, Structural)]
pub enum SampleError {
    /// They are not encoded.
    NoFormat,
}

/// Whether each channel has a plane of its own.
pub fn ty_is_planar(ty: &SampleType) -> (r: bool)
    ensures
        r == (*ty == SampleType::Planar),
{
    match ty {
        SampleType::Planar => true,
        SampleType::Packed => false,
    }
}

/// The number that bytes stand for, least significant byte first.
pub open spec fn little_endian(bytes: Seq<u8>) -> int
    decreases bytes.len(),
{
    if bytes.len() == 0 {
        0
    } else {
        bytes[0] + 256 * little_endian(bytes.skip(1))
    }
}

/// The number that bytes stand for, most significant byte first.
pub open spec fn big_endian(bytes: Seq<u8>) -> int
    decreases bytes.len(),
{
    if bytes.len() == 0 {
        0
    } else {
        256 * big_endian(bytes.drop_last()) + bytes.last()
    }
}

/// The number that bytes stand for in the memory of this machine.
pub open spec fn native_endian(bytes: Seq<u8>) -> int {
    match endianness() {
        Endian::Little => little_endian(bytes),
        Endian::Big => big_endian(bytes),
    }
}

/// `bytemuck::pod_read_unaligned` at `u16`: the bytes as they would lie in memory, read as one
/// number.
#[verifier::external_body]
fn read_u16(bytes: &[u8]) -> (r: u16)
    requires
        bytes@.len() == 2,
    ensures
        r == native_endian(bytes@),
{
    bytemuck::pod_read_unaligned::<u16>(bytes)
}

/// `bytemuck::pod_read_unaligned` at `u32`: the bytes as they would lie in memory, read as one
/// number.
#[verifier::external_body]
fn read_u32(bytes: &[u8]) -> (r: u32)
    requires
        bytes@.len() == 4,
    ensures
        r == native_endian(bytes@),
{
    bytemuck::pod_read_unaligned::<u32>(bytes)
}

/// `bytemuck::pod_read_unaligned` at `u64`: the bytes as they would lie in memory, read as one
/// number.
#[verifier::external_body]
fn read_u64(bytes: &[u8]) -> (r: u64)
    requires
        bytes@.len() == 8,
    ensures
        r == native_endian(bytes@),
{
    bytemuck::pod_read_unaligned::<u64>(bytes)
}

/// How many bytes a sample has.
pub open spec fn sample_size(format: SampleFormat) -> int {
    match format {
        SampleFormat::Unknown => 0,
        SampleFormat::U8(_) => 1,
        SampleFormat::I16(_) => 2,
        SampleFormat::I32(_) => 4,
        SampleFormat::I64(_) => 8,
        SampleFormat::F32(_) => 4,
        SampleFormat::F64(_) => 8,
    }
}

/// A number below `2 * half` in two's complement: the upper half are the negative numbers.
pub open spec fn twos_complement(n: int, half: int) -> int {
    if n < half {
        n
    } else {
        n - 2 * half
    }
}

/// The sample that the given bytes, as many as a sample has, stand for.
pub open spec fn sample_of(bytes: Seq<u8>, format: SampleFormat) -> SampleValue {
    let n = native_endian(bytes);
    match format {
        SampleFormat::I16(_) => SampleValue::Signed16(twos_complement(n, 0x8000) as i16),
        SampleFormat::I32(_) => SampleValue::Signed32(twos_complement(n, 0x8000_0000) as i32),
        SampleFormat::I64(_) => SampleValue::Signed64(
            twos_complement(n, 0x8000_0000_0000_0000) as i64,
        ),
        SampleFormat::F32(_) => SampleValue::Single(n as u32),
        SampleFormat::F64(_) => SampleValue::Double(n as u64),
        _ => SampleValue::Unsigned8(bytes[0]),
    }
}

/// The samples that the given bytes stand for, one after the other. Bytes at the end that are
/// too few for a sample are ignored.
pub open spec fn samples_of(bytes: Seq<u8>, format: SampleFormat) -> Seq<SampleValue>
    decreases bytes.len(),
{
    let size = sample_size(format);
    if size == 0 || bytes.len() < size {
        seq![]
    } else {
        seq![sample_of(bytes.take(size), format)] + samples_of(bytes.skip(size), format)
    }
}

/// There are as many samples as fit into the bytes.
pub proof fn number_of_samples(bytes: Seq<u8>, format: SampleFormat)
    requires
        format != SampleFormat::Unknown,
    ensures
        samples_of(bytes, format).len() == bytes.len() as int / sample_size(format),
    decreases bytes.len(),
{
    let size = sample_size(format);
    let n = bytes.len() as int;
    if n >= size {
        number_of_samples(bytes.skip(size), format);
        vstd::arithmetic::div_mod::lemma_div_minus_one(n, size);
    } else {
        vstd::arithmetic::div_mod::lemma_basic_div(n, size);
    }
}

/// The sample that the given bytes stand for.
fn decode_sample(chunk: &[u8], format: SampleFormat) -> (r: SampleValue)
    requires
        format != SampleFormat::Unknown,
        chunk@.len() == sample_size(format),
    ensures
        r == sample_of(chunk@, format),
{
    match format {
        SampleFormat::I16(_) => {
            let n: u16 = read_u16(chunk);
            SampleValue::Signed16(
                if n < 0x8000 {
                    n as i16
                } else {
                    (n as i32 - 0x1_0000) as i16
                },
            )
        },
        SampleFormat::I32(_) => {
            let n: u32 = read_u32(chunk);
            SampleValue::Signed32(
                if n < 0x8000_0000 {
                    n as i32
                } else {
                    (n as i64 - 0x1_0000_0000) as i32
                },
            )
        },
        SampleFormat::I64(_) => {
            let n: u64 = read_u64(chunk);
            SampleValue::Signed64(
                if n < 0x8000_0000_0000_0000 {
                    n as i64
                } else {
                    (n as i128 - 0x1_0000_0000_0000_0000) as i64
                },
            )
        },
        SampleFormat::F32(_) => SampleValue::Single(read_u32(chunk)),
        SampleFormat::F64(_) => SampleValue::Double(read_u64(chunk)),
        _ => SampleValue::Unsigned8(chunk[0]),
    }
}

/// Decodes samples. Bytes at the end that are too few for a sample are ignored.
pub fn decode_samples(samples: &[u8], format: SampleFormat) -> (r: Result<
    Vec<SampleValue>,
    SampleError,
>)
    ensures
        match r {
            Ok(values) => format != SampleFormat::Unknown && values@ == samples_of(samples@, format),
            Err(e) => format == SampleFormat::Unknown && e == SampleError::NoFormat,
        },
{
    let size: usize = match format {
        SampleFormat::Unknown => {
            return Err(SampleError::NoFormat);
        },
        SampleFormat::U8(_) => 1,
        SampleFormat::I16(_) => 2,
        SampleFormat::I32(_) => 4,
        SampleFormat::I64(_) => 8,
        SampleFormat::F32(_) => 4,
        SampleFormat::F64(_) => 8,
    };
    let mut out: Vec<SampleValue> = Vec::new();
    let mut at: usize = 0;
    assert(samples@.skip(0) =~= samples@);
    assert(out@ + samples_of(samples@, format) =~= samples_of(samples@, format));
    while samples.len() - at >= size
        invariant
            format != SampleFormat::Unknown,
            size == sample_size(format),
            at <= samples@.len(),
            samples_of(samples@, format) == out@ + samples_of(samples@.skip(at as int), format),
        decreases samples@.len() - at,
    {
        let chunk = slice_subrange(samples, at, at + size);
        let ghost rest = samples@.skip(at as int);
        let ghost before = out@;
        assert(chunk@ =~= rest.take(size as int));
        let value = decode_sample(chunk, format);
        out.push(value);
        at = at + size;
        proof {
            assert(rest.skip(size as int) =~= samples@.skip(at as int));
            assert(before + (seq![value] + samples_of(samples@.skip(at as int), format)) =~= out@
                + samples_of(samples@.skip(at as int), format));
        }
    }
    assert(samples_of(samples@.skip(at as int), format) =~= seq![]);
    assert(out@ + Seq::<SampleValue>::empty() =~= out@);
    Ok(out)
}

/// The samples of all planes, one plane after the other. Only the first `count` bytes of a plane
/// are looked at, and planes that have fewer are left out.
pub open spec fn plane_samples(
    planes: Seq<Vec<u8>>,
    count: int,
    format: SampleFormat,
) -> Seq<SampleValue>
    decreases planes.len(),
{
    if planes.len() == 0 {
        seq![]
    } else {
        let before = plane_samples(planes.drop_last(), count, format);
        if planes.last()@.len() >= count {
            before + samples_of(planes.last()@.take(count), format)
        } else {
            before
        }
    }
}

/// Decodes the samples of all planes, one plane after the other. Only the first `count` bytes of
/// a plane are looked at, and planes that have fewer, or that cannot be decoded, are left out.
pub fn decode_planes(planes: &Vec<Vec<u8>>, count: usize, format: SampleFormat) -> (r: Vec<
    SampleValue,
>)
    ensures
        r@ == plane_samples(planes@, count as int, format),
{
    let mut out: Vec<SampleValue> = Vec::new();
    assert(planes@.take(0) =~= Seq::<Vec<u8>>::empty());
    for i in 0..planes.len()
        invariant
            out@ == plane_samples(planes@.take(i as int), count as int, format),
    {
        assert(planes@.take(i + 1).drop_last() =~= planes@.take(i as int));
        assert(planes@.take(i + 1).last() == planes@[i as int]);
        if planes[i].len() >= count {
            let plane = slice_subrange(planes[i].as_slice(), 0, count);
            assert(plane@ =~= planes@[i as int]@.take(count as int));
            match decode_samples(plane, format) {
                Ok(values) => {
                    let mut values = values;
                    out.append(&mut values);
                },
                Err(_) => {
                    assert(samples_of(plane@, format) =~= seq![]);
                    assert(out@ + Seq::<SampleValue>::empty() =~= out@);
                },
            }
        }
    }
    assert(planes@.take(planes@.len() as int) =~= planes@);
    out
}

/// The greatest of the given numbers, the last one if several are. What is not a number counts
/// as greater than all numbers.
pub open spec fn greatest(samples: Seq<Binary64>) -> Binary64
    decreases samples.len(),
{
    if samples.len() <= 1 {
        samples[0]
    } else {
        let before = greatest(samples.drop_last());
        if before.nan() && !samples.last().nan() || samples.last().less(before) {
            before
        } else {
            samples.last()
        }
    }
}

/// The peak of a row of samples: the greatest of them, or zero if there is none or it is not a
/// number.
pub open spec fn peak(samples: Seq<Binary64>) -> Binary64 {
    if samples.len() == 0 || greatest(samples).nan() {
        Binary64 { bits: 0 }
    } else {
        greatest(samples)
    }
}

/// The peak of a row of samples: the greatest of them, or zero if there is none or it is not a
/// number.
pub fn peak_volume(samples: &Vec<Binary64>) -> (r: Binary64)
    ensures
        r == peak(samples@),
{
    if samples.len() == 0 {
        return Binary64::zero();
    }
    let mut best = samples[0];
    assert(samples@.take(1)[0] == best);
    for i in 1..samples.len()
        invariant
            samples@.len() > 0,
            1 <= i <= samples@.len(),
            best == greatest(samples@.take(i as int)),
    {
        assert(samples@.take(i + 1).drop_last() =~= samples@.take(i as int));
        let next = samples[i];
        if !(best.is_nan() && !next.is_nan() || next.less_than(&best)) {
            best = next;
        }
    }
    assert(samples@.take(samples@.len() as int) =~= samples@);
    if best.is_nan() {
        Binary64::zero()
    } else {
        best
    }
}

proof fn lemma_greatest(samples: Seq<Binary64>)
    requires
        samples.len() > 0,
    ensures
        samples.contains(greatest(samples)),
        greatest(samples).nan() <==> exists|i: int|
            0 <= i < samples.len() && (#[trigger] samples[i]).nan(),
        forall|i: int|
            0 <= i < samples.len() ==> !greatest(samples).less(#[trigger] samples[i]),
    decreases samples.len(),
{
    if samples.len() > 1 {
        let rest = samples.drop_last();
        lemma_greatest(rest);
        let k = choose|k: int| 0 <= k < rest.len() && rest[k] == greatest(rest);
        assert(samples[k] == rest[k]);
        assert(samples[samples.len() - 1] == samples.last());
        assert forall|i: int| 0 <= i < samples.len() implies !greatest(samples).less(
            #[trigger] samples[i],
        ) by {
            if i < rest.len() {
                assert(rest[i] == samples[i]);
            }
        }
        if exists|i: int| 0 <= i < samples.len() && (#[trigger] samples[i]).nan() {
            let i = choose|i: int| 0 <= i < samples.len() && (#[trigger] samples[i]).nan();
            if i < rest.len() {
                assert(rest[i].nan());
            }
        }
        if greatest(rest).nan() {
            assert(samples[k].nan());
        }
    } else {
        assert(samples[0] == greatest(samples));
    }
}

/// The peak is one of the samples and no sample is above it, unless one of them is not a number:
/// then it is zero.
pub proof fn peak_is_the_loudest(samples: Seq<Binary64>)
    requires
        samples.len() > 0,
    ensures
        !peak(samples).nan(),
        (exists|i: int| 0 <= i < samples.len() && (#[trigger] samples[i]).nan()) ==> peak(
            samples,
        ).rank() == 0,
        !(exists|i: int| 0 <= i < samples.len() && (#[trigger] samples[i]).nan())
            ==> samples.contains(peak(samples)) && forall|i: int|
            0 <= i < samples.len() ==> !peak(samples).less(#[trigger] samples[i]),
{
    lemma_greatest(samples);
}

/// The number that two bytes stand for in the memory of this machine.
pub open spec fn two_bytes(b: Seq<u8>) -> int {
    match endianness() {
        Endian::Little => b[0] + 0x100 * b[1],
        Endian::Big => b[1] + 0x100 * b[0],
    }
}

/// The number that four bytes stand for in the memory of this machine.
pub open spec fn four_bytes(b: Seq<u8>) -> int {
    match endianness() {
        Endian::Little => b[0] + 0x100 * b[1] + 0x1_0000 * b[2] + 0x100_0000 * b[3],
        Endian::Big => b[3] + 0x100 * b[2] + 0x1_0000 * b[1] + 0x100_0000 * b[0],
    }
}

/// The number that eight bytes stand for in the memory of this machine.
pub open spec fn eight_bytes(b: Seq<u8>) -> int {
    match endianness() {
        Endian::Little => four_bytes(b.take(4)) + 0x1_0000_0000 * four_bytes(b.skip(4)),
        Endian::Big => four_bytes(b.skip(4)) + 0x1_0000_0000 * four_bytes(b.take(4)),
    }
}

proof fn lemma_native(b: Seq<u8>)
    ensures
        b.len() == 2 ==> native_endian(b) == two_bytes(b),
        b.len() == 4 ==> native_endian(b) == four_bytes(b),
        b.len() == 8 ==> native_endian(b) == eight_bytes(b),
{
    reveal_with_fuel(little_endian, 9);
    reveal_with_fuel(big_endian, 9);
}

/// What the bytes of a sample stand for, however its channels lie in memory. A sample of one byte is
/// that byte. One of two, four or eight bytes is a signed number that differs from what the bytes
/// stand for by nothing or by the number of their patterns, or a number with a fraction whose
/// pattern is what they stand for.
pub proof fn what_a_sample_stands_for(b: Seq<u8>, ty: SampleType)
    ensures
        b.len() == 1 ==> sample_of(b, SampleFormat::U8(ty)) == SampleValue::Unsigned8(b[0]),
        b.len() == 2 ==> (sample_of(b, SampleFormat::I16(ty)) matches SampleValue::Signed16(v) && (v
            == two_bytes(b) || v == two_bytes(b) - 0x1_0000)),
        b.len() == 4 ==> (sample_of(b, SampleFormat::I32(ty)) matches SampleValue::Signed32(v) && (v
            == four_bytes(b) || v == four_bytes(b) - 0x1_0000_0000)),
        b.len() == 8 ==> (sample_of(b, SampleFormat::I64(ty)) matches SampleValue::Signed64(v) && (v
            == eight_bytes(b) || v == eight_bytes(b) - 0x1_0000_0000_0000_0000)),
        b.len() == 4 ==> (sample_of(b, SampleFormat::F32(ty)) matches SampleValue::Single(p) && p
            == four_bytes(b)),
        b.len() == 8 ==> (sample_of(b, SampleFormat::F64(ty)) matches SampleValue::Double(p) && p
            == eight_bytes(b)),
{
    lemma_native(b);
}

/// How the channels lie in memory has no influence on what a sample stands for.
pub proof fn the_layout_of_channels_does_not_matter(b: Seq<u8>, one: SampleType, other: SampleType)
    ensures
        samples_of(b, SampleFormat::U8(one)) == samples_of(b, SampleFormat::U8(other)),
        samples_of(b, SampleFormat::I16(one)) == samples_of(b, SampleFormat::I16(other)),
        samples_of(b, SampleFormat::I32(one)) == samples_of(b, SampleFormat::I32(other)),
        samples_of(b, SampleFormat::I64(one)) == samples_of(b, SampleFormat::I64(other)),
        samples_of(b, SampleFormat::F32(one)) == samples_of(b, SampleFormat::F32(other)),
        samples_of(b, SampleFormat::F64(one)) == samples_of(b, SampleFormat::F64(other)),
    decreases b.len(),
{
    if b.len() >= 1 {
        the_layout_of_channels_does_not_matter(b.skip(1), one, other);
    }
    if b.len() >= 2 {
        the_layout_of_channels_does_not_matter(b.skip(2), one, other);
    }
    if b.len() >= 4 {
        the_layout_of_channels_does_not_matter(b.skip(4), one, other);
    }
    if b.len() >= 8 {
        the_layout_of_channels_does_not_matter(b.skip(8), one, other);
    }
}

/// Each sample comes from bytes of its own: with `width` bytes to a sample, the one at `i` from the
/// bytes from `i * width` on, and there are as many as there are full groups of so many bytes.
pub proof fn samples_lie_side_by_side(b: Seq<u8>, format: SampleFormat, width: int)
    requires
        format is U8 ==> width == 1,
        format is I16 ==> width == 2,
        format is I32 || format is F32 ==> width == 4,
        format is I64 || format is F64 ==> width == 8,
        !(format is Unknown),
    ensures
        samples_of(b, format).len() == b.len() as int / width,
        forall|i: int|
            0 <= i < samples_of(b, format).len() ==> 0 <= i * width && i * width + width <= b.len()
                && #[trigger] samples_of(b, format)[i] == sample_of(
                b.subrange(i * width, i * width + width),
                format,
            ),
    decreases b.len(),
{
    number_of_samples(b, format);
    assert(width > 0);
    if b.len() >= width {
        let rest = b.skip(width);
        samples_lie_side_by_side(rest, format, width);
        assert forall|i: int| 0 <= i < samples_of(b, format).len() implies 0 <= i * width && i
            * width + width <= b.len() && #[trigger] samples_of(b, format)[i] == sample_of(
            b.subrange(i * width, i * width + width),
            format,
        ) by {
            if i == 0 {
                assert(b.subrange(0, width) =~= b.take(width));
            } else {
                assert((i - 1) * width + width == i * width) by (nonlinear_arith);
                assert(samples_of(b, format)[i] == samples_of(rest, format)[i - 1]);
                assert(rest.subrange((i - 1) * width, (i - 1) * width + width) =~= b.subrange(
                    i * width,
                    i * width + width,
                ));
            }
        }
    }
}

/// The samples of planes come one plane after the other. Those of one plane are those of its first
/// `count` bytes, and there are none if it has fewer.
pub proof fn planes_come_one_after_the_other(
    a: Seq<Vec<u8>>,
    b: Seq<Vec<u8>>,
    plane: Vec<u8>,
    count: int,
    format: SampleFormat,
)
    requires
        0 <= count,
    ensures
        plane_samples(a + b, count, format) == plane_samples(a, count, format) + plane_samples(
            b,
            count,
            format,
        ),
        plane_samples(seq![plane], count, format) == if plane@.len() >= count {
            samples_of(plane@.subrange(0, count), format)
        } else {
            seq![]
        },
    decreases b.len(),
{
    if b.len() == 0 {
        assert(a + b =~= a);
        assert(plane_samples(a, count, format) + Seq::<SampleValue>::empty() =~= plane_samples(
            a,
            count,
            format,
        ));
    } else {
        planes_come_one_after_the_other(a, b.drop_last(), plane, count, format);
        assert((a + b).drop_last() =~= a + b.drop_last());
        assert((a + b).last() == b.last());
        let front = plane_samples(a, count, format);
        let middle = plane_samples(b.drop_last(), count, format);
        let last = samples_of(b.last()@.take(count), format);
        assert(front + middle + last =~= front + (middle + last));
    }
    reveal_with_fuel(plane_samples, 2);
    assert(seq![plane].drop_last() =~= seq![]);
    if plane@.len() >= count {
        assert(plane@.take(count) =~= plane@.subrange(0, count));
        let own = samples_of(plane@.take(count), format);
        assert(Seq::<SampleValue>::empty() + own =~= own);
    }
}

/// What [`decode_samples`] returns: an error exactly if there is no encoding, and otherwise one
/// sample for each full group of bytes, decoded from those.
pub proof fn samples_are_decoded_from_their_bytes(
    bytes: &[u8],
    format: SampleFormat,
    width: int,
    r: Result<Vec<SampleValue>, SampleError>,
    i: int,
)
    requires
        call_ensures(decode_samples, (bytes, format), r),
        format is U8 ==> width == 1,
        format is I16 ==> width == 2,
        format is I32 || format is F32 ==> width == 4,
        format is I64 || format is F64 ==> width == 8,
    ensures
        r is Err <==> format is Unknown,
        r is Ok ==> r->Ok_0@.len() == bytes@.len() as int / width,
        r is Ok && 0 <= i < r->Ok_0@.len() ==> 0 <= i * width && i * width + width <= bytes@.len()
            && r->Ok_0@[i] == sample_of(bytes@.subrange(i * width, i * width + width), format),
{
    if r is Ok {
        samples_lie_side_by_side(bytes@, format, width);
        if 0 <= i < r->Ok_0@.len() {
            assert(r->Ok_0@[i] == samples_of(bytes@, format)[i]);
        }
    }
}

/// What [`peak_volume`] returns: one of the samples, and none is above it, if all of them are numbers,
/// and zero if one is not.
pub proof fn the_peak_is_the_greatest(samples: Vec<Binary64>, r: Binary64, i: int)
    requires
        call_ensures(peak_volume, (&samples,), r),
    ensures
        !r.nan(),
        samples@.len() == 0 ==> r.rank() == 0,
        0 <= i < samples@.len() && samples@[i].nan() ==> r.rank() == 0,
        0 <= i < samples@.len() ==> (exists|j: int|
            0 <= j < samples@.len() && (#[trigger] samples@[j]).nan()) || (samples@.contains(r)
            && !r.less(samples@[i])),
{
    if samples@.len() > 0 {
        peak_is_the_loudest(samples@);
    }
}

/// How results of [`decode_planes`] relate: one more plane, if it is long enough, brings the samples
/// of its first `count` bytes, behind all others, and a plane that is too short brings none.
pub proof fn one_more_plane(
    planes: Vec<Vec<u8>>,
    more: Vec<Vec<u8>>,
    plane: Vec<u8>,
    start: &[u8],
    count: usize,
    format: SampleFormat,
    r: Vec<SampleValue>,
    s: Vec<SampleValue>,
    own: Result<Vec<SampleValue>, SampleError>,
)
    requires
        !(format is Unknown),
        more@ == planes@.push(plane),
        plane@.len() >= count ==> start@ == plane@.subrange(0, count as int),
        call_ensures(decode_planes, (&planes, count, format), r),
        call_ensures(decode_planes, (&more, count, format), s),
        call_ensures(decode_samples, (start, format), own),
    ensures
        plane@.len() >= count ==> own is Ok && s@ == r@ + own->Ok_0@,
        plane@.len() < count ==> s@ == r@,
{
    planes_come_one_after_the_other(planes@, seq![plane], plane, count as int, format);
    assert(more@ =~= planes@ + seq![plane]);
}

} // verus!
