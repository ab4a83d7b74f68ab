use vstd::prelude::*;

verus! {

/// `x` as two little-endian bytes.
pub open spec fn le16(x: u16) -> Seq<u8> {
    seq![(x % 256) as u8, (x / 256) as u8]
}

/// `x` as four little-endian bytes.
pub open spec fn le32(x: u32) -> Seq<u8> {
    seq![
        (x % 256) as u8,
        ((x / 256) % 256) as u8,
        ((x / 65536) % 256) as u8,
        (x / 16777216) as u8,
    ]
}

/// ASCII "RIFF", "WAVE", "fmt " and "data".
pub open spec fn riff_tag() -> Seq<u8> {
    seq![0x52u8, 0x49, 0x46, 0x46]
}

pub open spec fn wave_tag() -> Seq<u8> {
    seq![0x57u8, 0x41, 0x56, 0x45]
}

pub open spec fn fmt_tag() -> Seq<u8> {
    seq![0x66u8, 0x6d, 0x74, 0x20]
}

pub open spec fn data_tag() -> Seq<u8> {
    seq![0x64u8, 0x61, 0x74, 0x61]
}

/// The 44-byte header of a RIFF/WAVE file of 32-bit float samples, with `data_len` bytes
/// of sample data.
pub open spec fn wav_header(sample_rate: u32, num_channels: u16, data_len: u32) -> Seq<u8> {
    riff_tag() + le32((36 + data_len) as u32) + wave_tag()
        + fmt_tag() + le32(16) + le16(1) + le16(num_channels) + le32(
        sample_rate,
    ) + le32((sample_rate * num_channels * 4) as u32) + le16((num_channels * 4) as u16) + le16(
        32,
    ) + data_tag() + le32(data_len)
}

fn push_le16(out: &mut Vec<u8>, x: u16)
    ensures
        final(out)@ == old(out)@ + le16(x),
{
    out.push((x % 256) as u8);
    out.push((x / 256) as u8);
    assert(final(out)@ =~= old(out)@ + le16(x));
}

fn push_le32(out: &mut Vec<u8>, x: u32)
    ensures
        final(out)@ == old(out)@ + le32(x),
{
    out.push((x % 256) as u8);
    out.push(((x / 256) % 256) as u8);
    out.push(((x / 65536) % 256) as u8);
    out.push((x / 16777216) as u8);
    assert(final(out)@ =~= old(out)@ + le32(x));
}

fn push_tag(out: &mut Vec<u8>, a: u8, b: u8, c: u8, d: u8)
    ensures
        final(out)@ == old(out)@ + seq![a, b, c, d],
{
    out.push(a);
    out.push(b);
    out.push(c);
    out.push(d);
    assert(final(out)@ =~= old(out)@ + seq![a, b, c, d]);
}

/// Offline rendering of a project to a WAV file.
pub struct AudioExporter;

impl AudioExporter {
    /// The WAV header for `data_len` bytes of interleaved 32-bit float samples.
    pub fn create_wav_header(sample_rate: u32, num_channels: u16, data_len: u32) -> (r: Vec<u8>)
        requires
            36 + data_len <= u32::MAX,
            sample_rate * num_channels * 4 <= u32::MAX,
            num_channels * 4 <= u16::MAX,
        ensures
            r@ == wav_header(sample_rate, num_channels, data_len),
    {
        let mut header: Vec<u8> = Vec::new();
        push_tag(&mut header, 0x52, 0x49, 0x46, 0x46);
        push_le32(&mut header, 36 + data_len);
        push_tag(&mut header, 0x57, 0x41, 0x56, 0x45);
        push_tag(&mut header, 0x66, 0x6d, 0x74, 0x20);
        push_le32(&mut header, 16);
        push_le16(&mut header, 1);
        push_le16(&mut header, num_channels);
        push_le32(&mut header, sample_rate);
        proof {
            assert(0 <= sample_rate * num_channels) by (nonlinear_arith);
        }
        let byte_rate: u32 = sample_rate * num_channels as u32 * 4;
        let block_align: u16 = num_channels * 4;
        push_le32(&mut header, byte_rate);
        push_le16(&mut header, block_align);
        push_le16(&mut header, 32);
        push_tag(&mut header, 0x64, 0x61, 0x74, 0x61);
        push_le32(&mut header, data_len);
        proof {
            assert(header@ =~= wav_header(sample_rate, num_channels, data_len));
        }
        header
    }
}

} // verus!
