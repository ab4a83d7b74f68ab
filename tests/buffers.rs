use audio_engine::delay::DelayLine;
use audio_engine::export::AudioExporter;
use audio_engine::ring_buffer::SharedRingBuffer;

#[test]
fn ring_round_trip() {
    let mut rb = SharedRingBuffer::new(16);
    assert_eq!(rb.capacity(), 16);
    assert_eq!(rb.write(&[1, 2, 3, 4, 5]), 5);
    let mut out = [0u8; 8];
    assert_eq!(rb.read(&mut out), 5);
    assert_eq!(out, [1, 2, 3, 4, 5, 0, 0, 0]);
}

#[test]
fn ring_keeps_one_byte_free() {
    let mut rb = SharedRingBuffer::new(8);
    let data: Vec<u8> = (0..20).collect();
    assert_eq!(rb.write(&data), 7);
    assert_eq!(rb.write(&[99]), 0);
    let mut out = [0u8; 20];
    assert_eq!(rb.read(&mut out), 7);
    assert_eq!(&out[..7], &[0, 1, 2, 3, 4, 5, 6]);
    assert_eq!(rb.read(&mut out), 0);
}

#[test]
fn ring_wraps_around() {
    let mut rb = SharedRingBuffer::new(8);
    assert_eq!(rb.write(&[1, 2, 3, 4, 5, 6]), 6);
    let mut out = [0u8; 4];
    assert_eq!(rb.read(&mut out), 4);
    assert_eq!(out, [1, 2, 3, 4]);
    assert_eq!(rb.write(&[7, 8, 9, 10, 11, 12]), 5);
    let mut all = [0u8; 10];
    assert_eq!(rb.read(&mut all), 7);
    assert_eq!(&all[..7], &[5, 6, 7, 8, 9, 10, 11]);
}

#[test]
fn ring_read_in_small_pieces() {
    let mut rb = SharedRingBuffer::new(4);
    assert_eq!(rb.write(&[9, 8, 7]), 3);
    let mut one = [0u8; 1];
    assert_eq!(rb.read(&mut one), 1);
    assert_eq!(one, [9]);
    assert_eq!(rb.write(&[6, 5]), 1);
    let mut rest = [0u8; 4];
    assert_eq!(rb.read(&mut rest), 3);
    assert_eq!(rest, [8, 7, 6, 0]);
}

#[test]
fn wav_header_bytes() {
    let h = AudioExporter::create_wav_header(44100, 2, 1000);
    assert_eq!(h.len(), 44);
    assert_eq!(&h[0..4], b"RIFF");
    assert_eq!(&h[4..8], &1036u32.to_le_bytes());
    assert_eq!(&h[8..12], b"WAVE");
    assert_eq!(&h[12..16], b"fmt ");
    assert_eq!(&h[16..20], &16u32.to_le_bytes());
    assert_eq!(&h[20..22], &1u16.to_le_bytes());
    assert_eq!(&h[22..24], &2u16.to_le_bytes());
    assert_eq!(&h[24..28], &44100u32.to_le_bytes());
    assert_eq!(&h[28..32], &352800u32.to_le_bytes());
    assert_eq!(&h[32..34], &8u16.to_le_bytes());
    assert_eq!(&h[34..36], &32u16.to_le_bytes());
    assert_eq!(&h[36..40], b"data");
    assert_eq!(&h[40..44], &1000u32.to_le_bytes());
}

#[test]
fn delay_capacity_is_next_power_of_two() {
    assert_eq!(DelayLine::new(1000, 0.0f32).capacity(), 1024);
    assert_eq!(DelayLine::new(1024, 0.0f32).capacity(), 1024);
    assert_eq!(DelayLine::new(0, 0.0f32).capacity(), 1);
    assert_eq!(DelayLine::new(88200, 0.0f32).capacity(), 131072);
}

#[test]
fn delay_tap_returns_first_written() {
    let mut d = DelayLine::new(8, 0.0f32);
    let xs = [0.25f32, -0.5, 0.75, 1.0, -1.0];
    for x in xs {
        d.write(x);
    }
    assert_eq!(d.tap(5), 0.25);
    assert_eq!(d.tap(1), -1.0);
    assert_eq!(d.tap(6), 0.0);
}

#[test]
fn delay_wraps_after_capacity() {
    let mut d = DelayLine::new(4, 0i32);
    for x in 1..=10 {
        d.write(x);
    }
    assert_eq!(d.tap(1), 10);
    assert_eq!(d.tap(3), 8);
    assert_eq!(d.tap(0), 7);
}
