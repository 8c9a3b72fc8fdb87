use flow::audio_convert::{downmix, Converter};
use flow::platform::linux::overlay::Overlay;
use flow::wav::resample_into;

fn mean(frame: &[f32]) -> f32 {
    frame.iter().sum::<f32>() / frame.len() as f32
}

fn blend(a: f32, b: f32, part: u32) -> f32 {
    a + (b - a) * (part as f32 / 16_000.0)
}

fn resamples() {
    let mut c = Converter::new(48_000, 2);
    // 480 stereo frames = 10 ms at 48 kHz, which is 160 samples at 16 kHz.
    let input: Vec<f32> = (0..960).map(|i| (i % 2) as f32).collect();
    let out = c.convert(&input, mean, blend);
    assert!(
        (out.len() as i32 - 160).abs() <= 1,
        "expected ~160 samples, got {}",
        out.len()
    );
}

fn passes_through() {
    let mut c = Converter::new(16_000, 1);
    let input: Vec<f32> = vec![0.25; 320];
    let out = c.convert(&input, mean, blend);
    assert_eq!(out, &input[..]);
}

fn keeps_rate() {
    let mut c = Converter::new(44_100, 1);
    let mut total = 0usize;
    for _ in 0..100 {
        total += c.convert(&vec![0.0; 441], mean, blend).len();
    }
    // One second of input must produce 16000 samples, give or take one.
    assert!((total as i32 - 16_000).abs() <= 2, "got {total}");
}

fn reset_clears() {
    let mut c = Converter::new(48_000, 1);
    let a = c.convert(&vec![1.0; 480], mean, blend).len();
    c.reset();
    let b = c.convert(&vec![1.0; 480], mean, blend).len();
    assert_eq!(a, b);
}

#[test]
fn audio_resamples_48k_stereo_to_16k_mono() {
    resamples();
}

#[test]
fn audio_passes_16k_mono_through_untouched() {
    passes_through();
}

#[test]
fn audio_keeps_rate_across_packet_boundaries() {
    keeps_rate();
}

#[test]
fn audio_reset_clears_continuity() {
    reset_clears();
}

#[test]
fn audio_convert_resamples_48k_stereo_to_16k_mono() {
    resamples();
}

#[test]
fn audio_convert_passes_16k_mono_through_untouched() {
    passes_through();
}

#[test]
fn audio_convert_keeps_rate_across_packet_boundaries() {
    keeps_rate();
}

#[test]
fn audio_convert_reset_clears_continuity() {
    reset_clears();
}

#[test]
fn frames_are_mixed_and_a_part_of_one_is_dropped() {
    assert_eq!(downmix(&[1.0, 3.0, 5.0, 7.0, 9.0], 2, mean), [2.0, 6.0]);
    assert_eq!(downmix(&[1.0, 3.0], 1, mean), [1.0, 3.0]);
    assert_eq!(downmix(&[1.0, 3.0], 0, mean), [1.0, 3.0]);
    assert!(downmix(&[1.0, 3.0], 3, mean).is_empty());
}

/// The two samples that one is made of and the parts between them, to be looked at.
fn seen(a: i64, b: i64, part: u32) -> i64 {
    a * 1_000_000_000 + b * 1_000_000 + part as i64
}

fn first(frame: &[i64]) -> i64 {
    frame[0]
}

#[test]
fn a_packet_leans_on_the_one_before() {
    let mut c: Converter<i64> = Converter::new(12_000, 1);
    assert!(!c.passes_through());
    // Three quarters of a sample at a time: 0, 3/4, 6/4, 9/4, which waits.
    assert_eq!(
        c.convert(&[1, 2, 3], first, seen),
        [1, seen(1, 2, 12_000), seen(2, 3, 8_000)]
    );
    assert_eq!((c.place, c.prev), (4_000, Some(3)));
    assert!(c.convert(&[], first, seen).is_empty());
    assert_eq!(c.prev, Some(3));
    assert_eq!(c.convert(&[4], first, seen), [seen(3, 4, 4_000), 4]);
    c.reset();
    assert_eq!((c.place, c.prev), (16_000, None));
}

#[test]
fn packets_make_what_they_make_as_one() {
    for rate in [8_000, 11_025, 16_000, 22_050, 44_100, 48_000, 96_000] {
        let samples: Vec<i64> = (0..300).map(|i| i * i % 97).collect();
        let mut whole: Converter<i64> = Converter::new(rate, 1);
        let expected = whole.convert(&samples, first, seen);
        for cut in [1, 2, 7, 100] {
            let mut c: Converter<i64> = Converter::new(rate, 1);
            let mut out = Vec::new();
            for packet in samples.chunks(cut) {
                out.extend(c.convert(packet, first, seen));
            }
            assert_eq!(out, expected);
        }
    }
}

#[test]
fn the_rate_is_kept_to_a_sample() {
    for rate in [8_000u32, 11_025, 44_100, 48_000] {
        let mut c: Converter<i64> = Converter::new(rate, 1);
        let made = c.convert(&vec![0; 1_000], first, seen).len() as u64;
        assert!(999 * 16_000 < made * rate as u64);
        assert!((made - 1) * rate as u64 <= 999 * 16_000);
    }
}

#[test]
fn a_reset_converter_is_a_new_one() {
    let mut used: Converter<i64> = Converter::new(44_100, 2);
    used.convert(&[5, 5, 7, 7, 9, 9], first, seen);
    used.reset();
    let mut fresh: Converter<i64> = Converter::new(44_100, 2);
    for packet in [[1, 0, 2, 0, 3, 0], [4, 0, 5, 0, 6, 0], [7, 0, 8, 0, 9, 0]] {
        assert_eq!(used.convert(&packet, first, seen), fresh.convert(&packet, first, seen));
    }
    assert_eq!((used.place, used.prev), (fresh.place, fresh.prev));
}

#[test]
fn a_whole_file_is_brought_to_another_rate() {
    let mut out = vec![9];
    resample_into(&[1, 2, 3, 4], 8_000, 16_000, seen, &mut out);
    let half = |a, b| seen(a, b, 8_000);
    assert_eq!(out, [1, half(1, 2), 2, half(2, 3), 3, half(3, 4), 4, 4]);
    resample_into(&[1, 2, 3, 4, 5, 6, 7], 48_000, 16_000, seen, &mut out);
    assert_eq!(out, [1, 4]);
    resample_into(&[1, 2], 16_000, 16_000, seen, &mut out);
    assert_eq!(out, [1, 2]);
    resample_into(&[], 0, 16_000, seen, &mut out);
    assert!(out.is_empty());
    resample_into(&[1, 2], 16_000, 0, seen, &mut out);
    assert!(out.is_empty());
    let mut floats = Vec::new();
    resample_into(&[0.0, 1.0], 8_000, 16_000, blend, &mut floats);
    assert_eq!(floats, [0.0, 0.5, 1.0, 1.0]);
}

#[test]
fn the_pill_is_not_there_on_wayland() {
    assert_eq!(
        Overlay::create("Ctrl").err().as_deref(),
        Some("overlay not implemented on this platform yet")
    );
    let o = Overlay::disabled();
    assert!(!o.is_visible() && !o.is_drawable());
    assert_eq!(o.tick(), None);
}
