use cardputer_rust::audio::{Primer, PRIME_TRANSFERS, pcm_samples, sample_to_slot, pcm_bytes, sample_stats, slot_to_sample, Recording, SampleStats, ToneGenerator, MAX_SAMPLES, CHUNK_WORDS};

#[test]
fn slot_upper_half_is_the_sample() {
    assert_eq!(slot_to_sample(0x1234_5678), 0x1234);
    assert_eq!(slot_to_sample(-1), -1);
    assert_eq!(slot_to_sample(i32::MIN), i16::MIN);
    assert_eq!(slot_to_sample(0x0000_FFFF), 0);
    assert_eq!(slot_to_sample((-8000i32) << 16), -8000);
}

#[test]
fn stats_of_samples() {
    assert_eq!(sample_stats(&[3, -7, 10, 0]), SampleStats { min: -7, max: 10, mean: 1 });
    assert_eq!(sample_stats(&[-3, -4]), SampleStats { min: -4, max: -3, mean: -3 });
    assert_eq!(sample_stats(&[]), SampleStats { min: i16::MAX, max: i16::MIN, mean: 0 });
}

#[test]
fn pcm_is_little_endian() {
    assert_eq!(pcm_bytes(&[0x0102, -2, 0]), vec![0x02, 0x01, 0xFE, 0xFF, 0, 0]);
}

#[test]
fn recording_fills_up() {
    let mut r = Recording::new();
    assert_eq!(r.len(), 0);
    assert_eq!(r.chunk_len(), CHUNK_WORDS);
    r.store_chunk(&[0x0001_0000, -65536, 0x7fff_0000]);
    assert_eq!(r.samples(), &[1, -1, 0x7fff]);
    while r.len() < MAX_SAMPLES {
        let n = r.chunk_len();
        r.store_chunk(&vec![0x0005_0000; n]);
    }
    assert_eq!(r.len(), MAX_SAMPLES);
    assert_eq!(r.chunk_len(), 0);
    assert_eq!(r.samples()[MAX_SAMPLES - 1], 5);
    r.clear();
    assert_eq!(r.len(), 0);
}

#[test]
fn tone_is_a_square_wave() {
    // 440 Hz: half period 16000 / 440 / 2 = 18 samples; 500 ms: 8000 samples.
    let mut g = ToneGenerator::new(440, 500);
    let mut all = Vec::new();
    loop {
        let c = g.next_chunk();
        if c.is_empty() {
            break;
        }
        assert!(c.len() <= CHUNK_WORDS);
        all.extend(c);
    }
    assert!(g.finished());
    assert_eq!(all.len(), 8000);
    let high = 8000i32 << 16;
    for (k, w) in all.iter().enumerate() {
        let expected = if k % 36 < 18 { high } else { -high };
        assert_eq!(*w, expected, "sample {}", k);
    }
}

#[test]
fn very_high_tone_has_a_one_sample_half_period() {
    let mut g = ToneGenerator::new(20000, 1);
    let c = g.next_chunk();
    assert_eq!(c.len(), 16);
    assert_eq!(c[0], 8000 << 16);
    assert_eq!(c[1], -8000 << 16);
    assert_eq!(c[2], 8000 << 16);
}

#[test]
fn slots_carry_samples_in_their_upper_half() {
    assert_eq!(sample_to_slot(1), 0x0001_0000);
    assert_eq!(sample_to_slot(-1), -65536);
    for s in [i16::MIN, -8000, 0, 8000, i16::MAX] {
        assert_eq!(slot_to_sample(sample_to_slot(s)), s);
    }
}

#[test]
fn pcm_decodes_little_endian() {
    assert_eq!(pcm_samples(&[0x02, 0x01, 0xFE, 0xFF, 0x7F]), vec![0x0102, -2]);
    assert_eq!(pcm_samples(&[]), Vec::<i16>::new());
}

#[test]
fn pcm_roundtrip() {
    let samples: Vec<i16> = (-300..300).map(|k| (k * 109) as i16).collect();
    assert_eq!(pcm_samples(&pcm_bytes(&samples)), samples);
}

#[test]
fn priming_writes_four_transfers() {
    let mut p = Primer::new();
    let mut n = 0;
    while p.due() {
        p.complete(true);
        n += 1;
    }
    assert_eq!(n, PRIME_TRANSFERS);
}

#[test]
fn priming_stops_at_first_failure() {
    let mut p = Primer::new();
    p.complete(true);
    assert!(p.due());
    p.complete(false);
    assert!(!p.due());
}
