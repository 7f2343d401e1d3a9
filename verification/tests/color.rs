use iced_digraph::color::{byte_value_color, Color, FULL_CHANNEL};

fn knots() -> [[f64; 3]; 5] {
    [
        [0x1a as f64, 0x2e as f64, 0x6e as f64],
        [0x22 as f64, 0x7a as f64, 0xa8 as f64],
        [0x2e as f64, 0x9d as f64, 0x4a as f64],
        [0xd4 as f64, 0x8a as f64, 0x2b as f64],
        [0x8e as f64, 0x2f as f64, 0x7b as f64],
    ]
}

#[test]
fn every_byte_is_interpolated_between_its_knots() {
    for b in 0..=255u8 {
        let t = b as f64 / 255.0;
        let band = if t < 0.25 {
            0
        } else if t < 0.5 {
            1
        } else if t < 0.75 {
            2
        } else {
            3
        };
        let u = (t - 0.25 * band as f64) * 4.0;
        let (from, to) = (knots()[band], knots()[band + 1]);
        let c = byte_value_color(b);
        let got = [c.r, c.g, c.b];
        for i in 0..3 {
            let want = from[i] / 255.0 + (to[i] / 255.0 - from[i] / 255.0) * u;
            let have = got[i] as f64 / FULL_CHANNEL as f64;
            assert!((want - have).abs() < 1.0e-9, "byte {} channel {}", b, i);
        }
    }
}

#[test]
fn the_scale_begins_and_ends_on_knots() {
    assert_eq!(byte_value_color(0), Color { r: 0x1a * 255, g: 0x2e * 255, b: 0x6e * 255 });
    assert_eq!(byte_value_color(255), Color { r: 0x8e * 255, g: 0x2f * 255, b: 0x7b * 255 });
}

#[test]
fn band_edges() {
    // 63 is 252/255 of the way through the first band, 64 is 1/255 into the second.
    assert_eq!(byte_value_color(63).r, 255 * 26 + (34 - 26) * 252);
    assert_eq!(byte_value_color(64).r, 255 * 34 + (46 - 34));
    assert_eq!(byte_value_color(127).g, 255 * 122 + (157 - 122) * 253);
    assert_eq!(byte_value_color(128).g, 255 * 157 - (157 - 138) * 2);
    assert_eq!(byte_value_color(191).b, 255 * 74 - (74 - 43) * 254);
    assert_eq!(byte_value_color(192).b, 255 * 43 + (123 - 43) * 3);
}

#[test]
fn channels_are_proper_fractions() {
    for b in 0..=255u8 {
        let c = byte_value_color(b);
        assert!(c.r <= FULL_CHANNEL && c.g <= FULL_CHANNEL && c.b <= FULL_CHANNEL);
    }
}
