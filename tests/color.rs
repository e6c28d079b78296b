use mandelbrot::color::{ColorRGB, HueSector};

const SECTORS: [HueSector; 6] = [
    HueSector::Red,
    HueSector::Yellow,
    HueSector::Green,
    HueSector::Cyan,
    HueSector::Blue,
    HueSector::Magenta,
];

fn rgb(r: u8, g: u8, b: u8) -> ColorRGB {
    ColorRGB { r, g, b }
}

#[test]
fn sectors_follow_the_hexagon() {
    // chroma ceiling 200, secondary chroma 30, floor 50: secondary channel 80
    assert_eq!(ColorRGB::from_sector(HueSector::Red, 200, 30, 50), rgb(200, 80, 50));
    assert_eq!(ColorRGB::from_sector(HueSector::Yellow, 200, 30, 50), rgb(80, 200, 50));
    assert_eq!(ColorRGB::from_sector(HueSector::Green, 200, 30, 50), rgb(50, 200, 80));
    assert_eq!(ColorRGB::from_sector(HueSector::Cyan, 200, 30, 50), rgb(50, 80, 200));
    assert_eq!(ColorRGB::from_sector(HueSector::Blue, 200, 30, 50), rgb(80, 50, 200));
    assert_eq!(ColorRGB::from_sector(HueSector::Magenta, 200, 30, 50), rgb(200, 50, 80));
}

#[test]
fn secondary_channel_adds_truncated_parts() {
    // z = 100.9 and m = 27.9 truncate to 100 and 27: the channel is 127, not 128
    let z = 100.9f64 as u8;
    let m = 27.9f64 as u8;
    assert_eq!(ColorRGB::from_sector(HueSector::Red, 255, z, m).g, 127);
}

#[test]
fn zero_value_is_black_in_every_sector() {
    for s in SECTORS {
        assert_eq!(ColorRGB::from_sector(s, 0, 0, 0), rgb(0, 0, 0));
    }
}

#[test]
fn full_saturation_primaries() {
    // s = 1, v = 1: k = 255, m = 0
    assert_eq!(ColorRGB::from_sector(HueSector::Red, 255, 0, 0), rgb(255, 0, 0));
    assert_eq!(ColorRGB::from_sector(HueSector::Green, 255, 0, 0), rgb(0, 255, 0));
    assert_eq!(ColorRGB::from_sector(HueSector::Blue, 255, 0, 0), rgb(0, 0, 255));
}

#[test]
fn sector_boundaries_jump_by_at_most_one() {
    // s = 1, v = 1. Leaving an even sector the secondary chroma approaches 255
    // and truncates to 254; leaving an odd one it approaches 0 and truncates to 0 or 1.
    for (t, s) in SECTORS.iter().enumerate() {
        let next = SECTORS[(t + 1) % 6];
        let z: u8 = if t % 2 == 0 { 254 } else { 1 };
        let a = ColorRGB::from_sector(*s, 255, z, 0);
        let b = ColorRGB::from_sector(next, 255, z, 0);
        assert!((a.r as i32 - b.r as i32).abs() <= 1);
        assert!((a.g as i32 - b.g as i32).abs() <= 1);
        assert!((a.b as i32 - b.b as i32).abs() <= 1);
    }
}

#[test]
fn sector_boundaries_meet_exactly() {
    for (t, s) in SECTORS.iter().enumerate() {
        let next = SECTORS[(t + 1) % 6];
        let z: u8 = if t % 2 == 0 { 255 } else { 0 };
        assert_eq!(ColorRGB::from_sector(*s, 255, z, 0), ColorRGB::from_sector(next, 255, z, 0));
    }
}
