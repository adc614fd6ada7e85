use vex::{Noise, Sfx};

#[test]
fn noise_is_deterministic_xorshift_star() {
    let mut noise = Noise::new();
    assert_eq!(noise.0, 0x1234_5678_9ABC_DEF1);
    assert_eq!(noise.next(), 7_345_716);
    assert_eq!(noise.0, 0x69cf_1fda_bcd6_8fcc);
    assert_eq!(noise.next(), 6_217_613);
    assert_eq!(noise.next(), 15_053_983);
    let mut again = Noise::new();
    assert_eq!(again.next(), 7_345_716);
}

#[test]
fn samples_map_into_unit_range() {
    let mut noise = Noise::new();
    for _ in 0..10_000 {
        let s = noise.next();
        assert!(s < 1 << 24);
        let f = s as f32 / (1u64 << 23) as f32 - 1.0;
        assert!((-1.0..1.0).contains(&f));
    }
}

#[test]
fn sfx_compare() {
    assert_eq!(Sfx::Shot, Sfx::Shot);
    assert_ne!(Sfx::Shot, Sfx::BossRing);
}

