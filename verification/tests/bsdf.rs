use rust_raytracer::bsdf::{BxdfSlots, FresnelNoop, TransportMode, BXDFTYPES, MAX_BXDF_COUNT};

#[test]
fn flag_values() {
    assert_eq!(BXDFTYPES::none().bits(), 0);
    assert_eq!(BXDFTYPES::reflection().bits(), 1);
    assert_eq!(BXDFTYPES::refraction().bits(), 2);
    assert_eq!(BXDFTYPES::diffuse().bits(), 4);
    assert_eq!(BXDFTYPES::specular().bits(), 8);
    assert_eq!(BXDFTYPES::transmission().bits(), 16);
    assert_eq!(BXDFTYPES::glossy().bits(), 32);
    assert_eq!(BXDFTYPES::all().bits(), 15);
}

#[test]
fn flag_algebra() {
    let lambert = BXDFTYPES::reflection().union(BXDFTYPES::diffuse());
    assert!(lambert.contains(BXDFTYPES::reflection()));
    assert!(!lambert.contains(BXDFTYPES::specular()));
    assert!(lambert.intersects(BXDFTYPES::all()));
    let non_specular = BXDFTYPES::all().difference(BXDFTYPES::specular());
    assert_eq!(non_specular.bits(), 7);
    let mirror = BXDFTYPES::reflection().union(BXDFTYPES::specular());
    assert!(!non_specular.contains(BXDFTYPES::specular()));
    assert!(non_specular.intersects(mirror));
    assert_eq!(BXDFTYPES::specular().complement().bits(), 55);
    assert_eq!(BXDFTYPES::all().intersection(BXDFTYPES::glossy()).bits(), 0);
    assert!(!BXDFTYPES::glossy().intersects(BXDFTYPES::all()));
    assert_eq!(BXDFTYPES::from_bits_truncate(0xff).bits(), 63);
    assert!(!BXDFTYPES::transmission().intersects(BXDFTYPES::all()));
    assert!(lambert.contains(BXDFTYPES::none()));
}

#[test]
fn slots_fill_in_order_and_select() {
    let mut s: BxdfSlots<&str> = BxdfSlots::new();
    assert_eq!(s.len(), 0);
    let diffuse = BXDFTYPES::reflection().union(BXDFTYPES::diffuse());
    let mirror = BXDFTYPES::reflection().union(BXDFTYPES::specular());
    let glass = BXDFTYPES::refraction().union(BXDFTYPES::specular());
    s.add(diffuse, "lambert");
    s.add(mirror, "mirror");
    s.add(glass, "glass");
    assert_eq!(s.len(), 3);
    assert_eq!(*s.get(0), "lambert");
    assert_eq!(*s.get(2), "glass");
    assert_eq!(s.types(1), mirror);

    assert_eq!(s.matching(BXDFTYPES::specular()), vec![1, 2]);
    assert_eq!(s.matching(BXDFTYPES::all()), vec![0, 1, 2]);
    assert_eq!(s.matching(BXDFTYPES::transmission()), Vec::<usize>::new());
    let non_specular = BXDFTYPES::all().difference(BXDFTYPES::specular());
    assert_eq!(s.contributing(non_specular, BXDFTYPES::reflection()), vec![0, 1]);
    assert_eq!(s.contributing(BXDFTYPES::all(), BXDFTYPES::refraction()), vec![2]);
    assert_eq!(s.contributing(BXDFTYPES::all(), BXDFTYPES::transmission()), Vec::<usize>::new());
}

#[test]
fn slots_hold_five_lobes() {
    let mut s: BxdfSlots<u32> = BxdfSlots::new();
    for i in 0..MAX_BXDF_COUNT as u32 {
        s.add(BXDFTYPES::diffuse(), i);
    }
    assert_eq!(s.len(), MAX_BXDF_COUNT);
    assert_eq!(*s.get(4), 4);
}

#[test]
fn fresnel_noop_and_transport_mode() {
    let f = FresnelNoop::new();
    assert_eq!(f, FresnelNoop {});
    assert!(TransportMode::Radiance != TransportMode::Other);
}

#[test]
fn choose_matching_picks_only_matching_lobes() {
    let mut s: BxdfSlots<&str> = BxdfSlots::new();
    s.add(BXDFTYPES::reflection().union(BXDFTYPES::diffuse()), "lambert");
    s.add(BXDFTYPES::reflection().union(BXDFTYPES::specular()), "mirror");
    for _ in 0..20 {
        assert_eq!(s.choose_matching(BXDFTYPES::specular()), Some(1));
        let any = s.choose_matching(BXDFTYPES::reflection());
        assert!(any == Some(0) || any == Some(1));
    }
    assert_eq!(s.choose_matching(BXDFTYPES::transmission()), None);
    let empty: BxdfSlots<&str> = BxdfSlots::new();
    assert_eq!(empty.choose_matching(BXDFTYPES::all()), None);
}
