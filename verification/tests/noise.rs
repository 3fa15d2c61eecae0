use life_kernel::kernel::{add_noise_to_universe, tick_universe, toggle_cell};
use life_kernel::noise::{noised, INFINITY, ONE};
use life_kernel::topology::Wrap;
use life_kernel::universe::DataBuf;

fn speckled(width: usize, height: usize) -> DataBuf {
    let mut u = DataBuf::with_shape(width, height, Wrap::KleinBottle).unwrap();
    for y in 0..height as i32 {
        for x in 0..width as i32 {
            if (x * 7 + y * 3) % 5 < 2 {
                toggle_cell(&mut u, x, y);
            }
        }
    }
    tick_universe(&mut u);
    u
}

#[test]
fn bit_patterns_of_the_landmarks() {
    assert_eq!(ONE, 1.0f32.to_bits());
    assert_eq!(INFINITY, f32::INFINITY.to_bits());
}

#[test]
fn noised_compares_as_the_numbers_do() {
    let samples = [0.0f32, 1.0e-30, 0.25, 0.5, 0.75, 0.99999994];
    let densities = [
        0.0f32,
        -0.0,
        1.0e-30,
        0.25,
        0.5,
        0.75,
        1.0,
        2.0,
        -0.5,
        -2.0,
        f32::INFINITY,
        f32::NEG_INFINITY,
        f32::NAN,
        -f32::NAN,
        f32::MAX,
        f32::MIN_POSITIVE,
    ];
    for s in samples {
        for d in densities {
            for c in [0u8, 1, 16, 17] {
                let expected = c ^ u8::from(s < d);
                assert_eq!(noised(c, s.to_bits(), d.to_bits()), expected);
            }
        }
    }
}

#[test]
fn noised_flips_bit_zero_only() {
    assert_eq!(noised(0, 0.25f32.to_bits(), 0.5f32.to_bits()), 1);
    assert_eq!(noised(1, 0.25f32.to_bits(), 0.5f32.to_bits()), 0);
    assert_eq!(noised(16, 0.25f32.to_bits(), 0.5f32.to_bits()), 17);
    assert_eq!(noised(17, 0.25f32.to_bits(), 0.5f32.to_bits()), 16);
    assert_eq!(noised(17, 0.5f32.to_bits(), 0.5f32.to_bits()), 17);
    assert_eq!(noised(16, 0.75f32.to_bits(), 0.5f32.to_bits()), 16);
}

#[test]
fn density_zero_flips_no_cell() {
    for entropy in [0u32, 1, 0x3F00_0000, u32::MAX] {
        let mut u = speckled(16, 8);
        let before = u.cells().clone();
        add_noise_to_universe(&mut u, 0.0f32.to_bits(), entropy);
        assert_eq!(u.cells(), &before);
    }
}

#[test]
fn density_one_flips_every_cell() {
    for entropy in [0u32, 1, 0x3F00_0000, u32::MAX] {
        let mut u = speckled(16, 8);
        let before = u.cells().clone();
        add_noise_to_universe(&mut u, 1.0f32.to_bits(), entropy);
        for (i, &c) in u.cells().iter().enumerate() {
            assert_eq!(c, before[i] ^ 1);
        }
    }
}

#[test]
fn density_one_flips_every_cell_of_the_standard_universe() {
    let mut u = DataBuf::new();
    add_noise_to_universe(&mut u, 1.0f32.to_bits(), 0x3E99_999A);
    assert!(u.cells().iter().all(|&c| c == 1));
    add_noise_to_universe(&mut u, 1.0f32.to_bits(), 0x3E99_999A);
    assert!(u.cells().iter().all(|&c| c == 0));
}

#[test]
fn density_outside_the_unit_interval_flips_all_or_nothing() {
    for d in [2.0f32, 1.5, f32::MAX, f32::INFINITY] {
        let mut u = speckled(16, 8);
        let before = u.cells().clone();
        add_noise_to_universe(&mut u, d.to_bits(), 77);
        for (i, &c) in u.cells().iter().enumerate() {
            assert_eq!(c, before[i] ^ 1);
        }
    }
    for d in [-0.0f32, -0.5, -1.0, f32::NEG_INFINITY, f32::NAN, -f32::NAN] {
        let mut u = speckled(16, 8);
        let before = u.cells().clone();
        add_noise_to_universe(&mut u, d.to_bits(), 77);
        assert_eq!(u.cells(), &before);
    }
}

#[test]
fn noise_draws_one_sample_per_cell_from_the_seeded_generator() {
    for (entropy, density) in [(0u32, 0.5f32), (12345, 0.1), (0x3F12_3456, 0.9), (u32::MAX, 0.5)] {
        let mut u = speckled(16, 8);
        let before = u.cells().clone();
        add_noise_to_universe(&mut u, density.to_bits(), entropy);
        let mut rng = oorandom::Rand32::new(entropy as u64);
        let mut flips = 0;
        for (i, &c) in u.cells().iter().enumerate() {
            let flip = rng.rand_float() < density;
            assert_eq!(c, before[i] ^ u8::from(flip));
            flips += usize::from(flip);
        }
        assert!(flips > 0);
        assert!(flips < before.len());
    }
}

#[test]
fn noise_depends_on_the_entropy() {
    let mut a = DataBuf::new();
    let mut b = DataBuf::new();
    let mut c = DataBuf::new();
    add_noise_to_universe(&mut a, 0.5f32.to_bits(), 1);
    add_noise_to_universe(&mut b, 0.5f32.to_bits(), 2);
    add_noise_to_universe(&mut c, 0.5f32.to_bits(), 1);
    assert_ne!(a.cells(), b.cells());
    assert_eq!(a.cells(), c.cells());
}

#[test]
fn noise_keeps_the_cells_clean() {
    let mut u = speckled(16, 8);
    add_noise_to_universe(&mut u, 0.3f32.to_bits(), 99);
    assert!(u.cells().iter().all(|&c| c & 0xEE == 0));
    tick_universe(&mut u);
    assert!(u.cells().iter().all(|&c| c & 0xEE == 0));
}

#[test]
fn noise_announces_itself() {
    let mut u = DataBuf::with_shape(4, 4, Wrap::Toroidal).unwrap();
    let len = add_noise_to_universe(&mut u, 0.5f32.to_bits(), 3);
    assert_eq!(len, 10);
    assert_eq!(&u.text()[..10], b"*pssshhhh*");
    assert_eq!(u.str_max(), 10);
    let mut v = DataBuf::with_shape(4, 4, Wrap::Toroidal).unwrap();
    assert_eq!(v.add_noise_to_universe(0.5f32.to_bits(), 3), 10);
    assert_eq!(u.cells(), v.cells());
}
