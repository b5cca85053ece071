use roguelike::map::NoiseLevel;
use roguelike::noise::grad;
use roguelike::noise::noise_level;
use roguelike::noise::NoiseCutoffs;
use roguelike::noise::PerlinNoise;

#[test]
fn the_table_is_a_permutation_written_twice() {
    let noise = PerlinNoise::new();
    let mut seen = [false; 256];
    for i in 0..256 {
        let value = noise.permutation[i] as usize;
        assert!(!seen[value]);
        seen[value] = true;
        assert_eq!(noise.permutation[i + 256], noise.permutation[i]);
    }
    assert!(seen.iter().all(|&found| found));
}

#[test]
fn the_table_is_shuffled() {
    let ascending: Vec<u8> = (0..=255).collect();
    let first = PerlinNoise::new();
    let second = PerlinNoise::new();
    assert_ne!(first.permutation[..256], ascending[..]);
    assert_ne!(first.permutation, second.permutation);
}

#[test]
fn corners_are_hashed_through_the_table() {
    let mut permutation = [0u8; 512];
    for i in 0..512 {
        // a permutation that is easy to follow by hand: each value is its index plus 3
        permutation[i] = ((i + 3) % 256) as u8;
    }
    let noise = PerlinNoise { permutation };
    // p[0] + 0 = 3, p[3] = 6, p[6] = 9
    assert_eq!(noise.corner_hashes(0, 0), [9, 10, 10, 11]);
    // p[10] + 20 = 33, p[33] = 36, p[36] = 39
    assert_eq!(noise.corner_hashes(10, 20), [39, 40, 40, 41]);
    // the last column and row look past the 255th entry
    // p[255] + 255 = 2 + 255 = 257, p[257] = 4, p[4] = 7
    assert_eq!(noise.corner_hashes(255, 255), [7, 8, 8, 9]);
}

#[test]
fn hashes_stand_for_gradients() {
    assert_eq!(grad(0), 1);
    assert_eq!(grad(7), 8);
    assert_eq!(grad(8), -1);
    assert_eq!(grad(15), -8);
    assert_eq!(grad(16), 1);
    assert_eq!(grad(0b1010_1101), -6);
    assert_eq!(grad(255), -8);
    for hash in 0..=255u8 {
        let gradient = grad(hash);
        assert!(gradient != 0 && gradient >= -8 && gradient <= 8);
        assert_eq!(gradient, grad(hash & 15));
    }
}

#[test]
fn noise_is_set_against_the_cutoffs() {
    let cutoffs = NoiseCutoffs { flowers_above: 2200, grass_above: -250 };
    assert_eq!(noise_level(2201, &cutoffs), NoiseLevel::High);
    assert_eq!(noise_level(2200, &cutoffs), NoiseLevel::Middle);
    assert_eq!(noise_level(0, &cutoffs), NoiseLevel::Middle);
    assert_eq!(noise_level(-249, &cutoffs), NoiseLevel::Middle);
    assert_eq!(noise_level(-250, &cutoffs), NoiseLevel::Low);
    assert_eq!(noise_level(i64::MIN, &cutoffs), NoiseLevel::Low);
    assert_eq!(noise_level(i64::MAX, &cutoffs), NoiseLevel::High);
}
