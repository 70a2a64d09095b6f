use rust_raytracer::scalar::Scalar;
use rust_raytracer::texture::{generate_permutation, CheckerTexture, ImageTexture, NoiseTexture, Perlin, SolidColor, Texture};
use rust_raytracer::vec3::Vec3;

fn tx_s(x: f64) -> Scalar {
    Scalar::from_bits(x.to_bits())
}

fn tx_v(x: f64, y: f64, z: f64) -> Vec3 {
    Vec3::new(tx_s(x), tx_s(y), tx_s(z))
}

fn gradients() -> Vec<Vec3> {
    (0..256).map(|k| tx_v(k as f64, -(k as f64), 0.5 * k as f64)).collect()
}

fn solid_of(texture: &Texture) -> Vec3 {
    match texture {
        Texture::Solid(solid) => solid.color_value,
        _ => panic!("not a solid colour"),
    }
}

fn image_2_by_3() -> ImageTexture {
    let data: Vec<u8> = (0..18).collect();
    ImageTexture::new(data, 2, 3).unwrap()
}

#[test]
fn solid_colour_is_the_same_everywhere() {
    let solid = SolidColor::new(tx_s(0.1), tx_s(0.2), tx_s(0.3));
    assert_eq!(solid.color_value, tx_v(0.1, 0.2, 0.3));
    assert_eq!(solid.value(tx_s(0.0), tx_s(0.0), &tx_v(0.0, 0.0, 0.0)), tx_v(0.1, 0.2, 0.3));
    assert_eq!(solid.value(tx_s(0.9), tx_s(0.4), &tx_v(5.0, -6.0, 7.0)), tx_v(0.1, 0.2, 0.3));
}

#[test]
fn checker_picks_odd_for_negative_sines() {
    let checker = CheckerTexture::new_from_color(tx_v(0.2, 0.3, 0.1), tx_v(0.9, 0.9, 0.9));
    assert_eq!(solid_of(checker.pick(tx_s(-0.25))), tx_v(0.2, 0.3, 0.1));
    assert_eq!(solid_of(checker.pick(tx_s(0.25))), tx_v(0.9, 0.9, 0.9));
    assert_eq!(solid_of(checker.pick(tx_s(0.0))), tx_v(0.9, 0.9, 0.9));
    assert_eq!(solid_of(checker.pick(tx_s(-0.0))), tx_v(0.9, 0.9, 0.9));
    assert_eq!(solid_of(checker.pick(tx_s(f64::NAN))), tx_v(0.9, 0.9, 0.9));
}

#[test]
fn checker_of_textures_keeps_them() {
    let inner = CheckerTexture::new_from_color(tx_v(0.0, 0.0, 0.0), tx_v(1.0, 1.0, 1.0));
    let checker = CheckerTexture::new_from_texture(
        Texture::Checker(inner),
        Texture::Solid(SolidColor::new(tx_s(0.5), tx_s(0.5), tx_s(0.5))),
    );
    assert!(matches!(checker.pick(tx_s(-1.0)), Texture::Checker(_)));
    assert_eq!(solid_of(checker.pick(tx_s(1.0))), tx_v(0.5, 0.5, 0.5));
}

#[test]
fn image_needs_three_bytes_for_each_texel() {
    assert!(ImageTexture::new(vec![0; 18], 2, 3).is_some());
    assert!(ImageTexture::new(vec![0; 18], 3, 2).is_some());
    assert!(ImageTexture::new(vec![0; 17], 2, 3).is_none());
    assert!(ImageTexture::new(vec![0; 19], 2, 3).is_none());
    assert!(ImageTexture::new(vec![0; 24], 2, 3).is_none());
    assert!(ImageTexture::new(Vec::new(), 0, 0).is_none());
    assert!(ImageTexture::new(Vec::new(), 0, 5).is_none());
    assert!(ImageTexture::new(Vec::new(), 5, 0).is_none());
    assert!(ImageTexture::new(vec![0; 3], 1, 1).is_some());
    assert!(ImageTexture::new(vec![0; 3], u32::MAX, 1).is_none());
    assert!(ImageTexture::new(vec![0; 3], 1_431_655_766, 1).is_none());
}

#[test]
fn image_reports_its_size() {
    let image = image_2_by_3();
    assert_eq!(image.width(), 2);
    assert_eq!(image.height(), 3);
}

#[test]
fn texel_reads_three_bytes_row_by_row() {
    let image = image_2_by_3();
    assert_eq!(image.texel(0, 0), (0, 1, 2));
    assert_eq!(image.texel(1, 0), (3, 4, 5));
    assert_eq!(image.texel(0, 1), (6, 7, 8));
    assert_eq!(image.texel(1, 1), (9, 10, 11));
    assert_eq!(image.texel(0, 2), (12, 13, 14));
    assert_eq!(image.texel(1, 2), (15, 16, 17));
}

#[test]
fn texel_beyond_the_image_is_clamped_not_wrapped() {
    let image = image_2_by_3();
    assert_eq!(image.texel(2, 0), (3, 4, 5));
    assert_eq!(image.texel(7, 1), (9, 10, 11));
    assert_eq!(image.texel(0, 3), (12, 13, 14));
    assert_eq!(image.texel(1, 99), (15, 16, 17));
    assert_eq!(image.texel(u32::MAX, u32::MAX), (15, 16, 17));
}

#[test]
fn permutation_holds_each_number_once() {
    for count in [0, 1, 2, 7, 256] {
        let permutation = generate_permutation(count);
        assert_eq!(permutation.len(), count as usize);
        let mut sorted = permutation.clone();
        sorted.sort();
        assert_eq!(sorted, (0..count).collect::<Vec<i32>>());
    }
    assert!(generate_permutation(-3).is_empty());
}

#[test]
fn permutation_is_shuffled() {
    let identity: Vec<i32> = (0..256).collect();
    let first = generate_permutation(256);
    let second = generate_permutation(256);
    assert_ne!(first, identity);
    assert_ne!(first, second);
}

#[test]
fn lattice_needs_256_gradients() {
    assert!(Perlin::new(gradients()).is_some());
    assert!(Perlin::new(Vec::new()).is_none());
    assert!(Perlin::new(gradients()[..255].to_vec()).is_none());
    let mut long = gradients();
    long.push(tx_v(0.0, 0.0, 0.0));
    assert!(Perlin::new(long).is_none());
}

#[test]
fn lattice_gradient_repeats_every_256_steps() {
    let lattice = Perlin::new(gradients()).unwrap();
    let all = gradients();
    for i in -300..300 {
        let a = lattice.gradient_at(i, 2 * i, -i);
        assert!(all.contains(&a));
        assert_eq!(a, lattice.gradient_at(i + 256, 2 * i - 512, -i + 1024));
    }
    assert_eq!(lattice.gradient_at(i32::MAX, i32::MIN, 0), lattice.gradient_at(255, 0, 0));
    assert_eq!(lattice.gradient_at(-1, -1, -1), lattice.gradient_at(255, 255, 255));
}

#[test]
fn lattice_scrambles_each_axis_one_to_one() {
    let lattice = Perlin::new(gradients()).unwrap();
    for axis in 0..3 {
        let mut seen = vec![false; 256];
        for c in 0..256 {
            let here = match axis {
                0 => lattice.gradient_at(c, 0, 0),
                1 => lattice.gradient_at(0, c, 0),
                _ => lattice.gradient_at(0, 0, c),
            };
            let slot = f64::from_bits(here.x.to_bits()) as usize;
            assert!(!seen[slot]);
            seen[slot] = true;
        }
    }
}

#[test]
fn corners_are_the_gradients_of_the_eight_neighbours() {
    let lattice = Perlin::new(gradients()).unwrap();
    for (i, j, k) in [(0, 0, 0), (5, -7, 300), (255, 255, 255), (-1, -1, -1), (i32::MAX, i32::MAX, i32::MAX)] {
        let corners = lattice.corners(i, j, k);
        assert_eq!(corners.len(), 8);
        for di in 0..2 {
            for dj in 0..2 {
                for dk in 0..2 {
                    let want = lattice.gradient_at(i.wrapping_add(di), j.wrapping_add(dj), k.wrapping_add(dk));
                    assert_eq!(corners[(4 * di + 2 * dj + dk) as usize], want);
                }
            }
        }
    }
}

#[test]
fn noise_texture_keeps_its_scale() {
    let noise = NoiseTexture::new(tx_s(4.0), Perlin::new(gradients()).unwrap());
    assert_eq!(noise.scale, tx_s(4.0));
    assert!(gradients().contains(&noise.noise.gradient_at(1, 2, 3)));
}
