//! Textures: the solid colour, the checker's choice, the image's texels and
//! the lattice of the gradient noise.
use vstd::prelude::*;
use crate::random::{shuffle, thread_generator};
use crate::scalar::Scalar;
use crate::vec3::{Color, Point3, Vec3};

verus! {

/// A texture of one colour.
#[derive(Clone, Copy, Debug, PartialEq, Eq, Structural)]
pub struct SolidColor {
    pub color_value: Color,
}

impl SolidColor {
    /// The texture of the colour with the given channels.
    pub fn new(red: Scalar, green: Scalar, blue: Scalar) -> (r: SolidColor)
        ensures
            r.color_value == (Vec3 { x: red, y: green, z: blue }),
    {
        SolidColor { color_value: Vec3::new(red, green, blue) }
    }

    /// The colour, whatever the place.
    pub fn value(&self, _u: Scalar, _v: Scalar, _p: &Point3) -> (r: Color)
        ensures
            r == self.color_value,
    {
        self.color_value
    }
}

/// The number of bytes that one texel takes: red, green, blue.
pub const BYTES_PER_PIXEL: u32 = 3;

/// A decoded image: `height` rows of `width` texels of three bytes each, row
/// after row, and at least one texel.
#[derive(Debug)]
pub struct ImageTexture {
    data: Vec<u8>,
    width: u32,
    height: u32,
    bytes_per_scanline: u32,
}

impl ImageTexture {
    #[verifier::type_invariant]
    spec fn wf(self) -> bool {
        &&& self.width >= 1
        &&& self.height >= 1
        &&& self.bytes_per_scanline == 3 * self.width
        &&& self.data.len() == 3 * self.width * self.height
    }

    /// The bytes of the image.
    pub closed spec fn bytes(self) -> Seq<u8> {
        self.data@
    }

    /// The number of texels in a row.
    pub closed spec fn width_spec(self) -> u32 {
        self.width
    }

    /// The number of rows.
    pub closed spec fn height_spec(self) -> u32 {
        self.height
    }

    /// Whether `data` holds an image of the given size: the size is not
    /// zero, a row's bytes can be counted in 32 bits, and there are three
    /// bytes for each texel.
    pub open spec fn holds_image(data: Seq<u8>, width: u32, height: u32) -> bool {
        &&& width >= 1
        &&& height >= 1
        &&& 3 * width <= u32::MAX
        &&& data.len() == 3 * width * height
    }

    /// The column that is read for `i`: `i` itself, or the last column where
    /// `i` lies beyond it.
    pub open spec fn column_spec(self, i: u32) -> int {
        if i >= self.width_spec() {
            self.width_spec() - 1
        } else {
            i as int
        }
    }

    /// The row that is read for `j`: `j` itself, or the last row where `j`
    /// lies beyond it.
    pub open spec fn row_spec(self, j: u32) -> int {
        if j >= self.height_spec() {
            self.height_spec() - 1
        } else {
            j as int
        }
    }

    /// Where the texel of column `i` and row `j` starts among the bytes.
    pub open spec fn offset_spec(self, i: u32, j: u32) -> int {
        self.row_spec(j) * (3 * self.width_spec()) + self.column_spec(i) * 3
    }

    /// The image is never empty, and every texel lies inside its bytes.
    pub proof fn lemma_texel_in_bounds(self, i: u32, j: u32)
        requires
            ImageTexture::holds_image(self.bytes(), self.width_spec(), self.height_spec()),
        ensures
            0 <= self.offset_spec(i, j),
            self.offset_spec(i, j) + 3 <= self.bytes().len(),
    {
        let w = self.width_spec() as int;
        let h = self.height_spec() as int;
        let row = self.row_spec(j);
        let column = self.column_spec(i);
        assert(row * (3 * w) + column * 3 + 3 <= 3 * w * h) by (nonlinear_arith)
            requires
                0 <= row <= h - 1,
                0 <= column <= w - 1,
        ;
        assert(0 <= row * (3 * w) + column * 3) by (nonlinear_arith)
            requires
                0 <= row,
                0 <= column,
                0 <= w,
        ;
    }

    /// Takes a decoded image. `None` where `data` does not hold an image of
    /// the given size.
    pub fn new(data: Vec<u8>, width: u32, height: u32) -> (r: Option<ImageTexture>)
        ensures
            r is Some <==> ImageTexture::holds_image(data@, width, height),
            r matches Some(image) ==> image.bytes() == data@ && image.width_spec() == width
                && image.height_spec() == height,
    {
        if width == 0 || height == 0 || width > u32::MAX / 3 {
            return None;
        }
        let row: u64 = 3 * (width as u64);
        proof {
            assert(row * height <= 0xffff_ffff * 0xffff_ffff) by (nonlinear_arith)
                requires
                    0 <= row <= 0xffff_ffff,
                    0 <= height <= 0xffff_ffff,
            ;
            assert(3 * width * height == (3 * width) * height) by (nonlinear_arith);
        }
        let wanted: u64 = row * (height as u64);
        if data.len() as u64 != wanted {
            proof {
                assert(data.len() != 3 * width * height);
            }
            return None;
        }
        Some(ImageTexture { data, width, height, bytes_per_scanline: 3 * width })
    }

    /// The number of texels in a row.
    pub fn width(&self) -> (r: u32)
        ensures
            r == self.width_spec(),
            r >= 1,
    {
        proof {
            use_type_invariant(self);
        }
        self.width
    }

    /// The number of rows.
    pub fn height(&self) -> (r: u32)
        ensures
            r == self.height_spec(),
            r >= 1,
    {
        proof {
            use_type_invariant(self);
        }
        self.height
    }

    /// The three bytes of the texel in column `i` of row `j`. A coordinate
    /// beyond the image reads the last column or row: it is clamped, not
    /// wrapped.
    pub fn texel(&self, i: u32, j: u32) -> (r: (u8, u8, u8))
        ensures
            ImageTexture::holds_image(self.bytes(), self.width_spec(), self.height_spec()),
            r.0 == self.bytes()[self.offset_spec(i, j)],
            r.1 == self.bytes()[self.offset_spec(i, j) + 1],
            r.2 == self.bytes()[self.offset_spec(i, j) + 2],
    {
        proof {
            use_type_invariant(self);
            self.lemma_texel_in_bounds(i, j);
        }
        let i = if i >= self.width {
            self.width - 1
        } else {
            i
        };
        let j = if j >= self.height {
            self.height - 1
        } else {
            j
        };
        proof {
            assert(j * (3 * self.width) + i * 3 + 3 <= 3 * self.width * self.height)
                by (nonlinear_arith)
                requires
                    0 <= j <= self.height - 1,
                    0 <= i <= self.width - 1,
            ;
            assert(j * (3 * self.width) <= j * (3 * self.width) + i * 3);
            assert(0 <= j * (3 * self.width)) by (nonlinear_arith)
                requires
                    0 <= j,
                    0 <= self.width,
            ;
        }
        let pixel_index: usize = (j as usize) * (self.bytes_per_scanline as usize) + (i as usize)
            * 3;
        (self.data[pixel_index], self.data[pixel_index + 1], self.data[pixel_index + 2])
    }
}

/// The number of lattice points of the gradient noise.
pub const POINT_COUNT: usize = 256;

/// The numbers `0, 1, .., count - 1` in order.
pub open spec fn identity_spec(count: int) -> Seq<i32> {
    Seq::new(
        if count < 0 {
            0nat
        } else {
            count as nat
        },
        |k: int| k as i32,
    )
}

/// Whether a sequence is a rearrangement of the numbers below `count`.
pub open spec fn is_permutation(values: Seq<i32>, count: int) -> bool {
    values.to_multiset() == identity_spec(count).to_multiset()
}

/// A rearrangement of the numbers below `count` has `count` items, each of
/// them a number below `count`, and no item twice.
pub proof fn lemma_permutation_in_range(values: Seq<i32>, count: int)
    requires
        0 <= count <= i32::MAX,
        is_permutation(values, count),
    ensures
        values.len() == count,
        forall|k: int| 0 <= k < values.len() ==> 0 <= (#[trigger] values[k]) < count,
        values.no_duplicates(),
{
    let identity = identity_spec(count);
    vstd::seq_lib::to_multiset_len(values);
    vstd::seq_lib::to_multiset_len(identity);
    assert forall|k: int| 0 <= k < values.len() implies 0 <= (#[trigger] values[k]) < count by {
        assert(values.contains(values[k]));
        vstd::seq_lib::to_multiset_contains(values, values[k]);
        vstd::seq_lib::to_multiset_contains(identity, values[k]);
        let j = choose|j: int| 0 <= j < identity.len() && identity[j] == values[k];
    }
    assert(identity.no_duplicates());
    identity.lemma_multiset_has_no_duplicates();
    values.lemma_multiset_has_no_duplicates_conv();
}

/// The numbers below `point_count` in a random arrangement.
pub fn generate_permutation(point_count: i32) -> (permutation: Vec<i32>)
    ensures
        is_permutation(permutation@, point_count as int),
{
    let mut permutation: Vec<i32> = Vec::new();
    let mut next: i32 = 0;
    while next < point_count
        invariant
            0 <= next,
            point_count >= 0 ==> next <= point_count,
            point_count < 0 ==> next == 0,
            permutation@ == identity_spec(next as int),
        decreases point_count - next,
    {
        permutation.push(next);
        proof {
            assert(permutation@ =~= identity_spec(next + 1));
        }
        next += 1;
    }
    proof {
        assert(identity_spec(next as int) =~= identity_spec(point_count as int));
    }
    let mut rng = thread_generator();
    shuffle(&mut permutation, &mut rng);
    permutation
}

/// The lattice of the gradient noise: a gradient for each of the 256
/// lattice points, and for each axis a rearrangement of the numbers below
/// 256 by which a lattice coordinate is scrambled.
#[derive(Debug)]
pub struct Perlin {
    random_vector: Vec<Vec3>,
    perm_x: Vec<i32>,
    perm_y: Vec<i32>,
    perm_z: Vec<i32>,
}

/// A lattice coordinate, moved by `step`, taken modulo 256.
pub open spec fn wrapped(coordinate: i32, step: i32) -> int {
    (coordinate + step) % 256
}

impl Perlin {
    #[verifier::type_invariant]
    spec fn wf(self) -> bool {
        &&& self.random_vector.len() == POINT_COUNT
        &&& is_permutation(self.perm_x@, POINT_COUNT as int)
        &&& is_permutation(self.perm_y@, POINT_COUNT as int)
        &&& is_permutation(self.perm_z@, POINT_COUNT as int)
    }

    /// The gradients, one for each lattice point.
    pub closed spec fn gradients(self) -> Seq<Vec3> {
        self.random_vector@
    }

    /// The rearrangement that scrambles the given axis (0, 1 or 2).
    pub closed spec fn scramble(self, axis: int) -> Seq<i32> {
        if axis == 0 {
            self.perm_x@
        } else if axis == 1 {
            self.perm_y@
        } else {
            self.perm_z@
        }
    }

    /// What the type guarantees: 256 gradients and three rearrangements of
    /// the numbers below 256.
    pub open spec fn well_formed(self) -> bool {
        &&& self.gradients().len() == POINT_COUNT
        &&& is_permutation(self.scramble(0), POINT_COUNT as int)
        &&& is_permutation(self.scramble(1), POINT_COUNT as int)
        &&& is_permutation(self.scramble(2), POINT_COUNT as int)
    }

    /// The lattice point that stands for the integer position `(i, j, k)`:
    /// each coordinate is taken modulo 256 and scrambled, and the three
    /// results are combined by exclusive or.
    pub open spec fn slot_spec(self, i: i32, j: i32, k: i32) -> int {
        (self.scramble(0)[wrapped(i, 0)] ^ self.scramble(1)[wrapped(j, 0)] ^ self.scramble(2)[wrapped(
            k,
            0,
        )]) as int
    }

    /// The gradients at the eight corners of the lattice cell whose lowest
    /// corner is `(i, j, k)`; the corner `(i + di, j + dj, k + dk)` stands
    /// at place `4 * di + 2 * dj + dk`.
    pub open spec fn corners_spec(self, i: i32, j: i32, k: i32) -> Seq<Vec3> {
        Seq::new(
            8,
            |n: int|
                self.gradients()[(self.scramble(0)[wrapped(i, (n / 4) as i32)] ^ self.scramble(
                    1,
                )[wrapped(j, ((n / 2) % 2) as i32)] ^ self.scramble(2)[wrapped(k, (n % 2) as i32)])
                    as int],
        )
    }

    /// Makes a lattice from 256 gradients, scrambled by three fresh random
    /// rearrangements. `None` where the gradients are not 256.
    pub fn new(random_vector: Vec<Vec3>) -> (r: Option<Perlin>)
        ensures
            r is Some <==> random_vector.len() == POINT_COUNT,
            r matches Some(lattice) ==> lattice.gradients() == random_vector@
                && lattice.well_formed(),
    {
        if random_vector.len() != POINT_COUNT {
            return None;
        }
        let perm_x = generate_permutation(POINT_COUNT as i32);
        let perm_y = generate_permutation(POINT_COUNT as i32);
        let perm_z = generate_permutation(POINT_COUNT as i32);
        Some(Perlin { random_vector, perm_x, perm_y, perm_z })
    }

    /// One scrambled coordinate: `permutation[(coordinate + step) mod 256]`.
    fn scrambled(permutation: &Vec<i32>, coordinate: i32, step: i32) -> (r: i32)
        requires
            is_permutation(permutation@, POINT_COUNT as int),
            0 <= step <= 1,
        ensures
            r == permutation[wrapped(coordinate, step)],
            0 <= r < 256,
    {
        proof {
            lemma_permutation_in_range(permutation@, POINT_COUNT as int);
        }
        let shifted: i64 = coordinate as i64 + step as i64 + 0x1_0000_0000;
        let place: usize = (shifted % 256) as usize;
        permutation[place]
    }

    /// The gradient at one corner of a lattice cell.
    fn corner(&self, i: i32, j: i32, k: i32, di: i32, dj: i32, dk: i32) -> (r: Vec3)
        requires
            0 <= di <= 1,
            0 <= dj <= 1,
            0 <= dk <= 1,
        ensures
            self.well_formed(),
            0 <= (self.scramble(0)[wrapped(i, di)] ^ self.scramble(1)[wrapped(j, dj)]
                ^ self.scramble(2)[wrapped(k, dk)]) < 256,
            r == self.gradients()[(self.scramble(0)[wrapped(i, di)] ^ self.scramble(1)[wrapped(
                j,
                dj,
            )] ^ self.scramble(2)[wrapped(k, dk)]) as int],
    {
        proof {
            use_type_invariant(self);
        }
        let a = Perlin::scrambled(&self.perm_x, i, di);
        let b = Perlin::scrambled(&self.perm_y, j, dj);
        let c = Perlin::scrambled(&self.perm_z, k, dk);
        proof {
            assert(0 <= (a ^ b ^ c) < 256) by (bit_vector)
                requires
                    0 <= a < 256,
                    0 <= b < 256,
                    0 <= c < 256,
            ;
        }
        self.random_vector[(a ^ b ^ c) as usize]
    }

    /// The gradient of the lattice point that stands for `(i, j, k)`.
    pub fn gradient_at(&self, i: i32, j: i32, k: i32) -> (r: Vec3)
        ensures
            self.well_formed(),
            0 <= self.slot_spec(i, j, k) < POINT_COUNT,
            r == self.gradients()[self.slot_spec(i, j, k)],
    {
        self.corner(i, j, k, 0, 0, 0)
    }

    /// The gradients at the eight corners of the lattice cell whose lowest
    /// corner is `(i, j, k)`.
    pub fn corners(&self, i: i32, j: i32, k: i32) -> (r: Vec<Vec3>)
        ensures
            r@ == self.corners_spec(i, j, k),
    {
        let mut found: Vec<Vec3> = Vec::new();
        let mut n: i32 = 0;
        while n < 8
            invariant
                0 <= n <= 8,
                found.len() == n,
                forall|m: int| 0 <= m < n ==> found[m] == self.corners_spec(i, j, k)[m],
            decreases 8 - n,
        {
            let di: i32 = n / 4;
            let dj: i32 = (n / 2) % 2;
            let dk: i32 = n % 2;
            let gradient = self.corner(i, j, k, di, dj, dk);
            found.push(gradient);
            n += 1;
        }
        proof {
            assert(found@ =~= self.corners_spec(i, j, k));
        }
        found
    }
}

/// One of the textures that the engine knows.
#[derive(Debug)]
pub enum Texture {
    Solid(SolidColor),
    Checker(CheckerTexture),
    Noise(NoiseTexture),
    Image(ImageTexture),
}

/// A checkerboard of two textures.
#[derive(Debug)]
pub struct CheckerTexture {
    pub odd: Box<Texture>,
    pub even: Box<Texture>,
}

impl CheckerTexture {
    /// The checkerboard of two textures.
    pub fn new_from_texture(odd: Texture, even: Texture) -> (r: CheckerTexture)
        ensures
            *r.odd == odd,
            *r.even == even,
    {
        CheckerTexture { odd: Box::new(odd), even: Box::new(even) }
    }

    /// The checkerboard of two colours.
    pub fn new_from_color(odd_color: Color, even_color: Color) -> (r: CheckerTexture)
        ensures
            *r.odd == Texture::Solid(SolidColor { color_value: odd_color }),
            *r.even == Texture::Solid(SolidColor { color_value: even_color }),
    {
        CheckerTexture {
            odd: Box::new(Texture::Solid(SolidColor::new(odd_color.x, odd_color.y, odd_color.z))),
            even: Box::new(
                Texture::Solid(SolidColor::new(even_color.x, even_color.y, even_color.z)),
            ),
        }
    }

    /// The texture that colours a place: the odd one where `sines`, the
    /// product of the sines of the scaled coordinates, is negative, and the
    /// even one elsewhere.
    pub fn pick(&self, sines: Scalar) -> (r: &Texture)
        ensures
            *r == (if sines.lt_spec(Scalar::zero_spec()) {
                *self.odd
            } else {
                *self.even
            }),
    {
        if sines.lt(Scalar::zero()) {
            &*self.odd
        } else {
            &*self.even
        }
    }
}

/// Whether `oracle` tells what the function value answers for the product of
/// the sines of the scaled coordinates of a point.
pub open spec fn sines_follow<S: Fn(Vec3) -> Scalar>(sines: S, oracle: spec_fn(Vec3) -> Scalar) -> bool {
    forall|p: Vec3, r: Scalar| #[trigger] call_ensures(sines, (p,), r) ==> r == oracle(p)
}

/// Whether `oracle` tells what the function value answers for the colour of
/// a noise or an image texture at a place.
pub open spec fn sample_follows<T: Fn(&Texture, Scalar, Scalar, Vec3) -> Color>(
    sample: T,
    oracle: spec_fn(Texture, Scalar, Scalar, Vec3) -> Color,
) -> bool {
    forall|texture: &Texture, u: Scalar, v: Scalar, p: Vec3, r: Color| #[trigger]
        call_ensures(sample, (texture, u, v, p), r) ==> r == oracle(*texture, u, v, p)
}

impl Texture {
    /// The colour of the texture at the surface coordinates `(u, v)` and the
    /// point `p`: a solid colour is itself; a checkerboard has the colour
    /// of its odd texture where the sines are negative and of its even
    /// texture elsewhere; noise and images are sampled.
    pub open spec fn value_spec(
        self,
        u: Scalar,
        v: Scalar,
        p: Vec3,
        sines: spec_fn(Vec3) -> Scalar,
        sample: spec_fn(Texture, Scalar, Scalar, Vec3) -> Color,
    ) -> Color
        decreases self,
    {
        match self {
            Texture::Solid(solid) => solid.color_value,
            Texture::Checker(checker) => if sines(p).lt_spec(Scalar::zero_spec()) {
                checker.odd.value_spec(u, v, p, sines, sample)
            } else {
                checker.even.value_spec(u, v, p, sines, sample)
            },
            _ => sample(self, u, v, p),
        }
    }

    /// The colour of the texture at a place. `sines` gives the product of
    /// the sines of the scaled coordinates of a point, by which a
    /// checkerboard chooses, and `sample` gives the colour of a noise or an
    /// image texture. For all oracles that tell what the two answer, the
    /// result is [`Texture::value_spec`] of those oracles.
    pub fn value<S: Fn(Vec3) -> Scalar, T: Fn(&Texture, Scalar, Scalar, Vec3) -> Color>(
        &self,
        u: Scalar,
        v: Scalar,
        p: &Point3,
        sines: &S,
        sample: &T,
    ) -> (color: Color)
        requires
            forall|q: Vec3| call_requires(*sines, (q,)),
            forall|texture: &Texture, a: Scalar, b: Scalar, q: Vec3|
                call_requires(*sample, (texture, a, b, q)),
        ensures
            forall|
                product: spec_fn(Vec3) -> Scalar,
                sampled: spec_fn(Texture, Scalar, Scalar, Vec3) -> Color,
            |
                sines_follow(*sines, product) && sample_follows(*sample, sampled) ==> color
                    == #[trigger] self.value_spec(u, v, *p, product, sampled),
        decreases self,
    {
        match self {
            Texture::Solid(solid) => solid.value(u, v, p),
            Texture::Checker(checker) => {
                let chosen = sines(*p);
                let color = checker.pick(chosen).value(u, v, p, sines, sample);
                proof {
                    assert forall|
                        product: spec_fn(Vec3) -> Scalar,
                        sampled: spec_fn(Texture, Scalar, Scalar, Vec3) -> Color,
                    |
                        sines_follow(*sines, product) && sample_follows(
                            *sample,
                            sampled,
                        ) implies color == #[trigger] self.value_spec(
                        u,
                        v,
                        *p,
                        product,
                        sampled,
                    ) by {
                        assert(chosen == product(*p));
                        if chosen.lt_spec(Scalar::zero_spec()) {
                            assert(color == checker.odd.value_spec(u, v, *p, product, sampled));
                        } else {
                            assert(color == checker.even.value_spec(u, v, *p, product, sampled));
                        }
                    }
                }
                color
            },
            _ => {
                let color = sample(self, u, v, *p);
                proof {
                    assert forall|
                        product: spec_fn(Vec3) -> Scalar,
                        sampled: spec_fn(Texture, Scalar, Scalar, Vec3) -> Color,
                    |
                        sines_follow(*sines, product) && sample_follows(
                            *sample,
                            sampled,
                        ) implies color == #[trigger] self.value_spec(
                        u,
                        v,
                        *p,
                        product,
                        sampled,
                    ) by {
                        assert(color == sampled(*self, u, v, *p));
                    }
                }
                color
            },
        }
    }
}

/// Marble-like noise: a lattice and the frequency of the veins.
#[derive(Debug)]
pub struct NoiseTexture {
    pub noise: Perlin,
    pub scale: Scalar,
}

impl NoiseTexture {
    /// The noise of a lattice, with veins of the given frequency.
    pub fn new(scale: Scalar, noise: Perlin) -> (r: NoiseTexture)
        ensures
            r.noise == noise,
            r.scale == scale,
    {
        NoiseTexture { noise, scale }
    }
}

} // verus!
