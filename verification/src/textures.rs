use vstd::prelude::*;
use std::collections::HashMap;
use image::ImageError;

verus! {

broadcast use vstd::std_specs::hash::group_hash_axioms;

/// An image of `width * height` pixels in row-major order, each `0xRRGGBB`.
pub struct Texture {
    pub width: usize,
    pub height: usize,
    pub pixels: Vec<u32>,
}

impl Texture {
    /// The pixels fill the image.
    pub open spec fn wf(&self) -> bool {
        self.pixels@.len() == self.width * self.height
    }

    /// The pixel at column `x`, row `y`, each clamped to the image.
    pub open spec fn spec_sample(&self, x: int, y: int) -> u32 {
        let col = if x < self.width - 1 {
            x
        } else {
            self.width - 1
        };
        let row = if y < self.height - 1 {
            y
        } else {
            self.height - 1
        };
        self.pixels@[row * self.width + col]
    }

    /// The pixel at column `tex_x`, row `tex_y`, each clamped to the last
    /// column or row of the image.
    pub fn sample(&self, tex_x: usize, tex_y: usize) -> (color: u32)
        requires
            self.wf(),
            self.width > 0,
            self.height > 0,
        ensures
            color == self.spec_sample(tex_x as int, tex_y as int),
    {
        let col = if tex_x < self.width - 1 {
            tex_x
        } else {
            self.width - 1
        };
        let row = if tex_y < self.height - 1 {
            tex_y
        } else {
            self.height - 1
        };
        let n = self.pixels.len();
        proof {
            crate::framebuffer::lemma_index_in_frame(
                col as int,
                row as int,
                self.width as int,
                self.height as int,
            );
            assert(row * self.width <= row * self.width + col < n);
        }
        self.pixels[row * self.width + col]
    }
}

/// The image crate's error type, carried through unopened.
#[verifier::external_type_specification]
#[verifier::external_body]
pub struct ExImageError(ImageError);

/// The width, height and row-major RGB bytes (three per pixel) of the PNG
/// image encoded in `bytes`, or nothing if `bytes` is no PNG image the
/// image crate can decode.
pub uninterp spec fn png_rgb8(bytes: Seq<u8>) -> Option<(u32, u32, Seq<u8>)>;

/// `image::load_from_memory_with_format(bytes, ImageFormat::Png)` followed
/// by `DynamicImage::to_rgb8`, `dimensions` and `into_raw`. The image crate
/// decodes with its default limits, which depend on nothing but the
/// bytes, so the result is named `png_rgb8`; `to_rgb8` converts into a
/// buffer that `ImageBuffer::new` allocates with exactly three bytes per
/// pixel. What the decoded bytes are is not stated, nor which error comes
/// back.
#[verifier::external_body]
fn decode_png_rgb8(bytes: &[u8]) -> (r: Result<(u32, u32, Vec<u8>), ImageError>)
    ensures
        match r {
            Ok((w, h, rgb)) => png_rgb8(bytes@) == Some((w, h, rgb@)) && rgb@.len() == 3 * w * h,
            Err(_) => png_rgb8(bytes@) is None,
        },
{
    let rgb = image::load_from_memory_with_format(bytes, image::ImageFormat::Png)?.to_rgb8();
    let (w, h) = rgb.dimensions();
    Ok((w, h, rgb.into_raw()))
}

/// The first `n` pixels of row-major RGB bytes, each packed as
/// `0xRRGGBB`.
pub open spec fn packed_rgb(rgb: Seq<u8>, n: nat) -> Seq<u32> {
    Seq::new(n, |i: int| (rgb[3 * i] * 65536 + rgb[3 * i + 1] * 256 + rgb[3 * i + 2]) as u32)
}

/// Packing three bytes into a colour.
proof fn lemma_pack(r: u8, g: u8, b: u8)
    ensures
        ((r as u32) << 16u32) | ((g as u32) << 8u32) | (b as u32) == (r * 65536 + g * 256 + b) as u32,
{
    assert(((r as u32) << 16u32) | ((g as u32) << 8u32) | (b as u32) == (r as u32) * 65536 + (g as u32) * 256 + (b as u32)) by (bit_vector);
}

/// The texture of `width * height` pixels whose RGB bytes, three per pixel
/// in row-major order, are `rgb`: each pixel becomes `0xRRGGBB`.
pub fn pack_rgb8(width: usize, height: usize, rgb: &[u8]) -> (t: Texture)
    requires
        rgb@.len() == 3 * width * height,
    ensures
        t.wf(),
        t.width == width,
        t.height == height,
        t.pixels@ == packed_rgb(rgb@, (width * height) as nat),
{
    let len = rgb.len();
    assert(3 * width * height == 3 * (width * height)) by (nonlinear_arith);
    let n = width * height;
    let mut pixels: Vec<u32> = Vec::new();
    for i in 0..n
        invariant
            n == width * height,
            rgb@.len() == 3 * n,
            len == rgb@.len(),
            pixels@ =~= packed_rgb(rgb@, i as nat),
    {
        let r = rgb[3 * i];
        let g = rgb[3 * i + 1];
        let b = rgb[3 * i + 2];
        proof {
            lemma_pack(r, g, b);
        }
        pixels.push(((r as u32) << 16) | ((g as u32) << 8) | b as u32);
    }
    Texture { width, height, pixels }
}

/// Why a texture could not be loaded.
#[derive(Debug)]
pub enum TextureError {
    /// The bytes are no PNG image that can be decoded.
    Decode(ImageError),
}

/// The texture encoded as a PNG image in `bytes`: its pixels packed as
/// `0xRRGGBB`, whatever colour type the file uses.
pub fn load_texture(bytes: &[u8]) -> (t: Result<Texture, TextureError>)
    ensures
        match png_rgb8(bytes@) {
            Some((w, h, rgb)) => t matches Ok(tex) && tex.wf() && tex.width == w && tex.height == h
                && tex.pixels@ == packed_rgb(rgb, (w * h) as nat),
            None => t is Err,
        },
{
    match decode_png_rgb8(bytes) {
        Ok((w, h, rgb)) => Ok(pack_rgb8(w as usize, h as usize, rgb.as_slice())),
        Err(e) => Err(TextureError::Decode(e)),
    }
}

/// The wall textures, by the maze character of the wall they cover.
pub struct TextureSet {
    textures: HashMap<u32, Texture>,
}

impl View for TextureSet {
    type V = Map<u32, Texture>;

    /// The texture of each wall character, keyed by its code point.
    closed spec fn view(&self) -> Map<u32, Texture> {
        self.textures@
    }
}

impl TextureSet {
    /// The set of the three wall textures: `+` walls are cyan, `-` walls
    /// purple and `|` walls blue.
    pub fn load(wall_cyan: Texture, wall_purple: Texture, wall_blue: Texture) -> (set: TextureSet)
        ensures
            set@ == Map::<u32, Texture>::empty().insert('+' as u32, wall_cyan).insert(
                '-' as u32,
                wall_purple,
            ).insert('|' as u32, wall_blue),
    {
        let mut textures: HashMap<u32, Texture> = HashMap::new();
        textures.insert('+' as u32, wall_cyan);
        textures.insert('-' as u32, wall_purple);
        textures.insert('|' as u32, wall_blue);
        TextureSet { textures }
    }

    /// The texture of walls drawn with `cell`, if there is one.
    pub fn get(&self, cell: char) -> (texture: Option<&Texture>)
        ensures
            texture == (if self@.contains_key(cell as u32) {
                Some(&self@[cell as u32])
            } else {
                None
            }),
    {
        self.textures.get(&(cell as u32))
    }
}

/// Sampling inside the image reads the pixel at that column and row.
pub proof fn lemma_sample_in_range(t: Texture, x: int, y: int)
    requires
        t.wf(),
        0 <= x < t.width,
        0 <= y < t.height,
    ensures
        t.spec_sample(x, y) == t.pixels@[y * t.width + x],
{
}

/// Sampling beyond the last column or row reads the last one: a
/// coordinate is clamped only past the edge of the image.
pub proof fn lemma_sample_clamps(t: Texture, x: int, y: int)
    requires
        t.wf(),
        t.width > 0,
        t.height > 0,
        0 <= x,
        0 <= y,
    ensures
        t.spec_sample(x, y) == t.pixels@[
            (if y < t.height { y } else { t.height - 1 }) * t.width
                + (if x < t.width { x } else { t.width - 1 })
        ],
{
}

} // verus!
