use vstd::prelude::*;

verus! {

/// Loader of palette files (`.pal`).
#[derive(Debug, Clone, Copy, PartialEq, Eq, Structural)]
pub struct AssetLoader;

impl AssetLoader {
    /// File extensions this loader handles.
    pub fn extensions(&self) -> (r: &'static [&'static str])
        ensures
            r@.len() == 1,
            r@[0]@ == "pal"@,
    {
        let r: &'static [&'static str] = &["pal"];
        r
    }
}

/// An 8-bit RGBA colour, as palettes and true colour sprites store it.
#[derive(Debug, Clone, Copy, PartialEq, Eq, Structural)]
pub struct Color {
    pub red: u8,
    pub green: u8,
    pub blue: u8,
    pub alpha: u8,
}

/// Pixels of an image, four bytes (red, green, blue, alpha) per pixel, row
/// after row.
#[derive(Debug, Clone, PartialEq, Eq)]
pub struct ImageData {
    pub width: u32,
    pub height: u32,
    pub data: Vec<u8>,
}

/// The bytes of a palette entry: colours with some opacity, and the
/// transparency colour itself (same red, green and blue as the first entry),
/// keep their alpha; every other colour becomes opaque.
pub open spec fn palette_pixel(color: Color, transparency: Color) -> Seq<u8> {
    if color.alpha > 0 || (color.red == transparency.red && color.green == transparency.green
        && color.blue == transparency.blue) {
        seq![color.red, color.green, color.blue, color.alpha]
    } else {
        seq![color.red, color.green, color.blue, 255u8]
    }
}

/// The bytes of all the entries of a palette whose transparency colour is
/// `transparency`, entry after entry.
pub open spec fn palette_data(colors: Seq<Color>, transparency: Color) -> Seq<u8>
    decreases colors.len(),
{
    if colors.len() == 0 {
        Seq::empty()
    } else {
        palette_data(colors.drop_last(), transparency) + palette_pixel(colors.last(), transparency)
    }
}

/// Each palette entry takes four bytes in order: its red, green and blue,
/// then its alpha if it is not zero or if the entry has the red, green and
/// blue of the transparency colour, and 255 otherwise.
pub proof fn lemma_palette_data_bytes(colors: Seq<Color>, transparency: Color)
    ensures
        palette_data(colors, transparency).len() == 4 * colors.len(),
        forall|k: int|
            0 <= k < colors.len() ==> {
                let data = palette_data(colors, transparency);
                let c = #[trigger] colors[k];
                &&& data[4 * k] == c.red
                &&& data[4 * k + 1] == c.green
                &&& data[4 * k + 2] == c.blue
                &&& data[4 * k + 3] == (if c.alpha > 0 || (c.red == transparency.red && c.green
                    == transparency.green && c.blue == transparency.blue) {
                    c.alpha
                } else {
                    255u8
                })
            },
    decreases colors.len(),
{
    if colors.len() > 0 {
        let prev = colors.drop_last();
        lemma_palette_data_bytes(prev, transparency);
        let data = palette_data(colors, transparency);
        let pd = palette_data(prev, transparency);
        assert(data == pd + palette_pixel(colors.last(), transparency));
        assert forall|k: int| 0 <= k < colors.len() implies {
            let c = #[trigger] colors[k];
            &&& data[4 * k] == c.red
            &&& data[4 * k + 1] == c.green
            &&& data[4 * k + 2] == c.blue
            &&& data[4 * k + 3] == (if c.alpha > 0 || (c.red == transparency.red && c.green
                == transparency.green && c.blue == transparency.blue) {
                c.alpha
            } else {
                255u8
            })
        } by {
            if k < prev.len() {
                assert(colors[k] == prev[k]);
            }
        }
    }
}

/// The one-row image of a palette: 256 pixels wide, one pixel per entry,
/// the first entry giving the transparency colour.
pub fn palette_to_image(colors: &Vec<Color>) -> (image: ImageData)
    requires
        colors@.len() > 0,
        4 * colors@.len() <= usize::MAX,
    ensures
        image.width == 256,
        image.height == 1,
        image.data@ == palette_data(colors@, colors@[0]),
        image.data@.len() == 4 * colors@.len(),
        forall|k: int|
            0 <= k < colors@.len() ==> {
                let c = #[trigger] colors@[k];
                let t = colors@[0];
                &&& image.data@[4 * k] == c.red
                &&& image.data@[4 * k + 1] == c.green
                &&& image.data@[4 * k + 2] == c.blue
                &&& image.data@[4 * k + 3] == (if c.alpha > 0 || (c.red == t.red && c.green
                    == t.green && c.blue == t.blue) {
                    c.alpha
                } else {
                    255u8
                })
            },
{
    let transparency_color = colors[0];
    let mut data: Vec<u8> = Vec::new();
    let mut i: usize = 0;
    while i < colors.len()
        invariant
            colors@.len() > 0,
            4 * colors@.len() <= usize::MAX,
            transparency_color == colors@[0],
            i <= colors@.len(),
            data@.len() == 4 * i,
            data@ == palette_data(colors@.take(i as int), transparency_color),
        decreases colors@.len() - i,
    {
        let color = colors[i];
        let alpha = if color.alpha > 0 || (color.red == transparency_color.red && color.green
            == transparency_color.green && color.blue == transparency_color.blue) {
            color.alpha
        } else {
            255u8
        };
        let ghost before = data@;
        data.push(color.red);
        data.push(color.green);
        data.push(color.blue);
        data.push(alpha);
        proof {
            assert(colors@.take(i + 1).drop_last() =~= colors@.take(i as int));
            assert(colors@.take(i + 1).last() == color);
            assert(data@ =~= before + palette_pixel(color, transparency_color));
        }
        i = i + 1;
    }
    proof {
        assert(colors@.take(colors@.len() as int) =~= colors@);
        lemma_palette_data_bytes(colors@, transparency_color);
    }
    ImageData { width: 256, height: 1, data }
}

} // verus!
