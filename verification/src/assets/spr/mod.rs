use vstd::prelude::*;

use crate::assets::pal::Color;

verus! {

/// Loader of sprite files (`.spr`).
#[derive(Debug, Clone, Copy, PartialEq, Eq, Structural)]
pub struct AssetLoader;

impl AssetLoader {
    /// File extensions this loader handles.
    pub fn extensions(&self) -> (r: &'static [&'static str])
        ensures
            r@.len() == 1,
            r@[0]@ == "spr"@,
    {
        let r: &'static [&'static str] = &["spr"];
        r
    }
}

/// The bytes of a true colour pixel.
pub open spec fn color_bytes(color: Color) -> Seq<u8> {
    seq![color.red, color.green, color.blue, color.alpha]
}

/// The bytes of a list of true colour pixels, pixel after pixel.
pub open spec fn true_color_bytes(pixels: Seq<Color>) -> Seq<u8>
    decreases pixels.len(),
{
    if pixels.len() == 0 {
        Seq::empty()
    } else {
        true_color_bytes(pixels.drop_last()) + color_bytes(pixels.last())
    }
}

/// Each true colour pixel takes four bytes in order: its red, green, blue
/// and alpha.
pub proof fn lemma_true_color_bytes(pixels: Seq<Color>)
    ensures
        true_color_bytes(pixels).len() == 4 * pixels.len(),
        forall|k: int|
            0 <= k < pixels.len() ==> {
                let data = true_color_bytes(pixels);
                let c = #[trigger] pixels[k];
                &&& data[4 * k] == c.red
                &&& data[4 * k + 1] == c.green
                &&& data[4 * k + 2] == c.blue
                &&& data[4 * k + 3] == c.alpha
            },
    decreases pixels.len(),
{
    if pixels.len() > 0 {
        let prev = pixels.drop_last();
        lemma_true_color_bytes(prev);
        let data = true_color_bytes(pixels);
        assert(data == true_color_bytes(prev) + color_bytes(pixels.last()));
        assert forall|k: int| 0 <= k < pixels.len() implies {
            let c = #[trigger] pixels[k];
            &&& data[4 * k] == c.red
            &&& data[4 * k + 1] == c.green
            &&& data[4 * k + 2] == c.blue
            &&& data[4 * k + 3] == c.alpha
        } by {
            if k < prev.len() {
                assert(pixels[k] == prev[k]);
            }
        }
    }
}

/// The texture bytes of a true colour sprite: red, green, blue and alpha of
/// each pixel, in order.
pub fn true_color_data(pixels: &Vec<Color>) -> (data: Vec<u8>)
    requires
        4 * pixels@.len() <= usize::MAX,
    ensures
        data@ == true_color_bytes(pixels@),
        data@.len() == 4 * pixels@.len(),
        forall|k: int|
            0 <= k < pixels@.len() ==> {
                let c = #[trigger] pixels@[k];
                &&& data@[4 * k] == c.red
                &&& data@[4 * k + 1] == c.green
                &&& data@[4 * k + 2] == c.blue
                &&& data@[4 * k + 3] == c.alpha
            },
{
    let mut data: Vec<u8> = Vec::new();
    let mut i: usize = 0;
    while i < pixels.len()
        invariant
            4 * pixels@.len() <= usize::MAX,
            i <= pixels@.len(),
            data@.len() == 4 * i,
            data@ == true_color_bytes(pixels@.take(i as int)),
        decreases pixels@.len() - i,
    {
        let pixel = pixels[i];
        let ghost before = data@;
        data.push(pixel.red);
        data.push(pixel.green);
        data.push(pixel.blue);
        data.push(pixel.alpha);
        proof {
            assert(pixels@.take(i + 1).drop_last() =~= pixels@.take(i as int));
            assert(pixels@.take(i + 1).last() == pixel);
            assert(data@ =~= before + color_bytes(pixel));
        }
        i = i + 1;
    }
    proof {
        assert(pixels@.take(pixels@.len() as int) =~= pixels@);
        lemma_true_color_bytes(pixels@);
    }
    data
}

} // verus!
