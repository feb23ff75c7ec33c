use vstd::prelude::*;

verus! {

/// Fills an RGBA canvas from the per-pixel predicted classes: pixel `i`
/// takes the three palette channels of its class and an opaque alpha.
///
/// The palettes hold one byte per class; the host computes them once from
/// the class count. The grid labels come row-major from `predict_labels`,
/// so byte `4 * i + ch` of the result colours pixel `i` of the grid.
pub fn fill_canvas(
    grid_labels: &Vec<usize>,
    red: &Vec<u8>,
    green: &Vec<u8>,
    blue: &Vec<u8>,
) -> (canvas: Vec<u8>)
    requires
        green@.len() == red@.len(),
        blue@.len() == red@.len(),
        forall|i: int| 0 <= i < grid_labels@.len() ==> #[trigger] grid_labels@[i] < red@.len(),
        grid_labels@.len() * 4 <= usize::MAX,
    ensures
        canvas@.len() == grid_labels@.len() * 4,
        forall|i: int| 0 <= i < grid_labels@.len() ==> {
            &&& canvas@[4 * i] == red@[#[trigger] grid_labels@[i] as int]
            &&& canvas@[4 * i + 1] == green@[grid_labels@[i] as int]
            &&& canvas@[4 * i + 2] == blue@[grid_labels@[i] as int]
            &&& canvas@[4 * i + 3] == 0xFF
        },
{
    let num_pixels = grid_labels.len();
    let mut canvas: Vec<u8> = Vec::new();
    let mut i: usize = 0;
    while i < num_pixels
        invariant
            i <= num_pixels,
            num_pixels == grid_labels@.len(),
            green@.len() == red@.len(),
            blue@.len() == red@.len(),
            forall|k: int| 0 <= k < grid_labels@.len() ==> #[trigger] grid_labels@[k] < red@.len(),
            canvas@.len() == 4 * i,
            forall|k: int| 0 <= k < i as int ==> {
                &&& canvas@[4 * k] == red@[#[trigger] grid_labels@[k] as int]
                &&& canvas@[4 * k + 1] == green@[grid_labels@[k] as int]
                &&& canvas@[4 * k + 2] == blue@[grid_labels@[k] as int]
                &&& canvas@[4 * k + 3] == 0xFF
            },
        decreases num_pixels - i,
    {
        let class = grid_labels[i];
        canvas.push(red[class]);
        canvas.push(green[class]);
        canvas.push(blue[class]);
        canvas.push(0xFF);
        i = i + 1;
    }
    canvas
}

/// Screen position of one scaled data point: the point is shifted so that
/// the data origin sits at the canvas centre, and kept only when the pixel
/// lies inside the `width` by `height` canvas.
///
/// The host scales the floating-point coordinates to whole pixels before the
/// call; the visibility decision and the centring are exact integer work and
/// are pinned here.
pub fn to_canvas(x_scaled: i64, y_scaled: i64, width: u32, height: u32) -> (r: Option<(u32, u32)>)
    requires
        x_scaled + width as int / 2 <= i64::MAX as int,
        y_scaled + height as int / 2 <= i64::MAX as int,
    ensures
        r is Some <==> {
            &&& 0 <= x_scaled + width as int / 2 < width as int
            &&& 0 <= y_scaled + height as int / 2 < height as int
        },
        r matches Some(p) ==> {
            &&& p.0 == x_scaled + width as int / 2
            &&& p.1 == y_scaled + height as int / 2
        },
{
    let x = x_scaled + (width / 2) as i64;
    let y = y_scaled + (height / 2) as i64;
    if x >= width as i64 || x < 0 || y >= height as i64 || y < 0 {
        None
    } else {
        Some((x as u32, y as u32))
    }
}

} // verus!
