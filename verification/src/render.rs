//! The layout of a rendered image: rows from the top, and pixel by pixel
//! accumulation of passes.
use vstd::prelude::*;
use crate::vec3::Color;

verus! {

/// The vertical pixel index that the given row of the image shows. Row 0 is
/// the top of the image, which is the highest vertical index.
pub open spec fn scanline_spec(row: int, image_height: int) -> int {
    image_height - 1 - row
}

/// The vertical pixel index that a row of the image shows.
pub fn scanline_of(row: u32, image_height: u32) -> (y: u32)
    requires
        row < image_height,
    ensures
        y == scanline_spec(row as int, image_height as int),
        y < image_height,
{
    image_height - 1 - row
}

/// Whether `pixels` is one row of an image as `trace` gives it: a colour
/// that `trace` allows for each column of scanline `y`.
pub open spec fn is_row<F: Fn(u32, u32) -> Color>(
    pixels: Seq<Color>,
    y: u32,
    image_width: u32,
    trace: F,
) -> bool {
    &&& pixels.len() == image_width
    &&& forall|x: int|
        0 <= x < image_width ==> call_ensures(trace, (x as u32, y), #[trigger] pixels[x])
}

/// One row of the image: the colours that `trace` gives for the columns
/// `0..image_width` of scanline `y`, from left to right.
pub fn render_row<F: Fn(u32, u32) -> Color>(y: u32, image_width: u32, trace: &F) -> (pixels: Vec<
    Color,
>)
    requires
        forall|x: u32| x < image_width ==> call_requires(*trace, (x, y)),
    ensures
        is_row(pixels@, y, image_width, *trace),
{
    let mut pixels: Vec<Color> = Vec::new();
    let mut x: u32 = 0;
    while x < image_width
        invariant
            x <= image_width,
            pixels.len() == x,
            forall|k: u32| k < image_width ==> call_requires(*trace, (k, y)),
            forall|k: int| 0 <= k < x ==> call_ensures(*trace, (k as u32, y), #[trigger] pixels[k]),
        decreases image_width - x,
    {
        let color = trace(x, y);
        pixels.push(color);
        x += 1;
    }
    pixels
}

/// One pass over the whole image: `image_height` rows of `image_width`
/// colours, row 0 being the top of the image, so that row `r` shows the
/// scanline `image_height - 1 - r`.
pub fn render_loop<F: Fn(u32, u32) -> Color>(image_width: u32, image_height: u32, trace: &F) -> (rows:
    Vec<Vec<Color>>)
    requires
        forall|x: u32, y: u32| x < image_width && y < image_height ==> call_requires(*trace, (x, y)),
    ensures
        rows.len() == image_height,
        forall|r: int|
            0 <= r < image_height ==> is_row(
                (#[trigger] rows[r])@,
                scanline_spec(r, image_height as int) as u32,
                image_width,
                *trace,
            ),
{
    let mut rows: Vec<Vec<Color>> = Vec::new();
    let mut row: u32 = 0;
    while row < image_height
        invariant
            row <= image_height,
            rows.len() == row,
            forall|x: u32, y: u32|
                x < image_width && y < image_height ==> call_requires(*trace, (x, y)),
            forall|r: int|
                0 <= r < row ==> is_row(
                    (#[trigger] rows[r])@,
                    scanline_spec(r, image_height as int) as u32,
                    image_width,
                    *trace,
                ),
        decreases image_height - row,
    {
        let y = scanline_of(row, image_height);
        let pixels = render_row(y, image_width, trace);
        rows.push(pixels);
        row += 1;
    }
    rows
}

/// The smaller of two lengths.
pub open spec fn shorter(a: int, b: int) -> int {
    if a <= b {
        a
    } else {
        b
    }
}

/// Whether `sum` is the pixel by pixel sum of two rows as `combine` gives it,
/// over the columns that both rows have.
pub open spec fn is_row_sum<A: Fn(Color, Color) -> Color>(
    sum: Seq<Color>,
    current: Seq<Color>,
    new: Seq<Color>,
    combine: A,
) -> bool {
    &&& sum.len() == shorter(current.len() as int, new.len() as int)
    &&& forall|x: int|
        0 <= x < sum.len() ==> call_ensures(combine, (current[x], new[x]), #[trigger] sum[x])
}

/// Adds a new pass to the accumulated image, pixel by pixel, over the rows
/// and columns that both images have. `combine` adds two colours.
pub fn add_images<A: Fn(Color, Color) -> Color>(
    current_image: &Vec<Vec<Color>>,
    new_image: &Vec<Vec<Color>>,
    combine: &A,
) -> (sum: Vec<Vec<Color>>)
    requires
        forall|a: Color, b: Color| call_requires(*combine, (a, b)),
    ensures
        sum.len() == shorter(current_image.len() as int, new_image.len() as int),
        forall|r: int|
            0 <= r < sum.len() ==> is_row_sum(
                (#[trigger] sum[r])@,
                current_image[r]@,
                new_image[r]@,
                *combine,
            ),
{
    let rows = if current_image.len() <= new_image.len() {
        current_image.len()
    } else {
        new_image.len()
    };
    let mut sum: Vec<Vec<Color>> = Vec::new();
    let mut r: usize = 0;
    while r < rows
        invariant
            r <= rows,
            rows == shorter(current_image.len() as int, new_image.len() as int),
            sum.len() == r,
            forall|a: Color, b: Color| call_requires(*combine, (a, b)),
            forall|k: int|
                0 <= k < r ==> is_row_sum(
                    (#[trigger] sum[k])@,
                    current_image[k]@,
                    new_image[k]@,
                    *combine,
                ),
        decreases rows - r,
    {
        let current_row = &current_image[r];
        let new_row = &new_image[r];
        let columns = if current_row.len() <= new_row.len() {
            current_row.len()
        } else {
            new_row.len()
        };
        let mut row_sum: Vec<Color> = Vec::new();
        let mut x: usize = 0;
        while x < columns
            invariant
                x <= columns,
                columns == shorter(current_row.len() as int, new_row.len() as int),
                row_sum.len() == x,
                forall|a: Color, b: Color| call_requires(*combine, (a, b)),
                forall|k: int|
                    0 <= k < x ==> call_ensures(
                        *combine,
                        (current_row[k], new_row[k]),
                        #[trigger] row_sum[k],
                    ),
            decreases columns - x,
        {
            let pixel = combine(current_row[x], new_row[x]);
            row_sum.push(pixel);
            x += 1;
        }
        sum.push(row_sum);
        r += 1;
    }
    sum
}

} // verus!
