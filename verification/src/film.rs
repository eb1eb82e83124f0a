//! The film's integer logic: the pixel filter choice, how the image is cut
//! into render buckets, which pixels a bucket's samples reach, how pixels
//! are addressed inside a bucket and inside the whole image, and the order
//! in which buckets are handed to render threads.
use vstd::prelude::*;
use vstd::arithmetic::div_mod::*;
use vstd::arithmetic::mul::*;

use crate::geometry::{Bounds, Point2u, Vector2u};

verus! {

/// How samples are weighted into the pixels around them.
#[derive(Debug, Clone, Copy, PartialEq, Eq, Structural)]
pub enum FilterMethod {
    /// Each sample only counts for the pixel it falls in, with weight one.
    Unfiltered,
    Gaussian,
    Mitchell,
}

/// The filter that a settings string names; every other string means no filter.
pub open spec fn filter_method_named(s: Seq<char>) -> FilterMethod {
    if s == "gaussian"@ {
        FilterMethod::Gaussian
    } else if s == "mitchell"@ {
        FilterMethod::Mitchell
    } else {
        FilterMethod::Unfiltered
    }
}

impl FilterMethod {
    /// Reads a filter name from the render settings. Unknown names select
    /// no filtering, so a method is always returned.
    pub fn from_str(s: &str) -> (m: Option<FilterMethod>)
        ensures
            m == Some(filter_method_named(s@)),
    {
        let name = s.to_owned();
        if name == "gaussian".to_owned() {
            Some(FilterMethod::Gaussian)
        } else if name == "mitchell".to_owned() {
            Some(FilterMethod::Mitchell)
        } else {
            Some(FilterMethod::Unfiltered)
        }
    }
}

pub open spec fn min_int(a: int, b: int) -> int {
    if a < b {
        a
    } else {
        b
    }
}

/// `a - b`, or zero where that would be negative.
pub open spec fn sat_sub(a: int, b: int) -> int {
    if a >= b {
        a - b
    } else {
        0
    }
}

/// `a + b`, or `u32::MAX` where that would not fit.
pub open spec fn sat_add_u32(a: int, b: int) -> int {
    if a + b > u32::MAX {
        u32::MAX as int
    } else {
        a + b
    }
}

/// The pixels whose value a bucket's samples can change: the sample
/// bounds grown by `margin` pixels on every side (never below zero) and
/// cut off at the image border. `margin` is the filter reach in whole
/// pixels, `ceil(0.5 + filter_radius)`.
pub open spec fn spec_pixel_bounds(sample: Bounds, margin: int, image_size: Vector2u) -> Bounds {
    Bounds {
        p_min: Point2u {
            x: sat_sub(sample.p_min.x as int, margin) as u32,
            y: sat_sub(sample.p_min.y as int, margin) as u32,
        },
        p_max: Point2u {
            x: min_int(sat_add_u32(sample.p_max.x as int, margin), image_size.x as int) as u32,
            y: min_int(sat_add_u32(sample.p_max.y as int, margin), image_size.y as int) as u32,
        },
    }
}

/// Computes the bounds of the pixels a bucket writes to.
pub fn bucket_pixel_bounds(sample: &Bounds, margin: u32, image_size: Vector2u) -> (r: Bounds)
    ensures
        r == spec_pixel_bounds(*sample, margin as int, image_size),
{
    let x_end = sample.p_max.x.saturating_add(margin);
    let y_end = sample.p_max.y.saturating_add(margin);
    Bounds {
        p_min: Point2u {
            x: sample.p_min.x.saturating_sub(margin),
            y: sample.p_min.y.saturating_sub(margin),
        },
        p_max: Point2u {
            x: if x_end < image_size.x { x_end } else { image_size.x },
            y: if y_end < image_size.y { y_end } else { image_size.y },
        },
    }
}

/// A bucket's pixels are reachable by its samples: the pixel bounds hold
/// every pixel of the sample bounds and stay inside the image.
pub proof fn lemma_pixel_bounds_cover_samples(sample: Bounds, margin: int, image_size: Vector2u)
    requires
        sample.wf(),
        0 <= margin <= u32::MAX,
        sample.p_max.x <= image_size.x,
        sample.p_max.y <= image_size.y,
    ensures
        spec_pixel_bounds(sample, margin, image_size).wf(),
        spec_pixel_bounds(sample, margin, image_size).p_max.x <= image_size.x,
        spec_pixel_bounds(sample, margin, image_size).p_max.y <= image_size.y,
        forall|x: int, y: int|
            sample.contains(x, y) ==> #[trigger] spec_pixel_bounds(
                sample,
                margin,
                image_size,
            ).contains(x, y),
{
}

/// Position of pixel `(x, y)` in a bucket's pixel list (row-major over the bounds).
pub open spec fn spec_bucket_pixel_index(bounds: Bounds, x: int, y: int) -> int {
    (x - bounds.p_min.x) + bounds.width() * (y - bounds.p_min.y)
}

/// The pixel stored at position `index` of a bucket's pixel list.
pub open spec fn spec_bucket_pixel_x(bounds: Bounds, index: int) -> int {
    bounds.p_min.x + index % bounds.width()
}

pub open spec fn spec_bucket_pixel_y(bounds: Bounds, index: int) -> int {
    bounds.p_min.y + index / bounds.width()
}

proof fn lemma_row_major_bound(col: int, row: int, width: int, height: int)
    requires
        0 <= col < width,
        0 <= row < height,
    ensures
        0 <= col + width * row < width * height,
{
    assert(0 <= col + width * row < width * height) by (nonlinear_arith)
        requires
            0 <= col < width,
            0 <= row < height,
    ;
}

/// Position in the bucket's pixel list of the pixel that a sample lands on.
pub fn bucket_pixel_index(bounds: &Bounds, x: u32, y: u32) -> (i: usize)
    requires
        bounds.wf(),
        bounds.spec_area() <= u32::MAX,
        bounds.contains(x as int, y as int),
    ensures
        i == spec_bucket_pixel_index(*bounds, x as int, y as int),
        i < bounds.spec_area(),
{
    let v = bounds.vector();
    let bucket_x = x - bounds.p_min.x;
    let bucket_y = y - bounds.p_min.y;
    proof {
        lemma_row_major_bound(bucket_x as int, bucket_y as int, v.x as int, v.y as int);
    }
    (bucket_x + v.x * bucket_y) as usize
}

/// The pixel stored at position `index` of the bucket's pixel list.
pub fn bucket_pixel_coords(bounds: &Bounds, index: usize) -> (p: Point2u)
    requires
        bounds.wf(),
        bounds.spec_area() <= u32::MAX,
        index < bounds.spec_area(),
    ensures
        p.x == spec_bucket_pixel_x(*bounds, index as int),
        p.y == spec_bucket_pixel_y(*bounds, index as int),
        bounds.contains(p.x as int, p.y as int),
{
    let v = bounds.vector();
    proof {
        lemma_coords_in_bounds(*bounds, index as int);
    }
    let i = index as u32;
    Point2u { x: i % v.x + bounds.p_min.x, y: i / v.x + bounds.p_min.y }
}

proof fn lemma_coords_in_bounds(bounds: Bounds, index: int)
    requires
        bounds.wf(),
        0 <= index < bounds.spec_area(),
    ensures
        bounds.width() > 0,
        0 <= index % bounds.width() < bounds.width(),
        0 <= index / bounds.width() < bounds.height(),
        bounds.contains(spec_bucket_pixel_x(bounds, index), spec_bucket_pixel_y(bounds, index)),
{
    let w = bounds.width();
    let h = bounds.height();
    if w == 0 {
        assert(w * h == 0) by (nonlinear_arith)
            requires
                w == 0,
        ;
    }
    lemma_fundamental_div_mod(index, w);
    lemma_div_pos_is_pos(index, w);
    assert(index / w < h) by (nonlinear_arith)
        requires
            index == w * (index / w) + index % w,
            0 <= index % w,
            index < w * h,
            w > 0,
    ;
}

/// Addressing a bucket's pixel list is a bijection between the pixels of
/// the bounds and the positions `0 .. area`: a pixel's position leads back
/// to the pixel.
pub proof fn lemma_bucket_pixel_index_roundtrip(bounds: Bounds, x: int, y: int)
    requires
        bounds.wf(),
        bounds.contains(x, y),
    ensures
        0 <= spec_bucket_pixel_index(bounds, x, y) < bounds.spec_area(),
        spec_bucket_pixel_x(bounds, spec_bucket_pixel_index(bounds, x, y)) == x,
        spec_bucket_pixel_y(bounds, spec_bucket_pixel_index(bounds, x, y)) == y,
{
    let w = bounds.width();
    let col = x - bounds.p_min.x;
    let row = y - bounds.p_min.y;
    lemma_row_major_bound(col, row, w, bounds.height());
    lemma_mul_is_commutative(w, row);
    lemma_fundamental_div_mod_converse(col + w * row, w, row, col);
}

/// Addressing a bucket's pixel list, second half: a position's pixel leads
/// back to the position, and lies inside the bounds.
pub proof fn lemma_bucket_pixel_coords_roundtrip(bounds: Bounds, index: int)
    requires
        bounds.wf(),
        0 <= index < bounds.spec_area(),
    ensures
        bounds.contains(spec_bucket_pixel_x(bounds, index), spec_bucket_pixel_y(bounds, index)),
        spec_bucket_pixel_index(
            bounds,
            spec_bucket_pixel_x(bounds, index),
            spec_bucket_pixel_y(bounds, index),
        ) == index,
{
    lemma_coords_in_bounds(bounds, index);
    lemma_fundamental_div_mod(index, bounds.width());
}

/// Position of pixel `(x, y)` in the film's row-major pixel list.
pub fn film_pixel_index(image_size: Vector2u, x: u32, y: u32) -> (i: usize)
    requires
        x + image_size.x * y <= u32::MAX,
    ensures
        i == x + image_size.x * y,
{
    (x + image_size.x * y) as usize
}

/// Every pixel of the image has its own place in the film's pixel list,
/// inside `0 .. width * height`, and the place determines the pixel.
pub proof fn lemma_film_pixel_index_unique(image_size: Vector2u, x: int, y: int)
    requires
        0 <= x < image_size.x,
        0 <= y < image_size.y,
    ensures
        0 <= x + image_size.x * y < image_size.x * image_size.y,
        (x + image_size.x * y) % (image_size.x as int) == x,
        (x + image_size.x * y) / (image_size.x as int) == y,
{
    let w = image_size.x as int;
    lemma_row_major_bound(x, y, w, image_size.y as int);
    lemma_mul_is_commutative(w, y);
    lemma_fundamental_div_mod_converse(x + w * y, w, y, x);
}


/// `ceil(a / b)` for a positive `b`.
pub open spec fn ceil_div(a: int, b: int) -> int {
    if a % b == 0 {
        a / b
    } else {
        a / b + 1
    }
}

fn ceil_div_u32(a: u32, b: u32) -> (r: u32)
    requires
        b > 0,
    ensures
        r == ceil_div(a as int, b as int),
{
    let q = a / b;
    if a % b == 0 {
        q
    } else {
        proof {
            if b == 1 {
                assert(a % b == 0);
            }
            assert(q as int <= a as int / 2) by {
                lemma_div_is_ordered_by_denominator(a as int, 2, b as int);
            }
        }
        q + 1
    }
}

/// What the film needs to cut the picture into render buckets: the image
/// size, the bucket size and the optional crop window.
#[derive(Debug, Clone, Copy)]
pub struct TileLayout {
    pub image_size: Vector2u,
    pub bucket_size: Vector2u,
    pub crop_start: Option<Point2u>,
    pub crop_end: Option<Point2u>,
}

impl TileLayout {
    /// A crop window is used only when both of its corners are given.
    pub open spec fn is_cropped(self) -> bool {
        self.crop_start is Some && self.crop_end is Some
    }

    /// Width of the region to render: the crop window's or the image's.
    pub open spec fn render_width(self) -> int {
        if self.is_cropped() {
            self.crop_end.unwrap().x - self.crop_start.unwrap().x
        } else {
            self.image_size.x as int
        }
    }

    pub open spec fn render_height(self) -> int {
        if self.is_cropped() {
            self.crop_end.unwrap().y - self.crop_start.unwrap().y
        } else {
            self.image_size.y as int
        }
    }

    /// Where the first bucket starts: the crop start if one is given
    /// (even without a crop end), else the image corner.
    pub open spec fn origin_x(self) -> int {
        match self.crop_start {
            Some(p) => p.x as int,
            None => 0,
        }
    }

    pub open spec fn origin_y(self) -> int {
        match self.crop_start {
            Some(p) => p.y as int,
            None => 0,
        }
    }

    /// Number of bucket columns: enough buckets to span the render width.
    pub open spec fn columns(self) -> int {
        ceil_div(self.render_width(), self.bucket_size.x as int)
    }

    /// Number of bucket rows.
    pub open spec fn rows(self) -> int {
        ceil_div(self.render_height(), self.bucket_size.y as int)
    }

    /// The sample bounds of the bucket in column `i` and row `j`: a
    /// bucket-sized rectangle placed on the grid from the origin, cut off
    /// at the image border.
    pub open spec fn bucket(self, i: int, j: int) -> Bounds {
        let sx = self.origin_x() + i * self.bucket_size.x;
        let sy = self.origin_y() + j * self.bucket_size.y;
        Bounds {
            p_min: Point2u { x: sx as u32, y: sy as u32 },
            p_max: Point2u {
                x: min_int(sx + self.bucket_size.x, self.image_size.x as int) as u32,
                y: min_int(sy + self.bucket_size.y, self.image_size.y as int) as u32,
            },
        }
    }

    /// The inputs on which the layout can be computed: buckets are not
    /// empty, the crop window's corners are ordered, and the grid's
    /// coordinates fit in `u32`.
    pub open spec fn valid(self) -> bool {
        &&& self.bucket_size.x > 0
        &&& self.bucket_size.y > 0
        &&& self.is_cropped() ==> self.crop_start.unwrap().x <= self.crop_end.unwrap().x
            && self.crop_start.unwrap().y <= self.crop_end.unwrap().y
        &&& (self.columns() > 0 && self.rows() > 0) ==> (self.origin_x() + self.columns()
            * self.bucket_size.x <= u32::MAX && self.origin_y() + self.rows() * self.bucket_size.y
            <= u32::MAX && self.columns() * self.rows() <= usize::MAX)
    }

    /// Pixel `(x, y)` is in the part of the picture that the grid spans.
    pub open spec fn covered(self, x: int, y: int) -> bool {
        &&& self.origin_x() <= x < self.origin_x() + self.columns() * self.bucket_size.x
        &&& x < self.image_size.x
        &&& self.origin_y() <= y < self.origin_y() + self.rows() * self.bucket_size.y
        &&& y < self.image_size.y
    }

    /// Cuts the picture into buckets, column by column and, inside a column,
    /// row by row: bucket `(i, j)` is at position `i * rows + j`.
    pub fn sample_bounds(&self) -> (buckets: Vec<Bounds>)
        requires
            self.valid(),
        ensures
            buckets.len() == self.columns() * self.rows(),
            forall|i: int, j: int|
                0 <= i < self.columns() && 0 <= j < self.rows() ==> #[trigger] buckets@[i
                    * self.rows() + j] == self.bucket(i, j),
    {
        let bucket_size = self.bucket_size;
        let image_size = self.image_size;
        let (render_width, render_height) = match (self.crop_start, self.crop_end) {
            (Some(cs), Some(ce)) => (ce.x - cs.x, ce.y - cs.y),
            _ => (image_size.x, image_size.y),
        };
        let (origin_x, origin_y) = match self.crop_start {
            Some(cs) => (cs.x, cs.y),
            None => (0, 0),
        };
        let columns = ceil_div_u32(render_width, bucket_size.x);
        let rows = ceil_div_u32(render_height, bucket_size.y);
        let ghost cols = columns as int;
        let ghost rws = rows as int;
        let mut buckets: Vec<Bounds> = Vec::new();
        let mut x: u32 = 0;
        while x < columns
            invariant
                self.valid(),
                columns == self.columns(),
                rows == self.rows(),
                cols == columns,
                rws == rows,
                origin_x == self.origin_x(),
                origin_y == self.origin_y(),
                bucket_size == self.bucket_size,
                image_size == self.image_size,
                x <= columns,
                buckets.len() == x * rws,
                forall|i: int, j: int|
                    0 <= i < x && 0 <= j < rws ==> #[trigger] buckets@[i * rws + j] == self.bucket(
                        i,
                        j,
                    ),
            decreases columns - x,
        {
            let mut y: u32 = 0;
            while y < rows
                invariant
                    self.valid(),
                    columns == self.columns(),
                    rows == self.rows(),
                    cols == columns,
                    rws == rows,
                    origin_x == self.origin_x(),
                    origin_y == self.origin_y(),
                    bucket_size == self.bucket_size,
                    image_size == self.image_size,
                    x < columns,
                    y <= rows,
                    buckets.len() == x * rws + y,
                    forall|i: int, j: int|
                        0 <= i < x && 0 <= j < rws ==> #[trigger] buckets@[i * rws + j]
                            == self.bucket(i, j),
                    forall|j: int|
                        0 <= j < y ==> #[trigger] buckets@[x * rws + j] == self.bucket(x as int, j),
                decreases rows - y,
            {
                proof {
                    lemma_grid_step_fits(origin_x as int, x as int, bucket_size.x as int, cols);
                    lemma_grid_step_fits(origin_y as int, y as int, bucket_size.y as int, rws);
                    lemma_row_major_bound(y as int, x as int, rws, cols);
                    lemma_mul_is_commutative(rws, x as int);
                }
                let start_x = x * bucket_size.x + origin_x;
                let start_y = y * bucket_size.y + origin_y;
                let sx_end = start_x + bucket_size.x;
                let sy_end = start_y + bucket_size.y;
                let x_end = if sx_end < image_size.x { sx_end } else { image_size.x };
                let y_end = if sy_end < image_size.y { sy_end } else { image_size.y };
                let b = Bounds {
                    p_min: Point2u { x: start_x, y: start_y },
                    p_max: Point2u { x: x_end, y: y_end },
                };
                proof {
                    lemma_mul_is_commutative(x as int, bucket_size.x as int);
                    lemma_mul_is_commutative(y as int, bucket_size.y as int);
                    assert(b == self.bucket(x as int, y as int));
                }
                let ghost before = buckets@;
                buckets.push(b);
                proof {
                    assert forall|i: int, j: int| 0 <= i < x && 0 <= j < rws implies #[trigger] buckets@[i * rws + j]
                        == self.bucket(i, j) by {
                        lemma_row_major_bound(j, i, rws, x as int);
                        lemma_mul_is_commutative(rws, i);
                        lemma_mul_is_commutative(rws, x as int);
                        assert(before[i * rws + j] == self.bucket(i, j));
                    }
                }
                y = y + 1;
            }
            proof {
                lemma_mul_is_distributive_add_other_way(rws, x as int, 1);
                assert forall|i: int, j: int| 0 <= i < x + 1 && 0 <= j < rws implies #[trigger] buckets@[i * rws + j]
                    == self.bucket(i, j) by {}
            }
            x = x + 1;
        }
        buckets
    }
}

proof fn lemma_grid_step_fits(origin: int, i: int, step: int, count: int)
    requires
        0 <= i < count,
        step > 0,
        origin >= 0,
        origin + count * step <= u32::MAX,
    ensures
        0 <= i * step,
        origin + i * step + step <= u32::MAX,
{
    assert(0 <= i * step && i * step + step <= count * step) by (nonlinear_arith)
        requires
            0 <= i < count,
            step > 0,
    ;
}


proof fn lemma_tile_1d(o: int, w: int, n: int, i: int, x: int)
    requires
        w > 0,
        0 <= i < n,
    ensures
        (o + i * w <= x < o + i * w + w) <==> (o <= x < o + n * w && (x - o) / w == i),
{
    assert(i * w + w <= n * w && 0 <= i * w) by (nonlinear_arith)
        requires
            w > 0,
            0 <= i < n,
    ;
    if o + i * w <= x < o + i * w + w {
        lemma_mul_is_commutative(i, w);
        lemma_fundamental_div_mod_converse(x - o, w, i, x - o - i * w);
    }
    if o <= x && (x - o) / w == i {
        lemma_fundamental_div_mod(x - o, w);
        lemma_mul_is_commutative(i, w);
    }
}

proof fn lemma_tile_index_in_range(o: int, w: int, n: int, x: int)
    requires
        w > 0,
        o <= x < o + n * w,
    ensures
        0 <= (x - o) / w < n,
{
    lemma_div_pos_is_pos(x - o, w);
    lemma_fundamental_div_mod(x - o, w);
    assert((x - o) / w < n) by (nonlinear_arith)
        requires
            x - o == w * ((x - o) / w) + (x - o) % w,
            0 <= (x - o) % w,
            x - o < n * w,
            w > 0,
    ;
}

/// The buckets tile the picture: pixel `(x, y)` lies in bucket `(i, j)`
/// exactly when the grid spans the pixel and `(i, j)` is the grid cell the
/// pixel falls in. So no pixel is rendered by two buckets, and every
/// pixel of the spanned part of the image is rendered by one.
pub proof fn lemma_buckets_tile_picture(layout: TileLayout, i: int, j: int, x: int, y: int)
    requires
        layout.valid(),
        0 <= i < layout.columns(),
        0 <= j < layout.rows(),
    ensures
        layout.bucket(i, j).contains(x, y) <==> (layout.covered(x, y) && (x - layout.origin_x())
            / (layout.bucket_size.x as int) == i && (y - layout.origin_y()) / (
        layout.bucket_size.y as int) == j),
{
    let bw = layout.bucket_size.x as int;
    let bh = layout.bucket_size.y as int;
    lemma_grid_step_fits(layout.origin_x(), i, bw, layout.columns());
    lemma_grid_step_fits(layout.origin_y(), j, bh, layout.rows());
    lemma_tile_1d(layout.origin_x(), bw, layout.columns(), i, x);
    lemma_tile_1d(layout.origin_y(), bh, layout.rows(), j, y);
}

/// Every pixel of the spanned part of the image falls in a grid cell of
/// the layout, so some bucket renders it.
pub proof fn lemma_covered_pixel_has_bucket(layout: TileLayout, x: int, y: int)
    requires
        layout.valid(),
        layout.covered(x, y),
    ensures
        0 <= (x - layout.origin_x()) / (layout.bucket_size.x as int) < layout.columns(),
        0 <= (y - layout.origin_y()) / (layout.bucket_size.y as int) < layout.rows(),
        layout.bucket(
            (x - layout.origin_x()) / (layout.bucket_size.x as int),
            (y - layout.origin_y()) / (layout.bucket_size.y as int),
        ).contains(x, y),
{
    let bw = layout.bucket_size.x as int;
    let bh = layout.bucket_size.y as int;
    lemma_tile_index_in_range(layout.origin_x(), bw, layout.columns(), x);
    lemma_tile_index_in_range(layout.origin_y(), bh, layout.rows(), y);
    lemma_buckets_tile_picture(
        layout,
        (x - layout.origin_x()) / bw,
        (y - layout.origin_y()) / bh,
        x,
        y,
    );
}


/// The grid spans the whole region to render: every pixel of the crop
/// window (or of the image, without one) that lies in the image is
/// covered, and so rendered by some bucket.
pub proof fn lemma_render_region_covered(layout: TileLayout, x: int, y: int)
    requires
        layout.valid(),
        layout.origin_x() <= x < layout.origin_x() + layout.render_width(),
        layout.origin_y() <= y < layout.origin_y() + layout.render_height(),
        x < layout.image_size.x,
        y < layout.image_size.y,
    ensures
        layout.covered(x, y),
{
    lemma_ceil_div_spans(layout.render_width(), layout.bucket_size.x as int);
    lemma_ceil_div_spans(layout.render_height(), layout.bucket_size.y as int);
}

proof fn lemma_ceil_div_spans(a: int, b: int)
    requires
        a >= 0,
        b > 0,
    ensures
        ceil_div(a, b) * b >= a,
{
    lemma_fundamental_div_mod(a, b);
    lemma_mul_is_commutative(a / b, b);
    lemma_mul_is_distributive_add_other_way(b, a / b, 1);
}

/// One call of `BucketQueue::get_bucket`: from `before` to `after`,
/// answering `b`.
pub open spec fn queue_step(before: BucketQueue, after: BucketQueue, b: Option<usize>) -> bool {
    &&& after.wf()
    &&& after.count() == before.count()
    &&& if before.handed_out() < before.count() {
        b == Some(before.handed_out() as usize) && after.handed_out() == before.handed_out() + 1
    } else {
        b is None && after.handed_out() == before.handed_out()
    }
}

/// Hands buckets to render threads one after the other, each once.
pub struct BucketQueue {
    bucket_count: u32,
    current_bucket: u32,
}

impl BucketQueue {
    pub closed spec fn count(self) -> int {
        self.bucket_count as int
    }

    /// Number of buckets handed out so far; they are buckets `0 .. handed_out`.
    pub closed spec fn handed_out(self) -> int {
        self.current_bucket as int
    }

    pub closed spec fn wf(self) -> bool {
        self.current_bucket <= self.bucket_count
    }

    /// A queue over `bucket_count` buckets; the count is kept as a `u32`,
    /// as the film stores it.
    pub fn new(bucket_count: usize) -> (q: BucketQueue)
        ensures
            q.wf(),
            q.count() == bucket_count as u32,
            q.handed_out() == 0,
    {
        BucketQueue { bucket_count: bucket_count as u32, current_bucket: 0 }
    }

    /// The next bucket to render, or `None` once every bucket was handed out.
    /// A bucket is never handed out twice.
    pub fn get_bucket(&mut self) -> (b: Option<usize>)
        requires
            old(self).wf(),
        ensures
            queue_step(*old(self), *final(self), b),
            final(self).wf(),
            final(self).count() == old(self).count(),
            old(self).handed_out() < old(self).count() ==> b == Some(
                old(self).handed_out() as usize,
            ) && final(self).handed_out() == old(self).handed_out() + 1,
            old(self).handed_out() >= old(self).count() ==> b is None && final(self).handed_out()
                == old(self).handed_out(),
            b matches Some(i) ==> i < final(self).count() && i == final(self).handed_out() - 1,
    {
        if self.current_bucket >= self.bucket_count {
            return None;
        }
        let bucket = self.current_bucket as usize;
        self.current_bucket = self.current_bucket + 1;
        Some(bucket)
    }
}

/// Over any run of `get_bucket` calls on a fresh queue, call `k` answers
/// bucket `k` while buckets are left and `None` afterwards: every bucket
/// is handed out, in order, and none twice.
pub proof fn lemma_queue_hands_out_each_bucket_once(
    runs: Seq<BucketQueue>,
    handed: Seq<Option<usize>>,
)
    requires
        runs.len() == handed.len() + 1,
        runs[0].wf(),
        runs[0].handed_out() == 0,
        forall|k: int| 0 <= k < handed.len() ==> queue_step(runs[k], runs[k + 1], #[trigger] handed[k]),
    ensures
        forall|k: int|
            0 <= k < handed.len() ==> #[trigger] handed[k] == (if k < runs[0].count() {
                Some(k as usize)
            } else {
                None::<usize>
            }),
        forall|k1: int, k2: int|
            0 <= k1 < k2 < handed.len() && handed[k1] is Some ==> handed[k1] != handed[k2],
{
    assert forall|k: int| 0 <= k < handed.len() implies #[trigger] handed[k] == (if k
        < runs[0].count() {
        Some(k as usize)
    } else {
        None::<usize>
    }) by {
        lemma_queue_run_prefix(runs, handed, k);
    }
}

proof fn lemma_queue_run_prefix(runs: Seq<BucketQueue>, handed: Seq<Option<usize>>, k: int)
    requires
        runs.len() == handed.len() + 1,
        runs[0].wf(),
        runs[0].handed_out() == 0,
        forall|k: int| 0 <= k < handed.len() ==> queue_step(runs[k], runs[k + 1], #[trigger] handed[k]),
        0 <= k <= handed.len(),
    ensures
        runs[k].count() == runs[0].count(),
        runs[k].handed_out() == (if k < runs[0].count() { k } else { runs[0].count() }),
        k < handed.len() ==> handed[k] == (if k < runs[0].count() {
            Some(k as usize)
        } else {
            None::<usize>
        }),
    decreases k,
{
    if k > 0 {
        lemma_queue_run_prefix(runs, handed, k - 1);
        assert(queue_step(runs[k - 1], runs[k], handed[k - 1]));
    }
    if k < handed.len() {
        assert(queue_step(runs[k], runs[k + 1], handed[k]));
    }
}

} // verus!
