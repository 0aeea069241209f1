//! An RGB raster and the integer drawing operations on it.

use vstd::prelude::*;

verus! {

/// An RGB color.
pub type Rgb = [u8; 3];


/// An image of `width` by `height` RGB pixels, row by row from the top.
#[derive(Debug)]
pub struct Raster {
    /// Width in pixels.
    pub width: u32,
    /// Height in pixels.
    pub height: u32,
    /// The pixels, row-major: the pixel at column `x` of row `y` is at
    /// index `y * width + x`.
    pub pixels: Vec<Rgb>,
}

/// Index of the pixel at column `x` of row `y` in an image `width` wide.
pub open spec fn pixel_index(width: int, x: int, y: int) -> int {
    y * width + x
}

/// Within an image, a pixel's index is below the number of pixels, and two
/// pixels share an index only if they are the same pixel.
pub proof fn lemma_pixel_index(width: int, height: int, x: int, y: int, x2: int, y2: int)
    by (nonlinear_arith)
    requires
        0 <= x < width,
        0 <= y < height,
        0 <= x2 < width,
        0 <= y2 < height,
    ensures
        0 <= pixel_index(width, x, y) < width * height,
        pixel_index(width, x, y) == pixel_index(width, x2, y2) ==> x == x2 && y == y2,
{
}

impl Raster {
    /// Whether the image holds one pixel for each position.
    pub open spec fn wf(self) -> bool {
        self.pixels@.len() == self.width * self.height
    }

    /// Whether a position lies in the image.
    pub open spec fn contains(self, x: int, y: int) -> bool {
        0 <= x < self.width && 0 <= y < self.height
    }

    /// The color at a position of the image.
    pub open spec fn at(self, x: int, y: int) -> Rgb {
        self.pixels@[pixel_index(self.width as int, x, y)]
    }

    /// Whether this image is `before` with some positions repainted: the
    /// same size, and every position that `covered` names has `color`
    /// while every other keeps its color.
    pub open spec fn repaints(
        self,
        before: Raster,
        covered: spec_fn(int, int) -> bool,
        color: Rgb,
    ) -> bool {
        &&& self.wf()
        &&& self.width == before.width
        &&& self.height == before.height
        &&& forall|x: int, y: int|
            self.contains(x, y) ==> #[trigger] self.at(x, y) == (if covered(x, y) {
                color
            } else {
                before.at(x, y)
            })
    }

    /// An image filled with one color.
    pub fn from_pixel(width: u32, height: u32, color: Rgb) -> (image: Raster)
        requires
            width * height <= usize::MAX,
        ensures
            image.wf(),
            image.width == width,
            image.height == height,
            forall|x: int, y: int| image.contains(x, y) ==> #[trigger] image.at(x, y) == color,
    {
        assert(width * height >= 0) by (nonlinear_arith);
        let count = (width as usize) * (height as usize);
        let mut pixels: Vec<Rgb> = Vec::new();
        let mut i: usize = 0;
        while i < count
            invariant
                i <= count,
                pixels@.len() == i,
                forall|k: int| 0 <= k < i ==> #[trigger] pixels@[k] == color,
            decreases count - i,
        {
            pixels.push(color);
            i += 1;
        }
        let image = Raster { width, height, pixels };
        assert forall|x: int, y: int| image.contains(x, y) implies #[trigger] image.at(x, y)
            == color by {
            lemma_pixel_index(width as int, height as int, x, y, x, y);
        }
        image
    }

    /// Index of a position among the pixels.
    fn index(&self, x: u32, y: u32) -> (index: usize)
        requires
            self.wf(),
            self.contains(x as int, y as int),
        ensures
            index == pixel_index(self.width as int, x as int, y as int),
            index < self.pixels@.len(),
    {
        let count = self.pixels.len();
        proof {
            lemma_pixel_index(
                self.width as int,
                self.height as int,
                x as int,
                y as int,
                x as int,
                y as int,
            );
            assert(y * self.width >= 0) by (nonlinear_arith)
                requires
                    y >= 0,
                    self.width >= 0,
            ;
        }
        (y as usize) * (self.width as usize) + (x as usize)
    }

    /// The color at a position.
    pub fn get_pixel(&self, x: u32, y: u32) -> (color: Rgb)
        requires
            self.wf(),
            self.contains(x as int, y as int),
        ensures
            color == self.at(x as int, y as int),
    {
        let index = self.index(x, y);
        self.pixels[index]
    }

    /// Paints one position.
    pub fn put_pixel(&mut self, x: u32, y: u32, color: Rgb)
        requires
            old(self).wf(),
            old(self).contains(x as int, y as int),
        ensures
            final(self).repaints(*old(self), |px: int, py: int| px == x && py == y, color),
    {
        let index = self.index(x, y);
        self.pixels[index] = color;
        proof {
            assert forall|px: int, py: int| self.contains(px, py) implies #[trigger] self.at(
                px,
                py,
            ) == (if px == x && py == y {
                color
            } else {
                old(self).at(px, py)
            }) by {
                lemma_pixel_index(
                    self.width as int,
                    self.height as int,
                    x as int,
                    y as int,
                    px,
                    py,
                );
                lemma_pixel_index(
                    self.width as int,
                    self.height as int,
                    px,
                    py,
                    x as int,
                    y as int,
                );
            }
        }
    }
}

/// Whether a position lies within `radius` of a centre. Nothing lies within
/// a negative radius.
pub open spec fn in_disc(cx: int, cy: int, radius: int, x: int, y: int) -> bool {
    radius >= 0 && (x - cx) * (x - cx) + (y - cy) * (y - cy) <= radius * radius
}

/// A position within `radius` of a centre is no more than `radius` away
/// from it along either axis.
pub proof fn lemma_disc_extent(cx: int, cy: int, radius: int, x: int, y: int)
    by (nonlinear_arith)
    requires
        in_disc(cx, cy, radius, x, y),
    ensures
        radius >= 0,
        -radius <= x - cx <= radius,
        -radius <= y - cy <= radius,
{
}

impl Raster {
    /// Paints a round brush: every position of the image within `radius`
    /// of the centre. A radius of 0 paints the centre alone, a negative
    /// radius nothing.
    pub fn paint_disc(&mut self, cx: i32, cy: i32, radius: i32, color: Rgb)
        requires
            old(self).wf(),
        ensures
            final(self).repaints(
                *old(self),
                |x: int, y: int| in_disc(cx as int, cy as int, radius as int, x, y),
                color,
            ),
    {
        if radius < 0 {
            return ;
        }
        let reach = radius as i64;
        assert(0 <= reach * reach <= 0x4000_0000_0000_0000) by (nonlinear_arith)
            requires
                0 <= reach <= 0x8000_0000,
        ;
        let radius_sq: i128 = (reach * reach) as i128;
        let mut ox: i64 = -reach;
        proof {
            assert forall|x: int, y: int| self.contains(x, y) implies #[trigger] self.at(x, y)
                == (if in_disc(cx as int, cy as int, radius as int, x, y) && x - cx < ox {
                color
            } else {
                old(self).at(x, y)
            }) by {
                if in_disc(cx as int, cy as int, radius as int, x, y) {
                    lemma_disc_extent(cx as int, cy as int, radius as int, x, y);
                }
            }
        }
        while ox <= reach
            invariant
                0 <= reach == radius,
                -reach <= ox <= reach + 1,
                radius_sq == reach * reach,
                self.repaints(
                    *old(self),
                    |x: int, y: int|
                        in_disc(cx as int, cy as int, radius as int, x, y) && x - cx < ox,
                    color,
                ),
            decreases reach + 1 - ox,
        {
            assert(0 <= ox * ox <= 0x4000_0000_0000_0000) by (nonlinear_arith)
                requires
                    -0x8000_0000 <= ox <= 0x8000_0000,
            ;
            let ox_sq: i128 = (ox * ox) as i128;
            let mut oy: i64 = -reach;
            proof {
                assert forall|x: int, y: int| self.contains(x, y) implies #[trigger] self.at(
                    x,
                    y,
                ) == (if in_disc(cx as int, cy as int, radius as int, x, y) && (x - cx < ox || (x
                    - cx == ox && y - cy < oy)) {
                    color
                } else {
                    old(self).at(x, y)
                }) by {
                    if in_disc(cx as int, cy as int, radius as int, x, y) {
                        lemma_disc_extent(cx as int, cy as int, radius as int, x, y);
                    }
                }
            }
            while oy <= reach
                invariant
                    0 <= reach == radius,
                    -reach <= ox <= reach,
                    -reach <= oy <= reach + 1,
                    radius_sq == reach * reach,
                    ox_sq == ox * ox,
                    0 <= ox_sq <= 0x4000_0000_0000_0000,
                    self.repaints(
                        *old(self),
                        |x: int, y: int|
                            in_disc(cx as int, cy as int, radius as int, x, y) && (x - cx < ox
                                || (x - cx == ox && y - cy < oy)),
                        color,
                    ),
                decreases reach + 1 - oy,
            {
                assert(0 <= oy * oy <= 0x4000_0000_0000_0000) by (nonlinear_arith)
                    requires
                        -0x8000_0000 <= oy <= 0x8000_0000,
                ;
                let ghost before = *self;
                if ox_sq + (oy * oy) as i128 <= radius_sq {
                    let px = cx as i64 + ox;
                    let py = cy as i64 + oy;
                    if px >= 0 && px < self.width as i64 && py >= 0 && py < self.height as i64 {
                        self.put_pixel(px as u32, py as u32, color);
                    }
                }
                proof {
                    assert forall|x: int, y: int| self.contains(x, y) implies #[trigger] self.at(
                        x,
                        y,
                    ) == (if in_disc(cx as int, cy as int, radius as int, x, y) && (x - cx < ox
                        || (x - cx == ox && y - cy < oy + 1)) {
                        color
                    } else {
                        old(self).at(x, y)
                    }) by {
                        assert(before.contains(x, y));
                        let here = before.at(x, y);
                        if x - cx == ox && y - cy == oy {
                            assert((x - cx) * (x - cx) == ox * ox) by (nonlinear_arith)
                                requires
                                    x - cx == ox,
                            ;
                            assert((y - cy) * (y - cy) == oy * oy) by (nonlinear_arith)
                                requires
                                    y - cy == oy,
                            ;
                        }
                    }
                }
                oy += 1;
            }
            proof {
                assert forall|x: int, y: int| self.contains(x, y) implies #[trigger] self.at(
                    x,
                    y,
                ) == (if in_disc(cx as int, cy as int, radius as int, x, y) && x - cx < ox + 1 {
                    color
                } else {
                    old(self).at(x, y)
                }) by {
                    if in_disc(cx as int, cy as int, radius as int, x, y) {
                        lemma_disc_extent(cx as int, cy as int, radius as int, x, y);
                    }
                }
            }
            ox += 1;
        }
        proof {
            assert forall|x: int, y: int| self.contains(x, y) implies #[trigger] self.at(x, y)
                == (if in_disc(cx as int, cy as int, radius as int, x, y) {
                color
            } else {
                old(self).at(x, y)
            }) by {
                if in_disc(cx as int, cy as int, radius as int, x, y) {
                    lemma_disc_extent(cx as int, cy as int, radius as int, x, y);
                }
            }
        }
    }

    /// Paints the positions of row `y` from column `x_start` to column
    /// `x_end`, both included, as far as they lie in the image.
    pub fn fill_span(&mut self, y: i32, x_start: i32, x_end: i32, color: Rgb)
        requires
            old(self).wf(),
        ensures
            final(self).repaints(
                *old(self),
                |px: int, py: int| py == y && x_start <= px <= x_end,
                color,
            ),
    {
        if y < 0 || (y as u32) >= self.height {
            return ;
        }
        let first: i64 = if x_start < 0 {
            0
        } else {
            x_start as i64
        };
        let mut x: i64 = first;
        while x <= x_end as i64 && x < self.width as i64
            invariant
                0 <= first <= x,
                first == if x_start < 0 {
                    0
                } else {
                    x_start as int
                },
                0 <= y < self.height,
                x <= i32::MAX + 1,
                self.repaints(
                    *old(self),
                    |px: int, py: int| py == y && x_start <= px <= x_end && px < x,
                    color,
                ),
            decreases i32::MAX + 1 - x,
        {
            let ghost before = *self;
            self.put_pixel(x as u32, y as u32, color);
            proof {
                assert forall|px: int, py: int| self.contains(px, py) implies #[trigger] self.at(
                    px,
                    py,
                ) == (if py == y && x_start <= px <= x_end && px < x + 1 {
                    color
                } else {
                    old(self).at(px, py)
                }) by {
                    assert(before.contains(px, py));
                    let here = before.at(px, py);
                }
            }
            x += 1;
        }
    }
}

/// Distance between two coordinates.
pub open spec fn span(from: int, to: int) -> int {
    if from < to {
        to - from
    } else {
        from - to
    }
}

/// Direction of a step from one coordinate towards another: 1 if the other
/// is larger, else -1.
pub open spec fn toward(from: int, to: int) -> int {
    if from < to {
        1
    } else {
        -1
    }
}

/// The positions that the line to `(x1, y1)` visits from `(x, y)` on, with
/// the running error `err`, in at most `steps` further steps.
///
/// Each step doubles the error and compares it with the two distances: it
/// moves along x if the doubled error is above `-dy`, and along y if it is
/// below `dx`, correcting the error by `dy` and `dx`.
pub open spec fn line_from(
    x: int,
    y: int,
    err: int,
    x1: int,
    y1: int,
    dx: int,
    dy: int,
    sx: int,
    sy: int,
    steps: nat,
) -> Seq<(int, int)>
    decreases steps,
{
    if (x == x1 && y == y1) || steps == 0 {
        seq![(x, y)]
    } else {
        let along_x = 2 * err > -dy;
        let along_y = 2 * err < dx;
        let next_x = if along_x {
            x + sx
        } else {
            x
        };
        let next_y = if along_y {
            y + sy
        } else {
            y
        };
        let next_err = err - (if along_x {
            dy
        } else {
            0
        }) + (if along_y {
            dx
        } else {
            0
        });
        seq![(x, y)] + line_from(next_x, next_y, next_err, x1, y1, dx, dy, sx, sy, (steps - 1) as nat)
    }
}

/// The positions of the line from `(x0, y0)` to `(x1, y1)`, in the order
/// in which it visits them.
pub open spec fn line_points(x0: int, y0: int, x1: int, y1: int) -> Seq<(int, int)> {
    let dx = span(x0, x1);
    let dy = span(y0, y1);
    line_from(x0, y0, dx - dy, x1, y1, dx, dy, toward(x0, x1), toward(y0, y1), (dx + dy) as nat)
}

/// Whether a position lies within `radius` of one of the first `count`
/// positions of a path.
pub open spec fn path_covers(path: Seq<(int, int)>, count: int, radius: int, x: int, y: int) -> bool {
    exists|k: int| 0 <= k < count && #[trigger] in_disc(path[k].0, path[k].1, radius, x, y)
}

/// Whether a position is painted by the line from `(x0, y0)` to `(x1, y1)`
/// drawn with a brush of the given radius.
pub open spec fn line_covers(
    x0: int,
    y0: int,
    x1: int,
    y1: int,
    radius: int,
    x: int,
    y: int,
) -> bool {
    path_covers(line_points(x0, y0, x1, y1), line_points(x0, y0, x1, y1).len() as int, radius, x, y)
}

/// While the line has not arrived, the running error keeps it from
/// leaving the box between its ends, and each step moves it.
proof fn lemma_line_step(dx: int, dy: int, a: int, b: int, err: int)
    by (nonlinear_arith)
    requires
        0 <= a <= dx,
        0 <= b <= dy,
        a < dx || b < dy,
        err == dx - dy - a * dy + b * dx,
    ensures
        a == dx ==> 2 * err <= -dy,
        b == dy ==> 2 * err >= dx,
        2 * err > -dy || 2 * err < dx,
{
}

/// The running error stays within what 128 bits hold.
proof fn lemma_line_error_bound(dx: int, dy: int, a: int, b: int, err: int)
    by (nonlinear_arith)
    requires
        0 <= a <= dx <= 0x1_0000_0000,
        0 <= b <= dy <= 0x1_0000_0000,
        err == dx - dy - a * dy + b * dx,
    ensures
        -0x4_0000_0000_0000_0000 <= err <= 0x4_0000_0000_0000_0000,
{
}

/// From a position on its way, the line arrives at its end: the positions
/// it visits start where it stands and stop at the end, and each is one
/// step or less from the one before along either axis.
proof fn lemma_line_from_arrives(
    x: int,
    y: int,
    err: int,
    x1: int,
    y1: int,
    dx: int,
    dy: int,
    sx: int,
    sy: int,
    a: int,
    b: int,
    steps: nat,
)
    requires
        0 <= a <= dx,
        0 <= b <= dy,
        sx == 1 || sx == -1,
        sy == 1 || sy == -1,
        x1 == x + sx * (dx - a),
        y1 == y + sy * (dy - b),
        err == dx - dy - a * dy + b * dx,
        steps >= dx + dy - (a + b),
    ensures
        line_from(x, y, err, x1, y1, dx, dy, sx, sy, steps).len() >= 1,
        line_from(x, y, err, x1, y1, dx, dy, sx, sy, steps).first() == (x, y),
        line_from(x, y, err, x1, y1, dx, dy, sx, sy, steps).last() == (x1, y1),
        forall|k: int|
            0 < k < line_from(x, y, err, x1, y1, dx, dy, sx, sy, steps).len() ==> adjoining(
                #[trigger] line_from(x, y, err, x1, y1, dx, dy, sx, sy, steps)[k - 1],
                line_from(x, y, err, x1, y1, dx, dy, sx, sy, steps)[k],
            ),
    decreases steps,
{
    let path = line_from(x, y, err, x1, y1, dx, dy, sx, sy, steps);
    assert(sx * (dx - a) == 0 <==> a == dx) by (nonlinear_arith)
        requires
            sx == 1 || sx == -1,
    ;
    assert(sy * (dy - b) == 0 <==> b == dy) by (nonlinear_arith)
        requires
            sy == 1 || sy == -1,
    ;
    if x == x1 && y == y1 {
    } else {
        lemma_line_step(dx, dy, a, b, err);
        let along_x = 2 * err > -dy;
        let along_y = 2 * err < dx;
        let next_a = if along_x {
            a + 1
        } else {
            a
        };
        let next_b = if along_y {
            b + 1
        } else {
            b
        };
        let next_x = if along_x {
            x + sx
        } else {
            x
        };
        let next_y = if along_y {
            y + sy
        } else {
            y
        };
        let next_err = err - (if along_x {
            dy
        } else {
            0
        }) + (if along_y {
            dx
        } else {
            0
        });
        assert(next_err == dx - dy - next_a * dy + next_b * dx) by (nonlinear_arith)
            requires
                err == dx - dy - a * dy + b * dx,
                next_err == err - (if along_x {
                    dy
                } else {
                    0
                }) + (if along_y {
                    dx
                } else {
                    0
                }),
                next_a == if along_x {
                    a + 1
                } else {
                    a
                },
                next_b == if along_y {
                    b + 1
                } else {
                    b
                },
        ;
        assert(x1 == next_x + sx * (dx - next_a)) by (nonlinear_arith)
            requires
                x1 == x + sx * (dx - a),
                next_x == if along_x {
                    x + sx
                } else {
                    x
                },
                next_a == if along_x {
                    a + 1
                } else {
                    a
                },
        ;
        assert(y1 == next_y + sy * (dy - next_b)) by (nonlinear_arith)
            requires
                y1 == y + sy * (dy - b),
                next_y == if along_y {
                    y + sy
                } else {
                    y
                },
                next_b == if along_y {
                    b + 1
                } else {
                    b
                },
        ;
        let rest = line_from(next_x, next_y, next_err, x1, y1, dx, dy, sx, sy, (steps - 1) as nat);
        lemma_line_from_arrives(
            next_x,
            next_y,
            next_err,
            x1,
            y1,
            dx,
            dy,
            sx,
            sy,
            next_a,
            next_b,
            (steps - 1) as nat,
        );
        assert(path == seq![(x, y)] + rest);
        assert forall|k: int| 0 < k < path.len() implies adjoining(
            #[trigger] path[k - 1],
            path[k],
        ) by {
            if k == 1 {
                assert(path[0] == (x, y));
                assert(path[1] == rest[0]);
            } else {
                assert(path[k - 1] == rest[k - 2]);
                assert(path[k] == rest[k - 1]);
                assert(adjoining(rest[k - 1 - 1], rest[k - 1]));
            }
        }
        assert(path.last() == rest.last());
    }
}

/// Whether two positions are the same or neighbours, diagonals included.
pub open spec fn adjoining(from: (int, int), to: (int, int)) -> bool {
    &&& -1 <= to.0 - from.0 <= 1
    &&& -1 <= to.1 - from.1 <= 1
}

/// A line starts at its first end and stops at its second, and moves by
/// one step or less along either axis from each position to the next.
pub proof fn lemma_line_joins_its_ends(x0: int, y0: int, x1: int, y1: int)
    ensures
        line_points(x0, y0, x1, y1).len() >= 1,
        line_points(x0, y0, x1, y1).first() == (x0, y0),
        line_points(x0, y0, x1, y1).last() == (x1, y1),
        forall|k: int|
            0 < k < line_points(x0, y0, x1, y1).len() ==> adjoining(
                #[trigger] line_points(x0, y0, x1, y1)[k - 1],
                line_points(x0, y0, x1, y1)[k],
            ),
{
    let dx = span(x0, x1);
    let dy = span(y0, y1);
    assert(0 * dy == 0 && 0 * dx == 0) by (nonlinear_arith);
    assert(toward(x0, x1) * (dx - 0) == x1 - x0) by (nonlinear_arith)
        requires
            dx == span(x0, x1),
    ;
    assert(toward(y0, y1) * (dy - 0) == y1 - y0) by (nonlinear_arith)
        requires
            dy == span(y0, y1),
    ;
    lemma_line_from_arrives(
        x0,
        y0,
        dx - dy,
        x1,
        y1,
        dx,
        dy,
        toward(x0, x1),
        toward(y0, y1),
        0,
        0,
        (dx + dy) as nat,
    );
}

impl Raster {
    /// Draws a line from `(x0, y0)` to `(x1, y1)` with a round brush: at
    /// each position of the line, every position of the image within
    /// `radius` of it is painted. A radius of 0 draws single pixels. The
    /// line may leave the image; what lies outside is not painted.
    pub fn draw_line(&mut self, x0: i32, y0: i32, x1: i32, y1: i32, color: Rgb, radius: i32)
        requires
            old(self).wf(),
        ensures
            final(self).repaints(
                *old(self),
                |x: int, y: int|
                    line_covers(x0 as int, y0 as int, x1 as int, y1 as int, radius as int, x, y),
                color,
            ),
    {
        let dx: i128 = if x0 < x1 {
            x1 as i128 - x0 as i128
        } else {
            x0 as i128 - x1 as i128
        };
        let dy: i128 = if y0 < y1 {
            y1 as i128 - y0 as i128
        } else {
            y0 as i128 - y1 as i128
        };
        let sx: i32 = if x0 < x1 {
            1
        } else {
            -1
        };
        let sy: i32 = if y0 < y1 {
            1
        } else {
            -1
        };
        let mut err: i128 = dx - dy;
        let mut x: i32 = x0;
        let mut y: i32 = y0;
        let ghost path = line_points(x0 as int, y0 as int, x1 as int, y1 as int);
        let ghost mut visited: int = 0;
        let ghost mut a: int = 0;
        let ghost mut b: int = 0;
        proof {
            assert(path.skip(0) =~= path);
            assert(0 * dy == 0 && 0 * dx == 0) by (nonlinear_arith);
        }
        loop
            invariant_except_break
                self.repaints(
                    *old(self),
                    |px: int, py: int| path_covers(path, visited, radius as int, px, py),
                    color,
                ),
            invariant
                self.wf(),
                dx == span(x0 as int, x1 as int),
                dy == span(y0 as int, y1 as int),
                sx == toward(x0 as int, x1 as int),
                sy == toward(y0 as int, y1 as int),
                path == line_points(x0 as int, y0 as int, x1 as int, y1 as int),
                0 <= a <= dx,
                0 <= b <= dy,
                x == x0 + sx * a,
                y == y0 + sy * b,
                err == dx - dy - a * dy + b * dx,
                0 <= visited <= a + b,
                visited < path.len(),
                path.skip(visited) == line_from(
                    x as int,
                    y as int,
                    err as int,
                    x1 as int,
                    y1 as int,
                    dx as int,
                    dy as int,
                    sx as int,
                    sy as int,
                    (dx + dy - visited) as nat,
                ),
            ensures
                self.repaints(
                    *old(self),
                    |px: int, py: int| path_covers(path, path.len() as int, radius as int, px, py),
                    color,
                ),
            decreases dx + dy - (a + b),
        {
            let ghost before = *self;
            proof {
                assert(path.skip(visited)[0] == (x as int, y as int));
                assert(path[visited] == (x as int, y as int));
            }
            self.paint_disc(x, y, radius, color);
            proof {
                assert forall|px: int, py: int| self.contains(px, py) implies #[trigger] self.at(
                    px,
                    py,
                ) == (if path_covers(path, visited + 1, radius as int, px, py) {
                    color
                } else {
                    old(self).at(px, py)
                }) by {
                    assert(before.contains(px, py));
                    let here = before.at(px, py);
                    if in_disc(x as int, y as int, radius as int, px, py) {
                        assert(in_disc(path[visited].0, path[visited].1, radius as int, px, py));
                    }
                    if path_covers(path, visited + 1, radius as int, px, py) {
                        let k = choose|k: int|
                            0 <= k < visited + 1 && #[trigger] in_disc(
                                path[k].0,
                                path[k].1,
                                radius as int,
                                px,
                                py,
                            );
                        if k < visited {
                            assert(path_covers(path, visited, radius as int, px, py));
                        }
                    }
                }
            }
            if x == x1 && y == y1 {
                proof {
                    assert(path.skip(visited).len() == 1);
                    assert(path.len() == visited + 1);
                }
                break ;
            }
            proof {
                lemma_line_step(dx as int, dy as int, a, b, err as int);
                lemma_line_error_bound(dx as int, dy as int, a, b, err as int);
                assert(dx + dy - visited > 0);
            }
            let ghost old_err = err as int;
            let ghost old_x = x as int;
            let ghost old_y = y as int;
            let e2 = 2 * err;
            if e2 > -dy {
                proof {
                    assert((a + 1) * dy == a * dy + dy) by (nonlinear_arith);
                    assert(sx * (a + 1) == sx * a + sx) by (nonlinear_arith);
                    a = a + 1;
                }
                err -= dy;
                x += sx;
            }
            if e2 < dx {
                proof {
                    assert((b + 1) * dx == b * dx + dx) by (nonlinear_arith);
                    assert(sy * (b + 1) == sy * b + sy) by (nonlinear_arith);
                    b = b + 1;
                }
                err += dx;
                y += sy;
            }
            proof {
                assert(path.skip(visited).skip(1) =~= path.skip(visited + 1));
                let rest = line_from(
                    x as int,
                    y as int,
                    err as int,
                    x1 as int,
                    y1 as int,
                    dx as int,
                    dy as int,
                    sx as int,
                    sy as int,
                    (dx + dy - visited - 1) as nat,
                );
                assert(path.skip(visited) == seq![(old_x, old_y)] + rest);
                assert((seq![(old_x, old_y)] + rest).skip(1) =~= rest);
                visited = visited + 1;
            }
        }
    }
}

} // verus!
