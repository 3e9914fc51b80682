//! The mathematical model of an image, and of the three transforms on it:
//! dithering by error diffusion, packing a dithered secret into a carrier,
//! and extracting the secret again.
//!
//! The contracts of the executable transforms are stated over this model,
//! and the lemmas at the end are what the laws of the library rest on.

use crate::pixel::{Neighbor, Pixel};
use vstd::prelude::*;

verus! {

/// An image as a value: its width, its height, and the pixel at each
/// coordinate `(x, y)` with `0 <= x < width` and `0 <= y < height`.
pub struct Grid {
    pub width: nat,
    pub height: nat,
    pub cells: Map<(int, int), Pixel>,
}

impl Grid {
    /// `(x, y)` is a coordinate of this image.
    pub open spec fn contains(self, x: int, y: int) -> bool {
        0 <= x < self.width && 0 <= y < self.height
    }

    /// The pixel at `(x, y)`.
    pub open spec fn at(self, x: int, y: int) -> Pixel {
        self.cells[(x, y)]
    }

    /// The image of the given size whose pixel at `(x, y)` is `f(x, y)`.
    pub open spec fn build(width: nat, height: nat, f: spec_fn(int, int) -> Pixel) -> Grid {
        Grid {
            width,
            height,
            cells: Map::new(
                |k: (int, int)| 0 <= k.0 < width && 0 <= k.1 < height,
                |k: (int, int)| f(k.0, k.1),
            ),
        }
    }

    /// The image of the given size that takes its pixels from `cells`.
    pub open spec fn clip(width: nat, height: nat, cells: Map<(int, int), Pixel>) -> Grid {
        Grid::build(width, height, |x: int, y: int| cells[(x, y)])
    }

    /// The image of the given size with the same pixel everywhere.
    pub open spec fn uniform(width: nat, height: nat, p: Pixel) -> Grid {
        Grid::build(width, height, |x: int, y: int| p)
    }

    /// The image holds a pixel at each of its coordinates and nowhere else.
    pub open spec fn well_formed(self) -> bool {
        self.cells.dom() =~= Set::new(|k: (int, int)| self.contains(k.0, k.1))
    }

    /// This image with the pixel at `(x, y)` replaced by `p`.
    pub open spec fn with(self, x: int, y: int, p: Pixel) -> Grid {
        Grid { width: self.width, height: self.height, cells: self.cells.insert((x, y), p) }
    }

    /// This image after the neighbour `to` of `(x, y)` received its share of
    /// the quantisation error of `source`, the pixel that `(x, y)` held before
    /// it was quantised. A neighbour outside the image receives nothing.
    pub open spec fn spread(self, x: int, y: int, source: Pixel, to: Neighbor) -> Grid {
        let nx = x + to.dx();
        let ny = y + to.dy();
        if self.contains(nx, ny) {
            self.with(nx, ny, self.at(nx, ny).receiving(source, to))
        } else {
            self
        }
    }

    /// One step of the scan: the pixel at `(x, y)` is quantised, and its
    /// error is spread over its four neighbours, one after the other, each
    /// update reading what the image holds at that moment.
    pub open spec fn visit(self, x: int, y: int) -> Grid {
        let source = self.at(x, y);
        self.with(x, y, source.quantized())
            .spread(x, y, source, Neighbor::Right)
            .spread(x, y, source, Neighbor::BelowLeft)
            .spread(x, y, source, Neighbor::Below)
            .spread(x, y, source, Neighbor::BelowRight)
    }

    /// The image after the scan has visited, in row-major order, every pixel
    /// of the rows above `y` and the first `x` pixels of row `y`.
    pub open spec fn scan(self, y: nat, x: nat) -> Grid
        decreases y, x,
    {
        if x > 0 {
            self.scan(y, (x - 1) as nat).visit(x - 1, y as int)
        } else if y > 0 {
            self.scan((y - 1) as nat, self.width)
        } else {
            self
        }
    }

    /// `(x, y)` is a coordinate of the image that the scan has visited when
    /// it is about to visit column `col` of row `row`.
    pub open spec fn visited(self, x: int, y: int, row: nat, col: nat) -> bool {
        self.contains(x, y) && (y < row || (y == row && x < col))
    }

    /// The dithered image: the scan has visited every pixel.
    pub open spec fn dithered(self) -> Grid {
        self.scan(self.height, 0)
    }

    /// Every pixel of the image is binary and opaque.
    pub open spec fn is_binary(self) -> bool {
        forall|x: int, y: int| self.contains(x, y) ==> (#[trigger] self.at(x, y)).is_binary()
    }

    /// The combined image: `self` is the carrier, and each of its pixels
    /// takes the pixel of `secret` at the same place into its low nibbles.
    /// The result has the size of `secret`.
    pub open spec fn carrying(self, secret: Grid) -> Grid {
        Grid::build(
            secret.width,
            secret.height,
            |x: int, y: int| self.at(x, y).carrying(secret.at(x, y)),
        )
    }

    /// The image recovered from a combined image, pixel by pixel.
    pub open spec fn extracted(self) -> Grid {
        Grid::build(self.width, self.height, |x: int, y: int| self.at(x, y).extracted())
    }
}

impl Grid {
    /// A built image holds at each of its coordinates what it was built from.
    pub proof fn lemma_build_at(
        width: nat,
        height: nat,
        f: spec_fn(int, int) -> Pixel,
        x: int,
        y: int,
    )
        requires
            0 <= x < width,
            0 <= y < height,
        ensures
            Grid::build(width, height, f).at(x, y) == f(x, y),
    {
    }

    /// A built image is well formed.
    pub proof fn lemma_build_well_formed(width: nat, height: nat, f: spec_fn(int, int) -> Pixel)
        ensures
            Grid::build(width, height, f).well_formed(),
    {
    }

    /// Two well-formed images of the same size that hold the same pixel at
    /// each coordinate are the same image.
    pub proof fn lemma_equal_by_pixels(self, other: Grid)
        requires
            self.well_formed(),
            other.well_formed(),
            self.width == other.width,
            self.height == other.height,
            forall|x: int, y: int| self.contains(x, y) ==> self.at(x, y) == other.at(x, y),
        ensures
            self == other,
    {
        assert forall|k: (int, int)| self.cells.dom().contains(k) implies self.cells[k]
            == other.cells[k] by {
            assert(self.contains(k.0, k.1));
            assert(self.at(k.0, k.1) == other.at(k.0, k.1));
        }
        assert(self.cells =~= other.cells);
    }

    /// What one step of the scan does to each pixel: the pixel visited is
    /// quantised, and no pixel before it in the scan changes.
    pub proof fn lemma_visit_at(self, x: int, y: int, i: int, j: int)
        ensures
            self.visit(x, y).width == self.width,
            self.visit(x, y).height == self.height,
            i == x && j == y ==> self.visit(x, y).at(i, j) == self.at(x, y).quantized(),
            j < y || (j == y && i < x) ==> self.visit(x, y).at(i, j) == self.at(i, j),
    {
    }

    /// A step of the scan on a well-formed image gives a well-formed image.
    pub proof fn lemma_visit_well_formed(self, x: int, y: int)
        requires
            self.well_formed(),
            self.contains(x, y),
        ensures
            self.visit(x, y).well_formed(),
    {
    }

    /// A step of the scan leaves an image of binary pixels as it is: the
    /// pixel visited is kept, its error is zero, and zero error changes no
    /// neighbour.
    pub proof fn lemma_visit_of_binary(self, x: int, y: int)
        requires
            self.well_formed(),
            self.is_binary(),
            self.contains(x, y),
        ensures
            self.visit(x, y) == self,
    {
        let v = self.visit(x, y);
        let source = self.at(x, y);
        assert(source.is_binary());
        assert(source.quantized() == source);
        assert forall|to: Neighbor, n: Pixel| n.is_binary() implies #[trigger] n.receiving(
            source,
            to,
        ) == n by {
            assert(to.weight() * 0 == 0);
        }
        assert forall|i: int, j: int| self.contains(i, j) implies v.at(i, j) == self.at(i, j) by {
            assert(self.at(i, j).is_binary());
        }
        self.lemma_visit_well_formed(x, y);
        v.lemma_equal_by_pixels(self);
    }

    /// The scan changes pixels, never the size of the image.
    pub proof fn lemma_scan_keeps_size(self, y: nat, x: nat)
        ensures
            self.scan(y, x).width == self.width,
            self.scan(y, x).height == self.height,
        decreases y, x,
    {
        if x > 0 {
            self.lemma_scan_keeps_size(y, (x - 1) as nat);
        } else if y > 0 {
            self.lemma_scan_keeps_size((y - 1) as nat, self.width);
        }
    }

    /// Every pixel that the scan has visited is binary and opaque.
    pub proof fn lemma_scan_quantizes(self, y: nat, x: nat)
        ensures
            forall|i: int, j: int|
                self.visited(i, j, y, x) ==> (#[trigger] self.scan(y, x).at(i, j)).is_binary(),
        decreases y, x,
    {
        if x > 0 {
            let before = self.scan(y, (x - 1) as nat);
            self.lemma_scan_quantizes(y, (x - 1) as nat);
            assert forall|i: int, j: int| self.visited(i, j, y, x) implies (#[trigger] self.scan(
                y,
                x,
            ).at(i, j)).is_binary() by {
                before.lemma_visit_at(x - 1, y as int, i, j);
                if !(i == x - 1 && j == y) {
                    assert(self.visited(i, j, y, (x - 1) as nat));
                    assert(before.at(i, j).is_binary());
                }
            }
        } else if y > 0 {
            self.lemma_scan_quantizes((y - 1) as nat, self.width);
            assert forall|i: int, j: int| self.visited(i, j, y, x) implies (#[trigger] self.scan(
                y,
                x,
            ).at(i, j)).is_binary() by {
                assert(self.visited(i, j, (y - 1) as nat, self.width));
                assert(self.scan((y - 1) as nat, self.width).at(i, j).is_binary());
            }
        }
    }

    /// The scan of a well-formed image gives a well-formed image.
    pub proof fn lemma_scan_well_formed(self, y: nat, x: nat)
        requires
            self.well_formed(),
            y <= self.height,
            x <= self.width,
            x > 0 ==> y < self.height,
        ensures
            self.scan(y, x).well_formed(),
        decreases y, x,
    {
        if x > 0 {
            self.lemma_scan_well_formed(y, (x - 1) as nat);
            self.lemma_scan_keeps_size(y, (x - 1) as nat);
            self.scan(y, (x - 1) as nat).lemma_visit_well_formed(x - 1, y as int);
        } else if y > 0 {
            self.lemma_scan_well_formed((y - 1) as nat, self.width);
        }
    }

    /// The scan leaves an image of binary pixels as it is.
    pub proof fn lemma_scan_of_binary(self, y: nat, x: nat)
        requires
            self.well_formed(),
            self.is_binary(),
            y <= self.height,
            x <= self.width,
            x > 0 ==> y < self.height,
        ensures
            self.scan(y, x) == self,
        decreases y, x,
    {
        if x > 0 {
            self.lemma_scan_of_binary(y, (x - 1) as nat);
            self.lemma_visit_of_binary(x - 1, y as int);
        } else if y > 0 {
            self.lemma_scan_of_binary((y - 1) as nat, self.width);
        }
    }

    /// A dithered image has the size of its source, is well formed where the
    /// source is, and all its pixels are binary and opaque.
    pub proof fn lemma_dithered(self)
        ensures
            self.dithered().width == self.width,
            self.dithered().height == self.height,
            self.dithered().is_binary(),
            self.well_formed() ==> self.dithered().well_formed(),
    {
        self.lemma_scan_keeps_size(self.height, 0);
        self.lemma_scan_quantizes(self.height, 0);
        if self.well_formed() {
            self.lemma_scan_well_formed(self.height, 0);
        }
        assert forall|x: int, y: int| self.dithered().contains(x, y) implies (
        #[trigger] self.dithered().at(x, y)).is_binary() by {
            assert(self.visited(x, y, self.height, 0));
        }
    }
}

} // verus!
