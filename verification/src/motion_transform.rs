//! Bed-mesh and skew transforms of the toolhead path.

use vstd::prelude::*;

use crate::constants::FIVE;
use crate::constants::FOUR;
use crate::constants::HUNDRED;
use crate::constants::SPLIT_DELTA_Z;
use crate::constants::THREE;
use crate::constants::TWO;
use crate::double::num;
use crate::double::Double;
use crate::double::ONE;
use crate::double::ZERO;
use crate::geometry::Vec4;
use crate::kinds::texts;
use crate::table::lookup;
use crate::table::has_key;
use crate::table::Table;
use crate::text::same;

verus! {

/// Skew correction factors of the three planes.
#[derive(Clone, Copy, Debug)]
pub struct SkewFactors {
    pub xy: Double,
    pub xz: Double,
    pub yz: Double,
}

impl SkewFactors {
    /// No skew.
    #[verifier::allow_in_spec]
    pub fn none() -> SkewFactors
        returns
            (SkewFactors { xy: num(ZERO), xz: num(ZERO), yz: num(ZERO) }),
    {
        SkewFactors { xy: num(ZERO), xz: num(ZERO), yz: num(ZERO) }
    }
}

#[derive(Clone, Debug)]
pub struct SkewCorrectionConfig {
    pub profiles: Table<SkewFactors>,
    pub initial_profile: Option<String>,
}

/// A bed mesh: heights over a rectangle, in increasing Y order.
#[derive(Clone, Debug)]
pub struct BedMeshProfile {
    pub min: [Double; 2],
    pub max: [Double; 2],
    pub matrix: Vec<Vec<Double>>,
}

#[derive(Clone, Debug)]
pub struct BedMeshConfig {
    pub profiles: Table<BedMeshProfile>,
    pub initial_profile: Option<String>,
    pub fade_start: Double,
    pub fade_end: Double,
    pub fade_target: Option<Double>,
    pub split_delta_z: Double,
    pub move_check_distance: Double,
}

#[derive(Clone, Debug)]
pub struct MotionTransformConfig {
    pub bed_mesh: Option<BedMeshConfig>,
    pub skew_correction: Option<SkewCorrectionConfig>,
    pub unsupported_active: Vec<String>,
}

/// The heights of a mesh as nested sequences.
pub open spec fn rows(matrix: Seq<Vec<Double>>) -> Seq<Seq<Double>> {
    Seq::new(matrix.len(), |y: int| matrix[y]@)
}

/// Copies the heights of a mesh.
pub fn copy_rows(matrix: &Vec<Vec<Double>>) -> (r: Vec<Vec<Double>>)
    ensures
        rows(r@) == rows(matrix@),
{
    let mut out: Vec<Vec<Double>> = Vec::new();
    let mut y: usize = 0;
    while y < matrix.len()
        invariant
            y <= matrix@.len(),
            rows(out@) == rows(matrix@).take(y as int),
        decreases matrix.len() - y,
    {
        let row: &Vec<Double> = &matrix[y];
        let mut copy: Vec<Double> = Vec::new();
        let mut x: usize = 0;
        while x < row.len()
            invariant
                x <= row@.len(),
                copy@ == row@.take(x as int),
            decreases row.len() - x,
        {
            copy.push(row[x]);
            assert(row@.take(x + 1) == row@.take(x as int).push(row@[x as int]));
            x = x + 1;
        }
        assert(row@.take(x as int) == row@);
        let ghost before = rows(out@);
        let ghost copied = copy@;
        out.push(copy);
        assert(rows(out@) == before.push(copied));
        assert(rows(matrix@).take(y + 1) == rows(matrix@).take(y as int).push(
            rows(matrix@)[y as int],
        ));
        y = y + 1;
    }
    assert(rows(matrix@).take(y as int) == rows(matrix@));
    out
}

/// The text of an optional name.
pub open spec fn opt_text(s: Option<String>) -> Option<Seq<char>> {
    match s {
        Some(t) => Some(t@),
        None => None,
    }
}

/// The coordinate of the grid line `index` of `count` lines.
#[verifier::allow_in_spec]
pub fn coordinate(index: usize, min: Double, max: Double, count: usize) -> Double
    requires
        count >= 1,
    returns
        min + (max - min) * Double::from_u64(index as u64) / Double::from_u64((count - 1) as u64),
{
    min + (max - min) * Double::from_u64(index as u64) / Double::from_u64((count - 1) as u64)
}

/// Numerator and denominator of the Lagrange basis polynomial `i` at `value`, over the points
/// before `j`.
pub open spec fn basis(points: Seq<Double>, value: Double, i: int, j: int) -> (Double, Double)
    decreases j,
{
    if j <= 0 {
        (num(ONE), num(ONE))
    } else {
        let (n, d) = basis(points, value, i, j - 1);
        if j - 1 == i {
            (n, d)
        } else {
            (n * (value - points[j - 1]), d * (points[i] - points[j - 1]))
        }
    }
}

/// The partial sum of the Lagrange interpolation at `value` over the points before `i`.
pub open spec fn lagrange_sum(
    points: Seq<Double>,
    samples: Seq<Double>,
    value: Double,
    i: int,
) -> Double
    decreases i,
{
    if i <= 0 {
        num(ZERO)
    } else {
        let (n, d) = basis(points, value, i - 1, points.len() as int);
        lagrange_sum(points, samples, value, i - 1) + samples[i - 1] * n / d
    }
}

/// Lagrange interpolation through `samples` at `points`.
pub open spec fn lagrange_at(points: Seq<Double>, samples: Seq<Double>, value: Double) -> Double {
    lagrange_sum(points, samples, value, points.len() as int)
}

fn lagrange(points: &Vec<Double>, samples: &Vec<Double>, value: Double) -> (r: Double)
    requires
        points@.len() == samples@.len(),
    ensures
        r == lagrange_at(points@, samples@, value),
{
    let mut total = num(ZERO);
    let mut i: usize = 0;
    while i < points.len()
        invariant
            i <= points@.len(),
            points@.len() == samples@.len(),
            total == lagrange_sum(points@, samples@, value, i as int),
        decreases points.len() - i,
    {
        let mut n = num(ONE);
        let mut d = num(ONE);
        let mut j: usize = 0;
        while j < points.len()
            invariant
                i < points@.len(),
                j <= points@.len(),
                (n, d) == basis(points@, value, i as int, j as int),
            decreases points.len() - j,
        {
            if j != i {
                n = n * (value - points[j]);
                d = d * (points[i] - points[j]);
            }
            j = j + 1;
        }
        total = total + samples[i] * n / d;
        i = i + 1;
    }
    total
}

/// Cardinal-spline interpolation of samples that lie `multiplier` grid lines apart, at the grid
/// line `index`.
pub open spec fn cardinal_at(
    samples: Seq<Double>,
    index: int,
    multiplier: int,
    tension: Double,
) -> Double {
    let n = samples.len() as int;
    let segment = if index / multiplier < n - 2 {
        index / multiplier
    } else {
        n - 2
    };
    let t = Double::from_u64((index - segment * multiplier) as u64) / Double::from_u64(
        multiplier as u64,
    );
    let t2 = t * t;
    let t3 = t2 * t;
    let p0 = samples[if segment == 0 {
        0
    } else {
        segment - 1
    }];
    let p1 = samples[segment];
    let p2 = samples[segment + 1];
    let p3 = samples[if segment + 2 < n {
        segment + 2
    } else {
        n - 1
    }];
    let m1 = tension * (p2 - p0);
    let m2 = tension * (p3 - p1);
    p1 * (num(TWO) * t3 - num(THREE) * t2 + num(ONE)) + p2 * (num(TWO).negated() * t3 + num(THREE)
        * t2) + m1 * (t3 - num(TWO) * t2 + t) + m2 * (t3 - t2)
}

fn cardinal(samples: &Vec<Double>, index: usize, multiplier: usize, tension: Double) -> (r: Double)
    requires
        samples@.len() >= 2,
        multiplier >= 1,
        index <= (samples@.len() - 1) * multiplier,
        (samples@.len() - 1) * multiplier <= usize::MAX,
    ensures
        r == cardinal_at(samples@, index as int, multiplier as int, tension),
{
    let n: usize = samples.len();
    let line: usize = index / multiplier;
    let segment: usize = if line < n - 2 {
        line
    } else {
        n - 2
    };
    proof {
        vstd::arithmetic::div_mod::lemma_fundamental_div_mod(index as int, multiplier as int);
        assert(segment * multiplier <= index) by (nonlinear_arith)
            requires
                segment <= line,
                index == multiplier * line + (index % multiplier),
                multiplier >= 1,
        ;
    }
    let base: usize = segment * multiplier;
    let t = Double::from_u64((index - base) as u64) / Double::from_u64(multiplier as u64);
    let t2 = t * t;
    let t3 = t2 * t;
    let p0 = samples[if segment == 0 {
        0
    } else {
        segment - 1
    }];
    let p1 = samples[segment];
    let p2 = samples[segment + 1];
    let p3 = samples[if segment + 2 < n {
        segment + 2
    } else {
        n - 1
    }];
    let m1 = tension * (p2 - p0);
    let m2 = tension * (p3 - p1);
    p1 * (num(TWO) * t3 - num(THREE) * t2 + num(ONE)) + p2 * (num(TWO).negated() * t3 + num(THREE)
        * t2) + m1 * (t3 - num(TWO) * t2 + t) + m2 * (t3 - t2)
}

/// How mesh points between probed points are computed.
#[derive(Clone, Copy, Debug, PartialEq, Eq, Structural)]
pub enum MeshAlgorithm {
    Direct,
    Lagrange,
    Bicubic,
}

/// One line of mesh points from the samples at every `multiplier`-th point.
pub open spec fn line_value(
    algorithm: MeshAlgorithm,
    samples: Seq<Double>,
    index: int,
    multiplier: int,
    min: Double,
    max: Double,
    tension: Double,
) -> Double {
    let count = (samples.len() - 1) * multiplier + 1;
    if index % multiplier == 0 {
        samples[index / multiplier]
    } else if algorithm is Bicubic {
        cardinal_at(samples, index, multiplier, tension)
    } else {
        lagrange_at(
            Seq::new(
                samples.len(),
                |i: int| coordinate((i * multiplier) as usize, min, max, count as usize),
            ),
            samples,
            coordinate(index as usize, min, max, count as usize),
        )
    }
}

pub open spec fn line_values(
    algorithm: MeshAlgorithm,
    samples: Seq<Double>,
    multiplier: int,
    min: Double,
    max: Double,
    tension: Double,
) -> Seq<Double> {
    Seq::new(
        ((samples.len() - 1) * multiplier + 1) as nat,
        |i: int| line_value(algorithm, samples, i, multiplier, min, max, tension),
    )
}

fn interpolate_line(
    algorithm: MeshAlgorithm,
    samples: &Vec<Double>,
    multiplier: usize,
    min: Double,
    max: Double,
    tension: Double,
) -> (r: Vec<Double>)
    requires
        samples@.len() >= 2,
        multiplier >= 1,
        (samples@.len() - 1) * multiplier + 1 <= usize::MAX,
    ensures
        r@ == line_values(algorithm, samples@, multiplier as int, min, max, tension),
{
    let n: usize = samples.len();
    let ghost top = (n - 1) * multiplier;
    let count: usize = (n - 1) * multiplier + 1;
    let mut points: Vec<Double> = Vec::new();
    let mut i: usize = 0;
    while i < n
        invariant
            i <= n,
            n >= 2,
            multiplier >= 1,
            count == (n - 1) * multiplier + 1,
            points@ == Seq::new(
                i as nat,
                |k: int| coordinate((k * multiplier) as usize, min, max, count),
            ),
        decreases n - i,
    {
        assert(i * multiplier <= (n - 1) * multiplier) by (nonlinear_arith)
            requires
                i <= n - 1,
                multiplier >= 1,
        ;
        points.push(coordinate(i * multiplier, min, max, count));
        i = i + 1;
    }
    let mut out: Vec<Double> = Vec::new();
    let mut x: usize = 0;
    while x < count
        invariant
            x <= count,
            n >= 2,
            n == samples@.len(),
            multiplier >= 1,
            count == (n - 1) * multiplier + 1,
            points@ == Seq::new(
                n as nat,
                |k: int| coordinate((k * multiplier) as usize, min, max, count),
            ),
            out@.len() == x,
            forall|k: int|
                0 <= k < x ==> out@[k] == line_value(
                    algorithm,
                    samples@,
                    k,
                    multiplier as int,
                    min,
                    max,
                    tension,
                ),
        decreases count - x,
    {
        let value: Double;
        if x % multiplier == 0 {
            proof {
                vstd::arithmetic::div_mod::lemma_fundamental_div_mod(x as int, multiplier as int);
                assert(x / multiplier <= n - 1) by (nonlinear_arith)
                    requires
                        x == multiplier * (x / multiplier),
                        x <= (n - 1) * multiplier,
                        multiplier >= 1,
                ;
            }
            value = samples[x / multiplier];
        } else if algorithm == MeshAlgorithm::Bicubic {
            value = cardinal(samples, x, multiplier, tension);
        } else {
            value = lagrange(&points, samples, coordinate(x, min, max, count));
        }
        out.push(value);
        x = x + 1;
    }
    out
}

/// Whether the points form a grid of at least two by two.
pub open spec fn is_grid(points: Seq<Seq<Double>>) -> bool {
    points.len() >= 2 && points[0].len() >= 2 && forall|y: int|
        0 <= y < points.len() ==> (#[trigger] points[y]).len() == points[0].len()
}

/// The algorithm that applies to a mesh, if it can be interpolated at all.
pub open spec fn chosen_algorithm(
    name: Seq<char>,
    points: Seq<Seq<Double>>,
    pps: [usize; 2],
) -> Option<MeshAlgorithm> {
    if name == "direct"@ && pps[0] == 0 && pps[1] == 0 {
        Some(MeshAlgorithm::Direct)
    } else if name == "lagrange"@ {
        Some(MeshAlgorithm::Lagrange)
    } else if name == "bicubic"@ && points[0].len() >= 4 && points.len() >= 4 {
        Some(MeshAlgorithm::Bicubic)
    } else {
        None
    }
}

/// The column `x` of a grid.
pub open spec fn column(grid: Seq<Seq<Double>>, x: int) -> Seq<Double> {
    Seq::new(grid.len(), |y: int| grid[y][x])
}

/// The probed rows, interpolated along X.
pub open spec fn wide_rows(
    algorithm: MeshAlgorithm,
    points: Seq<Seq<Double>>,
    x_mult: int,
    min: Double,
    max: Double,
    tension: Double,
) -> Seq<Seq<Double>> {
    Seq::new(
        points.len(),
        |y: int| line_values(algorithm, points[y], x_mult, min, max, tension),
    )
}

/// The whole mesh: rows interpolated along X, then columns along Y.
pub open spec fn mesh(
    algorithm: MeshAlgorithm,
    points: Seq<Seq<Double>>,
    min: [Double; 2],
    max: [Double; 2],
    pps: [usize; 2],
    tension: Double,
) -> Seq<Seq<Double>> {
    let wide = wide_rows(algorithm, points, pps[0] + 1, min[0], max[0], tension);
    let width = ((points[0].len() - 1) * (pps[0] + 1) + 1) as nat;
    let height = ((points.len() - 1) * (pps[1] + 1) + 1) as nat;
    if algorithm is Direct {
        points
    } else {
        Seq::new(
            height,
            |y: int|
                Seq::new(
                    width,
                    |x: int|
                        line_value(
                            algorithm,
                            column(wide, x),
                            y,
                            pps[1] + 1,
                            min[1],
                            max[1],
                            tension,
                        ),
                ),
        )
    }
}

/// Whether a mesh can be used: a proper rectangle with finite heights.
pub open spec fn usable(min: [Double; 2], max: [Double; 2], grid: Seq<Seq<Double>>) -> bool {
    &&& is_grid(grid)
    &&& max[0] > min[0]
    &&& max[1] > min[1]
    &&& forall|y: int, x: int|
        0 <= y < grid.len() && 0 <= x < grid[y].len() ==> (#[trigger] grid[y][x]).finite()
}

fn all_finite(row: &Vec<Double>) -> (r: bool)
    ensures
        r == (forall|x: int| 0 <= x < row@.len() ==> (#[trigger] row@[x]).finite()),
{
    let mut x: usize = 0;
    while x < row.len()
        invariant
            x <= row@.len(),
            forall|k: int| 0 <= k < x ==> (#[trigger] row@[k]).finite(),
        decreases row.len() - x,
    {
        if !row[x].is_finite() {
            return false;
        }
        x = x + 1;
    }
    true
}

fn grid_shape(points: &Vec<Vec<Double>>) -> (r: bool)
    ensures
        r == is_grid(rows(points@)),
{
    if points.len() < 2 || points[0].len() < 2 {
        return false;
    }
    let width: usize = points[0].len();
    let mut y: usize = 0;
    while y < points.len()
        invariant
            points@.len() >= 2,
            y <= points@.len(),
            width == points@[0]@.len(),
            width >= 2,
            forall|k: int| 0 <= k < y ==> (#[trigger] rows(points@)[k]).len() == width,
        decreases points.len() - y,
    {
        if points[y].len() != width {
            assert(rows(points@)[y as int].len() != rows(points@)[0].len());
            return false;
        }
        y = y + 1;
    }
    true
}

impl BedMeshProfile {
    pub open spec fn valid(&self) -> bool {
        usable(self.min, self.max, rows(self.matrix@))
    }

    pub fn is_valid(&self) -> (r: bool)
        ensures
            r == self.valid(),
    {
        if !grid_shape(&self.matrix) || !(self.max[0] > self.min[0]) || !(self.max[1]
            > self.min[1]) {
            return false;
        }
        let mut y: usize = 0;
        while y < self.matrix.len()
            invariant
                y <= self.matrix@.len(),
                forall|k: int, x: int|
                    0 <= k < y && 0 <= x < rows(self.matrix@)[k].len() ==> (#[trigger] rows(
                        self.matrix@,
                    )[k][x]).finite(),
            decreases self.matrix.len() - y,
        {
            if !all_finite(&self.matrix[y]) {
                proof {
                    let x = choose|x: int|
                        0 <= x < self.matrix@[y as int]@.len()
                            && !(#[trigger] self.matrix@[y as int]@[x]).finite();
                    assert(!rows(self.matrix@)[y as int][x].finite());
                }
                return false;
            }
            y = y + 1;
        }
        true
    }

    /// The mesh interpolated from probed points, if the algorithm can handle them and the
    /// result is usable.
    pub open spec fn interpolated(
        min: [Double; 2],
        max: [Double; 2],
        points: Seq<Seq<Double>>,
        pps: [usize; 2],
        name: Seq<char>,
        tension: Double,
    ) -> Option<Seq<Seq<Double>>> {
        if !is_grid(points) {
            None
        } else {
            match chosen_algorithm(name, points, pps) {
                None => None,
                Some(algorithm) => {
                    let grid = mesh(algorithm, points, min, max, pps, tension);
                    if usable(min, max, grid) {
                        Some(grid)
                    } else {
                        None
                    }
                },
            }
        }
    }

    /// Interpolates probed points; `mesh_pps` gives the added points per segment in X and Y.
    pub fn from_probed(
        min: [Double; 2],
        max: [Double; 2],
        points: Vec<Vec<Double>>,
        mesh_pps: [usize; 2],
        algorithm: &str,
        tension: Double,
    ) -> (r: Option<BedMeshProfile>)
        requires
            mesh_pps[0] < usize::MAX,
            mesh_pps[1] < usize::MAX,
            points@.len() > 0 && points@[0]@.len() > 0 ==> (points@[0]@.len() - 1) * (mesh_pps[0]
                + 1) + 1 <= usize::MAX,
            points@.len() > 0 ==> (points@.len() - 1) * (mesh_pps[1] + 1) + 1 <= usize::MAX,
        ensures
            match BedMeshProfile::interpolated(
                min,
                max,
                rows(points@),
                mesh_pps,
                algorithm@,
                tension,
            ) {
                Some(grid) => r matches Some(p) && p.min == min && p.max == max && rows(p.matrix@)
                    == grid,
                None => r is None,
            },
    {
        let ghost grid = rows(points@);
        if !grid_shape(&points) {
            return None;
        }
        let chosen: MeshAlgorithm = if same(algorithm, "direct") && mesh_pps[0] == 0 && mesh_pps[1]
            == 0 {
            MeshAlgorithm::Direct
        } else if same(algorithm, "lagrange") {
            MeshAlgorithm::Lagrange
        } else if same(algorithm, "bicubic") && points[0].len() >= 4 && points.len() >= 4 {
            MeshAlgorithm::Bicubic
        } else {
            return None;
        };
        let matrix: Vec<Vec<Double>> = if chosen == MeshAlgorithm::Direct {
            points
        } else {
            interpolate_grid(chosen, &points, min, max, mesh_pps, tension)
        };
        let profile = BedMeshProfile { min, max, matrix };
        if profile.is_valid() {
            Some(profile)
        } else {
            None
        }
    }
}

fn interpolate_grid(
    algorithm: MeshAlgorithm,
    points: &Vec<Vec<Double>>,
    min: [Double; 2],
    max: [Double; 2],
    pps: [usize; 2],
    tension: Double,
) -> (r: Vec<Vec<Double>>)
    requires
        is_grid(rows(points@)),
        !(algorithm is Direct),
        pps[0] < usize::MAX,
        pps[1] < usize::MAX,
        (points@[0]@.len() - 1) * (pps[0] + 1) + 1 <= usize::MAX,
        (points@.len() - 1) * (pps[1] + 1) + 1 <= usize::MAX,
    ensures
        rows(r@) == mesh(algorithm, rows(points@), min, max, pps, tension),
{
    let ghost grid = rows(points@);
    let x_mult: usize = pps[0] + 1;
    let y_mult: usize = pps[1] + 1;
    let n: usize = points.len();
    let ghost wide_spec = wide_rows(algorithm, grid, x_mult as int, min[0], max[0], tension);
    let mut wide: Vec<Vec<Double>> = Vec::new();
    let mut y: usize = 0;
    while y < n
        invariant
            n == points@.len(),
            grid == rows(points@),
            is_grid(grid),
            y <= n,
            x_mult >= 1,
            (grid[0].len() - 1) * x_mult + 1 <= usize::MAX,
            wide_spec == wide_rows(algorithm, grid, x_mult as int, min[0], max[0], tension),
            wide@.len() == y,
            forall|k: int| 0 <= k < y ==> (#[trigger] wide@[k])@ == wide_spec[k],
        decreases n - y,
    {
        assert(grid[y as int].len() == grid[0].len());
        let row = interpolate_line(algorithm, &points[y], x_mult, min[0], max[0], tension);
        wide.push(row);
        y = y + 1;
    }
    let width: usize = (points[0].len() - 1) * x_mult + 1;
    let height: usize = (n - 1) * y_mult + 1;
    // columns of the finished mesh
    let mut columns: Vec<Vec<Double>> = Vec::new();
    let mut x: usize = 0;
    while x < width
        invariant
            n == points@.len(),
            n >= 2,
            grid == rows(points@),
            is_grid(grid),
            wide@.len() == n,
            x <= width,
            y_mult >= 1,
            width == (grid[0].len() - 1) * x_mult + 1,
            height == (n - 1) * y_mult + 1,
            wide_spec == wide_rows(algorithm, grid, x_mult as int, min[0], max[0], tension),
            forall|k: int| 0 <= k < n ==> (#[trigger] wide@[k])@ == wide_spec[k],
            columns@.len() == x,
            forall|k: int|
                0 <= k < x ==> (#[trigger] columns@[k])@ == line_values(
                    algorithm,
                    column(wide_spec, k),
                    y_mult as int,
                    min[1],
                    max[1],
                    tension,
                ),
        decreases width - x,
    {
        let mut samples: Vec<Double> = Vec::new();
        let mut k: usize = 0;
        while k < n
            invariant
                n == points@.len(),
                grid == rows(points@),
                is_grid(grid),
                wide@.len() == n,
                x < width,
                width == (grid[0].len() - 1) * x_mult + 1,
                wide_spec == wide_rows(algorithm, grid, x_mult as int, min[0], max[0], tension),
                forall|j: int| 0 <= j < n ==> (#[trigger] wide@[j])@ == wide_spec[j],
                k <= n,
                samples@ == column(wide_spec, x as int).take(k as int),
            decreases n - k,
        {
            assert(grid[k as int].len() == grid[0].len());
            assert(wide@[k as int]@.len() == width);
            samples.push(wide[k][x]);
            assert(samples@ == column(wide_spec, x as int).take(k + 1));
            k = k + 1;
        }
        assert(samples@ == column(wide_spec, x as int));
        let done = interpolate_line(algorithm, &samples, y_mult, min[1], max[1], tension);
        columns.push(done);
        x = x + 1;
    }
    let ghost result = mesh(algorithm, grid, min, max, pps, tension);
    let mut out: Vec<Vec<Double>> = Vec::new();
    let mut y: usize = 0;
    while y < height
        invariant
            y <= height,
            columns@.len() == width,
            height == (n - 1) * y_mult + 1,
            n == grid.len(),
            width == (grid[0].len() - 1) * x_mult + 1,
            wide_spec == wide_rows(algorithm, grid, x_mult as int, min[0], max[0], tension),
            x_mult == pps[0] + 1,
            y_mult == pps[1] + 1,
            !(algorithm is Direct),
            result == mesh(algorithm, grid, min, max, pps, tension),
            forall|k: int|
                0 <= k < width ==> (#[trigger] columns@[k])@ == line_values(
                    algorithm,
                    column(wide_spec, k),
                    y_mult as int,
                    min[1],
                    max[1],
                    tension,
                ),
            out@.len() == y,
            forall|k: int| 0 <= k < y ==> (#[trigger] out@[k])@ == result[k],
        decreases height - y,
    {
        let mut row: Vec<Double> = Vec::new();
        let mut x: usize = 0;
        while x < width
            invariant
                y < height,
                x <= width,
                columns@.len() == width,
                height == (n - 1) * y_mult + 1,
                n == grid.len(),
                width == (grid[0].len() - 1) * x_mult + 1,
                wide_spec == wide_rows(algorithm, grid, x_mult as int, min[0], max[0], tension),
                x_mult == pps[0] + 1,
                y_mult == pps[1] + 1,
                !(algorithm is Direct),
                result == mesh(algorithm, grid, min, max, pps, tension),
                forall|k: int|
                    0 <= k < width ==> (#[trigger] columns@[k])@ == line_values(
                        algorithm,
                        column(wide_spec, k),
                        y_mult as int,
                        min[1],
                        max[1],
                        tension,
                    ),
                row@ == result[y as int].take(x as int),
            decreases width - x,
        {
            assert(columns@[x as int]@.len() == height);
            row.push(columns[x][y]);
            assert(row@ == result[y as int].take(x + 1));
            x = x + 1;
        }
        assert(row@ == result[y as int]);
        out.push(row);
        y = y + 1;
    }
    assert(rows(out@) == result);
    out
}

#[verifier::allow_in_spec]
pub fn lerp(t: Double, a: Double, b: Double) -> Double
    returns
        a + (b - a) * t,
{
    a + (b - a) * t
}

/// The segment of a line of `count` evenly spaced points that `value` falls into, and the
/// position inside the segment. Values outside the line take the nearest end.
#[verifier::allow_in_spec]
pub fn linear_index(value: Double, min: Double, max: Double, count: usize) -> (Double, usize)
    requires
        count >= 2,
    returns
        ({
            let distance = (max - min) / Double::from_u64((count - 1) as u64);
            let raw = ((value - min) / distance).floor();
            let wanted = raw.max(num(ZERO)).min(Double::from_u64((count - 2) as u64)).to_u64();
            let index = if wanted < count - 2 {
                wanted as usize
            } else {
                (count - 2) as usize
            };
            let start = min + distance * Double::from_u64(index as u64);
            (((value - start) / distance).clamp(num(ZERO), num(ONE)), index)
        }),
{
    let distance = (max - min) / Double::from_u64((count - 1) as u64);
    let raw = ((value - min) / distance).floor();
    let wanted: u64 = raw.max(num(ZERO)).min(Double::from_u64((count - 2) as u64)).to_u64();
    let index: usize = if wanted < (count - 2) as u64 {
        wanted as usize
    } else {
        count - 2
    };
    let start = min + distance * Double::from_u64(index as u64);
    (((value - start) / distance).clamp(num(ZERO), num(ONE)), index)
}

/// The sum of the first `x` numbers of `row`, added to `start`.
pub open spec fn row_sum(start: Double, row: Seq<Double>, x: int) -> Double
    decreases x,
{
    if x <= 0 {
        start
    } else {
        row_sum(start, row, x - 1) + row[x - 1]
    }
}

/// The sum of the first `y` rows.
pub open spec fn grid_sum(grid: Seq<Seq<Double>>, y: int) -> Double
    decreases y,
{
    if y <= 0 {
        num(ZERO)
    } else {
        row_sum(grid_sum(grid, y - 1), grid[y - 1], grid[y - 1].len() as int)
    }
}

/// The number of heights of a mesh.
pub open spec fn cell_count(grid: Seq<Seq<Double>>) -> u64 {
    if grid.len() * grid[0].len() <= u64::MAX {
        (grid.len() * grid[0].len()) as u64
    } else {
        u64::MAX
    }
}

impl BedMeshProfile {
    pub open spec fn grid(&self) -> Seq<Seq<Double>> {
        rows(self.matrix@)
    }

    /// The height at a point, interpolated in its cell.
    pub open spec fn height_at(&self, x: Double, y: Double) -> Double {
        let grid = self.grid();
        let (tx, xi) = linear_index(x, self.min[0], self.max[0], grid[0].len() as usize);
        let (ty, yi) = linear_index(y, self.min[1], self.max[1], grid.len() as usize);
        lerp(
            ty,
            lerp(tx, grid[yi as int][xi as int], grid[yi as int][xi + 1]),
            lerp(tx, grid[yi + 1][xi as int], grid[yi + 1][xi + 1]),
        )
    }

    fn calc_z(&self, x: Double, y: Double, offsets: [Double; 2]) -> (r: Double)
        requires
            self.valid(),
        ensures
            r == self.height_at(x + offsets[0], y + offsets[1]),
    {
        let ghost grid = self.grid();
        assert(grid[0].len() == self.matrix@[0]@.len());
        let width: usize = self.matrix[0].len();
        let height: usize = self.matrix.len();
        let (tx, xi) = linear_index(x + offsets[0], self.min[0], self.max[0], width);
        let (ty, yi) = linear_index(y + offsets[1], self.min[1], self.max[1], height);
        assert(grid[yi as int].len() == width && grid[yi + 1].len() == width);
        let z0 = lerp(tx, self.matrix[yi][xi], self.matrix[yi][xi + 1]);
        let z1 = lerp(tx, self.matrix[yi + 1][xi], self.matrix[yi + 1][xi + 1]);
        lerp(ty, z0, z1)
    }

    /// The mean height, rounded to hundredths.
    pub open spec fn mean(&self) -> Double {
        let grid = self.grid();
        (grid_sum(grid, grid.len() as int) / Double::from_u64(cell_count(grid)) * num(
            HUNDRED,
        )).round() / num(HUNDRED)
    }

    fn average(&self) -> (r: Double)
        requires
            self.valid(),
        ensures
            r == self.mean(),
    {
        let ghost grid = self.grid();
        let mut sum = num(ZERO);
        let mut y: usize = 0;
        while y < self.matrix.len()
            invariant
                grid == self.grid(),
                y <= self.matrix@.len(),
                sum == grid_sum(grid, y as int),
            decreases self.matrix.len() - y,
        {
            let start = sum;
            let mut x: usize = 0;
            while x < self.matrix[y].len()
                invariant
                    y < self.matrix@.len(),
                    grid == self.grid(),
                    x <= self.matrix@[y as int]@.len(),
                    sum == row_sum(start, grid[y as int], x as int),
                decreases self.matrix@[y as int]@.len() - x,
            {
                sum = sum + self.matrix[y][x];
                x = x + 1;
            }
            y = y + 1;
        }
        assert(grid[0].len() == self.matrix@[0]@.len());
        let h: u128 = self.matrix.len() as u128;
        let w: u128 = self.matrix[0].len() as u128;
        assert(h * w <= 0xffff_ffff_ffff_ffff * 0xffff_ffff_ffff_ffff) by (nonlinear_arith)
            requires
                h <= 0xffff_ffff_ffff_ffff,
                w <= 0xffff_ffff_ffff_ffff,
        ;
        let cells: u128 = h * w;
        let count: u64 = if cells <= u64::MAX as u128 {
            cells as u64
        } else {
            u64::MAX
        };
        (sum / Double::from_u64(count) * num(HUNDRED)).round() / num(HUNDRED)
    }
}

/// Moves a point by the skew of the three planes.
#[verifier::allow_in_spec]
pub fn apply_skew(position: Vec4, factors: SkewFactors) -> Vec4
    returns
        (Vec4 {
            x: position.x - position.y * factors.xy - position.z * (factors.xz - factors.xy
                * factors.yz),
            y: position.y - position.z * factors.yz,
            ..position
        }),
{
    Vec4 {
        x: position.x - position.y * factors.xy - position.z * (factors.xz - factors.xy
            * factors.yz),
        y: position.y - position.z * factors.yz,
        ..position
    }
}

/// Moves a skewed point back.
#[verifier::allow_in_spec]
pub fn unapply_skew(position: Vec4, factors: SkewFactors) -> Vec4
    returns
        (Vec4 {
            x: position.x + (position.y * factors.xy + position.z * factors.xz),
            y: position.y + position.z * factors.yz,
            ..position
        }),
{
    Vec4 {
        x: position.x + (position.y * factors.xy + position.z * factors.xz),
        y: position.y + position.z * factors.yz,
        ..position
    }
}

/// The height that faded moves keep.
pub open spec fn faded_height(config: BedMeshConfig, profile: BedMeshProfile) -> Double {
    if config.fade_end > config.fade_start {
        match config.fade_target {
            Some(target) => target,
            None => profile.mean(),
        }
    } else {
        num(ZERO)
    }
}

fn fade_target(config: &BedMeshConfig, profile: &BedMeshProfile) -> (r: Double)
    requires
        profile.valid(),
    ensures
        r == faded_height(*config, *profile),
{
    if config.fade_end > config.fade_start {
        match config.fade_target {
            Some(target) => target,
            None => profile.average(),
        }
    } else {
        num(ZERO)
    }
}

/// How much of the mesh applies at the height `z`.
#[verifier::allow_in_spec]
pub fn fade_factor(fade_start: Double, fade_end: Double, z: Double, tool_offset: Double) -> Double
    returns
        (if fade_end <= fade_start {
            num(ONE)
        } else if z + tool_offset >= fade_end {
            num(ZERO)
        } else if z + tool_offset >= fade_start {
            (fade_end - (z + tool_offset)) / (fade_end - fade_start)
        } else {
            num(ONE)
        }),
{
    if fade_end <= fade_start {
        return num(ONE);
    }
    let z = z + tool_offset;
    if z >= fade_end {
        num(ZERO)
    } else if z >= fade_start {
        (fade_end - z) / (fade_end - fade_start)
    } else {
        num(ONE)
    }
}

/// The active transforms of a configuration, which is held elsewhere.
#[derive(Clone, Debug)]
pub struct MotionTransformState {
    pub active_mesh: Option<String>,
    pub mesh_offsets: [Double; 2],
    pub tool_offset: Double,
    pub skew: SkewFactors,
}

/// A configuration with its active transforms.
#[verifier::ext_equal]
pub struct TransformView {
    pub config: MotionTransformConfig,
    pub active_mesh: Option<Seq<char>>,
    pub mesh_offsets: [Double; 2],
    pub tool_offset: Double,
    pub skew: SkewFactors,
}

impl MotionTransformState {
    /// The state together with its configuration.
    pub open spec fn with(&self, config: MotionTransformConfig) -> TransformView {
        TransformView {
            config,
            active_mesh: opt_text(self.active_mesh),
            mesh_offsets: self.mesh_offsets,
            tool_offset: self.tool_offset,
            skew: self.skew,
        }
    }
}

/// The profile stored under an optional name.
pub open spec fn skew_profile(config: MotionTransformConfig, name: Seq<char>) -> Option<
    SkewFactors,
> {
    match config.skew_correction {
        Some(skew) => lookup(skew.profiles@, name),
        None => None,
    }
}

/// The mesh path after the point at `checked`: a target for each step of the check distance at
/// which the offset changed by at least the split height. A step that no longer advances ends
/// the walk.
pub open spec fn split_points(
    v: TransformView,
    config: BedMeshConfig,
    profile: BedMeshProfile,
    factor: Double,
    start: Vec4,
    delta: Vec4,
    distance: Double,
    checked: Double,
    last_offset: Double,
) -> Seq<Vec4>
    decreases distance.rank() - checked.rank(),
{
    let next = checked + config.move_check_distance;
    if next < distance && checked < next {
        let position = start.plus(delta.times(next / distance));
        let offset = v.mesh_offset(config, profile, factor, position);
        if (offset - last_offset).abs() >= config.split_delta_z {
            seq![Vec4 { z: position.z + offset, ..position }] + split_points(
                v,
                config,
                profile,
                factor,
                start,
                delta,
                distance,
                next,
                offset,
            )
        } else {
            split_points(
                v,
                config,
                profile,
                factor,
                start,
                delta,
                distance,
                next,
                last_offset,
            )
        }
    } else {
        Seq::empty()
    }
}

impl TransformView {
    /// The mesh in use, if it is configured and usable.
    pub open spec fn active_profile(self) -> Option<(BedMeshConfig, BedMeshProfile)> {
        match (self.config.bed_mesh, self.active_mesh) {
            (Some(config), Some(name)) => match lookup(config.profiles@, name) {
                Some(profile) => if profile.valid() {
                    Some((config, profile))
                } else {
                    None
                },
                None => None,
            },
            _ => None,
        }
    }

    /// The height added at a point for a given fade factor.
    pub open spec fn mesh_offset(
        self,
        config: BedMeshConfig,
        profile: BedMeshProfile,
        factor: Double,
        position: Vec4,
    ) -> Double {
        let target = faded_height(config, profile);
        factor * (profile.height_at(
            position.x + self.mesh_offsets[0],
            position.y + self.mesh_offsets[1],
        ) - target) + target
    }

    /// The points that a move is led through.
    pub open spec fn path(self, start: Vec4, end: Vec4) -> Seq<Vec4> {
        let start = apply_skew(start, self.skew);
        let end = apply_skew(end, self.skew);
        match self.active_profile() {
            None => seq![end],
            Some((config, profile)) => {
                let factor = fade_factor(
                    config.fade_start,
                    config.fade_end,
                    end.z,
                    self.tool_offset,
                );
                if factor.equals(num(ZERO)) {
                    seq![Vec4 { z: end.z + faded_height(config, profile), ..end }]
                } else {
                    let last = Vec4 {
                        z: end.z + self.mesh_offset(config, profile, factor, end),
                        ..end
                    };
                    let delta = end.minus(start);
                    let distance = delta.xyz().length();
                    if distance.equals(num(ZERO)) {
                        seq![last]
                    } else {
                        split_points(
                            self,
                            config,
                            profile,
                            factor,
                            start,
                            delta,
                            distance,
                            num(ZERO),
                            self.mesh_offset(config, profile, factor, start),
                        ).push(last)
                    }
                }
            },
        }
    }

    /// The transformed position of a point.
    pub open spec fn transformed(self, position: Vec4) -> Vec4 {
        let position = apply_skew(position, self.skew);
        match self.active_profile() {
            None => position,
            Some((config, profile)) => {
                let factor = fade_factor(
                    config.fade_start,
                    config.fade_end,
                    position.z,
                    self.tool_offset,
                );
                Vec4 {
                    z: position.z + self.mesh_offset(config, profile, factor, position),
                    ..position
                }
            },
        }
    }

    /// The share of the mesh to take back at a transformed height.
    pub open spec fn unfade_factor(
        self,
        config: BedMeshConfig,
        fade_z: Double,
        max_adjustment: Double,
        target: Double,
    ) -> Double {
        if config.fade_end <= config.fade_start {
            num(ONE)
        } else if fade_z.min(fade_z - max_adjustment) >= config.fade_end {
            num(ZERO)
        } else if fade_z.max(fade_z - max_adjustment) >= config.fade_start {
            ((config.fade_end + target - fade_z) / (config.fade_end - config.fade_start - (
            max_adjustment - target))).clamp(num(ZERO), num(ONE))
        } else {
            num(ONE)
        }
    }

    /// The position whose transform a point is.
    pub open spec fn untransformed(self, position: Vec4) -> Vec4 {
        let flat = match self.active_profile() {
            None => position,
            Some((config, profile)) => {
                let max_adjustment = profile.height_at(
                    position.x + self.mesh_offsets[0],
                    position.y + self.mesh_offsets[1],
                );
                let target = faded_height(config, profile);
                let factor = self.unfade_factor(
                    config,
                    position.z + self.tool_offset,
                    max_adjustment,
                    target,
                );
                Vec4 {
                    z: position.z - (factor * (max_adjustment - target) + target),
                    ..position
                }
            },
        };
        unapply_skew(flat, self.skew)
    }

    pub open spec fn initial(config: MotionTransformConfig) -> TransformView {
        TransformView {
            config,
            active_mesh: match config.bed_mesh {
                Some(mesh) => opt_text(mesh.initial_profile),
                None => None,
            },
            mesh_offsets: [num(ZERO), num(ZERO)],
            tool_offset: num(ZERO),
            skew: match config.skew_correction {
                Some(skew) => match opt_text(skew.initial_profile) {
                    Some(name) => match lookup(skew.profiles@, name) {
                        Some(factors) => factors,
                        None => SkewFactors::none(),
                    },
                    None => SkewFactors::none(),
                },
                None => SkewFactors::none(),
            },
        }
    }

    /// The state with another mesh, or none, and no offsets.
    pub open spec fn with_mesh(self, name: Option<Seq<char>>) -> TransformView {
        TransformView {
            active_mesh: name,
            mesh_offsets: [num(ZERO), num(ZERO)],
            tool_offset: num(ZERO),
            ..self
        }
    }

    /// Whether a mesh of this name is configured.
    pub open spec fn has_mesh(self, name: Seq<char>) -> bool {
        match self.config.bed_mesh {
            Some(config) => has_key(config.profiles@, name),
            None => false,
        }
    }

    pub open spec fn with_offsets(
        self,
        x: Option<Double>,
        y: Option<Double>,
        zfade: Option<Double>,
    ) -> TransformView {
        if self.active_mesh is None {
            self
        } else {
            TransformView {
                mesh_offsets: [
                    if x is Some {
                        x->0
                    } else {
                        self.mesh_offsets[0]
                    },
                    if y is Some {
                        y->0
                    } else {
                        self.mesh_offsets[1]
                    },
                ],
                tool_offset: if zfade is Some {
                    zfade->0
                } else {
                    self.tool_offset
                },
                ..self
            }
        }
    }
}

impl MotionTransformState {
    pub fn new(config: &MotionTransformConfig) -> (r: MotionTransformState)
        ensures
            r.with(*config) == TransformView::initial(*config),
    {
        let active_mesh: Option<String> = match &config.bed_mesh {
            Some(mesh) => match &mesh.initial_profile {
                Some(name) => Some(name.clone()),
                None => None,
            },
            None => None,
        };
        let mut skew = SkewFactors::none();
        if let Some(correction) = &config.skew_correction {
            if let Some(name) = &correction.initial_profile {
                if let Some(factors) = correction.profiles.get(name.as_str()) {
                    skew = *factors;
                }
            }
        }
        MotionTransformState {
            active_mesh,
            mesh_offsets: [num(ZERO), num(ZERO)],
            tool_offset: num(ZERO),
            skew,
        }
    }

    pub fn clear_bed_mesh(&mut self)
        ensures
            forall|config: MotionTransformConfig| #[trigger]
                final(self).with(config) == old(self).with(config).with_mesh(None),
    {
        self.active_mesh = None;
        self.mesh_offsets = [num(ZERO), num(ZERO)];
        self.tool_offset = num(ZERO);
    }

    pub fn load_bed_mesh(&mut self, config: &MotionTransformConfig, name: &str) -> (found: bool)
        ensures
            found == old(self).with(*config).has_mesh(name@),
            final(self).with(*config) == if found {
                old(self).with(*config).with_mesh(Some(name@))
            } else {
                old(self).with(*config)
            },
    {
        let found: bool = match &config.bed_mesh {
            Some(config) => config.profiles.contains_key(name),
            None => false,
        };
        if found {
            self.active_mesh = Some(name.to_owned());
            self.mesh_offsets = [num(ZERO), num(ZERO)];
            self.tool_offset = num(ZERO);
        }
        found
    }

    pub fn offset_bed_mesh(&mut self, x: Option<Double>, y: Option<Double>, zfade: Option<Double>)
        ensures
            forall|config: MotionTransformConfig| #[trigger]
                final(self).with(config) == old(self).with(config).with_offsets(x, y, zfade),
    {
        if self.active_mesh.is_none() {
            return;
        }
        let offset_x = match x {
            Some(x) => x,
            None => self.mesh_offsets[0],
        };
        let offset_y = match y {
            Some(y) => y,
            None => self.mesh_offsets[1],
        };
        self.mesh_offsets = [offset_x, offset_y];
        if let Some(zfade) = zfade {
            self.tool_offset = zfade;
        }
    }

    pub fn load_skew(&mut self, config: &MotionTransformConfig, name: &str) -> (found: bool)
        ensures
            found == (skew_profile(*config, name@) is Some),
            final(self).with(*config) == (TransformView {
                skew: match skew_profile(*config, name@) {
                    Some(factors) => factors,
                    None => old(self).skew,
                },
                ..old(self).with(*config)
            }),
    {
        let factors: Option<SkewFactors> = match &config.skew_correction {
            Some(config) => match config.profiles.get(name) {
                Some(factors) => Some(*factors),
                None => None,
            },
            None => None,
        };
        match factors {
            Some(factors) => {
                self.skew = factors;
                true
            },
            None => false,
        }
    }

    pub fn set_skew(&mut self, factors: SkewFactors)
        ensures
            forall|config: MotionTransformConfig| #[trigger]
                final(self).with(config) == (TransformView {
                    skew: factors,
                    ..old(self).with(config)
                }),
    {
        self.skew = factors;
    }

    pub fn skew(&self) -> (r: SkewFactors)
        ensures
            r == self.skew,
    {
        self.skew
    }

    fn active_profile<'a>(&self, config: &'a MotionTransformConfig) -> (r: Option<
        (&'a BedMeshConfig, &'a BedMeshProfile),
    >)
        ensures
            match self.with(*config).active_profile() {
                Some((config, profile)) => r == Some((&config, &profile)),
                None => r is None,
            },
    {
        match (&config.bed_mesh, &self.active_mesh) {
            (Some(config), Some(name)) => match config.profiles.get(name.as_str()) {
                Some(profile) => if profile.is_valid() {
                    Some((config, profile))
                } else {
                    None
                },
                None => None,
            },
            _ => None,
        }
    }

    fn offset_at(
        &self,
        config: &BedMeshConfig,
        profile: &BedMeshProfile,
        factor: Double,
        position: Vec4,
    ) -> (r: Double)
        requires
            profile.valid(),
        ensures
            forall|all: MotionTransformConfig|
                r == (#[trigger] self.with(all)).mesh_offset(*config, *profile, factor, position),
    {
        let target = fade_target(config, profile);
        factor * (profile.calc_z(position.x, position.y, self.mesh_offsets) - target) + target
    }

    /// The points that a move is led through: skew first, then the mesh.
    pub fn transform_move(&self, all: &MotionTransformConfig, start: Vec4, end: Vec4) -> (r: Vec<Vec4>)
        ensures
            r@ == self.with(*all).path(start, end),
            r@.len() >= 1,
    {
        let start = apply_skew(start, self.skew);
        let end = apply_skew(end, self.skew);
        let mut result: Vec<Vec4> = Vec::new();
        let (config, profile) = match self.active_profile(all) {
            Some(pair) => pair,
            None => {
                result.push(end);
                return result;
            },
        };
        let factor = fade_factor(config.fade_start, config.fade_end, end.z, self.tool_offset);
        if factor == num(ZERO) {
            result.push(Vec4 { z: end.z + fade_target(config, profile), ..end });
            return result;
        }
        let last = Vec4 { z: end.z + self.offset_at(config, profile, factor, end), ..end };
        let delta = end.minus(start);
        let distance = delta.xyz().length();
        if distance == num(ZERO) {
            result.push(last);
            return result;
        }
        let mut checked = num(ZERO);
        let mut last_offset = self.offset_at(config, profile, factor, start);
        let ghost every = split_points(
            self.with(*all),
            *config,
            *profile,
            factor,
            start,
            delta,
            distance,
            num(ZERO),
            last_offset,
        );
        loop
            invariant_except_break
                profile.valid(),
                every == result@ + split_points(
                    self.with(*all),
                    *config,
                    *profile,
                    factor,
                    start,
                    delta,
                    distance,
                    checked,
                    last_offset,
                ),
            ensures
                every == result@,
            decreases distance.rank() - checked.rank(),
        {
            let next = checked + config.move_check_distance;
            if !(next < distance) || !(checked < next) {
                assert(every == result@);
                break;
            }
            let position = start.plus(delta.times(next / distance));
            let offset = self.offset_at(config, profile, factor, position);
            let ghost before = result@;
            if (offset - last_offset).abs() >= config.split_delta_z {
                let target = Vec4 { z: position.z + offset, ..position };
                proof {
                    let rest = split_points(
                        self.with(*all),
                        *config,
                        *profile,
                        factor,
                        start,
                        delta,
                        distance,
                        next,
                        offset,
                    );
                    assert(before + (seq![target] + rest) == before.push(target) + rest);
                }
                result.push(target);
                last_offset = offset;
            }
            checked = next;
        }
        result.push(last);
        result
    }

    /// The transformed position of a point.
    pub fn transform_position(&self, all: &MotionTransformConfig, position: Vec4) -> (r: Vec4)
        ensures
            r == self.with(*all).transformed(position),
    {
        let position = apply_skew(position, self.skew);
        let (config, profile) = match self.active_profile(all) {
            Some(pair) => pair,
            None => {
                return position;
            },
        };
        let factor = fade_factor(config.fade_start, config.fade_end, position.z, self.tool_offset);
        Vec4 { z: position.z + self.offset_at(config, profile, factor, position), ..position }
    }

    /// The position whose transform a point is.
    pub fn untransform_position(&self, all: &MotionTransformConfig, position: Vec4) -> (r: Vec4)
        ensures
            r == self.with(*all).untransformed(position),
    {
        let mut position = position;
        if let Some((config, profile)) = self.active_profile(all) {
            let max_adjustment = profile.calc_z(position.x, position.y, self.mesh_offsets);
            let target = fade_target(config, profile);
            let adjustment = max_adjustment - target;
            let fade_z = position.z + self.tool_offset;
            let factor = if config.fade_end <= config.fade_start {
                num(ONE)
            } else if fade_z.min(fade_z - max_adjustment) >= config.fade_end {
                num(ZERO)
            } else if fade_z.max(fade_z - max_adjustment) >= config.fade_start {
                ((config.fade_end + target - fade_z) / (config.fade_end - config.fade_start
                    - adjustment)).clamp(num(ZERO), num(ONE))
            } else {
                num(ONE)
            };
            position.z = position.z - (factor * adjustment + target);
        }
        unapply_skew(position, self.skew)
    }
}

/// A mesh by its heights.
#[verifier::ext_equal]
pub struct MeshView {
    pub min: [Double; 2],
    pub max: [Double; 2],
    pub matrix: Seq<Seq<Double>>,
}

impl View for BedMeshProfile {
    type V = MeshView;

    open spec fn view(&self) -> MeshView {
        MeshView { min: self.min, max: self.max, matrix: rows(self.matrix@) }
    }
}

impl DeepView for BedMeshProfile {
    type V = MeshView;

    open spec fn deep_view(&self) -> MeshView {
        self@
    }
}

impl DeepView for SkewFactors {
    type V = SkewFactors;

    open spec fn deep_view(&self) -> SkewFactors {
        *self
    }
}

#[verifier::ext_equal]
pub struct MeshConfigView {
    pub profiles: Seq<(Seq<char>, MeshView)>,
    pub initial_profile: Option<Seq<char>>,
    pub fade_start: Double,
    pub fade_end: Double,
    pub fade_target: Option<Double>,
    pub split_delta_z: Double,
    pub move_check_distance: Double,
}

/// Meshes by their names.
pub open spec fn meshes(v: Seq<(Seq<char>, BedMeshProfile)>) -> Seq<(Seq<char>, MeshView)> {
    Seq::new(v.len(), |i: int| (v[i].0, v[i].1@))
}

impl View for BedMeshConfig {
    type V = MeshConfigView;

    open spec fn view(&self) -> MeshConfigView {
        MeshConfigView {
            profiles: meshes(self.profiles@),
            initial_profile: opt_text(self.initial_profile),
            fade_start: self.fade_start,
            fade_end: self.fade_end,
            fade_target: self.fade_target,
            split_delta_z: self.split_delta_z,
            move_check_distance: self.move_check_distance,
        }
    }
}

#[verifier::ext_equal]
pub struct SkewConfigView {
    pub profiles: Seq<(Seq<char>, SkewFactors)>,
    pub initial_profile: Option<Seq<char>>,
}

impl View for SkewCorrectionConfig {
    type V = SkewConfigView;

    open spec fn view(&self) -> SkewConfigView {
        SkewConfigView {
            profiles: self.profiles@,
            initial_profile: opt_text(self.initial_profile),
        }
    }
}

#[verifier::ext_equal]
pub struct TransformsView {
    pub bed_mesh: Option<MeshConfigView>,
    pub skew_correction: Option<SkewConfigView>,
    pub unsupported_active: Seq<Seq<char>>,
}

impl View for MotionTransformConfig {
    type V = TransformsView;

    open spec fn view(&self) -> TransformsView {
        TransformsView {
            bed_mesh: match self.bed_mesh {
                Some(c) => Some(c@),
                None => None,
            },
            skew_correction: match self.skew_correction {
                Some(c) => Some(c@),
                None => None,
            },
            unsupported_active: texts(self.unsupported_active@),
        }
    }
}

impl MotionTransformConfig {
    pub open spec fn blank(&self) -> bool {
        self.bed_mesh is None && self.skew_correction is None && self.unsupported_active@.len()
            == 0
    }

    /// No transforms.
    pub fn none() -> (r: MotionTransformConfig)
        ensures
            r.blank(),
    {
        MotionTransformConfig {
            bed_mesh: None,
            skew_correction: None,
            unsupported_active: Vec::new(),
        }
    }

    pub fn is_empty(&self) -> (r: bool)
        ensures
            r == self.blank(),
    {
        self.bed_mesh.is_none() && self.skew_correction.is_none() && self.unsupported_active.len()
            == 0
    }
}

impl BedMeshConfig {
    /// No profiles, no fade, and the usual split distances.
    pub fn defaults() -> (r: BedMeshConfig)
        ensures
            r.profiles@.len() == 0,
            r.profiles.well_formed(),
            r.initial_profile is None,
            r.fade_start == num(ONE),
            r.fade_end == num(ZERO),
            r.fade_target is None,
            r.split_delta_z == num(SPLIT_DELTA_Z),
            r.move_check_distance == num(FIVE),
    {
        BedMeshConfig {
            profiles: Table::new(),
            initial_profile: None,
            fade_start: num(ONE),
            fade_end: num(ZERO),
            fade_target: None,
            split_delta_z: num(SPLIT_DELTA_Z),
            move_check_distance: num(FIVE),
        }
    }
}

/// The cosine of the angle between the sides of a skewed square with the diagonals `ac` and `bd`
/// and the side `ad`.
#[verifier::allow_in_spec]
pub fn skew_cosine(ac: Double, bd: Double, ad: Double) -> Option<Double>
    returns
        (if ac <= num(ZERO) || bd <= num(ZERO) || ad <= num(ZERO) {
            None
        } else {
            let radicand = num(TWO) * ac * ac + num(TWO) * bd * bd - num(FOUR) * ad * ad;
            let side = radicand.sqrt() / num(TWO);
            let cosine = (ac * ac - side * side - ad * ad) / (num(TWO) * side * ad);
            if radicand < num(ZERO) || !cosine.is_finite() {
                None
            } else {
                Some(cosine)
            }
        }),
{
    if ac <= num(ZERO) || bd <= num(ZERO) || ad <= num(ZERO) {
        return None;
    }
    let radicand = num(TWO) * ac * ac + num(TWO) * bd * bd - num(FOUR) * ad * ad;
    if radicand < num(ZERO) {
        return None;
    }
    let side = radicand.sqrt() / num(TWO);
    let cosine = (ac * ac - side * side - ad * ad) / (num(TWO) * side * ad);
    if cosine.is_finite() {
        Some(cosine)
    } else {
        None
    }
}

} // verus!
