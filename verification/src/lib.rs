pub mod coordinates;
pub mod math;

use crate::coordinates::Coordinates;
use crate::coordinates::spec_distance_squared;
use crate::math::sqrt_floor;
use vstd::prelude::*;

verus! {

/// Metres in one light year, after the defining conversion 1 ly =
/// 9.4607304725808e15 m, which is exact in whole metres.
pub const LIGHT_YEAR_METERS: u128 = 9_460_730_472_580_800;

/// Metres in one kilometre.
pub const KILOMETER_METERS: u128 = 1_000;

/// A physical length, held exactly as a whole number of metres. Callers
/// supply a unit at the boundary; each constructor converts it exactly to
/// this one canonical unit.
#[derive(Debug, Copy, Clone, PartialEq, Eq, Structural)]
pub struct Length {
    pub meters: u128,
}

impl Length {
    /// A length given in metres, the canonical unit.
    pub fn from_meters(meters: u128) -> (r: Length)
        ensures
            r.meters == meters,
    {
        Length { meters }
    }

    /// A length given in kilometres.
    pub fn from_kilometers(kilometers: u128) -> (r: Length)
        requires
            kilometers * KILOMETER_METERS <= u128::MAX,
        ensures
            r.meters == kilometers * KILOMETER_METERS,
    {
        Length { meters: kilometers * KILOMETER_METERS }
    }

    /// A length given in light years.
    pub fn from_light_years(light_years: u128) -> (r: Length)
        requires
            light_years * LIGHT_YEAR_METERS <= u128::MAX,
        ensures
            r.meters == light_years * LIGHT_YEAR_METERS,
    {
        Length { meters: light_years * LIGHT_YEAR_METERS }
    }
}

/// The form of a body placed in the grid. A sphere carries its radius;
/// the closed variant set leaves room for further forms, each matched
/// exhaustively wherever a shape is read.
#[derive(Debug, Copy, Clone, PartialEq, Eq, Structural)]
pub enum Shape {
    Sphere(Length),
}

/// An object represented in cartesian space: a shape bound to a grid
/// position. Construction validates nothing; the layout checks the
/// position when the object is added.
#[derive(Debug, Copy, Clone)]
pub struct Object {
    pub position: Coordinates,
    pub shape: Shape,
}

impl Object {
    /// Plain aggregate construction.
    pub fn new(position: Coordinates, shape: Shape) -> (r: Object)
        ensures
            r.position == position,
            r.shape == shape,
    {
        Object { position, shape }
    }
}

/// One stored object as seen from an observation point: its shape, its
/// exact distance from the observer (floored to whole metres), its grid
/// position, and the position it was observed from. The apparent visual
/// angle follows from the distance and the shape's radius; the caller
/// derives it from this record.
#[derive(Debug, Copy, Clone)]
pub struct ObservedObject {
    pub shape: Shape,
    pub distance: Length,
    pub coordinates: Coordinates,
    pub observed_from: Coordinates,
}

/// A value lies within the inclusive bound on one axis.
pub open spec fn in_bound(bound: int, v: int) -> bool {
    -bound <= v <= bound
}

/// A grid point lies within the inclusive bound on all three axes.
pub open spec fn coord_in_bounds(bound: int, c: Coordinates) -> bool {
    &&& in_bound(bound, c.x as int)
    &&& in_bound(bound, c.y as int)
    &&& in_bound(bound, c.z as int)
}

/// A three-dimensional cartesian space that stands in for an arbitrarily
/// large (or small) real extent. Integer grid coordinates up to
/// `coordinate_bound` in magnitude span a real edge length of `dimension`,
/// so one grid step represents `dimension / (2 * coordinate_bound)` of
/// real length, and large-magnitude positions never leave integer
/// arithmetic.
#[derive(Debug)]
pub struct Layout {
    pub objects: Vec<Object>,
    pub coordinate_bound: i64,
    pub dimension: Length,
}

impl Layout {
    /// The bound is positive and every stored object was admitted within it.
    pub open spec fn wf(self) -> bool {
        &&& 1 <= self.coordinate_bound
        &&& forall|i: int|
            0 <= i < self.objects@.len() ==> coord_in_bounds(
                self.coordinate_bound as int,
                (#[trigger] self.objects@[i]).position,
            )
    }

    /// An empty layout over a chosen grid resolution and real extent.
    pub fn new(coordinate_bound: i64, dimension: Length) -> (r: Layout)
        requires
            1 <= coordinate_bound,
        ensures
            r.coordinate_bound == coordinate_bound,
            r.dimension == dimension,
            r.objects@.len() == 0,
            r.wf(),
    {
        Layout { objects: Vec::new(), coordinate_bound, dimension }
    }

    /// A single axis value is inside the layout, bounds inclusive.
    pub fn check_bound(&self, dimension_value: &i64) -> (r: bool)
        requires
            1 <= self.coordinate_bound,
        ensures
            r == in_bound(self.coordinate_bound as int, *dimension_value as int),
    {
        let start: i64 = -self.coordinate_bound;
        let end: i64 = self.coordinate_bound;
        start <= *dimension_value && *dimension_value <= end
    }

    /// Add an object to the layout. The object is stored, and the call
    /// returns true, exactly when all three axes of its position lie within
    /// the bound; otherwise nothing changes. Nothing is ever removed, so
    /// every stored object keeps satisfying the bound it was admitted under.
    pub fn add_object(&mut self, object: Object) -> (r: bool)
        requires
            old(self).wf(),
        ensures
            r == coord_in_bounds(old(self).coordinate_bound as int, object.position),
            r ==> final(self).objects@ == old(self).objects@.push(object),
            !r ==> final(self).objects@ == old(self).objects@,
            final(self).coordinate_bound == old(self).coordinate_bound,
            final(self).dimension == old(self).dimension,
            final(self).wf(),
    {
        if !self.check_bound(&object.position.x) || !self.check_bound(&object.position.y)
            || !self.check_bound(&object.position.z) {
            false
        } else {
            self.objects.push(object);
            true
        }
    }
}

impl Default for Layout {
    /// The default grid: a resolution of 1000 steps per axis spanning one
    /// light year of real space.
    fn default() -> (r: Layout)
        ensures
            r.coordinate_bound == 1000,
            r.dimension.meters == LIGHT_YEAR_METERS,
            r.objects@.len() == 0,
            r.wf(),
    {
        Layout {
            objects: Vec::new(),
            coordinate_bound: 1000,
            dimension: Length { meters: LIGHT_YEAR_METERS },
        }
    }
}

/// The squared physical distance between two grid points of a layout, in
/// square metres, rounded down to an integer: the squared grid distance
/// scaled by the square of the real length of one grid unit,
/// `dimension / (2 * coordinate_bound)`.
pub open spec fn spec_scaled_distance_sq(l: Layout, p: Coordinates, q: Coordinates) -> int {
    spec_distance_squared(p, q) * l.dimension.meters * l.dimension.meters / (4
        * l.coordinate_bound * l.coordinate_bound)
}

/// The real length of one grid unit is a whole number of metres.
pub open spec fn unit_exact(l: Layout) -> bool {
    l.dimension.meters as int % (2 * l.coordinate_bound as int) == 0
}

/// The real length one grid unit represents, rounded down to whole metres.
pub open spec fn spec_unit_length(l: Layout) -> int {
    l.dimension.meters as int / (2 * l.coordinate_bound as int)
}

/// The scaled squared distance stays within machine range for a given
/// squared grid distance.
pub open spec fn scale_fits(l: Layout, dsq: int) -> bool {
    if unit_exact(l) {
        dsq * spec_unit_length(l) * spec_unit_length(l) <= u128::MAX
    } else {
        dsq * l.dimension.meters * l.dimension.meters <= u128::MAX
    }
}

/// When the grid unit is a whole number of metres, scaling the squared
/// grid distance by the squared unit length is exact.
proof fn lemma_exact_unit_scale(dsq: int, m: int, bb: int, u: int)
    requires
        0 <= dsq,
        0 <= m,
        1 <= bb,
        0 <= u,
        m == 2 * bb * u,
    ensures
        dsq * m * m / (4 * bb * bb) == dsq * u * u,
{
    assert(dsq * m * m == 4 * bb * bb * (dsq * u * u)) by (nonlinear_arith)
        requires
            m == 2 * bb * u,
    ;
    assert(0 < 4 * bb * bb) by (nonlinear_arith)
        requires
            1 <= bb,
    ;
    vstd::arithmetic::div_mod::lemma_div_multiples_vanish(dsq * u * u, 4 * bb * bb);
}

impl Layout {
    /// The real physical distance between two grid points of this layout, in
    /// whole metres, rounded down: the grid-unit Euclidean distance scaled
    /// by the real length of one grid unit. Symmetric in its two arguments.
    pub fn get_distance(&self, position: &Coordinates, comparison: &Coordinates) -> (r: Length)
        requires
            1 <= self.coordinate_bound,
            spec_distance_squared(*position, *comparison) <= u128::MAX,
            scale_fits(*self, spec_distance_squared(*position, *comparison)),
        ensures
            r.meters == sqrt_floor(spec_scaled_distance_sq(*self, *position, *comparison)),
    {
        let dsq: u128 = Coordinates::distance_squared(position, comparison);
        let b: u128 = self.coordinate_bound as u128;
        let two_b: u128 = 2 * b;
        let m: u128 = self.dimension.meters;
        let scaled_sq: u128 = if m % two_b == 0 {
            let unit: u128 = m / two_b;
            proof {
                vstd::arithmetic::div_mod::lemma_fundamental_div_mod(m as int, two_b as int);
                assert(dsq * unit <= u128::MAX && dsq * unit * unit <= u128::MAX)
                    by (nonlinear_arith)
                    requires
                        0 <= dsq,
                        0 <= unit,
                        dsq * unit * unit <= u128::MAX,
                ;
                lemma_exact_unit_scale(dsq as int, m as int, b as int, unit as int);
            }
            let t: u128 = dsq * unit;
            let num: u128 = t * unit;
            proof {
                assert(num == dsq * unit * unit);
            }
            num
        } else if dsq == 0 {
            proof {
                let di: int = spec_distance_squared(*position, *comparison);
                assert(di * m * m == 0 && 0 < 4 * (b as int) * (b as int)) by (nonlinear_arith)
                    requires
                        di == 0,
                        1 <= b,
                ;
                vstd::arithmetic::div_mod::lemma_div_of0(4 * (b as int) * (b as int));
            }
            0
        } else {
            proof {
                assert(m * m <= dsq * m * m && dsq * (m * m) == dsq * m * m)
                    by (nonlinear_arith)
                    requires
                        1 <= dsq,
                        0 <= m,
                ;
                assert(4 * b * b <= u128::MAX && 0 < 4 * b * b) by (nonlinear_arith)
                    requires
                        1 <= b <= 0x7FFF_FFFF_FFFF_FFFFu128,
                ;
            }
            let msq: u128 = m * m;
            let num: u128 = dsq * msq;
            let den: u128 = 4 * b * b;
            num / den
        };
        let root: u128 = crate::math::isqrt(scaled_sq);
        Length { meters: root }
    }

    /// The physical distance between two grid points, or `None` exactly when
    /// the squared grid distance, or its scaling to square metres, leaves the
    /// 128-bit machine range.
    pub fn try_get_distance(&self, position: &Coordinates, comparison: &Coordinates) -> (r: Option<
        Length,
    >)
        requires
            1 <= self.coordinate_bound,
        ensures
            r is Some <==> (spec_distance_squared(*position, *comparison) <= u128::MAX
                && scale_fits(*self, spec_distance_squared(*position, *comparison))),
            r matches Some(d) ==> d.meters == sqrt_floor(
                spec_scaled_distance_sq(*self, *position, *comparison),
            ),
    {
        let dsq_checked: Option<u128> = Coordinates::checked_distance_squared(
            position,
            comparison,
        );
        let dsq: u128 = match dsq_checked {
            None => { return None; },
            Some(v) => v,
        };
        let b: u128 = self.coordinate_bound as u128;
        let two_b: u128 = 2 * b;
        let m: u128 = self.dimension.meters;
        if m % two_b == 0 {
            let unit: u128 = m / two_b;
            proof {
                assert(unit_exact(*self));
                assert(unit == spec_unit_length(*self));
            }
            match dsq.checked_mul(unit) {
                None => {
                    proof {
                        assert(dsq * unit * unit > u128::MAX) by (nonlinear_arith)
                            requires
                                dsq * unit > u128::MAX,
                                0 <= dsq,
                                0 <= unit,
                        ;
                    }
                    None
                },
                Some(t) => {
                    proof {
                        assert(dsq * unit * unit == t * unit) by (nonlinear_arith)
                            requires
                                t == dsq * unit,
                        ;
                    }
                    match t.checked_mul(unit) {
                        None => None,
                        Some(_) => Some(self.get_distance(position, comparison)),
                    }
                },
            }
        } else if dsq == 0 {
            proof {
                let di: int = spec_distance_squared(*position, *comparison);
                assert(di * m * m == 0) by (nonlinear_arith)
                    requires
                        di == 0,
                ;
            }
            Some(self.get_distance(position, comparison))
        } else {
            match m.checked_mul(m) {
                None => {
                    proof {
                        assert(dsq * m * m > u128::MAX) by (nonlinear_arith)
                            requires
                                m * m > u128::MAX,
                                1 <= dsq,
                        ;
                    }
                    None
                },
                Some(msq) => {
                    proof {
                        assert(dsq * m * m == dsq * msq) by (nonlinear_arith)
                            requires
                                msq == m * m,
                        ;
                    }
                    match dsq.checked_mul(msq) {
                        None => None,
                        Some(_) => Some(self.get_distance(position, comparison)),
                    }
                },
            }
        }
    }
}

/// One record of an observation result matches the stored object it came
/// from: same shape, same grid position, the origin it was observed from,
/// and the exact scaled distance between origin and object.
pub open spec fn observed_matches(
    l: Layout,
    origin: Coordinates,
    rec: ObservedObject,
    i: int,
) -> bool {
    &&& rec.shape == l.objects@[i].shape
    &&& rec.coordinates == l.objects@[i].position
    &&& rec.observed_from == origin
    &&& rec.distance.meters == sqrt_floor(spec_scaled_distance_sq(l, origin, l.objects@[i].position))
}

impl Layout {
    /// Observe every stored object from a chosen origin: for each object, in
    /// insertion order, the result records its shape, its grid position, the
    /// origin, and its exact physical distance from the origin. The layout
    /// itself is only read; the result's length equals the number of stored
    /// objects, and nothing is filtered, sorted or deduplicated.
    #[verifier::loop_isolation(false)]
    pub fn observe_layout_objects(&self, origin: &Coordinates) -> (r: Vec<ObservedObject>)
        requires
            self.wf(),
            forall|i: int|
                0 <= i < self.objects@.len() ==> spec_distance_squared(
                    *origin,
                    (#[trigger] self.objects@[i]).position,
                ) <= u128::MAX,
            forall|i: int|
                0 <= i < self.objects@.len() ==> scale_fits(
                    *self,
                    spec_distance_squared(*origin, (#[trigger] self.objects@[i]).position),
                ),
        ensures
            r@.len() == self.objects@.len(),
            forall|i: int| 0 <= i < r@.len() ==> observed_matches(*self, *origin, #[trigger] r@[i], i),
    {
        let mut result: Vec<ObservedObject> = Vec::new();
        let mut idx: usize = 0;
        let n: usize = self.objects.len();
        while idx < n
            invariant
                idx <= n,
                result@.len() == idx,
                forall|j: int|
                    0 <= j < idx ==> observed_matches(*self, *origin, #[trigger] result@[j], j),
            decreases n - idx,
        {
            let object: &Object = &self.objects[idx];
            let distance: Length = self.get_distance(origin, &object.position);
            let rec: ObservedObject = ObservedObject {
                shape: object.shape,
                distance,
                coordinates: object.position,
                observed_from: *origin,
            };
            result.push(rec);
            idx = idx + 1;
        }
        result
    }
}

/// The placement bound is inclusive on both ends: the bound itself and its
/// negation lie inside, while one step further on either side lies outside.
/// So an object whose position sits exactly at the bound on one axis (and
/// within it on the others) is admitted by `add_object`, while one a single
/// step beyond is refused, whatever the other axes hold.
pub proof fn lemma_bound_inclusivity(bound: int, c: Coordinates)
    requires
        1 <= bound,
    ensures
        in_bound(bound, bound),
        in_bound(bound, -bound),
        !in_bound(bound, bound + 1),
        !in_bound(bound, -(bound + 1)),
        (c.x as int == bound || c.x as int == -bound) && in_bound(bound, c.y as int) && in_bound(
            bound,
            c.z as int,
        ) ==> coord_in_bounds(bound, c),
        (c.x as int == bound + 1 || c.x as int == -(bound + 1)) ==> !coord_in_bounds(bound, c),
{
}

/// The physical distance a layout reports is symmetric in its endpoints.
pub proof fn lemma_get_distance_symmetric(l: Layout, p: Coordinates, q: Coordinates)
    ensures
        spec_scaled_distance_sq(l, p, q) == spec_scaled_distance_sq(l, q, p),
        sqrt_floor(spec_scaled_distance_sq(l, p, q)) == sqrt_floor(spec_scaled_distance_sq(l, q, p)),
{
    crate::coordinates::lemma_distance_squared_symmetric(p, q);
}

/// Grid-to-real scaling: two points a full `coordinate_bound` apart on one
/// axis lie half the layout's real dimension apart (rounded down to whole
/// metres when the dimension is odd).
pub proof fn lemma_axis_scaling(l: Layout, p: Coordinates, q: Coordinates)
    requires
        1 <= l.coordinate_bound,
        p.y == q.y,
        p.z == q.z,
        q.x as int - p.x as int == l.coordinate_bound as int || p.x as int - q.x as int
            == l.coordinate_bound as int,
    ensures
        sqrt_floor(spec_scaled_distance_sq(l, p, q)) == l.dimension.meters as int / 2,
{
    let b: int = l.coordinate_bound as int;
    let m: int = l.dimension.meters as int;
    let dsq: int = spec_distance_squared(p, q);
    assert((p.x as int - q.x as int) * (p.x as int - q.x as int) == b * b) by (nonlinear_arith)
        requires
            q.x as int - p.x as int == b || p.x as int - q.x as int == b,
    ;
    assert(dsq == b * b);
    let k: int = m / 2;
    let rem: int = m % 2;
    vstd::arithmetic::div_mod::lemma_fundamental_div_mod(m, 2);
    assert(rem == 0 || rem == 1);
    assert(dsq * m * m == 4 * b * b * (k * k + k * rem) + rem * (b * b)) by (nonlinear_arith)
        requires
            dsq == b * b,
            m == 2 * k + rem,
            rem == 0 || rem == 1,
    ;
    assert(0 <= rem * (b * b) && rem * (b * b) < 4 * b * b && 0 < 4 * b * b) by (nonlinear_arith)
        requires
            1 <= b,
            rem == 0 || rem == 1,
    ;
    vstd::arithmetic::div_mod::lemma_div_multiples_vanish_fancy(
        k * k + k * rem,
        rem * (b * b),
        4 * b * b,
    );
    assert(spec_scaled_distance_sq(l, p, q) == k * k + k * rem);
    assert(crate::math::is_sqrt_floor(k * k + k * rem, k)) by (nonlinear_arith)
        requires
            0 <= k,
            rem == 0 || rem == 1,
    ;
    crate::math::lemma_sqrt_floor_of_witness(k * k + k * rem, k);
}

/// Observation is read-only and repeatable: two observation results taken
/// from the same layout and the same origin agree record for record.
pub proof fn lemma_observation_repeatable(
    l: Layout,
    origin: Coordinates,
    r1: Seq<ObservedObject>,
    r2: Seq<ObservedObject>,
)
    requires
        r1.len() == l.objects@.len(),
        r2.len() == l.objects@.len(),
        forall|i: int| 0 <= i < r1.len() ==> observed_matches(l, origin, #[trigger] r1[i], i),
        forall|i: int| 0 <= i < r2.len() ==> observed_matches(l, origin, #[trigger] r2[i], i),
    ensures
        r1 == r2,
{
    assert forall|i: int| 0 <= i < r1.len() implies r1[i] == r2[i] by {
        assert(observed_matches(l, origin, r1[i], i));
        assert(observed_matches(l, origin, r2[i], i));
    }
    assert(r1 =~= r2);
}

} // verus!
