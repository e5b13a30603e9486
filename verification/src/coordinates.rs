use vstd::prelude::*;

verus! {

/// One 64-bit machine word wraps at this modulus.
pub const WORD: u128 = 0x1_0000_0000_0000_0000;

/// Additive constant of the mixing function.
pub const MIX_INCREMENT: u128 = 0x9E37_79B9_7F4A_7C15;

/// First multiplicative constant of the mixing function.
pub const MIX_FACTOR_A: u128 = 0xBF58_476D_1CE4_E5B9;

/// Second multiplicative constant of the mixing function.
pub const MIX_FACTOR_B: u128 = 0x94D0_49BB_1331_11EB;

/// Addition reduced to a 64-bit word.
pub open spec fn add_wrap64(a: int, b: int) -> u64 {
    ((a + b) % (WORD as int)) as u64
}

/// Multiplication reduced to a 64-bit word.
pub open spec fn mul_wrap64(a: int, b: int) -> u64 {
    ((a * b) % (WORD as int)) as u64
}

/// The fixed 64-bit mixing step behind the coordinate hash: an
/// add-xor-multiply finalizer over published constants. The function is a
/// pure mapping of its argument, so the hash it produces is identical in
/// every build and on every machine.
pub open spec fn spec_mix64(v: u64) -> u64 {
    let a = add_wrap64(v as int, MIX_INCREMENT as int);
    let b = mul_wrap64((a ^ (a >> 30u64)) as int, MIX_FACTOR_A as int);
    let c = mul_wrap64((b ^ (b >> 27u64)) as int, MIX_FACTOR_B as int);
    c ^ (c >> 31u64)
}

/// The 64-bit two's-complement image of a signed axis value.
pub open spec fn to_bits64(v: i64) -> u64 {
    if v >= 0 {
        v as u64
    } else {
        (v + WORD) as u64
    }
}

/// Per-axis hash: offset the axis value (wrapping), then mix it.
pub open spec fn spec_axis_hash(v: i64, offset: int) -> u64 {
    spec_mix64(add_wrap64(to_bits64(v) as int, offset))
}

/// The coordinate hash: mix each axis after adding a distinct per-axis
/// offset (so that permuted or reflected triples hash apart), sum the three
/// words, fold the sum back into one word, and mix once more.
pub open spec fn spec_generate_hash(x: i64, y: i64, z: i64) -> u64 {
    let s = spec_axis_hash(x, 1) + spec_axis_hash(y, 2) + spec_axis_hash(z, 3);
    spec_mix64((s % (WORD as int)) as u64 ^ ((s / (WORD as int)) as u64))
}

/// One round of the fixed mixing function.
fn mix64(v: u64) -> (r: u64)
    ensures
        r == spec_mix64(v),
{
    let a: u64 = (((v as u128) + MIX_INCREMENT) % WORD) as u64;
    let ax: u64 = a ^ (a >> 30u64);
    let b: u64 = (((ax as u128) * MIX_FACTOR_A) % WORD) as u64;
    let bx: u64 = b ^ (b >> 27u64);
    let c: u64 = (((bx as u128) * MIX_FACTOR_B) % WORD) as u64;
    c ^ (c >> 31u64)
}

/// The two's-complement word of a signed axis value.
fn axis_bits(v: i64) -> (r: u64)
    ensures
        r == to_bits64(v),
{
    if v >= 0 {
        v as u64
    } else {
        let w: i128 = (v as i128) + (WORD as i128);
        w as u64
    }
}

/// Hash of one axis value under its per-axis offset.
fn axis_hash(v: i64, offset: u64) -> (r: u64)
    ensures
        r == spec_axis_hash(v, offset as int),
{
    let bits: u64 = axis_bits(v);
    let shifted: u64 = (((bits as u128) + (offset as u128)) % WORD) as u64;
    mix64(shifted)
}

/// Derive the identity hash of a coordinate triple. The combination is a
/// fixed, documented function of the three axis values alone, so equal
/// triples always produce equal hashes.
pub fn generate_hash(x: i64, y: i64, z: i64) -> (r: u64)
    ensures
        r == spec_generate_hash(x, y, z),
{
    let hx: u64 = axis_hash(x, 1);
    let hy: u64 = axis_hash(y, 2);
    let hz: u64 = axis_hash(z, 3);
    let s: u128 = hx as u128 + hy as u128 + hz as u128;
    let low: u64 = (s % WORD) as u64;
    let high: u64 = (s / WORD) as u64;
    mix64(low ^ high)
}

/// A cartesian grid point in three dimensions, together with the identity
/// hash derived from its three axis values.
#[derive(Debug, Copy, Clone)]
pub struct Coordinates {
    pub x: i64,
    pub y: i64,
    pub z: i64,
    pub hash: u64,
}

impl Coordinates {
    /// The cached hash agrees with the axes it was derived from.
    pub open spec fn hash_consistent(self) -> bool {
        self.hash == spec_generate_hash(self.x, self.y, self.z)
    }

    /// Identity of grid points: the three axes agree. The cached hash never
    /// takes part in the comparison.
    pub open spec fn same_point(self, other: Coordinates) -> bool {
        self.x == other.x && self.y == other.y && self.z == other.z
    }

    /// Create a new system of coordinates, deriving its hash.
    pub fn new(x: i64, y: i64, z: i64) -> (c: Coordinates)
        ensures
            c.x == x,
            c.y == y,
            c.z == z,
            c.hash_consistent(),
    {
        let h: u64 = generate_hash(x, y, z);
        Coordinates { x, y, z, hash: h }
    }
}

impl PartialEq for Coordinates {
    fn eq(&self, other: &Coordinates) -> (r: bool) {
        self.x == other.x && self.y == other.y && self.z == other.z
    }
}

impl vstd::std_specs::cmp::PartialEqSpecImpl for Coordinates {
    open spec fn obeys_eq_spec() -> bool {
        true
    }

    open spec fn eq_spec(&self, other: &Coordinates) -> bool {
        self.same_point(*other)
    }
}

/// The squared gap between two positions along one axis.
pub open spec fn axis_gap_sq(a: int, b: int) -> int {
    (a - b) * (a - b)
}

/// Exact squared Euclidean distance between two grid points, in grid units.
pub open spec fn spec_distance_squared(a: Coordinates, b: Coordinates) -> int {
    axis_gap_sq(a.x as int, b.x as int) + axis_gap_sq(a.y as int, b.y as int) + axis_gap_sq(
        a.z as int,
        b.z as int,
    )
}

/// The squared gap along one axis, computed exactly.
fn axis_gap_squared(a: i64, b: i64) -> (r: u128)
    ensures
        r == axis_gap_sq(a as int, b as int),
{
    let d: i128 = (a as i128) - (b as i128);
    let m: u128 = if d >= 0 {
        d as u128
    } else {
        (-d) as u128
    };
    proof {
        let g: int = a as int - b as int;
        assert(m == g || m == -g);
        assert(m < WORD);
        assert(m * m <= u128::MAX) by (nonlinear_arith)
            requires
                m < 0x1_0000_0000_0000_0000u128,
        ;
        assert(m * m == g * g) by (nonlinear_arith)
            requires
                m == g || m == -g,
        ;
    }
    let r: u128 = m * m;
    r
}

impl Coordinates {
    /// Exact squared Euclidean distance between two coordinates, in grid
    /// units. The square root, and any scaling to a physical length, are
    /// taken by the layout that owns the grid.
    pub fn distance_squared(coordinates_alpha: &Coordinates, coordinates_beta: &Coordinates) -> (r:
        u128)
        requires
            spec_distance_squared(*coordinates_alpha, *coordinates_beta) <= u128::MAX,
        ensures
            r == spec_distance_squared(*coordinates_alpha, *coordinates_beta),
    {
        let gx: u128 = axis_gap_squared(coordinates_alpha.x, coordinates_beta.x);
        let gy: u128 = axis_gap_squared(coordinates_alpha.y, coordinates_beta.y);
        let gz: u128 = axis_gap_squared(coordinates_alpha.z, coordinates_beta.z);
        gx + gy + gz
    }

    /// Exact squared Euclidean distance, or `None` exactly when the sum of
    /// the three axis squares leaves the 128-bit machine range.
    pub fn checked_distance_squared(
        coordinates_alpha: &Coordinates,
        coordinates_beta: &Coordinates,
    ) -> (r: Option<u128>)
        ensures
            r is Some <==> spec_distance_squared(*coordinates_alpha, *coordinates_beta)
                <= u128::MAX,
            r matches Some(v) ==> v == spec_distance_squared(*coordinates_alpha, *coordinates_beta),
    {
        let gx: u128 = axis_gap_squared(coordinates_alpha.x, coordinates_beta.x);
        let gy: u128 = axis_gap_squared(coordinates_alpha.y, coordinates_beta.y);
        let gz: u128 = axis_gap_squared(coordinates_alpha.z, coordinates_beta.z);
        match gx.checked_add(gy) {
            None => None,
            Some(s) => s.checked_add(gz),
        }
    }
}

/// The gap along an axis does not depend on the order of its endpoints.
pub proof fn lemma_axis_gap_symmetric(a: int, b: int)
    ensures
        axis_gap_sq(a, b) == axis_gap_sq(b, a),
{
    assert((a - b) * (a - b) == (b - a) * (b - a)) by (nonlinear_arith);
}

/// Squared distance is symmetric in its two endpoints.
pub proof fn lemma_distance_squared_symmetric(a: Coordinates, b: Coordinates)
    ensures
        spec_distance_squared(a, b) == spec_distance_squared(b, a),
{
    lemma_axis_gap_symmetric(a.x as int, b.x as int);
    lemma_axis_gap_symmetric(a.y as int, b.y as int);
    lemma_axis_gap_symmetric(a.z as int, b.z as int);
}

/// Identity ignores the hash, and the hash is deterministic: coordinates
/// built from the same axis triple are the same grid point and carry the
/// same hash, whatever else they were built alongside.
pub proof fn lemma_identity_ignores_hash(a: Coordinates, b: Coordinates)
    requires
        a.x == b.x,
        a.y == b.y,
        a.z == b.z,
        a.hash_consistent(),
        b.hash_consistent(),
    ensures
        a.same_point(b),
        b.same_point(a),
        a.hash == b.hash,
{
}

} // verus!
