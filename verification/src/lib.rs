//! A sparse tile world: machines placed on an unbounded integer grid
//! accumulate a resource over time, driven by a windowed per-frame
//! scheduler, a placement/erase state machine, a hotbar, and a text
//! save/load codec.
//!
//! All quantities that the reference rendering layer measures in
//! fractional units (pixels, cells, seconds, resource amounts) are held
//! here in thousandths, as integers.

use vstd::prelude::*;

pub mod build_mode;
pub mod celestial;
pub mod codec;
pub mod config;
pub mod grid_map;
pub mod gui;
pub mod hotbar;
pub mod textures;
pub mod tiles;
pub mod tower;

verus! {

/// One cell of the unbounded grid, addressed by integer coordinates.
#[derive(Clone, Copy, Debug, PartialEq, Eq, Structural)]
pub struct GridPos {
    pub x: i32,
    pub y: i32,
}

/// A 2-vector in thousandths: used both for screen positions
/// (milli-pixels) and for sub-cell world positions (milli-cells).
#[derive(Clone, Copy, Debug, PartialEq, Eq, Structural)]
pub struct Fixed2 {
    pub x: i64,
    pub y: i64,
}

impl GridPos {
    pub fn new(x: i32, y: i32) -> (r: GridPos)
        ensures
            r == (GridPos { x, y }),
    {
        GridPos { x, y }
    }
}

impl Fixed2 {
    pub fn new(x: i64, y: i64) -> (r: Fixed2)
        ensures
            r == (Fixed2 { x, y }),
    {
        Fixed2 { x, y }
    }
}

/// The grid map is keyed by a single integer; a coordinate pair is
/// packed into it reversibly.
pub open spec fn key_of(p: GridPos) -> u64 {
    ((p.x + 0x8000_0000) * 0x1_0000_0000 + (p.y + 0x8000_0000)) as u64
}

/// Inverse of `key_of`.
pub open spec fn pos_of_key(k: u64) -> GridPos {
    GridPos {
        x: (k / 0x1_0000_0000 - 0x8000_0000) as i32,
        y: (k % 0x1_0000_0000 - 0x8000_0000) as i32,
    }
}

/// Packing a coordinate and unpacking it gives the coordinate back;
/// hence `key_of` is injective.
pub broadcast proof fn lemma_key_of_inverse(p: GridPos)
    ensures
        #[trigger] pos_of_key(key_of(p)) == p,
{
    let xo = p.x + 0x8000_0000;
    let yo = p.y + 0x8000_0000;
    let k = xo * 0x1_0000_0000 + yo;
    assert(0 <= xo < 0x1_0000_0000);
    assert(0 <= yo < 0x1_0000_0000);
    assert(0 <= k < 0x1_0000_0000_0000_0000) by (nonlinear_arith)
        requires
            0 <= xo < 0x1_0000_0000,
            0 <= yo < 0x1_0000_0000,
            k == xo * 0x1_0000_0000 + yo,
    ;
    assert(k / 0x1_0000_0000 == xo && k % 0x1_0000_0000 == yo) by (nonlinear_arith)
        requires
            0 <= xo,
            0 <= yo < 0x1_0000_0000,
            k == xo * 0x1_0000_0000 + yo,
    ;
}

/// Unpacking any key and packing the result gives the key back; the
/// two functions are mutually inverse bijections.
pub broadcast proof fn lemma_pos_of_key_inverse(k: u64)
    ensures
        #[trigger] key_of(pos_of_key(k)) == k,
{
    let m = 0x1_0000_0000int;
    let xo = k as int / m;
    let yo = k as int % m;
    assert(xo * m + yo == k && 0 <= xo < m && 0 <= yo < m) by (nonlinear_arith)
        requires
            xo == k as int / m,
            yo == k as int % m,
            m == 0x1_0000_0000int,
            0 <= k < 0x1_0000_0000_0000_0000,
    ;
}

/// Packs a coordinate pair into the map key.
pub fn grid_key(p: GridPos) -> (k: u64)
    ensures
        k == key_of(p),
{
    let xo: u64 = (p.x as i64 + 0x8000_0000i64) as u64;
    let yo: u64 = (p.y as i64 + 0x8000_0000i64) as u64;
    xo * 0x1_0000_0000u64 + yo
}

/// Unpacks a map key into the coordinate pair it was made from.
pub fn grid_key_pos(k: u64) -> (p: GridPos)
    ensures
        p == pos_of_key(k),
{
    let xo: u64 = k / 0x1_0000_0000u64;
    let yo: u64 = k % 0x1_0000_0000u64;
    let x: i32 = (xo as i64 - 0x8000_0000i64) as i32;
    let y: i32 = (yo as i64 - 0x8000_0000i64) as i32;
    GridPos { x, y }
}

/// The output half of one step of the seeded generator: an
/// xorshifted, rotated view of the seed.
pub open spec fn pcg_output(seed: u64) -> u32 {
    let x = (((seed >> 18) ^ seed) >> 27) as u32;
    let rot = (seed >> 59) as u32;
    if rot == 0 {
        x
    } else {
        (x >> rot) | (x << (32 - rot))
    }
}

/// One step of a seeded pseudo-random generator: a number in the full
/// 32-bit range, and the seed for the next step. Same seed, same pair.
pub fn rand_with_seed(seed: u64) -> (r: (u32, u64))
    ensures
        r.0 == pcg_output(seed),
        r.1 == (seed * 6364136223846793005 + 1442695040888963407) % 0x1_0000_0000_0000_0000,
{
    let x: u32 = #[verifier::truncate] ((((seed >> 18) ^ seed) >> 27) as u32);
    let rot64: u64 = seed >> 59;
    proof {
        assert(seed >> 59 < 32) by (bit_vector);
    }
    let rot: u32 = rot64 as u32;
    let out: u32 = if rot == 0 {
        x
    } else {
        (x >> rot) | (x << (32 - rot))
    };
    let next: u64 = seed.wrapping_mul(6364136223846793005).wrapping_add(1442695040888963407);
    proof {
        lemma_pcg_next(seed, next);
    }
    (out, next)
}

/// The wrapped multiply-add above equals the mathematical one taken
/// modulo 2^64.
proof fn lemma_pcg_next(seed: u64, next: u64)
    requires
        next == vstd::wrapping::u64_specs::wrapping_add(
            vstd::wrapping::u64_specs::wrapping_mul(seed, 6364136223846793005),
            1442695040888963407,
        ),
    ensures
        next == (seed * 6364136223846793005 + 1442695040888963407) % 0x1_0000_0000_0000_0000,
{
    let m = 0x1_0000_0000_0000_0000int;
    let a = seed * 6364136223846793005;
    let c = 1442695040888963407int;
    let a1 = vstd::wrapping::u64_specs::wrapping_mul(seed, 6364136223846793005);
    assert(a1 == a % m) by (nonlinear_arith)
        requires
            a1 == ((seed as nat * 6364136223846793005nat) % 0x1_0000_0000_0000_0000nat) as u64,
            a == seed * 6364136223846793005,
            m == 0x1_0000_0000_0000_0000,
    ;
    vstd::arithmetic::div_mod::lemma_add_mod_noop(a, c, m);
    assert(a % m + c < 2 * m);
    assert((a % m + c) % m == if a % m + c >= m {
        a % m + c - m
    } else {
        a % m + c
    }) by (nonlinear_arith)
        requires
            0 <= a % m + c < 2 * m,
            m > 0,
    ;
    assert(c % m == c);
}

/// Flooring division by a positive divisor. In specifications `/` on
/// `int` already rounds toward negative infinity for positive
/// divisors, so the contract is plain division.
pub fn floor_div(a: i64, b: i64) -> (q: i64)
    requires
        b > 0,
    ensures
        q == a as int / b as int,
{
    if a >= 0 {
        let qa: u64 = (a as u64) / (b as u64);
        proof {
            assert(a as int / b as int == (a as u64) as int / (b as u64) as int);
        }
        qa as i64
    } else {
        let n: u128 = (-(a as i128)) as u128;
        let d: u128 = b as u128;
        let q: u128 = (n + d - 1) / d;
        let qi: i128 = -(q as i128);
        proof {
            lemma_neg_ceil_is_floor(a as int, b as int, n as int, q as int);
        }
        qi as i64
    }
}

/// For a < 0 < b with n == -a: -((n + b - 1) / b) == a / b (flooring).
proof fn lemma_neg_ceil_is_floor(a: int, b: int, n: int, q: int)
    requires
        a < 0,
        b > 0,
        n == -a,
        q == (n + b - 1) / b,
    ensures
        -q == a / b,
        -q >= -n,
{
    assert(-q == a / b && q <= n) by (nonlinear_arith)
        requires
            a < 0,
            b > 0,
            n == -a,
            q == (n + b - 1) / b,
    ;
}

/// Euclidean remainder by a positive divisor: the result is in
/// `[0, b)` and differs from `a` by a multiple of `b`.
pub fn floor_mod(a: i64, b: i64) -> (r: i64)
    requires
        0 < b <= 0x10_0000,
        -0x4000_0000_0000_0000 < a < 0x4000_0000_0000_0000,
    ensures
        r == a as int % b as int,
{
    let q = floor_div(a, b);
    proof {
        assert(a as int % b as int == a - (a as int / b as int) * b) by (nonlinear_arith)
            requires
                b > 0,
        ;
        assert(q * b <= a < q * b + b) by (nonlinear_arith)
            requires
                b > 0,
                q == a as int / b as int,
        ;
    }
    a - q * b
}

} // verus!
