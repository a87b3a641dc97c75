//! The density-function evaluation engine: a closed set of composable
//! numeric nodes over 3D sample positions, each reporting static analytic
//! bounds, with four memoization wrappers whose caching is provably
//! transparent: a wrapped node computes exactly what its child would.
//!
//! Values are 64-bit integers; arithmetic saturates at the type's range.
use vstd::prelude::*;

use crate::generator::ChunkContext;

verus! {

/// One generation pass: memo state never outlives the pass that created
/// it (the once cache, scoped to the instance's lifetime, is keyed by the
/// seed alone).
#[derive(Clone, Copy, PartialEq, Eq, Structural, Debug)]
pub struct GenPass {
    pub seed: u64,
    pub chunk_x: i32,
    pub chunk_z: i32,
}

/// The unary builtins.
#[derive(Clone, Copy, PartialEq, Eq, Structural, Debug)]
pub enum OneParamKind {
    Abs,
    Negate,
}

/// The binary builtins.
#[derive(Clone, Copy, PartialEq, Eq, Structural, Debug)]
pub enum TwoParamKind {
    Add,
    Min,
    Max,
}

/// An interpolated node: the child sampled on the 4-aligned grid point
/// at or below the position on each axis.
#[derive(Debug)]
pub struct Interpolated {
    pub function: Function,
}

/// A clamp node: the child's value clipped into `[min, max]`.
#[derive(Debug)]
pub struct Clamp {
    pub function: Function,
    pub min: i64,
    pub max: i64,
}

/// A unary builtin applied to one child.
#[derive(Debug)]
pub struct OneArgBuiltInFunction {
    pub kind: OneParamKind,
    pub param: Function,
}

/// A binary builtin applied to two children.
#[derive(Debug)]
pub struct TwoParamBuiltInFunction {
    pub kind: TwoParamKind,
    pub one: Function,
    pub two: Function,
}

/// A seeded noise source: a deterministic value in `[-amplitude,
/// amplitude]` derived from the seed and the sample position alone.
#[derive(Clone, Copy, PartialEq, Eq, Structural, Debug)]
pub struct NoiseFunction {
    pub amplitude: i64,
}

/// Memoizes the child per (x, z) column for one generation pass; the
/// child is sampled at y = 0, so every y of a column reuses the value.
#[derive(Debug)]
pub struct FlatCache {
    pub function: Function,
    pub memo: Vec<(i32, i32, i64)>,
    pub pass: Option<GenPass>,
    pub child_computes: u64,
}

/// Memoizes the child for the most recent (x, z) column of the current
/// generation pass; the child is sampled at y = 0.
#[derive(Debug)]
pub struct TwoDCache {
    pub function: Function,
    pub memo: Option<(i32, i32, i64)>,
    pub pass: Option<GenPass>,
    pub child_computes: u64,
}

/// Memoizes the child per 16-cubed cell of the current generation pass;
/// the child is sampled at the cell's origin.
#[derive(Debug)]
pub struct AllInCellCache {
    pub function: Function,
    pub memo: Option<(i32, i32, i32, i64)>,
    pub pass: Option<GenPass>,
    pub child_computes: u64,
}

/// Memoizes the child once for the instance's lifetime, keyed by the
/// seed; the child is sampled at the zero position.
#[derive(Debug)]
pub struct OnceCache {
    pub function: Function,
    pub memo: Option<(u64, i64)>,
    pub child_computes: u64,
}

/// A density function: the closed variant set.
#[derive(Debug)]
pub enum Function {
    /// A constant value.
    Constant(i64),
    Interpolated(Box<Interpolated>),
    Clamp(Box<Clamp>),
    OneParam(Box<OneArgBuiltInFunction>),
    TwoParam(Box<TwoParamBuiltInFunction>),
    AllInCellCache(Box<AllInCellCache>),
    FlatCache(Box<FlatCache>),
    TwoDCellCache(Box<TwoDCache>),
    OnceCache(Box<OnceCache>),
    Noise(NoiseFunction),
}

/// Clips a value into the i64 range.
pub open spec fn sat(v: int) -> int {
    if v < i64::MIN as int {
        i64::MIN as int
    } else if v > i64::MAX as int {
        i64::MAX as int
    } else {
        v
    }
}

/// Clips `v` into `[lo, hi]` (for `lo <= hi`).
pub open spec fn clamp_int(v: int, lo: int, hi: int) -> int {
    if v < lo {
        lo
    } else if v > hi {
        hi
    } else {
        v
    }
}

/// The magnitude of `v`, clipped into the i64 range.
pub open spec fn sat_abs(v: int) -> int {
    if v < 0 {
        sat(-v)
    } else {
        sat(v)
    }
}

pub open spec fn min_int(a: int, b: int) -> int {
    if a < b {
        a
    } else {
        b
    }
}

pub open spec fn max_int(a: int, b: int) -> int {
    if a > b {
        a
    } else {
        b
    }
}

/// The 4-aligned grid point at or below `v`.
pub open spec fn floor4(v: i64) -> i64 {
    (v - (v as int % 4)) as i64
}

/// The 16-aligned grid point at or below `v`.
pub open spec fn floor16(v: i64) -> i64 {
    (v - (v as int % 16)) as i64
}

/// One 64-bit mixing round.
pub open spec fn mix64(v: u64) -> u64 {
    let a = (v ^ (v >> 30)).wrapping_mul(0xBF58476D1CE4E5B9);
    let b = (a ^ (a >> 27)).wrapping_mul(0x94D049BB133111EB);
    b ^ (b >> 31)
}

/// The hash that drives a noise node: a pure function of the seed and
/// the sample position.
pub open spec fn position_hash(seed: u64, x: i64, y: i64, z: i64) -> u64 {
    let h0 = mix64(seed.wrapping_add(0x9E3779B97F4A7C15));
    let h1 = mix64(h0.wrapping_add_signed(x));
    let h2 = mix64(h1.wrapping_add_signed(y));
    mix64(h2.wrapping_add_signed(z))
}

/// The value of a noise node: in `[-amp, amp]`, uniform over the hash.
pub open spec fn noise_val(seed: u64, x: i64, y: i64, z: i64, amp: i64) -> int {
    (position_hash(seed, x, y, z) as int) % (2 * amp + 1) - amp
}

/// What a density node computes at a sample position. Memo state is
/// ignored: this is the mathematical meaning that caching must preserve.
pub open spec fn eval(f: Function, seed: u64, x: i64, y: i64, z: i64) -> int
    decreases f,
{
    match f {
        Function::Constant(v) => v as int,
        Function::Interpolated(b) => eval(b.function, seed, floor4(x), floor4(y), floor4(z)),
        Function::Clamp(b) => clamp_int(
            eval(b.function, seed, x, y, z),
            b.min as int,
            b.max as int,
        ),
        Function::OneParam(b) => {
            let v = eval(b.param, seed, x, y, z);
            match b.kind {
                OneParamKind::Abs => sat_abs(v),
                OneParamKind::Negate => sat(-v),
            }
        },
        Function::TwoParam(b) => {
            let v1 = eval(b.one, seed, x, y, z);
            let v2 = eval(b.two, seed, x, y, z);
            match b.kind {
                TwoParamKind::Add => sat(v1 + v2),
                TwoParamKind::Min => min_int(v1, v2),
                TwoParamKind::Max => max_int(v1, v2),
            }
        },
        Function::AllInCellCache(b) => eval(b.function, seed, floor16(x), floor16(y), floor16(z)),
        Function::FlatCache(b) => eval(b.function, seed, x, 0, z),
        Function::TwoDCellCache(b) => eval(b.function, seed, x, 0, z),
        Function::OnceCache(b) => eval(b.function, seed, 0, 0, 0),
        Function::Noise(n) => noise_val(seed, x, y, z, n.amplitude),
    }
}

/// Whether two nodes describe the same function: equal structure and
/// parameters, with memo state ignored.
pub open spec fn same_shape(f: Function, g: Function) -> bool
    decreases f,
{
    match (f, g) {
        (Function::Constant(a), Function::Constant(b)) => a == b,
        (Function::Interpolated(a), Function::Interpolated(b)) => same_shape(
            a.function,
            b.function,
        ),
        (Function::Clamp(a), Function::Clamp(b)) => a.min == b.min && a.max == b.max && same_shape(
            a.function,
            b.function,
        ),
        (Function::OneParam(a), Function::OneParam(b)) => a.kind == b.kind && same_shape(
            a.param,
            b.param,
        ),
        (Function::TwoParam(a), Function::TwoParam(b)) => a.kind == b.kind && same_shape(
            a.one,
            b.one,
        ) && same_shape(a.two, b.two),
        (Function::AllInCellCache(a), Function::AllInCellCache(b)) => same_shape(
            a.function,
            b.function,
        ),
        (Function::FlatCache(a), Function::FlatCache(b)) => same_shape(a.function, b.function),
        (Function::TwoDCellCache(a), Function::TwoDCellCache(b)) => same_shape(
            a.function,
            b.function,
        ),
        (Function::OnceCache(a), Function::OnceCache(b)) => same_shape(a.function, b.function),
        (Function::Noise(a), Function::Noise(b)) => a.amplitude == b.amplitude,
        _ => false,
    }
}

/// Every node is shaped like itself.
pub proof fn lemma_same_shape_reflexive(f: Function)
    ensures
        same_shape(f, f),
    decreases f,
{
    match f {
        Function::Constant(v) => {},
        Function::Interpolated(b) => lemma_same_shape_reflexive(b.function),
        Function::Clamp(b) => lemma_same_shape_reflexive(b.function),
        Function::OneParam(b) => lemma_same_shape_reflexive(b.param),
        Function::TwoParam(b) => {
            lemma_same_shape_reflexive(b.one);
            lemma_same_shape_reflexive(b.two);
        },
        Function::AllInCellCache(b) => lemma_same_shape_reflexive(b.function),
        Function::FlatCache(b) => lemma_same_shape_reflexive(b.function),
        Function::TwoDCellCache(b) => lemma_same_shape_reflexive(b.function),
        Function::OnceCache(b) => lemma_same_shape_reflexive(b.function),
        Function::Noise(n) => {},
    }
}

/// Shape likeness is transitive.
pub proof fn lemma_same_shape_trans(f: Function, g: Function, h: Function)
    requires
        same_shape(f, g),
        same_shape(g, h),
    ensures
        same_shape(f, h),
    decreases f,
{
    match (f, g, h) {
        (Function::Interpolated(a), Function::Interpolated(b), Function::Interpolated(c)) => {
            lemma_same_shape_trans(a.function, b.function, c.function);
        },
        (Function::Clamp(a), Function::Clamp(b), Function::Clamp(c)) => {
            lemma_same_shape_trans(a.function, b.function, c.function);
        },
        (Function::OneParam(a), Function::OneParam(b), Function::OneParam(c)) => {
            lemma_same_shape_trans(a.param, b.param, c.param);
        },
        (Function::TwoParam(a), Function::TwoParam(b), Function::TwoParam(c)) => {
            lemma_same_shape_trans(a.one, b.one, c.one);
            lemma_same_shape_trans(a.two, b.two, c.two);
        },
        (
            Function::AllInCellCache(a),
            Function::AllInCellCache(b),
            Function::AllInCellCache(c),
        ) => {
            lemma_same_shape_trans(a.function, b.function, c.function);
        },
        (Function::FlatCache(a), Function::FlatCache(b), Function::FlatCache(c)) => {
            lemma_same_shape_trans(a.function, b.function, c.function);
        },
        (Function::TwoDCellCache(a), Function::TwoDCellCache(b), Function::TwoDCellCache(c)) => {
            lemma_same_shape_trans(a.function, b.function, c.function);
        },
        (Function::OnceCache(a), Function::OnceCache(b), Function::OnceCache(c)) => {
            lemma_same_shape_trans(a.function, b.function, c.function);
        },
        _ => {},
    }
}

/// Nodes of the same shape compute the same value everywhere.
pub proof fn lemma_eval_congruent(f: Function, g: Function, seed: u64, x: i64, y: i64, z: i64)
    requires
        same_shape(f, g),
    ensures
        eval(f, seed, x, y, z) == eval(g, seed, x, y, z),
    decreases f,
{
    match (f, g) {
        (Function::Interpolated(a), Function::Interpolated(b)) => {
            lemma_eval_congruent(a.function, b.function, seed, floor4(x), floor4(y), floor4(z));
        },
        (Function::Clamp(a), Function::Clamp(b)) => {
            lemma_eval_congruent(a.function, b.function, seed, x, y, z);
        },
        (Function::OneParam(a), Function::OneParam(b)) => {
            lemma_eval_congruent(a.param, b.param, seed, x, y, z);
        },
        (Function::TwoParam(a), Function::TwoParam(b)) => {
            lemma_eval_congruent(a.one, b.one, seed, x, y, z);
            lemma_eval_congruent(a.two, b.two, seed, x, y, z);
        },
        (Function::AllInCellCache(a), Function::AllInCellCache(b)) => {
            lemma_eval_congruent(a.function, b.function, seed, floor16(x), floor16(y), floor16(z));
        },
        (Function::FlatCache(a), Function::FlatCache(b)) => {
            lemma_eval_congruent(a.function, b.function, seed, x, 0, z);
        },
        (Function::TwoDCellCache(a), Function::TwoDCellCache(b)) => {
            lemma_eval_congruent(a.function, b.function, seed, x, 0, z);
        },
        (Function::OnceCache(a), Function::OnceCache(b)) => {
            lemma_eval_congruent(a.function, b.function, seed, 0, 0, 0);
        },
        _ => {},
    }
}

/// Structural well-formedness plus cache validity: every memo entry holds
/// exactly what the child computes for that entry's key and pass.
pub open spec fn node_wf(f: Function) -> bool
    decreases f,
{
    match f {
        Function::Constant(v) => true,
        Function::Interpolated(b) => node_wf(b.function),
        Function::Clamp(b) => b.min <= b.max && node_wf(b.function),
        Function::OneParam(b) => node_wf(b.param),
        Function::TwoParam(b) => node_wf(b.one) && node_wf(b.two),
        Function::AllInCellCache(b) => node_wf(b.function) && (match (b.pass, b.memo) {
            (Some(p), Some(m)) => m.3 as int == eval(
                b.function,
                p.seed,
                m.0 as i64,
                m.1 as i64,
                m.2 as i64,
            ),
            _ => true,
        }),
        Function::FlatCache(b) => node_wf(b.function) && (match b.pass {
            Some(p) => forall|i: int|
                0 <= i < b.memo@.len() ==> (#[trigger] b.memo@[i]).2 as int == eval(
                    b.function,
                    p.seed,
                    b.memo@[i].0 as i64,
                    0,
                    b.memo@[i].1 as i64,
                ),
            None => true,
        }),
        Function::TwoDCellCache(b) => node_wf(b.function) && (match (b.pass, b.memo) {
            (Some(p), Some(m)) => m.2 as int == eval(b.function, p.seed, m.0 as i64, 0, m.1 as i64),
            _ => true,
        }),
        Function::OnceCache(b) => node_wf(b.function) && (match b.memo {
            Some(m) => m.1 as int == eval(b.function, m.0, 0, 0, 0),
            None => true,
        }),
        Function::Noise(n) => 0 <= n.amplitude < 0x8000_0000,
    }
}

/// The static analytic bounds of a node, as `(min, max)`: not measured
/// extrema, but an interval the value provably never leaves.
pub open spec fn bounds(f: Function) -> (int, int)
    decreases f,
{
    match f {
        Function::Constant(v) => (v as int, v as int),
        Function::Interpolated(b) => bounds(b.function),
        Function::Clamp(b) => {
            let (lo, hi) = bounds(b.function);
            (clamp_int(lo, b.min as int, b.max as int), clamp_int(hi, b.min as int, b.max as int))
        },
        Function::OneParam(b) => {
            let (lo, hi) = bounds(b.param);
            match b.kind {
                OneParamKind::Abs => (
                    if lo <= 0 && 0 <= hi {
                        0
                    } else {
                        min_int(sat_abs(lo), sat_abs(hi))
                    },
                    max_int(sat_abs(lo), sat_abs(hi)),
                ),
                OneParamKind::Negate => (sat(-hi), sat(-lo)),
            }
        },
        Function::TwoParam(b) => {
            let (lo1, hi1) = bounds(b.one);
            let (lo2, hi2) = bounds(b.two);
            match b.kind {
                TwoParamKind::Add => (sat(lo1 + lo2), sat(hi1 + hi2)),
                TwoParamKind::Min => (min_int(lo1, lo2), min_int(hi1, hi2)),
                TwoParamKind::Max => (max_int(lo1, lo2), max_int(hi1, hi2)),
            }
        },
        Function::AllInCellCache(b) => bounds(b.function),
        Function::FlatCache(b) => bounds(b.function),
        Function::TwoDCellCache(b) => bounds(b.function),
        Function::OnceCache(b) => bounds(b.function),
        Function::Noise(n) => (-(n.amplitude as int), n.amplitude as int),
    }
}

/// The static bounds are sound: a well-formed node's value never leaves
/// `[min, max]` at any seed or sample position.
pub proof fn lemma_eval_in_bounds(f: Function, seed: u64, x: i64, y: i64, z: i64)
    requires
        node_wf(f),
    ensures
        bounds(f).0 <= eval(f, seed, x, y, z) <= bounds(f).1,
    decreases f,
{
    match f {
        Function::Constant(v) => {},
        Function::Interpolated(b) => {
            lemma_eval_in_bounds(b.function, seed, floor4(x), floor4(y), floor4(z));
        },
        Function::Clamp(b) => {
            lemma_eval_in_bounds(b.function, seed, x, y, z);
        },
        Function::OneParam(b) => {
            lemma_eval_in_bounds(b.param, seed, x, y, z);
        },
        Function::TwoParam(b) => {
            lemma_eval_in_bounds(b.one, seed, x, y, z);
            lemma_eval_in_bounds(b.two, seed, x, y, z);
        },
        Function::AllInCellCache(b) => {
            lemma_eval_in_bounds(b.function, seed, floor16(x), floor16(y), floor16(z));
        },
        Function::FlatCache(b) => {
            lemma_eval_in_bounds(b.function, seed, x, 0, z);
        },
        Function::TwoDCellCache(b) => {
            lemma_eval_in_bounds(b.function, seed, x, 0, z);
        },
        Function::OnceCache(b) => {
            lemma_eval_in_bounds(b.function, seed, 0, 0, 0);
        },
        Function::Noise(n) => {
            let amp = n.amplitude as int;
            let h = position_hash(seed, x, y, z) as int;
            assert(0 <= h % (2 * amp + 1) < 2 * amp + 1);
        },
    }
}

/// Addition clipped at the value range.
fn sat_add(a: i64, b: i64) -> (r: i64)
    ensures
        r as int == sat(a as int + b as int),
{
    if a > 0 && b > i64::MAX - a {
        i64::MAX
    } else if a < 0 && b < i64::MIN - a {
        i64::MIN
    } else {
        a + b
    }
}

/// Negation clipped at the value range.
fn sat_neg(v: i64) -> (r: i64)
    ensures
        r as int == sat(-(v as int)),
{
    if v == i64::MIN {
        i64::MAX
    } else {
        -v
    }
}

/// Magnitude clipped at the value range.
fn sat_abs_exec(v: i64) -> (r: i64)
    ensures
        r as int == sat_abs(v as int),
{
    if v == i64::MIN {
        i64::MAX
    } else if v < 0 {
        -v
    } else {
        v
    }
}

/// `v` clipped into `[lo, hi]`.
fn clamp_exec(v: i64, lo: i64, hi: i64) -> (r: i64)
    ensures
        r as int == clamp_int(v as int, lo as int, hi as int),
{
    if v < lo {
        lo
    } else if v > hi {
        hi
    } else {
        v
    }
}

fn min_exec(a: i64, b: i64) -> (r: i64)
    ensures
        r as int == min_int(a as int, b as int),
{
    if a < b {
        a
    } else {
        b
    }
}

fn max_exec(a: i64, b: i64) -> (r: i64)
    ensures
        r as int == max_int(a as int, b as int),
{
    if a > b {
        a
    } else {
        b
    }
}

/// The 4-aligned grid point at or below `x`.
fn floor4_i32(x: i32) -> (r: i32)
    ensures
        r as i64 == floor4(x as i64),
{
    let m: i32 = x % 4;
    let m2: i32 = if m < 0 {
        m + 4
    } else {
        m
    };
    x - m2
}

/// The 4-aligned grid point at or below `y`.
fn floor4_i16(y: i16) -> (r: i16)
    ensures
        r as i64 == floor4(y as i64),
{
    let m: i16 = y % 4;
    let m2: i16 = if m < 0 {
        m + 4
    } else {
        m
    };
    y - m2
}

/// The 16-aligned grid point at or below `x`.
fn floor16_i32(x: i32) -> (r: i32)
    ensures
        r as i64 == floor16(x as i64),
{
    let m: i32 = x % 16;
    let m2: i32 = if m < 0 {
        m + 16
    } else {
        m
    };
    x - m2
}

/// The 16-aligned grid point at or below `y`.
fn floor16_i16(y: i16) -> (r: i16)
    ensures
        r as i64 == floor16(y as i64),
{
    let m: i16 = y % 16;
    let m2: i16 = if m < 0 {
        m + 16
    } else {
        m
    };
    y - m2
}

/// The position hash, computed exactly as the specification states it.
fn hash_exec(seed: u64, x: i64, y: i64, z: i64) -> (r: u64)
    ensures
        r == position_hash(seed, x, y, z),
{
    let h0v: u64 = seed.wrapping_add(0x9E3779B97F4A7C15);
    let h0 = mix_exec(h0v);
    let h1 = mix_exec(h0.wrapping_add_signed(x));
    let h2 = mix_exec(h1.wrapping_add_signed(y));
    mix_exec(h2.wrapping_add_signed(z))
}

/// One mixing round, computed exactly as the specification states it.
fn mix_exec(v: u64) -> (r: u64)
    ensures
        r == mix64(v),
{
    let a = (v ^ (v >> 30)).wrapping_mul(0xBF58476D1CE4E5B9);
    let b = (a ^ (a >> 27)).wrapping_mul(0x94D049BB133111EB);
    b ^ (b >> 31)
}

/// The noise value at a position.
fn noise_exec(seed: u64, x: i64, y: i64, z: i64, amp: i64) -> (r: i64)
    requires
        0 <= amp < 0x8000_0000,
    ensures
        r as int == noise_val(seed, x, y, z, amp),
{
    let h = hash_exec(seed, x, y, z);
    let m: u64 = (2 * amp + 1) as u64;
    let rem: u64 = h % m;
    (rem as i64) - amp
}

/// Whether the flat cache holds a memo for a column.
pub open spec fn flat_has(c: FlatCache, x: i32, z: i32) -> bool {
    exists|i: int|
        0 <= i < c.memo@.len() && (#[trigger] c.memo@[i]).0 == x && c.memo@[i].1 == z
}

impl FlatCache {
    /// Child well-formed, and every memo entry holds what the child
    /// computes for that column at y = 0 under the recorded pass.
    pub open spec fn inv(&self) -> bool
        decreases self,
    {
        node_wf(self.function) && (match self.pass {
            Some(p) => forall|i: int|
                0 <= i < self.memo@.len() ==> (#[trigger] self.memo@[i]).2 as int == eval(
                    self.function,
                    p.seed,
                    self.memo@[i].0 as i64,
                    0,
                    self.memo@[i].1 as i64,
                ),
            None => true,
        })
    }

    /// A fresh wrapper around a child.
    pub fn new(function: Function) -> (r: FlatCache)
        requires
            node_wf(function),
        ensures
            r.inv(),
            r.function == function,
            r.child_computes == 0,
            r.pass is None,
            r.memo@.len() == 0,
    {
        FlatCache { function, memo: Vec::new(), pass: None, child_computes: 0 }
    }

    /// The cached value of the column, computing the child at most once
    /// per column and generation pass: a second call for a cached column
    /// leaves the node, its child-invocation count included, untouched.
    #[verifier::loop_isolation(false)]
    pub fn compute(&mut self, pass: &GenPass, ctx: &ChunkContext) -> (r: i64)
        requires
            old(self).inv(),
        ensures
            final(self).inv(),
            same_shape(final(self).function, old(self).function),
            r as int == eval(
                old(self).function,
                pass.seed,
                ctx.chunk_x as i64,
                0,
                ctx.chunk_z as i64,
            ),
            final(self).pass == Some(*pass),
            flat_has(*final(self), ctx.chunk_x, ctx.chunk_z),
            (old(self).pass == Some(*pass) && flat_has(*old(self), ctx.chunk_x, ctx.chunk_z))
                ==> *final(self) == *old(self),
            (!(old(self).pass == Some(*pass) && flat_has(*old(self), ctx.chunk_x, ctx.chunk_z))
                && old(self).child_computes < u64::MAX) ==> final(self).child_computes == old(
                self,
            ).child_computes + 1,
        decreases *old(self),
    {
        let same: bool = match &self.pass {
            Some(p) => p.seed == pass.seed && p.chunk_x == pass.chunk_x && p.chunk_z
                == pass.chunk_z,
            None => false,
        };
        proof {
            if same {
                assert(self.pass == Some(*pass));
            }
            lemma_same_shape_reflexive(old(self).function);
        }
        if !same {
            self.memo = Vec::new();
            self.pass = Some(*pass);
        }
        let n = self.memo.len();
        let mut i: usize = 0;
        while i < n
            invariant
                n == self.memo@.len(),
                i <= n,
                forall|j: int|
                    0 <= j < i ==> !((#[trigger] self.memo@[j]).0 == ctx.chunk_x && self.memo@[j].1
                        == ctx.chunk_z),
                self.inv(),
                self.pass == Some(*pass),
                self.function == old(self).function,
                self.child_computes == old(self).child_computes,
                same ==> *self == *old(self),
            decreases n - i,
        {
            let ex = self.memo[i].0;
            let ez = self.memo[i].1;
            if ex == ctx.chunk_x && ez == ctx.chunk_z {
                let v = self.memo[i].2;
                proof {
                    assert(flat_has(*self, ctx.chunk_x, ctx.chunk_z));
                }
                return v;
            }
            i = i + 1;
        }
        let ctx0 = ChunkContext { chunk_x: ctx.chunk_x, chunk_z: ctx.chunk_z, y: 0 };
        let ghost before_child = self.function;
        let v = self.function.compute(pass, &ctx0);
        proof {
            assert forall|j: int|
                0 <= j < self.memo@.len() implies (#[trigger] self.memo@[j]).2 as int == eval(
                self.function,
                pass.seed,
                self.memo@[j].0 as i64,
                0,
                self.memo@[j].1 as i64,
            ) by {
                lemma_eval_congruent(
                    self.function,
                    before_child,
                    pass.seed,
                    self.memo@[j].0 as i64,
                    0,
                    self.memo@[j].1 as i64,
                );
            }
            lemma_eval_congruent(
                self.function,
                before_child,
                pass.seed,
                ctx.chunk_x as i64,
                0,
                ctx.chunk_z as i64,
            );
        }
        self.memo.push((ctx.chunk_x, ctx.chunk_z, v));
        if self.child_computes < u64::MAX {
            self.child_computes = self.child_computes + 1;
        }
        proof {
            assert(self.memo@.last().0 == ctx.chunk_x && self.memo@.last().1 == ctx.chunk_z);
            assert(flat_has(*self, ctx.chunk_x, ctx.chunk_z));
        }
        v
    }
}

impl TwoDCache {
    /// Child well-formed, and the single memo slot holds what the child
    /// computes for its column at y = 0 under the recorded pass.
    pub open spec fn inv(&self) -> bool
        decreases self,
    {
        node_wf(self.function) && (match (self.pass, self.memo) {
            (Some(p), Some(m)) => m.2 as int == eval(self.function, p.seed, m.0 as i64, 0, m.1 as i64),
            _ => true,
        })
    }

    /// A fresh wrapper around a child.
    pub fn new(function: Function) -> (r: TwoDCache)
        requires
            node_wf(function),
        ensures
            r.inv(),
            r.function == function,
            r.child_computes == 0,
            r.pass is None,
            r.memo is None,
    {
        TwoDCache { function, memo: None, pass: None, child_computes: 0 }
    }

    /// The cached value of the most recent column of this pass: a repeat
    /// of the cached column leaves the node untouched.
    pub fn compute(&mut self, pass: &GenPass, ctx: &ChunkContext) -> (r: i64)
        requires
            old(self).inv(),
        ensures
            final(self).inv(),
            same_shape(final(self).function, old(self).function),
            r as int == eval(
                old(self).function,
                pass.seed,
                ctx.chunk_x as i64,
                0,
                ctx.chunk_z as i64,
            ),
            final(self).pass == Some(*pass),
            (old(self).pass == Some(*pass) && (old(self).memo matches Some(m) && m.0
                == ctx.chunk_x && m.1 == ctx.chunk_z)) ==> *final(self) == *old(self),
        decreases *old(self),
    {
        let same: bool = match &self.pass {
            Some(p) => p.seed == pass.seed && p.chunk_x == pass.chunk_x && p.chunk_z
                == pass.chunk_z,
            None => false,
        };
        proof {
            if same {
                assert(self.pass == Some(*pass));
            }
            lemma_same_shape_reflexive(old(self).function);
        }
        if same {
            match &self.memo {
                Some(m) => {
                    if m.0 == ctx.chunk_x && m.1 == ctx.chunk_z {
                        return m.2;
                    }
                },
                None => {},
            }
        }
        let ctx0 = ChunkContext { chunk_x: ctx.chunk_x, chunk_z: ctx.chunk_z, y: 0 };
        let ghost before_child = self.function;
        let v = self.function.compute(pass, &ctx0);
        self.pass = Some(*pass);
        self.memo = Some((ctx.chunk_x, ctx.chunk_z, v));
        if self.child_computes < u64::MAX {
            self.child_computes = self.child_computes + 1;
        }
        proof {
            lemma_eval_congruent(
                self.function,
                before_child,
                pass.seed,
                ctx.chunk_x as i64,
                0,
                ctx.chunk_z as i64,
            );
        }
        v
    }
}

impl AllInCellCache {
    /// Child well-formed, and the memo slot holds what the child computes
    /// at the recorded cell origin under the recorded pass.
    pub open spec fn inv(&self) -> bool
        decreases self,
    {
        node_wf(self.function) && (match (self.pass, self.memo) {
            (Some(p), Some(m)) => m.3 as int == eval(
                self.function,
                p.seed,
                m.0 as i64,
                m.1 as i64,
                m.2 as i64,
            ),
            _ => true,
        })
    }

    /// A fresh wrapper around a child.
    pub fn new(function: Function) -> (r: AllInCellCache)
        requires
            node_wf(function),
        ensures
            r.inv(),
            r.function == function,
            r.child_computes == 0,
            r.pass is None,
            r.memo is None,
    {
        AllInCellCache { function, memo: None, pass: None, child_computes: 0 }
    }

    /// The cached value of the sample's 16-cubed cell: every sample in
    /// the cached cell reuses the value, leaving the node untouched.
    pub fn compute(&mut self, pass: &GenPass, ctx: &ChunkContext) -> (r: i64)
        requires
            old(self).inv(),
        ensures
            final(self).inv(),
            same_shape(final(self).function, old(self).function),
            r as int == eval(
                old(self).function,
                pass.seed,
                floor16(ctx.chunk_x as i64),
                floor16(ctx.y as i64),
                floor16(ctx.chunk_z as i64),
            ),
            final(self).pass == Some(*pass),
            (old(self).pass == Some(*pass) && (old(self).memo matches Some(m) && m.0 as i64
                == floor16(ctx.chunk_x as i64) && m.1 as i64 == floor16(ctx.y as i64) && m.2 as i64
                == floor16(ctx.chunk_z as i64))) ==> *final(self) == *old(self),
        decreases *old(self),
    {
        let fx = floor16_i32(ctx.chunk_x);
        let fy = floor16_i16(ctx.y);
        let fz = floor16_i32(ctx.chunk_z);
        let same: bool = match &self.pass {
            Some(p) => p.seed == pass.seed && p.chunk_x == pass.chunk_x && p.chunk_z
                == pass.chunk_z,
            None => false,
        };
        proof {
            if same {
                assert(self.pass == Some(*pass));
            }
            lemma_same_shape_reflexive(old(self).function);
        }
        if same {
            match &self.memo {
                Some(m) => {
                    if m.0 == fx && m.1 == fy as i32 && m.2 == fz {
                        return m.3;
                    }
                },
                None => {},
            }
        }
        let ctx0 = ChunkContext { chunk_x: fx, chunk_z: fz, y: fy };
        let ghost before_child = self.function;
        let v = self.function.compute(pass, &ctx0);
        self.pass = Some(*pass);
        self.memo = Some((fx, fy as i32, fz, v));
        if self.child_computes < u64::MAX {
            self.child_computes = self.child_computes + 1;
        }
        proof {
            lemma_eval_congruent(
                self.function,
                before_child,
                pass.seed,
                fx as i64,
                fy as i64,
                fz as i64,
            );
        }
        v
    }
}

impl OnceCache {
    /// Child well-formed, and the memo slot holds what the child computes
    /// at the zero sample under the recorded seed.
    pub open spec fn inv(&self) -> bool
        decreases self,
    {
        node_wf(self.function) && (match self.memo {
            Some(m) => m.1 as int == eval(self.function, m.0, 0, 0, 0),
            None => true,
        })
    }

    /// A fresh wrapper around a child.
    pub fn new(function: Function) -> (r: OnceCache)
        requires
            node_wf(function),
        ensures
            r.inv(),
            r.function == function,
            r.child_computes == 0,
            r.memo is None,
    {
        OnceCache { function, memo: None, child_computes: 0 }
    }

    /// The once-computed value: the child runs a single time per seed for
    /// the instance's lifetime; every further call leaves the node, its
    /// child-invocation count included, untouched.
    pub fn compute(&mut self, pass: &GenPass, ctx: &ChunkContext) -> (r: i64)
        requires
            old(self).inv(),
        ensures
            final(self).inv(),
            same_shape(final(self).function, old(self).function),
            r as int == eval(old(self).function, pass.seed, 0, 0, 0),
            final(self).memo == Some((pass.seed, r)),
            (old(self).memo matches Some(m) && m.0 == pass.seed) ==> *final(self) == *old(self),
            (!(old(self).memo matches Some(m) && m.0 == pass.seed) && old(self).child_computes
                < u64::MAX) ==> final(self).child_computes == old(self).child_computes + 1,
        decreases *old(self),
    {
        proof {
            lemma_same_shape_reflexive(old(self).function);
        }
        match &self.memo {
            Some(m) => {
                if m.0 == pass.seed {
                    return m.1;
                }
            },
            None => {},
        }
        let ctx0 = ChunkContext { chunk_x: 0, chunk_z: 0, y: 0 };
        let ghost before_child = self.function;
        let v = self.function.compute(pass, &ctx0);
        self.memo = Some((pass.seed, v));
        if self.child_computes < u64::MAX {
            self.child_computes = self.child_computes + 1;
        }
        proof {
            lemma_eval_congruent(self.function, before_child, pass.seed, 0, 0, 0);
        }
        v
    }
}

impl Function {
    /// Evaluates the node at the context's sample position for one
    /// generation pass. The result is exactly what the node's mathematical
    /// meaning states; caching only ever changes memo state, never the
    /// value, and never lets a memo outlive its pass.
    pub fn compute(&mut self, pass: &GenPass, ctx: &ChunkContext) -> (r: i64)
        requires
            node_wf(*old(self)),
        ensures
            node_wf(*final(self)),
            same_shape(*final(self), *old(self)),
            r as int == eval(
                *old(self),
                pass.seed,
                ctx.chunk_x as i64,
                ctx.y as i64,
                ctx.chunk_z as i64,
            ),
        decreases *old(self),
    {
        match self {
            Function::Constant(v) => {
                proof {
                    lemma_same_shape_reflexive(*old(self));
                }
                *v
            },
            Function::Interpolated(b) => {
                let ctx2 = ChunkContext {
                    chunk_x: floor4_i32(ctx.chunk_x),
                    chunk_z: floor4_i32(ctx.chunk_z),
                    y: floor4_i16(ctx.y),
                };
                b.function.compute(pass, &ctx2)
            },
            Function::Clamp(b) => {
                let v = b.function.compute(pass, ctx);
                clamp_exec(v, b.min, b.max)
            },
            Function::OneParam(b) => {
                let v = b.param.compute(pass, ctx);
                match b.kind {
                    OneParamKind::Abs => sat_abs_exec(v),
                    OneParamKind::Negate => sat_neg(v),
                }
            },
            Function::TwoParam(b) => {
                let v1 = b.one.compute(pass, ctx);
                let v2 = b.two.compute(pass, ctx);
                match b.kind {
                    TwoParamKind::Add => sat_add(v1, v2),
                    TwoParamKind::Min => min_exec(v1, v2),
                    TwoParamKind::Max => max_exec(v1, v2),
                }
            },
            Function::AllInCellCache(b) => b.compute(pass, ctx),
            Function::FlatCache(b) => b.compute(pass, ctx),
            Function::TwoDCellCache(b) => b.compute(pass, ctx),
            Function::OnceCache(b) => b.compute(pass, ctx),
            Function::Noise(n) => {
                proof {
                    lemma_same_shape_reflexive(*old(self));
                }
                noise_exec(
                    pass.seed,
                    ctx.chunk_x as i64,
                    ctx.y as i64,
                    ctx.chunk_z as i64,
                    n.amplitude,
                )
            },
        }
    }

    /// The pair (static minimum, static maximum) of the node.
    fn bounds_pair(&self) -> (r: (i64, i64))
        requires
            node_wf(*self),
        ensures
            r.0 as int == bounds(*self).0,
            r.1 as int == bounds(*self).1,
        decreases *self,
    {
        match self {
            Function::Constant(v) => (*v, *v),
            Function::Interpolated(b) => b.function.bounds_pair(),
            Function::Clamp(b) => {
                let (lo, hi) = b.function.bounds_pair();
                (clamp_exec(lo, b.min, b.max), clamp_exec(hi, b.min, b.max))
            },
            Function::OneParam(b) => {
                let (lo, hi) = b.param.bounds_pair();
                match b.kind {
                    OneParamKind::Abs => {
                        let alo = sat_abs_exec(lo);
                        let ahi = sat_abs_exec(hi);
                        let nlo = if lo <= 0 && 0 <= hi {
                            0
                        } else {
                            min_exec(alo, ahi)
                        };
                        (nlo, max_exec(alo, ahi))
                    },
                    OneParamKind::Negate => (sat_neg(hi), sat_neg(lo)),
                }
            },
            Function::TwoParam(b) => {
                let (lo1, hi1) = b.one.bounds_pair();
                let (lo2, hi2) = b.two.bounds_pair();
                match b.kind {
                    TwoParamKind::Add => (sat_add(lo1, lo2), sat_add(hi1, hi2)),
                    TwoParamKind::Min => (min_exec(lo1, lo2), min_exec(hi1, hi2)),
                    TwoParamKind::Max => (max_exec(lo1, lo2), max_exec(hi1, hi2)),
                }
            },
            Function::AllInCellCache(b) => b.function.bounds_pair(),
            Function::FlatCache(b) => b.function.bounds_pair(),
            Function::TwoDCellCache(b) => b.function.bounds_pair(),
            Function::OnceCache(b) => b.function.bounds_pair(),
            Function::Noise(n) => (sat_neg(n.amplitude), n.amplitude),
        }
    }

    /// The static minimum the node can return; see `lemma_eval_in_bounds`.
    pub fn min(&self) -> (r: i64)
        requires
            node_wf(*self),
        ensures
            r as int == bounds(*self).0,
    {
        self.bounds_pair().0
    }

    /// The static maximum the node can return; see `lemma_eval_in_bounds`.
    pub fn max(&self) -> (r: i64)
        requires
            node_wf(*self),
        ensures
            r as int == bounds(*self).1,
    {
        self.bounds_pair().1
    }
}

} // verus!
