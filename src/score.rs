use vstd::prelude::*;

verus! {

/// The least integer that is at least the rational number `a / b`.
pub open spec fn ceil_div(a: int, b: int) -> int
    recommends
        b != 0,
{
    if b > 0 {
        -((-a) / b)
    } else {
        -(a / (-b))
    }
}

/// The first term of the score: `twins * multi - tpoints`.
pub open spec fn part1(twins: int, tpoints: int, multi: int) -> int {
    twins * multi - tpoints
}

/// The second term of the score: `ceil(tpoints / divi) - twins`.
pub open spec fn part2(twins: int, tpoints: int, divi: int) -> int {
    ceil_div(tpoints, divi) - twins
}

/// The battle points for the given inputs, as an unbounded integer.
pub open spec fn battle_points(twins: int, tpoints: int, mdamage: int, multi: int, divi: int) -> int {
    part1(twins, tpoints, multi) + part2(twins, tpoints, divi) + mdamage
}

/// Whether the battle points of these inputs are defined and fit in an `i32`.
pub open spec fn points_representable(twins: int, tpoints: int, mdamage: int, multi: int, divi: int) -> bool {
    &&& divi != 0
    &&& i32::MIN <= battle_points(twins, tpoints, mdamage, multi, divi) <= i32::MAX
}

/// `ceil_div(a, b)` is the integer `q` with `q - 1 < a / b <= q`,
/// written without division for either sign of `b`.
pub proof fn lemma_ceil_div_bounds(a: int, b: int)
    requires
        b != 0,
    ensures
        b > 0 ==> (ceil_div(a, b) - 1) * b < a <= ceil_div(a, b) * b,
        b < 0 ==> ceil_div(a, b) * b <= a < (ceil_div(a, b) - 1) * b,
{
    if b > 0 {
        let q = (-a) / b;
        let r = (-a) % b;
        assert(-a == q * b + r && 0 <= r < b) by (nonlinear_arith)
            requires
                b > 0,
                q == (-a) / b,
                r == (-a) % b,
        ;
        assert((-q - 1) * b < a <= -q * b) by (nonlinear_arith)
            requires
                -a == q * b + r,
                0 <= r < b,
        ;
    } else {
        let q = a / (-b);
        let r = a % (-b);
        assert(a == q * (-b) + r && 0 <= r < -b) by (nonlinear_arith)
            requires
                b < 0,
                q == a / (-b),
                r == a % (-b),
        ;
        assert((-q) * b <= a < (-q - 1) * b) by (nonlinear_arith)
            requires
                a == q * (-b) + r,
                0 <= r < -b,
        ;
    }
}

/// Raising the move damage by `k` raises the battle points by exactly `k`,
/// whatever the other inputs are.
pub proof fn lemma_mdamage_additive(twins: int, tpoints: int, mdamage: int, multi: int, divi: int, k: int)
    ensures
        battle_points(twins, tpoints, mdamage + k, multi, divi)
            == battle_points(twins, tpoints, mdamage, multi, divi) + k,
{
}

/// For a positive divisor the second term is a step function of `tpoints`:
/// it equals `n - twins` for every `tpoints` with `divi * (n - 1) < tpoints <= divi * n`.
pub proof fn lemma_part2_step(twins: int, tpoints: int, divi: int, n: int)
    requires
        divi > 0,
        divi * (n - 1) < tpoints <= divi * n,
    ensures
        part2(twins, tpoints, divi) == n - twins,
{
    lemma_ceil_div_bounds(tpoints, divi);
    let q = ceil_div(tpoints, divi);
    assert(q == n) by (nonlinear_arith)
        requires
            divi > 0,
            (q - 1) * divi < tpoints <= q * divi,
            divi * (n - 1) < tpoints <= divi * n,
    ;
}

/// Stepping `tpoints` from the multiple `divi * n` to `divi * n + 1` changes the
/// second term by exactly one: up by one for a positive divisor, down by one for
/// the divisor -1. For a positive divisor the battle points stay the same, since
/// the first term drops by one.
pub proof fn lemma_part2_boundary(twins: int, mdamage: int, multi: int, divi: int, n: int)
    requires
        divi > 0 || divi == -1,
    ensures
        divi > 0 ==> part2(twins, divi * n + 1, divi) == part2(twins, divi * n, divi) + 1,
        divi == -1 ==> part2(twins, divi * n + 1, divi) == part2(twins, divi * n, divi) - 1,
        divi > 0 ==> battle_points(twins, divi * n + 1, mdamage, multi, divi)
            == battle_points(twins, divi * n, mdamage, multi, divi),
{
    if divi > 0 {
        assert(divi * (n - 1) < divi * n && divi * n < divi * n + 1 <= divi * (n + 1)) by (nonlinear_arith)
            requires
                divi > 0,
        ;
        lemma_part2_step(twins, divi * n, divi, n);
        lemma_part2_step(twins, divi * n + 1, divi, n + 1);
    }
}

/// Ceiling of `n / d` for a positive `d`, computed on 64-bit integers.
fn ceil_div_i64(n: i64, d: i64) -> (q: i64)
    requires
        0 < d <= 0x1_0000_0000,
        -0x1_0000_0000 <= n <= 0x1_0000_0000,
    ensures
        q == ceil_div(n as int, d as int),
        n >= 0 ==> 0 <= q <= n,
        n < 0 ==> n <= q <= 0,
{
    if n >= 0 {
        let m: i64 = (n + d - 1) / d;
        assert(m == -((-n) / (d as int)) && m <= n) by (nonlinear_arith)
            requires
                n >= 0,
                d > 0,
                m == (n + d - 1) / (d as int),
        ;
        m
    } else {
        let m: i64 = (-n) / d;
        assert(0 <= m <= -n) by (nonlinear_arith)
            requires
                n < 0,
                d > 0,
                m == (-n) / (d as int),
        ;
        -m
    }
}

/// The battle points computed on 64-bit integers, where every `i32` input fits.
fn battle_points_i64(twins: i32, tpoints: i32, mdamage: i32, multi: i32, divi: i32) -> (r: i64)
    requires
        divi != 0,
    ensures
        r as int == battle_points(twins as int, tpoints as int, mdamage as int, multi as int, divi as int),
{
    let (n, d): (i64, i64) = if divi > 0 {
        (tpoints as i64, divi as i64)
    } else {
        (-(tpoints as i64), -(divi as i64))
    };
    let c: i64 = ceil_div_i64(n, d);
    assert(c == ceil_div(tpoints as int, divi as int)) by {
        if divi < 0 {
            assert((-(tpoints as int)) / (-(divi as int)) == (-(tpoints as int)) / (d as int));
        }
    }
    assert(-0x4000_0000_0000_0000 <= (twins as int) * (multi as int) <= 0x4000_0000_0000_0000)
        by (nonlinear_arith)
        requires
            i32::MIN <= twins <= i32::MAX,
            i32::MIN <= multi <= i32::MAX,
    ;
    let product: i64 = (twins as i64) * (multi as i64);
    let total: i64 = (product - tpoints as i64) + (c - twins as i64) + mdamage as i64;
    total
}

/// Computes the battle points:
/// `(twins * multi - tpoints) + (ceil(tpoints / divi) - twins) + mdamage`.
///
/// The divisor must be non-zero and the result must fit in an `i32`;
/// intermediate values are held in 64 bits and cannot overflow.
pub fn calc_pokemon_tcg_battle_points(twins: i32, tpoints: i32, mdamage: i32, multi: i32, divi: i32) -> (r: i32)
    requires
        points_representable(twins as int, tpoints as int, mdamage as int, multi as int, divi as int),
    ensures
        r as int == battle_points(twins as int, tpoints as int, mdamage as int, multi as int, divi as int),
{
    battle_points_i64(twins, tpoints, mdamage, multi, divi) as i32
}

/// Why the battle points could not be computed.
#[derive(Debug, Clone, Copy, PartialEq, Eq, Structural)]
pub enum ScoreError {
    /// The divisor `divi` is zero.
    ZeroDivisor,
    /// The result does not fit in an `i32`.
    OutOfRange,
}

/// Computes the battle points for any inputs, reporting a zero divisor or a
/// result outside the `i32` range as an error.
pub fn checked_battle_points(twins: i32, tpoints: i32, mdamage: i32, multi: i32, divi: i32) -> (r: Result<i32, ScoreError>)
    ensures
        divi == 0 <==> r == Err::<i32, ScoreError>(ScoreError::ZeroDivisor),
        r == Err::<i32, ScoreError>(ScoreError::OutOfRange) <==> divi != 0
            && !points_representable(twins as int, tpoints as int, mdamage as int, multi as int, divi as int),
        r is Ok <==> points_representable(twins as int, tpoints as int, mdamage as int, multi as int, divi as int),
        r is Ok ==> r->Ok_0 as int == battle_points(twins as int, tpoints as int, mdamage as int, multi as int, divi as int),
{
    if divi == 0 {
        return Err(ScoreError::ZeroDivisor);
    }
    let total: i64 = battle_points_i64(twins, tpoints, mdamage, multi, divi);
    if total < i32::MIN as i64 || total > i32::MAX as i64 {
        Err(ScoreError::OutOfRange)
    } else {
        Ok(total as i32)
    }
}

} // verus!
