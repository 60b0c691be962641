//! Constant-product liquidity pool arithmetic (x * y = k) with checked operations.
use vstd::prelude::*;

verus! {

/// Whether `r` is the integer square root of `n`: `r >= 0` and
/// `r * r <= n < (r + 1) * (r + 1)`.
pub open spec fn is_floor_root(n: int, r: int) -> bool {
    &&& r >= 0
    &&& r * r <= n
    &&& n < (r + 1) * (r + 1)
}

/// The integer square root of `n`, rounded down.
pub open spec fn floor_sqrt(n: int) -> int {
    choose|r: int| is_floor_root(n, r)
}

/// The integer square root is unique.
pub proof fn lemma_floor_root_unique(n: int, r: int, s: int)
    requires
        is_floor_root(n, r),
        is_floor_root(n, s),
    ensures
        r == s,
{
    if r < s {
        assert((r + 1) * (r + 1) <= s * s) by (nonlinear_arith)
            requires
                0 <= r,
                r + 1 <= s,
        ;
    } else if s < r {
        assert((s + 1) * (s + 1) <= r * r) by (nonlinear_arith)
            requires
                0 <= s,
                s + 1 <= r,
        ;
    }
}

/// Any value with the root property is the one `floor_sqrt` names.
pub proof fn lemma_floor_sqrt_is(n: int, r: int)
    requires
        is_floor_root(n, r),
    ensures
        floor_sqrt(n) == r,
{
    lemma_floor_root_unique(n, r, floor_sqrt(n));
}

/// The root of a perfect square is exact.
pub proof fn lemma_floor_sqrt_of_square(x: int)
    requires
        x >= 0,
    ensures
        floor_sqrt(x * x) == x,
{
    assert(x * x < (x + 1) * (x + 1)) by (nonlinear_arith)
        requires
            x >= 0,
    ;
    lemma_floor_sqrt_is(x * x, x);
}

/// Simple integer square root using binary search: the largest `r` with
/// `r * r <= n`.
pub fn integer_sqrt(n: u128) -> (r: u128)
    ensures
        is_floor_root(n as int, r as int),
        r == floor_sqrt(n as int),
{
    let mut lo: u128 = 0;
    let mut hi: u128 = 0x1_0000_0000_0000_0000;
    assert(n < hi * hi) by (nonlinear_arith)
        requires
            n <= u128::MAX,
            hi == 0x1_0000_0000_0000_0000,
    ;
    while hi - lo > 1
        invariant
            lo < hi <= 0x1_0000_0000_0000_0000,
            lo * lo <= n,
            n < hi * hi,
        decreases hi - lo,
    {
        let mid = lo + (hi - lo) / 2;
        assert(mid * mid <= u128::MAX) by (nonlinear_arith)
            requires
                0 <= mid < 0x1_0000_0000_0000_0000,
        ;
        if mid * mid <= n {
            lo = mid;
        } else {
            hi = mid;
        }
    }
    proof {
        assert(hi == lo + 1);
        lemma_floor_sqrt_is(n as int, lo as int);
    }
    lo
}

/// What `calculate_swap_output` returns: with `A = amount_in * (10000 - fee_bps)`,
/// the output is `(reserve_out * A) / ((reserve_in + amount_in) * 10000)`, rounded
/// down, or the first error that applies; an output that rounds down to zero is
/// refused.
pub open spec fn swap_output(reserve_in: u128, reserve_out: u128, amount_in: u128, fee_bps: u128) -> Result<u128, &'static str> {
    let fee_in = amount_in * (10000 - fee_bps);
    let numerator = reserve_out * fee_in;
    let pooled_in = reserve_in + amount_in;
    let denominator = pooled_in * 10000;
    let output = numerator / denominator;
    if amount_in == 0 {
        Err("Amount in must be positive")
    } else if reserve_in == 0 || reserve_out == 0 {
        Err("Reserves must be positive")
    } else if fee_bps >= 10000 {
        Err("Fee must be less than 100%")
    } else if fee_in > u128::MAX {
        Err("Fee calculation overflow")
    } else if numerator > u128::MAX {
        Err("Numerator overflow")
    } else if pooled_in > u128::MAX {
        Err("Denominator addition overflow")
    } else if denominator > u128::MAX {
        Err("Denominator overflow")
    } else if output == 0 {
        Err("Output amount too small")
    } else {
        Ok(output as u128)
    }
}

/// Calculate output amount for a swap using constant product formula
/// Formula: (x * y = k) => output = (y * amount_in) / (x + amount_in)
/// With fee: output = (y * amount_in * (10000 - fee_bps)) / ((x + amount_in) * 10000)
pub fn calculate_swap_output(
    reserve_in: u128,
    reserve_out: u128,
    amount_in: u128,
    fee_bps: u128,
) -> (r: Result<u128, &'static str>)
    ensures
        r == swap_output(reserve_in, reserve_out, amount_in, fee_bps),
{
    if amount_in == 0 {
        return Err("Amount in must be positive");
    }
    if reserve_in == 0 || reserve_out == 0 {
        return Err("Reserves must be positive");
    }
    if fee_bps >= 10000 {
        return Err("Fee must be less than 100%");
    }
    let amount_in_with_fee = match amount_in.checked_mul(10000 - fee_bps) {
        Some(v) => v,
        None => return Err("Fee calculation overflow"),
    };
    let numerator = match reserve_out.checked_mul(amount_in_with_fee) {
        Some(v) => v,
        None => return Err("Numerator overflow"),
    };
    let pooled_in = match reserve_in.checked_add(amount_in) {
        Some(v) => v,
        None => return Err("Denominator addition overflow"),
    };
    let denominator = match pooled_in.checked_mul(10000) {
        Some(v) => v,
        None => return Err("Denominator overflow"),
    };
    let output = numerator / denominator;
    if output == 0 {
        return Err("Output amount too small");
    }
    Ok(output)
}

/// What `calculate_liquidity_mint` returns: on the first deposit the integer
/// square root of `amount_a * amount_b`; afterwards the smaller of
/// `amount_a * total_supply / reserve_a` and `amount_b * total_supply / reserve_b`;
/// or the first error that applies.
pub open spec fn liquidity_mint(reserve_a: u128, reserve_b: u128, amount_a: u128, amount_b: u128, total_supply: u128) -> Result<u128, &'static str> {
    let product = amount_a * amount_b;
    let share_a = amount_a * total_supply;
    let share_b = amount_b * total_supply;
    let liquidity_a = share_a / (reserve_a as int);
    let liquidity_b = share_b / (reserve_b as int);
    let liquidity = if liquidity_a < liquidity_b { liquidity_a } else { liquidity_b };
    if amount_a == 0 || amount_b == 0 {
        Err("Amounts must be positive")
    } else if total_supply == 0 {
        if product > u128::MAX {
            Err("Initial liquidity overflow")
        } else if floor_sqrt(product) == 0 {
            Err("Initial liquidity too small")
        } else {
            Ok(floor_sqrt(product) as u128)
        }
    } else if reserve_a == 0 || reserve_b == 0 {
        Err("Reserves must be positive")
    } else if share_a > u128::MAX {
        Err("Liquidity A calculation overflow")
    } else if share_b > u128::MAX {
        Err("Liquidity B calculation overflow")
    } else if liquidity == 0 {
        Err("Liquidity amount too small")
    } else {
        Ok(liquidity as u128)
    }
}

/// Add liquidity to the pool
/// Returns the amount of LP tokens to mint
pub fn calculate_liquidity_mint(
    reserve_a: u128,
    reserve_b: u128,
    amount_a: u128,
    amount_b: u128,
    total_supply: u128,
) -> (r: Result<u128, &'static str>)
    ensures
        r == liquidity_mint(reserve_a, reserve_b, amount_a, amount_b, total_supply),
{
    if amount_a == 0 || amount_b == 0 {
        return Err("Amounts must be positive");
    }
    if total_supply == 0 {
        let product = match amount_a.checked_mul(amount_b) {
            Some(v) => v,
            None => return Err("Initial liquidity overflow"),
        };
        let liquidity = integer_sqrt(product);
        if liquidity == 0 {
            return Err("Initial liquidity too small");
        }
        return Ok(liquidity);
    }
    if reserve_a == 0 || reserve_b == 0 {
        return Err("Reserves must be positive");
    }
    let share_a = match amount_a.checked_mul(total_supply) {
        Some(v) => v,
        None => return Err("Liquidity A calculation overflow"),
    };
    let liquidity_a = match share_a.checked_div(reserve_a) {
        Some(v) => v,
        None => return Err("Division by reserve A"),
    };
    let share_b = match amount_b.checked_mul(total_supply) {
        Some(v) => v,
        None => return Err("Liquidity B calculation overflow"),
    };
    let liquidity_b = match share_b.checked_div(reserve_b) {
        Some(v) => v,
        None => return Err("Division by reserve B"),
    };
    let liquidity = if liquidity_a < liquidity_b {
        liquidity_a
    } else {
        liquidity_b
    };
    if liquidity == 0 {
        return Err("Liquidity amount too small");
    }
    Ok(liquidity)
}

/// What `calculate_liquidity_burn` returns: each reserve times
/// `liquidity / total_supply`, rounded down, or the first error that applies.
pub open spec fn liquidity_burn(reserve_a: u128, reserve_b: u128, liquidity: u128, total_supply: u128) -> Result<(u128, u128), &'static str> {
    let share_a = reserve_a * liquidity;
    let share_b = reserve_b * liquidity;
    let amount_a = share_a / (total_supply as int);
    let amount_b = share_b / (total_supply as int);
    if liquidity == 0 {
        Err("Liquidity must be positive")
    } else if total_supply == 0 {
        Err("Total supply is zero")
    } else if liquidity > total_supply {
        Err("Liquidity exceeds total supply")
    } else if share_a > u128::MAX {
        Err("Amount A calculation overflow")
    } else if share_b > u128::MAX {
        Err("Amount B calculation overflow")
    } else if amount_a == 0 || amount_b == 0 {
        Err("Burn amounts too small")
    } else {
        Ok((amount_a as u128, amount_b as u128))
    }
}

/// Remove liquidity from the pool
/// Returns the amounts of tokens A and B to return
pub fn calculate_liquidity_burn(
    reserve_a: u128,
    reserve_b: u128,
    liquidity: u128,
    total_supply: u128,
) -> (r: Result<(u128, u128), &'static str>)
    ensures
        r == liquidity_burn(reserve_a, reserve_b, liquidity, total_supply),
{
    if liquidity == 0 {
        return Err("Liquidity must be positive");
    }
    if total_supply == 0 {
        return Err("Total supply is zero");
    }
    if liquidity > total_supply {
        return Err("Liquidity exceeds total supply");
    }
    let share_a = match reserve_a.checked_mul(liquidity) {
        Some(v) => v,
        None => return Err("Amount A calculation overflow"),
    };
    let amount_a = match share_a.checked_div(total_supply) {
        Some(v) => v,
        None => return Err("Division by total supply"),
    };
    let share_b = match reserve_b.checked_mul(liquidity) {
        Some(v) => v,
        None => return Err("Amount B calculation overflow"),
    };
    let amount_b = match share_b.checked_div(total_supply) {
        Some(v) => v,
        None => return Err("Division by total supply"),
    };
    if amount_a == 0 || amount_b == 0 {
        return Err("Burn amounts too small");
    }
    Ok((amount_a, amount_b))
}

/// Floor division is monotone across fractions: `n1 / d1 <= n2 / d2` whenever
/// `n1 * d2 <= n2 * d1`.
proof fn lemma_div_cross_monotone(n1: int, d1: int, n2: int, d2: int)
    requires
        n1 >= 0,
        n2 >= 0,
        d1 > 0,
        d2 > 0,
        n1 * d2 <= n2 * d1,
    ensures
        n1 / d1 <= n2 / d2,
{
    let q1 = n1 / d1;
    assert(q1 * d1 <= n1 && q1 >= 0) by (nonlinear_arith)
        requires
            n1 >= 0,
            d1 > 0,
            q1 == n1 / d1,
    ;
    assert(q1 * d2 <= n2) by (nonlinear_arith)
        requires
            q1 * d1 <= n1,
            n1 * d2 <= n2 * d1,
            d1 > 0,
            d2 > 0,
            q1 >= 0,
    ;
    assert(q1 <= n2 / d2) by (nonlinear_arith)
        requires
            q1 * d2 <= n2,
            d2 > 0,
            q1 >= 0,
    ;
}

/// A successful swap pays out a positive amount, and never the whole output
/// reserve.
pub proof fn lemma_swap_output_below_reserve(reserve_in: u128, reserve_out: u128, amount_in: u128, fee_bps: u128)
    requires
        swap_output(reserve_in, reserve_out, amount_in, fee_bps) is Ok,
    ensures
        0 < swap_output(reserve_in, reserve_out, amount_in, fee_bps)->Ok_0 < reserve_out,
{
    let x = reserve_in as int;
    let y = reserve_out as int;
    let a = amount_in as int;
    let f = a * (10000 - fee_bps);
    let d = (x + a) * 10000;
    let n = y * f;
    let out = n / d;
    assert(f <= 10000 * a) by (nonlinear_arith)
        requires
            a >= 1,
            fee_bps < 10000,
            f == a * (10000 - fee_bps),
    ;
    assert(out * d <= n) by (nonlinear_arith)
        requires
            d > 0,
            n >= 0,
            out == n / d,
    ;
    assert(n < y * d) by (nonlinear_arith)
        requires
            n == y * f,
            f <= 10000 * a,
            d == (x + a) * 10000,
            x >= 1,
            y >= 1,
    ;
    assert(out < y) by (nonlinear_arith)
        requires
            out * d <= n,
            n < y * d,
            d > 0,
    ;
}

/// A successful swap never lowers the product of the reserves: with the input
/// added to `reserve_in` and the output taken from `reserve_out`,
/// `(reserve_in + amount_in) * (reserve_out - output) >= reserve_in * reserve_out`.
pub proof fn lemma_swap_keeps_product(reserve_in: u128, reserve_out: u128, amount_in: u128, fee_bps: u128)
    requires
        swap_output(reserve_in, reserve_out, amount_in, fee_bps) is Ok,
    ensures
        ({
            let out = swap_output(reserve_in, reserve_out, amount_in, fee_bps)->Ok_0;
            (reserve_in + amount_in) * (reserve_out - out) >= reserve_in * reserve_out
        }),
{
    lemma_swap_output_below_reserve(reserve_in, reserve_out, amount_in, fee_bps);
    let x = reserve_in as int;
    let y = reserve_out as int;
    let a = amount_in as int;
    let f = a * (10000 - fee_bps);
    let d = (x + a) * 10000;
    let n = y * f;
    let out = n / d;
    assert(f <= 10000 * a) by (nonlinear_arith)
        requires
            a >= 1,
            fee_bps < 10000,
            f == a * (10000 - fee_bps),
    ;
    assert(out * d <= n) by (nonlinear_arith)
        requires
            d > 0,
            n >= 0,
            out == n / d,
    ;
    assert(out * (x + a) <= a * y) by (nonlinear_arith)
        requires
            out * d <= n,
            d == (x + a) * 10000,
            n == y * f,
            f <= 10000 * a,
            y >= 0,
    ;
    assert((x + a) * (y - out) >= x * y) by (nonlinear_arith)
        requires
            out * (x + a) <= a * y,
    ;
}

/// A larger input never yields a smaller output (same reserves and fee).
pub proof fn lemma_swap_monotonic_in_amount(reserve_in: u128, reserve_out: u128, amount_1: u128, amount_2: u128, fee_bps: u128)
    requires
        amount_1 <= amount_2,
        swap_output(reserve_in, reserve_out, amount_1, fee_bps) is Ok,
        swap_output(reserve_in, reserve_out, amount_2, fee_bps) is Ok,
    ensures
        swap_output(reserve_in, reserve_out, amount_1, fee_bps)->Ok_0
            <= swap_output(reserve_in, reserve_out, amount_2, fee_bps)->Ok_0,
{
    let x = reserve_in as int;
    let y = reserve_out as int;
    let k = 10000 - fee_bps;
    let a1 = amount_1 as int;
    let a2 = amount_2 as int;
    let n1 = y * (a1 * k);
    let n2 = y * (a2 * k);
    let d1 = (x + a1) * 10000;
    let d2 = (x + a2) * 10000;
    assert(n1 * d2 <= n2 * d1 && n1 >= 0 && n2 >= 0) by (nonlinear_arith)
        requires
            0 <= a1 <= a2,
            x >= 0,
            y >= 0,
            k >= 0,
            n1 == y * (a1 * k),
            n2 == y * (a2 * k),
            d1 == (x + a1) * 10000,
            d2 == (x + a2) * 10000,
    ;
    lemma_div_cross_monotone(n1, d1, n2, d2);
}

/// A higher fee never yields a larger output (same reserves and input).
pub proof fn lemma_swap_monotonic_in_fee(reserve_in: u128, reserve_out: u128, amount_in: u128, fee_1: u128, fee_2: u128)
    requires
        fee_1 <= fee_2,
        swap_output(reserve_in, reserve_out, amount_in, fee_1) is Ok,
        swap_output(reserve_in, reserve_out, amount_in, fee_2) is Ok,
    ensures
        swap_output(reserve_in, reserve_out, amount_in, fee_2)->Ok_0
            <= swap_output(reserve_in, reserve_out, amount_in, fee_1)->Ok_0,
{
    let y = reserve_out as int;
    let a = amount_in as int;
    let d = (reserve_in + amount_in) * 10000;
    let n1 = y * (a * (10000 - fee_1));
    let n2 = y * (a * (10000 - fee_2));
    assert(n2 * d <= n1 * d && n2 >= 0) by (nonlinear_arith)
        requires
            fee_1 <= fee_2 < 10000,
            a >= 0,
            y >= 0,
            d >= 0,
            n1 == y * (a * (10000 - fee_1)),
            n2 == y * (a * (10000 - fee_2)),
    ;
    lemma_div_cross_monotone(n2, d, n1, d);
}

/// Where one fee leaves at least twice the share of the input that another
/// does (`10000 - fee_1 >= 2 * (10000 - fee_2)`, as for 0.3% against 99.99%),
/// the lower fee pays out strictly more.
pub proof fn lemma_swap_much_higher_fee_pays_less(
    reserve_in: u128,
    reserve_out: u128,
    amount_in: u128,
    fee_1: u128,
    fee_2: u128,
)
    requires
        10000 - fee_1 >= 2 * (10000 - fee_2),
        swap_output(reserve_in, reserve_out, amount_in, fee_1) is Ok,
        swap_output(reserve_in, reserve_out, amount_in, fee_2) is Ok,
    ensures
        swap_output(reserve_in, reserve_out, amount_in, fee_2)->Ok_0
            < swap_output(reserve_in, reserve_out, amount_in, fee_1)->Ok_0,
{
    let y = reserve_out as int;
    let a = amount_in as int;
    let d = (reserve_in + amount_in) * 10000;
    let n1 = y * (a * (10000 - fee_1));
    let n2 = y * (a * (10000 - fee_2));
    let o2 = n2 / d;
    assert(o2 * d <= n2) by (nonlinear_arith)
        requires
            d > 0,
            n2 >= 0,
            o2 == n2 / d,
    ;
    assert(2 * o2 * d <= n1 && 2 * o2 >= 0) by (nonlinear_arith)
        requires
            o2 * d <= n2,
            o2 >= 0,
            10000 - fee_1 >= 2 * (10000 - fee_2),
            n1 == y * (a * (10000 - fee_1)),
            n2 == y * (a * (10000 - fee_2)),
            y >= 0,
            a >= 0,
    ;
    lemma_div_cross_monotone(2 * o2, 1, n1, d);
}

/// The LP tokens minted into an existing pool never exceed the deposit's share
/// of either reserve: `liquidity * reserve_a <= amount_a * total_supply`, and the
/// same for token B.
pub proof fn lemma_mint_proportional(reserve_a: u128, reserve_b: u128, amount_a: u128, amount_b: u128, total_supply: u128)
    requires
        total_supply > 0,
        liquidity_mint(reserve_a, reserve_b, amount_a, amount_b, total_supply) is Ok,
    ensures
        ({
            let l = liquidity_mint(reserve_a, reserve_b, amount_a, amount_b, total_supply)->Ok_0;
            &&& l * reserve_a <= amount_a * total_supply
            &&& l * reserve_b <= amount_b * total_supply
        }),
{
    let l = liquidity_mint(reserve_a, reserve_b, amount_a, amount_b, total_supply)->Ok_0 as int;
    let sa = amount_a * total_supply;
    let sb = amount_b * total_supply;
    let la = sa / (reserve_a as int);
    let lb = sb / (reserve_b as int);
    assert(la * reserve_a <= sa) by (nonlinear_arith)
        requires
            reserve_a > 0,
            sa >= 0,
            la == sa / (reserve_a as int),
    ;
    assert(lb * reserve_b <= sb) by (nonlinear_arith)
        requires
            reserve_b > 0,
            sb >= 0,
            lb == sb / (reserve_b as int),
    ;
    assert(l <= la && l <= lb);
    assert(l * reserve_a <= la * reserve_a && l * reserve_b <= lb * reserve_b) by (nonlinear_arith)
        requires
            l <= la,
            l <= lb,
            reserve_a >= 0,
            reserve_b >= 0,
    ;
}

/// A successful burn pays out a positive amount of each token, and never more
/// than the reserves hold.
pub proof fn lemma_burn_within_reserves(reserve_a: u128, reserve_b: u128, liquidity: u128, total_supply: u128)
    requires
        liquidity_burn(reserve_a, reserve_b, liquidity, total_supply) is Ok,
    ensures
        ({
            let (out_a, out_b) = liquidity_burn(reserve_a, reserve_b, liquidity, total_supply)->Ok_0;
            0 < out_a <= reserve_a && 0 < out_b <= reserve_b
        }),
{
    assert((reserve_a * liquidity) / (total_supply as int) <= reserve_a
        && (reserve_b * liquidity) / (total_supply as int) <= reserve_b) by {
        assert(reserve_a * liquidity * 1 <= reserve_a * total_supply && reserve_a * liquidity >= 0
            && reserve_b * liquidity * 1 <= reserve_b * total_supply && reserve_b * liquidity >= 0)
            by (nonlinear_arith)
            requires
                liquidity <= total_supply,
                reserve_a >= 0,
                reserve_b >= 0,
                liquidity >= 0,
        ;
        lemma_div_cross_monotone(reserve_a * liquidity, total_supply as int, reserve_a as int, 1);
        lemma_div_cross_monotone(reserve_b * liquidity, total_supply as int, reserve_b as int, 1);
    }
}

/// `(reserve + amount) * l / (supply + l) <= amount` when `l * reserve <= amount * supply`.
proof fn lemma_withdraw_at_most_deposit(reserve: int, amount: int, supply: int, l: int)
    requires
        reserve >= 0,
        amount >= 0,
        supply >= 0,
        l >= 1,
        l * reserve <= amount * supply,
    ensures
        ((reserve + amount) * l) / (supply + l) <= amount,
{
    assert((reserve + amount) * l * 1 <= amount * (supply + l) && (reserve + amount) * l >= 0)
        by (nonlinear_arith)
        requires
            l * reserve <= amount * supply,
            reserve >= 0,
            amount >= 0,
            l >= 1,
    ;
    lemma_div_cross_monotone((reserve + amount) * l, supply + l, amount, 1);
}

/// Adding liquidity and then burning the minted LP tokens right away returns at
/// most what was deposited, for each token.  On the first deposit this needs the
/// pool to start empty, since the first mint does not look at the reserves.
pub proof fn lemma_mint_then_burn_no_profit(reserve_a: u128, reserve_b: u128, amount_a: u128, amount_b: u128, total_supply: u128)
    requires
        total_supply > 0 || (reserve_a == 0 && reserve_b == 0),
        liquidity_mint(reserve_a, reserve_b, amount_a, amount_b, total_supply) is Ok,
        reserve_a + amount_a <= u128::MAX,
        reserve_b + amount_b <= u128::MAX,
        total_supply + liquidity_mint(reserve_a, reserve_b, amount_a, amount_b, total_supply)->Ok_0 <= u128::MAX,
        liquidity_burn(
            (reserve_a + amount_a) as u128,
            (reserve_b + amount_b) as u128,
            liquidity_mint(reserve_a, reserve_b, amount_a, amount_b, total_supply)->Ok_0,
            (total_supply + liquidity_mint(reserve_a, reserve_b, amount_a, amount_b, total_supply)->Ok_0) as u128,
        ) is Ok,
    ensures
        ({
            let l = liquidity_mint(reserve_a, reserve_b, amount_a, amount_b, total_supply)->Ok_0;
            let (out_a, out_b) = liquidity_burn(
                (reserve_a + amount_a) as u128,
                (reserve_b + amount_b) as u128,
                l,
                (total_supply + l) as u128,
            )->Ok_0;
            out_a <= amount_a && out_b <= amount_b
        }),
{
    let l = liquidity_mint(reserve_a, reserve_b, amount_a, amount_b, total_supply)->Ok_0;
    if total_supply > 0 {
        lemma_mint_proportional(reserve_a, reserve_b, amount_a, amount_b, total_supply);
    } else {
        assert(l * reserve_a == 0 && l * reserve_b == 0) by (nonlinear_arith)
            requires
                reserve_a == 0,
                reserve_b == 0,
        ;
    }
    lemma_withdraw_at_most_deposit(reserve_a as int, amount_a as int, total_supply as int, l as int);
    lemma_withdraw_at_most_deposit(reserve_b as int, amount_b as int, total_supply as int, l as int);
}

/// A first deposit of equal amounts `x` of both tokens mints exactly `x` LP tokens.
pub proof fn lemma_initial_mint_of_equal_amounts(x: u128)
    requires
        x >= 1,
        x * x <= u128::MAX,
    ensures
        liquidity_mint(0, 0, x, x, 0) == Ok::<u128, &'static str>(x),
{
    lemma_floor_sqrt_of_square(x as int);
}

/// Every natural number has an integer square root.
proof fn lemma_floor_root_exists(n: int)
    requires
        n >= 0,
    ensures
        is_floor_root(n, floor_sqrt(n)),
    decreases n,
{
    if n == 0 {
        assert(is_floor_root(0, 0));
    } else {
        lemma_floor_root_exists(n - 1);
        let r = floor_sqrt(n - 1);
        if n < (r + 1) * (r + 1) {
            assert(is_floor_root(n, r));
        } else {
            assert(n < (r + 2) * (r + 2)) by (nonlinear_arith)
                requires
                    r >= 0,
                    n - 1 < (r + 1) * (r + 1),
            ;
            assert(is_floor_root(n, r + 1));
        }
    }
}

/// A first deposit of positive amounts whose product fits in `u128` always
/// succeeds and mints the integer square root of the product, which is at least 1.
pub proof fn lemma_initial_mint_is_root(amount_a: u128, amount_b: u128)
    requires
        amount_a >= 1,
        amount_b >= 1,
        amount_a * amount_b <= u128::MAX,
    ensures
        floor_sqrt(amount_a * amount_b) >= 1,
        liquidity_mint(0, 0, amount_a, amount_b, 0) == Ok::<u128, &'static str>(
            floor_sqrt(amount_a * amount_b) as u128,
        ),
{
    assert(amount_a * amount_b >= 1) by (nonlinear_arith)
        requires
            amount_a >= 1,
            amount_b >= 1,
    ;
    lemma_floor_root_exists(amount_a * amount_b);
}

/// Degenerate inputs are refused: a swap of nothing or against an empty
/// reserve, a burn of no liquidity or of more than the total supply.
pub proof fn lemma_degenerate_inputs_rejected(
    reserve_in: u128,
    reserve_out: u128,
    amount_in: u128,
    fee_bps: u128,
    liquidity: u128,
    total_supply: u128,
)
    ensures
        amount_in == 0 || reserve_in == 0 || reserve_out == 0 ==> swap_output(
            reserve_in,
            reserve_out,
            amount_in,
            fee_bps,
        ) is Err,
        liquidity == 0 || liquidity > total_supply ==> liquidity_burn(
            reserve_in,
            reserve_out,
            liquidity,
            total_supply,
        ) is Err,
{
}

} // verus!
