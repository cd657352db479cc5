//! Lagged Fibonacci PRNG and integer math utilities.

use vstd::prelude::*;
use vstd::arithmetic::power2::{pow2, lemma_pow2_pos, lemma_pow2_unfold, lemma_pow2_strictly_increases, lemma2_to64};
use vstd::bits::{lemma_u64_pow2_no_overflow, lemma_u64_low_bits_mask_is_mod};

verus! {

/// The 30 low bits that every word of the generator keeps.
const MASK: i32 = 0x3fff_ffff;

/// Number of draws after which `number_range` stops rejecting and falls back
/// to `from`.
pub const DRAW_LIMIT: u64 = 0xffff_ffff_ffff_ffff;

/// Word `k` of the seeded lag table: 1, 1, then each word is the sum of the
/// two before it modulo 2^30.
pub open spec fn seed_word(k: nat) -> int
    decreases k,
{
    if k < 2 {
        1
    } else {
        (seed_word((k - 1) as nat) + seed_word((k - 2) as nat)) % 0x4000_0000
    }
}

/// The state of a generator that has never drawn: all words zero, so the
/// first draw seeds it.
pub open spec fn fresh_state() -> Seq<i32> {
    Seq::new(58, |i: int| 0i32)
}

/// The state right after seeding: word 0 marks it as seeded, words 1 and 2
/// are the two lag positions (3 and 34), words 3 to 57 hold the lag table.
pub open spec fn seeded_state() -> Seq<i32> {
    Seq::new(
        58,
        |i: int|
            if i == 0 {
                1i32
            } else if i == 1 {
                3i32
            } else if i == 2 {
                34i32
            } else {
                seed_word((i - 3) as nat) as i32
            },
    )
}

/// A state is well formed when it has 58 words and, once seeded, both lag
/// positions lie in the table and every table word is a 30-bit value.
pub open spec fn state_wf(s: Seq<i32>) -> bool {
    &&& s.len() == 58
    &&& s[0] != 0 ==> {
        &&& 3 <= s[1] < 58
        &&& 3 <= s[2] < 58
        &&& forall|i: int| 3 <= i < 58 ==> 0 <= #[trigger] s[i] < 0x4000_0000
    }
}

/// The state a draw works on: an unseeded state is seeded first.
pub open spec fn ready_state(s: Seq<i32>) -> Seq<i32> {
    if s[0] == 0 {
        seeded_state()
    } else {
        s
    }
}

/// The lag position after `i`, wrapping from the end of the table to its start.
pub open spec fn next_lag(i: int) -> int {
    if i + 1 == 58 {
        3
    } else {
        i + 1
    }
}

/// The word a draw computes: the sum of the two lagged words modulo 2^30.
pub open spec fn step_word(s: Seq<i32>) -> int {
    let t = ready_state(s);
    (t[t[1] as int] + t[t[2] as int]) % 0x4000_0000
}

/// The state after one draw: the new word replaces the first lagged word and
/// both lag positions advance.
pub open spec fn step_state(s: Seq<i32>) -> Seq<i32> {
    let t = ready_state(s);
    t.update(t[1] as int, step_word(s) as i32).update(1, next_lag(t[1] as int) as i32).update(
        2,
        next_lag(t[2] as int) as i32,
    )
}

/// The value a draw returns: the new word without its 6 low bits.
pub open spec fn step_output(s: Seq<i32>) -> int {
    step_word(s) / 64
}

/// The state after `n` draws from `s`.
pub open spec fn state_after(s: Seq<i32>, n: nat) -> Seq<i32>
    decreases n,
{
    if n == 0 {
        s
    } else {
        step_state(state_after(s, (n - 1) as nat))
    }
}

/// The value returned by draw number `n` (counting from 0) from `s`.
pub open spec fn output_at(s: Seq<i32>, n: nat) -> int {
    step_output(state_after(s, n))
}

/// Every seed word is a 30-bit value.
pub proof fn lemma_seed_word_bounds(k: nat)
    ensures
        0 <= seed_word(k) < 0x4000_0000,
{
}

/// The seeded state is well formed.
pub proof fn lemma_seeded_state_wf()
    ensures
        state_wf(seeded_state()),
{
    assert forall|i: int| 3 <= i < 58 implies 0 <= #[trigger] seeded_state()[i] < 0x4000_0000 by {
        lemma_seed_word_bounds((i - 3) as nat);
    }
}

/// One draw keeps a state well formed and returns a 24-bit value.
pub proof fn lemma_step_wf(s: Seq<i32>)
    requires
        state_wf(s),
    ensures
        state_wf(step_state(s)),
        0 <= step_word(s) < 0x4000_0000,
        0 <= step_output(s) < 0x100_0000,
        step_state(s)[0] != 0,
{
    lemma_seeded_state_wf();
    let t = ready_state(s);
    let u = step_state(s);
    assert forall|i: int| 3 <= i < 58 implies 0 <= #[trigger] u[i] < 0x4000_0000 by {
        if i != t[1] {
            assert(u[i] == t[i]);
        }
    }
}

/// Law: however many draws a well-formed generator has made, it stays well
/// formed and each draw returns a value in [0, 2^24).
pub proof fn lemma_outputs_in_range(s: Seq<i32>, n: nat)
    requires
        state_wf(s),
    ensures
        state_wf(state_after(s, n)),
        0 <= output_at(s, n) < 0x100_0000,
    decreases n,
{
    if n > 0 {
        lemma_outputs_in_range(s, (n - 1) as nat);
        lemma_step_wf(state_after(s, (n - 1) as nat));
    }
    lemma_step_wf(state_after(s, n));
}

/// The word a draw computes from `s` at draw number `n`.
pub open spec fn word_at(s: Seq<i32>, n: nat) -> int {
    step_word(state_after(s, n))
}

/// The lagged Fibonacci sequence of a fresh generator: the 55 seed words,
/// then the word computed by each draw in turn.
pub open spec fn lagged_word(j: nat) -> int {
    if j < 55 {
        seed_word(j)
    } else {
        word_at(fresh_state(), (j - 55) as nat)
    }
}

/// Index in the lagged sequence of the word that table slot `p` holds
/// before draw `n`: the last index `j < n + 55` with `j == p` modulo 55.
spec fn last_write(p: int, n: int) -> int {
    p + 55 * (n / 55) + if p < n % 55 {
        55int
    } else {
        0int
    }
}

/// Before draw `n`, the seeded table holds the latest 55 words of the lagged
/// sequence and the lag positions are `n` and `n + 31` modulo 55.
spec fn table_tracks(t: Seq<i32>, n: nat) -> bool {
    &&& t.len() == 58
    &&& t[0] != 0
    &&& t[1] == 3 + n % 55
    &&& t[2] == 3 + (n + 31) % 55
    &&& forall|i: int| 3 <= i < 58 ==> #[trigger] t[i] == lagged_word(last_write(i - 3, n as int) as nat)
}

/// The table a fresh generator draws from keeps the latest 55 words of the
/// lagged sequence.
proof fn lemma_table_tracks(n: nat)
    ensures
        table_tracks(ready_state(state_after(fresh_state(), n)), n),
    decreases n,
{
    if n == 0 {
        let t = seeded_state();
        assert forall|i: int| 3 <= i < 58 implies #[trigger] t[i] == lagged_word(
            last_write(i - 3, 0) as nat,
        ) by {
            lemma_seed_word_bounds((i - 3) as nat);
        }
    } else {
        let m = (n - 1) as nat;
        lemma_table_tracks(m);
        let s = state_after(fresh_state(), m);
        let t = ready_state(s);
        let u = step_state(s);
        assert(state_after(fresh_state(), n) == u);
        let q: int = (m / 55) as int;
        let r: int = (m % 55) as int;
        assert(m == 55 * q + r);
        assert(n / 55 == if r == 54 { q + 1 } else { q });
        assert(n % 55 == if r == 54 { 0 } else { r + 1 });
        assert((m + 31) % 55 == if r < 24 { r + 31 } else { r - 24 });
        assert((n + 31) % 55 == if r < 23 { r + 32 } else if r == 54 { 31 } else { r - 23 });
        // The two lagged words are those of index m and m + 31.
        assert(t[3 + r] == lagged_word(m));
        assert(t[t[2] as int] == lagged_word(m + 31));
        lemma_seed_word_bounds(0);
        assert(0 <= step_word(s) < 0x4000_0000);
        assert(step_word(s) == lagged_word(n + 54));
        assert forall|i: int| 3 <= i < 58 implies #[trigger] u[i] == lagged_word(
            last_write(i - 3, n as int) as nat,
        ) by {
            if i == 3 + r {
                assert(last_write(i - 3, n as int) == n + 54);
            } else {
                assert(last_write(i - 3, n as int) == last_write(i - 3, m as int));
                assert(u[i] == t[i]);
            }
        }
        assert(u[0] != 0);
    }
}

/// Law: a fresh generator follows the lagged Fibonacci recurrence
/// `x(j) = x(j - 55) + x(j - 24)` modulo 2^30, seeded with 55 Fibonacci
/// numbers; draw `n` returns `x(n + 55) / 64`.
pub proof fn lemma_lagged_fibonacci(j: nat)
    requires
        j >= 55,
    ensures
        lagged_word(j) == (lagged_word((j - 55) as nat) + lagged_word((j - 24) as nat)) % 0x4000_0000,
        output_at(fresh_state(), (j - 55) as nat) == lagged_word(j) / 64,
{
    let n = (j - 55) as nat;
    lemma_table_tracks(n);
    let t = ready_state(state_after(fresh_state(), n));
    let q: int = (n / 55) as int;
    let r: int = (n % 55) as int;
    assert(n == 55 * q + r);
    assert((n + 31) % 55 == if r < 24 { r + 31 } else { r - 24 });
    assert(t[3 + r] == lagged_word(n));
    assert(t[t[2] as int] == lagged_word(n + 31));
}

/// For a non-negative `x` that fits in 31 bits, masking with the 30 low bits
/// is reduction modulo 2^30, and shifting right by 6 is division by 64.
proof fn lemma_mask_and_shift(x: i32)
    by (bit_vector)
    requires
        0 <= x,
    ensures
        x & 0x3fff_ffffi32 == x % 0x4000_0000i32,
        0i32 <= x & 0x3fff_ffffi32,
        (x & 0x3fff_ffffi32) >> 6i32 == ((x & 0x3fff_ffffi32) / 64i32) as i32,
{
}

/// State of the lagged Fibonacci generator: word 0 is the seeded flag,
/// words 1 and 2 the lag positions, words 3 to 57 the lag table.
pub struct PrngState {
    rgi_state: [i32; 58],
}

impl View for PrngState {
    type V = Seq<i32>;

    closed spec fn view(&self) -> Seq<i32> {
        self.rgi_state@
    }
}

impl PrngState {
    #[verifier::type_invariant]
    closed spec fn inv(self) -> bool {
        state_wf(self.rgi_state@)
    }

    /// An unseeded generator; its first draw seeds it.
    pub fn new() -> (r: Self)
        ensures
            r@ == fresh_state(),
            state_wf(r@),
    {
        let r = PrngState { rgi_state: [0; 58] };
        assert(r.rgi_state@ =~= fresh_state());
        r
    }

    /// Seed the lag table: 1, 1, then Fibonacci numbers modulo 2^30.
    fn init(&mut self)
        ensures
            final(self)@ == seeded_state(),
            state_wf(final(self)@),
    {
        let mut st: [i32; 58] = [0; 58];
        st[3] = 1;
        st[4] = 1;
        for i in 5..58
            invariant
                forall|j: int| 3 <= j < i ==> st@[j] == seed_word((j - 3) as nat),
        {
            proof {
                lemma_seed_word_bounds((i - 4) as nat);
                lemma_seed_word_bounds((i - 5) as nat);
            }
            let x: i32 = st[i - 1] + st[i - 2];
            proof {
                lemma_mask_and_shift(x);
            }
            st[i] = x & MASK;
        }
        st[0] = 1;
        st[1] = 58 - 55;
        st[2] = 58 - 24;
        proof {
            lemma_seeded_state_wf();
        }
        assert(st@ =~= seeded_state());
        self.rgi_state = st;
    }

    /// Draw the next value of the generator, seeding it first if needed.
    pub fn number_mm(&mut self) -> (r: i32)
        ensures
            state_wf(old(self)@),
            final(self)@ == step_state(old(self)@),
            r == step_output(old(self)@),
            0 <= r < 0x100_0000,
            state_wf(final(self)@),
    {
        proof {
            use_type_invariant(&*self);
            lemma_step_wf(self@);
        }
        if self.rgi_state[0] == 0 {
            self.init();
        }
        proof {
            use_type_invariant(&*self);
        }
        let i_state1: usize = self.rgi_state[1] as usize;
        let i_state2: usize = self.rgi_state[2] as usize;

        let x: i32 = self.rgi_state[i_state1] + self.rgi_state[i_state2];
        proof {
            lemma_mask_and_shift(x);
        }
        let i_rand: i32 = x & MASK;
        self.rgi_state[i_state1] = i_rand;

        let mut new_state1: usize = i_state1 + 1;
        if new_state1 == 58 {
            new_state1 = 3;
        }

        let mut new_state2: usize = i_state2 + 1;
        if new_state2 == 58 {
            new_state2 = 3;
        }

        self.rgi_state[1] = new_state1 as i32;
        self.rgi_state[2] = new_state2 as i32;
        assert(self.rgi_state@ =~= step_state(old(self)@));

        i_rand >> 6
    }
}

/// Draw the next value of `state`; every value lies in [0, 2^24).
pub fn number_mm(state: &mut PrngState) -> (r: i32)
    ensures
        state_wf(old(state)@),
        final(state)@ == step_state(old(state)@),
        r == step_output(old(state)@),
        0 <= r < 0x100_0000,
        state_wf(final(state)@),
{
    state.number_mm()
}

/// Put `state` back to an unseeded generator, so that it replays the same
/// sequence from the start.
pub fn reset_state(state: &mut PrngState)
    ensures
        final(state)@ == fresh_state(),
{
    *state = PrngState::new();
}

/// `p` doubled until it reaches `range`.
pub open spec fn double_until(p: int, range: int) -> int
    decreases (if p >= range { 0 } else { range - p }),
{
    if p <= 0 || p >= range {
        p
    } else {
        double_until(2 * p, range)
    }
}

/// The modulus a draw of `number_range` is reduced by: the smallest power of
/// two, at least 2, that is not below `range`.
pub open spec fn sample_modulus(range: int) -> int {
    double_until(2, range)
}

/// Draws of the generator used per candidate: one for ranges of at most
/// 2^24 values, two (48 bits) for wider ranges.
pub open spec fn draw_width(range: int) -> nat {
    if range <= 0x100_0000 {
        1
    } else {
        2
    }
}

/// Candidate number `k` for a range of `range` values, drawn from `s`.
pub open spec fn candidate(s: Seq<i32>, range: int, k: nat) -> int {
    if range <= 0x100_0000 {
        output_at(s, k) % sample_modulus(range)
    } else {
        (output_at(s, 2 * k) * 0x100_0000 + output_at(s, 2 * k + 1)) % sample_modulus(range)
    }
}

/// Candidate `k` lies inside the range and is kept.
pub open spec fn accepted(s: Seq<i32>, range: int, k: nat) -> bool {
    candidate(s, range, k) < range
}

/// Candidate `k` is the first one kept.
pub open spec fn first_accepted(s: Seq<i32>, range: int, k: nat) -> bool {
    &&& accepted(s, range, k)
    &&& forall|j: nat| j < k ==> !accepted(s, range, j)
}

/// What a call `number_range(from, to)` with `from < to` on state `s` may
/// end in, with result `r` and final state `t`: the first kept candidate,
/// shifted by `from`, or `from` once `DRAW_LIMIT` candidates were all rejected.
pub open spec fn range_outcome(s: Seq<i32>, from: int, to: int, r: int, t: Seq<i32>) -> bool {
    let range: int = to - from + 1;
    ||| exists|k: nat|
        #![trigger first_accepted(s, range, k)]
        {
            &&& k < DRAW_LIMIT
            &&& first_accepted(s, range, k)
            &&& r == from + candidate(s, range, k)
            &&& t == state_after(s, draw_width(range) * (k + 1))
        }
    ||| {
        &&& forall|j: nat| j < DRAW_LIMIT ==> !accepted(s, range, j)
        &&& r == from
        &&& t == state_after(s, draw_width(range) * (DRAW_LIMIT as nat))
    }
}

/// Masking with `p - 1` is reduction modulo `p` for a power of two `p`.
proof fn lemma_low_mask_is_mod(x: i64, p: i64, e: nat)
    requires
        0 <= x,
        e < 63,
        p == pow2(e),
    ensures
        x & ((p - 1) as i64) == x % p,
        0 <= x % p < p,
{
    lemma_pow2_pos(e);
    lemma_u64_pow2_no_overflow(e);
    lemma_u64_low_bits_mask_is_mod(x as u64, e);
    let m: i64 = (p - 1) as i64;
    assert(x & m == ((x as u64) & (m as u64)) as i64) by (bit_vector)
        requires
            0 <= x,
            0 <= m,
    ;
}

/// Shifting a positive number below 2^32 left by one doubles it.
proof fn lemma_shift_doubles(p: i64)
    by (bit_vector)
    requires
        0 < p < 0x1_0000_0000i64,
    ensures
        p << 1u64 == (p * 2) as i64,
{
}

/// Joining two 24-bit draws into one 48-bit number.
proof fn lemma_join_draws(a: i64, b: i64)
    by (bit_vector)
    requires
        0 <= a < 0x100_0000i64,
        0 <= b < 0x100_0000i64,
    ensures
        (a << 24i64) | b == (a * 0x100_0000i64 + b) as i64,
        0 <= (a * 0x100_0000i64 + b) as i64,
{
}

/// A draw from `state` seen as draw number `n` from `s0`.
proof fn lemma_draw_step(s0: Seq<i32>, n: nat)
    ensures
        state_after(s0, n + 1) == step_state(state_after(s0, n)),
        output_at(s0, n) == step_output(state_after(s0, n)),
{
}

/// A random number in [from, to]; when `to <= from` the answer is `from` and
/// nothing is drawn. Candidates are drawn by rejection sampling below the
/// smallest power of two covering the range, with 48-bit candidates for
/// ranges wider than 2^24 values. The loop is bounded: after `DRAW_LIMIT`
/// rejected candidates in a row (2^64 - 1, far beyond any run) the answer
/// is `from`.
pub fn number_range(state: &mut PrngState, from: i32, to: i32) -> (r: i32)
    ensures
        state_wf(old(state)@),
        to <= from ==> r == from && final(state)@ == old(state)@,
        from < to ==> range_outcome(old(state)@, from as int, to as int, r as int, final(state)@),
        from <= to ==> from <= r <= to,
        state_wf(final(state)@),
{
    proof {
        use_type_invariant(&*state);
    }
    let range: i64 = (to as i64) - (from as i64) + 1;
    if range <= 1 {
        return from;
    }
    let wide: bool = range > 0x100_0000;

    let mut power: i64 = 2;
    let ghost mut e: nat = 1;
    proof {
        lemma2_to64();
    }
    while power < range
        invariant
            2 <= range <= 0x1_0000_0000,
            2 <= power <= 2 * range,
            e <= 33,
            power == pow2(e),
            double_until(power as int, range as int) == sample_modulus(range as int),
        decreases 2 * range - power,
    {
        proof {
            lemma_shift_doubles(power);
            lemma_pow2_unfold(e + 1);
            lemma2_to64();
            if e > 32 {
                lemma_pow2_strictly_increases(32, e);
            }
        }
        power = power << 1u64;
        proof {
            e = e + 1;
        }
    }

    let ghost s0 = state@;
    let ghost width = draw_width(range as int);
    let mut attempts: u64 = 0;
    while attempts < DRAW_LIMIT
        invariant
            2 <= range <= 0x1_0000_0000,
            wide == (range > 0x100_0000),
            2 <= power <= 2 * range,
            width == draw_width(range as int),
            power == sample_modulus(range as int),
            e <= 33,
            power == pow2(e),
            state@ == state_after(s0, width * (attempts as nat)),
            state_wf(state@),
            s0 == old(state)@,
            state_wf(s0),
            from as int + range - 1 == to,
            forall|j: nat| j < attempts ==> !accepted(s0, range as int, j),
        decreases DRAW_LIMIT - attempts,
    {
        let ghost n = (width * attempts) as nat;
        let number: i64 = if wide {
            proof {
                lemma_draw_step(s0, n);
                lemma_draw_step(s0, n + 1);
            }
            let hi_draw: i64 = state.number_mm() as i64;
            let lo_draw: i64 = state.number_mm() as i64;
            proof {
                lemma_join_draws(hi_draw, lo_draw);
            }
            let hi: i64 = hi_draw << 24;
            let joined: i64 = hi | lo_draw;
            proof {
                lemma_low_mask_is_mod(joined, power, e);
                assert(n == 2 * attempts);
            }
            joined & (power - 1)
        } else {
            proof {
                lemma_draw_step(s0, n);
            }
            let draw: i64 = state.number_mm() as i64;
            proof {
                lemma_low_mask_is_mod(draw, power, e);
            }
            draw & (power - 1)
        };
        assert(number == candidate(s0, range as int, attempts as nat));
        if number < range {
            let r: i32 = (from as i64 + number) as i32;
            let ghost k = attempts as nat;
            // Draw `k` is the first kept candidate: the witness of `range_outcome`.
            assert({
                &&& k < DRAW_LIMIT
                &&& first_accepted(s0, (to - from + 1) as int, k)
                &&& r == from + candidate(s0, (to - from + 1) as int, k)
                &&& state@ == state_after(s0, draw_width((to - from + 1) as int) * (k + 1))
            });
            return r;
        }
        attempts += 1;
    }
    from
}

/// What `isquare(num)` returns: 0 for 0, 1 for every `num <= 1` other than 0,
/// and otherwise the largest `r >= 1` with `r * r < num` (so a perfect square
/// `k * k` gives `k - 1`).
pub open spec fn isquare_result(num: int, r: int) -> bool {
    if num == 0 {
        r == 0
    } else if num <= 1 {
        r == 1
    } else {
        1 <= r && r * r < num && num <= (r + 1) * (r + 1)
    }
}

/// Integer square root as the runtime server computes it: the loop stops at
/// the first `i >= 2` with `i * i >= num` and answers `i - 1`.
pub fn isquare(num: i32) -> (r: i32)
    ensures
        isquare_result(num as int, r as int),
{
    if num == 0 {
        return 0;
    }
    if num == 1 {
        return 1;
    }
    let mut i: i32 = 2;
    while (i as i64) * (i as i64) < (num as i64)
        invariant
            2 <= i <= 46341,
            i * i <= 46341 * 46341,
            num >= 2 ==> (i - 1) * (i - 1) < num,
            num < 2 ==> i == 2,
        decreases num - i,
    {
        assert((i as int) <= (i as int) * (i as int) && i < 46341) by (nonlinear_arith)
            requires
                2 <= i,
                (i as int) * (i as int) < num,
                num <= 0x7fff_ffff,
        ;
        i += 1;
        assert(i * i <= 46341 * 46341) by (nonlinear_arith)
            requires
                0 <= i <= 46341,
        ;
    }
    assert(num >= 2 ==> 1 <= i - 1);
    i - 1
}

/// Law: the `isquare` contract admits exactly one answer for each input.
pub proof fn lemma_isquare_result_unique(num: int, r1: int, r2: int)
    requires
        isquare_result(num, r1),
        isquare_result(num, r2),
    ensures
        r1 == r2,
{
    if num > 1 {
        if r1 < r2 {
            assert((r1 + 1) * (r1 + 1) <= r2 * r2) by (nonlinear_arith)
                requires
                    1 <= r1 < r2,
            ;
        } else if r2 < r1 {
            assert((r2 + 1) * (r2 + 1) <= r1 * r1) by (nonlinear_arith)
                requires
                    1 <= r2 < r1,
            ;
        }
    }
}

/// Law: for a perfect square `k * k` with `k >= 2` the answer is `k - 1`,
/// one below the true root (so `isquare(4) == 1`, `isquare(100) == 9`).
pub proof fn lemma_isquare_perfect_square(k: int)
    requires
        k >= 2,
    ensures
        isquare_result(k * k, k - 1),
{
    assert((k - 1) * (k - 1) < k * k && k * k >= 2) by (nonlinear_arith)
        requires
            k >= 2,
    ;
}

/// Law: the answer `r` for `num >= 2` is the floor square root of
/// `num - 1`: `r * r <= num - 1 < (r + 1) * (r + 1)`.
pub proof fn lemma_isquare_is_root_of_predecessor(num: int, r: int)
    requires
        num >= 2,
        isquare_result(num, r),
    ensures
        r * r <= num - 1 < (r + 1) * (r + 1),
{
}

/// Law: the seeded table is the Fibonacci sequence modulo 2^30 over all 55
/// words: words 3 and 4 are 1, and each later word is the sum of the two
/// before it modulo 2^30; word 0 marks the state as seeded and the lag
/// positions start at 3 and 34.
pub proof fn lemma_seeded_table_is_fibonacci()
    ensures
        seeded_state().len() == 58,
        seeded_state()[0] != 0,
        seeded_state()[1] == 3,
        seeded_state()[2] == 34,
        seeded_state()[3] == 1,
        seeded_state()[4] == 1,
        forall|i: int|
            5 <= i < 58 ==> #[trigger] seeded_state()[i] == (seeded_state()[i - 1] + seeded_state()[i
                - 2]) % 0x4000_0000,
{
    assert forall|i: int| 5 <= i < 58 implies #[trigger] seeded_state()[i] == (seeded_state()[i
        - 1] + seeded_state()[i - 2]) % 0x4000_0000 by {
        lemma_seed_word_bounds((i - 3) as nat);
        lemma_seed_word_bounds((i - 4) as nat);
        lemma_seed_word_bounds((i - 5) as nat);
    }
}

/// Law: the seed words are 1, 1 and then the Fibonacci recurrence modulo
/// 2^30, for every one of the 55 words.
pub proof fn lemma_seed_words_are_fibonacci(k: nat)
    requires
        k < 55,
    ensures
        k < 2 ==> seed_word(k) == 1,
        k >= 2 ==> seed_word(k) == (seed_word((k - 1) as nat) + seed_word((k - 2) as nat))
            % 0x4000_0000,
{
}

/// Doubling a power of two `p` below `range` ends on a power of two that is
/// at least `range` and less than twice it.
proof fn lemma_double_until_pow2(p: int, e: nat, range: int) -> (e2: nat)
    requires
        e >= 1,
        p == pow2(e),
        p < 2 * range,
    ensures
        e2 >= e,
        double_until(p, range) == pow2(e2),
        range <= double_until(p, range) < 2 * range,
    decreases (if p >= range { 0 } else { range - p }),
{
    lemma_pow2_pos(e);
    if p >= range {
        e
    } else {
        lemma_pow2_unfold(e + 1);
        lemma_double_until_pow2(2 * p, e + 1, range)
    }
}

/// Law: for a range of at least 2 values, the modulus `number_range` reduces
/// its candidates by is the smallest power of two not below the range: a
/// power of two `2^e` with `e >= 1`, at least the range and less than twice
/// the range.
pub proof fn lemma_sample_modulus(range: int) -> (e: nat)
    requires
        range >= 2,
    ensures
        e >= 1,
        sample_modulus(range) == pow2(e),
        range <= sample_modulus(range) < 2 * range,
{
    lemma2_to64();
    lemma_double_until_pow2(2, 1, range)
}

/// Law: a range that is itself a power of two `2^e` (`e >= 1`) is its own
/// modulus, so every candidate is kept.
pub proof fn lemma_sample_modulus_of_power(e: nat)
    requires
        e >= 1,
    ensures
        sample_modulus(pow2(e) as int) == pow2(e),
{
    lemma_pow2_pos(e);
    lemma_pow2_unfold(e);
    lemma2_to64();
    lemma_pow2_strictly_increases(0, e);
    let e2 = lemma_sample_modulus(pow2(e) as int);
    lemma_pow2_unfold(e + 1);
    if e2 < e {
        lemma_pow2_strictly_increases(e2, e);
    } else if e2 > e {
        if e2 > e + 1 {
            lemma_pow2_strictly_increases(e + 1, e2);
        }
    }
}

/// Law: a range of at most 2^24 values uses one draw per candidate, the draw
/// reduced by the modulus; a wider range uses two draws per candidate,
/// joined into a 48-bit number `first * 2^24 + second` and then reduced.
pub proof fn lemma_candidate_draws(s: Seq<i32>, range: int, k: nat)
    ensures
        range <= 0x100_0000 ==> draw_width(range) == 1 && candidate(s, range, k) == output_at(s, k)
            % sample_modulus(range),
        range > 0x100_0000 ==> draw_width(range) == 2 && candidate(s, range, k) == (output_at(
            s,
            2 * k,
        ) * 0x100_0000 + output_at(s, 2 * k + 1)) % sample_modulus(range),
{
}

/// Law: every value below the modulus is a possible candidate: for a range
/// of at most 2^24 values it is one 24-bit draw, and for a wider range (up
/// to 2^32 values) it is two 24-bit draws joined into a 48-bit number.
/// Together with `lemma_candidate_draws`, no value of a range is out of
/// reach of the sampling.
pub proof fn lemma_every_candidate_value_is_reachable(range: int, v: int) -> (ab: (int, int))
    requires
        2 <= range <= 0x1_0000_0000,
        0 <= v < sample_modulus(range),
    ensures
        0 <= ab.0 < 0x100_0000,
        0 <= ab.1 < 0x100_0000,
        range <= 0x100_0000 ==> ab.1 % sample_modulus(range) == v,
        range > 0x100_0000 ==> (ab.0 * 0x100_0000 + ab.1) % sample_modulus(range) == v,
{
    let e = lemma_sample_modulus(range);
    let m = sample_modulus(range);
    if range <= 0x100_0000 {
        lemma2_to64();
        if e > 24 {
            lemma_pow2_strictly_increases(24, e);
            if e > 25 {
                lemma_pow2_strictly_increases(25, e);
            }
        }
        if e < 24 {
            lemma_pow2_strictly_increases(e, 24);
        }
        assert(v % m == v) by {
            vstd::arithmetic::div_mod::lemma_small_mod(v as nat, m as nat);
        }
        (0, v)
    } else {
        let a = v / 0x100_0000;
        let b = v % 0x100_0000;
        assert(v == a * 0x100_0000 + b);
        assert(a < 0x100_0000);
        assert(v % m == v) by {
            vstd::arithmetic::div_mod::lemma_small_mod(v as nat, m as nat);
        }
        (a, b)
    }
}

} // verus!
