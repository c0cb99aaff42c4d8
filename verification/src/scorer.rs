//! Grading a guess: how close two texts are, as a whole number from 0 to 100.
//!
//! A text is graded by its embedding, a vector of numbers that stands for
//! what the text means. Two embeddings are close where the angle between
//! them is small, and the grade is the cosine of that angle, brought from
//! the range -1 to 1 onto 0 to 100 and rounded to the nearest whole number,
//! a half going up. Embeddings are held in fixed point, so the grade is exact:
//! no rounding happens but the one that the grade itself asks for.

use vstd::prelude::*;

verus! {

/// The highest number of components of an embedding.
pub const MAX_DIMENSION: usize = 1_048_576;

/// The highest grade: that of a guess that means what the prompt means.
pub const FULL_SCORE: u32 = 100;

/// The sum of the products of the first `upto` components of `a` and `b`.
pub open spec fn dot_upto(a: Seq<int>, b: Seq<int>, upto: nat) -> int
    decreases upto,
{
    if upto == 0 {
        0
    } else {
        dot_upto(a, b, (upto - 1) as nat) + a[upto - 1] * b[upto - 1]
    }
}

/// The number of components that `a` and `b` both have.
pub open spec fn shared_len(a: Seq<int>, b: Seq<int>) -> nat {
    if a.len() <= b.len() {
        a.len()
    } else {
        b.len()
    }
}

/// The dot product of `a` and `b`, over the components that both have.
pub open spec fn dot(a: Seq<int>, b: Seq<int>) -> int {
    dot_upto(a, b, shared_len(a, b))
}

/// The square of the length of `a`.
pub open spec fn norm_sq(a: Seq<int>) -> int {
    dot_upto(a, a, a.len())
}

/// Whether the grade of two vectors is at least `mark`, where `d` is their
/// dot product and `n` the product of the squares of their lengths.
///
/// With `c` for the cosine `d / sqrt(n)`, the grade is `50 * c + 50` rounded
/// to the nearest whole number, a half going up. It is at least `mark` where
/// `50 * c + 50 >= mark - 1/2`, that is where `100 * d >= t * sqrt(n)` with
/// `t = 2 * mark - 101`. Squaring both sides, with an eye on their signs,
/// leaves whole numbers only.
pub open spec fn reaches(d: int, n: int, mark: int) -> bool {
    let t = 2 * mark - 101;
    if t <= 0 {
        d >= 0 || t * t * n >= 10000 * (d * d)
    } else {
        d >= 0 && t * t * n <= 10000 * (d * d)
    }
}

/// The highest mark from 1 to `upto` that the grade reaches, and 0 where it
/// reaches none of them.
pub open spec fn highest_reached(d: int, n: int, upto: nat) -> nat
    decreases upto,
{
    if upto == 0 {
        0
    } else if reaches(d, n, upto as int) {
        upto
    } else {
        highest_reached(d, n, (upto - 1) as nat)
    }
}

/// The grade of `b` against `a`: the cosine of the angle between them, as a
/// whole number from 0 to 100. Where one of them has no length there is no
/// angle, and the grade is 0.
pub open spec fn similarity(a: Seq<int>, b: Seq<int>) -> nat {
    if norm_sq(a) == 0 || norm_sq(b) == 0 {
        0
    } else {
        highest_reached(dot(a, b), norm_sq(a) * norm_sq(b), FULL_SCORE as nat)
    }
}

/// The components of an embedding as plain numbers.
pub open spec fn components(values: Seq<i16>) -> Seq<int> {
    values.map_values(|x: i16| x as int)
}

/// The embedding of a text, in fixed point: each component a whole number
/// of equal steps. How long the steps are does not matter to the grade (see
/// [`lemma_similarity_ignores_scale`]), as long as one embedding uses one
/// length of step throughout.
#[derive(Debug)]
pub struct Embedding {
    values: Vec<i16>,
}

impl View for Embedding {
    type V = Seq<int>;

    closed spec fn view(&self) -> Seq<int> {
        components(self.values@)
    }
}

impl Embedding {
    #[verifier::type_invariant]
    spec fn bounded(self) -> bool {
        self.values.len() <= MAX_DIMENSION
    }

    /// Takes the components in, unless there are more than
    /// [`MAX_DIMENSION`] of them.
    pub fn new(values: Vec<i16>) -> (r: Option<Embedding>)
        ensures
            match r {
                Some(e) => e@ == components(values@) && values.len() <= MAX_DIMENSION,
                None => values.len() > MAX_DIMENSION,
            },
    {
        if values.len() > MAX_DIMENSION {
            None
        } else {
            Some(Embedding { values })
        }
    }

    /// The number of components.
    pub fn dimension(&self) -> (r: usize)
        ensures
            r == self@.len(),
            r <= MAX_DIMENSION,
    {
        proof {
            use_type_invariant(self);
        }
        self.values.len()
    }

    /// The components.
    pub fn values(&self) -> (r: &Vec<i16>)
        ensures
            components(r@) == self@,
    {
        &self.values
    }
}

/// The product of two components is small.
proof fn lemma_product_bound(x: int, y: int)
    requires
        -32768 <= x <= 32767,
        -32768 <= y <= 32767,
    ensures
        -1073741824 <= x * y <= 1073741824,
{
    assert(-1073741824 <= x * y <= 1073741824) by (nonlinear_arith)
        requires
            -32768 <= x <= 32767,
            -32768 <= y <= 32767,
    ;
}

/// The sum of products of `values` with `others`, over the components that
/// both have.
fn dot_product(values: &Vec<i16>, others: &Vec<i16>) -> (d: i64)
    requires
        values.len() <= MAX_DIMENSION,
        others.len() <= MAX_DIMENSION,
    ensures
        d == dot(components(values@), components(others@)),
        -1073741824 * shared_len(components(values@), components(others@)) <= d <= 1073741824
            * shared_len(components(values@), components(others@)),
{
    let n = if values.len() <= others.len() {
        values.len()
    } else {
        others.len()
    };
    let mut d: i64 = 0;
    let mut i: usize = 0;
    while i < n
        invariant
            i <= n,
            n <= values.len(),
            n <= others.len(),
            n <= MAX_DIMENSION,
            d == dot_upto(components(values@), components(others@), i as nat),
            -1073741824 * i <= d <= 1073741824 * i,
        decreases n - i,
    {
        let x = values[i] as i64;
        let y = others[i] as i64;
        proof {
            lemma_product_bound(x as int, y as int);
        }
        d = d + x * y;
        i += 1;
    }
    d
}

/// The highest mark from 1 to 100 that the grade reaches, and 0 where it
/// reaches none.
fn highest_mark(d: i64, n: u128) -> (r: u32)
    requires
        -1125899906842624 <= d <= 1125899906842624,
        n <= 1267650600228229401496703205376,
    ensures
        r == highest_reached(d as int, n as int, FULL_SCORE as nat),
        r <= FULL_SCORE,
{
    let size: u128 = if d < 0 {
        (-d) as u128
    } else {
        d as u128
    };
    assert(size * size == d * d && size * size <= 1267650600228229401496703205376) by (nonlinear_arith)
        requires
            size == d || size == -d,
            0 <= size <= 1125899906842624,
    ;
    let square: u128 = size * size;
    let reach: u128 = 10000 * square;
    let mut mark: u32 = FULL_SCORE;
    while mark > 0
        invariant
            mark <= FULL_SCORE,
            reach == 10000 * (d * d),
            n <= 1267650600228229401496703205376,
            highest_reached(d as int, n as int, FULL_SCORE as nat) == highest_reached(
                d as int,
                n as int,
                mark as nat,
            ),
        decreases mark,
    {
        let over = mark > 50;
        let t: u128 = if over {
            (2 * mark - 101) as u128
        } else {
            (101 - 2 * mark) as u128
        };
        assert(t * t == (2 * mark - 101) * (2 * mark - 101) && t * t <= 10201) by (nonlinear_arith)
            requires
                t == 2 * mark - 101 || t == 101 - 2 * mark,
                0 <= t <= 101,
        ;
        let tt: u128 = t * t;
        assert(tt * n <= 10201 * 1267650600228229401496703205376) by (nonlinear_arith)
            requires
                tt <= 10201,
                n <= 1267650600228229401496703205376,
        ;
        let bar: u128 = tt * n;
        let reached = if over {
            d >= 0 && bar <= reach
        } else {
            d >= 0 || bar >= reach
        };
        assert(reached == reaches(d as int, n as int, mark as int));
        if reached {
            return mark;
        }
        mark = mark - 1;
    }
    0
}

/// Grades a guess against the prompt it aims at, by their embeddings.
///
/// The grade is the cosine of the angle between the two embeddings, brought
/// onto 0 to 100 and rounded to the nearest whole number, a half going up:
/// 100 where they point the same way, 50 where they have nothing in common,
/// 0 where they point opposite ways. Where one of them has no length, the
/// grade is 0.
pub fn calculate_similarity(prompt: &Embedding, guess: &Embedding) -> (r: u32)
    ensures
        r == similarity(prompt@, guess@),
        r <= FULL_SCORE,
{
    proof {
        use_type_invariant(prompt);
        use_type_invariant(guess);
    }
    let d = dot_product(&prompt.values, &guess.values);
    let a = dot_product(&prompt.values, &prompt.values);
    let b = dot_product(&guess.values, &guess.values);
    proof {
        lemma_norm_is_not_negative(prompt@, prompt@.len());
        lemma_norm_is_not_negative(guess@, guess@.len());
    }
    if a == 0 || b == 0 {
        return 0;
    }
    assert(a * b <= 1267650600228229401496703205376) by (nonlinear_arith)
        requires
            0 <= a <= 1073741824 * 1048576,
            0 <= b <= 1073741824 * 1048576,
    ;
    let n: u128 = (a as u128) * (b as u128);
    highest_mark(d, n)
}

/// A sum of squares is not negative, and does not shrink as it goes on.
pub proof fn lemma_norm_is_not_negative(a: Seq<int>, upto: nat)
    ensures
        dot_upto(a, a, upto) >= 0,
        upto > 0 ==> dot_upto(a, a, upto) >= dot_upto(a, a, (upto - 1) as nat),
    decreases upto,
{
    if upto > 0 {
        lemma_norm_is_not_negative(a, (upto - 1) as nat);
        let x = a[upto - 1];
        assert(x * x >= 0) by (nonlinear_arith);
    }
}

/// A sum of squares does not shrink as it takes more components in.
pub proof fn lemma_norm_grows(a: Seq<int>, fewer: nat, more: nat)
    requires
        fewer <= more,
    ensures
        0 <= dot_upto(a, a, fewer) <= dot_upto(a, a, more),
    decreases more,
{
    lemma_norm_is_not_negative(a, fewer);
    if fewer < more {
        lemma_norm_grows(a, fewer, (more - 1) as nat);
        lemma_norm_is_not_negative(a, more);
    }
}

/// The dot product does not depend on the order of the two vectors.
pub proof fn lemma_dot_commutes(a: Seq<int>, b: Seq<int>, upto: nat)
    ensures
        dot_upto(a, b, upto) == dot_upto(b, a, upto),
    decreases upto,
{
    if upto > 0 {
        lemma_dot_commutes(a, b, (upto - 1) as nat);
        let x = a[upto - 1];
        let y = b[upto - 1];
        assert(x * y == y * x) by (nonlinear_arith);
    }
}

/// One more component keeps the inequality of Cauchy and Schwarz.
proof fn lemma_cauchy_schwarz_step(dd: int, aa: int, bb: int, x: int, y: int)
    requires
        dd * dd <= aa * bb,
        aa >= 0,
        bb >= 0,
    ensures
        (dd + x * y) * (dd + x * y) <= (aa + x * x) * (bb + y * y),
{
    let p = x * y;
    let pp = aa * (y * y);
    let qq = bb * (x * x);
    let u = pp + qq;
    let v = 2 * dd * p;
    assert(pp >= 0 && qq >= 0) by (nonlinear_arith)
        requires
            aa >= 0,
            bb >= 0,
            pp == aa * (y * y),
            qq == bb * (x * x),
    ;
    assert(u * u >= 4 * (pp * qq)) by (nonlinear_arith)
        requires
            u == pp + qq,
    ;
    assert(pp * qq == (aa * bb) * (p * p)) by (nonlinear_arith)
        requires
            pp == aa * (y * y),
            qq == bb * (x * x),
            p == x * y,
    ;
    assert((aa * bb) * (p * p) >= (dd * dd) * (p * p)) by (nonlinear_arith)
        requires
            dd * dd <= aa * bb,
    ;
    assert(v * v == 4 * ((dd * dd) * (p * p))) by (nonlinear_arith)
        requires
            v == 2 * dd * p,
    ;
    assert(u >= v) by (nonlinear_arith)
        requires
            u >= 0,
            u * u >= v * v,
    ;
    assert((dd + p) * (dd + p) == dd * dd + v + p * p) by (nonlinear_arith)
        requires
            v == 2 * dd * p,
    ;
    assert((aa + x * x) * (bb + y * y) == aa * bb + u + p * p) by (nonlinear_arith)
        requires
            u == aa * (y * y) + bb * (x * x),
            p == x * y,
    ;
}

/// The inequality of Cauchy and Schwarz: the square of a dot product is at
/// most the product of the squares of the two lengths.
pub proof fn lemma_cauchy_schwarz(a: Seq<int>, b: Seq<int>, upto: nat)
    ensures
        dot_upto(a, b, upto) * dot_upto(a, b, upto) <= dot_upto(a, a, upto) * dot_upto(b, b, upto),
    decreases upto,
{
    if upto == 0 {
        assert(0int * 0int <= 0int * 0int);
    } else {
        let fewer = (upto - 1) as nat;
        lemma_cauchy_schwarz(a, b, fewer);
        lemma_norm_is_not_negative(a, fewer);
        lemma_norm_is_not_negative(b, fewer);
        lemma_cauchy_schwarz_step(
            dot_upto(a, b, fewer),
            dot_upto(a, a, fewer),
            dot_upto(b, b, fewer),
            a[upto - 1],
            b[upto - 1],
        );
    }
}

/// The square of the dot product of two vectors is at most the product of
/// the squares of their lengths, also where one has more components than
/// the other.
pub proof fn lemma_dot_is_bounded(a: Seq<int>, b: Seq<int>)
    ensures
        norm_sq(a) >= 0,
        norm_sq(b) >= 0,
        dot(a, b) * dot(a, b) <= norm_sq(a) * norm_sq(b),
{
    let m = shared_len(a, b);
    lemma_cauchy_schwarz(a, b, m);
    lemma_norm_grows(a, m, a.len());
    lemma_norm_grows(b, m, b.len());
    let d = dot(a, b);
    let am = dot_upto(a, a, m);
    let bm = dot_upto(b, b, m);
    assert(am * bm <= norm_sq(a) * norm_sq(b)) by (nonlinear_arith)
        requires
            0 <= am <= norm_sq(a),
            0 <= bm <= norm_sq(b),
    ;
}

/// What the highest mark reached is: a mark that is reached, unless it is
/// 0, above which no mark up to `upto` is reached.
pub proof fn lemma_highest_reached(d: int, n: int, upto: nat)
    ensures
        highest_reached(d, n, upto) <= upto,
        highest_reached(d, n, upto) > 0 ==> reaches(d, n, highest_reached(d, n, upto) as int),
        forall|k: int| highest_reached(d, n, upto) < k <= upto ==> !reaches(d, n, k),
    decreases upto,
{
    if upto > 0 && !reaches(d, n, upto as int) {
        lemma_highest_reached(d, n, (upto - 1) as nat);
    }
}

/// The grade does not depend on which of the two texts is the prompt and
/// which the guess.
pub proof fn lemma_similarity_is_symmetric(a: Seq<int>, b: Seq<int>)
    ensures
        similarity(a, b) == similarity(b, a),
{
    lemma_dot_commutes(a, b, shared_len(a, b));
    assert(norm_sq(a) * norm_sq(b) == norm_sq(b) * norm_sq(a)) by (nonlinear_arith);
}

/// A text graded against itself gets the full score, unless its embedding
/// has no length.
pub proof fn lemma_similarity_of_itself(a: Seq<int>)
    requires
        norm_sq(a) != 0,
    ensures
        similarity(a, a) == FULL_SCORE,
{
    let n = norm_sq(a);
    lemma_norm_is_not_negative(a, a.len());
    assert(99 * 99 * (n * n) <= 10000 * (n * n)) by (nonlinear_arith);
    assert(reaches(n, n * n, 100));
}

/// The grade is the cosine brought onto 0 to 100 and rounded: with `c` for
/// the cosine of the angle between two vectors that both have a length, the
/// grade `s` is the whole number from 0 to 100 with
/// `s - 1/2 <= 50 * c + 50 < s + 1/2`.
pub proof fn lemma_similarity_is_the_rounding(a: Seq<int>, b: Seq<int>)
    requires
        norm_sq(a) != 0,
        norm_sq(b) != 0,
    ensures
        similarity(a, b) <= FULL_SCORE,
        reaches(dot(a, b), norm_sq(a) * norm_sq(b), similarity(a, b) as int),
        !reaches(dot(a, b), norm_sq(a) * norm_sq(b), similarity(a, b) as int + 1),
{
    let d = dot(a, b);
    let n = norm_sq(a) * norm_sq(b);
    let s = similarity(a, b);
    lemma_dot_is_bounded(a, b);
    lemma_highest_reached(d, n, FULL_SCORE as nat);
    assert(n > 0) by (nonlinear_arith)
        requires
            n == norm_sq(a) * norm_sq(b),
            norm_sq(a) > 0,
            norm_sq(b) > 0,
    ;
    let dd = d * d;
    assert(dd <= n);
    if s == 0 {
        let t: int = 2 * 0 - 101;
        assert(t * t * n >= 10000 * dd) by (nonlinear_arith)
            requires
                t == -101,
                dd <= n,
                n > 0,
        ;
    }
    if s == 100 {
        let t: int = 2 * 101 - 101;
        assert(!(t * t * n <= 10000 * dd)) by (nonlinear_arith)
            requires
                t == 101,
                dd <= n,
                n > 0,
        ;
    }
}

/// The vector `a` with every component `k` times as large.
pub open spec fn scaled(a: Seq<int>, k: int) -> Seq<int> {
    a.map_values(|x: int| k * x)
}

/// A dot product grows with its vectors: by `k` where one of them is
/// scaled by `k`, by `k * k` where both are.
proof fn lemma_dot_scales(a: Seq<int>, b: Seq<int>, k: int, upto: nat)
    requires
        upto <= a.len(),
    ensures
        dot_upto(scaled(a, k), b, upto) == k * dot_upto(a, b, upto),
        dot_upto(scaled(a, k), scaled(a, k), upto) == k * k * dot_upto(a, a, upto),
    decreases upto,
{
    if upto > 0 {
        lemma_dot_scales(a, b, k, (upto - 1) as nat);
        let x = a[upto - 1];
        let y = b[upto - 1];
        let d = dot_upto(a, b, (upto - 1) as nat);
        let n = dot_upto(a, a, (upto - 1) as nat);
        assert(k * d + (k * x) * y == k * (d + x * y)) by (nonlinear_arith);
        assert(k * k * n + (k * x) * (k * x) == k * k * (n + x * x)) by (nonlinear_arith);
    }
}

/// Whether a mark is reached does not change where the dot product grows
/// by `k` and the product of the squared lengths by `k * k`.
proof fn lemma_reaches_ignores_scale(d: int, n: int, k: int, mark: int)
    requires
        k > 0,
    ensures
        reaches(k * d, k * k * n, mark) == reaches(d, n, mark),
{
    let t = 2 * mark - 101;
    let kk = k * k;
    let bar = t * t * n;
    let reach = 10000 * (d * d);
    assert(kk > 0) by (nonlinear_arith)
        requires
            kk == k * k,
            k > 0,
    ;
    assert(t * t * (k * k * n) == kk * bar) by (nonlinear_arith)
        requires
            kk == k * k,
            bar == t * t * n,
    ;
    assert(10000 * ((k * d) * (k * d)) == kk * reach) by (nonlinear_arith)
        requires
            kk == k * k,
            reach == 10000 * (d * d),
    ;
    assert((kk * bar >= kk * reach) == (bar >= reach) && (kk * bar <= kk * reach) == (bar <= reach))
        by (nonlinear_arith)
        requires
            kk > 0,
    ;
    assert((k * d >= 0) == (d >= 0)) by (nonlinear_arith)
        requires
            k > 0,
    ;
}

/// The highest mark reached does not change either.
proof fn lemma_highest_ignores_scale(d: int, n: int, k: int, upto: nat)
    requires
        k > 0,
    ensures
        highest_reached(k * d, k * k * n, upto) == highest_reached(d, n, upto),
    decreases upto,
{
    if upto > 0 {
        lemma_reaches_ignores_scale(d, n, k, upto as int);
        lemma_highest_ignores_scale(d, n, k, (upto - 1) as nat);
    }
}

/// The grade depends on where two vectors point, not on how long they are:
/// a vector with every component `k` times as large, for a `k` above zero,
/// is graded as the vector itself.
pub proof fn lemma_similarity_ignores_scale(a: Seq<int>, b: Seq<int>, k: int)
    requires
        k > 0,
    ensures
        similarity(scaled(a, k), b) == similarity(a, b),
        similarity(b, scaled(a, k)) == similarity(b, a),
{
    let ka = scaled(a, k);
    lemma_dot_scales(a, b, k, shared_len(a, b));
    lemma_dot_scales(a, b, k, a.len());
    lemma_norm_is_not_negative(a, a.len());
    let d = dot(a, b);
    let na = norm_sq(a);
    let nb = norm_sq(b);
    assert(norm_sq(ka) == k * k * na);
    assert((k * k * na == 0) == (na == 0)) by (nonlinear_arith)
        requires
            k > 0,
    ;
    assert((k * k * na) * nb == k * k * (na * nb)) by (nonlinear_arith);
    lemma_highest_ignores_scale(d, na * nb, k, FULL_SCORE as nat);
    lemma_similarity_is_symmetric(ka, b);
    lemma_similarity_is_symmetric(a, b);
}

} // verus!
