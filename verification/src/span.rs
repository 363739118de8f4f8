//! Source spans and their prime identifiers.
//!
//! A span is a half-open range `[lo, hi)` of the source text together with a
//! 64-bit identifier. Atomic spans receive identifiers that are primes drawn
//! in increasing order; joining two spans multiplies their identifiers, so the
//! prime factors of a compound span's identifier recover the atomic spans it
//! was built from.

use vstd::prelude::*;
use primes::Sieve;
use primes::PrimeSet;

verus! {

/// `d` divides `n`.
pub open spec fn divides(d: nat, n: nat) -> bool {
    exists|k: nat| n == #[trigger] (d * k)
}

/// `p` is a prime number.
pub open spec fn spec_is_prime(p: nat) -> bool {
    2 <= p && forall|d: nat| 2 <= d < p ==> !divides(d, p)
}

/// The set of primes dividing `n`.
pub open spec fn prime_factors(n: nat) -> Set<nat> {
    Set::new(|p: nat| spec_is_prime(p) && divides(p, n))
}

/// The prime at position `n` when the primes are listed in increasing order,
/// starting with 2 at position 0.
pub uninterp spec fn nth_prime_of(n: nat) -> u64;

/// How many fresh identifiers a span factory can hand out. Every prime the
/// sieve has to find for these stays far below 2^32, so the sieve's internal
/// squaring cannot overflow.
pub const PRIME_CAPACITY: usize = 1000000;

#[verifier::external_type_specification]
#[verifier::external_body]
pub struct ExSieve(Sieve);

/// Relies on primes::Sieve::new, which builds a fresh incremental sieve of
/// Eratosthenes, primed with its first few primes.
#[verifier::external_body]
fn new_sieve() -> Sieve {
    Sieve::new()
}

/// Relies on primes::PrimeSet::get: expands the sieve as needed and returns
/// the prime at position `n` of the increasing list of all primes, so the
/// result depends on `n` alone; the primes at earlier positions are smaller,
/// and every prime is at least 2.
#[verifier::external_body]
fn nth_prime(sieve: &mut Sieve, n: usize) -> (r: u64)
    requires
        n < PRIME_CAPACITY,
    ensures
        r == nth_prime_of(n as nat),
        2 <= r,
        spec_is_prime(r as nat),
        forall|m: nat| m < n as nat ==> #[trigger] nth_prime_of(m) < r,
{
    sieve.get(n)
}

/// The largest argument the factorisation below accepts: the square of the
/// largest 32-bit trial divisor. For a prime argument at or past this bound
/// the trial division inside primes::factors_uniq squares a divisor past
/// 64 bits, which overflows.
pub const FACTOR_BOUND: u64 = 0xFFFFFFFE00000001;

/// Relies on primes::factors_uniq: for an argument of at least 2 it returns
/// the distinct prime factors in increasing order, and for 0 and 1 it returns
/// nothing. Its trial division tests odd divisors up to the square root, and
/// squares each candidate first, so arguments whose smallest odd factor
/// search would pass the largest 32-bit candidate are kept out.
#[verifier::external_body]
fn unique_prime_factors(x: u64) -> (r: Vec<u64>)
    requires
        x < FACTOR_BOUND,
    ensures
        x <= 1 ==> r@ == Seq::<u64>::empty(),
        forall|i: int|
            0 <= i < r@.len() ==> spec_is_prime(#[trigger] r@[i] as nat) && divides(
                r@[i] as nat,
                x as nat,
            ),
        x >= 2 ==> forall|p: u64|
            spec_is_prime(p as nat) && divides(p as nat, x as nat) ==> r@.contains(p),
        forall|i: int, j: int| 0 <= i < j < r@.len() ==> r@[i] < r@[j],
{
    primes::factors_uniq(x)
}

/// A span of text in the source code of the program. Spans run from left to
/// right: `lo <= hi` for every span the library builds.
#[derive(Debug, Clone, Copy, PartialEq, Eq)]
pub struct Span {
    pub id: u64,
    pub span: (usize, usize),
}

/// Hands out spans with fresh prime identifiers, in increasing order starting
/// from 2. The pipeline threads one factory through all of its stages.
pub struct SpanFactory {
    sieve: Sieve,
    next_index: usize,
}

/// The identifier a factory hands out after `spent` earlier ones: the next
/// unused prime while its capacity lasts, and 1 after that.
pub open spec fn span_id_at(spent: nat) -> u64 {
    if spent < PRIME_CAPACITY {
        nth_prime_of(spent)
    } else {
        1
    }
}

/// How many identifiers a factory has handed out after one more request.
pub open spec fn spent_after(spent: nat) -> nat {
    if spent < PRIME_CAPACITY {
        spent + 1
    } else {
        spent
    }
}

impl SpanFactory {
    /// How many identifiers this factory has handed out so far.
    pub closed spec fn spent(&self) -> nat {
        self.next_index as nat
    }

    pub fn new() -> (r: SpanFactory)
        ensures
            r.spent() == 0,
    {
        SpanFactory { sieve: new_sieve(), next_index: 0 }
    }

    /// A fresh span over `[lo, hi)`. While the factory's capacity lasts, the
    /// identifier is the next unused prime, strictly above every identifier
    /// this factory handed out earlier, so fresh identifiers are unique.
    /// Past the capacity the identifier degrades, by deliberate decision, to
    /// 1: it no longer carries provenance, but every span operation stays
    /// total.
    pub fn fresh(&mut self, lo: usize, hi: usize) -> (r: Span)
        requires
            lo <= hi,
        ensures
            r.span == (lo, hi),
            r.wf(),
            r.id == span_id_at(old(self).spent()),
            final(self).spent() == spent_after(old(self).spent()),
            old(self).spent() < PRIME_CAPACITY ==> r.id >= 2 && spec_is_prime(r.id as nat)
                && (forall|m: nat| m < old(self).spent() ==> #[trigger] nth_prime_of(m) < r.id),
    {
        if self.next_index < PRIME_CAPACITY {
            let id = nth_prime(&mut self.sieve, self.next_index);
            self.next_index = self.next_index + 1;
            Span { id, span: (lo, hi) }
        } else {
            Span { id: 1, span: (lo, hi) }
        }
    }
}

impl Span {
    /// Every span the library builds runs from left to right.
    pub open spec fn wf(self) -> bool {
        self.span.0 <= self.span.1
    }

    /// Build a span with a caller-chosen identifier.
    pub fn with_id(span: (usize, usize), id: u64) -> (r: Span)
        requires
            span.0 <= span.1,
        ensures
            r.id == id,
            r.span == span,
            r.wf(),
    {
        Span { id, span }
    }

    /// The result of joining two spans: the union of their ranges, under the
    /// product of their identifiers (wrapping past 64 bits).
    pub open spec fn spec_superspan(a: Span, b: Span) -> Span {
        Span {
            id: vstd::wrapping::u64_specs::wrapping_mul(a.id, b.id),
            span: (min_usize(a.span.0, b.span.0), max_usize(a.span.1, b.span.1)),
        }
    }

    /// Join two spans, leaving the arguments unchanged, and return a new span
    /// containing them whose identifier is the product of theirs.
    pub fn superspan(a: Span, b: Span) -> (r: Span)
        ensures
            r == Span::spec_superspan(a, b),
            a.wf() && b.wf() ==> r.wf(),
    {
        let lo = if a.span.0 <= b.span.0 {
            a.span.0
        } else {
            b.span.0
        };
        let hi = if a.span.1 >= b.span.1 {
            a.span.1
        } else {
            b.span.1
        };
        Span { id: a.id.wrapping_mul(b.id), span: (lo, hi) }
    }

    /// Mutably extend the bounds of this span to contain `other`, leaving the
    /// identifier unchanged.
    pub fn join(&mut self, other: Span)
        ensures
            final(self).id == old(self).id,
            final(self).span.0 == min_usize(old(self).span.0, other.span.0),
            final(self).span.1 == max_usize(old(self).span.1, other.span.1),
            old(self).wf() && other.wf() ==> final(self).wf(),
    {
        let lo = if self.span.0 <= other.span.0 {
            self.span.0
        } else {
            other.span.0
        };
        let hi = if self.span.1 >= other.span.1 {
            self.span.1
        } else {
            other.span.1
        };
        self.span = (lo, hi);
    }

    /// The smallest span containing all the given spans, under the product of
    /// their identifiers (wrapping past 64 bits).
    pub open spec fn spec_together(s: Seq<Span>) -> Span
        decreases s.len(),
    {
        if s.len() <= 1 {
            s[0]
        } else {
            Span::spec_superspan(Span::spec_together(s.drop_last()), s.last())
        }
    }

    /// The smallest span containing all the given spans; its identifier is
    /// the product of all of theirs.
    pub fn together(spans: &[Span]) -> (r: Span)
        requires
            spans@.len() > 0,
        ensures
            r == Span::spec_together(spans@),
    {
        let mut acc = spans[0];
        let mut i: usize = 1;
        while i < spans.len()
            invariant
                1 <= i <= spans@.len(),
                acc == Span::spec_together(spans@.subrange(0, i as int)),
            decreases spans@.len() - i,
        {
            proof {
                assert(spans@.subrange(0, i + 1).drop_last() =~= spans@.subrange(0, i as int));
                assert(spans@.subrange(0, i + 1).last() == spans@[i as int]);
            }
            acc = Span::superspan(acc, spans[i]);
            i = i + 1;
        }
        proof {
            assert(spans@.subrange(0, spans@.len() as int) =~= spans@);
        }
        acc
    }

    /// Whether `other` is disjoint from `self`: their ranges have no overlap.
    pub fn is_disjoint(&self, other: &Span) -> (r: bool)
        ensures
            r == (self.span.1 <= other.span.0 || other.span.1 <= self.span.0),
    {
        self.span.1 <= other.span.0 || other.span.1 <= self.span.0
    }

    /// Whether `other` overlaps with `self`.
    pub fn overlaps(&self, other: &Span) -> (r: bool)
        ensures
            r == !(self.span.1 <= other.span.0 || other.span.1 <= self.span.0),
    {
        !self.is_disjoint(other)
    }

    /// Whether `self` is a superset of `other`: `other` is fully contained
    /// within `self`.
    pub fn is_superset(&self, other: &Span) -> (r: bool)
        ensures
            r == (self.span.0 <= other.span.0 && other.span.1 <= self.span.1),
    {
        self.span.0 <= other.span.0 && other.span.1 <= self.span.1
    }

    pub fn span(&self) -> (r: (usize, usize))
        ensures
            r == self.span,
    {
        self.span
    }

    pub fn id(&self) -> (r: u64)
        ensures
            r == self.id,
    {
        self.id
    }

    /// The identifiers of the atomic spans this span was generated from,
    /// read off the prime factors of its identifier. An identifier at or
    /// past [`FACTOR_BOUND`] — reachable only through a caller-chosen
    /// identifier or a join wrapped just short of 64 bits — yields nothing,
    /// since the factorisation behind this cannot take it.
    pub fn composing_ids(&self) -> (r: Vec<u64>)
        ensures
            self.id <= 1 || self.id >= FACTOR_BOUND ==> r@ == Seq::<u64>::empty(),
            forall|i: int|
                0 <= i < r@.len() ==> spec_is_prime(#[trigger] r@[i] as nat) && divides(
                    r@[i] as nat,
                    self.id as nat,
                ),
            2 <= self.id < FACTOR_BOUND ==> forall|p: u64|
                spec_is_prime(p as nat) && divides(p as nat, self.id as nat) ==> r@.contains(p),
            forall|i: int, j: int| 0 <= i < j < r@.len() ==> r@[i] < r@[j],
    {
        if self.id >= FACTOR_BOUND {
            Vec::new()
        } else {
            unique_prime_factors(self.id)
        }
    }
}

pub open spec fn min_usize(a: usize, b: usize) -> usize {
    if a <= b {
        a
    } else {
        b
    }
}

pub open spec fn max_usize(a: usize, b: usize) -> usize {
    if a >= b {
        a
    } else {
        b
    }
}

/// Law: joining spans multiplies identifiers, and the prime factors of the
/// joined identifier are exactly the prime factors of the two arguments
/// together, so a compound span's identifier carries the provenance of both
/// its parts and nothing else.
pub proof fn lemma_join_id_factors(a: Span, b: Span)
    requires
        1 <= a.id,
        1 <= b.id,
        a.id * b.id <= u64::MAX,
    ensures
        Span::spec_superspan(a, b).id == a.id * b.id,
        prime_factors(Span::spec_superspan(a, b).id as nat) =~= prime_factors(
            a.id as nat,
        ).union(prime_factors(b.id as nat)),
{
    assert(Span::spec_superspan(a, b).id == a.id * b.id) by {
        assert(a.id * b.id < 0x1_0000_0000_0000_0000nat) by (nonlinear_arith)
            requires
                a.id * b.id <= u64::MAX,
        ;
        assert((a.id as nat * b.id as nat) % 0x1_0000_0000_0000_0000nat == a.id as nat
            * b.id as nat);
    };
    lemma_product_factors_exact(a.id as nat, b.id as nat);
}

/// Law: every prime dividing one of two positive numbers divides their
/// product.
pub proof fn lemma_product_factors_superset(a: nat, b: nat)
    requires
        1 <= a,
        1 <= b,
    ensures
        prime_factors(a).union(prime_factors(b)) <= prime_factors(a * b),
{
    assert forall|p: nat|
        prime_factors(a).union(prime_factors(b)).contains(p) implies prime_factors(a * b).contains(
        p,
    ) by {
        if prime_factors(a).contains(p) {
            let k = choose|k: nat| a == #[trigger] (p * k);
            assert(a * b == p * (k * b)) by (nonlinear_arith)
                requires
                    a == p * k,
            ;
            assert(divides(p, a * b));
        } else {
            let k = choose|k: nat| b == #[trigger] (p * k);
            assert(a * b == p * (k * a)) by (nonlinear_arith)
                requires
                    b == p * k,
            ;
            assert(divides(p, a * b));
        }
    };
}


/// A divisor of `n` divides any multiple of `n`.
proof fn lemma_divides_mul(d: nat, n: nat, c: nat)
    requires
        divides(d, n),
    ensures
        divides(d, c * n),
{
    let k = choose|k: nat| n == #[trigger] (d * k);
    assert(c * n == d * (c * k)) by (nonlinear_arith)
        requires
            n == d * k,
    ;
    assert(divides(d, c * n));
}

/// A common divisor of two numbers divides their difference.
proof fn lemma_divides_sub(d: nat, x: nat, y: nat)
    requires
        divides(d, x),
        divides(d, y),
        y <= x,
    ensures
        divides(d, (x - y) as nat),
{
    let k1 = choose|k: nat| x == #[trigger] (d * k);
    let k2 = choose|k: nat| y == #[trigger] (d * k);
    if d == 0 {
        assert(x == 0 && y == 0);
        assert((x - y) as nat == d * 0);
        assert(divides(d, (x - y) as nat));
    } else {
        assert(k2 <= k1) by (nonlinear_arith)
            requires
                d >= 1,
                d * k2 <= d * k1,
        ;
        assert((x - y) as nat == d * ((k1 - k2) as nat)) by (nonlinear_arith)
            requires
                x == d * k1,
                y == d * k2,
                k2 <= k1,
        ;
        assert(divides(d, (x - y) as nat));
    }
}

/// The descent step behind the prime-divisor law: a prime dividing `m * b`
/// for some positive `m` below it divides `b`.
proof fn lemma_prime_divides_product_descent(p: nat, m: nat, b: nat)
    requires
        spec_is_prime(p),
        1 <= m < p,
        divides(p, m * b),
    ensures
        divides(p, b),
    decreases m,
{
    if m == 1 {
        assert(m * b == b) by (nonlinear_arith)
            requires
                m == 1,
        ;
    } else {
        let q = p / m;
        let r = p % m;
        vstd::arithmetic::div_mod::lemma_fundamental_div_mod(p as int, m as int);
        vstd::arithmetic::div_mod::lemma_mod_bound(p as int, m as int);
        assert(p == m * q + r);
        assert(r < m);
        if r == 0 {
            assert(p == m * q);
            assert(divides(m, p));
            assert(!divides(m, p));
        } else {
            assert(divides(p, q * (m * b))) by {
                lemma_divides_mul(p, m * b, q);
            };
            assert(divides(p, p * b)) by {
                assert(p * b == p * b);
            };
            assert(q * (m * b) <= p * b && r * b == (p * b - q * (m * b)) as nat)
                by (nonlinear_arith)
                requires
                    p == m * q + r,
                    r < m,
            ;
            lemma_divides_sub(p, p * b, q * (m * b));
            lemma_prime_divides_product_descent(p, r, b);
        }
    }
}

/// Law: a prime dividing a product divides one of its factors.
pub proof fn lemma_prime_divides_product(p: nat, a: nat, b: nat)
    requires
        spec_is_prime(p),
        divides(p, a * b),
    ensures
        divides(p, a) || divides(p, b),
{
    if !divides(p, a) {
        let q = a / p;
        let m = a % p;
        vstd::arithmetic::div_mod::lemma_fundamental_div_mod(a as int, p as int);
        vstd::arithmetic::div_mod::lemma_mod_bound(a as int, p as int);
        assert(a == p * q + m);
        assert(m < p);
        if m == 0 {
            assert(a == p * q);
            assert(divides(p, a));
        } else {
            assert(divides(p, q * (p * b))) by {
                assert(divides(p, p * b)) by {
                    assert(p * b == p * b);
                };
                lemma_divides_mul(p, p * b, q);
            };
            assert(q * (p * b) <= a * b && m * b == (a * b - q * (p * b)) as nat)
                by (nonlinear_arith)
                requires
                    a == p * q + m,
            ;
            lemma_divides_sub(p, a * b, q * (p * b));
            lemma_prime_divides_product_descent(p, m, b);
        }
    }
}

/// Law: the prime factors of a product are exactly the union of the factors
/// of its parts.
pub proof fn lemma_product_factors_exact(a: nat, b: nat)
    requires
        1 <= a,
        1 <= b,
    ensures
        prime_factors(a * b) =~= prime_factors(a).union(prime_factors(b)),
{
    lemma_product_factors_superset(a, b);
    assert forall|p: nat|
        prime_factors(a * b).contains(p) implies prime_factors(a).union(prime_factors(b)).contains(
        p,
    ) by {
        lemma_prime_divides_product(p, a, b);
    };
}

/// The prime factors of a prime are the prime itself.
pub proof fn lemma_prime_factors_of_prime(p: nat)
    requires
        spec_is_prime(p),
    ensures
        prime_factors(p) =~= Set::<nat>::empty().insert(p),
{
    assert(p == p * 1);
    assert(divides(p, p));
    assert forall|q: nat| prime_factors(p).contains(q) implies q == p by {
        let k = choose|k: nat| p == #[trigger] (q * k);
        assert(q <= p) by (nonlinear_arith)
            requires
                p == q * k,
                p >= 2,
                q >= 2,
        ;
        if q < p {
            assert(!divides(q, p));
        }
    };
}

/// Law: joining two atomic spans — spans whose identifiers are primes, as the
/// factory hands them out — gives a span whose provenance is exactly those
/// two identifiers.
pub proof fn lemma_join_recovers_atoms(a: Span, b: Span)
    requires
        spec_is_prime(a.id as nat),
        spec_is_prime(b.id as nat),
        a.id * b.id <= u64::MAX,
    ensures
        prime_factors(Span::spec_superspan(a, b).id as nat) =~= Set::<nat>::empty().insert(
            a.id as nat,
        ).insert(b.id as nat),
{
    lemma_join_id_factors(a, b);
    lemma_product_factors_exact(a.id as nat, b.id as nat);
    lemma_prime_factors_of_prime(a.id as nat);
    lemma_prime_factors_of_prime(b.id as nat);
    assert(prime_factors((a.id * b.id) as nat) =~= Set::<nat>::empty().insert(a.id as nat).insert(
        b.id as nat,
    ));
}

/// A span rendered for a host consumer: the raw range together with the
/// identifiers of the atomic spans that compose it.
#[derive(Debug, Clone)]
pub struct SourceSpan {
    pub start: usize,
    pub end: usize,
    pub ids: Vec<u64>,
}

impl SourceSpan {
    /// Resolve a span's provenance into its atomic identifiers.
    pub fn from_span(span: &Span) -> (r: SourceSpan)
        ensures
            r.start == span.span.0,
            r.end == span.span.1,
            span.id <= 1 || span.id >= FACTOR_BOUND ==> r.ids@ == Seq::<u64>::empty(),
            forall|i: int|
                0 <= i < r.ids@.len() ==> spec_is_prime(#[trigger] r.ids@[i] as nat) && divides(
                    r.ids@[i] as nat,
                    span.id as nat,
                ),
            2 <= span.id < FACTOR_BOUND ==> forall|p: u64|
                spec_is_prime(p as nat) && divides(p as nat, span.id as nat) ==> r.ids@.contains(p),
    {
        SourceSpan { start: span.span.0, end: span.span.1, ids: span.composing_ids() }
    }
}

} // verus!
