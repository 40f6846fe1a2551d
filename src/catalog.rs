use vstd::prelude::*;

verus! {

/// A numeric predicate that players may pick as a property of the hidden number.
#[derive(Clone, Copy, Debug, PartialEq, Eq, Structural, Hash, PartialOrd, Ord)]
pub enum GameAxiom {
    IsEven,
    IsOdd,
    IsPrime,
    IsDivis10,
    IsLessThan50,
    IsMoreThan50,
    IsSquare,
}

/// The wire code of a predicate, in declaration order.
pub open spec fn axiom_code(a: GameAxiom) -> u8 {
    match a {
        GameAxiom::IsEven => 0,
        GameAxiom::IsOdd => 1,
        GameAxiom::IsPrime => 2,
        GameAxiom::IsDivis10 => 3,
        GameAxiom::IsLessThan50 => 4,
        GameAxiom::IsMoreThan50 => 5,
        GameAxiom::IsSquare => 6,
    }
}

/// The predicate carried by a wire code, if the code is one of the seven.
pub open spec fn axiom_of_code(c: u8) -> Option<GameAxiom> {
    if c == 0 {
        Some(GameAxiom::IsEven)
    } else if c == 1 {
        Some(GameAxiom::IsOdd)
    } else if c == 2 {
        Some(GameAxiom::IsPrime)
    } else if c == 3 {
        Some(GameAxiom::IsDivis10)
    } else if c == 4 {
        Some(GameAxiom::IsLessThan50)
    } else if c == 5 {
        Some(GameAxiom::IsMoreThan50)
    } else if c == 6 {
        Some(GameAxiom::IsSquare)
    } else {
        None
    }
}

/// Primality by trial division with every `d` in `2..=floor(sqrt(n))`.
pub open spec fn is_prime(n: int) -> bool {
    n >= 2 && forall|d: int| #![trigger n % d] 2 <= d && d * d <= n ==> n % d != 0
}

/// `n` is the square of a natural number.
pub open spec fn is_square(n: int) -> bool {
    exists|r: int| 0 <= r <= n && #[trigger] (r * r) == n
}

/// Whether the predicate holds for `n`.
pub open spec fn axiom_holds(a: GameAxiom, n: int) -> bool {
    match a {
        GameAxiom::IsEven => n % 2 == 0,
        GameAxiom::IsOdd => n % 2 == 1,
        GameAxiom::IsPrime => is_prime(n),
        GameAxiom::IsDivis10 => n % 10 == 0,
        GameAxiom::IsLessThan50 => n < 50,
        GameAxiom::IsMoreThan50 => n > 50,
        GameAxiom::IsSquare => is_square(n),
    }
}

/// The number of integers in `[lo, hi)` for which the predicate holds.
pub open spec fn hit_count(a: GameAxiom, lo: int, hi: int) -> nat
    decreases hi - lo,
{
    if hi <= lo {
        0
    } else {
        hit_count(a, lo, hi - 1) + if axiom_holds(a, hi - 1) { 1nat } else { 0nat }
    }
}

/// The code and the predicate determine each other.
pub proof fn lemma_code_bijection(a: GameAxiom, c: u8)
    ensures
        axiom_of_code(axiom_code(a)) == Some(a),
        axiom_of_code(c) == Some(a) <==> c == axiom_code(a),
        axiom_of_code(c) is Some <==> c <= 6,
{
}

impl GameAxiom {
    /// The wire code of this predicate.
    pub fn code(self) -> (r: u8)
        ensures
            r == axiom_code(self),
    {
        match self {
            GameAxiom::IsEven => 0x00,
            GameAxiom::IsOdd => 0x01,
            GameAxiom::IsPrime => 0x02,
            GameAxiom::IsDivis10 => 0x03,
            GameAxiom::IsLessThan50 => 0x04,
            GameAxiom::IsMoreThan50 => 0x05,
            GameAxiom::IsSquare => 0x06,
        }
    }

    /// The predicate with the given wire code; `None` for a code above 6.
    pub fn from_code(value: u8) -> (r: Option<GameAxiom>)
        ensures
            r == axiom_of_code(value),
    {
        match value {
            0x00 => Some(GameAxiom::IsEven),
            0x01 => Some(GameAxiom::IsOdd),
            0x02 => Some(GameAxiom::IsPrime),
            0x03 => Some(GameAxiom::IsDivis10),
            0x04 => Some(GameAxiom::IsLessThan50),
            0x05 => Some(GameAxiom::IsMoreThan50),
            0x06 => Some(GameAxiom::IsSquare),
            _ => None,
        }
    }

    /// Tests the predicate on `n`.
    pub fn holds(self, n: u8) -> (r: bool)
        ensures
            r == axiom_holds(self, n as int),
    {
        match self {
            GameAxiom::IsEven => n % 2 == 0,
            GameAxiom::IsOdd => n % 2 == 1,
            GameAxiom::IsPrime => check_prime(n),
            GameAxiom::IsDivis10 => n % 10 == 0,
            GameAxiom::IsLessThan50 => n < 50,
            GameAxiom::IsMoreThan50 => n > 50,
            GameAxiom::IsSquare => check_square(n),
        }
    }
}

impl TryFrom<u8> for GameAxiom {
    type Error = ();

    fn try_from(value: u8) -> (r: Result<GameAxiom, ()>)
        ensures
            r == (match axiom_of_code(value) {
                Some(a) => Ok::<GameAxiom, ()>(a),
                None => Err(()),
            }),
    {
        match GameAxiom::from_code(value) {
            Some(a) => Ok(a),
            None => Err(()),
        }
    }
}

impl vstd::std_specs::convert::TryFromSpecImpl<u8> for GameAxiom {
    open spec fn obeys_try_from_spec() -> bool {
        true
    }

    open spec fn try_from_spec(v: u8) -> Result<GameAxiom, ()> {
        match axiom_of_code(v) {
            Some(a) => Ok(a),
            None => Err(()),
        }
    }
}

impl From<GameAxiom> for u8 {
    fn from(value: GameAxiom) -> (r: u8)
        ensures
            r == axiom_code(value),
    {
        value.code()
    }
}

impl vstd::std_specs::convert::FromSpecImpl<GameAxiom> for u8 {
    open spec fn obeys_from_spec() -> bool {
        true
    }

    open spec fn from_spec(v: GameAxiom) -> u8 {
        axiom_code(v)
    }
}

fn check_prime(n: u8) -> (r: bool)
    ensures
        r == is_prime(n as int),
{
    if n < 2 {
        return false;
    }
    let mut d: u16 = 2;
    while d * d <= n as u16
        invariant
            2 <= d <= 16,
            d * d <= 256,
            n >= 2,
            forall|k: int| #![trigger (n as int) % k] 2 <= k < d ==> (n as int) % k != 0,
        decreases 16 - d,
    {
        if n as u16 % d == 0 {
            assert((d as int) * (d as int) <= n as int);
            return false;
        }
        d = d + 1;
        assert(d <= 16 && d * d <= 256) by (nonlinear_arith)
            requires
                (d - 1) * (d - 1) <= n as int,
                n <= 255,
        ;
    }
    assert forall|k: int| 2 <= k && k * k <= n as int implies #[trigger] ((n as int) % k) != 0 by {
        if k >= d {
            assert(k * k >= (d as int) * (d as int)) by (nonlinear_arith)
                requires
                    k >= d,
                    d >= 0,
            ;
        }
    }
    true
}

fn check_square(n: u8) -> (r: bool)
    ensures
        r == is_square(n as int),
{
    let mut r: u16 = 0;
    while r * r < n as u16
        invariant
            r <= 16,
            r * r <= 256,
            forall|k: int| 0 <= k < r ==> #[trigger] (k * k) < n as int,
        decreases 16 - r,
    {
        assert((r as int) * (r as int) < n as int);
        r = r + 1;
        assert(r <= 16 && r * r <= 256) by (nonlinear_arith)
            requires
                (r - 1) * (r - 1) < n as int,
                n <= 255,
        ;
    }
    if r * r == n as u16 {
        assert(0 <= r <= n) by (nonlinear_arith)
            requires
                (r as int) * (r as int) == n as int,
        ;
        assert((r as int) * (r as int) == n as int);
        true
    } else {
        assert forall|k: int| 0 <= k <= n as int implies #[trigger] (k * k) != n as int by {
            if k >= r {
                assert(k * k >= (r as int) * (r as int)) by (nonlinear_arith)
                    requires
                        k >= r,
                        r >= 0,
                ;
            }
        }
        false
    }
}

/// Counts for the hit probability of a predicate over the inclusive range
/// `lower..=upper`: the number of `n` with `lower <= n < upper` for which the
/// predicate holds, and the number of integers in `lower..=upper`. The upper bound
/// takes part in the second count and not in the first.
pub fn probability_counts(lower: u8, upper: u8, ax: GameAxiom) -> (r: (u16, u16))
    requires
        lower <= upper,
    ensures
        r.0 == hit_count(ax, lower as int, upper as int),
        r.1 == upper - lower + 1,
        r.0 < r.1,
{
    let mut hits: u16 = 0;
    let mut i: u8 = lower;
    while i < upper
        invariant
            lower <= i <= upper,
            hits == hit_count(ax, lower as int, i as int),
            hits <= i - lower,
        decreases upper - i,
    {
        if ax.holds(i) {
            hits = hits + 1;
        }
        i = i + 1;
    }
    let total: u16 = upper as u16 - lower as u16 + 1;
    (hits, total)
}

} // verus!
