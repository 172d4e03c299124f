use vstd::prelude::*;

verus! {

/// The three-valued truth value of a filter expression.
///
/// `Unknown` stands for an expression that depends on a missing key or an
/// unset value; it stays unknown under negation and is a non-match at the
/// public boundary.
#[derive(Debug, Clone, Copy, PartialEq, Eq, Structural)]
pub enum MatchOutcome {
    /// The expression is true.
    True,
    /// The expression is false.
    False,
    /// The expression cannot be decided.
    Unknown,
}

/// Three-valued conjunction of two outcomes.
pub open spec fn and2(a: MatchOutcome, b: MatchOutcome) -> MatchOutcome {
    if a == MatchOutcome::False || b == MatchOutcome::False {
        MatchOutcome::False
    } else if a == MatchOutcome::Unknown || b == MatchOutcome::Unknown {
        MatchOutcome::Unknown
    } else {
        MatchOutcome::True
    }
}

/// Three-valued disjunction of two outcomes.
pub open spec fn or2(a: MatchOutcome, b: MatchOutcome) -> MatchOutcome {
    if a == MatchOutcome::True || b == MatchOutcome::True {
        MatchOutcome::True
    } else if a == MatchOutcome::Unknown || b == MatchOutcome::Unknown {
        MatchOutcome::Unknown
    } else {
        MatchOutcome::False
    }
}

/// Three-valued negation.
pub open spec fn not1(a: MatchOutcome) -> MatchOutcome {
    match a {
        MatchOutcome::True => MatchOutcome::False,
        MatchOutcome::False => MatchOutcome::True,
        MatchOutcome::Unknown => MatchOutcome::Unknown,
    }
}

/// The outcome for a Boolean.
pub open spec fn outcome_of(b: bool) -> MatchOutcome {
    if b {
        MatchOutcome::True
    } else {
        MatchOutcome::False
    }
}

/// Three-valued conjunction of a sequence: false when any is false, unknown
/// when none is false and one is unknown, true otherwise.
pub open spec fn and_all(s: Seq<MatchOutcome>) -> MatchOutcome {
    if exists|i: int| 0 <= i < s.len() && s[i] == MatchOutcome::False {
        MatchOutcome::False
    } else if exists|i: int| 0 <= i < s.len() && s[i] == MatchOutcome::Unknown {
        MatchOutcome::Unknown
    } else {
        MatchOutcome::True
    }
}

/// Three-valued disjunction of a sequence: true when any is true, unknown
/// when none is true and one is unknown, false otherwise.
pub open spec fn or_all(s: Seq<MatchOutcome>) -> MatchOutcome {
    if exists|i: int| 0 <= i < s.len() && s[i] == MatchOutcome::True {
        MatchOutcome::True
    } else if exists|i: int| 0 <= i < s.len() && s[i] == MatchOutcome::Unknown {
        MatchOutcome::Unknown
    } else {
        MatchOutcome::False
    }
}

impl MatchOutcome {
    /// Converts a Boolean into an outcome.
    pub fn from_bool(value: bool) -> (r: Self)
        ensures
            r == outcome_of(value),
    {
        if value {
            MatchOutcome::True
        } else {
            MatchOutcome::False
        }
    }

    /// Returns the three-valued negation; unknown stays unknown.
    pub fn not(self) -> (r: Self)
        ensures
            r == not1(self),
    {
        match self {
            MatchOutcome::True => MatchOutcome::False,
            MatchOutcome::False => MatchOutcome::True,
            MatchOutcome::Unknown => MatchOutcome::Unknown,
        }
    }

    /// Combines outcomes with three-valued AND.
    pub fn and(outcomes: &[MatchOutcome]) -> (r: Self)
        ensures
            r == and_all(outcomes@),
    {
        let mut result = MatchOutcome::True;
        let mut i: usize = 0;
        while i < outcomes.len()
            invariant
                i <= outcomes.len(),
                forall|j: int| 0 <= j < i ==> outcomes@[j] != MatchOutcome::False,
                result == MatchOutcome::Unknown <==> exists|j: int|
                    0 <= j < i && outcomes@[j] == MatchOutcome::Unknown,
                result != MatchOutcome::False,
            decreases outcomes.len() - i,
        {
            match outcomes[i] {
                MatchOutcome::False => return MatchOutcome::False,
                MatchOutcome::Unknown => result = MatchOutcome::Unknown,
                MatchOutcome::True => {},
            }
            i = i + 1;
        }
        result
    }

    /// Combines outcomes with three-valued OR.
    pub fn or(outcomes: &[MatchOutcome]) -> (r: Self)
        ensures
            r == or_all(outcomes@),
    {
        let mut result = MatchOutcome::False;
        let mut i: usize = 0;
        while i < outcomes.len()
            invariant
                i <= outcomes.len(),
                forall|j: int| 0 <= j < i ==> outcomes@[j] != MatchOutcome::True,
                result == MatchOutcome::Unknown <==> exists|j: int|
                    0 <= j < i && outcomes@[j] == MatchOutcome::Unknown,
                result != MatchOutcome::True,
            decreases outcomes.len() - i,
        {
            match outcomes[i] {
                MatchOutcome::True => return MatchOutcome::True,
                MatchOutcome::Unknown => result = MatchOutcome::Unknown,
                MatchOutcome::False => {},
            }
            i = i + 1;
        }
        result
    }

    /// Reports whether this outcome is a definite match.
    pub fn is_match(self) -> (r: bool)
        ensures
            r == (self == MatchOutcome::True),
    {
        matches!(self, MatchOutcome::True)
    }
}

} // verus!
