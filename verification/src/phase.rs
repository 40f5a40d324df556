//! The hackathon's phase state machine.
//!
//! The phases form a total order. The administrator advances or retreats
//! one step at a time; stepping past either end is a no-op.
use vstd::prelude::*;

verus! {

#[derive(Clone, Copy, PartialEq, Eq, Structural, Debug)]
pub enum Phase {
    Registration,
    Presentation,
    Evaluation,
    Revelation,
    Celebration,
}

/// Position of a phase in the total order, counting from zero.
pub open spec fn phase_index(p: Phase) -> int {
    match p {
        Phase::Registration => 0,
        Phase::Presentation => 1,
        Phase::Evaluation => 2,
        Phase::Revelation => 3,
        Phase::Celebration => 4,
    }
}

/// The persisted name of each phase.
pub open spec fn spec_phase_str(p: Phase) -> Seq<char> {
    match p {
        Phase::Registration => "registration"@,
        Phase::Presentation => "presentation"@,
        Phase::Evaluation => "evaluation"@,
        Phase::Revelation => "revelation"@,
        Phase::Celebration => "celebration"@,
    }
}

/// Which phase a persisted name denotes, if any.
pub open spec fn spec_phase_from_str(s: Seq<char>) -> Option<Phase> {
    if s == "registration"@ {
        Some(Phase::Registration)
    } else if s == "presentation"@ {
        Some(Phase::Presentation)
    } else if s == "evaluation"@ {
        Some(Phase::Evaluation)
    } else if s == "revelation"@ {
        Some(Phase::Revelation)
    } else if s == "celebration"@ {
        Some(Phase::Celebration)
    } else {
        None
    }
}

/// One step back in the phase order, saturating at the initial phase.
pub open spec fn spec_prev(p: Phase) -> Phase {
    match p {
        Phase::Registration => Phase::Registration,
        Phase::Presentation => Phase::Registration,
        Phase::Evaluation => Phase::Presentation,
        Phase::Revelation => Phase::Evaluation,
        Phase::Celebration => Phase::Revelation,
    }
}

/// One step forward in the phase order, saturating at the terminal phase.
pub open spec fn spec_next(p: Phase) -> Phase {
    match p {
        Phase::Registration => Phase::Presentation,
        Phase::Presentation => Phase::Evaluation,
        Phase::Evaluation => Phase::Revelation,
        Phase::Revelation => Phase::Celebration,
        Phase::Celebration => Phase::Celebration,
    }
}

impl Phase {
    /// Parse a persisted phase name; unknown names are rejected.
    pub fn from_str(name: &str) -> (r: Option<Phase>)
        ensures
            r == spec_phase_from_str(name@),
    {
        if crate::validate::str_eq(name, "registration") {
            Some(Phase::Registration)
        } else if crate::validate::str_eq(name, "presentation") {
            Some(Phase::Presentation)
        } else if crate::validate::str_eq(name, "evaluation") {
            Some(Phase::Evaluation)
        } else if crate::validate::str_eq(name, "revelation") {
            Some(Phase::Revelation)
        } else if crate::validate::str_eq(name, "celebration") {
            Some(Phase::Celebration)
        } else {
            None
        }
    }

    /// The name under which this phase is persisted.
    pub fn to_str(&self) -> (r: &'static str)
        ensures
            r@ == spec_phase_str(*self),
    {
        match self {
            Phase::Registration => "registration",
            Phase::Presentation => "presentation",
            Phase::Evaluation => "evaluation",
            Phase::Revelation => "revelation",
            Phase::Celebration => "celebration",
        }
    }

    /// One step back; from the initial phase this is a no-op.
    pub fn prev(&self) -> (r: Phase)
        ensures
            r == spec_prev(*self),
            *self == Phase::Registration ==> r == Phase::Registration,
            *self != Phase::Registration ==> phase_index(r) == phase_index(*self) - 1,
    {
        match self {
            Phase::Registration => Phase::Registration,
            Phase::Presentation => Phase::Registration,
            Phase::Evaluation => Phase::Presentation,
            Phase::Revelation => Phase::Evaluation,
            Phase::Celebration => Phase::Revelation,
        }
    }

    /// One step forward; from the terminal phase this is a no-op.
    pub fn next(&self) -> (r: Phase)
        ensures
            r == spec_next(*self),
            *self == Phase::Celebration ==> r == Phase::Celebration,
            *self != Phase::Celebration ==> phase_index(r) == phase_index(*self) + 1,
    {
        match self {
            Phase::Registration => Phase::Presentation,
            Phase::Presentation => Phase::Evaluation,
            Phase::Evaluation => Phase::Revelation,
            Phase::Revelation => Phase::Celebration,
            Phase::Celebration => Phase::Celebration,
        }
    }
}

/// The phase a stored value denotes: the parsed name where one was
/// stored and recognized, and the initial phase otherwise.
pub open spec fn spec_phase_or_default(stored: Option<Seq<char>>) -> Phase {
    match stored {
        Some(s) => match spec_phase_from_str(s) {
            Some(p) => p,
            None => Phase::Registration,
        },
        None => Phase::Registration,
    }
}

/// Fold a stored phase value into a phase; an absent or unrecognized
/// value is never an error, it falls back to the initial phase.
pub fn phase_from_stored(stored: &Option<String>) -> (r: Phase)
    ensures
        r == spec_phase_or_default(match *stored {
            Some(s) => Some(s@),
            None => None,
        }),
{
    match stored {
        Some(name) => match Phase::from_str(name.as_str()) {
            Some(p) => p,
            None => Phase::Registration,
        },
        None => Phase::Registration,
    }
}

/// Read the persisted phase. The returned phase is always the
/// `phase_from_stored` fold of what the store held, so an absent or
/// unrecognized value falls back to the initial phase and a fresh
/// store starts at registration.
pub fn load_phase(tx: &mut crate::database::Transaction<'_>) -> (r: Result<
    Phase,
    crate::database::StoreError,
>)
    ensures
        r matches Ok(p) ==> exists|stored: Option<Seq<char>>|
            p == spec_phase_or_default(stored),
{
    let stored = crate::database::get_current_phase(tx)?;
    Ok(phase_from_stored(&stored))
}

/// Stepping back from the initial phase and stepping forward from the
/// terminal phase change nothing; every other step moves exactly one
/// position in the phase order.
pub proof fn lemma_phase_steps(p: Phase)
    ensures
        p == Phase::Registration ==> spec_prev(p) == p,
        p == Phase::Celebration ==> spec_next(p) == p,
        p != Phase::Registration ==> phase_index(spec_prev(p)) == phase_index(p) - 1,
        p != Phase::Celebration ==> phase_index(spec_next(p)) == phase_index(p) + 1,
{
}

/// A phase written with `to_str` is read back as the same phase:
/// persisting the state machine's position is lossless.
pub proof fn lemma_phase_str_roundtrip(p: Phase)
    ensures
        spec_phase_from_str(spec_phase_str(p)) == Some(p),
{
    reveal_strlit("registration");
    reveal_strlit("presentation");
    reveal_strlit("evaluation");
    reveal_strlit("revelation");
    reveal_strlit("celebration");
    // The names differ in length or, where lengths agree, in their first
    // character; either fact separates the parser's branches.
    assert("registration"@.len() == 12);
    assert("presentation"@.len() == 12);
    assert("evaluation"@.len() == 10);
    assert("revelation"@.len() == 10);
    assert("celebration"@.len() == 11);
    assert("registration"@[0] == 'r');
    assert("presentation"@[0] == 'p');
    assert("evaluation"@[0] == 'e');
    assert("revelation"@[0] == 'r');
}

} // verus!
