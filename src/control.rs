//! Time-control parameters, checked once and resolved into a split policy.

use vstd::prelude::*;

verus! {

/// How the total time is split between the opening and the rest of the game.
#[derive(Clone, Copy, Debug, PartialEq, Eq, Structural)]
pub enum Policy {
    /// Every move gets the same share of the total time.
    Flat,
    /// The first `opening` moves are played twice as fast as the others.
    SpeedRatio { opening: u32 },
    /// The first `opening` moves share `percentage` percent of the total time.
    Percentage { opening: u32, percentage: u32 },
}

/// Why a set of parameters does not describe a usable time control.
#[derive(Clone, Copy, Debug, PartialEq, Eq, Structural)]
pub enum ConfigError {
    /// The game must last at least one move.
    ZeroMoves,
    /// The report interval must be at least one move.
    ZeroDisplayInterval,
    /// A percentage for the opening needs a number of opening moves.
    PercentageWithoutOpening,
    /// A percentage lies in `0..=100`.
    PercentageOutOfRange,
    /// The opening cannot be longer than the game; with a percentage it must
    /// also leave at least one move after it.
    OpeningTooLong,
    /// With a percentage the opening must hold at least one move.
    ZeroOpeningMoves,
}

/// A checked time control: starting minutes, increment in seconds, the number
/// of moves to pace, whether the first move earns no increment, the report
/// interval, and the split policy.
#[derive(Clone, Copy, Debug, PartialEq, Eq, Structural)]
pub struct TimeControl {
    pub minutes: u64,
    pub increment: u64,
    pub moves: u32,
    pub lichess: bool,
    pub display: u32,
    pub policy: Policy,
}

/// The first rule that the raw parameters break, if any.
pub open spec fn config_error(
    moves: u32,
    display: u32,
    percentage: Option<u32>,
    opening: Option<u32>,
) -> Option<ConfigError> {
    if moves == 0 {
        Some(ConfigError::ZeroMoves)
    } else if display == 0 {
        Some(ConfigError::ZeroDisplayInterval)
    } else {
        match (opening, percentage) {
            (None, Some(_)) => Some(ConfigError::PercentageWithoutOpening),
            (Some(o), Some(p)) => {
                if p > 100 {
                    Some(ConfigError::PercentageOutOfRange)
                } else if o >= moves {
                    Some(ConfigError::OpeningTooLong)
                } else if o == 0 {
                    Some(ConfigError::ZeroOpeningMoves)
                } else {
                    None
                }
            },
            (Some(o), None) => {
                if o > moves {
                    Some(ConfigError::OpeningTooLong)
                } else {
                    None
                }
            },
            (None, None) => None,
        }
    }
}

/// The policy that the optional opening parameters select.
pub open spec fn policy_of(percentage: Option<u32>, opening: Option<u32>) -> Policy {
    match (opening, percentage) {
        (Some(o), Some(p)) => Policy::Percentage { opening: o, percentage: p },
        (Some(o), None) => Policy::SpeedRatio { opening: o },
        _ => Policy::Flat,
    }
}

impl TimeControl {
    /// The control's invariant: at least one move, a positive report
    /// interval, and an opening that fits the game under its policy.
    pub open spec fn wf(&self) -> bool {
        &&& self.moves >= 1
        &&& self.display >= 1
        &&& match self.policy {
            Policy::Flat => true,
            Policy::SpeedRatio { opening } => opening <= self.moves,
            Policy::Percentage { opening, percentage } => {
                &&& 0 < opening < self.moves
                &&& percentage <= 100
            },
        }
    }

    /// Checks the raw parameters and resolves the split policy: both opening
    /// moves and a percentage give the percentage split, opening moves alone
    /// the twice-as-fast split, neither the flat split.
    pub fn new(
        minutes: u64,
        increment: u64,
        moves: u32,
        lichess: bool,
        display: u32,
        percentage: Option<u32>,
        opening: Option<u32>,
    ) -> (r: Result<TimeControl, ConfigError>)
        ensures
            match r {
                Ok(tc) => {
                    &&& config_error(moves, display, percentage, opening).is_none()
                    &&& tc.wf()
                    &&& tc == (TimeControl {
                        minutes,
                        increment,
                        moves,
                        lichess,
                        display,
                        policy: policy_of(percentage, opening),
                    })
                },
                Err(e) => config_error(moves, display, percentage, opening) == Some(e),
            },
    {
        if moves == 0 {
            return Err(ConfigError::ZeroMoves);
        }
        if display == 0 {
            return Err(ConfigError::ZeroDisplayInterval);
        }
        let policy = match (opening, percentage) {
            (None, Some(_)) => {
                return Err(ConfigError::PercentageWithoutOpening);
            },
            (Some(o), Some(p)) => {
                if p > 100 {
                    return Err(ConfigError::PercentageOutOfRange);
                }
                if o >= moves {
                    return Err(ConfigError::OpeningTooLong);
                }
                if o == 0 {
                    return Err(ConfigError::ZeroOpeningMoves);
                }
                Policy::Percentage { opening: o, percentage: p }
            },
            (Some(o), None) => {
                if o > moves {
                    return Err(ConfigError::OpeningTooLong);
                }
                Policy::SpeedRatio { opening: o }
            },
            (None, None) => Policy::Flat,
        };
        Ok(TimeControl { minutes, increment, moves, lichess, display, policy })
    }
}

} // verus!
