//! The flag record and its lifecycle status.
use vstd::prelude::*;

verus! {

/// Lifecycle status of a flag. `Unsent` is the only non-terminal status.
#[derive(Debug, Clone, Copy, PartialEq, Eq, Structural)]
pub enum FlagStatus {
    Unsent,
    Sent,
    Invalid,
}

/// The integer code under which a status is stored.
pub open spec fn status_code(s: FlagStatus) -> int {
    match s {
        FlagStatus::Unsent => 0,
        FlagStatus::Sent => 1,
        FlagStatus::Invalid => 2,
    }
}

impl FlagStatus {
    /// Status stored under `code`, if `code` names one.
    pub fn from_code(code: i32) -> (r: Option<FlagStatus>)
        ensures
            r matches Some(s) ==> status_code(s) == code,
            r is None <==> !(0 <= code <= 2),
    {
        match code {
            0 => Some(FlagStatus::Unsent),
            1 => Some(FlagStatus::Sent),
            2 => Some(FlagStatus::Invalid),
            _ => None,
        }
    }

    /// Integer code under which this status is stored.
    pub fn code(&self) -> (r: i32)
        ensures
            r == status_code(*self),
    {
        match self {
            FlagStatus::Unsent => 0,
            FlagStatus::Sent => 1,
            FlagStatus::Invalid => 2,
        }
    }

    /// Whether the status is final: `Sent` and `Invalid` are never left.
    pub fn is_terminal(&self) -> (r: bool)
        ensures
            r <==> *self != FlagStatus::Unsent,
    {
        !matches!(self, FlagStatus::Unsent)
    }

    /// Lower-case name of the status, as shown in diagnostics.
    pub fn as_str(&self) -> (r: &'static str)
        ensures
            r@ == status_name(*self),
    {
        match self {
            FlagStatus::Unsent => "unsent",
            FlagStatus::Sent => "sent",
            FlagStatus::Invalid => "invalid",
        }
    }
}

/// Lower-case name of a status.
pub open spec fn status_name(s: FlagStatus) -> Seq<char> {
    match s {
        FlagStatus::Unsent => "unsent"@,
        FlagStatus::Sent => "sent"@,
        FlagStatus::Invalid => "invalid"@,
    }
}

/// A harvested flag as recorded in the store.
#[derive(Debug, Clone)]
pub struct Flag {
    /// Identifier assigned by the store; never reused.
    pub id: i64,
    /// The secret token, submitted verbatim.
    pub flag: String,
    /// Classification tag, carried for diagnostics only.
    pub group: i32,
    /// Lifecycle status.
    pub status: FlagStatus,
}

/// Mathematical value of a flag.
pub struct FlagView {
    pub id: i64,
    pub value: Seq<char>,
    pub group: i32,
    pub status: FlagStatus,
}

impl View for Flag {
    type V = FlagView;

    open spec fn view(&self) -> FlagView {
        FlagView { id: self.id, value: self.flag@, group: self.group, status: self.status }
    }
}

} // verus!
