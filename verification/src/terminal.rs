use vstd::prelude::*;

verus! {

// ---------------------------------------------------------------------------
// Terminal mode manager.
//
// The terminal's raw input mode is a process-wide resource. This module
// models it as a scope object: entering captures the settings in force,
// and releasing the scope — which consumes it, so it can happen only once —
// hands back exactly what was captured. The code that actually toggles the
// terminal lives outside the library and brackets these calls.
// ---------------------------------------------------------------------------

/// The observable terminal input settings a raw-mode session changes.
#[derive(Clone, Copy, PartialEq, Eq, Structural, Debug)]
pub struct TermSettings {
    /// Whether the terminal delivers key events unbuffered and unechoed.
    pub raw: bool,
}

/// A fatal failure to change the terminal mode.
#[derive(Debug, Clone)]
pub struct TerminalError {
    pub message: String,
}

/// Exclusive holder of raw input mode for one search session.
pub struct ScopedRawMode {
    prior: TermSettings,
}

/// The scope that entering raw mode with `prior` settings produces.
pub closed spec fn enter_spec(prior: TermSettings) -> ScopedRawMode {
    ScopedRawMode { prior }
}

/// The settings that releasing the scope restores.
pub closed spec fn release_spec(scope: ScopedRawMode) -> TermSettings {
    scope.prior
}

impl ScopedRawMode {
    /// The settings captured when the scope was entered.
    pub closed spec fn captured(self) -> TermSettings {
        self.prior
    }

    /// Enters raw mode, capturing the settings previously in force.
    pub fn enter(prior: TermSettings) -> (scope: ScopedRawMode)
        ensures
            scope == enter_spec(prior),
            scope.captured() == prior,
    {
        ScopedRawMode { prior }
    }

    /// Gives raw mode up. Consuming the scope makes a second release
    /// impossible; the caller must put the returned settings back in force.
    pub fn release(self) -> (restored: TermSettings)
        ensures
            restored == release_spec(self),
            restored == self.captured(),
    {
        self.prior
    }
}

/// Entering raw mode and then releasing it restores exactly the settings
/// captured before entry, whatever they were.
pub proof fn lemma_raw_mode_round_trip(prior: TermSettings)
    ensures
        release_spec(enter_spec(prior)) == prior,
{
}

} // verus!
