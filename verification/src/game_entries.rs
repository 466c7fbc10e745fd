use vstd::prelude::*;

use crate::text::str_eq;

verus! {

/// How a game reacts to a change of a settings entry.
#[derive(Debug, Clone, Copy, PartialEq, Eq, Hash, Structural)]
pub enum GameSettingsEntryReactivity {
    /// Do not refresh the game status after the change.
    NoRefresh,
    /// Refresh the game status after the settings window is closed.
    Relaxed,
    /// Reload the whole settings window at once, and refresh the game status
    /// after it is closed.
    Release,
}

/// Name of a reactivity.
pub open spec fn reactivity_name(r: GameSettingsEntryReactivity) -> Seq<char> {
    match r {
        GameSettingsEntryReactivity::NoRefresh => "none"@,
        GameSettingsEntryReactivity::Relaxed => "relaxed"@,
        GameSettingsEntryReactivity::Release => "release"@,
    }
}

/// Reactivity of a name.
pub open spec fn reactivity_of_name(s: Seq<char>) -> Option<GameSettingsEntryReactivity> {
    if s == "none"@ {
        Some(GameSettingsEntryReactivity::NoRefresh)
    } else if s == "relaxed"@ {
        Some(GameSettingsEntryReactivity::Relaxed)
    } else if s == "release"@ {
        Some(GameSettingsEntryReactivity::Release)
    } else {
        None
    }
}

impl Default for GameSettingsEntryReactivity {
    fn default() -> (r: GameSettingsEntryReactivity)
        ensures
            r == GameSettingsEntryReactivity::Relaxed,
    {
        GameSettingsEntryReactivity::Relaxed
    }
}

impl GameSettingsEntryReactivity {
    /// Name of the reactivity.
    pub fn to_string(&self) -> (r: String)
        ensures
            r@ == reactivity_name(*self),
    {
        match self {
            GameSettingsEntryReactivity::NoRefresh => "none".to_owned(),
            GameSettingsEntryReactivity::Relaxed => "relaxed".to_owned(),
            GameSettingsEntryReactivity::Release => "release".to_owned(),
        }
    }

    /// Reactivity of its name.
    pub fn from_str(s: &str) -> (r: Result<GameSettingsEntryReactivity, ()>)
        ensures
            reactivity_of_name(s@) matches Some(x) ==> r == Ok::<GameSettingsEntryReactivity, ()>(x),
            reactivity_of_name(s@) is None ==> r is Err,
    {
        if str_eq(s, "none") {
            Ok(GameSettingsEntryReactivity::NoRefresh)
        } else if str_eq(s, "relaxed") {
            Ok(GameSettingsEntryReactivity::Relaxed)
        } else if str_eq(s, "release") {
            Ok(GameSettingsEntryReactivity::Release)
        } else {
            Err(())
        }
    }
}

/// Reading the name of a reactivity gives it back.
pub proof fn lemma_reactivity_name_roundtrip(r: GameSettingsEntryReactivity)
    ensures
        reactivity_of_name(reactivity_name(r)) == Some(r),
{
    reveal_strlit("none");
    reveal_strlit("relaxed");
    reveal_strlit("release");
    assert("none"@ != "relaxed"@ && "none"@ != "release"@) by {
        assert("none"@.len() != "relaxed"@.len());
        assert("none"@.len() != "release"@.len());
    }
    assert("relaxed"@ != "release"@) by {
        assert("relaxed"@[3] != "release"@[3]);
    }
}

/// How a value of a game component is shown.
#[derive(Debug, Clone, Copy, PartialEq, Eq, Hash, Structural)]
pub enum GameComponentEntryValueStatus {
    Normal,
    Warning,
    Danger,
    Success,
}

/// Name of a status.
pub open spec fn status_name(s: GameComponentEntryValueStatus) -> Seq<char> {
    match s {
        GameComponentEntryValueStatus::Normal => "normal"@,
        GameComponentEntryValueStatus::Warning => "warning"@,
        GameComponentEntryValueStatus::Danger => "danger"@,
        GameComponentEntryValueStatus::Success => "success"@,
    }
}

/// Status of a name or of one of its aliases (`default`; `warn`;
/// `dangerous` and `error`).
pub open spec fn status_of_name(s: Seq<char>) -> Option<GameComponentEntryValueStatus> {
    if s == "normal"@ || s == "default"@ {
        Some(GameComponentEntryValueStatus::Normal)
    } else if s == "warning"@ || s == "warn"@ {
        Some(GameComponentEntryValueStatus::Warning)
    } else if s == "danger"@ || s == "dangerous"@ || s == "error"@ {
        Some(GameComponentEntryValueStatus::Danger)
    } else if s == "success"@ {
        Some(GameComponentEntryValueStatus::Success)
    } else {
        None
    }
}

impl Default for GameComponentEntryValueStatus {
    fn default() -> (r: GameComponentEntryValueStatus)
        ensures
            r == GameComponentEntryValueStatus::Normal,
    {
        GameComponentEntryValueStatus::Normal
    }
}

impl GameComponentEntryValueStatus {
    /// Name of the status.
    pub fn to_string(&self) -> (r: String)
        ensures
            r@ == status_name(*self),
    {
        match self {
            GameComponentEntryValueStatus::Normal => "normal".to_owned(),
            GameComponentEntryValueStatus::Warning => "warning".to_owned(),
            GameComponentEntryValueStatus::Danger => "danger".to_owned(),
            GameComponentEntryValueStatus::Success => "success".to_owned(),
        }
    }

    /// Status of its name or of an alias.
    pub fn from_str(s: &str) -> (r: Result<GameComponentEntryValueStatus, ()>)
        ensures
            status_of_name(s@) matches Some(x) ==> r == Ok::<GameComponentEntryValueStatus, ()>(x),
            status_of_name(s@) is None ==> r is Err,
    {
        if str_eq(s, "normal") || str_eq(s, "default") {
            Ok(GameComponentEntryValueStatus::Normal)
        } else if str_eq(s, "warning") || str_eq(s, "warn") {
            Ok(GameComponentEntryValueStatus::Warning)
        } else if str_eq(s, "danger") || str_eq(s, "dangerous") || str_eq(s, "error") {
            Ok(GameComponentEntryValueStatus::Danger)
        } else if str_eq(s, "success") {
            Ok(GameComponentEntryValueStatus::Success)
        } else {
            Err(())
        }
    }
}

/// Reading the name of a status gives it back.
pub proof fn lemma_status_name_roundtrip(s: GameComponentEntryValueStatus)
    ensures
        status_of_name(status_name(s)) == Some(s),
{
    reveal_strlit("normal");
    reveal_strlit("default");
    reveal_strlit("warning");
    reveal_strlit("warn");
    reveal_strlit("danger");
    reveal_strlit("dangerous");
    reveal_strlit("error");
    reveal_strlit("success");
    assert("warning"@ != "normal"@ && "warning"@ != "default"@) by {
        assert("warning"@[0] != "normal"@[0]);
        assert("warning"@[0] != "default"@[0]);
    }
    assert("danger"@ != "normal"@ && "danger"@ != "default"@ && "danger"@ != "warning"@
        && "danger"@ != "warn"@) by {
        assert("danger"@[0] != "normal"@[0]);
        assert("danger"@[1] != "default"@[1]);
        assert("danger"@[0] != "warning"@[0]);
        assert("danger"@[0] != "warn"@[0]);
    }
    assert("success"@ != "normal"@ && "success"@ != "default"@ && "success"@ != "warning"@
        && "success"@ != "warn"@ && "success"@ != "danger"@ && "success"@ != "dangerous"@
        && "success"@ != "error"@) by {
        assert("success"@[0] != "normal"@[0]);
        assert("success"@[0] != "default"@[0]);
        assert("success"@[0] != "warning"@[0]);
        assert("success"@[0] != "warn"@[0]);
        assert("success"@[0] != "danger"@[0]);
        assert("success"@[0] != "dangerous"@[0]);
        assert("success"@[0] != "error"@[0]);
    }
}

} // verus!
