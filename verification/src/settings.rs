use vstd::prelude::*;
use crate::models::AppSettings;
use crate::text::{contains_text, occurs_at, str_contains};

verus! {

/// What to do with the operating system's autostart entry.
#[derive(Debug, Clone, Copy, PartialEq, Eq, Structural)]
pub enum AutostartAction {
    Enable,
    Disable,
    Keep,
}

/// The autostart change that brings the system from `currently_enabled` to
/// the `requested` setting.
pub open spec fn spec_autostart_action(requested: bool, currently_enabled: bool) -> AutostartAction {
    if requested && !currently_enabled {
        AutostartAction::Enable
    } else if !requested && currently_enabled {
        AutostartAction::Disable
    } else {
        AutostartAction::Keep
    }
}

/// The autostart change that brings the system from `currently_enabled` to
/// the `requested` setting.
pub fn autostart_action(requested: bool, currently_enabled: bool) -> (action: AutostartAction)
    ensures
        action == spec_autostart_action(requested, currently_enabled),
{
    if requested && !currently_enabled {
        AutostartAction::Enable
    } else if !requested && currently_enabled {
        AutostartAction::Disable
    } else {
        AutostartAction::Keep
    }
}

/// Text of the system error for an entry that does not exist.
pub open spec fn missing_entry_marker() -> Seq<char> {
    "os error 2"@
}

/// The verdict depends only on the system error code: a message is ignorable
/// exactly when the text "os error 2" occurs in it, whatever the localized
/// text around it ("The system cannot find the file specified. (os error 2)"
/// and "O sistema não pode encontrar o arquivo especificado. (os error 2)"
/// alike), and a message without that code ("Access is denied. (os error 5)")
/// is not ignorable.
pub proof fn lemma_ignorable_iff_missing_entry_code(
    message: Seq<char>,
    before: Seq<char>,
    after: Seq<char>,
)
    ensures
        contains_text(message, missing_entry_marker()) <==> exists|at: int|
            0 <= at && at + 10 <= message.len() && #[trigger] message.subrange(at, at + 10) == "os error 2"@,
        contains_text(before + "os error 2"@ + after, missing_entry_marker()),
{
    reveal_strlit("os error 2");
    assert("os error 2"@.len() == 10);
    if contains_text(message, missing_entry_marker()) {
        let at = choose|at: int| occurs_at(message, missing_entry_marker(), at);
        assert(message.subrange(at, at + 10) == "os error 2"@);
    }
    if exists|at: int|
        0 <= at && at + 10 <= message.len() && #[trigger] message.subrange(at, at + 10)
            == "os error 2"@ {
        let at = choose|at: int|
            0 <= at && at + 10 <= message.len() && #[trigger] message.subrange(at, at + 10)
                == "os error 2"@;
        assert(occurs_at(message, missing_entry_marker(), at));
    }
    let whole = before + "os error 2"@ + after;
    assert(whole.subrange(before.len() as int, before.len() as int + 10) =~= "os error 2"@);
    assert(occurs_at(whole, missing_entry_marker(), before.len() as int));
}

/// Whether a failure to remove the autostart entry can be ignored: it is
/// when the system reports that the entry does not exist ("os error 2").
pub fn disable_error_is_ignorable(message: &str) -> (ignorable: bool)
    ensures
        ignorable == contains_text(message@, missing_entry_marker()),
{
    str_contains(message, "os error 2")
}

/// Whether the stored autostart setting differs from what the system
/// reports, so that the stored one must be updated.
pub fn autostart_out_of_sync(settings: &AppSettings, system_enabled: bool) -> (differs: bool)
    ensures
        differs == (settings.autostart_enabled != system_enabled),
{
    settings.autostart_enabled != system_enabled
}

} // verus!
