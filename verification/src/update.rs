//! What follows from a check for a newer release.

use vstd::prelude::*;

verus! {

/// What a check for a newer release came to.
pub enum UpdateCheck {
    /// The executable was replaced by this version.
    Replaced(String),
    /// It was the latest already.
    Current,
    /// The check failed: offline, or the server could not be reached.
    Failed,
}

/// What to do after the check.
pub enum AfterCheck {
    /// Tell the user of the new version with this text, then start it anew.
    Relaunch(String),
    /// Go on with the version that is running.
    GoOn,
}

/// What a user is told when the app was updated to `version`.
pub open spec fn updated_message(version: Seq<char>) -> Seq<char> {
    "Updated to version "@ + version + ". The app will now restart."@
}

/// Relaunch exactly when the executable was replaced. A failed check is not
/// reported: staying on the current version is the safe outcome.
pub fn run(check: UpdateCheck) -> (next: AfterCheck)
    ensures
        match check {
            UpdateCheck::Replaced(v) => next matches AfterCheck::Relaunch(m) && m@
                == updated_message(v@),
            _ => next is GoOn,
        },
{
    match check {
        UpdateCheck::Replaced(version) => {
            let mut m: String = "Updated to version ".to_owned();
            m.append(version.as_str());
            m.append(". The app will now restart.");
            AfterCheck::Relaunch(m)
        },
        UpdateCheck::Current | UpdateCheck::Failed => AfterCheck::GoOn,
    }
}

/// What the user is told names the new version, between what happened and what
/// comes next.
pub proof fn the_new_version_is_named(version: Seq<char>)
    ensures
        ({
            let s = updated_message(version);
            let tail = ". The app will now restart."@;
            &&& s.take(19) == "Updated to version "@
            &&& s.subrange(19, 19int + version.len()) == version
            &&& s.skip(19int + version.len()) == tail
        }),
{
    reveal_strlit("Updated to version ");
    let s = updated_message(version);
    let tail = ". The app will now restart."@;
    assert(s.take(19) =~= "Updated to version "@);
    assert(s.subrange(19, 19int + version.len()) =~= version);
    assert(s.skip(19int + version.len()) =~= tail);
}

} // verus!
