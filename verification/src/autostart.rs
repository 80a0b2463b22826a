//! Starting with Windows: the value in the registry's `Run` key.

use crate::text::{
    chars_of, just, lowered, strip_back, strip_front, to_ascii_lowercase, trim,
    trim_matches, trimmed, trimmed_of,
};
use vstd::prelude::*;

verus! {

/// The registry key that Windows starts programs from at logon, below the current user.
pub const RUN_KEY: &'static str = "Software\\Microsoft\\Windows\\CurrentVersion\\Run";

/// Name of the value that starts this application.
pub const APP_NAME: &'static str = "GoXLR Volume Wheel";

/// The path that a stored value names: without spaces around it, then without quotes.
pub open spec fn stored_path(stored: Seq<char>) -> Seq<char> {
    trimmed_of(trimmed(stored), '"')
}

/// Whether a stored value names the program at `current`; ASCII letters match in either case.
pub open spec fn names_program(stored: Seq<char>, current: Seq<char>) -> bool {
    lowered(stored_path(stored)) == lowered(current)
}

/// Whether a stored value names the program at `current`.
pub fn paths_equivalent(stored: &str, current: &str) -> (r: bool)
    ensures
        r == names_program(stored@, current@),
{
    let path = trim_matches(&trim(&chars_of(stored)), '"');
    let a = to_ascii_lowercase(&path);
    let b = to_ascii_lowercase(&chars_of(current));
    crate::text::same(
        crate::text::string_of(&a).as_str(),
        crate::text::string_of(&b).as_str(),
    )
}

/// Whether the application starts with Windows. Neither the program's own path nor the stored
/// value need be known.
pub fn is_enabled(exe: Option<&str>, stored: Option<&str>) -> (r: bool)
    ensures
        r == (exe matches Some(e) && stored matches Some(s) && names_program(s@, e@)),
{
    match exe {
        Some(e) => match stored {
            Some(s) => paths_equivalent(s, e),
            None => false,
        },
        None => false,
    }
}

/// The value that is stored: the path in quotes, so it survives spaces in user folders.
pub open spec fn run_value(exe: Seq<char>) -> Seq<char> {
    seq!['"'] + exe + seq!['"']
}

/// The value to store to start with Windows.
pub fn enable(exe: &str) -> (r: String)
    ensures
        r@ == run_value(exe@),
{
    let mut out = String::new();
    out.push('"');
    out.append(exe);
    out.push('"');
    assert(out@ =~= run_value(exe@));
    out
}

/// How a step in the registry ended.
#[derive(Clone, Copy, Debug, PartialEq, Eq, Structural)]
pub enum RegistryStep {
    Done,
    /// The key or value is not there.
    NotFound,
    Failed,
}

/// What to do about the outcome of opening the key in order to remove the value.
#[derive(Clone, Copy, Debug, PartialEq, Eq, Structural)]
pub enum RemovalNext {
    /// Delete the value.
    Delete,
    /// There is nothing to remove: success.
    Finished,
    /// Report the error.
    Fail,
}

/// Decides how to go on after opening the key. A key that is not there holds no value.
pub fn disable(opened: RegistryStep) -> (r: RemovalNext)
    ensures
        r == (match opened {
            RegistryStep::Done => RemovalNext::Delete,
            RegistryStep::NotFound => RemovalNext::Finished,
            RegistryStep::Failed => RemovalNext::Fail,
        }),
{
    match opened {
        RegistryStep::Done => RemovalNext::Delete,
        RegistryStep::NotFound => RemovalNext::Finished,
        RegistryStep::Failed => RemovalNext::Fail,
    }
}

/// Whether the value is gone after deleting it. One that was not there is gone.
pub fn removed(deleted: RegistryStep) -> (r: bool)
    ensures
        r == (deleted != RegistryStep::Failed),
{
    deleted != RegistryStep::Failed
}

// ---------------------------------------------------------------- laws

/// What is stored for a program names that program. A path that itself begins or ends with a
/// quote is left out: its quotes are taken for those around it.
pub proof fn enabled_is_recognized(exe: Seq<char>)
    requires
        exe.len() > 0 ==> exe[0] != '"' && exe.last() != '"',
    ensures
        names_program(run_value(exe), exe),
{
    let v = run_value(exe);
    assert(v[0] == '"' && v.last() == '"');
    assert(trimmed(v) == v);
    let front = exe.push('"');
    assert(v.drop_first() =~= front);
    assert(strip_front(v, just('"')) == strip_front(front, just('"')));
    if exe.len() == 0 {
        assert(front.drop_first() =~= exe);
        assert(strip_front(front, just('"')) == strip_front(exe, just('"')));
    } else {
        assert(front[0] == exe[0]);
        assert(strip_front(front, just('"')) == front);
        assert(front.drop_last() =~= exe);
        assert(strip_back(front, just('"')) == strip_back(exe, just('"')));
        assert(strip_back(exe, just('"')) == exe);
    }
}

/// Upper and lower case make no difference to which program a value names.
pub proof fn recognition_ignores_case(stored: Seq<char>, a: Seq<char>, b: Seq<char>)
    requires
        lowered(a) == lowered(b),
    ensures
        names_program(stored, a) == names_program(stored, b),
{
}

/// What a stored value is compared by: with spaces taken off its ends, and then quotes, it must be
/// the program's path letter by letter, but for the case of `A` to `Z`.
pub proof fn stored_value_names_one_path(stored: Seq<char>, current: Seq<char>)
    ensures
        names_program(stored, current) <==> {
            let path = trimmed_of(trimmed(stored), '"');
            &&& path.len() == current.len()
            &&& forall|i: int|
                0 <= i < path.len() ==> lowered(seq![#[trigger] path[i]]) == lowered(
                    seq![current[i]],
                )
        },
{
    let path = trimmed_of(trimmed(stored), '"');
    if names_program(stored, current) {
        assert(lowered(path).len() == lowered(current).len());
        assert forall|i: int| 0 <= i < path.len() implies lowered(seq![#[trigger] path[i]])
            == lowered(seq![current[i]]) by {
            assert(lowered(path)[i] == lowered(current)[i]);
            assert(lowered(seq![path[i]]) =~= lowered(seq![current[i]]));
        }
    }
    if path.len() == current.len() && (forall|i: int|
        0 <= i < path.len() ==> lowered(seq![#[trigger] path[i]]) == lowered(seq![current[i]])) {
        assert forall|i: int| 0 <= i < path.len() implies lowered(path)[i]
            == lowered(current)[i] by {
            assert(lowered(seq![path[i]])[0] == lowered(seq![current[i]])[0]);
        }
        assert(lowered(path) =~= lowered(current));
    }
}

/// The stored value is the path itself between two quotes.
pub proof fn stored_value_quotes_the_path(exe: Seq<char>)
    ensures
        run_value(exe).len() == exe.len() + 2,
        run_value(exe)[0] == '"',
        run_value(exe).last() == '"',
        run_value(exe).subrange(1, exe.len() as int + 1) == exe,
        RUN_KEY@ == "Software\\Microsoft\\Windows\\CurrentVersion\\Run"@,
        APP_NAME@ == "GoXLR Volume Wheel"@,
{
    assert(run_value(exe).subrange(1, exe.len() as int + 1) =~= exe);
}

} // verus!
