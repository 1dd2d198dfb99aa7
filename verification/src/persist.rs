//! Keeping the store in a file: what to make of what was found there at
//! start, and the steps by which the file is replaced without ever being
//! half written.

use crate::config::Snapshot;
use vstd::prelude::*;
use vstd::string::StringExecFns;

verus! {

/// What was found where the store is kept.
pub enum Loaded {
    /// There is no such file.
    Missing,
    /// The file could not be opened.
    Unopened,
    /// The file could not be read.
    Unread,
    /// The file does not hold a store.
    Malformed,
    /// The snapshot that the file holds.
    Parsed(Snapshot),
}

/// Why the store could not be loaded.
#[derive(Clone, Copy, Debug, PartialEq, Eq, Structural)]
pub enum LoadError {
    /// The file could not be opened.
    Open,
    /// The file could not be read.
    Read,
    /// The file does not hold a store.
    Parse,
}

/// The message that tells of a failure to load the file `name`.
pub open spec fn load_error_text(e: LoadError, name: Seq<char>) -> Seq<char> {
    match e {
        LoadError::Open => "Failed to open file: "@ + name,
        LoadError::Read => "Failed to read from file: "@ + name,
        LoadError::Parse => "Failed to deserialize Config"@,
    }
}

impl LoadError {
    /// The message that tells of a failure to load the file `name`.
    pub fn message(&self, name: &str) -> (text: String)
        ensures
            text@ == load_error_text(*self, name@),
    {
        match self {
            LoadError::Open => {
                let mut text = "Failed to open file: ".to_owned();
                text.append(name);
                text
            },
            LoadError::Read => {
                let mut text = "Failed to read from file: ".to_owned();
                text.append(name);
                text
            },
            LoadError::Parse => "Failed to deserialize Config".to_owned(),
        }
    }
}

/// How far the replacement of the file has come.
#[derive(Clone, Copy, Debug, PartialEq, Eq, Structural)]
pub enum SaveState {
    /// Nothing was done yet.
    Idle,
    /// The temporary file exists.
    TempFileCreated,
    /// The temporary file holds the whole store.
    TempFileWritten,
    /// The temporary file has taken the place of the file.
    RenamedOverTarget,
}

/// The work that is due next.
#[derive(Clone, Copy, Debug, PartialEq, Eq, Structural)]
pub enum SaveAction {
    /// Create the temporary file.
    CreateTemp,
    /// Write the whole store to the temporary file.
    WriteTemp,
    /// Rename the temporary file to the name of the file, in one step.
    RenameOverTarget,
    /// Nothing more: the store is written out.
    Finish,
}

/// Which step of the replacement failed.
#[derive(Clone, Copy, Debug, PartialEq, Eq, Structural)]
pub enum SaveError {
    /// The temporary file could not be created.
    Create,
    /// The temporary file could not be written.
    Write,
    /// The temporary file could not be renamed.
    Rename,
}

/// The message that tells of a failed step; `temp` is the name of the
/// temporary file.
pub open spec fn save_error_text(e: SaveError, temp: Seq<char>) -> Seq<char> {
    match e {
        SaveError::Create => "Failed to create file: "@ + temp,
        SaveError::Write => "Failed to write to file: "@ + temp,
        SaveError::Rename => "Failed to write new Config"@,
    }
}

impl SaveError {
    /// The message that tells of the failed step; `temp` is the name of the
    /// temporary file.
    pub fn message(&self, temp: &str) -> (text: String)
        ensures
            text@ == save_error_text(*self, temp@),
    {
        match self {
            SaveError::Create => {
                let mut text = "Failed to create file: ".to_owned();
                text.append(temp);
                text
            },
            SaveError::Write => {
                let mut text = "Failed to write to file: ".to_owned();
                text.append(temp);
                text
            },
            SaveError::Rename => "Failed to write new Config".to_owned(),
        }
    }
}

impl SaveAction {
    /// Whether the work changes the file itself, and not only the temporary
    /// file beside it.
    pub open spec fn touches_target(self) -> bool {
        self is RenameOverTarget
    }
}

impl SaveState {
    /// The work that is due in this state.
    pub open spec fn due(self) -> SaveAction {
        match self {
            SaveState::Idle => SaveAction::CreateTemp,
            SaveState::TempFileCreated => SaveAction::WriteTemp,
            SaveState::TempFileWritten => SaveAction::RenameOverTarget,
            SaveState::RenamedOverTarget => SaveAction::Finish,
        }
    }

    /// The state after the work that was due, where `done` says whether it
    /// succeeded; the failed step otherwise.
    pub open spec fn after(self, done: bool) -> Result<SaveState, SaveError> {
        match self {
            SaveState::Idle => if done {
                Ok(SaveState::TempFileCreated)
            } else {
                Err(SaveError::Create)
            },
            SaveState::TempFileCreated => if done {
                Ok(SaveState::TempFileWritten)
            } else {
                Err(SaveError::Write)
            },
            SaveState::TempFileWritten => if done {
                Ok(SaveState::RenamedOverTarget)
            } else {
                Err(SaveError::Rename)
            },
            SaveState::RenamedOverTarget => Ok(SaveState::Idle),
        }
    }

    /// Whether the file still is what it was before the replacement began.
    pub open spec fn target_intact(self) -> bool {
        !(self is RenamedOverTarget)
    }

    /// The work that is due in this state.
    pub fn action(&self) -> (action: SaveAction)
        ensures
            action == self.due(),
    {
        match self {
            SaveState::Idle => SaveAction::CreateTemp,
            SaveState::TempFileCreated => SaveAction::WriteTemp,
            SaveState::TempFileWritten => SaveAction::RenameOverTarget,
            SaveState::RenamedOverTarget => SaveAction::Finish,
        }
    }

    /// Moves on after the work that was due: to the next state where it
    /// succeeded, and to the failed step where it did not. After a failure
    /// the replacement starts again from `Idle`.
    pub fn advance(self, done: bool) -> (r: Result<SaveState, SaveError>)
        ensures
            r == self.after(done),
    {
        match self {
            SaveState::Idle => if done {
                Ok(SaveState::TempFileCreated)
            } else {
                Err(SaveError::Create)
            },
            SaveState::TempFileCreated => if done {
                Ok(SaveState::TempFileWritten)
            } else {
                Err(SaveError::Write)
            },
            SaveState::TempFileWritten => if done {
                Ok(SaveState::RenamedOverTarget)
            } else {
                Err(SaveError::Rename)
            },
            SaveState::RenamedOverTarget => Ok(SaveState::Idle),
        }
    }
}

/// The state that a run of steps from `Idle` ends in, where each element
/// of `done` says whether the work of one step succeeded; the step that
/// failed first, if one did.
pub open spec fn replay(done: Seq<bool>) -> Result<SaveState, SaveError>
    decreases done.len(),
{
    if done.len() == 0 {
        Ok(SaveState::Idle)
    } else {
        match replay(done.drop_last()) {
            Ok(state) => state.after(done.last()),
            Err(e) => Err(e),
        }
    }
}

/// The file is changed by one kind of work only, the rename, and that is
/// due only when the temporary file holds the whole store.
pub proof fn law_only_rename_touches_target(state: SaveState)
    ensures
        state.due().touches_target() <==> state is TempFileWritten,
{
}

/// A step that fails has left the file as it was.
pub proof fn law_failure_leaves_target(state: SaveState, done: bool)
    requires
        state.after(done) is Err,
    ensures
        state.target_intact(),
        !done,
{
}

/// The file is replaced only after all three steps succeeded, one after
/// another: whenever a run ends with the file replaced, its last three
/// steps succeeded and began at `Idle`.
pub proof fn law_replaced_after_three_steps(done: Seq<bool>)
    requires
        replay(done) == Ok::<SaveState, SaveError>(SaveState::RenamedOverTarget),
    ensures
        done.len() >= 3,
        done[done.len() - 1] && done[done.len() - 2] && done[done.len() - 3],
        replay(done.take(done.len() - 3)) == Ok::<SaveState, SaveError>(SaveState::Idle),
{
    let a = done.drop_last();
    assert(replay(a) == Ok::<SaveState, SaveError>(SaveState::TempFileWritten));
    let b = a.drop_last();
    assert(replay(b) == Ok::<SaveState, SaveError>(SaveState::TempFileCreated));
    let c = b.drop_last();
    assert(replay(c) == Ok::<SaveState, SaveError>(SaveState::Idle));
    assert(c =~= done.take(done.len() - 3));
}

/// Whether `c` parts the directories of a path.
pub open spec fn is_separator(c: char) -> bool {
    c == '/' || c == '\\'
}

/// Whether `c` can occur in a unique suffix: a lower-case hexadecimal digit
/// or a hyphen.
pub open spec fn is_suffix_char(c: char) -> bool {
    c == '-' || ('0' <= c && c <= '9') || ('a' <= c && c <= 'f')
}

/// Whether `s` has the form of a unique suffix: 36 characters, each a
/// lower-case hexadecimal digit or a hyphen.
pub open spec fn is_unique_suffix(s: Seq<char>) -> bool {
    s.len() == 36 && forall|i: int| 0 <= i < s.len() ==> is_suffix_char(#[trigger] s[i])
}

/// `uuid::Uuid::new_v4`, written out by its `Display`: a random identifier
/// in the hyphenated form, 36 characters that are lower-case hexadecimal
/// digits or hyphens. Which identifier comes is not claimed. The call
/// panics where the system has no source of random numbers.
#[verifier::external_body]
pub(crate) fn fresh_suffix() -> (s: String)
    ensures
        is_unique_suffix(s@),
{
    uuid::Uuid::new_v4().to_string()
}

/// The name of the temporary file beside the file `target`.
pub open spec fn temp_name(target: Seq<char>, unique: Seq<char>) -> Seq<char> {
    target + "-"@ + unique + ".tmp"@
}

/// How many characters of a path name its directory: all up to the last
/// separator.
pub open spec fn dir_len(path: Seq<char>) -> nat
    decreases path.len(),
{
    if path.len() == 0 {
        0
    } else if is_separator(path.last()) {
        path.len()
    } else {
        dir_len(path.drop_last())
    }
}

/// The directory part of a path.
pub open spec fn dir_of(path: Seq<char>) -> Seq<char> {
    path.take(dir_len(path) as int)
}

proof fn lemma_dir_len_bound(path: Seq<char>)
    ensures
        dir_len(path) <= path.len(),
    decreases path.len(),
{
    if path.len() > 0 && !is_separator(path.last()) {
        lemma_dir_len_bound(path.drop_last());
    }
}

/// Characters after the last separator do not change the directory.
proof fn lemma_dir_len_append(path: Seq<char>, more: Seq<char>)
    requires
        forall|i: int| 0 <= i < more.len() ==> !is_separator(#[trigger] more[i]),
    ensures
        dir_len(path + more) == dir_len(path),
    decreases more.len(),
{
    if more.len() == 0 {
        assert(path + more =~= path);
    } else {
        let all = path + more;
        assert(all.last() == more.last());
        assert(all.drop_last() =~= path + more.drop_last());
        lemma_dir_len_append(path, more.drop_last());
    }
}

/// Where the file is kept, the temporary file is kept too: both names have
/// the same directory, and they differ.
pub proof fn law_temp_beside_target(target: Seq<char>, unique: Seq<char>)
    requires
        is_unique_suffix(unique),
    ensures
        dir_of(temp_name(target, unique)) == dir_of(target),
        temp_name(target, unique) != target,
{
    reveal_strlit("-");
    reveal_strlit(".tmp");
    let more = "-"@ + unique + ".tmp"@;
    assert forall|i: int| 0 <= i < more.len() implies !is_separator(#[trigger] more[i]) by {
        if 1 <= i < 37 {
            assert(more[i] == unique[i - 1]);
            assert(is_suffix_char(unique[i - 1]));
        }
    }
    assert(temp_name(target, unique) =~= target + more);
    lemma_dir_len_append(target, more);
    lemma_dir_len_bound(target);
    assert(dir_of(target + more) =~= dir_of(target));
    assert((target + more).len() == target.len() + 41);
}

/// The two file names of one replacement.
#[derive(Debug, PartialEq, Eq)]
pub struct SavePlan {
    /// The temporary file, which is written first.
    pub temp: String,
    /// The file that is replaced at the end.
    pub target: String,
}

/// The plan to replace the file `target`, with `unique` to tell its
/// temporary file from any other.
pub fn plan_with(target: &str, unique: &str) -> (plan: SavePlan)
    ensures
        plan.target@ == target@,
        plan.temp@ == temp_name(target@, unique@),
{
    let mut temp = target.to_owned();
    temp.append("-");
    temp.append(unique);
    temp.append(".tmp");
    SavePlan { temp, target: target.to_owned() }
}

/// The plan to replace the file `target`, with a temporary file whose name
/// is made unique by a random suffix.
pub fn plan(target: &str) -> (plan: SavePlan)
    ensures
        plan.target@ == target@,
        exists|unique: Seq<char>|
            is_unique_suffix(unique) && plan.temp@ == #[trigger] temp_name(target@, unique),
{
    let unique = fresh_suffix();
    plan_with(target, unique.as_str())
}

} // verus!
