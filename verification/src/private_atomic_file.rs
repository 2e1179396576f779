//! Replacing a saved file as a whole: the steps, in an order in which a reader never sees
//! a part of it.
//!
//! Each writer has a private temporary file in the directory of the destination. A success
//! means that the data was synced before the rename and the directory after it. An error
//! while the directory is synced comes after the replacement: the new file is there, but
//! may not survive a crash. Of two writers the last rename wins.

use vstd::prelude::*;
use vstd::string::*;
use crate::pane;
use crate::pane::{hex_char, random_bytes};
use crate::paths;
use crate::paths::{join_path, parent_path};

verus! {

/// How many names are tried for the temporary file.
pub const MAX_ATTEMPTS: u32 = 32;

/// The directory in which a file is replaced.
pub open spec fn save_dir(path: Seq<char>) -> Seq<char> {
    match paths::parent(path) {
        Some(dir) => if dir.len() > 0 {
            dir
        } else {
            "."@
        },
        None => "."@,
    }
}

/// The directory in which a file is replaced.
pub fn save_directory(path: &str) -> (r: String)
    ensures
        r@ == save_dir(path@),
{
    match parent_path(path) {
        Some(dir) => {
            if dir.as_str().is_empty() {
                ".".to_owned()
            } else {
                dir
            }
        },
        None => ".".to_owned(),
    }
}

/// The last digits of a number, in hexadecimal, with zeros in front where it has fewer.
pub open spec fn hex_number(n: nat, digits: nat) -> Seq<char>
    decreases digits,
{
    if digits == 0 {
        Seq::empty()
    } else {
        hex_number(n / 16, (digits - 1) as nat).push(pane::hex_digit((n % 16) as int))
    }
}

/// Appends the last digits of a number.
fn append_hex(text: &mut String, n: u128, digits: u32)
    ensures
        final(text)@ == old(text)@ + hex_number(n as nat, digits as nat),
    decreases digits,
{
    if digits > 0 {
        append_hex(text, n / 16, digits - 1);
        text.push(hex_char((n % 16) as u8));
    }
    assert(text@ =~= old(text)@ + hex_number(n as nat, digits as nat));
}

/// The path of a temporary file: a hidden name with 32 hexadecimal digits.
pub open spec fn temporary_file(dir: Seq<char>, nonce: u128) -> Seq<char> {
    paths::joined_path(dir, ".taarof-save-"@ + hex_number(nonce as nat, 32) + ".tmp"@)
}

/// The path of the temporary file with this random number.
pub fn temporary_path(dir: &str, nonce: u128) -> (r: String)
    ensures
        r@ == temporary_file(dir@, nonce),
{
    let mut name = ".taarof-save-".to_owned();
    append_hex(&mut name, nonce, 32);
    name.append(".tmp");
    join_path(dir, name.as_str())
}

/// The number that bytes stand for, the lowest first.
pub open spec fn number_of_bytes(bytes: Seq<u8>) -> nat
    decreases bytes.len(),
{
    if bytes.len() == 0 {
        0
    } else {
        bytes[0] as nat + 256 * number_of_bytes(bytes.skip(1))
    }
}

/// Whether a number stands in memory as these bytes, in one of the two orders that machines
/// use.
pub open spec fn is_stored_as(n: u128, bytes: Seq<u8>) -> bool {
    n as nat == number_of_bytes(bytes) || n as nat == number_of_bytes(bytes.reverse())
}

/// The number that stands in this machine's memory as these bytes
/// (`u128::from_ne_bytes`). Which of the two orders the machine uses is left open.
#[verifier::external_body]
fn native_number(bytes: [u8; 16]) -> (r: u128)
    ensures
        is_stored_as(r, bytes@),
{
    u128::from_ne_bytes(bytes)
}

/// The path of a temporary file from what the source of randomness gave: with the number
/// that the bytes are on this machine in its name, or nothing where there are none.
pub fn temporary_path_from(dir: &str, random: Option<[u8; 16]>) -> (r: Option<String>)
    ensures
        random is None ==> r is None,
        random matches Some(bytes) ==> r matches Some(path) && exists|nonce: u128| #[trigger]
            is_stored_as(nonce, bytes@) && path@ == temporary_file(dir@, nonce),
{
    match random {
        Some(bytes) => {
            let nonce: u128 = native_number(bytes);
            let path = temporary_path(dir, nonce);
            assert(is_stored_as(nonce, bytes@) && path@ == temporary_file(dir@, nonce));
            Some(path)
        },
        None => None,
    }
}

/// A new path for a temporary file, as [`temporary_path_from`] makes it of sixteen random
/// bytes of the system; nothing where the system gives none.
pub fn new_temporary_path(dir: &str) -> (r: Option<String>)
    ensures
        r matches Some(path) ==> exists|nonce: u128| path@ == #[trigger] temporary_file(
            dir@,
            nonce,
        ),
{
    temporary_path_from(dir, random_bytes())
}

/// What a save does next.
#[derive(Debug, Clone, Copy, PartialEq, Eq, Structural)]
pub enum SaveStep {
    /// Open the directory, so that it can be synced in the end.
    OpenDirectory,
    /// Create a temporary file under a new name, which must not exist yet.
    CreateTemporary { attempt: u32 },
    /// Make the temporary file private.
    SetPermissions,
    WriteContent,
    SyncContent,
    /// Put the temporary file in the place of the destination.
    Rename,
    SyncDirectory,
    /// The destination is replaced, and that is durable.
    Saved,
    /// The save failed. `replaced` says whether the destination is the new file already.
    Failed { replaced: bool },
    /// No free name was found for the temporary file.
    Collision,
}

/// How a step went.
#[derive(Debug, Clone, Copy, PartialEq, Eq, Structural)]
pub enum StepOutcome {
    Done,
    /// A file with the name of the temporary file exists already.
    Exists,
    Failed,
}

impl SaveStep {
    /// What follows a step.
    pub open spec fn next(self, outcome: StepOutcome) -> SaveStep {
        match self {
            SaveStep::Saved | SaveStep::Failed { .. } | SaveStep::Collision => self,
            SaveStep::SyncDirectory => if outcome == StepOutcome::Done {
                SaveStep::Saved
            } else {
                SaveStep::Failed { replaced: true }
            },
            SaveStep::CreateTemporary { attempt } => match outcome {
                StepOutcome::Done => SaveStep::SetPermissions,
                StepOutcome::Exists => if attempt < MAX_ATTEMPTS {
                    SaveStep::CreateTemporary { attempt: (attempt + 1) as u32 }
                } else {
                    SaveStep::Collision
                },
                StepOutcome::Failed => SaveStep::Failed { replaced: false },
            },
            _ => if outcome != StepOutcome::Done {
                SaveStep::Failed { replaced: false }
            } else {
                match self {
                    SaveStep::OpenDirectory => SaveStep::CreateTemporary { attempt: 1 },
                    SaveStep::SetPermissions => SaveStep::WriteContent,
                    SaveStep::WriteContent => SaveStep::SyncContent,
                    SaveStep::SyncContent => SaveStep::Rename,
                    _ => SaveStep::SyncDirectory,
                }
            },
        }
    }

    /// What follows a step that went like this.
    pub fn after(self, outcome: StepOutcome) -> (r: SaveStep)
        ensures
            r == self.next(outcome),
    {
        match self {
            SaveStep::Saved | SaveStep::Failed { .. } | SaveStep::Collision => self,
            SaveStep::SyncDirectory => {
                if outcome == StepOutcome::Done {
                    SaveStep::Saved
                } else {
                    SaveStep::Failed { replaced: true }
                }
            },
            SaveStep::CreateTemporary { attempt } => match outcome {
                StepOutcome::Done => SaveStep::SetPermissions,
                StepOutcome::Exists => {
                    if attempt < MAX_ATTEMPTS {
                        SaveStep::CreateTemporary { attempt: attempt + 1 }
                    } else {
                        SaveStep::Collision
                    }
                },
                StepOutcome::Failed => SaveStep::Failed { replaced: false },
            },
            _ => {
                if outcome != StepOutcome::Done {
                    return SaveStep::Failed { replaced: false };
                }
                match self {
                    SaveStep::OpenDirectory => SaveStep::CreateTemporary { attempt: 1 },
                    SaveStep::SetPermissions => SaveStep::WriteContent,
                    SaveStep::WriteContent => SaveStep::SyncContent,
                    SaveStep::SyncContent => SaveStep::Rename,
                    _ => SaveStep::SyncDirectory,
                }
            },
        }
    }

    /// Whether the save has ended.
    pub open spec fn ended(self) -> bool {
        self is Saved || self is Failed || self is Collision
    }
}

/// A save after its steps went like this.
pub open spec fn save_run(outcomes: Seq<StepOutcome>) -> SaveStep
    decreases outcomes.len(),
{
    if outcomes.len() == 0 {
        SaveStep::OpenDirectory
    } else {
        save_run(outcomes.drop_last()).next(outcomes.last())
    }
}

/// Whether some step of a save was done with success.
pub open spec fn has_done(outcomes: Seq<StepOutcome>, step: SaveStep) -> bool {
    exists|i: int|
        0 <= i < outcomes.len() && save_run(#[trigger] outcomes.take(i)) == step && outcomes[i]
            == StepOutcome::Done
}

proof fn lemma_has_done_grows(outcomes: Seq<StepOutcome>, step: SaveStep)
    requires
        outcomes.len() > 0,
        has_done(outcomes.drop_last(), step),
    ensures
        has_done(outcomes, step),
{
    let short = outcomes.drop_last();
    let i = choose|i: int|
        0 <= i < short.len() && save_run(#[trigger] short.take(i)) == step && short[i]
            == StepOutcome::Done;
    assert(outcomes.take(i) =~= short.take(i));
}

proof fn lemma_last_done(outcomes: Seq<StepOutcome>, step: SaveStep)
    requires
        outcomes.len() > 0,
        save_run(outcomes.drop_last()) == step,
        outcomes.last() == StepOutcome::Done,
    ensures
        has_done(outcomes, step),
{
    assert(outcomes.take(outcomes.len() - 1) =~= outcomes.drop_last());
}

/// Nothing takes the place of the destination before its content is written and synced,
/// and a save succeeds only after the rename and the sync of the directory.
pub proof fn law_content_is_synced_before_it_is_published(outcomes: Seq<StepOutcome>)
    ensures
        save_run(outcomes) is Rename ==> has_done(outcomes, SaveStep::WriteContent) && has_done(
            outcomes,
            SaveStep::SyncContent,
        ),
        save_run(outcomes) is SyncDirectory || save_run(outcomes) is Saved ==> has_done(
            outcomes,
            SaveStep::WriteContent,
        ) && has_done(outcomes, SaveStep::SyncContent) && has_done(outcomes, SaveStep::Rename),
        save_run(outcomes) is Saved ==> has_done(outcomes, SaveStep::SyncDirectory),
        save_run(outcomes) is SyncContent ==> has_done(outcomes, SaveStep::WriteContent),
    decreases outcomes.len(),
{
    if outcomes.len() > 0 {
        let short = outcomes.drop_last();
        law_content_is_synced_before_it_is_published(short);
        let before = save_run(short);
        if outcomes.last() == StepOutcome::Done {
            lemma_last_done(outcomes, before);
        }
        if has_done(short, SaveStep::WriteContent) {
            lemma_has_done_grows(outcomes, SaveStep::WriteContent);
        }
        if has_done(short, SaveStep::SyncContent) {
            lemma_has_done_grows(outcomes, SaveStep::SyncContent);
        }
        if has_done(short, SaveStep::Rename) {
            lemma_has_done_grows(outcomes, SaveStep::Rename);
        }
        if has_done(short, SaveStep::SyncDirectory) {
            lemma_has_done_grows(outcomes, SaveStep::SyncDirectory);
        }
    }
}

/// A save that failed before the rename left the destination as it was, and says so.
pub proof fn law_failure_says_whether_the_destination_changed(outcomes: Seq<StepOutcome>)
    ensures
        save_run(outcomes) == (SaveStep::Failed { replaced: false }) || save_run(outcomes)
            is Collision ==> !has_done(outcomes, SaveStep::Rename),
        save_run(outcomes) == (SaveStep::Failed { replaced: true }) ==> has_done(
            outcomes,
            SaveStep::Rename,
        ),
        !(save_run(outcomes) is SyncDirectory || save_run(outcomes) is Saved || save_run(outcomes)
            == (SaveStep::Failed { replaced: true })) ==> !has_done(outcomes, SaveStep::Rename),
        save_run(outcomes) is SyncDirectory ==> has_done(outcomes, SaveStep::Rename),
    decreases outcomes.len(),
{
    if outcomes.len() > 0 {
        let short = outcomes.drop_last();
        law_failure_says_whether_the_destination_changed(short);
        if has_done(short, SaveStep::Rename) {
            lemma_has_done_grows(outcomes, SaveStep::Rename);
        }
        if save_run(short) is Rename && outcomes.last() == StepOutcome::Done {
            lemma_last_done(outcomes, SaveStep::Rename);
        }
        if has_done(outcomes, SaveStep::Rename) && !has_done(short, SaveStep::Rename) {
            let i = choose|i: int|
                0 <= i < outcomes.len() && save_run(#[trigger] outcomes.take(i)) == SaveStep::Rename
                    && outcomes[i] == StepOutcome::Done;
            if i < short.len() {
                assert(short.take(i) =~= outcomes.take(i));
                assert(has_done(short, SaveStep::Rename));
            } else {
                assert(outcomes.take(i) =~= short);
            }
        }
    }
}

/// A save tries at most 32 names.
pub proof fn law_attempts_are_bounded(outcomes: Seq<StepOutcome>)
    ensures
        save_run(outcomes) matches SaveStep::CreateTemporary { attempt } ==> 1 <= attempt
            <= MAX_ATTEMPTS,
    decreases outcomes.len(),
{
    if outcomes.len() > 0 {
        law_attempts_are_bounded(outcomes.drop_last());
    }
}

/// A save goes through its steps in one order; only a name that is taken is tried anew, and
/// what has ended stays ended.
pub proof fn law_the_order_of_a_save(step: SaveStep, outcome: StepOutcome, attempt: u32)
    ensures
        SaveStep::OpenDirectory.next(StepOutcome::Done) == (SaveStep::CreateTemporary {
            attempt: 1,
        }),
        (SaveStep::CreateTemporary { attempt }).next(StepOutcome::Done) == SaveStep::SetPermissions,
        attempt < 32 ==> (SaveStep::CreateTemporary { attempt }).next(StepOutcome::Exists) == (
        SaveStep::CreateTemporary { attempt: (attempt + 1) as u32 }),
        attempt >= 32 ==> (SaveStep::CreateTemporary { attempt }).next(StepOutcome::Exists)
            == SaveStep::Collision,
        (SaveStep::CreateTemporary { attempt }).next(StepOutcome::Failed) == (SaveStep::Failed {
            replaced: false,
        }),
        SaveStep::SetPermissions.next(StepOutcome::Done) == SaveStep::WriteContent,
        SaveStep::WriteContent.next(StepOutcome::Done) == SaveStep::SyncContent,
        SaveStep::SyncContent.next(StepOutcome::Done) == SaveStep::Rename,
        SaveStep::Rename.next(StepOutcome::Done) == SaveStep::SyncDirectory,
        SaveStep::SyncDirectory.next(StepOutcome::Done) == SaveStep::Saved,
        SaveStep::SyncDirectory.next(StepOutcome::Failed) == (SaveStep::Failed { replaced: true }),
        step is Saved || step is Failed || step is Collision ==> step.next(outcome) == step
            && step.ended(),
        step.ended() ==> step is Saved || step is Failed || step is Collision,
        outcome == StepOutcome::Failed && !step.ended() && !(step is SyncDirectory) ==> step.next(
            outcome,
        ) == (SaveStep::Failed { replaced: false }),
{
}

/// Where everything works, a save ends in success after seven steps.
pub proof fn law_a_save_succeeds(outcomes: Seq<StepOutcome>)
    requires
        outcomes.len() == 7,
        forall|i: int| 0 <= i < 7 ==> #[trigger] outcomes[i] == StepOutcome::Done,
    ensures
        save_run(outcomes) is Saved,
{
    reveal_with_fuel(save_run, 8);
    let o6 = outcomes.drop_last();
    let o5 = o6.drop_last();
    let o4 = o5.drop_last();
    let o3 = o4.drop_last();
    let o2 = o3.drop_last();
    let o1 = o2.drop_last();
    assert(outcomes[6] == StepOutcome::Done && outcomes[5] == StepOutcome::Done && outcomes[4]
        == StepOutcome::Done && outcomes[3] == StepOutcome::Done && outcomes[2]
        == StepOutcome::Done && outcomes[1] == StepOutcome::Done && outcomes[0]
        == StepOutcome::Done);
    assert(save_run(o1) == (SaveStep::CreateTemporary { attempt: 1 }));
    assert(save_run(o2) is SetPermissions);
    assert(save_run(o3) is WriteContent);
    assert(save_run(o4) is SyncContent);
    assert(save_run(o5) is Rename);
    assert(save_run(o6) is SyncDirectory);
}

/// The temporary file stands in the directory of the destination.
pub proof fn law_temporary_files_stand_beside_the_destination(
    dir: Seq<char>,
    name: Seq<char>,
    nonce: u128,
)
    requires
        dir.len() > 0,
        dir.last() != '/',
        dir.last() != '.',
        name.len() > 0,
        !name.contains('/'),
        name != "."@,
        name != ".."@,
    ensures
        save_dir(dir + seq!['/'] + name) == dir,
        temporary_file(dir, nonce) == dir + seq!['/'] + (".taarof-save-"@ + hex_number(
            nonce as nat,
            32,
        ) + ".tmp"@),
        save_dir("/"@) == "."@,
{
    reveal_strlit(".taarof-save-");
    paths::law_names_and_directories(dir, name);
    let file = ".taarof-save-"@ + hex_number(nonce as nat, 32) + ".tmp"@;
    assert(file[0] == '.');
    paths::law_joining_paths(dir, file);
}

/// A number is written with its digits of base sixteen, the lowest last, and with as many as
/// asked for.
pub proof fn law_hexadecimal_numbers(n: nat, digits: nat)
    ensures
        hex_number(n, digits).len() == digits,
        digits > 0 ==> hex_number(n, digits).last() == pane::hex_digit((n % 16) as int)
            && hex_number(n, digits).drop_last() == hex_number(n / 16, (digits - 1) as nat),
    decreases digits,
{
    if digits > 0 {
        law_hexadecimal_numbers(n / 16, (digits - 1) as nat);
        assert(hex_number(n, digits).drop_last() =~= hex_number(n / 16, (digits - 1) as nat));
    }
}

} // verus!
