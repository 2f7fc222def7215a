//! Who owns the session on this machine.
//!
//! The owner holds a lock file with its process number. A lock whose process
//! is gone is stale: whoever finds it cleans up and takes over.

use crate::path::{join, opt_bytes, path_join, utf8};
use crate::text::{
    decimal, law_decimal_round_trip, lemma_decimal_is_digits, parse_u32, parsed_u32, to_decimal,
    trim, trimmed, trimmed_end, trimmed_start,
};
use vstd::prelude::*;

verus! {

/// Where a session keeps its files.
#[derive(Debug, Clone, PartialEq, Eq)]
pub struct RuntimePaths {
    pub root: Vec<u8>,
    pub control_socket: Vec<u8>,
    pub lock: Vec<u8>,
    pub state_path: Vec<u8>,
    pub current_wav: Vec<u8>,
}

/// The directory of the session: below the runtime directory of the user if
/// one is set, else below the directory for temporary files that the user set,
/// else below that of the system.
pub open spec fn runtime_root(
    runtime_dir: Option<Seq<u8>>,
    tmpdir: Option<Seq<u8>>,
    temp_dir: Seq<u8>,
) -> Seq<u8> {
    let base = match (runtime_dir, tmpdir) {
        (Some(dir), _) => dir,
        (None, Some(dir)) => dir,
        (None, None) => temp_dir,
    };
    path_join(base, utf8("ut"@))
}

impl RuntimePaths {
    /// Where a session keeps its files, with the values of `XDG_RUNTIME_DIR`
    /// and `TMPDIR` and the directory of the system for temporary files.
    pub fn resolve(
        runtime_dir: Option<&[u8]>,
        tmpdir: Option<&[u8]>,
        temp_dir: &[u8],
    ) -> (paths: Self)
        ensures
            paths.root@ == runtime_root(
                opt_bytes(runtime_dir),
                opt_bytes(tmpdir),
                temp_dir@,
            ),
            paths.control_socket@ == path_join(paths.root@, utf8("control.sock"@)),
            paths.lock@ == path_join(paths.root@, utf8("lock"@)),
            paths.state_path@ == path_join(paths.root@, utf8("state.json"@)),
            paths.current_wav@ == path_join(paths.root@, utf8("current.wav"@)),
    {
        let base: &[u8] = match runtime_dir {
            Some(dir) => dir,
            None => match tmpdir {
                Some(dir) => dir,
                None => temp_dir,
            },
        };
        let root: Vec<u8> = join(base, "ut".as_bytes());
        RuntimePaths {
            control_socket: join(root.as_slice(), "control.sock".as_bytes()),
            lock: join(root.as_slice(), "lock".as_bytes()),
            state_path: join(root.as_slice(), "state.json".as_bytes()),
            current_wav: join(root.as_slice(), "current.wav".as_bytes()),
            root,
        }
    }
}

/// The process number in the text of a lock file.
pub open spec fn pid_in_lock(text: Seq<char>) -> Option<u32> {
    parsed_u32(trimmed(text))
}

/// The process number in a lock file, with its text, or nothing where it could
/// not be read.
pub fn lock_pid(text: Option<&str>) -> (pid: Option<u32>)
    ensures
        pid == (match text {
            Some(text) => pid_in_lock(text@),
            None => None,
        }),
{
    match text {
        Some(text) => parse_u32(trim(text)),
        None => None,
    }
}

/// The text of the lock file of a process: its number on a line.
pub open spec fn lock_text(pid: u32) -> Seq<char> {
    decimal(pid as nat).push('\n')
}

/// What a process writes to its lock file.
pub fn write_lock(pid: u32) -> (text: String)
    ensures
        text@ == lock_text(pid),
{
    let mut text: String = to_decimal(pid as u64);
    text.push('\n');
    text
}

/// The process that is read from a lock file is the one that wrote it.
pub proof fn law_lock_round_trip(pid: u32)
    ensures
        pid_in_lock(lock_text(pid)) == Some(pid),
{
    let digits = decimal(pid as nat);
    let text = lock_text(pid);
    lemma_decimal_is_digits(pid as nat);
    law_decimal_round_trip(pid);
    assert(crate::text::is_digit(digits[0]));
    assert(crate::text::is_digit(digits.last()));
    assert(text[0] == digits[0]);
    assert(trimmed_start(text) == text);
    assert(text.drop_last() =~= digits);
    assert(trimmed_end(digits) == digits);
    assert(trimmed(text) == digits);
}

/// What came of removing a file.
#[derive(Debug, Clone, PartialEq, Eq)]
pub enum Removal {
    Removed,
    NotFound,
    Failed(String),
}

/// Whether a file is gone now: one that was not there is.
pub fn remove_if_exists(removal: Removal) -> (gone: Result<(), String>)
    ensures
        gone == (match removal {
            Removal::Removed | Removal::NotFound => Ok(()),
            Removal::Failed(reason) => Err(reason),
        }),
{
    match removal {
        Removal::Removed | Removal::NotFound => Ok(()),
        Removal::Failed(reason) => Err(reason),
    }
}

/// The system's number for an operation that is not permitted.
pub const EPERM: i32 = 1;

/// The system's number for a process that does not exist.
pub const ESRCH: i32 = 3;

/// Whether a process is alive, with the result of sending it no signal and the
/// number of the error that came with it: it is where the signal got through or
/// was forbidden, it is not where there is no such process, and any other error
/// leaves it open.
pub fn pid_is_alive(result: i32, errno: i32) -> (alive: Result<bool, i32>)
    ensures
        alive == (if result == 0 || errno == EPERM {
            Ok(true)
        } else if errno == ESRCH {
            Ok(false)
        } else {
            Err(errno)
        }),
{
    if result == 0 {
        return Ok(true);
    }
    if errno == EPERM {
        return Ok(true);
    }
    if errno == ESRCH {
        return Ok(false);
    }
    Err(errno)
}

/// The files that a stale session leaves, in the order in which they go: its
/// socket and its lock.
pub fn clean_stale_runtime(paths: &RuntimePaths) -> (files: Vec<&Vec<u8>>)
    ensures
        files@ == seq![&paths.control_socket, &paths.lock],
{
    let mut files: Vec<&Vec<u8>> = Vec::new();
    files.push(&paths.control_socket);
    files.push(&paths.lock);
    files
}

/// What came of asking for the lock.
#[derive(Debug, Clone, Copy, PartialEq, Eq, Structural)]
pub enum LockOutcome {
    /// There was none, and it is ours.
    Acquired,
    /// There was a stale one, and it is ours.
    Recovered,
    /// It belongs to a process that is alive.
    Busy(u32),
}

/// What to do next to get the lock.
#[derive(Debug, PartialEq, Eq)]
pub enum LockStage {
    /// Create the lock file, if there is none.
    Create,
    /// Read the process number from the lock file that is there.
    ReadOwner,
    /// Find out whether that process is alive.
    Probe(u32),
    /// Remove what a stale session left.
    Clean,
    /// Create the lock file, after all.
    CreateAgain,
    /// Nothing: this came of it.
    Done(Result<LockOutcome, String>),
}

/// What came of one of these.
#[derive(Debug, PartialEq, Eq)]
pub enum LockEvent {
    Created,
    AlreadyExists(String),
    CreateFailed(String),
    OwnerRead(Option<u32>),
    Probed(Result<bool, String>),
    Cleaned(Result<(), String>),
}

impl LockStage {
    /// What to do next, where this came of it. What does not answer to the
    /// stage leaves it as it is.
    pub open spec fn after(self, event: LockEvent) -> LockStage {
        match (self, event) {
            (LockStage::Create, LockEvent::Created) => LockStage::Done(Ok(LockOutcome::Acquired)),
            (LockStage::Create, LockEvent::AlreadyExists(_)) => LockStage::ReadOwner,
            (LockStage::Create, LockEvent::CreateFailed(reason)) => LockStage::Done(Err(reason)),
            (LockStage::ReadOwner, LockEvent::OwnerRead(Some(pid))) => LockStage::Probe(pid),
            (LockStage::ReadOwner, LockEvent::OwnerRead(None)) => LockStage::Clean,
            (LockStage::Probe(pid), LockEvent::Probed(Ok(true))) => LockStage::Done(
                Ok(LockOutcome::Busy(pid)),
            ),
            (LockStage::Probe(_), LockEvent::Probed(Ok(false))) => LockStage::Clean,
            (LockStage::Probe(_), LockEvent::Probed(Err(reason))) => LockStage::Done(Err(reason)),
            (LockStage::Clean, LockEvent::Cleaned(Ok(_))) => LockStage::CreateAgain,
            (LockStage::Clean, LockEvent::Cleaned(Err(reason))) => LockStage::Done(Err(reason)),
            (LockStage::CreateAgain, LockEvent::Created) => LockStage::Done(
                Ok(LockOutcome::Recovered),
            ),
            (LockStage::CreateAgain, LockEvent::AlreadyExists(reason)) => LockStage::Done(
                Err(reason),
            ),
            (LockStage::CreateAgain, LockEvent::CreateFailed(reason)) => LockStage::Done(
                Err(reason),
            ),
            _ => self,
        }
    }

    /// What to do after all this came, one after the other.
    pub open spec fn after_all(self, events: Seq<LockEvent>) -> LockStage
        decreases events.len(),
    {
        if events.len() == 0 {
            self
        } else {
            self.after_all(events.drop_last()).after(events.last())
        }
    }

    /// Whether an event answers to the stage.
    pub open spec fn is_answered_by(self, event: LockEvent) -> bool {
        match self {
            LockStage::Create | LockStage::CreateAgain => event is Created || event
                is AlreadyExists || event is CreateFailed,
            LockStage::ReadOwner => event is OwnerRead,
            LockStage::Probe(_) => event is Probed,
            LockStage::Clean => event is Cleaned,
            LockStage::Done(_) => false,
        }
    }

    /// How many answers are still to come, at most.
    pub open spec fn answers_left(self) -> nat {
        match self {
            LockStage::Create => 5,
            LockStage::ReadOwner => 4,
            LockStage::Probe(_) => 3,
            LockStage::Clean => 2,
            LockStage::CreateAgain => 1,
            LockStage::Done(_) => 0,
        }
    }
}

/// What to do next to get the lock, starting with [`LockStage::Create`], where
/// this came of what was done. What does not answer to the stage leaves it as
/// it is.
pub fn acquire_lock(stage: LockStage, event: LockEvent) -> (next: LockStage)
    ensures
        next == stage.after(event),
{
    match stage {
        LockStage::Create => match event {
            LockEvent::Created => LockStage::Done(Ok(LockOutcome::Acquired)),
            LockEvent::AlreadyExists(_) => LockStage::ReadOwner,
            LockEvent::CreateFailed(reason) => LockStage::Done(Err(reason)),
            _ => LockStage::Create,
        },
        LockStage::ReadOwner => match event {
            LockEvent::OwnerRead(Some(pid)) => LockStage::Probe(pid),
            LockEvent::OwnerRead(None) => LockStage::Clean,
            _ => LockStage::ReadOwner,
        },
        LockStage::Probe(pid) => match event {
            LockEvent::Probed(Ok(alive)) => if alive {
                LockStage::Done(Ok(LockOutcome::Busy(pid)))
            } else {
                LockStage::Clean
            },
            LockEvent::Probed(Err(reason)) => LockStage::Done(Err(reason)),
            _ => LockStage::Probe(pid),
        },
        LockStage::Clean => match event {
            LockEvent::Cleaned(Ok(_)) => LockStage::CreateAgain,
            LockEvent::Cleaned(Err(reason)) => LockStage::Done(Err(reason)),
            _ => LockStage::Clean,
        },
        LockStage::CreateAgain => match event {
            LockEvent::Created => LockStage::Done(Ok(LockOutcome::Recovered)),
            LockEvent::AlreadyExists(reason) => LockStage::Done(Err(reason)),
            LockEvent::CreateFailed(reason) => LockStage::Done(Err(reason)),
            _ => LockStage::CreateAgain,
        },
        LockStage::Done(outcome) => LockStage::Done(outcome),
    }
}

/// Each answer brings the lock nearer: after at most five it is decided.
pub proof fn law_lock_is_decided(stage: LockStage, event: LockEvent)
    requires
        stage.is_answered_by(event),
    ensures
        stage.after(event).answers_left() < stage.answers_left(),
        stage.answers_left() <= 5,
{
}

/// A lock is taken from another process only where its file names none, or
/// where the process that it names was found not to be alive.
pub proof fn law_live_owner_keeps_lock(events: Seq<LockEvent>)
    ensures
        ({
            let stage = LockStage::Create.after_all(events);
            stage is Clean || stage is CreateAgain || stage == LockStage::Done(
                Ok(LockOutcome::Recovered),
            )
        }) ==> events.contains(LockEvent::OwnerRead(None)) || events.contains(
            LockEvent::Probed(Ok(false)),
        ),
    decreases events.len(),
{
    if events.len() > 0 {
        let before = events.drop_last();
        law_live_owner_keeps_lock(before);
        assert(events.last() == events[events.len() - 1]);
        assert forall|event: LockEvent| before.contains(event) implies events.contains(event) by {
            let i = choose|i: int| 0 <= i < before.len() && before[i] == event;
            assert(events[i] == event);
        }
    }
}

/// Whoever is told that the lock is busy is told the process that the lock
/// file names, and that process was found to be alive.
pub proof fn law_busy_owner_is_alive(events: Seq<LockEvent>, pid: u32)
    ensures
        LockStage::Create.after_all(events) == LockStage::Done(Ok(LockOutcome::Busy(pid)))
            ==> events.contains(LockEvent::OwnerRead(Some(pid))) && events.contains(
            LockEvent::Probed(Ok(true)),
        ),
        LockStage::Create.after_all(events) == LockStage::Probe(pid) ==> events.contains(
            LockEvent::OwnerRead(Some(pid)),
        ),
    decreases events.len(),
{
    if events.len() > 0 {
        let before = events.drop_last();
        law_busy_owner_is_alive(before, pid);
        assert(events.last() == events[events.len() - 1]);
        assert forall|event: LockEvent| before.contains(event) implies events.contains(event) by {
            let i = choose|i: int| 0 <= i < before.len() && before[i] == event;
            assert(events[i] == event);
        }
    }
}

/// A lock that a process wrote keeps everyone else out while that process is
/// alive, and is taken over once it is not.
pub proof fn law_lock_lasts_as_long_as_its_owner(reason: String, pid: u32)
    ensures
        LockStage::Create.after(LockEvent::AlreadyExists(reason)).after(
            LockEvent::OwnerRead(pid_in_lock(lock_text(pid))),
        ).after(LockEvent::Probed(Ok(true))) == LockStage::Done(Ok(LockOutcome::Busy(pid))),
        LockStage::Create.after(LockEvent::AlreadyExists(reason)).after(
            LockEvent::OwnerRead(pid_in_lock(lock_text(pid))),
        ).after(LockEvent::Probed(Ok(false))).after(LockEvent::Cleaned(Ok(()))).after(
            LockEvent::Created,
        ) == LockStage::Done(Ok(LockOutcome::Recovered)),
{
    law_lock_round_trip(pid);
}

/// What a lock file and the system truthfully answer to a stage, with the text
/// of the file, if there is one, and with the processes that are alive.
pub open spec fn true_answer(
    stage: LockStage,
    file: Option<Seq<char>>,
    alive: spec_fn(u32) -> bool,
    reason: String,
) -> LockEvent {
    match stage {
        LockStage::ReadOwner => LockEvent::OwnerRead(
            match file {
                Some(text) => pid_in_lock(text),
                None => None,
            },
        ),
        LockStage::Probe(pid) => LockEvent::Probed(Ok(alive(pid))),
        LockStage::Clean => LockEvent::Cleaned(Ok(())),
        _ => if file is None {
            LockEvent::Created
        } else {
            LockEvent::AlreadyExists(reason)
        },
    }
}

/// The lock file after a stage was carried out by a process.
pub open spec fn file_after(stage: LockStage, file: Option<Seq<char>>, pid: u32) -> Option<
    Seq<char>,
> {
    match stage {
        LockStage::Create | LockStage::CreateAgain => if file is None {
            Some(lock_text(pid))
        } else {
            file
        },
        LockStage::Clean => None,
        _ => file,
    }
}

/// What a process gets that asks for the lock, from a stage on, while no other
/// one does, and the lock file after that.
pub open spec fn attempt(
    stage: LockStage,
    file: Option<Seq<char>>,
    alive: spec_fn(u32) -> bool,
    pid: u32,
    reason: String,
) -> (LockStage, Option<Seq<char>>)
    decreases stage.answers_left(),
{
    if stage is Done {
        (stage, file)
    } else {
        attempt(
            stage.after(true_answer(stage, file, alive, reason)),
            file_after(stage, file, pid),
            alive,
            pid,
            reason,
        )
    }
}

/// The process that holds the lock: the one that the lock file names, if it is
/// alive.
pub open spec fn holder(file: Option<Seq<char>>, alive: spec_fn(u32) -> bool) -> Option<u32> {
    match file {
        Some(text) => match pid_in_lock(text) {
            Some(pid) => if alive(pid) {
                Some(pid)
            } else {
                None
            },
            None => None,
        },
        None => None,
    }
}

/// A process that asks for the lock is told who holds it, and changes nothing;
/// where nobody holds it, the process gets it and its name stands in the file.
pub proof fn law_lock_has_one_holder(
    file: Option<Seq<char>>,
    alive: spec_fn(u32) -> bool,
    pid: u32,
    reason: String,
)
    ensures
        attempt(LockStage::Create, file, alive, pid, reason) == (match holder(file, alive) {
            Some(owner) => (LockStage::Done(Ok(LockOutcome::Busy(owner))), file),
            None => (
                LockStage::Done(
                    Ok(
                        if file is None {
                            LockOutcome::Acquired
                        } else {
                            LockOutcome::Recovered
                        },
                    ),
                ),
                Some(lock_text(pid)),
            ),
        }),
{
    reveal_with_fuel(attempt, 6);
}

/// The lock file after processes have asked for the lock, one after the other.
pub open spec fn file_after_all(
    file: Option<Seq<char>>,
    alive: spec_fn(u32) -> bool,
    pids: Seq<u32>,
    reason: String,
) -> Option<Seq<char>>
    decreases pids.len(),
{
    if pids.len() == 0 {
        file
    } else {
        attempt(
            LockStage::Create,
            file_after_all(file, alive, pids.drop_last(), reason),
            alive,
            pids.last(),
            reason,
        ).1
    }
}

/// Whether the process at a place gets the lock when processes ask for it, one
/// after the other.
pub open spec fn gets_lock(
    file: Option<Seq<char>>,
    alive: spec_fn(u32) -> bool,
    pids: Seq<u32>,
    reason: String,
    at: int,
) -> bool {
    let outcome = attempt(
        LockStage::Create,
        file_after_all(file, alive, pids.take(at), reason),
        alive,
        pids[at],
        reason,
    ).0;
    outcome == LockStage::Done(Ok(LockOutcome::Acquired)) || outcome == LockStage::Done(
        Ok(LockOutcome::Recovered),
    )
}

/// Of processes that are alive and ask for the lock, one after the other, at most
/// one gets it.
pub proof fn law_lock_goes_to_one_process(
    file: Option<Seq<char>>,
    alive: spec_fn(u32) -> bool,
    pids: Seq<u32>,
    reason: String,
    first: int,
    second: int,
)
    requires
        0 <= first < second < pids.len(),
        alive(pids[first]),
        gets_lock(file, alive, pids, reason, first),
    ensures
        !gets_lock(file, alive, pids, reason, second),
{
    lemma_lock_stays(file, alive, pids, reason, first, second);
    law_lock_has_one_holder(
        file_after_all(file, alive, pids.take(second), reason),
        alive,
        pids[second],
        reason,
    );
}

proof fn lemma_lock_stays(
    file: Option<Seq<char>>,
    alive: spec_fn(u32) -> bool,
    pids: Seq<u32>,
    reason: String,
    first: int,
    upto: int,
)
    requires
        0 <= first < upto <= pids.len(),
        alive(pids[first]),
        gets_lock(file, alive, pids, reason, first),
    ensures
        holder(file_after_all(file, alive, pids.take(upto), reason), alive) == Some(pids[first]),
    decreases upto,
{
    let before = pids.take(upto - 1);
    assert(pids.take(upto).drop_last() =~= before);
    let at = file_after_all(file, alive, before, reason);
    law_lock_has_one_holder(at, alive, pids[upto - 1], reason);
    law_lock_round_trip(pids[first]);
    if upto - 1 > first {
        lemma_lock_stays(file, alive, pids, reason, first, upto - 1);
    }
}

/// All files of a session lie right below its directory, each under its own
/// name; the directory is called `ut`, and lies below the runtime directory of
/// the user where there is one, whatever the others are.
pub proof fn law_runtime_files_lie_in_one_directory(
    runtime_dir: Option<&[u8]>,
    tmpdir: Option<&[u8]>,
    temp_dir: &[u8],
    paths: RuntimePaths,
)
    requires
        call_ensures(RuntimePaths::resolve, (runtime_dir, tmpdir, temp_dir), paths),
    ensures
        runtime_dir matches Some(dir) ==> paths.root@ == path_join(dir@, utf8("ut"@)),
        runtime_dir is None ==> (tmpdir matches Some(dir) ==> paths.root@ == path_join(
            dir@,
            utf8("ut"@),
        )),
        runtime_dir is None && tmpdir is None ==> paths.root@ == path_join(
            temp_dir@,
            utf8("ut"@),
        ),
        paths.lock@ == path_join(paths.root@, utf8("lock"@)),
        paths.control_socket@ == path_join(paths.root@, utf8("control.sock"@)),
        paths.state_path@ == path_join(paths.root@, utf8("state.json"@)),
        paths.current_wav@ == path_join(paths.root@, utf8("current.wav"@)),
{
}

/// A process counts as dead only where the system says that there is none of that
/// number, and as alive where it could be sent a signal or that was forbidden.
pub proof fn law_process_is_dead_only_where_there_is_none(
    result: i32,
    errno: i32,
    alive: Result<bool, i32>,
)
    requires
        call_ensures(pid_is_alive, (result, errno), alive),
    ensures
        alive == Ok::<bool, i32>(false) <==> result != 0 && errno == 3,
        alive == Ok::<bool, i32>(true) <==> result == 0 || errno == 1,
        alive matches Err(number) ==> number == errno && result != 0,
{
}

/// The process that a lock file names is the number in it, whatever white space
/// is around; one that could not be read names none.
pub proof fn law_lock_names_its_number(text: &str, pid: Option<u32>, none: Option<u32>)
    requires
        call_ensures(lock_pid, (Some(text),), pid),
        call_ensures(lock_pid, (None,), none),
    ensures
        pid == crate::text::parsed_u32(trimmed(text@)),
        none is None,
{
}

/// What a process writes to its lock file is read back as its number.
pub proof fn law_written_lock_is_read_back(pid: u32, text: String, read: &str, found: Option<u32>)
    requires
        call_ensures(write_lock, (pid,), text),
        read@ == text@,
        call_ensures(lock_pid, (Some(read),), found),
    ensures
        found == Some(pid),
{
    law_lock_round_trip(pid);
}

/// A file that is removed or was never there is gone; only one that could not be
/// removed is an error, and that says why.
pub proof fn law_missing_file_is_gone(removal: Removal, gone: Result<(), String>)
    requires
        call_ensures(remove_if_exists, (removal,), gone),
    ensures
        gone is Err <==> removal is Failed,
        removal matches Removal::Failed(why) ==> gone == Err::<(), String>(why),
{
}

/// What a stale session leaves is its socket and its lock, and only those go.
pub proof fn law_stale_socket_and_lock_go(paths: RuntimePaths, files: Vec<&Vec<u8>>)
    requires
        call_ensures(clean_stale_runtime, (&paths,), files),
    ensures
        files@.contains(&paths.control_socket),
        files@.contains(&paths.lock),
        forall|i: int|
            0 <= i < files@.len() ==> #[trigger] files@[i] == &paths.control_socket || files@[i]
                == &paths.lock,
{
    assert(files@[0] == &paths.control_socket);
    assert(files@[1] == &paths.lock);
}

/// A lock file is created before anything is read or removed; whoever creates it
/// has the lock, and one that is there is looked into. What fails is reported as
/// it is, and a lock that comes back after cleaning up is not taken.
pub proof fn law_lock_is_taken_by_creating_it(
    stage: LockStage,
    event: LockEvent,
    next: LockStage,
)
    requires
        call_ensures(acquire_lock, (stage, event), next),
    ensures
        stage is Create && event is Created ==> next == LockStage::Done(Ok(LockOutcome::Acquired)),
        stage is CreateAgain && event is Created ==> next == LockStage::Done(
            Ok(LockOutcome::Recovered),
        ),
        stage is Create && event is AlreadyExists ==> next is ReadOwner,
        stage is CreateAgain ==> (event matches LockEvent::AlreadyExists(why) ==> next
            == LockStage::Done(Err(why))),
        stage is Create || stage is CreateAgain ==> (event matches LockEvent::CreateFailed(why)
            ==> next == LockStage::Done(Err(why))),
        stage is ReadOwner ==> (event matches LockEvent::OwnerRead(owner) ==> next == (match owner {
            Some(pid) => LockStage::Probe(pid),
            None => LockStage::Clean,
        })),
        stage matches LockStage::Probe(pid) ==> (event matches LockEvent::Probed(Ok(alive))
            ==> next == (if alive {
            LockStage::Done(Ok(LockOutcome::Busy(pid)))
        } else {
            LockStage::Clean
        })),
        stage is Probe ==> (event matches LockEvent::Probed(Err(why)) ==> next == LockStage::Done(
            Err(why),
        )),
        stage is Clean ==> (event matches LockEvent::Cleaned(cleaned) ==> match cleaned {
            Ok(_) => next is CreateAgain,
            Err(why) => next == LockStage::Done(Err(why)),
        }),
{
}

/// What does not answer to a stage changes nothing, and an attempt that is over
/// stays over.
pub proof fn law_stray_event_changes_nothing(stage: LockStage, event: LockEvent, next: LockStage)
    requires
        call_ensures(acquire_lock, (stage, event), next),
        stage is Create || stage is CreateAgain ==> !(event is Created) && !(event
            is AlreadyExists) && !(event is CreateFailed),
        stage is ReadOwner ==> !(event is OwnerRead),
        stage is Probe ==> !(event is Probed),
        stage is Clean ==> !(event is Cleaned),
    ensures
        next == stage,
{
}

} // verus!
