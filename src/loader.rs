//! The hot-reload manager: decides, from what a look at the script file
//! showed, whether to recompile, and rebinds the two optional entry points
//! `add` and `update` after a successful compilation.
//!
//! Timestamps are nanoseconds since the Unix epoch. The caller stats the file,
//! runs the compiler and prints diagnostics; this type makes every decision in
//! between.
use vstd::prelude::*;

verus! {

/// What a look at the script file showed.
#[derive(Clone, Copy, Debug, PartialEq, Eq, Structural)]
pub enum FileStat {
    /// The file could not be read (missing, or its metadata unavailable).
    Missing,
    /// The file is there and was last modified at this time.
    Modified(u64),
}

/// What the caller has to do after [`ScriptManager::reload`].
#[derive(Clone, Copy, Debug, PartialEq, Eq, Structural)]
pub enum ReloadAction {
    /// Nothing: keep running the entry points that are bound.
    Keep,
    /// The file just became unreadable: print the "script not found"
    /// diagnostic.
    ReportMissing,
    /// Compile the script and hand the outcome to
    /// [`ScriptManager::apply_compile`].
    Compile,
}

/// The result of compiling the script, with the entry points it defines.
pub enum CompileOutcome<A, U> {
    /// The compiler rejected the script.
    Failed,
    /// The script compiled; each entry point is present or not.
    Compiled { add: Option<A>, update: Option<U> },
}

/// State of the script binding: when the file was last looked at, whether its
/// absence has been reported, the bound entry points, and the most recent cost
/// of calling each of them (in microseconds).
pub struct ScriptManager<A, U> {
    pub last_compile: u64,
    pub script_not_found_logged: bool,
    pub update: Option<U>,
    pub update_micros: u64,
    pub add: Option<A>,
    pub add_micros: u64,
}

/// The decision taken on one look at the file. A missing file is reported
/// only on the first look of a run of failures; an existing file is compiled
/// only when it was modified after the last check.
pub open spec fn reload_action(last_compile: u64, logged: bool, stat: FileStat) -> ReloadAction {
    match stat {
        FileStat::Missing => if logged {
            ReloadAction::Keep
        } else {
            ReloadAction::ReportMissing
        },
        FileStat::Modified(m) => if m > last_compile {
            ReloadAction::Compile
        } else {
            ReloadAction::Keep
        },
    }
}

/// The state after one look at the file at time `now`: the check time moves
/// to `now` when the file is missing or is about to be compiled, and the
/// missing flag follows the file. Entry points and costs are untouched.
pub open spec fn after_reload<A, U>(s: ScriptManager<A, U>, stat: FileStat, now: u64) -> ScriptManager<A, U> {
    ScriptManager {
        last_compile: if stat is Missing || reload_action(s.last_compile, s.script_not_found_logged, stat) is Compile {
            now
        } else {
            s.last_compile
        },
        script_not_found_logged: stat is Missing,
        ..s
    }
}

/// The state after a compilation: a failure keeps everything as it was (the
/// previous entry points keep running); a success binds exactly the entry
/// points that the new script defines.
pub open spec fn after_compile<A, U>(s: ScriptManager<A, U>, outcome: CompileOutcome<A, U>) -> ScriptManager<A, U> {
    match outcome {
        CompileOutcome::Failed => s,
        CompileOutcome::Compiled { add, update } => ScriptManager { add, update, ..s },
    }
}

impl<A, U> ScriptManager<A, U> {
    /// A manager that has never seen the file: checked at the epoch, nothing
    /// reported, nothing bound, no costs measured.
    pub fn new() -> (m: Self)
        ensures
            m.last_compile == 0,
            !m.script_not_found_logged,
            m.update is None,
            m.add is None,
            m.update_micros == 0,
            m.add_micros == 0,
    {
        ScriptManager {
            last_compile: 0,
            script_not_found_logged: false,
            update: None,
            update_micros: 0,
            add: None,
            add_micros: 0,
        }
    }

    /// Takes in one look at the script file, made at time `now`, and says
    /// what to do about it.
    pub fn reload(&mut self, stat: FileStat, now: u64) -> (action: ReloadAction)
        ensures
            action == reload_action(old(self).last_compile, old(self).script_not_found_logged, stat),
            *final(self) == after_reload(*old(self), stat, now),
    {
        match stat {
            FileStat::Missing => {
                self.last_compile = now;
                if !self.script_not_found_logged {
                    self.script_not_found_logged = true;
                    ReloadAction::ReportMissing
                } else {
                    ReloadAction::Keep
                }
            },
            FileStat::Modified(modified) => {
                self.script_not_found_logged = false;
                if modified <= self.last_compile {
                    // Checked after it was last modified: up to date enough.
                    ReloadAction::Keep
                } else {
                    self.last_compile = now;
                    ReloadAction::Compile
                }
            },
        }
    }

    /// Takes in the outcome of a compilation that [`ScriptManager::reload`]
    /// asked for, and rebinds the entry points if it succeeded.
    pub fn apply_compile(&mut self, outcome: CompileOutcome<A, U>)
        ensures
            *final(self) == after_compile(*old(self), outcome),
    {
        match outcome {
            CompileOutcome::Failed => {},
            CompileOutcome::Compiled { add, update } => {
                self.add = add;
                self.update = update;
            },
        }
    }

    /// Stores the cost of this tick's `add` call. Without a bound `add` no
    /// call was made, and the previous measurement stays.
    pub fn record_add_cost(&mut self, micros: u64)
        ensures
            final(self).add_micros == (if old(self).add is Some { micros } else { old(self).add_micros }),
            *final(self) == (ScriptManager { add_micros: final(self).add_micros, ..*old(self) }),
    {
        if self.add.is_some() {
            self.add_micros = micros;
        }
    }

    /// Stores the cost of this tick's update phase. Without a bound `update`
    /// no call was made, and the previous measurement stays.
    pub fn record_update_cost(&mut self, micros: u64)
        ensures
            final(self).update_micros == (if old(self).update is Some { micros } else { old(self).update_micros }),
            *final(self) == (ScriptManager { update_micros: final(self).update_micros, ..*old(self) }),
    {
        if self.update.is_some() {
            self.update_micros = micros;
        }
    }
}


/// The state after running one look at the file (its stat and the time it
/// was taken), followed, if that look asked for it, by a compilation with the
/// given outcome.
pub open spec fn after_step<A, U>(s: ScriptManager<A, U>, step: (FileStat, u64, CompileOutcome<A, U>)) -> ScriptManager<A, U> {
    let r = after_reload(s, step.0, step.1);
    if reload_action(s.last_compile, s.script_not_found_logged, step.0) is Compile {
        after_compile(r, step.2)
    } else {
        r
    }
}

/// How many times the compiler runs over a sequence of looks at the file.
pub open spec fn compile_count<A, U>(s: ScriptManager<A, U>, steps: Seq<(FileStat, u64, CompileOutcome<A, U>)>) -> nat
    decreases steps.len(),
{
    if steps.len() == 0 {
        0
    } else {
        let here: nat = if reload_action(s.last_compile, s.script_not_found_logged, steps[0].0) is Compile {
            1
        } else {
            0
        };
        here + compile_count(after_step(s, steps[0]), steps.drop_first())
    }
}

/// How many looks in `steps` saw a modification time strictly above every
/// modification time seen before it (and above `highest`).
pub open spec fn new_high_count<A, U>(highest: int, steps: Seq<(FileStat, u64, CompileOutcome<A, U>)>) -> nat
    decreases steps.len(),
{
    if steps.len() == 0 {
        0
    } else {
        match steps[0].0 {
            FileStat::Modified(m) => if m > highest {
                1 + new_high_count(m as int, steps.drop_first())
            } else {
                new_high_count(highest, steps.drop_first())
            },
            FileStat::Missing => new_high_count(highest, steps.drop_first()),
        }
    }
}

/// The looks in `steps` come in time order, starting no earlier than the last
/// check of `s`, and none sees a modification time later than the moment it
/// was taken.
pub open spec fn ordered_looks<A, U>(s: ScriptManager<A, U>, steps: Seq<(FileStat, u64, CompileOutcome<A, U>)>) -> bool {
    &&& forall|i: int| 0 <= i < steps.len() ==> s.last_compile <= #[trigger] steps[i].1
    &&& forall|i: int, j: int| 0 <= i < j < steps.len() ==> #[trigger] steps[i].1 <= #[trigger] steps[j].1
    &&& forall|i: int| 0 <= i < steps.len() ==> match #[trigger] steps[i].0 {
        FileStat::Modified(m) => m <= steps[i].1,
        FileStat::Missing => true,
    }
}

/// Looking again at a file whose modification time has not changed neither
/// runs the compiler nor changes the state, whatever the first look led to,
/// provided the first look was taken no earlier than that modification.
pub proof fn lemma_unchanged_file_is_not_recompiled<A, U>(
    s: ScriptManager<A, U>,
    modified: u64,
    first: u64,
    outcome: CompileOutcome<A, U>,
    second: u64,
)
    requires
        modified <= first,
    ensures
        ({
            let s1 = after_step(s, (FileStat::Modified(modified), first, outcome));
            &&& reload_action(s1.last_compile, s1.script_not_found_logged, FileStat::Modified(modified)) == ReloadAction::Keep
            &&& after_reload(s1, FileStat::Modified(modified), second) == s1
        }),
{
}

proof fn lemma_compiles_only_on_new_highs<A, U>(
    s: ScriptManager<A, U>,
    highest: int,
    steps: Seq<(FileStat, u64, CompileOutcome<A, U>)>,
)
    requires
        highest <= s.last_compile,
        ordered_looks(s, steps),
    ensures
        compile_count(s, steps) <= new_high_count(highest, steps),
    decreases steps.len(),
{
    if steps.len() > 0 {
        let rest = steps.drop_first();
        let s1 = after_step(s, steps[0]);
        assert(ordered_looks(s1, rest)) by {
            assert forall|i: int| 0 <= i < rest.len() implies s1.last_compile <= #[trigger] rest[i].1 by {
                assert(rest[i] == steps[i + 1]);
                assert(steps[0].1 <= steps[i + 1].1);
            }
            assert forall|i: int, j: int| 0 <= i < j < rest.len() implies #[trigger] rest[i].1 <= #[trigger] rest[j].1 by {
                assert(rest[i] == steps[i + 1]);
                assert(rest[j] == steps[j + 1]);
            }
            assert forall|i: int| 0 <= i < rest.len() implies match #[trigger] rest[i].0 {
                FileStat::Modified(m) => m <= rest[i].1,
                FileStat::Missing => true,
            } by {
                assert(rest[i] == steps[i + 1]);
            }
        }
        match steps[0].0 {
            FileStat::Modified(m) => {
                if m > highest {
                    lemma_compiles_only_on_new_highs(s1, m as int, rest);
                } else {
                    lemma_compiles_only_on_new_highs(s1, highest, rest);
                }
            },
            FileStat::Missing => {
                lemma_compiles_only_on_new_highs(s1, highest, rest);
            },
        }
    }
}

/// Over any sequence of looks at the file, taken in time order with no
/// modification time from the future, the compiler runs at most as often as a
/// look sees a modification time strictly above all those seen before.
pub proof fn lemma_compile_count_bounded_by_new_mtimes<A, U>(
    s: ScriptManager<A, U>,
    steps: Seq<(FileStat, u64, CompileOutcome<A, U>)>,
)
    requires
        ordered_looks(s, steps),
    ensures
        compile_count(s, steps) <= new_high_count(-1, steps),
{
    lemma_compiles_only_on_new_highs(s, -1, steps);
}

/// A script that defines only `add` leaves `update` unbound, and one that
/// defines only `update` leaves `add` unbound, whatever was bound before.
pub proof fn lemma_entry_points_bound_independently<A, U>(s: ScriptManager<A, U>, add: A, update: U)
    ensures
        after_compile(s, CompileOutcome::Compiled { add: Some(add), update: None }).add == Some(add),
        after_compile(s, CompileOutcome::Compiled { add: Some(add), update: None }).update is None,
        after_compile(s, CompileOutcome::Compiled { add: None, update: Some(update) }).add is None,
        after_compile(s, CompileOutcome::Compiled { add: None, update: Some(update) }).update == Some(update),
{
}

} // verus!
