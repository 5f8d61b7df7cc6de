//! The bookkeeping of running the commands of one hook: which command is
//! started next, and which result belongs to which command.

use crate::commando::{RunCommandOnFilesOutput, RunCommandOutput};
use vstd::prelude::*;

verus! {

/// What running one command gave: its output, or the error that kept it
/// from running.
pub type CommandResult = Result<RunCommandOutput, String>;

/// The number of commands among the first `n` whose result is missing.
pub open spec fn unrecorded(results: Seq<Option<CommandResult>>, n: int) -> nat
    decreases n,
{
    if n <= 0 {
        0
    } else {
        unrecorded(results, n - 1) + (if results[n - 1] is None {
            1nat
        } else {
            0nat
        })
    }
}

/// Where no result is missing among the first `n`, each of them is there.
proof fn lemma_all_recorded(results: Seq<Option<CommandResult>>, n: int)
    requires
        unrecorded(results, n) == 0,
    ensures
        forall|i: int| 0 <= i < n ==> (#[trigger] results[i]) is Some,
    decreases n,
{
    if n > 0 {
        lemma_all_recorded(results, n - 1);
    }
}

/// The count of missing results looks at the first `n` results only.
proof fn lemma_unrecorded_beyond(
    results: Seq<Option<CommandResult>>,
    n: int,
    at: int,
    value: Option<CommandResult>,
)
    requires
        n <= at < results.len(),
    ensures
        unrecorded(results.update(at, value), n) == unrecorded(results, n),
    decreases n,
{
    if n > 0 {
        lemma_unrecorded_beyond(results, n - 1, at, value);
    }
}

/// Recording a missing result makes one result fewer missing.
proof fn lemma_unrecorded_after_record(
    results: Seq<Option<CommandResult>>,
    n: int,
    at: int,
    value: CommandResult,
)
    requires
        0 <= at < n <= results.len(),
        results[at] is None,
    ensures
        unrecorded(results.update(at, Some(value)), n) + 1 == unrecorded(results, n),
    decreases n,
{
    if at == n - 1 {
        lemma_unrecorded_beyond(results, n - 1, at, Some(value));
    } else {
        lemma_unrecorded_after_record(results, n - 1, at, value);
    }
}

/// The commands of one hook while they are run. Commands are started in the
/// order of the list. A serial dispatcher has at most one command running;
/// another one lets any number run side by side. Each result is kept at the
/// position of its command, whenever it comes in.
#[derive(Debug)]
pub struct Dispatcher {
    commands: Vec<String>,
    serial: bool,
    started: usize,
    outstanding: usize,
    results: Vec<Option<CommandResult>>,
}

impl Dispatcher {
    #[verifier::type_invariant]
    spec fn well_formed(&self) -> bool {
        &&& self.results@.len() == self.commands@.len()
        &&& self.started <= self.commands@.len()
        &&& forall|i: int| self.started <= i < self.results@.len() ==> (#[trigger] self.results@[i]) is None
        &&& self.outstanding == unrecorded(self.results@, self.started as int)
        &&& self.serial ==> self.outstanding <= 1
    }

    /// The commands, in the order in which they are started.
    pub closed spec fn commands(&self) -> Seq<String> {
        self.commands@
    }

    /// Whether at most one command runs at a time.
    pub closed spec fn is_serial(&self) -> bool {
        self.serial
    }

    /// The number of commands that have been started: the commands at the
    /// positions below it.
    pub closed spec fn started(&self) -> nat {
        self.started as nat
    }

    /// The result of each command, as far as it has come in.
    pub closed spec fn results(&self) -> Seq<Option<CommandResult>> {
        self.results@
    }

    /// The number of commands that are running: started, and without a result.
    pub open spec fn running(&self) -> nat {
        unrecorded(self.results(), self.started() as int)
    }

    /// Whether the next command may be started now: there is one, and a
    /// serial dispatcher has none running.
    pub open spec fn may_start(&self) -> bool {
        self.started() < self.commands().len() && (self.is_serial() ==> self.running() == 0)
    }

    /// Whether every command has been started and has its result.
    pub open spec fn done(&self) -> bool {
        self.started() == self.commands().len() && self.running() == 0
    }

    /// A dispatcher for `commands`, none of which has been started.
    pub fn new(commands: Vec<String>, serial: bool) -> (d: Dispatcher)
        ensures
            d.commands() == commands@,
            d.is_serial() == serial,
            d.started() == 0,
            d.results().len() == commands@.len(),
            forall|i: int| 0 <= i < commands@.len() ==> (#[trigger] d.results()[i]) is None,
    {
        let mut results: Vec<Option<CommandResult>> = Vec::new();
        let mut i: usize = 0;
        while i < commands.len()
            invariant
                i <= commands.len(),
                results@.len() == i,
                forall|k: int| 0 <= k < i ==> (#[trigger] results@[k]) is None,
            decreases commands.len() - i,
        {
            results.push(None);
            i += 1;
        }
        Dispatcher { commands, serial, started: 0, outstanding: 0, results }
    }

    /// Starts the next command, if it may be started now: gives its
    /// position and its text. The positions come in ascending order, one
    /// after the other. A serial dispatcher gives a command only when every
    /// command before it has its result.
    pub fn start_next(&mut self) -> (r: Option<(usize, String)>)
        ensures
            final(self).commands() == old(self).commands(),
            final(self).is_serial() == old(self).is_serial(),
            final(self).results() == old(self).results(),
            match r {
                Some((index, command)) => {
                    &&& old(self).may_start()
                    &&& index == old(self).started()
                    &&& command == old(self).commands()[index as int]
                    &&& final(self).started() == old(self).started() + 1
                    &&& final(self).running() == old(self).running() + 1
                    &&& old(self).is_serial() ==> forall|i: int|
                        0 <= i < index ==> (#[trigger] old(self).results()[i]) is Some
                },
                None => {
                    &&& !old(self).may_start()
                    &&& final(self).started() == old(self).started()
                },
            },
    {
        proof {
            use_type_invariant(&*self);
        }
        if self.started >= self.commands.len() {
            return None;
        }
        if self.serial && self.outstanding > 0 {
            return None;
        }
        let index = self.started;
        let command = self.commands[index].clone();
        proof {
            assert(self.results@[index as int] is None);
            if self.serial {
                lemma_all_recorded(self.results@, index as int);
            }
            lemma_outstanding_bound(self.results@, index as int);
        }
        let mut taken = Dispatcher::new(Vec::new(), false);
        core::mem::swap(self, &mut taken);
        let Dispatcher { commands, serial, started, outstanding, results } = taken;
        *self = Dispatcher {
            commands,
            serial,
            started: started + 1,
            outstanding: outstanding + 1,
            results,
        };
        Some((index, command))
    }

    /// Keeps the result of the command at `index`. Only the result of a
    /// command that was started and has no result yet is taken; any other is
    /// refused, and nothing changes.
    pub fn record(&mut self, index: usize, result: CommandResult) -> (accepted: bool)
        ensures
            final(self).commands() == old(self).commands(),
            final(self).is_serial() == old(self).is_serial(),
            final(self).started() == old(self).started(),
            accepted == (index < old(self).started() && old(self).results()[index as int] is None),
            final(self).results() == (if accepted {
                old(self).results().update(index as int, Some(result))
            } else {
                old(self).results()
            }),
            accepted ==> final(self).running() + 1 == old(self).running(),
    {
        proof {
            use_type_invariant(&*self);
        }
        if index >= self.started {
            return false;
        }
        if self.results[index].is_some() {
            return false;
        }
        proof {
            lemma_unrecorded_after_record(self.results@, self.started as int, index as int, result);
        }
        let mut taken = Dispatcher::new(Vec::new(), false);
        core::mem::swap(self, &mut taken);
        let Dispatcher { commands, serial, started, outstanding, results } = taken;
        let mut results = results;
        results.set(index, Some(result));
        *self = Dispatcher { commands, serial, started, outstanding: outstanding - 1, results };
        true
    }

    /// Whether every command has been started and has its result.
    pub fn is_done(&self) -> (r: bool)
        ensures
            r == self.done(),
    {
        proof {
            use_type_invariant(self);
        }
        self.started == self.commands.len() && self.outstanding == 0
    }

    /// The results of all commands, in the order of the commands, whatever
    /// the order in which they came in. `None` while a command has not been
    /// started or has no result yet.
    pub fn into_output(self) -> (r: Option<RunCommandOnFilesOutput>)
        ensures
            r is Some == self.done(),
            r matches Some(output) ==> output.results@.len() == self.commands().len() && forall|
                i: int,
            |
                0 <= i < self.commands().len() ==> self.results()[i] == Some(
                    #[trigger] output.results@[i],
                ),
    {
        proof {
            use_type_invariant(&self);
        }
        if !self.is_done() {
            return None;
        }
        proof {
            lemma_all_recorded(self.results@, self.started as int);
        }
        let ghost all = self.results@;
        let mut rest = self.results;
        let mut results: Vec<CommandResult> = Vec::new();
        assert(all.skip(0) =~= all);
        while rest.len() > 0
            invariant
                results@.len() + rest@.len() == all.len(),
                rest@ == all.skip(results@.len() as int),
                forall|i: int| 0 <= i < all.len() ==> (#[trigger] all[i]) is Some,
                forall|i: int| 0 <= i < results@.len() ==> all[i] == Some(#[trigger] results@[i]),
            decreases rest.len(),
        {
            let ghost at = results@.len() as int;
            let first = rest.remove(0);
            assert(first == all[at]);
            assert(all[at] is Some);
            match first {
                Some(result) => {
                    results.push(result);
                },
                None => {},
            }
            assert(rest@ =~= all.skip(at + 1));
        }
        Some(RunCommandOnFilesOutput { results })
    }
}

/// No more results are missing among the first `n` than there are.
proof fn lemma_outstanding_bound(results: Seq<Option<CommandResult>>, n: int)
    requires
        0 <= n,
    ensures
        unrecorded(results, n) <= n,
    decreases n,
{
    if n > 0 {
        lemma_outstanding_bound(results, n - 1);
    }
}

} // verus!
