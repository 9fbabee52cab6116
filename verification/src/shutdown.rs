//! The shutdown coordinator: a registry of the child processes this host
//! owns, a once-set shutdown flag, and the termination plan that guarantees
//! every registered process one graceful and one forceful termination
//! attempt before the registry is cleared.

use vstd::prelude::*;
use crate::text::chars_to_string;
use crate::text::dec_str;
use crate::text::u64_to_chars;

verus! {

/// The platform whose process-control commands the termination plan uses.
#[derive(Clone, Copy)]
pub enum Platform {
    /// Terminate with `taskkill`, by process tree.
    Windows,
    /// Terminate with `kill`, first SIGTERM then SIGKILL.
    Unix,
}

/// The everything-but-execution of terminating one process: the command
/// lines to run and the pause between them. The caller runs `graceful`,
/// waits `grace_millis`, then runs `forceful`; a failure of either is logged
/// and otherwise ignored.
pub struct TerminationAttempt {
    pub pid: u32,
    pub graceful: Vec<String>,
    pub forceful: Vec<String>,
    pub grace_millis: u64,
}

/// The graceful termination command for `pid`.
pub open spec fn graceful_cmd_spec(platform: Platform, pid: u32) -> Seq<Seq<char>> {
    match platform {
        Platform::Windows => seq!["taskkill"@, "/PID"@, dec_str(pid as nat), "/T"@],
        Platform::Unix => seq!["kill"@, "-15"@, dec_str(pid as nat)],
    }
}

/// The forceful termination command for `pid`.
pub open spec fn forceful_cmd_spec(platform: Platform, pid: u32) -> Seq<Seq<char>> {
    match platform {
        Platform::Windows => seq!["taskkill"@, "/F"@, "/PID"@, dec_str(pid as nat), "/T"@],
        Platform::Unix => seq!["kill"@, "-9"@, dec_str(pid as nat)],
    }
}

/// `cmd` spells out exactly the words of `model`.
pub open spec fn cmd_matches(cmd: Seq<String>, model: Seq<Seq<char>>) -> bool {
    cmd.len() == model.len() && (forall|i: int| 0 <= i < cmd.len() ==> (#[trigger] cmd[i])@ == model[i])
}

/// `pid` written in decimal.
fn pid_string(pid: u32) -> (r: String)
    ensures
        r@ == dec_str(pid as nat),
{
    let v = u64_to_chars(pid as u64);
    chars_to_string(&v)
}

/// Copy a literal into an owned string.
fn word(s: &str) -> (r: String)
    ensures
        r@ == s@,
{
    let mut v: Vec<char> = Vec::new();
    crate::text::push_str_chars(&mut v, s);
    chars_to_string(&v)
}

/// Process-wide shutdown state: the set of registered child process
/// identifiers and the shutdown flag. The flag moves from unset to set
/// exactly once and never back.
pub struct ShutdownCoordinator {
    registry: Vec<u32>,
    shutdown: bool,
}

impl ShutdownCoordinator {
    /// The registered process identifiers, in registration order.
    pub closed spec fn registry_model(&self) -> Seq<u32> {
        self.registry@
    }

    /// Whether shutdown has been signalled.
    pub closed spec fn is_shutdown(&self) -> bool {
        self.shutdown
    }

    /// A coordinator in its initial state: nothing registered, not shutting
    /// down.
    pub fn new() -> (r: Self)
        ensures
            r.registry_model() == Seq::<u32>::empty(),
            !r.is_shutdown(),
    {
        ShutdownCoordinator { registry: Vec::new(), shutdown: false }
    }

    /// Register a child process for termination on shutdown.
    pub fn register_process(&mut self, pid: u32)
        ensures
            final(self).registry_model() == old(self).registry_model().push(pid),
            final(self).is_shutdown() == old(self).is_shutdown(),
    {
        self.registry.push(pid);
    }

    /// Signal the intent to terminate. Idempotent: the flag only ever moves
    /// to set.
    pub fn trigger_shutdown(&mut self)
        ensures
            final(self).is_shutdown(),
            final(self).registry_model() == old(self).registry_model(),
    {
        self.shutdown = true;
    }

    /// Whether shutdown has been signalled; the watcher polls this.
    pub fn is_shutting_down(&self) -> (r: bool)
        ensures
            r == self.is_shutdown(),
    {
        self.shutdown
    }

    /// Drain the registry into a termination plan: one attempt per
    /// registered process, in registration order, each with the platform's
    /// graceful and forceful command and a 100 ms grace period. The registry
    /// is empty afterwards, whatever becomes of the attempts.
    pub fn terminate_all(&mut self, platform: Platform) -> (plan: Vec<TerminationAttempt>)
        ensures
            plan@.len() == old(self).registry_model().len(),
            forall|i: int|
                0 <= i < plan@.len() ==> {
                    &&& (#[trigger] plan@[i]).pid == old(self).registry_model()[i]
                    &&& cmd_matches(plan@[i].graceful@, graceful_cmd_spec(platform, plan@[i].pid))
                    &&& cmd_matches(plan@[i].forceful@, forceful_cmd_spec(platform, plan@[i].pid))
                    &&& plan@[i].grace_millis == 100
                },
            final(self).registry_model() == Seq::<u32>::empty(),
            final(self).is_shutdown() == old(self).is_shutdown(),
    {
        let mut plan: Vec<TerminationAttempt> = Vec::new();
        let n: usize = self.registry.len();
        let mut i: usize = 0;
        while i < n
            invariant
                n == self.registry@.len(),
                self.registry@ == old(self).registry@,
                self.shutdown == old(self).shutdown,
                i <= n,
                plan@.len() == i,
                forall|j: int|
                    0 <= j < i ==> {
                        &&& (#[trigger] plan@[j]).pid == old(self).registry@[j]
                        &&& cmd_matches(
                            plan@[j].graceful@,
                            graceful_cmd_spec(platform, plan@[j].pid),
                        )
                        &&& cmd_matches(
                            plan@[j].forceful@,
                            forceful_cmd_spec(platform, plan@[j].pid),
                        )
                        &&& plan@[j].grace_millis == 100
                    },
            decreases n - i,
        {
            let pid = self.registry[i];
            let mut graceful: Vec<String> = Vec::new();
            let mut forceful: Vec<String> = Vec::new();
            match platform {
                Platform::Windows => {
                    graceful.push(word("taskkill"));
                    graceful.push(word("/PID"));
                    graceful.push(pid_string(pid));
                    graceful.push(word("/T"));
                    forceful.push(word("taskkill"));
                    forceful.push(word("/F"));
                    forceful.push(word("/PID"));
                    forceful.push(pid_string(pid));
                    forceful.push(word("/T"));
                },
                Platform::Unix => {
                    graceful.push(word("kill"));
                    graceful.push(word("-15"));
                    graceful.push(pid_string(pid));
                    forceful.push(word("kill"));
                    forceful.push(word("-9"));
                    forceful.push(pid_string(pid));
                },
            }
            assert(cmd_matches(graceful@, graceful_cmd_spec(platform, pid)));
            assert(cmd_matches(forceful@, forceful_cmd_spec(platform, pid)));
            plan.push(TerminationAttempt { pid, graceful, forceful, grace_millis: 100 });
            i = i + 1;
        }
        self.registry.clear();
        plan
    }
}

/// Shutdown is complete: a plan with one attempt per registered process, in
/// order, gives every registered process identifier at least one termination
/// attempt — whether or not any individual attempt later fails.
pub proof fn lemma_every_pid_attempted(pids: Seq<u32>, plan: Seq<TerminationAttempt>)
    requires
        plan.len() == pids.len(),
        forall|i: int| 0 <= i < plan.len() ==> (#[trigger] plan[i]).pid == pids[i],
    ensures
        forall|p: u32|
            pids.contains(p) ==> exists|i: int| 0 <= i < plan.len() && (#[trigger] plan[i]).pid == p,
{
    assert forall|p: u32| pids.contains(p) implies exists|i: int|
        0 <= i < plan.len() && (#[trigger] plan[i]).pid == p by {
        let j = choose|j: int| 0 <= j < pids.len() && pids[j] == p;
        assert(plan[j].pid == p);
    }
}

} // verus!
