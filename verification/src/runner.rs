//! Differential runner: feeds each command to the reference model, holds the
//! remote's decoded outcome against it, and says whether the run goes on.

use vstd::prelude::*;

use crate::codec::Response;
use crate::simulator::Command;
use crate::simulator::Error;
use crate::simulator::Simulator;
use crate::simulator::spec_memory_after;
use crate::simulator::spec_outcome;

verus! {

/// The comparison policy's verdict on one command.
#[derive(Clone, Copy, Debug, PartialEq, Eq, Structural)]
pub enum Verdict {
    /// Local and remote agree; the run goes on.
    Match,
    /// Local and remote disagree; the run halts with a divergence report.
    Divergence,
    /// The transport failed; the run halts, but this is no divergence.
    CommunicationFailure,
}

/// The comparison policy. A missing remote outcome (the transport failed
/// before a full response frame arrived) is a communication failure whatever
/// the local outcome; a local `Ok(v)` matches a remote `Success(v)`; every
/// other pairing is a divergence.
pub open spec fn spec_verdict(local: Result<u8, Error>, remote: Option<Response>) -> Verdict {
    match remote {
        None => Verdict::CommunicationFailure,
        Some(response) => match (local, response) {
            (Ok(left), Response::Success(right)) => if left == right {
                Verdict::Match
            } else {
                Verdict::Divergence
            },
            _ => Verdict::Divergence,
        },
    }
}

/// Apply the comparison policy to one local outcome and one remote outcome,
/// the latter `None` where the transport failed.
pub fn compare(local: &Result<u8, Error>, remote: &Option<Response>) -> (v: Verdict)
    ensures
        v == spec_verdict(*local, *remote),
{
    match remote {
        None => Verdict::CommunicationFailure,
        Some(response) => match (local, response) {
            (Ok(left), Response::Success(right)) => if left == right {
                Verdict::Match
            } else {
                Verdict::Divergence
            },
            _ => Verdict::Divergence,
        },
    }
}

/// One differential run: the reference model, the append-only trace of every
/// generated command, and the count of commands matched so far.
pub struct Runner {
    simulator: Simulator,
    trace: Vec<Command>,
    matched: usize,
}

impl Runner {
    /// The reference model's memory.
    pub closed spec fn memory(&self) -> Seq<u8> {
        self.simulator@
    }

    /// Every command fed to the run so far, in order.
    pub closed spec fn commands(&self) -> Seq<Command> {
        self.trace@
    }

    /// How many commands matched so far.
    pub closed spec fn matched_count(&self) -> nat {
        self.matched as nat
    }

    /// No more commands matched than were fed in; holds of every `Runner`.
    #[verifier::type_invariant]
    spec fn wf(&self) -> bool {
        self.matched <= self.trace@.len()
    }

    /// Start a run: fresh reference model, empty trace, nothing matched.
    pub fn new() -> (r: Self)
        ensures
            r.memory() == seq![0u8, 0u8, 0u8, 0u8],
            r.commands() == Seq::<Command>::empty(),
            r.matched_count() == 0,
    {
        let r = Runner { simulator: Simulator::new(), trace: Vec::new(), matched: 0 };
        proof {
            assert(r.commands() =~= Seq::<Command>::empty());
        }
        r
    }

    /// One iteration of the differential loop: append the command to the
    /// trace, execute it on the reference model, and judge the remote's
    /// outcome (`None` where the transport failed) against the local one.
    /// Returns the verdict and, for reporting, the local outcome verbatim.
    /// `Match` means the run goes on; anything else halts it.
    pub fn step(&mut self, command: Command, remote: Option<Response>) -> (r: (
        Verdict,
        Result<u8, Error>,
    ))
        ensures
            r.0 == spec_verdict(spec_outcome(old(self).memory(), command), remote),
            r.1 == spec_outcome(old(self).memory(), command),
            final(self).memory() == spec_memory_after(old(self).memory(), command),
            final(self).commands() == old(self).commands().push(command),
            final(self).matched_count() == old(self).matched_count() + (
            if r.0 == Verdict::Match {
                1int
            } else {
                0int
            }),
    {
        proof {
            use_type_invariant(&*self);
        }
        let local = self.simulator.execute_command(&command);
        // The invariant must hold at every point, and `push` may unwind: park
        // the counter at zero, grow the trace outside `self`, and put both
        // back. The new length, an exec value, bounds the increment.
        let m: usize = self.matched;
        self.matched = 0;
        let mut grown: Vec<Command> = Vec::new();
        core::mem::swap(&mut self.trace, &mut grown);
        grown.push(command);
        let _grown_len: usize = grown.len();
        core::mem::swap(&mut self.trace, &mut grown);
        let verdict = compare(&local, &remote);
        self.matched = if verdict == Verdict::Match {
            m + 1
        } else {
            m
        };
        (verdict, local)
    }

    /// The count of commands that matched before the run halted.
    pub fn matched(&self) -> (n: usize)
        ensures
            n == self.matched_count(),
    {
        self.matched
    }

    /// The complete ordered trace, for reproduction of a halt.
    pub fn trace(&self) -> (t: &Vec<Command>)
        ensures
            t@ == self.commands(),
    {
        &self.trace
    }
}

} // verus!
