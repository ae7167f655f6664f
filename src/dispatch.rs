//! One strategy invocation: `Pending -> Running -> Completed | Failed`, with
//! its terminal value handed to the completion handle exactly once.
use vstd::prelude::*;

verus! {

/// Prefix that marks a completion string as a failure rather than a URL.
pub const FAILURE_MARKER: &'static str = "error";

/// Message used when a script fails without saying why.
pub const UNKNOWN_FAILURE: &'static str = "script failed";

/// The terminal value of an invocation.
#[derive(Debug, Clone, PartialEq, Eq)]
pub enum Outcome {
    /// The entry point returned this launch URL.
    Completed(String),
    /// The invocation failed; the message is never empty.
    Failed(String),
}

/// The state of one invocation.
#[derive(Debug, Clone, PartialEq, Eq)]
pub enum InvocationState {
    Pending,
    Running,
    Done(Outcome),
}

/// `r` is what `result` normalises to: a returned URL completes the
/// invocation with that URL; an error fails it with its message, or with
/// the generic message where the error said nothing.
pub open spec fn is_outcome_of(result: Result<String, String>, r: Outcome) -> bool {
    match result {
        Ok(url) => r == Outcome::Completed(url),
        Err(m) => match r {
            Outcome::Failed(f) => f@.len() > 0 && (m@.len() > 0 ==> f@ == m@) && (m@.len() == 0 ==> f@ == UNKNOWN_FAILURE@),
            Outcome::Completed(_) => false,
        },
    }
}

/// Normalises what running a script produced: a returned string completes
/// the invocation, any error fails it with a non-empty message.
pub fn outcome_of(result: Result<String, String>) -> (r: Outcome)
    ensures
        is_outcome_of(result, r),
{
    match result {
        Ok(url) => Outcome::Completed(url),
        Err(m) => {
            if m.as_str().unicode_len() > 0 {
                Outcome::Failed(m)
            } else {
                proof {
                    reveal_strlit("script failed");
                }
                Outcome::Failed(UNKNOWN_FAILURE.to_owned())
            }
        },
    }
}

/// The single string that the completion handle receives: the URL itself,
/// or the failure marker followed by the message.
pub fn completion_string(outcome: &Outcome) -> (r: String)
    ensures
        match outcome {
            Outcome::Completed(url) => r@ == url@,
            Outcome::Failed(m) => r@ == FAILURE_MARKER@ + m@,
        },
{
    match outcome {
        Outcome::Completed(url) => url.clone(),
        Outcome::Failed(m) => String::from_str(FAILURE_MARKER).concat(m.as_str()),
    }
}

/// One invocation, tracking whether its terminal value was handed over.
pub struct Invocation {
    state: InvocationState,
    delivered: bool,
}

impl Invocation {
    /// Where the invocation stands.
    pub closed spec fn spec_state(&self) -> InvocationState {
        self.state
    }

    /// Whether the terminal value was handed over.
    pub closed spec fn spec_delivered(&self) -> bool {
        self.delivered
    }

    /// Where the invocation stands.
    pub fn state(&self) -> (r: &InvocationState)
        ensures
            *r == self.spec_state(),
    {
        &self.state
    }

    /// Whether the terminal value was handed over.
    pub fn is_delivered(&self) -> (r: bool)
        ensures
            r == self.spec_delivered(),
    {
        self.delivered
    }

    /// A fresh invocation, not yet handed to a worker.
    pub fn new() -> (r: Invocation)
        ensures
            r.spec_state() == InvocationState::Pending,
            !r.spec_delivered(),
    {
        Invocation { state: InvocationState::Pending, delivered: false }
    }

    /// The worker took the script: `Pending -> Running`. Any other state is
    /// left unchanged.
    pub fn start(&mut self)
        ensures
            final(self).spec_delivered() == old(self).spec_delivered(),
            old(self).spec_state() == InvocationState::Pending ==> final(self).spec_state() == InvocationState::Running,
            old(self).spec_state() != InvocationState::Pending ==> final(self).spec_state() == old(self).spec_state(),
    {
        if let InvocationState::Pending = self.state {
            self.state = InvocationState::Running;
        }
    }

    /// The entry point returned or failed: `Running -> Done`. Any other
    /// state is left unchanged, so a terminal value is never replaced.
    pub fn finish(&mut self, result: Result<String, String>)
        ensures
            final(self).spec_delivered() == old(self).spec_delivered(),
            old(self).spec_state() == InvocationState::Running ==> final(self).spec_state() is Done && is_outcome_of(result, final(self).spec_state()->Done_0),
            old(self).spec_state() != InvocationState::Running ==> final(self).spec_state() == old(self).spec_state(),
    {
        if let InvocationState::Running = self.state {
            let o = outcome_of(result);
            self.state = InvocationState::Done(o);
        }
    }

    /// Hands over the completion string: the first call after the
    /// invocation is done returns it, every other call returns `None`.
    pub fn deliver(&mut self) -> (r: Option<String>)
        ensures
            final(self).spec_state() == old(self).spec_state(),
            final(self).spec_delivered() == (old(self).spec_delivered() || old(self).spec_state() is Done),
            match old(self).spec_state() {
                InvocationState::Done(o) => !old(self).spec_delivered() ==> r is Some && r->Some_0@ == completion_view(o),
                _ => r is None,
            },
            old(self).spec_delivered() ==> r is None,
    {
        if self.delivered {
            return None;
        }
        match &self.state {
            InvocationState::Done(o) => {
                let s = completion_string(o);
                self.delivered = true;
                Some(s)
            },
            _ => None,
        }
    }
}

/// The completion string of an outcome, as a sequence of characters.
pub open spec fn completion_view(o: Outcome) -> Seq<char> {
    match o {
        Outcome::Completed(url) => url@,
        Outcome::Failed(m) => FAILURE_MARKER@ + m@,
    }
}

} // verus!
