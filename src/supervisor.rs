//! Supervision of a run: the sequential test pass, and the first-exit-wins
//! policy over concurrently running listeners.

use vstd::prelude::*;
use crate::config::Binding;
use crate::gateway::DispatchOutcome;
use crate::listener::ListenerError;
use crate::metadata::{ContentFormat, Envelope};

verus! {

/// Why a run ended in error.
#[derive(Clone, Debug)]
pub enum RunError {
    /// A handler failed during the test pass.
    Invocation { component: String, reason: String },
    /// The first listener to stop stopped with an error.
    Listener { component: String, topic: String, error: ListenerError },
}

/// What the test pass asks for next.
#[derive(Debug)]
pub enum TestAction {
    /// Invoke `component` once with `envelope`, without any broker.
    Invoke { component: String, envelope: Envelope },
    /// The pass is over, with this result.
    Finish(Result<(), RunError>),
}

/// The test pass: every bound component is invoked once, in order, with the
/// synthetic envelope; the first failure ends the pass.
pub struct TestRun {
    pub components: Vec<String>,
    /// How many components have been invoked with success.
    pub done: usize,
    /// The reason of the failure that ended the pass.
    pub failure: Option<String>,
}

impl TestRun {
    pub open spec fn finished(&self) -> bool {
        self.failure is Some || self.done >= self.components.len()
    }

    pub open spec fn wf(&self) -> bool {
        self.done <= self.components.len() && (self.failure is Some ==> self.done < self.components.len())
    }

    /// A pass over the components of the bindings, in order.
    pub fn new(bindings: &Vec<Binding>) -> (r: TestRun)
        ensures
            r.wf(),
            r.done == 0,
            r.failure is None,
            r.components.len() == bindings.len(),
            forall|i: int| 0 <= i < bindings.len() ==> (#[trigger] r.components[i])@ == bindings[i].component@,
    {
        let mut components: Vec<String> = Vec::new();
        let mut i: usize = 0;
        while i < bindings.len()
            invariant
                i <= bindings.len(),
                components.len() == i,
                forall|j: int| 0 <= j < i ==> (#[trigger] components[j])@ == bindings[j].component@,
            decreases bindings.len() - i,
        {
            components.push(bindings[i].component.clone());
            i = i + 1;
        }
        TestRun { components, done: 0, failure: None }
    }

    /// The next action: the next component's invocation, or the end of the pass.
    pub fn next_action(&self) -> (r: TestAction)
        requires
            self.wf(),
        ensures
            !self.finished() ==> (r matches TestAction::Invoke { component, envelope } && {
                &&& component@ == self.components[self.done as int]@
                &&& envelope.payload@ == seq![104u8, 101u8, 108u8, 108u8, 111u8]
                &&& envelope.format == ContentFormat::Amqp
                &&& envelope.metadata is None
            }),
            self.failure matches Some(reason) ==> (r matches TestAction::Finish(Err(RunError::Invocation { component, reason: why }))
                && component@ == self.components[self.done as int]@ && why@ == reason@),
            self.failure is None && self.done >= self.components.len() ==> r matches TestAction::Finish(Ok(())),
    {
        match &self.failure {
            Some(reason) => TestAction::Finish(Err(RunError::Invocation {
                component: self.components[self.done].clone(),
                reason: reason.clone(),
            })),
            None => {
                if self.done < self.components.len() {
                    TestAction::Invoke { component: self.components[self.done].clone(), envelope: Envelope::synthetic() }
                } else {
                    TestAction::Finish(Ok(()))
                }
            },
        }
    }

    /// Takes in the outcome of the invocation that `next_action` asked for.
    pub fn record(&mut self, o: DispatchOutcome)
        requires
            old(self).wf(),
            !old(self).finished(),
        ensures
            final(self).wf(),
            final(self).components == old(self).components,
            o matches DispatchOutcome::Success ==> final(self).done == old(self).done + 1 && final(self).failure is None,
            o matches DispatchOutcome::Failure(m) ==> final(self).done == old(self).done && final(self).failure == Some(m),
    {
        match o {
            DispatchOutcome::Success => {
                self.done = self.done + 1;
            },
            DispatchOutcome::Failure(m) => {
                self.failure = Some(m);
            },
        }
    }
}

/// The live run: the first listener to stop decides the result; what the others
/// do afterwards is neither awaited nor reported.
pub struct Supervision {
    pub bindings: Vec<Binding>,
    /// The position and result of the first listener that stopped.
    pub first_exit: Option<(usize, Result<(), ListenerError>)>,
}

/// The run result that a listener's exit stands for.
pub open spec fn exit_result(bindings: Seq<Binding>, i: usize, r: Result<(), ListenerError>) -> Result<(), (Seq<char>, Seq<char>, ListenerError)> {
    match r {
        Ok(()) => Ok(()),
        Err(e) => Err((bindings[i as int].component@, bindings[i as int].topic@, e)),
    }
}

pub open spec fn run_result_view(r: Result<(), RunError>) -> Option<Result<(), (Seq<char>, Seq<char>, ListenerError)>> {
    match r {
        Ok(()) => Some(Ok(())),
        Err(RunError::Listener { component, topic, error }) => Some(Err((component@, topic@, error))),
        Err(_) => None,
    }
}

impl Supervision {
    pub fn new(bindings: Vec<Binding>) -> (r: Supervision)
        ensures
            r.bindings == bindings,
            r.first_exit is None,
    {
        Supervision { bindings, first_exit: None }
    }

    /// Records that the listener at `index` stopped; returns whether this exit
    /// decides the run, which only the first one does.
    pub fn record_exit(&mut self, index: usize, result: Result<(), ListenerError>) -> (decides: bool)
        ensures
            final(self).bindings == old(self).bindings,
            decides == old(self).first_exit is None,
            old(self).first_exit is None ==> final(self).first_exit == Some((index, result)),
            old(self).first_exit is Some ==> final(self).first_exit == old(self).first_exit,
    {
        if self.first_exit.is_none() {
            self.first_exit = Some((index, result));
            true
        } else {
            false
        }
    }

    /// The result of the run, once a listener has stopped.
    pub fn outcome(&self) -> (r: Option<Result<(), RunError>>)
        requires
            self.first_exit matches Some((i, _)) ==> i < self.bindings.len(),
        ensures
            self.first_exit is None ==> r is None,
            self.first_exit matches Some((i, res)) ==> (r matches Some(out)
                && run_result_view(out) == Some(exit_result(self.bindings@, i, res))),
    {
        match &self.first_exit {
            None => None,
            Some((i, Ok(()))) => Some(Ok(())),
            Some((i, Err(e))) => Some(Err(RunError::Listener {
                component: self.bindings[*i].component.clone(),
                topic: self.bindings[*i].topic.clone(),
                error: e.duplicate(),
            })),
        }
    }
}

/// The process exit status of a run's result: zero for success, one otherwise.
pub fn exit_code(r: &Result<(), RunError>) -> (c: i32)
    ensures
        c == (if r is Ok { 0i32 } else { 1i32 }),
{
    match r {
        Ok(()) => 0,
        Err(_) => 1,
    }
}

} // verus!
