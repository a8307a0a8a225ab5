use crate::error::FloScriptResult;
use crate::namespace::{check_output_type, output_matches, ScriptOutputType};
use crate::script_type::ScriptTypeDescription;
use crate::stream_core::StreamPoll;
use vstd::prelude::*;

verus! {

/// What polling the running evaluation of a script gave
pub enum EvaluationPoll<T> {
    /// The value the script computed
    Ready(T),
    /// The evaluation is still waiting
    NotReady,
    /// The evaluation failed
    Failed,
}

/// The state of a computing script
#[derive(Clone, Copy, PartialEq, Eq, Debug, Structural)]
pub enum ComputingScriptState {
    /// No evaluation is running: the next poll starts one
    Idle,
    /// Script is running and will produce a result
    GeneratingResult,
    /// Script has completed and no longer depends on anything from the namespace
    Finished,
}

/// What the owner of a computing script must do when its stream is polled
#[derive(Clone, Copy, PartialEq, Eq, Debug, Structural)]
pub enum ComputingAction {
    /// Start a new evaluation of the script, then poll it
    StartEvaluation,
    /// Poll the evaluation that is running
    PollEvaluation,
    /// Report the end of the stream
    EndOfStream,
}

/// The decisions of a stream that pulls results from a computing script
///
/// A script that computes a plain value produces it once and ends. A script that computes
/// a derived state is evaluated again after each value, so that it produces a new value
/// whenever one of the states it read changes.
pub struct ComputingScriptStream {
    /// The current state of the computing script
    state: ComputingScriptState,
    /// True if the script computes a derived state
    reactive: bool,
}

impl ComputingScriptStream {
    /// The current state of the script
    pub closed spec fn current(self) -> ComputingScriptState {
        self.state
    }

    /// True if the script is evaluated again after each value
    pub closed spec fn is_reactive(self) -> bool {
        self.reactive
    }

    /// Creates the stream for a compiled script of type `output`, read as `wanted` values
    ///
    /// Fails with `IncorrectType` unless the script computes a `wanted` value or a derived
    /// state of one.
    pub fn new(output: ScriptOutputType, wanted: ScriptTypeDescription) -> (r: FloScriptResult<
        ComputingScriptStream,
    >)
        ensures
            r is Ok <==> output_matches(output, wanted),
            r is Err ==> r->Err_0 is IncorrectType,
            r is Ok ==> r->Ok_0.current() == ComputingScriptState::Idle && r->Ok_0.is_reactive()
                == (output is DerivedState),
    {
        match check_output_type(output, wanted) {
            Err(e) => Err(e),
            Ok(()) => {
                let reactive = match output {
                    ScriptOutputType::DerivedState(_) => true,
                    _ => false,
                };
                Ok(ComputingScriptStream { state: ComputingScriptState::Idle, reactive })
            },
        }
    }

    /// The current state of the script
    pub fn state(&self) -> (r: ComputingScriptState)
        ensures
            r == self.current(),
    {
        self.state
    }

    /// What to do when the stream is polled
    pub fn next_action(&self) -> (r: ComputingAction)
        ensures
            r == match self.current() {
                ComputingScriptState::Idle => ComputingAction::StartEvaluation,
                ComputingScriptState::GeneratingResult => ComputingAction::PollEvaluation,
                ComputingScriptState::Finished => ComputingAction::EndOfStream,
            },
    {
        match self.state {
            ComputingScriptState::Idle => ComputingAction::StartEvaluation,
            ComputingScriptState::GeneratingResult => ComputingAction::PollEvaluation,
            ComputingScriptState::Finished => ComputingAction::EndOfStream,
        }
    }

    /// Records that a new evaluation has been started
    pub fn evaluation_started(&mut self)
        requires
            old(self).current() == ComputingScriptState::Idle,
        ensures
            final(self).current() == ComputingScriptState::GeneratingResult,
            final(self).is_reactive() == old(self).is_reactive(),
    {
        self.state = ComputingScriptState::GeneratingResult;
    }

    /// Takes in what polling the running evaluation gave, and says what the stream yields
    ///
    /// A value is yielded; after it a plain script finishes and a reactive one goes back
    /// to idle, to be evaluated again. A failure ends the script.
    pub fn poll_for_simple_result<T>(&mut self, result: EvaluationPoll<T>) -> (r: StreamPoll<T>)
        requires
            old(self).current() == ComputingScriptState::GeneratingResult,
        ensures
            final(self).is_reactive() == old(self).is_reactive(),
            match result {
                EvaluationPoll::Ready(v) => r == StreamPoll::Ready(Some(v)) && final(self).current()
                    == if old(self).is_reactive() {
                    ComputingScriptState::Idle
                } else {
                    ComputingScriptState::Finished
                },
                EvaluationPoll::NotReady => r is NotReady && final(self).current()
                    == ComputingScriptState::GeneratingResult,
                EvaluationPoll::Failed => r is Failed && final(self).current()
                    == ComputingScriptState::Finished,
            },
    {
        match result {
            EvaluationPoll::Ready(value) => {
                self.state =
                    if self.reactive {
                        ComputingScriptState::Idle
                    } else {
                        ComputingScriptState::Finished
                    };
                StreamPoll::Ready(Some(value))
            },
            EvaluationPoll::NotReady => StreamPoll::NotReady,
            EvaluationPoll::Failed => {
                self.state = ComputingScriptState::Finished;
                StreamPoll::Failed
            },
        }
    }
}

} // verus!
