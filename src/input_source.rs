use crate::error::{FloScriptError, FloScriptResult};
use crate::script_type::{ScriptTypeDescription, ScriptValue};
use crate::stream_core::{index_of, InputStreamCore, StreamPoll, Upstream, UpstreamPoll};
use vstd::prelude::*;

verus! {

/// An input stream for a script, accepting values of one declared type
///
/// Every reader and upstream is checked against the declared type when it is attached;
/// after that all reads go straight to the core.
pub struct InputStreamSource<S, W> {
    /// The type of symbol that this input stream should return
    input_symbol_type: ScriptTypeDescription,
    /// The stream core shared by every reader of this input
    stream_core: InputStreamCore<ScriptValue, S, W>,
}

impl<S, W> InputStreamSource<S, W> {
    #[verifier::type_invariant]
    spec fn core_is_wf(self) -> bool {
        self.stream_core.wf()
    }

    /// The type of value this source accepts
    pub closed spec fn symbol_type(self) -> ScriptTypeDescription {
        self.input_symbol_type
    }

    /// The core that distributes this source's values
    pub closed spec fn stream(self) -> InputStreamCore<ScriptValue, S, W> {
        self.stream_core
    }

    /// No upstream, no reader, and nothing read yet
    pub open spec fn is_fresh(self) -> bool {
        &&& self.stream().source() is None
        &&& self.stream().last_symbol() is None
        &&& !self.stream().finished()
        &&& self.stream().history_ids().len() == 0
        &&& self.stream().state_ids().len() == 0
        &&& self.stream().next_id() == 0
    }

}

impl<S: Upstream<ScriptValue>, W> InputStreamSource<S, W> {
    /// Creates a new input stream that will accept symbols of the specified type
    pub fn new(input_symbol_type: ScriptTypeDescription) -> (r: InputStreamSource<S, W>)
        ensures
            r.symbol_type() == input_symbol_type,
            r.is_fresh(),
    {
        InputStreamSource { input_symbol_type, stream_core: InputStreamCore::new() }
    }

    /// The type of value this source accepts
    pub fn script_type(&self) -> (r: ScriptTypeDescription)
        ensures
            r == self.symbol_type(),
    {
        self.input_symbol_type
    }

    /// Moves the core out, leaving an empty one in its place
    fn take_core(&mut self) -> (core: InputStreamCore<ScriptValue, S, W>)
        ensures
            core == old(self).stream(),
            core.wf(),
            final(self).symbol_type() == old(self).symbol_type(),
    {
        proof {
            use_type_invariant(&*self);
        }
        let mut core = InputStreamCore::new();
        std::mem::swap(&mut core, &mut self.stream_core);
        core
    }

    /// Puts a core back
    fn put_core(&mut self, core: InputStreamCore<ScriptValue, S, W>)
        requires
            core.wf(),
        ensures
            final(self).stream() == core,
            final(self).symbol_type() == old(self).symbol_type(),
    {
        let mut core = core;
        std::mem::swap(&mut core, &mut self.stream_core);
    }

    /// Sets the stream that's attached to this script input
    ///
    /// The stream must produce values of the declared type. Returns the wakers of the
    /// readers that should poll the new stream.
    pub fn attach(&mut self, stream_type: ScriptTypeDescription, input_stream: S) -> (r:
        FloScriptResult<Vec<W>>)
        ensures
            final(self).symbol_type() == old(self).symbol_type(),
            stream_type != old(self).symbol_type() ==> r == Err::<Vec<W>, _>(
                FloScriptError::IncorrectType,
            ) && final(self).stream() == old(self).stream(),
            stream_type == old(self).symbol_type() ==> final(self).stream().next_id() == old(self).stream().next_id()
                && final(self).stream().last_symbol() == old(self).stream().last_symbol(),
            stream_type == old(self).symbol_type() ==> r is Ok && final(self).stream().source()
                == Some(input_stream) && !final(self).stream().finished() && final(self).stream().buffers() == old(self).stream().buffers() && final(self).stream().currents()
                == old(self).stream().currents() && final(self).stream().history_ids() == old(self).stream().history_ids() && final(self).stream().state_ids() == old(self).stream().state_ids(),
    {
        // Make sure we don't try to attach a stream of the wrong type
        if stream_type != self.input_symbol_type {
            return Err(FloScriptError::IncorrectType);
        }
        let mut core = self.take_core();
        let to_wake = core.replace_stream(input_stream);
        self.put_core(core);
        Ok(to_wake)
    }

    /// Creates a new history reader for this input source, returning its ID
    ///
    /// The reader starts with the items the fullest existing reader still has waiting.
    pub fn read_as_stream(&mut self, symbol_type: ScriptTypeDescription) -> (r: FloScriptResult<
        usize,
    >)
        ensures
            final(self).stream().source() == old(self).stream().source(),
            final(self).symbol_type() == old(self).symbol_type(),
            symbol_type != old(self).symbol_type() ==> r == Err::<usize, _>(
                FloScriptError::IncorrectType,
            ) && final(self).stream() == old(self).stream(),
            symbol_type == old(self).symbol_type() && old(self).stream().next_id() < usize::MAX
                ==> r == Ok::<_, FloScriptError>(old(self).stream().next_id()) && final(self).stream().history_ids() == old(self).stream().history_ids().push(r->Ok_0),
            symbol_type == old(self).symbol_type() && old(self).stream().next_id() == usize::MAX
                ==> r is Err && r->Err_0 is Unavailable,
    {
        if symbol_type != self.input_symbol_type {
            return Err(FloScriptError::IncorrectType);
        }
        let mut core = self.take_core();
        if core.next_reader_id() == usize::MAX {
            self.put_core(core);
            return Err(FloScriptError::Unavailable("no more reader IDs".to_string()));
        }
        let id = core.allocate_stream();
        self.put_core(core);
        Ok(id)
    }

    /// Creates a new state reader for this input source, returning its ID
    ///
    /// The reader starts with the most recent value read, if there is one.
    pub fn read_as_state_stream(&mut self, symbol_type: ScriptTypeDescription) -> (r:
        FloScriptResult<usize>)
        ensures
            final(self).symbol_type() == old(self).symbol_type(),
            symbol_type != old(self).symbol_type() ==> r == Err::<usize, _>(
                FloScriptError::IncorrectType,
            ) && final(self).stream() == old(self).stream(),
            symbol_type == old(self).symbol_type() && old(self).stream().next_id() < usize::MAX
                ==> r == Ok::<_, FloScriptError>(old(self).stream().next_id()) && final(self).stream().state_ids() == old(self).stream().state_ids().push(r->Ok_0) && final(self).stream().currents() == old(self).stream().currents().push(
                old(self).stream().last_symbol(),
            ),
            final(self).stream().source() == old(self).stream().source(),
            symbol_type == old(self).symbol_type() && old(self).stream().next_id() == usize::MAX
                ==> r is Err && r->Err_0 is Unavailable,
    {
        if symbol_type != self.input_symbol_type {
            return Err(FloScriptError::IncorrectType);
        }
        let mut core = self.take_core();
        if core.next_reader_id() == usize::MAX {
            self.put_core(core);
            return Err(FloScriptError::Unavailable("no more reader IDs".to_string()));
        }
        let id = core.allocate_new_state_stream();
        self.put_core(core);
        Ok(id)
    }

    /// Polls the history reader `stream_id`; see `InputStreamCore::poll_stream`
    pub fn poll_stream(&mut self, stream_id: usize, poll_task: W) -> (r: (
        StreamPoll<ScriptValue>,
        Vec<W>,
    ))
        ensures
            final(self).symbol_type() == old(self).symbol_type(),
            exists|l: Seq<UpstreamPoll<ScriptValue>>, d: Seq<ScriptValue>|
                InputStreamCore::poll_stream_outcome(
                    old(self).stream(),
                    stream_id,
                    l,
                    d,
                    r.0,
                    final(self).stream(),
                ),
    {
        let mut core = self.take_core();
        let r = core.poll_stream(stream_id, poll_task);
        self.put_core(core);
        r
    }

    /// Polls the state reader `stream_id`; see `InputStreamCore::poll_state`
    pub fn poll_state(&mut self, stream_id: usize, poll_task: W) -> (r: (
        StreamPoll<ScriptValue>,
        Vec<W>,
    ))
        ensures
            final(self).symbol_type() == old(self).symbol_type(),
            exists|l: Seq<UpstreamPoll<ScriptValue>>, d: Seq<ScriptValue>|
                InputStreamCore::poll_state_outcome(
                    old(self).stream(),
                    stream_id,
                    l,
                    d,
                    r.0,
                    final(self).stream(),
                ),
            (r.0 is Ready && r.0->Ready_0 is Some) ==> final(self).stream().last_symbol()
                == r.0->Ready_0,
    {
        let mut core = self.take_core();
        let r = core.poll_state(stream_id, poll_task);
        self.put_core(core);
        r
    }

    /// Frees a reader of this source, with its buffer and waker
    pub fn deallocate_stream(&mut self, stream_id: usize)
        ensures
            final(self).symbol_type() == old(self).symbol_type(),
            match index_of(old(self).stream().history_ids(), stream_id) {
                Some(i) => final(self).stream().history_ids() == old(self).stream().history_ids().remove(i),
                None => final(self).stream().history_ids() == old(self).stream().history_ids(),
            },
            match index_of(old(self).stream().state_ids(), stream_id) {
                Some(i) => final(self).stream().state_ids() == old(self).stream().state_ids().remove(i),
                None => final(self).stream().state_ids() == old(self).stream().state_ids(),
            },
            final(self).stream().source() == old(self).stream().source(),
    {
        let mut core = self.take_core();
        core.deallocate_stream(stream_id);
        self.put_core(core);
    }
}

} // verus!
