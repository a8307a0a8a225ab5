use crate::error::{FloScriptError, FloScriptResult};
use crate::input_source::InputStreamSource;
use crate::script_type::{ScriptTypeDescription, ScriptValue};
use crate::stream_core::{index_of, InputStreamCore, StreamPoll, Upstream, UpstreamPoll};
use crate::symbol::FloScriptSymbol;
use std::collections::HashMap;
use vstd::prelude::*;

verus! {

broadcast use vstd::std_specs::hash::group_hash_axioms;

/// The declared output type of a compiled computing script
#[derive(Clone, Copy, PartialEq, Eq, Debug, Structural)]
pub enum ScriptOutputType {
    /// The script computes a plain value of this type, once
    Value(ScriptTypeDescription),
    /// The script computes a value of this type together with the symbols it read
    DerivedState(ScriptTypeDescription),
    /// Any other type
    Other,
}

/// What the script evaluator hands back for a computing script that compiled
pub struct CompiledScript<S> {
    /// The type of the expression
    pub output_type: ScriptOutputType,
    /// The stream that evaluates the expression when polled
    pub stream: S,
}

/// True if a script of type `output` can be read as values of type `wanted`
pub open spec fn output_matches(output: ScriptOutputType, wanted: ScriptTypeDescription) -> bool {
    match output {
        ScriptOutputType::Value(t) => t == wanted,
        ScriptOutputType::DerivedState(t) => t == wanted,
        ScriptOutputType::Other => false,
    }
}

/// Checks the output type of a compiled expression against the type a reader asked for
///
/// Both a plain value and a derived state of the wanted type can be read.
pub fn check_output_type(output: ScriptOutputType, wanted: ScriptTypeDescription) -> (r:
    FloScriptResult<()>)
    ensures
        r is Ok <==> output_matches(output, wanted),
        r is Err ==> r == Err::<(), _>(FloScriptError::IncorrectType),
{
    match output {
        ScriptOutputType::Value(t) => if t == wanted {
            Ok(())
        } else {
            Err(FloScriptError::IncorrectType)
        },
        ScriptOutputType::DerivedState(t) => if t == wanted {
            Ok(())
        } else {
            Err(FloScriptError::IncorrectType)
        },
        ScriptOutputType::Other => Err(FloScriptError::IncorrectType),
    }
}

/// Possible definitions of a symbol in the namespace
pub enum SymbolDefinition<S, W> {
    /// Symbol is an input stream
    Input(InputStreamSource<S, W>),
    /// An instantiated script acting as an input source
    ActiveScript(InputStreamSource<S, W>),
    /// Symbol represents a script that couldn't be compiled
    ScriptError(String),
    /// A computing script that has not been compiled yet
    Computing(String),
    /// A streaming script
    Streaming(String),
    /// Symbol is a namespace
    Namespace(Box<GluonScriptNamespace<S, W>>),
}

/// A script namespace: the definitions of its symbols, keyed by symbol ID
pub struct GluonScriptNamespace<S, W> {
    /// The definitions for the symbols in this namespace
    symbols: HashMap<u64, SymbolDefinition<S, W>>,
    /// Whether or not I/O operations are run by scripts compiled in this namespace
    run_io: bool,
}

/// What a read of a symbol returns when its definition is not a stream or a script
/// that can become one (a streaming script fails with `Unavailable`)
pub open spec fn failed_read<S, W>(symbol: FloScriptSymbol, def: Option<SymbolDefinition<S, W>>) -> Option<FloScriptError> {
    match def {
        None => Some(FloScriptError::UndefinedSymbol(symbol)),
        Some(SymbolDefinition::ScriptError(message)) => Some(FloScriptError::ScriptError(message)),
        Some(SymbolDefinition::Namespace(_)) => Some(FloScriptError::CannotReadFromANamespace),
        _ => None,
    }
}

impl<S, W> GluonScriptNamespace<S, W> {
    /// The definition of each defined symbol, by symbol ID
    pub closed spec fn definitions(self) -> Map<u64, SymbolDefinition<S, W>> {
        self.symbols@
    }

    /// Whether scripts compiled from now on may run I/O
    pub closed spec fn runs_io(self) -> bool {
        self.run_io
    }

    /// The definition of `symbol`, if it has one
    pub open spec fn definition(self, symbol: FloScriptSymbol) -> Option<SymbolDefinition<S, W>> {
        if self.definitions().contains_key(symbol@) {
            Some(self.definitions()[symbol@])
        } else {
            None
        }
    }

    /// What creating a reader did: a definition that cannot be read gives its error and
    /// changes nothing, and no other symbol is touched
    pub open spec fn read_outcome(
        before: Self,
        symbol: FloScriptSymbol,
        symbol_type: ScriptTypeDescription,
        r: FloScriptResult<usize>,
        after: Self,
    ) -> bool {
        &&& after.definitions().dom() == before.definitions().dom().insert(symbol@) || after.definitions().dom() == before.definitions().dom()
        &&& forall|k: u64| k != symbol@ && before.definitions().contains_key(k) ==> after.definitions().contains_key(k) && after.definitions()[k] == before.definitions()[k]
        &&& match failed_read(symbol, before.definition(symbol)) {
            Some(e) => r == Err::<usize, _>(e) && after.definitions() == before.definitions(),
            None => true,
        }
        &&& (before.definition(symbol) matches Some(SymbolDefinition::Streaming(_)) ==> r is Err && r->Err_0 is Unavailable && after.definitions() == before.definitions())
    }

    /// What reading `source` as a history of `symbol_type` values did
    pub open spec fn history_read(
        before: InputStreamSource<S, W>,
        symbol_type: ScriptTypeDescription,
        r: FloScriptResult<usize>,
        after: InputStreamSource<S, W>,
    ) -> bool {
        &&& after.symbol_type() == before.symbol_type()
        &&& symbol_type != before.symbol_type() ==> r == Err::<usize, _>(FloScriptError::IncorrectType) && after.stream() == before.stream()
        &&& symbol_type == before.symbol_type() && before.stream().next_id() < usize::MAX ==> r == Ok::<_, FloScriptError>(before.stream().next_id())
            && after.stream().history_ids() == before.stream().history_ids().push(r->Ok_0)
        &&& symbol_type == before.symbol_type() && before.stream().next_id() == usize::MAX ==> r is Err
            && r->Err_0 is Unavailable
    }

    /// What reading `source` as a state of `symbol_type` did
    pub open spec fn state_read(
        before: InputStreamSource<S, W>,
        symbol_type: ScriptTypeDescription,
        r: FloScriptResult<usize>,
        after: InputStreamSource<S, W>,
    ) -> bool {
        &&& after.symbol_type() == before.symbol_type()
        &&& symbol_type != before.symbol_type() ==> r == Err::<usize, _>(FloScriptError::IncorrectType) && after.stream() == before.stream()
        &&& symbol_type == before.symbol_type() && before.stream().next_id() < usize::MAX ==> r == Ok::<_, FloScriptError>(before.stream().next_id())
            && after.stream().state_ids() == before.stream().state_ids().push(r->Ok_0)
            && after.stream().currents() == before.stream().currents().push(before.stream().last_symbol())
        &&& symbol_type == before.symbol_type() && before.stream().next_id() == usize::MAX ==> r is Err
            && r->Err_0 is Unavailable
    }

    /// What compiling a computing script for `symbol` did, given what the compiler returned
    pub open spec fn materialised(
        before: Self,
        symbol: FloScriptSymbol,
        symbol_type: ScriptTypeDescription,
        history: bool,
        compiled: Result<CompiledScript<S>, String>,
        r: FloScriptResult<usize>,
        after: Self,
    ) -> bool {
        match compiled {
            Err(message) => r == Err::<usize, _>(FloScriptError::ScriptError(message))
                && after.definitions() == before.definitions().insert(symbol@, SymbolDefinition::ScriptError(message)),
            Ok(script) => if output_matches(script.output_type, symbol_type) {
                &&& after.definitions() == before.definitions().insert(symbol@, after.definitions()[symbol@])
                &&& after.definitions()[symbol@] is ActiveScript
                &&& after.definitions()[symbol@]->ActiveScript_0.symbol_type() == symbol_type
                &&& after.definitions()[symbol@]->ActiveScript_0.stream().source() == Some(script.stream)
                &&& if history {
                    after.definitions()[symbol@]->ActiveScript_0.stream().history_ids() == seq![0usize]
                } else {
                    after.definitions()[symbol@]->ActiveScript_0.stream().state_ids() == seq![0usize]
                }
                &&& r == Ok::<_, FloScriptError>(0usize)
            } else {
                r == Err::<usize, _>(FloScriptError::IncorrectType) && after.definitions() == before.definitions()
            },
        }
    }

    /// `after` is `before` once a poll of its history reader `reader` has returned `r`
    pub open spec fn stream_polled(
        before: InputStreamSource<S, W>,
        reader: usize,
        r: StreamPoll<ScriptValue>,
        after: InputStreamSource<S, W>,
    ) -> bool {
        exists|l: Seq<UpstreamPoll<ScriptValue>>, d: Seq<ScriptValue>|
            InputStreamCore::poll_stream_outcome(before.stream(), reader, l, d, r, after.stream())
    }

    /// `after` is `before` once a poll of its state reader `reader` has returned `r`
    pub open spec fn state_polled(
        before: InputStreamSource<S, W>,
        reader: usize,
        r: StreamPoll<ScriptValue>,
        after: InputStreamSource<S, W>,
    ) -> bool {
        exists|l: Seq<UpstreamPoll<ScriptValue>>, d: Seq<ScriptValue>|
            InputStreamCore::poll_state_outcome(before.stream(), reader, l, d, r, after.stream())
    }

    /// The most recent value read from the upstream of `symbol`, if it is an input or an
    /// active script that has read one
    pub open spec fn latest_of(self, symbol: FloScriptSymbol) -> Option<ScriptValue> {
        match self.definition(symbol) {
            Some(SymbolDefinition::Input(source)) => source.stream().last_symbol(),
            Some(SymbolDefinition::ActiveScript(source)) => source.stream().last_symbol(),
            _ => None,
        }
    }

    /// `after` is `before` without its reader `reader`
    pub open spec fn reader_released(
        before: InputStreamSource<S, W>,
        reader: usize,
        after: InputStreamSource<S, W>,
    ) -> bool {
        &&& match index_of(before.stream().history_ids(), reader) {
            Some(i) => after.stream().history_ids() == before.stream().history_ids().remove(i),
            None => after.stream().history_ids() == before.stream().history_ids(),
        }
        &&& match index_of(before.stream().state_ids(), reader) {
            Some(i) => after.stream().state_ids() == before.stream().state_ids().remove(i),
            None => after.stream().state_ids() == before.stream().state_ids(),
        }
    }

    /// `after` is `before` once a poll of the state reader `reader` of `symbol` returned `p`
    pub open spec fn state_poll_result(
        before: Self,
        symbol: FloScriptSymbol,
        reader: usize,
        p: StreamPoll<ScriptValue>,
        after: Self,
    ) -> bool {
        match before.definition(symbol) {
            Some(SymbolDefinition::Input(source)) => after.definitions().contains_key(symbol@)
                && after.definitions()[symbol@] is Input && Self::state_polled(
                source,
                reader,
                p,
                after.definitions()[symbol@]->Input_0,
            ),
            Some(SymbolDefinition::ActiveScript(source)) => after.definitions().contains_key(symbol@)
                && after.definitions()[symbol@] is ActiveScript && Self::state_polled(
                source,
                reader,
                p,
                after.definitions()[symbol@]->ActiveScript_0,
            ),
            _ => false,
        }
    }

    /// What asking `before` for a state reader on `symbol` did: the result and the change
    /// to the namespace, for every kind of definition (a computing script is compiled, with
    /// whatever the compiler gave)
    pub open spec fn state_reader_made(
        before: Self,
        symbol: FloScriptSymbol,
        symbol_type: ScriptTypeDescription,
        r: FloScriptResult<usize>,
        after: Self,
    ) -> bool {
        &&& after.runs_io() == before.runs_io()
        &&& Self::read_outcome(before, symbol, symbol_type, r, after)
        &&& match before.definition(symbol) {
            Some(SymbolDefinition::Input(source)) => after.definitions()[symbol@] is Input
                && Self::state_read(source, symbol_type, r, after.definitions()[symbol@]->Input_0),
            Some(SymbolDefinition::ActiveScript(source)) => after.definitions()[symbol@] is ActiveScript
                && Self::state_read(source, symbol_type, r, after.definitions()[symbol@]->ActiveScript_0),
            Some(SymbolDefinition::Computing(_)) => exists|compiled: Result<CompiledScript<S>, String>|
                Self::materialised(before, symbol, symbol_type, false, compiled, r, after),
            _ => true,
        }
    }
}

impl<S: Upstream<ScriptValue>, W> GluonScriptNamespace<S, W> {
    /// Creates a new script namespace with no symbols
    pub fn new() -> (r: GluonScriptNamespace<S, W>)
        ensures
            r.definitions() == Map::<u64, SymbolDefinition<S, W>>::empty(),
            !r.runs_io(),
    {
        GluonScriptNamespace { symbols: HashMap::new(), run_io: false }
    }

    /// Clears this namespace
    pub fn clear(&mut self)
        ensures
            final(self).definitions() == Map::<u64, SymbolDefinition<S, W>>::empty(),
            final(self).runs_io() == old(self).runs_io(),
    {
        self.symbols.clear();
    }

    /// Defines a particular symbol to be an input stream of the given type
    pub fn define_input_symbol(&mut self, symbol: FloScriptSymbol, input_stream_type: ScriptTypeDescription)
        ensures
            final(self).definitions() == old(self).definitions().insert(symbol@, final(self).definitions()[symbol@]),
            final(self).definitions()[symbol@] is Input,
            final(self).definitions()[symbol@]->Input_0.symbol_type() == input_stream_type,
            final(self).definitions()[symbol@]->Input_0.is_fresh(),
            final(self).runs_io() == old(self).runs_io(),
    {
        let source = InputStreamSource::new(input_stream_type);
        self.symbols.insert(symbol.id(), SymbolDefinition::Input(source));
    }

    /// Removes the definition of a symbol from this namespace (if it exists)
    pub fn undefine_symbol(&mut self, symbol: FloScriptSymbol)
        ensures
            final(self).definitions() == old(self).definitions().remove(symbol@),
            final(self).runs_io() == old(self).runs_io(),
    {
        self.symbols.remove(&symbol.id());
    }

    /// Loads a computing script into this namespace (it is compiled when it is first read)
    pub fn set_computing_script(&mut self, symbol: FloScriptSymbol, script: String)
        ensures
            final(self).definitions() == old(self).definitions().insert(symbol@, SymbolDefinition::Computing(script)),
            final(self).runs_io() == old(self).runs_io(),
    {
        self.symbols.insert(symbol.id(), SymbolDefinition::Computing(script));
    }

    /// Loads a streaming script into this namespace
    pub fn set_streaming_script(&mut self, symbol: FloScriptSymbol, script: String)
        ensures
            final(self).definitions() == old(self).definitions().insert(symbol@, SymbolDefinition::Streaming(script)),
            final(self).runs_io() == old(self).runs_io(),
    {
        self.symbols.insert(symbol.id(), SymbolDefinition::Streaming(script));
    }

    /// Sets whether or not scripts compiled from now on will run IO commands
    pub fn set_run_io(&mut self, run_io: bool)
        ensures
            final(self).definitions() == old(self).definitions(),
            final(self).runs_io() == run_io,
    {
        self.run_io = run_io;
    }

    /// Whether scripts compiled from now on may run I/O
    pub fn run_io(&self) -> (r: bool)
        ensures
            r == self.runs_io(),
    {
        self.run_io
    }

    /// True if `symbol` is a computing script that has not been compiled yet: reading it
    /// gives a state reader, whichever kind of reader was asked for
    pub fn is_computing_script(&self, symbol: FloScriptSymbol) -> (r: bool)
        ensures
            r == (self.definition(symbol) matches Some(SymbolDefinition::Computing(_))),
    {
        match self.symbols.get(&symbol.id()) {
            Some(SymbolDefinition::Computing(_)) => true,
            _ => false,
        }
    }

    /// Retrieves a sub-namespace, if it is defined
    pub fn get_namespace(&self, symbol: FloScriptSymbol) -> (r: Option<&GluonScriptNamespace<S, W>>)
        ensures
            match self.definition(symbol) {
                Some(SymbolDefinition::Namespace(child)) => r == Some(&*child),
                _ => r is None,
            },
    {
        match self.symbols.get(&symbol.id()) {
            Some(SymbolDefinition::Namespace(child)) => Some(&**child),
            _ => None,
        }
    }

    /// Makes sure a symbol names a sub-namespace: a symbol that is undefined becomes an
    /// empty namespace. Fails with `NotANamespace` if it is defined as something else.
    pub fn get_or_create_namespace(&mut self, symbol: FloScriptSymbol) -> (r: FloScriptResult<()>)
        ensures
            final(self).runs_io() == old(self).runs_io(),
            match old(self).definition(symbol) {
                None => r is Ok && final(self).definitions() == old(self).definitions().insert(symbol@, final(self).definitions()[symbol@])
                    && final(self).definitions()[symbol@] is Namespace
                    && final(self).definitions()[symbol@]->Namespace_0.definitions() == Map::<u64, SymbolDefinition<S, W>>::empty()
                    && !final(self).definitions()[symbol@]->Namespace_0.runs_io(),
                Some(SymbolDefinition::Namespace(_)) => r is Ok && final(self).definitions() == old(self).definitions(),
                _ => r == Err::<(), _>(FloScriptError::NotANamespace) && final(self).definitions() == old(self).definitions(),
            },
    {
        let id = symbol.id();
        match self.symbols.get(&id) {
            None => {
                self.symbols.insert(id, SymbolDefinition::Namespace(Box::new(GluonScriptNamespace::new())));
                Ok(())
            },
            Some(SymbolDefinition::Namespace(_)) => Ok(()),
            Some(_) => Err(FloScriptError::NotANamespace),
        }
    }

    /// Attaches an input stream of the given type to an input symbol
    ///
    /// Returns the wakers of the symbol's readers, which should poll the new stream.
    pub fn attach_input(&mut self, symbol: FloScriptSymbol, stream_type: ScriptTypeDescription, input: S) -> (r: FloScriptResult<Vec<W>>)
        ensures
            final(self).runs_io() == old(self).runs_io(),
            final(self).definitions().dom() == old(self).definitions().dom(),
            forall|k: u64| k != symbol@ && old(self).definitions().contains_key(k) ==> final(self).definitions()[k] == old(self).definitions()[k],
            match old(self).definition(symbol) {
                None => r == Err::<Vec<W>, _>(FloScriptError::UndefinedSymbol(symbol)),
                Some(SymbolDefinition::Input(source)) => {
                    &&& final(self).definitions()[symbol@] is Input
                    &&& (stream_type == source.symbol_type()) == (r is Ok)
                    &&& r is Err ==> r == Err::<Vec<W>, _>(FloScriptError::IncorrectType)
                    &&& r is Ok ==> final(self).definitions()[symbol@]->Input_0.stream().source() == Some(input)
                },
                _ => r == Err::<Vec<W>, _>(FloScriptError::NotAnInputSymbol) && final(self).definitions() == old(self).definitions(),
            },
    {
        let id = symbol.id();
        match self.symbols.get(&id) {
            None => return Err(FloScriptError::UndefinedSymbol(symbol)),
            Some(SymbolDefinition::Input(_)) => {},
            Some(_) => return Err(FloScriptError::NotAnInputSymbol),
        }
        match self.symbols.remove(&id) {
            Some(SymbolDefinition::Input(mut source)) => {
                let r = source.attach(stream_type, input);
                self.symbols.insert(id, SymbolDefinition::Input(source));
                proof {
                    assert(self.symbols@.dom() =~= old(self).symbols@.dom());
                }
                r
            },
            _ => Err(FloScriptError::NotAnInputSymbol),
        }
    }
    /// Compiles the computing script `expression` for `symbol`, and replaces the symbol's
    /// definition with the result
    ///
    /// `compile` is given the script and whether this namespace currently lets scripts run
    /// I/O, so a change of that flag affects only scripts compiled after it.
    ///
    /// A script that does not compile becomes a `ScriptError` definition, so it is not
    /// compiled again. A script whose type is not `symbol_type` (or a derived state of it)
    /// fails with `IncorrectType` and stays as it was. Otherwise the script's stream becomes
    /// the upstream of a new input source, so every later reader shares its output, and the
    /// result is a history reader on it if `history` is set, else a state reader.
    pub fn create_computing_stream<F: FnOnce(String, bool) -> Result<CompiledScript<S>, String>>(
        &mut self,
        symbol: FloScriptSymbol,
        symbol_type: ScriptTypeDescription,
        history: bool,
        expression: String,
        compile: F,
    ) -> (r: FloScriptResult<usize>)
        requires
            compile.requires((expression, old(self).runs_io())),
        ensures
            final(self).runs_io() == old(self).runs_io(),
            exists|compiled: Result<CompiledScript<S>, String>|
                compile.ensures((expression, old(self).runs_io()), compiled) && Self::materialised(
                    *old(self),
                    symbol,
                    symbol_type,
                    history,
                    compiled,
                    r,
                    *final(self),
                ),
    {
        let compiled = compile(expression, self.run_io);
        let ghost witness = compiled;
        match compiled {
            Ok(script) => {
                match check_output_type(script.output_type, symbol_type) {
                    Err(e) => {
                        let r = Err(e);
                        assert(Self::materialised(*old(self), symbol, symbol_type, history, witness, r, *self));
                        return r;
                    },
                    Ok(()) => {},
                }
                // This will become the input stream for the specified symbol
                let mut input_stream_source = InputStreamSource::new(symbol_type);
                let _ = input_stream_source.attach(symbol_type, script.stream);
                // The output is read from this input as a history or as a state
                let r = if history {
                    input_stream_source.read_as_stream(symbol_type)
                } else {
                    input_stream_source.read_as_state_stream(symbol_type)
                };
                self.symbols.insert(symbol.id(), SymbolDefinition::ActiveScript(input_stream_source));
                proof {
                    if history {
                        assert(self.definitions()[symbol@]->ActiveScript_0.stream().history_ids() =~= seq![0usize]);
                    } else {
                        assert(self.definitions()[symbol@]->ActiveScript_0.stream().state_ids() =~= seq![0usize]);
                    }
                    assert(self.definitions() =~= old(self).definitions().insert(symbol@, self.definitions()[symbol@]));
                    assert(Self::materialised(*old(self), symbol, symbol_type, history, witness, r, *self));
                }
                r
            },
            Err(error_string) => {
                // Don't try to run this script again
                self.symbols.insert(symbol.id(), SymbolDefinition::ScriptError(error_string.clone()));
                let r = Err(FloScriptError::ScriptError(error_string));
                assert(Self::materialised(*old(self), symbol, symbol_type, history, witness, r, *self));
                r
            },
        }
    }

    /// Creates a history reader for a symbol, returning its ID
    ///
    /// An input or an active script gets a new history reader; a computing script is
    /// compiled first with `compile` and read as a state (see `create_computing_stream`).
    pub fn read_stream<F: FnOnce(String, bool) -> Result<CompiledScript<S>, String>>(
        &mut self,
        symbol: FloScriptSymbol,
        symbol_type: ScriptTypeDescription,
        compile: F,
    ) -> (r: FloScriptResult<usize>)
        requires
            forall|text: String, run_io: bool| compile.requires((text, run_io)),
        ensures
            final(self).runs_io() == old(self).runs_io(),
            Self::read_outcome(*old(self), symbol, symbol_type, r, *final(self)),
            match old(self).definition(symbol) {
                Some(SymbolDefinition::Input(source)) => final(self).definitions()[symbol@] is Input
                    && Self::history_read(source, symbol_type, r, final(self).definitions()[symbol@]->Input_0),
                Some(SymbolDefinition::ActiveScript(source)) => final(self).definitions()[symbol@] is ActiveScript
                    && Self::history_read(source, symbol_type, r, final(self).definitions()[symbol@]->ActiveScript_0),
                Some(SymbolDefinition::Computing(text)) => exists|compiled: Result<CompiledScript<S>, String>|
                    compile.ensures((text, old(self).runs_io()), compiled) && Self::materialised(*old(self), symbol, symbol_type, false, compiled, r, *final(self)),
                _ => true,
            },
    {
        let id = symbol.id();
        match self.symbols.get(&id) {
            None => return Err(FloScriptError::UndefinedSymbol(symbol)),
            Some(SymbolDefinition::ScriptError(description)) => return Err(FloScriptError::ScriptError(description.clone())),
            Some(SymbolDefinition::Namespace(_)) => return Err(FloScriptError::CannotReadFromANamespace),
            Some(SymbolDefinition::Streaming(_)) => return Err(FloScriptError::Unavailable("streaming scripts cannot be read yet".to_string())),
            Some(SymbolDefinition::Computing(expression)) => {
                let expression = expression.clone();
                return self.create_computing_stream(symbol, symbol_type, false, expression, compile);
            },
            _ => {},
        }
        match self.symbols.remove(&id) {
            Some(SymbolDefinition::Input(mut source)) => {
                let r = source.read_as_stream(symbol_type);
                self.symbols.insert(id, SymbolDefinition::Input(source));
                r
            },
            Some(SymbolDefinition::ActiveScript(mut source)) => {
                let r = source.read_as_stream(symbol_type);
                self.symbols.insert(id, SymbolDefinition::ActiveScript(source));
                r
            },
            _ => Err(FloScriptError::NotAnInputSymbol),
        }
    }

    /// Creates a state reader for a symbol, returning its ID
    ///
    /// An input or an active script gets a new state reader; a computing script is
    /// compiled first with `compile` (see `create_computing_stream`).
    pub fn read_state_stream<F: FnOnce(String, bool) -> Result<CompiledScript<S>, String>>(
        &mut self,
        symbol: FloScriptSymbol,
        symbol_type: ScriptTypeDescription,
        compile: F,
    ) -> (r: FloScriptResult<usize>)
        requires
            forall|text: String, run_io: bool| compile.requires((text, run_io)),
        ensures
            Self::state_reader_made(*old(self), symbol, symbol_type, r, *final(self)),
            final(self).runs_io() == old(self).runs_io(),
            Self::read_outcome(*old(self), symbol, symbol_type, r, *final(self)),
            match old(self).definition(symbol) {
                Some(SymbolDefinition::Input(source)) => final(self).definitions()[symbol@] is Input
                    && Self::state_read(source, symbol_type, r, final(self).definitions()[symbol@]->Input_0),
                Some(SymbolDefinition::ActiveScript(source)) => final(self).definitions()[symbol@] is ActiveScript
                    && Self::state_read(source, symbol_type, r, final(self).definitions()[symbol@]->ActiveScript_0),
                Some(SymbolDefinition::Computing(text)) => exists|compiled: Result<CompiledScript<S>, String>|
                    compile.ensures((text, old(self).runs_io()), compiled) && Self::materialised(*old(self), symbol, symbol_type, false, compiled, r, *final(self)),
                _ => true,
            },
    {
        let id = symbol.id();
        match self.symbols.get(&id) {
            None => return Err(FloScriptError::UndefinedSymbol(symbol)),
            Some(SymbolDefinition::ScriptError(description)) => return Err(FloScriptError::ScriptError(description.clone())),
            Some(SymbolDefinition::Namespace(_)) => return Err(FloScriptError::CannotReadFromANamespace),
            Some(SymbolDefinition::Streaming(_)) => return Err(FloScriptError::Unavailable("streaming scripts cannot be read yet".to_string())),
            Some(SymbolDefinition::Computing(expression)) => {
                let expression = expression.clone();
                return self.create_computing_stream(symbol, symbol_type, false, expression, compile);
            },
            _ => {},
        }
        match self.symbols.remove(&id) {
            Some(SymbolDefinition::Input(mut source)) => {
                let r = source.read_as_state_stream(symbol_type);
                self.symbols.insert(id, SymbolDefinition::Input(source));
                r
            },
            Some(SymbolDefinition::ActiveScript(mut source)) => {
                let r = source.read_as_state_stream(symbol_type);
                self.symbols.insert(id, SymbolDefinition::ActiveScript(source));
                r
            },
            _ => Err(FloScriptError::NotAnInputSymbol),
        }
    }
    /// Polls a history reader of an input or active script
    pub fn poll_stream(&mut self, symbol: FloScriptSymbol, reader: usize, poll_task: W) -> (r: FloScriptResult<(StreamPoll<ScriptValue>, Vec<W>)>)
        ensures
            final(self).runs_io() == old(self).runs_io(),
            final(self).definitions().dom() == old(self).definitions().dom(),
            forall|k: u64| k != symbol@ && old(self).definitions().contains_key(k) ==> final(self).definitions()[k] == old(self).definitions()[k],
            match old(self).definition(symbol) {
                None => r == Err::<(StreamPoll<ScriptValue>, Vec<W>), _>(FloScriptError::UndefinedSymbol(symbol)),
                Some(SymbolDefinition::Input(source)) => r is Ok && final(self).definitions()[symbol@] is Input
                    && Self::stream_polled(source, reader, r->Ok_0.0, final(self).definitions()[symbol@]->Input_0),
                Some(SymbolDefinition::ActiveScript(source)) => r is Ok && final(self).definitions()[symbol@] is ActiveScript
                    && Self::stream_polled(source, reader, r->Ok_0.0, final(self).definitions()[symbol@]->ActiveScript_0),
                _ => r == Err::<(StreamPoll<ScriptValue>, Vec<W>), _>(FloScriptError::NotAnInputSymbol) && final(self).definitions() == old(self).definitions(),
            },
    {
        let id = symbol.id();
        match self.symbols.get(&id) {
            None => return Err(FloScriptError::UndefinedSymbol(symbol)),
            Some(SymbolDefinition::Input(_)) => {},
            Some(SymbolDefinition::ActiveScript(_)) => {},
            Some(_) => return Err(FloScriptError::NotAnInputSymbol),
        }
        let r = match self.symbols.remove(&id) {
            Some(SymbolDefinition::Input(mut source)) => {
                let ghost before = source;
                let r = source.poll_stream(reader, poll_task);
                let ghost after = source;
                self.symbols.insert(id, SymbolDefinition::Input(source));
                proof {
                    let (l, d) = choose|l: Seq<UpstreamPoll<ScriptValue>>, d: Seq<ScriptValue>| InputStreamCore::poll_stream_outcome(before.stream(), reader, l, d, r.0, after.stream());
                    assert(old(self).definitions()[symbol@] == SymbolDefinition::Input(before));
                    assert(self.definitions()[symbol@] == SymbolDefinition::Input(after));
                    assert(InputStreamCore::poll_stream_outcome(before.stream(), reader, l, d, r.0, self.definitions()[symbol@]->Input_0.stream()));
                    assert(Self::stream_polled(before, reader, r.0, self.definitions()[symbol@]->Input_0));
                }
                Ok(r)
            },
            Some(SymbolDefinition::ActiveScript(mut source)) => {
                let ghost before = source;
                let r = source.poll_stream(reader, poll_task);
                let ghost after = source;
                self.symbols.insert(id, SymbolDefinition::ActiveScript(source));
                proof {
                    let (l, d) = choose|l: Seq<UpstreamPoll<ScriptValue>>, d: Seq<ScriptValue>| InputStreamCore::poll_stream_outcome(before.stream(), reader, l, d, r.0, after.stream());
                    assert(old(self).definitions()[symbol@] == SymbolDefinition::ActiveScript(before));
                    assert(self.definitions()[symbol@] == SymbolDefinition::ActiveScript(after));
                    assert(InputStreamCore::poll_stream_outcome(before.stream(), reader, l, d, r.0, self.definitions()[symbol@]->ActiveScript_0.stream()));
                    assert(Self::stream_polled(before, reader, r.0, self.definitions()[symbol@]->ActiveScript_0));
                }
                Ok(r)
            },
            _ => Err(FloScriptError::NotAnInputSymbol),
        };
        proof {
            assert(self.symbols@.dom() =~= old(self).symbols@.dom());
        }
        r
    }

    /// Polls a state reader of an input or active script
    ///
    /// Any value it gets is the most recent value read from the symbol's upstream.
    pub fn poll_state(&mut self, symbol: FloScriptSymbol, reader: usize, poll_task: W) -> (r: FloScriptResult<(StreamPoll<ScriptValue>, Vec<W>)>)
        ensures
            final(self).runs_io() == old(self).runs_io(),
            final(self).definitions().dom() == old(self).definitions().dom(),
            forall|k: u64| k != symbol@ && old(self).definitions().contains_key(k) ==> final(self).definitions()[k] == old(self).definitions()[k],
            match old(self).definition(symbol) {
                None => r == Err::<(StreamPoll<ScriptValue>, Vec<W>), _>(FloScriptError::UndefinedSymbol(symbol)),
                Some(SymbolDefinition::Input(source)) => r is Ok && final(self).definitions()[symbol@] is Input
                    && Self::state_polled(source, reader, r->Ok_0.0, final(self).definitions()[symbol@]->Input_0),
                Some(SymbolDefinition::ActiveScript(source)) => r is Ok && final(self).definitions()[symbol@] is ActiveScript
                    && Self::state_polled(source, reader, r->Ok_0.0, final(self).definitions()[symbol@]->ActiveScript_0),
                _ => r == Err::<(StreamPoll<ScriptValue>, Vec<W>), _>(FloScriptError::NotAnInputSymbol) && final(self).definitions() == old(self).definitions(),
            },
            (r is Ok && r->Ok_0.0 is Ready && r->Ok_0.0->Ready_0 is Some) ==> final(self).latest_of(symbol) == r->Ok_0.0->Ready_0,
    {
        let id = symbol.id();
        match self.symbols.get(&id) {
            None => return Err(FloScriptError::UndefinedSymbol(symbol)),
            Some(SymbolDefinition::Input(_)) => {},
            Some(SymbolDefinition::ActiveScript(_)) => {},
            Some(_) => return Err(FloScriptError::NotAnInputSymbol),
        }
        let r = match self.symbols.remove(&id) {
            Some(SymbolDefinition::Input(mut source)) => {
                let ghost before = source;
                let r = source.poll_state(reader, poll_task);
                let ghost after = source;
                self.symbols.insert(id, SymbolDefinition::Input(source));
                proof {
                    let (l, d) = choose|l: Seq<UpstreamPoll<ScriptValue>>, d: Seq<ScriptValue>| InputStreamCore::poll_state_outcome(before.stream(), reader, l, d, r.0, after.stream());
                    assert(old(self).definitions()[symbol@] == SymbolDefinition::Input(before));
                    assert(self.definitions()[symbol@] == SymbolDefinition::Input(after));
                    assert(InputStreamCore::poll_state_outcome(before.stream(), reader, l, d, r.0, self.definitions()[symbol@]->Input_0.stream()));
                    assert(Self::state_polled(before, reader, r.0, self.definitions()[symbol@]->Input_0));
                }
                Ok(r)
            },
            Some(SymbolDefinition::ActiveScript(mut source)) => {
                let ghost before = source;
                let r = source.poll_state(reader, poll_task);
                let ghost after = source;
                self.symbols.insert(id, SymbolDefinition::ActiveScript(source));
                proof {
                    let (l, d) = choose|l: Seq<UpstreamPoll<ScriptValue>>, d: Seq<ScriptValue>| InputStreamCore::poll_state_outcome(before.stream(), reader, l, d, r.0, after.stream());
                    assert(old(self).definitions()[symbol@] == SymbolDefinition::ActiveScript(before));
                    assert(self.definitions()[symbol@] == SymbolDefinition::ActiveScript(after));
                    assert(InputStreamCore::poll_state_outcome(before.stream(), reader, l, d, r.0, self.definitions()[symbol@]->ActiveScript_0.stream()));
                    assert(Self::state_polled(before, reader, r.0, self.definitions()[symbol@]->ActiveScript_0));
                }
                Ok(r)
            },
            _ => Err(FloScriptError::NotAnInputSymbol),
        };
        proof {
            assert(self.symbols@.dom() =~= old(self).symbols@.dom());
        }
        r
    }

    /// Frees a reader of a symbol, if the symbol still has readers
    pub fn release_reader(&mut self, symbol: FloScriptSymbol, reader: usize)
        ensures
            final(self).runs_io() == old(self).runs_io(),
            final(self).definitions().dom() == old(self).definitions().dom(),
            forall|k: u64| k != symbol@ && old(self).definitions().contains_key(k) ==> final(self).definitions()[k] == old(self).definitions()[k],
            match old(self).definition(symbol) {
                Some(SymbolDefinition::Input(source)) => final(self).definitions()[symbol@] is Input
                    && Self::reader_released(source, reader, final(self).definitions()[symbol@]->Input_0),
                Some(SymbolDefinition::ActiveScript(source)) => final(self).definitions()[symbol@] is ActiveScript
                    && Self::reader_released(source, reader, final(self).definitions()[symbol@]->ActiveScript_0),
                _ => final(self).definitions() == old(self).definitions(),
            },
    {
        let id = symbol.id();
        match self.symbols.get(&id) {
            Some(SymbolDefinition::Input(_)) => {},
            Some(SymbolDefinition::ActiveScript(_)) => {},
            _ => return,
        }
        match self.symbols.remove(&id) {
            Some(SymbolDefinition::Input(mut source)) => {
                let ghost before = source;
                source.deallocate_stream(reader);
                let ghost after = source;
                self.symbols.insert(id, SymbolDefinition::Input(source));
                proof {
                    assert(old(self).definitions()[symbol@] == SymbolDefinition::Input(before));
                    assert(self.definitions()[symbol@] == SymbolDefinition::Input(after));
                    assert(Self::reader_released(before, reader, after));
                }
            },
            Some(SymbolDefinition::ActiveScript(mut source)) => {
                let ghost before = source;
                source.deallocate_stream(reader);
                let ghost after = source;
                self.symbols.insert(id, SymbolDefinition::ActiveScript(source));
                proof {
                    assert(old(self).definitions()[symbol@] == SymbolDefinition::ActiveScript(before));
                    assert(self.definitions()[symbol@] == SymbolDefinition::ActiveScript(after));
                    assert(Self::reader_released(before, reader, after));
                }
            },
            _ => {},
        }
        proof {
            assert(self.symbols@.dom() =~= old(self).symbols@.dom());
        }
    }

    /// Removes a sub-namespace so it can be worked on, leaving the symbol undefined
    pub fn take_namespace(&mut self, symbol: FloScriptSymbol) -> (r: Option<GluonScriptNamespace<S, W>>)
        ensures
            final(self).runs_io() == old(self).runs_io(),
            match old(self).definition(symbol) {
                Some(SymbolDefinition::Namespace(child)) => r == Some(*child) && final(self).definitions() == old(self).definitions().remove(symbol@),
                _ => r is None && final(self).definitions() == old(self).definitions(),
            },
    {
        let id = symbol.id();
        match self.symbols.get(&id) {
            Some(SymbolDefinition::Namespace(_)) => {},
            _ => return None,
        }
        match self.symbols.remove(&id) {
            Some(SymbolDefinition::Namespace(child)) => Some(*child),
            _ => None,
        }
    }

    /// Stores a sub-namespace under a symbol
    pub fn put_namespace(&mut self, symbol: FloScriptSymbol, child: GluonScriptNamespace<S, W>)
        ensures
            final(self).runs_io() == old(self).runs_io(),
            final(self).definitions() == old(self).definitions().insert(symbol@, SymbolDefinition::Namespace(Box::new(child))),
    {
        self.symbols.insert(symbol.id(), SymbolDefinition::Namespace(Box::new(child)));
    }
}


/// A symbol whose script failed to compile keeps failing with the compiler's message: the
/// compile stores the message, and every later read returns it and changes nothing.
pub proof fn lemma_script_error_is_sticky<S, W>(
    n0: GluonScriptNamespace<S, W>,
    symbol: FloScriptSymbol,
    t0: ScriptTypeDescription,
    history: bool,
    message: String,
    r0: FloScriptResult<usize>,
    n1: GluonScriptNamespace<S, W>,
    t1: ScriptTypeDescription,
    r1: FloScriptResult<usize>,
    n2: GluonScriptNamespace<S, W>,
)
    requires
        GluonScriptNamespace::materialised(n0, symbol, t0, history, Err(message), r0, n1),
        GluonScriptNamespace::read_outcome(n1, symbol, t1, r1, n2),
    ensures
        r0 == Err::<usize, _>(FloScriptError::ScriptError(message)),
        r1 == r0,
        n2.definitions() == n1.definitions(),
        n2.definition(symbol) == Some(SymbolDefinition::<S, W>::ScriptError(message)),
{
}

/// A reader of an input declared with one type, asked for another, is refused with
/// `IncorrectType` and the input is left as it was.
pub proof fn lemma_wrong_type_is_refused<S, W>(
    before: InputStreamSource<S, W>,
    wanted: ScriptTypeDescription,
    r: FloScriptResult<usize>,
    after: InputStreamSource<S, W>,
)
    requires
        wanted != before.symbol_type(),
        GluonScriptNamespace::history_read(before, wanted, r, after) || GluonScriptNamespace::state_read(before, wanted, r, after),
    ensures
        r == Err::<usize, _>(FloScriptError::IncorrectType),
        after.stream() == before.stream(),
{
}

} // verus!
