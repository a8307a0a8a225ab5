use crate::error::{FloScriptError, FloScriptResult};
use crate::namespace::{failed_read, CompiledScript, GluonScriptNamespace, SymbolDefinition};
use crate::script_type::{ScriptTypeDescription, ScriptValue};
use crate::state::StateDependencies;
use crate::stream_core::{StreamPoll, Upstream};
use crate::symbol::FloScriptSymbol;
use vstd::prelude::*;

verus! {

/// What resolving the current state of a symbol gave
pub enum ResolvePoll<T> {
    /// The symbol's current value
    Ready(T),
    /// The symbol has no value yet: the derivation waits for it
    NotReady,
    /// The symbol cannot be read
    Failed,
}

/// `r` is what a derivation makes of the state poll `p`: a value is resolved, no value
/// yet (or the end of the stream) leaves it waiting, and a failure fails it
pub open spec fn mirrors(p: StreamPoll<ScriptValue>, r: ResolvePoll<ScriptValue>) -> bool {
    match p {
        StreamPoll::Ready(Some(v)) => r == ResolvePoll::Ready(v),
        StreamPoll::Ready(None) => r is NotReady,
        StreamPoll::NotReady => r is NotReady,
        StreamPoll::Failed => r is Failed,
    }
}

/// Data carried through a derivation: the symbols it read, and the state reader it holds
/// for each, so that re-evaluating the same script reuses the same readers
pub struct DerivedStateData {
    /// The symbols that the last value of this state depended upon
    dependencies: StateDependencies,
    /// The state readers that are active in this derivation, with the symbol each reads
    active_streams: Vec<(FloScriptSymbol, usize)>,
}

impl DerivedStateData {
    /// The IDs of the symbols read so far
    pub closed spec fn deps(self) -> Set<u64> {
        self.dependencies@
    }

    /// The state reader held for each symbol
    pub closed spec fn readers(self) -> Seq<(FloScriptSymbol, usize)> {
        self.active_streams@
    }

    /// The state reader held for `symbol`, if there is one
    pub open spec fn reader_of(self, symbol: FloScriptSymbol) -> Option<usize> {
        if exists|i: int| 0 <= i < self.readers().len() && self.readers()[i].0 == symbol {
            let i = choose|i: int| 0 <= i < self.readers().len() && self.readers()[i].0 == symbol;
            Some(self.readers()[i].1)
        } else {
            None
        }
    }

    /// At most one reader is held per symbol
    pub open spec fn wf(self) -> bool {
        forall|i: int, j: int|
            0 <= i < j < self.readers().len() ==> self.readers()[i].0 != self.readers()[j].0
    }

    /// Creates an entirely new blank derived state data object
    pub fn new() -> (r: DerivedStateData)
        ensures
            r.wf(),
            r.deps() == Set::<u64>::empty(),
            r.readers().len() == 0,
    {
        DerivedStateData { dependencies: StateDependencies::new(), active_streams: Vec::new() }
    }

    /// The dependencies recorded so far
    pub fn dependencies(&self) -> (r: &StateDependencies)
        ensures
            r@ == self.deps(),
    {
        &self.dependencies
    }

    /// The index of the reader held for `symbol`
    fn find(&self, symbol: FloScriptSymbol) -> (r: Option<usize>)
        requires
            self.wf(),
        ensures
            match r {
                Some(i) => i < self.readers().len() && self.readers()[i as int].0 == symbol
                    && self.reader_of(symbol) == Some(self.readers()[i as int].1),
                None => self.reader_of(symbol) is None,
            },
    {
        let mut i: usize = 0;
        while i < self.active_streams.len()
            invariant
                0 <= i <= self.readers().len(),
                self.wf(),
                forall|j: int| 0 <= j < i ==> self.readers()[j].0 != symbol,
            decreases self.readers().len() - i,
        {
            if self.active_streams[i].0 == symbol {
                proof {
                    let k = choose|k: int| 0 <= k < self.readers().len() && self.readers()[k].0 == symbol;
                    assert(k == i as int);
                }
                return Some(i);
            }
            i = i + 1;
        }
        None
    }

    /// Returns true if this state has an active stream for the specified symbol
    pub fn has_stream(&self, symbol: FloScriptSymbol) -> (r: bool)
        requires
            self.wf(),
        ensures
            r == self.reader_of(symbol) is Some,
    {
        self.find(symbol).is_some()
    }

    /// Sets the state reader for the specified symbol
    pub fn set_stream(&mut self, symbol: FloScriptSymbol, reader: usize)
        requires
            old(self).wf(),
        ensures
            final(self).wf(),
            final(self).reader_of(symbol) == Some(reader),
            forall|s: FloScriptSymbol| s != symbol ==> final(self).reader_of(s) == old(self).reader_of(s),
            final(self).deps() == old(self).deps(),
    {
        let ghost before = self.readers();
        match self.find(symbol) {
            Some(i) => {
                self.active_streams.set(i, (symbol, reader));
                proof {
                    assert(self.readers() == before.update(i as int, (symbol, reader)));
                    assert(self.readers()[i as int].0 == symbol);
                    let k = choose|k: int| 0 <= k < self.readers().len() && self.readers()[k].0 == symbol;
                    assert(k == i as int);
                    assert forall|s: FloScriptSymbol| s != symbol implies self.reader_of(s) == old(self).reader_of(s) by {
                        if exists|j: int| 0 <= j < before.len() && before[j].0 == s {
                            let j = choose|j: int| 0 <= j < before.len() && before[j].0 == s;
                            assert(self.readers()[j].0 == s);
                            let m = choose|m: int| 0 <= m < self.readers().len() && self.readers()[m].0 == s;
                            assert(m == j);
                        } else {
                            assert forall|j: int| 0 <= j < self.readers().len() implies self.readers()[j].0 != s by {
                                if j != i as int {
                                    assert(self.readers()[j] == before[j]);
                                }
                            }
                        }
                    }
                }
            },
            None => {
                self.active_streams.push((symbol, reader));
                proof {
                    let n = before.len() as int;
                    assert(self.readers() == before.push((symbol, reader)));
                    assert(self.readers()[n].0 == symbol);
                    let k = choose|k: int| 0 <= k < self.readers().len() && self.readers()[k].0 == symbol;
                    assert(k == n);
                    assert forall|s: FloScriptSymbol| s != symbol implies self.reader_of(s) == old(self).reader_of(s) by {
                        if exists|j: int| 0 <= j < before.len() && before[j].0 == s {
                            let j = choose|j: int| 0 <= j < before.len() && before[j].0 == s;
                            assert(self.readers()[j].0 == s);
                            let m = choose|m: int| 0 <= m < self.readers().len() && self.readers()[m].0 == s;
                            assert(m == j);
                        } else {
                            assert forall|j: int| 0 <= j < self.readers().len() implies self.readers()[j].0 != s by {
                                if j < n {
                                    assert(self.readers()[j] == before[j]);
                                }
                            }
                        }
                    }
                }
            },
        }
    }

    /// Resolves the current state of `symbol` within this derivation
    ///
    /// The first time a symbol is read, a state reader for it is obtained from the namespace
    /// (compiling it with `compile` if it is a computing script) and kept; later reads poll
    /// the same reader. A value read adds the symbol to the dependencies. A symbol that has
    /// produced no value yet leaves the derivation waiting; one that cannot be read fails it.
    /// Returns the wakers of other readers, to be called once the namespace is released.
    pub fn resolve<S: Upstream<ScriptValue>, W, F: FnOnce(String, bool) -> Result<CompiledScript<S>, String>>(
        &mut self,
        namespace: &mut GluonScriptNamespace<S, W>,
        symbol: FloScriptSymbol,
        symbol_type: ScriptTypeDescription,
        compile: F,
        poll_task: W,
    ) -> (r: (ResolvePoll<ScriptValue>, Vec<W>))
        requires
            old(self).wf(),
            forall|text: String, run_io: bool| compile.requires((text, run_io)),
        ensures
            final(self).wf(),
            final(namespace).runs_io() == old(namespace).runs_io(),
            r.0 is Ready ==> final(self).deps() == old(self).deps().insert(symbol@)
                && final(namespace).latest_of(symbol) == Some(r.0->Ready_0),
            !(r.0 is Ready) ==> final(self).deps() == old(self).deps(),
            forall|s: FloScriptSymbol| s != symbol ==> final(self).reader_of(s) == old(self).reader_of(s),
            old(self).reader_of(symbol) is Some ==> final(self).reader_of(symbol) == old(self).reader_of(symbol),
            !(r.0 is Failed) ==> final(self).reader_of(symbol) is Some,
            old(self).reader_of(symbol) is None && failed_read(symbol, old(namespace).definition(symbol)) is Some
                ==> r.0 is Failed,
            match old(self).reader_of(symbol) {
                Some(reader) => match old(namespace).definition(symbol) {
                    Some(SymbolDefinition::Input(_)) => exists|p: StreamPoll<ScriptValue>|
                        GluonScriptNamespace::state_poll_result(*old(namespace), symbol, reader, p, *final(namespace))
                        && mirrors(p, r.0),
                    Some(SymbolDefinition::ActiveScript(_)) => exists|p: StreamPoll<ScriptValue>|
                        GluonScriptNamespace::state_poll_result(*old(namespace), symbol, reader, p, *final(namespace))
                        && mirrors(p, r.0),
                    _ => r.0 is Failed,
                },
                None => exists|mid: GluonScriptNamespace<S, W>, made: FloScriptResult<usize>|
                    GluonScriptNamespace::state_reader_made(*old(namespace), symbol, symbol_type, made, mid)
                    && match made {
                        Err(_) => r.0 is Failed && *final(namespace) == mid && final(self).reader_of(symbol) is None
                            && r.1@.len() == 0,
                        Ok(id) => final(self).reader_of(symbol) == Some(id) && match mid.definition(symbol) {
                            Some(SymbolDefinition::Input(_)) => exists|p: StreamPoll<ScriptValue>|
                                GluonScriptNamespace::state_poll_result(mid, symbol, id, p, *final(namespace))
                                && mirrors(p, r.0),
                            Some(SymbolDefinition::ActiveScript(_)) => exists|p: StreamPoll<ScriptValue>|
                                GluonScriptNamespace::state_poll_result(mid, symbol, id, p, *final(namespace))
                                && mirrors(p, r.0),
                            _ => r.0 is Failed,
                        },
                    },
            },
    {
        let ghost mut made: FloScriptResult<usize> = Ok(0usize);
        let reader = match self.find(symbol) {
            Some(i) => {
                assert(self.readers()[i as int].1 == self.active_streams@[i as int].1);
                self.active_streams[i].1
            },
            None => {
                let result = namespace.read_state_stream(symbol, symbol_type, compile);
                proof {
                    made = result;
                }
                match result {
                    Ok(reader) => {
                        self.set_stream(symbol, reader);
                        reader
                    },
                    Err(_) => {
                        let r = (ResolvePoll::Failed, Vec::new());
                        proof {
                            assert(self.reader_of(symbol) is None);
                            assert(GluonScriptNamespace::state_reader_made(*old(namespace), symbol, symbol_type, made, *namespace));
                        }
                        return r;
                    },
                }
            },
        };
        let ghost held = self.readers();
        assert(self.reader_of(symbol) is Some);
        let ghost before_poll = *namespace;
        let polled = namespace.poll_state(symbol, reader, poll_task);
        proof {
            if polled is Ok {
                assert(GluonScriptNamespace::state_poll_result(before_poll, symbol, reader, polled->Ok_0.0, *namespace));
            }
        }
        let ghost held_before = old(self).reader_of(symbol) is Some;
        let ghost polled_ghost = polled;
        let r = match polled {
            Ok((StreamPoll::Ready(Some(value)), to_wake)) => {
                let added = StateDependencies::with_dependency(symbol.id());
                self.dependencies.merge_with(&added);
                proof {
                    assert(self.deps() =~= old(self).deps().insert(symbol@));
                    assert(self.readers() == held);
                }
                (ResolvePoll::Ready(value), to_wake)
            },
            Ok((StreamPoll::Ready(None), to_wake)) => (ResolvePoll::NotReady, to_wake),
            Ok((StreamPoll::NotReady, to_wake)) => (ResolvePoll::NotReady, to_wake),
            Ok((StreamPoll::Failed, to_wake)) => (ResolvePoll::Failed, to_wake),
            Err(_) => (ResolvePoll::Failed, Vec::new()),
        };
        proof {
            if held_before && polled_ghost is Ok {
                assert(before_poll == *old(namespace));
                assert(Some(reader) == old(self).reader_of(symbol));
                assert(mirrors(polled_ghost->Ok_0.0, r.0));
            }
            if !held_before {
                assert(made == Ok::<usize, FloScriptError>(reader));
                assert(GluonScriptNamespace::state_reader_made(*old(namespace), symbol, symbol_type, made, before_poll));
                if polled_ghost is Ok {
                    assert(mirrors(polled_ghost->Ok_0.0, r.0));
                }
            }
        }
        r
    }
}

} // verus!
