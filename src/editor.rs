use crate::error::{FloScriptError, FloScriptResult};
use crate::namespace::{CompiledScript, GluonScriptNamespace, SymbolDefinition};
use crate::script_type::{ScriptTypeDescription, ScriptValue};
use crate::stream_core::Upstream;
use crate::symbol::FloScriptSymbol;
use vstd::prelude::*;

verus! {

/// Represents an edit to a script
pub enum ScriptEdit {
    /// Removes all inputs and scripts from the editor
    Clear,
    /// Remove the current definition of a single symbol from the editor
    UndefineSymbol(FloScriptSymbol),
    /// Specifies that a particular symbol is used for input and receives values of the specified type
    SetInputType(FloScriptSymbol, ScriptTypeDescription),
    /// Specifies that a particular symbol is a streaming script, with the script to evaluate
    SetStreamingScript(FloScriptSymbol, String),
    /// Specifies that a particular symbol is a computing script, with the script to evaluate
    ///
    /// Inputs are read as states, and the value is recomputed whenever one of the inputs it
    /// read changes. Nothing is computed until the first value is read.
    SetComputingScript(FloScriptSymbol, String),
    /// Performs one or more edits in a namespace (names declared in this namespace are only
    /// visible from scripts that are also in that namespace)
    WithNamespace(FloScriptSymbol, Vec<ScriptEdit>),
}

/// Actions available for editing a script host
pub enum GluonScriptEdit {
    /// A standard script editing action
    ScriptEdit(ScriptEdit),
    /// Sets whether or not I/O expressions are evaluated
    SetRunIo(bool),
}

/// The definitions `before` an edit of one symbol and `after` it agree on every other symbol
pub open spec fn others_unchanged<S, W>(
    before: Map<u64, SymbolDefinition<S, W>>,
    after: Map<u64, SymbolDefinition<S, W>>,
    symbol: FloScriptSymbol,
) -> bool {
    forall|k: u64|
        k != symbol@ ==> (after.contains_key(k) <==> before.contains_key(k)) && (
        before.contains_key(k) ==> after[k] == before[k])
}

/// What one edit does to the namespace it is applied to, where the effect of a
/// `WithNamespace` edit inside its sub-namespace is left out
pub open spec fn edit_applied_shallow<S, W>(
    before: GluonScriptNamespace<S, W>,
    edit: ScriptEdit,
    r: FloScriptResult<()>,
    after: GluonScriptNamespace<S, W>,
) -> bool {
    &&& after.runs_io() == before.runs_io()
    &&& match edit {
        ScriptEdit::Clear => r == Ok::<(), FloScriptError>(()) && after.definitions() == Map::<
            u64,
            SymbolDefinition<S, W>,
        >::empty(),
        ScriptEdit::UndefineSymbol(symbol) => r == Ok::<(), FloScriptError>(()) && after.definitions()
            == before.definitions().remove(symbol@),
        ScriptEdit::SetInputType(symbol, input_type) => {
            &&& r == Ok::<(), FloScriptError>(())
            &&& after.definitions() == before.definitions().insert(
                symbol@,
                after.definitions()[symbol@],
            )
            &&& after.definitions()[symbol@] is Input
            &&& after.definitions()[symbol@]->Input_0.symbol_type() == input_type
            &&& after.definitions()[symbol@]->Input_0.is_fresh()
        },
        ScriptEdit::SetStreamingScript(symbol, script) => r == Ok::<(), FloScriptError>(()) && after.definitions()
            == before.definitions().insert(symbol@, SymbolDefinition::Streaming(script)),
        ScriptEdit::SetComputingScript(symbol, script) => r == Ok::<(), FloScriptError>(()) && after.definitions()
            == before.definitions().insert(symbol@, SymbolDefinition::Computing(script)),
        ScriptEdit::WithNamespace(symbol, _) => {
            &&& others_unchanged(before.definitions(), after.definitions(), symbol)
            &&& match before.definition(symbol) {
                None => r == Ok::<(), FloScriptError>(()) && after.definitions().contains_key(symbol@)
                    && after.definitions()[symbol@] is Namespace,
                Some(SymbolDefinition::Namespace(_)) => r == Ok::<(), FloScriptError>(())
                    && after.definitions().contains_key(symbol@) && after.definitions()[symbol@] is Namespace,
                _ => r == Err::<(), _>(FloScriptError::NotANamespace) && after.definitions()
                    == before.definitions(),
            }
        },
    }
}

/// What one edit does to the definitions of the namespace it is applied to
pub open spec fn edit_applied<S, W>(
    before: GluonScriptNamespace<S, W>,
    edit: ScriptEdit,
    r: FloScriptResult<()>,
    after: GluonScriptNamespace<S, W>,
) -> bool {
    &&& after.runs_io() == before.runs_io()
    &&& match edit {
        ScriptEdit::Clear => r == Ok::<(), FloScriptError>(()) && after.definitions() == Map::<
            u64,
            SymbolDefinition<S, W>,
        >::empty(),
        ScriptEdit::UndefineSymbol(symbol) => r == Ok::<(), FloScriptError>(()) && after.definitions()
            == before.definitions().remove(symbol@),
        ScriptEdit::SetInputType(symbol, input_type) => {
            &&& r == Ok::<(), FloScriptError>(())
            &&& after.definitions() == before.definitions().insert(
                symbol@,
                after.definitions()[symbol@],
            )
            &&& after.definitions()[symbol@] is Input
            &&& after.definitions()[symbol@]->Input_0.symbol_type() == input_type
            &&& after.definitions()[symbol@]->Input_0.is_fresh()
        },
        ScriptEdit::SetStreamingScript(symbol, script) => r == Ok::<(), FloScriptError>(()) && after.definitions()
            == before.definitions().insert(symbol@, SymbolDefinition::Streaming(script)),
        ScriptEdit::SetComputingScript(symbol, script) => r == Ok::<(), FloScriptError>(()) && after.definitions()
            == before.definitions().insert(symbol@, SymbolDefinition::Computing(script)),
        ScriptEdit::WithNamespace(symbol, edits) => {
            &&& others_unchanged(before.definitions(), after.definitions(), symbol)
            &&& match before.definition(symbol) {
                None => {
                    &&& r == Ok::<(), FloScriptError>(())
                    &&& after.definitions().contains_key(symbol@)
                    &&& after.definitions()[symbol@] is Namespace
                    &&& exists|start: GluonScriptNamespace<S, W>|
                        start.definitions() == Map::<u64, SymbolDefinition<S, W>>::empty()
                            && !start.runs_io() && edits_applied(
                            start,
                            edits@,
                            *after.definitions()[symbol@]->Namespace_0,
                        )
                },
                Some(SymbolDefinition::Namespace(child)) => {
                    &&& r == Ok::<(), FloScriptError>(())
                    &&& after.definitions().contains_key(symbol@)
                    &&& after.definitions()[symbol@] is Namespace
                    &&& edits_applied(*child, edits@, *after.definitions()[symbol@]->Namespace_0)
                },
                _ => r == Err::<(), _>(FloScriptError::NotANamespace) && after.definitions()
                    == before.definitions(),
            }
        },
    }
}

/// `edits` were applied to `before` one after the other, giving `after` (whatever each
/// edit returned); each step is described by `edit_applied_shallow`
pub open spec fn edits_applied<S, W>(
    before: GluonScriptNamespace<S, W>,
    edits: Seq<ScriptEdit>,
    after: GluonScriptNamespace<S, W>,
) -> bool
    decreases edits,
{
    if edits.len() == 0 {
        after == before
    } else {
        exists|mid: GluonScriptNamespace<S, W>, r: FloScriptResult<()>|
            edit_applied_shallow(before, edits[0], r, mid) && edits_applied(
                mid,
                edits.subrange(1, edits.len() as int),
                after,
            )
    }
}

/// Applying `edits` and then `edit` is applying `edits` followed by `edit`
proof fn lemma_edits_applied_push<S, W>(
    a: GluonScriptNamespace<S, W>,
    edits: Seq<ScriptEdit>,
    b: GluonScriptNamespace<S, W>,
    edit: ScriptEdit,
    r: FloScriptResult<()>,
    c: GluonScriptNamespace<S, W>,
)
    requires
        edits_applied(a, edits, b),
        edit_applied_shallow(b, edit, r, c),
    ensures
        edits_applied(a, edits.push(edit), c),
    decreases edits,
{
    reveal_with_fuel(edits_applied, 2);
    let pushed = edits.push(edit);
    assert(pushed[0] == if edits.len() == 0 { edit } else { edits[0] });
    if edits.len() == 0 {
        assert(a == b);
        assert(pushed.subrange(1, pushed.len() as int) =~= Seq::<ScriptEdit>::empty());
        assert(edits_applied(c, pushed.subrange(1, pushed.len() as int), c));
        assert(edit_applied_shallow(a, pushed[0], r, c));
    } else {
        let (mid, r0) = choose|mid: GluonScriptNamespace<S, W>, r0: FloScriptResult<()>|
            edit_applied_shallow(a, edits[0], r0, mid) && edits_applied(
                mid,
                edits.subrange(1, edits.len() as int),
                b,
            );
        lemma_edits_applied_push(mid, edits.subrange(1, edits.len() as int), b, edit, r, c);
        assert(pushed.subrange(1, pushed.len() as int) =~= edits.subrange(1, edits.len() as int).push(edit));
        assert(edit_applied_shallow(a, pushed[0], r0, mid));
    }
}

/// An edit does at least what `edit_applied_shallow` says
proof fn lemma_edit_applied_is_shallow<S, W>(
    before: GluonScriptNamespace<S, W>,
    edit: ScriptEdit,
    r: FloScriptResult<()>,
    after: GluonScriptNamespace<S, W>,
)
    requires
        edit_applied(before, edit, r, after),
    ensures
        edit_applied_shallow(before, edit, r, after),
{
}

/// Core of a script host: the root namespace, and the edits that change it
pub struct GluonScriptHostCore<S, W> {
    /// The root namespace
    root_namespace: GluonScriptNamespace<S, W>,
}

impl<S, W> GluonScriptHostCore<S, W> {
    /// The root namespace
    pub closed spec fn root(self) -> GluonScriptNamespace<S, W> {
        self.root_namespace
    }
}

impl<S: Upstream<ScriptValue>, W> GluonScriptHostCore<S, W> {
    /// Creates a new script core with an empty root namespace
    pub fn new() -> (r: GluonScriptHostCore<S, W>)
        ensures
            r.root().definitions() == Map::<u64, SymbolDefinition<S, W>>::empty(),
            !r.root().runs_io(),
    {
        GluonScriptHostCore { root_namespace: GluonScriptNamespace::new() }
    }

    /// Perform an edit on a namespace
    ///
    /// Edits inside `WithNamespace` go to the sub-namespace, which is created if the symbol
    /// is undefined; no other symbol of this namespace is touched.
    pub fn edit_namespace(namespace: &mut GluonScriptNamespace<S, W>, edit: ScriptEdit) -> (r:
        FloScriptResult<()>)
        ensures
            edit_applied(*old(namespace), edit, r, *final(namespace)),
        decreases edit,
    {
        match edit {
            ScriptEdit::Clear => {
                namespace.clear();
                Ok(())
            },
            ScriptEdit::UndefineSymbol(symbol) => {
                namespace.undefine_symbol(symbol);
                Ok(())
            },
            ScriptEdit::SetInputType(symbol, input_type) => {
                namespace.define_input_symbol(symbol, input_type);
                Ok(())
            },
            ScriptEdit::SetStreamingScript(symbol, script_src) => {
                namespace.set_streaming_script(symbol, script_src);
                Ok(())
            },
            ScriptEdit::SetComputingScript(symbol, script_src) => {
                namespace.set_computing_script(symbol, script_src);
                Ok(())
            },
            ScriptEdit::WithNamespace(symbol, edits) => {
                let created = namespace.get_or_create_namespace(symbol);
                if created.is_err() {
                    return created;
                }
                let ghost prepared = *namespace;
                let mut child = match namespace.take_namespace(symbol) {
                    Some(child) => child,
                    None => {
                        return Err(FloScriptError::NotANamespace);
                    },
                };
                let ghost start = child;
                let ghost all = edits@;
                let mut remaining = edits;
                let ghost mut k: int = 0;
                proof {
                    assert(all.subrange(0, 0) =~= Seq::<ScriptEdit>::empty());
                }
                while remaining.len() > 0
                    invariant
                        0 <= k <= all.len(),
                        k + remaining@.len() == all.len(),
                        remaining@ == all.subrange(k, all.len() as int),
                        all == edits@,
                        edit == ScriptEdit::WithNamespace(symbol, edits),
                        edits_applied(start, all.subrange(0, k), child),
                    decreases remaining@.len(),
                {
                    let next = remaining.remove(0);
                    proof {
                        assert(next == all[k]);
                        assert(decreases_to!(edit => edit->WithNamespace_1));
                        assert(decreases_to!(edits => edits@));
                        assert(decreases_to!(edits@ => edits@[k]));
                    }
                    let ghost before_child = child;
                    let result = Self::edit_namespace(&mut child, next);
                    proof {
                        lemma_edit_applied_is_shallow(before_child, next, result, child);
                        lemma_edits_applied_push(start, all.subrange(0, k), before_child, next, result, child);
                        assert(all.subrange(0, k).push(next) =~= all.subrange(0, k + 1));
                        k = k + 1;
                    }
                }
                proof {
                    assert(all.subrange(0, k) =~= all);
                }
                namespace.put_namespace(symbol, child);
                proof {
                    assert(*namespace.definitions()[symbol@]->Namespace_0 == child);
                    if old(namespace).definition(symbol) is None {
                        assert(start.definitions() == Map::<u64, SymbolDefinition<S, W>>::empty());
                        assert(!start.runs_io());
                        assert(edits_applied(start, edits@, child));
                    }
                    assert(others_unchanged(old(namespace).definitions(), namespace.definitions(), symbol));
                }
                Ok(())
            },
        }
    }

    /// Performs an edit action on this core
    pub fn edit(&mut self, edit: GluonScriptEdit) -> (r: FloScriptResult<()>)
        ensures
            match edit {
                GluonScriptEdit::ScriptEdit(e) => edit_applied(old(self).root(), e, r, final(self).root()),
                GluonScriptEdit::SetRunIo(run_io) => r is Ok && final(self).root().runs_io() == run_io
                    && final(self).root().definitions() == old(self).root().definitions(),
            },
    {
        match edit {
            GluonScriptEdit::ScriptEdit(e) => Self::edit_namespace(&mut self.root_namespace, e),
            GluonScriptEdit::SetRunIo(run_io) => {
                self.root_namespace.set_run_io(run_io);
                Ok(())
            },
        }
    }

    /// Creates a stream to read from a particular symbol of the root namespace
    ///
    /// See `GluonScriptNamespace::read_stream`.
    pub fn read_stream<F: FnOnce(String, bool) -> Result<CompiledScript<S>, String>>(
        &mut self,
        symbol: FloScriptSymbol,
        symbol_type: ScriptTypeDescription,
        compile: F,
    ) -> (r: FloScriptResult<usize>)
        requires
            forall|text: String, run_io: bool| compile.requires((text, run_io)),
        ensures
            final(self).root().runs_io() == old(self).root().runs_io(),
            GluonScriptNamespace::read_outcome(old(self).root(), symbol, symbol_type, r, final(self).root()),
            match old(self).root().definition(symbol) {
                Some(SymbolDefinition::Input(source)) => final(self).root().definitions()[symbol@] is Input
                    && GluonScriptNamespace::history_read(source, symbol_type, r, final(self).root().definitions()[symbol@]->Input_0),
                Some(SymbolDefinition::ActiveScript(source)) => final(self).root().definitions()[symbol@] is ActiveScript
                    && GluonScriptNamespace::history_read(source, symbol_type, r, final(self).root().definitions()[symbol@]->ActiveScript_0),
                Some(SymbolDefinition::Computing(text)) => exists|compiled: Result<CompiledScript<S>, String>|
                    compile.ensures((text, old(self).root().runs_io()), compiled)
                    && GluonScriptNamespace::materialised(old(self).root(), symbol, symbol_type, false, compiled, r, final(self).root()),
                _ => true,
            },
    {
        self.root_namespace.read_stream(symbol, symbol_type, compile)
    }

    /// Attaches an input stream to a particular symbol of the root namespace
    ///
    /// See `GluonScriptNamespace::attach_input`.
    pub fn attach_input(&mut self, symbol: FloScriptSymbol, stream_type: ScriptTypeDescription, input: S) -> (r: FloScriptResult<Vec<W>>)
        ensures
            final(self).root().runs_io() == old(self).root().runs_io(),
            final(self).root().definitions().dom() == old(self).root().definitions().dom(),
            forall|k: u64| k != symbol@ && old(self).root().definitions().contains_key(k)
                ==> final(self).root().definitions()[k] == old(self).root().definitions()[k],
            match old(self).root().definition(symbol) {
                None => r == Err::<Vec<W>, _>(FloScriptError::UndefinedSymbol(symbol)),
                Some(SymbolDefinition::Input(source)) => {
                    &&& final(self).root().definitions()[symbol@] is Input
                    &&& (stream_type == source.symbol_type()) == (r is Ok)
                    &&& r is Err ==> r == Err::<Vec<W>, _>(FloScriptError::IncorrectType)
                    &&& r is Ok ==> final(self).root().definitions()[symbol@]->Input_0.stream().source() == Some(input)
                },
                _ => r == Err::<Vec<W>, _>(FloScriptError::NotAnInputSymbol)
                    && final(self).root().definitions() == old(self).root().definitions(),
            },
    {
        self.root_namespace.attach_input(symbol, stream_type, input)
    }

    /// The root namespace
    pub fn root_namespace(&self) -> (r: &GluonScriptNamespace<S, W>)
        ensures
            *r == self.root(),
    {
        &self.root_namespace
    }

    /// The root namespace, to read from or attach inputs to
    pub fn root_namespace_mut(&mut self) -> (r: &mut GluonScriptNamespace<S, W>)
        ensures
            *r == old(self).root(),
            final(self).root() == *final(r),
    {
        &mut self.root_namespace
    }
}


/// Two sets of definitions look the same at this level: the same symbols are defined, each
/// as the same kind of thing, with the same type or the same script text (what two
/// sub-namespaces hold is not compared)
pub open spec fn same_kinds<S, W>(
    a: Map<u64, SymbolDefinition<S, W>>,
    b: Map<u64, SymbolDefinition<S, W>>,
) -> bool {
    &&& a.dom() == b.dom()
    &&& forall|k: u64|
        a.contains_key(k) ==> match (a[k], b[k]) {
            (SymbolDefinition::Input(x), SymbolDefinition::Input(y)) => x.symbol_type()
                == y.symbol_type(),
            (SymbolDefinition::ActiveScript(x), SymbolDefinition::ActiveScript(y)) => x.symbol_type()
                == y.symbol_type(),
            (SymbolDefinition::ScriptError(x), SymbolDefinition::ScriptError(y)) => x == y,
            (SymbolDefinition::Computing(x), SymbolDefinition::Computing(y)) => x == y,
            (SymbolDefinition::Streaming(x), SymbolDefinition::Streaming(y)) => x == y,
            (SymbolDefinition::Namespace(_), SymbolDefinition::Namespace(_)) => true,
            _ => false,
        }
}

/// After `Clear`, any two namespaces look the same, whatever they held before.
pub proof fn lemma_clear_forgets<S, W>(
    a0: GluonScriptNamespace<S, W>,
    b0: GluonScriptNamespace<S, W>,
    ra: FloScriptResult<()>,
    rb: FloScriptResult<()>,
    a1: GluonScriptNamespace<S, W>,
    b1: GluonScriptNamespace<S, W>,
)
    requires
        edit_applied(a0, ScriptEdit::Clear, ra, a1),
        edit_applied(b0, ScriptEdit::Clear, rb, b1),
    ensures
        same_kinds(a1.definitions(), b1.definitions()),
{
}

/// Applying the same edit to two namespaces that look the same (by `same_kinds`) gives the
/// same result and two namespaces that still look the same; so `Clear` followed by the same
/// definitions gives the same symbols, kinds, types and scripts at this level.
pub proof fn lemma_same_edits_same_notebook<S, W>(
    a0: GluonScriptNamespace<S, W>,
    b0: GluonScriptNamespace<S, W>,
    edit: ScriptEdit,
    ra: FloScriptResult<()>,
    rb: FloScriptResult<()>,
    a1: GluonScriptNamespace<S, W>,
    b1: GluonScriptNamespace<S, W>,
)
    requires
        same_kinds(a0.definitions(), b0.definitions()),
        edit_applied(a0, edit, ra, a1),
        edit_applied(b0, edit, rb, b1),
    ensures
        same_kinds(a1.definitions(), b1.definitions()),
        ra == rb,
{
    match edit {
        ScriptEdit::WithNamespace(symbol, _) => {
            let k = symbol@;
            if a0.definitions().contains_key(k) {
                assert(b0.definitions().contains_key(k));
                let x = a0.definitions()[k];
                let y = b0.definitions()[k];
                if x is Namespace {
                    assert(y is Namespace);
                } else {
                    assert(!(y is Namespace));
                }
            } else {
                assert(!b0.definitions().dom().contains(k));
            }
            assert forall|j: u64| a1.definitions().contains_key(j) <==> b1.definitions().contains_key(j) by {
                if j != k {
                    assert(a0.definitions().contains_key(j) <==> b0.definitions().contains_key(j));
                }
            }
            assert(a1.definitions().dom() =~= b1.definitions().dom());
        },
        ScriptEdit::Clear => {
            assert(a1.definitions().dom() =~= b1.definitions().dom());
        },
        ScriptEdit::UndefineSymbol(symbol) => {
            assert(a1.definitions().dom() =~= b1.definitions().dom());
        },
        ScriptEdit::SetInputType(symbol, _) => {
            assert(a1.definitions().dom() =~= b1.definitions().dom());
        },
        ScriptEdit::SetStreamingScript(symbol, _) => {
            assert(a1.definitions().dom() =~= b1.definitions().dom());
        },
        ScriptEdit::SetComputingScript(symbol, _) => {
            assert(a1.definitions().dom() =~= b1.definitions().dom());
        },
    }
}

/// Edits inside `WithNamespace(n, ...)` leave every symbol outside `n` as it was.
pub proof fn lemma_namespace_isolation<S, W>(
    before: GluonScriptNamespace<S, W>,
    n: FloScriptSymbol,
    edits: Vec<ScriptEdit>,
    r: FloScriptResult<()>,
    after: GluonScriptNamespace<S, W>,
    other: FloScriptSymbol,
)
    requires
        edit_applied(before, ScriptEdit::WithNamespace(n, edits), r, after),
        other@ != n@,
    ensures
        after.definition(other) == before.definition(other),
{
}

} // verus!
