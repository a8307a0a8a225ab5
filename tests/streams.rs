use flo_script::computing_script::{ComputingAction, ComputingScriptState, ComputingScriptStream, EvaluationPoll};
use flo_script::derived_state::{DerivedStateData, ResolvePoll};
use flo_script::editor::{GluonScriptEdit, GluonScriptHostCore, ScriptEdit};
use flo_script::error::FloScriptError;
use flo_script::namespace::{CompiledScript, GluonScriptNamespace, ScriptOutputType, check_output_type};
use flo_script::script_type::{ScriptType, ScriptTypeDescription, ScriptValue};
use flo_script::state::{flat_map, wrap, State, StateDependencies};
use flo_script::stream_core::{InputStreamCore, StreamPoll, Upstream, UpstreamPoll};
use flo_script::symbol::{FloScriptSymbol, SymbolRegistry};
use std::cell::Cell;
use std::rc::Rc;


/// An upstream that yields the given values, then either ends or stays not ready
struct ListUpstream {
    items: Vec<ScriptValue>,
    next: usize,
    ends: bool,
    polls: Rc<Cell<usize>>,
}

impl ListUpstream {
    fn ending(items: Vec<ScriptValue>) -> ListUpstream {
        ListUpstream { items, next: 0, ends: true, polls: Rc::new(Cell::new(0)) }
    }

    fn open(items: Vec<ScriptValue>) -> ListUpstream {
        ListUpstream { items, next: 0, ends: false, polls: Rc::new(Cell::new(0)) }
    }
}

impl Upstream<ScriptValue> for ListUpstream {
    fn poll_next(&mut self) -> UpstreamPoll<ScriptValue> {
        self.polls.set(self.polls.get() + 1);
        if self.next < self.items.len() {
            self.next += 1;
            UpstreamPoll::Item(self.items[self.next - 1])
        } else if self.ends {
            UpstreamPoll::Finished
        } else {
            UpstreamPoll::NotReady
        }
    }
}

fn i32s(values: &[i32]) -> Vec<ScriptValue> {
    values.iter().map(|v| ScriptValue::I32(*v)).collect()
}

type Host = GluonScriptHostCore<ListUpstream, ()>;

fn no_compiler(_text: String, _run_io: bool) -> Result<CompiledScript<ListUpstream>, String> {
    Err("no compiler".to_string())
}

fn edit(host: &mut Host, edit: ScriptEdit) {
    host.edit(GluonScriptEdit::ScriptEdit(edit)).expect("edit");
}

fn next_history(ns: &mut GluonScriptNamespace<ListUpstream, ()>, symbol: FloScriptSymbol, reader: usize) -> StreamPoll<ScriptValue> {
    ns.poll_stream(symbol, reader, ()).expect("poll").0
}

fn next_state(ns: &mut GluonScriptNamespace<ListUpstream, ()>, symbol: FloScriptSymbol, reader: usize) -> StreamPoll<ScriptValue> {
    ns.poll_state(symbol, reader, ()).expect("poll").0
}

fn is_value(p: &StreamPoll<ScriptValue>, v: i32) -> bool {
    matches!(p, StreamPoll::Ready(Some(ScriptValue::I32(x))) if *x == v)
}

fn is_end(p: &StreamPoll<ScriptValue>) -> bool {
    matches!(p, StreamPoll::Ready(None))
}

#[test]
fn read_input_stream_as_output() {
    let mut registry = SymbolRegistry::new();
    let mut host = Host::new();
    let input_x = FloScriptSymbol::with_name(&mut registry, "x");

    edit(&mut host, ScriptEdit::SetInputType(input_x, i32::description()));

    // Start reading the stream before attaching some output
    let ns = host.root_namespace_mut();
    let output_x_stream = ns.read_stream(input_x, i32::description(), no_compiler).expect("output stream");

    // Send some data to the input
    ns.attach_input(input_x, i32::description(), ListUpstream::ending(i32s(&[1, 2, 3]))).expect("attaching input");

    // Should be able to read the items from the input stream
    assert!(is_value(&next_history(ns, input_x, output_x_stream), 1));
    assert!(is_value(&next_history(ns, input_x, output_x_stream), 2));
    assert!(is_value(&next_history(ns, input_x, output_x_stream), 3));
    assert!(is_end(&next_history(ns, input_x, output_x_stream)));
}

#[test]
fn read_input_stream_as_state() {
    let mut registry = SymbolRegistry::new();
    let mut host = Host::new();
    let input_x = FloScriptSymbol::with_name(&mut registry, "x");

    edit(&mut host, ScriptEdit::SetInputType(input_x, i32::description()));

    // Start reading the stream before attaching some output
    let ns = host.root_namespace_mut();
    let output_x_stream = ns.read_state_stream(input_x, i32::description(), no_compiler).expect("output state");

    // Send some data to the input
    ns.attach_input(input_x, i32::description(), ListUpstream::ending(i32s(&[1, 2, 3]))).expect("attaching input");

    // Only the most recent state is considered 'interesting' so we should just read '3' here
    assert!(is_value(&next_state(ns, input_x, output_x_stream), 3));
    assert!(is_end(&next_state(ns, input_x, output_x_stream)));
}

#[test]
fn cannot_read_input_stream_as_wrong_type() {
    let mut registry = SymbolRegistry::new();
    let mut host = Host::new();
    let input_x = FloScriptSymbol::with_name(&mut registry, "x");

    edit(&mut host, ScriptEdit::SetInputType(input_x, i32::description()));

    let ns = host.root_namespace_mut();
    assert!(ns.read_stream(input_x, u32::description(), no_compiler).err().unwrap() == FloScriptError::IncorrectType);
}

#[test]
fn cannot_read_input_after_undefining() {
    let mut registry = SymbolRegistry::new();
    let mut host = Host::new();
    let input_x = FloScriptSymbol::with_name(&mut registry, "x");

    edit(&mut host, ScriptEdit::SetInputType(input_x, i32::description()));
    assert!(host.root_namespace_mut().read_stream(input_x, i32::description(), no_compiler).is_ok());

    edit(&mut host, ScriptEdit::UndefineSymbol(input_x));
    assert!(host.root_namespace_mut().read_stream(input_x, u32::description(), no_compiler).err().unwrap() == FloScriptError::UndefinedSymbol(input_x));
}

#[test]
fn cannot_read_missing_input_stream() {
    let mut registry = SymbolRegistry::new();
    let mut host = Host::new();
    let input_x = FloScriptSymbol::with_name(&mut registry, "x");

    assert!(host.root_namespace_mut().read_stream(input_x, i32::description(), no_compiler).err().unwrap() == FloScriptError::UndefinedSymbol(input_x));
}

#[test]
fn history_readers_fan_out() {
    let mut registry = SymbolRegistry::new();
    let mut host = Host::new();
    let x = FloScriptSymbol::with_name(&mut registry, "x");
    edit(&mut host, ScriptEdit::SetInputType(x, ScriptTypeDescription::I32));

    let ns = host.root_namespace_mut();
    let r1 = ns.read_stream(x, ScriptTypeDescription::I32, no_compiler).unwrap();
    let r2 = ns.read_stream(x, ScriptTypeDescription::I32, no_compiler).unwrap();
    assert_ne!(r1, r2);
    ns.attach_input(x, ScriptTypeDescription::I32, ListUpstream::ending(i32s(&[1, 2, 3]))).unwrap();

    for reader in [r1, r2] {
        assert!(is_value(&next_history(ns, x, reader), 1));
        assert!(is_value(&next_history(ns, x, reader), 2));
        assert!(is_value(&next_history(ns, x, reader), 3));
        assert!(is_end(&next_history(ns, x, reader)));
    }
}

#[test]
fn state_reader_sees_only_the_latest() {
    let mut core: InputStreamCore<ScriptValue, ListUpstream, ()> = InputStreamCore::new();
    let s = core.allocate_new_state_stream();
    core.replace_stream(ListUpstream::open(i32s(&[1, 2, 3])));

    assert!(is_value(&core.poll_state(s, ()).0, 3));
    // Nothing new yet: the reader waits
    assert!(matches!(core.poll_state(s, ()).0, StreamPoll::NotReady));

    // A new state reader starts from the latest value
    let late = core.allocate_new_state_stream();
    assert!(is_value(&core.poll_state(late, ()).0, 3));
}

#[test]
fn one_slow_reader_holds_back_the_upstream() {
    let mut core: InputStreamCore<ScriptValue, ListUpstream, ()> = InputStreamCore::with_max_buffer(2);
    let slow = core.allocate_stream();
    let fast = core.allocate_stream();
    let upstream = ListUpstream::open(i32s(&[1, 2, 3, 4, 5]));
    let polls = Rc::clone(&upstream.polls);
    core.replace_stream(upstream);

    assert!(is_value(&core.poll_stream(fast, ()).0, 1));
    assert_eq!(polls.get(), 2);
    assert!(is_value(&core.poll_stream(fast, ()).0, 2));
    // The slow reader's buffer is full: the upstream is not polled again
    assert!(matches!(core.poll_stream(fast, ()).0, StreamPoll::NotReady));
    assert_eq!(polls.get(), 2);

    // Once the slow reader catches up, reading resumes
    assert!(is_value(&core.poll_stream(slow, ()).0, 1));
    assert!(is_value(&core.poll_stream(slow, ()).0, 2));
    assert!(is_value(&core.poll_stream(slow, ()).0, 3));
    assert!(is_value(&core.poll_stream(fast, ()).0, 3));
}

#[test]
fn late_reader_starts_with_the_fullest_buffer() {
    let mut core: InputStreamCore<ScriptValue, ListUpstream, ()> = InputStreamCore::new();
    let first = core.allocate_stream();
    let second = core.allocate_stream();
    core.replace_stream(ListUpstream::open(i32s(&[1, 2, 3])));

    assert!(is_value(&core.poll_stream(first, ()).0, 1));
    assert!(is_value(&core.poll_stream(first, ()).0, 2));

    // 'second' still holds 1, 2, 3: a new reader copies it
    let late = core.allocate_stream();
    assert!(is_value(&core.poll_stream(late, ()).0, 1));
    assert!(is_value(&core.poll_stream(late, ()).0, 2));
    assert!(is_value(&core.poll_stream(late, ()).0, 3));
    assert!(matches!(core.poll_stream(late, ()).0, StreamPoll::NotReady));
    assert!(is_value(&core.poll_stream(second, ()).0, 1));
}

#[test]
fn deallocated_reader_reads_nothing() {
    let mut core: InputStreamCore<ScriptValue, ListUpstream, ()> = InputStreamCore::new();
    let reader = core.allocate_stream();
    core.replace_stream(ListUpstream::ending(i32s(&[7])));
    core.deallocate_stream(reader);
    assert!(is_end_pair(&core.poll_stream(reader, ())));
    assert!(is_end(&core.poll_state(reader, ()).0));
}

fn is_end_pair(p: &(StreamPoll<ScriptValue>, Vec<()>)) -> bool {
    is_end(&p.0)
}

#[test]
fn failed_upstream_is_reported_to_the_polling_reader() {
    struct Failing;
    impl Upstream<ScriptValue> for Failing {
        fn poll_next(&mut self) -> UpstreamPoll<ScriptValue> {
            UpstreamPoll::Failed
        }
    }
    let mut core: InputStreamCore<ScriptValue, Failing, ()> = InputStreamCore::new();
    let reader = core.allocate_stream();
    core.replace_stream(Failing);
    assert!(matches!(core.poll_stream(reader, ()).0, StreamPoll::Failed));
}

#[test]
fn waiting_readers_are_handed_back_to_be_woken() {
    let mut core: InputStreamCore<ScriptValue, ListUpstream, u32> = InputStreamCore::new();
    let a = core.allocate_stream();
    let b = core.allocate_stream();
    core.replace_stream(ListUpstream::open(vec![]));
    assert!(matches!(core.poll_stream(a, 10).0, StreamPoll::NotReady));
    assert!(matches!(core.poll_stream(b, 20).0, StreamPoll::NotReady));
    let to_wake = core.replace_stream(ListUpstream::open(i32s(&[1])));
    assert_eq!(to_wake, vec![10, 20]);
    let (value, to_wake) = core.poll_stream(a, 11);
    assert!(matches!(value, StreamPoll::Ready(Some(ScriptValue::I32(1)))));
    assert!(to_wake.is_empty());
}

#[test]
fn script_errors_are_sticky() {
    let mut registry = SymbolRegistry::new();
    let mut host = Host::new();
    let z = FloScriptSymbol::with_name(&mut registry, "z");
    edit(&mut host, ScriptEdit::SetComputingScript(z, "!!!".to_string()));

    let compiles = Cell::new(0);
    let compile = |_text: String, _run_io: bool| -> Result<CompiledScript<ListUpstream>, String> {
        compiles.set(compiles.get() + 1);
        Err("unexpected token ".to_string())
    };
    let ns = host.root_namespace_mut();
    let first = ns.read_state_stream(z, ScriptTypeDescription::I32, compile).err().unwrap();
    assert_eq!(first, FloScriptError::ScriptError("unexpected token ".to_string()));
    let second = ns.read_stream(z, ScriptTypeDescription::I32, compile).err().unwrap();
    assert_eq!(second, first);
    assert_eq!(compiles.get(), 1);

    // Redefining the script clears the error
    edit(&mut host, ScriptEdit::SetComputingScript(z, "1".to_string()));
    let ok = |_text: String, _run_io: bool| -> Result<CompiledScript<ListUpstream>, String> {
        Ok(CompiledScript { output_type: ScriptOutputType::Value(ScriptTypeDescription::I32), stream: ListUpstream::ending(i32s(&[1])) })
    };
    assert!(host.root_namespace_mut().read_state_stream(z, ScriptTypeDescription::I32, ok).is_ok());
}

#[test]
fn computing_script_is_shared_through_an_input_source() {
    let mut registry = SymbolRegistry::new();
    let mut host = Host::new();
    let y = FloScriptSymbol::with_name(&mut registry, "y");
    edit(&mut host, ScriptEdit::SetComputingScript(y, "x + 1".to_string()));

    let derived = |text: String, _run_io: bool| -> Result<CompiledScript<ListUpstream>, String> {
        assert_eq!(text, "x + 1");
        Ok(CompiledScript { output_type: ScriptOutputType::DerivedState(ScriptTypeDescription::I32), stream: ListUpstream::open(i32s(&[4])) })
    };
    let ns = host.root_namespace_mut();
    let reader = ns.read_state_stream(y, ScriptTypeDescription::I32, derived).unwrap();
    assert!(is_value(&next_state(ns, y, reader), 4));

    // Later readers share the running script rather than compiling it again
    let history = ns.read_stream(y, ScriptTypeDescription::I32, no_compiler).unwrap();
    assert_ne!(history, reader);
    assert!(ns.read_stream(y, ScriptTypeDescription::U32, no_compiler).err().unwrap() == FloScriptError::IncorrectType);
}

#[test]
fn script_of_the_wrong_type_is_refused() {
    assert_eq!(check_output_type(ScriptOutputType::Value(ScriptTypeDescription::I32), ScriptTypeDescription::I32), Ok(()));
    assert_eq!(check_output_type(ScriptOutputType::DerivedState(ScriptTypeDescription::I32), ScriptTypeDescription::I32), Ok(()));
    assert_eq!(check_output_type(ScriptOutputType::Value(ScriptTypeDescription::U32), ScriptTypeDescription::I32), Err(FloScriptError::IncorrectType));
    assert_eq!(check_output_type(ScriptOutputType::Other, ScriptTypeDescription::I32), Err(FloScriptError::IncorrectType));

    let mut registry = SymbolRegistry::new();
    let mut host = Host::new();
    let y = FloScriptSymbol::with_name(&mut registry, "y");
    edit(&mut host, ScriptEdit::SetComputingScript(y, "true".to_string()));
    let boolean = |_text: String, _run_io: bool| -> Result<CompiledScript<ListUpstream>, String> {
        Ok(CompiledScript { output_type: ScriptOutputType::Value(ScriptTypeDescription::Bool), stream: ListUpstream::ending(vec![ScriptValue::Bool(true)]) })
    };
    assert!(host.root_namespace_mut().read_state_stream(y, ScriptTypeDescription::I32, boolean).err().unwrap() == FloScriptError::IncorrectType);
}

#[test]
fn derived_state_adds_one_and_remembers_its_input() {
    let mut registry = SymbolRegistry::new();
    let x = FloScriptSymbol::with_name(&mut registry, "x");
    let read_x: State<i32> = State::with_dependency(3, x.id());
    let y = flat_map(|v: i32| wrap(v + 1), read_x);
    assert_eq!(y.value, 4);
    assert!(y.dependencies.contains(x.id()));
    assert!(!y.dependencies.contains(x.id() + 1));
}

#[test]
fn dependencies_merge_as_a_union() {
    let mut a = StateDependencies::with_dependency(1);
    let mut b = StateDependencies::with_dependency(2);
    b.merge_with(&StateDependencies::with_dependency(1));
    a.merge_with(&b);
    assert!(a.contains(1) && a.contains(2) && !a.contains(3));
    let empty = StateDependencies::new();
    assert!(!empty.contains(1));
    let merged = State::new(5).merge_dependencies(a);
    assert_eq!(merged.value, 5);
    assert!(merged.dependencies.contains(2));
}

#[test]
fn clear_then_same_definitions_gives_same_notebook() {
    let mut registry = SymbolRegistry::new();
    let x = FloScriptSymbol::with_name(&mut registry, "x");
    let y = FloScriptSymbol::with_name(&mut registry, "y");
    let mut first = Host::new();
    let mut second = Host::new();
    edit(&mut first, ScriptEdit::SetComputingScript(x, "1".to_string()));
    edit(&mut second, ScriptEdit::SetStreamingScript(y, "2".to_string()));

    for host in [&mut first, &mut second] {
        edit(host, ScriptEdit::Clear);
        edit(host, ScriptEdit::SetInputType(x, ScriptTypeDescription::I32));
    }
    for host in [&mut first, &mut second] {
        let ns = host.root_namespace_mut();
        assert!(ns.read_stream(x, ScriptTypeDescription::U32, no_compiler).err().unwrap() == FloScriptError::IncorrectType);
        assert!(ns.read_stream(y, ScriptTypeDescription::I32, no_compiler).err().unwrap() == FloScriptError::UndefinedSymbol(y));
        assert_eq!(ns.read_stream(x, ScriptTypeDescription::I32, no_compiler), Ok(0));
    }
}

#[test]
fn namespaces_are_isolated() {
    let mut registry = SymbolRegistry::new();
    let n = FloScriptSymbol::with_name(&mut registry, "n");
    let x = FloScriptSymbol::with_name(&mut registry, "x");
    let mut host = Host::new();
    edit(&mut host, ScriptEdit::WithNamespace(n, vec![ScriptEdit::SetInputType(x, ScriptTypeDescription::I32)]));

    let root = host.root_namespace_mut();
    assert!(root.read_stream(x, ScriptTypeDescription::I32, no_compiler).err().unwrap() == FloScriptError::UndefinedSymbol(x));
    assert!(root.read_stream(n, ScriptTypeDescription::I32, no_compiler).err().unwrap() == FloScriptError::CannotReadFromANamespace);
    assert!(root.get_namespace(x).is_none());
    assert!(host.root_namespace().get_namespace(n).is_some());

    // An edit of a symbol that is not a namespace is refused
    edit(&mut host, ScriptEdit::SetInputType(x, ScriptTypeDescription::I32));
    let refused = host.edit(GluonScriptEdit::ScriptEdit(ScriptEdit::WithNamespace(x, vec![ScriptEdit::Clear])));
    assert_eq!(refused, Err(FloScriptError::NotANamespace));
}

#[test]
fn other_errors_have_their_own_kind() {
    let mut registry = SymbolRegistry::new();
    let x = FloScriptSymbol::with_name(&mut registry, "x");
    let s = FloScriptSymbol::with_name(&mut registry, "s");
    let mut host = Host::new();
    edit(&mut host, ScriptEdit::SetStreamingScript(s, "x".to_string()));
    edit(&mut host, ScriptEdit::SetComputingScript(x, "1".to_string()));
    let ns = host.root_namespace_mut();
    assert!(ns.attach_input(x, ScriptTypeDescription::I32, ListUpstream::ending(vec![])).err().unwrap() == FloScriptError::NotAnInputSymbol);
    assert!(matches!(ns.read_stream(s, ScriptTypeDescription::I32, no_compiler), Err(FloScriptError::Unavailable(_))));
    assert!(ns.attach_input(s, ScriptTypeDescription::I32, ListUpstream::ending(vec![])).err().unwrap() == FloScriptError::NotAnInputSymbol);
    let missing = FloScriptSymbol::new(&mut registry);
    assert!(ns.attach_input(missing, ScriptTypeDescription::I32, ListUpstream::ending(vec![])).err().unwrap() == FloScriptError::UndefinedSymbol(missing));
}

#[test]
fn attaching_the_wrong_type_is_refused() {
    let mut registry = SymbolRegistry::new();
    let x = FloScriptSymbol::with_name(&mut registry, "x");
    let mut host = Host::new();
    edit(&mut host, ScriptEdit::SetInputType(x, ScriptTypeDescription::I32));
    let ns = host.root_namespace_mut();
    assert!(ns.attach_input(x, ScriptTypeDescription::U64, ListUpstream::ending(vec![])).err().unwrap() == FloScriptError::IncorrectType);
    assert!(ScriptTypeDescription::I32.is::<i32>());
    assert!(!ScriptTypeDescription::I32.is::<u32>());
    assert_eq!(7i64.into_value(), ScriptValue::I64(7));
    assert_eq!(u64::from_value(ScriptValue::U64(9)), Some(9));
    assert_eq!(u64::from_value(ScriptValue::I32(9)), None);
    assert_eq!(ScriptValue::Bool(true).script_type(), ScriptTypeDescription::Bool);
}

#[test]
fn run_io_affects_only_the_flag() {
    let mut host = Host::new();
    assert!(!host.root_namespace().run_io());
    host.edit(GluonScriptEdit::SetRunIo(true)).unwrap();
    assert!(host.root_namespace().run_io());
}

#[test]
fn derivation_reads_state_and_records_dependency() {
    let mut registry = SymbolRegistry::new();
    let x = FloScriptSymbol::with_name(&mut registry, "x");
    let missing = FloScriptSymbol::with_name(&mut registry, "missing");
    let mut host = Host::new();
    edit(&mut host, ScriptEdit::SetInputType(x, ScriptTypeDescription::I32));
    let ns = host.root_namespace_mut();

    let mut derivation = DerivedStateData::new();
    // No value yet: the derivation waits, but keeps its reader
    assert!(matches!(derivation.resolve(ns, x, ScriptTypeDescription::I32, no_compiler, ()).0, ResolvePoll::NotReady));
    assert!(derivation.has_stream(x));
    assert!(!derivation.dependencies().contains(x.id()));

    ns.attach_input(x, ScriptTypeDescription::I32, ListUpstream::open(i32s(&[3]))).unwrap();
    let (value, _) = derivation.resolve(ns, x, ScriptTypeDescription::I32, no_compiler, ());
    assert!(matches!(value, ResolvePoll::Ready(ScriptValue::I32(3))));
    assert!(derivation.dependencies().contains(x.id()));

    // A symbol that cannot be read fails the derivation
    assert!(matches!(derivation.resolve(ns, missing, ScriptTypeDescription::I32, no_compiler, ()).0, ResolvePoll::Failed));
    assert!(!derivation.has_stream(missing));
    assert!(!derivation.dependencies().contains(missing.id()));
}

#[test]
fn computing_script_steps() {
    assert!(ComputingScriptStream::new(ScriptOutputType::Other, ScriptTypeDescription::I32).is_err());
    assert!(ComputingScriptStream::new(ScriptOutputType::Value(ScriptTypeDescription::U32), ScriptTypeDescription::I32).is_err());

    // A plain value is produced once
    let mut plain = ComputingScriptStream::new(ScriptOutputType::Value(ScriptTypeDescription::I32), ScriptTypeDescription::I32).ok().unwrap();
    assert_eq!(plain.next_action(), ComputingAction::StartEvaluation);
    plain.evaluation_started();
    assert_eq!(plain.next_action(), ComputingAction::PollEvaluation);
    assert!(matches!(plain.poll_for_simple_result(EvaluationPoll::<i32>::NotReady), StreamPoll::NotReady));
    assert!(matches!(plain.poll_for_simple_result(EvaluationPoll::Ready(4)), StreamPoll::Ready(Some(4))));
    assert_eq!(plain.state(), ComputingScriptState::Finished);
    assert_eq!(plain.next_action(), ComputingAction::EndOfStream);

    // A derived state is evaluated again after each value
    let mut derived = ComputingScriptStream::new(ScriptOutputType::DerivedState(ScriptTypeDescription::I32), ScriptTypeDescription::I32).ok().unwrap();
    derived.evaluation_started();
    assert!(matches!(derived.poll_for_simple_result(EvaluationPoll::Ready(4)), StreamPoll::Ready(Some(4))));
    assert_eq!(derived.next_action(), ComputingAction::StartEvaluation);
    derived.evaluation_started();
    assert!(matches!(derived.poll_for_simple_result(EvaluationPoll::<i32>::Failed), StreamPoll::Failed));
    assert_eq!(derived.next_action(), ComputingAction::EndOfStream);
}

#[test]
fn computing_script_read_as_history_gives_a_state_reader() {
    let mut registry = SymbolRegistry::new();
    let mut host = Host::new();
    let y = FloScriptSymbol::with_name(&mut registry, "y");
    edit(&mut host, ScriptEdit::SetComputingScript(y, "3 + 1".to_string()));
    let plain = |_text: String, _run_io: bool| -> Result<CompiledScript<ListUpstream>, String> {
        Ok(CompiledScript { output_type: ScriptOutputType::Value(ScriptTypeDescription::I32), stream: ListUpstream::ending(i32s(&[4])) })
    };
    let ns = host.root_namespace_mut();
    assert!(ns.is_computing_script(y));
    let reader = ns.read_stream(y, ScriptTypeDescription::I32, plain).unwrap();
    assert!(!ns.is_computing_script(y));
    assert!(is_value(&next_state(ns, y, reader), 4));
    assert!(is_end(&next_state(ns, y, reader)));
}

#[test]
fn readers_waiting_on_state_are_woken_by_a_history_poll() {
    struct Scripted(Vec<UpstreamPoll<ScriptValue>>);
    impl Upstream<ScriptValue> for Scripted {
        fn poll_next(&mut self) -> UpstreamPoll<ScriptValue> {
            if self.0.is_empty() { UpstreamPoll::NotReady } else { self.0.remove(0) }
        }
    }
    let mut core: InputStreamCore<ScriptValue, Scripted, u32> = InputStreamCore::new();
    let history = core.allocate_stream();
    let state = core.allocate_new_state_stream();
    core.replace_stream(Scripted(vec![UpstreamPoll::NotReady, UpstreamPoll::Item(ScriptValue::I32(5))]));
    assert!(matches!(core.poll_state(state, 7).0, StreamPoll::NotReady));
    let (value, to_wake) = core.poll_stream(history, 1);
    assert!(matches!(value, StreamPoll::Ready(Some(ScriptValue::I32(5)))));
    assert_eq!(to_wake, vec![7]);
    assert!(is_value(&core.poll_state(state, 9).0, 5));
}

#[test]
fn upstream_failure_reaches_only_the_polling_reader() {
    struct ThenFail(usize);
    impl Upstream<ScriptValue> for ThenFail {
        fn poll_next(&mut self) -> UpstreamPoll<ScriptValue> {
            self.0 += 1;
            if self.0 == 1 { UpstreamPoll::Item(ScriptValue::I32(1)) } else { UpstreamPoll::Failed }
        }
    }
    let mut core: InputStreamCore<ScriptValue, ThenFail, ()> = InputStreamCore::new();
    let a = core.allocate_stream();
    let b = core.allocate_stream();
    core.replace_stream(ThenFail(0));
    // The failure goes to the reader that drained it; the item it came after is kept
    assert!(matches!(core.poll_stream(a, ()).0, StreamPoll::Failed));
    assert!(is_value(&core.poll_stream(a, ()).0, 1));
    assert!(is_value(&core.poll_stream(b, ()).0, 1));
    assert!(matches!(core.poll_stream(b, ()).0, StreamPoll::Failed));
}
