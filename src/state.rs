use vstd::prelude::*;

verus! {

/// The set of symbol IDs that a state value was computed from
pub struct StateDependencies {
    /// The IDs, each held once
    dependencies: Vec<u64>,
}

impl View for StateDependencies {
    type V = Set<u64>;

    closed spec fn view(&self) -> Set<u64> {
        self.dependencies@.to_set()
    }
}

impl StateDependencies {
    /// Creates a new (empty) state dependencies structure
    pub fn new() -> (r: StateDependencies)
        ensures
            r@ == Set::<u64>::empty(),
    {
        let r = StateDependencies { dependencies: Vec::new() };
        assert(r@ =~= Set::<u64>::empty());
        r
    }

    /// Creates a new state dependencies structure containing a single dependency ID
    pub fn with_dependency(dependency: u64) -> (r: StateDependencies)
        ensures
            r@ == set![dependency],
    {
        let mut dependencies = Vec::new();
        dependencies.push(dependency);
        let r = StateDependencies { dependencies };
        assert(r.dependencies@ == seq![dependency]);
        assert(r@ =~= set![dependency]) by {
            assert(r.dependencies@[0] == dependency);
        }
        r
    }

    /// True if the given ID is one of the dependencies
    pub fn contains(&self, dependency: u64) -> (r: bool)
        ensures
            r == self@.contains(dependency),
    {
        let mut i: usize = 0;
        while i < self.dependencies.len()
            invariant
                0 <= i <= self.dependencies.len(),
                forall|j: int| 0 <= j < i ==> self.dependencies@[j] != dependency,
            decreases self.dependencies.len() - i,
        {
            if self.dependencies[i] == dependency {
                return true;
            }
            i = i + 1;
        }
        false
    }

    /// Merge these dependencies with the dependencies from another state
    pub fn merge_with(&mut self, merge_with: &StateDependencies)
        ensures
            final(self)@ == old(self)@.union(merge_with@),
    {
        let ghost start = self.dependencies@;
        let mut i: usize = 0;
        while i < merge_with.dependencies.len()
            invariant
                0 <= i <= merge_with.dependencies.len(),
                self.dependencies@.to_set() == start.to_set().union(
                    merge_with.dependencies@.subrange(0, i as int).to_set(),
                ),
            decreases merge_with.dependencies.len() - i,
        {
            let dep = merge_with.dependencies[i];
            let ghost before = self.dependencies@;
            if !self.contains(dep) {
                self.dependencies.push(dep);
            }
            proof {
                let taken = merge_with.dependencies@.subrange(0, i as int);
                let next = merge_with.dependencies@.subrange(0, i + 1);
                assert(next == taken.push(dep));
                taken.lemma_push_to_set_commute(dep);
                before.lemma_push_to_set_commute(dep);
                assert(self.dependencies@.to_set() =~= before.to_set().insert(dep));
            }
            i = i + 1;
        }
        assert(merge_with.dependencies@.subrange(0, merge_with.dependencies@.len() as int)
            == merge_with.dependencies@);
    }
}

/// A value together with the symbols that were read to compute it
pub struct State<TValue> {
    /// The value of this state
    pub value: TValue,
    /// The symbols this value was computed from
    pub dependencies: StateDependencies,
}

impl<TValue> State<TValue> {
    /// The IDs of the symbols this state was computed from
    pub open spec fn deps(&self) -> Set<u64> {
        self.dependencies@
    }

    /// Creates a new state that is not dependent on any input states
    pub fn new(value: TValue) -> (r: State<TValue>)
        ensures
            r.value == value,
            r.deps() == Set::<u64>::empty(),
    {
        State { value, dependencies: StateDependencies::new() }
    }

    /// Creates a new state with a single dependency
    pub fn with_dependency(value: TValue, dependency: u64) -> (r: State<TValue>)
        ensures
            r.value == value,
            r.deps() == set![dependency],
    {
        State { value, dependencies: StateDependencies::with_dependency(dependency) }
    }

    /// Merges the dependencies from another state to update this state
    pub fn merge_dependencies(self, merge_with: StateDependencies) -> (r: State<TValue>)
        ensures
            r.value == self.value,
            r.deps() == self.deps().union(merge_with@),
    {
        let mut new_state = self;
        new_state.dependencies.merge_with(&merge_with);
        new_state
    }
}

/// Wraps a value in a new state that depends on nothing
pub fn wrap<A>(a: A) -> (r: State<A>)
    ensures
        r.value == a,
        r.deps() == Set::<u64>::empty(),
{
    State::new(a)
}

/// Runs `f` on the value of `b`: the result has the value `f` gives, and depends on
/// everything that either `b` or that value depends on
pub fn flat_map<A, B, F: Fn(A) -> State<B>>(f: F, b: State<A>) -> (r: State<B>)
    requires
        f.requires((b.value,)),
    ensures
        exists|fb: State<B>|
            f.ensures((b.value,), fb) && r.value == fb.value && r.deps() == fb.deps().union(
                b.deps(),
            ),
{
    let value_a = b.value;
    let deps_a = b.dependencies;
    let value_b = f(value_a);
    value_b.merge_dependencies(deps_a)
}

} // verus!
