use vstd::prelude::*;

verus! {

/// An abstract representation of a symbol in a script
#[derive(Clone, Copy, PartialEq, Eq, Hash, Debug, Structural)]
pub struct FloScriptSymbol {
    /// The ID set for this symbol
    id: u64,
}

impl View for FloScriptSymbol {
    type V = u64;

    closed spec fn view(&self) -> u64 {
        self.id
    }
}

/// A name that has been bound to a symbol ID
struct NamedSymbol {
    id: u64,
    name: String,
}

/// The table that assigns symbol IDs and remembers the names given to them
///
/// IDs are handed out in increasing order, so a symbol made by one call is never
/// equal to a symbol made by an earlier call, unless both were requested by the same name.
pub struct SymbolRegistry {
    /// The ID that the next new symbol will receive
    next_id: u64,
    /// Every name that has been bound so far, with its ID
    named: Vec<NamedSymbol>,
}

/// The ID bound to `name` in `entries`, if any
pub open spec fn id_of_name(entries: Seq<(u64, Seq<char>)>, name: Seq<char>) -> Option<u64> {
    if exists|i: int| 0 <= i < entries.len() && entries[i].1 == name {
        let i = choose|i: int| 0 <= i < entries.len() && entries[i].1 == name;
        Some(entries[i].0)
    } else {
        None
    }
}

/// The name bound to `id` in `entries`, if any
pub open spec fn name_of_id(entries: Seq<(u64, Seq<char>)>, id: u64) -> Option<Seq<char>> {
    if exists|i: int| 0 <= i < entries.len() && entries[i].0 == id {
        let i = choose|i: int| 0 <= i < entries.len() && entries[i].0 == id;
        Some(entries[i].1)
    } else {
        None
    }
}

/// What holds between the registry before and after a call to `FloScriptSymbol::new`
pub open spec fn new_symbol_step(
    before: SymbolRegistry,
    symbol: FloScriptSymbol,
    after: SymbolRegistry,
) -> bool {
    &&& symbol@ == before.next_id()
    &&& after.next_id() == before.next_id() + 1
    &&& after.entries() == before.entries()
}

/// What holds between the registry before and after a call to `FloScriptSymbol::with_name`
pub open spec fn named_symbol_step(
    before: SymbolRegistry,
    name: Seq<char>,
    symbol: FloScriptSymbol,
    after: SymbolRegistry,
) -> bool {
    match id_of_name(before.entries(), name) {
        Some(id) => symbol@ == id && after.next_id() == before.next_id() && after.entries()
            == before.entries(),
        None => {
            &&& symbol@ == before.next_id()
            &&& after.next_id() == before.next_id() + 1
            &&& after.entries() == before.entries().push((before.next_id(), name))
        },
    }
}

impl SymbolRegistry {
    /// The ID that the next new symbol will receive
    pub closed spec fn next_id(self) -> u64 {
        self.next_id
    }

    /// The names bound so far, each with its ID, in the order they were bound
    pub closed spec fn entries(self) -> Seq<(u64, Seq<char>)> {
        self.named@.map_values(|n: NamedSymbol| (n.id, n.name@))
    }

    /// Names and IDs are each bound at most once, and every bound ID has been handed out
    pub open spec fn wf(self) -> bool {
        &&& forall|i: int, j: int|
            0 <= i < j < self.entries().len() ==> self.entries()[i].0 != self.entries()[j].0
        &&& forall|i: int, j: int|
            0 <= i < j < self.entries().len() ==> self.entries()[i].1 != self.entries()[j].1
        &&& forall|i: int| 0 <= i < self.entries().len() ==> self.entries()[i].0 < self.next_id()
    }

    /// Creates an empty registry
    pub fn new() -> (r: SymbolRegistry)
        ensures
            r.wf(),
            r.next_id() == 0,
            r.entries() == Seq::<(u64, Seq<char>)>::empty(),
    {
        let r = SymbolRegistry { next_id: 0, named: Vec::new() };
        assert(r.entries() =~= Seq::<(u64, Seq<char>)>::empty());
        r
    }

    /// The ID that the next new symbol will receive
    pub fn next_symbol_id(&self) -> (r: u64)
        ensures
            r == self.next_id(),
    {
        self.next_id
    }

    /// Assigns a new symbol ID
    fn assign_symbol_id(&mut self) -> (id: u64)
        requires
            old(self).next_id < u64::MAX,
        ensures
            id == old(self).next_id,
            final(self).next_id == old(self).next_id + 1,
            final(self).named == old(self).named,
    {
        let id = self.next_id;
        self.next_id = self.next_id + 1;
        id
    }
}

impl FloScriptSymbol {
    /// Creates a symbol with the given ID
    pub fn with_id(id: u64) -> (r: FloScriptSymbol)
        ensures
            r@ == id,
    {
        FloScriptSymbol { id }
    }

    /// The ID of this symbol
    pub fn id(&self) -> (r: u64)
        ensures
            r == self@,
    {
        self.id
    }

    /// Creates a new symbol (with no name, so it cannot be referenced within a script)
    pub fn new(registry: &mut SymbolRegistry) -> (r: FloScriptSymbol)
        requires
            old(registry).wf(),
            old(registry).next_id() < u64::MAX,
        ensures
            final(registry).wf(),
            new_symbol_step(*old(registry), r, *final(registry)),
    {
        let symbol_id = registry.assign_symbol_id();
        assert(registry.entries() == old(registry).entries());
        FloScriptSymbol { id: symbol_id }
    }

    /// Retrieves the symbol with the specified name
    pub fn with_name(registry: &mut SymbolRegistry, name: &str) -> (r: FloScriptSymbol)
        requires
            old(registry).wf(),
            id_of_name(old(registry).entries(), name@) is None ==> old(registry).next_id()
                < u64::MAX,
        ensures
            final(registry).wf(),
            named_symbol_step(*old(registry), name@, r, *final(registry)),
    {
        let owned = name.to_owned();
        let ghost entries = registry.entries();
        let mut i: usize = 0;
        while i < registry.named.len()
            invariant
                0 <= i <= registry.named.len(),
                entries == registry.entries(),
                *registry == *old(registry),
                registry.wf(),
                owned@ == name@,
                forall|j: int| 0 <= j < i ==> entries[j].1 != name@,
            decreases registry.named.len() - i,
        {
            if registry.named[i].name == owned {
                let id = registry.named[i].id;
                proof {
                    assert(entries[i as int].1 == name@);
                    assert(entries[i as int].0 == id);
                    let k = choose|k: int| 0 <= k < entries.len() && entries[k].1 == name@;
                    assert(k == i as int);
                }
                return FloScriptSymbol { id };
            }
            i = i + 1;
        }
        let symbol_id = registry.assign_symbol_id();
        registry.named.push(NamedSymbol { id: symbol_id, name: owned });
        proof {
            assert(registry.entries() =~= entries.push((symbol_id, name@)));
        }
        FloScriptSymbol { id: symbol_id }
    }

    /// Retrieves the name of this symbol, if it's a named symbol
    pub fn name(&self, registry: &SymbolRegistry) -> (r: Option<String>)
        requires
            registry.wf(),
        ensures
            match name_of_id(registry.entries(), self@) {
                Some(n) => r is Some && r->0@ == n,
                None => r is None,
            },
    {
        let ghost entries = registry.entries();
        let mut i: usize = 0;
        while i < registry.named.len()
            invariant
                0 <= i <= registry.named.len(),
                entries == registry.entries(),
                registry.wf(),
                forall|j: int| 0 <= j < i ==> entries[j].0 != self@,
            decreases registry.named.len() - i,
        {
            if registry.named[i].id == self.id {
                proof {
                    assert(entries[i as int].0 == self@);
                    let k = choose|k: int| 0 <= k < entries.len() && entries[k].0 == self@;
                    assert(k == i as int);
                }
                return Some(registry.named[i].name.clone());
            }
            i = i + 1;
        }
        None
    }
}

/// Two requests for the same name give the same symbol, and naming changes nothing else
/// about the earlier symbol: `with_name(s) == with_name(s)`.
pub proof fn lemma_same_name_same_symbol(
    r0: SymbolRegistry,
    r1: SymbolRegistry,
    r2: SymbolRegistry,
    name: Seq<char>,
    a: FloScriptSymbol,
    b: FloScriptSymbol,
)
    requires
        r0.wf(),
        r1.wf(),
        named_symbol_step(r0, name, a, r1),
        named_symbol_step(r1, name, b, r2),
    ensures
        a == b,
{
    let e0 = r0.entries();
    let e1 = r1.entries();
    match id_of_name(e0, name) {
        Some(id) => {},
        None => {
            let n = e0.len() as int;
            assert(e1[n].1 == name);
            let k = choose|k: int| 0 <= k < e1.len() && e1[k].1 == name;
            if k != n {
                assert(e0[k].1 == name);
            }
        },
    }
}

/// Two symbols made by `new` one after the other are different: `new() != new()`.
pub proof fn lemma_new_symbols_differ(
    r0: SymbolRegistry,
    r1: SymbolRegistry,
    r2: SymbolRegistry,
    a: FloScriptSymbol,
    b: FloScriptSymbol,
)
    requires
        new_symbol_step(r0, a, r1),
        new_symbol_step(r1, b, r2),
    ensures
        a != b,
{
}

/// A symbol made by `new` differs from every symbol that a name already stands for, and
/// from every symbol a name is bound to later.
pub proof fn lemma_new_symbol_is_fresh(
    r0: SymbolRegistry,
    r1: SymbolRegistry,
    r2: SymbolRegistry,
    name: Seq<char>,
    a: FloScriptSymbol,
    b: FloScriptSymbol,
)
    requires
        r0.wf(),
        r1.wf(),
        new_symbol_step(r0, a, r1),
        named_symbol_step(r1, name, b, r2),
    ensures
        a != b,
{
    let e1 = r1.entries();
    if let Some(id) = id_of_name(e1, name) {
        let k = choose|k: int| 0 <= k < e1.len() && e1[k].1 == name;
        assert(e1[k].0 < r0.next_id());
    }
}

/// The name a symbol was requested by is the name it reports back.
pub proof fn lemma_name_round_trip(
    r0: SymbolRegistry,
    r1: SymbolRegistry,
    name: Seq<char>,
    a: FloScriptSymbol,
)
    requires
        r0.wf(),
        r1.wf(),
        named_symbol_step(r0, name, a, r1),
    ensures
        name_of_id(r1.entries(), a@) == Some(name),
{
    let e0 = r0.entries();
    let e1 = r1.entries();
    match id_of_name(e0, name) {
        Some(id) => {
            let k = choose|k: int| 0 <= k < e0.len() && e0[k].1 == name;
            assert(e1[k].0 == a@);
            let j = choose|j: int| 0 <= j < e1.len() && e1[j].0 == a@;
            assert(j == k);
        },
        None => {
            let n = e0.len() as int;
            assert(e1[n].0 == a@);
            let j = choose|j: int| 0 <= j < e1.len() && e1[j].0 == a@;
            assert(j == n);
        },
    }
}

/// A symbol made by `new` has no name.
pub proof fn lemma_anonymous_symbol_has_no_name(
    r0: SymbolRegistry,
    r1: SymbolRegistry,
    a: FloScriptSymbol,
)
    requires
        r0.wf(),
        new_symbol_step(r0, a, r1),
    ensures
        name_of_id(r1.entries(), a@) is None,
{
    let e1 = r1.entries();
    if exists|i: int| 0 <= i < e1.len() && e1[i].0 == a@ {
        let i = choose|i: int| 0 <= i < e1.len() && e1[i].0 == a@;
        assert(e1[i].0 < r0.next_id());
    }
}


/// Two requests for different names give different symbols.
pub proof fn lemma_different_names_differ(
    r0: SymbolRegistry,
    r1: SymbolRegistry,
    r2: SymbolRegistry,
    n1: Seq<char>,
    n2: Seq<char>,
    a: FloScriptSymbol,
    b: FloScriptSymbol,
)
    requires
        r0.wf(),
        r1.wf(),
        named_symbol_step(r0, n1, a, r1),
        named_symbol_step(r1, n2, b, r2),
        n1 != n2,
    ensures
        a != b,
{
    lemma_name_round_trip(r0, r1, n1, a);
    let e1 = r1.entries();
    let i = choose|i: int| 0 <= i < e1.len() && e1[i].0 == a@;
    match id_of_name(e1, n2) {
        Some(id) => {
            let k = choose|k: int| 0 <= k < e1.len() && e1[k].1 == n2;
            if k == i {
                let j = choose|j: int| 0 <= j < e1.len() && e1[j].0 == a@;
                assert(j == i);
            }
        },
        None => {},
    }
}

/// One call of `FloScriptSymbol::new` or `FloScriptSymbol::with_name`
pub open spec fn registry_step(before: SymbolRegistry, after: SymbolRegistry) -> bool {
    (exists|s: FloScriptSymbol| new_symbol_step(before, s, after)) || (exists|
        n: Seq<char>,
        s: FloScriptSymbol,
    | named_symbol_step(before, n, s, after))
}

/// A call keeps every name already bound, and any new name gets the next ID
proof fn lemma_step_extends(b: SymbolRegistry, a: SymbolRegistry)
    requires
        registry_step(b, a),
    ensures
        a.next_id() >= b.next_id(),
        b.entries().len() <= a.entries().len(),
        a.entries().subrange(0, b.entries().len() as int) == b.entries(),
        forall|k: int| b.entries().len() <= k < a.entries().len() ==> a.entries()[k].0 >= b.next_id(),
{
    if exists|s: FloScriptSymbol| new_symbol_step(b, s, a) {
        assert(a.entries().subrange(0, b.entries().len() as int) =~= b.entries());
    } else {
        let (n, s) = choose|n: Seq<char>, s: FloScriptSymbol| named_symbol_step(b, n, s, a);
        assert(a.entries().subrange(0, b.entries().len() as int) =~= b.entries());
    }
}

/// Over any run of calls, a registry keeps every name it bound before, and names bound
/// later get IDs no smaller than the earlier next ID
proof fn lemma_run_extends(rs: Seq<SymbolRegistry>, i: int, j: int)
    requires
        0 <= i <= j < rs.len(),
        forall|k: int| 0 <= k < rs.len() - 1 ==> #[trigger] registry_step(rs[k], rs[k + 1]),
    ensures
        rs[j].next_id() >= rs[i].next_id(),
        rs[i].entries().len() <= rs[j].entries().len(),
        rs[j].entries().subrange(0, rs[i].entries().len() as int) == rs[i].entries(),
        forall|k: int|
            rs[i].entries().len() <= k < rs[j].entries().len() ==> rs[j].entries()[k].0 >= rs[i].next_id(),
    decreases j - i,
{
    if i < j {
        lemma_run_extends(rs, i, j - 1);
        let k = j - 1;
        assert(registry_step(rs[k], rs[k + 1]));
        assert(k + 1 == j);
        lemma_step_extends(rs[j - 1], rs[j]);
        let ei = rs[i].entries();
        let em = rs[j - 1].entries();
        let ej = rs[j].entries();
        assert forall|k: int| 0 <= k < ei.len() implies ej[k] == ei[k] by {
            assert(ej.subrange(0, em.len() as int)[k] == em[k]);
            assert(em.subrange(0, ei.len() as int)[k] == ei[k]);
        }
        assert(ej.subrange(0, ei.len() as int) =~= ei);
        assert forall|k: int| ei.len() <= k < ej.len() implies ej[k].0 >= rs[i].next_id() by {
            if k < em.len() {
                assert(ej.subrange(0, em.len() as int)[k] == em[k]);
            }
        }
    } else {
        assert(rs[i].entries().subrange(0, rs[i].entries().len() as int) =~= rs[i].entries());
    }
}

/// Once a symbol has a name, every later call leaves it that name.
pub proof fn lemma_name_never_changes(rs: Seq<SymbolRegistry>, id: u64, n: Seq<char>, j: int)
    requires
        0 <= j < rs.len(),
        forall|k: int| 0 <= k < rs.len() ==> #[trigger] rs[k].wf(),
        forall|k: int| 0 <= k < rs.len() - 1 ==> #[trigger] registry_step(rs[k], rs[k + 1]),
        name_of_id(rs[0].entries(), id) == Some(n),
    ensures
        name_of_id(rs[j].entries(), id) == Some(n),
{
    lemma_run_extends(rs, 0, j);
    let e0 = rs[0].entries();
    let ej = rs[j].entries();
    assert(rs[j].wf());
    let i = choose|i: int| 0 <= i < e0.len() && e0[i].0 == id;
    assert(ej.subrange(0, e0.len() as int)[i] == e0[i]);
    assert(ej[i] == e0[i]);
    let m = choose|m: int| 0 <= m < ej.len() && ej[m].0 == id;
    assert(m == i);
}

/// A symbol made by `new` is never given a name, and no later call returns it again.
pub proof fn lemma_new_symbol_stays_fresh(rs: Seq<SymbolRegistry>, a: FloScriptSymbol, j: int)
    requires
        1 <= j < rs.len(),
        forall|k: int| 0 <= k < rs.len() ==> #[trigger] rs[k].wf(),
        forall|k: int| 0 <= k < rs.len() - 1 ==> #[trigger] registry_step(rs[k], rs[k + 1]),
        new_symbol_step(rs[0], a, rs[1]),
    ensures
        name_of_id(rs[j].entries(), a@) is None,
        rs[j].next_id() > a@,
        forall|s: FloScriptSymbol| j < rs.len() - 1 && #[trigger] new_symbol_step(rs[j], s, rs[j + 1]) ==> s != a,
        forall|n: Seq<char>, s: FloScriptSymbol|
            j < rs.len() - 1 && #[trigger] named_symbol_step(rs[j], n, s, rs[j + 1]) ==> s != a,
{
    lemma_run_extends(rs, 1, j);
    assert(rs[0].wf());
    let e0 = rs[0].entries();
    let ej = rs[j].entries();
    assert(rs[1].entries() == e0);
    assert forall|k: int| 0 <= k < ej.len() implies ej[k].0 != a@ by {
        if k < e0.len() {
            assert(ej.subrange(0, e0.len() as int)[k] == e0[k]);
        }
    }
    assert forall|n: Seq<char>, s: FloScriptSymbol|
        j < rs.len() - 1 && #[trigger] named_symbol_step(rs[j], n, s, rs[j + 1]) implies s != a by {
        if let Some(id) = id_of_name(ej, n) {
            let k = choose|k: int| 0 <= k < ej.len() && ej[k].1 == n;
            assert(ej[k].0 != a@);
        }
    }
}

} // verus!
