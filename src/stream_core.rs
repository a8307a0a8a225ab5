use std::collections::VecDeque;
use vstd::prelude::*;

verus! {

/// The default max buffer size for an input stream core
pub const DEFAULT_MAX_BUFFER_SIZE: usize = 256;

/// What the upstream reported when it was polled once
pub enum UpstreamPoll<T> {
    /// The next item
    Item(T),
    /// No item is available yet: the upstream will wake its reader later
    NotReady,
    /// The upstream has ended
    Finished,
    /// The upstream failed
    Failed,
}

/// A source of items for an input stream core
///
/// Nothing is assumed of what a poll returns. The core keeps a ghost record of every
/// outcome, and its contracts say what it does with each one.
pub trait Upstream<T> {
    fn poll_next(&mut self) -> UpstreamPoll<T>;
}

/// What a reader gets when it polls the core
pub enum StreamPoll<T> {
    /// The next item, or `None` once the stream has ended
    Ready(Option<T>),
    /// Nothing yet: the reader's waker has been stored and will be handed back when data arrives
    NotReady,
    /// The upstream failed while this reader was draining it
    Failed,
}

/// The data for a single stream generating output from this input
struct StreamData<T, W> {
    /// The ID of the reader
    id: usize,
    /// Symbols that are waiting to be read on this stream
    buffer: VecDeque<T>,
    /// The waker for the task that this stream is waiting on
    ready: Option<W>,
}

/// The data for a state stream
///
/// State streams only report the most recent value, and return that value immediately
/// even if it hasn't updated
struct StateData<T, W> {
    /// The ID of the reader
    id: usize,
    /// The current symbol for this state
    current_symbol: Option<T>,
    /// Waker for the task reading this state
    ready: Option<W>,
}

/// The result of draining the upstream into the history buffers
struct Drained<T> {
    /// The items read, in upstream order
    received: Vec<T>,
    /// The upstream reported its end
    finished: bool,
    /// The upstream reported a failure
    failed: bool,
    /// Every outcome the upstream returned, in order
    log: Ghost<Seq<UpstreamPoll<T>>>,
    /// How many items the buffers had room for
    limit: Ghost<int>,
}

/// The core shared between all readers of one input symbol
///
/// `T` is the item type, `S` the upstream, and `W` the waker a reader leaves behind when
/// it has to wait. Wakers are never called here: every operation that makes data
/// available hands back the wakers to call, so the caller can call them after it has
/// released whatever lock guards the core.
pub struct InputStreamCore<T, S, W> {
    /// The stream that is the source for this core (or none if no stream is attached yet)
    source_stream: Option<S>,
    /// The most recently read symbol from the source stream
    last_symbol: Option<T>,
    /// Set to true if the source stream has finished
    stream_finished: bool,
    /// The identifier to attach to the next stream that wants to read from this core
    next_stream_id: usize,
    /// The maximum number of symbols to buffer for any one reader before refusing to read more
    max_buffer_size: usize,
    /// The history readers attached to this core
    streams: Vec<StreamData<T, W>>,
    /// The state readers attached to this core
    states: Vec<StateData<T, W>>,
    /// Every item read from the upstreams so far, in order
    produced: Ghost<Seq<T>>,
}

/// The index of the entry for `id` in `ids`, if there is one
pub open spec fn index_of(ids: Seq<usize>, id: usize) -> Option<int> {
    if exists|i: int| 0 <= i < ids.len() && ids[i] == id {
        Some(choose|i: int| 0 <= i < ids.len() && ids[i] == id)
    } else {
        None
    }
}

/// No ID occurs twice
pub open spec fn distinct(ids: Seq<usize>) -> bool {
    forall|i: int, j: int| 0 <= i < j < ids.len() ==> ids[i] != ids[j]
}

/// `b` is one of the longest sequences in `bs`, or empty when `bs` holds nothing but empty ones
pub open spec fn is_fullest<T>(bs: Seq<Seq<T>>, b: Seq<T>) -> bool {
    &&& forall|i: int| 0 <= i < bs.len() ==> bs[i].len() <= b.len()
    &&& b.len() == 0 || exists|i: int| 0 <= i < bs.len() && bs[i] == b
}

/// `m` is the length of the fullest buffer in `bs` (0 when there is none)
pub open spec fn is_fullest_len<T>(bs: Seq<Seq<T>>, m: int) -> bool {
    &&& forall|i: int| 0 <= i < bs.len() ==> bs[i].len() <= m
    &&& m == 0 || exists|i: int| 0 <= i < bs.len() && bs[i].len() == m
}

/// `log` is what an upstream returned while it was drained with room for `limit` items,
/// and `items` is what was taken from it: every outcome but the last is an item, and
/// polling stopped either when there was no more room or at the first outcome that is not
/// an item
pub open spec fn drain_log<T>(log: Seq<UpstreamPoll<T>>, items: Seq<T>, limit: int) -> bool {
    &&& items.len() <= limit
    &&& forall|j: int| 0 <= j < items.len() ==> log[j] == UpstreamPoll::Item(items[j])
    &&& (log.len() == items.len() && items.len() == limit) || (log.len() == items.len() + 1
        && !(log.last() is Item))
}

/// The upstream reported its end as the last outcome of `log`
pub open spec fn ends_finished<T>(log: Seq<UpstreamPoll<T>>) -> bool {
    log.len() > 0 && log.last() is Finished
}

/// The upstream reported a failure as the last outcome of `log`
pub open spec fn ends_failed<T>(log: Seq<UpstreamPoll<T>>) -> bool {
    log.len() > 0 && log.last() is Failed
}

/// The upstream had nothing yet as the last outcome of `log`
pub open spec fn ends_not_ready<T>(log: Seq<UpstreamPoll<T>>) -> bool {
    log.len() > 0 && log.last() is NotReady
}

/// The wakers of the first `n` readers `ids` but `except`, in reader order, for those that
/// have one
pub open spec fn taken_upto<W>(ids: Seq<usize>, before: Seq<Option<W>>, except: usize, n: int) -> Seq<W>
    decreases n,
{
    if n <= 0 {
        Seq::empty()
    } else {
        let rest = taken_upto(ids, before, except, n - 1);
        if ids[n - 1] != except && before[n - 1] is Some {
            rest.push(before[n - 1]->0)
        } else {
            rest
        }
    }
}

/// Of the readers `ids` with wakers `before`, every one but `except` gave up its waker
/// (`after`), and `out` is exactly the wakers given up, in reader order, each once
pub open spec fn wakers_taken<W>(
    ids: Seq<usize>,
    before: Seq<Option<W>>,
    after: Seq<Option<W>>,
    except: usize,
    out: Seq<W>,
) -> bool {
    &&& after.len() == before.len()
    &&& out == taken_upto(ids, before, except, before.len() as int)
    &&& forall|k: int| 0 <= k < before.len() && ids[k] != except ==> after[k] is None
    &&& forall|k: int|
        0 <= k < before.len() && ids[k] != except && before[k] is Some ==> out.contains(
            before[k]->0,
        )
}

proof fn lemma_taken_upto_frame<W>(ids: Seq<usize>, b1: Seq<Option<W>>, b2: Seq<Option<W>>, except: usize, n: int)
    requires
        0 <= n <= b1.len(),
        b1.len() == b2.len(),
        forall|k: int| 0 <= k < b1.len() && ids[k] != except ==> b1[k] == b2[k],
    ensures
        taken_upto(ids, b1, except, n) == taken_upto(ids, b2, except, n),
    decreases n,
{
    if n > 0 {
        lemma_taken_upto_frame(ids, b1, b2, except, n - 1);
    }
}

proof fn lemma_wakers_taken_frame<W>(
    ids: Seq<usize>,
    b1: Seq<Option<W>>,
    a1: Seq<Option<W>>,
    b2: Seq<Option<W>>,
    a2: Seq<Option<W>>,
    except: usize,
    out: Seq<W>,
)
    requires
        wakers_taken(ids, b1, a1, except, out),
        b2.len() == b1.len(),
        a2.len() == a1.len(),
        forall|k: int| 0 <= k < b1.len() && ids[k] != except ==> b1[k] == b2[k] && a1[k] == a2[k],
    ensures
        wakers_taken(ids, b2, a2, except, out),
{
    lemma_taken_upto_frame(ids, b1, b2, except, b1.len() as int);
}

proof fn lemma_contains_push<W>(s: Seq<W>, x: W)
    ensures
        s.push(x).contains(x),
        forall|w: W| s.contains(w) ==> s.push(x).contains(w),
{
    assert(s.push(x)[s.len() as int] == x);
    assert forall|w: W| s.contains(w) implies s.push(x).contains(w) by {
        let j = choose|j: int| 0 <= j < s.len() && s[j] == w;
        assert(s.push(x)[j] == w);
    }
}

proof fn lemma_contains_append<W>(a: Seq<W>, b: Seq<W>)
    ensures
        forall|w: W| a.contains(w) ==> (a + b).contains(w),
        forall|w: W| b.contains(w) ==> (a + b).contains(w),
        forall|j: int| 0 <= j < (a + b).len() ==> (j < a.len() && (a + b)[j] == a[j]) || (j >= a.len() && (a + b)[j] == b[j - a.len()]),
{
    assert forall|w: W| a.contains(w) implies (a + b).contains(w) by {
        let j = choose|j: int| 0 <= j < a.len() && a[j] == w;
        assert((a + b)[j] == w);
    }
    assert forall|w: W| b.contains(w) implies (a + b).contains(w) by {
        let j = choose|j: int| 0 <= j < b.len() && b[j] == w;
        assert((a + b)[a.len() + j] == w);
    }
}

/// `b` is what is left of `log` once some first items have been taken
pub open spec fn is_suffix<T>(b: Seq<T>, log: Seq<T>) -> bool {
    b.len() <= log.len() && b == log.subrange(log.len() - b.len(), log.len() as int)
}

/// `after` is `before` with `d` appended to every buffer but the one at `skip`
pub open spec fn appended_except<T>(
    before: Seq<Seq<T>>,
    after: Seq<Seq<T>>,
    d: Seq<T>,
    skip: int,
) -> bool {
    &&& after.len() == before.len()
    &&& forall|k: int| 0 <= k < before.len() && k != skip ==> after[k] == before[k] + d
}

/// After items `d` are read, the last one is the latest value and every state reader holds it
pub open spec fn received_into_states<T>(
    last_before: Option<T>,
    currents_before: Seq<Option<T>>,
    d: Seq<T>,
    last_after: Option<T>,
    currents_after: Seq<Option<T>>,
) -> bool {
    &&& currents_after.len() == currents_before.len()
    &&& if d.len() > 0 {
        &&& last_after == Some(d.last())
        &&& forall|k: int| 0 <= k < currents_after.len() ==> currents_after[k] == Some(d.last())
    } else {
        last_after == last_before && currents_after == currents_before
    }
}

proof fn lemma_suffix_drop_first<T>(b: Seq<T>, log: Seq<T>)
    requires
        is_suffix(b, log),
        b.len() > 0,
    ensures
        is_suffix(b.drop_first(), log),
{
    assert(b.drop_first() =~= log.subrange(log.len() - (b.len() - 1), log.len() as int));
}

proof fn lemma_suffix_append<T>(b: Seq<T>, log: Seq<T>, d: Seq<T>)
    requires
        is_suffix(b, log),
    ensures
        is_suffix(b + d, log + d),
{
    assert(b + d =~= (log + d).subrange((log + d).len() - (b + d).len(), (log + d).len() as int));
}

proof fn lemma_empty_suffix<T>(log: Seq<T>)
    ensures
        is_suffix(Seq::<T>::empty(), log),
{
    assert(Seq::<T>::empty() =~= log.subrange(log.len() as int, log.len() as int));
}

proof fn lemma_index_of(ids: Seq<usize>, i: int)
    requires
        distinct(ids),
        0 <= i < ids.len(),
    ensures
        index_of(ids, ids[i]) == Some(i),
{
    let k = choose|k: int| 0 <= k < ids.len() && ids[k] == ids[i];
    assert(k == i);
}

impl<T, S, W> InputStreamCore<T, S, W> {
    /// The IDs of the history readers
    pub closed spec fn history_ids(self) -> Seq<usize> {
        self.streams@.map_values(|d: StreamData<T, W>| d.id)
    }

    /// The buffers of the history readers, in the order of `history_ids`
    pub closed spec fn buffers(self) -> Seq<Seq<T>> {
        self.streams@.map_values(|d: StreamData<T, W>| d.buffer@)
    }

    /// The IDs of the state readers
    pub closed spec fn state_ids(self) -> Seq<usize> {
        self.states@.map_values(|d: StateData<T, W>| d.id)
    }

    /// The value each state reader will report next, in the order of `state_ids`
    pub closed spec fn currents(self) -> Seq<Option<T>> {
        self.states@.map_values(|d: StateData<T, W>| d.current_symbol)
    }

    /// The most recent item read from the upstream
    pub closed spec fn last_symbol(self) -> Option<T> {
        self.last_symbol
    }

    /// True once the upstream has ended
    pub closed spec fn finished(self) -> bool {
        self.stream_finished
    }

    /// The most items any history reader may have waiting
    pub closed spec fn max_buffer(self) -> usize {
        self.max_buffer_size
    }

    /// The ID the next reader will receive
    pub closed spec fn next_id(self) -> usize {
        self.next_stream_id
    }

    /// The waker each history reader left when it last had to wait, in the order of `history_ids`
    pub closed spec fn history_wakers(self) -> Seq<Option<W>> {
        self.streams@.map_values(|d: StreamData<T, W>| d.ready)
    }

    /// The waker each state reader left when it last had to wait, in the order of `state_ids`
    pub closed spec fn state_wakers(self) -> Seq<Option<W>> {
        self.states@.map_values(|d: StateData<T, W>| d.ready)
    }

    /// Every item read from the upstreams so far, in order
    pub closed spec fn produced(self) -> Seq<T> {
        self.produced@
    }

    /// Every history and state reader but `except` gave up its waker, and `out` holds
    /// exactly the wakers given up
    pub open spec fn all_woken(before: Self, after: Self, except: usize, out: Seq<W>) -> bool {
        exists|a: Seq<W>, b: Seq<W>|
            out == a + b && wakers_taken(
                before.history_ids(),
                before.history_wakers(),
                after.history_wakers(),
                except,
                a,
            ) && wakers_taken(before.state_ids(), before.state_wakers(), after.state_wakers(), except, b)
    }

    /// No waker is handed back, and every reader but `except` keeps its waker
    pub open spec fn none_woken(before: Self, after: Self, except: usize, out: Seq<W>) -> bool {
        &&& out.len() == 0
        &&& after.history_wakers().len() == before.history_wakers().len()
        &&& after.state_wakers().len() == before.state_wakers().len()
        &&& forall|k: int|
            0 <= k < before.history_wakers().len() && before.history_ids()[k] != except
                ==> after.history_wakers()[k] == before.history_wakers()[k]
        &&& forall|k: int|
            0 <= k < before.state_wakers().len() && before.state_ids()[k] != except
                ==> after.state_wakers()[k] == before.state_wakers()[k]
    }

    /// The attached upstream, in the state it was last left in
    pub closed spec fn source(self) -> Option<S> {
        self.source_stream
    }

    /// The buffer of the history reader `id`, if it exists
    pub open spec fn buffer_of(self, id: usize) -> Option<Seq<T>> {
        match index_of(self.history_ids(), id) {
            Some(i) => Some(self.buffers()[i]),
            None => None,
        }
    }

    /// Reader IDs are unique and already handed out; no buffer is over the limit
    pub open spec fn wf(self) -> bool {
        &&& self.history_ids().len() == self.buffers().len()
        &&& self.state_ids().len() == self.currents().len()
        &&& distinct(self.history_ids())
        &&& distinct(self.state_ids())
        &&& forall|i: int|
            0 <= i < self.history_ids().len() ==> self.history_ids()[i] < self.next_id()
        &&& forall|i: int| 0 <= i < self.state_ids().len() ==> self.state_ids()[i] < self.next_id()
        &&& forall|i: int| 0 <= i < self.buffers().len() ==> self.buffers()[i].len() <= self.max_buffer()
        &&& forall|i: int|
            0 <= i < self.currents().len() && self.currents()[i] is Some ==> self.currents()[i]
                == self.last_symbol()
        &&& forall|i: int| 0 <= i < self.buffers().len() ==> is_suffix(self.buffers()[i], self.produced())
    }

    /// `l` is what the upstream returned when this core was drained once, and `d` the items
    /// taken: nothing when no upstream is attached, else as `drain_log` says, with room for
    /// the items that fit beside the fullest buffer
    pub open spec fn drained(self, l: Seq<UpstreamPoll<T>>, d: Seq<T>) -> bool {
        if self.source() is None {
            l.len() == 0 && d.len() == 0
        } else {
            exists|m: int| is_fullest_len(self.buffers(), m) && drain_log(l, d, self.max_buffer() - m)
        }
    }

    /// What a poll with nothing to hand over returns once the upstream returned `l`
    pub open spec fn empty_poll(l: Seq<UpstreamPoll<T>>, after: Self) -> StreamPoll<T> {
        if ends_failed(l) {
            StreamPoll::Failed
        } else if after.finished() {
            StreamPoll::Ready(None)
        } else {
            StreamPoll::NotReady
        }
    }

    /// What a call to `poll_stream(id)` does, given what the upstream returned (`l`) and the
    /// items taken from it (`d`)
    ///
    /// A reader with items waiting gets the oldest without the upstream being polled.
    /// Otherwise the upstream is drained: every other history reader gets `d` appended to
    /// its buffer. The polled reader gets the upstream's failure if the drain ended in one
    /// (keeping `d` in its buffer), or else the first item of `d`, the end of the stream, or
    /// nothing yet.
    pub open spec fn poll_stream_outcome(
        before: Self,
        id: usize,
        l: Seq<UpstreamPoll<T>>,
        d: Seq<T>,
        r: StreamPoll<T>,
        after: Self,
    ) -> bool {
        let skip = match index_of(before.history_ids(), id) {
            Some(i) => i,
            None => -1,
        };
        &&& appended_except(before.buffers(), after.buffers(), d, skip)
        &&& after.history_ids() == before.history_ids()
        &&& after.state_ids() == before.state_ids()
        &&& after.max_buffer() == before.max_buffer()
        &&& after.produced() == before.produced() + d
        &&& after.finished() == (before.finished() || ends_finished(l))
        &&& (l.len() == 0 ==> after.source() == before.source())
        &&& received_into_states(before.last_symbol(), before.currents(), d, after.last_symbol(), after.currents())
        &&& match index_of(before.history_ids(), id) {
            Some(i) => if before.buffers()[i].len() > 0 {
                &&& l.len() == 0
                &&& d.len() == 0
                &&& r == StreamPoll::Ready(Some(before.buffers()[i][0]))
                &&& after.buffers()[i] == before.buffers()[i].drop_first()
            } else {
                &&& before.drained(l, d)
                &&& if ends_failed(l) {
                    &&& r == StreamPoll::<T>::Failed
                    &&& after.buffers()[i] == d
                } else if d.len() > 0 {
                    &&& r == StreamPoll::Ready(Some(d[0]))
                    &&& after.buffers()[i] == d.drop_first()
                } else {
                    &&& after.buffers()[i].len() == 0
                    &&& r == Self::empty_poll(l, after)
                }
            },
            None => before.drained(l, d) && r == StreamPoll::<T>::Ready(None),
        }
    }

    /// What a call to `poll_state(id)` does, given what the upstream returned (`l`) and the
    /// items taken from it (`d`)
    ///
    /// A state reader gets the value it has waiting without the upstream being polled, or
    /// the end once the upstream has ended. Otherwise the upstream is drained, every state
    /// reader is left with the last item taken. The polled reader gets the upstream's failure
    /// if the drain ended in one (keeping that item waiting), or else that item, the end of
    /// the stream, or nothing yet.
    pub open spec fn poll_state_outcome(
        before: Self,
        id: usize,
        l: Seq<UpstreamPoll<T>>,
        d: Seq<T>,
        r: StreamPoll<T>,
        after: Self,
    ) -> bool {
        let skip = match index_of(before.state_ids(), id) {
            Some(i) => i,
            None => -1,
        };
        &&& appended_except(before.buffers(), after.buffers(), d, -1)
        &&& after.history_ids() == before.history_ids()
        &&& after.state_ids() == before.state_ids()
        &&& after.max_buffer() == before.max_buffer()
        &&& after.produced() == before.produced() + d
        &&& after.finished() == (before.finished() || ends_finished(l))
        &&& (l.len() == 0 ==> after.source() == before.source())
        &&& after.currents().len() == before.currents().len()
        &&& d.len() > 0 ==> after.last_symbol() == Some(d.last())
        &&& d.len() == 0 ==> after.last_symbol() == before.last_symbol()
        &&& forall|k: int|
            0 <= k < after.currents().len() && k != skip ==> after.currents()[k] == if d.len() > 0 {
                Some(d.last())
            } else {
                before.currents()[k]
            }
        &&& match index_of(before.state_ids(), id) {
            Some(i) => if before.currents()[i] is Some {
                &&& after.currents()[i] is None
                &&& l.len() == 0 && d.len() == 0 && r == StreamPoll::Ready(before.currents()[i])
            } else if before.finished() {
                &&& after.currents()[i] is None
                &&& l.len() == 0 && d.len() == 0 && r == StreamPoll::<T>::Ready(None)
            } else {
                &&& before.drained(l, d)
                &&& if ends_failed(l) {
                    &&& r == StreamPoll::<T>::Failed
                    &&& after.currents()[i] == if d.len() > 0 {
                        Some(d.last())
                    } else {
                        None
                    }
                } else {
                    &&& after.currents()[i] is None
                    &&& r == if d.len() > 0 {
                        StreamPoll::Ready(Some(d.last()))
                    } else {
                        Self::empty_poll(l, after)
                    }
                }
            },
            None => r == StreamPoll::<T>::Ready(None) && (before.finished() ==> l.len() == 0 && d.len() == 0)
                && (!before.finished() ==> before.drained(l, d)),
        }
    }

}

impl<T: Copy, S: Upstream<T>, W> InputStreamCore<T, S, W> {
    /// Creates a new input stream core with the default buffer size
    pub fn new() -> (r: Self)
        ensures
            r.wf(),
            r.source() is None,
            r.last_symbol() is None,
            !r.finished(),
            r.max_buffer() == DEFAULT_MAX_BUFFER_SIZE,
            r.history_ids().len() == 0,
            r.state_ids().len() == 0,
            r.next_id() == 0,
    {
        Self::with_max_buffer(DEFAULT_MAX_BUFFER_SIZE)
    }

    /// Creates a new input stream core that buffers at most `max_buffer_size` items per reader
    pub fn with_max_buffer(max_buffer_size: usize) -> (r: Self)
        ensures
            r.wf(),
            r.source() is None,
            r.last_symbol() is None,
            !r.finished(),
            r.max_buffer() == max_buffer_size,
            r.history_ids().len() == 0,
            r.state_ids().len() == 0,
            r.next_id() == 0,
    {
        let r = InputStreamCore {
            source_stream: None,
            last_symbol: None,
            stream_finished: false,
            next_stream_id: 0,
            max_buffer_size,
            streams: Vec::new(),
            states: Vec::new(),
            produced: Ghost(Seq::empty()),
        };
        assert(r.history_ids() =~= Seq::<usize>::empty());
        assert(r.state_ids() =~= Seq::<usize>::empty());
        r
    }

    /// The ID the next reader will receive
    pub fn next_reader_id(&self) -> (r: usize)
        ensures
            r == self.next_id(),
    {
        self.next_stream_id
    }

    /// Changes the stream that's associated with this input stream
    ///
    /// Returns the wakers of every waiting reader, so they poll the new stream.
    pub fn replace_stream(&mut self, new_stream: S) -> (to_wake: Vec<W>)
        requires
            old(self).wf(),
        ensures
            final(self).wf(),
            final(self).source() == Some(new_stream),
            !final(self).finished(),
            final(self).last_symbol() == old(self).last_symbol(),
            final(self).history_ids() == old(self).history_ids(),
            final(self).buffers() == old(self).buffers(),
            final(self).state_ids() == old(self).state_ids(),
            final(self).currents() == old(self).currents(),
            final(self).max_buffer() == old(self).max_buffer(),
            final(self).next_id() == old(self).next_id(),
            final(self).produced() == old(self).produced(),
            Self::all_woken(*old(self), *final(self), old(self).next_id(), to_wake@),
            forall|k: int| 0 <= k < final(self).history_wakers().len() ==> final(self).history_wakers()[k] is None,
            forall|k: int| 0 <= k < final(self).state_wakers().len() ==> final(self).state_wakers()[k] is None,
    {
        self.source_stream = Some(new_stream);
        self.stream_finished = false;
        let ghost mid = *self;
        assert(mid.history_wakers() =~= old(self).history_wakers());
        assert(mid.state_wakers() =~= old(self).state_wakers());
        let mut to_wake = Self::take_stream_wakers(&mut self.streams, self.next_stream_id);
        let mut more = Self::take_state_wakers(&mut self.states, self.next_stream_id);
        let ghost a = to_wake@;
        let ghost b = more@;
        to_wake.append(&mut more);
        proof {
            assert(to_wake@ == a + b);
            assert(mid.history_ids() =~= old(self).history_ids());
            assert(mid.state_ids() =~= old(self).state_ids());
            assert(wakers_taken(old(self).history_ids(), old(self).history_wakers(), self.history_wakers(), old(self).next_id(), a));
            assert(wakers_taken(old(self).state_ids(), old(self).state_wakers(), self.state_wakers(), old(self).next_id(), b));
            assert(Self::all_woken(*old(self), *self, old(self).next_id(), to_wake@));
            assert forall|k: int| 0 <= k < self.history_wakers().len() implies self.history_wakers()[k] is None by {
                assert(old(self).history_ids()[k] < old(self).next_id());
            }
            assert forall|k: int| 0 <= k < self.state_wakers().len() implies self.state_wakers()[k] is None by {
                assert(old(self).state_ids()[k] < old(self).next_id());
            }
        }
        assert(self.history_ids() =~= old(self).history_ids());
        assert(self.buffers() =~= old(self).buffers());
        assert(self.state_ids() =~= old(self).state_ids());
        assert(self.currents() =~= old(self).currents());
        to_wake
    }

    /// Takes the wakers of every history reader but `except`
    fn take_stream_wakers(streams: &mut Vec<StreamData<T, W>>, except: usize) -> (to_wake: Vec<W>)
        ensures
            final(streams)@.len() == old(streams)@.len(),
            forall|i: int|
                0 <= i < old(streams)@.len() ==> final(streams)@[i].id == old(streams)@[i].id
                    && final(streams)@[i].buffer == old(streams)@[i].buffer,
            forall|i: int|
                0 <= i < old(streams)@.len() && old(streams)@[i].id == except ==> final(streams)@[i].ready == old(streams)@[i].ready,
            wakers_taken(
                old(streams)@.map_values(|d: StreamData<T, W>| d.id),
                old(streams)@.map_values(|d: StreamData<T, W>| d.ready),
                final(streams)@.map_values(|d: StreamData<T, W>| d.ready),
                except,
                to_wake@,
            ),
    {
        let ghost ids = old(streams)@.map_values(|d: StreamData<T, W>| d.id);
        let ghost before = old(streams)@.map_values(|d: StreamData<T, W>| d.ready);
        let mut to_wake: Vec<W> = Vec::new();
        let mut i: usize = 0;
        while i < streams.len()
            invariant
                0 <= i <= streams@.len(),
                streams@.len() == old(streams)@.len(),
                ids == old(streams)@.map_values(|d: StreamData<T, W>| d.id),
                before == old(streams)@.map_values(|d: StreamData<T, W>| d.ready),
                ids.len() == old(streams)@.len(),
                before.len() == old(streams)@.len(),
                forall|k: int| 0 <= k < old(streams)@.len() ==> #[trigger] ids[k] == old(streams)@[k].id,
                forall|k: int| 0 <= k < old(streams)@.len() ==> #[trigger] before[k] == old(streams)@[k].ready,
                forall|k: int|
                    0 <= k < old(streams)@.len() ==> streams@[k].id == old(streams)@[k].id
                        && streams@[k].buffer == old(streams)@[k].buffer,
                forall|k: int| 0 <= k < i && ids[k] != except ==> streams@[k].ready is None,
                to_wake@ == taken_upto(ids, before, except, i as int),
                forall|k: int| i <= k < old(streams)@.len() ==> #[trigger] streams@[k].ready == before[k],
                forall|k: int|
                    0 <= k < old(streams)@.len() && #[trigger] ids[k] == except ==> streams@[k].ready == before[k],
                forall|k: int| 0 <= k < i && ids[k] != except && before[k] is Some ==> to_wake@.contains(before[k]->0),
            decreases streams@.len() - i,
        {
            assert(ids[i as int] == streams@[i as int].id);
            assert(before[i as int] == streams@[i as int].ready);
            let ghost pre = streams@;
            if streams[i].id != except {
                let ghost prev = to_wake@;
                if let Some(task) = streams[i].ready.take() {
                    to_wake.push(task);
                    proof {
                        lemma_contains_push(prev, task);
                    }
                }
            }
            assert(forall|k: int| 0 <= k < pre.len() && k != i ==> streams@[k] == pre[k]);
            i = i + 1;
        }
        proof {
            let after = streams@.map_values(|d: StreamData<T, W>| d.ready);
            assert forall|k: int| 0 <= k < old(streams)@.len() implies #[trigger] after[k] == streams@[k].ready by {}
            assert(after.len() == before.len());
            assert forall|k: int| 0 <= k < before.len() && ids[k] != except implies after[k] is None by {
                assert(after[k] == streams@[k].ready);
            }
            assert forall|k: int| 0 <= k < old(streams)@.len() && old(streams)@[k].id == except
                implies streams@[k].ready == old(streams)@[k].ready by {
                assert(ids[k] == old(streams)@[k].id);
                assert(before[k] == old(streams)@[k].ready);
            }
            assert(wakers_taken(ids, before, after, except, to_wake@));
        }
        to_wake
    }

    /// Takes the wakers of every state reader but `except`
    fn take_state_wakers(streams: &mut Vec<StateData<T, W>>, except: usize) -> (to_wake: Vec<W>)
        ensures
            final(streams)@.len() == old(streams)@.len(),
            forall|i: int|
                0 <= i < old(streams)@.len() ==> final(streams)@[i].id == old(streams)@[i].id
                    && final(streams)@[i].current_symbol == old(streams)@[i].current_symbol,
            forall|i: int|
                0 <= i < old(streams)@.len() && old(streams)@[i].id == except ==> final(streams)@[i].ready == old(streams)@[i].ready,
            wakers_taken(
                old(streams)@.map_values(|d: StateData<T, W>| d.id),
                old(streams)@.map_values(|d: StateData<T, W>| d.ready),
                final(streams)@.map_values(|d: StateData<T, W>| d.ready),
                except,
                to_wake@,
            ),
    {
        let ghost ids = old(streams)@.map_values(|d: StateData<T, W>| d.id);
        let ghost before = old(streams)@.map_values(|d: StateData<T, W>| d.ready);
        let mut to_wake: Vec<W> = Vec::new();
        let mut i: usize = 0;
        while i < streams.len()
            invariant
                0 <= i <= streams@.len(),
                streams@.len() == old(streams)@.len(),
                ids == old(streams)@.map_values(|d: StateData<T, W>| d.id),
                before == old(streams)@.map_values(|d: StateData<T, W>| d.ready),
                ids.len() == old(streams)@.len(),
                before.len() == old(streams)@.len(),
                forall|k: int| 0 <= k < old(streams)@.len() ==> #[trigger] ids[k] == old(streams)@[k].id,
                forall|k: int| 0 <= k < old(streams)@.len() ==> #[trigger] before[k] == old(streams)@[k].ready,
                forall|k: int|
                    0 <= k < old(streams)@.len() ==> streams@[k].id == old(streams)@[k].id
                        && streams@[k].current_symbol == old(streams)@[k].current_symbol,
                forall|k: int| 0 <= k < i && ids[k] != except ==> streams@[k].ready is None,
                to_wake@ == taken_upto(ids, before, except, i as int),
                forall|k: int| i <= k < old(streams)@.len() ==> #[trigger] streams@[k].ready == before[k],
                forall|k: int|
                    0 <= k < old(streams)@.len() && #[trigger] ids[k] == except ==> streams@[k].ready == before[k],
                forall|k: int| 0 <= k < i && ids[k] != except && before[k] is Some ==> to_wake@.contains(before[k]->0),
            decreases streams@.len() - i,
        {
            assert(ids[i as int] == streams@[i as int].id);
            assert(before[i as int] == streams@[i as int].ready);
            let ghost pre = streams@;
            if streams[i].id != except {
                let ghost prev = to_wake@;
                if let Some(task) = streams[i].ready.take() {
                    to_wake.push(task);
                    proof {
                        lemma_contains_push(prev, task);
                    }
                }
            }
            assert(forall|k: int| 0 <= k < pre.len() && k != i ==> streams@[k] == pre[k]);
            i = i + 1;
        }
        proof {
            let after = streams@.map_values(|d: StateData<T, W>| d.ready);
            assert forall|k: int| 0 <= k < old(streams)@.len() implies #[trigger] after[k] == streams@[k].ready by {}
            assert(after.len() == before.len());
            assert forall|k: int| 0 <= k < before.len() && ids[k] != except implies after[k] is None by {
                assert(after[k] == streams@[k].ready);
            }
            assert forall|k: int| 0 <= k < old(streams)@.len() && old(streams)@[k].id == except
                implies streams@[k].ready == old(streams)@[k].ready by {
                assert(ids[k] == old(streams)@[k].id);
                assert(before[k] == old(streams)@[k].ready);
            }
            assert(wakers_taken(ids, before, after, except, to_wake@));
        }
        to_wake
    }

    /// Allocates a new stream that will read from the input stream
    ///
    /// Streams are polled using `poll_stream()` and receive every symbol sent to the input
    /// stream. A stream allocated after the others have started reading starts with a copy
    /// of the fullest buffer, so it sees the same recent history as the readers before it.
    pub fn allocate_stream(&mut self) -> (stream_id: usize)
        requires
            old(self).wf(),
            old(self).next_id() < usize::MAX,
        ensures
            final(self).history_wakers() == old(self).history_wakers().push(None),
            final(self).state_wakers() == old(self).state_wakers(),
            final(self).wf(),
            stream_id == old(self).next_id(),
            final(self).next_id() == old(self).next_id() + 1,
            final(self).history_ids() == old(self).history_ids().push(stream_id),
            final(self).buffers().len() == old(self).buffers().len() + 1,
            final(self).buffers().drop_last() == old(self).buffers(),
            is_fullest(old(self).buffers(), final(self).buffers().last()),
            final(self).state_ids() == old(self).state_ids(),
            final(self).currents() == old(self).currents(),
            final(self).source() == old(self).source(),
            final(self).last_symbol() == old(self).last_symbol(),
            final(self).finished() == old(self).finished(),
            final(self).max_buffer() == old(self).max_buffer(),
    {
        let stream_id = self.next_stream_id;
        self.next_stream_id = self.next_stream_id + 1;
        let ghost bufs = self.buffers();
        // For a new stream, we'll return the same symbols as the stream with the most full buffer
        let mut fullest: usize = 0;
        let mut fullest_len: usize = 0;
        let mut i: usize = 0;
        while i < self.streams.len()
            invariant
                0 <= i <= self.streams@.len(),
                bufs == self.buffers(),
                bufs.len() == self.streams@.len(),
                forall|j: int| 0 <= j < i ==> bufs[j].len() <= fullest_len,
                fullest_len > 0 ==> fullest < i && bufs[fullest as int].len() == fullest_len,
            decreases self.streams@.len() - i,
        {
            if self.streams[i].buffer.len() > fullest_len {
                fullest = i;
                fullest_len = self.streams[i].buffer.len();
            }
            i = i + 1;
        }
        let mut buffer: VecDeque<T> = VecDeque::new();
        if fullest_len > 0 {
            let mut j: usize = 0;
            while j < fullest_len
                invariant
                    0 <= j <= fullest_len,
                    fullest < self.streams@.len(),
                    bufs == self.buffers(),
                    self.streams@[fullest as int].buffer@ == bufs[fullest as int],
                    bufs[fullest as int].len() == fullest_len,
                    buffer@ == bufs[fullest as int].subrange(0, j as int),
                decreases fullest_len - j,
            {
                let item: T = self.streams[fullest].buffer[j];
                buffer.push_back(item);
                proof {
                    assert(buffer@ =~= bufs[fullest as int].subrange(0, j + 1));
                }
                j = j + 1;
            }
            assert(buffer@ =~= bufs[fullest as int]);
        } else {
            assert(buffer@ =~= Seq::<T>::empty());
        }
        let ghost nb = buffer@;
        assert(nb.len() <= old(self).max_buffer());
        proof {
            if fullest_len == 0 {
                lemma_empty_suffix(self.produced());
                assert(nb =~= Seq::<T>::empty());
            }
        }
        assert(is_suffix(nb, self.produced()));
        self.streams.push(StreamData { id: stream_id, buffer, ready: None });
        proof {
            assert(self.history_ids() =~= old(self).history_ids().push(stream_id));
            assert(self.buffers() =~= old(self).buffers().push(nb));
            assert(self.history_wakers() =~= old(self).history_wakers().push(None));
            assert(self.state_wakers() =~= old(self).state_wakers());
            assert(self.buffers().drop_last() =~= old(self).buffers());
            assert(self.state_ids() =~= old(self).state_ids());
            assert(self.currents() =~= old(self).currents());
        }
        stream_id
    }

    /// Frees a reader (history or state) from this core, with its buffer and waker
    pub fn deallocate_stream(&mut self, stream_id: usize)
        requires
            old(self).wf(),
        ensures
            final(self).wf(),
            match index_of(old(self).history_ids(), stream_id) {
                Some(i) => final(self).history_ids() == old(self).history_ids().remove(i)
                    && final(self).buffers() == old(self).buffers().remove(i)
                    && final(self).history_wakers() == old(self).history_wakers().remove(i),
                None => final(self).history_ids() == old(self).history_ids()
                    && final(self).buffers() == old(self).buffers()
                    && final(self).history_wakers() == old(self).history_wakers(),
            },
            match index_of(old(self).state_ids(), stream_id) {
                Some(i) => final(self).state_ids() == old(self).state_ids().remove(i)
                    && final(self).currents() == old(self).currents().remove(i)
                    && final(self).state_wakers() == old(self).state_wakers().remove(i),
                None => final(self).state_ids() == old(self).state_ids() && final(self).currents()
                    == old(self).currents() && final(self).state_wakers() == old(self).state_wakers(),
            },
            final(self).source() == old(self).source(),
            final(self).last_symbol() == old(self).last_symbol(),
            final(self).finished() == old(self).finished(),
            final(self).max_buffer() == old(self).max_buffer(),
            final(self).next_id() == old(self).next_id(),
    {
        let ghost ids = self.history_ids();
        let ghost sids = self.state_ids();
        if let Some(i) = Self::find_stream(&self.streams, stream_id) {
            proof {
                lemma_index_of(ids, i as int);
            }
            self.streams.remove(i);
            proof {
                assert(self.history_ids() =~= ids.remove(i as int));
                assert(self.buffers() =~= old(self).buffers().remove(i as int));
                assert(self.history_wakers() =~= old(self).history_wakers().remove(i as int));
            }
        } else {
            assert(self.history_ids() =~= old(self).history_ids());
            assert(self.buffers() =~= old(self).buffers());
            assert(self.history_wakers() =~= old(self).history_wakers());
        }
        assert(self.state_wakers() =~= old(self).state_wakers());
        assert(self.state_ids() =~= sids);
        assert(self.currents() =~= old(self).currents());
        let ghost mid = *self;
        if let Some(k) = Self::find_state(&self.states, stream_id) {
            proof {
                lemma_index_of(sids, k as int);
            }
            self.states.remove(k);
            proof {
                assert(self.state_ids() =~= sids.remove(k as int));
                assert(self.currents() =~= mid.currents().remove(k as int));
                assert(self.state_wakers() =~= mid.state_wakers().remove(k as int));
                assert(self.history_wakers() =~= mid.history_wakers());
                assert(self.history_ids() =~= mid.history_ids());
                assert(self.buffers() =~= mid.buffers());
            }
        }
    }

    /// The index of the history reader `id`, if it exists
    fn find_stream(streams: &Vec<StreamData<T, W>>, id: usize) -> (r: Option<usize>)
        ensures
            match r {
                Some(i) => i < streams@.len() && streams@[i as int].id == id,
                None => forall|j: int| 0 <= j < streams@.len() ==> streams@[j].id != id,
            },
    {
        let mut i: usize = 0;
        while i < streams.len()
            invariant
                0 <= i <= streams@.len(),
                forall|j: int| 0 <= j < i ==> streams@[j].id != id,
            decreases streams@.len() - i,
        {
            if streams[i].id == id {
                return Some(i);
            }
            i = i + 1;
        }
        None
    }

    /// The index of the state reader `id`, if it exists
    fn find_state(states: &Vec<StateData<T, W>>, id: usize) -> (r: Option<usize>)
        ensures
            match r {
                Some(i) => i < states@.len() && states@[i as int].id == id,
                None => forall|j: int| 0 <= j < states@.len() ==> states@[j].id != id,
            },
    {
        let mut i: usize = 0;
        while i < states.len()
            invariant
                0 <= i <= states@.len(),
                forall|j: int| 0 <= j < i ==> states@[j].id != id,
            decreases states@.len() - i,
        {
            if states[i].id == id {
                return Some(i);
            }
            i = i + 1;
        }
        None
    }

    /// Allocates a new state stream, returning the stream ID
    ///
    /// State streams are polled using `poll_state()`. They only return the most recent
    /// symbol available from the input stream, starting with the last one already read.
    pub fn allocate_new_state_stream(&mut self) -> (stream_id: usize)
        requires
            old(self).wf(),
            old(self).next_id() < usize::MAX,
        ensures
            final(self).state_wakers() == old(self).state_wakers().push(None),
            final(self).history_wakers() == old(self).history_wakers(),
            final(self).wf(),
            stream_id == old(self).next_id(),
            final(self).next_id() == old(self).next_id() + 1,
            final(self).state_ids() == old(self).state_ids().push(stream_id),
            final(self).currents() == old(self).currents().push(old(self).last_symbol()),
            final(self).history_ids() == old(self).history_ids(),
            final(self).buffers() == old(self).buffers(),
            final(self).source() == old(self).source(),
            final(self).last_symbol() == old(self).last_symbol(),
            final(self).finished() == old(self).finished(),
            final(self).max_buffer() == old(self).max_buffer(),
    {
        let stream_id = self.next_stream_id;
        self.next_stream_id = self.next_stream_id + 1;
        let last_symbol = self.last_symbol;
        self.states.push(StateData { id: stream_id, current_symbol: last_symbol, ready: None });
        proof {
            assert(self.state_ids() =~= old(self).state_ids().push(stream_id));
            assert(self.currents() =~= old(self).currents().push(old(self).last_symbol()));
            assert(self.state_wakers() =~= old(self).state_wakers().push(None));
            assert(self.history_wakers() =~= old(self).history_wakers());
            assert(self.history_ids() =~= old(self).history_ids());
            assert(self.buffers() =~= old(self).buffers());
        }
        stream_id
    }

    /// Drains as many items as the buffers allow from the upstream into every history buffer
    ///
    /// Polling stops when the fullest buffer would reach `max_buffer_size`, when the upstream
    /// is not ready, when it ends, or when it fails. When some buffer is already full, the
    /// upstream is not polled at all.
    fn drain_stream(
        stream: &mut S,
        buffer_to: &mut Vec<StreamData<T, W>>,
        max_buffer_size: usize,
    ) -> (r: Drained<T>)
        requires
            forall|i: int| 0 <= i < old(buffer_to)@.len() ==> old(buffer_to)@[i].buffer@.len() <= max_buffer_size,
        ensures
            final(buffer_to)@.len() == old(buffer_to)@.len(),
            forall|i: int|
                0 <= i < old(buffer_to)@.len() ==> final(buffer_to)@[i].id == old(buffer_to)@[i].id
                    && final(buffer_to)@[i].ready == old(buffer_to)@[i].ready
                    && final(buffer_to)@[i].buffer@ == old(buffer_to)@[i].buffer@ + r.received@
                    && final(buffer_to)@[i].buffer@.len() <= max_buffer_size,
            is_fullest_len(old(buffer_to)@.map_values(|d: StreamData<T, W>| d.buffer@), max_buffer_size - r.limit@),
            drain_log(r.log@, r.received@, r.limit@),
            r.finished == ends_finished(r.log@),
            r.failed == ends_failed(r.log@),
            r.log@.len() == 0 ==> *final(stream) == *old(stream),
            (exists|i: int| 0 <= i < old(buffer_to)@.len() && old(buffer_to)@[i].buffer@.len() == max_buffer_size)
                ==> *final(stream) == *old(stream) && r.received@.len() == 0 && !r.finished && !r.failed,
    {
        let ghost lens = old(buffer_to)@.map_values(|d: StreamData<T, W>| d.buffer@);
        // Determine the maximum number of symbols to load for the streams
        let mut biggest_stream_count: usize = 0;
        let mut i: usize = 0;
        while i < buffer_to.len()
            invariant
                0 <= i <= buffer_to@.len(),
                biggest_stream_count <= max_buffer_size,
                forall|j: int| 0 <= j < buffer_to@.len() ==> buffer_to@[j].buffer@.len() <= max_buffer_size,
                forall|j: int| 0 <= j < i ==> buffer_to@[j].buffer@.len() <= biggest_stream_count,
                (exists|j: int| 0 <= j < i && buffer_to@[j].buffer@.len() == max_buffer_size)
                    ==> biggest_stream_count == max_buffer_size,
                buffer_to@ == old(buffer_to)@,
                lens == buffer_to@.map_values(|d: StreamData<T, W>| d.buffer@),
                biggest_stream_count == 0 || exists|j: int| 0 <= j < i && lens[j].len() == biggest_stream_count,
            decreases buffer_to@.len() - i,
        {
            if buffer_to[i].buffer.len() > biggest_stream_count {
                biggest_stream_count = buffer_to[i].buffer.len();
                assert(lens[i as int].len() == biggest_stream_count);
            }
            assert(lens[i as int] == buffer_to@[i as int].buffer@);
            i = i + 1;
        }
        let mut received: Vec<T> = Vec::new();
        let mut finished = false;
        let mut failed = false;
        let ghost mut log: Seq<UpstreamPoll<T>> = Seq::empty();
        assert(is_fullest_len(lens, biggest_stream_count as int));
        if biggest_stream_count >= max_buffer_size {
            assert(buffer_to@ == old(buffer_to)@);
            return Drained { received, finished, failed, log: Ghost(log), limit: Ghost(0) };
        }
        let ghost limit: int = max_buffer_size - biggest_stream_count;
        let mut remaining_symbols: usize = max_buffer_size - biggest_stream_count;
        let mut done = false;
        while remaining_symbols > 0 && !done
            invariant
                received@.len() + remaining_symbols == limit,
                limit == max_buffer_size - biggest_stream_count,
                !done ==> !finished && !failed && log.len() == received@.len(),
                done ==> log.len() == received@.len() + 1 && !(log.last() is Item),
                forall|j: int| 0 <= j < received@.len() ==> log[j] == UpstreamPoll::Item(received@[j]),
                finished == ends_finished(log),
                failed == ends_failed(log),
                log.len() == 0 ==> *stream == *old(stream),
            decreases remaining_symbols + (if done { 0int } else { 1int }),
        {
            // Poll for the next symbol until the stream finishes or indicates it's not ready
            let outcome = stream.poll_next();
            proof {
                log = log.push(outcome);
            }
            match outcome {
                UpstreamPoll::Item(next_symbol) => {
                    remaining_symbols = remaining_symbols - 1;
                    received.push(next_symbol);
                },
                UpstreamPoll::NotReady => {
                    done = true;
                },
                UpstreamPoll::Finished => {
                    finished = true;
                    done = true;
                },
                UpstreamPoll::Failed => {
                    failed = true;
                    done = true;
                },
            }
        }
        // Add the received symbols to the buffers
        let mut k: usize = 0;
        while k < buffer_to.len()
            invariant
                0 <= k <= buffer_to@.len(),
                buffer_to@.len() == old(buffer_to)@.len(),
                received@.len() + biggest_stream_count <= max_buffer_size,
                forall|j: int| 0 <= j < old(buffer_to)@.len() ==> old(buffer_to)@[j].buffer@.len() <= biggest_stream_count,
                forall|j: int|
                    0 <= j < old(buffer_to)@.len() ==> buffer_to@[j].id == old(buffer_to)@[j].id
                        && buffer_to@[j].ready == old(buffer_to)@[j].ready,
                forall|j: int|
                    0 <= j < k ==> buffer_to@[j].buffer@ == old(buffer_to)@[j].buffer@ + received@,
                forall|j: int|
                    k <= j < buffer_to@.len() ==> buffer_to@[j].buffer@ == old(buffer_to)@[j].buffer@,
            decreases buffer_to@.len() - k,
        {
            let mut n: usize = 0;
            while n < received.len()
                invariant
                    0 <= n <= received@.len(),
                    k < buffer_to@.len(),
                    buffer_to@.len() == old(buffer_to)@.len(),
                    forall|j: int|
                        0 <= j < old(buffer_to)@.len() ==> buffer_to@[j].id == old(buffer_to)@[j].id
                            && buffer_to@[j].ready == old(buffer_to)@[j].ready,
                    forall|j: int|
                        0 <= j < k ==> buffer_to@[j].buffer@ == old(buffer_to)@[j].buffer@ + received@,
                    forall|j: int|
                        k < j < buffer_to@.len() ==> buffer_to@[j].buffer@ == old(buffer_to)@[j].buffer@,
                    buffer_to@[k as int].buffer@ == old(buffer_to)@[k as int].buffer@ + received@.subrange(0, n as int),
                decreases received@.len() - n,
            {
                let item: T = received[n];
                buffer_to[k].buffer.push_back(item);
                proof {
                    assert(received@.subrange(0, n + 1) =~= received@.subrange(0, n as int).push(item));
                    assert(buffer_to@[k as int].buffer@ =~= old(buffer_to)@[k as int].buffer@ + received@.subrange(0, n + 1));
                }
                n = n + 1;
            }
            assert(received@.subrange(0, received@.len() as int) =~= received@);
            k = k + 1;
        }
        Drained { received, finished, failed, log: Ghost(log), limit: Ghost(limit) }
    }
    /// Sets every state reader to report `last_symbol` next
    fn update_last_symbol(states: &mut Vec<StateData<T, W>>, last_symbol: T)
        ensures
            final(states)@.len() == old(states)@.len(),
            forall|i: int|
                0 <= i < old(states)@.len() ==> final(states)@[i].id == old(states)@[i].id
                    && final(states)@[i].ready == old(states)@[i].ready
                    && final(states)@[i].current_symbol == Some(last_symbol),
    {
        let mut i: usize = 0;
        while i < states.len()
            invariant
                0 <= i <= states@.len(),
                states@.len() == old(states)@.len(),
                forall|k: int| 0 <= k < old(states)@.len() ==> states@[k].id == old(states)@[k].id
                    && states@[k].ready == old(states)@[k].ready,
                forall|k: int| 0 <= k < i ==> states@[k].current_symbol == Some(last_symbol),
            decreases states@.len() - i,
        {
            states[i].current_symbol = Some(last_symbol);
            i = i + 1;
        }
    }

    /// Drains the attached upstream, if there is one, into every history buffer
    fn drain_source(&mut self) -> (r: Drained<T>)
        requires
            old(self).wf(),
        ensures
            final(self).wf(),
            final(self).history_ids() == old(self).history_ids(),
            appended_except(old(self).buffers(), final(self).buffers(), r.received@, -1),
            final(self).states == old(self).states,
            final(self).last_symbol() == old(self).last_symbol(),
            final(self).finished() == old(self).finished(),
            final(self).max_buffer() == old(self).max_buffer(),
            final(self).next_id() == old(self).next_id(),
            !(r.finished && r.failed),
            old(self).drained(r.log@, r.received@),
            r.finished == ends_finished(r.log@),
            r.failed == ends_failed(r.log@),
            r.log@.len() == 0 ==> final(self).source() == old(self).source(),
            final(self).produced() == old(self).produced() + r.received@,
            final(self).history_wakers() == old(self).history_wakers(),
            old(self).source() is None ==> final(self).source() is None && r.received@.len() == 0
                && !r.finished && !r.failed,
            (exists|k: int| 0 <= k < old(self).buffers().len() && old(self).buffers()[k].len() == old(self).max_buffer())
                ==> final(self).source() == old(self).source() && r.received@.len() == 0
                && !r.finished && !r.failed,
    {
        assert forall|i: int| 0 <= i < self.streams@.len() implies self.streams@[i].buffer@.len()
            <= self.max_buffer_size by {
            assert(self.buffers()[i] == self.streams@[i].buffer@);
        }
        let mut source = self.source_stream.take();
        let drained = match &mut source {
            Some(stream) => Self::drain_stream(stream, &mut self.streams, self.max_buffer_size),
            None => Drained { received: Vec::new(), finished: false, failed: false, log: Ghost(Seq::empty()), limit: Ghost(0) },
        };
        self.source_stream = source;
        self.produced = Ghost(self.produced@ + drained.received@);
        proof {
            assert forall|k: int| 0 <= k < self.buffers().len() implies is_suffix(self.buffers()[k], self.produced()) by {
                assert(self.buffers()[k] == old(self).buffers()[k] + drained.received@);
                lemma_suffix_append(old(self).buffers()[k], old(self).produced(), drained.received@);
            }
            assert(self.history_ids() =~= old(self).history_ids());
            assert forall|k: int| 0 <= k < old(self).buffers().len() implies self.buffers()[k]
                == old(self).buffers()[k] + drained.received@ by {}
            assert(self.state_ids() =~= old(self).state_ids());
            assert(self.currents() =~= old(self).currents());
            assert(self.history_wakers() =~= old(self).history_wakers());
            if old(self).source() is None {
                assert(drained.received@ =~= Seq::<T>::empty());
            } else {
                assert(old(self).streams@.map_values(|d: StreamData<T, W>| d.buffer@) =~= old(self).buffers());
                assert(is_fullest_len(old(self).buffers(), old(self).max_buffer() - drained.limit@));
            }
        }
        drained
    }

    /// Takes in what was drained: records the latest item, hands it to every state reader,
    /// notes the end of the upstream, and collects the wakers of every reader but `stream_id`
    fn absorb(&mut self, drained: &Drained<T>, stream_id: usize) -> (to_wake: Vec<W>)
        requires
            old(self).wf(),
        ensures
            final(self).wf(),
            final(self).history_ids() == old(self).history_ids(),
            final(self).buffers() == old(self).buffers(),
            final(self).state_ids() == old(self).state_ids(),
            received_into_states(old(self).last_symbol(), old(self).currents(), drained.received@, final(self).last_symbol(), final(self).currents()),
            final(self).finished() == (old(self).finished() || drained.finished),
            final(self).produced() == old(self).produced(),
            drained.received@.len() > 0 ==> Self::all_woken(*old(self), *final(self), stream_id, to_wake@),
            drained.received@.len() == 0 ==> to_wake@.len() == 0 && final(self).history_wakers() == old(self).history_wakers()
                && final(self).state_wakers() == old(self).state_wakers(),
            forall|k: int| 0 <= k < old(self).history_ids().len() && old(self).history_ids()[k] == stream_id
                ==> final(self).history_wakers()[k] == old(self).history_wakers()[k],
            forall|k: int| 0 <= k < old(self).state_ids().len() && old(self).state_ids()[k] == stream_id
                ==> final(self).state_wakers()[k] == old(self).state_wakers()[k],
            final(self).source() == old(self).source(),
            final(self).max_buffer() == old(self).max_buffer(),
            final(self).next_id() == old(self).next_id(),
    {
        let mut to_wake: Vec<W> = Vec::new();
        let n = drained.received.len();
        if n > 0 {
            let last: T = drained.received[n - 1];
            Self::update_last_symbol(&mut self.states, last);
            self.last_symbol = Some(last);
            let ghost mid = *self;
            assert(mid.state_wakers() =~= old(self).state_wakers());
            assert(mid.state_ids() =~= old(self).state_ids());
            to_wake = Self::take_stream_wakers(&mut self.streams, stream_id);
            let mut more = Self::take_state_wakers(&mut self.states, stream_id);
            let ghost a = to_wake@;
            let ghost b = more@;
            to_wake.append(&mut more);
            proof {
                assert(self.currents() =~= Seq::new(old(self).currents().len(), |k: int| Some(last)));
                assert(to_wake@ == a + b);
                assert(Self::all_woken(*old(self), *self, stream_id, to_wake@));
            }
        } else {
            assert(self.currents() =~= old(self).currents());
            assert(self.history_wakers() =~= old(self).history_wakers());
            assert(self.state_wakers() =~= old(self).state_wakers());
        }
        if drained.finished {
            self.stream_finished = true;
        }
        proof {
            assert(self.history_ids() =~= old(self).history_ids());
            assert(self.buffers() =~= old(self).buffers());
            assert(self.state_ids() =~= old(self).state_ids());
        }
        to_wake
    }

    /// Waking all readers but `except` between `b2` and `a1` is waking them between
    /// `before` and `after` when those differ from `b2` and `a1` only in `except`'s waker
    proof fn lemma_woken_across(before: Self, b2: Self, a1: Self, after: Self, except: usize, out: Seq<W>, woke: bool)
        requires
            woke ==> Self::all_woken(b2, a1, except, out),
            !woke ==> Self::none_woken(b2, a1, except, out),
            b2.history_ids() == before.history_ids(),
            b2.state_ids() == before.state_ids(),
            before.history_wakers().len() == before.history_ids().len(),
            before.state_wakers().len() == before.state_ids().len(),
            b2.history_wakers().len() == before.history_wakers().len(),
            a1.history_wakers().len() == before.history_wakers().len(),
            after.history_wakers().len() == before.history_wakers().len(),
            b2.state_wakers().len() == before.state_wakers().len(),
            a1.state_wakers().len() == before.state_wakers().len(),
            after.state_wakers().len() == before.state_wakers().len(),
            forall|k: int| 0 <= k < before.history_ids().len() && before.history_ids()[k] != except
                ==> before.history_wakers()[k] == b2.history_wakers()[k] && a1.history_wakers()[k] == after.history_wakers()[k],
            forall|k: int| 0 <= k < before.state_ids().len() && before.state_ids()[k] != except
                ==> before.state_wakers()[k] == b2.state_wakers()[k] && a1.state_wakers()[k] == after.state_wakers()[k],
        ensures
            woke ==> Self::all_woken(before, after, except, out),
            !woke ==> Self::none_woken(before, after, except, out),
    {
        if woke {
            let (a, b) = choose|a: Seq<W>, b: Seq<W>|
                out == a + b && wakers_taken(b2.history_ids(), b2.history_wakers(), a1.history_wakers(), except, a)
                    && wakers_taken(b2.state_ids(), b2.state_wakers(), a1.state_wakers(), except, b);
            lemma_wakers_taken_frame(before.history_ids(), b2.history_wakers(), a1.history_wakers(), before.history_wakers(), after.history_wakers(), except, a);
            lemma_wakers_taken_frame(before.state_ids(), b2.state_wakers(), a1.state_wakers(), before.state_wakers(), after.state_wakers(), except, b);
        }
    }

    /// Polls the history reader `stream_id`
    ///
    /// Returns what the reader gets, and the wakers of the other readers, to be called once
    /// whatever lock guards this core has been released.
    pub fn poll_stream(&mut self, stream_id: usize, poll_task: W) -> (r: (StreamPoll<T>, Vec<W>))
        requires
            old(self).wf(),
        ensures
            final(self).wf(),
            final(self).history_ids() == old(self).history_ids(),
            final(self).state_ids() == old(self).state_ids(),
            final(self).max_buffer() == old(self).max_buffer(),
            final(self).next_id() == old(self).next_id(),
            exists|l: Seq<UpstreamPoll<T>>, d: Seq<T>| Self::poll_stream_outcome(*old(self), stream_id, l, d, r.0, *final(self)),
            final(self).history_wakers().len() == old(self).history_wakers().len(),
            final(self).state_wakers().len() == old(self).state_wakers().len(),
            match index_of(old(self).history_ids(), stream_id) {
                Some(i) => final(self).history_wakers()[i] == if r.0 is NotReady {
                    Some(poll_task)
                } else {
                    None
                },
                None => true,
            },
            final(self).produced().len() > old(self).produced().len() ==> Self::all_woken(*old(self), *final(self), stream_id, r.1@),
            final(self).produced().len() == old(self).produced().len() ==> Self::none_woken(*old(self), *final(self), stream_id, r.1@),
            (exists|k: int| 0 <= k < old(self).buffers().len() && old(self).buffers()[k].len() == old(self).max_buffer())
                ==> final(self).source() == old(self).source(),
    {
        let ghost ids = self.history_ids();
        let found = Self::find_stream(&self.streams, stream_id);
        if let Some(i) = found {
            proof {
                lemma_index_of(ids, i as int);
            }
            self.streams[i].ready = None;
            if let Some(next_symbol) = self.streams[i].buffer.pop_front() {
                let r = (StreamPoll::Ready(Some(next_symbol)), Vec::new());
                proof {
                    assert(self.history_ids() =~= old(self).history_ids());
                    assert(self.state_ids() =~= old(self).state_ids());
                    assert(self.currents() =~= old(self).currents());
                    assert(self.buffers() =~= old(self).buffers().update(i as int, old(self).buffers()[i as int].drop_first()));
                    lemma_suffix_drop_first(old(self).buffers()[i as int], old(self).produced());
                    assert(self.produced() =~= old(self).produced() + Seq::<T>::empty());
                    assert(Self::poll_stream_outcome(*old(self), stream_id, Seq::<UpstreamPoll<T>>::empty(), Seq::<T>::empty(), r.0, *self));
                }
                return r;
            }
        } else {
            proof {
                if exists|k: int| 0 <= k < ids.len() && ids[k] == stream_id {
                    let k = choose|k: int| 0 <= k < ids.len() && ids[k] == stream_id;
                    assert(self.streams@[k].id == stream_id);
                }
            }
        }
        let ghost start = *self;
        proof {
            if found is Some {
                assert(start.history_wakers() =~= old(self).history_wakers().update(found->0 as int, None));
            } else {
                assert(start.history_wakers() =~= old(self).history_wakers());
            }
            assert(start.state_wakers() =~= old(self).state_wakers());
            assert(start.history_ids() =~= old(self).history_ids());
            assert(start.buffers() =~= old(self).buffers());
            assert(start.state_ids() =~= old(self).state_ids());
            assert(start.currents() =~= old(self).currents());
        }
        let drained = self.drain_source();
        let ghost pd = *self;
        let to_wake = self.absorb(&drained, stream_id);
        let ghost tw = to_wake@;
        let ghost d = drained.received@;
        let ghost l = drained.log@;
        let ghost mid = *self;
        let r = if let Some(i) = found {
            assert(self.streams@[i as int].buffer@ == mid.buffers()[i as int]);
            assert(mid.buffers()[i as int] == old(self).buffers()[i as int] + d);
            assert(old(self).buffers()[i as int] + d =~= d);
            if drained.failed {
                let r = (StreamPoll::Failed, to_wake);
                proof {
                    assert(self.history_ids() =~= mid.history_ids());
                    assert(self.buffers() =~= mid.buffers());
                    assert(self.state_ids() =~= mid.state_ids());
                    assert(self.currents() =~= mid.currents());
                    assert(Self::poll_stream_outcome(*old(self), stream_id, l, d, r.0, *self));
                }
                r
            } else if let Some(next_symbol) = self.streams[i].buffer.pop_front() {
                let r = (StreamPoll::Ready(Some(next_symbol)), to_wake);
                proof {
                    assert(self.history_ids() =~= mid.history_ids());
                    assert(self.state_ids() =~= mid.state_ids());
                    assert(self.currents() =~= mid.currents());
                    assert(self.buffers() =~= mid.buffers().update(i as int, d.drop_first()));
                    lemma_suffix_drop_first(mid.buffers()[i as int], mid.produced());
                    assert(Self::poll_stream_outcome(*old(self), stream_id, l, d, r.0, *self));
                }
                r
            } else if self.stream_finished {
                let r = (StreamPoll::Ready(None), to_wake);
                proof {
                    assert(self.history_ids() =~= mid.history_ids());
                    assert(self.buffers() =~= mid.buffers());
                    assert(self.state_ids() =~= mid.state_ids());
                    assert(self.currents() =~= mid.currents());
                    assert(Self::poll_stream_outcome(*old(self), stream_id, l, d, r.0, *self));
                }
                r
            } else {
                self.streams[i].ready = Some(poll_task);
                let r = (StreamPoll::NotReady, to_wake);
                proof {
                    assert(self.history_ids() =~= mid.history_ids());
                    assert(self.buffers() =~= mid.buffers());
                    assert(self.state_ids() =~= mid.state_ids());
                    assert(self.currents() =~= mid.currents());
                    assert(Self::poll_stream_outcome(*old(self), stream_id, l, d, r.0, *self));
                }
                r
            }
        } else {
            let r = (StreamPoll::Ready(None), to_wake);
            proof {
                assert(Self::poll_stream_outcome(*old(self), stream_id, l, d, r.0, *self));
            }
            r
        };
        proof {
            assert(r.1@ == tw);
            assert(self.produced() == old(self).produced() + d);
            assert(pd.history_wakers() == start.history_wakers());
            assert(pd.state_wakers() == start.state_wakers());
            assert(pd.history_ids() =~= old(self).history_ids());
            assert(pd.state_ids() =~= old(self).state_ids());
            if d.len() == 0 {
                assert(Self::none_woken(pd, mid, stream_id, tw));
            }
            assert forall|k: int| 0 <= k < old(self).history_ids().len() && old(self).history_ids()[k] != stream_id
                implies old(self).history_wakers()[k] == pd.history_wakers()[k] && mid.history_wakers()[k] == self.history_wakers()[k] by {
                if found is Some {
                    assert(k != found->0 as int);
                }
            }
            Self::lemma_woken_across(*old(self), pd, mid, *self, stream_id, r.1@, d.len() > 0);
        }
        r
    }

    /// Polls the state reader `stream_id` for the latest value
    ///
    /// Returns what the reader gets, and the wakers of the other readers, to be called once
    /// whatever lock guards this core has been released. Any value a state reader gets is
    /// the most recent item read from the upstream.
    pub fn poll_state(&mut self, stream_id: usize, poll_task: W) -> (r: (StreamPoll<T>, Vec<W>))
        requires
            old(self).wf(),
        ensures
            final(self).wf(),
            final(self).history_ids() == old(self).history_ids(),
            final(self).state_ids() == old(self).state_ids(),
            final(self).max_buffer() == old(self).max_buffer(),
            final(self).next_id() == old(self).next_id(),
            exists|l: Seq<UpstreamPoll<T>>, d: Seq<T>| Self::poll_state_outcome(*old(self), stream_id, l, d, r.0, *final(self)),
            final(self).history_wakers().len() == old(self).history_wakers().len(),
            final(self).state_wakers().len() == old(self).state_wakers().len(),
            match index_of(old(self).state_ids(), stream_id) {
                Some(i) => final(self).state_wakers()[i] == if r.0 is NotReady {
                    Some(poll_task)
                } else {
                    None
                },
                None => true,
            },
            final(self).produced().len() > old(self).produced().len() ==> Self::all_woken(*old(self), *final(self), stream_id, r.1@),
            final(self).produced().len() == old(self).produced().len() ==> Self::none_woken(*old(self), *final(self), stream_id, r.1@),
            (exists|k: int| 0 <= k < old(self).buffers().len() && old(self).buffers()[k].len() == old(self).max_buffer())
                ==> final(self).source() == old(self).source(),
            (r.0 is Ready && r.0->Ready_0 is Some) ==> final(self).last_symbol() == r.0->Ready_0,
    {
        let ghost sids = self.state_ids();
        let found = Self::find_state(&self.states, stream_id);
        if let Some(i) = found {
            proof {
                lemma_index_of(sids, i as int);
            }
            self.states[i].ready = None;
            if let Some(value) = self.states[i].current_symbol.take() {
                let r = (StreamPoll::Ready(Some(value)), Vec::new());
                proof {
                    assert(self.history_ids() =~= old(self).history_ids());
                    assert(self.buffers() =~= old(self).buffers());
                    assert(self.state_ids() =~= old(self).state_ids());
                    assert(self.currents() =~= old(self).currents().update(i as int, None));
                    assert(self.produced() =~= old(self).produced() + Seq::<T>::empty());
                assert(Self::poll_state_outcome(*old(self), stream_id, Seq::<UpstreamPoll<T>>::empty(), Seq::<T>::empty(), r.0, *self));
                }
                return r;
            }
        } else {
            proof {
                if exists|k: int| 0 <= k < sids.len() && sids[k] == stream_id {
                    let k = choose|k: int| 0 <= k < sids.len() && sids[k] == stream_id;
                    assert(self.states@[k].id == stream_id);
                }
            }
        }
        let ghost start = *self;
        proof {
            if found is Some {
                assert(start.state_wakers() =~= old(self).state_wakers().update(found->0 as int, None));
            } else {
                assert(start.state_wakers() =~= old(self).state_wakers());
            }
            assert(start.history_wakers() =~= old(self).history_wakers());
            assert(start.history_ids() =~= old(self).history_ids());
            assert(start.buffers() =~= old(self).buffers());
            assert(start.state_ids() =~= old(self).state_ids());
            assert(start.currents() =~= old(self).currents());
        }
        // Return immediately if the input stream is finished
        if self.stream_finished {
            let r = (StreamPoll::Ready(None), Vec::new());
            proof {
                assert(self.produced() =~= old(self).produced() + Seq::<T>::empty());
                assert(Self::poll_state_outcome(*old(self), stream_id, Seq::<UpstreamPoll<T>>::empty(), Seq::<T>::empty(), r.0, *self));
            }
            return r;
        }
        let drained = self.drain_source();
        let ghost pd = *self;
        let to_wake = self.absorb(&drained, stream_id);
        let ghost tw = to_wake@;
        let ghost d = drained.received@;
        let ghost l = drained.log@;
        let ghost mid = *self;
        let r = if let Some(i) = found {
            assert(self.states@[i as int].current_symbol == mid.currents()[i as int]);
            if drained.failed {
                let r = (StreamPoll::Failed, to_wake);
                proof {
                    assert(self.history_ids() =~= mid.history_ids());
                    assert(self.buffers() =~= mid.buffers());
                    assert(self.state_ids() =~= mid.state_ids());
                    assert(self.currents() =~= mid.currents());
                    assert(Self::poll_state_outcome(*old(self), stream_id, l, d, r.0, *self));
                }
                r
            } else if let Some(value) = self.states[i].current_symbol.take() {
                let r = (StreamPoll::Ready(Some(value)), to_wake);
                proof {
                    assert(self.history_ids() =~= mid.history_ids());
                    assert(self.buffers() =~= mid.buffers());
                    assert(self.state_ids() =~= mid.state_ids());
                    assert(self.currents() =~= mid.currents().update(i as int, None));
                    assert(Self::poll_state_outcome(*old(self), stream_id, l, d, r.0, *self));
                }
                r
            } else if !self.stream_finished {
                self.states[i].ready = Some(poll_task);
                let r = (StreamPoll::NotReady, to_wake);
                proof {
                    assert(self.history_ids() =~= mid.history_ids());
                    assert(self.buffers() =~= mid.buffers());
                    assert(self.state_ids() =~= mid.state_ids());
                    assert(self.currents() =~= mid.currents());
                    assert(Self::poll_state_outcome(*old(self), stream_id, l, d, r.0, *self));
                }
                r
            } else {
                let r = (StreamPoll::Ready(None), to_wake);
                proof {
                    assert(self.history_ids() =~= mid.history_ids());
                    assert(self.buffers() =~= mid.buffers());
                    assert(self.state_ids() =~= mid.state_ids());
                    assert(self.currents() =~= mid.currents());
                    assert(Self::poll_state_outcome(*old(self), stream_id, l, d, r.0, *self));
                }
                r
            }
        } else {
            let r = (StreamPoll::Ready(None), to_wake);
            proof {
                assert(Self::poll_state_outcome(*old(self), stream_id, l, d, r.0, *self));
            }
            r
        };
        proof {
            assert(r.1@ == tw);
            assert(self.produced() == old(self).produced() + d);
            assert(pd.state_wakers() == start.state_wakers());
            assert(pd.history_wakers() == start.history_wakers());
            assert(pd.history_ids() =~= old(self).history_ids());
            assert(pd.state_ids() =~= old(self).state_ids());
            if d.len() == 0 {
                assert(Self::none_woken(pd, mid, stream_id, tw));
            }
            assert forall|k: int| 0 <= k < old(self).state_ids().len() && old(self).state_ids()[k] != stream_id
                implies old(self).state_wakers()[k] == pd.state_wakers()[k] && mid.state_wakers()[k] == self.state_wakers()[k] by {
                if found is Some {
                    assert(k != found->0 as int);
                }
            }
            Self::lemma_woken_across(*old(self), pd, mid, *self, stream_id, r.1@, d.len() > 0);
        }
        r
    }
}


/// Fan-out: one poll of a history reader appends the same items, in upstream order, to
/// every other history reader, so two other readers that were level stay level.
pub proof fn lemma_poll_fans_out_alike<T, S, W>(
    before: InputStreamCore<T, S, W>,
    id: usize,
    l: Seq<UpstreamPoll<T>>,
    d: Seq<T>,
    r: StreamPoll<T>,
    after: InputStreamCore<T, S, W>,
    a: int,
    b: int,
)
    requires
        InputStreamCore::poll_stream_outcome(before, id, l, d, r, after),
        0 <= a < before.buffers().len(),
        0 <= b < before.buffers().len(),
        before.history_ids()[a] != id,
        before.history_ids()[b] != id,
        before.history_ids().len() == before.buffers().len(),
        distinct(before.history_ids()),
        before.buffers()[a] == before.buffers()[b],
    ensures
        after.buffers()[a] == before.buffers()[a] + d,
        after.buffers()[a] == after.buffers()[b],
{
    match index_of(before.history_ids(), id) {
        Some(i) => {
            let k = choose|k: int| 0 <= k < before.history_ids().len() && before.history_ids()[k] == id;
            assert(k == i);
            assert(a != i && b != i);
        },
        None => {},
    }
}


/// History fidelity: a history reader that has taken the first `k` items read from the
/// upstream gets item `k` when it polls (or waits, or sees the end) and has then taken
/// the first `k + 1`. Step by step, a reader that existed before anything was read sees
/// every item, in upstream order, with no gaps and no repeats.
pub proof fn lemma_history_in_order<T, S, W>(
    before: InputStreamCore<T, S, W>,
    id: usize,
    l: Seq<UpstreamPoll<T>>,
    d: Seq<T>,
    r: StreamPoll<T>,
    after: InputStreamCore<T, S, W>,
    i: int,
    k: int,
)
    requires
        before.wf(),
        InputStreamCore::poll_stream_outcome(before, id, l, d, r, after),
        0 <= i < before.history_ids().len(),
        before.history_ids()[i] == id,
        0 <= k <= before.produced().len(),
        before.buffers()[i] == before.produced().subrange(k, before.produced().len() as int),
    ensures
        r is Ready && r->Ready_0 is Some ==> r->Ready_0 == Some(after.produced()[k])
            && after.buffers()[i] == after.produced().subrange(k + 1, after.produced().len() as int),
        !(r is Ready && r->Ready_0 is Some) ==> after.buffers()[i] == after.produced().subrange(
            k,
            after.produced().len() as int,
        ),
{
    lemma_index_of(before.history_ids(), i);
    let p = before.produced();
    let q = after.produced();
    let b = before.buffers()[i];
    if b.len() > 0 {
        assert(q =~= p);
        assert(b.drop_first() =~= q.subrange(k + 1, q.len() as int));
    } else {
        assert(k == p.len());
        if d.len() > 0 {
            assert(q[k] == d[0]);
            assert(d.drop_first() =~= q.subrange(k + 1, q.len() as int));
        } else {
            assert(q =~= p);
            assert(after.buffers()[i] =~= q.subrange(k, q.len() as int));
        }
    }
}


/// State latest-wins, one poll at a time: a state reader gets a value only if one was
/// waiting for it or new items were just read, and that value is the latest item read;
/// a state reader with nothing waiting is given a value only when new items arrive. So
/// over a run it sees the last item, and never more values than items were read.
pub proof fn lemma_state_sees_latest<T, S, W>(
    before: InputStreamCore<T, S, W>,
    id: usize,
    l: Seq<UpstreamPoll<T>>,
    d: Seq<T>,
    r: StreamPoll<T>,
    after: InputStreamCore<T, S, W>,
    i: int,
    k: int,
)
    requires
        before.wf(),
        after.wf(),
        InputStreamCore::poll_state_outcome(before, id, l, d, r, after),
        0 <= i < before.state_ids().len(),
        before.state_ids()[i] == id,
        0 <= k < before.currents().len(),
    ensures
        r is Ready && r->Ready_0 is Some ==> (before.currents()[i] is Some || d.len() > 0)
            && r->Ready_0 == after.last_symbol(),
        d.len() > 0 ==> after.last_symbol() == Some(d.last()),
        before.currents()[k] is None && d.len() == 0 ==> after.currents()[k] is None,
{
    lemma_index_of(before.state_ids(), i);
}


/// Back-pressure: while a history reader does not poll, every item taken from the upstream
/// is added to its buffer, which never holds more than `max_buffer` items. So while one
/// reader stalls, at most `max_buffer` items are taken from the upstream.
pub proof fn lemma_stalled_reader_holds_back<T, S, W>(
    before: InputStreamCore<T, S, W>,
    id: usize,
    l: Seq<UpstreamPoll<T>>,
    d: Seq<T>,
    r: StreamPoll<T>,
    after: InputStreamCore<T, S, W>,
    j: int,
)
    requires
        before.wf(),
        after.wf(),
        InputStreamCore::poll_stream_outcome(before, id, l, d, r, after),
        0 <= j < before.history_ids().len(),
        before.history_ids()[j] != id,
    ensures
        after.buffers()[j] == before.buffers()[j] + d,
        after.produced().len() - before.produced().len() == after.buffers()[j].len()
            - before.buffers()[j].len(),
        after.buffers()[j].len() <= before.max_buffer(),
{
    match index_of(before.history_ids(), id) {
        Some(i) => {
            let k = choose|k: int| 0 <= k < before.history_ids().len() && before.history_ids()[k] == id;
            assert(k == i);
        },
        None => {},
    }
}


/// The value a poll handed over, if it handed one over
pub open spec fn got<T>(r: StreamPoll<T>) -> Seq<T> {
    match r {
        StreamPoll::Ready(Some(v)) => seq![v],
        _ => Seq::empty(),
    }
}

/// The values handed to reader `id` by a run of history polls of the readers `ids` that
/// returned `rs`, in order
pub open spec fn taken_by<T>(ids: Seq<usize>, rs: Seq<StreamPoll<T>>, id: usize) -> Seq<T>
    decreases rs.len(),
{
    if rs.len() == 0 || ids.len() != rs.len() {
        Seq::empty()
    } else {
        taken_by(ids.drop_last(), rs.drop_last(), id) + if ids.last() == id {
            got(rs.last())
        } else {
            Seq::empty()
        }
    }
}

/// `cs` is a run of a core in which step `k` is a poll of the history reader `ids[k]`,
/// where the upstream returned `ls[k]`, the items `ds[k]` were taken, and the poll
/// returned `rs[k]`
pub open spec fn history_run<T, S, W>(
    cs: Seq<InputStreamCore<T, S, W>>,
    ids: Seq<usize>,
    ls: Seq<Seq<UpstreamPoll<T>>>,
    ds: Seq<Seq<T>>,
    rs: Seq<StreamPoll<T>>,
) -> bool {
    &&& cs.len() == ids.len() + 1
    &&& ls.len() == ids.len() && ds.len() == ids.len() && rs.len() == ids.len()
    &&& forall|k: int|
        0 <= k < ids.len() ==> #[trigger] InputStreamCore::poll_stream_outcome(
            cs[k],
            ids[k],
            ls[k],
            ds[k],
            rs[k],
            cs[k + 1],
        )
}

/// One history poll: what reader `i` had waiting plus the items taken is what it was
/// handed plus what it has waiting afterwards
proof fn lemma_poll_conserves<T, S, W>(
    before: InputStreamCore<T, S, W>,
    pid: usize,
    l: Seq<UpstreamPoll<T>>,
    d: Seq<T>,
    r: StreamPoll<T>,
    after: InputStreamCore<T, S, W>,
    i: int,
)
    requires
        before.wf(),
        InputStreamCore::poll_stream_outcome(before, pid, l, d, r, after),
        0 <= i < before.history_ids().len(),
    ensures
        before.buffers()[i] + d == (if before.history_ids()[i] == pid {
            got(r)
        } else {
            Seq::empty()
        }) + after.buffers()[i],
{
    let id = before.history_ids()[i];
    if id == pid {
        lemma_index_of(before.history_ids(), i);
        let b = before.buffers()[i];
        if b.len() > 0 {
            assert(b + d =~= seq![b[0]] + b.drop_first());
        } else if ends_failed(l) {
            assert(b + d =~= Seq::<T>::empty() + d);
        } else if d.len() > 0 {
            assert(b + d =~= seq![d[0]] + d.drop_first());
        } else {
            assert(b + d =~= Seq::<T>::empty() + after.buffers()[i]);
        }
    } else {
        match index_of(before.history_ids(), pid) {
            Some(j) => {
                let k = choose|k: int| 0 <= k < before.history_ids().len() && before.history_ids()[k] == pid;
                assert(k == j);
            },
            None => {},
        }
        assert(before.buffers()[i] + d =~= Seq::<T>::empty() + after.buffers()[i]);
    }
}

/// History fidelity over a run: for any run of history polls, what a reader had waiting
/// at the start plus every item taken from the upstream during the run is exactly what
/// it was handed during the run, in order, followed by what it still has waiting. So a
/// reader that starts with nothing waiting is handed every item the upstream gave, in
/// upstream order, with no gaps and no repeats.
pub proof fn lemma_history_run<T, S, W>(
    cs: Seq<InputStreamCore<T, S, W>>,
    ids: Seq<usize>,
    ls: Seq<Seq<UpstreamPoll<T>>>,
    ds: Seq<Seq<T>>,
    rs: Seq<StreamPoll<T>>,
    i: int,
    m: int,
)
    requires
        history_run(cs, ids, ls, ds, rs),
        forall|k: int| 0 <= k < cs.len() ==> #[trigger] cs[k].wf(),
        0 <= i < cs[0].history_ids().len(),
        0 <= m <= ids.len(),
    ensures
        cs[m].history_ids() == cs[0].history_ids(),
        cs[m].max_buffer() == cs[0].max_buffer(),
        cs[m].produced().len() >= cs[0].produced().len(),
        cs[0].buffers()[i] + cs[m].produced().subrange(
            cs[0].produced().len() as int,
            cs[m].produced().len() as int,
        ) == taken_by(ids.subrange(0, m), rs.subrange(0, m), cs[0].history_ids()[i])
            + cs[m].buffers()[i],
    decreases m,
{
    let id = cs[0].history_ids()[i];
    let p0 = cs[0].produced();
    if m == 0 {
        assert(cs[0].produced().subrange(p0.len() as int, p0.len() as int) =~= Seq::<T>::empty());
        assert(ids.subrange(0, 0).len() == 0);
        assert(cs[0].buffers()[i] + Seq::<T>::empty() =~= Seq::<T>::empty() + cs[0].buffers()[i]);
    } else {
        lemma_history_run(cs, ids, ls, ds, rs, i, m - 1);
        let k = m - 1;
        assert(InputStreamCore::poll_stream_outcome(cs[k], ids[k], ls[k], ds[k], rs[k], cs[k + 1]));
        assert(k + 1 == m);
        assert(cs[k].wf());
        lemma_poll_conserves(cs[k], ids[k], ls[k], ds[k], rs[k], cs[m], i);
        let pk = cs[k].produced();
        let pm = cs[m].produced();
        assert(pm == pk + ds[k]);
        assert(pm.subrange(p0.len() as int, pm.len() as int) =~= pk.subrange(p0.len() as int, pk.len() as int) + ds[k]);
        let is = ids.subrange(0, m);
        let rsm = rs.subrange(0, m);
        assert(is.drop_last() =~= ids.subrange(0, k));
        assert(rsm.drop_last() =~= rs.subrange(0, k));
        assert(is.last() == ids[k]);
        assert(rsm.last() == rs[k]);
        let g = if ids[k] == id { got(rs[k]) } else { Seq::<T>::empty() };
        assert(taken_by(is, rsm, id) == taken_by(ids.subrange(0, k), rs.subrange(0, k), id) + g);
        let before_b = cs[0].buffers()[i];
        let tk = taken_by(ids.subrange(0, k), rs.subrange(0, k), id);
        assert(before_b + pk.subrange(p0.len() as int, pk.len() as int) == tk + cs[k].buffers()[i]);
        assert(cs[k].buffers()[i] + ds[k] == g + cs[m].buffers()[i]);
        let a = pk.subrange(p0.len() as int, pk.len() as int);
        let bk = cs[k].buffers()[i];
        let bm = cs[m].buffers()[i];
        assert(before_b + (a + ds[k]) =~= (before_b + a) + ds[k]);
        assert((tk + bk) + ds[k] =~= tk + (bk + ds[k]));
        assert(tk + (g + bm) =~= tk + g + bm);
    }
}


/// A reader that none of the polls `ids` is for is handed nothing
proof fn lemma_taken_by_other<T>(ids: Seq<usize>, rs: Seq<StreamPoll<T>>, id: usize)
    requires
        forall|k: int| 0 <= k < ids.len() ==> ids[k] != id,
    ensures
        taken_by(ids, rs, id) == Seq::<T>::empty(),
    decreases rs.len(),
{
    if rs.len() > 0 && ids.len() == rs.len() {
        lemma_taken_by_other(ids.drop_last(), rs.drop_last(), id);
        assert(ids.last() == ids[ids.len() - 1]);
        assert(Seq::<T>::empty() + Seq::<T>::empty() =~= Seq::<T>::empty());
    }
}

/// Back-pressure over a run: while one history reader is never polled, every item taken
/// from the upstream waits in its buffer, so no more than `max_buffer` items (less what it
/// already had waiting) are taken in the whole run.
pub proof fn lemma_stalled_reader_run<T, S, W>(
    cs: Seq<InputStreamCore<T, S, W>>,
    ids: Seq<usize>,
    ls: Seq<Seq<UpstreamPoll<T>>>,
    ds: Seq<Seq<T>>,
    rs: Seq<StreamPoll<T>>,
    i: int,
)
    requires
        history_run(cs, ids, ls, ds, rs),
        forall|k: int| 0 <= k < cs.len() ==> #[trigger] cs[k].wf(),
        0 <= i < cs[0].history_ids().len(),
        forall|k: int| 0 <= k < ids.len() ==> ids[k] != cs[0].history_ids()[i],
    ensures
        cs.last().produced().len() - cs[0].produced().len() <= cs[0].max_buffer()
            - cs[0].buffers()[i].len(),
{
    let m = ids.len() as int;
    lemma_history_run(cs, ids, ls, ds, rs, i, m);
    lemma_taken_by_other(ids.subrange(0, m), rs.subrange(0, m), cs[0].history_ids()[i]);
    assert(cs[m].wf());
    assert(cs.last() == cs[m]);
    let grown = cs[m].produced().subrange(cs[0].produced().len() as int, cs[m].produced().len() as int);
    assert(Seq::<T>::empty() + cs[m].buffers()[i] =~= cs[m].buffers()[i]);
    assert((cs[0].buffers()[i] + grown).len() == cs[0].buffers()[i].len() + grown.len());
}

} // verus!
