//! The registry: one record for each task name the configuration has ever
//! named, and the global bus. Records are added and never taken out or
//! replaced, so a run under way is not disturbed when the configuration is
//! read again.

use vstd::prelude::*;
use crate::cfg::{Config, TaskConfig};
use crate::dict::{distinct, has_key, Dict};
use crate::event::{Event, EventBus, EventView};
use crate::task::{TaskState, TaskView};

verus! {

/// The keys of `entries`, in order.
pub open spec fn names<V>(entries: Seq<(Seq<char>, V)>) -> Seq<Seq<char>> {
    Seq::new(entries.len(), |i: int| entries[i].0)
}

/// The names among `wanted` that are not among `known`, each once, in the
/// order in which they first occur.
pub open spec fn added(known: Seq<Seq<char>>, wanted: Seq<Seq<char>>) -> Seq<Seq<char>>
    decreases wanted.len(),
{
    if wanted.len() == 0 {
        Seq::empty()
    } else {
        let before = added(known, wanted.drop_last());
        let name = wanted.last();
        if known.contains(name) || before.contains(name) {
            before
        } else {
            before.push(name)
        }
    }
}

/// `after` is the registry `before` with a fresh record for each name of
/// `wanted` that it did not have: what was there is there still, as it was,
/// and the new records follow.
pub open spec fn extends(
    before: Seq<(Seq<char>, TaskState)>,
    wanted: Seq<Seq<char>>,
    after: Seq<(Seq<char>, TaskState)>,
) -> bool {
    &&& before.len() <= after.len()
    &&& after.subrange(0, before.len() as int) == before
    &&& names(after) == names(before) + added(names(before), wanted)
    &&& forall|i: int|
        before.len() <= i < after.len() ==> (#[trigger] after[i]).1@ == TaskView::fresh(
            after[i].0,
        )
    &&& distinct(before) ==> distinct(after)
}

/// Gives every task of `wanted` that has no record in `tasks` a fresh one.
pub fn register(tasks: &mut Dict<TaskState>, wanted: &Dict<TaskConfig>)
    ensures
        extends(old(tasks)@, names(wanted@), final(tasks)@),
{
    let ghost before = tasks@;
    let ghost all = names(wanted@);
    let n = wanted.len();
    let mut i: usize = 0;
    assert(all.subrange(0, 0) =~= Seq::empty());
    assert(tasks@.subrange(0, before.len() as int) =~= before);
    assert(names(tasks@) =~= names(before) + added(names(before), all.subrange(0, 0)));
    while i < n
        invariant
            i <= n,
            n == wanted@.len(),
            all == names(wanted@),
            extends(before, all.subrange(0, i as int), tasks@),
        decreases n - i,
    {
        let ghost current = tasks@;
        let ghost seen = all.subrange(0, i as int);
        let name = wanted.key_at(i);
        proof {
            assert(all.subrange(0, i + 1).drop_last() =~= seen);
            assert(all.subrange(0, i + 1).last() == name@);
            lemma_has_key_names(current, name@);
            lemma_contains_concat(names(before), added(names(before), seen), name@);
        }
        if !tasks.contains_key(name.as_str()) {
            let record = TaskState::new(name.clone());
            tasks.insert(name.clone(), record);
            proof {
                let next = tasks@;
                assert(next.subrange(0, before.len() as int) =~= current.subrange(
                    0,
                    before.len() as int,
                ));
                assert(names(next) =~= names(current).push(name@));
                assert(names(next) =~= names(before) + added(
                    names(before),
                    all.subrange(0, i + 1),
                ));
                assert forall|k: int| before.len() <= k < next.len() implies (
                #[trigger] next[k]).1@ == TaskView::fresh(next[k].0) by {
                    if k < current.len() {
                        assert(next[k] == current[k]);
                    }
                }
            }
        }
        i += 1;
    }
    assert(all.subrange(0, n as int) =~= all);
}

/// A key is in a dictionary where it is among the dictionary's names.
pub proof fn lemma_has_key_names<V>(entries: Seq<(Seq<char>, V)>, key: Seq<char>)
    ensures
        has_key(entries, key) == names(entries).contains(key),
{
    if has_key(entries, key) {
        let w = choose|i: int| 0 <= i < entries.len() && entries[i].0 == key;
        assert(names(entries)[w] == key);
    }
    if names(entries).contains(key) {
        let w = choose|i: int| 0 <= i < names(entries).len() && names(entries)[i] == key;
        assert(entries[w].0 == key);
    }
}

proof fn lemma_contains_concat(a: Seq<Seq<char>>, b: Seq<Seq<char>>, x: Seq<char>)
    ensures
        (a + b).contains(x) == (a.contains(x) || b.contains(x)),
{
    if a.contains(x) {
        let w = choose|i: int| 0 <= i < a.len() && a[i] == x;
        assert((a + b)[w] == x);
    }
    if b.contains(x) {
        let w = choose|i: int| 0 <= i < b.len() && b[i] == x;
        assert((a + b)[a.len() + w] == x);
    }
    if (a + b).contains(x) {
        let w = choose|i: int| 0 <= i < (a + b).len() && (a + b)[i] == x;
        if w < a.len() {
            assert(a[w] == x);
        } else {
            assert(b[w - a.len()] == x);
        }
    }
}

/// What the application holds: where its configuration is, the
/// configuration, the registry of task records, and the global bus.
pub struct AppState {
    /// Where the configuration is read from.
    pub config_path: String,
    /// The configuration last read.
    pub config: Config,
    /// The record of each task, by name.
    pub tasks: Dict<TaskState>,
    /// The global bus.
    pub events: EventBus,
}

impl AppState {
    /// The state at startup: a fresh record for each task the configuration
    /// names, and a bus on which nothing has been said.
    pub fn new(config_path: String, config: Config) -> (state: Self)
        ensures
            state.config_path == config_path,
            state.config == config,
            extends(Seq::empty(), names(config.tasks@), state.tasks@),
            distinct(state.tasks@),
            state.events.posted() == Seq::<EventView>::empty(),
    {
        let mut tasks: Dict<TaskState> = Dict::new();
        register(&mut tasks, &config.tasks);
        AppState { config_path, config, tasks, events: EventBus::new() }
    }
}

/// Takes a configuration that was read again: tasks that are new to the
/// registry get a fresh record, the records there are stay as they are, and
/// the bus is told.
pub fn reload_config(app_state: &mut AppState, new_config: Config)
    ensures
        final(app_state).config_path == old(app_state).config_path,
        final(app_state).config == new_config,
        extends(old(app_state).tasks@, names(new_config.tasks@), final(app_state).tasks@),
        final(app_state).events.posted() == old(app_state).events.posted().push(
            EventView::UpdateConfig,
        ),
{
    register(&mut app_state.tasks, &new_config.tasks);
    app_state.config = new_config;
    app_state.events.post(Event::UpdateConfig);
}

} // verus!
