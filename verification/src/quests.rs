//! The quest ledger: named quests, each started by an event and completed
//! when its predicate first holds of the world.

use bevy::utils::HashMap;
use vstd::prelude::*;
use vstd::string::*;

use crate::error::GameplayError;

verus! {

/// One quest: whether it was started, whether it is complete, and the
/// predicate over the world that completes it.
pub struct Quest<P> {
    pub start: bool,
    pub complete: bool,
    pub predicate: P,
}

/// What happens to quests: a request to start one, and the news that one is
/// complete. Each carries the quest's name.
#[derive(Debug, PartialEq, Eq)]
pub enum QuestEvents {
    StartQuest(String),
    CompleteQuest(String),
}

impl QuestEvents {
    /// The name of the quest that the event is about.
    pub open spec fn name(self) -> Seq<char> {
        match self {
            QuestEvents::StartQuest(name) => name@,
            QuestEvents::CompleteQuest(name) => name@,
        }
    }
}

/// `bevy::utils::HashMap<&'static str, usize>`, which is hashbrown's
/// `HashMap` with bevy's default hasher: for every registered quest name, the
/// place of the quest in the ledger. None of it is verified: what the map
/// holds is known only through `index_entries`, and what its methods do only
/// through the contracts of the three functions below.
#[verifier::external_body]
pub struct NameIndex {
    slots: HashMap<&'static str, usize>,
}

/// The entries of a `NameIndex`: each key, as its characters, with the value
/// stored under it. Two keys are the same key exactly if they are the same
/// characters.
pub uninterp spec fn index_entries(index: NameIndex) -> Map<Seq<char>, usize>;

/// `HashMap::default`. The contract claims that the new map has no entries.
#[verifier::external_body]
fn index_new() -> (index: NameIndex)
    ensures
        index_entries(index) =~= Map::empty(),
{
    NameIndex { slots: HashMap::default() }
}

/// `HashMap::insert`. The contract claims that afterwards `name` is bound to
/// `slot`, whether or not it was bound before, and that every other key is
/// bound as it was.
#[verifier::external_body]
fn index_insert(index: &mut NameIndex, name: &'static str, slot: usize)
    ensures
        index_entries(*final(index)) == index_entries(*old(index)).insert(name@, slot),
{
    index.slots.insert(name, slot);
}

/// `HashMap::get`, with the reference it returns copied out. The contract
/// claims that the result is the value bound to `name`, and `None` exactly
/// where the map has no such key.
#[verifier::external_body]
fn index_get(index: &NameIndex, name: &str) -> (slot: Option<usize>)
    ensures
        slot == if index_entries(*index).contains_key(name@) {
            Some(index_entries(*index)[name@])
        } else {
            None
        },
{
    index.slots.get(name).copied()
}

impl<P> Quest<P> {
    /// A quest that is neither started nor complete.
    pub fn new(predicate: P) -> (quest: Self)
        ensures
            quest == (Quest { start: false, complete: false, predicate }),
    {
        Self { start: false, complete: false, predicate }
    }

    /// The flags are one of the three pairs that a quest goes through: not
    /// started, started, started and complete.
    pub open spec fn flags_valid(self) -> bool {
        self.complete ==> self.start
    }

    /// One step in the life of a quest: nothing changes, or a quest that was
    /// not started is started, or a started quest becomes complete. The
    /// predicate stays the same.
    pub open spec fn steps_to(self, next: Self) -> bool {
        &&& next.predicate == self.predicate
        &&& {
            ||| next.start == self.start && next.complete == self.complete
            ||| !self.start && !self.complete && next.start && !next.complete
            ||| self.start && !self.complete && next.start && next.complete
        }
    }

    /// The quest `later` is this quest at a later time: the predicate is the
    /// same and no flag was taken back.
    pub open spec fn progresses_to(self, later: Self) -> bool {
        &&& later.predicate == self.predicate
        &&& self.start ==> later.start
        &&& self.complete ==> later.complete
    }

    /// This quest with the start flag set.
    pub open spec fn started(self) -> Self {
        Quest { start: true, complete: self.complete, predicate: self.predicate }
    }
}

/// The ledger after a request to start `name`: the quest of that name is
/// started, and a ledger without it is unchanged.
pub open spec fn start_in<P>(ledger: Map<Seq<char>, Quest<P>>, name: Seq<char>) -> Map<
    Seq<char>,
    Quest<P>,
> {
    if ledger.contains_key(name) {
        ledger.insert(name, ledger[name].started())
    } else {
        ledger
    }
}

/// The quest ledger. It owns every quest; a quest is registered once, under
/// a name of its own, and is never removed.
pub struct Quests<P> {
    index: NameIndex,
    names: Vec<&'static str>,
    quests: Vec<Quest<P>>,
}

impl<P> View for Quests<P> {
    type V = Map<Seq<char>, Quest<P>>;

    /// The quests by name.
    closed spec fn view(&self) -> Map<Seq<char>, Quest<P>> {
        Map::new(
            |name: Seq<char>| index_entries(self.index).contains_key(name),
            |name: Seq<char>| self.quests[index_entries(self.index)[name] as int],
        )
    }
}

impl<P> Quests<P> {
    /// The ledger is well formed: the index and the list of names describe
    /// the same one-to-one naming of the quests, and no quest is complete
    /// without being started.
    pub closed spec fn wf(&self) -> bool {
        &&& self.names.len() == self.quests.len()
        &&& forall|i: int|
            0 <= i < self.names.len() ==> {
                &&& index_entries(self.index).contains_key(#[trigger] self.names[i]@)
                &&& index_entries(self.index)[self.names[i]@] == i
            }
        &&& forall|name: Seq<char>| #[trigger]
            index_entries(self.index).contains_key(name) ==> {
                &&& index_entries(self.index)[name] < self.names.len()
                &&& self.names[index_entries(self.index)[name] as int]@ == name
            }
        &&& forall|i: int| 0 <= i < self.quests.len() ==> (#[trigger] self.quests[i]).flags_valid()
    }

    /// In a well-formed ledger no quest is complete without being started.
    pub proof fn lemma_flags_valid(&self)
        requires
            self.wf(),
        ensures
            ledger_flags_valid(self@),
    {
    }

    /// A ledger without quests.
    pub fn new() -> (ledger: Self)
        ensures
            ledger.wf(),
            ledger@ =~= Map::empty(),
    {
        Quests { index: index_new(), names: Vec::new(), quests: Vec::new() }
    }

    /// Whether a quest is registered under `name`.
    pub fn contains(&self, name: &str) -> (found: bool)
        requires
            self.wf(),
        ensures
            found == self@.contains_key(name@),
    {
        index_get(&self.index, name).is_some()
    }

    /// The quest registered under `name`.
    pub fn get(&self, name: &str) -> (quest: Option<&Quest<P>>)
        requires
            self.wf(),
        ensures
            match quest {
                Some(q) => self@.contains_key(name@) && *q == self@[name@],
                None => !self@.contains_key(name@),
            },
    {
        match index_get(&self.index, name) {
            Some(slot) => Some(&self.quests[slot]),
            None => None,
        }
    }

    /// Registers a quest under `name`, neither started nor complete. A name
    /// can be registered once: a second registration is refused and leaves
    /// the ledger as it was.
    pub fn register(&mut self, name: &'static str, predicate: P) -> (registered: Result<
        (),
        GameplayError,
    >)
        requires
            old(self).wf(),
        ensures
            final(self).wf(),
            old(self)@.contains_key(name@) ==> registered == Err::<(), GameplayError>(
                GameplayError::DuplicateQuest,
            ) && final(self)@ == old(self)@,
            !old(self)@.contains_key(name@) ==> registered == Ok::<(), GameplayError>(())
                && final(self)@ == old(self)@.insert(
                name@,
                Quest { start: false, complete: false, predicate },
            ),
    {
        if index_get(&self.index, name).is_some() {
            return Err(GameplayError::DuplicateQuest);
        }
        let slot = self.quests.len();
        self.names.push(name);
        self.quests.push(Quest::new(predicate));
        index_insert(&mut self.index, name, slot);
        assert(self@ =~= old(self)@.insert(
            name@,
            Quest { start: false, complete: false, predicate },
        ));
        Ok(())
    }

    /// Starts the quest `name`. Starting a quest that is already started, or
    /// already complete, changes nothing; a name that was never registered
    /// is reported and changes nothing either.
    pub fn start(&mut self, name: &str) -> (started: Result<(), GameplayError>)
        requires
            old(self).wf(),
        ensures
            final(self).wf(),
            final(self)@ == start_in(old(self)@, name@),
            started == if old(self)@.contains_key(name@) {
                Ok::<(), GameplayError>(())
            } else {
                Err::<(), GameplayError>(GameplayError::QuestNotFound)
            },
    {
        match index_get(&self.index, name) {
            Some(slot) => {
                self.quests[slot].start = true;
                assert(self@ =~= start_in(old(self)@, name@));
                Ok(())
            },
            None => Err(GameplayError::QuestNotFound),
        }
    }
}

impl<P> Default for Quests<P> {
    /// A ledger without quests.
    fn default() -> (ledger: Self)
        ensures
            ledger.wf(),
            ledger@ =~= Map::empty(),
    {
        Quests::new()
    }
}

/// One quest before and after a tick over `world`. A quest that was started
/// and not complete had its predicate evaluated, and is complete exactly if
/// the predicate held; any other quest is unchanged.
pub open spec fn quest_ticked<W, P: Fn(&W) -> bool>(
    before: Quest<P>,
    after: Quest<P>,
    world: &W,
) -> bool {
    &&& after.start == before.start
    &&& after.predicate == before.predicate
    &&& if before.start && !before.complete {
        call_ensures(before.predicate, (world,), after.complete)
    } else {
        after.complete == before.complete
    }
}

/// The ledger before and after a tick over `world`: the same names, and each
/// quest ticked.
pub open spec fn ticked<W, P: Fn(&W) -> bool>(
    before: Map<Seq<char>, Quest<P>>,
    after: Map<Seq<char>, Quest<P>>,
    world: &W,
) -> bool {
    &&& after.dom() == before.dom()
    &&& forall|name: Seq<char>| #[trigger]
        before.contains_key(name) ==> quest_ticked(before[name], after[name], world)
}

/// The quest `name` was not complete before and is complete after.
pub open spec fn newly_complete<P>(
    before: Map<Seq<char>, Quest<P>>,
    after: Map<Seq<char>, Quest<P>>,
    name: Seq<char>,
) -> bool {
    before.contains_key(name) && after.contains_key(name) && !before[name].complete
        && after[name].complete
}

/// The events tell of the quests that became complete: every event is a
/// completion of such a quest, and every such quest has one event and no more.
pub open spec fn announces_completions<P>(
    events: Seq<QuestEvents>,
    before: Map<Seq<char>, Quest<P>>,
    after: Map<Seq<char>, Quest<P>>,
) -> bool {
    &&& forall|k: int|
        0 <= k < events.len() ==> (#[trigger] events[k]) is CompleteQuest && newly_complete(
            before,
            after,
            events[k].name(),
        )
    &&& forall|name: Seq<char>| #[trigger]
        newly_complete(before, after, name) ==> exists|k: int|
            0 <= k < events.len() && (#[trigger] events[k]).name() == name
    &&& forall|k: int, l: int|
        0 <= k < l < events.len() ==> (#[trigger] events[k]).name() != (#[trigger] events[l]).name()
}

/// Every quest that a tick would evaluate has a predicate that accepts
/// `world`.
pub open spec fn predicates_accept<W, P: Fn(&W) -> bool>(
    ledger: Map<Seq<char>, Quest<P>>,
    world: &W,
) -> bool {
    forall|name: Seq<char>| #[trigger]
        ledger.contains_key(name) && ledger[name].start && !ledger[name].complete
            ==> call_requires(ledger[name].predicate, (world,))
}

/// One tick of the ledger. The predicate of every quest that is started and
/// not complete is evaluated over `world`, once; where it holds the quest
/// becomes complete and one completion event is returned for it. Quests that
/// are not started, or already complete, are not evaluated. All predicates
/// see the same `world`, which no completion of this tick has touched.
pub fn update_quest_status<W, P: Fn(&W) -> bool>(quests: &mut Quests<P>, world: &W) -> (events:
    Vec<QuestEvents>)
    requires
        old(quests).wf(),
        predicates_accept(old(quests)@, world),
    ensures
        final(quests).wf(),
        ticked(old(quests)@, final(quests)@, world),
        announces_completions(events@, old(quests)@, final(quests)@),
{
    let ghost before = *quests;
    let mut events: Vec<QuestEvents> = Vec::new();
    let ghost mut slots: Seq<int> = Seq::empty();
    let mut i: usize = 0;
    assert forall|j: int|
        0 <= j < quests.quests.len() && (#[trigger] quests.quests[j]).start
            && !quests.quests[j].complete implies call_requires(
        quests.quests[j].predicate,
        (world,),
    ) by {
        assert(quests@.contains_key(quests.names[j]@));
    }
    while i < quests.quests.len()
        invariant
            before.wf(),
            quests.index == before.index,
            quests.names == before.names,
            quests.quests.len() == before.quests.len(),
            i <= quests.quests.len(),
            forall|j: int|
                0 <= j < i ==> quest_ticked(before.quests[j], #[trigger] quests.quests[j], world),
            forall|j: int|
                i <= j < quests.quests.len() ==> (#[trigger] quests.quests[j]) == before.quests[j],
            forall|j: int|
                0 <= j < before.quests.len() && (#[trigger] before.quests[j]).start
                    && !before.quests[j].complete ==> call_requires(
                    before.quests[j].predicate,
                    (world,),
                ),
            slots.len() == events.len(),
            forall|k: int|
                0 <= k < slots.len() ==> {
                    &&& 0 <= (#[trigger] slots[k]) < i
                    &&& events[k] is CompleteQuest
                    &&& events[k].name() == before.names[slots[k]]@
                    &&& !before.quests[slots[k]].complete
                    &&& quests.quests[slots[k]].complete
                },
            forall|k: int, l: int|
                0 <= k < l < slots.len() ==> (#[trigger] slots[k]) < (#[trigger] slots[l]),
            forall|j: int|
                0 <= j < i && !(#[trigger] before.quests[j]).complete && quests.quests[j].complete
                    ==> exists|k: int| 0 <= k < slots.len() && #[trigger] slots[k] == j,
        decreases quests.quests.len() - i,
    {
        if quests.quests[i].start && !quests.quests[i].complete {
            let holds = (quests.quests[i].predicate)(world);
            if holds {
                quests.quests[i].complete = true;
                events.push(QuestEvents::CompleteQuest(String::from_str(quests.names[i])));
                proof {
                    let ghost earlier = slots;
                    slots = slots.push(i as int);
                    assert forall|j: int|
                        0 <= j < i + 1 && !(#[trigger] before.quests[j]).complete
                            && quests.quests[j].complete implies exists|k: int|
                        0 <= k < slots.len() && #[trigger] slots[k] == j by {
                        if j < i {
                            let k = choose|k: int| 0 <= k < earlier.len() && #[trigger] earlier[k] == j;
                            assert(slots[k] == j);
                        } else {
                            assert(slots[earlier.len() as int] == j);
                        }
                    }
                }
            }
        }
        i += 1;
    }
    proof {
        let after = *quests;
        assert(after@.dom() =~= before@.dom());
        assert forall|name: Seq<char>| #[trigger] before@.contains_key(name) implies quest_ticked(
            before@[name],
            after@[name],
            world,
        ) by {
            let j = index_entries(before.index)[name] as int;
            assert(quest_ticked(before.quests[j], after.quests[j], world));
        }
        assert forall|name: Seq<char>| #[trigger]
            newly_complete(before@, after@, name) implies exists|k: int|
            0 <= k < events@.len() && (#[trigger] events@[k]).name() == name by {
            let j = index_entries(before.index)[name] as int;
            assert(!before.quests[j].complete && after.quests[j].complete);
            let k = choose|k: int| 0 <= k < slots.len() && #[trigger] slots[k] == j;
            assert(events@[k].name() == name);
        }
        assert forall|k: int| 0 <= k < events@.len() implies (#[trigger] events@[k]) is CompleteQuest
            && newly_complete(before@, after@, events@[k].name()) by {
            let j = slots[k];
            assert(before@.contains_key(before.names[j]@));
        }
        assert forall|k: int, l: int| 0 <= k < l < events@.len() implies (#[trigger] events@[k]).name()
            != (#[trigger] events@[l]).name() by {
            assert(slots[k] < slots[l]);
            assert(before@.contains_key(before.names[slots[k]]@));
            assert(before@.contains_key(before.names[slots[l]]@));
        }
    }
    events
}

/// The ledger after a run of events, taken in order: every start request is
/// applied, and news of completions changes nothing.
pub open spec fn start_all<P>(ledger: Map<Seq<char>, Quest<P>>, events: Seq<QuestEvents>) -> Map<
    Seq<char>,
    Quest<P>,
>
    decreases events.len(),
{
    if events.len() == 0 {
        ledger
    } else {
        let earlier = start_all(ledger, events.drop_last());
        match events.last() {
            QuestEvents::StartQuest(name) => start_in(earlier, name@),
            QuestEvents::CompleteQuest(_) => earlier,
        }
    }
}

/// How many of the events ask to start a quest that the ledger does not
/// have.
pub open spec fn unknown_starts<P>(ledger: Map<Seq<char>, Quest<P>>, events: Seq<QuestEvents>) -> nat
    decreases events.len(),
{
    if events.len() == 0 {
        0
    } else {
        let earlier = unknown_starts(ledger, events.drop_last());
        if events.last() is StartQuest && !ledger.contains_key(events.last().name()) {
            earlier + 1
        } else {
            earlier
        }
    }
}

/// Starting quests neither adds a name to the ledger nor removes one.
pub proof fn lemma_start_all_keeps_names<P>(
    ledger: Map<Seq<char>, Quest<P>>,
    events: Seq<QuestEvents>,
)
    ensures
        start_all(ledger, events).dom() == ledger.dom(),
    decreases events.len(),
{
    if events.len() > 0 {
        lemma_start_all_keeps_names(ledger, events.drop_last());
        assert(start_all(ledger, events).dom() =~= ledger.dom());
    }
}

/// Applies the start requests among `events`, in order, and returns how many
/// of them named a quest that was never registered; those change nothing.
/// Events that tell of a completion are passed over.
pub fn start_quests<P>(quests: &mut Quests<P>, events: &Vec<QuestEvents>) -> (not_found: usize)
    requires
        old(quests).wf(),
    ensures
        final(quests).wf(),
        final(quests)@ == start_all(old(quests)@, events@),
        not_found == unknown_starts(old(quests)@, events@),
{
    let mut not_found: usize = 0;
    let mut i: usize = 0;
    while i < events.len()
        invariant
            i <= events.len(),
            quests.wf(),
            quests@ == start_all(old(quests)@, events@.take(i as int)),
            not_found == unknown_starts(old(quests)@, events@.take(i as int)),
            not_found <= i,
        decreases events.len() - i,
    {
        proof {
            assert(events@.take(i + 1).drop_last() =~= events@.take(i as int));
            lemma_start_all_keeps_names(old(quests)@, events@.take(i as int));
        }
        match &events[i] {
            QuestEvents::StartQuest(name) => {
                if quests.start(name.as_str()).is_err() {
                    not_found += 1;
                }
            },
            QuestEvents::CompleteQuest(_) => {},
        }
        i += 1;
    }
    assert(events@.take(events.len() as int) =~= events@);
    not_found
}

/// Every quest of `before` is still in `after`, one step further at most.
pub open spec fn ledger_steps<P>(
    before: Map<Seq<char>, Quest<P>>,
    after: Map<Seq<char>, Quest<P>>,
) -> bool {
    forall|name: Seq<char>| #[trigger]
        before.contains_key(name) ==> after.contains_key(name) && before[name].steps_to(
            after[name],
        )
}

/// Every quest of `before` is still in `after`, with the same predicate and
/// with no flag taken back.
pub open spec fn ledger_progresses<P>(
    before: Map<Seq<char>, Quest<P>>,
    after: Map<Seq<char>, Quest<P>>,
) -> bool {
    forall|name: Seq<char>| #[trigger]
        before.contains_key(name) ==> after.contains_key(name) && before[name].progresses_to(
            after[name],
        )
}

/// Every quest of the ledger has valid flags.
pub open spec fn ledger_flags_valid<P>(ledger: Map<Seq<char>, Quest<P>>) -> bool {
    forall|name: Seq<char>| #[trigger] ledger.contains_key(name) ==> ledger[name].flags_valid()
}

/// Registering a quest under a new name leaves every other quest as it was,
/// and the new quest has valid flags.
pub proof fn lemma_register_steps<P>(
    ledger: Map<Seq<char>, Quest<P>>,
    name: Seq<char>,
    predicate: P,
)
    requires
        !ledger.contains_key(name),
    ensures
        ledger_steps(
            ledger,
            ledger.insert(name, Quest { start: false, complete: false, predicate }),
        ),
        ledger_flags_valid(ledger) ==> ledger_flags_valid(
            ledger.insert(name, Quest { start: false, complete: false, predicate }),
        ),
{
}

/// A start request takes every quest one step at most: the quest it names
/// goes from not started to started, or stays as it is, and every other
/// quest stays as it is.
pub proof fn lemma_start_steps<P>(ledger: Map<Seq<char>, Quest<P>>, name: Seq<char>)
    requires
        ledger_flags_valid(ledger),
    ensures
        ledger_steps(ledger, start_in(ledger, name)),
        ledger_flags_valid(start_in(ledger, name)),
{
    assert forall|other: Seq<char>| #[trigger] ledger.contains_key(other) implies start_in(
        ledger,
        name,
    ).contains_key(other) && ledger[other].steps_to(start_in(ledger, name)[other]) by {
        assert(ledger[other].flags_valid());
    }
    assert forall|other: Seq<char>| #[trigger]
        start_in(ledger, name).contains_key(other) implies start_in(
        ledger,
        name,
    )[other].flags_valid() by {
        assert(ledger.contains_key(other));
        assert(ledger[other].flags_valid());
    }
}

/// A tick takes every quest one step at most: a started quest becomes
/// complete, or the quest stays as it is.
pub proof fn lemma_tick_steps<W, P: Fn(&W) -> bool>(
    before: Map<Seq<char>, Quest<P>>,
    after: Map<Seq<char>, Quest<P>>,
    world: &W,
)
    requires
        ticked(before, after, world),
    ensures
        ledger_steps(before, after),
        ledger_flags_valid(before) ==> ledger_flags_valid(after),
{
    assert forall|name: Seq<char>| #[trigger] before.contains_key(name) implies after.contains_key(
        name,
    ) && before[name].steps_to(after[name]) by {
        assert(after.dom().contains(name));
        assert(quest_ticked(before[name], after[name], world));
    }
    if ledger_flags_valid(before) {
        assert forall|name: Seq<char>| #[trigger]
            after.contains_key(name) implies after[name].flags_valid() by {
            assert(after.dom().contains(name));
            assert(before.contains_key(name));
            assert(quest_ticked(before[name], after[name], world));
            assert(before[name].flags_valid());
        }
    }
}

/// A step takes no flag back, and keeps valid flags valid.
pub proof fn lemma_step_progresses<P>(quest: Quest<P>, next: Quest<P>)
    requires
        quest.steps_to(next),
    ensures
        quest.progresses_to(next),
        quest.flags_valid() ==> next.flags_valid(),
{
}

/// Progress composes: what holds from one state to the next holds over any
/// number of steps.
pub proof fn lemma_progress_is_transitive<P>(
    first: Map<Seq<char>, Quest<P>>,
    second: Map<Seq<char>, Quest<P>>,
    third: Map<Seq<char>, Quest<P>>,
)
    requires
        ledger_progresses(first, second),
        ledger_progresses(second, third),
    ensures
        ledger_progresses(first, third),
{
    assert forall|name: Seq<char>| #[trigger] first.contains_key(name) implies third.contains_key(
        name,
    ) && first[name].progresses_to(third[name]) by {
        assert(second.contains_key(name));
    }
}

/// Starting a quest twice in a row is the same as starting it once; and a
/// registered quest that is not complete is, after either, started and not
/// complete.
pub proof fn lemma_start_is_idempotent<P>(ledger: Map<Seq<char>, Quest<P>>, name: Seq<char>)
    ensures
        start_in(start_in(ledger, name), name) == start_in(ledger, name),
        ledger.contains_key(name) && !ledger[name].complete ==> start_in(ledger, name)[name].start
            && !start_in(ledger, name)[name].complete,
{
    assert(start_in(start_in(ledger, name), name) =~= start_in(ledger, name));
}

/// A quest is announced as complete by one tick at most: a quest that the
/// events of one tick name is named by no event of the tick that follows.
pub proof fn lemma_completion_is_announced_once<W, P: Fn(&W) -> bool>(
    first: Map<Seq<char>, Quest<P>>,
    second: Map<Seq<char>, Quest<P>>,
    third: Map<Seq<char>, Quest<P>>,
    earlier: Seq<QuestEvents>,
    later: Seq<QuestEvents>,
    k: int,
    l: int,
)
    requires
        announces_completions(earlier, first, second),
        announces_completions(later, second, third),
        0 <= k < earlier.len(),
        0 <= l < later.len(),
    ensures
        earlier[k].name() != later[l].name(),
{
    assert(newly_complete(first, second, earlier[k].name()));
    assert(newly_complete(second, third, later[l].name()));
}

} // verus!
