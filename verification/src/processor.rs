//! The room sweep: which rooms are visited, in what order, and what is done
//! for each.
//!
//! One sweep fetches the room list once and walks it in order. A room is
//! skipped when the operator excluded it, when it has nothing unread, or
//! when it carries a mention (a mention demands human attention). For every
//! other room the messages are fetched, the selector picks the message to
//! acknowledge, and that message is marked as read. The network calls
//! themselves are the caller's: [`RoomSweep`] is the sweep as a state
//! machine that says which call to make next and digests each call's
//! outcome, so that a per-room failure never blocks the rooms after it.

use vstd::prelude::*;
use vstd::utf8::encode_utf8;
use crate::models::{Message, Room};
use crate::selector::{body_excluded, ids_bytes, is_target_index, is_message_to_be_excluded,
    lemma_target_unique, select_target_index, spec_target_index};
use crate::settings::Settings;

verus! {

broadcast use vstd::std_specs::hash::group_hash_axioms;

/// The skip rules of one room, in the order they are checked: operator
/// exclusion, nothing unread, a pending mention.
pub open spec fn room_skipped(room: Room, settings: Settings) -> bool {
    ||| settings.chatwork.exclude_room_ids@.contains(room.room_id)
    ||| room.unread_num == 0
    ||| room.mention_num > 0
}

/// The indices of the rooms a sweep will fetch messages for, walking from
/// position `from`: every later room that no skip rule covers, in order.
pub open spec fn fetch_schedule(rooms: Seq<Room>, settings: Settings, from: int) -> Seq<int>
    decreases rooms.len() - from,
{
    if from < 0 || from >= rooms.len() {
        Seq::empty()
    } else if room_skipped(rooms[from], settings) {
        fetch_schedule(rooms, settings, from + 1)
    } else {
        seq![from] + fetch_schedule(rooms, settings, from + 1)
    }
}

/// Whether a room must be skipped: it is on the operator's exclusion list,
/// has no unread messages, or carries a mention.
pub fn should_skip(room: &Room, settings: &Settings) -> (r: bool)
    ensures
        r == room_skipped(*room, *settings),
{
    if settings.chatwork.exclude_room_ids.contains(&room.room_id) {
        return true;
    }
    if room.unread_num == 0 {
        return true;
    }
    if room.mention_num > 0 {
        return true;
    }
    false
}

/// Decides the sweep over all rooms: skip checks and target selection, with
/// the network calls left to the caller.
pub struct MessageProcessor {
    /// The configuration the decisions are made against.
    pub settings: Settings,
}

impl MessageProcessor {
    /// A processor for one configuration.
    pub fn new(settings: Settings) -> (p: Self)
        ensures
            p.settings == settings,
    {
        Self { settings }
    }

    /// Whether the room must be skipped (see [`room_skipped`]).
    pub fn should_skip_room(&self, room: &Room) -> (r: bool)
        ensures
            r == room_skipped(*room, self.settings),
    {
        should_skip(room, &self.settings)
    }

    /// Whether the message must not be silently acknowledged: its body
    /// carries the broadcast marker or a mention of an excluded account.
    pub fn is_message_to_be_excluded(&self, message: &Message) -> (r: bool)
        ensures
            r == body_excluded(
                encode_utf8(message.body@),
                ids_bytes(self.settings.chatwork.exclude_account_ids@),
            ),
    {
        is_message_to_be_excluded(message, &self.settings.chatwork.exclude_account_ids)
    }

    /// The message to mark as read, if any: the one just after the last
    /// excluded message, or the first one when nothing is excluded, and
    /// none when that position falls past the end of the list.
    pub fn find_target_message<'a>(&self, messages: &'a Vec<Message>) -> (r: Option<&'a Message>)
        ensures
            ({
                let target = spec_target_index(
                    messages@,
                    ids_bytes(self.settings.chatwork.exclude_account_ids@),
                );
                match r {
                    Some(m) => target matches Some(t) && *m == messages@[t],
                    None => target is None,
                }
            }),
    {
        let ghost ids = ids_bytes(self.settings.chatwork.exclude_account_ids@);
        match select_target_index(messages, &self.settings.chatwork.exclude_account_ids) {
            Some(t) => {
                proof {
                    let t0 = choose|tt: int| is_target_index(messages@, ids, tt);
                    lemma_target_unique(messages@, ids, t as int, t0);
                    assert(spec_target_index(messages@, ids) == Some(t as int));
                }
                Some(&messages[t])
            },
            None => None,
        }
    }

    /// Starts one sweep over the given room list.
    pub fn begin_sweep(self, rooms: Vec<Room>) -> (s: RoomSweep)
        ensures
            s.rooms == rooms,
            s.settings == self.settings,
            s.next_room == 0,
            s.pending is Idle,
            s.well_formed(),
    {
        RoomSweep { rooms, settings: self.settings, next_room: 0, pending: SweepPending::Idle }
    }
}

/// Which outside call the sweep is waiting on.
pub enum SweepPending {
    /// No call outstanding; the sweep can move to the next room.
    Idle,
    /// Waiting for the current room's message list.
    AwaitMessages,
    /// Waiting for the current room's mark-as-read call.
    AwaitMark,
}

/// The next call a sweep asks its driver to make.
pub enum SweepCommand {
    /// Fetch the messages of this room.
    FetchMessages {
        /// The room to fetch.
        room_id: i32,
    },
    /// Every room has been visited; the sweep is over.
    Finished,
}

/// A request to mark one message as read.
pub struct MarkCommand {
    /// The room the message belongs to.
    pub room_id: i32,
    /// The message to mark as read.
    pub message_id: String,
}

/// One sweep over a room list, as a state machine: the driver asks for the
/// next command, performs the network call, and hands the outcome back.
/// Every outcome — success or failure — moves the sweep on, so one room's
/// failure never blocks the rooms after it.
pub struct RoomSweep {
    /// The rooms of this sweep, in the order the API returned them.
    pub rooms: Vec<Room>,
    /// The configuration the skip and selection rules are read from.
    pub settings: Settings,
    /// The position of the room currently considered; everything before it
    /// is resolved.
    pub next_room: usize,
    /// Which outside call is outstanding.
    pub pending: SweepPending,
}

impl RoomSweep {
    /// The sweep's invariant: the position is in range, and an outstanding
    /// call always belongs to a room that no skip rule covers.
    pub open spec fn well_formed(self) -> bool {
        &&& self.next_room <= self.rooms@.len()
        &&& (self.pending is Idle || (self.next_room < self.rooms@.len() && !room_skipped(
            self.rooms@[self.next_room as int],
            self.settings,
        )))
    }

    /// The exclusion list's account ids, as bytes.
    pub open spec fn exclusion_ids(self) -> Seq<Seq<u8>> {
        ids_bytes(self.settings.chatwork.exclude_account_ids@)
    }

    /// Moves to the next room that no skip rule covers and asks for its
    /// messages — the head of the fetch schedule — or reports the sweep
    /// finished when no such room is left.
    pub fn next_command(&mut self) -> (c: SweepCommand)
        requires
            old(self).well_formed(),
            old(self).pending is Idle,
        ensures
            final(self).well_formed(),
            final(self).rooms == old(self).rooms,
            final(self).settings == old(self).settings,
            ({
                let schedule = fetch_schedule(
                    old(self).rooms@,
                    old(self).settings,
                    old(self).next_room as int,
                );
                match c {
                    SweepCommand::FetchMessages { room_id } => {
                        &&& schedule.len() > 0
                        &&& final(self).next_room == schedule[0]
                        &&& room_id == old(self).rooms@[schedule[0]].room_id
                        &&& !room_skipped(old(self).rooms@[schedule[0]], old(self).settings)
                        &&& final(self).pending is AwaitMessages
                    },
                    SweepCommand::Finished => {
                        &&& schedule.len() == 0
                        &&& final(self).next_room == old(self).rooms@.len()
                        &&& final(self).pending is Idle
                    },
                }
            }),
    {
        let n = self.rooms.len();
        loop
            invariant
                self.rooms == old(self).rooms,
                self.settings == old(self).settings,
                self.pending is Idle,
                n == self.rooms@.len(),
                old(self).next_room <= self.next_room <= n,
                fetch_schedule(self.rooms@, self.settings, self.next_room as int)
                    == fetch_schedule(
                    old(self).rooms@,
                    old(self).settings,
                    old(self).next_room as int,
                ),
            decreases n - self.next_room,
        {
            if self.next_room >= n {
                return SweepCommand::Finished;
            }
            let skip = should_skip(&self.rooms[self.next_room], &self.settings);
            if !skip {
                proof {
                    let i = self.next_room as int;
                    assert(fetch_schedule(self.rooms@, self.settings, i) == seq![i]
                        + fetch_schedule(self.rooms@, self.settings, i + 1));
                }
                self.pending = SweepPending::AwaitMessages;
                return SweepCommand::FetchMessages {
                    room_id: self.rooms[self.next_room].room_id,
                };
            }
            self.next_room = self.next_room + 1;
        }
    }

    /// Digests a fetched message list: selects the target message and, when
    /// there is one, asks for it to be marked as read; otherwise the room
    /// is done and the sweep moves on.
    pub fn messages_fetched(&mut self, messages: &Vec<Message>) -> (mark: Option<MarkCommand>)
        requires
            old(self).well_formed(),
            old(self).pending is AwaitMessages,
        ensures
            final(self).well_formed(),
            final(self).rooms == old(self).rooms,
            final(self).settings == old(self).settings,
            ({
                let target = spec_target_index(messages@, old(self).exclusion_ids());
                match mark {
                    Some(mc) => {
                        &&& (target matches Some(t) && mc.message_id@
                            == messages@[t].message_id@)
                        &&& mc.room_id == old(self).rooms@[old(self).next_room as int].room_id
                        &&& final(self).next_room == old(self).next_room
                        &&& final(self).pending is AwaitMark
                    },
                    None => {
                        &&& target is None
                        &&& final(self).next_room == old(self).next_room + 1
                        &&& final(self).pending is Idle
                    },
                }
            }),
    {
        let ghost ids = self.exclusion_ids();
        match select_target_index(messages, &self.settings.chatwork.exclude_account_ids) {
            Some(t) => {
                let message_id = messages[t].message_id.clone();
                proof {
                    assert(is_target_index(messages@, ids, t as int));
                    let t0 = choose|tt: int| is_target_index(messages@, ids, tt);
                    lemma_target_unique(messages@, ids, t as int, t0);
                    assert(spec_target_index(messages@, ids) == Some(t as int));
                }
                self.pending = SweepPending::AwaitMark;
                Some(
                    MarkCommand {
                        room_id: self.rooms[self.next_room].room_id,
                        message_id,
                    },
                )
            },
            None => {
                proof {
                    assert(spec_target_index(messages@, ids) is None);
                }
                let n = self.rooms.len();
                assert(self.next_room < n);
                self.pending = SweepPending::Idle;
                self.next_room = self.next_room + 1;
                None
            },
        }
    }

    /// Absorbs a failed message fetch: the room is given up, the sweep
    /// moves on to the rooms after it.
    pub fn messages_failed(&mut self)
        requires
            old(self).well_formed(),
            old(self).pending is AwaitMessages,
        ensures
            final(self).well_formed(),
            final(self).rooms == old(self).rooms,
            final(self).settings == old(self).settings,
            final(self).next_room == old(self).next_room + 1,
            final(self).pending is Idle,
    {
        let n = self.rooms.len();
        assert(self.next_room < n);
        self.pending = SweepPending::Idle;
        self.next_room = self.next_room + 1;
    }

    /// Digests the end of a mark-as-read call — successful or not — and
    /// moves on: a failed acknowledgement is absorbed exactly like a
    /// successful one.
    pub fn mark_finished(&mut self)
        requires
            old(self).well_formed(),
            old(self).pending is AwaitMark,
        ensures
            final(self).well_formed(),
            final(self).rooms == old(self).rooms,
            final(self).settings == old(self).settings,
            final(self).next_room == old(self).next_room + 1,
            final(self).pending is Idle,
    {
        let n = self.rooms.len();
        assert(self.next_room < n);
        self.pending = SweepPending::Idle;
        self.next_room = self.next_room + 1;
    }
}

/// The outcome of one room's message fetch, as the driver observed it.
pub enum RoomOutcome {
    /// The fetch failed terminally; the room is given up.
    FetchFailed,
    /// The fetched message list, oldest first.
    Messages(Vec<Message>),
}

/// The messages an outcome delivered (none for a failed fetch).
pub open spec fn outcome_messages(outcome: RoomOutcome) -> Seq<Message> {
    match outcome {
        RoomOutcome::FetchFailed => Seq::empty(),
        RoomOutcome::Messages(msgs) => msgs@,
    }
}

/// Ghost record of one acknowledgement: which room of the sweep, and which
/// position of its fetched message list was marked.
pub struct MarkRecord {
    /// Index of the room in the sweep's room list.
    pub room_index: int,
    /// Index of the marked message in the room's fetched list.
    pub message_index: int,
}

/// Ghost summary of one whole sweep: which rooms were fetched and which
/// messages were marked, in order.
pub struct SweepTrace {
    /// Indices of the rooms whose messages were fetched.
    pub fetched: Seq<int>,
    /// The acknowledgements, one at most per fetched room.
    pub marks: Seq<MarkRecord>,
}

/// The acknowledgement a room's outcome leads to: the selection target of
/// the delivered messages, when there is one.
pub open spec fn room_marks(
    settings: Settings,
    outcomes: Seq<RoomOutcome>,
    j: int,
) -> Seq<MarkRecord> {
    match spec_target_index(
        outcome_messages(outcomes[j]),
        ids_bytes(settings.chatwork.exclude_account_ids@),
    ) {
        Some(t) => seq![MarkRecord { room_index: j, message_index: t }],
        None => Seq::empty(),
    }
}

/// The whole sweep as a fold: walk the rooms from position `from`, skip the
/// covered ones, fetch every other room and acknowledge its selection
/// target. This mirrors the [`RoomSweep`] machine step for step.
pub open spec fn spec_sweep_trace(
    rooms: Seq<Room>,
    settings: Settings,
    outcomes: Seq<RoomOutcome>,
    from: int,
) -> SweepTrace
    decreases rooms.len() - from,
{
    if from < 0 || from >= rooms.len() {
        SweepTrace { fetched: Seq::empty(), marks: Seq::empty() }
    } else if room_skipped(rooms[from], settings) {
        spec_sweep_trace(rooms, settings, outcomes, from + 1)
    } else {
        let rest = spec_sweep_trace(rooms, settings, outcomes, from + 1);
        SweepTrace {
            fetched: seq![from] + rest.fetched,
            marks: room_marks(settings, outcomes, from) + rest.marks,
        }
    }
}

/// The summary of one replayed sweep: see [`run_sweep`].
pub struct SweepReplay {
    /// The ids of the rooms whose messages were fetched, in order.
    pub fetched_rooms: Vec<i32>,
    /// The acknowledgements issued, in order.
    pub marks: Vec<MarkCommand>,
}

/// The sweep loop over outcomes that are already at hand, one per room (the
/// outcomes of skipped rooms are never looked at): drives the [`RoomSweep`]
/// machine exactly as a network driver would, with every fetch answered by
/// the room's outcome and every acknowledgement accepted. Its contract ties
/// the machine to [`spec_sweep_trace`], the model the sweep laws are stated
/// over.
pub fn run_sweep(processor: MessageProcessor, rooms: Vec<Room>, outcomes: &Vec<RoomOutcome>)
    -> (r: SweepReplay)
    requires
        outcomes@.len() == rooms@.len(),
    ensures
        ({
            let t = spec_sweep_trace(rooms@, processor.settings, outcomes@, 0);
            &&& r.fetched_rooms@.len() == t.fetched.len()
            &&& (forall|n: int|
                0 <= n < t.fetched.len() ==> 0 <= #[trigger] t.fetched[n] < rooms@.len()
                    && r.fetched_rooms@[n] == rooms@[t.fetched[n]].room_id)
            &&& r.marks@.len() == t.marks.len()
            &&& (forall|n: int|
                0 <= n < t.marks.len() ==> {
                    let rec = #[trigger] t.marks[n];
                    &&& 0 <= rec.room_index < rooms@.len()
                    &&& 0 <= rec.message_index < outcome_messages(
                        outcomes@[rec.room_index],
                    ).len()
                    &&& r.marks@[n].room_id == rooms@[rec.room_index].room_id
                    &&& r.marks@[n].message_id@ == outcome_messages(
                        outcomes@[rec.room_index],
                    )[rec.message_index].message_id@
                })
        }),
{
    let ghost settings = processor.settings;
    let ghost rooms_view = rooms@;
    let ghost total = spec_sweep_trace(rooms@, settings, outcomes@, 0);
    let mut sweep = processor.begin_sweep(rooms);
    let mut fetched_rooms: Vec<i32> = Vec::new();
    let mut marks: Vec<MarkCommand> = Vec::new();
    let ghost mut gfetched: Seq<int> = Seq::empty();
    let ghost mut gmarks: Seq<MarkRecord> = Seq::empty();
    loop
        invariant
            sweep.well_formed(),
            sweep.pending is Idle,
            rooms_view == rooms@,
            settings == processor.settings,
            sweep.rooms@ == rooms_view,
            sweep.settings == settings,
            outcomes@.len() == rooms_view.len(),
            total == spec_sweep_trace(rooms_view, settings, outcomes@, 0),
            ({
                let rest = spec_sweep_trace(
                    rooms_view,
                    settings,
                    outcomes@,
                    sweep.next_room as int,
                );
                &&& total.fetched == gfetched + rest.fetched
                &&& total.marks == gmarks + rest.marks
            }),
            fetched_rooms@.len() == gfetched.len(),
            forall|n: int|
                0 <= n < gfetched.len() ==> 0 <= #[trigger] gfetched[n] < rooms_view.len()
                    && fetched_rooms@[n] == rooms_view[gfetched[n]].room_id,
            marks@.len() == gmarks.len(),
            forall|n: int|
                0 <= n < gmarks.len() ==> {
                    let rec = #[trigger] gmarks[n];
                    &&& 0 <= rec.room_index < rooms_view.len()
                    &&& 0 <= rec.message_index < outcome_messages(
                        outcomes@[rec.room_index],
                    ).len()
                    &&& marks@[n].room_id == rooms_view[rec.room_index].room_id
                    &&& marks@[n].message_id@ == outcome_messages(
                        outcomes@[rec.room_index],
                    )[rec.message_index].message_id@
                },
        decreases rooms_view.len() - sweep.next_room,
    {
        let ghost pre_next = sweep.next_room as int;
        match sweep.next_command() {
            SweepCommand::Finished => {
                proof {
                    lemma_trace_when_schedule_empty(rooms_view, settings, outcomes@, pre_next);
                    assert(total.fetched =~= gfetched);
                    assert(total.marks =~= gmarks);
                    assert forall|n: int|
                        0 <= n < total.fetched.len() implies {
                        let f = #[trigger] total.fetched[n];
                        0 <= f < rooms_view.len() && fetched_rooms@[n] == rooms_view[f].room_id
                    } by {
                        assert(total.fetched[n] == gfetched[n]);
                    }
                    assert forall|n: int|
                        0 <= n < total.marks.len() implies {
                        let rec = #[trigger] total.marks[n];
                        &&& 0 <= rec.room_index < rooms_view.len()
                        &&& 0 <= rec.message_index < outcome_messages(
                            outcomes@[rec.room_index],
                        ).len()
                        &&& marks@[n].room_id == rooms_view[rec.room_index].room_id
                        &&& marks@[n].message_id@ == outcome_messages(
                            outcomes@[rec.room_index],
                        )[rec.message_index].message_id@
                    } by {
                        assert(total.marks[n] == gmarks[n]);
                    }
                }
                return SweepReplay { fetched_rooms, marks };
            },
            SweepCommand::FetchMessages { room_id } => {
                proof {
                    lemma_trace_step(rooms_view, settings, outcomes@, pre_next);
                }
                let j = sweep.next_room;
                let ghost rest_after = spec_sweep_trace(
                    rooms_view,
                    settings,
                    outcomes@,
                    j + 1,
                );
                fetched_rooms.push(room_id);
                proof {
                    gfetched = gfetched.push(j as int);
                    assert(total.fetched =~= gfetched + rest_after.fetched);
                }
                match &outcomes[j] {
                    RoomOutcome::FetchFailed => {
                        sweep.messages_failed();
                        proof {
                            assert(outcomes@[j as int] is FetchFailed);
                            assert forall|t: int|
                                !is_target_index(
                                    outcome_messages(outcomes@[j as int]),
                                    sweep.exclusion_ids(),
                                    t,
                                ) by {}
                            assert(room_marks(settings, outcomes@, j as int)
                                =~= Seq::<MarkRecord>::empty());
                            assert(total.marks =~= gmarks + rest_after.marks);
                        }
                    },
                    RoomOutcome::Messages(msgs) => {
                        proof {
                            assert(outcome_messages(outcomes@[j as int]) == msgs@);
                        }
                        let ghost ids = sweep.exclusion_ids();
                        match sweep.messages_fetched(msgs) {
                            Some(mark) => {
                                proof {
                                    let t0 = spec_target_index(msgs@, ids)->0;
                                    assert(room_marks(settings, outcomes@, j as int)
                                        == seq![MarkRecord {
                                            room_index: j as int,
                                            message_index: t0,
                                        }]);
                                    assert(is_target_index(msgs@, ids, t0));
                                    gmarks = gmarks.push(
                                        MarkRecord { room_index: j as int, message_index: t0 },
                                    );
                                    assert(total.marks =~= gmarks + rest_after.marks);
                                }
                                marks.push(mark);
                                sweep.mark_finished();
                            },
                            None => {
                                proof {
                                    assert(spec_target_index(
                                        outcome_messages(outcomes@[j as int]),
                                        ids_bytes(settings.chatwork.exclude_account_ids@),
                                    ) is None);
                                    assert(room_marks(settings, outcomes@, j as int)
                                        =~= Seq::<MarkRecord>::empty());
                                    assert(total.marks =~= gmarks + rest_after.marks);
                                }
                            },
                        }
                    },
                }
            },
        }
    }
}

/// A sweep whose schedule is empty fetches and marks nothing.
proof fn lemma_trace_when_schedule_empty(
    rooms: Seq<Room>,
    settings: Settings,
    outcomes: Seq<RoomOutcome>,
    from: int,
)
    requires
        fetch_schedule(rooms, settings, from).len() == 0,
    ensures
        spec_sweep_trace(rooms, settings, outcomes, from) == (SweepTrace {
            fetched: Seq::<int>::empty(),
            marks: Seq::<MarkRecord>::empty(),
        }),
    decreases rooms.len() - from,
{
    if 0 <= from < rooms.len() {
        lemma_trace_when_schedule_empty(rooms, settings, outcomes, from + 1);
    }
}

/// Unrolls one scheduled room out of the sweep: the trace from `from` is
/// the head room's fetch and acknowledgement, followed by the trace from
/// just after that room.
proof fn lemma_trace_step(
    rooms: Seq<Room>,
    settings: Settings,
    outcomes: Seq<RoomOutcome>,
    from: int,
)
    requires
        fetch_schedule(rooms, settings, from).len() > 0,
    ensures
        ({
            let j = fetch_schedule(rooms, settings, from)[0];
            &&& 0 <= from <= j < rooms.len()
            &&& !room_skipped(rooms[j], settings)
            &&& spec_sweep_trace(rooms, settings, outcomes, from) == (SweepTrace {
                fetched: seq![j] + spec_sweep_trace(rooms, settings, outcomes, j + 1).fetched,
                marks: room_marks(settings, outcomes, j) + spec_sweep_trace(
                    rooms,
                    settings,
                    outcomes,
                    j + 1,
                ).marks,
            })
        }),
    decreases rooms.len() - from,
{
    if room_skipped(rooms[from], settings) {
        lemma_trace_step(rooms, settings, outcomes, from + 1);
    } else {
        assert(fetch_schedule(rooms, settings, from)[0] == from);
    }
}

/// Law: each skip rule alone keeps a room out of the sweep — a room with
/// nothing unread, a room with a pending mention, and a room on the
/// operator's exclusion list are all skipped, so none of them is ever named
/// by a fetch command.
pub proof fn lemma_skip_rules(room: Room, settings: Settings)
    ensures
        room.unread_num == 0 ==> room_skipped(room, settings),
        room.mention_num > 0 ==> room_skipped(room, settings),
        settings.chatwork.exclude_room_ids@.contains(room.room_id) ==> room_skipped(
            room,
            settings,
        ),
{
}

/// Law: a per-room failure does not block the sweep. After a failure the
/// sweep stands at the next position, and every room after the failed one
/// that no skip rule covers is still in the fetch schedule it continues
/// with — exactly as after a successfully processed room.
pub proof fn lemma_failure_keeps_later_rooms(
    rooms: Seq<Room>,
    settings: Settings,
    from: int,
    j: int,
)
    requires
        0 <= from <= j < rooms.len(),
        !room_skipped(rooms[j], settings),
    ensures
        fetch_schedule(rooms, settings, from).contains(j),
    decreases j - from,
{
    if from == j {
        assert(fetch_schedule(rooms, settings, from)[0] == j);
    } else {
        lemma_failure_keeps_later_rooms(rooms, settings, from + 1, j);
        let tail = fetch_schedule(rooms, settings, from + 1);
        let i = choose|i: int| 0 <= i < tail.len() && tail[i] == j;
        if room_skipped(rooms[from], settings) {
            assert(fetch_schedule(rooms, settings, from)[i] == j);
        } else {
            assert(fetch_schedule(rooms, settings, from)[i + 1] == j);
        }
    }
}

/// Law: which rooms a sweep fetches does not depend on any room's outcome —
/// the fetched rooms of the trace are exactly the fetch schedule, whatever
/// the outcomes are. A failed room therefore changes nothing about which
/// rooms are visited after it.
pub proof fn lemma_fetched_rooms_are_schedule(
    rooms: Seq<Room>,
    settings: Settings,
    outcomes: Seq<RoomOutcome>,
    from: int,
)
    ensures
        spec_sweep_trace(rooms, settings, outcomes, from).fetched == fetch_schedule(
            rooms,
            settings,
            from,
        ),
    decreases rooms.len() - from,
{
    if 0 <= from < rooms.len() {
        lemma_fetched_rooms_are_schedule(rooms, settings, outcomes, from + 1);
    }
}

/// Law: the fetch schedule names only eligible rooms — in range, and
/// covered by no skip rule.
pub proof fn lemma_schedule_only_eligible(rooms: Seq<Room>, settings: Settings, from: int)
    ensures
        forall|n: int|
            0 <= n < fetch_schedule(rooms, settings, from).len() ==> (0 <= #[trigger]
            fetch_schedule(rooms, settings, from)[n] < rooms.len() && !room_skipped(
                rooms[fetch_schedule(rooms, settings, from)[n]],
                settings,
            )),
    decreases rooms.len() - from,
{
    if from < 0 || from >= rooms.len() {
    } else if room_skipped(rooms[from], settings) {
        lemma_schedule_only_eligible(rooms, settings, from + 1);
    } else {
        lemma_schedule_only_eligible(rooms, settings, from + 1);
        let s = fetch_schedule(rooms, settings, from);
        let tail = fetch_schedule(rooms, settings, from + 1);
        assert forall|n: int|
            0 <= n < s.len() implies (0 <= s[n] < rooms.len() && !room_skipped(
            rooms[s[n]],
            settings,
        )) by {
            if n == 0 {
                assert(s[0] == from);
            } else {
                assert(s[n] == tail[n - 1]);
            }
        }
    }
}

} // verus!
