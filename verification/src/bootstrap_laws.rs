//! What holds of every setup, whatever Matrix and the database do.

use vstd::prelude::*;

use crate::bootstrap::{
    self, ActionView, BootstrapError, BootstrapView, EventView, ProgressView, Role, StageView,
};
use crate::identifier;

verus! {

/// A setup that has just begun.
pub open spec fn started(
    default_room_id: Seq<char>,
    password: Seq<char>,
    sender_available: bool,
    monitor_available: bool,
) -> BootstrapView {
    BootstrapView {
        default_room_id,
        progress: bootstrap::first_progress(password, sender_available, monitor_available),
    }
}

/// A setup after `events` have come of its actions, one by one.
pub open spec fn after(start: BootstrapView, events: Seq<EventView>) -> BootstrapView
    decreases events.len(),
{
    if events.len() == 0 {
        start
    } else {
        after(start, events.drop_last()).next(events.last())
    }
}

/// Each of the events can come of the action that it comes of.
pub open spec fn is_run(start: BootstrapView, events: Seq<EventView>) -> bool
    decreases events.len(),
{
    events.len() > 0 ==> {
        &&& is_run(start, events.drop_last())
        &&& after(start, events.drop_last()).expects(events.last())
    }
}

/// The action that the event at `n` came of.
pub open spec fn action_at(start: BootstrapView, events: Seq<EventView>, n: int) -> ActionView {
    after(start, events.take(n)).action()
}

/// The action was carried out.
pub open spec fn done(start: BootstrapView, events: Seq<EventView>, action: ActionView) -> bool {
    exists|n: int|
        #![trigger events[n]]
        0 <= n < events.len() && action_at(start, events, n) == action && events[n] is Done
}

/// A device ID of the client was put on record.
pub open spec fn device_recorded(start: BootstrapView, events: Seq<EventView>, role: Role) -> bool {
    exists|device_id: Seq<char>|
        #[trigger] done(start, events, ActionView::RecordDeviceId { role, device_id })
}

/// The client of an action.
pub open spec fn client_of(action: ActionView) -> Option<Role> {
    match action {
        ActionView::CreateDirectory { role }
        | ActionView::OpenStore { role }
        | ActionView::LoadDeviceId { role }
        | ActionView::Login { role, .. }
        | ActionView::ReadDeviceId { role }
        | ActionView::RecordDeviceId { role, .. }
        | ActionView::SyncOnce { role }
        | ActionView::Publish { role } => Some(role),
        ActionView::WatchMessages | ActionView::FindDefaultRoom { .. } => Some(Role::Monitor),
        ActionView::Finish => None,
    }
}

/// The place of a state in the order in which a setup goes through its states.
pub open spec fn rank(progress: ProgressView) -> int {
    match progress {
        ProgressView::Working { role, stage } => {
            let first: int = if role == Role::Sender {
                0
            } else {
                8
            };
            first + match stage {
                StageView::CreatingDirectory => 0int,
                StageView::OpeningStore => 1,
                StageView::LoadingDevice => 2,
                StageView::LoggingIn { .. } => 3,
                StageView::ReadingDevice => 4,
                StageView::RecordingDevice { .. } => 5,
                StageView::WatchingMessages => 6,
                StageView::Syncing => if role == Role::Sender {
                    6
                } else {
                    7
                },
                StageView::FindingDefaultRoom => 8,
                StageView::Publishing => if role == Role::Sender {
                    7
                } else {
                    9
                },
            }
        },
        ProgressView::Finished { .. } => 18,
    }
}

/// Only the monitor watches messages and looks for the default room, and it
/// looks only for a room ID.
pub open spec fn is_sound(state: BootstrapView) -> bool {
    match state.progress {
        ProgressView::Working { role, stage } => {
            &&& stage is WatchingMessages || stage is FindingDefaultRoom ==> role == Role::Monitor
            &&& stage is FindingDefaultRoom ==> identifier::is_room_id_text(state.default_room_id)
        },
        ProgressView::Finished { .. } => true,
    }
}

/// What a client that stands at a stage has behind it.
pub open spec fn has_come_to(start: BootstrapView, events: Seq<EventView>) -> bool {
    let state = after(start, events);
    let room_id = start.default_room_id;
    &&& state.default_room_id == room_id
    &&& is_sound(state)
    &&& match state.progress {
        ProgressView::Working { role, stage } => {
            let late = rank(state.progress) - rank(
                ProgressView::Working { role, stage: StageView::RecordingDevice {
                    device_id: Seq::empty(),
                } },
            ) > 0;
            &&& late ==> device_recorded(start, events, role)
            &&& late && role == Role::Monitor && !(stage is WatchingMessages) ==> done(
                start,
                events,
                ActionView::WatchMessages,
            )
            &&& stage is FindingDefaultRoom || stage is Publishing ==> done(
                start,
                events,
                ActionView::SyncOnce { role },
            )
            &&& stage is Publishing && role == Role::Monitor ==> done(
                start,
                events,
                ActionView::FindDefaultRoom { room_id },
            )
        },
        ProgressView::Finished { .. } => true,
    }
}

proof fn lemma_done_stays(start: BootstrapView, events: Seq<EventView>, action: ActionView)
    requires
        events.len() > 0,
        done(start, events.drop_last(), action),
    ensures
        done(start, events, action),
{
    let earlier = events.drop_last();
    let n = choose|n: int|
        #![trigger earlier[n]]
        0 <= n < earlier.len() && action_at(start, earlier, n) == action && earlier[n] is Done;
    assert(earlier.take(n) =~= events.take(n));
    assert(events[n] is Done);
}

proof fn lemma_done_last(start: BootstrapView, events: Seq<EventView>)
    requires
        events.len() > 0,
        events.last() is Done,
    ensures
        done(start, events, after(start, events.drop_last()).action()),
{
    let n = events.len() - 1;
    assert(events.take(n) =~= events.drop_last());
    assert(events[n] is Done);
}

proof fn lemma_recorded_stays(start: BootstrapView, events: Seq<EventView>, role: Role)
    requires
        events.len() > 0,
        device_recorded(start, events.drop_last(), role),
    ensures
        device_recorded(start, events, role),
{
    let earlier = events.drop_last();
    let device_id = choose|device_id: Seq<char>|
        #[trigger] done(start, earlier, ActionView::RecordDeviceId { role, device_id });
    lemma_done_stays(start, events, ActionView::RecordDeviceId { role, device_id });
}

/// What a client has behind it, step by step.
proof fn lemma_has_come_to(start: BootstrapView, events: Seq<EventView>)
    requires
        is_run(start, events),
        start.progress matches ProgressView::Working { stage, .. } ==> stage is CreatingDirectory,
    ensures
        has_come_to(start, events),
    decreases events.len(),
{
    if events.len() > 0 {
        let earlier = events.drop_last();
        lemma_has_come_to(start, earlier);
        let before = after(start, earlier);
        let state = after(start, events);
        let room_id = start.default_room_id;
        if state.progress is Working {
            let role = state.progress->role;
            if events.last() is Done {
                lemma_done_last(start, events);
            }
            if device_recorded(start, earlier, role) {
                lemma_recorded_stays(start, events, role);
            }
            if done(start, earlier, ActionView::WatchMessages) {
                lemma_done_stays(start, events, ActionView::WatchMessages);
            }
            if done(start, earlier, ActionView::SyncOnce { role }) {
                lemma_done_stays(start, events, ActionView::SyncOnce { role });
            }
            assert(before.progress is Working);
            if before.progress->stage is RecordingDevice {
                let device_id = before.progress->stage->device_id;
                assert(done(start, events, ActionView::RecordDeviceId { role, device_id }));
            }
        }
    }
}

/// Setup comes to an end: it takes at most eighteen actions before it is over, and
/// none after.
pub proof fn law_setup_ends(
    default_room_id: Seq<char>,
    password: Seq<char>,
    sender_available: bool,
    monitor_available: bool,
    events: Seq<EventView>,
)
    requires
        is_run(started(default_room_id, password, sender_available, monitor_available), events),
    ensures
        ({
            let end = after(
                started(default_room_id, password, sender_available, monitor_available),
                events,
            );
            &&& events.len() <= 18
            &&& events.len() == 18 ==> end.progress is Finished
            &&& end.progress is Finished ==> forall|event: EventView| !end.expects(event)
        }),
{
    lemma_rank_rises(
        started(default_room_id, password, sender_available, monitor_available),
        events,
    );
}

proof fn lemma_rank_rises(start: BootstrapView, events: Seq<EventView>)
    requires
        is_run(start, events),
        start.progress matches ProgressView::Working { stage, .. } ==> stage is CreatingDirectory,
    ensures
        rank(start.progress) + events.len() <= rank(after(start, events).progress) <= 18,
        rank(after(start, events).progress) == 18 ==> after(start, events).progress is Finished,
    decreases events.len(),
{
    if events.len() > 0 {
        lemma_rank_rises(start, events.drop_last());
        lemma_has_come_to(start, events.drop_last());
    }
}

/// A client whose session has expired logs in as the device on record, and as a
/// new one only where none is on record.
pub proof fn law_login_keeps_the_device(
    default_room_id: Seq<char>,
    password: Seq<char>,
    sender_available: bool,
    monitor_available: bool,
    events: Seq<EventView>,
    role: Role,
    known_device: Option<Seq<char>>,
)
    requires
        is_run(started(default_room_id, password, sender_available, monitor_available), events),
        after(
            started(default_room_id, password, sender_available, monitor_available),
            events,
        ).action() == (ActionView::Login { role, known_device }),
    ensures
        ({
            let start = started(default_room_id, password, sender_available, monitor_available);
            let n = events.len() - 1;
            &&& n >= 1
            &&& action_at(start, events, n - 1) == (ActionView::OpenStore { role })
            &&& events[n - 1] == (EventView::Opened { logged_in: false })
            &&& action_at(start, events, n) == (ActionView::LoadDeviceId { role })
            &&& events[n] == EventView::Device(known_device)
        }),
{
    let earlier = events.drop_last();
    reveal_with_fuel(after, 3);
    reveal_with_fuel(is_run, 3);
    assert(events.take(events.len() - 1) =~= earlier);
    assert(events.take(events.len() - 2) =~= earlier.drop_last());
}

/// The device ID that is put on record is the one that the client has.
pub proof fn law_own_device_is_recorded(
    default_room_id: Seq<char>,
    password: Seq<char>,
    sender_available: bool,
    monitor_available: bool,
    events: Seq<EventView>,
    role: Role,
    device_id: Seq<char>,
)
    requires
        is_run(started(default_room_id, password, sender_available, monitor_available), events),
        after(
            started(default_room_id, password, sender_available, monitor_available),
            events,
        ).action() == (ActionView::RecordDeviceId { role, device_id }),
    ensures
        ({
            let start = started(default_room_id, password, sender_available, monitor_available);
            let n = events.len() - 1;
            &&& n >= 0
            &&& action_at(start, events, n) == (ActionView::ReadDeviceId { role })
            &&& events[n] == EventView::Device(Some(device_id))
        }),
{
    assert(events.take(events.len() - 1) =~= events.drop_last());
}

/// A client is made available only when its device ID is on record and it has
/// synchronized. The monitor in addition watches messages by then and has joined
/// the default room.
pub proof fn law_only_ready_clients_are_published(
    default_room_id: Seq<char>,
    password: Seq<char>,
    sender_available: bool,
    monitor_available: bool,
    events: Seq<EventView>,
    role: Role,
)
    requires
        is_run(started(default_room_id, password, sender_available, monitor_available), events),
        after(
            started(default_room_id, password, sender_available, monitor_available),
            events,
        ).action() == (ActionView::Publish { role }),
    ensures
        ({
            let start = started(default_room_id, password, sender_available, monitor_available);
            let room_id = default_room_id;
            &&& device_recorded(start, events, role)
            &&& done(start, events, ActionView::SyncOnce { role })
            &&& role == Role::Monitor ==> done(start, events, ActionView::WatchMessages)
            &&& role == Role::Monitor ==> done(
                start,
                events,
                ActionView::FindDefaultRoom { room_id },
            )
        }),
{
    lemma_has_come_to(
        started(default_room_id, password, sender_available, monitor_available),
        events,
    );
}

/// The sender that is under way or behind.
proof fn lemma_sender_comes_first(
    default_room_id: Seq<char>,
    password: Seq<char>,
    sender_available: bool,
    monitor_available: bool,
    events: Seq<EventView>,
)
    requires
        is_run(started(default_room_id, password, sender_available, monitor_available), events),
    ensures
        ({
            let start = started(default_room_id, password, sender_available, monitor_available);
            match after(start, events).progress {
                ProgressView::Working { role, .. } => {
                    &&& !(sender_available && monitor_available)
                    &&& sender_available ==> role == Role::Monitor
                    &&& role == Role::Monitor ==> sender_available || done(
                        start,
                        events,
                        ActionView::Publish { role: Role::Sender },
                    )
                },
                ProgressView::Finished { outcome } => outcome is Ok ==> {
                    &&& sender_available || done(
                        start,
                        events,
                        ActionView::Publish { role: Role::Sender },
                    )
                    &&& (sender_available && monitor_available) || done(
                        start,
                        events,
                        ActionView::Publish { role: Role::Monitor },
                    )
                },
            }
        }),
    decreases events.len(),
{
    let start = started(default_room_id, password, sender_available, monitor_available);
    if events.len() > 0 {
        let earlier = events.drop_last();
        lemma_sender_comes_first(
            default_room_id,
            password,
            sender_available,
            monitor_available,
            earlier,
        );
        let sender = ActionView::Publish { role: Role::Sender };
        if done(start, earlier, sender) {
            lemma_done_stays(start, events, sender);
        }
        if events.last() is Done {
            lemma_done_last(start, events);
        }
    }
}

/// Setup succeeds only with both clients available: each of them was so before or
/// has been made so.
pub proof fn law_success_means_both_clients(
    default_room_id: Seq<char>,
    password: Seq<char>,
    sender_available: bool,
    monitor_available: bool,
    events: Seq<EventView>,
)
    requires
        is_run(started(default_room_id, password, sender_available, monitor_available), events),
        after(
            started(default_room_id, password, sender_available, monitor_available),
            events,
        ).progress == (ProgressView::Finished { outcome: Ok(()) }),
    ensures
        ({
            let start = started(default_room_id, password, sender_available, monitor_available);
            &&& sender_available || done(
                start,
                events,
                ActionView::Publish { role: Role::Sender },
            )
            &&& (sender_available && monitor_available) || done(
                start,
                events,
                ActionView::Publish { role: Role::Monitor },
            )
        }),
{
    lemma_sender_comes_first(
        default_room_id,
        password,
        sender_available,
        monitor_available,
        events,
    );
}

/// A sender that is available is left alone, so setup can be tried again after
/// the monitor has failed.
pub proof fn law_available_sender_is_left_alone(
    default_room_id: Seq<char>,
    password: Seq<char>,
    monitor_available: bool,
    events: Seq<EventView>,
)
    requires
        is_run(started(default_room_id, password, true, monitor_available), events),
    ensures
        client_of(
            after(started(default_room_id, password, true, monitor_available), events).action(),
        ) != Some(Role::Sender),
{
    lemma_sender_comes_first(default_room_id, password, true, monitor_available, events);
}

/// Without the sender's password nothing is done unless the sender is available.
pub proof fn law_no_password_no_login(
    default_room_id: Seq<char>,
    monitor_available: bool,
    events: Seq<EventView>,
)
    requires
        is_run(started(default_room_id, Seq::empty(), false, monitor_available), events),
    ensures
        events.len() == 0,
        started(default_room_id, Seq::empty(), false, monitor_available).progress == (
        ProgressView::Finished { outcome: Err(BootstrapError::PasswordMissing) }),
{
    lemma_rank_rises(started(default_room_id, Seq::empty(), false, monitor_available), events);
}

} // verus!
