//! Turning on the encryption of a room, and rotating its outbound session. Both
//! happen only on an explicit confirmation.

use vstd::prelude::*;

use crate::error::{self, ApiError, ErrorView, Status};
use crate::identifier::{self, is_room_id};
use crate::message::{self, push_field, Field, FieldValue, FieldValueView};
use crate::setup;

verus! {

/// What is to be changed about a room.
#[derive(Clone, Copy, Debug, PartialEq, Eq, Structural)]
pub enum RoomChange {
    /// End-to-end encryption is turned on.
    EnableEncryption,
    /// The outbound session is dropped, so that the next message starts a new one.
    RotateSession,
}

/// A change that has been made.
#[derive(Debug)]
pub struct RoomChanged {
    pub room_id: String,
    pub change: RoomChange,
}

/// The contents of a [`RoomChanged`].
pub struct ChangedView {
    pub room_id: Seq<char>,
    pub change: RoomChange,
}

impl View for RoomChanged {
    type V = ChangedView;

    open spec fn view(&self) -> ChangedView {
        ChangedView { room_id: self.room_id@, change: self.change }
    }
}

impl ChangedView {
    /// The members of the JSON object that a caller receives. The service goes on
    /// without a restart after a rotation.
    pub open spec fn fields(self) -> Seq<(Seq<char>, FieldValueView)> {
        seq![
            ("room_id"@, FieldValueView::Text(self.room_id)),
            ("encrypted"@, FieldValueView::Flag(true)),
        ] + (match self.change {
            RoomChange::EnableEncryption => seq![],
            RoomChange::RotateSession => seq![
                ("invalidated"@, FieldValueView::Flag(true)),
                ("restart_required"@, FieldValueView::Flag(false)),
            ],
        })
    }
}

impl RoomChanged {
    /// The members of the JSON object that the caller receives.
    pub fn fields(&self) -> (fields: Vec<Field>)
        ensures
            message::field_views(fields@) == self@.fields(),
    {
        let mut fields: Vec<Field> = Vec::new();
        push_field(&mut fields, "room_id", FieldValue::Text(self.room_id.clone()));
        push_field(&mut fields, "encrypted", FieldValue::Flag(true));
        match self.change {
            RoomChange::EnableEncryption => {},
            RoomChange::RotateSession => {
                push_field(&mut fields, "invalidated", FieldValue::Flag(true));
                push_field(&mut fields, "restart_required", FieldValue::Flag(false));
            },
        }
        assert(message::field_views(fields@) =~= self@.fields());
        fields
    }
}

/// How far a change has come.
#[derive(Debug)]
enum Stage {
    FindingClient,
    FindingRoom,
    ReadingEncryption,
    Changing,
    Answered { answer: Result<RoomChanged, ApiError> },
}

/// How far a change has come: the action that it waits for.
pub enum StageView {
    /// The sender is looked up.
    FindingClient,
    /// The room is looked up among those that the sender has joined.
    FindingRoom,
    /// Whether the room is encrypted is found out.
    ReadingEncryption,
    /// The room is changed.
    Changing,
    /// The change is over.
    Answered { answer: Result<ChangedView, ErrorView> },
}

/// The contents of an answer.
pub open spec fn answer_view(answer: Result<RoomChanged, ApiError>) -> Result<
    ChangedView,
    ErrorView,
> {
    match answer {
        Ok(changed) => Ok(changed@),
        Err(error) => Err(error@),
    }
}

impl View for Stage {
    type V = StageView;

    closed spec fn view(&self) -> StageView {
        match self {
            Stage::FindingClient => StageView::FindingClient,
            Stage::FindingRoom => StageView::FindingRoom,
            Stage::ReadingEncryption => StageView::ReadingEncryption,
            Stage::Changing => StageView::Changing,
            Stage::Answered { answer } => StageView::Answered { answer: answer_view(*answer) },
        }
    }
}

/// A change of a room under way.
#[derive(Debug)]
pub struct RoomSetup {
    change: RoomChange,
    room_id: String,
    stage: Stage,
}

/// The contents of a [`RoomSetup`].
pub struct RoomSetupView {
    pub change: RoomChange,
    pub room_id: Seq<char>,
    pub stage: StageView,
}

impl View for RoomSetup {
    type V = RoomSetupView;

    closed spec fn view(&self) -> RoomSetupView {
        RoomSetupView { change: self.change, room_id: self.room_id@, stage: self.stage@ }
    }
}

/// What came of an action.
#[derive(Clone, Copy, Debug, PartialEq, Eq, Structural)]
pub enum RoomEvent {
    /// It was done. What was looked up was found.
    Done,
    /// It failed. What was looked up was not found.
    Failed,
    /// Whether the room is encrypted.
    Encryption(bool),
}

/// What is to be done next.
#[derive(Debug)]
pub enum RoomAction {
    FindClient,
    FindRoom { room_id: String },
    ReadEncryption { room_id: String },
    EnableEncryption { room_id: String },
    DiscardRoomKey { room_id: String },
    Respond,
}

/// The contents of a [`RoomAction`].
pub enum ActionView {
    FindClient,
    FindRoom { room_id: Seq<char> },
    ReadEncryption { room_id: Seq<char> },
    EnableEncryption { room_id: Seq<char> },
    DiscardRoomKey { room_id: Seq<char> },
    Respond,
}

impl View for RoomAction {
    type V = ActionView;

    open spec fn view(&self) -> ActionView {
        match self {
            RoomAction::FindClient => ActionView::FindClient,
            RoomAction::FindRoom { room_id } => ActionView::FindRoom { room_id: room_id@ },
            RoomAction::ReadEncryption { room_id } => ActionView::ReadEncryption {
                room_id: room_id@,
            },
            RoomAction::EnableEncryption { room_id } => ActionView::EnableEncryption {
                room_id: room_id@,
            },
            RoomAction::DiscardRoomKey { room_id } => ActionView::DiscardRoomKey {
                room_id: room_id@,
            },
            RoomAction::Respond => ActionView::Respond,
        }
    }
}

/// Why a change is refused at once, if so: it is not confirmed, or the room ID is
/// not one.
pub open spec fn refusal(change: RoomChange, confirm: bool, room_id: Seq<char>) -> Option<
    ErrorView,
> {
    if !confirm {
        Some(
            error::bad_request(
                match change {
                    RoomChange::EnableEncryption => "Set confirm to true to enable room encryption"@,
                    RoomChange::RotateSession => "Set confirm to true to rotate the room encryption session"@,
                },
            ),
        )
    } else if !identifier::is_room_id_text(room_id) {
        Some(error::bad_request("room_id must be a canonical Matrix room ID"@))
    } else {
        None
    }
}

/// The error of a rotation in a room without encryption.
pub open spec fn room_not_encrypted() -> ErrorView {
    error::conflict(
        "ROOM_ENCRYPTION_REQUIRED"@,
        "The room is not configured for end-to-end encryption"@,
    )
}

/// The error of a change that Matrix did not make.
pub open spec fn change_failed(change: RoomChange) -> ErrorView {
    match change {
        RoomChange::EnableEncryption => ErrorView {
            status: Status::InternalServerError,
            code: "MATRIX_ENCRYPTION_ENABLE_FAILED"@,
            message: "Matrix could not enable room encryption; check Matrix Service logs"@,
        },
        RoomChange::RotateSession => error::internal(),
    }
}

impl RoomSetupView {
    /// `event` can come of the action that the change waits for.
    pub open spec fn expects(self, event: RoomEvent) -> bool {
        match self.stage {
            StageView::ReadingEncryption => event is Encryption || event is Failed,
            StageView::Answered { .. } => false,
            _ => event is Done || event is Failed,
        }
    }

    /// The action that the change waits for.
    pub open spec fn action(self) -> ActionView {
        let room_id = self.room_id;
        match self.stage {
            StageView::FindingClient => ActionView::FindClient,
            StageView::FindingRoom => ActionView::FindRoom { room_id },
            StageView::ReadingEncryption => ActionView::ReadEncryption { room_id },
            StageView::Changing => match self.change {
                RoomChange::EnableEncryption => ActionView::EnableEncryption { room_id },
                RoomChange::RotateSession => ActionView::DiscardRoomKey { room_id },
            },
            StageView::Answered { .. } => ActionView::Respond,
        }
    }

    /// The stage that follows when `event` has come of the action.
    pub open spec fn next_stage(self, event: RoomEvent) -> StageView {
        let failed = event is Failed;
        let refuse = |error: ErrorView| StageView::Answered { answer: Err(error) };
        match self.stage {
            StageView::FindingClient => if failed {
                refuse(setup::client_missing())
            } else {
                StageView::FindingRoom
            },
            StageView::FindingRoom => if failed {
                refuse(error::bad_request("The Matrix account has not joined this room"@))
            } else if self.change == RoomChange::RotateSession {
                StageView::ReadingEncryption
            } else {
                StageView::Changing
            },
            StageView::ReadingEncryption => if failed {
                refuse(error::internal())
            } else if event == RoomEvent::Encryption(true) {
                StageView::Changing
            } else {
                refuse(room_not_encrypted())
            },
            StageView::Changing => if failed {
                refuse(change_failed(self.change))
            } else {
                StageView::Answered {
                    answer: Ok(ChangedView { room_id: self.room_id, change: self.change }),
                }
            },
            StageView::Answered { .. } => self.stage,
        }
    }

    /// The change after `event` has come of the action.
    pub open spec fn next(self, event: RoomEvent) -> RoomSetupView {
        RoomSetupView { change: self.change, room_id: self.room_id, stage: self.next_stage(event) }
    }
}

fn refuse(error: ApiError) -> (stage: Stage)
    ensures
        stage@ == (StageView::Answered { answer: Err(error@) }),
{
    Stage::Answered { answer: Err(error) }
}

impl RoomSetup {
    /// Starts a change, unless it has to be refused.
    pub fn begin(change: RoomChange, confirm: bool, room_id: &str) -> (outcome: Result<
        RoomSetup,
        ApiError,
    >)
        ensures
            match outcome {
                Ok(setup) => {
                    &&& refusal(change, confirm, room_id@) is None
                    &&& setup@ == (RoomSetupView {
                        change,
                        room_id: room_id@,
                        stage: StageView::FindingClient,
                    })
                },
                Err(error) => refusal(change, confirm, room_id@) == Some(error@),
            },
    {
        if !confirm {
            return Err(
                ApiError::bad_request(
                    match change {
                        RoomChange::EnableEncryption => "Set confirm to true to enable room encryption",
                        RoomChange::RotateSession => "Set confirm to true to rotate the room encryption session",
                    },
                ),
            );
        }
        if !is_room_id(room_id) {
            return Err(ApiError::bad_request("room_id must be a canonical Matrix room ID"));
        }
        Ok(RoomSetup { change, room_id: room_id.to_owned(), stage: Stage::FindingClient })
    }

    /// What is to be done next.
    pub fn action(&self) -> (action: RoomAction)
        ensures
            action@ == self@.action(),
    {
        let room_id: String = self.room_id.clone();
        match &self.stage {
            Stage::FindingClient => RoomAction::FindClient,
            Stage::FindingRoom => RoomAction::FindRoom { room_id },
            Stage::ReadingEncryption => RoomAction::ReadEncryption { room_id },
            Stage::Changing => match self.change {
                RoomChange::EnableEncryption => RoomAction::EnableEncryption { room_id },
                RoomChange::RotateSession => RoomAction::DiscardRoomKey { room_id },
            },
            Stage::Answered { .. } => RoomAction::Respond,
        }
    }

    /// Whether `event` can come of the action that the change waits for.
    pub fn accepts(&self, event: RoomEvent) -> (accepted: bool)
        ensures
            accepted == self@.expects(event),
    {
        match &self.stage {
            Stage::ReadingEncryption => matches!(event, RoomEvent::Encryption(_) | RoomEvent::Failed),
            Stage::Answered { .. } => false,
            _ => matches!(event, RoomEvent::Done | RoomEvent::Failed),
        }
    }

    /// Goes on with what came of the action.
    pub fn step(self, event: RoomEvent) -> (next: RoomSetup)
        requires
            self@.expects(event),
        ensures
            next@ == self@.next(event),
    {
        let RoomSetup { change, room_id, stage } = self;
        let failed = matches!(event, RoomEvent::Failed);
        let stage = match stage {
            Stage::FindingClient => match setup::ready_client(!failed) {
                Ok(_) => Stage::FindingRoom,
                Err(error) => refuse(error),
            },
            Stage::FindingRoom => if failed {
                refuse(ApiError::bad_request("The Matrix account has not joined this room"))
            } else if change == RoomChange::RotateSession {
                Stage::ReadingEncryption
            } else {
                Stage::Changing
            },
            Stage::ReadingEncryption => match event {
                RoomEvent::Encryption(true) => Stage::Changing,
                RoomEvent::Encryption(false) => refuse(
                    ApiError::conflict(
                        "ROOM_ENCRYPTION_REQUIRED",
                        "The room is not configured for end-to-end encryption",
                    ),
                ),
                _ => refuse(ApiError::internal()),
            },
            Stage::Changing => if failed {
                refuse(
                    match change {
                        RoomChange::EnableEncryption => ApiError {
                            status: Status::InternalServerError,
                            code: "MATRIX_ENCRYPTION_ENABLE_FAILED",
                            message: "Matrix could not enable room encryption; check Matrix Service logs".to_owned(),
                        },
                        RoomChange::RotateSession => ApiError::internal(),
                    },
                )
            } else {
                Stage::Answered { answer: Ok(RoomChanged { room_id: room_id.clone(), change }) }
            },
            Stage::Answered { answer } => Stage::Answered { answer },
        };
        RoomSetup { change, room_id, stage }
    }

    /// The answer to the caller, once the change is over.
    pub fn into_answer(self) -> (answer: Option<Result<RoomChanged, ApiError>>)
        ensures
            match answer {
                Some(answer) => self@.stage == (StageView::Answered { answer: answer_view(answer) }),
                None => !(self@.stage is Answered),
            },
    {
        match self.stage {
            Stage::Answered { answer } => Some(answer),
            _ => None,
        }
    }
}

/// A change after `events` have come of its actions, one by one.
pub open spec fn after(
    change: RoomChange,
    room_id: Seq<char>,
    events: Seq<RoomEvent>,
) -> RoomSetupView
    decreases events.len(),
{
    if events.len() == 0 {
        RoomSetupView { change, room_id, stage: StageView::FindingClient }
    } else {
        after(change, room_id, events.drop_last()).next(events.last())
    }
}

/// Each of the events can come of the action that it comes of.
pub open spec fn is_run(change: RoomChange, room_id: Seq<char>, events: Seq<RoomEvent>) -> bool
    decreases events.len(),
{
    events.len() > 0 ==> {
        &&& is_run(change, room_id, events.drop_last())
        &&& after(change, room_id, events.drop_last()).expects(events.last())
    }
}

/// What must have come of the actions before a room is changed: the sender is
/// there, it has joined the room, and for a rotation the room is encrypted.
pub open spec fn preparations(change: RoomChange) -> Seq<RoomEvent> {
    match change {
        RoomChange::EnableEncryption => seq![RoomEvent::Done, RoomEvent::Done],
        RoomChange::RotateSession => seq![
            RoomEvent::Done,
            RoomEvent::Done,
            RoomEvent::Encryption(true),
        ],
    }
}

proof fn lemma_stages(change: RoomChange, room_id: Seq<char>, events: Seq<RoomEvent>)
    requires
        is_run(change, room_id, events),
    ensures
        after(change, room_id, events).change == change,
        after(change, room_id, events).room_id == room_id,
        match after(change, room_id, events).stage {
            StageView::FindingClient => events.len() == 0,
            StageView::FindingRoom => events =~= seq![RoomEvent::Done],
            StageView::ReadingEncryption => {
                &&& change == RoomChange::RotateSession
                &&& events =~= seq![RoomEvent::Done, RoomEvent::Done]
            },
            StageView::Changing => events =~= preparations(change),
            StageView::Answered { answer: Ok(changed) } => {
                &&& events =~= preparations(change).push(RoomEvent::Done)
                &&& changed == (ChangedView { room_id, change })
            },
            StageView::Answered { answer: Err(_) } => 1 <= events.len() <= 4
                && events.last() != RoomEvent::Done,
        },
    decreases events.len(),
{
    if events.len() > 0 {
        let earlier = events.drop_last();
        lemma_stages(change, room_id, earlier);
        assert(events =~= earlier.push(events.last()));
    }
}

/// A room is changed only by a sender that is there and has joined it, and its
/// session is rotated only where it is encrypted.
pub proof fn law_change_is_prepared(change: RoomChange, room_id: Seq<char>, events: Seq<RoomEvent>)
    requires
        is_run(change, room_id, events),
        ({
            let action = after(change, room_id, events).action();
            action is EnableEncryption || action is DiscardRoomKey
        }),
    ensures
        events == preparations(change),
        after(change, room_id, events).action() == (match change {
            RoomChange::EnableEncryption => ActionView::EnableEncryption { room_id },
            RoomChange::RotateSession => ActionView::DiscardRoomKey { room_id },
        }),
{
    lemma_stages(change, room_id, events);
}

/// A change is reported exactly when Matrix has made it, and it is the one that
/// was asked for.
pub proof fn law_reported_change_is_made(
    change: RoomChange,
    room_id: Seq<char>,
    events: Seq<RoomEvent>,
)
    requires
        is_run(change, room_id, events),
    ensures
        events == preparations(change).push(RoomEvent::Done) <==> (after(
            change,
            room_id,
            events,
        ).stage matches StageView::Answered { answer: Ok(_) }),
        after(change, room_id, events).stage matches StageView::Answered {
            answer: Ok(changed),
        } ==> changed == (ChangedView { room_id, change }),
        events.len() <= 4,
{
    lemma_stages(change, room_id, events);
    if events == preparations(change).push(RoomEvent::Done) {
        assert(events.last() == RoomEvent::Done);
    }
}

/// A change that is not confirmed is refused, whatever the room.
pub proof fn law_change_needs_confirmation(change: RoomChange, room_id: Seq<char>)
    ensures
        refusal(change, false, room_id) is Some,
        refusal(change, false, room_id)->0.status == Status::BadRequest,
{
}

} // verus!
