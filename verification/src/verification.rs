//! Asking the other devices of the monitor's account to verify the monitor.

use vstd::prelude::*;

use crate::error::{self, ApiError, ErrorView};
use crate::identifier::{self, is_user_id};
use crate::setup::{self, ready_monitor_client};
use crate::text::same_text;

verus! {

/// The devices that were asked.
#[derive(Debug)]
pub struct VerificationRequestResponse {
    pub requested_device_ids: Vec<String>,
}

/// The devices of an account but for the monitor's own, in their order.
pub open spec fn other_devices(own: Option<Seq<char>>, devices: Seq<Seq<char>>) -> Seq<Seq<char>> {
    devices.filter(|device: Seq<char>| own != Some(device))
}

/// Picks the devices of an account that are not the monitor's own.
pub fn verification_targets(own: Option<&str>, devices: Vec<String>) -> (targets: Vec<String>)
    ensures
        targets.deep_view() == other_devices(own.deep_view(), devices.deep_view()),
{
    let ghost ids = devices.deep_view();
    let ghost is_other = |device: Seq<char>| own.deep_view() != Some(device);
    let mut targets: Vec<String> = Vec::new();
    let mut i: usize = 0;
    assert(ids.take(0) =~= Seq::empty());
    while i < devices.len()
        invariant
            i <= devices.len(),
            ids == devices.deep_view(),
            is_other == (|device: Seq<char>| own.deep_view() != Some(device)),
            targets.deep_view() == ids.take(i as int).filter(is_other),
        decreases devices.len() - i,
    {
        let device: &String = &devices[i];
        let is_own = match own {
            Some(own) => same_text(own, device.as_str()),
            None => false,
        };
        proof {
            assert(ids.take(i + 1) =~= ids.take(i as int).push(ids[i as int]));
            reveal(Seq::filter);
            assert(ids.take(i + 1).drop_last() =~= ids.take(i as int));
        }
        if !is_own {
            targets.push(device.clone());
            assert(targets.deep_view() =~= ids.take(i as int).filter(is_other).push(ids[i as int]));
        }
        i = i + 1;
    }
    assert(ids.take(ids.len() as int) =~= ids);
    targets
}

/// How far a request for verification has come.
#[derive(Debug)]
enum Stage {
    LoadingOwnDevice,
    ListingDevices { own: Option<String> },
    Asking { targets: Vec<String>, asked: usize },
    Answered { answer: Result<VerificationRequestResponse, ApiError> },
}

/// How far a request for verification has come: the action that it waits for.
pub enum VerificationView {
    /// The monitor's own device ID is looked up.
    LoadingOwnDevice,
    /// The devices of the account are listed.
    ListingDevices { own: Option<Seq<char>> },
    /// The devices are asked, one by one.
    Asking { targets: Seq<Seq<char>>, asked: int },
    /// The request is over.
    Answered { answer: Result<Seq<Seq<char>>, ErrorView> },
}

/// The contents of an answer: the devices that were asked, or an error.
pub open spec fn answer_view(answer: Result<VerificationRequestResponse, ApiError>) -> Result<
    Seq<Seq<char>>,
    ErrorView,
> {
    match answer {
        Ok(response) => Ok(response.requested_device_ids.deep_view()),
        Err(error) => Err(error@),
    }
}

/// A request for verification under way.
#[derive(Debug)]
pub struct Verification {
    stage: Stage,
}

impl View for Verification {
    type V = VerificationView;

    closed spec fn view(&self) -> VerificationView {
        match self.stage {
            Stage::LoadingOwnDevice => VerificationView::LoadingOwnDevice,
            Stage::ListingDevices { own } => VerificationView::ListingDevices {
                own: own.deep_view(),
            },
            Stage::Asking { targets, asked } => VerificationView::Asking {
                targets: targets.deep_view(),
                asked: asked as int,
            },
            Stage::Answered { answer } => VerificationView::Answered {
                answer: answer_view(answer),
            },
        }
    }
}

/// What came of an action.
#[derive(Debug)]
pub enum VerificationEvent {
    /// It was done.
    Done,
    /// It failed.
    Failed,
    /// The device ID on record, if there is one.
    OwnDevice(Option<String>),
    /// The device IDs of the account.
    Devices(Vec<String>),
}

/// The contents of a [`VerificationEvent`].
pub enum EventView {
    Done,
    Failed,
    OwnDevice(Option<Seq<char>>),
    Devices(Seq<Seq<char>>),
}

impl View for VerificationEvent {
    type V = EventView;

    open spec fn view(&self) -> EventView {
        match self {
            VerificationEvent::Done => EventView::Done,
            VerificationEvent::Failed => EventView::Failed,
            VerificationEvent::OwnDevice(own) => EventView::OwnDevice(own.deep_view()),
            VerificationEvent::Devices(devices) => EventView::Devices(devices.deep_view()),
        }
    }
}

/// What is to be done next.
#[derive(Debug)]
pub enum VerificationAction {
    LoadOwnDevice,
    ListDevices,
    Ask { device_id: String },
    Respond,
}

/// The contents of a [`VerificationAction`].
pub enum ActionView {
    LoadOwnDevice,
    ListDevices,
    Ask { device_id: Seq<char> },
    Respond,
}

impl View for VerificationAction {
    type V = ActionView;

    open spec fn view(&self) -> ActionView {
        match self {
            VerificationAction::LoadOwnDevice => ActionView::LoadOwnDevice,
            VerificationAction::ListDevices => ActionView::ListDevices,
            VerificationAction::Ask { device_id } => ActionView::Ask { device_id: device_id@ },
            VerificationAction::Respond => ActionView::Respond,
        }
    }
}

/// Why no device is asked at all, if so: the monitor is not available, or its
/// user ID, of which `is_user_id` tells whether it is one, cannot be used.
pub open spec fn refusal(monitor_available: bool, is_user_id: bool) -> Option<ErrorView> {
    if !monitor_available {
        Some(setup::monitor_missing())
    } else if !is_user_id {
        Some(error::bad_request("MATRIX_MONITOR_USER_ID is not a canonical Matrix user ID"@))
    } else {
        None
    }
}

impl VerificationView {
    /// A request asks a device only where there is one to ask.
    pub open spec fn well_formed(self) -> bool {
        match self {
            VerificationView::Asking { targets, asked } => 0 <= asked < targets.len(),
            _ => true,
        }
    }

    /// `event` can come of the action that the request waits for.
    pub open spec fn expects(self, event: EventView) -> bool {
        match self {
            VerificationView::LoadingOwnDevice => event is OwnDevice || event is Failed,
            VerificationView::ListingDevices { .. } => event is Devices || event is Failed,
            VerificationView::Asking { .. } => event is Done || event is Failed,
            VerificationView::Answered { .. } => false,
        }
    }

    /// The action that the request waits for.
    pub open spec fn action(self) -> ActionView {
        match self {
            VerificationView::LoadingOwnDevice => ActionView::LoadOwnDevice,
            VerificationView::ListingDevices { .. } => ActionView::ListDevices,
            VerificationView::Asking { targets, asked } => ActionView::Ask {
                device_id: targets[asked],
            },
            VerificationView::Answered { .. } => ActionView::Respond,
        }
    }

    /// The request after `event` has come of the action.
    pub open spec fn next(self, event: EventView) -> VerificationView {
        if event is Failed {
            VerificationView::Answered { answer: Err(error::internal()) }
        } else {
            match self {
                VerificationView::LoadingOwnDevice => VerificationView::ListingDevices {
                    own: event->OwnDevice_0,
                },
                VerificationView::ListingDevices { own } => {
                    let targets = other_devices(own, event->Devices_0);
                    if targets.len() == 0 {
                        VerificationView::Answered {
                            answer: Err(
                                error::bad_request(
                                    "No other Matrix devices are available for verification"@,
                                ),
                            ),
                        }
                    } else {
                        VerificationView::Asking { targets, asked: 0 }
                    }
                },
                VerificationView::Asking { targets, asked } => if asked + 1 < targets.len() {
                    VerificationView::Asking { targets, asked: asked + 1 }
                } else {
                    VerificationView::Answered { answer: Ok(targets) }
                },
                VerificationView::Answered { .. } => self,
            }
        }
    }
}

impl Verification {
    #[verifier::type_invariant]
    spec fn is_well_formed(self) -> bool {
        self@.well_formed()
    }

    /// Starts a request whose monitor has a user ID that `is_user_id` tells of.
    pub fn begin_for(monitor_available: bool, is_user_id: bool) -> (outcome: Result<
        Verification,
        ApiError,
    >)
        ensures
            match outcome {
                Ok(verification) => {
                    &&& refusal(monitor_available, is_user_id) is None
                    &&& verification@ == VerificationView::LoadingOwnDevice
                },
                Err(error) => refusal(monitor_available, is_user_id) == Some(error@),
            },
    {
        match ready_monitor_client(monitor_available) {
            Ok(_) => {},
            Err(error) => return Err(error),
        }
        if !is_user_id {
            return Err(
                ApiError::bad_request("MATRIX_MONITOR_USER_ID is not a canonical Matrix user ID"),
            );
        }
        Ok(Verification { stage: Stage::LoadingOwnDevice })
    }

    /// Starts a request, unless it has to be refused.
    pub fn begin(monitor_available: bool, monitor_user_id: &str) -> (outcome: Result<
        Verification,
        ApiError,
    >)
        ensures
            match outcome {
                Ok(verification) => {
                    &&& refusal(
                        monitor_available,
                        identifier::is_user_id_text(monitor_user_id@),
                    ) is None
                    &&& verification@ == VerificationView::LoadingOwnDevice
                },
                Err(error) => refusal(
                    monitor_available,
                    identifier::is_user_id_text(monitor_user_id@),
                ) == Some(error@),
            },
    {
        Verification::begin_for(monitor_available, is_user_id(monitor_user_id))
    }

    /// What is to be done next.
    pub fn action(&self) -> (action: VerificationAction)
        ensures
            action@ == self@.action(),
    {
        proof {
            use_type_invariant(self);
        }
        match &self.stage {
            Stage::LoadingOwnDevice => VerificationAction::LoadOwnDevice,
            Stage::ListingDevices { .. } => VerificationAction::ListDevices,
            Stage::Asking { targets, asked } => VerificationAction::Ask {
                device_id: targets[*asked].clone(),
            },
            Stage::Answered { .. } => VerificationAction::Respond,
        }
    }

    /// Whether `event` can come of the action that the request waits for.
    pub fn accepts(&self, event: &VerificationEvent) -> (accepted: bool)
        ensures
            accepted == self@.expects(event@),
    {
        match &self.stage {
            Stage::LoadingOwnDevice => matches!(
                event,
                VerificationEvent::OwnDevice(_) | VerificationEvent::Failed
            ),
            Stage::ListingDevices { .. } => matches!(
                event,
                VerificationEvent::Devices(_) | VerificationEvent::Failed
            ),
            Stage::Asking { .. } => matches!(
                event,
                VerificationEvent::Done | VerificationEvent::Failed
            ),
            Stage::Answered { .. } => false,
        }
    }

    /// Goes on with what came of the action.
    pub fn step(self, event: VerificationEvent) -> (next: Verification)
        requires
            self@.expects(event@),
        ensures
            next@ == self@.next(event@),
    {
        proof {
            use_type_invariant(&self);
        }
        let Verification { stage } = self;
        let stage = match event {
            VerificationEvent::Failed => Stage::Answered { answer: Err(ApiError::internal()) },
            VerificationEvent::OwnDevice(own) => Stage::ListingDevices { own },
            VerificationEvent::Devices(devices) => {
                let own: Option<&str> = match &stage {
                    Stage::ListingDevices { own: Some(own) } => Some(own.as_str()),
                    _ => None,
                };
                let targets = verification_targets(own, devices);
                if targets.len() == 0 {
                    Stage::Answered {
                        answer: Err(
                            ApiError::bad_request(
                                "No other Matrix devices are available for verification",
                            ),
                        ),
                    }
                } else {
                    Stage::Asking { targets, asked: 0 }
                }
            },
            VerificationEvent::Done => match stage {
                Stage::Asking { targets, asked } => {
                    assert(targets.deep_view().len() == targets.len());
                    if asked + 1 < targets.len() {
                        Stage::Asking { targets, asked: asked + 1 }
                    } else {
                        Stage::Answered {
                            answer: Ok(
                                VerificationRequestResponse { requested_device_ids: targets },
                            ),
                        }
                    }
                },
                stage => stage,
            },
        };
        Verification { stage }
    }

    /// The answer to the caller, once the request is over.
    pub fn into_answer(self) -> (answer: Option<Result<VerificationRequestResponse, ApiError>>)
        ensures
            match answer {
                Some(answer) => self@ == (VerificationView::Answered {
                    answer: answer_view(answer),
                }),
                None => !(self@ is Answered),
            },
    {
        match self.stage {
            Stage::Answered { answer } => Some(answer),
            _ => None,
        }
    }
}

/// A request after `events` have come of its actions, one by one.
pub open spec fn after(events: Seq<EventView>) -> VerificationView
    decreases events.len(),
{
    if events.len() == 0 {
        VerificationView::LoadingOwnDevice
    } else {
        after(events.drop_last()).next(events.last())
    }
}

/// Each of the events can come of the action that it comes of.
pub open spec fn is_run(events: Seq<EventView>) -> bool
    decreases events.len(),
{
    events.len() > 0 ==> {
        &&& is_run(events.drop_last())
        &&& after(events.drop_last()).expects(events.last())
    }
}

/// The devices that have been asked, in their order.
pub open spec fn asked_devices(events: Seq<EventView>) -> Seq<Seq<char>>
    decreases events.len(),
{
    if events.len() == 0 {
        Seq::empty()
    } else {
        let earlier = asked_devices(events.drop_last());
        match after(events.drop_last()).action() {
            ActionView::Ask { device_id } if events.last() is Done => earlier.push(device_id),
            _ => earlier,
        }
    }
}

/// Where a request for verification stands, told from its events.
pub proof fn lemma_asking(events: Seq<EventView>)
    requires
        is_run(events),
    ensures
        after(events).well_formed(),
        match after(events) {
            VerificationView::LoadingOwnDevice => {
                &&& events.len() == 0
                &&& asked_devices(events) =~= Seq::<Seq<char>>::empty()
            },
            VerificationView::ListingDevices { own } => {
                &&& events.len() == 1
                &&& events[0] == EventView::OwnDevice(own)
                &&& asked_devices(events) =~= Seq::<Seq<char>>::empty()
            },
            VerificationView::Asking { targets, asked } => {
                &&& events.len() == 2 + asked
                &&& events[0] is OwnDevice
                &&& events[1] is Devices
                &&& targets == other_devices(events[0]->OwnDevice_0, events[1]->Devices_0)
                &&& asked_devices(events) =~= targets.take(asked)
            },
            VerificationView::Answered { answer: Ok(devices) } => {
                &&& events.len() == 2 + devices.len()
                &&& devices.len() > 0
                &&& events[0] is OwnDevice
                &&& events[1] is Devices
                &&& devices == other_devices(events[0]->OwnDevice_0, events[1]->Devices_0)
                &&& asked_devices(events) =~= devices
            },
            VerificationView::Answered { answer: Err(_) } => true,
        },
    decreases events.len(),
{
    if events.len() > 0 {
        let earlier = events.drop_last();
        lemma_asking(earlier);
        if earlier.len() >= 1 {
            assert(earlier[0] == events[0]);
        }
        if earlier.len() >= 2 {
            assert(earlier[1] == events[1]);
        }
        if let VerificationView::Asking { targets, asked } = after(earlier) {
            assert(targets.take(asked).push(targets[asked]) =~= targets.take(asked + 1));
            assert(targets.take(targets.len() as int) =~= targets);
        }
    }
}

/// A request that succeeds has asked every device of the account but the
/// monitor's own, each once and in their order, and answers with those.
pub proof fn law_every_other_device_is_asked(events: Seq<EventView>, devices: Seq<Seq<char>>)
    requires
        is_run(events),
        after(events) == (VerificationView::Answered { answer: Ok(devices) }),
    ensures
        events.len() == 2 + devices.len(),
        devices.len() > 0,
        events[0] is OwnDevice,
        events[1] is Devices,
        devices == other_devices(events[0]->OwnDevice_0, events[1]->Devices_0),
        asked_devices(events) == devices,
{
    lemma_asking(events);
}

/// The monitor's own device is never asked.
pub proof fn law_own_device_is_not_asked(events: Seq<EventView>, device_id: Seq<char>)
    requires
        is_run(events),
        after(events).action() == (ActionView::Ask { device_id }),
    ensures
        events[0] is OwnDevice,
        events[0]->OwnDevice_0 != Some(device_id),
{
    lemma_asking(events);
    let own = events[0]->OwnDevice_0;
    let devices = events[1]->Devices_0;
    let is_other = |device: Seq<char>| own != Some(device);
    devices.lemma_filter_pred(is_other, after(events)->asked);
}

} // verus!
