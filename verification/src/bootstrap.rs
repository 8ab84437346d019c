//! Setup of the two Matrix clients: the sender, and the delivery monitor that
//! checks that what the sender encrypts can be decrypted.

use vstd::prelude::*;

use crate::config::{self, monitor_store_directory, sender_store_directory, Config};
use crate::identifier::{self, is_room_id};

verus! {

/// One of the two Matrix clients.
#[derive(Clone, Copy, Debug, PartialEq, Eq, Structural)]
pub enum Role {
    Sender,
    Monitor,
}

/// What a client logs in with and where it keeps its state.
#[derive(Debug)]
pub struct Account {
    pub user_id: String,
    pub password: String,
    /// The directory of the store, as the segments of its path.
    pub store_directory: Vec<String>,
    pub store_key: String,
    pub display_name: &'static str,
}

/// The contents of an [`Account`].
pub struct AccountView {
    pub user_id: Seq<char>,
    pub password: Seq<char>,
    pub store_directory: Seq<Seq<char>>,
    pub store_key: Seq<char>,
    pub display_name: Seq<char>,
}

impl View for Account {
    type V = AccountView;

    open spec fn view(&self) -> AccountView {
        AccountView {
            user_id: self.user_id@,
            password: self.password@,
            store_directory: self.store_directory.deep_view(),
            store_key: self.store_key@,
            display_name: self.display_name@,
        }
    }
}

/// The account of a client under a configuration. Each has a store of its own
/// with a key of its own.
pub open spec fn account_of(config: Config, role: Role) -> AccountView {
    match role {
        Role::Sender => AccountView {
            user_id: config.user_id@,
            password: config.password@,
            store_directory: config::sender_store_path(config.store_dir@),
            store_key: config.store_encryption_key@,
            display_name: "n8n Matrix Service"@,
        },
        Role::Monitor => AccountView {
            user_id: config.monitor_user_id@,
            password: config.monitor_password@,
            store_directory: config::monitor_store_path(
                config.store_dir@,
                config.monitor_user_id@,
            ),
            store_key: config::monitor_store_key(
                config.store_encryption_key@,
                config.monitor_user_id@,
            ),
            display_name: "n8n Matrix Delivery Monitor"@,
        },
    }
}

impl Config {
    /// The account of a client.
    pub fn account(&self, role: Role) -> (account: Account)
        ensures
            account@ == account_of(*self, role),
    {
        match role {
            Role::Sender => Account {
                user_id: self.user_id.clone(),
                password: self.password.clone(),
                store_directory: sender_store_directory(self.store_dir.as_str()),
                store_key: self.store_encryption_key.clone(),
                display_name: "n8n Matrix Service",
            },
            Role::Monitor => Account {
                user_id: self.monitor_user_id.clone(),
                password: self.monitor_password.clone(),
                store_directory: monitor_store_directory(
                    self.store_dir.as_str(),
                    self.monitor_user_id.as_str(),
                ),
                store_key: self.monitor_store_encryption_key(),
                display_name: "n8n Matrix Delivery Monitor",
            },
        }
    }
}

/// Why setup did not complete.
#[derive(Clone, Copy, Debug, PartialEq, Eq, Structural)]
pub enum BootstrapError {
    /// The sender's password is not configured.
    PasswordMissing,
    /// The directory of the store could not be created.
    DirectoryUnavailable(Role),
    /// The store could not be opened.
    StoreUnavailable(Role),
    /// The device ID on record could not be read.
    DeviceIdUnreadable(Role),
    /// The login was refused.
    LoginFailed(Role),
    /// The login gave no device ID.
    DeviceIdMissing(Role),
    /// The device ID could not be put on record.
    DeviceIdUnrecorded(Role),
    /// The initial sync failed.
    SyncFailed(Role),
    /// The default room ID is not a room ID.
    DefaultRoomInvalid,
    /// The monitor has not joined the default room.
    DefaultRoomNotJoined,
}

impl BootstrapError {
    /// What was being done when setup failed, or what the operator has to do about
    /// it, under a configuration.
    pub open spec fn text(self, monitor_user_id: Seq<char>) -> Seq<char> {
        match self {
            BootstrapError::PasswordMissing =>
                "MATRIX_PASSWORD is required before Matrix setup can run"@,
            BootstrapError::DirectoryUnavailable(Role::Sender) =>
                "creating Matrix sender SQLite store directory"@,
            BootstrapError::DirectoryUnavailable(Role::Monitor) =>
                "creating Matrix delivery-monitor SQLite store directory"@,
            BootstrapError::StoreUnavailable(Role::Sender) => "creating Matrix client"@,
            BootstrapError::StoreUnavailable(Role::Monitor) =>
                "creating Matrix delivery-monitor client"@,
            BootstrapError::DeviceIdUnreadable(Role::Sender) =>
                "loading persisted Matrix sender device ID"@,
            BootstrapError::DeviceIdUnreadable(Role::Monitor) =>
                "loading persisted Matrix delivery-monitor device ID"@,
            BootstrapError::LoginFailed(Role::Sender) => "logging into Matrix"@,
            BootstrapError::LoginFailed(Role::Monitor) => "logging in Matrix delivery monitor"@,
            BootstrapError::DeviceIdMissing(Role::Sender) =>
                "Matrix sender login did not return a device ID"@,
            BootstrapError::DeviceIdMissing(Role::Monitor) =>
                "Matrix delivery-monitor login did not return a device ID"@,
            BootstrapError::DeviceIdUnrecorded(Role::Sender) => "persisting Matrix device ID"@,
            BootstrapError::DeviceIdUnrecorded(Role::Monitor) =>
                "persisting Matrix delivery-monitor device ID"@,
            BootstrapError::SyncFailed(Role::Sender) => "performing initial Matrix sync"@,
            BootstrapError::SyncFailed(Role::Monitor) =>
                "performing initial Matrix delivery-monitor sync"@,
            BootstrapError::DefaultRoomInvalid =>
                "parsing default Matrix room ID for delivery monitor"@,
            BootstrapError::DefaultRoomNotJoined =>
                "Matrix delivery-monitor account has not joined the default room; invite "@
                + monitor_user_id + " and accept the invitation"@,
        }
    }

    /// The message for the operator.
    pub fn message(&self, config: &Config) -> (message: String)
        ensures
            message@ == self.text(config.monitor_user_id@),
    {
        match *self {
            BootstrapError::PasswordMissing => {
                "MATRIX_PASSWORD is required before Matrix setup can run".to_owned()
            },
            BootstrapError::DirectoryUnavailable(Role::Sender) => {
                "creating Matrix sender SQLite store directory".to_owned()
            },
            BootstrapError::DirectoryUnavailable(Role::Monitor) => {
                "creating Matrix delivery-monitor SQLite store directory".to_owned()
            },
            BootstrapError::StoreUnavailable(Role::Sender) => "creating Matrix client".to_owned(),
            BootstrapError::StoreUnavailable(Role::Monitor) => {
                "creating Matrix delivery-monitor client".to_owned()
            },
            BootstrapError::DeviceIdUnreadable(Role::Sender) => {
                "loading persisted Matrix sender device ID".to_owned()
            },
            BootstrapError::DeviceIdUnreadable(Role::Monitor) => {
                "loading persisted Matrix delivery-monitor device ID".to_owned()
            },
            BootstrapError::LoginFailed(Role::Sender) => "logging into Matrix".to_owned(),
            BootstrapError::LoginFailed(Role::Monitor) => {
                "logging in Matrix delivery monitor".to_owned()
            },
            BootstrapError::DeviceIdMissing(Role::Sender) => {
                "Matrix sender login did not return a device ID".to_owned()
            },
            BootstrapError::DeviceIdMissing(Role::Monitor) => {
                "Matrix delivery-monitor login did not return a device ID".to_owned()
            },
            BootstrapError::DeviceIdUnrecorded(Role::Sender) => {
                "persisting Matrix device ID".to_owned()
            },
            BootstrapError::DeviceIdUnrecorded(Role::Monitor) => {
                "persisting Matrix delivery-monitor device ID".to_owned()
            },
            BootstrapError::SyncFailed(Role::Sender) => {
                "performing initial Matrix sync".to_owned()
            },
            BootstrapError::SyncFailed(Role::Monitor) => {
                "performing initial Matrix delivery-monitor sync".to_owned()
            },
            BootstrapError::DefaultRoomInvalid => {
                "parsing default Matrix room ID for delivery monitor".to_owned()
            },
            BootstrapError::DefaultRoomNotJoined => {
                let mut message: String =
                    "Matrix delivery-monitor account has not joined the default room; invite ".to_owned();
                message.append(config.monitor_user_id.as_str());
                message.append(" and accept the invitation");
                message
            },
        }
    }
}

/// How far the setup of a client has come.
#[derive(Debug)]
enum Stage {
    CreatingDirectory,
    OpeningStore,
    LoadingDevice,
    LoggingIn { known_device: Option<String> },
    ReadingDevice,
    RecordingDevice { device_id: String },
    WatchingMessages,
    Syncing,
    FindingDefaultRoom,
    Publishing,
}

/// How far the setup of a client has come: the action that it waits for.
pub enum StageView {
    /// The directory of the store is created, if it is not there.
    CreatingDirectory,
    /// The store is opened.
    OpeningStore,
    /// The device ID on record is looked up.
    LoadingDevice,
    /// The account logs in, as the device on record if there is one.
    LoggingIn { known_device: Option<Seq<char>> },
    /// The device ID of the client is read.
    ReadingDevice,
    /// The device ID is put on record.
    RecordingDevice { device_id: Seq<char> },
    /// The monitor is set to put down what it decrypts.
    WatchingMessages,
    /// The client synchronizes for the first time.
    Syncing,
    /// The default room is looked up among those that the monitor has joined.
    FindingDefaultRoom,
    /// The client is made available and kept in sync.
    Publishing,
}

impl View for Stage {
    type V = StageView;

    closed spec fn view(&self) -> StageView {
        match self {
            Stage::CreatingDirectory => StageView::CreatingDirectory,
            Stage::OpeningStore => StageView::OpeningStore,
            Stage::LoadingDevice => StageView::LoadingDevice,
            Stage::LoggingIn { known_device } => StageView::LoggingIn {
                known_device: known_device.deep_view(),
            },
            Stage::ReadingDevice => StageView::ReadingDevice,
            Stage::RecordingDevice { device_id } => StageView::RecordingDevice {
                device_id: device_id@,
            },
            Stage::WatchingMessages => StageView::WatchingMessages,
            Stage::Syncing => StageView::Syncing,
            Stage::FindingDefaultRoom => StageView::FindingDefaultRoom,
            Stage::Publishing => StageView::Publishing,
        }
    }
}

/// What came of an action.
#[derive(Debug)]
pub enum BootstrapEvent {
    /// It was done. What was looked up was found.
    Done,
    /// It failed. What was looked up was not found.
    Failed,
    /// The store is open; whether it holds a session.
    Opened { logged_in: bool },
    /// The device ID, if there is one.
    Device(Option<String>),
}

/// The contents of a [`BootstrapEvent`].
pub enum EventView {
    Done,
    Failed,
    Opened { logged_in: bool },
    Device(Option<Seq<char>>),
}

impl View for BootstrapEvent {
    type V = EventView;

    open spec fn view(&self) -> EventView {
        match self {
            BootstrapEvent::Done => EventView::Done,
            BootstrapEvent::Failed => EventView::Failed,
            BootstrapEvent::Opened { logged_in } => EventView::Opened { logged_in: *logged_in },
            BootstrapEvent::Device(device_id) => EventView::Device(device_id.deep_view()),
        }
    }
}

/// What is to be done next.
#[derive(Debug)]
pub enum BootstrapAction {
    CreateDirectory { role: Role },
    OpenStore { role: Role },
    LoadDeviceId { role: Role },
    Login { role: Role, known_device: Option<String> },
    ReadDeviceId { role: Role },
    RecordDeviceId { role: Role, device_id: String },
    WatchMessages,
    SyncOnce { role: Role },
    FindDefaultRoom { room_id: String },
    Publish { role: Role },
    Finish,
}

/// The contents of a [`BootstrapAction`].
pub enum ActionView {
    CreateDirectory { role: Role },
    OpenStore { role: Role },
    LoadDeviceId { role: Role },
    Login { role: Role, known_device: Option<Seq<char>> },
    ReadDeviceId { role: Role },
    RecordDeviceId { role: Role, device_id: Seq<char> },
    WatchMessages,
    SyncOnce { role: Role },
    FindDefaultRoom { room_id: Seq<char> },
    Publish { role: Role },
    Finish,
}

impl View for BootstrapAction {
    type V = ActionView;

    open spec fn view(&self) -> ActionView {
        match self {
            BootstrapAction::CreateDirectory { role } => ActionView::CreateDirectory {
                role: *role,
            },
            BootstrapAction::OpenStore { role } => ActionView::OpenStore { role: *role },
            BootstrapAction::LoadDeviceId { role } => ActionView::LoadDeviceId { role: *role },
            BootstrapAction::Login { role, known_device } => ActionView::Login {
                role: *role,
                known_device: known_device.deep_view(),
            },
            BootstrapAction::ReadDeviceId { role } => ActionView::ReadDeviceId { role: *role },
            BootstrapAction::RecordDeviceId { role, device_id } => ActionView::RecordDeviceId {
                role: *role,
                device_id: device_id@,
            },
            BootstrapAction::WatchMessages => ActionView::WatchMessages,
            BootstrapAction::SyncOnce { role } => ActionView::SyncOnce { role: *role },
            BootstrapAction::FindDefaultRoom { room_id } => ActionView::FindDefaultRoom {
                room_id: room_id@,
            },
            BootstrapAction::Publish { role } => ActionView::Publish { role: *role },
            BootstrapAction::Finish => ActionView::Finish,
        }
    }
}

/// Where setup stands.
#[derive(Debug)]
enum Progress {
    Working { role: Role, stage: Stage },
    Finished { outcome: Result<(), BootstrapError> },
}

/// Where setup stands.
pub enum ProgressView {
    /// A client is being set up.
    Working { role: Role, stage: StageView },
    /// Setup is over.
    Finished { outcome: Result<(), BootstrapError> },
}

impl View for Progress {
    type V = ProgressView;

    closed spec fn view(&self) -> ProgressView {
        match self {
            Progress::Working { role, stage } => ProgressView::Working {
                role: *role,
                stage: stage@,
            },
            Progress::Finished { outcome } => ProgressView::Finished { outcome: *outcome },
        }
    }
}

/// A setup under way.
#[derive(Debug)]
pub struct Bootstrap {
    default_room_id: String,
    progress: Progress,
}

/// The contents of a [`Bootstrap`].
pub struct BootstrapView {
    pub default_room_id: Seq<char>,
    pub progress: ProgressView,
}

impl View for Bootstrap {
    type V = BootstrapView;

    closed spec fn view(&self) -> BootstrapView {
        BootstrapView { default_room_id: self.default_room_id@, progress: self.progress@ }
    }
}

/// The error of an action on a client that failed at a stage.
pub open spec fn failure(role: Role, stage: StageView) -> BootstrapError {
    match stage {
        StageView::CreatingDirectory => BootstrapError::DirectoryUnavailable(role),
        StageView::OpeningStore => BootstrapError::StoreUnavailable(role),
        StageView::LoadingDevice => BootstrapError::DeviceIdUnreadable(role),
        StageView::LoggingIn { .. } => BootstrapError::LoginFailed(role),
        StageView::ReadingDevice => BootstrapError::DeviceIdMissing(role),
        StageView::RecordingDevice { .. } => BootstrapError::DeviceIdUnrecorded(role),
        StageView::Syncing => BootstrapError::SyncFailed(role),
        _ => BootstrapError::DefaultRoomNotJoined,
    }
}

/// Setup begins with the sender, or with the monitor where the sender is
/// available, and is over at once where both are.
pub open spec fn first_progress(
    password: Seq<char>,
    sender_available: bool,
    monitor_available: bool,
) -> ProgressView {
    if sender_available && monitor_available {
        ProgressView::Finished { outcome: Ok(()) }
    } else if sender_available {
        ProgressView::Working { role: Role::Monitor, stage: StageView::CreatingDirectory }
    } else if password.len() == 0 {
        ProgressView::Finished { outcome: Err(BootstrapError::PasswordMissing) }
    } else {
        ProgressView::Working { role: Role::Sender, stage: StageView::CreatingDirectory }
    }
}

impl BootstrapView {
    /// `event` can come of the action that setup waits for.
    pub open spec fn expects(self, event: EventView) -> bool {
        match self.progress {
            ProgressView::Working { role, stage } => match stage {
                StageView::OpeningStore => event is Opened || event is Failed,
                StageView::LoadingDevice => event is Device || event is Failed,
                StageView::ReadingDevice => event is Device,
                StageView::WatchingMessages | StageView::Publishing => event is Done,
                _ => event is Done || event is Failed,
            },
            ProgressView::Finished { .. } => false,
        }
    }

    /// The action that setup waits for.
    pub open spec fn action(self) -> ActionView {
        match self.progress {
            ProgressView::Working { role, stage } => match stage {
                StageView::CreatingDirectory => ActionView::CreateDirectory { role },
                StageView::OpeningStore => ActionView::OpenStore { role },
                StageView::LoadingDevice => ActionView::LoadDeviceId { role },
                StageView::LoggingIn { known_device } => ActionView::Login { role, known_device },
                StageView::ReadingDevice => ActionView::ReadDeviceId { role },
                StageView::RecordingDevice { device_id } => ActionView::RecordDeviceId {
                    role,
                    device_id,
                },
                StageView::WatchingMessages => ActionView::WatchMessages,
                StageView::Syncing => ActionView::SyncOnce { role },
                StageView::FindingDefaultRoom => ActionView::FindDefaultRoom {
                    room_id: self.default_room_id,
                },
                StageView::Publishing => ActionView::Publish { role },
            },
            ProgressView::Finished { .. } => ActionView::Finish,
        }
    }

    /// Where setup stands when `event` has come of the action.
    pub open spec fn next_progress(self, event: EventView) -> ProgressView {
        match self.progress {
            ProgressView::Working { role, stage } => {
                let on_with = |stage: StageView| ProgressView::Working { role, stage };
                let fail = |error: BootstrapError| ProgressView::Finished { outcome: Err(error) };
                if event is Failed {
                    fail(failure(role, stage))
                } else {
                    match stage {
                        StageView::CreatingDirectory => on_with(StageView::OpeningStore),
                        StageView::OpeningStore => if event->logged_in {
                            on_with(StageView::ReadingDevice)
                        } else {
                            on_with(StageView::LoadingDevice)
                        },
                        StageView::LoadingDevice => on_with(
                            StageView::LoggingIn { known_device: event->Device_0 },
                        ),
                        StageView::LoggingIn { .. } => on_with(StageView::ReadingDevice),
                        StageView::ReadingDevice => match event->Device_0 {
                            Some(device_id) => on_with(StageView::RecordingDevice { device_id }),
                            None => fail(BootstrapError::DeviceIdMissing(role)),
                        },
                        StageView::RecordingDevice { .. } => if role == Role::Monitor {
                            on_with(StageView::WatchingMessages)
                        } else {
                            on_with(StageView::Syncing)
                        },
                        StageView::WatchingMessages => on_with(StageView::Syncing),
                        StageView::Syncing => if role == Role::Sender {
                            on_with(StageView::Publishing)
                        } else if identifier::is_room_id_text(self.default_room_id) {
                            on_with(StageView::FindingDefaultRoom)
                        } else {
                            fail(BootstrapError::DefaultRoomInvalid)
                        },
                        StageView::FindingDefaultRoom => on_with(StageView::Publishing),
                        StageView::Publishing => if role == Role::Sender {
                            ProgressView::Working {
                                role: Role::Monitor,
                                stage: StageView::CreatingDirectory,
                            }
                        } else {
                            ProgressView::Finished { outcome: Ok(()) }
                        },
                    }
                }
            },
            ProgressView::Finished { .. } => self.progress,
        }
    }

    /// Setup after `event` has come of the action.
    pub open spec fn next(self, event: EventView) -> BootstrapView {
        BootstrapView {
            default_room_id: self.default_room_id,
            progress: self.next_progress(event),
        }
    }
}

fn failed_at(role: Role, stage: &Stage) -> (error: BootstrapError)
    ensures
        error == failure(role, stage@),
{
    match stage {
        Stage::CreatingDirectory => BootstrapError::DirectoryUnavailable(role),
        Stage::OpeningStore => BootstrapError::StoreUnavailable(role),
        Stage::LoadingDevice => BootstrapError::DeviceIdUnreadable(role),
        Stage::LoggingIn { .. } => BootstrapError::LoginFailed(role),
        Stage::ReadingDevice => BootstrapError::DeviceIdMissing(role),
        Stage::RecordingDevice { .. } => BootstrapError::DeviceIdUnrecorded(role),
        Stage::Syncing => BootstrapError::SyncFailed(role),
        _ => BootstrapError::DefaultRoomNotJoined,
    }
}

impl Bootstrap {
    /// Starts setup with the clients that are available already.
    pub fn begin(config: &Config, sender_available: bool, monitor_available: bool) -> (bootstrap:
        Bootstrap)
        ensures
            bootstrap@.default_room_id == config.default_room_id@,
            bootstrap@.progress == first_progress(
                config.password@,
                sender_available,
                monitor_available,
            ),
    {
        let progress = if sender_available && monitor_available {
            Progress::Finished { outcome: Ok(()) }
        } else if sender_available {
            Progress::Working { role: Role::Monitor, stage: Stage::CreatingDirectory }
        } else if config.password.as_str().is_empty() {
            Progress::Finished { outcome: Err(BootstrapError::PasswordMissing) }
        } else {
            Progress::Working { role: Role::Sender, stage: Stage::CreatingDirectory }
        };
        Bootstrap { default_room_id: config.default_room_id.clone(), progress }
    }

    /// What is to be done next.
    pub fn action(&self) -> (action: BootstrapAction)
        ensures
            action@ == self@.action(),
    {
        match &self.progress {
            Progress::Working { role, stage } => {
                let role: Role = *role;
                match stage {
                    Stage::CreatingDirectory => BootstrapAction::CreateDirectory { role },
                    Stage::OpeningStore => BootstrapAction::OpenStore { role },
                    Stage::LoadingDevice => BootstrapAction::LoadDeviceId { role },
                    Stage::LoggingIn { known_device } => BootstrapAction::Login {
                        role,
                        known_device: match known_device {
                            Some(device_id) => Some(device_id.clone()),
                            None => None,
                        },
                    },
                    Stage::ReadingDevice => BootstrapAction::ReadDeviceId { role },
                    Stage::RecordingDevice { device_id } => BootstrapAction::RecordDeviceId {
                        role,
                        device_id: device_id.clone(),
                    },
                    Stage::WatchingMessages => BootstrapAction::WatchMessages,
                    Stage::Syncing => BootstrapAction::SyncOnce { role },
                    Stage::FindingDefaultRoom => BootstrapAction::FindDefaultRoom {
                        room_id: self.default_room_id.clone(),
                    },
                    Stage::Publishing => BootstrapAction::Publish { role },
                }
            },
            Progress::Finished { .. } => BootstrapAction::Finish,
        }
    }

    /// Whether `event` can come of the action that setup waits for.
    pub fn accepts(&self, event: &BootstrapEvent) -> (accepted: bool)
        ensures
            accepted == self@.expects(event@),
    {
        match &self.progress {
            Progress::Working { role: _, stage } => match stage {
                Stage::OpeningStore => matches!(
                    event,
                    BootstrapEvent::Opened { .. } | BootstrapEvent::Failed
                ),
                Stage::LoadingDevice => matches!(
                    event,
                    BootstrapEvent::Device(_) | BootstrapEvent::Failed
                ),
                Stage::ReadingDevice => matches!(event, BootstrapEvent::Device(_)),
                Stage::WatchingMessages | Stage::Publishing => matches!(event, BootstrapEvent::Done),
                _ => matches!(event, BootstrapEvent::Done | BootstrapEvent::Failed),
            },
            Progress::Finished { .. } => false,
        }
    }

    /// Goes on with what came of the action.
    pub fn step(self, event: BootstrapEvent) -> (next: Bootstrap)
        requires
            self@.expects(event@),
        ensures
            next@ == self@.next(event@),
    {
        let Bootstrap { default_room_id, progress } = self;
        let progress = match progress {
            Progress::Working { role, stage } => match event {
                BootstrapEvent::Failed => Progress::Finished {
                    outcome: Err(failed_at(role, &stage)),
                },
                BootstrapEvent::Opened { logged_in } => if logged_in {
                    Progress::Working { role, stage: Stage::ReadingDevice }
                } else {
                    Progress::Working { role, stage: Stage::LoadingDevice }
                },
                BootstrapEvent::Device(device_id) => match stage {
                    Stage::LoadingDevice => Progress::Working {
                        role,
                        stage: Stage::LoggingIn { known_device: device_id },
                    },
                    _ => match device_id {
                        Some(device_id) => Progress::Working {
                            role,
                            stage: Stage::RecordingDevice { device_id },
                        },
                        None => Progress::Finished {
                            outcome: Err(BootstrapError::DeviceIdMissing(role)),
                        },
                    },
                },
                BootstrapEvent::Done => match stage {
                    Stage::CreatingDirectory => Progress::Working {
                        role,
                        stage: Stage::OpeningStore,
                    },
                    Stage::LoggingIn { .. } => Progress::Working {
                        role,
                        stage: Stage::ReadingDevice,
                    },
                    Stage::RecordingDevice { .. } => if role == Role::Monitor {
                        Progress::Working { role, stage: Stage::WatchingMessages }
                    } else {
                        Progress::Working { role, stage: Stage::Syncing }
                    },
                    Stage::WatchingMessages => Progress::Working { role, stage: Stage::Syncing },
                    Stage::Syncing => if role == Role::Sender {
                        Progress::Working { role, stage: Stage::Publishing }
                    } else if is_room_id(default_room_id.as_str()) {
                        Progress::Working { role, stage: Stage::FindingDefaultRoom }
                    } else {
                        Progress::Finished { outcome: Err(BootstrapError::DefaultRoomInvalid) }
                    },
                    Stage::FindingDefaultRoom => Progress::Working {
                        role,
                        stage: Stage::Publishing,
                    },
                    _ => if role == Role::Sender {
                        Progress::Working { role: Role::Monitor, stage: Stage::CreatingDirectory }
                    } else {
                        Progress::Finished { outcome: Ok(()) }
                    },
                },
            },
            Progress::Finished { outcome } => Progress::Finished { outcome },
        };
        Bootstrap { default_room_id, progress }
    }

    /// How setup ended, once it is over.
    pub fn outcome(&self) -> (outcome: Option<Result<(), BootstrapError>>)
        ensures
            match outcome {
                Some(outcome) => self@.progress == (ProgressView::Finished { outcome }),
                None => !(self@.progress is Finished),
            },
    {
        match &self.progress {
            Progress::Finished { outcome } => Some(*outcome),
            _ => None,
        }
    }
}

} // verus!
