//! The delivery of one message, as a sequence of steps. Each step asks for an
//! action on Matrix or on the database; what came of it decides the next step.

use vstd::prelude::*;
use vstd::utf8::*;

use crate::attachment::{self, alt_text};
use crate::content::{self, ContentView, MessageContent, format_content};
use crate::digest;
use crate::error::{self, ApiError, ErrorView};
use crate::idempotency::{
    self, idempotency_key, request_hash, stable_transaction_id, IdempotencyRecord, RecordView,
};
use crate::identifier::{self, is_room_id};
use crate::message::{
    MessageFormat, RequestView, ResponseView, SendMessageRequest, SendMessageResponse,
};
use crate::text::{self, is_blank, same_text};

verus! {

/// What a request comes down to once its defaults are filled in.
#[derive(Debug)]
pub struct DeliveryPlan {
    pub message: String,
    pub format: MessageFormat,
    pub encrypted: bool,
    pub room_id: String,
    pub request_hash: String,
    pub request_key: Option<String>,
    pub image_url: Option<String>,
    pub image_alt: String,
    pub image_transaction_id: String,
    pub message_transaction_id: String,
}

/// The contents of a [`DeliveryPlan`].
pub struct PlanView {
    pub message: Seq<char>,
    pub format: MessageFormat,
    pub encrypted: bool,
    pub room_id: Seq<char>,
    pub request_hash: Seq<char>,
    pub request_key: Option<Seq<char>>,
    pub image_url: Option<Seq<char>>,
    pub image_alt: Seq<char>,
    pub image_transaction_id: Seq<char>,
    pub message_transaction_id: Seq<char>,
}

impl View for DeliveryPlan {
    type V = PlanView;

    open spec fn view(&self) -> PlanView {
        PlanView {
            message: self.message@,
            format: self.format,
            encrypted: self.encrypted,
            room_id: self.room_id@,
            request_hash: self.request_hash@,
            request_key: self.request_key.deep_view(),
            image_url: self.image_url.deep_view(),
            image_alt: self.image_alt@,
            image_transaction_id: self.image_transaction_id@,
            message_transaction_id: self.message_transaction_id@,
        }
    }
}

impl RequestView {
    /// The room that the message goes to.
    pub open spec fn effective_room(self, default_room_id: Seq<char>) -> Seq<char> {
        match self.room_id {
            Some(room_id) => room_id,
            None => default_room_id,
        }
    }

    /// Markdown is the default.
    pub open spec fn effective_format(self) -> MessageFormat {
        match self.format {
            Some(format) => format,
            None => MessageFormat::Markdown,
        }
    }

    /// Encrypted delivery is the default.
    pub open spec fn effective_encryption(self) -> bool {
        match self.encrypted {
            Some(encrypted) => encrypted,
            None => true,
        }
    }

    /// The bytes that identify the content and the options of the delivery.
    pub open spec fn identity(self, default_room_id: Seq<char>) -> Seq<u8> {
        idempotency::request_preimage(
            self.message,
            self.effective_room(default_room_id),
            self.effective_format(),
            self.effective_encryption(),
            self.image_url,
            self.image_alt,
        )
    }

    /// The hash of the content and the options of the delivery.
    pub open spec fn hash(self, default_room_id: Seq<char>) -> Seq<char> {
        digest::hex_sha256(self.identity(default_room_id))
    }

    /// The key of the record of the delivery.
    pub open spec fn key(self, default_room_id: Seq<char>) -> Option<Seq<char>> {
        match self.request_id {
            Some(request_id) => Some(
                digest::hex_sha256(
                    idempotency::key_preimage(request_id, self.effective_room(default_room_id)),
                ),
            ),
            None => None,
        }
    }

    /// What is wrong with the request, if anything.
    pub open spec fn refusal(self, default_room_id: Seq<char>) -> Option<ErrorView> {
        if text::is_blank_text(self.message) {
            Some(error::bad_request("message must not be empty"@))
        } else if !identifier::is_room_id_text(self.effective_room(default_room_id)) {
            Some(error::bad_request("room_id must be a canonical Matrix room ID"@))
        } else {
            None
        }
    }
}

impl PlanView {
    /// The hash and the key, if there is one, are digests.
    pub open spec fn has_digests(self) -> bool {
        &&& digest::is_digest_text(self.request_hash)
        &&& self.request_key matches Some(key) ==> digest::is_digest_text(key)
    }

    /// The plan is the one for a request.
    pub open spec fn is_for(self, request: RequestView, default_room_id: Seq<char>) -> bool {
        &&& self.message == request.message
        &&& self.format == request.effective_format()
        &&& self.encrypted == request.effective_encryption()
        &&& self.room_id == request.effective_room(default_room_id)
        &&& self.request_hash == request.hash(default_room_id)
        &&& self.request_key == request.key(default_room_id)
        &&& self.image_url == request.image_url
        &&& self.image_alt == attachment::effective_alt(request.image_alt)
        &&& idempotency::is_stable_transaction_id(
            self.request_key,
            "image"@,
            self.image_transaction_id,
        )
        &&& idempotency::is_stable_transaction_id(
            self.request_key,
            "message"@,
            self.message_transaction_id,
        )
    }
}

/// The text of an optional string.
fn as_text(s: &Option<String>) -> (t: Option<&str>)
    ensures
        t.deep_view() == s.deep_view(),
{
    match s {
        Some(s) => Some(s.as_str()),
        None => None,
    }
}

impl DeliveryPlan {
    /// Checks a request and fills in its defaults.
    pub fn from_request(
        request: SendMessageRequest,
        default_room_id: &str,
    ) -> (outcome: Result<DeliveryPlan, ApiError>)
        ensures
            match outcome {
                Ok(plan) => request@.refusal(default_room_id@) is None && plan@.is_for(
                    request@,
                    default_room_id@,
                ) && plan@.has_digests(),
                Err(error) => request@.refusal(default_room_id@) == Some(error@),
            },
    {
        if is_blank(request.message.as_str()) {
            return Err(ApiError::bad_request("message must not be empty"));
        }
        let format = match request.format {
            Some(format) => format,
            None => MessageFormat::Markdown,
        };
        let encrypted = match request.encrypted {
            Some(encrypted) => encrypted,
            None => true,
        };
        let room_id: String = match &request.room_id {
            Some(room_id) => room_id.clone(),
            None => default_room_id.to_owned(),
        };
        if !is_room_id(room_id.as_str()) {
            return Err(ApiError::bad_request("room_id must be a canonical Matrix room ID"));
        }
        let hash = request_hash(
            request.message.as_str(),
            room_id.as_str(),
            format,
            encrypted,
            as_text(&request.image_url),
            as_text(&request.image_alt),
        );
        let request_key: Option<String> = match &request.request_id {
            Some(request_id) => Some(idempotency_key(request_id.as_str(), room_id.as_str())),
            None => None,
        };
        proof {
            if let Some(request_id) = request@.request_id {
                let preimage = idempotency::key_preimage(request_id, room_id@);
                digest::lemma_hex_text_prefix(
                    digest::sha256(preimage),
                    idempotency::KEY_PREFIX_LENGTH as int,
                );
            }
        }
        let image_transaction_id = stable_transaction_id(as_text(&request_key), "image");
        let message_transaction_id = stable_transaction_id(as_text(&request_key), "message");
        let image_alt = alt_text(as_text(&request.image_alt));
        Ok(
            DeliveryPlan {
                message: request.message,
                format,
                encrypted,
                room_id,
                request_hash: hash,
                request_key,
                image_url: request.image_url,
                image_alt,
                image_transaction_id,
                message_transaction_id,
            },
        )
    }
}

/// The events that a delivery has put into its room.
#[derive(Debug)]
pub struct SentEvents {
    pub event_id: String,
    pub image_event_id: Option<String>,
}

/// The contents of [`SentEvents`].
pub struct SentView {
    pub event_id: Seq<char>,
    pub image_event_id: Option<Seq<char>>,
}

impl View for SentEvents {
    type V = SentView;

    open spec fn view(&self) -> SentView {
        SentView { event_id: self.event_id@, image_event_id: self.image_event_id.deep_view() }
    }
}

/// How far a delivery has come.
#[derive(Debug)]
enum Stage {
    FindingClient,
    FindingRoom,
    ReadingEncryption,
    LoadingRecord,
    SavingRecord,
    FetchingImage,
    SendingImage,
    SendingMessage { image_event_id: Option<String>, content: MessageContent },
    CompletingRecord { sent: SentEvents },
    AwaitingReceipt { sent: SentEvents },
    NotingFailure { sent: SentEvents },
    NotingVerification { sent: SentEvents, verified: bool },
    DiscardingKey { sent: SentEvents },
    Withdrawing { error: ApiError },
    Answered { answer: Result<SendMessageResponse, ApiError> },
}

/// How far a delivery has come: the action that it waits for.
pub enum StageView {
    /// The Matrix client is looked up.
    FindingClient,
    /// The room is looked up among those that the account has joined.
    FindingRoom,
    /// The encryption state of the room is read.
    ReadingEncryption,
    /// The record of an earlier request with the same key is looked up.
    LoadingRecord,
    /// A record is put down for the delivery in progress.
    SavingRecord,
    /// The image is downloaded, prepared and uploaded.
    FetchingImage,
    /// The image event is sent.
    SendingImage,
    /// The message event is sent.
    SendingMessage { image_event_id: Option<Seq<char>>, content: ContentView },
    /// The record is completed with the events that were sent.
    CompletingRecord { sent: SentView },
    /// The delivery monitor is given time to decrypt the message.
    AwaitingReceipt { sent: SentView },
    /// That the monitor did not decrypt the message is put down.
    NotingFailure { sent: SentView },
    /// Whether the monitor decrypted the message is added to the record.
    NotingVerification { sent: SentView, verified: bool },
    /// The outbound encryption session is given up.
    DiscardingKey { sent: SentView },
    /// The record is taken back before the error is answered.
    Withdrawing { error: ErrorView },
    /// The delivery is over.
    Answered { answer: Result<ResponseView, ErrorView> },
}

/// The contents of an answer.
pub open spec fn answer_view(
    answer: Result<SendMessageResponse, ApiError>,
) -> Result<ResponseView, ErrorView> {
    match answer {
        Ok(response) => Ok(response@),
        Err(error) => Err(error@),
    }
}

impl View for Stage {
    type V = StageView;

    closed spec fn view(&self) -> StageView {
        match self {
            Stage::FindingClient => StageView::FindingClient,
            Stage::FindingRoom => StageView::FindingRoom,
            Stage::ReadingEncryption => StageView::ReadingEncryption,
            Stage::LoadingRecord => StageView::LoadingRecord,
            Stage::SavingRecord => StageView::SavingRecord,
            Stage::FetchingImage => StageView::FetchingImage,
            Stage::SendingImage => StageView::SendingImage,
            Stage::SendingMessage { image_event_id, content } => StageView::SendingMessage {
                image_event_id: image_event_id.deep_view(),
                content: content@,
            },
            Stage::CompletingRecord { sent } => StageView::CompletingRecord { sent: sent@ },
            Stage::AwaitingReceipt { sent } => StageView::AwaitingReceipt { sent: sent@ },
            Stage::NotingFailure { sent } => StageView::NotingFailure { sent: sent@ },
            Stage::NotingVerification { sent, verified } => StageView::NotingVerification {
                sent: sent@,
                verified: *verified,
            },
            Stage::DiscardingKey { sent } => StageView::DiscardingKey { sent: sent@ },
            Stage::Withdrawing { error } => StageView::Withdrawing { error: error@ },
            Stage::Answered { answer } => StageView::Answered { answer: answer_view(*answer) },
        }
    }
}

/// What came of an action.
#[derive(Debug)]
pub enum DeliveryEvent {
    /// It was done. What was looked up was found.
    Done,
    /// It failed. What was looked up was not found.
    Failed,
    /// Whether the room is encrypted.
    Encryption(bool),
    /// The record under the key, if there is one.
    Record(Option<IdempotencyRecord>),
    /// The ID of the event that was sent.
    Sent(String),
}

/// The contents of a [`DeliveryEvent`].
pub enum EventView {
    Done,
    Failed,
    Encryption(bool),
    Record(Option<RecordView>),
    Sent(Seq<char>),
}

impl View for DeliveryEvent {
    type V = EventView;

    open spec fn view(&self) -> EventView {
        match self {
            DeliveryEvent::Done => EventView::Done,
            DeliveryEvent::Failed => EventView::Failed,
            DeliveryEvent::Encryption(encrypted) => EventView::Encryption(*encrypted),
            DeliveryEvent::Record(record) => EventView::Record(
                match record {
                    Some(record) => Some(record@),
                    None => None,
                },
            ),
            DeliveryEvent::Sent(event_id) => EventView::Sent(event_id@),
        }
    }
}

/// What is to be done next.
#[derive(Debug)]
pub enum DeliveryAction {
    FindClient,
    FindRoom { room_id: String },
    ReadEncryption { room_id: String },
    LoadRecord { key: String },
    SaveRecord { key: String, request_hash: String, room_id: String, encrypted: bool },
    FetchImage { url: String, alt: String },
    SendImage { transaction_id: String, encrypted: bool },
    SendMessage { transaction_id: String, encrypted: bool, body: String, html: Option<String> },
    CompleteRecord { key: String, event_id: String, image_event_id: Option<String> },
    AwaitReceipt { event_id: String },
    NoteFailure { event_id: String, room_id: String, attempt: i16 },
    NoteVerification { key: String, verified: bool },
    DiscardRoomKey { room_id: String },
    DeleteRecord { key: String },
    Respond,
}

/// The contents of a [`DeliveryAction`].
pub enum ActionView {
    /// Look up the Matrix client.
    FindClient,
    /// Look up a joined room.
    FindRoom { room_id: Seq<char> },
    /// Read the encryption state of the room.
    ReadEncryption { room_id: Seq<char> },
    /// Look up the record under a key.
    LoadRecord { key: Seq<char> },
    /// Put down a record in progress, unless there is one under the key.
    SaveRecord { key: Seq<char>, request_hash: Seq<char>, room_id: Seq<char>, encrypted: bool },
    /// Download, prepare and upload the image.
    FetchImage { url: Seq<char>, alt: Seq<char> },
    /// Send the image event.
    SendImage { transaction_id: Seq<char>, encrypted: bool },
    /// Send the message event.
    SendMessage { transaction_id: Seq<char>, encrypted: bool, content: ContentView },
    /// Complete the record under a key.
    CompleteRecord {
        key: Seq<char>,
        event_id: Seq<char>,
        image_event_id: Option<Seq<char>>,
    },
    /// Wait for the monitor to decrypt the event.
    AwaitReceipt { event_id: Seq<char> },
    /// Put down that the monitor did not decrypt the event.
    NoteFailure { event_id: Seq<char>, room_id: Seq<char>, attempt: i16 },
    /// Add to the record whether the monitor decrypted the event.
    NoteVerification { key: Seq<char>, verified: bool },
    /// Give up the outbound encryption session of the room.
    DiscardRoomKey { room_id: Seq<char> },
    /// Delete the record under a key, if it is in progress.
    DeleteRecord { key: Seq<char> },
    /// Answer the caller.
    Respond,
}

impl View for DeliveryAction {
    type V = ActionView;

    open spec fn view(&self) -> ActionView {
        match self {
            DeliveryAction::FindClient => ActionView::FindClient,
            DeliveryAction::FindRoom { room_id } => ActionView::FindRoom { room_id: room_id@ },
            DeliveryAction::ReadEncryption { room_id } => ActionView::ReadEncryption {
                room_id: room_id@,
            },
            DeliveryAction::LoadRecord { key } => ActionView::LoadRecord { key: key@ },
            DeliveryAction::SaveRecord { key, request_hash, room_id, encrypted } =>
                ActionView::SaveRecord {
                key: key@,
                request_hash: request_hash@,
                room_id: room_id@,
                encrypted: *encrypted,
            },
            DeliveryAction::FetchImage { url, alt } => ActionView::FetchImage {
                url: url@,
                alt: alt@,
            },
            DeliveryAction::SendImage { transaction_id, encrypted } => ActionView::SendImage {
                transaction_id: transaction_id@,
                encrypted: *encrypted,
            },
            DeliveryAction::SendMessage { transaction_id, encrypted, body, html } =>
                ActionView::SendMessage {
                transaction_id: transaction_id@,
                encrypted: *encrypted,
                content: ContentView { body: body@, formatted_body: html.deep_view() },
            },
            DeliveryAction::CompleteRecord { key, event_id, image_event_id } =>
                ActionView::CompleteRecord {
                key: key@,
                event_id: event_id@,
                image_event_id: image_event_id.deep_view(),
            },
            DeliveryAction::AwaitReceipt { event_id } => ActionView::AwaitReceipt {
                event_id: event_id@,
            },
            DeliveryAction::NoteFailure { event_id, room_id, attempt } => ActionView::NoteFailure {
                event_id: event_id@,
                room_id: room_id@,
                attempt: *attempt,
            },
            DeliveryAction::NoteVerification { key, verified } => ActionView::NoteVerification {
                key: key@,
                verified: *verified,
            },
            DeliveryAction::DiscardRoomKey { room_id } => ActionView::DiscardRoomKey {
                room_id: room_id@,
            },
            DeliveryAction::DeleteRecord { key } => ActionView::DeleteRecord { key: key@ },
            DeliveryAction::Respond => ActionView::Respond,
        }
    }
}

/// A delivery under way.
#[derive(Debug)]
pub struct Delivery {
    plan: DeliveryPlan,
    stage: Stage,
}

/// The contents of a [`Delivery`].
pub struct DeliveryView {
    pub plan: PlanView,
    pub stage: StageView,
}

impl View for Delivery {
    type V = DeliveryView;

    closed spec fn view(&self) -> DeliveryView {
        DeliveryView { plan: self.plan@, stage: self.stage@ }
    }
}

/// The error for a room that is not encrypted.
pub open spec fn room_not_encrypted() -> ErrorView {
    error::conflict(
        "ROOM_ENCRYPTION_REQUIRED"@,
        "The room is not configured for end-to-end encryption."@,
    )
}

/// The error for a request ID that was used for something else.
pub open spec fn idempotency_conflict() -> ErrorView {
    error::conflict(
        "IDEMPOTENCY_CONFLICT"@,
        "request_id was already used with different delivery content or options"@,
    )
}

/// The error for an image that could not be attached.
pub open spec fn image_refused() -> ErrorView {
    error::bad_request(
        "image_url must be a reachable HTTPS image hosted by an approved public CDN"@,
    )
}

/// The response that a completed record gives again.
pub open spec fn replay(record: RecordView, event_id: Seq<char>) -> ResponseView {
    ResponseView {
        event_id,
        image_event_id: record.image_event_id,
        room_id: record.room_id,
        encrypted: record.encrypted,
        monitor_verified: record.monitor_verified,
        idempotent_replay: true,
        excluded_device_count: 0,
    }
}

impl PlanView {
    /// Gives up with an error, once the record in progress has been taken back.
    pub open spec fn withdraw(self, error: ErrorView) -> StageView {
        if self.request_key is Some {
            StageView::Withdrawing { error }
        } else {
            StageView::Answered { answer: Err(error) }
        }
    }

    /// Goes on to the message, which the image event precedes if there is one.
    pub open spec fn send_message(self, image_event_id: Option<Seq<char>>) -> StageView {
        StageView::SendingMessage {
            image_event_id,
            content: content::formatted(self.message, self.format),
        }
    }

    /// Goes on to the events, once nothing stands in their way.
    pub open spec fn send_events(self) -> StageView {
        if self.image_url is Some {
            StageView::FetchingImage
        } else {
            self.send_message(None)
        }
    }

    /// Answers with the events that were sent.
    pub open spec fn accept(self, sent: SentView, monitor_verified: Option<bool>) -> StageView {
        StageView::Answered {
            answer: Ok(
                ResponseView {
                    event_id: sent.event_id,
                    image_event_id: sent.image_event_id,
                    room_id: self.room_id,
                    encrypted: self.encrypted,
                    monitor_verified,
                    idempotent_replay: false,
                    excluded_device_count: 0,
                },
            ),
        }
    }

    /// Goes on once the events are on record: an encrypted message is verified.
    pub open spec fn verify(self, sent: SentView) -> StageView {
        if self.encrypted {
            StageView::AwaitingReceipt { sent }
        } else {
            self.accept(sent, None)
        }
    }

    /// Goes on with the record that was found under the key.
    pub open spec fn resume(self, record: Option<RecordView>) -> StageView {
        match record {
            Some(record) => if record.request_hash != self.request_hash {
                StageView::Answered { answer: Err(idempotency_conflict()) }
            } else {
                match record.event_id {
                    Some(event_id) => StageView::Answered { answer: Ok(replay(record, event_id)) },
                    None => StageView::SavingRecord,
                }
            },
            None => StageView::SavingRecord,
        }
    }
}

impl DeliveryView {
    /// The stage asks for nothing that the plan does not have.
    pub open spec fn well_formed(self) -> bool {
        match self.stage {
            StageView::LoadingRecord
            | StageView::SavingRecord
            | StageView::CompletingRecord { .. }
            | StageView::NotingVerification { .. }
            | StageView::Withdrawing { .. } => self.plan.request_key is Some,
            StageView::FetchingImage => self.plan.image_url is Some,
            _ => true,
        }
    }

    /// `event` can come of the action that the delivery waits for.
    pub open spec fn expects(self, event: EventView) -> bool {
        match self.stage {
            StageView::ReadingEncryption => event is Encryption || event is Failed,
            StageView::LoadingRecord => event is Record || event is Failed,
            StageView::SendingImage | StageView::SendingMessage { .. } => event is Sent
                || event is Failed,
            StageView::Answered { .. } => false,
            _ => event is Done || event is Failed,
        }
    }

    /// The action that the delivery waits for.
    pub open spec fn action(self) -> ActionView {
        let plan = self.plan;
        match self.stage {
            StageView::FindingClient => ActionView::FindClient,
            StageView::FindingRoom => ActionView::FindRoom { room_id: plan.room_id },
            StageView::ReadingEncryption => ActionView::ReadEncryption { room_id: plan.room_id },
            StageView::LoadingRecord => ActionView::LoadRecord { key: plan.request_key->0 },
            StageView::SavingRecord => ActionView::SaveRecord {
                key: plan.request_key->0,
                request_hash: plan.request_hash,
                room_id: plan.room_id,
                encrypted: plan.encrypted,
            },
            StageView::FetchingImage => ActionView::FetchImage {
                url: plan.image_url->0,
                alt: plan.image_alt,
            },
            StageView::SendingImage => ActionView::SendImage {
                transaction_id: plan.image_transaction_id,
                encrypted: plan.encrypted,
            },
            StageView::SendingMessage { image_event_id, content } => ActionView::SendMessage {
                transaction_id: plan.message_transaction_id,
                encrypted: plan.encrypted,
                content,
            },
            StageView::CompletingRecord { sent } => ActionView::CompleteRecord {
                key: plan.request_key->0,
                event_id: sent.event_id,
                image_event_id: sent.image_event_id,
            },
            StageView::AwaitingReceipt { sent } => ActionView::AwaitReceipt {
                event_id: sent.event_id,
            },
            StageView::NotingFailure { sent } => ActionView::NoteFailure {
                event_id: sent.event_id,
                room_id: plan.room_id,
                attempt: 1,
            },
            StageView::NotingVerification { sent, verified } => ActionView::NoteVerification {
                key: plan.request_key->0,
                verified,
            },
            StageView::DiscardingKey { sent } => ActionView::DiscardRoomKey {
                room_id: plan.room_id,
            },
            StageView::Withdrawing { error } => ActionView::DeleteRecord {
                key: plan.request_key->0,
            },
            StageView::Answered { answer } => ActionView::Respond,
        }
    }

    /// The stage that follows when `event` has come of the action.
    pub open spec fn next_stage(self, event: EventView) -> StageView {
        let plan = self.plan;
        let failed = event is Failed;
        match self.stage {
            StageView::FindingClient => if failed {
                StageView::Answered {
                    answer: Err(error::service_unavailable("Matrix setup has not completed"@)),
                }
            } else {
                StageView::FindingRoom
            },
            StageView::FindingRoom => if failed {
                StageView::Answered {
                    answer: Err(
                        error::bad_request("The Matrix account has not joined this room"@),
                    ),
                }
            } else {
                StageView::ReadingEncryption
            },
            StageView::ReadingEncryption => if failed {
                StageView::Answered { answer: Err(error::internal()) }
            } else if plan.encrypted && event != EventView::Encryption(true) {
                StageView::Answered { answer: Err(room_not_encrypted()) }
            } else if plan.request_key is Some {
                StageView::LoadingRecord
            } else {
                plan.send_events()
            },
            StageView::LoadingRecord => if failed {
                StageView::Answered { answer: Err(error::internal()) }
            } else {
                plan.resume(event->Record_0)
            },
            StageView::SavingRecord => if failed {
                StageView::Answered { answer: Err(error::internal()) }
            } else {
                plan.send_events()
            },
            StageView::FetchingImage => if failed {
                plan.withdraw(image_refused())
            } else {
                StageView::SendingImage
            },
            StageView::SendingImage => if failed {
                plan.withdraw(error::internal())
            } else {
                plan.send_message(Some(event->Sent_0))
            },
            StageView::SendingMessage { image_event_id, content } => if failed {
                plan.withdraw(error::internal())
            } else {
                let sent = SentView { event_id: event->Sent_0, image_event_id };
                if plan.request_key is Some {
                    StageView::CompletingRecord { sent }
                } else {
                    plan.verify(sent)
                }
            },
            StageView::CompletingRecord { sent } => if failed {
                StageView::Answered { answer: Err(error::internal()) }
            } else {
                plan.verify(sent)
            },
            StageView::AwaitingReceipt { sent } => if failed {
                StageView::NotingFailure { sent }
            } else if plan.request_key is Some {
                StageView::NotingVerification { sent, verified: true }
            } else {
                plan.accept(sent, Some(true))
            },
            StageView::NotingFailure { sent } => if plan.request_key is Some {
                StageView::NotingVerification { sent, verified: false }
            } else {
                StageView::DiscardingKey { sent }
            },
            StageView::NotingVerification { sent, verified } => if verified {
                plan.accept(sent, Some(true))
            } else {
                StageView::DiscardingKey { sent }
            },
            StageView::DiscardingKey { sent } => plan.accept(sent, Some(false)),
            StageView::Withdrawing { error } => StageView::Answered { answer: Err(error) },
            StageView::Answered { answer } => self.stage,
        }
    }

    /// The delivery after `event` has come of the action.
    pub open spec fn next(self, event: EventView) -> DeliveryView {
        DeliveryView { plan: self.plan, stage: self.next_stage(event) }
    }
}

/// The text of an optional string, once more.
fn copy_text(s: &Option<String>) -> (t: Option<String>)
    ensures
        t.deep_view() == s.deep_view(),
{
    match s {
        Some(s) => Some(s.clone()),
        None => None,
    }
}

fn refuse(error: ApiError) -> (stage: Stage)
    ensures
        stage@ == (StageView::Answered { answer: Err(error@) }),
{
    Stage::Answered { answer: Err(error) }
}

impl DeliveryPlan {
    fn withdraw(&self, error: ApiError) -> (stage: Stage)
        ensures
            stage@ == self@.withdraw(error@),
    {
        if self.request_key.is_some() {
            Stage::Withdrawing { error }
        } else {
            refuse(error)
        }
    }

    fn send_message(&self, image_event_id: Option<String>) -> (stage: Stage)
        ensures
            stage@ == self@.send_message(image_event_id.deep_view()),
    {
        let content = format_content(self.message.as_str(), self.format);
        Stage::SendingMessage { image_event_id, content }
    }

    fn send_events(&self) -> (stage: Stage)
        ensures
            stage@ == self@.send_events(),
    {
        if self.image_url.is_some() {
            Stage::FetchingImage
        } else {
            self.send_message(None)
        }
    }

    fn accept(&self, sent: SentEvents, monitor_verified: Option<bool>) -> (stage: Stage)
        ensures
            stage@ == self@.accept(sent@, monitor_verified),
    {
        Stage::Answered {
            answer: Ok(
                SendMessageResponse {
                    event_id: sent.event_id,
                    image_event_id: sent.image_event_id,
                    room_id: self.room_id.clone(),
                    encrypted: self.encrypted,
                    monitor_verified,
                    idempotent_replay: false,
                    excluded_device_count: 0,
                },
            ),
        }
    }

    fn verify(&self, sent: SentEvents) -> (stage: Stage)
        ensures
            stage@ == self@.verify(sent@),
    {
        if self.encrypted {
            Stage::AwaitingReceipt { sent }
        } else {
            self.accept(sent, None)
        }
    }

    fn resume(&self, record: Option<IdempotencyRecord>) -> (stage: Stage)
        ensures
            stage@ == self@.resume(DeliveryEvent::Record(record)@->Record_0),
    {
        let Some(record) = record else {
            return Stage::SavingRecord;
        };
        if !same_text(record.request_hash.as_str(), self.request_hash.as_str()) {
            return refuse(
                ApiError::conflict(
                    "IDEMPOTENCY_CONFLICT",
                    "request_id was already used with different delivery content or options",
                ),
            );
        }
        match record.event_id {
            Some(event_id) => Stage::Answered {
                answer: Ok(
                    SendMessageResponse {
                        event_id,
                        image_event_id: record.image_event_id,
                        room_id: record.room_id,
                        encrypted: record.encrypted,
                        monitor_verified: record.monitor_verified,
                        idempotent_replay: true,
                        excluded_device_count: 0,
                    },
                ),
            },
            None => Stage::SavingRecord,
        }
    }
}

impl Delivery {
    #[verifier::type_invariant]
    spec fn is_well_formed(self) -> bool {
        self@.well_formed()
    }

    /// Starts the delivery of a request, unless there is something wrong with it.
    pub fn begin(
        request: SendMessageRequest,
        default_room_id: &str,
    ) -> (outcome: Result<Delivery, ApiError>)
        ensures
            match outcome {
                Ok(delivery) => {
                    &&& request@.refusal(default_room_id@) is None
                    &&& delivery@.plan.is_for(request@, default_room_id@)
                    &&& delivery@.plan.has_digests()
                    &&& delivery@.stage == StageView::FindingClient
                },
                Err(error) => request@.refusal(default_room_id@) == Some(error@),
            },
    {
        match DeliveryPlan::from_request(request, default_room_id) {
            Ok(plan) => Ok(Delivery { plan, stage: Stage::FindingClient }),
            Err(error) => Err(error),
        }
    }

    /// What is to be done next.
    pub fn action(&self) -> (action: DeliveryAction)
        ensures
            action@ == self@.action(),
    {
        proof {
            use_type_invariant(self);
        }
        let plan = &self.plan;
        let key: String = match &plan.request_key {
            Some(key) => key.clone(),
            None => String::new(),
        };
        match &self.stage {
            Stage::FindingClient => DeliveryAction::FindClient,
            Stage::FindingRoom => DeliveryAction::FindRoom { room_id: plan.room_id.clone() },
            Stage::ReadingEncryption => DeliveryAction::ReadEncryption {
                room_id: plan.room_id.clone(),
            },
            Stage::LoadingRecord => DeliveryAction::LoadRecord { key },
            Stage::SavingRecord => DeliveryAction::SaveRecord {
                key,
                request_hash: plan.request_hash.clone(),
                room_id: plan.room_id.clone(),
                encrypted: plan.encrypted,
            },
            Stage::FetchingImage => DeliveryAction::FetchImage {
                url: match &plan.image_url {
                    Some(url) => url.clone(),
                    None => String::new(),
                },
                alt: plan.image_alt.clone(),
            },
            Stage::SendingImage => DeliveryAction::SendImage {
                transaction_id: plan.image_transaction_id.clone(),
                encrypted: plan.encrypted,
            },
            Stage::SendingMessage { image_event_id: _, content } => DeliveryAction::SendMessage {
                transaction_id: plan.message_transaction_id.clone(),
                encrypted: plan.encrypted,
                body: content.body.clone(),
                html: copy_text(&content.formatted_body),
            },
            Stage::CompletingRecord { sent } => DeliveryAction::CompleteRecord {
                key,
                event_id: sent.event_id.clone(),
                image_event_id: copy_text(&sent.image_event_id),
            },
            Stage::AwaitingReceipt { sent } => DeliveryAction::AwaitReceipt {
                event_id: sent.event_id.clone(),
            },
            Stage::NotingFailure { sent } => DeliveryAction::NoteFailure {
                event_id: sent.event_id.clone(),
                room_id: plan.room_id.clone(),
                attempt: 1,
            },
            Stage::NotingVerification { sent: _, verified } => DeliveryAction::NoteVerification {
                key,
                verified: *verified,
            },
            Stage::DiscardingKey { sent: _ } => DeliveryAction::DiscardRoomKey {
                room_id: plan.room_id.clone(),
            },
            Stage::Withdrawing { error: _ } => DeliveryAction::DeleteRecord { key },
            Stage::Answered { answer: _ } => DeliveryAction::Respond,
        }
    }

    /// Whether `event` can come of the action that the delivery waits for.
    pub fn accepts(&self, event: &DeliveryEvent) -> (accepted: bool)
        ensures
            accepted == self@.expects(event@),
    {
        match &self.stage {
            Stage::ReadingEncryption => matches!(
                event,
                DeliveryEvent::Encryption(_) | DeliveryEvent::Failed
            ),
            Stage::LoadingRecord => matches!(event, DeliveryEvent::Record(_) | DeliveryEvent::Failed),
            Stage::SendingImage | Stage::SendingMessage { .. } => matches!(
                event,
                DeliveryEvent::Sent(_) | DeliveryEvent::Failed
            ),
            Stage::Answered { .. } => false,
            _ => matches!(event, DeliveryEvent::Done | DeliveryEvent::Failed),
        }
    }

    /// Goes on with what came of the action.
    pub fn step(self, event: DeliveryEvent) -> (next: Delivery)
        requires
            self@.expects(event@),
        ensures
            next@ == self@.next(event@),
    {
        proof {
            use_type_invariant(&self);
        }
        let Delivery { plan, stage } = self;
        let failed = matches!(event, DeliveryEvent::Failed);
        let stage = match stage {
            Stage::FindingClient => if failed {
                refuse(ApiError::service_unavailable("Matrix setup has not completed"))
            } else {
                Stage::FindingRoom
            },
            Stage::FindingRoom => if failed {
                refuse(ApiError::bad_request("The Matrix account has not joined this room"))
            } else {
                Stage::ReadingEncryption
            },
            Stage::ReadingEncryption => match event {
                DeliveryEvent::Encryption(room_is_encrypted) => if plan.encrypted
                    && !room_is_encrypted {
                    refuse(
                        ApiError::conflict(
                            "ROOM_ENCRYPTION_REQUIRED",
                            "The room is not configured for end-to-end encryption.",
                        ),
                    )
                } else if plan.request_key.is_some() {
                    Stage::LoadingRecord
                } else {
                    plan.send_events()
                },
                _ => refuse(ApiError::internal()),
            },
            Stage::LoadingRecord => match event {
                DeliveryEvent::Record(record) => plan.resume(record),
                _ => refuse(ApiError::internal()),
            },
            Stage::SavingRecord => if failed {
                refuse(ApiError::internal())
            } else {
                plan.send_events()
            },
            Stage::FetchingImage => if failed {
                plan.withdraw(
                    ApiError::bad_request(
                        "image_url must be a reachable HTTPS image hosted by an approved public CDN",
                    ),
                )
            } else {
                Stage::SendingImage
            },
            Stage::SendingImage => match event {
                DeliveryEvent::Sent(event_id) => plan.send_message(Some(event_id)),
                _ => plan.withdraw(ApiError::internal()),
            },
            Stage::SendingMessage { image_event_id, content: _ } => match event {
                DeliveryEvent::Sent(event_id) => {
                    let sent = SentEvents { event_id, image_event_id };
                    if plan.request_key.is_some() {
                        Stage::CompletingRecord { sent }
                    } else {
                        plan.verify(sent)
                    }
                },
                _ => plan.withdraw(ApiError::internal()),
            },
            Stage::CompletingRecord { sent } => if failed {
                refuse(ApiError::internal())
            } else {
                plan.verify(sent)
            },
            Stage::AwaitingReceipt { sent } => if failed {
                Stage::NotingFailure { sent }
            } else if plan.request_key.is_some() {
                Stage::NotingVerification { sent, verified: true }
            } else {
                plan.accept(sent, Some(true))
            },
            Stage::NotingFailure { sent } => if plan.request_key.is_some() {
                Stage::NotingVerification { sent, verified: false }
            } else {
                Stage::DiscardingKey { sent }
            },
            Stage::NotingVerification { sent, verified } => if verified {
                plan.accept(sent, Some(true))
            } else {
                Stage::DiscardingKey { sent }
            },
            Stage::DiscardingKey { sent } => plan.accept(sent, Some(false)),
            Stage::Withdrawing { error } => refuse(error),
            Stage::Answered { answer } => Stage::Answered { answer },
        };
        Delivery { plan, stage }
    }

    /// The answer to the caller, once the delivery is over.
    pub fn into_answer(self) -> (answer: Option<Result<SendMessageResponse, ApiError>>)
        ensures
            match answer {
                Some(answer) => self@.stage == (StageView::Answered { answer: answer_view(answer) }),
                None => !(self@.stage is Answered),
            },
    {
        match self.stage {
            Stage::Answered { answer } => Some(answer),
            _ => None,
        }
    }
}

} // verus!
