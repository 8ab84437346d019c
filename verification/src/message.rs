//! The delivery request and response, and the message formats.

use vstd::prelude::*;

verus! {

/// How the text of a message is marked up.
#[derive(Clone, Copy, Debug, PartialEq, Eq, Structural)]
pub enum MessageFormat {
    Text,
    Markdown,
    Html,
}

impl MessageFormat {
    /// The name that callers use for the format.
    pub open spec fn name(self) -> Seq<char> {
        match self {
            MessageFormat::Text => "text"@,
            MessageFormat::Markdown => "markdown"@,
            MessageFormat::Html => "html"@,
        }
    }

    pub fn as_str(self) -> (name: &'static str)
        ensures
            name@ == self.name(),
    {
        match self {
            MessageFormat::Text => "text",
            MessageFormat::Markdown => "markdown",
            MessageFormat::Html => "html",
        }
    }
}

/// A request to post one message to a Matrix room.
#[derive(Debug)]
pub struct SendMessageRequest {
    pub message: String,
    pub room_id: Option<String>,
    pub format: Option<MessageFormat>,
    pub encrypted: Option<bool>,
    pub request_id: Option<String>,
    pub image_url: Option<String>,
    pub image_alt: Option<String>,
}

/// The contents of a [`SendMessageRequest`].
pub struct RequestView {
    pub message: Seq<char>,
    pub room_id: Option<Seq<char>>,
    pub format: Option<MessageFormat>,
    pub encrypted: Option<bool>,
    pub request_id: Option<Seq<char>>,
    pub image_url: Option<Seq<char>>,
    pub image_alt: Option<Seq<char>>,
}

impl View for SendMessageRequest {
    type V = RequestView;

    open spec fn view(&self) -> RequestView {
        RequestView {
            message: self.message@,
            room_id: self.room_id.deep_view(),
            format: self.format,
            encrypted: self.encrypted,
            request_id: self.request_id.deep_view(),
            image_url: self.image_url.deep_view(),
            image_alt: self.image_alt.deep_view(),
        }
    }
}

/// The answer to an accepted delivery.
#[derive(Debug)]
pub struct SendMessageResponse {
    pub event_id: String,
    pub image_event_id: Option<String>,
    pub room_id: String,
    pub encrypted: bool,
    pub monitor_verified: Option<bool>,
    pub idempotent_replay: bool,
    pub excluded_device_count: u32,
}

/// The contents of a [`SendMessageResponse`].
pub struct ResponseView {
    pub event_id: Seq<char>,
    pub image_event_id: Option<Seq<char>>,
    pub room_id: Seq<char>,
    pub encrypted: bool,
    pub monitor_verified: Option<bool>,
    pub idempotent_replay: bool,
    pub excluded_device_count: u32,
}

impl View for SendMessageResponse {
    type V = ResponseView;

    open spec fn view(&self) -> ResponseView {
        ResponseView {
            event_id: self.event_id@,
            image_event_id: self.image_event_id.deep_view(),
            room_id: self.room_id@,
            encrypted: self.encrypted,
            monitor_verified: self.monitor_verified,
            idempotent_replay: self.idempotent_replay,
            excluded_device_count: self.excluded_device_count,
        }
    }
}

/// The value of a member of a JSON object.
#[derive(Debug)]
pub enum FieldValue {
    Text(String),
    Flag(bool),
    Count(u32),
}

/// The contents of a [`FieldValue`].
pub enum FieldValueView {
    Text(Seq<char>),
    Flag(bool),
    Count(u32),
}

impl View for FieldValue {
    type V = FieldValueView;

    open spec fn view(&self) -> FieldValueView {
        match self {
            FieldValue::Text(text) => FieldValueView::Text(text@),
            FieldValue::Flag(flag) => FieldValueView::Flag(*flag),
            FieldValue::Count(count) => FieldValueView::Count(*count),
        }
    }
}

/// A member of a JSON object.
#[derive(Debug)]
pub struct Field {
    pub name: &'static str,
    pub value: FieldValue,
}

impl View for Field {
    type V = (Seq<char>, FieldValueView);

    open spec fn view(&self) -> (Seq<char>, FieldValueView) {
        (self.name@, self.value@)
    }
}

/// The contents of several members, in their order.
pub open spec fn field_views(fields: Seq<Field>) -> Seq<(Seq<char>, FieldValueView)> {
    fields.map_values(|field: Field| field@)
}

impl ResponseView {
    /// The members of the JSON object that a caller receives. `image_event_id`
    /// and `monitor_verified` are absent where the response has none.
    pub open spec fn fields(self) -> Seq<(Seq<char>, FieldValueView)> {
        seq![("event_id"@, FieldValueView::Text(self.event_id))] + (match self.image_event_id {
            Some(id) => seq![("image_event_id"@, FieldValueView::Text(id))],
            None => seq![],
        }) + seq![
            ("room_id"@, FieldValueView::Text(self.room_id)),
            ("encrypted"@, FieldValueView::Flag(self.encrypted)),
        ] + (match self.monitor_verified {
            Some(verified) => seq![("monitor_verified"@, FieldValueView::Flag(verified))],
            None => seq![],
        }) + seq![
            ("idempotent_replay"@, FieldValueView::Flag(self.idempotent_replay)),
            ("excluded_device_count"@, FieldValueView::Count(self.excluded_device_count)),
        ]
    }
}

/// Adds a member to those of a JSON object.
pub(crate) fn push_field(fields: &mut Vec<Field>, name: &'static str, value: FieldValue)
    ensures
        field_views(final(fields)@) == field_views(old(fields)@).push((name@, value@)),
{
    fields.push(Field { name, value });
    assert(field_views(fields@) =~= field_views(old(fields)@).push((name@, value@)));
}

impl SendMessageResponse {
    /// The members of the JSON object that the caller receives.
    pub fn fields(&self) -> (fields: Vec<Field>)
        ensures
            field_views(fields@) == self@.fields(),
    {
        let mut fields: Vec<Field> = Vec::new();
        push_field(&mut fields, "event_id", FieldValue::Text(self.event_id.clone()));
        if let Some(id) = &self.image_event_id {
            push_field(&mut fields, "image_event_id", FieldValue::Text(id.clone()));
        }
        push_field(&mut fields, "room_id", FieldValue::Text(self.room_id.clone()));
        push_field(&mut fields, "encrypted", FieldValue::Flag(self.encrypted));
        if let Some(verified) = self.monitor_verified {
            push_field(&mut fields, "monitor_verified", FieldValue::Flag(verified));
        }
        push_field(&mut fields, "idempotent_replay", FieldValue::Flag(self.idempotent_replay));
        push_field(
            &mut fields,
            "excluded_device_count",
            FieldValue::Count(self.excluded_device_count),
        );
        assert(field_views(fields@) =~= self@.fields());
        fields
    }
}

} // verus!
