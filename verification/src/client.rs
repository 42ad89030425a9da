//! The wire types of the client: the envelope that every inbound frame must
//! decode to, and the reply that acknowledges it.

use crate::json::{
    array_items, bool_field, bool_member, is_plain, json_array, json_object,
    lemma_plain_text_is_copied, lookup, member, object_members, optional_string_field,
    optional_string_member, quote, quoted, string_field, string_member, Members,
};
use vstd::prelude::*;
use vstd::string::StringExecFns;

verus! {

/// An optional value seen through its view.
pub open spec fn viewed<T: View>(o: Option<T>) -> Option<T::V> {
    match o {
        Some(t) => Some(t@),
        None => None,
    }
}

/// Slack Event - Message contents
#[derive(Debug)]
pub struct Event {
    pub event_type: String,
    pub user: String,
    pub text: String,
    pub channel: String,
}

/// What an `Event` holds.
pub struct EventView {
    pub event_type: Seq<char>,
    pub user: Seq<char>,
    pub text: Seq<char>,
    pub channel: Seq<char>,
}

impl View for Event {
    type V = EventView;

    open spec fn view(&self) -> EventView {
        EventView {
            event_type: self.event_type@,
            user: self.user@,
            text: self.text@,
            channel: self.channel@,
        }
    }
}

/// Slack Message Payload
#[derive(Debug)]
pub struct SlackPayload {
    pub event: Event,
    event_id: String,
}

/// What a `SlackPayload` holds.
pub struct PayloadView {
    pub event: EventView,
    pub event_id: Seq<char>,
}

impl View for SlackPayload {
    type V = PayloadView;

    closed spec fn view(&self) -> PayloadView {
        PayloadView { event: self.event@, event_id: self.event_id@ }
    }
}

/// Parse WebSocket Slack Message Envelope
#[derive(Debug)]
pub struct SlackEnvelope {
    envelope_id: String,
    message_type: String,
    pub payload: SlackPayload,
}

/// What a `SlackEnvelope` holds.
pub struct EnvelopeView {
    pub envelope_id: Seq<char>,
    pub message_type: Seq<char>,
    pub payload: PayloadView,
}

impl View for SlackEnvelope {
    type V = EnvelopeView;

    closed spec fn view(&self) -> EnvelopeView {
        EnvelopeView {
            envelope_id: self.envelope_id@,
            message_type: self.message_type@,
            payload: self.payload@,
        }
    }
}

/// The event that an object of these members is: `type`, `user`, `text` and
/// `channel` must all be strings. Other members are passed over.
pub open spec fn event_of(m: Members) -> Option<EventView> {
    let event_type = string_member(m, "type"@);
    let user = string_member(m, "user"@);
    let body = string_member(m, "text"@);
    let channel = string_member(m, "channel"@);
    if event_type is Some && user is Some && body is Some && channel is Some {
        Some(
            EventView {
                event_type: event_type->0,
                user: user->0,
                text: body->0,
                channel: channel->0,
            },
        )
    } else {
        None
    }
}

/// The event that `text` encodes, where it encodes one.
pub open spec fn decode_event(text: Seq<char>) -> Option<EventView> {
    match json_object(text) {
        Some(m) => event_of(m),
        None => None,
    }
}

/// The payload that an object of these members is: `event` must be an event
/// and `event_id` a string.
pub open spec fn payload_of(m: Members) -> Option<PayloadView> {
    let event = match member(m, "event"@) {
        Some(inner) => decode_event(inner),
        None => None,
    };
    let event_id = string_member(m, "event_id"@);
    if event is Some && event_id is Some {
        Some(PayloadView { event: event->0, event_id: event_id->0 })
    } else {
        None
    }
}

/// The payload that `text` encodes, where it encodes one.
pub open spec fn decode_payload(text: Seq<char>) -> Option<PayloadView> {
    match json_object(text) {
        Some(m) => payload_of(m),
        None => None,
    }
}

/// The envelope that an object of these members is: `envelope_id` and `type`
/// must be strings and `payload` a payload.
pub open spec fn envelope_of(m: Members) -> Option<EnvelopeView> {
    let envelope_id = string_member(m, "envelope_id"@);
    let message_type = string_member(m, "type"@);
    let payload = match member(m, "payload"@) {
        Some(inner) => decode_payload(inner),
        None => None,
    };
    if envelope_id is Some && message_type is Some && payload is Some {
        Some(
            EnvelopeView {
                envelope_id: envelope_id->0,
                message_type: message_type->0,
                payload: payload->0,
            },
        )
    } else {
        None
    }
}

/// The envelope that the frame `text` encodes: a JSON object whose members
/// make an envelope. `None` for every other text: such a frame is no
/// envelope.
pub open spec fn decode_envelope(text: Seq<char>) -> Option<EnvelopeView> {
    match json_object(text) {
        Some(m) => envelope_of(m),
        None => None,
    }
}

/// The acknowledgment of the envelope with this id: an object that holds the
/// id, copied, and an empty payload.
pub open spec fn ack_text(envelope_id: Seq<char>) -> Seq<char> {
    "{\"envelope_id\":"@ + quoted(envelope_id) + ",\"payload\":{}}"@
}

/// A frame that is no JSON object, or lacks the id, the type or the payload
/// of an envelope, or holds something other than a string for the id or the
/// type, is no envelope.
pub proof fn lemma_not_an_envelope(text: Seq<char>)
    requires
        json_object(text) matches Some(m) ==> {
            ||| string_member(m, "envelope_id"@) is None
            ||| string_member(m, "type"@) is None
            ||| member(m, "payload"@) is None
            ||| decode_payload(member(m, "payload"@)->0) is None
        },
    ensures
        decode_envelope(text) is None,
{
}

/// The acknowledgment of an id without quotation marks, backslashes and
/// control characters holds the id as it is.
pub proof fn lemma_ack_copies_plain_id(envelope_id: Seq<char>)
    requires
        forall|i: int| 0 <= i < envelope_id.len() ==> is_plain(envelope_id[i]),
    ensures
        ack_text(envelope_id) == "{\"envelope_id\":\""@ + envelope_id + "\",\"payload\":{}}"@,
{
    lemma_plain_text_is_copied(envelope_id);
    reveal_strlit("{\"envelope_id\":");
    reveal_strlit("{\"envelope_id\":\"");
    reveal_strlit(",\"payload\":{}}");
    reveal_strlit("\",\"payload\":{}}");
    assert(ack_text(envelope_id) =~= "{\"envelope_id\":\""@ + envelope_id + "\",\"payload\":{}}"@);
}

impl Event {
    /// Makes an event of the members of an object.
    pub fn from_members(members: &Vec<(String, String)>) -> (r: Option<Event>)
        ensures
            viewed(r) == event_of(members.deep_view()),
    {
        let event_type = string_field(members, "type");
        let user = string_field(members, "user");
        let body = string_field(members, "text");
        let channel = string_field(members, "channel");
        match (event_type, user, body, channel) {
            (Some(event_type), Some(user), Some(text), Some(channel)) => Some(
                Event { event_type, user, text, channel },
            ),
            _ => None,
        }
    }

    /// Decodes an event from the text of a JSON object.
    pub fn parse(text: &str) -> (r: Option<Event>)
        ensures
            viewed(r) == decode_event(text@),
    {
        match object_members(text) {
            Some(members) => Event::from_members(&members),
            None => None,
        }
    }
}

impl SlackPayload {
    /// A payload of these parts.
    pub fn new(event: Event, event_id: String) -> (r: SlackPayload)
        ensures
            r@ == (PayloadView { event: event@, event_id: event_id@ }),
    {
        SlackPayload { event, event_id }
    }

    /// Identifies the business event, however often it is delivered.
    pub fn event_id(&self) -> (r: &str)
        ensures
            r@ == self@.event_id,
    {
        self.event_id.as_str()
    }

    /// The event carried.
    pub fn event(&self) -> (r: &Event)
        ensures
            r@ == self@.event,
    {
        &self.event
    }

    /// Makes a payload of the members of an object.
    pub fn from_members(members: &Vec<(String, String)>) -> (r: Option<SlackPayload>)
        ensures
            viewed(r) == payload_of(members.deep_view()),
    {
        let event = match lookup(members, "event") {
            Some(inner) => Event::parse(inner.as_str()),
            None => None,
        };
        let event_id = string_field(members, "event_id");
        match (event, event_id) {
            (Some(event), Some(event_id)) => Some(SlackPayload { event, event_id }),
            _ => None,
        }
    }

    /// Decodes a payload from the text of a JSON object.
    pub fn parse(text: &str) -> (r: Option<SlackPayload>)
        ensures
            viewed(r) == decode_payload(text@),
    {
        match object_members(text) {
            Some(members) => SlackPayload::from_members(&members),
            None => None,
        }
    }
}

impl SlackEnvelope {
    /// An envelope of these parts.
    pub fn new(envelope_id: String, message_type: String, payload: SlackPayload) -> (r:
        SlackEnvelope)
        ensures
            r@ == (EnvelopeView {
                envelope_id: envelope_id@,
                message_type: message_type@,
                payload: payload@,
            }),
    {
        SlackEnvelope { envelope_id, message_type, payload }
    }

    /// The id by which the envelope is acknowledged.
    pub fn envelope_id(&self) -> (r: &str)
        ensures
            r@ == self@.envelope_id,
    {
        self.envelope_id.as_str()
    }

    /// The kind of the outer frame.
    pub fn message_type(&self) -> (r: &str)
        ensures
            r@ == self@.message_type,
    {
        self.message_type.as_str()
    }

    /// The payload carried.
    pub fn payload(&self) -> (r: &SlackPayload)
        ensures
            r@ == self@.payload,
    {
        &self.payload
    }

    /// Decodes one inbound text frame. A frame that is no JSON object, or
    /// lacks a member of the envelope, or holds one of another type, gives
    /// `None`.
    pub fn parse(text: &str) -> (r: Option<SlackEnvelope>)
        ensures
            viewed(r) == decode_envelope(text@),
    {
        match object_members(text) {
            Some(members) => SlackEnvelope::from_members(&members),
            None => None,
        }
    }

    /// Makes an envelope of the members of an object.
    pub fn from_members(members: &Vec<(String, String)>) -> (r: Option<SlackEnvelope>)
        ensures
            viewed(r) == envelope_of(members.deep_view()),
    {
        let envelope_id = string_field(members, "envelope_id");
        let message_type = string_field(members, "type");
        let payload = match lookup(members, "payload") {
            Some(inner) => SlackPayload::parse(inner.as_str()),
            None => None,
        };
        match (envelope_id, message_type, payload) {
            (Some(envelope_id), Some(message_type), Some(payload)) => Some(
                SlackEnvelope { envelope_id, message_type, payload },
            ),
            _ => None,
        }
    }

    /// The text of the frame that acknowledges this envelope.
    pub fn acknowledgment(&self) -> (r: String)
        ensures
            r@ == ack_text(self@.envelope_id),
    {
        let id = quote(self.envelope_id.as_str());
        let head = String::from_str("{\"envelope_id\":");
        head.concat(id.as_str()).concat(",\"payload\":{}}")
    }
}

/// Slack User information
#[derive(Debug)]
pub struct Member {
    pub deleted: bool,
    pub user_id: String,
    pub name: String,
    pub real_name: Option<String>,
}

/// What a `Member` holds.
pub struct MemberView {
    pub deleted: bool,
    pub user_id: Seq<char>,
    pub name: Seq<char>,
    pub real_name: Option<Seq<char>>,
}

impl View for Member {
    type V = MemberView;

    open spec fn view(&self) -> MemberView {
        MemberView {
            deleted: self.deleted,
            user_id: self.user_id@,
            name: self.name@,
            real_name: self.real_name.deep_view(),
        }
    }
}

/// Slack Channel information
#[derive(Debug)]
pub struct Channel {
    pub channel_id: String,
    pub name: String,
    pub is_private: bool,
}

/// What a `Channel` holds.
pub struct ChannelView {
    pub channel_id: Seq<char>,
    pub name: Seq<char>,
    pub is_private: bool,
}

impl View for Channel {
    type V = ChannelView;

    open spec fn view(&self) -> ChannelView {
        ChannelView { channel_id: self.channel_id@, name: self.name@, is_private: self.is_private }
    }
}

/// The member that an object of these members is: `deleted` must be a truth
/// value, `id` and `name` strings, and `real_name` a string where it is
/// there and not `null`.
pub open spec fn member_of(m: Members) -> Option<MemberView> {
    let deleted = bool_member(m, "deleted"@);
    let user_id = string_member(m, "id"@);
    let name = string_member(m, "name"@);
    let real_name = optional_string_member(m, "real_name"@);
    if deleted is Some && user_id is Some && name is Some && real_name is Some {
        Some(
            MemberView {
                deleted: deleted->0,
                user_id: user_id->0,
                name: name->0,
                real_name: real_name->0,
            },
        )
    } else {
        None
    }
}

/// The member that `text` encodes, where it encodes one.
pub open spec fn decode_member(text: Seq<char>) -> Option<MemberView> {
    match json_object(text) {
        Some(m) => member_of(m),
        None => None,
    }
}

/// The channel that an object of these members is: `id` and `name` must be
/// strings and `is_private` a truth value.
pub open spec fn channel_of(m: Members) -> Option<ChannelView> {
    let channel_id = string_member(m, "id"@);
    let name = string_member(m, "name"@);
    let is_private = bool_member(m, "is_private"@);
    if channel_id is Some && name is Some && is_private is Some {
        Some(
            ChannelView { channel_id: channel_id->0, name: name->0, is_private: is_private->0 },
        )
    } else {
        None
    }
}

/// The channel that `text` encodes, where it encodes one.
pub open spec fn decode_channel(text: Seq<char>) -> Option<ChannelView> {
    match json_object(text) {
        Some(m) => channel_of(m),
        None => None,
    }
}

/// The members that `items` encode, in their order; `None` where one of
/// them encodes no member.
pub open spec fn decode_members(items: Seq<Seq<char>>) -> Option<Seq<MemberView>> {
    if forall|i: int| 0 <= i < items.len() ==> (#[trigger] decode_member(items[i])) is Some {
        Some(Seq::new(items.len(), |i: int| decode_member(items[i])->0))
    } else {
        None
    }
}

/// The channels that `items` encode, in their order; `None` where one of
/// them encodes no channel.
pub open spec fn decode_channels(items: Seq<Seq<char>>) -> Option<Seq<ChannelView>> {
    if forall|i: int| 0 <= i < items.len() ==> (#[trigger] decode_channel(items[i])) is Some {
        Some(Seq::new(items.len(), |i: int| decode_channel(items[i])->0))
    } else {
        None
    }
}

/// The texts of the elements of the array that the object `text` holds
/// under `key`.
pub open spec fn listed(text: Seq<char>, key: Seq<char>) -> Option<Seq<Seq<char>>> {
    match json_object(text) {
        Some(m) => match member(m, key) {
            Some(inner) => json_array(inner),
            None => None,
        },
        None => None,
    }
}

/// The members that a user list encodes: an object whose member `members`
/// is an array of members.
pub open spec fn decode_user_list(text: Seq<char>) -> Option<Seq<MemberView>> {
    match listed(text, "members"@) {
        Some(items) => decode_members(items),
        None => None,
    }
}

/// The channels that a channel list encodes: an object whose member
/// `channels` is an array of channels.
pub open spec fn decode_channel_list(text: Seq<char>) -> Option<Seq<ChannelView>> {
    match listed(text, "channels"@) {
        Some(items) => decode_channels(items),
        None => None,
    }
}

/// A list seen through the views of its items.
pub open spec fn views<T: View>(items: Seq<T>) -> Seq<T::V> {
    items.map_values(|t: T| t@)
}

/// A list that may be missing, seen through the views of its items.
pub open spec fn viewed_list<T: View>(o: Option<Vec<T>>) -> Option<Seq<T::V>> {
    match o {
        Some(v) => Some(views(v@)),
        None => None,
    }
}

/// Finds the array that the object `text` holds under `key` and hands out
/// the texts of its elements.
fn list_items(text: &str, key: &str) -> (r: Option<Vec<String>>)
    ensures
        r.deep_view() == listed(text@, key@),
{
    match object_members(text) {
        Some(members) => match lookup(&members, key) {
            Some(inner) => array_items(inner.as_str()),
            None => None,
        },
        None => None,
    }
}

impl Member {
    /// Makes a member of the members of an object.
    pub fn from_members(members: &Vec<(String, String)>) -> (r: Option<Member>)
        ensures
            viewed(r) == member_of(members.deep_view()),
    {
        let deleted = bool_field(members, "deleted");
        let user_id = string_field(members, "id");
        let name = string_field(members, "name");
        let real_name = optional_string_field(members, "real_name");
        match (deleted, user_id, name, real_name) {
            (Some(deleted), Some(user_id), Some(name), Some(real_name)) => Some(
                Member { deleted, user_id, name, real_name },
            ),
            _ => None,
        }
    }

    /// Decodes a member from the text of a JSON object.
    pub fn parse(text: &str) -> (r: Option<Member>)
        ensures
            viewed(r) == decode_member(text@),
    {
        match object_members(text) {
            Some(members) => Member::from_members(&members),
            None => None,
        }
    }
}

impl Channel {
    /// Makes a channel of the members of an object.
    pub fn from_members(members: &Vec<(String, String)>) -> (r: Option<Channel>)
        ensures
            viewed(r) == channel_of(members.deep_view()),
    {
        let channel_id = string_field(members, "id");
        let name = string_field(members, "name");
        let is_private = bool_field(members, "is_private");
        match (channel_id, name, is_private) {
            (Some(channel_id), Some(name), Some(is_private)) => Some(
                Channel { channel_id, name, is_private },
            ),
            _ => None,
        }
    }

    /// Decodes a channel from the text of a JSON object.
    pub fn parse(text: &str) -> (r: Option<Channel>)
        ensures
            viewed(r) == decode_channel(text@),
    {
        match object_members(text) {
            Some(members) => Channel::from_members(&members),
            None => None,
        }
    }
}

/// Decodes the answer to a request for the user list. One member that does
/// not decode spoils the list.
pub fn parse_user_list(text: &str) -> (r: Option<Vec<Member>>)
    ensures
        viewed_list(r) == decode_user_list(text@),
{
    let items = match list_items(text, "members") {
        Some(items) => items,
        None => {
            return None;
        },
    };
    let ghost texts = items.deep_view();
    let mut members: Vec<Member> = Vec::new();
    let mut i: usize = 0;
    while i < items.len()
        invariant
            i <= items.len(),
            texts == items.deep_view(),
            texts.len() == items.len(),
            members@.len() == i,
            listed(text@, "members"@) == Some(texts),
            forall|j: int| 0 <= j < i ==> decode_member(texts[j]) == Some(#[trigger] members@[j]@),
        decreases items.len() - i,
    {
        assert(texts[i as int] == items[i as int]@);
        match Member::parse(items[i].as_str()) {
            Some(member) => {
                members.push(member);
            },
            None => {
                assert(decode_member(texts[i as int]) is None);
                return None;
            },
        }
        i += 1;
    }
    proof {
        assert forall|j: int| 0 <= j < texts.len() implies (#[trigger] decode_member(
            texts[j],
        )) == Some(members@[j]@) by {}
        assert(views(members@) =~= decode_members(texts)->0);
    }
    Some(members)
}

/// Decodes the answer to a request for the channel list. One channel that
/// does not decode spoils the list.
pub fn parse_channel_list(text: &str) -> (r: Option<Vec<Channel>>)
    ensures
        viewed_list(r) == decode_channel_list(text@),
{
    let items = match list_items(text, "channels") {
        Some(items) => items,
        None => {
            return None;
        },
    };
    let ghost texts = items.deep_view();
    let mut channels: Vec<Channel> = Vec::new();
    let mut i: usize = 0;
    while i < items.len()
        invariant
            i <= items.len(),
            texts == items.deep_view(),
            texts.len() == items.len(),
            channels@.len() == i,
            listed(text@, "channels"@) == Some(texts),
            forall|j: int| 0 <= j < i ==> decode_channel(texts[j]) == Some(#[trigger] channels@[j]@),
        decreases items.len() - i,
    {
        assert(texts[i as int] == items[i as int]@);
        match Channel::parse(items[i].as_str()) {
            Some(channel) => {
                channels.push(channel);
            },
            None => {
                assert(decode_channel(texts[i as int]) is None);
                return None;
            },
        }
        i += 1;
    }
    proof {
        assert forall|j: int| 0 <= j < texts.len() implies (#[trigger] decode_channel(
            texts[j],
        )) == Some(channels@[j]@) by {}
        assert(views(channels@) =~= decode_channels(texts)->0);
    }
    Some(channels)
}

/// The members that are kept in the alias cache: those that are not
/// deleted, in the order of the list.
pub fn active_members(members: &Vec<Member>) -> (r: Vec<&Member>)
    ensures
        r@.map_values(|m: &Member| *m) == members@.filter(|m: Member| !m.deleted),
{
    let ghost keep = |m: Member| !m.deleted;
    let mut kept: Vec<&Member> = Vec::new();
    let mut i: usize = 0;
    while i < members.len()
        invariant
            i <= members.len(),
            keep == (|m: Member| !m.deleted),
            kept@.map_values(|m: &Member| *m) == members@.take(i as int).filter(keep),
        decreases members.len() - i,
    {
        let ghost before = kept@.map_values(|m: &Member| *m);
        if !members[i].deleted {
            kept.push(&members[i]);
        }
        proof {
            let next = members@.take(i + 1);
            assert(next.drop_last() =~= members@.take(i as int));
            assert(next.last() == members@[i as int]);
            reveal_with_fuel(Seq::filter, 2);
            if keep(members@[i as int]) {
                assert(kept@.map_values(|m: &Member| *m) =~= before.push(members@[i as int]));
            }
        }
        i += 1;
    }
    assert(members@.take(members.len() as int) =~= members@);
    kept
}

} // verus!
