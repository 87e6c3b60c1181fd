//! Shapes of the protocol messages: what the client sends, what the server
//! sends back, and the domain object the external decision service answers
//! a hello call with.
//!
//! Every executable type has a mathematical view (`@`) over `Seq<char>` and
//! plain values; the codec and the session state machine state their
//! contracts over those views.

use vstd::prelude::*;

use crate::text::text_wf;

verus! {

// ---------------------------------------------------------------------------
// Identifiers
// ---------------------------------------------------------------------------

/// A well-formed identifier: non-empty text that can stand verbatim inside a
/// JSON string literal.
pub open spec fn id_wf(s: Seq<char>) -> bool {
    s.len() >= 1 && text_wf(s)
}

/// An identifier for a user agent (UAID) or one push subscription (channelID).
#[derive(Debug, PartialEq, Eq)]
pub struct Id {
    chars: Vec<char>,
}

impl Clone for Id {
    fn clone(&self) -> (r: Self)
        ensures
            r@ == self@,
    {
        proof {
            use_type_invariant(self);
        }
        Id { chars: self.chars.clone() }
    }
}

impl View for Id {
    type V = Seq<char>;

    closed spec fn view(&self) -> Seq<char> {
        self.chars@
    }
}

impl Id {
    #[verifier::type_invariant]
    pub open spec fn inv(self) -> bool {
        id_wf(self@)
    }

    /// Accepts exactly the non-empty texts that need no escaping.
    pub fn new(chars: Vec<char>) -> (r: Option<Id>)
        ensures
            match r {
                Some(id) => id@ == chars@ && id_wf(chars@),
                None => !id_wf(chars@),
            },
    {
        let mut k: usize = 0;
        while k < chars.len()
            invariant
                0 <= k <= chars@.len(),
                forall|j: int| 0 <= j < k ==> crate::text::is_text_char(#[trigger] chars@[j]),
            decreases chars@.len() - k,
        {
            let c = chars[k];
            if c == '"' || c == '\\' || (c as u32) < 0x20 {
                return None;
            }
            k += 1;
        }
        if chars.len() == 0 {
            return None;
        }
        Some(Id { chars })
    }

    pub fn chars(&self) -> (r: &Vec<char>)
        ensures
            r@ == self@,
            id_wf(self@),
    {
        proof {
            use_type_invariant(self);
        }
        &self.chars
    }
}

// ---------------------------------------------------------------------------
// Client messages
// ---------------------------------------------------------------------------

/// One acknowledged update inside a client `ack`.
#[derive(Debug, Clone, PartialEq, Eq)]
pub struct ClientAck {
    pub channel_id: Id,
    pub version: Vec<char>,
}

#[verifier::ext_equal]
pub struct ClientAckV {
    pub channel_id: Seq<char>,
    pub version: Seq<char>,
}

impl View for ClientAck {
    type V = ClientAckV;

    open spec fn view(&self) -> ClientAckV {
        ClientAckV { channel_id: self.channel_id@, version: self.version@ }
    }
}

/// A message received from the connected client, keyed by the lowercase
/// `messageType` discriminant on the wire.
#[derive(Debug, Clone, PartialEq, Eq)]
pub enum ClientMessage {
    Hello { uaid: Option<Id>, channel_ids: Option<Vec<Id>>, use_webpush: Option<bool> },
    Register { channel_id: Id },
    Unregister { channel_id: Id },
    Ack { updates: Vec<ClientAck> },
}

#[verifier::ext_equal]
pub enum ClientMessageV {
    Hello { uaid: Option<Seq<char>>, channel_ids: Option<Seq<Seq<char>>>, use_webpush: Option<
        bool,
    > },
    Register { channel_id: Seq<char> },
    Unregister { channel_id: Seq<char> },
    Ack { updates: Seq<ClientAckV> },
}

impl View for ClientMessage {
    type V = ClientMessageV;

    open spec fn view(&self) -> ClientMessageV {
        match self {
            ClientMessage::Hello { uaid, channel_ids, use_webpush } => ClientMessageV::Hello {
                uaid: match uaid {
                    Some(u) => Some(u@),
                    None => None,
                },
                channel_ids: match channel_ids {
                    Some(v) => Some(v@.map_values(|id: Id| id@)),
                    None => None,
                },
                use_webpush: *use_webpush,
            },
            ClientMessage::Register { channel_id } => ClientMessageV::Register {
                channel_id: channel_id@,
            },
            ClientMessage::Unregister { channel_id } => ClientMessageV::Unregister {
                channel_id: channel_id@,
            },
            ClientMessage::Ack { updates } => ClientMessageV::Ack {
                updates: updates@.map_values(|a: ClientAck| a@),
            },
        }
    }
}

// ---------------------------------------------------------------------------
// Server messages
// ---------------------------------------------------------------------------

/// One header carried by a notification; replaces a string-keyed map, with
/// the order of insertion kept.
#[derive(Debug, Clone, PartialEq, Eq)]
pub struct Header {
    pub name: Vec<char>,
    pub value: Vec<char>,
}

#[verifier::ext_equal]
pub struct HeaderV {
    pub name: Seq<char>,
    pub value: Seq<char>,
}

impl View for Header {
    type V = HeaderV;

    open spec fn view(&self) -> HeaderV {
        HeaderV { name: self.name@, value: self.value@ }
    }
}

/// A server-initiated notification, delivered unsolicited while a session is
/// active.
#[derive(Debug, Clone, PartialEq, Eq)]
pub struct Notification {
    pub channel_id: Id,
    pub version: Vec<char>,
    pub ttl: u32,
    pub topic: Option<Vec<char>>,
    pub timestamp: u64,
    pub data: Option<Vec<char>>,
    pub headers: Option<Vec<Header>>,
}

#[verifier::ext_equal]
pub struct NotificationV {
    pub channel_id: Seq<char>,
    pub version: Seq<char>,
    pub ttl: u32,
    pub topic: Option<Seq<char>>,
    pub timestamp: u64,
    pub data: Option<Seq<char>>,
    pub headers: Option<Seq<HeaderV>>,
}

impl View for Notification {
    type V = NotificationV;

    open spec fn view(&self) -> NotificationV {
        NotificationV {
            channel_id: self.channel_id@,
            version: self.version@,
            ttl: self.ttl,
            topic: match &self.topic {
                Some(t) => Some(t@),
                None => None,
            },
            timestamp: self.timestamp,
            data: match &self.data {
                Some(d) => Some(d@),
                None => None,
            },
            headers: match &self.headers {
                Some(hs) => Some(hs@.map_values(|h: Header| h@)),
                None => None,
            },
        }
    }
}

/// A message sent to the connected client.
#[derive(Debug, Clone, PartialEq, Eq)]
pub enum ServerMessage {
    Hello { uaid: Id, status: u32, use_webpush: Option<bool> },
    Register { channel_id: Id, status: u32, push_endpoint: Vec<char> },
    Unregister { channel_id: Id, status: u32 },
    Notification(Notification),
}

#[verifier::ext_equal]
pub enum ServerMessageV {
    Hello { uaid: Seq<char>, status: u32, use_webpush: Option<bool> },
    Register { channel_id: Seq<char>, status: u32, push_endpoint: Seq<char> },
    Unregister { channel_id: Seq<char>, status: u32 },
    Notification(NotificationV),
}

impl View for ServerMessage {
    type V = ServerMessageV;

    open spec fn view(&self) -> ServerMessageV {
        match self {
            ServerMessage::Hello { uaid, status, use_webpush } => ServerMessageV::Hello {
                uaid: uaid@,
                status: *status,
                use_webpush: *use_webpush,
            },
            ServerMessage::Register { channel_id, status, push_endpoint } => {
                ServerMessageV::Register {
                    channel_id: channel_id@,
                    status: *status,
                    push_endpoint: push_endpoint@,
                }
            },
            ServerMessage::Unregister { channel_id, status } => ServerMessageV::Unregister {
                channel_id: channel_id@,
                status: *status,
            },
            ServerMessage::Notification(n) => ServerMessageV::Notification(n@),
        }
    }
}

/// An update as the internal router hands it on.
#[derive(Debug, Clone, PartialEq, Eq)]
pub struct Update {
    pub channel_id: Id,
    pub version: u64,
}

#[verifier::ext_equal]
pub struct UpdateV {
    pub channel_id: Seq<char>,
    pub version: u64,
}

impl View for Update {
    type V = UpdateV;

    open spec fn view(&self) -> UpdateV {
        UpdateV { channel_id: self.channel_id@, version: self.version }
    }
}

// ---------------------------------------------------------------------------
// The decision service's answer to a hello call
// ---------------------------------------------------------------------------

/// The domain object a successful hello call resolves to.
#[derive(Debug, Clone, PartialEq, Eq)]
pub struct HelloResponse {
    pub uaid: Option<Id>,
    pub message_month: Vec<char>,
    pub reset_uaid: bool,
    pub rotate_message_table: bool,
}

#[verifier::ext_equal]
pub struct HelloResponseV {
    pub uaid: Option<Seq<char>>,
    pub message_month: Seq<char>,
    pub reset_uaid: bool,
    pub rotate_message_table: bool,
}

impl View for HelloResponse {
    type V = HelloResponseV;

    open spec fn view(&self) -> HelloResponseV {
        HelloResponseV {
            uaid: match &self.uaid {
                Some(u) => Some(u@),
                None => None,
            },
            message_month: self.message_month@,
            reset_uaid: self.reset_uaid,
            rotate_message_table: self.rotate_message_table,
        }
    }
}

// ---------------------------------------------------------------------------
// Well-formedness of server-authored values
// ---------------------------------------------------------------------------

impl NotificationV {
    /// Every text field can be carried verbatim, and header names are unique.
    pub open spec fn wf(self) -> bool {
        &&& id_wf(self.channel_id)
        &&& text_wf(self.version)
        &&& (self.topic matches Some(t) ==> text_wf(t))
        &&& (self.data matches Some(d) ==> text_wf(d))
        &&& (self.headers matches Some(hs) ==> {
            &&& forall|k: int|
                0 <= k < hs.len() ==> text_wf(#[trigger] hs[k].name) && text_wf(hs[k].value)
            &&& forall|j: int, k: int| 0 <= j < k < hs.len() ==> hs[j].name != hs[k].name
        })
    }
}

impl ServerMessageV {
    pub open spec fn wf(self) -> bool {
        match self {
            ServerMessageV::Hello { uaid, status, use_webpush } => id_wf(uaid),
            ServerMessageV::Register { channel_id, status, push_endpoint } => id_wf(channel_id)
                && text_wf(push_endpoint),
            ServerMessageV::Unregister { channel_id, status } => id_wf(channel_id),
            ServerMessageV::Notification(n) => n.wf(),
        }
    }
}

} // verus!
