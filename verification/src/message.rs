//! Messages as the forwarding engine sees them.

use crate::status::{Code, Status};
use crate::uri::{Uri, UriView};
use vstd::prelude::*;

verus! {

/// The kind of a message, which decides how it is routed.
#[derive(Clone, Copy, Debug, PartialEq, Eq, Structural)]
pub enum MessageKind {
    Publish,
    Request,
    Response,
    Notification,
}

impl MessageKind {
    /// Publish and notification traffic goes to whoever subscribed, and is
    /// filtered by the subscription cache. Requests and responses go from
    /// one point to another and are not.
    pub open spec fn spec_is_subscription_filtered(self) -> bool {
        self == MessageKind::Publish || self == MessageKind::Notification
    }

    #[verifier::when_used_as_spec(spec_is_subscription_filtered)]
    pub fn is_subscription_filtered(self) -> (r: bool)
        ensures
            r == self.spec_is_subscription_filtered(),
    {
        match self {
            MessageKind::Publish => true,
            MessageKind::Notification => true,
            MessageKind::Request => false,
            MessageKind::Response => false,
        }
    }

    /// Every kind but a publication is addressed to a sink.
    pub open spec fn spec_has_sink(self) -> bool {
        self != MessageKind::Publish
    }

    #[verifier::when_used_as_spec(spec_has_sink)]
    pub fn has_sink(self) -> (r: bool)
        ensures
            r == self.spec_has_sink(),
    {
        match self {
            MessageKind::Publish => false,
            _ => true,
        }
    }
}

/// Mathematical value of a [`Message`].
pub struct MessageView {
    pub source: UriView,
    pub sink: Option<UriView>,
    pub kind: MessageKind,
    pub ttl: u32,
    pub payload: Seq<u8>,
}

impl MessageView {
    /// A request, a response and a notification carry a sink; a publication
    /// carries none.
    pub open spec fn well_formed(self) -> bool {
        self.sink is Some == self.kind.spec_has_sink()
    }
}

/// A message: where it comes from, where it goes, its kind, how long it
/// lives, and a payload that the engine never reads.
#[derive(Debug)]
pub struct Message {
    source: Uri,
    sink: Option<Uri>,
    kind: MessageKind,
    ttl: u32,
    payload: Vec<u8>,
}

impl View for Message {
    type V = MessageView;

    closed spec fn view(&self) -> MessageView {
        MessageView {
            source: self.source@,
            sink: match self.sink {
                Some(sink) => Some(sink@),
                None => None,
            },
            kind: self.kind,
            ttl: self.ttl,
            payload: self.payload@,
        }
    }
}

/// A copy of `bytes`.
fn copy_bytes(bytes: &Vec<u8>) -> (r: Vec<u8>)
    ensures
        r@ == bytes@,
{
    let mut copy: Vec<u8> = Vec::new();
    let mut i: usize = 0;
    while i < bytes.len()
        invariant
            i <= bytes.len(),
            copy@ == bytes@.take(i as int),
        decreases bytes.len() - i,
    {
        copy.push(bytes[i]);
        assert(copy@ =~= bytes@.take(i as int + 1));
        i += 1;
    }
    assert(bytes@.take(i as int) =~= bytes@);
    copy
}

impl Clone for Message {
    fn clone(&self) -> (r: Self)
        ensures
            r@ == self@,
    {
        proof {
            use_type_invariant(self);
        }
        Message {
            source: self.source.clone(),
            sink: match &self.sink {
                Some(sink) => Some(sink.clone()),
                None => None,
            },
            kind: self.kind,
            ttl: self.ttl,
            payload: copy_bytes(&self.payload),
        }
    }
}

impl Message {
    #[verifier::type_invariant]
    spec fn inv(&self) -> bool {
        self.sink is Some == self.kind.spec_has_sink()
    }

    /// A message of kind `kind`.
    ///
    /// Fails with `InvalidArgument` exactly where a publication is given a
    /// sink, or a message of another kind is given none.
    pub fn new(source: Uri, sink: Option<Uri>, kind: MessageKind, ttl: u32, payload: Vec<u8>) -> (r:
        Result<Message, Status>)
        ensures
            r is Ok == (sink is Some == kind.spec_has_sink()),
            r matches Ok(message) ==> message@ == (MessageView {
                source: source@,
                sink: match sink {
                    Some(sink) => Some(sink@),
                    None => None,
                },
                kind,
                ttl,
                payload: payload@,
            }),
            r matches Err(status) ==> status.code == Code::InvalidArgument,
    {
        if sink.is_some() == kind.has_sink() {
            Ok(Message { source, sink, kind, ttl, payload })
        } else {
            Err(
                Status::fail_with_code(
                    Code::InvalidArgument,
                    "a publication carries no sink; every other message carries one".to_owned(),
                ),
            )
        }
    }

    /// A publication on `topic`.
    pub fn publish(topic: Uri, ttl: u32, payload: Vec<u8>) -> (r: Message)
        ensures
            r@ == (MessageView {
                source: topic@,
                sink: None,
                kind: MessageKind::Publish,
                ttl,
                payload: payload@,
            }),
    {
        Message { source: topic, sink: None, kind: MessageKind::Publish, ttl, payload }
    }

    /// A notification on `topic` for `sink`.
    pub fn notification(topic: Uri, sink: Uri, ttl: u32, payload: Vec<u8>) -> (r: Message)
        ensures
            r@ == (MessageView {
                source: topic@,
                sink: Some(sink@),
                kind: MessageKind::Notification,
                ttl,
                payload: payload@,
            }),
    {
        Message { source: topic, sink: Some(sink), kind: MessageKind::Notification, ttl, payload }
    }

    /// A request from `source` to the method `sink`.
    pub fn request(source: Uri, sink: Uri, ttl: u32, payload: Vec<u8>) -> (r: Message)
        ensures
            r@ == (MessageView {
                source: source@,
                sink: Some(sink@),
                kind: MessageKind::Request,
                ttl,
                payload: payload@,
            }),
    {
        Message { source, sink: Some(sink), kind: MessageKind::Request, ttl, payload }
    }

    /// A response from the method `source` to `sink`.
    pub fn response(source: Uri, sink: Uri, ttl: u32, payload: Vec<u8>) -> (r: Message)
        ensures
            r@ == (MessageView {
                source: source@,
                sink: Some(sink@),
                kind: MessageKind::Response,
                ttl,
                payload: payload@,
            }),
    {
        Message { source, sink: Some(sink), kind: MessageKind::Response, ttl, payload }
    }

    pub fn source(&self) -> (r: &Uri)
        ensures
            r@ == self@.source,
    {
        &self.source
    }

    pub fn sink(&self) -> (r: Option<&Uri>)
        ensures
            self@.well_formed(),
            r is Some == self@.sink is Some,
            r matches Some(sink) ==> self@.sink == Some(sink@),
    {
        proof {
            use_type_invariant(self);
        }
        match &self.sink {
            Some(sink) => Some(sink),
            None => None,
        }
    }

    pub fn kind(&self) -> (r: MessageKind)
        ensures
            self@.well_formed(),
            r == self@.kind,
    {
        proof {
            use_type_invariant(self);
        }
        self.kind
    }

    pub fn ttl(&self) -> (r: u32)
        ensures
            r == self@.ttl,
    {
        self.ttl
    }

    pub fn payload(&self) -> (r: &Vec<u8>)
        ensures
            r@ == self@.payload,
    {
        &self.payload
    }

    /// This message as it leaves towards the authority `authority`: its
    /// source is placed under that authority, and nothing else changes.
    pub fn readdressed(self, authority: &str) -> (r: Message)
        ensures
            r@ == (MessageView {
                source: UriView { authority_name: authority@, ..self@.source },
                ..self@
            }),
    {
        proof {
            use_type_invariant(&self);
        }
        Message {
            source: Uri {
                authority_name: authority.to_owned(),
                ue_id: self.source.ue_id,
                ue_version_major: self.source.ue_version_major,
                resource_id: self.source.resource_id,
            },
            sink: self.sink,
            kind: self.kind,
            ttl: self.ttl,
            payload: self.payload,
        }
    }
}

} // verus!
