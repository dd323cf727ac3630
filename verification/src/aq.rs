//! Advanced queuing: options, message properties and payloads.
use vstd::prelude::*;

use crate::errors::Fault;
#[allow(unused_imports)]
use crate::errors::FaultView;
use crate::text::owned;
#[allow(unused_imports)]
use crate::text::text_views;
#[allow(unused_imports)]
use crate::value::bytes_view;
use crate::value::DateTimeFields;

verus! {

pub const MSG_PERSISTENT: u16 = 1;

pub const DEQ_REMOVE: u32 = 3;

pub const DEQ_NEXT_MSG: u32 = 3;

pub const DEQ_ON_COMMIT: u32 = 2;

pub const DEQ_WAIT_FOREVER: u32 = 0xFFFF_FFFF;

pub const ENQ_ON_COMMIT: u32 = 2;

pub const MSG_READY: i32 = 0;

/// How messages are taken from a queue.
pub struct DeqOptions {
    pub condition: Option<String>,
    pub consumer_name: Option<String>,
    pub correlation: Option<String>,
    pub delivery_mode: u16,
    pub mode: u32,
    pub msgid: Option<Vec<u8>>,
    pub navigation: u32,
    pub transformation: Option<String>,
    pub visibility: u32,
    pub wait: u32,
}

/// The options as they are sent. The transformation is not.
pub struct SentDeqOptions {
    pub condition: Option<String>,
    pub consumer_name: Option<String>,
    pub correlation: Option<String>,
    pub delivery_mode: u16,
    pub mode: i32,
    pub msgid: Option<Vec<u8>>,
    pub navigation: i32,
    pub visibility: i32,
    pub wait: u32,
}

pub fn copy_text(t: &Option<String>) -> (r: Option<String>)
    ensures
        r == *t,
{
    match t {
        Some(s) => Some(s.clone()),
        None => None,
    }
}

fn copy_bytes(b: &Option<Vec<u8>>) -> (r: Option<Vec<u8>>)
    ensures
        bytes_view(r) == bytes_view(*b),
{
    match b {
        Some(v) => {
            let c = v.clone();
            proof {
                assert(c@ =~= v@);
            }
            Some(c)
        },
        None => None,
    }
}

impl DeqOptions {
    pub open spec fn defaults() -> DeqOptions {
        DeqOptions {
            condition: None,
            consumer_name: None,
            correlation: None,
            delivery_mode: MSG_PERSISTENT,
            mode: DEQ_REMOVE,
            msgid: None,
            navigation: DEQ_NEXT_MSG,
            transformation: None,
            visibility: DEQ_ON_COMMIT,
            wait: DEQ_WAIT_FOREVER,
        }
    }

    pub open spec fn sent_as(self, r: SentDeqOptions) -> bool {
        &&& r.condition == self.condition
        &&& r.consumer_name == self.consumer_name
        &&& r.correlation == self.correlation
        &&& r.delivery_mode == self.delivery_mode
        &&& r.mode == self.mode as i32
        &&& bytes_view(r.msgid) == bytes_view(self.msgid)
        &&& r.navigation == self.navigation as i32
        &&& r.visibility == self.visibility as i32
        &&& r.wait == self.wait
    }

    /// The options that hold unless others are set: take the next message, for good, when the
    /// transaction commits, however long it takes.
    pub fn new() -> (r: Self)
        ensures
            r == DeqOptions::defaults(),
    {
        DeqOptions {
            condition: None,
            consumer_name: None,
            correlation: None,
            delivery_mode: MSG_PERSISTENT,
            mode: DEQ_REMOVE,
            msgid: None,
            navigation: DEQ_NEXT_MSG,
            transformation: None,
            visibility: DEQ_ON_COMMIT,
            wait: DEQ_WAIT_FOREVER,
        }
    }

    pub fn to_protocol(&self) -> (r: SentDeqOptions)
        ensures
            self.sent_as(r),
    {
        SentDeqOptions {
            condition: copy_text(&self.condition),
            consumer_name: copy_text(&self.consumer_name),
            correlation: copy_text(&self.correlation),
            delivery_mode: self.delivery_mode,
            mode: self.mode as i32,
            msgid: copy_bytes(&self.msgid),
            navigation: self.navigation as i32,
            visibility: self.visibility as i32,
            wait: self.wait,
        }
    }
}

/// How messages are put into a queue.
pub struct EnqOptions {
    pub transformation: Option<String>,
    pub visibility: u32,
    pub delivery_mode: u16,
}

/// The options as they are sent. The transformation is not.
#[derive(Clone, Copy, PartialEq, Eq, Structural, Debug)]
pub struct SentEnqOptions {
    pub visibility: u32,
    pub delivery_mode: u16,
}

impl EnqOptions {
    pub open spec fn defaults() -> EnqOptions {
        EnqOptions {
            transformation: None,
            visibility: ENQ_ON_COMMIT,
            delivery_mode: MSG_PERSISTENT,
        }
    }

    pub open spec fn sent(self) -> SentEnqOptions {
        SentEnqOptions { visibility: self.visibility, delivery_mode: self.delivery_mode }
    }

    pub fn new() -> (r: Self)
        ensures
            r == EnqOptions::defaults(),
    {
        EnqOptions {
            transformation: None,
            visibility: ENQ_ON_COMMIT,
            delivery_mode: MSG_PERSISTENT,
        }
    }

    pub fn to_protocol(&self) -> (r: SentEnqOptions)
        ensures
            r == self.sent(),
    {
        SentEnqOptions { visibility: self.visibility, delivery_mode: self.delivery_mode }
    }
}

/// The payload that was set for a message. Objects and JSON values are referred to by handle.
pub enum MsgPayload {
    Nothing,
    Bytes(Vec<u8>),
    Object(usize),
    Json(usize),
}

/// The properties of a message.
pub struct MsgProps {
    pub priority: i32,
    pub delay: i32,
    pub expiration: i32,
    pub correlation: Option<String>,
    pub exception_queue: Option<String>,
    pub state: i32,
    pub num_attempts: i32,
    pub delivery_mode: u16,
    pub enq_time: Option<DateTimeFields>,
    pub msgid: Option<Vec<u8>>,
    pub recipients: Option<Vec<String>>,
    pub payload: MsgPayload,
    /// The value that the message's `payload` attribute shows, by handle.
    pub payload_attr: Option<usize>,
}

/// A message as it is sent, but for its payload.
pub struct SentMsgProps {
    pub priority: i32,
    pub delay: i32,
    pub expiration: i32,
    pub correlation: Option<String>,
    pub exception_queue: Option<String>,
    pub state: i32,
    pub recipients: Vec<String>,
}

/// A message as it was received, but for its payload.
pub struct ReceivedMsg {
    pub priority: i32,
    pub delay: i32,
    pub expiration: i32,
    pub correlation: Option<String>,
    pub exception_queue: Option<String>,
    pub state: i32,
    pub num_attempts: i32,
    pub delivery_mode: u16,
    pub enq_time: Option<DateTimeFields>,
    pub msgid: Option<Vec<u8>>,
}

impl MsgProps {
    pub open spec fn fresh() -> MsgProps {
        MsgProps {
            priority: 0,
            delay: 0,
            expiration: (-1) as i32,
            correlation: None,
            exception_queue: None,
            state: MSG_READY,
            num_attempts: 0,
            delivery_mode: 0,
            enq_time: None,
            msgid: None,
            recipients: None,
            payload: MsgPayload::Nothing,
            payload_attr: None,
        }
    }

    pub open spec fn sent_as(self, r: SentMsgProps) -> bool {
        &&& r.priority == self.priority
        &&& r.delay == self.delay
        &&& r.expiration == self.expiration
        &&& r.correlation == self.correlation
        &&& r.exception_queue == self.exception_queue
        &&& r.state == self.state
        &&& text_views(r.recipients@) == match self.recipients {
            Some(v) => text_views(v@),
            None => Seq::empty(),
        }
    }

    pub open spec fn received(m: ReceivedMsg, payload_attr: usize) -> MsgProps {
        MsgProps {
            priority: m.priority,
            delay: m.delay,
            expiration: m.expiration,
            correlation: m.correlation,
            exception_queue: m.exception_queue,
            state: m.state,
            num_attempts: m.num_attempts,
            delivery_mode: m.delivery_mode,
            enq_time: m.enq_time,
            msgid: m.msgid,
            recipients: None,
            payload: MsgPayload::Nothing,
            payload_attr: Some(payload_attr),
        }
    }

    pub open spec fn enqueued(self, msgid: Option<Vec<u8>>) -> MsgProps {
        MsgProps {
            msgid: if msgid is Some {
                msgid
            } else {
                self.msgid
            },
            ..self
        }
    }

    pub open spec fn enqueue_time(self) -> Option<DateTimeFields> {
        match self.enq_time {
            Some(t) => Some(DateTimeFields { nanosecond: t.nanosecond / 1000, ..t }),
            None => None,
        }
    }

    /// A new message: it never expires, and its delivery mode is not known before it is received.
    pub fn new() -> (r: Self)
        ensures
            r == MsgProps::fresh(),
    {
        MsgProps {
            priority: 0,
            delay: 0,
            expiration: -1,
            correlation: None,
            exception_queue: None,
            state: MSG_READY,
            num_attempts: 0,
            delivery_mode: 0,
            enq_time: None,
            msgid: None,
            recipients: None,
            payload: MsgPayload::Nothing,
            payload_attr: None,
        }
    }

    /// The message as it is sent. Without recipients, an empty list is sent.
    pub fn to_protocol(&self) -> (r: SentMsgProps)
        ensures
            self.sent_as(r),
    {
        let mut recipients: Vec<String> = Vec::new();
        proof {
            assert(text_views(recipients@) =~= Seq::<Seq<char>>::empty());
        }
        if let Some(v) = &self.recipients {
            let mut i: usize = 0;
            while i < v.len()
                invariant
                    i <= v@.len(),
                    text_views(recipients@) == text_views(v@).take(i as int),
                decreases v@.len() - i,
            {
                let ghost before = recipients@;
                recipients.push(v[i].clone());
                proof {
                    assert(text_views(recipients@) =~= text_views(before).push(v@[i as int]@));
                    assert(text_views(v@).take(i + 1) =~= text_views(v@).take(i as int).push(
                        v@[i as int]@,
                    ));
                }
                i = i + 1;
            }
            proof {
                assert(text_views(v@).take(v@.len() as int) =~= text_views(v@));
            }
        }
        SentMsgProps {
            priority: self.priority,
            delay: self.delay,
            expiration: self.expiration,
            correlation: copy_text(&self.correlation),
            exception_queue: copy_text(&self.exception_queue),
            state: self.state,
            recipients,
        }
    }

    /// The properties of a received message, whose decoded payload has a handle.
    pub fn from_deq_message(m: ReceivedMsg, payload_attr: usize) -> (r: Self)
        ensures
            r == MsgProps::received(m, payload_attr),
    {
        MsgProps {
            priority: m.priority,
            delay: m.delay,
            expiration: m.expiration,
            correlation: m.correlation,
            exception_queue: m.exception_queue,
            state: m.state,
            num_attempts: m.num_attempts,
            delivery_mode: m.delivery_mode,
            enq_time: m.enq_time,
            msgid: m.msgid,
            recipients: None,
            payload: MsgPayload::Nothing,
            payload_attr: Some(payload_attr),
        }
    }

    /// After the message was put into a queue: the identifier that it got, if it got one.
    pub fn finish_enq(&mut self, msgid: Option<Vec<u8>>)
        ensures
            *final(self) == old(self).enqueued(msgid),
    {
        if msgid.is_some() {
            self.msgid = msgid;
        }
    }

    /// Fields of the time at which the message was put into the queue, in microseconds.
    pub fn get_enq_time(&self) -> (r: Option<DateTimeFields>)
        ensures
            r == self.enqueue_time(),
    {
        match self.enq_time {
            Some(t) => Some(
                DateTimeFields {
                    year: t.year,
                    month: t.month,
                    day: t.day,
                    hour: t.hour,
                    minute: t.minute,
                    second: t.second,
                    nanosecond: t.nanosecond / 1000,
                },
            ),
            None => None,
        }
    }
}

pub open spec fn ids_assigned(
    r: Seq<Option<Vec<u8>>>,
    messages: usize,
    msgids: Seq<Vec<u8>>,
) -> bool {
    &&& r.len() == messages
    &&& forall|i: int|
        0 <= i < messages ==> #[trigger] r[i] == if i < msgids.len() {
            Some(msgids[i])
        } else {
            None
        }
}

/// Hands identifiers to so many messages in order: gives for each message the one that it gets, or
/// nothing where the identifiers do not reach.
pub fn assign_message_ids(messages: usize, msgids: Vec<Vec<u8>>) -> (r: Vec<Option<Vec<u8>>>)
    ensures
        ids_assigned(r@, messages, msgids@),
{
    let ghost all = msgids@;
    let mut left = msgids;
    let mut r: Vec<Option<Vec<u8>>> = Vec::new();
    let mut i: usize = 0;
    while i < messages
        invariant
            i <= messages,
            r@.len() == i,
            left@ == all.skip(if i < all.len() {
                i as int
            } else {
                all.len() as int
            }),
            forall|k: int|
                0 <= k < i ==> #[trigger] r@[k] == if k < all.len() {
                    Some(all[k])
                } else {
                    None
                },
        decreases messages - i,
    {
        if left.len() > 0 {
            r.push(Some(left.remove(0)));
        } else {
            r.push(None);
        }
        i = i + 1;
        proof {
            assert(left@ =~= all.skip(if i < all.len() {
                i as int
            } else {
                all.len() as int
            }));
        }
    }
    r
}

/// What the payload of a received message is.
#[derive(Clone, Copy, PartialEq, Eq, Structural, Debug)]
pub enum ReceivedPayload {
    Raw,
    Json,
    Object,
    Missing,
}

/// What the `payload` attribute of a received message shows.
#[derive(Clone, Copy, PartialEq, Eq, Structural, Debug)]
pub enum PayloadPlan {
    Bytes,
    Json,
    /// An object of the queue's type, with the image that was received.
    Object,
    /// An object of the queue's type, with an empty image.
    EmptyObject,
    EmptyBytes,
    /// `None`.
    Nothing,
}

pub open spec fn payload_shown(
    payload: ReceivedPayload,
    has_payload_type: bool,
    is_json: bool,
) -> PayloadPlan {
    match payload {
        ReceivedPayload::Raw => PayloadPlan::Bytes,
        ReceivedPayload::Json => PayloadPlan::Json,
        ReceivedPayload::Object => if has_payload_type {
            PayloadPlan::Object
        } else {
            PayloadPlan::Nothing
        },
        ReceivedPayload::Missing => if is_json {
            PayloadPlan::Nothing
        } else if has_payload_type {
            PayloadPlan::EmptyObject
        } else {
            PayloadPlan::EmptyBytes
        },
    }
}

pub fn decode_payload(payload: ReceivedPayload, has_payload_type: bool, is_json: bool) -> (r:
    PayloadPlan)
    ensures
        r == payload_shown(payload, has_payload_type, is_json),
{
    match payload {
        ReceivedPayload::Raw => PayloadPlan::Bytes,
        ReceivedPayload::Json => PayloadPlan::Json,
        ReceivedPayload::Object => if has_payload_type {
            PayloadPlan::Object
        } else {
            PayloadPlan::Nothing
        },
        ReceivedPayload::Missing => if is_json {
            PayloadPlan::Nothing
        } else if has_payload_type {
            PayloadPlan::EmptyObject
        } else {
            PayloadPlan::EmptyBytes
        },
    }
}

/// What the messages of a queue carry.
#[derive(Clone, Copy, PartialEq, Eq, Structural, Debug)]
pub enum PayloadKind {
    Raw,
    Object,
    Json,
}

/// A queue once it is initialised.
pub struct QueueState {
    pub name: String,
    pub is_json: bool,
    /// The queue's messages carry objects of a type.
    pub has_payload_type: bool,
    /// The type's identifier.
    pub payload_oid: Option<Vec<u8>>,
}

/// A queue as it is described to the server.
pub struct QueueDesc {
    pub name: String,
    pub kind: PayloadKind,
    pub object_oid: Option<Vec<u8>>,
}

impl QueueState {
    pub open spec fn payload_kind(self) -> PayloadKind {
        if self.is_json {
            PayloadKind::Json
        } else if self.has_payload_type {
            PayloadKind::Object
        } else {
            PayloadKind::Raw
        }
    }

    pub fn kind(&self) -> (r: PayloadKind)
        ensures
            r == self.payload_kind(),
    {
        if self.is_json {
            PayloadKind::Json
        } else if self.has_payload_type {
            PayloadKind::Object
        } else {
            PayloadKind::Raw
        }
    }
}

/// The error for a queue that was not initialised.
pub fn uninitialized() -> (r: Fault)
    ensures
        r@ == FaultView::Runtime("queue is not initialized"@),
{
    Fault::Runtime(owned("queue is not initialized"))
}

pub open spec fn queue_described(r: Result<QueueDesc, Fault>, state: Option<QueueState>) -> bool {
    match (state, r) {
        (Some(q), Ok(d)) => {
            &&& d.name == q.name
            &&& d.kind == q.payload_kind()
            &&& bytes_view(d.object_oid) == if q.has_payload_type {
                bytes_view(q.payload_oid)
            } else {
                None
            }
        },
        (None, Err(f)) => f@ == FaultView::Runtime("queue is not initialized"@),
        _ => false,
    }
}

/// The description of a queue, which must be initialised.
pub fn queue_desc(state: &Option<QueueState>) -> (r: Result<QueueDesc, Fault>)
    ensures
        queue_described(r, *state),
{
    match state {
        Some(q) => {
            let object_oid = if q.has_payload_type {
                copy_bytes(&q.payload_oid)
            } else {
                None
            };
            Ok(QueueDesc { name: q.name.clone(), kind: q.kind(), object_oid })
        },
        None => Err(uninitialized()),
    }
}

/// The options that were set are sent, each as itself; by default a message is taken for good and
/// however long it takes.
pub proof fn law_dequeue_options_are_sent_as_set(o: DeqOptions, r: SentDeqOptions)
    requires
        o.sent_as(r),
        o.mode <= i32::MAX,
        o.navigation <= i32::MAX,
        o.visibility <= i32::MAX,
    ensures
        r.mode == o.mode && r.navigation == o.navigation && r.visibility == o.visibility,
        r.wait == o.wait && r.delivery_mode == o.delivery_mode,
        r.condition == o.condition && r.consumer_name == o.consumer_name && r.correlation
            == o.correlation,
        r.msgid is Some <==> o.msgid is Some,
        o.msgid matches Some(b) ==> r.msgid->0@ == b@,
        DeqOptions::defaults().mode == 3 && DeqOptions::defaults().navigation == 3,
        DeqOptions::defaults().visibility == 2 && DeqOptions::defaults().delivery_mode == 1,
        DeqOptions::defaults().wait == u32::MAX,
        DeqOptions::defaults().msgid is None && DeqOptions::defaults().condition is None
            && DeqOptions::defaults().correlation is None && DeqOptions::defaults().consumer_name
            is None,
{
}

/// Messages are put in with the visibility and delivery mode that were set; by default they are
/// persistent and visible on commit.
pub proof fn law_enqueue_options_are_sent_as_set(o: EnqOptions)
    ensures
        o.sent().visibility == o.visibility && o.sent().delivery_mode == o.delivery_mode,
        EnqOptions::defaults().sent().visibility == 2 && EnqOptions::defaults().sent().delivery_mode
            == 1,
{
}

/// A message is sent with the properties that were set and to the recipients in their order; without
/// any it is sent to none in particular. A new message is ready at once and never expires.
pub proof fn law_message_is_sent_as_set(p: MsgProps, r: SentMsgProps, i: int)
    requires
        p.sent_as(r),
    ensures
        r.priority == p.priority && r.delay == p.delay && r.expiration == p.expiration,
        r.state == p.state && r.correlation == p.correlation && r.exception_queue
            == p.exception_queue,
        p.recipients is None ==> r.recipients@.len() == 0,
        p.recipients matches Some(v) ==> r.recipients@.len() == v@.len() && (0 <= i < v@.len()
            ==> r.recipients@[i]@ == v@[i]@),
        MsgProps::fresh().expiration == -1 && MsgProps::fresh().delay == 0
            && MsgProps::fresh().priority == 0 && MsgProps::fresh().state == 0,
        MsgProps::fresh().msgid is None && MsgProps::fresh().payload is Nothing,
{
    assert(text_views(r.recipients@).len() == r.recipients@.len());
    if p.recipients is Some {
        let v = p.recipients->0;
        assert(text_views(v@).len() == v@.len());
        if 0 <= i < v@.len() {
            assert(text_views(r.recipients@)[i] == r.recipients@[i]@);
            assert(text_views(v@)[i] == v@[i]@);
        }
    }
}

/// What is received is what was sent: the properties of a message come back with its attempts, its
/// time and its identifier, and its payload is the decoded one.
pub proof fn law_received_message_keeps_its_properties(
    p: MsgProps,
    s: SentMsgProps,
    m: ReceivedMsg,
    payload: usize,
)
    requires
        p.sent_as(s),
        m.priority == s.priority && m.delay == s.delay && m.expiration == s.expiration,
        m.correlation == s.correlation && m.exception_queue == s.exception_queue,
    ensures
        ({
            let r = MsgProps::received(m, payload);
            &&& r.priority == p.priority && r.delay == p.delay && r.expiration == p.expiration
            &&& r.correlation == p.correlation && r.exception_queue == p.exception_queue
            &&& r.state == m.state && r.num_attempts == m.num_attempts && r.delivery_mode
                == m.delivery_mode
            &&& r.enq_time == m.enq_time && r.msgid == m.msgid
            &&& r.payload_attr == Some(payload)
        }),
{
}

/// A message takes the identifier that it got, and keeps its own where it got none.
pub proof fn law_message_takes_its_identifier(p: MsgProps, id: Vec<u8>)
    ensures
        p.enqueued(Some(id)).msgid == Some(id),
        p.enqueued(None) == p,
        p.enqueued(Some(id)).priority == p.priority && p.enqueued(Some(id)).payload == p.payload,
{
}

/// The time of a message is told in microseconds, all other fields as they are.
pub proof fn law_message_time_is_in_microseconds(p: MsgProps)
    ensures
        p.enqueue_time() is Some <==> p.enq_time is Some,
        p.enq_time matches Some(t) ==> ({
            let r = p.enqueue_time()->0;
            &&& r.nanosecond * 1000 <= t.nanosecond < (r.nanosecond + 1) * 1000
            &&& r.year == t.year && r.month == t.month && r.day == t.day
            &&& r.hour == t.hour && r.minute == t.minute && r.second == t.second
        }),
{
}

/// Identifiers are handed out in order, one to each message as far as they reach.
pub proof fn law_identifiers_are_handed_out_in_order(
    r: Seq<Option<Vec<u8>>>,
    messages: usize,
    msgids: Seq<Vec<u8>>,
    i: int,
)
    requires
        ids_assigned(r, messages, msgids),
        0 <= i < messages,
    ensures
        r.len() == messages,
        i < msgids.len() ==> r[i] == Some(msgids[i]),
        i >= msgids.len() ==> r[i] is None,
{
    assert(r[i] == r[i]);
}

/// A payload is shown as what it is. One that is missing is shown as the empty value of the queue's
/// kind, which has none for JSON; an object needs the queue's type.
pub proof fn law_payload_is_shown_as_what_it_is(has_type: bool, is_json: bool)
    ensures
        payload_shown(ReceivedPayload::Raw, has_type, is_json) == PayloadPlan::Bytes,
        payload_shown(ReceivedPayload::Json, has_type, is_json) == PayloadPlan::Json,
        payload_shown(ReceivedPayload::Object, has_type, is_json) == PayloadPlan::Object <==>
            has_type,
        payload_shown(ReceivedPayload::Missing, has_type, is_json) == PayloadPlan::Nothing <==>
            is_json,
        payload_shown(ReceivedPayload::Missing, has_type, is_json) == PayloadPlan::EmptyObject <==>
            !is_json && has_type,
{
}

/// A queue is described by its name and the kind of its messages, with the identifier of their type
/// exactly where they are objects. One that was not initialised cannot be described.
pub proof fn law_queue_is_described_by_its_messages(
    r: Result<QueueDesc, Fault>,
    state: Option<QueueState>,
)
    requires
        queue_described(r, state),
    ensures
        r is Ok <==> state is Some,
        state matches Some(q) ==> {
            &&& r->Ok_0.name@ == q.name@
            &&& q.is_json ==> r->Ok_0.kind == PayloadKind::Json
            &&& !q.is_json && q.has_payload_type ==> r->Ok_0.kind == PayloadKind::Object
            &&& !q.is_json && !q.has_payload_type ==> r->Ok_0.kind == PayloadKind::Raw
            &&& q.has_payload_type ==> bytes_view(r->Ok_0.object_oid) == bytes_view(q.payload_oid)
            &&& !q.has_payload_type ==> r->Ok_0.object_oid is None
        },
{
}

} // verus!
