//! Subscriptions to change notifications.
use vstd::prelude::*;

use crate::errors::{dpy_database_error, runtime_error, Fault};
#[allow(unused_imports)]
use crate::errors::{database_view, fault_of_message, FaultView};
use crate::sqltext::first_sql_keyword;
#[allow(unused_imports)]
use crate::sqltext::{first_keyword, law_keyword_is_the_first_word};
use crate::text::{join2, owned, same_text};
#[allow(unused_imports)]
use crate::text::{is_ascii_letter, is_space, lower};

verus! {

/// What a thread that receives notifications reports before it starts to: that it is ready, or why
/// it cannot be.
pub struct ReadyState {
    pub ready: bool,
    pub error: Option<String>,
}

impl ReadyState {
    pub open spec fn answer(self) -> Option<Option<String>> {
        if self.ready {
            Some(self.error)
        } else {
            None
        }
    }

    pub open spec fn waiting() -> ReadyState {
        ReadyState { ready: false, error: None }
    }

    pub open spec fn signalled(self) -> ReadyState {
        ReadyState { ready: true, ..self }
    }

    pub open spec fn failed(self, error: String) -> ReadyState {
        ReadyState { ready: true, error: Some(error) }
    }

    pub fn new() -> (r: Self)
        ensures
            r == ReadyState::waiting(),
    {
        ReadyState { ready: false, error: None }
    }

    pub fn signal_ready(&mut self)
        ensures
            *final(self) == old(self).signalled(),
    {
        self.ready = true;
    }

    pub fn signal_error(&mut self, error: String)
        ensures
            *final(self) == old(self).failed(error),
    {
        self.ready = true;
        self.error = Some(error);
    }

    /// Whether the wait is over, and with which error.
    pub fn outcome(&self) -> (r: Option<Option<String>>)
        ensures
            r == self.answer(),
    {
        if self.ready {
            match &self.error {
                Some(e) => Some(Some(e.clone())),
                None => Some(None),
            }
        } else {
            None
        }
    }
}

/// A signal ends every wait: no later signal takes it back.
pub proof fn law_signal_ends_the_wait(before: ReadyState, after_ready: ReadyState, after_error: ReadyState, e: String)
    requires
        after_ready == (ReadyState { ready: true, ..before }),
        after_error == (ReadyState { ready: true, error: Some(e) }),
    ensures
        after_ready.ready,
        after_error.ready,
        before.error is Some ==> after_ready.error is Some,
{
}

/// What is known of a registration.
pub struct Registration {
    pub id: u64,
    pub client_id: Option<Vec<u8>>,
}

impl Registration {
    pub fn new() -> (r: Self)
        ensures
            r.id == 0,
            r.client_id is None,
    {
        Registration { id: 0, client_id: None }
    }

    pub open spec fn registered(
        self,
        r: Result<(), Fault>,
        id: u64,
        client_id: Option<Vec<u8>>,
    ) -> bool {
        &&& self.id == id
        &&& self.client_id == client_id
        &&& match r {
            Ok(_) => client_id is Some,
            Err(f) => client_id is None && f@ == fault_of_message(
                "subscribe did not return an emon client id"@,
            ),
        }
    }

    pub open spec fn sent_client_id(self) -> Seq<u8> {
        match self.client_id {
            Some(c) => c@,
            None => Seq::empty(),
        }
    }

    /// After the server registered the subscription. Without a client id no notifications can be
    /// received.
    pub fn finish_register(&mut self, id: u64, client_id: Option<Vec<u8>>) -> (r: Result<(), Fault>)
        ensures
            final(self).registered(r, id, client_id),
    {
        self.id = id;
        let has_client = client_id.is_some();
        self.client_id = client_id;
        if has_client {
            Ok(())
        } else {
            Err(runtime_error("subscribe did not return an emon client id"))
        }
    }

    /// The client id that ends a registration; none is sent as no bytes.
    pub fn client_id_to_send(&self) -> (r: Vec<u8>)
        ensures
            r@ == self.sent_client_id(),
    {
        match &self.client_id {
            Some(c) => {
                let b = c.clone();
                proof {
                    assert(b@ =~= c@);
                }
                b
            },
            None => {
                let b: Vec<u8> = Vec::new();
                b
            },
        }
    }
}

/// The error for a thread that could not start to receive.
pub fn background_error(error: &str) -> (r: Fault)
    ensures
        r@ == fault_of_message("DPY-6007: "@ + error@),
{
    runtime_error(join2("DPY-6007: ", error).as_str())
}

/// The statement is a query: it starts with `SELECT` or `WITH`.
pub open spec fn is_query(sql: Seq<char>) -> bool {
    first_keyword(sql) == "select"@ || first_keyword(sql) == "with"@
}

pub fn statement_is_query(sql: &str) -> (r: bool)
    ensures
        r == is_query(sql@),
{
    let keyword = first_sql_keyword(sql);
    same_text(keyword.as_str(), "select") || same_text(keyword.as_str(), "with")
}

pub open spec fn query_checked(r: Option<Fault>, sql: Seq<char>) -> bool {
    &&& r is Some == !is_query(sql)
    &&& r matches Some(f) ==> f@ == database_view(
        "DPY-1003"@ + ": "@ + "the executed statement does not return rows"@,
    )
}

/// Refuses to register a statement that is no query.
pub fn check_registered_query(sql: &str) -> (r: Option<Fault>)
    ensures
        query_checked(r, sql@),
{
    if statement_is_query(sql) {
        None
    } else {
        Some(dpy_database_error("DPY-1003", "the executed statement does not return rows"))
    }
}

pub open spec fn query_id(id: Option<u64>) -> Option<u64> {
    if id == Some(0u64) {
        None
    } else {
        id
    }
}

/// The id of a registered query. The server answers zero where queries are not told apart.
pub fn registered_query_id(id: Option<u64>) -> (r: Option<u64>)
    ensures
        r == query_id(id),
{
    match id {
        Some(n) => if n == 0 {
            None
        } else {
            Some(n)
        },
        None => None,
    }
}

/// What the thread that receives notifications got.
#[derive(Clone, Copy, PartialEq, Eq, Structural, Debug)]
pub enum Notification {
    /// A message for the callback; the last one if the server says so.
    Message { end_of_response: bool },
    /// Something else than a message.
    Record,
    /// Nothing within the time that was waited.
    TimedOut,
    /// The end of the connection, or an error.
    Closed,
}

/// What the thread does next.
#[derive(Clone, Copy, PartialEq, Eq, Structural, Debug)]
pub enum EmonStep {
    /// Hand the message to the callback.
    Deliver,
    Receive,
    Stop,
}

pub open spec fn step_on(n: Notification) -> EmonStep {
    match n {
        Notification::Message { end_of_response } => EmonStep::Deliver,
        Notification::Record => EmonStep::Receive,
        Notification::TimedOut => EmonStep::Receive,
        Notification::Closed => EmonStep::Stop,
    }
}

/// What the thread does with what it got.
pub fn on_notification(n: Notification) -> (r: EmonStep)
    ensures
        r == step_on(n),
{
    match n {
        Notification::Message { end_of_response: _ } => EmonStep::Deliver,
        Notification::Record => EmonStep::Receive,
        Notification::TimedOut => EmonStep::Receive,
        Notification::Closed => EmonStep::Stop,
    }
}

/// What became of a message.
#[derive(Clone, Copy, PartialEq, Eq, Structural, Debug)]
pub enum Delivery {
    /// The callback took it.
    Done,
    /// The callback raised an error.
    Raised,
    /// There is no callback.
    NoCallback,
}

pub open spec fn step_behind(delivery: Delivery, end_of_response: bool) -> EmonStep {
    if delivery == Delivery::Done && !end_of_response {
        EmonStep::Receive
    } else {
        EmonStep::Stop
    }
}

pub open spec fn step_before(stop_requested: bool) -> EmonStep {
    if stop_requested {
        EmonStep::Stop
    } else {
        EmonStep::Receive
    }
}

/// What the thread does behind a delivery. A callback that failed ends it, and so does a missing
/// one.
pub fn after_delivery(delivery: Delivery, end_of_response: bool) -> (r: EmonStep)
    ensures
        r == step_behind(delivery, end_of_response),
{
    match delivery {
        Delivery::Done => if end_of_response {
            EmonStep::Stop
        } else {
            EmonStep::Receive
        },
        Delivery::Raised | Delivery::NoCallback => EmonStep::Stop,
    }
}

/// The thread looks at the request to stop before each receipt.
pub fn before_receipt(stop_requested: bool) -> (r: EmonStep)
    ensures
        r == step_before(stop_requested),
{
    if stop_requested {
        EmonStep::Stop
    } else {
        EmonStep::Receive
    }
}

pub open spec fn initiation_checked(r: Option<Fault>, client_initiated: bool) -> bool {
    match r {
        Some(f) => !client_initiated && f@ == (FaultView::NotSupported {
            feature: "server initiated subscription"@,
        }),
        None => client_initiated,
    }
}

/// A subscription that the server initiates is refused.
pub fn check_client_initiated(client_initiated: bool) -> (r: Option<Fault>)
    ensures
        initiation_checked(r, client_initiated),
{
    if client_initiated {
        None
    } else {
        Some(Fault::NotSupported { feature: owned("server initiated subscription") })
    }
}

/// The wait ends with a signal and not before, with the error that was signalled or without one.
pub proof fn law_wait_ends_as_signalled(s: ReadyState, e: String)
    ensures
        ReadyState::waiting().answer() is None,
        ReadyState::waiting().signalled().answer() == Some(None::<String>),
        s.failed(e).answer() == Some(Some(e)),
        s.failed(e).signalled().answer() == Some(Some(e)),
        s.answer() is Some <==> s.ready,
{
}

/// A registration keeps what the server gave, and fails exactly for want of a client id; that id is
/// sent to end it.
pub proof fn law_registration_keeps_what_was_given(
    after: Registration,
    r: Result<(), Fault>,
    id: u64,
    client_id: Option<Vec<u8>>,
)
    requires
        after.registered(r, id, client_id),
    ensures
        after.id == id && after.client_id == client_id,
        r is Ok <==> client_id is Some,
        client_id matches Some(c) ==> after.sent_client_id() == c@,
        client_id is None ==> after.sent_client_id().len() == 0,
{
}

/// A statement is a query where its first word is `SELECT` or `WITH`, in any case and behind any
/// space; any other is refused.
pub proof fn law_queries_begin_with_select_or_with(
    r: Option<Fault>,
    space: Seq<char>,
    word: Seq<char>,
    rest: Seq<char>,
)
    requires
        query_checked(r, space + word + rest),
        forall|i: int| 0 <= i < space.len() ==> is_space(#[trigger] space[i]),
        forall|i: int| 0 <= i < word.len() ==> is_ascii_letter(#[trigger] word[i]),
        word.len() > 0,
        rest.len() == 0 || !is_ascii_letter(rest[0]),
    ensures
        r is None <==> lower(word) == "select"@ || lower(word) == "with"@,
{
    law_keyword_is_the_first_word(space, word, rest);
}

/// A query has the id that the server gave, but that zero is none.
pub proof fn law_zero_is_no_query_id(n: u64)
    ensures
        query_id(Some(n)) is Some <==> n != 0,
        query_id(Some(n)) matches Some(m) ==> m == n,
        query_id(None) is None,
{
}

/// The thread goes on receiving until it is told to stop, the connection ends, a delivery fails or
/// the server says that a message was the last.
pub proof fn law_thread_receives_until_the_end(n: Notification, d: Delivery, last: bool, stop: bool)
    ensures
        step_on(n) == EmonStep::Stop <==> n == Notification::Closed,
        step_on(n) == EmonStep::Deliver <==> n is Message,
        step_behind(d, last) == EmonStep::Receive <==> d == Delivery::Done && !last,
        step_behind(d, last) != EmonStep::Deliver,
        step_before(stop) == EmonStep::Stop <==> stop,
        step_before(stop) != EmonStep::Deliver,
{
}

/// Only subscriptions that the client initiates are made.
pub proof fn law_client_initiates_subscriptions(r: Option<Fault>, client_initiated: bool)
    requires
        initiation_checked(r, client_initiated),
    ensures
        r is None <==> client_initiated,
        r matches Some(f) ==> f@ is NotSupported,
{
}

} // verus!
