//! One connection, from the selector to the response.
//!
//! A connection starts by decoding its selector, goes on to fetch what the
//! selector asks for, and ends by writing the response, or it ends early:
//! closed with an error, or cancelled by shutdown. The caller reads the
//! selector and writes the response; [`Handler`] does what lies between.

use vstd::prelude::*;
use crate::error::GopherError;
use crate::error::outcome_view;
use crate::fetcher::fetch;
use crate::fetcher::may_fetch;
use crate::fetcher::ResourceFetcher;

verus! {

/// The shutdown signal of `tokio_util`, `tokio_util::sync::CancellationToken`.
/// Nothing is known here of what a token holds.
#[verifier::external_type_specification]
#[verifier::external_body]
pub struct ExCancellationToken(tokio_util::sync::CancellationToken);

/// `CancellationToken::is_cancelled` of `tokio_util` tells whether the token
/// has been cancelled by now. It reads a flag inside the token and waits for
/// nothing. The answer depends on what other tasks have done, so nothing is
/// claimed of it.
pub assume_specification[ tokio_util::sync::CancellationToken::is_cancelled ](
    token: &tokio_util::sync::CancellationToken,
) -> (cancelled: bool)
;

/// The state of a connection as a mathematical value.
pub enum ConnectionModel {
    /// The selector line is being read.
    Decoding,
    /// The selector is known and what it asks for is being fetched.
    Fetching { selector: Seq<u8> },
    /// The response is at hand and is being written.
    Responding { response: Seq<u8> },
    /// The connection is closed: after the response if `error` is `None`,
    /// else without one.
    Closed { error: Option<GopherError> },
    /// Shutdown came first: the connection is dropped without a response.
    Cancelled,
}

/// What happened to a connection, as a mathematical value.
pub enum EventModel {
    /// The decoder came to an end, with the selector or without.
    Decoded(Result<Seq<u8>, GopherError>),
    /// The fetcher came back, with the bytes or without.
    Fetched(Result<Seq<u8>, GopherError>),
    /// The write of the response was made, whether it went through or not.
    Written,
    /// The shutdown signal was observed.
    Cancelled,
}

impl ConnectionModel {
    /// How a connection ends on a failure: dropped if the failure is
    /// shutdown, else closed with the error.
    pub open spec fn ended(error: GopherError) -> ConnectionModel {
        if error == GopherError::Cancelled {
            ConnectionModel::Cancelled
        } else {
            ConnectionModel::Closed { error: Some(error) }
        }
    }

    /// The state after `event`. Shutdown cancels a connection while it decodes
    /// or fetches; a response that is being written is written to its end. An
    /// event that does not fit the state leaves it as it is.
    pub open spec fn next(self, event: EventModel) -> ConnectionModel {
        match (self, event) {
            (ConnectionModel::Decoding, EventModel::Decoded(Ok(selector))) => {
                ConnectionModel::Fetching { selector }
            },
            (ConnectionModel::Decoding, EventModel::Decoded(Err(error))) => {
                ConnectionModel::ended(error)
            },
            (ConnectionModel::Decoding, EventModel::Cancelled) => ConnectionModel::Cancelled,
            (ConnectionModel::Fetching { .. }, EventModel::Fetched(Ok(response))) => {
                ConnectionModel::Responding { response }
            },
            (ConnectionModel::Fetching { .. }, EventModel::Fetched(Err(error))) => {
                ConnectionModel::ended(error)
            },
            (ConnectionModel::Fetching { .. }, EventModel::Cancelled) => ConnectionModel::Cancelled,
            (ConnectionModel::Responding { .. }, EventModel::Written) => {
                ConnectionModel::Closed { error: None }
            },
            _ => self,
        }
    }

    /// The state after the events of `events`, in their order.
    pub open spec fn run(self, events: Seq<EventModel>) -> ConnectionModel
        decreases events.len(),
    {
        if events.len() == 0 {
            self
        } else {
            self.run(events.drop_last()).next(events.last())
        }
    }

    /// Whether nothing can happen to the connection any more.
    pub open spec fn is_over(self) -> bool {
        self is Closed || self is Cancelled
    }

    /// The bytes that are written to the connection in this state, if any.
    pub open spec fn to_write(self) -> Option<Seq<u8>> {
        match self {
            ConnectionModel::Responding { response } => Some(response),
            _ => None,
        }
    }

    /// The state in which the work between reading and writing leaves a
    /// connection whose decoder gave `decoded`, whose fetcher gave `fetched`,
    /// and for which the shutdown signal was found `cancelled` after the fetch.
    pub open spec fn handled(
        decoded: Result<Seq<u8>, GopherError>,
        fetched: Result<Seq<u8>, GopherError>,
        cancelled: bool,
    ) -> ConnectionModel {
        let fetching = ConnectionModel::Decoding.next(EventModel::Decoded(decoded));
        if cancelled {
            fetching.next(EventModel::Cancelled)
        } else {
            fetching.next(EventModel::Fetched(fetched))
        }
    }
}

/// The state of a connection.
#[derive(Clone, Debug, PartialEq, Eq)]
pub enum Connection {
    /// The selector line is being read.
    Decoding,
    /// The selector is known and what it asks for is being fetched.
    Fetching { selector: Vec<u8> },
    /// The response is at hand: the caller writes it in full and reports
    /// `Written`.
    Responding { response: Vec<u8> },
    /// The connection is closed: after the response if `error` is `None`,
    /// else without a byte written, for the reason given.
    Closed { error: Option<GopherError> },
    /// Shutdown came first: the connection is dropped without a byte written.
    Cancelled,
}

/// What happened to a connection.
#[derive(Debug, PartialEq, Eq)]
pub enum ConnectionEvent {
    /// The decoder came to an end, with the selector or without.
    Decoded(Result<Vec<u8>, GopherError>),
    /// The fetcher came back, with the bytes or without.
    Fetched(Result<Vec<u8>, GopherError>),
    /// The write of the response was made, whether it went through or not.
    Written,
    /// The shutdown signal was observed.
    Cancelled,
}

impl View for Connection {
    type V = ConnectionModel;

    open spec fn view(&self) -> ConnectionModel {
        match self {
            Connection::Decoding => ConnectionModel::Decoding,
            Connection::Fetching { selector } => ConnectionModel::Fetching { selector: selector@ },
            Connection::Responding { response } => ConnectionModel::Responding {
                response: response@,
            },
            Connection::Closed { error } => ConnectionModel::Closed { error: *error },
            Connection::Cancelled => ConnectionModel::Cancelled,
        }
    }
}

impl View for ConnectionEvent {
    type V = EventModel;

    open spec fn view(&self) -> EventModel {
        match self {
            ConnectionEvent::Decoded(decoded) => EventModel::Decoded(outcome_view(*decoded)),
            ConnectionEvent::Fetched(fetched) => EventModel::Fetched(outcome_view(*fetched)),
            ConnectionEvent::Written => EventModel::Written,
            ConnectionEvent::Cancelled => EventModel::Cancelled,
        }
    }
}

impl Connection {
    /// A connection of which nothing has been read yet.
    pub fn new() -> (connection: Connection)
        ensures
            connection@ == ConnectionModel::Decoding,
    {
        Connection::Decoding
    }

    /// How a connection ends on a failure.
    fn ended(error: GopherError) -> (connection: Connection)
        ensures
            connection@ == ConnectionModel::ended(error),
    {
        if error.is_cancellation() {
            Connection::Cancelled
        } else {
            Connection::Closed { error: Some(error) }
        }
    }

    /// The state after `event`.
    pub fn step(self, event: ConnectionEvent) -> (connection: Connection)
        ensures
            connection@ == self@.next(event@),
    {
        match (self, event) {
            (Connection::Decoding, ConnectionEvent::Decoded(Ok(selector))) => {
                Connection::Fetching { selector }
            },
            (Connection::Decoding, ConnectionEvent::Decoded(Err(error))) => {
                Connection::ended(error)
            },
            (Connection::Decoding, ConnectionEvent::Cancelled) => Connection::Cancelled,
            (Connection::Fetching { .. }, ConnectionEvent::Fetched(Ok(response))) => {
                Connection::Responding { response }
            },
            (Connection::Fetching { .. }, ConnectionEvent::Fetched(Err(error))) => {
                Connection::ended(error)
            },
            (Connection::Fetching { .. }, ConnectionEvent::Cancelled) => Connection::Cancelled,
            (Connection::Responding { .. }, ConnectionEvent::Written) => {
                Connection::Closed { error: None }
            },
            (state, _) => state,
        }
    }

    /// Takes in what the fetcher gave, unless shutdown has begun meanwhile: a
    /// cancellation found after the fetch and before the write keeps the
    /// response from being written.
    pub fn respond(self, fetched: Result<Vec<u8>, GopherError>, cancelled: bool) -> (connection:
        Connection)
        ensures
            cancelled ==> connection@ == self@.next(EventModel::Cancelled),
            !cancelled ==> connection@ == self@.next(EventModel::Fetched(outcome_view(fetched))),
    {
        if cancelled {
            self.step(ConnectionEvent::Cancelled)
        } else {
            self.step(ConnectionEvent::Fetched(fetched))
        }
    }
}

/// What serves one connection: the fetcher to ask, and the shutdown signal to
/// heed.
pub struct Handler<R: ResourceFetcher> {
    fetcher: R,
    token: tokio_util::sync::CancellationToken,
}

impl<R: ResourceFetcher> Handler<R> {
    /// A handler that asks `fetcher` and heeds `token`.
    pub fn new(fetcher: R, token: tokio_util::sync::CancellationToken) -> (handler: Handler<R>)
        ensures
            handler.fetcher() == fetcher,
    {
        Handler { fetcher, token }
    }

    /// The fetcher that this handler asks.
    pub closed spec fn fetcher(&self) -> R {
        self.fetcher
    }

    /// Does the work of one connection between reading the selector and
    /// writing the response.
    ///
    /// `decoded` is what the decoder gave, or `Err(Cancelled)` if shutdown
    /// came while the selector was read. Without a selector the connection
    /// ends at once, and the fetcher is not asked. With one the fetcher is
    /// asked, for the home resource if the selector is empty, and the
    /// shutdown signal is looked at once the fetcher is back. The connection
    /// is left `Responding` with the bytes that the fetcher gave, unchanged,
    /// if it gave any and shutdown has not begun; it is left `Cancelled` if
    /// shutdown has begun, and `Closed` with the fetcher's error otherwise.
    pub fn handle_connection(&self, decoded: Result<Vec<u8>, GopherError>) -> (connection:
        Connection)
        ensures
            connection@ != ConnectionModel::Decoding,
            !(connection@ is Fetching),
            decoded matches Err(error) ==> connection@ == ConnectionModel::ended(error),
            decoded matches Ok(selector) ==> exists|
                fetched: Result<Seq<u8>, GopherError>,
                cancelled: bool,
            |
                {
                    &&& may_fetch(&self.fetcher(), selector@, fetched)
                    &&& connection@ == #[trigger] ConnectionModel::handled(
                        Ok(selector@),
                        fetched,
                        cancelled,
                    )
                },
            decoded matches Ok(selector) ==> connection@ matches ConnectionModel::Responding {
                response,
            } ==> may_fetch(&self.fetcher(), selector@, Ok(response)),
    {
        let started: Connection = Connection::new().step(ConnectionEvent::Decoded(decoded));
        match started {
            Connection::Fetching { selector } => {
                let fetched: Result<Vec<u8>, GopherError> = fetch(&self.fetcher, selector.as_slice());
                let cancelled: bool = self.token.is_cancelled();
                let ghost asked = selector@;
                let connection: Connection = Connection::Fetching { selector }.respond(
                    fetched,
                    cancelled,
                );
                assert(connection@ == ConnectionModel::handled(
                    Ok(asked),
                    outcome_view(fetched),
                    cancelled,
                ));
                connection
            },
            other => other,
        }
    }
}

/// A connection that is closed or cancelled stays as it is, whatever comes.
pub proof fn lemma_over_is_final(state: ConnectionModel, events: Seq<EventModel>)
    requires
        state.is_over(),
    ensures
        state.run(events) == state,
    decreases events.len(),
{
    if events.len() > 0 {
        lemma_over_is_final(state, events.drop_last());
    }
}

/// Shutdown cancels a connection exactly while it decodes or fetches; a
/// connection that is responding goes on to write.
pub proof fn lemma_cancellation_reaches(state: ConnectionModel)
    ensures
        state is Decoding || state is Fetching ==> state.next(EventModel::Cancelled)
            == ConnectionModel::Cancelled,
        state is Responding ==> state.next(EventModel::Cancelled) == state,
        state.next(EventModel::Cancelled).to_write() == state.to_write(),
{
}

/// Bytes are written only for a connection that decoded its selector and
/// fetched with success, and they are the bytes that the fetcher gave.
pub proof fn lemma_response_is_what_was_fetched(state: ConnectionModel, event: EventModel)
    requires
        state.to_write() is None,
        state.next(event).to_write() is Some,
    ensures
        state is Fetching,
        event == EventModel::Fetched(Ok(state.next(event).to_write()->0)),
{
}

/// Nothing is written for a request that fails or is cancelled: no selector,
/// no resource, a selector that leads out of the served directory, or
/// shutdown after the fetch, each leaves the connection with nothing to
/// write.
pub proof fn lemma_failure_writes_nothing(
    decoded: Result<Seq<u8>, GopherError>,
    fetched: Result<Seq<u8>, GopherError>,
    cancelled: bool,
)
    ensures
        ConnectionModel::handled(decoded, fetched, cancelled).to_write() is Some <==> decoded is Ok
            && fetched is Ok && !cancelled,
        ConnectionModel::handled(decoded, fetched, cancelled).to_write() matches Some(response)
            ==> fetched == Ok::<Seq<u8>, GopherError>(response),
        decoded is Err || fetched is Err || cancelled ==> ConnectionModel::handled(
            decoded,
            fetched,
            cancelled,
        ).is_over(),
{
}

} // verus!
