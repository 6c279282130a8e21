use crate::http::{built, RequestBuilder, RequestDescriptor};
use vstd::prelude::*;

verus! {

/// Seconds to wait after a failed consumption attempt before connecting again.
pub const RETRY_INTERVAL_SECS: u64 = 5;

/// Number of broker connections the pool holds at most.
pub const POOL_SIZE: usize = 10;

/// Where the consumption loop stands.
#[derive(Debug, Clone, Copy, PartialEq, Eq, Structural)]
pub enum ConsumerState {
    /// Taking a connection from the pool.
    Connecting,
    /// Declaring the queue and subscribing a consumer.
    Declaring,
    /// Handling deliveries one at a time.
    Consuming,
    /// The attempt failed; waiting to connect again.
    Failed,
}

/// What the outside world reports to the loop.
#[derive(Debug)]
pub enum ConsumerEvent {
    /// A connection and channel were acquired.
    Connected,
    /// No connection could be acquired.
    ConnectFailed,
    /// The queue was declared and a consumer subscribed.
    Subscribed,
    /// Declaring the queue or subscribing failed.
    SubscribeFailed,
    /// A delivery arrived with this payload.
    Delivered(String),
    /// A delivery arrived whose payload is not text, or the stream reported
    /// an error for one delivery.
    Unreadable,
    /// The delivery stream ended or broke.
    StreamEnded,
    /// The wait after a failure is over.
    RetryElapsed,
}

/// What the loop asks the outside world to do next.
#[derive(Debug)]
pub enum ConsumerAction {
    /// Acquire a connection from the pool.
    Connect,
    /// Declare the queue and subscribe a consumer.
    Subscribe,
    /// Wait for the next delivery.
    AwaitDelivery,
    /// Send this request, then acknowledge the delivery.
    DispatchThenAck(RequestDescriptor),
    /// Acknowledge the delivery without sending anything.
    Ack,
    /// Leave the delivery unacknowledged and go on.
    Skip,
    /// Wait this many seconds, then report `RetryElapsed`.
    WaitRetry(u64),
    /// The event does not belong to the current state: nothing to do.
    Ignore,
}

/// The consumption loop's decisions: which state follows an event, and
/// what is to be done.
pub struct Consumer {
    builder: RequestBuilder,
    state: ConsumerState,
}

impl Consumer {
    pub closed spec fn spec_builder(&self) -> (crate::http::HttpMethod, Seq<char>) {
        self.builder@
    }

    pub closed spec fn spec_state(&self) -> ConsumerState {
        self.state
    }

    /// A loop that starts by connecting.
    pub fn new(builder: RequestBuilder) -> (r: Consumer)
        ensures
            r.spec_builder() == builder@,
            r.spec_state() == ConsumerState::Connecting,
    {
        Consumer { builder, state: ConsumerState::Connecting }
    }

    pub fn state(&self) -> (r: ConsumerState)
        ensures
            r == self.spec_state(),
    {
        self.state
    }

    /// Handles one event: a failure to connect or subscribe, or the end of
    /// the delivery stream, leads to `Failed` and a wait of
    /// `RETRY_INTERVAL_SECS`; after the wait the loop connects again. Each
    /// delivery is turned into a request, which is sent and then
    /// acknowledged; a delivery that gives no request is acknowledged
    /// without sending; an unreadable one is skipped.
    pub fn step(&mut self, event: ConsumerEvent) -> (action: ConsumerAction)
        ensures
            final(self).spec_builder() == old(self).spec_builder(),
            ({
                let st = final(self).spec_state();
                let wait = action matches ConsumerAction::WaitRetry(secs) && secs
                    == RETRY_INTERVAL_SECS;
                match (old(self).spec_state(), event) {
                    (ConsumerState::Connecting, ConsumerEvent::Connected) => st
                        == ConsumerState::Declaring && action is Subscribe,
                    (ConsumerState::Connecting, ConsumerEvent::ConnectFailed) => st
                        == ConsumerState::Failed && wait,
                    (ConsumerState::Declaring, ConsumerEvent::Subscribed) => st
                        == ConsumerState::Consuming && action is AwaitDelivery,
                    (ConsumerState::Declaring, ConsumerEvent::SubscribeFailed) => st
                        == ConsumerState::Failed && wait,
                    (ConsumerState::Consuming, ConsumerEvent::Delivered(msg)) => st
                        == ConsumerState::Consuming && match built(
                        old(self).spec_builder().0,
                        old(self).spec_builder().1,
                        msg@,
                    ) {
                        Some(req) => action matches ConsumerAction::DispatchThenAck(d) && d@ == req,
                        None => action is Ack,
                    },
                    (ConsumerState::Consuming, ConsumerEvent::Unreadable) => st
                        == ConsumerState::Consuming && action is Skip,
                    (ConsumerState::Consuming, ConsumerEvent::StreamEnded) => st
                        == ConsumerState::Failed && wait,
                    (ConsumerState::Failed, ConsumerEvent::RetryElapsed) => st
                        == ConsumerState::Connecting && action is Connect,
                    _ => st == old(self).spec_state() && action is Ignore,
                }
            }),
    {
        match (self.state, event) {
            (ConsumerState::Connecting, ConsumerEvent::Connected) => {
                self.state = ConsumerState::Declaring;
                ConsumerAction::Subscribe
            },
            (ConsumerState::Connecting, ConsumerEvent::ConnectFailed)
            | (ConsumerState::Declaring, ConsumerEvent::SubscribeFailed)
            | (ConsumerState::Consuming, ConsumerEvent::StreamEnded) => {
                self.state = ConsumerState::Failed;
                ConsumerAction::WaitRetry(RETRY_INTERVAL_SECS)
            },
            (ConsumerState::Declaring, ConsumerEvent::Subscribed) => {
                self.state = ConsumerState::Consuming;
                ConsumerAction::AwaitDelivery
            },
            (ConsumerState::Consuming, ConsumerEvent::Delivered(msg)) => {
                match self.builder.build(msg.as_str()) {
                    Some(d) => ConsumerAction::DispatchThenAck(d),
                    None => ConsumerAction::Ack,
                }
            },
            (ConsumerState::Consuming, ConsumerEvent::Unreadable) => ConsumerAction::Skip,
            (ConsumerState::Failed, ConsumerEvent::RetryElapsed) => {
                self.state = ConsumerState::Connecting;
                ConsumerAction::Connect
            },
            _ => ConsumerAction::Ignore,
        }
    }
}

} // verus!
