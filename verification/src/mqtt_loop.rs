//! Decisions of the MQTT event loop: what to do with each event the client
//! reports, and the counters it keeps. The caller polls the connection,
//! performs the action and hands the next event back.

use vstd::prelude::*;

verus! {

/// How a message topic under the Zigbee2MQTT namespace was classified.
#[derive(Debug, Clone, Copy, PartialEq, Eq, Structural)]
pub struct TopicFlags {
    /// A response of the bridge (such as the network map)
    pub bridge_response: bool,
    /// An event of the bridge (such as a device joining)
    pub bridge_event: bool,
    /// Any other bridge topic
    pub bridge: bool,
    /// A `/set` command topic
    pub command_channel: bool,
    /// An `/availability` topic
    pub availability: bool,
    /// The topic names a device
    pub has_device_id: bool,
}

/// What the MQTT client reported.
#[derive(Debug, Clone, Copy, PartialEq, Eq, Structural)]
pub enum LoopEvent {
    /// The broker accepted the connection
    ConnAck { session_present: bool },
    /// A message arrived; `duplicate` when the deduplication filter drops
    /// it, `topic` when it is under the Zigbee2MQTT namespace
    Publish { duplicate: bool, topic: Option<TopicFlags> },
    /// Any other incoming packet
    OtherIncoming,
    /// A packet was sent
    Outgoing,
    /// Polling the connection failed
    ConnectionError,
}

/// What the loop does next.
#[derive(Debug, Clone, Copy, PartialEq, Eq, Structural)]
pub enum LoopAction {
    /// Nothing but what the counters record
    Nothing,
    /// Subscribe again to every stored topic (the broker lost the session)
    Resubscribe,
    /// Pass the payload, as UTF-8, to the bridge-response handler
    HandleBridgeResponse,
    /// Pass the payload, as UTF-8, to the bridge-event handler
    HandleBridgeEvent,
    /// Parse the payload as a device message and handle it
    HandleDeviceMessage,
    /// Wait five seconds before polling again
    WaitAndRetry,
}

/// Seconds to wait after a connection error.
pub const RETRY_DELAY_SECS: u64 = 5;

/// Statistics are logged every this many messages.
pub const STATS_EVERY: u64 = 100;

/// The loop's counters.
#[derive(Debug, Clone, Copy)]
pub struct LoopCounters {
    pub messages: u64,
    pub errors: u64,
    pub skipped_bridge: u64,
    pub parse_errors: u64,
}

/// The action for a message under the namespace, by the first flag that
/// holds in this order: bridge response, bridge event, other bridge topic,
/// command topic, availability topic, no device id; else a device message.
pub open spec fn spec_topic_action(t: TopicFlags) -> LoopAction {
    if t.bridge_response {
        LoopAction::HandleBridgeResponse
    } else if t.bridge_event {
        LoopAction::HandleBridgeEvent
    } else if t.bridge || t.command_channel || t.availability || !t.has_device_id {
        LoopAction::Nothing
    } else {
        LoopAction::HandleDeviceMessage
    }
}

/// The action for an event.
pub open spec fn spec_action(e: LoopEvent) -> LoopAction {
    match e {
        LoopEvent::ConnAck { session_present } => if session_present {
            LoopAction::Nothing
        } else {
            LoopAction::Resubscribe
        },
        LoopEvent::Publish { duplicate, topic } => if duplicate {
            LoopAction::Nothing
        } else {
            match topic {
                Some(t) => spec_topic_action(t),
                None => LoopAction::Nothing,
            }
        },
        LoopEvent::ConnectionError => LoopAction::WaitAndRetry,
        _ => LoopAction::Nothing,
    }
}

/// Whether the event goes on to the periodic statistics check (the
/// events handled by skipping to the next poll do not).
pub open spec fn spec_reaches_stats(e: LoopEvent) -> bool {
    match e {
        LoopEvent::ConnAck { .. } => false,
        LoopEvent::Publish { duplicate, topic } => !duplicate && match topic {
            Some(t) => spec_topic_action(t) is HandleDeviceMessage,
            None => true,
        },
        _ => true,
    }
}

/// The counters after an event.
pub open spec fn spec_count(c: LoopCounters, e: LoopEvent) -> LoopCounters {
    match e {
        LoopEvent::Publish { duplicate, topic } => LoopCounters {
            messages: (c.messages + 1) as u64,
            skipped_bridge: if !duplicate && (topic matches Some(t) && !t.bridge_response && !t.bridge_event
                && t.bridge) {
                (c.skipped_bridge + 1) as u64
            } else {
                c.skipped_bridge
            },
            ..c
        },
        LoopEvent::ConnectionError => LoopCounters { errors: (c.errors + 1) as u64, ..c },
        _ => c,
    }
}

impl LoopCounters {
    pub fn new() -> (r: Self)
        ensures
            r.messages == 0,
            r.errors == 0,
            r.skipped_bridge == 0,
            r.parse_errors == 0,
    {
        LoopCounters { messages: 0, errors: 0, skipped_bridge: 0, parse_errors: 0 }
    }

    /// Handles one event: updates the counters and returns the action and
    /// whether statistics are due (every hundredth message, checked only on
    /// the paths that reach the end of a loop turn).
    pub fn step(&mut self, e: LoopEvent) -> (r: (LoopAction, bool))
        requires
            old(self).messages < u64::MAX,
            old(self).errors < u64::MAX,
            old(self).skipped_bridge < u64::MAX,
        ensures
            *final(self) == spec_count(*old(self), e),
            r.0 == spec_action(e),
            r.1 == (spec_reaches_stats(e) && final(self).messages % STATS_EVERY == 0 && final(self).messages > 0),
    {
        let action = match e {
            LoopEvent::ConnAck { session_present } => {
                if session_present {
                    LoopAction::Nothing
                } else {
                    LoopAction::Resubscribe
                }
            },
            LoopEvent::Publish { duplicate, topic } => {
                self.messages = self.messages + 1;
                if duplicate {
                    LoopAction::Nothing
                } else {
                    match topic {
                        None => LoopAction::Nothing,
                        Some(t) => {
                            if t.bridge_response {
                                LoopAction::HandleBridgeResponse
                            } else if t.bridge_event {
                                LoopAction::HandleBridgeEvent
                            } else if t.bridge {
                                self.skipped_bridge = self.skipped_bridge + 1;
                                LoopAction::Nothing
                            } else if t.command_channel || t.availability || !t.has_device_id {
                                LoopAction::Nothing
                            } else {
                                LoopAction::HandleDeviceMessage
                            }
                        },
                    }
                }
            },
            LoopEvent::ConnectionError => {
                self.errors = self.errors + 1;
                LoopAction::WaitAndRetry
            },
            _ => LoopAction::Nothing,
        };
        let reaches = match e {
            LoopEvent::ConnAck { .. } => false,
            LoopEvent::Publish { duplicate, topic } => !duplicate && match topic {
                Some(_) => match action {
                    LoopAction::HandleDeviceMessage => true,
                    _ => false,
                },
                None => true,
            },
            _ => true,
        };
        (action, reaches && self.messages % STATS_EVERY == 0 && self.messages > 0)
    }

    /// Records a device payload that failed to parse.
    pub fn record_parse_failure(&mut self)
        requires
            old(self).parse_errors < u64::MAX,
        ensures
            *final(self) == (LoopCounters { parse_errors: (old(self).parse_errors + 1) as u64, ..*old(self) }),
    {
        self.parse_errors = self.parse_errors + 1;
    }
}

/// Every message counts, duplicates and foreign topics included; only a
/// connection error counts as an error, and it always leads to a wait.
pub proof fn law_every_message_counted(c: LoopCounters, e: LoopEvent)
    requires
        c.messages < u64::MAX,
        c.errors < u64::MAX,
        c.skipped_bridge < u64::MAX,
    ensures
        spec_count(c, e).messages == c.messages + if e is Publish {
            1int
        } else {
            0
        },
        spec_count(c, e).errors == c.errors + if e is ConnectionError {
            1int
        } else {
            0
        },
        (spec_action(e) is WaitAndRetry) <==> (e is ConnectionError),
{
}

/// Where each message goes: a duplicate, or a message outside the
/// namespace, is dropped; a bridge response goes to the response handler; a
/// bridge event that is not a response goes to the event handler; and a
/// message reaches the device handler exactly when it is on a device's own
/// topic (not a bridge topic, not a command or availability topic, and
/// naming a device). A session the broker lost is subscribed again.
pub proof fn law_message_dispatch(duplicate: bool, t: TopicFlags, session_present: bool)
    ensures
        spec_action(LoopEvent::Publish { duplicate: true, topic: Some(t) }) == LoopAction::Nothing,
        spec_action(LoopEvent::Publish { duplicate, topic: None }) == LoopAction::Nothing,
        t.bridge_response ==> spec_action(LoopEvent::Publish { duplicate: false, topic: Some(t) })
            == LoopAction::HandleBridgeResponse,
        !t.bridge_response && t.bridge_event ==> spec_action(LoopEvent::Publish { duplicate: false, topic: Some(t) })
            == LoopAction::HandleBridgeEvent,
        (spec_action(LoopEvent::Publish { duplicate: false, topic: Some(t) }) == LoopAction::HandleDeviceMessage) <==> (
        !t.bridge_response && !t.bridge_event && !t.bridge && !t.command_channel && !t.availability
            && t.has_device_id),
        spec_action(LoopEvent::Publish { duplicate, topic: Some(t) }) == LoopAction::HandleBridgeEvent ==> t.bridge_event,
        spec_action(LoopEvent::Publish { duplicate, topic: Some(t) }) == LoopAction::HandleBridgeResponse
            ==> t.bridge_response,
        (spec_action(LoopEvent::ConnAck { session_present }) == LoopAction::Resubscribe) <==> !session_present,
{
}

} // verus!
