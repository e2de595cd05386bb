//! The message broker connection: its address and the health of a pooled
//! connection.

use vstd::prelude::*;
use crate::code_executor::push_u128;
use crate::configuration::RabbitMqSettings;
use crate::text::{decimal, owned, push_str};

verus! {

/// `"amqp://{host}:{port}"`.
pub fn amqp_address(settings: &RabbitMqSettings) -> (r: String)
    ensures
        r@ == "amqp://"@ + settings.host@ + ":"@ + decimal(settings.port as nat),
{
    let mut s = owned("amqp://");
    push_str(&mut s, settings.host.as_str());
    push_str(&mut s, ":");
    push_u128(&mut s, settings.port as u128);
    s
}

/// The states a broker connection goes through.
#[derive(Debug, PartialEq, Eq, Structural, Clone, Copy)]
pub enum BrokerConnectionState {
    Initial,
    Connecting,
    Connected,
    Closing,
    Closed,
    Reconnecting,
    Error,
}

/// A pooled connection may be handed out while it is starting or connected.
pub fn is_valid_state(state: BrokerConnectionState) -> (r: bool)
    ensures
        r == (state == BrokerConnectionState::Initial || state == BrokerConnectionState::Connecting
            || state == BrokerConnectionState::Connected),
{
    match state {
        BrokerConnectionState::Initial => true,
        BrokerConnectionState::Connecting => true,
        BrokerConnectionState::Connected => true,
        _ => false,
    }
}

/// A pooled connection is broken once closed or failed.
pub fn has_broken_state(state: BrokerConnectionState) -> (r: bool)
    ensures
        r == (state == BrokerConnectionState::Closed || state == BrokerConnectionState::Error),
{
    match state {
        BrokerConnectionState::Closed => true,
        BrokerConnectionState::Error => true,
        _ => false,
    }
}

} // verus!
