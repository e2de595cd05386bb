//! The redis connections for notifications and the cache.

use vstd::prelude::*;
use crate::code_executor::push_u128;
use crate::configuration::RedisSettings;
use crate::text::{decimal, owned, push_str};

verus! {

/// `"redis://{host}:{port}"`.
pub fn redis_address(settings: &RedisSettings) -> (r: String)
    ensures
        r@ == "redis://"@ + settings.host@ + ":"@ + decimal(settings.port as nat),
{
    let mut s = owned("redis://");
    push_str(&mut s, settings.host.as_str());
    push_str(&mut s, ":");
    push_u128(&mut s, settings.port as u128);
    s
}

/// The channel notifications are published on.
pub fn notification_channel() -> (r: String)
    ensures
        r@ == "channel_1"@,
{
    owned("channel_1")
}

/// The client of the pool used for notifications: the first, when there is one.
pub fn notifier_client(clients: usize) -> (r: Option<usize>)
    ensures
        clients > 0 ==> r == Some(0usize),
        clients == 0 ==> r is None,
{
    if clients > 0 {
        Some(0)
    } else {
        None
    }
}

/// The client of the pool used as cache: the second, when there is one.
pub fn cache_client(clients: usize) -> (r: Option<usize>)
    ensures
        clients > 1 ==> r == Some(1usize),
        clients <= 1 ==> r is None,
{
    if clients > 1 {
        Some(1)
    } else {
        None
    }
}

} // verus!
