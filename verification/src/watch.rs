//! The table of active watch sessions: which request each watching
//! subscription re-evaluates, and the checks made before a watch is polled.
use std::collections::HashMap;

use vstd::prelude::*;

use crate::changefeed::{ChangefeedEngine, SubscriptionId};
use crate::errors::{CoreError, CoreResult};
use crate::text::{concat_decimal, decimal};

verus! {

broadcast use vstd::std_specs::hash::group_hash_axioms;

/// The request of each active watch, by subscription number.
#[derive(Debug)]
pub struct WatchSessions<R> {
    sessions: HashMap<u64, R>,
}

/// Text of the error for polling a watch with no room for events.
pub open spec fn zero_max_events_text() -> Seq<char> {
    "watch poll max_events must be > 0"@
}

/// Text of the error for polling a subscription that is not an active watch.
pub open spec fn unknown_watch_text(id: u64) -> Seq<char> {
    "unknown active watch subscription id: "@ + decimal(id as nat)
}

impl<R> WatchSessions<R> {
    pub closed spec fn sessions(&self) -> Map<u64, R> {
        self.sessions@
    }

    pub fn new() -> (r: Self)
        ensures
            r.sessions() == Map::<u64, R>::empty(),
    {
        Self { sessions: HashMap::new() }
    }

    /// Records the request a new watch re-evaluates.
    pub fn start(&mut self, id: SubscriptionId, request: R)
        ensures
            final(self).sessions() == old(self).sessions().insert(id.0, request),
    {
        self.sessions.insert(id.0, request);
    }

    /// Whether the subscription is an active watch.
    pub fn is_active(&self, id: SubscriptionId) -> (r: bool)
        ensures
            r == self.sessions().contains_key(id.0),
    {
        self.sessions.contains_key(&id.0)
    }

    /// The request of the watch about to be polled: refused when the poll has
    /// no room for events, then when the subscription is not an active watch.
    pub fn request_for_poll(&self, id: SubscriptionId, max_events: usize) -> (r: CoreResult<&R>)
        ensures
            max_events == 0 ==> (r matches Err(CoreError::QueryPlanning(m)) && m@
                == zero_max_events_text()),
            max_events > 0 && !self.sessions().contains_key(id.0) ==> (r matches Err(
                CoreError::QueryPlanning(m),
            ) && m@ == unknown_watch_text(id.0)),
            max_events > 0 && self.sessions().contains_key(id.0) ==> (r matches Ok(req) && *req
                == self.sessions()[id.0]),
    {
        if max_events == 0 {
            return Err(
                CoreError::QueryPlanning(String::from_str("watch poll max_events must be > 0")),
            );
        }
        match self.sessions.get(&id.0) {
            Some(request) => Ok(request),
            None => Err(
                CoreError::QueryPlanning(
                    concat_decimal("unknown active watch subscription id: ", id.0),
                ),
            ),
        }
    }

    /// Ends a watch: its session and its subscription both go. Reports
    /// whether either existed.
    pub fn stop(&mut self, feed: &mut ChangefeedEngine, id: SubscriptionId) -> (r: bool)
        ensures
            r == (old(self).sessions().contains_key(id.0) || old(feed).subscriptions().contains_key(
                id.0,
            )),
            final(self).sessions() == old(self).sessions().remove(id.0),
            final(feed).subscriptions() == old(feed).subscriptions().remove(id.0),
            final(feed).subscription_count() == old(feed).subscription_count(),
    {
        let removed_active = self.sessions.remove(&id.0).is_some();
        let removed_subscription = feed.unsubscribe(id);
        removed_active || removed_subscription
    }
}

} // verus!
