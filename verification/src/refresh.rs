//! A piece of bulb state that goes stale: the last value a bulb reported,
//! when it was reported, and the query that asks the bulb for it again.
//!
//! Times are readings of a monotonic clock in nanoseconds, handed in by the
//! caller.
use vstd::prelude::*;

use crate::lan::Query;

verus! {

pub struct RefreshableData<T> {
    pub data: Option<T>,
    /// How long a reported value stays fresh, in nanoseconds.
    pub max_age: u64,
    /// When the value was last reported (or the record was made).
    pub last_updated: u64,
    /// The query that asks the bulb for this value.
    pub refresh_msg: Query,
}

/// The abstract state of a [`RefreshableData`].
pub struct RefreshView<V> {
    pub data: Option<V>,
    pub max_age: u64,
    pub last_updated: u64,
    pub refresh_msg: Query,
}

pub open spec fn opt_view<T: View>(o: Option<T>) -> Option<T::V> {
    match o {
        Some(t) => Some(t@),
        None => None,
    }
}

impl<T: View> View for RefreshableData<T> {
    type V = RefreshView<T::V>;

    open spec fn view(&self) -> RefreshView<T::V> {
        RefreshView {
            data: opt_view(self.data),
            max_age: self.max_age,
            last_updated: self.last_updated,
            refresh_msg: self.refresh_msg,
        }
    }
}

/// Time elapsed from `since` to `now`; zero when `now` is earlier.
pub open spec fn elapsed(since: u64, now: u64) -> int {
    if now >= since {
        now - since
    } else {
        0
    }
}

/// An empty record made at `now`.
pub open spec fn spec_empty<V>(max_age: u64, refresh_msg: Query, now: u64) -> RefreshView<V> {
    RefreshView { data: None, max_age, last_updated: now, refresh_msg }
}

/// The record after the bulb reported `data` at `now`.
pub open spec fn spec_updated<V>(r: RefreshView<V>, data: V, now: u64) -> RefreshView<V> {
    RefreshView { data: Some(data), last_updated: now, ..r }
}

/// The value is missing, or older than the record's maximum age.
pub open spec fn spec_needs_refresh<V>(r: RefreshView<V>, now: u64) -> bool {
    r.data is None || elapsed(r.last_updated, now) > r.max_age
}

impl<T: View> RefreshableData<T> {
    pub fn empty(max_age: u64, refresh_msg: Query, now: u64) -> (r: RefreshableData<T>)
        ensures
            r@ == spec_empty::<T::V>(max_age, refresh_msg, now),
    {
        RefreshableData { data: None, max_age, last_updated: now, refresh_msg }
    }

    pub fn update(&mut self, data: T, now: u64)
        ensures
            final(self)@ == spec_updated(old(self)@, data@, now),
            final(self).data == Some(data),
    {
        self.data = Some(data);
        self.last_updated = now;
    }

    pub fn needs_refresh(&self, now: u64) -> (r: bool)
        ensures
            r == spec_needs_refresh(self@, now),
    {
        self.data.is_none() || (now >= self.last_updated && now - self.last_updated > self.max_age)
    }

    pub fn as_ref(&self) -> (r: Option<&T>)
        ensures
            r == match self.data {
                Some(ref d) => Some(d),
                None => None::<&T>,
            },
    {
        match &self.data {
            Some(d) => Some(d),
            None => None,
        }
    }
}

/// A record that was just made, or that just received a value, does not
/// need refreshing until more than its maximum age has passed; an empty
/// record always does.
pub proof fn lemma_refresh_timing<V>(r: RefreshView<V>, data: V, max_age: u64, q: Query, now: u64, later: u64)
    requires
        now <= later,
    ensures
        spec_needs_refresh(spec_empty::<V>(max_age, q, now), later),
        spec_needs_refresh(spec_updated(r, data, now), later) <==> later - now > r.max_age,
        !spec_needs_refresh(spec_updated(r, data, now), now),
{
}

} // verus!
