//! When an entity was created, updated and deleted.

use vstd::prelude::*;
use chrono::naive::NaiveDateTime;
use crate::time::{duration_since_epoch, system_now};

verus! {

#[verifier::external_type_specification]
#[verifier::external_body]
pub struct ExNaiveDateTime(chrono::naive::NaiveDateTime);

/// The date and time in UTC that is `secs` seconds and `nanos`
/// nanoseconds from the Unix epoch; `None` where `chrono` cannot hold it.
pub uninterp spec fn utc_after(secs: i64, nanos: u32) -> Option<NaiveDateTime>;

/// `chrono::DateTime::from_timestamp` and `DateTime::naive_utc`: the date
/// and time that come out are a function of the seconds and nanoseconds
/// alone, which the contract gives a name.
#[verifier::external_body]
pub(crate) fn utc_after_epoch(secs: i64, nanos: u32) -> (utc: Option<NaiveDateTime>)
    ensures
        utc == utc_after(secs, nanos),
{
    match chrono::DateTime::<chrono::Utc>::from_timestamp(secs, nanos) {
        Some(utc) => Some(utc.naive_utc()),
        None => None,
    }
}

/// `chrono::DateTime::UNIX_EPOCH` and `DateTime::naive_utc`: the first
/// instant of the year 1970 in UTC.
#[verifier::external_body]
pub(crate) fn epoch() -> NaiveDateTime {
    chrono::DateTime::UNIX_EPOCH.naive_utc()
}

/// The date and time in UTC of what is `since` the epoch, where there is
/// such a date: the time must not be before the epoch, its seconds must
/// fit, and `chrono` must hold the date.
pub open spec fn utc_time(since: Result<(u64, u32), (u64, u32)>) -> Option<NaiveDateTime> {
    match since {
        Ok((secs, nanos)) => if secs <= i64::MAX {
            utc_after(secs as i64, nanos)
        } else {
            None
        },
        Err(_) => None,
    }
}

/// The date and time in UTC of what is `since` the epoch.
pub fn utc_of(since: Result<(u64, u32), (u64, u32)>) -> (utc: Option<NaiveDateTime>)
    ensures
        utc == utc_time(since),
{
    match since {
        Ok((secs, nanos)) => {
            if secs > i64::MAX as u64 {
                return None;
            }
            utc_after_epoch(secs as i64, nanos)
        },
        Err(_) => None,
    }
}

/// The date and time in UTC that the system clock shows; the epoch where
/// the clock shows a time that has no date.
pub(crate) fn utc_now() -> NaiveDateTime {
    match utc_of(duration_since_epoch(system_now())) {
        Some(utc) => utc,
        None => epoch(),
    }
}

pub struct Metadata {
    pub id: i32,
    pub created_at: NaiveDateTime,
    pub updated_at: NaiveDateTime,
    pub deleted_at: Option<NaiveDateTime>,
}

impl Metadata {
    /// The metadata of an entity that is created at `created` and was last
    /// updated at `updated`; it has no identifier yet and is not deleted.
    pub fn at(created: NaiveDateTime, updated: NaiveDateTime) -> (meta: Metadata)
        ensures
            meta.id == 0,
            meta.created_at == created,
            meta.updated_at == updated,
            meta.deleted_at is None,
    {
        Metadata { id: 0, created_at: created, updated_at: updated, deleted_at: None }
    }

    /// The metadata of an entity that is created now.
    pub fn new() -> (meta: Metadata)
        ensures
            meta.id == 0,
            meta.deleted_at is None,
    {
        let created = utc_now();
        let updated = utc_now();
        Metadata::at(created, updated)
    }

    pub fn get_id(&self) -> (id: i32)
        ensures
            id == self.id,
    {
        self.id
    }

    /// Records an update at `updated`; nothing else changes.
    pub fn touch_at(&mut self, updated: NaiveDateTime)
        ensures
            final(self).id == old(self).id,
            final(self).created_at == old(self).created_at,
            final(self).deleted_at == old(self).deleted_at,
            final(self).updated_at == updated,
    {
        self.updated_at = updated;
    }

    /// Records an update now; nothing else changes.
    pub fn touch(&mut self)
        ensures
            final(self).id == old(self).id,
            final(self).created_at == old(self).created_at,
            final(self).deleted_at == old(self).deleted_at,
    {
        let updated = utc_now();
        self.touch_at(updated);
    }
}

} // verus!
