//! Calendar access types. The platform bridge that queries the system
//! calendar lives outside the library; these are the values it traffics in,
//! and the authorization test on a permission status.

use vstd::prelude::*;

verus! {

/// The platform's calendar permission status.
#[derive(Debug, Clone, Copy, PartialEq, Eq, Structural)]
pub enum CalendarPermission {
    NotDetermined,
    Restricted,
    Denied,
    Authorized,
    FullAccess,
}

/// The permission a platform status code denotes; unknown codes mean
/// not-determined.
pub open spec fn permission_from_code(value: i32) -> CalendarPermission {
    if value == 0 {
        CalendarPermission::NotDetermined
    } else if value == 1 {
        CalendarPermission::Restricted
    } else if value == 2 {
        CalendarPermission::Denied
    } else if value == 3 {
        CalendarPermission::Authorized
    } else if value == 4 {
        CalendarPermission::FullAccess
    } else {
        CalendarPermission::NotDetermined
    }
}

impl From<i32> for CalendarPermission {
    fn from(value: i32) -> (r: Self) {
        match value {
            0 => CalendarPermission::NotDetermined,
            1 => CalendarPermission::Restricted,
            2 => CalendarPermission::Denied,
            3 => CalendarPermission::Authorized,
            4 => CalendarPermission::FullAccess,
            _ => CalendarPermission::NotDetermined,
        }
    }
}

impl vstd::std_specs::convert::FromSpecImpl<i32> for CalendarPermission {
    open spec fn obeys_from_spec() -> bool {
        true
    }

    open spec fn from_spec(v: i32) -> Self {
        permission_from_code(v)
    }
}

/// Whether a permission status allows reading the calendar.
pub fn is_authorized(status: CalendarPermission) -> (r: bool)
    ensures
        r == (status == CalendarPermission::Authorized || status
            == CalendarPermission::FullAccess),
{
    match status {
        CalendarPermission::Authorized => true,
        CalendarPermission::FullAccess => true,
        _ => false,
    }
}

/// A calendar known to the platform.
#[derive(Debug, Clone)]
pub struct CalendarInfo {
    pub id: String,
    pub title: String,
    pub color: String,
    pub is_subscribed: bool,
    pub allows_modify: bool,
}

/// An event in a calendar.
#[derive(Debug, Clone)]
pub struct CalendarEvent {
    pub id: String,
    pub title: String,
    pub start: String,
    pub end: String,
    pub is_all_day: bool,
    pub location: String,
    pub notes: String,
    pub calendar_id: String,
    pub calendar_title: String,
    pub calendar_color: String,
    pub url: String,
}

} // verus!
