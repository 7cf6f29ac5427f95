//! Calendar and event records as the remote service returns them.
use vstd::prelude::*;

verus! {

/// A calendar of the signed-in user.
#[derive(Debug)]
pub struct GraphCalendar {
    pub id: String,
    pub name: String,
    pub can_share: Option<bool>,
}

/// A wall-clock timestamp with the zone name the remote attached to it.
#[derive(Debug)]
pub struct DateTimeTimeZone {
    pub date_time: String,
    pub _time_zone: String,
}

#[derive(Debug)]
pub struct Location {
    pub display_name: String,
}

#[derive(Debug)]
pub struct EmailAddress {
    pub name: String,
    pub address: String,
}

#[derive(Debug)]
pub struct Organizer {
    pub email_address: EmailAddress,
}

#[derive(Debug)]
pub struct ItemBody {
    pub content: String,
}

#[derive(Debug)]
pub struct Attendee {
    pub email_address: Option<EmailAddress>,
}

/// An event occurrence.
#[derive(Debug)]
pub struct GraphEvent {
    pub id: String,
    pub subject: String,
    pub start: DateTimeTimeZone,
    pub end: DateTimeTimeZone,
    pub body: Option<ItemBody>,
    pub attendees: Vec<Attendee>,
    pub location: Option<Location>,
    pub organizer: Option<Organizer>,
}

impl GraphCalendar {
    /// A field-for-field copy.
    pub fn copy(&self) -> (r: GraphCalendar)
        ensures
            r == *self,
    {
        GraphCalendar { id: self.id.clone(), name: self.name.clone(), can_share: self.can_share }
    }
}

impl DateTimeTimeZone {
    /// A field-for-field copy.
    pub fn copy(&self) -> (r: DateTimeTimeZone)
        ensures
            r == *self,
    {
        DateTimeTimeZone { date_time: self.date_time.clone(), _time_zone: self._time_zone.clone() }
    }
}

impl EmailAddress {
    /// A field-for-field copy.
    pub fn copy(&self) -> (r: EmailAddress)
        ensures
            r == *self,
    {
        EmailAddress { name: self.name.clone(), address: self.address.clone() }
    }
}

fn copy_email(e: &Option<EmailAddress>) -> (r: Option<EmailAddress>)
    ensures
        r == *e,
{
    match e {
        Some(a) => Some(a.copy()),
        None => None,
    }
}

impl GraphEvent {
    /// Equal in every field, the attendee lists by their contents.
    pub open spec fn same(self, o: GraphEvent) -> bool {
        &&& self.id == o.id
        &&& self.subject == o.subject
        &&& self.start == o.start
        &&& self.end == o.end
        &&& self.body == o.body
        &&& self.attendees@ == o.attendees@
        &&& self.location == o.location
        &&& self.organizer == o.organizer
    }

    /// A field-for-field copy.
    pub fn copy(&self) -> (r: GraphEvent)
        ensures
            r.same(*self),
    {
        let mut attendees: Vec<Attendee> = Vec::new();
        let mut i: usize = 0;
        while i < self.attendees.len()
            invariant
                i <= self.attendees@.len(),
                attendees@ == self.attendees@.subrange(0, i as int),
            decreases self.attendees@.len() - i,
        {
            attendees.push(Attendee { email_address: copy_email(&self.attendees[i].email_address) });
            i = i + 1;
            proof {
                assert(attendees@ =~= self.attendees@.subrange(0, i as int));
            }
        }
        proof {
            assert(attendees@ =~= self.attendees@);
        }
        GraphEvent {
            id: self.id.clone(),
            subject: self.subject.clone(),
            start: self.start.copy(),
            end: self.end.copy(),
            body: match &self.body {
                Some(b) => Some(ItemBody { content: b.content.clone() }),
                None => None,
            },
            attendees,
            location: match &self.location {
                Some(l) => Some(Location { display_name: l.display_name.clone() }),
                None => None,
            },
            organizer: match &self.organizer {
                Some(o) => Some(Organizer { email_address: o.email_address.copy() }),
                None => None,
            },
        }
    }
}

} // verus!
