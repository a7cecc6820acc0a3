//! Events emitted by the contract, recorded in an event log in emission order.

use vstd::prelude::*;

verus! {

/// An event of the contract's audit log.
#[derive(Debug)]
pub enum Event {
    /// A professional was authorized (topics `auth`, `pro`).
    ProfessionalAuthorized { professional: String, name: String, category: String },
    /// A professional was unauthorized (topics `unauth`, `pro`).
    ProfessionalUnauthorized { professional: String },
    /// A professional's authorization was checked (topics `check`, `auth`).
    AuthorizationChecked { professional: String, authorized: bool },
    /// A time slot was created (topics `slot`, `create`).
    TimeSlotCreated { slot_id: u32, professional: String, start_time: u64, end_time: u64 },
}

/// The two topic symbols under which an event is published.
pub open spec fn event_topics(e: Event) -> (Seq<char>, Seq<char>) {
    match e {
        Event::ProfessionalAuthorized { .. } => ("auth"@, "pro"@),
        Event::ProfessionalUnauthorized { .. } => ("unauth"@, "pro"@),
        Event::AuthorizationChecked { .. } => ("check"@, "auth"@),
        Event::TimeSlotCreated { .. } => ("slot"@, "create"@),
    }
}

impl Event {
    /// The two topic symbols under which this event is published.
    pub fn topics(&self) -> (r: (&'static str, &'static str))
        ensures
            (r.0@, r.1@) == event_topics(*self),
    {
        match self {
            Event::ProfessionalAuthorized { .. } => ("auth", "pro"),
            Event::ProfessionalUnauthorized { .. } => ("unauth", "pro"),
            Event::AuthorizationChecked { .. } => ("check", "auth"),
            Event::TimeSlotCreated { .. } => ("slot", "create"),
        }
    }
}

/// Emitted when a professional is authorized.
pub fn professional_authorized(
    log: &mut Vec<Event>,
    professional: &String,
    name: &String,
    category: &String,
)
    ensures
        final(log)@ == old(log)@.push(
            Event::ProfessionalAuthorized {
                professional: *professional,
                name: *name,
                category: *category,
            },
        ),
{
    log.push(
        Event::ProfessionalAuthorized {
            professional: professional.clone(),
            name: name.clone(),
            category: category.clone(),
        },
    );
}

/// Emitted when a professional is unauthorized.
pub fn professional_unauthorized(log: &mut Vec<Event>, professional: &String)
    ensures
        final(log)@ == old(log)@.push(Event::ProfessionalUnauthorized { professional: *professional }),
{
    log.push(Event::ProfessionalUnauthorized { professional: professional.clone() });
}

/// Emitted when authorization is checked.
pub fn authorization_checked(log: &mut Vec<Event>, professional: &String, authorized: bool)
    ensures
        final(log)@ == old(log)@.push(
            Event::AuthorizationChecked { professional: *professional, authorized },
        ),
{
    log.push(Event::AuthorizationChecked { professional: professional.clone(), authorized });
}

/// Emitted when a time slot is created.
pub fn time_slot_created(
    log: &mut Vec<Event>,
    slot_id: u32,
    professional: &String,
    start_time: u64,
    end_time: u64,
)
    ensures
        final(log)@ == old(log)@.push(
            Event::TimeSlotCreated { slot_id, professional: *professional, start_time, end_time },
        ),
{
    log.push(
        Event::TimeSlotCreated {
            slot_id,
            professional: professional.clone(),
            start_time,
            end_time,
        },
    );
}

} // verus!
