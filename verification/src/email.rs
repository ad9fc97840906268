//! The notification of a reported change: what it says, who sends it and who
//! gets it. Rendering and sending it is left to the caller.

use crate::config::Config;
use crate::status::Status;
use crate::time::Timestamp;
use vstd::prelude::*;

verus! {

/// The name of the template that the notification is rendered with.
pub const TEMPLATE_NAME: &'static str = "status_change";

/// What the notification says: the new verdict and when it was announced.
#[derive(Clone, Copy, Debug, PartialEq, Eq, Structural)]
pub struct StatusChangeEmail {
    pub healthy: bool,
    pub changed_at: Timestamp,
}

impl StatusChangeEmail {
    /// The notification on an observation, announced at `changed_at`.
    pub fn new(status: &Status, changed_at: Timestamp) -> (email: StatusChangeEmail)
        ensures
            email.healthy == status.is_healthy(),
            email.changed_at == changed_at,
    {
        StatusChangeEmail { healthy: status.healthy(), changed_at }
    }
}

/// A notification that is ready to be rendered and sent.
#[derive(Clone, Debug, PartialEq, Eq)]
pub struct OutgoingEmail {
    /// The sender.
    pub from_email_address: String,
    /// The recipients.
    pub to_addresses: Vec<String>,
    /// The template to render.
    pub template_name: String,
    /// What the template is filled with.
    pub template: StatusChangeEmail,
}

/// The notification on an observation, announced at `now`: from the
/// configured sender to the one configured recipient.
pub fn send_email(status: Status, config: &Config, now: Timestamp) -> (email: OutgoingEmail)
    ensures
        email.from_email_address@ == config.from_email_address@,
        email.to_addresses@.len() == 1,
        email.to_addresses@[0]@ == config.to_email_address@,
        email.template_name@ == TEMPLATE_NAME@,
        email.template.healthy == status.is_healthy(),
        email.template.changed_at == now,
{
    let template = StatusChangeEmail::new(&status, now);
    let mut to_addresses: Vec<String> = Vec::new();
    to_addresses.push(config.to_email_address.clone());
    OutgoingEmail {
        from_email_address: config.from_email_address.clone(),
        to_addresses,
        template_name: TEMPLATE_NAME.to_string(),
        template,
    }
}

} // verus!
