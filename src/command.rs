//! The commands a user gives the store, and what each one did.
use crate::status::Status;
use crate::store::{
    deleted, lists, saved, updated, DeletedTicket, Ticket, TicketId, TicketStore,
};
use crate::ticket::{DraftView, PatchView, TicketDescription, TicketDraft, TicketPatch, TicketTitle};
use vstd::prelude::*;

verus! {

/// A request to the store.
pub enum Command {
    /// Create a ticket.
    Create { title: TicketTitle, description: TicketDescription },
    /// Change the fields given of an existing ticket.
    Edit {
        id: TicketId,
        status: Option<Status>,
        description: Option<TicketDescription>,
        title: Option<TicketTitle>,
    },
    /// Delete a ticket.
    Delete { ticket_id: TicketId },
    /// List every ticket.
    List,
}

/// What a command did, for the caller to report.
pub enum CommandOutcome {
    /// The id of the new ticket.
    Created(TicketId),
    /// The id asked for, and the ticket as edited, if there was one.
    Edited(TicketId, Option<Ticket>),
    /// The id asked for, and the ticket that went, if there was one.
    Deleted(TicketId, Option<DeletedTicket>),
    /// Every ticket, each once.
    Listed(Vec<Ticket>),
}

/// Carries out `command` on the store and says what it did.
pub fn handle_command(ticket_store: &mut TicketStore, command: Command) -> (r: CommandOutcome)
    requires
        old(ticket_store)@.wf(),
        command is Create ==> old(ticket_store)@.current_id < u64::MAX,
    ensures
        final(ticket_store)@.wf(),
        match (command, r) {
            (Command::Create { title, description }, CommandOutcome::Created(id)) => saved(
                old(ticket_store)@,
                final(ticket_store)@,
                DraftView { title: title@, description: description@ },
                id,
                final(ticket_store)@.tickets[id].created_at,
            ),
            (
                Command::Edit { id, status, description, title },
                CommandOutcome::Edited(edited_id, t),
            ) => {
                &&& edited_id == id
                &&& updated(
                    old(ticket_store)@,
                    final(ticket_store)@,
                    id,
                    (TicketPatch { title, description, status })@,
                    final(ticket_store)@.tickets[id].updated_at,
                )
                &&& match t {
                    Some(t) => old(ticket_store)@.tickets.contains_key(id) && t@
                        == final(ticket_store)@.tickets[id],
                    None => !old(ticket_store)@.tickets.contains_key(id),
                }
            },
            (Command::Delete { ticket_id }, CommandOutcome::Deleted(deleted_id, d)) => {
                &&& deleted_id == ticket_id
                &&& deleted(old(ticket_store)@, final(ticket_store)@, ticket_id)
                &&& match d {
                    Some(d) => old(ticket_store)@.tickets.contains_key(ticket_id)
                        && d.view_ticket()@ == old(ticket_store)@.tickets[ticket_id],
                    None => !old(ticket_store)@.tickets.contains_key(ticket_id),
                }
            },
            (Command::List, CommandOutcome::Listed(v)) => {
                &&& final(ticket_store)@ == old(ticket_store)@
                &&& lists(old(ticket_store)@, v@.map_values(|t: Ticket| t@))
            },
            _ => false,
        },
{
    match command {
        Command::Create { title, description } => {
            let id = ticket_store.save(TicketDraft { title, description });
            CommandOutcome::Created(id)
        },
        Command::Edit { id, status, description, title } => {
            let patch = TicketPatch { title, description, status };
            let edited = match ticket_store.update(&id, patch) {
                Some(t) => Some(t.clone()),
                None => None,
            };
            CommandOutcome::Edited(id, edited)
        },
        Command::Delete { ticket_id } => {
            let d = ticket_store.delete(&ticket_id);
            CommandOutcome::Deleted(ticket_id, d)
        },
        Command::List => {
            let listed = ticket_store.list();
            let ghost lv = listed@.map_values(|t: &Ticket| t@);
            let mut v: Vec<Ticket> = Vec::new();
            let mut i: usize = 0;
            while i < listed.len()
                invariant
                    i <= listed@.len(),
                    lv == listed@.map_values(|t: &Ticket| t@),
                    v@.len() == i,
                    forall|j: int| 0 <= j < i ==> (#[trigger] v@[j])@ == lv[j],
                decreases listed@.len() - i,
            {
                v.push(listed[i].clone());
                i = i + 1;
            }
            assert(v@.map_values(|t: Ticket| t@) =~= lv);
            CommandOutcome::Listed(v)
        },
    }
}

} // verus!
