//! Creating, renaming and deleting a profile on the server.

use crate::error::{Error, ErrorView};
use crate::exchange::{
    change_profile_on_server, create_profile_on_server, creation_outcome, plain_outcome,
    sent_well_formed, Request,
};
use crate::procedure::{access_error, denied, fails, Event, Next, Work};
use vstd::prelude::*;

verus! {

/// Where the creation of a profile stands, by the work that is under way.
#[derive(Debug)]
pub enum CreateState {
    Authorizing { request: Request },
    Sending,
    Parsing,
}

/// The event is what the work under way can lead to.
pub open spec fn create_awaits(state: CreateState, event: Event) -> bool {
    match state {
        CreateState::Authorizing { .. } => event is Authorized,
        CreateState::Sending => event matches Event::Replied(sent) && sent_well_formed(sent),
        CreateState::Parsing => event is IdParsed,
    }
}

/// The creation goes on from `before` to `next` on `event`, and answers the identifier that the
/// server gave the profile.
pub open spec fn create_advances(
    before: CreateState,
    event: Event,
    next: Next<CreateState, u32>,
) -> bool {
    match (before, event) {
        (CreateState::Authorizing { request }, Event::Authorized(granted)) => match granted {
            Err(failure) => fails(next, access_error(failure)),
            Ok(_) => next == Next::<CreateState, u32>::Continue(
                CreateState::Sending,
                Work::Send(request),
            ),
        },
        (CreateState::Sending, Event::Replied(sent)) => match creation_outcome(sent) {
            Err(error) => fails(next, error),
            Ok(body) => next matches Next::Continue(after, work) && {
                &&& after is Parsing
                &&& work matches Work::ParseId(text) && text@ == body
            },
        },
        (CreateState::Parsing, Event::IdParsed(parsed)) => match parsed {
            Err(reason) => fails(next, ErrorView::InvalidResponse(reason@)),
            Ok(id) => next == Next::<CreateState, u32>::Finish(Ok(id)),
        },
        _ => false,
    }
}

impl CreateState {
    /// Takes what the work under way led to, and says how the procedure goes on.
    pub fn advance(self, event: Event) -> (next: Next<CreateState, u32>)
        requires
            create_awaits(self, event),
        ensures
            create_advances(self, event, next),
    {
        match (self, event) {
            (CreateState::Authorizing { request }, Event::Authorized(granted)) => match granted {
                Err(failure) => Next::Finish(Err(denied(failure))),
                Ok(_) => Next::Continue(CreateState::Sending, Work::Send(request)),
            },
            (CreateState::Sending, Event::Replied(sent)) => match create_profile_on_server(sent) {
                Err(error) => Next::Finish(Err(error)),
                Ok(text) => Next::Continue(CreateState::Parsing, Work::ParseId(text)),
            },
            (CreateState::Parsing, Event::IdParsed(parsed)) => match parsed {
                Err(reason) => Next::Finish(Err(Error::InvalidResponse(reason))),
                Ok(id) => Next::Finish(Ok(id)),
            },
            _ => vstd::pervasive::unreached(),
        }
    }
}

/// Where the renaming or the deletion of a profile stands, by the work that is under way.
#[derive(Debug)]
pub enum ChangeState {
    Authorizing { request: Request },
    Sending,
}

/// The event is what the work under way can lead to.
pub open spec fn change_awaits(state: ChangeState, event: Event) -> bool {
    match state {
        ChangeState::Authorizing { .. } => event is Authorized,
        ChangeState::Sending => event matches Event::Replied(sent) && sent_well_formed(sent),
    }
}

/// The change goes on from `before` to `next` on `event`.
pub open spec fn change_advances(
    before: ChangeState,
    event: Event,
    next: Next<ChangeState, ()>,
) -> bool {
    match (before, event) {
        (ChangeState::Authorizing { request }, Event::Authorized(granted)) => match granted {
            Err(failure) => fails(next, access_error(failure)),
            Ok(_) => next == Next::<ChangeState, ()>::Continue(
                ChangeState::Sending,
                Work::Send(request),
            ),
        },
        (ChangeState::Sending, Event::Replied(sent)) => match plain_outcome(sent) {
            Err(error) => fails(next, error),
            Ok(_) => next is Finish && next->Finish_0 is Ok,
        },
        _ => false,
    }
}

impl ChangeState {
    /// Takes what the work under way led to, and says how the procedure goes on.
    pub fn advance(self, event: Event) -> (next: Next<ChangeState, ()>)
        requires
            change_awaits(self, event),
        ensures
            change_advances(self, event, next),
    {
        match (self, event) {
            (ChangeState::Authorizing { request }, Event::Authorized(granted)) => match granted {
                Err(failure) => Next::Finish(Err(denied(failure))),
                Ok(_) => Next::Continue(ChangeState::Sending, Work::Send(request)),
            },
            (ChangeState::Sending, Event::Replied(sent)) => Next::Finish(
                change_profile_on_server(sent),
            ),
            _ => vstd::pervasive::unreached(),
        }
    }
}

} // verus!
