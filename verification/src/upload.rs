//! The upload of one progress: it is sent, and where the server acknowledges it, the local
//! configuration takes note.

use crate::conf::{steps_view, text_view, Conf};
use crate::exchange::{
    progress_url, sent_well_formed, sync_progress_on_server, sync_progress_request, upload_outcome,
    Body, Method, Request,
};
use crate::procedure::{access_error, denied, fails, Event, Next, Work};
use crate::push::{can_mark, mark_progress_synced, synced, PendingPush, PushView};
use vstd::prelude::*;

verus! {

/// Where an upload stands, by the work that is under way.
#[derive(Debug)]
pub enum UploadState {
    Sending { push: PendingPush },
    /// The timestamp in the reply is parsed.
    Stamping { push: PendingPush },
    /// The configuration is read to take note of the acknowledgement.
    Acknowledging { push: PendingPush, updated_at: Option<String> },
    /// The acknowledgement is written.
    Remembering,
}

/// The request carries the push to the server at `api`.
pub open spec fn carries_push(request: Request, api: Seq<char>, push: PushView) -> bool {
    &&& request.method == Method::Put
    &&& request.url@ == progress_url(api, push.server_id, push.guide_id)
    &&& request.body matches Body::Progress { current_step, steps } && {
        &&& current_step == push.current_step
        &&& steps_view(steps@) == push.steps
    }
}

/// The upload of `push` to the server at `api` begins in `state`, with `work` to be done.
pub open spec fn begins_upload(
    api: Seq<char>,
    push: PushView,
    state: UploadState,
    work: Work,
) -> bool {
    &&& state matches UploadState::Sending { push: kept } && kept@ == push
    &&& work matches Work::Send(request) && carries_push(request, api, push)
}

/// The event is what the work under way can lead to.
pub open spec fn upload_awaits(state: UploadState, event: Event) -> bool {
    match state {
        UploadState::Sending { .. } => event matches Event::Replied(sent) && sent_well_formed(sent),
        UploadState::Stamping { .. } => event is StampParsed,
        UploadState::Acknowledging { .. } => event is ConfRead,
        UploadState::Remembering => event is ConfSaved,
    }
}

/// The acknowledgement of `push` is noted next, with the timestamp that the server sent, if any.
pub open spec fn acknowledges(
    push: PendingPush,
    updated_at: Option<Seq<char>>,
    next: Next<UploadState, ()>,
) -> bool {
    next matches Next::Continue(after, work) && {
        &&& after matches UploadState::Acknowledging { push: kept, updated_at: stamp } && {
            &&& kept == push
            &&& text_view(stamp) == updated_at
        }
        &&& work is ReadConf
    }
}

/// The upload goes on from `before` to `next` on `event`. Once the server acknowledged the progress,
/// taking note of it is best effort, and so is reading the timestamp that the server gave it.
pub open spec fn upload_advances(
    before: UploadState,
    event: Event,
    next: Next<UploadState, ()>,
) -> bool {
    match (before, event) {
        (UploadState::Sending { push }, Event::Replied(sent)) => match upload_outcome(sent) {
            Err(error) => fails(next, error),
            Ok(None) => acknowledges(push, None, next),
            Ok(Some(body)) => next matches Next::Continue(after, work) && {
                &&& after == (UploadState::Stamping { push })
                &&& work matches Work::ParseStamp(text) && text@ == body
            },
        },
        (UploadState::Stamping { push }, Event::StampParsed(parsed)) => acknowledges(
            push,
            match parsed {
                Ok(stamp) => Some(stamp@),
                Err(_) => None,
            },
            next,
        ),
        (UploadState::Acknowledging { push, updated_at }, Event::ConfRead(read)) => match read {
            Err(_) => next is Finish && next->Finish_0 is Ok,
            Ok(conf) => {
                if can_mark(conf@.profiles, push@) {
                    next matches Next::Continue(after, work) && {
                        &&& after is Remembering
                        &&& work matches Work::SaveConf(marked) && synced(
                            conf@,
                            marked@,
                            push@,
                            text_view(updated_at),
                        )
                    }
                } else {
                    next is Finish && next->Finish_0 is Ok
                }
            },
        },
        (UploadState::Remembering, Event::ConfSaved(_)) => next is Finish && next->Finish_0 is Ok,
        _ => false,
    }
}

/// Begins the upload of a progress.
pub(crate) fn begin_upload(api: &str, push: PendingPush) -> (first: (UploadState, Work))
    ensures
        begins_upload(api@, push@, first.0, first.1),
{
    let request = sync_progress_request(
        api,
        push.server_id,
        push.guide_id,
        push.current_step,
        &push.steps,
    );
    (UploadState::Sending { push }, Work::Send(request))
}

/// Takes note of an acknowledgement in a configuration that was just read. Says whether the
/// configuration changed.
fn note_acknowledgement(
    conf: &mut Conf,
    push: &PendingPush,
    updated_at: &Option<String>,
) -> (changed: bool)
    ensures
        changed == can_mark(old(conf)@.profiles, push@),
        synced(old(conf)@, final(conf)@, push@, text_view(*updated_at)),
{
    let stamp = match updated_at {
        Some(stamp) => Some(stamp.as_str()),
        None => None,
    };
    mark_progress_synced(
        conf,
        push.server_id,
        push.guide_id,
        push.current_step,
        &push.steps,
        stamp,
    )
}

impl UploadState {
    /// Takes what the work under way led to, and says how the upload goes on.
    pub fn advance(self, event: Event) -> (next: Next<UploadState, ()>)
        requires
            upload_awaits(self, event),
        ensures
            upload_advances(self, event, next),
    {
        match (self, event) {
            (UploadState::Sending { push }, Event::Replied(sent)) => match sync_progress_on_server(
                sent,
            ) {
                Err(error) => Next::Finish(Err(error)),
                Ok(None) => Next::Continue(
                    UploadState::Acknowledging { push, updated_at: None },
                    Work::ReadConf,
                ),
                Ok(Some(text)) => Next::Continue(
                    UploadState::Stamping { push },
                    Work::ParseStamp(text),
                ),
            },
            (UploadState::Stamping { push }, Event::StampParsed(parsed)) => {
                let updated_at = match parsed {
                    Ok(stamp) => Some(stamp),
                    Err(_) => None,
                };
                Next::Continue(UploadState::Acknowledging { push, updated_at }, Work::ReadConf)
            },
            (UploadState::Acknowledging { push, updated_at }, Event::ConfRead(read)) => match read {
                Err(_) => Next::Finish(Ok(())),
                Ok(conf) => {
                    let mut conf = conf;
                    if note_acknowledgement(&mut conf, &push, &updated_at) {
                        Next::Continue(UploadState::Remembering, Work::SaveConf(conf))
                    } else {
                        Next::Finish(Ok(()))
                    }
                },
            },
            (UploadState::Remembering, Event::ConfSaved(_)) => Next::Finish(Ok(())),
            _ => vstd::pervasive::unreached(),
        }
    }
}

/// Where the upload of a single progress stands, by the work that is under way.
#[derive(Debug)]
pub enum ProgressState {
    Authorizing { api: String, push: PendingPush },
    Uploading { upload: UploadState },
}

/// The event is what the work under way can lead to.
pub open spec fn progress_awaits(state: ProgressState, event: Event) -> bool {
    match state {
        ProgressState::Authorizing { .. } => event is Authorized,
        ProgressState::Uploading { upload } => upload_awaits(upload, event),
    }
}

/// The upload of a single progress goes as far as its upload does.
pub open spec fn follows_upload(
    inner: Next<UploadState, ()>,
    next: Next<ProgressState, ()>,
) -> bool {
    match inner {
        Next::Continue(upload, work) => next == Next::<ProgressState, ()>::Continue(
            ProgressState::Uploading { upload },
            work,
        ),
        Next::Finish(answer) => next == Next::<ProgressState, ()>::Finish(answer),
    }
}

/// The upload of a single progress goes on from `before` to `next` on `event`.
pub open spec fn progress_advances(
    before: ProgressState,
    event: Event,
    next: Next<ProgressState, ()>,
) -> bool {
    match before {
        ProgressState::Authorizing { api, push } => match event {
            Event::Authorized(Err(failure)) => fails(next, access_error(failure)),
            Event::Authorized(Ok(_)) => next matches Next::Continue(after, work) && {
                &&& after matches ProgressState::Uploading { upload } && begins_upload(
                    api@,
                    push@,
                    upload,
                    work,
                )
            },
            _ => false,
        },
        ProgressState::Uploading { upload } => exists|inner: Next<UploadState, ()>|
            #[trigger] upload_advances(upload, event, inner) && follows_upload(inner, next),
    }
}

impl ProgressState {
    /// Takes what the work under way led to, and says how the procedure goes on.
    pub fn advance(self, event: Event) -> (next: Next<ProgressState, ()>)
        requires
            progress_awaits(self, event),
        ensures
            progress_advances(self, event, next),
    {
        match self {
            ProgressState::Authorizing { api, push } => match event {
                Event::Authorized(Err(failure)) => Next::Finish(Err(denied(failure))),
                Event::Authorized(Ok(_)) => {
                    let (upload, work) = begin_upload(api.as_str(), push);
                    Next::Continue(ProgressState::Uploading { upload }, work)
                },
                _ => vstd::pervasive::unreached(),
            },
            ProgressState::Uploading { upload } => {
                let inner = upload.advance(event);
                let ghost stepped = inner;
                assert(upload_advances(upload, event, stepped));
                match inner {
                    Next::Continue(upload, work) => Next::Continue(
                        ProgressState::Uploading { upload },
                        work,
                    ),
                    Next::Finish(answer) => Next::Finish(answer),
                }
            },
        }
    }
}

/// Once the server acknowledged a progress, the upload no longer fails, whatever becomes of the
/// local note of it.
pub proof fn acknowledged_upload_does_not_fail(
    before: UploadState,
    event: Event,
    next: Next<UploadState, ()>,
)
    requires
        before !is Sending,
        upload_awaits(before, event),
        upload_advances(before, event, next),
    ensures
        next matches Next::Finish(answer) ==> answer is Ok,
        next matches Next::Continue(after, _) ==> after !is Sending,
{
}

/// A progress is sent only once: no step of its upload sends it again.
pub proof fn upload_sends_once(before: UploadState, event: Event, next: Next<UploadState, ()>)
    requires
        upload_awaits(before, event),
        upload_advances(before, event, next),
    ensures
        next matches Next::Continue(_, work) ==> work !is Send,
{
}

} // verus!
