//! The fetch of one page of a listing: the round trip, then the body, then
//! the identifiers in it.

use super::body::{bytes_contents, BodyEvent, SliceFuture, SliceInternal};
use super::{Event, Progress};
use crate::de::id::{ids_of_body, lemma_collect_ids_ok, IdArray};
use crate::json::json_document;
use crate::stash::error::{Internal, StashError};
use crate::text::texts;
use vstd::prelude::*;

verus! {

/// The status of a response that carries a page.
pub const STATUS_OK: u16 = 200;

pub enum IdsChunkFutureInternal {
    /// The response has not arrived.
    Reqwest,
    /// The response arrived with the right status; its body is being read.
    Body(SliceFuture),
}

/// The fetch of one page with room for `CHUNK_SIZE` identifiers.
pub struct IdsChunkFuture<const CHUNK_SIZE: usize>(IdsChunkFutureInternal);

/// What a fetch in state `before` makes of `event`: the state it is left in
/// and what it tells the executor.
pub open spec fn page_polled(
    capacity: nat,
    before: IdsChunkFutureInternal,
    event: Event,
    after: IdsChunkFutureInternal,
    progress: Progress<Result<Vec<String>, StashError>>,
) -> bool {
    match before {
        IdsChunkFutureInternal::Reqwest => match event {
            Event::Failed(error) => {
                &&& after == before
                &&& progress matches Progress::Ready(Err(failure))
                &&& failure@ == Internal::Hyper(error)
            },
            Event::Status(status) => if status == STATUS_OK {
                &&& after matches IdsChunkFutureInternal::Body(body)
                &&& body.buffer() is Empty
                &&& progress is Yield
            } else {
                &&& after == before
                &&& progress matches Progress::Ready(Err(failure))
                &&& failure@ == Internal::Status(status)
            },
            _ => after == before && progress is Pending,
        },
        IdsChunkFutureInternal::Body(held) => match event {
            Event::Failed(error) => {
                &&& after == before
                &&& progress matches Progress::Ready(Err(failure))
                &&& failure@ == Internal::Hyper(error)
            },
            Event::Data { fragment, remaining } => {
                &&& after matches IdsChunkFutureInternal::Body(body)
                &&& body.buffer()@ =~= held.buffer()@ + bytes_contents(fragment)
                &&& held.buffer() is Empty ==> body.buffer() == SliceInternal::Bytes(fragment)
                &&& progress is Yield
            },
            Event::End => {
                &&& after matches IdsChunkFutureInternal::Body(body)
                &&& body.buffer() is Empty
                &&& match ids_of_body(held.buffer()@, capacity) {
                    Ok(ids) => {
                        &&& progress matches Progress::Ready(Ok(found))
                        &&& texts(found@) == ids
                    },
                    Err(mismatch) => {
                        &&& progress matches Progress::Ready(Err(failure))
                        &&& failure@ matches Internal::Json(error)
                        &&& error.mismatch() == mismatch
                    },
                }
            },
            _ => after == before && progress is Pending,
        },
    }
}

/// The identifiers that a fetch hands out are never more than the page has
/// room for.
pub proof fn lemma_page_fits(
    capacity: nat,
    before: IdsChunkFutureInternal,
    event: Event,
    after: IdsChunkFutureInternal,
    progress: Progress<Result<Vec<String>, StashError>>,
)
    requires
        page_polled(capacity, before, event, after, progress),
    ensures
        progress matches Progress::Ready(Ok(found)) ==> found@.len() <= capacity,
{
    if progress matches Progress::Ready(Ok(found)) {
        let held = before->Body_0;
        let document = json_document(held.buffer()@)->Some_0;
        lemma_collect_ids_ok(document->List_0, capacity);
    }
}

impl<const CHUNK_SIZE: usize> IdsChunkFuture<CHUNK_SIZE> {
    /// Where the fetch stands.
    pub closed spec fn state(&self) -> IdsChunkFutureInternal {
        self.0
    }

    /// The fetch of a page whose request has just been sent.
    pub fn new() -> (future: Self)
        ensures
            future.state() is Reqwest,
    {
        IdsChunkFuture(IdsChunkFutureInternal::Reqwest)
    }

    /// Whether the fetch waits for the response itself, and not yet for its
    /// body.
    pub fn awaits_response(&self) -> (waiting: bool)
        ensures
            waiting == (self.state() is Reqwest),
    {
        match &self.0 {
            IdsChunkFutureInternal::Reqwest => true,
            IdsChunkFutureInternal::Body(_) => false,
        }
    }

    /// Takes in what the executor saw.
    ///
    /// While the response is awaited, a failure or a status other than
    /// [`STATUS_OK`] ends the fetch, and the right status turns it to the
    /// body. While the body is read, its fragments are gathered, and its end
    /// gives the identifiers in it. An event that belongs to the other stage
    /// is passed over.
    pub fn poll(&mut self, event: Event) -> (progress: Progress<Result<Vec<String>, StashError>>)
        ensures
            page_polled(
                CHUNK_SIZE as nat,
                old(self).state(),
                event,
                final(self).state(),
                progress,
            ),
    {
        match &mut self.0 {
            IdsChunkFutureInternal::Reqwest => match event {
                Event::Failed(error) => Progress::Ready(Err(StashError::from_hyper(error))),
                Event::Status(status) => {
                    if status == STATUS_OK {
                        self.0 = IdsChunkFutureInternal::Body(SliceFuture::new());
                        Progress::Yield
                    } else {
                        Progress::Ready(Err(StashError::from_status(status)))
                    }
                },
                _ => Progress::Pending,
            },
            IdsChunkFutureInternal::Body(body) => {
                let polled = match event {
                    Event::Failed(error) => body.poll(BodyEvent::Failed(error)),
                    Event::Data { fragment, remaining } => body.poll(
                        BodyEvent::Data { fragment, remaining },
                    ),
                    Event::End => body.poll(BodyEvent::End),
                    _ => Progress::Pending,
                };
                match polled {
                    Progress::Pending => Progress::Pending,
                    Progress::Yield => Progress::Yield,
                    Progress::Ready(Err(error)) => Progress::Ready(
                        Err(StashError::from_hyper(error)),
                    ),
                    Progress::Ready(Ok(slice)) => match IdArray::<CHUNK_SIZE>::from_slice(
                        slice.as_slice(),
                    ) {
                        Ok(ids) => Progress::Ready(Ok(ids.into_vec())),
                        Err(error) => Progress::Ready(Err(StashError::from_json(error))),
                    },
                }
            },
        }
    }
}

} // verus!
