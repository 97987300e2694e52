//! The store's operations, as state machines that an executor advances.

pub mod error;
pub mod futures;
pub mod http;

use crate::auth::Auth;
use crate::de::files::{content_of_body, Files as Content};
use crate::de::files_len::{max_index_of_body, segments_held, FilesLen};
use crate::de::id::{id_of_body, Id};
use crate::de::CodecError;
use crate::json::json_text;
use crate::ser::files::{files_document, Files};
use crate::text::texts;
use error::{Internal, StashError};
use futures::body::Slice;
use futures::ids_chunk::{page_polled, IdsChunkFuture, STATUS_OK};
use futures::{Event, Progress};
use http::{gist_path, gists_page_path, gists_path, is_request, Client, Method, Request};
use vstd::prelude::*;

verus! {

/// The status of the response to a create.
pub const STATUS_CREATED: u16 = 201;

/// The status of the response to a delete.
pub const STATUS_NO_CONTENT: u16 = 204;

/// The number of identifiers on a full page of the listing.
pub const IDS_CHUNK_SIZE: usize = 100;

/// What an operation is for.
pub enum Kind {
    /// Create a blob.
    Insert,
    /// Read a blob.
    Get,
    /// First half of an update: learn how many segments the store holds of
    /// the blob with this identifier, which is to get this content.
    Measure { id: String, value: String },
    /// Second half of an update: write the new segment map.
    Update,
    /// Delete a blob.
    Remove,
}

/// How far an operation has come.
pub enum Stage {
    /// A request is on its way.
    Sent,
    /// The response arrived with the right status; its body is being read.
    Reading,
    /// The operation is over.
    Finished,
}

/// What the executor reports of what it was last asked to do.
pub enum Reply {
    /// The request could not be put together.
    Rejected(hyper::http::Error),
    /// The round trip failed, or the body broke off.
    Failed(hyper::Error),
    /// The response arrived, with this status.
    Status(u16),
    /// The body of the response.
    Body(Slice),
}

/// What a finished operation hands back.
pub enum Outcome {
    /// The identifier of the blob that was created.
    Id(String),
    /// The content of the blob that was read.
    Content(String),
    /// The blob was updated or deleted.
    Nothing,
}

/// What the executor is to do next.
pub enum Action {
    /// Send the request and report the response's status.
    Send(Request),
    /// Read the body of the response and report it.
    ReadBody,
    /// Hand the result to the caller.
    Done(Result<Outcome, StashError>),
    /// Nothing: the reply was not asked for.
    Idle,
}

/// The status that means success.
pub open spec fn expected_status(kind: Kind) -> u16 {
    match kind {
        Kind::Insert => STATUS_CREATED,
        Kind::Remove => STATUS_NO_CONTENT,
        _ => STATUS_OK,
    }
}

/// Whether the body of the response is read.
pub open spec fn reads_body(kind: Kind) -> bool {
    kind is Insert || kind is Get || kind is Measure
}

/// The number of segments to clear or overwrite, as far as a `usize` holds it.
pub open spec fn held_segments(max_index: Option<nat>) -> nat {
    if segments_held(max_index) <= usize::MAX {
        segments_held(max_index)
    } else {
        usize::MAX as nat
    }
}

/// A handle on the store.
#[derive(Debug)]
pub struct Stash(Client);

/// One create, read, update or delete under way.
pub struct Operation<'a> {
    stash: &'a Stash,
    kind: Kind,
    stage: Stage,
}

/// What an operation in state `before` makes of `reply`.
pub open spec fn stepped(before: Operation, reply: Reply, after: Operation, action: Action) -> bool {
    &&& after.credential() == before.credential()
    &&& match before.stage() {
        Stage::Sent => match reply {
            Reply::Rejected(error) => {
                &&& after.stage() is Finished
                &&& action matches Action::Done(Err(failure))
                &&& failure@ == Internal::Http(error)
            },
            Reply::Failed(error) => {
                &&& after.stage() is Finished
                &&& action matches Action::Done(Err(failure))
                &&& failure@ == Internal::Hyper(error)
            },
            Reply::Status(status) => if status != expected_status(before.kind()) {
                &&& after.stage() is Finished
                &&& action matches Action::Done(Err(failure))
                &&& failure@ == Internal::Status(status)
            } else if reads_body(before.kind()) {
                &&& after.stage() is Reading
                &&& after.kind() == before.kind()
                &&& action is ReadBody
            } else {
                &&& after.stage() is Finished
                &&& action matches Action::Done(Ok(Outcome::Nothing))
            },
            Reply::Body(_) => after == before && action is Idle,
        },
        Stage::Reading => match reply {
            Reply::Failed(error) => {
                &&& after.stage() is Finished
                &&& action matches Action::Done(Err(failure))
                &&& failure@ == Internal::Hyper(error)
            },
            Reply::Body(body) => match before.kind() {
                Kind::Insert => {
                    &&& after.stage() is Finished
                    &&& match id_of_body(body@) {
                        Ok(id) => action matches Action::Done(Ok(Outcome::Id(found))) && found@
                            == id,
                        Err(mismatch) => {
                            &&& action matches Action::Done(Err(failure))
                            &&& failure@ matches Internal::Json(error)
                            &&& error.mismatch() == mismatch
                        },
                    }
                },
                Kind::Get => {
                    &&& after.stage() is Finished
                    &&& match content_of_body(body@) {
                        Ok(content) => action matches Action::Done(Ok(Outcome::Content(found)))
                            && found@ == content,
                        Err(mismatch) => {
                            &&& action matches Action::Done(Err(failure))
                            &&& failure@ matches Internal::Json(error)
                            &&& error.mismatch() == mismatch
                        },
                    }
                },
                Kind::Measure { id, value } => match max_index_of_body(body@) {
                    Ok(max_index) => match json_text(
                        files_document(value@, held_segments(max_index)),
                    ) {
                        Some(bytes) => {
                            &&& after.stage() is Sent
                            &&& after.kind() is Update
                            &&& action matches Action::Send(request)
                            &&& is_request(
                                request,
                                before.credential(),
                                Method::Patch,
                                gist_path(id@),
                                bytes,
                            )
                        },
                        None => {
                            &&& after.stage() is Finished
                            &&& action matches Action::Done(Err(failure))
                            &&& failure@ matches Internal::Json(CodecError::Json(_))
                        },
                    },
                    Err(mismatch) => {
                        &&& after.stage() is Finished
                        &&& action matches Action::Done(Err(failure))
                        &&& failure@ matches Internal::Json(error)
                        &&& error.mismatch() == mismatch
                    },
                },
                _ => after == before && action is Idle,
            },
            _ => after == before && action is Idle,
        },
        Stage::Finished => after == before && action is Idle,
    }
}

/// A status other than the one that means success ends the operation with
/// that status as its failure, and whatever is reported after that, nothing
/// is sent any more.
pub proof fn lemma_unexpected_status_ends_operation(
    before: Operation,
    status: u16,
    after: Operation,
    action: Action,
    reply: Reply,
    later: Operation,
    following: Action,
)
    requires
        before.stage() is Sent,
        status != expected_status(before.kind()),
        stepped(before, Reply::Status(status), after, action),
        stepped(after, reply, later, following),
    ensures
        action matches Action::Done(Err(failure)) && failure@ == Internal::Status(status),
        after.stage() is Finished,
        following is Idle,
        later == after,
{
}

/// Once an operation is over, nothing is sent any more.
pub proof fn lemma_finished_operation_is_idle(
    before: Operation,
    reply: Reply,
    after: Operation,
    action: Action,
)
    requires
        before.stage() is Finished,
        stepped(before, reply, after, action),
    ensures
        action is Idle,
        after == before,
{
}

impl<'a> Operation<'a> {
    /// The bytes of the credential that the operation's requests carry.
    pub closed spec fn credential(&self) -> Seq<u8> {
        self.stash.credential()
    }

    /// What the operation is for.
    pub closed spec fn kind(&self) -> Kind {
        self.kind
    }

    /// How far the operation has come.
    pub closed spec fn stage(&self) -> Stage {
        self.stage
    }

    /// Whether the operation is over.
    pub fn is_finished(&self) -> (finished: bool)
        ensures
            finished == (self.stage() is Finished),
    {
        match &self.stage {
            Stage::Finished => true,
            _ => false,
        }
    }

    /// Takes in what the executor reports, and says what to do next.
    ///
    /// A request that could not be built or sent, a body that broke off, and
    /// a status other than the one that means success each end the operation
    /// with that failure; nothing is sent after it. The right status turns
    /// the operation to the body, where one is read. A body ends the
    /// operation with what was decoded from it; only the first half of an
    /// update goes on from there, with the request that writes the new
    /// segment map over as many segments as the body showed.
    pub fn step(self, reply: Reply) -> (next: (Operation<'a>, Action))
        ensures
            stepped(self, reply, next.0, next.1),
    {
        let Operation { stash, kind, stage } = self;
        match stage {
            Stage::Sent => match reply {
                Reply::Rejected(error) => (
                    Operation { stash, kind, stage: Stage::Finished },
                    Action::Done(Err(StashError::from_http(error))),
                ),
                Reply::Failed(error) => (
                    Operation { stash, kind, stage: Stage::Finished },
                    Action::Done(Err(StashError::from_hyper(error))),
                ),
                Reply::Status(status) => {
                    let (expected, reads): (u16, bool) = match &kind {
                        Kind::Insert => (STATUS_CREATED, true),
                        Kind::Get => (STATUS_OK, true),
                        Kind::Measure { .. } => (STATUS_OK, true),
                        Kind::Update => (STATUS_OK, false),
                        Kind::Remove => (STATUS_NO_CONTENT, false),
                    };
                    if status != expected {
                        (
                            Operation { stash, kind, stage: Stage::Finished },
                            Action::Done(Err(StashError::from_status(status))),
                        )
                    } else if reads {
                        (Operation { stash, kind, stage: Stage::Reading }, Action::ReadBody)
                    } else {
                        (
                            Operation { stash, kind, stage: Stage::Finished },
                            Action::Done(Ok(Outcome::Nothing)),
                        )
                    }
                },
                Reply::Body(_) => (Operation { stash, kind, stage: Stage::Sent }, Action::Idle),
            },
            Stage::Reading => match reply {
                Reply::Failed(error) => (
                    Operation { stash, kind, stage: Stage::Finished },
                    Action::Done(Err(StashError::from_hyper(error))),
                ),
                Reply::Body(body) => match kind {
                    Kind::Insert => {
                        let done = match Id::from_slice(body.as_slice()) {
                            Ok(id) => Ok(Outcome::Id(id.into_string())),
                            Err(error) => Err(StashError::from_json(error)),
                        };
                        (
                            Operation { stash, kind: Kind::Insert, stage: Stage::Finished },
                            Action::Done(done),
                        )
                    },
                    Kind::Get => {
                        let done = match Content::from_slice(body.as_slice()) {
                            Ok(content) => Ok(Outcome::Content(content.into_string())),
                            Err(error) => Err(StashError::from_json(error)),
                        };
                        (
                            Operation { stash, kind: Kind::Get, stage: Stage::Finished },
                            Action::Done(done),
                        )
                    },
                    Kind::Measure { id, value } => match FilesLen::from_slice(body.as_slice()) {
                        Ok(len) => {
                            let current_len = len.into_len();
                            match Files::new(value.as_str(), current_len).to_vec() {
                                Ok(bytes) => {
                                    let request = stash.0.gist(id.as_str()).into_request(
                                        Method::Patch,
                                        bytes,
                                    );
                                    (
                                        Operation { stash, kind: Kind::Update, stage: Stage::Sent },
                                        Action::Send(request),
                                    )
                                },
                                Err(error) => (
                                    Operation { stash, kind: Kind::Update, stage: Stage::Finished },
                                    Action::Done(
                                        Err(StashError::from_json(CodecError::Json(error))),
                                    ),
                                ),
                            }
                        },
                        Err(error) => (
                            Operation { stash, kind: Kind::Update, stage: Stage::Finished },
                            Action::Done(Err(StashError::from_json(error))),
                        ),
                    },
                    Kind::Update => (
                        Operation { stash, kind: Kind::Update, stage: Stage::Reading },
                        Action::Idle,
                    ),
                    Kind::Remove => (
                        Operation { stash, kind: Kind::Remove, stage: Stage::Reading },
                        Action::Idle,
                    ),
                },
                _ => (Operation { stash, kind, stage: Stage::Reading }, Action::Idle),
            },
            Stage::Finished => (Operation { stash, kind, stage: Stage::Finished }, Action::Idle),
        }
    }
}

/// A batch of identifiers from the listing: one page's worth at most.
pub struct IdsChunk(Vec<String>);

impl View for IdsChunk {
    type V = Seq<Seq<char>>;

    closed spec fn view(&self) -> Seq<Seq<char>> {
        texts(self.0@)
    }
}

impl IdsChunk {
    /// The number of identifiers in the batch.
    #[inline]
    pub fn len(&self) -> (len: usize)
        ensures
            len == self@.len(),
    {
        self.0.len()
    }

    /// The identifiers, in the order of the listing.
    #[inline]
    pub fn as_slice(&self) -> (ids: &[String])
        ensures
            texts(ids@) == self@,
    {
        self.0.as_slice()
    }

    /// The identifiers, in the order of the listing.
    #[inline]
    pub fn into_vec(self) -> (ids: Vec<String>)
        ensures
            texts(ids@) == self@,
    {
        self.0
    }
}

/// Where a listing stands.
pub enum IdsInternal {
    /// Nothing more will come.
    Exhausted,
    /// The request for the next page could not be built; the failure is
    /// still to be handed out.
    Failed(StashError),
    /// The page before `next_index` is being fetched.
    NotExhausted { next_index: usize, current_future: IdsChunkFuture<IDS_CHUNK_SIZE> },
}

/// The listing of all blobs, page after page.
pub struct Ids<'a> {
    stash: &'a Stash,
    state: IdsInternal,
}

/// What one poll of a listing gives: an item for the caller, or the word
/// that none is ready, and the request for the next page where one is due.
pub struct Turn {
    pub item: Progress<Option<Result<IdsChunk, StashError>>>,
    pub request: Option<Request>,
}

/// What a listing in state `before` makes of the progress of the fetch of
/// its current page.
pub open spec fn advanced(
    credential: Seq<u8>,
    before: IdsInternal,
    progress: Progress<Result<Vec<String>, StashError>>,
    after: IdsInternal,
    turn: Turn,
) -> bool {
    match before {
        IdsInternal::Exhausted => {
            &&& after is Exhausted
            &&& turn.item matches Progress::Ready(None)
            &&& turn.request is None
        },
        IdsInternal::Failed(error) => {
            &&& after is Exhausted
            &&& turn.item matches Progress::Ready(Some(Err(failure)))
            &&& failure == error
            &&& turn.request is None
        },
        IdsInternal::NotExhausted { next_index, current_future } => match progress {
            Progress::Pending => after == before && turn.item is Pending && turn.request is None,
            Progress::Yield => after == before && turn.item is Yield && turn.request is None,
            Progress::Ready(Err(error)) => {
                &&& after is Exhausted
                &&& turn.item matches Progress::Ready(Some(Err(failure)))
                &&& failure == error
                &&& turn.request is None
            },
            Progress::Ready(Ok(ids)) => if ids@.len() == 0 {
                &&& after is Exhausted
                &&& turn.item matches Progress::Ready(None)
                &&& turn.request is None
            } else {
                &&& turn.item matches Progress::Ready(Some(Ok(chunk)))
                &&& chunk@ == texts(ids@)
                &&& if ids@.len() >= IDS_CHUNK_SIZE && next_index < usize::MAX {
                    &&& after matches IdsInternal::NotExhausted {
                        next_index: following,
                        current_future: fetch,
                    }
                    &&& following == next_index + 1
                    &&& fetch.state() is Reqwest
                    &&& turn.request matches Some(request)
                    &&& is_request(
                        request,
                        credential,
                        Method::Get,
                        gists_page_path(IDS_CHUNK_SIZE as nat, next_index as nat),
                        Seq::empty(),
                    )
                } else {
                    &&& after is Exhausted
                    &&& turn.request is None
                }
            },
        },
    }
}

/// What polling the fetch of the current page makes of a listing's state.
pub open spec fn fetched(
    before: IdsInternal,
    event: Event,
    after: IdsInternal,
    progress: Progress<Result<Vec<String>, StashError>>,
) -> bool {
    match before {
        IdsInternal::NotExhausted { next_index, current_future } => {
            &&& after matches IdsInternal::NotExhausted { next_index: following, current_future: fetch }
            &&& following == next_index
            &&& page_polled(
                IDS_CHUNK_SIZE as nat,
                current_future.state(),
                event,
                fetch.state(),
                progress,
            )
        },
        _ => after == before,
    }
}

/// A failed fetch is handed out as one item; the listing ends with it, and
/// asks for no further page.
pub proof fn lemma_failure_ends_listing(
    credential: Seq<u8>,
    before: IdsInternal,
    error: StashError,
    after: IdsInternal,
    turn: Turn,
    progress: Progress<Result<Vec<String>, StashError>>,
    later: IdsInternal,
    following: Turn,
)
    requires
        before is NotExhausted,
        advanced(credential, before, Progress::Ready(Err(error)), after, turn),
        advanced(credential, after, progress, later, following),
    ensures
        turn.item matches Progress::Ready(Some(Err(failure))) && failure == error,
        turn.request is None,
        after is Exhausted,
        following.item matches Progress::Ready(None),
        following.request is None,
        later is Exhausted,
{
}

/// A page that is not full ends the listing, and an empty batch is never
/// handed out.
pub proof fn lemma_short_page_ends_listing(
    credential: Seq<u8>,
    before: IdsInternal,
    ids: Vec<String>,
    after: IdsInternal,
    turn: Turn,
)
    requires
        before is NotExhausted,
        advanced(credential, before, Progress::Ready(Ok(ids)), after, turn),
    ensures
        turn.item matches Progress::Ready(Some(Ok(chunk))) ==> chunk@.len() > 0,
        ids@.len() < IDS_CHUNK_SIZE ==> after is Exhausted && turn.request is None,
        ids@.len() == 0 ==> turn.item matches Progress::Ready(None),
{
}

impl<'a> Ids<'a> {
    /// The bytes of the credential that the listing's requests carry.
    pub closed spec fn credential(&self) -> Seq<u8> {
        self.stash.credential()
    }

    /// Where the listing stands.
    pub closed spec fn state(&self) -> IdsInternal {
        self.state
    }

    /// Whether the listing waits for the response to a request, and not for
    /// a body or for nothing at all.
    pub fn awaits_response(&self) -> (waiting: bool)
        ensures
            waiting == (self.state() matches IdsInternal::NotExhausted { current_future, .. }
                && current_future.state() is Reqwest),
    {
        match &self.state {
            IdsInternal::NotExhausted { current_future, .. } => current_future.awaits_response(),
            _ => false,
        }
    }

    /// Whether the listing waits for anything at all.
    pub fn is_fetching(&self) -> (fetching: bool)
        ensures
            fetching == (self.state() is NotExhausted),
    {
        match &self.state {
            IdsInternal::NotExhausted { .. } => true,
            _ => false,
        }
    }

    /// Takes in that the request handed out last could not be built: the
    /// failure is handed out by the next poll, and the listing ends there.
    pub fn reject(&mut self, error: hyper::http::Error)
        ensures
            final(self).credential() == old(self).credential(),
            old(self).state() is NotExhausted ==> (final(self).state() matches IdsInternal::Failed(
                failure,
            ) && failure@ == Internal::Http(error)),
            !(old(self).state() is NotExhausted) ==> final(self).state() == old(self).state(),
    {
        if self.is_fetching() {
            self.state = IdsInternal::Failed(StashError::from_http(error));
        }
    }

    /// Takes in how the fetch of the current page went on.
    ///
    /// A full page is handed out and the next one asked for. A page that is
    /// not full ends the listing: it is handed out first, unless it is
    /// empty. A failure is handed out once, and ends the listing.
    pub fn advance(&mut self, progress: Progress<Result<Vec<String>, StashError>>) -> (turn: Turn)
        ensures
            final(self).credential() == old(self).credential(),
            advanced(old(self).credential(), old(self).state(), progress, final(self).state(), turn),
    {
        let mut taken = IdsInternal::Exhausted;
        core::mem::swap(&mut self.state, &mut taken);
        match taken {
            IdsInternal::Exhausted => Turn { item: Progress::Ready(None), request: None },
            IdsInternal::Failed(error) => Turn {
                item: Progress::Ready(Some(Err(error))),
                request: None,
            },
            IdsInternal::NotExhausted { next_index, current_future } => match progress {
                Progress::Pending => {
                    self.state = IdsInternal::NotExhausted { next_index, current_future };
                    Turn { item: Progress::Pending, request: None }
                },
                Progress::Yield => {
                    self.state = IdsInternal::NotExhausted { next_index, current_future };
                    Turn { item: Progress::Yield, request: None }
                },
                Progress::Ready(Err(error)) => Turn {
                    item: Progress::Ready(Some(Err(error))),
                    request: None,
                },
                Progress::Ready(Ok(ids)) => {
                    let len = ids.len();
                    if len == 0 {
                        return Turn { item: Progress::Ready(None), request: None };
                    }
                    let request = if len >= IDS_CHUNK_SIZE && next_index < usize::MAX {
                        let (fetch, request) = self.stash.ids_chunk_future(next_index);
                        self.state = IdsInternal::NotExhausted {
                            next_index: next_index + 1,
                            current_future: fetch,
                        };
                        Some(request)
                    } else {
                        None
                    };
                    Turn { item: Progress::Ready(Some(Ok(IdsChunk(ids)))), request }
                },
            },
        }
    }

    /// Takes in what the executor saw of the fetch of the current page, and
    /// gives the caller's next item where one is ready.
    pub fn poll_next(&mut self, event: Event) -> (turn: Turn)
        ensures
            final(self).credential() == old(self).credential(),
            exists|middle: IdsInternal, progress: Progress<Result<Vec<String>, StashError>>|
                #![trigger fetched(old(self).state(), event, middle, progress)]
                {
                    &&& fetched(old(self).state(), event, middle, progress)
                    &&& advanced(
                        old(self).credential(),
                        middle,
                        progress,
                        final(self).state(),
                        turn,
                    )
                },
    {
        let progress = match &mut self.state {
            IdsInternal::NotExhausted { current_future, .. } => current_future.poll(event),
            _ => Progress::Pending,
        };
        assert(fetched(old(self).state(), event, self.state(), progress));
        self.advance(progress)
    }
}

impl Clone for Stash {
    fn clone(&self) -> (copy: Self)
        ensures
            copy.credential() == self.credential(),
    {
        Stash(self.0.clone())
    }
}

impl Stash {
    /// The bytes of the credential.
    pub closed spec fn credential(&self) -> Seq<u8> {
        self.0.credential()
    }

    pub fn new(auth: Auth) -> (stash: Self)
        ensures
            stash.credential() == auth@,
    {
        Stash(Client::new(auth))
    }

    pub fn auth(&self) -> (auth: &Auth)
        ensures
            auth@ == self.credential(),
    {
        self.0.auth()
    }

    /// Begins the creation of a blob with the given content: the request
    /// carries the segment map of a write over nothing.
    pub fn insert(&self, value: &str) -> (started: (Operation<'_>, Action))
        ensures
            started.0.credential() == self.credential(),
            started.0.kind() is Insert,
            match json_text(files_document(value@, 0)) {
                Some(bytes) => {
                    &&& started.0.stage() is Sent
                    &&& started.1 matches Action::Send(request)
                    &&& is_request(request, self.credential(), Method::Post, gists_path(), bytes)
                },
                None => {
                    &&& started.0.stage() is Finished
                    &&& started.1 matches Action::Done(Err(failure))
                    &&& failure@ matches Internal::Json(CodecError::Json(_))
                },
            },
    {
        match Files::new(value, 0).to_vec() {
            Ok(bytes) => (
                Operation { stash: self, kind: Kind::Insert, stage: Stage::Sent },
                Action::Send(self.0.gists().into_request(Method::Post, bytes)),
            ),
            Err(error) => (
                Operation { stash: self, kind: Kind::Insert, stage: Stage::Finished },
                Action::Done(Err(StashError::from_json(CodecError::Json(error)))),
            ),
        }
    }

    /// Begins the reading of the blob with the given identifier.
    pub fn get(&self, id: &str) -> (started: (Operation<'_>, Action))
        ensures
            started.0.credential() == self.credential(),
            started.0.kind() is Get,
            started.0.stage() is Sent,
            started.1 matches Action::Send(request) && is_request(
                request,
                self.credential(),
                Method::Get,
                gist_path(id@),
                Seq::empty(),
            ),
    {
        (
            Operation { stash: self, kind: Kind::Get, stage: Stage::Sent },
            Action::Send(self.0.gist(id).into_request(Method::Get, Vec::new())),
        )
    }

    /// Begins the update of the blob with the given identifier: the blob is
    /// read first, to learn how many segments the store holds of it.
    pub fn set(&self, id: &str, value: &str) -> (started: (Operation<'_>, Action))
        ensures
            started.0.credential() == self.credential(),
            started.0.kind() matches Kind::Measure { id: target, value: content } && target@ == id@
                && content@ == value@,
            started.0.stage() is Sent,
            started.1 matches Action::Send(request) && is_request(
                request,
                self.credential(),
                Method::Get,
                gist_path(id@),
                Seq::empty(),
            ),
    {
        (
            Operation {
                stash: self,
                kind: Kind::Measure { id: id.to_owned(), value: value.to_owned() },
                stage: Stage::Sent,
            },
            Action::Send(self.0.gist(id).request(Method::Get, Vec::new())),
        )
    }

    /// Begins the deletion of the blob with the given identifier.
    pub fn remove(&self, id: &str) -> (started: (Operation<'_>, Action))
        ensures
            started.0.credential() == self.credential(),
            started.0.kind() is Remove,
            started.0.stage() is Sent,
            started.1 matches Action::Send(request) && is_request(
                request,
                self.credential(),
                Method::Delete,
                gist_path(id@),
                Seq::empty(),
            ),
    {
        (
            Operation { stash: self, kind: Kind::Remove, stage: Stage::Sent },
            Action::Send(self.0.gist(id).into_request(Method::Delete, Vec::new())),
        )
    }

    /// The fetch of the page with the given index, and the request for it.
    pub fn ids_chunk_future(&self, index: usize) -> (fetch: (
        IdsChunkFuture<IDS_CHUNK_SIZE>,
        Request,
    ))
        ensures
            fetch.0.state() is Reqwest,
            is_request(
                fetch.1,
                self.credential(),
                Method::Get,
                gists_page_path(IDS_CHUNK_SIZE as nat, index as nat),
                Seq::empty(),
            ),
    {
        (
            IdsChunkFuture::new(),
            self.0.gists_page(IDS_CHUNK_SIZE, index).request(Method::Get, Vec::new()),
        )
    }

    /// Begins the listing of all blobs, with the request for the first page.
    pub fn ids(&self) -> (started: (Ids<'_>, Request))
        ensures
            started.0.credential() == self.credential(),
            started.0.state() matches IdsInternal::NotExhausted { next_index, current_future }
                && next_index == 2 && current_future.state() is Reqwest,
            is_request(
                started.1,
                self.credential(),
                Method::Get,
                gists_page_path(IDS_CHUNK_SIZE as nat, 1),
                Seq::empty(),
            ),
    {
        let (fetch, request) = self.ids_chunk_future(1);
        (
            Ids {
                stash: self,
                state: IdsInternal::NotExhausted { next_index: 2, current_future: fetch },
            },
            request,
        )
    }
}

} // verus!
