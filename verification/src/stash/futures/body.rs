//! Gathers a response body that arrives in fragments into one buffer.

use super::Progress;
use hyper::body::Bytes;
use vstd::prelude::*;

verus! {

/// `hyper::body::Bytes`: one fragment of a body.
#[verifier::external_type_specification]
#[verifier::external_body]
pub struct ExBytes(hyper::body::Bytes);

/// `hyper::Error`: why a round trip failed, carried as it is.
#[verifier::external_type_specification]
#[verifier::external_body]
pub struct ExTransportError(hyper::Error);

/// The bytes that a fragment holds.
pub uninterp spec fn bytes_contents(bytes: Bytes) -> Seq<u8>;

/// `Bytes::len`: the number of bytes that the fragment holds.
#[verifier::external_body]
fn bytes_len(bytes: &Bytes) -> (len: usize)
    ensures
        len == bytes_contents(*bytes).len(),
{
    bytes.len()
}

/// `Bytes::as_ref`: the fragment's bytes as a slice, without copying them.
#[verifier::external_body]
fn bytes_as_slice(bytes: &Bytes) -> (slice: &[u8])
    ensures
        slice@ == bytes_contents(*bytes),
{
    bytes.as_ref()
}

/// Upper limit on the capacity asked for on behalf of the source's own
/// estimate of what is still to come.
pub const HINT_LIMIT: usize = 16384;

pub enum SliceInternal {
    Empty,
    Bytes(Bytes),
    Vec(Vec<u8>),
}

impl View for SliceInternal {
    type V = Seq<u8>;

    open spec fn view(&self) -> Seq<u8> {
        match self {
            SliceInternal::Empty => Seq::empty(),
            SliceInternal::Bytes(bytes) => bytes_contents(*bytes),
            SliceInternal::Vec(vec) => vec@,
        }
    }
}

/// A complete body.
pub struct Slice(pub SliceInternal);

impl View for Slice {
    type V = Seq<u8>;

    open spec fn view(&self) -> Seq<u8> {
        self.0@
    }
}

impl Slice {
    /// The body's bytes.
    pub fn as_slice(&self) -> (slice: &[u8])
        ensures
            slice@ == self@,
    {
        match &self.0 {
            SliceInternal::Empty => &[],
            SliceInternal::Bytes(bytes) => bytes_as_slice(bytes),
            SliceInternal::Vec(vec) => vec.as_slice(),
        }
    }
}

/// What one poll of the source of a body gave.
pub enum BodyEvent {
    /// Nothing yet.
    Pending,
    /// The next fragment, and the source's own lower bound on the bytes that
    /// are still to come after it.
    Data { fragment: Bytes, remaining: u64 },
    /// The source failed.
    Failed(hyper::Error),
    /// The body is complete.
    End,
}

/// The capacity to reserve when the second fragment arrives: room for both
/// fragments and for what the source says is still to come, the latter
/// counted up to [`HINT_LIMIT`] only.
pub open spec fn capacity_hint(held: nat, arrived: nat, remaining: nat) -> nat {
    held + arrived + if remaining < HINT_LIMIT { remaining } else { HINT_LIMIT as nat }
}

fn capacity_for(held: usize, arrived: usize, remaining: u64) -> (capacity: usize)
    ensures
        capacity_hint(held as nat, arrived as nat, remaining as nat) <= usize::MAX
            ==> capacity == capacity_hint(held as nat, arrived as nat, remaining as nat),
        capacity_hint(held as nat, arrived as nat, remaining as nat) > usize::MAX ==> capacity == 0,
{
    let extra: usize = if remaining < HINT_LIMIT as u64 {
        remaining as usize
    } else {
        HINT_LIMIT
    };
    match held.checked_add(arrived) {
        Some(both) => match both.checked_add(extra) {
            Some(capacity) => capacity,
            None => 0,
        },
        None => 0,
    }
}

/// What an accumulator that holds `before` makes of `event`: what it holds
/// after it, and what it tells the executor.
pub open spec fn accumulated(
    before: SliceInternal,
    event: BodyEvent,
    after: SliceInternal,
    progress: Progress<Result<Slice, hyper::Error>>,
) -> bool {
    match event {
        BodyEvent::Pending => after == before && progress is Pending,
        BodyEvent::Data { fragment, remaining } => {
            &&& progress is Yield
            &&& after@ =~= before@ + bytes_contents(fragment)
            &&& if before is Empty {
                after == SliceInternal::Bytes(fragment)
            } else {
                after is Vec
            }
        },
        BodyEvent::Failed(error) => {
            &&& after == before
            &&& progress == Progress::Ready(Err::<Slice, hyper::Error>(error))
        },
        BodyEvent::End => {
            &&& after is Empty
            &&& progress == Progress::Ready(Ok::<Slice, hyper::Error>(Slice(before)))
        },
    }
}

/// A body that comes in one fragment is handed out as that very fragment:
/// nothing is copied.
pub proof fn lemma_single_fragment_is_kept(
    fragment: Bytes,
    remaining: u64,
    held: SliceInternal,
    first: Progress<Result<Slice, hyper::Error>>,
    left: SliceInternal,
    last: Progress<Result<Slice, hyper::Error>>,
)
    requires
        accumulated(SliceInternal::Empty, BodyEvent::Data { fragment, remaining }, held, first),
        accumulated(held, BodyEvent::End, left, last),
    ensures
        first is Yield,
        last == Progress::Ready(Ok::<Slice, hyper::Error>(Slice(SliceInternal::Bytes(fragment)))),
        left is Empty,
{
}

/// A body without fragments is handed out as an empty buffer.
pub proof fn lemma_no_fragment_is_empty(left: SliceInternal, last: Progress<Result<Slice, hyper::Error>>)
    requires
        accumulated(SliceInternal::Empty, BodyEvent::End, left, last),
    ensures
        last matches Progress::Ready(Ok(body)) && body@ == Seq::<u8>::empty(),
{
}

/// The accumulator: holds what has arrived of one body.
pub struct SliceFuture {
    buf: SliceInternal,
}

impl SliceFuture {
    /// What has arrived so far, in the form in which it is held: nothing, the
    /// one fragment itself, or a copy of several.
    pub closed spec fn buffer(&self) -> SliceInternal {
        self.buf
    }

    /// An accumulator that has seen nothing yet.
    pub fn new() -> (future: Self)
        ensures
            future.buffer() is Empty,
    {
        SliceFuture { buf: SliceInternal::Empty }
    }

    /// Takes in what one poll of the source gave.
    ///
    /// A first fragment is kept as it is; from the second on, the fragments
    /// are copied into one growing buffer. After each fragment the executor is
    /// asked to yield. The end of the source hands the buffer out; a failure
    /// of the source is handed on unchanged.
    pub fn poll(&mut self, event: BodyEvent) -> (progress: Progress<Result<Slice, hyper::Error>>)
        ensures
            accumulated(old(self).buffer(), event, final(self).buffer(), progress),
            event is Pending || event is Failed ==> *final(self) == *old(self),
    {
        match event {
            BodyEvent::Pending => Progress::Pending,
            BodyEvent::End => {
                let mut taken = SliceInternal::Empty;
                core::mem::swap(&mut self.buf, &mut taken);
                Progress::Ready(Ok(Slice(taken)))
            },
            BodyEvent::Failed(error) => Progress::Ready(Err(error)),
            BodyEvent::Data { fragment, remaining } => {
                let mut taken = SliceInternal::Empty;
                core::mem::swap(&mut self.buf, &mut taken);
                self.buf = match taken {
                    SliceInternal::Empty => SliceInternal::Bytes(fragment),
                    SliceInternal::Bytes(held) => {
                        let mut vec: Vec<u8> = Vec::with_capacity(
                            capacity_for(bytes_len(&held), bytes_len(&fragment), remaining),
                        );
                        vec.extend_from_slice(bytes_as_slice(&held));
                        vec.extend_from_slice(bytes_as_slice(&fragment));
                        SliceInternal::Vec(vec)
                    },
                    SliceInternal::Vec(mut vec) => {
                        vec.extend_from_slice(bytes_as_slice(&fragment));
                        SliceInternal::Vec(vec)
                    },
                };
                Progress::Yield
            },
        }
    }
}

} // verus!
