//! Identifiers: the one of a single document, and a page of them.

use crate::de::{CodecError, Mismatch};
use crate::json::{
    field, find, items_model, json_document, lemma_list_view, lemma_object_view, Json, JsonModel,
};
use crate::text::texts;
use vstd::prelude::*;

verus! {

/// The identifier that a document carries: the text of the first `id` entry
/// of the top-level map. Every other entry is passed over.
pub open spec fn decode_id(document: JsonModel) -> Result<Seq<char>, Mismatch> {
    match document {
        JsonModel::Object(entries) => match field(entries, "id"@) {
            Some(JsonModel::Text(id)) => Ok(id),
            Some(_) => Err(Mismatch::NotAString),
            None => Err(Mismatch::NoId),
        },
        _ => Err(Mismatch::NotAMap),
    }
}

/// The identifier that a body carries; `Err(None)` where the body is no JSON
/// document.
pub open spec fn id_of_body(body: Seq<u8>) -> Result<Seq<char>, Option<Mismatch>> {
    match json_document(body) {
        Some(document) => match decode_id(document) {
            Ok(id) => Ok(id),
            Err(mismatch) => Err(Some(mismatch)),
        },
        None => Err(None),
    }
}

/// An identifier, borrowed from the document that carries it.
pub struct IdRef<'de>(&'de str);

impl<'de> View for IdRef<'de> {
    type V = Seq<char>;

    closed spec fn view(&self) -> Seq<char> {
        self.0@
    }
}

impl<'de> IdRef<'de> {
    /// Takes the identifier out of a document.
    pub fn from_document(document: &'de Json) -> (found: Result<IdRef<'de>, Mismatch>)
        ensures
            match found {
                Ok(id) => decode_id(document@) == Ok::<Seq<char>, Mismatch>(id@),
                Err(mismatch) => decode_id(document@) == Err::<Seq<char>, Mismatch>(mismatch),
            },
    {
        match document {
            Json::Object(entries) => {
                proof {
                    lemma_object_view(*entries);
                }
                match find(entries, "id") {
                    Some(Json::Text(id)) => Ok(IdRef(id.as_str())),
                    Some(_) => Err(Mismatch::NotAString),
                    None => Err(Mismatch::NoId),
                }
            },
            _ => Err(Mismatch::NotAMap),
        }
    }

    /// The identifier's text.
    pub fn as_str(&self) -> (text: &'de str)
        ensures
            text@ == self@,
    {
        self.0
    }
}

/// An identifier.
pub struct Id(pub String);

impl View for Id {
    type V = Seq<char>;

    open spec fn view(&self) -> Seq<char> {
        self.0@
    }
}

impl Id {
    /// Takes the identifier out of a document.
    pub fn from_document(document: &Json) -> (found: Result<Id, Mismatch>)
        ensures
            match found {
                Ok(id) => decode_id(document@) == Ok::<Seq<char>, Mismatch>(id@),
                Err(mismatch) => decode_id(document@) == Err::<Seq<char>, Mismatch>(mismatch),
            },
    {
        match IdRef::from_document(document) {
            Ok(id) => Ok(Id(id.as_str().to_owned())),
            Err(mismatch) => Err(mismatch),
        }
    }

    /// Reads the identifier from the bytes of a document.
    pub fn from_slice(bytes: &[u8]) -> (found: Result<Id, CodecError>)
        ensures
            match found {
                Ok(id) => id_of_body(bytes@) == Ok::<Seq<char>, Option<Mismatch>>(id@),
                Err(error) => id_of_body(bytes@) == Err::<Seq<char>, Option<Mismatch>>(
                    error.mismatch(),
                ),
            },
    {
        match Json::from_slice(bytes) {
            Ok(document) => match Id::from_document(&document) {
                Ok(id) => Ok(id),
                Err(mismatch) => Err(CodecError::Shape(mismatch)),
            },
            Err(error) => Err(CodecError::Json(error)),
        }
    }

    /// The identifier's text.
    pub fn into_string(self) -> (text: String)
        ensures
            text@ == self@,
    {
        self.0
    }
}

/// The identifiers of the elements of an array, in order, for a batch with
/// room for `capacity` of them. The elements are taken one by one: the first
/// that carries no identifier, or that the batch has no room for, decides.
pub open spec fn collect_ids(items: Seq<JsonModel>, capacity: nat) -> Result<
    Seq<Seq<char>>,
    Mismatch,
>
    decreases items.len(),
{
    if items.len() == 0 {
        Ok(Seq::empty())
    } else {
        match collect_ids(items.drop_last(), capacity) {
            Err(mismatch) => Err(mismatch),
            Ok(ids) => match decode_id(items.last()) {
                Err(mismatch) => Err(mismatch),
                Ok(id) => if items.len() > capacity {
                    Err(Mismatch::ArrayTooLong)
                } else {
                    Ok(ids.push(id))
                },
            },
        }
    }
}

/// The identifiers that a listing carries: those of the elements of the
/// top-level array.
pub open spec fn decode_ids(document: JsonModel, capacity: nat) -> Result<
    Seq<Seq<char>>,
    Mismatch,
> {
    match document {
        JsonModel::List(items) => collect_ids(items, capacity),
        _ => Err(Mismatch::NotAnArray),
    }
}

/// The identifiers that the body of a listing carries; `Err(None)` where the
/// body is no JSON document.
pub open spec fn ids_of_body(body: Seq<u8>, capacity: nat) -> Result<
    Seq<Seq<char>>,
    Option<Mismatch>,
> {
    match json_document(body) {
        Some(document) => match decode_ids(document, capacity) {
            Ok(ids) => Ok(ids),
            Err(mismatch) => Err(Some(mismatch)),
        },
        None => Err(None),
    }
}

/// A batch comes out exactly when the array fits and each of its elements
/// carries an identifier; it then holds those identifiers in order.
pub proof fn lemma_collect_ids_ok(items: Seq<JsonModel>, capacity: nat)
    ensures
        collect_ids(items, capacity) is Ok <==> (items.len() <= capacity && forall|i: int|
            0 <= i < items.len() ==> decode_id(#[trigger] items[i]) is Ok),
        collect_ids(items, capacity) matches Ok(ids) ==> ids.len() == items.len() && forall|i: int|
            0 <= i < items.len() ==> decode_id(#[trigger] items[i]) == Ok::<Seq<char>, Mismatch>(
                ids[i],
            ),
    decreases items.len(),
{
    if items.len() > 0 {
        let front = items.drop_last();
        lemma_collect_ids_ok(front, capacity);
        assert forall|i: int| 0 <= i < front.len() implies front[i] == items[i] by {}
        if collect_ids(items, capacity) is Ok {
            assert forall|i: int| 0 <= i < items.len() implies decode_id(
                #[trigger] items[i],
            ) is Ok by {
                if i < front.len() {
                    assert(front[i] == items[i]);
                }
            }
        }
        if items.len() <= capacity && forall|i: int|
            0 <= i < items.len() ==> decode_id(#[trigger] items[i]) is Ok {
            assert forall|i: int| 0 <= i < front.len() implies decode_id(
                #[trigger] front[i],
            ) is Ok by {
                assert(front[i] == items[i]);
            }
            assert(decode_id(items.last()) is Ok);
        }
        if collect_ids(items, capacity) is Ok {
            let ids = collect_ids(items, capacity)->Ok_0;
            assert forall|i: int| 0 <= i < items.len() implies decode_id(#[trigger] items[i])
                == Ok::<Seq<char>, Mismatch>(ids[i]) by {
                if i < front.len() {
                    assert(front[i] == items[i]);
                }
            }
        }
    }
}

/// An element that is refused decides for every longer array too.
pub proof fn lemma_collect_ids_refused(items: Seq<JsonModel>, capacity: nat, n: int)
    requires
        0 <= n <= items.len(),
        collect_ids(items.take(n), capacity) is Err,
    ensures
        collect_ids(items, capacity) == collect_ids(items.take(n), capacity),
    decreases items.len() - n,
{
    if n == items.len() {
        assert(items.take(n) =~= items);
    } else {
        assert(items.drop_last().take(n) =~= items.take(n));
        lemma_collect_ids_refused(items.drop_last(), capacity, n);
    }
}

/// Gathers the identifiers of a listing into a batch with room for `N`.
pub struct CollectIdArray<const N: usize>;

/// A batch of identifiers: at most `N` of them, in the order of the listing.
pub struct IdArray<const N: usize> {
    buf: Vec<String>,
}

impl<const N: usize> View for IdArray<N> {
    type V = Seq<Seq<char>>;

    closed spec fn view(&self) -> Seq<Seq<char>> {
        texts(self.buf@)
    }
}

impl<const N: usize> CollectIdArray<N> {
    /// Takes the identifiers out of the elements of an array, one by one.
    pub fn visit_seq(self, items: &Vec<Json>) -> (collected: Result<IdArray<N>, Mismatch>)
        ensures
            match collected {
                Ok(ids) => collect_ids(items_model(items@), N as nat) == Ok::<
                    Seq<Seq<char>>,
                    Mismatch,
                >(ids@),
                Err(mismatch) => collect_ids(items_model(items@), N as nat) == Err::<
                    Seq<Seq<char>>,
                    Mismatch,
                >(mismatch),
            },
    {
        let ghost model = items_model(items@);
        let mut buf: Vec<String> = Vec::new();
        let mut index: usize = 0;
        assert(model.take(0) =~= Seq::<JsonModel>::empty());
        assert(texts(buf@) =~= Seq::<Seq<char>>::empty());
        while index < items.len()
            invariant
                index <= items.len(),
                index <= N,
                model == items_model(items@),
                collect_ids(model.take(index as int), N as nat) == Ok::<Seq<Seq<char>>, Mismatch>(
                    texts(buf@),
                ),
            decreases items.len() - index,
        {
            let ghost next = model.take(index + 1);
            assert(next.drop_last() =~= model.take(index as int));
            assert(next.last() == items@[index as int]@);
            match Id::from_document(&items[index]) {
                Err(mismatch) => {
                    proof {
                        lemma_collect_ids_refused(model, N as nat, index + 1);
                    }
                    return Err(mismatch);
                },
                Ok(id) => {
                    if index >= N {
                        proof {
                            lemma_collect_ids_refused(model, N as nat, index + 1);
                        }
                        return Err(Mismatch::ArrayTooLong);
                    }
                    let ghost held = texts(buf@);
                    buf.push(id.into_string());
                    assert(texts(buf@) =~= held.push(id@));
                },
            }
            index += 1;
        }
        assert(model.take(index as int) =~= model);
        Ok(IdArray { buf })
    }
}

impl<const N: usize> IdArray<N> {
    /// Takes the identifiers out of a listing.
    pub fn from_document(document: &Json) -> (found: Result<IdArray<N>, Mismatch>)
        ensures
            match found {
                Ok(ids) => decode_ids(document@, N as nat) == Ok::<Seq<Seq<char>>, Mismatch>(ids@),
                Err(mismatch) => decode_ids(document@, N as nat) == Err::<
                    Seq<Seq<char>>,
                    Mismatch,
                >(mismatch),
            },
    {
        match document {
            Json::List(items) => {
                proof {
                    lemma_list_view(*items);
                }
                CollectIdArray::<N>.visit_seq(items)
            },
            _ => Err(Mismatch::NotAnArray),
        }
    }

    /// Reads the identifiers from the bytes of a listing.
    pub fn from_slice(bytes: &[u8]) -> (found: Result<IdArray<N>, CodecError>)
        ensures
            match found {
                Ok(ids) => ids_of_body(bytes@, N as nat) == Ok::<
                    Seq<Seq<char>>,
                    Option<Mismatch>,
                >(ids@),
                Err(error) => ids_of_body(bytes@, N as nat) == Err::<
                    Seq<Seq<char>>,
                    Option<Mismatch>,
                >(error.mismatch()),
            },
    {
        match Json::from_slice(bytes) {
            Ok(document) => match IdArray::<N>::from_document(&document) {
                Ok(ids) => Ok(ids),
                Err(mismatch) => Err(CodecError::Shape(mismatch)),
            },
            Err(error) => Err(CodecError::Json(error)),
        }
    }

    /// The identifiers, in the order of the listing.
    pub fn into_vec(self) -> (ids: Vec<String>)
        ensures
            texts(ids@) == self@,
    {
        self.buf
    }
}

} // verus!
