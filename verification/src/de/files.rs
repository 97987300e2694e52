//! The content of a blob, joined from the segments of the document that
//! stores it.

use crate::de::{CodecError, Mismatch};
use crate::json::{entries_model, field, find, json_document, lemma_object_view, Json, JsonModel};
use vstd::prelude::*;
use vstd::string::StringExecFns;

verus! {

/// The content of one segment: the text of the first `content` entry of the
/// map that stores it. Every other entry is passed over.
pub open spec fn file_content(segment: JsonModel) -> Result<Seq<char>, Mismatch> {
    match segment {
        JsonModel::Object(entries) => match field(entries, "content"@) {
            Some(JsonModel::Text(content)) => Ok(content),
            Some(_) => Err(Mismatch::NotAString),
            None => Err(Mismatch::NoContent),
        },
        _ => Err(Mismatch::NotAMap),
    }
}

/// The contents of the segments of a segment map, joined in the order of its
/// entries, whatever their names. The first segment without content decides.
pub open spec fn collect_contents(entries: Seq<(Seq<char>, JsonModel)>) -> Result<
    Seq<char>,
    Mismatch,
>
    decreases entries.len(),
{
    if entries.len() == 0 {
        Ok(Seq::empty())
    } else {
        match collect_contents(entries.drop_last()) {
            Err(mismatch) => Err(mismatch),
            Ok(joined) => match file_content(entries.last().1) {
                Err(mismatch) => Err(mismatch),
                Ok(content) => Ok(joined + content),
            },
        }
    }
}

/// The content that a segment map stores.
pub open spec fn files_content(segments: JsonModel) -> Result<Seq<char>, Mismatch> {
    match segments {
        JsonModel::Object(entries) => collect_contents(entries),
        _ => Err(Mismatch::NotAMap),
    }
}

/// The content of the blob that a document stores: that of the segment map
/// under the first `files` entry of the top-level map.
pub open spec fn decode_content(document: JsonModel) -> Result<Seq<char>, Mismatch> {
    match document {
        JsonModel::Object(entries) => match field(entries, "files"@) {
            Some(segments) => files_content(segments),
            None => Err(Mismatch::NoFiles),
        },
        _ => Err(Mismatch::NotAMap),
    }
}

/// The content of the blob that a body stores; `Err(None)` where the body is
/// no JSON document.
pub open spec fn content_of_body(body: Seq<u8>) -> Result<Seq<char>, Option<Mismatch>> {
    match json_document(body) {
        Some(document) => match decode_content(document) {
            Ok(content) => Ok(content),
            Err(mismatch) => Err(Some(mismatch)),
        },
        None => Err(None),
    }
}

/// A segment without content decides for every longer segment map too.
pub proof fn lemma_collect_contents_refused(entries: Seq<(Seq<char>, JsonModel)>, n: int)
    requires
        0 <= n <= entries.len(),
        collect_contents(entries.take(n)) is Err,
    ensures
        collect_contents(entries) == collect_contents(entries.take(n)),
    decreases entries.len() - n,
{
    if n == entries.len() {
        assert(entries.take(n) =~= entries);
    } else {
        assert(entries.drop_last().take(n) =~= entries.take(n));
        lemma_collect_contents_refused(entries.drop_last(), n);
    }
}

/// The content of one segment, borrowed from the document.
pub struct FileContent<'de>(pub &'de str);

impl<'de> FileContent<'de> {
    /// Takes the content out of the map that stores a segment.
    pub fn from_document(segment: &'de Json) -> (found: Result<FileContent<'de>, Mismatch>)
        ensures
            match found {
                Ok(content) => file_content(segment@) == Ok::<Seq<char>, Mismatch>(content.0@),
                Err(mismatch) => file_content(segment@) == Err::<Seq<char>, Mismatch>(mismatch),
            },
    {
        match segment {
            Json::Object(entries) => {
                proof {
                    lemma_object_view(*entries);
                }
                match find(entries, "content") {
                    Some(Json::Text(content)) => Ok(FileContent(content.as_str())),
                    Some(_) => Err(Mismatch::NotAString),
                    None => Err(Mismatch::NoContent),
                }
            },
            _ => Err(Mismatch::NotAMap),
        }
    }
}

/// The joined content of the segments of a segment map.
pub struct FilesContent(pub String);

impl FilesContent {
    /// Joins the contents of the segments, in the order of the entries.
    pub fn from_document(segments: &Json) -> (found: Result<FilesContent, Mismatch>)
        ensures
            match found {
                Ok(content) => files_content(segments@) == Ok::<Seq<char>, Mismatch>(content.0@),
                Err(mismatch) => files_content(segments@) == Err::<Seq<char>, Mismatch>(mismatch),
            },
    {
        match segments {
            Json::Object(entries) => {
                let ghost model = entries_model(entries@);
                let mut output = String::new();
                let mut index: usize = 0;
                proof {
                    lemma_object_view(*entries);
                    assert(model.take(0) =~= Seq::<(Seq<char>, JsonModel)>::empty());
                }
                while index < entries.len()
                    invariant
                        index <= entries.len(),
                        model == entries_model(entries@),
                        files_content(segments@) == collect_contents(model),
                        collect_contents(model.take(index as int)) == Ok::<Seq<char>, Mismatch>(
                            output@,
                        ),
                    decreases entries.len() - index,
                {
                    proof {
                        let next = model.take(index + 1);
                        assert(next.drop_last() =~= model.take(index as int));
                        assert(next.last().1 == entries@[index as int].1@);
                    }
                    match FileContent::from_document(&entries[index].1) {
                        Ok(content) => {
                            output.append(content.0);
                        },
                        Err(mismatch) => {
                            proof {
                                lemma_collect_contents_refused(model, index + 1);
                            }
                            return Err(mismatch);
                        },
                    }
                    index += 1;
                }
                proof {
                    assert(model.take(index as int) =~= model);
                }
                Ok(FilesContent(output))
            },
            _ => Err(Mismatch::NotAMap),
        }
    }
}

/// The content of a blob, as read from the document that stores it.
pub struct Files {
    files_content: FilesContent,
}

impl View for Files {
    type V = Seq<char>;

    closed spec fn view(&self) -> Seq<char> {
        self.files_content.0@
    }
}

impl Files {
    /// Takes the content of the blob out of a document.
    pub fn from_document(document: &Json) -> (found: Result<Files, Mismatch>)
        ensures
            match found {
                Ok(files) => decode_content(document@) == Ok::<Seq<char>, Mismatch>(files@),
                Err(mismatch) => decode_content(document@) == Err::<Seq<char>, Mismatch>(mismatch),
            },
    {
        match document {
            Json::Object(entries) => {
                proof {
                    lemma_object_view(*entries);
                }
                match find(entries, "files") {
                    Some(segments) => match FilesContent::from_document(segments) {
                        Ok(files_content) => Ok(Files { files_content }),
                        Err(mismatch) => Err(mismatch),
                    },
                    None => Err(Mismatch::NoFiles),
                }
            },
            _ => Err(Mismatch::NotAMap),
        }
    }

    /// Reads the content of the blob from the bytes of a document.
    pub fn from_slice(bytes: &[u8]) -> (found: Result<Files, CodecError>)
        ensures
            match found {
                Ok(files) => content_of_body(bytes@) == Ok::<Seq<char>, Option<Mismatch>>(files@),
                Err(error) => content_of_body(bytes@) == Err::<Seq<char>, Option<Mismatch>>(
                    error.mismatch(),
                ),
            },
    {
        match Json::from_slice(bytes) {
            Ok(document) => match Files::from_document(&document) {
                Ok(files) => Ok(files),
                Err(mismatch) => Err(CodecError::Shape(mismatch)),
            },
            Err(error) => Err(CodecError::Json(error)),
        }
    }

    /// The content.
    pub fn into_string(self) -> (content: String)
        ensures
            content@ == self@,
    {
        self.files_content.0
    }
}

} // verus!
