//! Cuts a blob into segments and writes the map that stores them.

use crate::json::{entries_model, json_text, lemma_object_view, Json, JsonModel};
use crate::text::{
    lemma_boundary_after_prefix, lemma_encode_concat, lemma_encode_empty, lemma_encode_len,
    lemma_encode_single, lemma_encoding_is_injective,
};
use vstd::prelude::*;
use vstd::string::StringExecFns;
use vstd::utf8::{encode_utf8, encode_utf8_first_scalar, encode_utf8_valid_utf8};

verus! {

/// The most characters that one segment holds.
pub const FILE_MAX_CHARS: usize = 250000;

/// The number of segments that a blob of `chars` characters is cut into.
pub open spec fn segment_count(chars: nat) -> nat {
    ((chars + FILE_MAX_CHARS - 1) / (FILE_MAX_CHARS as int)) as nat
}

/// The segment with the given index: the characters from `index` times
/// [`FILE_MAX_CHARS`] on, as far as the next segment or the end of the blob.
pub open spec fn segment(content: Seq<char>, index: int) -> Seq<char> {
    let start = index * FILE_MAX_CHARS;
    let end = if start + FILE_MAX_CHARS < content.len() {
        start + FILE_MAX_CHARS
    } else {
        content.len() as int
    };
    content.subrange(start, end)
}

/// The number of characters that the first `index` segments hold together.
pub open spec fn consumed(content: Seq<char>, index: int) -> int {
    if index * FILE_MAX_CHARS < content.len() {
        index * FILE_MAX_CHARS
    } else {
        content.len() as int
    }
}

/// The segments of a blob, in order.
pub open spec fn segments(content: Seq<char>) -> Seq<Seq<char>> {
    Seq::new(segment_count(content.len()), |index: int| segment(content, index))
}

/// The segments part the blob: none is empty, none holds more than
/// [`FILE_MAX_CHARS`] characters, all but the last hold exactly that many,
/// and each begins where the one before it ends.
pub proof fn lemma_segments_part_content(content: Seq<char>)
    ensures
        segments(content).len() == segment_count(content.len()),
        content.len() == 0 <==> segments(content).len() == 0,
        forall|index: int|
            0 <= index < segments(content).len() ==> {
                &&& 0 < (#[trigger] segments(content)[index]).len() <= FILE_MAX_CHARS
                &&& index + 1 < segments(content).len() ==> segments(content)[index].len()
                    == FILE_MAX_CHARS
                &&& segments(content)[index] == content.subrange(
                    consumed(content, index),
                    consumed(content, index + 1),
                )
            },
        consumed(content, segments(content).len() as int) == content.len(),
{
}

/// Walks over a blob, segment by segment.
pub struct FilesContentChunks<'a>(pub &'a str);

impl<'a> View for FilesContentChunks<'a> {
    type V = Seq<char>;

    /// What is still to be handed out.
    open spec fn view(&self) -> Seq<char> {
        self.0@
    }
}

/// The number of bytes that encode a character, read off the first of them.
fn width_of(leading: u8) -> (width: usize)
    ensures
        width == if leading <= 0x7f {
            1int
        } else if 0xc0 <= leading <= 0xdf {
            2int
        } else if 0xe0 <= leading <= 0xef {
            3int
        } else {
            4int
        },
{
    if leading <= 0x7f {
        1
    } else if 0xc0 <= leading && leading <= 0xdf {
        2
    } else if 0xe0 <= leading && leading <= 0xef {
        3
    } else {
        4
    }
}

impl<'a> FilesContentChunks<'a> {
    /// Hands out the next segment: the first [`FILE_MAX_CHARS`] characters of
    /// what is left, or all of it where it is shorter. Nothing comes once
    /// nothing is left. A segment ends between two characters, never inside
    /// the bytes of one.
    pub fn next(&mut self) -> (file: Option<&'a str>)
        ensures
            old(self)@.len() == 0 ==> file is None && final(self)@ == old(self)@,
            old(self)@.len() > 0 ==> {
                &&& file matches Some(text)
                &&& text@ == segment(old(self)@, 0)
                &&& final(self)@ == old(self)@.skip(text@.len() as int)
            },
    {
        let whole: &'a str = self.0;
        if whole.is_empty() {
            return None;
        }
        let bytes = whole.as_bytes();
        let ghost chars = whole@;
        let mut offset: usize = 0;
        let mut seen: usize = 0;
        proof {
            assert(chars.take(0) =~= Seq::<char>::empty());
        }
        while offset < bytes.len() && seen < FILE_MAX_CHARS
            invariant
                chars == whole@,
                bytes@ == encode_utf8(chars),
                offset <= bytes.len(),
                seen <= FILE_MAX_CHARS,
                seen <= chars.len(),
                offset == encode_utf8(chars.take(seen as int)).len(),
            decreases bytes.len() - offset,
        {
            let ghost before = chars.take(seen as int);
            let ghost after = chars.skip(seen as int);
            proof {
                assert(before + after =~= chars);
                lemma_encode_concat(before, after);
                lemma_encode_empty(after);
                encode_utf8_first_scalar(after);
                assert(bytes@[offset as int] == encode_utf8(after)[0]);
                assert(chars.take(seen + 1) =~= before + seq![chars[seen as int]]);
                lemma_encode_concat(before, seq![chars[seen as int]]);
                lemma_encode_single(chars[seen as int]);
                assert(after[0] == chars[seen as int]);
            }
            let width = width_of(bytes[offset]);
            offset = offset + width;
            seen = seen + 1;
        }
        let ghost before = chars.take(seen as int);
        let ghost after = chars.skip(seen as int);
        proof {
            assert(before + after =~= chars);
            lemma_encode_concat(before, after);
            lemma_encode_empty(after);
            lemma_boundary_after_prefix(before, after);
            encode_utf8_valid_utf8(chars);
        }
        let (file, rest) = whole.split_at(offset);
        proof {
            assert(bytes@.subrange(0, offset as int) =~= encode_utf8(before));
            assert(bytes@.subrange(offset as int, bytes@.len() as int) =~= encode_utf8(after));
            lemma_encoding_is_injective(file@, before);
            lemma_encoding_is_injective(rest@, after);
            assert(before =~= segment(chars, 0));
        }
        self.0 = rest;
        Some(file)
    }
}

/// The character that writes a digit.
pub open spec fn digit(value: nat) -> char {
    if value == 0 {
        '0'
    } else if value == 1 {
        '1'
    } else if value == 2 {
        '2'
    } else if value == 3 {
        '3'
    } else if value == 4 {
        '4'
    } else if value == 5 {
        '5'
    } else if value == 6 {
        '6'
    } else if value == 7 {
        '7'
    } else if value == 8 {
        '8'
    } else {
        '9'
    }
}

/// A number written in decimal digits, without leading zeros.
pub open spec fn decimal(number: nat) -> Seq<char>
    decreases number,
{
    if number < 10 {
        seq![digit(number)]
    } else {
        decimal(number / 10).push(digit(number % 10))
    }
}

/// The character that every segment's name begins with.
pub const SENTINEL: char = '_';

/// The name under which the segment with the given index is stored.
pub open spec fn filename(index: nat) -> Seq<char> {
    seq![SENTINEL] + decimal(index)
}

/// `itoa::Buffer::format`, for a `usize`: the number in decimal digits.
#[verifier::external_body]
pub(crate) fn format_decimal(number: usize) -> (digits: String)
    ensures
        digits@ == decimal(number as nat),
{
    itoa::Buffer::new().format(number).to_owned()
}

/// Writes the names of segments.
pub struct FilenameBuffer(String);

impl View for FilenameBuffer {
    type V = Seq<char>;

    closed spec fn view(&self) -> Seq<char> {
        self.0@
    }
}

impl FilenameBuffer {
    /// A buffer that holds the sentinel and no digits yet.
    pub fn new() -> (buffer: Self)
        ensures
            buffer@ == seq![SENTINEL],
    {
        proof {
            reveal_strlit("_");
        }
        let text = String::from_str("_");
        assert(text@ =~= seq![SENTINEL]);
        FilenameBuffer(text)
    }

    /// Writes the name of the segment with the given index.
    pub fn fmt(&mut self, i: usize) -> (name: &str)
        ensures
            name@ == filename(i as nat),
            final(self)@ == filename(i as nat),
    {
        proof {
            reveal_strlit("_");
        }
        let digits = format_decimal(i);
        let text = String::from_str("_").concat(digits.as_str());
        assert(text@ =~= filename(i as nat));
        self.0 = text;
        self.0.as_str()
    }
}

/// What stores a segment with the given content.
pub open spec fn segment_entry(content: Seq<char>) -> JsonModel {
    JsonModel::Object(seq![("content"@, JsonModel::Text(content))])
}

/// The segment map of a write: an entry for each segment of the new content
/// and, after them, a deletion marker for each segment that the store holds
/// from before and that the new content no longer reaches.
pub open spec fn segment_map(content: Seq<char>, previous: nat) -> Seq<(Seq<char>, JsonModel)> {
    let count = segment_count(content.len());
    Seq::new(
        if count < previous {
            previous
        } else {
            count
        },
        |index: int|
            (
                filename(index as nat),
                if index < count {
                    segment_entry(segment(content, index))
                } else {
                    JsonModel::Null
                },
            ),
    )
}

/// The document of a write.
pub open spec fn files_document(content: Seq<char>, previous: nat) -> JsonModel {
    JsonModel::Object(seq![("files"@, JsonModel::Object(segment_map(content, previous)))])
}

/// One segment, as it is written.
pub struct FileContent<'a>(pub &'a str);

impl<'a> FileContent<'a> {
    /// The map that stores the segment.
    pub fn document(&self) -> (document: Json)
        ensures
            document@ == segment_entry(self.0@),
    {
        let mut entries: Vec<(String, Json)> = Vec::new();
        entries.push((String::from_str("content"), Json::Text(self.0.to_owned())));
        proof {
            lemma_object_view(entries);
            assert(entries_model(entries@) =~= seq![("content"@, JsonModel::Text(self.0@))]);
        }
        Json::Object(entries)
    }
}

/// A blob and the number of segments that the store holds from before.
pub struct FilesContent<'a> {
    pub files_content: &'a str,
    pub current_len: usize,
}

impl<'a> FilesContent<'a> {
    /// The segment map.
    pub fn document(&self) -> (document: Json)
        ensures
            document@ == JsonModel::Object(
                segment_map(self.files_content@, self.current_len as nat),
            ),
    {
        let ghost content = self.files_content@;
        let ghost map = segment_map(content, self.current_len as nat);
        let ghost count = segment_count(content.len());
        let size = self.files_content.as_bytes().len();
        let mut entries: Vec<(String, Json)> = Vec::with_capacity(size / FILE_MAX_CHARS + 1);
        let mut filename_buf = FilenameBuffer::new();
        let mut chunks = FilesContentChunks(self.files_content);
        let mut index: usize = 0;
        proof {
            lemma_encode_len(content);
            assert(content.skip(0) =~= content);
            assert(entries_model(entries@) =~= map.take(0));
        }
        loop
            invariant_except_break
                chunks@ == content.skip(consumed(content, index as int)),
            invariant
                content == self.files_content@,
                map == segment_map(content, self.current_len as nat),
                count == segment_count(content.len()),
                count <= usize::MAX,
                index <= count,
                entries@.len() == index,
                entries_model(entries@) == map.take(index as int),
            ensures
                index == count,
            decreases count - index,
        {
            match chunks.next() {
                None => {
                    break ;
                },
                Some(file) => {
                    let ghost held = entries_model(entries@);
                    proof {
                        assert(file@ =~= segment(content, index as int));
                        assert(content.skip(index * FILE_MAX_CHARS).skip(file@.len() as int)
                            =~= content.skip(consumed(content, index + 1)));
                        assert(index < count);
                    }
                    let name = filename_buf.fmt(index).to_owned();
                    let entry = FileContent(file).document();
                    entries.push((name, entry));
                    proof {
                        assert(entries_model(entries@) =~= held.push(
                            (filename(index as nat), segment_entry(segment(content, index as int))),
                        ));
                        assert(map.take(index + 1) =~= map.take(index as int).push(
                            map[index as int],
                        ));
                    }
                    index = index + 1;
                },
            }
        }
        while index < self.current_len
            invariant
                map == segment_map(content, self.current_len as nat),
                count == segment_count(content.len()),
                count <= index,
                index <= map.len(),
                entries@.len() == index,
                entries_model(entries@) == map.take(index as int),
            decreases self.current_len - index,
        {
            let ghost held = entries_model(entries@);
            let name = filename_buf.fmt(index).to_owned();
            entries.push((name, Json::Null));
            proof {
                assert(entries_model(entries@) =~= held.push(
                    (filename(index as nat), JsonModel::Null),
                ));
                assert(map.take(index + 1) =~= map.take(index as int).push(map[index as int]));
            }
            index = index + 1;
        }
        proof {
            assert(map.take(index as int) =~= map);
            lemma_object_view(entries);
        }
        Json::Object(entries)
    }
}

/// A write: the new content of a blob, and the number of segments that the
/// store holds of it from before.
pub struct Files<'a>(pub FilesContent<'a>);

impl<'a> Files<'a> {
    pub fn new(files_content: &'a str, current_len: usize) -> (files: Self)
        ensures
            files.0.files_content@ == files_content@,
            files.0.current_len == current_len,
    {
        Files(FilesContent { files_content, current_len })
    }

    /// The document to send.
    pub fn document(&self) -> (document: Json)
        ensures
            document@ == files_document(self.0.files_content@, self.0.current_len as nat),
    {
        let mut entries: Vec<(String, Json)> = Vec::new();
        entries.push((String::from_str("files"), self.0.document()));
        proof {
            lemma_object_view(entries);
            assert(entries_model(entries@) =~= seq![
                (
                    "files"@,
                    JsonModel::Object(
                        segment_map(self.0.files_content@, self.0.current_len as nat),
                    ),
                ),
            ]);
        }
        Json::Object(entries)
    }

    /// The bytes to send.
    pub fn to_vec(&self) -> (body: Result<Vec<u8>, serde_json::Error>)
        ensures
            match body {
                Ok(bytes) => json_text(
                    files_document(self.0.files_content@, self.0.current_len as nat),
                ) == Some(bytes@),
                Err(_) => json_text(
                    files_document(self.0.files_content@, self.0.current_len as nat),
                ) is None,
            },
    {
        self.document().to_vec()
    }
}

} // verus!
