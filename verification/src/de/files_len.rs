//! The number of segments that a document holds, read off the names of its
//! segments alone.

use crate::de::{CodecError, Mismatch};
use crate::json::{entries_model, field, find, json_document, lemma_object_view, Json, JsonModel};
use crate::ser::files::SENTINEL;
use vstd::prelude::*;

verus! {

/// Whether the character is a decimal digit.
pub open spec fn is_digit(c: char) -> bool {
    '0' <= c <= '9'
}

/// The value of a decimal digit.
pub open spec fn digit_value(c: char) -> nat {
    if is_digit(c) {
        (c as u32 - 48) as nat
    } else {
        0
    }
}

/// The number that a run of decimal digits writes.
pub open spec fn decimal_value(digits: Seq<char>) -> nat
    decreases digits.len(),
{
    if digits.len() == 0 {
        0
    } else {
        decimal_value(digits.drop_last()) * 10 + digit_value(digits.last())
    }
}

/// Whether the text is one decimal digit or more, and nothing else.
pub open spec fn is_decimal(digits: Seq<char>) -> bool {
    digits.len() > 0 && forall|i: int| 0 <= i < digits.len() ==> is_digit(#[trigger] digits[i])
}

/// The index that a text writes: decimal digits, after a plus sign or
/// without one, whose number a `usize` can hold.
pub open spec fn parse_index(text: Seq<char>) -> Option<nat> {
    let digits = if text.len() > 0 && text[0] == '+' {
        text.drop_first()
    } else {
        text
    };
    if is_decimal(digits) && decimal_value(digits) <= usize::MAX {
        Some(decimal_value(digits))
    } else {
        None
    }
}

/// The index of the segment that a name stands for, where it is the name of
/// a segment: the sentinel, then the index.
pub open spec fn filename_index(name: Seq<char>) -> Option<nat> {
    if name.len() > 0 && name[0] == SENTINEL {
        parse_index(name.drop_first())
    } else {
        None
    }
}

/// The greater of an index found so far, if any, and one more.
pub open spec fn later(found: Option<nat>, index: Option<nat>) -> Option<nat> {
    match (found, index) {
        (_, None) => found,
        (None, Some(_)) => index,
        (Some(highest), Some(other)) => if other < highest {
            found
        } else {
            index
        },
    }
}

/// The greatest index among the names of a segment map's entries that are
/// names of segments; none where no entry has such a name.
pub open spec fn max_index(entries: Seq<(Seq<char>, JsonModel)>) -> Option<nat>
    decreases entries.len(),
{
    if entries.len() == 0 {
        None
    } else {
        later(max_index(entries.drop_last()), filename_index(entries.last().0))
    }
}

/// The greatest segment index of a segment map.
pub open spec fn filenames(segments: JsonModel) -> Result<Option<nat>, Mismatch> {
    match segments {
        JsonModel::Object(entries) => Ok(max_index(entries)),
        _ => Err(Mismatch::NotAMap),
    }
}

/// The greatest segment index of the document of a blob: that of the segment
/// map under the first `files` entry of the top-level map.
pub open spec fn decode_max_index(document: JsonModel) -> Result<Option<nat>, Mismatch> {
    match document {
        JsonModel::Object(entries) => match field(entries, "files"@) {
            Some(segments) => filenames(segments),
            None => Err(Mismatch::NoFiles),
        },
        _ => Err(Mismatch::NotAMap),
    }
}

/// The greatest segment index of the body of a blob; `Err(None)` where the
/// body is no JSON document.
pub open spec fn max_index_of_body(body: Seq<u8>) -> Result<Option<nat>, Option<Mismatch>> {
    match json_document(body) {
        Some(document) => match decode_max_index(document) {
            Ok(index) => Ok(index),
            Err(mismatch) => Err(Some(mismatch)),
        },
        None => Err(None),
    }
}

/// The number of segments to reckon with when the greatest index is known:
/// one more than it, and one where no segment was found.
pub open spec fn segments_held(max_index: Option<nat>) -> nat {
    match max_index {
        Some(index) => index + 1,
        None => 1,
    }
}

/// More digits never write a smaller number.
pub proof fn lemma_decimal_value_grows(digits: Seq<char>, n: int)
    requires
        0 <= n <= digits.len(),
    ensures
        decimal_value(digits.take(n)) <= decimal_value(digits),
    decreases digits.len() - n,
{
    if n == digits.len() {
        assert(digits.take(n) =~= digits);
    } else {
        assert(digits.drop_last().take(n) =~= digits.take(n));
        lemma_decimal_value_grows(digits.drop_last(), n);
    }
}

/// The text that bytes below 128 spell, one character for each byte.
pub open spec fn ascii_text(bytes: Seq<u8>) -> Seq<char> {
    Seq::new(bytes.len(), |i: int| bytes[i] as char)
}

/// Reads the number that the bytes from `start` on write in decimal digits.
fn digits_value(bytes: &[u8], start: usize) -> (value: Option<usize>)
    requires
        start <= bytes@.len(),
    ensures
        ({
            let digits = ascii_text(bytes@).skip(start as int);
            value == if is_decimal(digits) && decimal_value(digits) <= usize::MAX {
                Some(decimal_value(digits) as usize)
            } else {
                None
            }
        }),
{
    let n = bytes.len();
    let ghost digits = ascii_text(bytes@).skip(start as int);
    if start == n {
        return None;
    }
    let mut value: usize = 0;
    let mut i: usize = start;
    proof {
        assert(digits.take(0) =~= Seq::<char>::empty());
    }
    while i < n
        invariant
            n == bytes@.len(),
            start <= i <= n,
            start < n,
            digits == ascii_text(bytes@).skip(start as int),
            forall|j: int| 0 <= j < i - start ==> is_digit(#[trigger] digits[j]),
            value == decimal_value(digits.take(i - start)),
        decreases n - i,
    {
        let byte = bytes[i];
        assert(digits[i - start] == byte as char);
        if byte < 0x30 || byte > 0x39 {
            assert(!is_digit(digits[i - start]));
            return None;
        }
        proof {
            assert(digits.take(i + 1 - start).drop_last() =~= digits.take(i - start));
            assert(digits.take(i + 1 - start).last() == byte as char);
            assert(digit_value(byte as char) == byte - 0x30);
            lemma_decimal_value_grows(digits, i + 1 - start);
        }
        let tenfold = match value.checked_mul(10) {
            Some(tenfold) => tenfold,
            None => {
                return None;
            },
        };
        value = match tenfold.checked_add((byte - 0x30) as usize) {
            Some(sum) => sum,
            None => {
                return None;
            },
        };
        i += 1;
    }
    proof {
        assert(digits.take(i - start) =~= digits);
    }
    Some(value)
}

/// A name with a character from 128 on is not the name of a segment.
pub proof fn lemma_filename_is_ascii(name: Seq<char>)
    ensures
        filename_index(name) is Some ==> vstd::utf8::is_ascii_chars(name),
{
    if filename_index(name) is Some {
        let text = name.drop_first();
        let digits = if text.len() > 0 && text[0] == '+' {
            text.drop_first()
        } else {
            text
        };
        assert forall|i: int| 0 <= i < name.len() implies '\0' <= #[trigger] name[i]
            <= '\u{7f}' by {
            if i >= 1 {
                if text.len() > 0 && text[0] == '+' {
                    if i >= 2 {
                        assert(is_digit(digits[i - 2]));
                    }
                } else {
                    assert(is_digit(digits[i - 1]));
                }
            }
        }
    }
}

/// Reads the index off the name of a segment; `None` for any other name.
pub fn index_of(name: &str) -> (index: Option<usize>)
    ensures
        match index {
            Some(found) => filename_index(name@) == Some(found as nat),
            None => filename_index(name@) is None,
        },
{
    proof {
        lemma_filename_is_ascii(name@);
    }
    if !name.is_ascii() {
        return None;
    }
    let bytes = name.as_bytes();
    let n = bytes.len();
    let ghost chars = name@;
    proof {
        vstd::string::is_ascii_spec_bytes(name);
        assert(chars.len() == n);
        assert forall|i: int| 0 <= i < n implies (#[trigger] bytes@[i]) as char == chars[i] by {
            assert('\0' <= chars[i] <= '\u{7f}');
        }
        assert(ascii_text(bytes@) =~= chars);
    }
    if n == 0 || bytes[0] != 0x5f {
        return None;
    }
    let start: usize = if n > 1 && bytes[1] == 0x2b {
        2
    } else {
        1
    };
    proof {
        let text = chars.drop_first();
        if start == 2 {
            assert(text[0] == '+');
            assert(text.drop_first() =~= chars.skip(2));
        } else {
            assert(text =~= chars.skip(1));
            if n > 1 {
                assert(text[0] == chars[1]);
            }
        }
    }
    digits_value(bytes, start)
}

/// The greatest segment index among the names of a segment map.
pub struct Filenames {
    pub max_index: Option<usize>,
}

impl Filenames {
    /// Looks through the names of the entries, and at nothing else.
    pub fn from_document(segments: &Json) -> (found: Result<Filenames, Mismatch>)
        ensures
            match found {
                Ok(names) => filenames(segments@) == Ok::<Option<nat>, Mismatch>(
                    match names.max_index {
                        Some(index) => Some(index as nat),
                        None => None,
                    },
                ),
                Err(mismatch) => filenames(segments@) == Err::<Option<nat>, Mismatch>(mismatch),
            },
    {
        match segments {
            Json::Object(entries) => {
                let ghost model = entries_model(entries@);
                let mut output: Option<usize> = None;
                let mut i: usize = 0;
                proof {
                    lemma_object_view(*entries);
                    assert(model.take(0) =~= Seq::<(Seq<char>, JsonModel)>::empty());
                }
                while i < entries.len()
                    invariant
                        i <= entries.len(),
                        model == entries_model(entries@),
                        max_index(model.take(i as int)) == match output {
                            Some(index) => Some(index as nat),
                            None => None,
                        },
                    decreases entries.len() - i,
                {
                    proof {
                        let next = model.take(i + 1);
                        assert(next.drop_last() =~= model.take(i as int));
                        assert(next.last().0 == entries@[i as int].0@);
                    }
                    if let Some(filename) = index_of(entries[i].0.as_str()) {
                        let smaller = match output {
                            Some(current) => filename < current,
                            None => false,
                        };
                        if !smaller {
                            output = Some(filename);
                        }
                    }
                    i += 1;
                }
                proof {
                    assert(model.take(i as int) =~= model);
                }
                Ok(Filenames { max_index: output })
            },
            _ => Err(Mismatch::NotAMap),
        }
    }
}

/// The number of segments that a document holds.
pub struct FilesLen(pub Filenames);

impl FilesLen {
    /// The greatest segment index found, as a number.
    pub open spec fn max_index(&self) -> Option<nat> {
        match self.0.max_index {
            Some(index) => Some(index as nat),
            None => None,
        }
    }

    /// Reads the greatest segment index off a document.
    pub fn from_document(document: &Json) -> (found: Result<FilesLen, Mismatch>)
        ensures
            match found {
                Ok(len) => decode_max_index(document@) == Ok::<Option<nat>, Mismatch>(
                    len.max_index(),
                ),
                Err(mismatch) => decode_max_index(document@) == Err::<Option<nat>, Mismatch>(
                    mismatch,
                ),
            },
    {
        match document {
            Json::Object(entries) => {
                proof {
                    lemma_object_view(*entries);
                }
                match find(entries, "files") {
                    Some(segments) => match Filenames::from_document(segments) {
                        Ok(names) => Ok(FilesLen(names)),
                        Err(mismatch) => Err(mismatch),
                    },
                    None => Err(Mismatch::NoFiles),
                }
            },
            _ => Err(Mismatch::NotAMap),
        }
    }

    /// Reads the greatest segment index off the bytes of a document.
    pub fn from_slice(bytes: &[u8]) -> (found: Result<FilesLen, CodecError>)
        ensures
            match found {
                Ok(len) => max_index_of_body(bytes@) == Ok::<Option<nat>, Option<Mismatch>>(
                    len.max_index(),
                ),
                Err(error) => max_index_of_body(bytes@) == Err::<Option<nat>, Option<Mismatch>>(
                    error.mismatch(),
                ),
            },
    {
        match Json::from_slice(bytes) {
            Ok(document) => match FilesLen::from_document(&document) {
                Ok(len) => Ok(len),
                Err(mismatch) => Err(CodecError::Shape(mismatch)),
            },
            Err(error) => Err(CodecError::Json(error)),
        }
    }

    /// The number of segments to reckon with: one more than the greatest
    /// index, one where no segment was found, and never more than a `usize`
    /// can hold.
    pub fn into_len(self) -> (len: usize)
        ensures
            len == if segments_held(self.max_index()) <= usize::MAX {
                segments_held(self.max_index())
            } else {
                usize::MAX as nat
            },
    {
        match self.0.max_index {
            Some(index) => index.saturating_add(1),
            None => 1,
        }
    }
}

} // verus!
