//! What the reader's side of the codec makes of what the writer's side
//! produced, and of documents that hold more than it asks for.

use crate::de::files::{collect_contents, decode_content, file_content};
use crate::de::files_len::{
    decimal_value, decode_max_index, digit_value, filename_index, is_decimal, is_digit, max_index,
};
use crate::de::id::decode_id;
use crate::de::Mismatch;
use crate::json::{field, JsonModel};
use crate::ser::files::{
    consumed, decimal, digit, filename, files_document, segment, segment_count, segment_entry,
    segment_map, SENTINEL,
};
use vstd::prelude::*;

verus! {

/// Reading joins what writing cut: the document of a write over no more
/// segments than the new content takes stores exactly that content.
pub proof fn lemma_content_round_trip(content: Seq<char>, previous: nat)
    requires
        previous <= segment_count(content.len()),
    ensures
        decode_content(files_document(content, previous)) == Ok::<Seq<char>, Mismatch>(content),
{
    let map = segment_map(content, previous);
    lemma_contents_join(content, previous, map.len() as int);
    assert(map.take(map.len() as int) =~= map);
    assert(content.take(content.len() as int) =~= content);
    let top = seq![("files"@, JsonModel::Object(map))];
    assert(field(top, "files"@) == Some(JsonModel::Object(map)));
}

/// The contents of the first `n` segments of a write, joined, are the
/// content up to the end of the last of them.
pub proof fn lemma_contents_join(content: Seq<char>, previous: nat, n: int)
    requires
        0 <= n <= segment_count(content.len()),
    ensures
        collect_contents(segment_map(content, previous).take(n)) == Ok::<Seq<char>, Mismatch>(
            content.take(consumed(content, n)),
        ),
    decreases n,
{
    let map = segment_map(content, previous);
    if n == 0 {
        assert(content.take(0) =~= Seq::<char>::empty());
    } else {
        lemma_contents_join(content, previous, n - 1);
        let front = map.take(n);
        assert(front.drop_last() =~= map.take(n - 1));
        assert(front.last() == map[n - 1]);
        let piece = segment(content, n - 1);
        let stored = seq![("content"@, JsonModel::Text(piece))];
        assert(field(stored, "content"@) == Some(JsonModel::Text(piece)));
        assert(file_content(segment_entry(piece)) == Ok::<Seq<char>, Mismatch>(piece));
        assert(content.take(consumed(content, n - 1)) + piece =~= content.take(
            consumed(content, n),
        ));
    }
}

/// A write over more segments than the new content takes marks exactly the
/// segments beyond the new content for deletion, and names every entry
/// after its index.
pub proof fn lemma_shrink_marks_stale(content: Seq<char>, previous: nat)
    ensures
        ({
            let count = segment_count(content.len());
            let map = segment_map(content, previous);
            &&& map.len() == if count < previous {
                previous
            } else {
                count
            }
            &&& forall|i: int|
                0 <= i < map.len() ==> (#[trigger] map[i]).0 == filename(i as nat)
            &&& forall|i: int|
                0 <= i < map.len() ==> ((#[trigger] map[i]).1 is Null <==> count <= i < previous)
            &&& forall|i: int|
                0 <= i < count ==> (#[trigger] map[i]).1 == segment_entry(segment(content, i))
        }),
{
}

/// A write over no more segments than the new content takes holds one entry
/// with content for each segment, and no deletion marker.
pub proof fn lemma_grow_adds_no_markers(content: Seq<char>, previous: nat)
    requires
        previous <= segment_count(content.len()),
    ensures
        segment_map(content, previous).len() == segment_count(content.len()),
        forall|i: int|
            0 <= i < segment_count(content.len()) ==> !((#[trigger] segment_map(
                content,
                previous,
            )[i]).1 is Null),
{
}

/// A number written in decimal digits reads back as itself.
pub proof fn lemma_decimal_round_trip(number: nat)
    ensures
        is_decimal(decimal(number)),
        decimal_value(decimal(number)) == number,
    decreases number,
{
    if number < 10 {
        assert(decimal(number).drop_last() =~= Seq::<char>::empty());
        assert(decimal_value(decimal(number).drop_last()) == 0);
        assert(is_digit(digit(number)));
        assert(digit_value(digit(number)) == number);
    } else {
        lemma_decimal_round_trip(number / 10);
        let front = decimal(number / 10);
        assert(decimal(number).drop_last() =~= front);
        assert(decimal(number).last() == digit(number % 10));
        assert(is_digit(digit(number % 10)));
        assert(digit_value(digit(number % 10)) == number % 10);
        assert forall|i: int| 0 <= i < decimal(number).len() implies is_digit(
            #[trigger] decimal(number)[i],
        ) by {
            if i < front.len() {
                assert(decimal(number)[i] == front[i]);
            }
        }
    }
}

/// The name of a segment reads back as the segment's index.
pub proof fn lemma_filename_round_trip(index: nat)
    requires
        index <= usize::MAX,
    ensures
        filename_index(filename(index)) == Some(index),
{
    lemma_decimal_round_trip(index);
    let name = filename(index);
    assert(name[0] == SENTINEL);
    assert(name.drop_first() =~= decimal(index));
    assert(is_digit(decimal(index)[0]));
}

/// The names of the first `n` entries of a write show its last index.
pub proof fn lemma_max_index_of_write(content: Seq<char>, previous: nat, n: int)
    requires
        0 <= n <= segment_map(content, previous).len(),
        n <= usize::MAX,
    ensures
        max_index(segment_map(content, previous).take(n)) == if n == 0 {
            None::<nat>
        } else {
            Some((n - 1) as nat)
        },
    decreases n,
{
    let map = segment_map(content, previous);
    if n > 0 {
        lemma_max_index_of_write(content, previous, n - 1);
        let front = map.take(n);
        assert(front.drop_last() =~= map.take(n - 1));
        assert(front.last().0 == filename((n - 1) as nat));
        lemma_filename_round_trip((n - 1) as nat);
    }
}

/// Reading the number of segments off the document of a write shows the
/// last index that the write names: the greater of the two segment counts,
/// less one.
pub proof fn lemma_max_index_round_trip(content: Seq<char>, previous: nat)
    requires
        segment_count(content.len()) <= usize::MAX,
        previous <= usize::MAX,
    ensures
        ({
            let count = segment_count(content.len());
            let written = if count < previous {
                previous
            } else {
                count
            };
            decode_max_index(files_document(content, previous)) == Ok::<Option<nat>, Mismatch>(
                if written == 0 {
                    None
                } else {
                    Some((written - 1) as nat)
                },
            )
        }),
{
    let map = segment_map(content, previous);
    lemma_max_index_of_write(content, previous, map.len() as int);
    assert(map.take(map.len() as int) =~= map);
    let top = seq![("files"@, JsonModel::Object(map))];
    assert(field(top, "files"@) == Some(JsonModel::Object(map)));
}

/// An entry under another key, wherever it stands, does not change what is
/// found under a key.
pub proof fn lemma_field_ignores_other_keys(
    entries: Seq<(Seq<char>, JsonModel)>,
    key: Seq<char>,
    position: int,
    extra: (Seq<char>, JsonModel),
)
    requires
        0 <= position <= entries.len(),
        extra.0 != key,
    ensures
        field(entries.insert(position, extra), key) == field(entries, key),
    decreases entries.len(),
{
    let longer = entries.insert(position, extra);
    if position == 0 {
        assert(longer.drop_first() =~= entries);
    } else {
        assert(longer[0] == entries[0]);
        assert(longer.drop_first() =~= entries.drop_first().insert(position - 1, extra));
        if entries[0].0 != key {
            lemma_field_ignores_other_keys(entries.drop_first(), key, position - 1, extra);
        }
    }
}

/// Entries of the top-level map that the decoders do not ask for change
/// nothing of what they find, wherever such an entry stands.
pub proof fn lemma_decoders_ignore_unknown_fields(
    entries: Seq<(Seq<char>, JsonModel)>,
    position: int,
    extra: (Seq<char>, JsonModel),
)
    requires
        0 <= position <= entries.len(),
    ensures
        extra.0 != "files"@ ==> decode_content(JsonModel::Object(entries.insert(position, extra)))
            == decode_content(JsonModel::Object(entries)),
        extra.0 != "files"@ ==> decode_max_index(
            JsonModel::Object(entries.insert(position, extra)),
        ) == decode_max_index(JsonModel::Object(entries)),
        extra.0 != "id"@ ==> decode_id(JsonModel::Object(entries.insert(position, extra)))
            == decode_id(JsonModel::Object(entries)),
{
    if extra.0 != "files"@ {
        lemma_field_ignores_other_keys(entries, "files"@, position, extra);
    }
    if extra.0 != "id"@ {
        lemma_field_ignores_other_keys(entries, "id"@, position, extra);
    }
}

/// Entries of the segment map whose names are not names of segments change
/// nothing of the greatest index that is found, wherever such an entry
/// stands.
pub proof fn lemma_max_index_ignores_other_names(
    entries: Seq<(Seq<char>, JsonModel)>,
    position: int,
    extra: (Seq<char>, JsonModel),
)
    requires
        0 <= position <= entries.len(),
        filename_index(extra.0) is None,
    ensures
        max_index(entries.insert(position, extra)) == max_index(entries),
    decreases entries.len() - position,
{
    let longer = entries.insert(position, extra);
    if position == entries.len() {
        assert(longer.drop_last() =~= entries);
        assert(longer.last() == extra);
    } else {
        assert(longer.last() == entries.last());
        assert(longer.drop_last() =~= entries.drop_last().insert(position, extra));
        lemma_max_index_ignores_other_names(entries.drop_last(), position, extra);
    }
}

/// Entries of a segment's map other than its content change nothing of the
/// content that is found, wherever such an entry stands.
pub proof fn lemma_segment_ignores_unknown_fields(
    entries: Seq<(Seq<char>, JsonModel)>,
    position: int,
    extra: (Seq<char>, JsonModel),
)
    requires
        0 <= position <= entries.len(),
        extra.0 != "content"@,
    ensures
        file_content(JsonModel::Object(entries.insert(position, extra))) == file_content(
            JsonModel::Object(entries),
        ),
{
    lemma_field_ignores_other_keys(entries, "content"@, position, extra);
}

} // verus!
