//! Deciding what kind of content the clipboard offers.

use crate::scan::{nonempty, nonempty_strings, split, split_at, starts_with};
use crate::text::{chars_of, lossy_text, utf8_lossy};
use vstd::prelude::*;
use vstd::utf8::{decode_utf8, valid_utf8};

verus! {

/// What the clipboard holds, as far as an upload is concerned.
#[derive(Clone, Copy, Debug, PartialEq, Eq, Structural)]
pub enum PasteType {
    Text,
    File,
    Screenshot,
}

/// An identifier of some image type.
pub open spec fn is_image(id: Seq<char>) -> bool {
    "image/"@.is_prefix_of(id)
}

/// An identifier of some text type.
pub open spec fn is_text(id: Seq<char>) -> bool {
    "text/"@.is_prefix_of(id)
}

/// The identifier under which the clipboard offers a list of files.
pub open spec fn is_file_list(id: Seq<char>) -> bool {
    "text/uri-list"@.is_prefix_of(id)
}

/// An identifier that takes part in the decision.
pub open spec fn recognized(id: Seq<char>) -> bool {
    is_image(id) || is_text(id)
}

/// What one recognized identifier stands for.
pub open spec fn kind_of(id: Seq<char>) -> PasteType {
    if is_image(id) {
        PasteType::Screenshot
    } else if is_file_list(id) {
        PasteType::File
    } else {
        PasteType::Text
    }
}

/// The first recognized identifier of `ids`, if there is one.
pub open spec fn first_recognized(ids: Seq<Seq<char>>) -> Option<Seq<char>>
    decreases ids.len(),
{
    if ids.len() == 0 {
        None
    } else if recognized(ids[0]) {
        Some(ids[0])
    } else {
        first_recognized(ids.skip(1))
    }
}

/// The kind of content that a clipboard offering `ids`, in this order, is
/// taken to hold: what its first recognized identifier stands for, and text
/// where it has none.
pub open spec fn classified(ids: Seq<Seq<char>>) -> PasteType {
    match first_recognized(ids) {
        Some(id) => kind_of(id),
        None => PasteType::Text,
    }
}

/// The identifiers in a listing that gives one on each line.
pub open spec fn identifiers(listing: Seq<char>) -> Seq<Seq<char>> {
    split(listing, '\n').filter(nonempty())
}

/// The identifier at `at` is the first recognized one of `ids`.
pub open spec fn first_recognized_at(ids: Seq<Seq<char>>, at: int) -> bool {
    &&& 0 <= at < ids.len()
    &&& recognized(ids[at])
    &&& forall|j: int| 0 <= j < at ==> !recognized(#[trigger] ids[j])
}

/// The first recognized identifier decides: where it is the one at `at`, the
/// content is of the kind that this identifier stands for.
pub proof fn lemma_first_recognized_decides(ids: Seq<Seq<char>>, at: int)
    requires
        first_recognized_at(ids, at),
    ensures
        first_recognized(ids) == Some(ids[at]),
        classified(ids) == kind_of(ids[at]),
    decreases ids.len(),
{
    if at > 0 {
        let rest = ids.skip(1);
        assert(recognized(rest[at - 1]));
        assert forall|j: int| 0 <= j < at - 1 implies !recognized(#[trigger] rest[j]) by {
            assert(rest[j] == ids[j + 1]);
        }
        lemma_first_recognized_decides(rest, at - 1);
    }
}

/// Without a recognized identifier the content is taken for text.
pub proof fn lemma_unrecognized_is_text(ids: Seq<Seq<char>>)
    requires
        forall|j: int| 0 <= j < ids.len() ==> !recognized(#[trigger] ids[j]),
    ensures
        classified(ids) == PasteType::Text,
    decreases ids.len(),
{
    if ids.len() > 0 {
        let rest = ids.skip(1);
        assert forall|j: int| 0 <= j < rest.len() implies !recognized(#[trigger] rest[j]) by {
            assert(rest[j] == ids[j + 1]);
        }
        lemma_unrecognized_is_text(rest);
    }
}

/// A list whose first recognized identifier is the one for a list of files
/// holds a file; one whose first recognized identifier is `text/plain` holds
/// text.
pub proof fn lemma_first_text_match(ids: Seq<Seq<char>>, at: int)
    requires
        first_recognized_at(ids, at),
    ensures
        is_file_list(ids[at]) ==> classified(ids) == PasteType::File,
        "text/plain"@.is_prefix_of(ids[at]) ==> classified(ids) == PasteType::Text,
{
    lemma_first_recognized_decides(ids, at);
    reveal_strlit("image/");
    reveal_strlit("text/uri-list");
    reveal_strlit("text/plain");
    let id = ids[at];
    if is_image(id) {
        id.lemma_prefix_index_eq("image/"@);
        assert(id[0] == 'i');
    }
    if is_file_list(id) {
        id.lemma_prefix_index_eq("text/uri-list"@);
        assert(id[0] == 't' && id[5] == 'u');
    }
    if "text/plain"@.is_prefix_of(id) {
        id.lemma_prefix_index_eq("text/plain"@);
        assert(id[0] == 't' && id[5] == 'p');
    }
}

/// An image identifier makes the content a screenshot wherever it stands in
/// the list, as long as no text identifier stands before it.
pub proof fn lemma_image_wins(ids: Seq<Seq<char>>, at: int)
    requires
        0 <= at < ids.len(),
        is_image(ids[at]),
        forall|j: int| 0 <= j < at ==> !is_text(#[trigger] ids[j]),
    ensures
        classified(ids) == PasteType::Screenshot,
    decreases ids.len(),
{
    if at > 0 && !is_image(ids[0]) {
        let rest = ids.skip(1);
        assert(!is_text(ids[0]));
        assert(is_image(rest[at - 1]));
        assert forall|j: int| 0 <= j < at - 1 implies !is_text(#[trigger] rest[j]) by {
            assert(rest[j] == ids[j + 1]);
        }
        lemma_image_wins(rest, at - 1);
    }
}

/// A screenshot is found in no other way: some image identifier stands in
/// the list with no text identifier before it.
pub proof fn lemma_screenshot_has_image(ids: Seq<Seq<char>>) -> (at: int)
    requires
        classified(ids) == PasteType::Screenshot,
    ensures
        0 <= at < ids.len(),
        is_image(ids[at]),
        forall|j: int| 0 <= j < at ==> !is_text(#[trigger] ids[j]),
    decreases ids.len(),
{
    if is_image(ids[0]) {
        0
    } else {
        let rest = ids.skip(1);
        let found = lemma_screenshot_has_image(rest);
        assert forall|j: int| 0 <= j < found + 1 implies !is_text(#[trigger] ids[j]) by {
            if j > 0 {
                assert(ids[j] == rest[j - 1]);
            }
        }
        found + 1
    }
}

/// The type identifiers that a listing names, one on each line that is not
/// empty.
pub fn identifiers_of_text(listing: &str) -> (r: Vec<String>)
    ensures
        r.deep_view() == identifiers(listing@),
{
    let chars = chars_of(listing);
    let lines = split_at(&chars, '\n');
    nonempty_strings(&lines)
}

/// The type identifiers in the raw output of a listing. Bytes that are not
/// UTF-8 are read leniently.
pub fn identifiers_of(listing: &[u8]) -> (r: Vec<String>)
    ensures
        r.deep_view() == identifiers(utf8_lossy(listing@)),
        valid_utf8(listing@) ==> r.deep_view() == identifiers(decode_utf8(listing@)),
{
    let text = lossy_text(listing);
    identifiers_of_text(text.as_str())
}

/// Decides what the clipboard holds from the type identifiers it offers.
pub fn classify(mime_types: &Vec<String>) -> (r: PasteType)
    ensures
        r == classified(mime_types.deep_view()),
{
    let image = chars_of("image/");
    let text = chars_of("text/");
    let file_list = chars_of("text/uri-list");
    let ghost ids = mime_types.deep_view();
    let mut i: usize = 0;
    assert(ids.skip(0) =~= ids);
    while i < mime_types.len()
        invariant
            i <= mime_types@.len(),
            ids == mime_types.deep_view(),
            image@ == "image/"@,
            text@ == "text/"@,
            file_list@ == "text/uri-list"@,
            first_recognized(ids) == first_recognized(ids.skip(i as int)),
        decreases mime_types@.len() - i,
    {
        let id = chars_of(mime_types[i].as_str());
        assert(ids.skip(i as int)[0] == id@);
        assert(ids.skip(i as int).skip(1) =~= ids.skip(i + 1));
        if starts_with(&id, &image) {
            return PasteType::Screenshot;
        }
        if starts_with(&id, &text) {
            if starts_with(&id, &file_list) {
                return PasteType::File;
            } else {
                return PasteType::Text;
            }
        }
        i = i + 1;
    }
    PasteType::Text
}

} // verus!
