//! The path of a request's URI, cut into segments.

use hyper::Uri;
use url::percent_encoding::percent_decode;
use vstd::prelude::*;

verus! {

broadcast use vstd::string::group_string_axioms;

/// hyper's URI. Of what it holds, the path is known, by [`path_of`].
#[verifier::external_type_specification]
#[verifier::external_body]
pub struct ExUri(hyper::Uri);

/// The path of a URI: what `Uri::path` gives for it.
pub uninterp spec fn path_of(uri: Uri) -> Seq<char>;

/// What `percent_decode` and then `decode_utf8` give for a segment: the segment
/// with every `%` and two hexadecimal digits replaced by the byte they name,
/// read as UTF-8; nothing where those bytes are not UTF-8.
pub uninterp spec fn percent_decoded(segment: Seq<char>) -> Option<Seq<char>>;

/// `Uri::path`.
#[verifier::external_body]
pub(crate) fn uri_path(uri: &Uri) -> (path: String)
    ensures
        path@ == path_of(*uri),
{
    uri.path().to_string()
}

/// `percent_decode` on the segment's bytes, then `decode_utf8` on what it gave.
#[verifier::external_body]
pub(crate) fn decode_segment(segment: &str) -> (decoded: Option<String>)
    ensures
        decoded is Some ==> percent_decoded(segment@) == Some(decoded->0@),
        decoded is None ==> percent_decoded(segment@) is None,
{
    match percent_decode(segment.as_bytes()).decode_utf8() {
        Ok(text) => Some(text.into_owned()),
        Err(_) => None,
    }
}

/// A path without the slash that it starts with, if it starts with one.
pub open spec fn without_leading_slash(path: Seq<char>) -> Seq<char> {
    if path.len() > 0 && path[0] == '/' {
        path.skip(1)
    } else {
        path
    }
}

/// A text cut at every slash. A slash ends one segment and starts the next, so
/// a text without slashes is one segment, and so is the empty text.
pub open spec fn split_at_slashes(text: Seq<char>) -> Seq<Seq<char>>
    decreases text.len(),
{
    if text.len() == 0 {
        seq![Seq::<char>::empty()]
    } else {
        let before = split_at_slashes(text.drop_last());
        if text.last() == '/' {
            before.push(Seq::<char>::empty())
        } else {
            before.update(before.len() - 1, before.last().push(text.last()))
        }
    }
}

/// The segments of a path: the path without its leading slash, cut at slashes.
pub open spec fn segments_of(path: Seq<char>) -> Seq<Seq<char>> {
    split_at_slashes(without_leading_slash(path))
}

/// What stands for a segment once decoding was tried: the decoded text, or the
/// segment as it was where it does not decode.
pub open spec fn decoded_or_raw(segment: Seq<char>, decoded: Option<Seq<char>>) -> Seq<char> {
    match decoded {
        Some(text) => text,
        None => segment,
    }
}

/// The segments of a path, each percent-decoded where it decodes.
pub open spec fn decoded_segments_of(path: Seq<char>) -> Seq<Seq<char>> {
    segments_of(path).map_values(
        |segment: Seq<char>| decoded_or_raw(segment, percent_decoded(segment)),
    )
}

/// The text of a string that may be missing.
pub open spec fn text_of(string: Option<String>) -> Option<Seq<char>> {
    match string {
        Some(s) => Some(s@),
        None => None,
    }
}

/// The texts that a list of strings holds.
pub open spec fn texts(strings: Seq<String>) -> Seq<Seq<char>> {
    strings.map_values(|s: String| s@)
}

/// Segments put together again, with a slash between each two.
pub open spec fn joined_with_slashes(segments: Seq<Seq<char>>) -> Seq<char>
    decreases segments.len(),
{
    if segments.len() == 0 {
        Seq::empty()
    } else if segments.len() == 1 {
        segments[0]
    } else {
        joined_with_slashes(segments.drop_last()) + seq!['/'] + segments.last()
    }
}

/// Cutting never gives an empty list.
pub proof fn lemma_split_nonempty(text: Seq<char>)
    ensures
        split_at_slashes(text).len() >= 1,
    decreases text.len(),
{
    if text.len() > 0 {
        lemma_split_nonempty(text.drop_last());
    }
}

/// Cutting a text at its slashes gives segments without a slash in them, which
/// give the text back when they are put together with a slash between each
/// two.
pub proof fn law_split_undoes_join(text: Seq<char>)
    ensures
        split_at_slashes(text).len() >= 1,
        forall|i: int, j: int|
            0 <= i < split_at_slashes(text).len() && 0 <= j < split_at_slashes(text)[i].len()
                ==> (#[trigger] split_at_slashes(text)[i][j]) != '/',
        joined_with_slashes(split_at_slashes(text)) == text,
    decreases text.len(),
{
    let segments = split_at_slashes(text);
    if text.len() == 0 {
        assert(joined_with_slashes(segments) =~= text);
    } else {
        let shorter = text.drop_last();
        let before = split_at_slashes(shorter);
        law_split_undoes_join(shorter);
        if text.last() == '/' {
            assert(segments.drop_last() =~= before);
            assert(joined_with_slashes(segments) =~= text);
        } else {
            let grown = before.last().push(text.last());
            if before.len() == 1 {
                assert(joined_with_slashes(segments) =~= text);
            } else {
                let front = joined_with_slashes(before.drop_last()) + seq!['/'];
                assert(segments.drop_last() =~= before.drop_last());
                assert(segments.last() == grown);
                assert(joined_with_slashes(before) == front + before.last());
                assert(joined_with_slashes(segments) == front + grown);
                assert(front + grown =~= (front + before.last()).push(text.last()));
                assert(shorter.push(text.last()) =~= text);
            }
        }
        assert forall|i: int, j: int|
            0 <= i < segments.len() && 0 <= j < segments[i].len() implies (
        #[trigger] segments[i][j]) != '/' by {
            if i < before.len() && j < before[i].len() {
                assert(before[i][j] != '/');
            }
        }
    }
}

/// Cuts a path into its segments.
pub fn split_path(path: &str) -> (segments: Vec<String>)
    ensures
        texts(segments@) == segments_of(path@),
{
    let total = path.unicode_len();
    let ghost whole = path@;
    let mut start: usize = 0;
    if total > 0 && path.get_char(0) == '/' {
        start = 1;
    }
    let ghost offset = start as int;
    let ghost text = whole.skip(offset);
    assert(text =~= without_leading_slash(whole));
    let mut segments: Vec<String> = Vec::new();
    let mut at: usize = start;
    proof {
        assert(text.take(0) =~= Seq::<char>::empty());
        assert(whole.subrange(start as int, at as int) =~= Seq::<char>::empty());
        assert(texts(segments@).push(Seq::<char>::empty()) =~~= seq![Seq::<char>::empty()]);
    }
    while at < total
        invariant
            whole == path@,
            total == whole.len(),
            offset <= start <= at <= total,
            0 <= offset <= 1,
            text == whole.skip(offset),
            texts(segments@).push(whole.subrange(start as int, at as int)) == split_at_slashes(
                text.take(at - offset),
            ),
        decreases total - at,
    {
        let c = path.get_char(at);
        let ghost seen = text.take(at - offset);
        let ghost next = text.take(at + 1 - offset);
        let ghost done = texts(segments@);
        let ghost open_segment = whole.subrange(start as int, at as int);
        proof {
            assert(next.drop_last() =~= seen);
            assert(next.last() == c);
            assert(done.push(open_segment).last() == open_segment);
        }
        if c == '/' {
            let segment = path.substring_char(start, at).to_string();
            segments.push(segment);
            start = at + 1;
            proof {
                assert(texts(segments@) =~= done.push(open_segment));
                assert(whole.subrange(start as int, at + 1) =~= Seq::<char>::empty());
            }
        } else {
            proof {
                assert(open_segment.push(c) =~= whole.subrange(start as int, at + 1));
                assert(done.push(open_segment).update(done.len() as int, open_segment.push(c))
                    =~= done.push(open_segment.push(c)));
            }
        }
        at = at + 1;
    }
    let ghost done = texts(segments@);
    let last = path.substring_char(start, total).to_string();
    segments.push(last);
    proof {
        assert(text.take(total - offset) =~= text);
        assert(texts(segments@) =~= done.push(whole.subrange(start as int, total as int)));
    }
    segments
}

/// What stands for a segment once decoding was tried on it.
pub fn segment_or_decoded(segment: String, decoded: Option<String>) -> (text: String)
    ensures
        text@ == decoded_or_raw(segment@, text_of(decoded)),
        decoded is Some ==> text == decoded->0,
        decoded is None ==> text == segment,
{
    match decoded {
        Some(text) => text,
        None => segment,
    }
}

/// Cuts a path into its segments and decodes each one that decodes.
pub fn decode_path(path: &str) -> (segments: Vec<String>)
    ensures
        texts(segments@) == decoded_segments_of(path@),
{
    let raw = split_path(path);
    let mut decoded: Vec<String> = Vec::new();
    let mut i: usize = 0;
    let count = raw.len();
    while i < count
        invariant
            count == raw@.len(),
            i <= count,
            texts(raw@) == segments_of(path@),
            decoded@.len() == i,
            forall|k: int| 0 <= k < i ==> #[trigger] decoded@[k]@ == decoded_or_raw(
                raw@[k]@,
                percent_decoded(raw@[k]@),
            ),
        decreases count - i,
    {
        let segment = raw[i].clone();
        let tried = decode_segment(segment.as_str());
        let text = segment_or_decoded(segment, tried);
        decoded.push(text);
        i = i + 1;
    }
    assert(texts(decoded@) =~= decoded_segments_of(path@)) by {
        assert forall|k: int| 0 <= k < decoded@.len() implies texts(decoded@)[k]
            == decoded_segments_of(path@)[k] by {
            assert(texts(raw@)[k] == raw@[k]@);
        }
    }
    decoded
}

/// The path segments of a URI.
pub trait UriPathSegments {
    /// The path that the segments are cut from.
    spec fn path_text(&self) -> Seq<char>;

    /// The segments of the path, as they stand in the URI.
    fn path_segments(&self) -> (segments: Vec<String>)
        ensures
            texts(segments@) == segments_of(self.path_text()),
    ;

    /// The segments of the path, each percent-decoded where it decodes.
    fn decoded_path_segments(&self) -> (segments: Vec<String>)
        ensures
            texts(segments@) == decoded_segments_of(self.path_text()),
    ;
}

impl UriPathSegments for Uri {
    open spec fn path_text(&self) -> Seq<char> {
        path_of(*self)
    }

    fn path_segments(&self) -> (segments: Vec<String>) {
        let path = uri_path(self);
        split_path(path.as_str())
    }

    fn decoded_path_segments(&self) -> (segments: Vec<String>) {
        let path = uri_path(self);
        decode_path(path.as_str())
    }
}

} // verus!
