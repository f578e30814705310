//! Paths taken from a platform "open these files" event, which delivers URLs.
//! A URL is held here as its text, as `url::Url::as_str` gives it.
use url::Url;
use vstd::prelude::*;
use vstd::utf8::encode_utf8;

verus! {

/// An ASCII tab, line feed or carriage return: the URL parser drops these
/// wherever they stand.
pub open spec fn is_tab_or_newline(x: u8) -> bool {
    x == 9 || x == 10 || x == 13
}

/// Position `i` of the URL text `b` may end the URL's path: the text ends
/// there, or a query, a fragment, a control character or a space begins.
pub open spec fn may_end_path(b: Seq<u8>, i: int) -> bool {
    i == b.len() || (0 <= i < b.len() && (b[i] == 0x3f || b[i] == 0x23 || b[i] <= 0x20))
}

/// At position `i` of `b` stands what could close a drive letter (`:`, `|`,
/// or `%3A` in either case), and the path may end right after it.
pub open spec fn drive_mark_ends_path(b: Seq<u8>, i: int) -> bool {
    ||| 0 <= i < b.len() && (b[i] == 0x3a || b[i] == 0x7c) && may_end_path(b, i + 1)
    ||| 0 <= i && i + 2 < b.len() && b[i] == 0x25 && b[i + 1] == 0x33 && (b[i + 2] == 0x61
        || b[i + 2] == 0x41) && may_end_path(b, i + 3)
}

/// The URL text `b` might parse to a URL whose path is nothing but a drive
/// letter, such as `file:///Y:`. Every such text is caught, together with
/// some that are not: any text with a tab or a line break, and any with a
/// drive mark that may end the path.
pub open spec fn may_name_bare_drive(b: Seq<u8>) -> bool {
    exists|i: int|
        0 <= i < b.len() && (is_tab_or_newline(#[trigger] b[i]) || drive_mark_ends_path(b, i))
}

/// `b` begins with `prefix`.
pub open spec fn starts_with(b: Seq<u8>, prefix: Seq<u8>) -> bool {
    prefix.len() <= b.len() && b.subrange(0, prefix.len() as int) == prefix
}

/// The word `localhost`, in ASCII lower case.
pub open spec fn localhost() -> Seq<u8> {
    seq![0x6cu8, 0x6f, 0x63, 0x61, 0x6c, 0x68, 0x6f, 0x73, 0x74]
}

/// `localhost`, in any mix of ASCII cases, stands in `b` at position `i`.
pub open spec fn localhost_at(b: Seq<u8>, i: int) -> bool {
    0 <= i && i + 9 <= b.len() && forall|j: int|
        0 <= j < 9 ==> #[trigger] b[i + j] == localhost()[j] || b[i + j] + 32 == localhost()[j]
}

/// The URL text `b` names a web resource on another machine: it begins with
/// `http://` or `https://`, is ASCII without `%`, tabs or line breaks, and
/// does not hold `localhost` in any case. Such a URL has a host that is
/// neither empty nor `localhost`.
pub open spec fn is_remote_web_url(b: Seq<u8>) -> bool {
    &&& starts_with(b, seq![0x68u8, 0x74, 0x74, 0x70, 0x3a, 0x2f, 0x2f]) || starts_with(
        b,
        seq![0x68u8, 0x74, 0x74, 0x70, 0x73, 0x3a, 0x2f, 0x2f],
    )
    &&& forall|i: int|
        0 <= i < b.len() ==> #[trigger] b[i] < 0x80 && b[i] != 0x25 && !is_tab_or_newline(b[i])
    &&& forall|i: int| 0 <= i < b.len() ==> !#[trigger] localhost_at(b, i)
}

/// Relies on url::Url::parse, to read the URL text, and on
/// url::Url::to_file_path, for the local file-system path that the URL names,
/// if it names one; the path is turned into a `String` lossily. Which URLs
/// name a path depends on the platform. Left out: a URL whose path is a bare
/// drive letter, on which to_file_path fails an assertion on Windows. A URL
/// whose host is neither empty nor `localhost` and whose scheme is not `file`
/// names no path on any platform.
#[verifier::external_body]
fn local_path_of(url: &str) -> (r: Option<String>)
    requires
        !may_name_bare_drive(encode_utf8(url@)),
    ensures
        is_remote_web_url(encode_utf8(url@)) ==> r is None,
{
    match Url::parse(url) {
        Ok(u) => match u.to_file_path() {
            Ok(p) => Some(p.to_string_lossy().into_owned()),
            Err(()) => None,
        },
        Err(_) => None,
    }
}

/// Whether position `i` of `b` may end a URL's path.
fn may_end_path_at(b: &[u8], i: usize) -> (r: bool)
    requires
        i <= b@.len(),
    ensures
        r == may_end_path(b@, i as int),
{
    i == b.len() || b[i] == 0x3f || b[i] == 0x23 || b[i] <= 0x20
}

/// Whether the URL text `b` might name a bare drive letter.
pub fn names_bare_drive(b: &[u8]) -> (r: bool)
    ensures
        r == may_name_bare_drive(b@),
{
    let mut i: usize = 0;
    while i < b.len()
        invariant
            i <= b@.len(),
            forall|k: int|
                0 <= k < i ==> !(is_tab_or_newline(#[trigger] b@[k]) || drive_mark_ends_path(
                    b@,
                    k,
                )),
        decreases b@.len() - i,
    {
        let x = b[i];
        if x == 9 || x == 10 || x == 13 {
            return true;
        }
        if (x == 0x3a || x == 0x7c) && may_end_path_at(b, i + 1) {
            return true;
        }
        if x == 0x25 && b.len() - i > 2 && b[i + 1] == 0x33 && (b[i + 2] == 0x61 || b[i + 2]
            == 0x41) && may_end_path_at(b, i + 3) {
            return true;
        }
        i = i + 1;
    }
    false
}

/// The paths among `results`, in order; the entries that resolved to no path
/// are left out.
pub open spec fn resolved(results: Seq<Option<String>>) -> Seq<String>
    decreases results.len(),
{
    if results.len() == 0 {
        Seq::empty()
    } else {
        match results.last() {
            Some(path) => resolved(results.drop_last()).push(path),
            None => resolved(results.drop_last()),
        }
    }
}

/// Keeps the entries of `results` that resolved to a path, in order, and
/// silently drops the others.
pub fn resolved_paths(results: &Vec<Option<String>>) -> (r: Vec<String>)
    ensures
        r@ == resolved(results@),
{
    let mut kept: Vec<String> = Vec::new();
    let mut i: usize = 0;
    while i < results.len()
        invariant
            i <= results@.len(),
            kept@ == resolved(results@.subrange(0, i as int)),
        decreases results@.len() - i,
    {
        assert(results@.subrange(0, i + 1).drop_last() =~= results@.subrange(0, i as int));
        match &results[i] {
            Some(path) => kept.push(path.clone()),
            None => {},
        }
        i = i + 1;
    }
    assert(results@.subrange(0, results@.len() as int) =~= results@);
    kept
}

proof fn lemma_nothing_resolved(results: Seq<Option<String>>)
    requires
        forall|k: int| 0 <= k < results.len() ==> #[trigger] results[k] is None,
    ensures
        resolved(results).len() == 0,
    decreases results.len(),
{
    if results.len() > 0 {
        lemma_nothing_resolved(results.drop_last());
    }
}

/// The local paths named by the URLs of an open-files event, given as their
/// text, in the order of the URLs; a URL that names no local path is silently
/// dropped. Whether a URL names one is up to the platform; whatever it
/// decides, the result is the resolved paths taken in order, one outcome per
/// URL. A URL that might name a bare drive letter, and a URL of a web resource
/// on another machine, are dropped on every platform.
pub fn opened_file_paths(urls: &Vec<String>) -> (r: Vec<String>)
    ensures
        exists|results: Seq<Option<String>>|
            {
                &&& results.len() == urls@.len()
                &&& r@ == #[trigger] resolved(results)
                &&& forall|k: int|
                    0 <= k < urls@.len() && (may_name_bare_drive(encode_utf8(urls@[k]@))
                        || is_remote_web_url(encode_utf8(urls@[k]@))) ==> #[trigger] results[k]
                        is None
            },
        (forall|k: int|
            0 <= k < urls@.len() ==> is_remote_web_url(encode_utf8(#[trigger] urls@[k]@)))
            ==> r@.len() == 0,
{
    let mut results: Vec<Option<String>> = Vec::new();
    let mut i: usize = 0;
    while i < urls.len()
        invariant
            i <= urls@.len(),
            results@.len() == i,
            forall|k: int|
                0 <= k < i && (may_name_bare_drive(encode_utf8(urls@[k]@)) || is_remote_web_url(
                    encode_utf8(urls@[k]@),
                )) ==> #[trigger] results@[k] is None,
        decreases urls@.len() - i,
    {
        let text: &str = urls[i].as_str();
        let bytes: &[u8] = text.as_bytes();
        if names_bare_drive(bytes) {
            results.push(None);
        } else {
            results.push(local_path_of(text));
        }
        i = i + 1;
    }
    let r = resolved_paths(&results);
    proof {
        if forall|k: int|
            0 <= k < urls@.len() ==> is_remote_web_url(encode_utf8(#[trigger] urls@[k]@)) {
            assert forall|k: int| 0 <= k < results@.len() implies #[trigger] results@[k] is None by {
                assert(is_remote_web_url(encode_utf8(urls@[k]@)));
            }
            lemma_nothing_resolved(results@);
        }
    }
    r
}

} // verus!
