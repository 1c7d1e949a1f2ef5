//! The calls into other crates, and into parts of the standard library that have
//! no specification. What each contract claims is not proved here.

use vstd::prelude::*;
use vstd::string::*;
use vstd::utf8::{decode_utf8, valid_utf8};

use crate::feed::content::has_image_tag;
use crate::feed::entry::{entry_views, EntryView, FeedEntry};
use crate::text::{decimal, free_of, opt_text, split};

verus! {

/// The texts of a result.
pub open spec fn outcome(r: Result<String, String>) -> Result<Seq<char>, Seq<char>> {
    match r {
        Ok(t) => Ok(t@),
        Err(e) => Err(e@),
    }
}

/// A result is seen by the text that it holds, on either side.
pub proof fn law_outcome(text: String)
    ensures
        outcome(Ok(text)) == Ok::<Seq<char>, Seq<char>>(text@),
        outcome(Err(text)) == Err::<Seq<char>, Seq<char>>(text@),
{
}

/// What `UserId` makes of a text: the identifier, or the reason why it is none.
pub uninterp spec fn parsed_user_id(s: Seq<char>) -> Result<Seq<char>, Seq<char>>;

/// Calls `TryFrom<&str>` of ruma's `&UserId` and gives the identifier's text, or
/// the text of the error. An identifier's text is the text it was made of; it
/// starts with `@` and holds a colon.
#[verifier::external_body]
pub(crate) fn user_id(s: &str) -> (r: Result<String, String>)
    ensures
        outcome(r) == parsed_user_id(s@),
        r matches Ok(id) ==> id@ == s@ && s@.len() > 0 && s@[0] == '@' && s@.contains(':'),
{
    match <&matrix_sdk::ruma::UserId>::try_from(s) {
        Ok(id) => Ok(id.as_str().to_owned()),
        Err(e) => Err(e.to_string()),
    }
}

/// What `RoomAliasId` makes of a text: the alias, or the reason why it is none.
pub uninterp spec fn parsed_room_alias(s: Seq<char>) -> Result<Seq<char>, Seq<char>>;

/// Calls `TryFrom<&str>` of ruma's `&RoomAliasId` and gives the alias's text, or
/// the text of the error. An alias's text is the text it was made of; it starts
/// with `#` and holds a colon.
#[verifier::external_body]
pub(crate) fn room_alias(s: &str) -> (r: Result<String, String>)
    ensures
        outcome(r) == parsed_room_alias(s@),
        r matches Ok(id) ==> id@ == s@ && s@.len() > 0 && s@[0] == '#' && s@.contains(':'),
{
    match <&matrix_sdk::ruma::RoomAliasId>::try_from(s) {
        Ok(id) => Ok(id.as_str().to_owned()),
        Err(e) => Err(e.to_string()),
    }
}

/// What follows the first colon of `s`.
pub open spec fn after_colon(s: Seq<char>) -> Seq<char>
    decreases s.len(),
{
    if s.len() == 0 {
        s
    } else if s[0] == ':' {
        s.drop_first()
    } else {
        after_colon(s.drop_first())
    }
}

/// Calls `UserId::server_name` of ruma: what follows the identifier's first colon.
#[verifier::external_body]
pub(crate) fn server_name(id: &str) -> (r: String)
    requires
        parsed_user_id(id@) is Ok,
    ensures
        r@ == after_colon(id@),
{
    <&matrix_sdk::ruma::UserId>::try_from(id).unwrap().server_name().as_str().to_owned()
}

/// Calls `Regex::new` and `Regex::is_match`: whether the one pattern that is
/// searched for is found anywhere in the line. The pattern compiles; it asks for
/// `<img `, then any characters but `>`, then the start of an upload's address.
#[verifier::external_body]
pub(crate) fn regex_is_match(pattern: &str, line: &str) -> (r: bool)
    requires
        pattern@ == "<img [^>]*src=\"https://devzen\\.ru/wp-content/uploads/"@,
    ensures
        r == has_image_tag(line@),
{
    regex::Regex::new(pattern).unwrap().is_match(line)
}

/// What `Channel::read_from` makes of a document: the items of the channel, or the
/// reason why it is none.
pub uninterp spec fn parsed_channel(body: Seq<u8>) -> Result<Seq<EntryView>, Seq<char>>;

/// The texts of what a document was read as.
pub open spec fn channel_outcome(r: Result<Vec<FeedEntry>, String>) -> Result<
    Seq<EntryView>,
    Seq<char>,
> {
    match r {
        Ok(list) => Ok(entry_views(list@)),
        Err(e) => Err(e@),
    }
}

/// Calls `Channel::read_from` of the rss crate and gives link, title and content
/// of each item, in order, or the text of the error. Elements nested deeper than
/// the thread's stack holds end the process; nothing is claimed of such a run.
#[verifier::external_body]
pub(crate) fn rss_entries(body: &[u8]) -> (r: Result<Vec<FeedEntry>, String>)
    ensures
        channel_outcome(r) == parsed_channel(body@),
{
    match rss::Channel::read_from(body) {
        Ok(channel) => Ok(
            channel.items().iter().map(
                |i| FeedEntry {
                    link: i.link().map(str::to_owned),
                    title: i.title().map(str::to_owned),
                    content: i.content().map(str::to_owned),
                },
            ).collect(),
        ),
        Err(e) => Err(e.to_string()),
    }
}

/// Reads `mime::IMAGE_JPEG`, which is `image/jpeg`.
#[verifier::external_body]
pub(crate) fn mime_jpeg() -> (r: String)
    ensures
        r@ == "image/jpeg"@,
{
    mime::IMAGE_JPEG.to_string()
}

/// Reads `mime::IMAGE_PNG`, which is `image/png`.
#[verifier::external_body]
pub(crate) fn mime_png() -> (r: String)
    ensures
        r@ == "image/png"@,
{
    mime::IMAGE_PNG.to_string()
}

/// Reads `mime::IMAGE_GIF`, which is `image/gif`.
#[verifier::external_body]
pub(crate) fn mime_gif() -> (r: String)
    ensures
        r@ == "image/gif"@,
{
    mime::IMAGE_GIF.to_string()
}

/// `s` is two words of small letters, both of them non-empty, with a slash between.
pub open spec fn plain_media_type(s: Seq<char>) -> bool {
    exists|slash: int|
        #![trigger s[slash]]
        0 < slash < s.len() - 1 && s[slash] == '/' && forall|i: int|
            0 <= i < s.len() && i != slash ==> 'a' <= #[trigger] s[i] <= 'z'
}

/// Calls `FromStr` of `Mime`, which takes a plain media type as it is.
#[verifier::external_body]
pub(crate) fn mime_parse(s: &str) -> (r: String)
    requires
        plain_media_type(s@),
    ensures
        r@ == s@,
{
    s.parse::<mime::Mime>().unwrap().to_string()
}

/// Calls `StatusCode::is_success` of the http crate, as reqwest gives it: whether
/// the status is within 200-299.
#[verifier::external_body]
pub(crate) fn status_is_success(status: u16) -> (r: bool)
    requires
        100 <= status <= 999,
    ensures
        r == (200 <= status < 300),
{
    reqwest::StatusCode::from_u16(status).unwrap().is_success()
}

/// The reason phrase that goes with a status.
pub uninterp spec fn status_reason(status: u16) -> Seq<char>;

/// Calls `Display` of the http crate's `StatusCode`, as reqwest gives it: the
/// number, a space and the reason phrase.
#[verifier::external_body]
pub(crate) fn status_text(status: u16) -> (r: String)
    requires
        100 <= status <= 999,
    ensures
        r@ == decimal(status as nat) + " "@ + status_reason(status),
{
    reqwest::StatusCode::from_u16(status).unwrap().to_string()
}

/// The small letter for a capital ASCII letter; any other character as it is.
pub open spec fn ascii_small(c: char) -> char {
    if 'A' <= c <= 'Z' {
        (c as u32 + 32) as char
    } else {
        c
    }
}

/// The lowercase form of a text.
pub uninterp spec fn lowercase(s: Seq<char>) -> Seq<char>;

/// Calls `str::to_lowercase`. Of ASCII text the capital letters become small ones
/// and everything else stays.
#[verifier::external_body]
pub(crate) fn to_lowercase(s: &str) -> (r: String)
    ensures
        r@ == lowercase(s@),
        (forall|i: int| 0 <= i < s@.len() ==> #[trigger] s@[i] <= '\u{7F}') ==> r@
            == s@.map_values(|c: char| ascii_small(c)),
{
    s.to_lowercase()
}

/// The name that a path ends with, given the pieces between its slashes: empty pieces
/// and single dots are passed over, and two dots name no file.
pub open spec fn last_name(pieces: Seq<Seq<char>>) -> Option<Seq<char>>
    decreases pieces.len(),
{
    if pieces.len() == 0 {
        None
    } else if pieces.last().len() == 0 || pieces.last() == "."@ {
        last_name(pieces.drop_last())
    } else if pieces.last() == ".."@ {
        None
    } else {
        Some(pieces.last())
    }
}

/// What follows the last dot of a file name; nothing where it has no dot but one at
/// its start.
pub open spec fn name_extension(name: Seq<char>) -> Option<Seq<char>> {
    let pieces = split(name, '.');
    if pieces.len() == 1 || (pieces.len() == 2 && pieces[0].len() == 0) {
        None
    } else {
        Some(pieces.last())
    }
}

/// The extension of the file that a path names, where slashes alone take it apart.
pub open spec fn file_extension(path: Seq<char>) -> Option<Seq<char>> {
    match last_name(split(path, '/')) {
        Some(name) => name_extension(name),
        None => None,
    }
}

/// The characters at which a path is taken apart on some platform.
pub open spec fn separates(c: char) -> bool {
    c == '/' || c == '\\'
}

/// The path with a slash for each backslash.
pub open spec fn slashed(path: Seq<char>) -> Seq<char> {
    path.map_values(|c: char| if c == '\\' { '/' } else { c })
}

/// The path starts with two separators.
pub open spec fn two_separators(path: Seq<char>) -> bool {
    path.len() > 1 && separates(path[0]) && separates(path[1])
}

/// The path starts with the letter of a drive and a colon.
pub open spec fn starts_with_drive(path: Seq<char>) -> bool {
    path.len() > 1 && ('a' <= path[0] <= 'z' || 'A' <= path[0] <= 'Z') && path[1] == ':'
}

/// Behind the two separators at its start the path holds the name of a server, a
/// separator at `a`, the name of a share and a separator at `b`.
pub open spec fn share_ends(path: Seq<char>, a: int, b: int) -> bool {
    &&& 2 < a
    &&& a + 1 < b < path.len()
    &&& separates(path[a])
    &&& separates(path[b])
    &&& forall|i: int| 2 <= i < b && i != a ==> !separates(#[trigger] path[i])
    &&& path.subrange(2, a) != "?"@
}

/// Windows sets the first `k` characters of the path apart, as a share or a drive,
/// and takes the rest apart at slashes and backslashes.
pub open spec fn prefix_ends(path: Seq<char>, k: int) -> bool {
    if two_separators(path) {
        exists|a: int| share_ends(path, a, k)
    } else if starts_with_drive(path) {
        k == 2
    } else {
        k == 0
    }
}

/// Unix, which takes the path apart at slashes alone, and Windows, which sets the
/// first `k` characters apart, find the same extension.
pub open spec fn alike_behind(path: Seq<char>, k: int) -> bool {
    prefix_ends(path, k) && file_extension(path) == file_extension(slashed(path.skip(k)))
}

/// Calls `Path::extension`. Where Unix and Windows find the same extension, that is
/// the result; where the path holds no dot, there is none. Of other paths nothing is
/// stated: the platforms take them apart differently.
#[verifier::external_body]
pub(crate) fn path_extension(path: &str) -> (r: Option<String>)
    ensures
        forall|k: int| #[trigger]
            alike_behind(path@, k) ==> opt_text(r) == file_extension(path@),
        free_of(path@, '.') ==> r is None,
{
    std::path::Path::new(path).extension().and_then(|e| e.to_str()).map(str::to_owned)
}

/// Bytes as text, with replacement characters where they are no UTF-8.
pub uninterp spec fn lossy_text(bytes: Seq<u8>) -> Seq<char>;

/// Calls `String::from_utf8_lossy`. Bytes that are UTF-8 give the text they encode.
#[verifier::external_body]
pub(crate) fn utf8_lossy(bytes: &[u8]) -> (r: String)
    ensures
        r@ == lossy_text(bytes@),
        valid_utf8(bytes@) ==> r@ == decode_utf8(bytes@),
{
    String::from_utf8_lossy(bytes).into_owned()
}

} // verus!
