//! The picture of the bot's account.

use vstd::prelude::*;
use vstd::string::*;

use crate::outside::{alike_behind, last_name, prefix_ends, separates, share_ends, slashed};
use crate::outside::{ascii_small, file_extension, lowercase, outcome, plain_media_type};
use crate::outside::{mime_gif, mime_jpeg, mime_parse, mime_png, path_extension, to_lowercase};
use crate::outside::{starts_with_drive, two_separators};
use crate::text::{concat_four, free_of, opt_text, or_empty, split, str_eq};
use crate::text::{law_join_split, law_split_parts, lemma_split_append, lemma_split_nonempty};

verus! {

/// The content type for a file extension in small letters, or the error if there
/// is none.
pub open spec fn content_type(ext: Seq<char>) -> Result<Seq<char>, Seq<char>> {
    if ext == "jpg"@ || ext == "jpeg"@ {
        Ok("image/jpeg"@)
    } else if ext == "png"@ {
        Ok("image/png"@)
    } else if ext == "gif"@ {
        Ok("image/gif"@)
    } else if ext == "webp"@ {
        Ok("image/webp"@)
    } else {
        Err("Unsupported avatar file extension: '"@ + ext + "'"@)
    }
}

/// The extension of a path, which is empty where it has none.
pub open spec fn extension_or_empty(path: Seq<char>) -> Seq<char> {
    or_empty(file_extension(path))
}

/// Every character of `s` is an ASCII character.
pub open spec fn ascii(s: Seq<char>) -> bool {
    forall|i: int| 0 <= i < s.len() ==> #[trigger] s[i] <= '\u{7F}'
}

/// The content type for a file extension in small letters.
pub fn content_type_of(ext: &str) -> (r: Result<String, String>)
    ensures
        outcome(r) == content_type(ext@),
{
    if str_eq(ext, "jpg") || str_eq(ext, "jpeg") {
        Ok(mime_jpeg())
    } else if str_eq(ext, "png") {
        Ok(mime_png())
    } else if str_eq(ext, "gif") {
        Ok(mime_gif())
    } else if str_eq(ext, "webp") {
        proof {
            reveal_strlit("image/webp");
            assert("image/webp"@[5] == '/');
            assert(plain_media_type("image/webp"@));
        }
        Ok(mime_parse("image/webp"))
    } else {
        let mut text = "Unsupported avatar file extension: '".to_owned();
        text.append(ext);
        text.append("'");
        Err(text)
    }
}

/// A path that is taken apart at its slashes alone: it holds no backslash and starts
/// neither with two slashes nor with a drive.
pub open spec fn plain_path(path: Seq<char>) -> bool {
    free_of(path, '\\') && !two_separators(path) && !starts_with_drive(path)
}

proof fn lemma_plain_path(path: Seq<char>)
    requires
        plain_path(path),
    ensures
        alike_behind(path, 0),
{
    assert forall|i: int| 0 <= i < path.len() implies path[i] != '\\' by {
        assert(path.contains(path[i]));
    }
    assert(slashed(path.skip(0)) =~= path);
}

/// The character is one that can stand before the name of a file.
pub open spec fn before_name(c: char) -> bool {
    separates(c) || c == ':'
}

/// The dot at `dot` is the last one of the path and stands within the name of the
/// file, not at its start; what comes before the name ends with a separator or a
/// colon, and is more than the name of a server and a share.
pub open spec fn dot_in_name(path: Seq<char>, dot: int) -> bool {
    &&& 0 < dot < path.len()
    &&& path[dot] == '.'
    &&& !before_name(path[dot - 1])
    &&& forall|i: int| dot < i < path.len() ==> #[trigger] path[i] != '.' && !before_name(path[i])
    &&& dot == path.len() - 1 && path[dot - 1] == '.' ==> dot > 1 && !before_name(path[dot - 2])
    &&& two_separators(path) ==> exists|a: int, b: int| #[trigger]
        share_ends(path, a, b) && b < dot
}

/// What follows the last occurrence of `c` is the last piece of a split at `c`.
proof fn lemma_last_piece(s: Seq<char>, c: char, at: int)
    requires
        0 <= at <= s.len(),
        at > 0 ==> s[at - 1] == c,
        forall|i: int| at <= i < s.len() ==> s[i] != c,
    ensures
        split(s, c).len() > 0,
        split(s, c).last() == s.skip(at),
        at > 0 ==> split(s, c).drop_last() == split(s.take(at - 1), c),
{
    let front = s.take(at);
    let back = s.skip(at);
    assert(front + back =~= s);
    lemma_split_append(front, back, c);
    lemma_split_nonempty(front, c);
    if at > 0 {
        assert(front.drop_last() =~= s.take(at - 1));
        assert(split(front, c).drop_last() =~= split(s.take(at - 1), c));
    }
    assert(split(front, c).last() + back =~= back);
    assert(split(s, c).drop_last() =~= split(front, c).drop_last());
}

/// A position behind the last slash of a path.
proof fn lemma_last_slash(path: Seq<char>) -> (at: int)
    ensures
        0 <= at <= path.len(),
        at > 0 ==> path[at - 1] == '/',
        forall|i: int| at <= i < path.len() ==> path[i] != '/',
    decreases path.len(),
{
    if path.len() == 0 || path.last() == '/' {
        path.len() as int
    } else {
        let at = lemma_last_slash(path.drop_last());
        assert forall|i: int| at <= i < path.len() implies path[i] != '/' by {
            if i < path.len() - 1 {
                assert(path.drop_last()[i] == path[i]);
            }
        }
        at
    }
}

/// Where the last dot of a path stands within the name of the file, not at its
/// start, the extension is what follows it.
proof fn lemma_extension_after_dot(path: Seq<char>, dot: int)
    requires
        0 < dot < path.len(),
        path[dot] == '.',
        path[dot - 1] != '/',
        forall|i: int| dot < i < path.len() ==> #[trigger] path[i] != '.' && path[i] != '/',
        dot == path.len() - 1 && path[dot - 1] == '.' ==> dot > 1 && path[dot - 2] != '/',
    ensures
        file_extension(path) == Some(path.skip(dot + 1)),
{
    reveal_strlit(".");
    reveal_strlit("..");
    let at = lemma_last_slash(path);
    lemma_last_piece(path, '/', at);
    let name = path.skip(at);
    let d = dot - at;
    assert(name != ".."@) by {
        if name == ".."@ {
            assert(name[0] == '.' && name.len() == 2);
            assert(path[at] == '.');
        }
    }
    assert(name[d] == '.');
    lemma_last_piece(name, '.', d + 1);
    assert(name.skip(d + 1) =~= path.skip(dot + 1));
    let pieces = split(name, '.');
    lemma_split_nonempty(name.take(d), '.');
    if pieces.len() == 2 && pieces[0].len() == 0 {
        law_join_split(name.take(d), '.');
        assert(pieces.drop_last()[0] == pieces[0]);
        assert(name.take(d).len() == 0);
    }
}

proof fn lemma_dot_in_name(path: Seq<char>, dot: int) -> (k: int)
    requires
        dot_in_name(path, dot),
    ensures
        alike_behind(path, k),
        file_extension(path) == Some(path.skip(dot + 1)),
{
    let k = if two_separators(path) {
        let (a, b) = choose|a: int, b: int| #[trigger] share_ends(path, a, b) && b < dot;
        assert(share_ends(path, a, b));
        b
    } else if starts_with_drive(path) {
        2
    } else {
        0
    };
    let rest = slashed(path.skip(k));
    assert(k == 0 || before_name(path[k]) || before_name(path[k - 1]));
    assert(k < dot);
    assert forall|i: int| 0 <= i < rest.len() implies #[trigger] rest[i] == if path[k + i]
        == '\\' {
        '/'
    } else {
        path[k + i]
    } by {
        assert(path.skip(k)[i] == path[k + i]);
    }
    lemma_extension_after_dot(path, dot);
    lemma_extension_after_dot(rest, dot - k);
    assert(rest.skip(dot - k + 1) =~= path.skip(dot + 1));
    k
}

/// What is made of an extension in which small and capital letters are alike.
pub open spec fn typed_by(r: Result<Seq<char>, Seq<char>>, ext: Seq<char>) -> bool {
    &&& r == content_type(lowercase(ext))
    &&& ascii(ext) ==> r == content_type(ext.map_values(|c: char| ascii_small(c)))
}

/// The content type of the picture at `path`, by the extension of its name, in
/// which small and capital letters are alike.
///
/// The extension is fixed wherever Unix and Windows find the same one, as they do on
/// plain paths and on those whose last dot stands within the file's name on both.
pub fn avatar_content_type(path: &str) -> (r: Result<String, String>)
    ensures
        exists|ext: Seq<char>| #[trigger] typed_by(outcome(r), ext),
        forall|k: int| #[trigger]
            alike_behind(path@, k) ==> typed_by(outcome(r), extension_or_empty(path@)),
        plain_path(path@) ==> typed_by(outcome(r), extension_or_empty(path@)),
        forall|dot: int| #[trigger]
            dot_in_name(path@, dot) ==> typed_by(outcome(r), path@.skip(dot + 1)),
        free_of(path@, '.') ==> typed_by(outcome(r), Seq::empty()),
{
    let ext = match path_extension(path) {
        Some(ext) => ext,
        None => String::new(),
    };
    let small = to_lowercase(ext.as_str());
    let r = content_type_of(small.as_str());
    proof {
        assert(typed_by(outcome(r), ext@));
        assert(free_of(path@, '.') ==> ext@ =~= Seq::empty());
        if plain_path(path@) {
            lemma_plain_path(path@);
        }
        assert forall|dot: int| #[trigger] dot_in_name(path@, dot) implies typed_by(
            outcome(r),
            path@.skip(dot + 1),
        ) by {
            let k = lemma_dot_in_name(path@, dot);
            assert(alike_behind(path@, k));
        }
    }
    r
}

/// Which extensions are those of pictures, and of which content type; any other is
/// named in the error.
pub proof fn law_content_types(ext: Seq<char>)
    ensures
        content_type("jpg"@) == Ok::<Seq<char>, Seq<char>>("image/jpeg"@),
        content_type("jpeg"@) == Ok::<Seq<char>, Seq<char>>("image/jpeg"@),
        content_type("png"@) == Ok::<Seq<char>, Seq<char>>("image/png"@),
        content_type("gif"@) == Ok::<Seq<char>, Seq<char>>("image/gif"@),
        content_type("webp"@) == Ok::<Seq<char>, Seq<char>>("image/webp"@),
        ext != "jpg"@ && ext != "jpeg"@ && ext != "png"@ && ext != "gif"@ && ext != "webp"@
            ==> content_type(ext) == Err::<Seq<char>, Seq<char>>(
            "Unsupported avatar file extension: '"@ + ext + "'"@,
        ),
{
    reveal_strlit("jpg");
    reveal_strlit("jpeg");
    reveal_strlit("png");
    reveal_strlit("gif");
    reveal_strlit("webp");
    assert("jpg"@.len() == 3 && "jpeg"@.len() == 4 && "png"@.len() == 3);
    assert("gif"@.len() == 3 && "webp"@.len() == 4);
    assert("jpg"@[0] == 'j' && "jpeg"@[0] == 'j' && "png"@[0] == 'p');
    assert("gif"@[0] == 'g' && "webp"@[0] == 'w');
}

/// The lowercase form of an extension decides its content type.
pub proof fn law_lowercase_decides(r: Result<Seq<char>, Seq<char>>, ext: Seq<char>)
    requires
        typed_by(r, ext),
    ensures
        r == content_type(lowercase(ext)),
{
}

/// An extension of ASCII characters has the content type of the same extension with
/// small letters in place of capital ones.
pub proof fn law_letters_are_alike(
    r: Result<Seq<char>, Seq<char>>,
    ext: Seq<char>,
    small: Seq<char>,
)
    requires
        typed_by(r, ext),
        small.len() == ext.len(),
        forall|i: int| 0 <= i < ext.len() ==> #[trigger] ext[i] <= '\u{7F}',
        forall|i: int|
            0 <= i < ext.len() ==> #[trigger] small[i] as int == ext[i] as int + if 'A' <= ext[i]
                <= 'Z' {
                32int
            } else {
                0int
            },
    ensures
        r == content_type(small),
{
    let mapped = ext.map_values(|c: char| ascii_small(c));
    assert forall|i: int| 0 <= i < ext.len() implies mapped[i] == small[i] by {
        assert(small[i] as int == ext[i] as int + if 'A' <= ext[i] <= 'Z' {
            32int
        } else {
            0int
        });
    }
    assert(mapped =~= small);
}

/// A path without backslash and colon that does not start with two slashes is plain,
/// and Unix and Windows find the same extension.
pub proof fn law_plain_paths(path: Seq<char>)
    requires
        !path.contains('\\'),
        !path.contains(':'),
        !(path.len() > 1 && path[0] == '/' && path[1] == '/'),
    ensures
        plain_path(path),
        alike_behind(path, 0),
        extension_or_empty(path) == match file_extension(path) {
            Some(ext) => ext,
            None => Seq::empty(),
        },
{
    if path.len() > 1 {
        assert(path.contains(path[0]));
        assert(path.contains(path[1]));
    }
    lemma_plain_path(path);
}

/// The extension of a file is what follows the last dot of its name, if something
/// comes before that dot.
pub proof fn law_extension(dir: Seq<char>, stem: Seq<char>, ext: Seq<char>)
    requires
        dir.len() == 0 || dir.last() == '/',
        stem.len() > 0,
        !stem.contains('/'),
        !ext.contains('/'),
        !ext.contains('.'),
        !(stem == seq!['.'] && ext.len() == 0),
    ensures
        file_extension(dir + stem + seq!['.'] + ext) == Some(ext),
{
    let path = dir + stem + seq!['.'] + ext;
    let dot = (dir.len() + stem.len()) as int;
    assert forall|i: int| 0 <= i < stem.len() implies stem[i] != '/' by {
        assert(stem.contains(stem[i]));
    }
    assert(path[dot - 1] == stem.last());
    assert forall|i: int| dot < i < path.len() implies #[trigger] path[i] != '.' && path[i]
        != '/' by {
        assert(path[i] == ext[i - dot - 1]);
        assert(ext.contains(ext[i - dot - 1]));
    }
    if dot == path.len() - 1 && path[dot - 1] == '.' {
        if stem.len() == 1 {
            assert(stem =~= seq!['.']);
        }
        assert(path[dot - 2] == stem[stem.len() - 2]);
    }
    lemma_extension_after_dot(path, dot);
    assert(path.skip(dot + 1) =~= ext);
}

proof fn lemma_name_at_end(dir: Seq<char>, name: Seq<char>)
    requires
        dir.len() == 0 || dir.last() == '/',
        !name.contains('/'),
    ensures
        split(dir + name, '/').len() > 0,
        split(dir + name, '/').last() == name,
{
    let path = dir + name;
    let at = dir.len() as int;
    assert forall|i: int| at <= i < path.len() implies path[i] != '/' by {
        assert(path[i] == name[i - at]);
        assert(name.contains(name[i - at]));
    }
    lemma_last_piece(path, '/', at);
    assert(path.skip(at) =~= name);
}

/// A file whose name has no dot, or one at its start alone, has no extension, and so
/// it is with a path that ends with two dots.
pub proof fn law_no_extension(dir: Seq<char>, name: Seq<char>)
    requires
        dir.len() == 0 || dir.last() == '/',
        name.len() > 0,
        !name.contains('/'),
    ensures
        name.len() > 1 && !name.skip(1).contains('.') ==> file_extension(dir + name) is None,
        name.len() == 1 && name[0] != '.' ==> file_extension(dir + name) is None,
        name == seq!['.', '.'] ==> file_extension(dir + name) is None,
        file_extension(Seq::empty()) is None,
{
    reveal_strlit(".");
    reveal_strlit("..");
    lemma_name_at_end(dir, name);
    let pieces = split(Seq::<char>::empty(), '/');
    assert(pieces.drop_last() =~= Seq::empty());
    assert(last_name(pieces.drop_last()) is None);
    if name == seq!['.', '.'] {
        assert(name =~= ".."@);
        assert(name != "."@) by {
            assert("."@.len() == 1);
        }
    } else if (name.len() > 1 && !name.skip(1).contains('.')) || (name.len() == 1 && name[0]
        != '.') {
        if name.len() > 1 {
            assert(name.skip(1)[0] == name[1]);
            assert(name.skip(1).contains(name[1]));
            assert(name != ".."@ && name != "."@);
        } else {
            assert(name != "."@);
            assert(name != ".."@);
        }
        assert forall|i: int| 1 <= i < name.len() implies name[i] != '.' by {
            assert(name.skip(1)[i - 1] == name[i]);
            assert(name.skip(1).contains(name[i]));
        }
        if name[0] == '.' {
            lemma_last_piece(name, '.', 1);
            assert(name.take(0) =~= Seq::empty());
            assert(split(name, '.').drop_last() == split(Seq::<char>::empty(), '.'));
            assert(split(name, '.').drop_last()[0].len() == 0);
            assert(split(name, '.')[0] == split(name, '.').drop_last()[0]);
            assert(split(name, '.').len() == 2);
        } else {
            assert forall|i: int| 0 <= i < name.len() implies name[i] != '.' by {}
            law_split_parts(name, Seq::empty(), '.');
            assert(split(name, '.').len() == 1);
        }
    }
}

/// A slash at the end of a path, with or without a dot behind it, changes nothing.
pub proof fn law_slashes_at_the_end(path: Seq<char>)
    ensures
        file_extension(path + seq!['/']) == file_extension(path),
        file_extension(path + seq!['/', '.']) == file_extension(path),
{
    reveal_strlit(".");
    let slash = path + seq!['/'];
    let dot = path + seq!['/', '.'];
    assert(slash.drop_last() =~= path);
    assert(split(slash, '/') =~= split(path, '/').push(Seq::empty()));
    assert(split(slash, '/').drop_last() =~= split(path, '/'));
    assert(dot.drop_last() =~= slash);
    assert(split(slash, '/').last().push('.') =~= "."@);
    assert(split(dot, '/') =~= split(path, '/').push("."@));
    assert(split(dot, '/').drop_last() =~= split(path, '/'));
}

/// Where the name of a file stands behind a slash, a backslash or a colon, or is the
/// whole path, and holds something before its last dot, that dot is one by which every
/// platform finds the extension.
pub proof fn law_dot_in_name(front: Seq<char>, stem: Seq<char>, ext: Seq<char>)
    requires
        front.len() == 0 || front.last() == '/' || front.last() == '\\' || front.last() == ':',
        stem.len() > 0,
        forall|i: int|
            0 <= i < stem.len() ==> #[trigger] stem[i] != '/' && stem[i] != '\\' && stem[i] != ':',
        forall|i: int|
            0 <= i < ext.len() ==> #[trigger] ext[i] != '/' && ext[i] != '\\' && ext[i] != ':'
                && ext[i] != '.',
        !(stem == seq!['.'] && ext.len() == 0),
        !(front.len() > 1 && (front[0] == '/' || front[0] == '\\') && (front[1] == '/' || front[1]
            == '\\')),
    ensures
        ({
            let path = front + stem + seq!['.'] + ext;
            let dot = (front.len() + stem.len()) as int;
            dot_in_name(path, dot) && path.skip(dot + 1) == ext
        }),
{
    let path = front + stem + seq!['.'] + ext;
    let dot = (front.len() + stem.len()) as int;
    assert(path[dot - 1] == stem.last());
    assert(stem[stem.len() - 1] != '/');
    assert forall|i: int| dot < i < path.len() implies #[trigger] path[i] != '.' && !before_name(
        path[i],
    ) by {
        assert(path[i] == ext[i - dot - 1]);
    }
    if dot == path.len() - 1 && path[dot - 1] == '.' {
        if stem.len() == 1 {
            assert(stem =~= seq!['.']);
        }
        assert(path[dot - 2] == stem[stem.len() - 2]);
    }
    assert(!two_separators(path)) by {
        if front.len() == 1 {
            assert(path[1] == stem[0]);
        } else if front.len() == 0 {
            assert(path[0] == stem[0]);
        } else {
            assert(path[0] == front[0] && path[1] == front[1]);
        }
    }
    assert(path.skip(dot + 1) =~= ext);
}

/// Behind two slashes, the name of a server, a slash and the name of a share the path
/// goes on as any other.
pub proof fn law_share(server: Seq<char>, share: Seq<char>, rest: Seq<char>)
    requires
        server.len() > 0,
        share.len() > 0,
        forall|i: int| 0 <= i < server.len() ==> #[trigger] server[i] != '/' && server[i] != '\\',
        forall|i: int| 0 <= i < share.len() ==> #[trigger] share[i] != '/' && share[i] != '\\',
        server != seq!['?'],
    ensures
        prefix_ends(
            seq!['/', '/'] + server + seq!['/'] + share + seq!['/'] + rest,
            (3 + server.len() + share.len()) as int,
        ),
{
    reveal_strlit("?");
    let path = seq!['/', '/'] + server + seq!['/'] + share + seq!['/'] + rest;
    let a = (2 + server.len()) as int;
    let b = (3 + server.len() + share.len()) as int;
    assert forall|i: int| 2 <= i < b && i != a implies !separates(#[trigger] path[i]) by {
        if i < a {
            assert(path[i] == server[i - 2]);
        } else {
            assert(path[i] == share[i - a - 1]);
        }
    }
    assert(path.subrange(2, a) =~= server);
    assert("?"@ =~= seq!['?']);
    assert(share_ends(path, a, b));
}

/// What is done about the picture when the bot starts.
#[derive(Debug)]
pub enum AvatarPlan {
    /// It is left as it is.
    Keep,
    /// It is changed to the one at the path.
    Change { path: String },
    /// It should be changed, but no path is given; the text says so.
    NoPath { error: String },
}

/// What is done about the picture, by what the config says.
pub fn avatar_plan(change_avatar: Option<bool>, avatar_path: &Option<String>) -> (r: AvatarPlan)
    ensures
        match r {
            AvatarPlan::Keep => change_avatar != Some(true),
            AvatarPlan::Change { path } => change_avatar == Some(true) && opt_text(*avatar_path)
                == Some(path@),
            AvatarPlan::NoPath { error } => change_avatar == Some(true) && avatar_path is None
                && error@ == "change_avatar is true but avatar_path is not set in config"@,
        },
{
    let change: bool = match change_avatar {
        Some(b) => b,
        None => false,
    };
    if !change {
        return AvatarPlan::Keep;
    }
    match avatar_path {
        Some(path) => AvatarPlan::Change { path: path.clone() },
        None => AvatarPlan::NoPath {
            error: "change_avatar is true but avatar_path is not set in config".to_owned(),
        },
    }
}

/// The error for a picture that cannot be read.
pub fn read_error(path: &str, cause: &str) -> (r: String)
    ensures
        r@ == "Failed to read avatar file '"@ + path@ + "': "@ + cause@,
{
    concat_four("Failed to read avatar file '", path, "': ", cause)
}

/// The error for a picture that cannot be uploaded.
pub fn upload_error(cause: &str) -> (r: String)
    ensures
        r@ == "Failed to upload avatar: "@ + cause@,
{
    let mut r = "Failed to upload avatar: ".to_owned();
    r.append(cause);
    r
}

} // verus!
