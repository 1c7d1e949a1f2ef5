//! The description of an episode, without the site's own images.

use vstd::prelude::*;

use crate::outside::regex_is_match;
use crate::text::{join_with, split_at_each};
use crate::text::{free_of, join, occurs_at, split, texts};
use crate::text::{law_join_split, law_split_join, lemma_split_free};

verus! {

/// What the tag of one of the site's own images looks like.
pub const IMAGE_PATTERN: &'static str = r#"<img [^>]*src="https://devzen\.ru/wp-content/uploads/"#;

/// The tag of an uploaded image opens at `i` in `line`, and its source stands at `j`.
pub open spec fn image_tag_at(line: Seq<char>, i: int, j: int) -> bool {
    &&& occurs_at(line, "<img "@, i)
    &&& i + "<img "@.len() <= j
    &&& occurs_at(line, "src=\"https://devzen.ru/wp-content/uploads/"@, j)
    &&& forall|k: int| i + "<img "@.len() <= k < j ==> #[trigger] line[k] != '>'
}

/// `line` holds the tag of an uploaded image.
pub open spec fn has_image_tag(line: Seq<char>) -> bool {
    exists|i: int, j: int| image_tag_at(line, i, j)
}

/// The lines of a description that are not dropped.
pub open spec fn kept_lines(content: Seq<char>) -> Seq<Seq<char>> {
    split(content, '\n').filter(|line: Seq<char>| !has_image_tag(line))
}

/// A description without the lines that hold the tag of an uploaded image.
pub open spec fn preprocessed(content: Seq<char>) -> Seq<char> {
    join(kept_lines(content), "\n"@)
}

proof fn lemma_kept_lines(content: Seq<char>, k: int)
    requires
        0 <= k < kept_lines(content).len(),
    ensures
        free_of(kept_lines(content)[k], '\n'),
        !has_image_tag(kept_lines(content)[k]),
        split(content, '\n').contains(kept_lines(content)[k]),
{
    let all = split(content, '\n');
    let keep = |line: Seq<char>| !has_image_tag(line);
    all.lemma_filter_pred(keep, k);
    assert(all.filter(keep).contains(kept_lines(content)[k]));
    all.lemma_filter_contains_rev(keep, kept_lines(content)[k]);
    let i = choose|i: int| 0 <= i < all.len() && all[i] == kept_lines(content)[k];
    lemma_split_free(content, '\n', i);
}

/// What is left of a description holds as lines those that were kept; where none
/// was, it is one empty line.
proof fn lemma_lines_left(content: Seq<char>)
    ensures
        split(preprocessed(content), '\n') == if kept_lines(content).len() == 0 {
            seq![Seq::<char>::empty()]
        } else {
            kept_lines(content)
        },
{
    let kept = kept_lines(content);
    reveal_strlit("\n");
    assert("\n"@ =~= seq!['\n']);
    if kept.len() > 0 {
        assert forall|k: int| 0 <= k < kept.len() implies free_of(#[trigger] kept[k], '\n') by {
            lemma_kept_lines(content, k);
        }
        law_split_join(kept, '\n');
    }
}

/// A line holds the tag of an uploaded image exactly if in it stand `<img `, then
/// text without `>`, then the attribute with the address of an upload.
pub proof fn law_image_tag(a: Seq<char>, b: Seq<char>, c: Seq<char>, line: Seq<char>)
    ensures
        !b.contains('>') ==> has_image_tag(
            a + "<img "@ + b + "src=\"https://devzen.ru/wp-content/uploads/"@ + c,
        ),
        has_image_tag(line) ==> exists|x: Seq<char>, y: Seq<char>, z: Seq<char>|
            !y.contains('>') && line == #[trigger] (x + "<img "@ + y
                + "src=\"https://devzen.ru/wp-content/uploads/"@ + z),
{
    let open = "<img "@;
    let source = "src=\"https://devzen.ru/wp-content/uploads/"@;
    if !b.contains('>') {
        let whole = a + open + b + source + c;
        let i = a.len() as int;
        let j = i + open.len() + b.len();
        assert(whole.subrange(i, i + open.len()) =~= open);
        assert(whole.subrange(j, j + source.len()) =~= source);
        assert forall|k: int| i + open.len() <= k < j implies #[trigger] whole[k] != '>' by {
            assert(whole[k] == b[k - i - open.len()]);
            assert(b.contains(b[k - i - open.len()]));
        }
        assert(image_tag_at(whole, i, j));
    }
    if has_image_tag(line) {
        let (i, j) = choose|i: int, j: int| image_tag_at(line, i, j);
        let x = line.take(i);
        let y = line.subrange(i + open.len(), j);
        let z = line.skip(j + source.len());
        assert forall|k: int| 0 <= k < y.len() implies y[k] != '>' by {
            assert(y[k] == line[i + open.len() + k]);
        }
        assert(line.subrange(i, i + open.len()) == open);
        assert(line.subrange(j, j + source.len()) == source);
        assert(line =~= x + line.subrange(i, i + open.len()) + y + line.subrange(
            j,
            j + source.len(),
        ) + z);
    }
}

/// Of a description that is made of some lines those are left that hold no tag of an
/// uploaded image, as they are and in their order.
pub proof fn law_image_lines_dropped(lines: Seq<Seq<char>>)
    requires
        lines.len() > 0,
        forall|k: int| 0 <= k < lines.len() ==> !(#[trigger] lines[k]).contains('\n'),
    ensures
        preprocessed(join(lines, seq!['\n'])) == join(
            lines.filter(|line: Seq<char>| !has_image_tag(line)),
            seq!['\n'],
        ),
{
    reveal_strlit("\n");
    assert("\n"@ =~= seq!['\n']);
    assert forall|k: int| 0 <= k < lines.len() implies free_of(#[trigger] lines[k], '\n') by {
        assert(!lines[k].contains('\n'));
    }
    law_split_join(lines, '\n');
}

/// No line that is left holds the tag of an uploaded image.
pub proof fn law_no_image_left(content: Seq<char>, k: int)
    requires
        0 <= k < split(preprocessed(content), '\n').len(),
    ensures
        !has_image_tag(split(preprocessed(content), '\n')[k]),
{
    lemma_lines_left(content);
    if kept_lines(content).len() > 0 {
        lemma_kept_lines(content, k);
    } else {
        reveal_strlit("<img ");
        assert(forall|i: int, j: int| !image_tag_at(Seq::empty(), i, j));
    }
}

/// Every line of a description without such a tag is left, and nothing else is,
/// unless none was left.
pub proof fn law_lines_kept(content: Seq<char>, line: Seq<char>)
    requires
        kept_lines(content).len() > 0,
    ensures
        split(preprocessed(content), '\n').contains(line) <==> split(content, '\n').contains(line)
            && !has_image_tag(line),
{
    let all = split(content, '\n');
    let keep = |l: Seq<char>| !has_image_tag(l);
    lemma_lines_left(content);
    if kept_lines(content).contains(line) {
        let k = choose|k: int| 0 <= k < kept_lines(content).len() && kept_lines(content)[k] == line;
        lemma_kept_lines(content, k);
    }
    if all.contains(line) && !has_image_tag(line) {
        let i = choose|i: int| 0 <= i < all.len() && all[i] == line;
        all.lemma_filter_contains(keep, i);
    }
}

/// A description without such tags stays as it is.
pub proof fn law_without_images_unchanged(content: Seq<char>)
    requires
        forall|k: int|
            0 <= k < split(content, '\n').len() ==> !has_image_tag(#[trigger] split(content, '\n')[k]),
    ensures
        preprocessed(content) == content,
{
    let all = split(content, '\n');
    let keep = |line: Seq<char>| !has_image_tag(line);
    reveal_strlit("\n");
    assert("\n"@ =~= seq!['\n']);
    lemma_filter_all(all, keep);
    law_join_split(content, '\n');
}

proof fn lemma_filter_all(list: Seq<Seq<char>>, keep: spec_fn(Seq<char>) -> bool)
    requires
        forall|k: int| 0 <= k < list.len() ==> keep(#[trigger] list[k]),
    ensures
        list.filter(keep) == list,
    decreases list.len(),
{
    reveal(Seq::filter);
    if list.len() > 0 {
        assert forall|k: int| 0 <= k < list.drop_last().len() implies keep(
            #[trigger] list.drop_last()[k],
        ) by {
            assert(keep(list[k]));
        }
        lemma_filter_all(list.drop_last(), keep);
        assert(keep(list[list.len() - 1]));
        assert(list.drop_last().push(list.last()) =~= list);
    }
}

/// Doing it twice changes no more than doing it once.
pub proof fn law_preprocess_idempotent(content: Seq<char>)
    ensures
        preprocessed(preprocessed(content)) == preprocessed(content),
{
    assert forall|k: int|
        0 <= k < split(preprocessed(content), '\n').len() implies !has_image_tag(
        #[trigger] split(preprocessed(content), '\n')[k],
    ) by {
        law_no_image_left(content, k);
    }
    law_without_images_unchanged(preprocessed(content));
}

/// The description of an episode without the lines that hold the tag of an image
/// from devzen.ru.
pub fn preprocess_content(content: &str) -> (r: String)
    ensures
        r@ == preprocessed(content@),
{
    let all = split_at_each(content, '\n');
    let mut kept: Vec<String> = Vec::new();
    let ghost keep = |line: Seq<char>| !has_image_tag(line);
    let ghost pieces = split(content@, '\n');
    proof {
        reveal(Seq::filter);
        assert(pieces.take(0).filter(keep) =~= Seq::empty());
    }
    for i in 0..all.len()
        invariant
            pieces == texts(all@),
            keep == (|line: Seq<char>| !has_image_tag(line)),
            texts(kept@) =~= pieces.take(i as int).filter(keep),
    {
        let ghost before = texts(kept@);
        proof {
            reveal(Seq::filter);
            assert(pieces.take(i + 1).drop_last() =~= pieces.take(i as int));
            assert(pieces.take(i + 1).last() == all@[i as int]@);
        }
        if !regex_is_match(IMAGE_PATTERN, all[i].as_str()) {
            kept.push(all[i].clone());
            assert(texts(kept@) =~= before.push(all@[i as int]@));
        }
    }
    assert(pieces.take(pieces.len() as int) =~= pieces);
    join_with(&kept, "\n")
}

} // verus!
