//! What is said about a card: its title and the addresses in its description.

use vstd::prelude::*;
use vstd::string::*;

use crate::message::{report_views, Message, MessageView, Report, ReportView};
use crate::text::{free_of, join, join_with, split, texts};
use crate::text::{law_join_parts, law_split_join};
use crate::topics::urls::{ends_url, law_urls_stand_in_text, urls_of};

verus! {

/// An address as an item of a plain list.
pub open spec fn bullet(url: Seq<char>) -> Seq<char> {
    "* "@ + url
}

/// An address as an item of an HTML list.
pub open spec fn link_item(url: Seq<char>) -> Seq<char> {
    "<li><a href=\""@ + url + "\">"@ + url + "</a></li>"@
}

/// The addresses as items of a plain list.
pub open spec fn bullets(urls: Seq<Seq<char>>) -> Seq<Seq<char>> {
    urls.map_values(|u: Seq<char>| bullet(u))
}

/// The addresses as items of an HTML list.
pub open spec fn link_items(urls: Seq<Seq<char>>) -> Seq<Seq<char>> {
    urls.map_values(|u: Seq<char>| link_item(u))
}

/// The message about a card: the title and, where there are any, the addresses.
pub open spec fn card_message(title: Seq<char>, urls: Seq<Seq<char>>) -> MessageView {
    MessageView {
        plain: if urls.len() == 0 {
            title
        } else {
            title + "\n"@ + join(bullets(urls), "\n"@)
        },
        html: if urls.len() == 0 {
            "<p>"@ + title + "</p>"@
        } else {
            "<p>"@ + title + "</p>\n<ul>\n"@ + join(link_items(urls), "\n"@) + "\n</ul>"@
        },
    }
}

/// What the operator sees of a card: the title and a line for each address.
pub open spec fn card_reports(title: Seq<char>, urls: Seq<Seq<char>>) -> Seq<ReportView> {
    seq![ReportView::Note(title)] + bullets(urls).map_values(|b: Seq<char>| ReportView::Note(b))
}

proof fn lemma_join_after(first: Seq<char>, list: Seq<Seq<char>>, sep: Seq<char>)
    requires
        list.len() > 0,
    ensures
        join(seq![first] + list, sep) == first + sep + join(list, sep),
    decreases list.len(),
{
    let all = seq![first] + list;
    assert(all.last() == list.last());
    if list.len() == 1 {
        assert(all.drop_last() =~= seq![first]);
        assert(join(seq![first], sep) == first);
        assert(join(list, sep) == list.last());
    } else {
        assert(all.drop_last() =~= seq![first] + list.drop_last());
        lemma_join_after(first, list.drop_last(), sep);
        assert(join(all, sep) =~= first + sep + join(list, sep));
    }
}

/// The plain message about a card has the title as its first line and each address
/// of the description as a line of its own, marked with a star.
pub proof fn law_message_lines(title: Seq<char>, desc: Seq<char>)
    requires
        free_of(title, '\n'),
    ensures
        split(card_message(title, urls_of(desc)).plain, '\n') == seq![title] + bullets(
            urls_of(desc),
        ),
{
    let urls = urls_of(desc);
    let all = seq![title] + bullets(urls);
    reveal_strlit("\n");
    reveal_strlit("* ");
    assert("\n"@ =~= seq!['\n']);
    assert forall|k: int| 0 <= k < all.len() implies free_of(#[trigger] all[k], '\n') by {
        if k > 0 {
            let u = urls[k - 1];
            law_urls_stand_in_text(desc, k - 1);
            assert(all[k] == bullet(u));
            assert forall|i: int| 0 <= i < bullet(u).len() implies bullet(u)[i] != '\n' by {
                if i >= 2 {
                    assert(bullet(u)[i] == u[i - 2]);
                    assert(!ends_url(u[i - 2]));
                }
            }
        }
    }
    if urls.len() == 0 {
        assert(all =~= seq![title]);
        assert(join(all, seq!['\n']) == title);
    } else {
        lemma_join_after(title, bullets(urls), "\n"@);
    }
    law_split_join(all, '\n');
}

/// The plain message about a card is its title and, for each address, one more line
/// with a star and the address.
pub proof fn law_plain_grows(title: Seq<char>, urls: Seq<Seq<char>>, url: Seq<char>)
    ensures
        card_message(title, Seq::empty()).plain == title,
        card_message(title, urls.push(url)).plain == card_message(title, urls).plain + "\n* "@
            + url,
{
    reveal_strlit("\n");
    reveal_strlit("* ");
    reveal_strlit("\n* ");
    assert("\n* "@ =~= "\n"@ + "* "@);
    let more = bullets(urls.push(url));
    assert(more =~= bullets(urls).push(bullet(url)));
    assert(more.drop_last() =~= bullets(urls));
    assert(more.last() == bullet(url));
    if urls.len() == 0 {
        assert(join(more, "\n"@) == more[0]);
    }
    assert(card_message(title, urls.push(url)).plain =~= card_message(title, urls).plain
        + "\n* "@ + url);
}

/// The HTML message about a card without addresses is its title as a paragraph; a
/// first address begins a list with one link, and each further one is a further link
/// of that list.
pub proof fn law_html_grows(title: Seq<char>, urls: Seq<Seq<char>>, url: Seq<char>)
    ensures
        card_message(title, Seq::empty()).html == "<p>"@ + title + "</p>"@,
        card_message(title, seq![url]).html == "<p>"@ + title + "</p>\n<ul>\n<li><a href=\""@ + url
            + "\">"@ + url + "</a></li>\n</ul>"@,
        urls.len() > 0 ==> {
            let html = card_message(title, urls).html;
            let head = html.take(html.len() - 6);
            &&& html.len() > 6
            &&& html == head + "\n</ul>"@
            &&& card_message(title, urls.push(url)).html == head + "\n<li><a href=\""@ + url
                + "\">"@ + url + "</a></li>\n</ul>"@
        },
{
    reveal_strlit("\n");
    reveal_strlit("<p>");
    reveal_strlit("<li><a href=\"");
    reveal_strlit("\n<li><a href=\"");
    reveal_strlit("</a></li>");
    reveal_strlit("</a></li>\n</ul>");
    reveal_strlit("\n</ul>");
    reveal_strlit("</p>\n<ul>\n");
    reveal_strlit("</p>\n<ul>\n<li><a href=\"");
    assert("</p>\n<ul>\n<li><a href=\""@ =~= "</p>\n<ul>\n"@ + "<li><a href=\""@);
    assert("</a></li>\n</ul>"@ =~= "</a></li>"@ + "\n</ul>"@);
    assert("\n<li><a href=\""@ =~= "\n"@ + "<li><a href=\""@);
    assert(link_items(seq![url]) =~= seq![link_item(url)]);
    assert(join(link_items(seq![url]), "\n"@) == link_item(url));
    assert(card_message(title, seq![url]).html =~= "<p>"@ + title
        + "</p>\n<ul>\n<li><a href=\""@ + url + "\">"@ + url + "</a></li>\n</ul>"@);
    if urls.len() > 0 {
        let html = card_message(title, urls).html;
        let head = "<p>"@ + title + "</p>\n<ul>\n"@ + join(link_items(urls), "\n"@);
        let more = link_items(urls.push(url));
        assert(more =~= link_items(urls).push(link_item(url)));
        assert(more.drop_last() =~= link_items(urls));
        assert(html =~= head + "\n</ul>"@);
        assert(html.take(html.len() - 6) =~= head);
        assert(card_message(title, urls.push(url)).html =~= head + "\n<li><a href=\""@ + url
            + "\">"@ + url + "</a></li>\n</ul>"@);
    }
}

/// The HTML message about a card with addresses has as its lines the title as a
/// paragraph, the start of a list, a link for each address, in order, and the end of
/// the list.
pub proof fn law_html_lines(title: Seq<char>, urls: Seq<Seq<char>>)
    requires
        urls.len() > 0,
        !title.contains('\n'),
        forall|k: int| 0 <= k < urls.len() ==> !(#[trigger] urls[k]).contains('\n'),
    ensures
        ({
            let lines = split(card_message(title, urls).html, '\n');
            &&& lines.len() == urls.len() + 3
            &&& lines[0] == "<p>"@ + title + "</p>"@
            &&& lines[1] == "<ul>"@
            &&& forall|k: int|
                0 <= k < urls.len() ==> lines[k + 2] == "<li><a href=\""@ + #[trigger] urls[k]
                    + "\">"@ + urls[k] + "</a></li>"@
            &&& lines.last() == "</ul>"@
        }),
{
    reveal_strlit("\n");
    reveal_strlit("<p>");
    reveal_strlit("</p>");
    reveal_strlit("<ul>");
    reveal_strlit("</ul>");
    reveal_strlit("\">");
    reveal_strlit("<li><a href=\"");
    reveal_strlit("</a></li>");
    reveal_strlit("\n</ul>");
    reveal_strlit("</p>\n<ul>\n");
    let sep = "\n"@;
    assert(sep =~= seq!['\n']);
    let first = "<p>"@ + title + "</p>"@;
    let items = link_items(urls);
    let top = seq![first, "<ul>"@];
    let end = seq!["</ul>"@];
    let all = top + items + end;
    assert(top.drop_last() =~= seq![first]);
    assert(join(seq![first], sep) == first);
    assert(join(top, sep) == first + sep + "<ul>"@);
    law_join_parts(top, items, sep);
    law_join_parts(top + items, end, sep);
    assert(join(end, sep) == "</ul>"@);
    assert(join(all, sep) =~= card_message(title, urls).html) by {
        assert("</p>\n<ul>\n"@ =~= "</p>"@ + sep + "<ul>"@ + sep);
        assert("\n</ul>"@ =~= sep + "</ul>"@);
    }
    assert forall|k: int| 0 <= k < all.len() implies !(#[trigger] all[k]).contains('\n') by {
        let line = all[k];
        if 2 <= k < urls.len() + 2 {
            let u = urls[k - 2];
            assert(line == link_item(u));
            assert(!u.contains('\n'));
            assert forall|i: int| 0 <= i < u.len() implies u[i] != '\n' by {
                assert(u.contains(u[i]));
            }
            assert forall|i: int| 0 <= i < line.len() implies line[i] != '\n' by {}
        } else if k == 0 {
            assert forall|i: int| 0 <= i < title.len() implies title[i] != '\n' by {
                assert(title.contains(title[i]));
            }
            assert forall|i: int| 0 <= i < line.len() implies line[i] != '\n' by {}
        } else if k == 1 {
            assert(line == "<ul>"@);
        } else {
            assert(line == "</ul>"@);
        }
    }
    assert forall|k: int| 0 <= k < all.len() implies free_of(#[trigger] all[k], '\n') by {
        assert(!all[k].contains('\n'));
    }
    law_split_join(all, '\n');
}

/// The operator sees the title of a card and, for each address, a line with a star
/// and the address.
pub proof fn law_card_reports(title: Seq<char>, urls: Seq<Seq<char>>)
    ensures
        card_reports(title, urls).len() == urls.len() + 1,
        card_reports(title, urls)[0] == ReportView::Note(title),
        forall|k: int|
            0 <= k < urls.len() ==> card_reports(title, urls)[k + 1] == ReportView::Note(
                "* "@ + #[trigger] urls[k],
            ),
{
    assert forall|k: int|
        0 <= k < urls.len() implies card_reports(title, urls)[k + 1] == ReportView::Note(
        "* "@ + #[trigger] urls[k],
    ) by {
        assert(bullets(urls)[k] == bullet(urls[k]));
    }
}

fn make_bullet(url: &str) -> (r: String)
    ensures
        r@ == bullet(url@),
{
    let mut r = "* ".to_owned();
    r.append(url);
    r
}

fn make_link_item(url: &str) -> (r: String)
    ensures
        r@ == link_item(url@),
{
    let mut r = "<li><a href=\"".to_owned();
    r.append(url);
    r.append("\">");
    r.append(url);
    r.append("</a></li>");
    r
}

fn make_bullets(urls: &Vec<String>) -> (r: Vec<String>)
    ensures
        texts(r@) == bullets(texts(urls@)),
{
    let mut r: Vec<String> = Vec::new();
    for i in 0..urls.len()
        invariant
            texts(r@) =~= bullets(texts(urls@)).take(i as int),
    {
        let ghost before = texts(r@);
        r.push(make_bullet(urls[i].as_str()));
        assert(texts(r@) =~= before.push(bullet(texts(urls@)[i as int])));
        assert(bullets(texts(urls@)).take(i + 1) =~= before.push(bullet(texts(urls@)[i as int])));
    }
    r
}

fn make_link_items(urls: &Vec<String>) -> (r: Vec<String>)
    ensures
        texts(r@) == link_items(texts(urls@)),
{
    let mut r: Vec<String> = Vec::new();
    for i in 0..urls.len()
        invariant
            texts(r@) =~= link_items(texts(urls@)).take(i as int),
    {
        let ghost before = texts(r@);
        r.push(make_link_item(urls[i].as_str()));
        assert(texts(r@) =~= before.push(link_item(texts(urls@)[i as int])));
        assert(link_items(texts(urls@)).take(i + 1) =~= before.push(
            link_item(texts(urls@)[i as int]),
        ));
    }
    r
}

/// The message about a card with the given title and addresses.
pub fn topic_message(title: &str, urls: &Vec<String>) -> (r: Message)
    ensures
        r@ == card_message(title@, texts(urls@)),
{
    if urls.len() == 0 {
        let mut html = "<p>".to_owned();
        html.append(title);
        html.append("</p>");
        return Message { plain: title.to_owned(), html };
    }
    let mut plain = title.to_owned();
    plain.append("\n");
    plain.append(join_with(&make_bullets(urls), "\n").as_str());
    let mut html = "<p>".to_owned();
    html.append(title);
    html.append("</p>\n<ul>\n");
    html.append(join_with(&make_link_items(urls), "\n").as_str());
    html.append("\n</ul>");
    Message { plain, html }
}

/// What the operator sees of a card with the given title and addresses.
pub fn topic_reports(title: &str, urls: &Vec<String>) -> (r: Vec<Report>)
    ensures
        report_views(r@) == card_reports(title@, texts(urls@)),
{
    let lines = make_bullets(urls);
    let ghost all = card_reports(title@, texts(urls@));
    let mut r: Vec<Report> = Vec::new();
    r.push(Report::Note(title.to_owned()));
    assert(report_views(r@) =~= all.take(1));
    for i in 0..lines.len()
        invariant
            texts(lines@) == bullets(texts(urls@)),
            all == card_reports(title@, texts(urls@)),
            report_views(r@) =~= all.take(i + 1),
    {
        let ghost before = report_views(r@);
        r.push(Report::Note(lines[i].clone()));
        assert(report_views(r@) =~= before.push(ReportView::Note(texts(lines@)[i as int])));
        assert(all.take(i + 2) =~= before.push(all[i + 1]));
    }
    assert(all.take(all.len() as int) =~= all);
    r
}

} // verus!
