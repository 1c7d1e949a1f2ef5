//! What is said about an episode: its title, its address and its description.

use vstd::prelude::*;
use vstd::string::*;

use crate::feed::items::{FeedItem, ItemView};
use crate::message::{Message, MessageView};

verus! {

/// The message about an episode.
pub open spec fn item_message(item: ItemView) -> MessageView {
    MessageView {
        plain: item.title + " "@ + item.url,
        html: "<p><strong>"@ + item.title + "</strong> <a href=\""@ + item.url + "\">"@ + item.url
            + "</a></p>\n"@ + item.content,
    }
}

/// The plain message about an episode is its title and its address.
pub proof fn law_episode_plain(item: ItemView)
    ensures
        item_message(item).plain == item.title + " "@ + item.url,
{
}

/// The HTML message about an episode is a line with the title in bold and a link to
/// the address, and then the whole description, character for character.
pub proof fn law_episode_html(item: ItemView)
    ensures
        ({
            let html = item_message(item).html;
            let head = "<p><strong>"@ + item.title + "</strong> <a href=\""@ + item.url + "\">"@
                + item.url + "</a></p>"@;
            &&& html == head + seq!['\n'] + item.content
            &&& html.take(head.len() as int) == head
            &&& html[head.len() as int] == '\n'
            &&& html.len() == head.len() + 1 + item.content.len()
            &&& html.skip(html.len() - item.content.len()) == item.content
        }),
{
    reveal_strlit("</a></p>");
    reveal_strlit("</a></p>\n");
    let html = item_message(item).html;
    let head = "<p><strong>"@ + item.title + "</strong> <a href=\""@ + item.url + "\">"@ + item.url
        + "</a></p>"@;
    assert("</a></p>\n"@ =~= "</a></p>"@ + seq!['\n']);
    assert(html =~= head + seq!['\n'] + item.content);
    assert(html.take(head.len() as int) =~= head);
    assert(html.skip(html.len() - item.content.len()) =~= item.content);
}

/// What stands before the description is one line, unless the title or the address
/// is more than that.
pub proof fn law_episode_head_is_a_line(item: ItemView)
    requires
        !item.title.contains('\n'),
        !item.url.contains('\n'),
    ensures
        forall|i: int|
            0 <= i < item_message(item).html.len() - item.content.len() - 1
                ==> #[trigger] item_message(item).html[i] != '\n',
{
    law_episode_html(item);
    reveal_strlit("<p><strong>");
    reveal_strlit("</strong> <a href=\"");
    reveal_strlit("\">");
    reveal_strlit("</a></p>");
    let head = "<p><strong>"@ + item.title + "</strong> <a href=\""@ + item.url + "\">"@ + item.url
        + "</a></p>"@;
    assert forall|i: int| 0 <= i < item.title.len() implies item.title[i] != '\n' by {
        assert(item.title.contains(item.title[i]));
    }
    assert forall|i: int| 0 <= i < item.url.len() implies item.url[i] != '\n' by {
        assert(item.url.contains(item.url[i]));
    }
    assert forall|i: int| 0 <= i < head.len() implies head[i] != '\n' by {}
    assert forall|i: int|
        0 <= i < item_message(item).html.len() - item.content.len() - 1 implies #[trigger] item_message(
        item,
    ).html[i] != '\n' by {
        assert(item_message(item).html.take(head.len() as int)[i] == head[i]);
    }
}

/// The message about an episode.
pub fn feed_message(item: &FeedItem) -> (r: Message)
    ensures
        r@ == item_message(item@),
{
    let mut plain = item.title.clone();
    plain.append(" ");
    plain.append(item.url.as_str());
    let mut html = "<p><strong>".to_owned();
    html.append(item.title.as_str());
    html.append("</strong> <a href=\"");
    html.append(item.url.as_str());
    html.append("\">");
    html.append(item.url.as_str());
    html.append("</a></p>\n");
    html.append(item.content.as_str());
    Message { plain, html }
}

} // verus!
