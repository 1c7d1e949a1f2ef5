//! Whom the bots write to.

use vstd::prelude::*;
use vstd::string::*;

use crate::outside::{outcome, parsed_room_alias, parsed_user_id, room_alias, user_id};
use crate::text::{concat_four, texts};

verus! {

/// A parsed recipient from the config
#[derive(Debug)]
pub enum Recipient {
    User(String),
    RoomAlias(String),
}

/// The text of a `Recipient`.
pub enum RecipientView {
    User(Seq<char>),
    RoomAlias(Seq<char>),
}

impl View for Recipient {
    type V = RecipientView;

    open spec fn view(&self) -> RecipientView {
        match self {
            Recipient::User(id) => RecipientView::User(id@),
            Recipient::RoomAlias(alias) => RecipientView::RoomAlias(alias@),
        }
    }
}

impl Clone for Recipient {
    fn clone(&self) -> (r: Self)
        ensures
            r@ == self@,
    {
        match self {
            Recipient::User(id) => Recipient::User(id.clone()),
            Recipient::RoomAlias(alias) => Recipient::RoomAlias(alias.clone()),
        }
    }
}

impl RecipientView {
    /// The identifier of the recipient.
    pub open spec fn id(self) -> Seq<char> {
        match self {
            RecipientView::User(id) => id,
            RecipientView::RoomAlias(alias) => alias,
        }
    }

    /// The identifier is one of the recipient's kind.
    pub open spec fn valid(self) -> bool {
        match self {
            RecipientView::User(id) => parsed_user_id(id) == Ok::<Seq<char>, Seq<char>>(id),
            RecipientView::RoomAlias(alias) => parsed_room_alias(alias) == Ok::<
                Seq<char>,
                Seq<char>,
            >(alias),
        }
    }
}

/// The texts of a list of recipients.
pub open spec fn recipient_views(list: Seq<Recipient>) -> Seq<RecipientView> {
    list.map_values(|r: Recipient| r@)
}

/// The texts of what a recipient was read as.
pub open spec fn recipient_outcome(r: Result<Recipient, String>) -> Result<
    RecipientView,
    Seq<char>,
> {
    match r {
        Ok(recipient) => Ok(recipient@),
        Err(e) => Err(e@),
    }
}

/// The recipient that `s` stands for, given what it is as a user ID.
pub open spec fn user_recipient(
    s: Seq<char>,
    parsed: Result<Seq<char>, Seq<char>>,
) -> Result<RecipientView, Seq<char>> {
    match parsed {
        Ok(id) => Ok(RecipientView::User(id)),
        Err(e) => Err("Invalid user ID '"@ + s + "': "@ + e),
    }
}

/// The recipient that `s` stands for, given what it is as a room alias.
pub open spec fn alias_recipient(
    s: Seq<char>,
    parsed: Result<Seq<char>, Seq<char>>,
) -> Result<RecipientView, Seq<char>> {
    match parsed {
        Ok(alias) => Ok(RecipientView::RoomAlias(alias)),
        Err(e) => Err("Invalid room alias '"@ + s + "': "@ + e),
    }
}

/// The recipient that `s` stands for: a user if it starts with `@`, a room if it
/// starts with `#`.
pub open spec fn recipient_of(s: Seq<char>) -> Result<RecipientView, Seq<char>> {
    if s.len() > 0 && s[0] == '@' {
        user_recipient(s, parsed_user_id(s))
    } else if s.len() > 0 && s[0] == '#' {
        alias_recipient(s, parsed_room_alias(s))
    } else {
        Err("Unknown recipient format '"@ + s + "': must start with @ or #"@)
    }
}

/// All the recipients, in order, or the error of the first that is none.
pub open spec fn recipients_of(raw: Seq<Seq<char>>) -> Result<Seq<RecipientView>, Seq<char>>
    decreases raw.len(),
{
    if raw.len() == 0 {
        Ok(Seq::empty())
    } else {
        match recipients_of(raw.drop_last()) {
            Err(e) => Err(e),
            Ok(init) => match recipient_of(raw.last()) {
                Err(e) => Err(e),
                Ok(r) => Ok(init.push(r)),
            },
        }
    }
}

/// Where all the recipients are good there are as many as there were texts, and
/// each is the one that the text at its place stands for.
pub proof fn law_recipients_in_order(raw: Seq<Seq<char>>)
    ensures
        recipients_of(raw) matches Ok(list) ==> list.len() == raw.len() && forall|k: int|
            0 <= k < raw.len() ==> recipient_of(raw[k]) == Ok::<RecipientView, Seq<char>>(
                #[trigger] list[k],
            ),
    decreases raw.len(),
{
    if raw.len() > 0 {
        law_recipients_in_order(raw.drop_last());
    }
}

/// An error is that of a text, and every text before it is good.
pub proof fn law_first_bad_recipient(raw: Seq<Seq<char>>)
    ensures
        recipients_of(raw) matches Err(e) ==> exists|k: int|
            #![trigger raw[k]]
            0 <= k < raw.len() && recipient_of(raw[k]) == Err::<RecipientView, Seq<char>>(e)
                && recipients_of(raw.take(k)) is Ok,
    decreases raw.len(),
{
    if raw.len() > 0 {
        let init = raw.drop_last();
        law_first_bad_recipient(init);
        match recipients_of(init) {
            Err(e) => {
                let k = choose|k: int|
                    #![trigger init[k]]
                    0 <= k < init.len() && recipient_of(init[k]) == Err::<
                        RecipientView,
                        Seq<char>,
                    >(e) && recipients_of(init.take(k)) is Ok;
                assert(init.take(k) =~= raw.take(k));
                assert(raw[k] == init[k]);
            },
            Ok(_) => {
                assert(raw.take(raw.len() - 1) =~= init);
                assert(raw[raw.len() - 1] == raw.last());
            },
        }
    }
}

/// A text that starts with `@` is a user if it is a user ID, one that starts with `#`
/// a room if it is a room alias, as they are written. The error names the text and
/// says why it is neither.
pub proof fn law_recipient(s: Seq<char>)
    ensures
        s.len() > 0 && s[0] == '@' ==> recipient_of(s) == match parsed_user_id(s) {
            Ok(id) => Ok(RecipientView::User(id)),
            Err(e) => Err("Invalid user ID '"@ + s + "': "@ + e),
        },
        s.len() > 0 && s[0] == '#' ==> recipient_of(s) == match parsed_room_alias(s) {
            Ok(alias) => Ok(RecipientView::RoomAlias(alias)),
            Err(e) => Err("Invalid room alias '"@ + s + "': "@ + e),
        },
        s.len() == 0 || (s[0] != '@' && s[0] != '#') ==> recipient_of(s) == Err::<
            RecipientView,
            Seq<char>,
        >("Unknown recipient format '"@ + s + "': must start with @ or #"@),
{
}

/// What a text was read as decides by itself: an identifier is taken as it is, and
/// an error is named with the text.
pub proof fn law_recipient_of_parsed(s: Seq<char>, id: Seq<char>, e: Seq<char>)
    ensures
        user_recipient(s, Ok(id)) == Ok::<RecipientView, Seq<char>>(RecipientView::User(id)),
        user_recipient(s, Err(e)) == Err::<RecipientView, Seq<char>>(
            "Invalid user ID '"@ + s + "': "@ + e,
        ),
        alias_recipient(s, Ok(id)) == Ok::<RecipientView, Seq<char>>(RecipientView::RoomAlias(id)),
        alias_recipient(s, Err(e)) == Err::<RecipientView, Seq<char>>(
            "Invalid room alias '"@ + s + "': "@ + e,
        ),
{
}

/// Texts are recipients if each of them is one.
pub proof fn law_good_recipients(raw: Seq<Seq<char>>)
    requires
        forall|k: int| 0 <= k < raw.len() ==> recipient_of(#[trigger] raw[k]) is Ok,
    ensures
        recipients_of(raw) is Ok,
    decreases raw.len(),
{
    if raw.len() > 0 {
        let init = raw.drop_last();
        assert forall|k: int| 0 <= k < init.len() implies recipient_of(#[trigger] init[k]) is Ok by {
            assert(recipient_of(raw[k]) is Ok);
        }
        law_good_recipients(init);
        assert(recipient_of(raw[raw.len() - 1]) is Ok);
    }
}

/// Recipients are seen by their kind and identifier, a list of them by its entries,
/// in order, and what came of reading one by the recipient or the error.
pub proof fn law_recipient_views(
    id: String,
    list: Seq<Recipient>,
    recipient: Recipient,
    a: Seq<char>,
)
    ensures
        Recipient::User(id)@ == RecipientView::User(id@),
        Recipient::RoomAlias(id)@ == RecipientView::RoomAlias(id@),
        RecipientView::User(a).id() == a,
        RecipientView::RoomAlias(a).id() == a,
        RecipientView::User(a).valid() <==> parsed_user_id(a) == Ok::<Seq<char>, Seq<char>>(a),
        RecipientView::RoomAlias(a).valid() <==> parsed_room_alias(a) == Ok::<
            Seq<char>,
            Seq<char>,
        >(a),
        recipient_views(list).len() == list.len(),
        forall|k: int| 0 <= k < list.len() ==> #[trigger] recipient_views(list)[k] == list[k]@,
        recipient_outcome(Ok(recipient)) == Ok::<RecipientView, Seq<char>>(recipient@),
        recipient_outcome(Err(id)) == Err::<RecipientView, Seq<char>>(id@),
{
}

impl Recipient {
    /// The identifier of the recipient.
    pub fn id(&self) -> (r: &str)
        ensures
            r@ == self@.id(),
    {
        match self {
            Recipient::User(id) => id.as_str(),
            Recipient::RoomAlias(alias) => alias.as_str(),
        }
    }

    /// The recipient that `s` stands for, given what it is as a user ID.
    pub fn from_user_id(s: &str, parsed: Result<String, String>) -> (r: Result<Self, String>)
        ensures
            recipient_outcome(r) == user_recipient(s@, outcome(parsed)),
    {
        match parsed {
            Ok(id) => Ok(Recipient::User(id)),
            Err(e) => Err(concat_four("Invalid user ID '", s, "': ", e.as_str())),
        }
    }

    /// The recipient that `s` stands for, given what it is as a room alias.
    pub fn from_room_alias(s: &str, parsed: Result<String, String>) -> (r: Result<Self, String>)
        ensures
            recipient_outcome(r) == alias_recipient(s@, outcome(parsed)),
    {
        match parsed {
            Ok(alias) => Ok(Recipient::RoomAlias(alias)),
            Err(e) => Err(concat_four("Invalid room alias '", s, "': ", e.as_str())),
        }
    }

    /// The recipient that `s` stands for, or the text of the error.
    pub fn parse(s: &str) -> (r: Result<Self, String>)
        ensures
            recipient_outcome(r) == recipient_of(s@),
            r matches Ok(recipient) ==> recipient@.id() == s@ && recipient@.valid(),
    {
        let n: usize = s.unicode_len();
        if n > 0 && s.get_char(0) == '@' {
            Recipient::from_user_id(s, user_id(s))
        } else if n > 0 && s.get_char(0) == '#' {
            Recipient::from_room_alias(s, room_alias(s))
        } else {
            let mut text = "Unknown recipient format '".to_owned();
            text.append(s);
            text.append("': must start with @ or #");
            Err(text)
        }
    }
}

/// All the recipients of the config, or the text of the first error.
pub fn parse_recipients(raw: &Vec<String>) -> (r: Result<Vec<Recipient>, String>)
    ensures
        match recipients_of(texts(raw@)) {
            Ok(views) => r matches Ok(list) && recipient_views(list@) == views,
            Err(e) => r matches Err(text) && text@ == e,
        },
        r matches Ok(list) ==> forall|k: int|
            0 <= k < list@.len() ==> (#[trigger] list@[k])@.id() == raw@[k]@ && list@[k]@.valid(),
{
    let ghost all = texts(raw@);
    let mut list: Vec<Recipient> = Vec::new();
    assert(recipient_views(list@) =~= Seq::empty());
    for i in 0..raw.len()
        invariant
            all == texts(raw@),
            list@.len() == i,
            recipients_of(all.take(i as int)) == Ok::<Seq<RecipientView>, Seq<char>>(
                recipient_views(list@),
            ),
            forall|k: int|
                0 <= k < list@.len() ==> (#[trigger] list@[k])@.id() == raw@[k]@
                    && list@[k]@.valid(),
    {
        let ghost before = recipient_views(list@);
        assert(all.take(i + 1).drop_last() =~= all.take(i as int));
        assert(all.take(i + 1).last() == raw@[i as int]@);
        match Recipient::parse(raw[i].as_str()) {
            Ok(r) => {
                list.push(r);
                assert(recipient_views(list@) =~= before.push(r@));
            },
            Err(e) => {
                proof {
                    lemma_error_stays(all, i + 1, e@);
                }
                return Err(e);
            },
        }
    }
    assert(all.take(all.len() as int) =~= all);
    Ok(list)
}

proof fn lemma_error_stays(raw: Seq<Seq<char>>, n: int, e: Seq<char>)
    requires
        0 <= n <= raw.len(),
        recipients_of(raw.take(n)) == Err::<Seq<RecipientView>, Seq<char>>(e),
    ensures
        recipients_of(raw) == Err::<Seq<RecipientView>, Seq<char>>(e),
    decreases raw.len() - n,
{
    if n == raw.len() {
        assert(raw.take(n) =~= raw);
    } else {
        assert(raw.take(n + 1).drop_last() =~= raw.take(n));
        lemma_error_stays(raw, n + 1, e);
    }
}

} // verus!
