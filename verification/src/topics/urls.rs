//! The web addresses in the description of a card.

use vstd::prelude::*;
use vstd::string::*;

use crate::text::{chars_of, find, find_from, lemma_find, occurs_at, texts};

verus! {

/// The characters with Unicode's `White_Space` property.
pub open spec fn white_space(c: char) -> bool {
    ||| '\u{9}' <= c <= '\u{D}'
    ||| c == '\u{20}'
    ||| c == '\u{85}'
    ||| c == '\u{A0}'
    ||| c == '\u{1680}'
    ||| '\u{2000}' <= c <= '\u{200A}'
    ||| c == '\u{2028}'
    ||| c == '\u{2029}'
    ||| c == '\u{202F}'
    ||| c == '\u{205F}'
    ||| c == '\u{3000}'
}

/// The characters at which an address ends.
pub open spec fn ends_url(c: char) -> bool {
    white_space(c) || c == '"' || c == ')' || c == ']' || c == '<' || c == '>'
}

/// Where the next address starts: at the first `http://` that is left or, where
/// none is left, at the first `https://`.
pub open spec fn url_start(s: Seq<char>, from: int) -> Option<int> {
    match find(s, "http://"@, from) {
        Some(i) => Some(i),
        None => find(s, "https://"@, from),
    }
}

/// The first position, not before `from`, at which the text or an address ends.
pub open spec fn url_end(s: Seq<char>, from: int) -> int
    decreases s.len() - from,
{
    if from < 0 || from >= s.len() || ends_url(s[from]) {
        from
    } else {
        url_end(s, from + 1)
    }
}

/// The start and the end of each address from `from` on, one after the other.
pub open spec fn url_spans(s: Seq<char>, from: int) -> Seq<(int, int)>
    decreases s.len() - from,
{
    match url_start(s, from) {
        None => Seq::empty(),
        Some(b) => {
            let e = url_end(s, b);
            proof {
                lemma_url_end(s, from);
            }
            seq![(b, e)] + url_spans(s, e)
        },
    }
}

/// The texts of the addresses that stand at `spans`.
pub open spec fn span_texts(s: Seq<char>, spans: Seq<(int, int)>) -> Seq<Seq<char>> {
    spans.map_values(|p: (int, int)| s.subrange(p.0, p.1))
}

/// `list` with every entry dropped that occurs earlier in it.
pub open spec fn distinct(list: Seq<Seq<char>>) -> Seq<Seq<char>>
    decreases list.len(),
{
    if list.len() == 0 {
        Seq::empty()
    } else {
        let init = distinct(list.drop_last());
        if init.contains(list.last()) {
            init
        } else {
            init.push(list.last())
        }
    }
}

/// The addresses of a text, each once, in the order in which they are found.
pub open spec fn urls_of(s: Seq<char>) -> Seq<Seq<char>> {
    distinct(span_texts(s, url_spans(s, 0)))
}

/// An address starts within the text and holds at least its scheme.
pub proof fn lemma_url_end(s: Seq<char>, from: int)
    ensures
        match url_start(s, from) {
            Some(b) => {
                &&& 0 <= from <= b
                &&& b + 7 <= url_end(s, b) <= s.len()
                &&& url_end(s, b) < s.len() ==> ends_url(s[url_end(s, b)])
                &&& forall|i: int| b <= i < url_end(s, b) ==> !ends_url(#[trigger] s[i])
            },
            None => true,
        },
{
    reveal_strlit("http://");
    reveal_strlit("https://");
    if url_start(s, from) is Some {
        lemma_find(s, "http://"@, from);
        lemma_find(s, "https://"@, from);
        let b = url_start(s, from)->0;
        let pat = if find(s, "http://"@, from) is Some {
            "http://"@
        } else {
            "https://"@
        };
        assert(s.subrange(b, b + pat.len()) == pat);
        assert forall|k: int| b <= k < b + 7 implies !ends_url(s[k]) by {
            assert(s.subrange(b, b + pat.len())[k - b] == pat[k - b]);
        }
        lemma_url_end_from(s, b, b);
        reveal_with_fuel(url_end, 8);
        lemma_url_end_from(s, b + 7, b + 7);
    }
}

proof fn lemma_url_end_from(s: Seq<char>, b: int, k: int)
    requires
        0 <= b <= k <= s.len(),
        forall|i: int| b <= i < k ==> !ends_url(#[trigger] s[i]),
    ensures
        k <= url_end(s, k) <= s.len(),
        url_end(s, k) < s.len() ==> ends_url(s[url_end(s, k)]),
        forall|i: int| b <= i < url_end(s, k) ==> !ends_url(#[trigger] s[i]),
    decreases s.len() - k,
{
    if k < s.len() && !ends_url(s[k]) {
        lemma_url_end_from(s, b, k + 1);
    }
}

/// `distinct` keeps the entries of a list, and none twice.
proof fn lemma_distinct(list: Seq<Seq<char>>)
    ensures
        distinct(list).no_duplicates(),
        forall|x: Seq<char>| #[trigger] distinct(list).contains(x) <==> list.contains(x),
    decreases list.len(),
{
    if list.len() > 0 {
        let init = distinct(list.drop_last());
        lemma_distinct(list.drop_last());
        assert forall|x: Seq<char>| #[trigger] distinct(list).contains(x) <==> list.contains(x) by {
            if list.contains(x) {
                let i = choose|i: int| 0 <= i < list.len() && list[i] == x;
                if i < list.len() - 1 {
                    assert(list.drop_last()[i] == x);
                    assert(init.contains(x));
                    let j = choose|j: int| 0 <= j < init.len() && init[j] == x;
                    assert(distinct(list)[j] == x);
                } else if !init.contains(x) {
                    assert(distinct(list).last() == x);
                }
            }
            if distinct(list).contains(x) {
                let i = choose|i: int| 0 <= i < distinct(list).len() && distinct(list)[i] == x;
                if i < init.len() {
                    assert(init[i] == x);
                    assert(init.contains(x));
                    let j = choose|j: int|
                        0 <= j < list.drop_last().len() && list.drop_last()[j] == x;
                    assert(list[j] == x);
                } else {
                    assert(list.last() == x);
                }
            }
        }
    }
}

/// `u` stands in `s` at position `i` and reaches to the end of the text or to a
/// character at which an address ends.
pub open spec fn stands_whole(s: Seq<char>, u: Seq<char>, i: int) -> bool {
    occurs_at(s, u, i) && (i + u.len() == s.len() || ends_url(s[i + u.len()]))
}

/// `u` starts with one of the two schemes.
pub open spec fn has_scheme(u: Seq<char>) -> bool {
    occurs_at(u, "http://"@, 0) || occurs_at(u, "https://"@, 0)
}

/// The span `(b, e)` of `s` holds an address.
pub open spec fn is_url_span(s: Seq<char>, p: (int, int)) -> bool {
    &&& 0 <= p.0 <= p.1 <= s.len()
    &&& has_scheme(s.subrange(p.0, p.1))
    &&& forall|i: int| p.0 <= i < p.1 ==> !ends_url(#[trigger] s[i])
    &&& p.1 < s.len() ==> ends_url(s[p.1])
}

proof fn lemma_spans_are_urls(s: Seq<char>, from: int, k: int)
    requires
        0 <= k < url_spans(s, from).len(),
    ensures
        is_url_span(s, url_spans(s, from)[k]),
    decreases k,
{
    lemma_url_end(s, from);
    reveal_strlit("http://");
    reveal_strlit("https://");
    let b = url_start(s, from)->0;
    let e = url_end(s, b);
    if k == 0 {
        lemma_find(s, "http://"@, from);
        lemma_find(s, "https://"@, from);
        let pat = if find(s, "http://"@, from) is Some {
            "http://"@
        } else {
            "https://"@
        };
        assert(s.subrange(b, b + pat.len()) == pat);
        assert forall|i: int| b <= i < b + pat.len() implies s[i] == pat[i - b] by {
            assert(s.subrange(b, b + pat.len())[i - b] == pat[i - b]);
        }
        assert(b + pat.len() <= e) by {
            if e < b + pat.len() {
                assert(s[e] == pat[e - b]);
            }
        }
        assert(s.subrange(b, e).subrange(0, pat.len() as int) =~= pat);
    } else {
        lemma_spans_are_urls(s, e, k - 1);
        assert(url_spans(s, from)[k] == url_spans(s, e)[k - 1]);
    }
}

/// Every address starts with `http://` or `https://`, holds no character at which
/// an address ends, and stands in the text up to such a character or the text's end.
pub proof fn law_urls_stand_in_text(s: Seq<char>, k: int)
    requires
        0 <= k < urls_of(s).len(),
    ensures
        has_scheme(urls_of(s)[k]),
        forall|i: int| 0 <= i < urls_of(s)[k].len() ==> !ends_url(#[trigger] urls_of(s)[k][i]),
        exists|i: int| stands_whole(s, urls_of(s)[k], i),
{
    let all = span_texts(s, url_spans(s, 0));
    let u = urls_of(s)[k];
    lemma_distinct(all);
    assert(urls_of(s).contains(u));
    let j = choose|j: int| 0 <= j < all.len() && all[j] == u;
    lemma_spans_are_urls(s, 0, j);
    let p = url_spans(s, 0)[j];
    assert(u == s.subrange(p.0, p.1));
    assert forall|i: int| 0 <= i < u.len() implies !ends_url(#[trigger] u[i]) by {
        assert(u[i] == s[p.0 + i]);
    }
    assert(stands_whole(s, u, p.0));
}

/// No address is listed twice.
pub proof fn law_urls_distinct(s: Seq<char>)
    ensures
        urls_of(s).no_duplicates(),
{
    lemma_distinct(span_texts(s, url_spans(s, 0)));
}

/// The span `p` holds the `n` characters from position `at` on.
pub open spec fn covers(p: (int, int), at: int, n: int) -> bool {
    p.0 <= at && at + n <= p.1
}

proof fn lemma_spans_cover(s: Seq<char>, from: int, at: int, pat: Seq<char>) -> (k: int)
    requires
        0 <= from <= at,
        occurs_at(s, pat, at),
        pat == "http://"@ || (pat == "https://"@ && forall|q: int|
            at <= q ==> !occurs_at(s, "http://"@, q)),
    ensures
        0 <= k < url_spans(s, from).len(),
        covers(url_spans(s, from)[k], at, pat.len() as int),
    decreases s.len() - from,
{
    reveal_strlit("http://");
    reveal_strlit("https://");
    lemma_find(s, "http://"@, from);
    lemma_find(s, "https://"@, from);
    lemma_url_end(s, from);
    let b = url_start(s, from)->0;
    let e = url_end(s, b);
    assert(b <= at);
    if at < e {
        assert(at + pat.len() <= e) by {
            if e < at + pat.len() {
                assert(s.subrange(at, at + pat.len())[e - at] == pat[e - at]);
                assert(s[e] == pat[e - at]);
            }
        }
        assert(url_spans(s, from)[0] == (b, e));
        0
    } else {
        let k = lemma_spans_cover(s, e, at, pat);
        assert(url_spans(s, from)[k + 1] == url_spans(s, e)[k]);
        k + 1
    }
}

proof fn lemma_covered(s: Seq<char>, at: int, pat: Seq<char>)
    requires
        occurs_at(s, pat, at),
        pat == "http://"@ || (pat == "https://"@ && forall|q: int|
            at <= q ==> !occurs_at(s, "http://"@, q)),
    ensures
        exists|k: int, i: int|
            #![trigger occurs_at(s, urls_of(s)[k], i)]
            0 <= k < urls_of(s).len() && occurs_at(s, urls_of(s)[k], i) && i <= at && at + pat.len()
                <= i + urls_of(s)[k].len(),
{
    let all = span_texts(s, url_spans(s, 0));
    let j = lemma_spans_cover(s, 0, at, pat);
    let p = url_spans(s, 0)[j];
    lemma_spans_are_urls(s, 0, j);
    lemma_distinct(all);
    assert(all[j] == s.subrange(p.0, p.1));
    assert(urls_of(s).contains(all[j]));
    let k = choose|k: int| 0 <= k < urls_of(s).len() && urls_of(s)[k] == all[j];
    assert(occurs_at(s, urls_of(s)[k], p.0));
}

/// Every `http://` of the text lies within a listed address.
pub proof fn law_http_listed(s: Seq<char>, at: int)
    requires
        occurs_at(s, "http://"@, at),
    ensures
        exists|k: int, i: int|
            #![trigger occurs_at(s, urls_of(s)[k], i)]
            0 <= k < urls_of(s).len() && occurs_at(s, urls_of(s)[k], i) && i <= at && at
                + "http://"@.len() <= i + urls_of(s)[k].len(),
{
    lemma_covered(s, at, "http://"@);
}

/// Every `https://` after which no `http://` follows lies within a listed address.
pub proof fn law_https_listed(s: Seq<char>, at: int)
    requires
        occurs_at(s, "https://"@, at),
        forall|q: int| at <= q ==> !occurs_at(s, "http://"@, q),
    ensures
        exists|k: int, i: int|
            #![trigger occurs_at(s, urls_of(s)[k], i)]
            0 <= k < urls_of(s).len() && occurs_at(s, urls_of(s)[k], i) && i <= at && at
                + "https://"@.len() <= i + urls_of(s)[k].len(),
{
    lemma_covered(s, at, "https://"@);
}

/// An address ends before white space, a double quote, a closing round or square
/// bracket or an angle bracket, and before nothing else.
pub proof fn law_url_delimiters(c: char)
    ensures
        white_space(c) <==> {
            ||| '\u{9}' <= c <= '\u{D}' || c == '\u{20}' || c == '\u{85}' || c == '\u{A0}'
            ||| c == '\u{1680}' || '\u{2000}' <= c <= '\u{200A}' || c == '\u{2028}'
            ||| c == '\u{2029}' || c == '\u{202F}' || c == '\u{205F}' || c == '\u{3000}'
        },
        ends_url(c) <==> {
            ||| c == '"' || c == ')' || c == ']' || c == '<' || c == '>'
            ||| '\u{9}' <= c <= '\u{D}' || c == '\u{20}' || c == '\u{85}' || c == '\u{A0}'
            ||| c == '\u{1680}' || '\u{2000}' <= c <= '\u{200A}' || c == '\u{2028}'
            ||| c == '\u{2029}' || c == '\u{202F}' || c == '\u{205F}' || c == '\u{3000}'
        },
{
}

/// A listed address stands in the text whole: it starts with a scheme and reaches to
/// the text's end or to white space, `"`, `)`, `]`, `<` or `>`. It holds none of
/// these, and any other character belongs to the address that it stands in.
pub proof fn law_url_whole(s: Seq<char>, k: int)
    requires
        0 <= k < urls_of(s).len(),
    ensures
        ({
            let u = urls_of(s)[k];
            let stops = |c: char|
                {
                    ||| c == '"' || c == ')' || c == ']' || c == '<' || c == '>'
                    ||| '\u{9}' <= c <= '\u{D}' || c == '\u{20}' || c == '\u{85}' || c == '\u{A0}'
                    ||| c == '\u{1680}' || '\u{2000}' <= c <= '\u{200A}' || c == '\u{2028}'
                    ||| c == '\u{2029}' || c == '\u{202F}' || c == '\u{205F}' || c == '\u{3000}'
                };
            &&& (u.len() >= 7 && u.take(7) == "http://"@) || (u.len() >= 8 && u.take(8)
                == "https://"@)
            &&& forall|i: int| 0 <= i < u.len() ==> !stops(#[trigger] u[i])
            &&& exists|i: int|
                {
                    &&& 0 <= i <= s.len() - u.len()
                    &&& #[trigger] s.subrange(i, i + u.len()) == u
                    &&& i + u.len() == s.len() || stops(s[i + u.len()])
                }
        }),
{
    reveal_strlit("http://");
    reveal_strlit("https://");
    law_urls_stand_in_text(s, k);
    let u = urls_of(s)[k];
    if occurs_at(u, "http://"@, 0) {
        assert(u.take(7) =~= u.subrange(0, 7));
    } else {
        assert(u.take(8) =~= u.subrange(0, 8));
    }
    assert forall|i: int| 0 <= i < u.len() implies !ends_url(#[trigger] u[i]) by {}
    let i = choose|i: int| stands_whole(s, u, i);
    assert(s.subrange(i, i + u.len()) == u);
}

proof fn lemma_url_end_at(s: Seq<char>, from: int, e: int)
    requires
        0 <= from <= e <= s.len(),
        forall|i: int| from <= i < e ==> !ends_url(#[trigger] s[i]),
        e == s.len() || ends_url(s[e]),
    ensures
        url_end(s, from) == e,
    decreases e - from,
{
    if from < e {
        lemma_url_end_at(s, from + 1, e);
    }
}

proof fn lemma_find_behind(s: Seq<char>, pat: Seq<char>, e: int, from: int)
    requires
        0 <= e <= from,
        e <= s.len(),
    ensures
        match find(s.skip(e), pat, from - e) {
            Some(i) => find(s, pat, from) == Some(i + e),
            None => find(s, pat, from) is None,
        },
    decreases s.len() + 1 - from,
{
    let t = s.skip(e);
    if from + pat.len() <= s.len() {
        assert(t.subrange(from - e, from - e + pat.len()) =~= s.subrange(from, from + pat.len()));
        lemma_find_behind(s, pat, e, from + 1);
    }
}

proof fn lemma_end_behind(s: Seq<char>, e: int, from: int)
    requires
        0 <= e <= from,
        e <= s.len(),
    ensures
        url_end(s, from) == url_end(s.skip(e), from - e) + e,
    decreases s.len() - from,
{
    if from < s.len() {
        assert(s.skip(e)[from - e] == s[from]);
        lemma_end_behind(s, e, from + 1);
    }
}

/// The addresses behind a position are those of the text behind it.
proof fn lemma_spans_behind(s: Seq<char>, e: int, from: int)
    requires
        0 <= e <= from,
        e <= s.len(),
    ensures
        span_texts(s, url_spans(s, from)) == span_texts(
            s.skip(e),
            url_spans(s.skip(e), from - e),
        ),
    decreases s.len() - from,
{
    let t = s.skip(e);
    lemma_find_behind(s, "http://"@, e, from);
    lemma_find_behind(s, "https://"@, e, from);
    lemma_url_end(s, from);
    lemma_url_end(t, from - e);
    match url_start(s, from) {
        None => {
            assert(span_texts(s, url_spans(s, from)) =~= span_texts(t, url_spans(t, from - e)));
        },
        Some(b) => {
            let end = url_end(s, b);
            lemma_end_behind(s, e, b);
            lemma_spans_behind(s, e, end);
            assert(t.subrange(b - e, end - e) =~= s.subrange(b, end));
            assert(span_texts(s, url_spans(s, from)) =~= seq![s.subrange(b, end)] + span_texts(
                s,
                url_spans(s, end),
            ));
            assert(span_texts(t, url_spans(t, from - e)) =~= seq![s.subrange(b, end)]
                + span_texts(t, url_spans(t, end - e)));
        },
    }
}

proof fn lemma_distinct_after(first: Seq<char>, list: Seq<Seq<char>>)
    ensures
        distinct(seq![first] + list) == seq![first] + distinct(list).filter(
            |u: Seq<char>| u != first,
        ),
    decreases list.len(),
{
    reveal(Seq::filter);
    let other = |u: Seq<char>| u != first;
    let all = seq![first] + list;
    if list.len() == 0 {
        assert(all.drop_last() =~= Seq::empty());
        assert(distinct(all.drop_last()) =~= Seq::empty());
        assert(!distinct(all.drop_last()).contains(first));
        assert(distinct(all) =~= seq![first]);
        assert(seq![first] + distinct(list).filter(other) =~= seq![first]);
    } else {
        let init = list.drop_last();
        let last = list.last();
        let kept = distinct(init);
        lemma_distinct_after(first, init);
        assert(all.drop_last() =~= seq![first] + init);
        let before = seq![first] + kept.filter(other);
        if before.contains(last) {
            let i = choose|i: int| 0 <= i < before.len() && before[i] == last;
            if i > 0 {
                assert(kept.filter(other)[i - 1] == last);
                assert(kept.filter(other).contains(last));
                kept.lemma_filter_contains_rev(other, last);
            }
            if !kept.contains(last) {
                assert(last == first);
                assert(kept.push(last).drop_last() =~= kept);
                assert(kept.push(last).filter(other) == kept.filter(other));
            }
        } else {
            assert(last != first) by {
                assert(before[0] == first);
            }
            if kept.contains(last) {
                let j = choose|j: int| 0 <= j < kept.len() && kept[j] == last;
                kept.lemma_filter_contains(other, j);
                let q = choose|q: int| 0 <= q < kept.filter(other).len() && kept.filter(other)[q]
                    == last;
                assert(before[q + 1] == last);
            }
            assert(kept.push(last).drop_last() =~= kept);
            assert(before.push(last) =~= seq![first] + kept.filter(other).push(last));
        }
    }
}

proof fn lemma_first_url(before: Seq<char>, url: Seq<char>, after: Seq<char>)
    requires
        url_start(before + url + after, 0) == Some(before.len() as int),
        forall|i: int| 0 <= i < url.len() ==> !ends_url(#[trigger] url[i]),
        after.len() == 0 || ends_url(after[0]),
    ensures
        urls_of(before + url + after) == seq![url] + urls_of(after).filter(
            |u: Seq<char>| u != url,
        ),
{
    let s = before + url + after;
    let b = before.len() as int;
    let e = b + url.len();
    assert forall|i: int| b <= i < e implies !ends_url(#[trigger] s[i]) by {
        assert(s[i] == url[i - b]);
    }
    lemma_url_end_at(s, b, e);
    lemma_url_end(s, 0);
    lemma_spans_behind(s, e, e);
    assert(s.skip(e) =~= after);
    assert(s.subrange(b, e) =~= url);
    assert(span_texts(s, url_spans(s, 0)) =~= seq![url] + span_texts(s, url_spans(s, e)));
    lemma_distinct_after(url, span_texts(after, url_spans(after, 0)));
}

/// Piece by piece: where the text goes up to its first `http://`, then to the end of
/// that address, the address is listed first, and then what the rest of the text
/// lists, without that address.
pub proof fn law_first_http_url(before: Seq<char>, url: Seq<char>, after: Seq<char>)
    requires
        url.len() >= 7,
        url.take(7) == "http://"@,
        forall|i: int|
            0 <= i < before.len() ==> #[trigger] (before + url + after).subrange(i, i + 7)
                != "http://"@,
        forall|i: int| 0 <= i < url.len() ==> !ends_url(#[trigger] url[i]),
        after.len() == 0 || ends_url(after[0]),
    ensures
        urls_of(before + url + after) == seq![url] + urls_of(after).filter(
            |u: Seq<char>| u != url,
        ),
{
    reveal_strlit("http://");
    let s = before + url + after;
    let b = before.len() as int;
    lemma_find(s, "http://"@, 0);
    assert(s.subrange(b, b + 7) =~= url.take(7));
    assert(occurs_at(s, "http://"@, b));
    match find(s, "http://"@, 0) {
        Some(i) => {
            assert(i <= b);
            if i < b {
                assert(s.subrange(i, i + 7) != "http://"@);
            }
        },
        None => {},
    }
    lemma_first_url(before, url, after);
}

/// The same of a text without `http://`, up to its first `https://`.
pub proof fn law_first_https_url(before: Seq<char>, url: Seq<char>, after: Seq<char>)
    requires
        url.len() >= 8,
        url.take(8) == "https://"@,
        forall|i: int|
            0 <= i <= (before + url + after).len() - 7 ==> #[trigger] (before + url
                + after).subrange(i, i + 7) != "http://"@,
        forall|i: int|
            0 <= i < before.len() ==> #[trigger] (before + url + after).subrange(i, i + 8)
                != "https://"@,
        forall|i: int| 0 <= i < url.len() ==> !ends_url(#[trigger] url[i]),
        after.len() == 0 || ends_url(after[0]),
    ensures
        urls_of(before + url + after) == seq![url] + urls_of(after).filter(
            |u: Seq<char>| u != url,
        ),
{
    reveal_strlit("http://");
    reveal_strlit("https://");
    let s = before + url + after;
    let b = before.len() as int;
    lemma_find(s, "http://"@, 0);
    lemma_find(s, "https://"@, 0);
    assert(s.subrange(b, b + 8) =~= url.take(8));
    assert(occurs_at(s, "https://"@, b));
    match find(s, "http://"@, 0) {
        Some(i) => {
            assert(s.subrange(i, i + 7) != "http://"@);
        },
        None => {},
    }
    match find(s, "https://"@, 0) {
        Some(i) => {
            assert(i <= b);
            if i < b {
                assert(s.subrange(i, i + 8) != "https://"@);
            }
        },
        None => {},
    }
    lemma_first_url(before, url, after);
}

/// A text without a scheme lists nothing.
pub proof fn law_no_url(s: Seq<char>)
    requires
        forall|i: int| 0 <= i <= s.len() - 7 ==> #[trigger] s.subrange(i, i + 7) != "http://"@,
        forall|i: int| 0 <= i <= s.len() - 8 ==> #[trigger] s.subrange(i, i + 8) != "https://"@,
    ensures
        urls_of(s).len() == 0,
{
    reveal_strlit("http://");
    reveal_strlit("https://");
    lemma_find(s, "http://"@, 0);
    lemma_find(s, "https://"@, 0);
    match find(s, "http://"@, 0) {
        Some(i) => {
            assert(s.subrange(i, i + 7) != "http://"@);
        },
        None => {},
    }
    match find(s, "https://"@, 0) {
        Some(i) => {
            assert(s.subrange(i, i + 8) != "https://"@);
        },
        None => {},
    }
    assert(span_texts(s, url_spans(s, 0)) =~= Seq::empty());
}

/// Whether `c` has Unicode's `White_Space` property.
pub fn is_white_space(c: char) -> (r: bool)
    ensures
        r == white_space(c),
{
    ('\u{9}' <= c && c <= '\u{D}') || c == '\u{20}' || c == '\u{85}' || c == '\u{A0}' || c
        == '\u{1680}' || ('\u{2000}' <= c && c <= '\u{200A}') || c == '\u{2028}' || c == '\u{2029}'
        || c == '\u{202F}' || c == '\u{205F}' || c == '\u{3000}'
}

fn is_url_end(c: char) -> (r: bool)
    ensures
        r == ends_url(c),
{
    is_white_space(c) || c == '"' || c == ')' || c == ']' || c == '<' || c == '>'
}

/// The position at which the address that starts at `from` ends.
fn end_of_url(s: &Vec<char>, from: usize) -> (r: usize)
    requires
        from <= s@.len(),
    ensures
        r == url_end(s@, from as int),
        r <= s@.len(),
{
    let mut i: usize = from;
    while i < s.len() && !is_url_end(s[i])
        invariant
            from <= i <= s@.len(),
            url_end(s@, i as int) == url_end(s@, from as int),
        decreases s@.len() - i,
    {
        i += 1;
    }
    i
}

/// Whether `list` holds the text `s`.
fn holds(list: &Vec<String>, s: &String) -> (r: bool)
    ensures
        r == texts(list@).contains(s@),
{
    for i in 0..list.len()
        invariant
            forall|j: int| 0 <= j < i ==> list@[j]@ != s@,
    {
        if list[i] == *s {
            assert(texts(list@)[i as int] == s@);
            return true;
        }
    }
    assert forall|j: int| 0 <= j < list@.len() implies texts(list@)[j] != s@ by {
        assert(list@[j]@ != s@);
    }
    false
}

/// The addresses in `text`, each once, in the order in which they are found.
///
/// An address starts with `http://` or `https://` and ends before white space,
/// `"`, `)`, `]`, `<` or `>`. As long as an `http://` is left in the text the
/// search goes on there, past any `https://` before it.
pub fn extract_urls(text: &str) -> (urls: Vec<String>)
    ensures
        texts(urls@) == urls_of(text@),
{
    let chars = chars_of(text);
    let http = chars_of("http://");
    let https = chars_of("https://");
    let ghost s = text@;
    let ghost mut done: Seq<(int, int)> = Seq::empty();
    let mut urls: Vec<String> = Vec::new();
    let mut from: usize = 0;
    assert(texts(urls@) =~= distinct(span_texts(s, done)));
    assert(done + url_spans(s, 0) =~= url_spans(s, 0));
    loop
        invariant
            s == text@,
            chars@ == s,
            http@ == "http://"@,
            https@ == "https://"@,
            from <= s.len(),
            texts(urls@) == distinct(span_texts(s, done)),
            done + url_spans(s, from as int) == url_spans(s, 0),
        decreases s.len() - from,
    {
        let start: Option<usize> = match find_from(&chars, &http, from) {
            Some(i) => Some(i),
            None => find_from(&chars, &https, from),
        };
        proof {
            lemma_url_end(s, from as int);
        }
        match start {
            None => {
                assert(done + url_spans(s, from as int) =~= done);
                return urls;
            },
            Some(b) => {
                let e: usize = end_of_url(&chars, b);
                let url = text.substring_char(b, e).to_owned();
                let ghost next = done.push((b as int, e as int));
                proof {
                    assert(span_texts(s, next).drop_last() =~= span_texts(s, done));
                    assert(span_texts(s, next).last() == url@);
                    assert(next + url_spans(s, e as int) =~= done + url_spans(s, from as int));
                    done = next;
                }
                if !holds(&urls, &url) {
                    let ghost before = texts(urls@);
                    urls.push(url);
                    assert(texts(urls@) =~= before.push(url@));
                }
                from = e;
            },
        }
    }
}

} // verus!
