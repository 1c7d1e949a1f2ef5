//! Text as sequences of characters: searching, splitting, joining and the
//! decimal form of numbers.

use vstd::prelude::*;
use vstd::string::*;

verus! {

/// The texts of a list of strings.
pub open spec fn texts(list: Seq<String>) -> Seq<Seq<char>> {
    list.map_values(|s: String| s@)
}

/// The text of an optional string.
pub open spec fn opt_text(s: Option<String>) -> Option<Seq<char>> {
    match s {
        Some(t) => Some(t@),
        None => None,
    }
}

/// The text, or none at all where there is none.
pub open spec fn or_empty(s: Option<Seq<char>>) -> Seq<char> {
    match s {
        Some(t) => t,
        None => Seq::empty(),
    }
}

/// `pat` stands in `s` at position `i`.
pub open spec fn occurs_at(s: Seq<char>, pat: Seq<char>, i: int) -> bool {
    &&& 0 <= i
    &&& i + pat.len() <= s.len()
    &&& s.subrange(i, i + pat.len()) == pat
}

/// The first position, not before `from`, at which `pat` stands in `s`.
pub open spec fn find(s: Seq<char>, pat: Seq<char>, from: int) -> Option<int>
    decreases s.len() + 1 - from,
{
    if from < 0 || from + pat.len() > s.len() {
        None
    } else if occurs_at(s, pat, from) {
        Some(from)
    } else {
        find(s, pat, from + 1)
    }
}

/// `find` gives an occurrence, none lies before it, and it gives none only
/// where there is none.
pub proof fn lemma_find(s: Seq<char>, pat: Seq<char>, from: int)
    requires
        0 <= from,
    ensures
        match find(s, pat, from) {
            Some(i) => {
                &&& from <= i
                &&& occurs_at(s, pat, i)
                &&& forall|j: int| from <= j < i ==> !occurs_at(s, pat, j)
            },
            None => forall|j: int| from <= j ==> !occurs_at(s, pat, j),
        },
    decreases s.len() + 1 - from,
{
    if from + pat.len() <= s.len() && !occurs_at(s, pat, from) {
        lemma_find(s, pat, from + 1);
    }
}

/// The characters of `s`.
pub fn chars_of(s: &str) -> (r: Vec<char>)
    ensures
        r@ == s@,
{
    let mut r: Vec<char> = Vec::new();
    for c in it: s.chars()
        invariant
            r@ == s@.take(it.index() as int),
            it.seq() == s@,
    {
        r.push(c);
    }
    assert(s@.take(s@.len() as int) == s@);
    r
}

/// Whether `a` and `b` are the same text.
pub fn str_eq(a: &str, b: &str) -> (r: bool)
    ensures
        r == (a@ == b@),
{
    a.to_owned() == b.to_owned()
}

/// The four texts, one after the other.
pub fn concat_four(a: &str, b: &str, c: &str, d: &str) -> (r: String)
    ensures
        r@ == a@ + b@ + c@ + d@,
{
    let mut r = a.to_owned();
    r.append(b);
    r.append(c);
    r.append(d);
    r
}

/// Whether `pat` stands in `s` at position `i`.
fn is_at(s: &Vec<char>, pat: &Vec<char>, i: usize) -> (r: bool)
    requires
        i + pat@.len() <= s@.len(),
    ensures
        r == occurs_at(s@, pat@, i as int),
{
    let n: usize = s.len();
    let mut k: usize = 0;
    while k < pat.len()
        invariant
            k <= pat@.len(),
            n == s@.len(),
            i + pat@.len() <= n,
            forall|m: int| 0 <= m < k ==> s@[i + m] == pat@[m],
        decreases pat@.len() - k,
    {
        if s[i + k] != pat[k] {
            assert(s@.subrange(i as int, i + pat@.len())[k as int] != pat@[k as int]);
            return false;
        }
        k += 1;
    }
    assert(s@.subrange(i as int, i + pat@.len()) =~= pat@);
    true
}

/// The first position, not before `from`, at which `pat` stands in `s`.
pub fn find_from(s: &Vec<char>, pat: &Vec<char>, from: usize) -> (r: Option<usize>)
    requires
        from <= s@.len(),
    ensures
        match r {
            Some(i) => find(s@, pat@, from as int) == Some(i as int),
            None => find(s@, pat@, from as int) is None,
        },
{
    let mut i: usize = from;
    while i <= s.len() && pat.len() <= s.len() - i
        invariant
            from <= i <= s@.len() + 1,
            find(s@, pat@, from as int) == find(s@, pat@, i as int),
        decreases s@.len() + 1 - i,
    {
        if is_at(s, pat, i) {
            return Some(i);
        }
        if i == s.len() {
            assert(find(s@, pat@, i + 1) is None);
            return None;
        }
        i += 1;
    }
    None
}

/// The pieces of `s` between occurrences of `c`; at least one piece.
pub open spec fn split(s: Seq<char>, c: char) -> Seq<Seq<char>>
    decreases s.len(),
{
    if s.len() == 0 {
        seq![Seq::empty()]
    } else {
        let init = split(s.drop_last(), c);
        if s.last() == c {
            init.push(Seq::empty())
        } else {
            init.drop_last().push(init.last().push(s.last()))
        }
    }
}

/// The entries of `list`, one after the other, with `sep` between them.
pub open spec fn join(list: Seq<Seq<char>>, sep: Seq<char>) -> Seq<char>
    decreases list.len(),
{
    if list.len() == 0 {
        Seq::empty()
    } else if list.len() == 1 {
        list[0]
    } else {
        join(list.drop_last(), sep) + sep + list.last()
    }
}

/// `line` without the carriage return at its end, where it has one.
pub open spec fn strip_cr(line: Seq<char>) -> Seq<char> {
    if line.len() > 0 && line.last() == '\r' {
        line.drop_last()
    } else {
        line
    }
}

/// The lines of `s`: each ends with a line feed, or a carriage return and a line
/// feed, that do not belong to it; the last line needs no such end.
pub open spec fn lines(s: Seq<char>) -> Seq<Seq<char>> {
    let pieces = split(s, '\n');
    let ended = pieces.drop_last().map_values(|p: Seq<char>| strip_cr(p));
    if pieces.last().len() == 0 {
        ended
    } else {
        ended.push(pieces.last())
    }
}

/// The character for the digit `d`.
pub open spec fn digit(d: nat) -> char {
    (48 + d) as char
}

/// The decimal form of `n`.
pub open spec fn decimal(n: nat) -> Seq<char>
    decreases n,
{
    if n < 10 {
        seq![digit(n)]
    } else {
        decimal(n / 10).push(digit(n % 10))
    }
}

/// No character of `s` is `c`.
pub open spec fn free_of(s: Seq<char>, c: char) -> bool {
    !s.contains(c)
}

/// A split gives at least one piece.
pub proof fn lemma_split_nonempty(s: Seq<char>, c: char)
    ensures
        split(s, c).len() > 0,
    decreases s.len(),
{
    if s.len() > 0 {
        lemma_split_nonempty(s.drop_last(), c);
    }
}

/// The pieces of a split hold no separator.
pub proof fn lemma_split_free(s: Seq<char>, c: char, k: int)
    requires
        0 <= k < split(s, c).len(),
    ensures
        free_of(split(s, c)[k], c),
    decreases s.len(),
{
    if s.len() > 0 {
        lemma_split_nonempty(s.drop_last(), c);
        let init = split(s.drop_last(), c);
        if k < init.len() {
            lemma_split_free(s.drop_last(), c, k);
            if s.last() != c && k == init.len() - 1 {
                assert(split(s, c)[k] == init[k].push(s.last()));
                assert forall|i: int| 0 <= i < split(s, c)[k].len() implies split(s, c)[k][i] != c by {
                    if i < init[k].len() {
                        assert(init[k].contains(init[k][i]));
                    }
                }
            }
        }
    }
}

/// Text without a separator, appended to `s`, extends the last piece.
pub proof fn lemma_split_append(s: Seq<char>, u: Seq<char>, c: char)
    requires
        free_of(u, c),
    ensures
        split(s + u, c) == split(s, c).drop_last().push(split(s, c).last() + u),
    decreases u.len(),
{
    lemma_split_nonempty(s, c);
    if u.len() == 0 {
        assert(s + u =~= s);
        assert(split(s, c).last() + u =~= split(s, c).last());
        assert(split(s, c) =~= split(s, c).drop_last().push(split(s, c).last()));
    } else {
        let v = u.drop_last();
        assert(u.contains(u.last()));
        assert forall|i: int| 0 <= i < v.len() implies v[i] != c by {
            assert(u.contains(u[i]));
        }
        lemma_split_append(s, v, c);
        assert((s + u).drop_last() =~= s + v);
        assert((split(s, c).last() + v).push(u.last()) =~= split(s, c).last() + u);
        assert(split(s + u, c) =~= split(s, c).drop_last().push(split(s, c).last() + u));
    }
}

/// Joining the pieces of a split gives the text back.
pub proof fn law_join_split(s: Seq<char>, c: char)
    ensures
        join(split(s, c), seq![c]) == s,
    decreases s.len(),
{
    if s.len() == 0 {
        assert(join(split(s, c), seq![c]) =~= s);
    } else {
        let t = s.drop_last();
        let init = split(t, c);
        lemma_split_nonempty(t, c);
        law_join_split(t, c);
        if s.last() == c {
            assert(split(s, c).drop_last() =~= init);
            assert(join(split(s, c), seq![c]) =~= s);
        } else {
            assert(split(s, c).drop_last() =~= init.drop_last());
            assert(join(split(s, c), seq![c]) =~= join(init, seq![c]).push(s.last()));
            assert(t.push(s.last()) =~= s);
        }
    }
}

/// Splitting a join of pieces that hold no separator gives the pieces back.
pub proof fn law_split_join(list: Seq<Seq<char>>, c: char)
    requires
        list.len() > 0,
        forall|k: int| 0 <= k < list.len() ==> free_of(#[trigger] list[k], c),
    ensures
        split(join(list, seq![c]), c) == list,
    decreases list.len(),
{
    if list.len() == 1 {
        lemma_split_append(Seq::empty(), list[0], c);
        assert(Seq::<char>::empty() + list[0] =~= list[0]);
        assert(split(join(list, seq![c]), c) =~= list);
    } else {
        let init = list.drop_last();
        assert forall|k: int| 0 <= k < init.len() implies free_of(#[trigger] init[k], c) by {
            assert(free_of(list[k], c));
        }
        law_split_join(init, c);
        let t = join(init, seq![c]) + seq![c];
        assert(t.drop_last() =~= join(init, seq![c]));
        lemma_split_append(t, list.last(), c);
        assert(split(t, c).drop_last() =~= init);
        assert(Seq::<char>::empty() + list.last() =~= list.last());
        assert(split(join(list, seq![c]), c) =~= list);
    }
}

/// The texts of a list of strings are those of its entries, in order.
pub proof fn law_texts(list: Seq<String>)
    ensures
        texts(list).len() == list.len(),
        forall|k: int| 0 <= k < list.len() ==> #[trigger] texts(list)[k] == list[k]@,
{
}

/// The text of an optional string is that of the string, and there is none where
/// there is no string; in its place the empty text can stand.
pub proof fn law_optional_text(s: String, t: Seq<char>)
    ensures
        opt_text(Some(s)) == Some(s@),
        opt_text(None) == None::<Seq<char>>,
        or_empty(Some(t)) == t,
        or_empty(None).len() == 0,
{
}

/// A pattern stands at a position exactly if its characters do, one after the other.
pub proof fn law_occurs_at(s: Seq<char>, pat: Seq<char>, i: int)
    ensures
        occurs_at(s, pat, i) <==> 0 <= i && i + pat.len() <= s.len() && forall|k: int|
            0 <= k < pat.len() ==> s[i + k] == #[trigger] pat[k],
{
    if 0 <= i && i + pat.len() <= s.len() {
        let part = s.subrange(i, i + pat.len());
        assert(forall|k: int| 0 <= k < pat.len() ==> part[k] == s[i + k]);
        if forall|k: int| 0 <= k < pat.len() ==> s[i + k] == #[trigger] pat[k] {
            assert(part =~= pat);
        }
    }
}

/// The search gives the first place at which the pattern stands in the text, and
/// gives none only where it stands nowhere.
pub proof fn law_find_first(s: Seq<char>, pat: Seq<char>, from: int)
    requires
        0 <= from,
    ensures
        match find(s, pat, from) {
            Some(i) => {
                &&& from <= i
                &&& i + pat.len() <= s.len()
                &&& s.subrange(i, i + pat.len()) == pat
                &&& forall|j: int| from <= j < i ==> #[trigger] s.subrange(j, j + pat.len()) != pat
            },
            None => forall|j: int|
                from <= j && j + pat.len() <= s.len() ==> #[trigger] s.subrange(j, j + pat.len())
                    != pat,
        },
{
    lemma_find(s, pat, from);
    match find(s, pat, from) {
        Some(i) => {
            assert forall|j: int| from <= j < i implies #[trigger] s.subrange(j, j + pat.len())
                != pat by {
                assert(!occurs_at(s, pat, j));
            }
        },
        None => {
            assert forall|j: int|
                from <= j && j + pat.len() <= s.len() implies #[trigger] s.subrange(
                j,
                j + pat.len(),
            ) != pat by {
                assert(!occurs_at(s, pat, j));
            }
        },
    }
}

/// A text without the separator is one piece, and a separator between two texts
/// parts their pieces.
pub proof fn law_split_parts(a: Seq<char>, b: Seq<char>, c: char)
    ensures
        !a.contains(c) ==> split(a, c) == seq![a],
        split(a + seq![c] + b, c) == split(a, c) + split(b, c),
    decreases b.len(),
{
    if !a.contains(c) {
        lemma_split_append(Seq::empty(), a, c);
        assert(Seq::<char>::empty() + a =~= a);
        assert(split(a, c) =~= seq![a]);
    }
    let whole = a + seq![c] + b;
    if b.len() == 0 {
        assert(whole.drop_last() =~= a);
        assert(split(whole, c) =~= split(a, c) + split(b, c));
    } else {
        law_split_parts(a, b.drop_last(), c);
        lemma_split_nonempty(b.drop_last(), c);
        assert(whole.drop_last() =~= a + seq![c] + b.drop_last());
        assert(split(whole, c) =~= split(a, c) + split(b, c));
    }
}

/// No text joins to the empty one, one text to itself, and two lists join to their
/// joins with the separator between.
pub proof fn law_join_parts(a: Seq<Seq<char>>, b: Seq<Seq<char>>, sep: Seq<char>)
    ensures
        a.len() == 0 ==> join(a, sep).len() == 0,
        a.len() == 1 ==> join(a, sep) == a[0],
        a.len() > 0 && b.len() > 0 ==> join(a + b, sep) == join(a, sep) + sep + join(b, sep),
    decreases b.len(),
{
    if a.len() > 0 && b.len() > 0 {
        let all = a + b;
        assert(all.last() == b.last());
        assert(all.drop_last() =~= a + b.drop_last());
        if b.len() == 1 {
            assert(a + b.drop_last() =~= a);
            assert(join(b, sep) == b.last());
        } else {
            law_join_parts(a, b.drop_last(), sep);
            assert(join(all, sep) =~= join(a, sep) + sep + join(b, sep));
        }
    }
}

proof fn lemma_unended_line(s: Seq<char>, u: Seq<char>)
    requires
        s.len() == 0 || s.last() == '\n',
        !u.contains('\n'),
    ensures
        split(s, '\n').len() > 0,
        split(s, '\n').last().len() == 0,
        split(s + u, '\n') == split(s, '\n').drop_last().push(u),
{
    lemma_split_nonempty(s, '\n');
    lemma_split_append(s, u, '\n');
    assert(split(s, '\n').last() =~= Seq::empty());
    assert(split(s, '\n').last() + u =~= u);
}

proof fn lemma_ended_line(s: Seq<char>, u: Seq<char>)
    requires
        s.len() == 0 || s.last() == '\n',
        !u.contains('\n'),
    ensures
        lines(s + u + seq!['\n']) == lines(s).push(strip_cr(u)),
{
    lemma_unended_line(s, u);
    let more = s + u + seq!['\n'];
    let init = split(s, '\n').drop_last();
    assert(more.drop_last() =~= s + u);
    assert(split(more, '\n') =~= init.push(u).push(Seq::empty()));
    assert(split(more, '\n').drop_last() =~= init.push(u));
    let strip = |p: Seq<char>| strip_cr(p);
    assert(init.push(u).map_values(strip) =~= init.map_values(strip).push(strip_cr(u)));
}

/// Line by line: the empty text has no line; behind a text that ends with a line
/// feed, or is empty, each further text without a line feed is a line, be it ended by
/// a line feed, by a carriage return and a line feed or, if it is not empty, by the
/// end of the text. Only the carriage return before a line feed is left out.
pub proof fn law_lines(s: Seq<char>, u: Seq<char>)
    requires
        s.len() == 0 || s.last() == '\n',
        !u.contains('\n'),
    ensures
        s.len() == 0 ==> lines(s).len() == 0,
        u.len() == 0 || u.last() != '\r' ==> lines(s + u + seq!['\n']) == lines(s).push(u),
        lines(s + u + seq!['\r', '\n']) == lines(s).push(u),
        u.len() > 0 ==> lines(s + u) == lines(s).push(u),
{
    lemma_unended_line(s, u);
    lemma_ended_line(s, u);
    let v = u.push('\r');
    assert forall|i: int| 0 <= i < v.len() implies v[i] != '\n' by {
        if i < u.len() {
            assert(u.contains(u[i]));
        }
    }
    lemma_ended_line(s, v);
    assert(v.drop_last() =~= u);
    assert(s + u + seq!['\r', '\n'] =~= s + v + seq!['\n']);
    if u.len() > 0 {
        assert(split(s + u, '\n').drop_last() =~= split(s, '\n').drop_last());
    }
}

/// The number that a row of digits stands for.
pub open spec fn number_of(digits: Seq<char>) -> int
    decreases digits.len(),
{
    if digits.len() == 0 {
        0
    } else {
        10 * number_of(digits.drop_last()) + (digits.last() as int - '0' as int)
    }
}

/// The decimal form of a number is a row of digits that stands for it, and starts
/// with a zero only if it is no more than that.
pub proof fn law_decimal_read_back(n: nat)
    ensures
        number_of(decimal(n)) == n,
        decimal(n).len() > 0,
        forall|k: int| 0 <= k < decimal(n).len() ==> '0' <= #[trigger] decimal(n)[k] <= '9',
        decimal(n)[0] == '0' ==> decimal(n).len() == 1,
        decimal(n).len() > 1 ==> n >= 10,
    decreases n,
{
    reveal_with_fuel(number_of, 2);
    if n < 10 {
        assert(decimal(n).drop_last() =~= Seq::empty());
    } else {
        law_decimal_read_back(n / 10);
        assert(decimal(n).drop_last() =~= decimal(n / 10));
        assert(decimal(n)[0] == decimal(n / 10)[0]);
        if decimal(n / 10)[0] == '0' {
            assert(decimal(n / 10).len() == 1);
            assert(number_of(decimal(n / 10)) == 0) by {
                assert(decimal(n / 10).drop_last() =~= Seq::empty());
            }
        }
    }
}

/// The pieces of `s` between occurrences of `c`.
pub fn split_at_each(s: &str, c: char) -> (r: Vec<String>)
    ensures
        texts(r@) == split(s@, c),
{
    let chars = chars_of(s);
    let mut r: Vec<String> = Vec::new();
    let mut start: usize = 0;
    let mut i: usize = 0;
    assert(s@.take(0) =~= Seq::empty());
    assert(split(s@.take(0), c) =~= texts(r@).push(s@.subrange(0, 0)));
    while i < chars.len()
        invariant
            chars@ == s@,
            start <= i <= s@.len(),
            split(s@.take(i as int), c) == texts(r@).push(s@.subrange(start as int, i as int)),
        decreases s@.len() - i,
    {
        let ghost init = split(s@.take(i as int), c);
        assert(s@.take(i + 1).drop_last() =~= s@.take(i as int));
        if chars[i] == c {
            r.push(s.substring_char(start, i).to_owned());
            assert(texts(r@) =~= init);
            start = i + 1;
            assert(s@.subrange(start as int, i + 1) =~= Seq::empty());
        } else {
            assert(s@.subrange(start as int, i + 1) =~= s@.subrange(start as int, i as int).push(
                s@[i as int],
            ));
            assert(init.drop_last() =~= texts(r@));
        }
        i += 1;
    }
    assert(s@.take(s@.len() as int) =~= s@);
    r.push(s.substring_char(start, i).to_owned());
    assert(texts(r@) =~= split(s@, c));
    r
}

/// The entries of `list`, one after the other, with `sep` between them.
pub fn join_with(list: &Vec<String>, sep: &str) -> (r: String)
    ensures
        r@ == join(texts(list@), sep@),
{
    let mut r = String::new();
    assert(texts(list@).take(0) =~= Seq::empty());
    for i in 0..list.len()
        invariant
            r@ == join(texts(list@).take(i as int), sep@),
    {
        let ghost t = texts(list@);
        assert(t.take(i + 1).drop_last() =~= t.take(i as int));
        if i > 0 {
            r.append(sep);
        }
        r.append(list[i].as_str());
        assert(r@ =~= join(t.take(i + 1), sep@));
    }
    assert(texts(list@).take(list@.len() as int) =~= texts(list@));
    r
}

/// The lines of `s`.
pub fn lines_of(s: &str) -> (r: Vec<String>)
    ensures
        texts(r@) == lines(s@),
{
    let pieces = split_at_each(s, '\n');
    let ghost all = split(s@, '\n');
    proof {
        lemma_split_nonempty(s@, '\n');
    }
    let last: usize = pieces.len() - 1;
    let mut r: Vec<String> = Vec::new();
    let ghost ended = all.drop_last().map_values(|p: Seq<char>| strip_cr(p));
    for i in 0..last
        invariant
            last + 1 == pieces@.len(),
            all == texts(pieces@),
            ended == all.drop_last().map_values(|p: Seq<char>| strip_cr(p)),
            texts(r@) =~= ended.take(i as int),
    {
        let n: usize = pieces[i].as_str().unicode_len();
        let ghost before = texts(r@);
        assert(all[i as int] == pieces@[i as int]@);
        if n > 0 && pieces[i].as_str().get_char(n - 1) == '\r' {
            r.push(pieces[i].as_str().substring_char(0, n - 1).to_owned());
            assert(all[i as int].drop_last() =~= all[i as int].subrange(0, n - 1));
        } else {
            r.push(pieces[i].clone());
        }
        assert(texts(r@) =~= before.push(strip_cr(all[i as int])));
        assert(ended.take(i + 1) =~= ended.take(i as int).push(ended[i as int]));
    }
    assert(ended.take(last as int) =~= ended);
    assert(all.last() == pieces@[last as int]@);
    if pieces[last].as_str().unicode_len() > 0 {
        let ghost before = texts(r@);
        r.push(pieces[last].clone());
        assert(texts(r@) =~= before.push(all.last()));
    }
    r
}

fn digit_text(d: u64) -> (r: &'static str)
    requires
        d < 10,
    ensures
        r@ == seq![digit(d as nat)],
{
    proof {
        reveal_strlit("0");
        reveal_strlit("1");
        reveal_strlit("2");
        reveal_strlit("3");
        reveal_strlit("4");
        reveal_strlit("5");
        reveal_strlit("6");
        reveal_strlit("7");
        reveal_strlit("8");
        reveal_strlit("9");
    }
    if d == 0 {
        "0"
    } else if d == 1 {
        "1"
    } else if d == 2 {
        "2"
    } else if d == 3 {
        "3"
    } else if d == 4 {
        "4"
    } else if d == 5 {
        "5"
    } else if d == 6 {
        "6"
    } else if d == 7 {
        "7"
    } else if d == 8 {
        "8"
    } else {
        "9"
    }
}

/// The decimal form of `n`.
pub fn decimal_of(n: u64) -> (r: String)
    ensures
        r@ == decimal(n as nat),
    decreases n,
{
    if n < 10 {
        digit_text(n).to_owned()
    } else {
        let mut r = decimal_of(n / 10);
        r.append(digit_text(n % 10));
        assert(r@ =~= decimal(n as nat));
        r
    }
}

} // verus!
