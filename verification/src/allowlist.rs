//! Target allow-list for the WebSocket-to-TCP bridge.
//!
//! The bridge forwards bytes only to targets named in a comma-separated
//! allow-list; requested targets come in as a `target` query parameter.
//! The list parsing and the membership decision live here; reading the
//! configuration and the sockets stay with the caller.

use vstd::prelude::*;

use crate::strutil::str_eq;

verus! {

/// Whitespace that trimming removes.
pub open spec fn is_space(c: char) -> bool {
    c == ' ' || c == '\t' || c == '\n' || c == '\r'
}

/// How many leading whitespace characters the text has.
pub open spec fn leading_spaces(s: Seq<char>) -> int
    decreases s.len(),
{
    if s.len() == 0 {
        0
    } else if !is_space(s[0]) {
        0
    } else {
        1 + leading_spaces(s.drop_first())
    }
}

/// How many trailing whitespace characters the text has.
pub open spec fn trailing_spaces(s: Seq<char>) -> int
    decreases s.len(),
{
    if s.len() == 0 {
        0
    } else if !is_space(s.last()) {
        0
    } else {
        1 + trailing_spaces(s.drop_last())
    }
}

/// The text with surrounding whitespace removed.
pub open spec fn trim_chars(s: Seq<char>) -> Seq<char> {
    if leading_spaces(s) >= s.len() - trailing_spaces(s) {
        Seq::empty()
    } else {
        s.subrange(leading_spaces(s), s.len() - trailing_spaces(s))
    }
}

/// Index of the first comma, or the length if there is none.
pub open spec fn first_comma(s: Seq<char>) -> int
    decreases s.len(),
{
    if s.len() == 0 {
        0
    } else if s[0] == ',' {
        0
    } else {
        1 + first_comma(s.drop_first())
    }
}

/// The comma-separated pieces of the text, in order, separators removed.
pub open spec fn split_commas(s: Seq<char>) -> Seq<Seq<char>>
    decreases s.len(),
{
    let i = first_comma(s);
    if i < 0 || i >= s.len() {
        seq![s]
    } else {
        seq![s.take(i)] + split_commas(s.skip(i + 1))
    }
}

/// Trim each piece and drop the empty ones, keeping order.
pub open spec fn collect_trimmed(pieces: Seq<Seq<char>>) -> Seq<Seq<char>>
    decreases pieces.len(),
{
    if pieces.len() == 0 {
        Seq::empty()
    } else {
        collect_trimmed(pieces.drop_last()) + (if trim_chars(pieces.last()).len() > 0 {
            seq![trim_chars(pieces.last())]
        } else {
            Seq::empty()
        })
    }
}

/// What an allow-list text denotes: its comma-separated entries, trimmed,
/// empty entries dropped.
pub open spec fn allowlist_of(s: Seq<char>) -> Seq<Seq<char>> {
    collect_trimmed(split_commas(s))
}

fn is_space_char(c: char) -> (r: bool)
    ensures
        r == is_space(c),
{
    c == ' ' || c == '\t' || c == '\n' || c == '\r'
}

proof fn lemma_leading_spaces_at(s: Seq<char>, k: int)
    requires
        0 <= k <= s.len(),
        forall|j: int| 0 <= j < k ==> is_space(#[trigger] s[j]),
        k == s.len() || !is_space(s[k]),
    ensures
        leading_spaces(s) == k,
    decreases k,
{
    if k > 0 {
        let rest = s.drop_first();
        assert forall|j: int| 0 <= j < k - 1 implies is_space(#[trigger] rest[j]) by {
            assert(rest[j] == s[j + 1]);
        }
        assert(k - 1 == rest.len() || !is_space(rest[k - 1]));
        lemma_leading_spaces_at(rest, k - 1);
    }
}

proof fn lemma_trailing_spaces_at(s: Seq<char>, k: int)
    requires
        0 <= k <= s.len(),
        forall|j: int| s.len() - k <= j < s.len() ==> is_space(#[trigger] s[j]),
        k == s.len() || !is_space(s[s.len() - k - 1]),
    ensures
        trailing_spaces(s) == k,
    decreases k,
{
    if k > 0 {
        let rest = s.drop_last();
        assert forall|j: int| rest.len() - (k - 1) <= j < rest.len() implies is_space(
            #[trigger] rest[j],
        ) by {
            assert(rest[j] == s[j]);
        }
        lemma_trailing_spaces_at(rest, k - 1);
    }
}

proof fn lemma_trailing_bounds(s: Seq<char>)
    ensures
        0 <= trailing_spaces(s) <= s.len(),
    decreases s.len(),
{
    if s.len() > 0 {
        lemma_trailing_bounds(s.drop_last());
    }
}

proof fn lemma_first_comma_at(s: Seq<char>, k: int)
    requires
        0 <= k <= s.len(),
        forall|j: int| 0 <= j < k ==> #[trigger] s[j] != ',',
        k == s.len() || s[k] == ',',
    ensures
        first_comma(s) == k,
    decreases k,
{
    if k > 0 {
        let rest = s.drop_first();
        assert forall|j: int| 0 <= j < k - 1 implies #[trigger] rest[j] != ',' by {
            assert(rest[j] == s[j + 1]);
        }
        assert(k - 1 == rest.len() || rest[k - 1] == ',');
        lemma_first_comma_at(rest, k - 1);
    }
}

/// Trim surrounding whitespace.
pub fn trim_str(s: &str) -> (r: String)
    ensures
        r@ == trim_chars(s@),
{
    let n = s.unicode_len();
    let mut from: usize = 0;
    while from < n && is_space_char(s.get_char(from))
        invariant
            n == s@.len(),
            from <= n,
            forall|j: int| 0 <= j < from ==> is_space(#[trigger] s@[j]),
        decreases n - from,
    {
        from = from + 1;
    }
    proof {
        lemma_leading_spaces_at(s@, from as int);
    }
    let mut to: usize = n;
    while to > from && is_space_char(s.get_char(to - 1))
        invariant
            n == s@.len(),
            from <= to <= n,
            forall|j: int| 0 <= j < from ==> is_space(#[trigger] s@[j]),
            leading_spaces(s@) == from,
            forall|j: int| to <= j < n ==> is_space(#[trigger] s@[j]),
        decreases to,
    {
        to = to - 1;
    }
    if to == from {
        proof {
            assert(from == n);
            lemma_trailing_bounds(s@);
            assert(trim_chars(s@) =~= Seq::<char>::empty());
        }
        return String::new();
    }
    proof {
        lemma_trailing_spaces_at(s@, n - to as int);
    }
    let piece = s.substring_char(from, to);
    piece.to_owned()
}

fn split_commas_str(s: &str) -> (r: Vec<String>)
    ensures
        r@.len() == split_commas(s@).len(),
        forall|i: int| 0 <= i < r@.len() ==> (#[trigger] r@[i])@ == split_commas(s@)[i],
    decreases s@.len(),
{
    let n = s.unicode_len();
    let mut i: usize = 0;
    while i < n && s.get_char(i) != ','
        invariant
            n == s@.len(),
            i <= n,
            forall|j: int| 0 <= j < i ==> #[trigger] s@[j] != ',',
        decreases n - i,
    {
        i = i + 1;
    }
    proof {
        lemma_first_comma_at(s@, i as int);
    }
    if i >= n {
        let mut out: Vec<String> = Vec::new();
        out.push(s.to_owned());
        return out;
    }
    let head = s.substring_char(0, i);
    let rest = s.substring_char(i + 1, n);
    let tail = split_commas_str(rest);
    let mut out: Vec<String> = Vec::new();
    out.push(head.to_owned());
    let mut k: usize = 0;
    while k < tail.len()
        invariant
            k <= tail@.len(),
            out@.len() == k + 1,
            out@[0]@ == s@.take(first_comma(s@)),
            forall|j: int| 0 <= j < tail@.len() ==> (#[trigger] tail@[j])@ == split_commas(
                s@.skip(first_comma(s@) + 1),
            )[j],
            forall|j: int| 1 <= j < out@.len() ==> (#[trigger] out@[j])@ == split_commas(
                s@.skip(first_comma(s@) + 1),
            )[j - 1],
        decreases tail@.len() - k,
    {
        out.push(tail[k].clone());
        k = k + 1;
    }
    proof {
        assert(split_commas(s@) == seq![s@.take(first_comma(s@))] + split_commas(
            s@.skip(first_comma(s@) + 1),
        ));
    }
    out
}

/// Parse a comma-separated allow-list: entries are trimmed, empty entries
/// dropped, order and duplicates kept.
pub fn parse_allowlist(text: &str) -> (r: Vec<String>)
    ensures
        r@.len() == allowlist_of(text@).len(),
        forall|i: int| 0 <= i < r@.len() ==> (#[trigger] r@[i])@ == allowlist_of(text@)[i],
{
    let pieces = split_commas_str(text);
    let ghost sp = split_commas(text@);
    let mut out: Vec<String> = Vec::new();
    let mut i: usize = 0;
    while i < pieces.len()
        invariant
            i <= pieces@.len(),
            sp == split_commas(text@),
            sp.len() == pieces@.len(),
            forall|j: int| 0 <= j < pieces@.len() ==> (#[trigger] pieces@[j])@ == sp[j],
            out@.len() == collect_trimmed(sp.take(i as int)).len(),
            forall|j: int| 0 <= j < out@.len() ==> (#[trigger] out@[j])@ == collect_trimmed(
                sp.take(i as int),
            )[j],
        decreases pieces@.len() - i,
    {
        let t = trim_str(pieces[i].as_str());
        proof {
            let pre = sp.take(i as int);
            let now = sp.take(i + 1);
            assert(now.drop_last() =~= pre);
            assert(now.last() == sp[i as int]);
        }
        if t.unicode_len() > 0 {
            out.push(t);
        }
        i = i + 1;
    }
    proof {
        assert(sp.take(sp.len() as int) =~= sp);
    }
    out
}

/// A target is allowed exactly when the allow-list names it.
pub fn is_target_allowed(target: &str, allowlist: &Vec<String>) -> (r: bool)
    ensures
        r == exists|i: int| 0 <= i < allowlist@.len() && (#[trigger] allowlist@[i])@ == target@,
{
    let mut i: usize = 0;
    while i < allowlist.len()
        invariant
            i <= allowlist@.len(),
            forall|j: int| 0 <= j < i ==> (#[trigger] allowlist@[j])@ != target@,
        decreases allowlist@.len() - i,
    {
        if str_eq(allowlist[i].as_str(), target) {
            return true;
        }
        i = i + 1;
    }
    false
}

/// What `url::form_urlencoded::parse` finds in a query string: the decoded
/// key/value pairs, in order.
pub uninterp spec fn form_pairs_of(query: Seq<char>) -> Seq<(Seq<char>, Seq<char>)>;

/// Relies on `url::form_urlencoded::parse`: the query's decoded key/value
/// pairs, in order.
#[verifier::external_body]
fn form_pairs(query: &str) -> (r: Vec<(String, String)>)
    ensures
        r.deep_view() == form_pairs_of(query@),
{
    url::form_urlencoded::parse(query.as_bytes()).map(
        |(k, v)| (k.into_owned(), v.into_owned()),
    ).collect()
}

/// The first `target` value among the decoded pairs.
pub open spec fn target_of(pairs: Seq<(Seq<char>, Seq<char>)>) -> Option<Seq<char>>
    decreases pairs.len(),
{
    if pairs.len() == 0 {
        None
    } else if pairs[0].0 == "target"@ {
        Some(pairs[0].1)
    } else {
        target_of(pairs.drop_first())
    }
}

/// The requested forwarding target, from the WebSocket request's query
/// string: the first `target` parameter, if any.
pub fn extract_target(query: &str) -> (r: Option<String>)
    ensures
        match r {
            Some(t) => target_of(form_pairs_of(query@)) == Some(t@),
            None => target_of(form_pairs_of(query@)) is None,
        },
{
    let pairs = form_pairs(query);
    let ghost all = form_pairs_of(query@);
    proof {
        assert(all.skip(0) =~= all);
    }
    let mut i: usize = 0;
    while i < pairs.len()
        invariant
            i <= pairs@.len(),
            all == form_pairs_of(query@),
            all == pairs.deep_view(),
            all.len() == pairs@.len(),
            target_of(all) == target_of(all.skip(i as int)),
        decreases pairs@.len() - i,
    {
        proof {
            assert(all[i as int] == (pairs@[i as int].0@, pairs@[i as int].1@));
            assert(all.skip(i as int).len() == all.len() - i);
            assert(all.skip(i as int)[0] == all[i as int]);
            assert(all.skip(i as int).drop_first() =~= all.skip(i as int + 1));
        }
        if str_eq(pairs[i].0.as_str(), "target") {
            return Some(pairs[i].1.clone());
        }
        i = i + 1;
    }
    proof {
        assert(all.skip(all.len() as int).len() == 0);
    }
    None
}

} // verus!
