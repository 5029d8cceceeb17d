use vstd::prelude::*;
use vstd::string::StringSliceAdditionalSpecFns;
use vstd::utf8::{encode_scalar, encode_utf8};

verus! {

/// Score of a match before the span is taken off.
pub const BASE_SCORE: i32 = 100;

/// Added when the match starts at the first character of the target.
pub const PREFIX_BONUS: i32 = 50;

/// The longest target, in bytes of UTF-8, whose every span can be scored.
pub const MAX_TARGET_LEN: usize = 0x7fff_ffff;

/// What scoring one candidate label against one query gives.
#[derive(Debug)]
pub struct MatchResult {
    pub score: i32,
    /// Where the matched characters start in the UTF-8 text of the lower-case
    /// target, in rising order. In ASCII text this is the number of the
    /// character.
    pub indices: Vec<usize>,
}

/// The mathematical content of a `MatchResult`.
pub struct MatchView {
    pub score: int,
    pub indices: Seq<int>,
}

impl View for MatchResult {
    type V = MatchView;

    open spec fn view(&self) -> MatchView {
        MatchView { score: self.score as int, indices: self.indices@.map_values(|i: usize| i as int) }
    }
}

impl Default for MatchResult {
    /// The result that stands for "no match".
    fn default() -> (none: Self)
        ensures
            none@ == no_match(),
    {
        let none = MatchResult { score: 0, indices: Vec::new() };
        assert(none@.indices =~= Seq::<int>::empty());
        none
    }
}

/// The result that stands for "no match": score zero, no positions.
pub open spec fn no_match() -> MatchView {
    MatchView { score: 0, indices: Seq::empty() }
}

/// The first position at or after `from` at which `c` stands in `t`, or the
/// length of `t` where there is none.
pub open spec fn first_at_or_after(t: Seq<char>, c: char, from: int) -> int
    decreases t.len() - from,
{
    if from >= t.len() {
        t.len() as int
    } else if t[from] == c {
        from
    } else {
        first_at_or_after(t, c, from + 1)
    }
}

/// The leftmost embedding of `q[k..]` into `t[from..]`: each character of the
/// query takes its first occurrence behind the one before it. `None` where
/// some character is not found before the target ends.
pub open spec fn leftmost_from(t: Seq<char>, q: Seq<char>, k: int, from: int) -> Option<Seq<int>>
    decreases q.len() - k,
{
    if k >= q.len() {
        Some(Seq::empty())
    } else {
        let p = first_at_or_after(t, q[k], from);
        if p >= t.len() {
            None
        } else {
            match leftmost_from(t, q, k + 1, p + 1) {
                Some(rest) => Some(seq![p] + rest),
                None => None,
            }
        }
    }
}

/// The number of bytes that a character takes in UTF-8.
pub open spec fn utf8_len(c: char) -> int {
    if (c as u32) < 0x80 {
        1
    } else if (c as u32) < 0x800 {
        2
    } else if (c as u32) < 0x1_0000 {
        3
    } else {
        4
    }
}

/// Where the character `i` of `t` starts in the UTF-8 text of `t`: behind the
/// bytes of the characters before it.
pub open spec fn byte_offset(t: Seq<char>, i: int) -> int
    decreases i,
{
    if i <= 0 {
        0
    } else {
        byte_offset(t, i - 1) + utf8_len(t[i - 1])
    }
}

/// The length of the UTF-8 text of `t`.
pub open spec fn byte_len(t: Seq<char>) -> int {
    byte_offset(t, t.len() as int)
}

/// Where the characters at the places `p` start in the UTF-8 text of `t`.
pub open spec fn offsets(t: Seq<char>, p: Seq<int>) -> Seq<int> {
    Seq::new(p.len(), |k: int| byte_offset(t, p[k]))
}

/// The score of a match at the positions `at`, which are not empty: the
/// base, less the span from the first to the last position, plus the bonus
/// where the match starts the target.
pub open spec fn score_of(at: Seq<int>) -> int {
    BASE_SCORE - (at.last() - at[0] + 1) + if at[0] == 0 {
        PREFIX_BONUS as int
    } else {
        0
    }
}

/// What matching the query `q` against the target `t` gives, both already in
/// lower case: no match for an empty query or one that is no subsequence of
/// the target, else the positions of the leftmost embedding with their score.
pub open spec fn match_of(t: Seq<char>, q: Seq<char>) -> MatchView {
    if q.len() == 0 {
        no_match()
    } else {
        match leftmost_from(t, q, 0, 0) {
            Some(p) => MatchView { score: score_of(offsets(t, p)), indices: offsets(t, p) },
            None => no_match(),
        }
    }
}

/// The lower-case form of a string, as `str::to_lowercase` of the standard
/// library computes it from the Unicode tables.
pub uninterp spec fn lowercase(s: Seq<char>) -> Seq<char>;

/// Calls `str::to_lowercase`. Trusted: the result is the lower-case form of
/// the argument, a function of its characters alone.
#[verifier::external_body]
fn to_lowercase(s: &str) -> (lower: String)
    ensures
        lower@ == lowercase(s@),
{
    s.to_lowercase()
}

/// The characters of a string, in order.
fn chars_of(s: &str) -> (v: Vec<char>)
    ensures
        v@ == s@,
{
    let mut v: Vec<char> = Vec::new();
    for c in it: s.chars()
        invariant
            it.seq() == s@,
            v@ == it.seq().take(it.index() as int),
    {
        v.push(c);
        assert(v@ =~= it.seq().take(it.index() + 1));
    }
    assert(v@ =~= s@);
    v
}

/// The positions in `found`, followed by what the rest of the search gives.
spec fn continued(found: Seq<int>, rest: Option<Seq<int>>) -> Option<Seq<int>> {
    match rest {
        Some(r) => Some(found + r),
        None => None,
    }
}

/// The offsets rise with the places, by one byte or more for each character.
pub proof fn lemma_byte_offset_rises(t: Seq<char>, i: int, j: int)
    requires
        0 <= i <= j,
    ensures
        byte_offset(t, i) + (j - i) <= byte_offset(t, j),
        0 <= byte_offset(t, i),
    decreases j,
{
    if i < j {
        lemma_byte_offset_rises(t, i, j - 1);
    } else if i > 0 {
        lemma_byte_offset_rises(t, i - 1, i - 1);
    }
}

/// The number of bytes that a character takes in UTF-8.
pub fn utf8_len_of(c: char) -> (n: usize)
    ensures
        n == utf8_len(c),
        1 <= n <= 4,
{
    let v = c as u32;
    if v < 0x80 {
        1
    } else if v < 0x800 {
        2
    } else if v < 0x1_0000 {
        3
    } else {
        4
    }
}

/// A character takes as many bytes as its encoding has.
pub proof fn law_utf8_len_is_encoded_len(c: char)
    ensures
        utf8_len(c) == encode_scalar(c as u32).len(),
{
}

/// The characters of `t` from `i` on take the bytes that lie behind the
/// offset of `i`.
proof fn lemma_encoded_tail(t: Seq<char>, i: int)
    requires
        0 <= i <= t.len(),
    ensures
        encode_utf8(t.subrange(i, t.len() as int)).len() == byte_len(t) - byte_offset(t, i),
    decreases t.len() - i,
{
    let tail = t.subrange(i, t.len() as int);
    if i < t.len() {
        lemma_encoded_tail(t, i + 1);
        law_utf8_len_is_encoded_len(t[i]);
        assert(tail[0] == t[i]);
        assert(tail.drop_first() =~= t.subrange(i + 1, t.len() as int));
    }
}

/// The length that the offsets give a text is the length of its UTF-8
/// encoding: the length in bytes of a string that holds it.
pub proof fn law_byte_len_is_utf8_len(t: Seq<char>)
    ensures
        byte_len(t) == encode_utf8(t).len(),
{
    lemma_encoded_tail(t, 0);
    assert(t.subrange(0, t.len() as int) =~= t);
}

/// The offset of a place depends on the characters before it alone.
proof fn lemma_byte_offset_of_prefix(t: Seq<char>, i: int, k: int)
    requires
        0 <= k <= i <= t.len(),
    ensures
        byte_offset(t.take(i), k) == byte_offset(t, k),
    decreases k,
{
    if k > 0 {
        lemma_byte_offset_of_prefix(t, i, k - 1);
    }
}

/// The offset of a place is the length of the UTF-8 encoding of the
/// characters before it.
pub proof fn law_byte_offset_is_utf8_offset(t: Seq<char>, i: int)
    requires
        0 <= i <= t.len(),
    ensures
        byte_offset(t, i) == encode_utf8(t.take(i)).len(),
{
    lemma_byte_offset_of_prefix(t, i, i);
    law_byte_len_is_utf8_len(t.take(i));
}

/// Scores the query against the target, both as sequences of characters in
/// lower case.
fn score_chars(t: &Vec<char>, q: &Vec<char>) -> (result: MatchResult)
    requires
        byte_len(t@) <= MAX_TARGET_LEN,
    ensures
        result@ == match_of(t@, q@),
{
    if q.len() == 0 {
        return MatchResult::default();
    }
    let mut indices: Vec<usize> = Vec::new();
    let ghost mut found: Seq<int> = Seq::empty();
    let mut ti: usize = 0;
    let mut at: usize = 0;
    let mut qi: usize = 0;
    assert(found + leftmost_from(t@, q@, 0, 0)->0 =~= leftmost_from(t@, q@, 0, 0)->0);
    while qi < q.len()
        invariant
            byte_len(t@) <= MAX_TARGET_LEN,
            qi <= q.len(),
            ti <= t.len(),
            at == byte_offset(t@, ti as int),
            indices@.len() == qi,
            found.len() == qi,
            forall|j: int|
                0 <= j < indices@.len() ==> indices@[j] == byte_offset(t@, #[trigger] found[j]),
            forall|j: int| 0 <= j < indices@.len() ==> indices@[0] <= #[trigger] indices@[j] < at,
            leftmost_from(t@, q@, 0, 0) == continued(
                found,
                leftmost_from(t@, q@, qi as int, ti as int),
            ),
        decreases q.len() - qi,
    {
        let c = q[qi];
        let ghost start = ti;
        while ti < t.len() && t[ti] != c
            invariant
                byte_len(t@) <= MAX_TARGET_LEN,
                ti <= t.len(),
                start <= ti,
                at == byte_offset(t@, ti as int),
                forall|j: int| 0 <= j < indices@.len() ==> #[trigger] indices@[j] < at,
                first_at_or_after(t@, c, start as int) == first_at_or_after(t@, c, ti as int),
            decreases t.len() - ti,
        {
            proof {
                lemma_byte_offset_rises(t@, ti + 1, t@.len() as int);
            }
            at += utf8_len_of(t[ti]);
            ti += 1;
        }
        if ti >= t.len() {
            assert(leftmost_from(t@, q@, qi as int, start as int) is None);
            return MatchResult::default();
        }
        proof {
            let ghost rest = leftmost_from(t@, q@, qi + 1, ti + 1);
            if rest is Some {
                assert(found + (seq![ti as int] + rest->0) =~= found.push(ti as int) + rest->0);
            }
            lemma_byte_offset_rises(t@, ti + 1, t@.len() as int);
            found = found.push(ti as int);
        }
        indices.push(at);
        at += utf8_len_of(t[ti]);
        ti += 1;
        qi += 1;
    }
    assert(leftmost_from(t@, q@, 0, 0) == Some(found)) by {
        assert(found + Seq::<int>::empty() =~= found);
    }
    let ghost places = offsets(t@, found);
    assert(indices@.map_values(|i: usize| i as int) =~= places);
    proof {
        lemma_byte_offset_rises(t@, ti as int, t@.len() as int);
    }
    let first = indices[0];
    let last = indices[indices.len() - 1];
    assert(places[0] == first && places.last() == last);
    let span = last - first + 1;
    let bonus: i32 = if first == 0 {
        PREFIX_BONUS
    } else {
        0
    };
    let score: i32 = BASE_SCORE - (span as i32) + bonus;
    MatchResult { score, indices }
}

/// Whether `target` is short enough for `score_lowered`.
pub fn scorable(target: &str) -> (short: bool)
    ensures
        short == (byte_len(target@) <= MAX_TARGET_LEN),
{
    proof {
        law_byte_len_is_utf8_len(target@);
    }
    target.as_bytes().len() <= MAX_TARGET_LEN
}

/// The UTF-8 text of `t` has at most four bytes for each character.
pub proof fn law_byte_offset_bound(t: Seq<char>, i: int)
    requires
        0 <= i,
    ensures
        byte_offset(t, i) <= 4 * i,
    decreases i,
{
    if i > 0 {
        law_byte_offset_bound(t, i - 1);
    }
}

/// Scores the query against the target, both already in lower case.
///
/// Every character of the query must occur in the target, in order; each
/// takes the first occurrence behind the one before it. The result is
/// `match_of`. The UTF-8 text of the target must not be longer than
/// `MAX_TARGET_LEN`, so that the score of every span fits.
pub fn score_lowered(target: &str, query: &str) -> (result: MatchResult)
    requires
        byte_len(target@) <= MAX_TARGET_LEN,
    ensures
        result@ == match_of(target@, query@),
{
    let t = chars_of(target);
    let q = chars_of(query);
    score_chars(&t, &q)
}

/// Scores `target` against `query` without regard to case, where the
/// lower-case form of the target is short enough to score: `None` exactly
/// where the query is not empty and that form is longer than
/// `MAX_TARGET_LEN`.
pub fn try_score(target: &String, query: &String) -> (result: Option<MatchResult>)
    ensures
        result is None <==> query@.len() > 0 && byte_len(lowercase(target@)) > MAX_TARGET_LEN,
        match result {
            Some(r) => r@ == if query@.len() == 0 {
                no_match()
            } else {
                match_of(lowercase(target@), lowercase(query@))
            },
            None => true,
        },
{
    if query.as_str().is_empty() {
        return Some(MatchResult::default());
    }
    let target_lower = to_lowercase(target.as_str());
    let query_lower = to_lowercase(query.as_str());
    if !scorable(target_lower.as_str()) {
        return None;
    }
    Some(score_lowered(target_lower.as_str(), query_lower.as_str()))
}

/// Matches after lowering both strings. An empty query matches nothing, and
/// so does any query against a target whose lower-case form is too long to
/// score.
fn do_score_contains(target: &String, query: &String) -> (result: MatchResult)
    ensures
        result@ == if query@.len() == 0 || byte_len(lowercase(target@)) > MAX_TARGET_LEN {
            no_match()
        } else {
            match_of(lowercase(target@), lowercase(query@))
        },
{
    match try_score(target, query) {
        Some(result) => result,
        None => MatchResult::default(),
    }
}

/// Scores the candidate label `target` against the text `query` that the user
/// typed, without regard to case.
pub fn get_score(target: &String, query: &String) -> (result: MatchResult)
    ensures
        result@ == if query@.len() == 0 || byte_len(lowercase(target@)) > MAX_TARGET_LEN {
            no_match()
        } else {
            match_of(lowercase(target@), lowercase(query@))
        },
{
    do_score_contains(target, query)
}

/// Whether the places `e` embed `q[k..]` into `t` from `from` on: one place
/// for each character, in rising order, each holding its character.
pub open spec fn embeds(t: Seq<char>, q: Seq<char>, k: int, from: int, e: Seq<int>) -> bool {
    &&& e.len() == q.len() - k
    &&& forall|i: int| 0 <= i < e.len() ==> from <= #[trigger] e[i] < t.len()
    &&& forall|i: int| 0 <= i < e.len() ==> t[#[trigger] e[i]] == q[k + i]
    &&& forall|i: int, j: int| 0 <= i < j < e.len() ==> #[trigger] e[i] < #[trigger] e[j]
}

/// The first occurrence at or after `from` is an occurrence, and none stands
/// between `from` and it.
pub proof fn lemma_first_at_or_after(t: Seq<char>, c: char, from: int)
    requires
        0 <= from <= t.len(),
    ensures
        from <= first_at_or_after(t, c, from) <= t.len(),
        first_at_or_after(t, c, from) < t.len() ==> t[first_at_or_after(t, c, from)] == c,
        forall|j: int| from <= j < first_at_or_after(t, c, from) ==> t[j] != c,
    decreases t.len() - from,
{
    if from < t.len() && t[from] != c {
        lemma_first_at_or_after(t, c, from + 1);
    }
}

/// What the leftmost search finds is an embedding of the query.
pub proof fn law_leftmost_embeds(t: Seq<char>, q: Seq<char>, k: int, from: int)
    requires
        0 <= k <= q.len(),
        0 <= from <= t.len(),
    ensures
        match leftmost_from(t, q, k, from) {
            Some(p) => embeds(t, q, k, from, p),
            None => true,
        },
    decreases q.len() - k,
{
    if k < q.len() {
        let first = first_at_or_after(t, q[k], from);
        lemma_first_at_or_after(t, q[k], from);
        if first < t.len() {
            law_leftmost_embeds(t, q, k + 1, first + 1);
            match leftmost_from(t, q, k + 1, first + 1) {
                Some(rest) => {
                    let p = seq![first] + rest;
                    assert forall|i: int| 0 <= i < p.len() implies from <= #[trigger] p[i]
                        < t.len() && t[p[i]] == q[k + i] by {
                        if i > 0 {
                            assert(p[i] == rest[i - 1]);
                        }
                    }
                    assert forall|i: int, j: int| 0 <= i < j < p.len() implies #[trigger] p[i]
                        < #[trigger] p[j] by {
                        assert(p[j] == rest[j - 1]);
                        if i > 0 {
                            assert(p[i] == rest[i - 1]);
                        }
                    }
                },
                None => {},
            }
        }
    }
}

/// Where the query can be embedded at all, the leftmost search finds an
/// embedding, and no place of it lies behind the same place of the other.
pub proof fn law_leftmost_finds(t: Seq<char>, q: Seq<char>, k: int, from: int, e: Seq<int>)
    requires
        0 <= k <= q.len(),
        0 <= from <= t.len(),
        embeds(t, q, k, from, e),
    ensures
        leftmost_from(t, q, k, from) is Some,
        forall|i: int| 0 <= i < e.len() ==> leftmost_from(t, q, k, from)->0[i] <= #[trigger] e[i],
    decreases q.len() - k,
{
    if k < q.len() {
        let first = first_at_or_after(t, q[k], from);
        lemma_first_at_or_after(t, q[k], from);
        assert(t[e[0]] == q[k + 0]);
        assert(first <= e[0]);
        let tail = e.subrange(1, e.len() as int);
        assert forall|i: int| 0 <= i < tail.len() implies first + 1 <= #[trigger] tail[i]
            < t.len() && t[tail[i]] == q[k + 1 + i] by {
            assert(tail[i] == e[i + 1]);
            assert(e[0] < e[i + 1]);
            assert(t[e[i + 1]] == q[k + (i + 1)]);
        }
        assert forall|i: int, j: int| 0 <= i < j < tail.len() implies #[trigger] tail[i]
            < #[trigger] tail[j] by {
            assert(tail[i] == e[i + 1] && tail[j] == e[j + 1]);
        }
        law_leftmost_finds(t, q, k + 1, first + 1, tail);
        law_leftmost_embeds(t, q, k + 1, first + 1);
        let rest = leftmost_from(t, q, k + 1, first + 1)->0;
        let p = seq![first] + rest;
        assert forall|i: int| 0 <= i < e.len() implies p[i] <= #[trigger] e[i] by {
            if i > 0 {
                assert(p[i] == rest[i - 1]);
                assert(tail[i - 1] == e[i]);
                assert(rest[i - 1] <= tail[i - 1]);
            }
        }
    }
}

/// A query matches exactly where it is not empty and its characters stand in
/// the target in order; the positions reported are then those of an
/// embedding.
pub proof fn law_match_is_subsequence(t: Seq<char>, q: Seq<char>)
    ensures
        q.len() > 0 ==> (leftmost_from(t, q, 0, 0) is Some <==> exists|e: Seq<int>|
            embeds(t, q, 0, 0, e)),
        q.len() > 0 && leftmost_from(t, q, 0, 0) is Some ==> match_of(t, q).indices == offsets(
            t,
            leftmost_from(t, q, 0, 0)->0,
        ) && embeds(t, q, 0, 0, leftmost_from(t, q, 0, 0)->0),
        q.len() == 0 || leftmost_from(t, q, 0, 0) is None ==> match_of(t, q) == no_match(),
{
    law_leftmost_embeds(t, q, 0, 0);
    if q.len() > 0 {
        if leftmost_from(t, q, 0, 0) is Some {
            assert(embeds(t, q, 0, 0, leftmost_from(t, q, 0, 0)->0));
        }
        if exists|e: Seq<int>| embeds(t, q, 0, 0, e) {
            let e = choose|e: Seq<int>| embeds(t, q, 0, 0, e);
            law_leftmost_finds(t, q, 0, 0, e);
        }
    }
}

/// Of two matches with the same span, the one that starts the target scores
/// higher by the bonus; of two that start alike, the tighter scores higher.
pub proof fn law_score_order(a: Seq<int>, b: Seq<int>)
    requires
        a.len() > 0,
        b.len() > 0,
    ensures
        a.last() - a[0] == b.last() - b[0] && a[0] == 0 && b[0] != 0 ==> score_of(a) == score_of(
            b,
        ) + PREFIX_BONUS,
        (a[0] == 0) == (b[0] == 0) && a.last() - a[0] < b.last() - b[0] ==> score_of(a)
            > score_of(b),
{
}

} // verus!
