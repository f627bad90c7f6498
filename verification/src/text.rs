//! Character-level text helpers shared by the chat parser, the filters and
//! the speech pipeline. Every helper works on `char` sequences and is
//! specified over `Seq<char>`, the view of `str` and `String`.

use vstd::prelude::*;
use vstd::std_specs::iter::IteratorSpec;

verus! {

/// `String::push` appends one character.
pub assume_specification[ String::push ](s: &mut String, ch: char)
    ensures
        final(s)@ == old(s)@.push(ch),
;

/// Unicode `White_Space`, the property behind `char::is_whitespace`.
pub open spec fn is_ws(c: char) -> bool {
    let n = c as u32;
    ||| 9 <= n <= 13
    ||| n == 32
    ||| n == 0x85
    ||| n == 0xA0
    ||| n == 0x1680
    ||| 0x2000 <= n <= 0x200A
    ||| n == 0x2028
    ||| n == 0x2029
    ||| n == 0x202F
    ||| n == 0x205F
    ||| n == 0x3000
}

/// Same answer as `char::is_whitespace`.
pub fn is_whitespace(c: char) -> (b: bool)
    ensures
        b == is_ws(c),
{
    let n = c as u32;
    (9 <= n && n <= 13) || n == 32 || n == 0x85 || n == 0xA0 || n == 0x1680 || (0x2000 <= n
        && n <= 0x200A) || n == 0x2028 || n == 0x2029 || n == 0x202F || n == 0x205F || n == 0x3000
}

/// The characters of each string of a list.
pub open spec fn strings_view(v: Seq<String>) -> Seq<Seq<char>> {
    v.map_values(|p: String| p@)
}

/// The characters of each side of a list of string pairs.
pub open spec fn pairs_view(v: Seq<(String, String)>) -> Seq<(Seq<char>, Seq<char>)> {
    v.map_values(|p: (String, String)| (p.0@, p.1@))
}

/// Value paired with `key` in its last occurrence.
pub open spec fn lookup_last(pairs: Seq<(Seq<char>, Seq<char>)>, key: Seq<char>) -> Option<Seq<char>>
    decreases pairs.len(),
{
    if pairs.len() == 0 {
        None
    } else if pairs.last().0 == key {
        Some(pairs.last().1)
    } else {
        lookup_last(pairs.drop_last(), key)
    }
}

/// Value paired with `key` in its last occurrence among `pairs`.
pub fn find_last_value<'a>(pairs: &'a Vec<(String, String)>, key: &str) -> (r: Option<&'a String>)
    ensures
        match r {
            Some(v) => lookup_last(pairs_view(pairs@), key@) == Some(v@),
            None => lookup_last(pairs_view(pairs@), key@) is None,
        },
{
    let owned_key = key.to_owned();
    let ghost tv = pairs_view(pairs@);
    let mut i = pairs.len();
    assert(tv.subrange(0, i as int) =~= tv);
    while i > 0
        invariant
            i <= pairs@.len(),
            tv == pairs_view(pairs@),
            owned_key@ == key@,
            lookup_last(tv, key@) == lookup_last(tv.subrange(0, i as int), key@),
        decreases i,
    {
        let ghost sub = tv.subrange(0, i as int);
        assert(sub.drop_last() =~= tv.subrange(0, i - 1));
        assert(sub.last() == tv[i - 1]);
        if pairs[i - 1].0 == owned_key {
            return Some(&pairs[i - 1].1);
        }
        i = i - 1;
    }
    assert(tv.subrange(0, 0) =~= Seq::<(Seq<char>, Seq<char>)>::empty());
    None
}

/// The characters of a string slice, in order.
pub fn chars_of(s: &str) -> (v: Vec<char>)
    ensures
        v@ == s@,
{
    let mut v: Vec<char> = Vec::new();
    for c in iter: s.chars()
        invariant
            v@ == iter.seq().take(iter.index() as int),
    {
        v.push(c);
    }
    assert(v@ =~= s@);
    v
}

/// Builds an owned string from a run of characters.
pub fn string_from_chars(cs: &[char]) -> (s: String)
    ensures
        s@ == cs@,
{
    let mut s = String::new();
    let mut i: usize = 0;
    while i < cs.len()
        invariant
            i <= cs@.len(),
            s@ == cs@.subrange(0, i as int),
        decreases cs@.len() - i,
    {
        s.push(cs[i]);
        i = i + 1;
        assert(s@ =~= cs@.subrange(0, i as int));
    }
    assert(cs@.subrange(0, cs@.len() as int) =~= cs@);
    s
}

/// Appends a run of characters to a string.
pub fn push_chars(s: &mut String, cs: &[char])
    ensures
        final(s)@ == old(s)@ + cs@,
{
    let mut i: usize = 0;
    while i < cs.len()
        invariant
            i <= cs@.len(),
            s@ == old(s)@ + cs@.subrange(0, i as int),
        decreases cs@.len() - i,
    {
        s.push(cs[i]);
        i = i + 1;
        assert(s@ =~= old(s)@ + cs@.subrange(0, i as int));
    }
    assert(cs@.subrange(0, cs@.len() as int) =~= cs@);
}

/// Appends a string slice to a string.
pub fn push_str_chars(s: &mut String, t: &str)
    ensures
        final(s)@ == old(s)@ + t@,
{
    let cs = chars_of(t);
    push_chars(s, cs.as_slice());
}

// ---------------------------------------------------------------------------
// Prefixes, occurrences, substrings
// ---------------------------------------------------------------------------

pub open spec fn starts_with(s: Seq<char>, p: Seq<char>) -> bool {
    p.len() <= s.len() && s.subrange(0, p.len() as int) == p
}

pub fn has_prefix(s: &[char], p: &[char]) -> (b: bool)
    ensures
        b == starts_with(s@, p@),
{
    if p.len() > s.len() {
        return false;
    }
    let mut i: usize = 0;
    while i < p.len()
        invariant
            p@.len() <= s@.len(),
            i <= p@.len(),
            forall|j: int| 0 <= j < i ==> s@[j] == p@[j],
        decreases p@.len() - i,
    {
        if s[i] != p[i] {
            assert(s@.subrange(0, p@.len() as int)[i as int] != p@[i as int]);
            return false;
        }
        i = i + 1;
    }
    assert(s@.subrange(0, p@.len() as int) =~= p@);
    true
}

/// Equality of two runs of characters.
pub fn chars_eq(a: &[char], b: &[char]) -> (r: bool)
    ensures
        r == (a@ == b@),
{
    if a.len() != b.len() {
        return false;
    }
    let r = has_prefix(a, b);
    proof {
        if r {
            assert(a@ =~= a@.subrange(0, b@.len() as int));
        }
        if a@ == b@ {
            assert(a@.subrange(0, b@.len() as int) =~= b@);
        }
    }
    r
}

/// `needle` occurs in `hay` at position `i`.
pub open spec fn occurs_at(hay: Seq<char>, needle: Seq<char>, i: int) -> bool {
    0 <= i && i + needle.len() <= hay.len() && hay.subrange(i, i + needle.len()) == needle
}

/// `str::contains` with a string pattern.
pub open spec fn contains_seq(hay: Seq<char>, needle: Seq<char>) -> bool {
    exists|i: int| occurs_at(hay, needle, i)
}

/// `i` is the first position where `needle` occurs in `hay`.
pub open spec fn is_first_occurrence(hay: Seq<char>, needle: Seq<char>, i: int) -> bool {
    occurs_at(hay, needle, i) && forall|j: int| 0 <= j < i ==> !occurs_at(hay, needle, j)
}

/// Position of the first occurrence of `needle` in `hay`.
pub open spec fn first_occurrence(hay: Seq<char>, needle: Seq<char>) -> Option<int> {
    if exists|i: int| is_first_occurrence(hay, needle, i) {
        Some(choose|i: int| is_first_occurrence(hay, needle, i))
    } else {
        None
    }
}

pub proof fn lemma_first_occurrence_unique(hay: Seq<char>, needle: Seq<char>, i: int)
    requires
        is_first_occurrence(hay, needle, i),
    ensures
        first_occurrence(hay, needle) == Some(i),
{
    let k = choose|k: int| is_first_occurrence(hay, needle, k);
    assert(is_first_occurrence(hay, needle, k));
    if k < i {
        assert(!occurs_at(hay, needle, k));
    }
    if i < k {
        assert(!occurs_at(hay, needle, i));
    }
}

pub proof fn lemma_no_occurrence(hay: Seq<char>, needle: Seq<char>)
    requires
        forall|j: int| !occurs_at(hay, needle, j),
    ensures
        first_occurrence(hay, needle) == None::<int>,
        !contains_seq(hay, needle),
{
}

fn matches_at(hay: &[char], needle: &[char], i: usize) -> (b: bool)
    requires
        i <= hay@.len(),
    ensures
        b == occurs_at(hay@, needle@, i as int),
{
    if needle.len() > hay.len() - i {
        return false;
    }
    let mut k: usize = 0;
    while k < needle.len()
        invariant
            i + needle@.len() <= hay@.len(),
            hay@.len() <= usize::MAX,
            k <= needle@.len(),
            forall|j: int| 0 <= j < k ==> hay@[i + j] == needle@[j],
        decreases needle@.len() - k,
    {
        if hay[i + k] != needle[k] {
            assert(hay@.subrange(i as int, i + needle@.len())[k as int] != needle@[k as int]);
            return false;
        }
        k = k + 1;
    }
    assert(hay@.subrange(i as int, i + needle@.len()) =~= needle@);
    true
}

/// First position of `needle` in `hay`, as `str::find` with a string pattern.
pub fn find_seq(hay: &[char], needle: &[char]) -> (r: Option<usize>)
    ensures
        r matches Some(i) ==> first_occurrence(hay@, needle@) == Some(i as int),
        r is None ==> first_occurrence(hay@, needle@) == None::<int> && !contains_seq(
            hay@,
            needle@,
        ),
{
    let n = hay.len();
    let mut i: usize = 0;
    loop
        invariant
            n == hay@.len(),
            i <= n,
            forall|j: int| 0 <= j < i ==> !occurs_at(hay@, needle@, j),
        ensures
            i == n,
            forall|j: int| 0 <= j <= i ==> !occurs_at(hay@, needle@, j),
        decreases n - i,
    {
        if matches_at(hay, needle, i) {
            proof {
                lemma_first_occurrence_unique(hay@, needle@, i as int);
            }
            return Some(i);
        }
        if i == n {
            break;
        }
        i = i + 1;
    }
    proof {
        assert forall|j: int| !occurs_at(hay@, needle@, j) by {
            if 0 <= j <= i {
            } else if j > i {
                assert(j + needle@.len() > hay@.len());
            }
        }
        lemma_no_occurrence(hay@, needle@);
    }
    None
}

/// `str::contains` with a string pattern.
pub fn contains_chars(hay: &[char], needle: &[char]) -> (b: bool)
    ensures
        b == contains_seq(hay@, needle@),
{
    match find_seq(hay, needle) {
        Some(i) => {
            proof {
                let k = choose|k: int| is_first_occurrence(hay@, needle@, k);
                assert(occurs_at(hay@, needle@, k));
            }
            true
        },
        None => false,
    }
}

// ---------------------------------------------------------------------------
// Splitting on a single character
// ---------------------------------------------------------------------------

/// Position of the first `c` in `s`.
pub open spec fn first_index(s: Seq<char>, c: char) -> Option<int> {
    first_occurrence(s, seq![c])
}

pub proof fn lemma_occurs_single(s: Seq<char>, c: char, i: int)
    ensures
        occurs_at(s, seq![c], i) <==> (0 <= i < s.len() && s[i] == c),
{
    if 0 <= i < s.len() {
        if s[i] == c {
            assert(s.subrange(i, i + 1) =~= seq![c]);
        } else {
            assert(s.subrange(i, i + 1)[0] != seq![c][0]);
        }
    }
}

/// First position of the character `c` in `s`.
pub fn find_char(s: &[char], c: char) -> (r: Option<usize>)
    ensures
        r matches Some(i) ==> first_index(s@, c) == Some(i as int) && i < s@.len() && s@[i as int]
            == c,
        r is None ==> first_index(s@, c) == None::<int> && !s@.contains(c),
{
    let mut i: usize = 0;
    while i < s.len()
        invariant
            i <= s@.len(),
            forall|j: int| 0 <= j < i ==> s@[j] != c,
        decreases s@.len() - i,
    {
        if s[i] == c {
            proof {
                lemma_occurs_single(s@, c, i as int);
                assert forall|j: int| 0 <= j < i implies !occurs_at(s@, seq![c], j) by {
                    lemma_occurs_single(s@, c, j);
                }
                lemma_first_occurrence_unique(s@, seq![c], i as int);
            }
            return Some(i);
        }
        i = i + 1;
    }
    proof {
        assert forall|j: int| !occurs_at(s@, seq![c], j) by {
            lemma_occurs_single(s@, c, j);
        }
        lemma_no_occurrence(s@, seq![c]);
        assert forall|j: int| 0 <= j < s@.len() implies s@[j] != c by {}
    }
    None
}

/// `str::split_once` on a character: the parts before and after the first `c`.
pub open spec fn split_once(s: Seq<char>, c: char) -> Option<(Seq<char>, Seq<char>)> {
    match first_index(s, c) {
        Some(i) => Some((s.subrange(0, i), s.subrange(i + 1, s.len() as int))),
        None => None,
    }
}

pub fn split_once_char<'a>(s: &'a [char], c: char) -> (r: Option<(&'a [char], &'a [char])>)
    ensures
        match r {
            Some((a, b)) => split_once(s@, c) == Some((a@, b@)),
            None => split_once(s@, c) is None,
        },
{
    match find_char(s, c) {
        Some(i) => {
            let n = s.len();
            Some((&s[0..i], &s[i + 1..n]))
        },
        None => None,
    }
}

/// `str::split` on a character: every piece between separators, in order.
pub open spec fn split_pieces(s: Seq<char>, c: char) -> Seq<Seq<char>>
    decreases s.len(),
{
    match first_index(s, c) {
        Some(i) => if 0 <= i < s.len() {
            seq![s.subrange(0, i)] + split_pieces(s.subrange(i + 1, s.len() as int), c)
        } else {
            seq![s]
        },
        None => seq![s],
    }
}

pub proof fn lemma_first_index_bounds(s: Seq<char>, c: char)
    ensures
        first_index(s, c) matches Some(i) ==> 0 <= i < s.len() && s[i] == c,
{
    if first_index(s, c) is Some {
        let i = first_index(s, c)->0;
        assert(is_first_occurrence(s, seq![c], i));
        lemma_occurs_single(s, c, i);
    }
}

pub fn split_char<'a>(s: &'a [char], c: char) -> (r: Vec<&'a [char]>)
    ensures
        r@.map_values(|p: &[char]| p@) == split_pieces(s@, c),
    decreases s@.len(),
{
    match find_char(s, c) {
        Some(i) => {
            let first = &s[0..i];
            let n = s.len();
            let rest = &s[i + 1..n];
            let tail = split_char(rest, c);
            let mut r: Vec<&'a [char]> = Vec::new();
            r.push(first);
            let mut k: usize = 0;
            while k < tail.len()
                invariant
                    k <= tail@.len(),
                    r@.len() == k + 1,
                    r@[0]@ == first@,
                    forall|j: int| 0 <= j < k ==> r@[j + 1]@ == tail@[j]@,
                decreases tail@.len() - k,
            {
                r.push(tail[k]);
                k = k + 1;
            }
            proof {
                let tv = tail@.map_values(|p: &[char]| p@);
                assert(r@.map_values(|p: &[char]| p@) =~= seq![first@] + tv);
            }
            r
        },
        None => {
            let mut r: Vec<&'a [char]> = Vec::new();
            r.push(s);
            assert(r@.map_values(|p: &[char]| p@) =~= seq![s@]);
            r
        },
    }
}


fn prepend<'a>(first: &'a [char], tail: Vec<&'a [char]>) -> (r: Vec<&'a [char]>)
    ensures
        r@.map_values(|p: &[char]| p@) == seq![first@] + tail@.map_values(|p: &[char]| p@),
{
    let mut r: Vec<&'a [char]> = Vec::new();
    r.push(first);
    let mut k: usize = 0;
    while k < tail.len()
        invariant
            k <= tail@.len(),
            r@.len() == k + 1,
            r@[0]@ == first@,
            forall|j: int| 0 <= j < k ==> r@[j + 1]@ == tail@[j]@,
        decreases tail@.len() - k,
    {
        r.push(tail[k]);
        k = k + 1;
    }
    assert(r@.map_values(|p: &[char]| p@) =~= seq![first@] + tail@.map_values(|p: &[char]| p@));
    r
}

// ---------------------------------------------------------------------------
// Splitting on a string
// ---------------------------------------------------------------------------

pub proof fn lemma_first_occurrence_bounds(hay: Seq<char>, needle: Seq<char>)
    ensures
        first_occurrence(hay, needle) matches Some(i) ==> occurs_at(hay, needle, i),
{
    if first_occurrence(hay, needle) is Some {
        let i = first_occurrence(hay, needle)->0;
        assert(is_first_occurrence(hay, needle, i));
    }
}

/// `str::split` with a non-empty string pattern: the pieces between
/// non-overlapping separators, found from left to right.
pub open spec fn split_on_seq(s: Seq<char>, sep: Seq<char>) -> Seq<Seq<char>>
    decreases s.len(),
{
    match first_occurrence(s, sep) {
        Some(i) => if sep.len() > 0 && 0 <= i && i + sep.len() <= s.len() {
            seq![s.subrange(0, i)] + split_on_seq(s.subrange(i + sep.len(), s.len() as int), sep)
        } else {
            seq![s]
        },
        None => seq![s],
    }
}

pub fn split_str<'a>(s: &'a [char], sep: &[char]) -> (r: Vec<&'a [char]>)
    requires
        sep@.len() > 0,
    ensures
        r@.map_values(|p: &[char]| p@) == split_on_seq(s@, sep@),
    decreases s@.len(),
{
    proof {
        lemma_first_occurrence_bounds(s@, sep@);
    }
    match find_seq(s, sep) {
        Some(i) => {
            let first = &s[0..i];
            let n = s.len();
            let rest = &s[i + sep.len()..n];
            let tail = split_str(rest, sep);
            prepend(first, tail)
        },
        None => {
            let mut r: Vec<&'a [char]> = Vec::new();
            r.push(s);
            assert(r@.map_values(|p: &[char]| p@) =~= seq![s@]);
            r
        },
    }
}

// ---------------------------------------------------------------------------
// Runs of characters with a property: trimming and words
// ---------------------------------------------------------------------------

/// Length of the longest prefix of `s` whose characters all satisfy `p`.
pub open spec fn prefix_len(s: Seq<char>, p: spec_fn(char) -> bool) -> nat
    decreases s.len(),
{
    if s.len() > 0 && p(s[0]) {
        1 + prefix_len(s.drop_first(), p)
    } else {
        0
    }
}

/// Length of the longest suffix of `s` whose characters all satisfy `p`.
pub open spec fn suffix_len(s: Seq<char>, p: spec_fn(char) -> bool) -> nat
    decreases s.len(),
{
    if s.len() > 0 && p(s.last()) {
        1 + suffix_len(s.drop_last(), p)
    } else {
        0
    }
}

pub proof fn lemma_prefix_len(s: Seq<char>, p: spec_fn(char) -> bool, i: int)
    requires
        0 <= i <= s.len(),
        forall|j: int| 0 <= j < i ==> p(s[j]),
        i < s.len() ==> !p(s[i]),
    ensures
        prefix_len(s, p) == i,
    decreases i,
{
    if i > 0 {
        assert forall|j: int| 0 <= j < i - 1 implies p(s.drop_first()[j]) by {
            assert(s.drop_first()[j] == s[j + 1]);
        }
        lemma_prefix_len(s.drop_first(), p, i - 1);
    }
}

pub proof fn lemma_suffix_len(s: Seq<char>, p: spec_fn(char) -> bool, i: int)
    requires
        0 <= i <= s.len(),
        forall|j: int| s.len() - i <= j < s.len() ==> p(s[j]),
        i < s.len() ==> !p(s[s.len() - i - 1]),
    ensures
        suffix_len(s, p) == i,
    decreases i,
{
    if i > 0 {
        let t = s.drop_last();
        assert forall|j: int| t.len() - (i - 1) <= j < t.len() implies p(t[j]) by {
            assert(t[j] == s[j]);
        }
        if i - 1 < t.len() {
            assert(t[t.len() - (i - 1) - 1] == s[s.len() - i - 1]);
        }
        lemma_suffix_len(t, p, i - 1);
    }
}

pub open spec fn ws_pred() -> spec_fn(char) -> bool {
    |c: char| is_ws(c)
}

pub open spec fn non_ws_pred() -> spec_fn(char) -> bool {
    |c: char| !is_ws(c)
}

pub open spec fn crlf_pred() -> spec_fn(char) -> bool {
    |c: char| c == '\r' || c == '\n'
}

/// `str::trim_start`.
pub open spec fn trim_start(s: Seq<char>) -> Seq<char> {
    s.subrange(prefix_len(s, ws_pred()) as int, s.len() as int)
}

/// `str::trim_end`.
pub open spec fn trim_end(s: Seq<char>) -> Seq<char> {
    s.subrange(0, s.len() - suffix_len(s, ws_pred()))
}

/// `str::trim`: leading and trailing whitespace removed.
pub open spec fn trim(s: Seq<char>) -> Seq<char> {
    trim_end(trim_start(s))
}

pub proof fn lemma_prefix_len_facts(s: Seq<char>, p: spec_fn(char) -> bool)
    ensures
        prefix_len(s, p) <= s.len(),
        forall|j: int| 0 <= j < prefix_len(s, p) ==> p(s[j]),
        prefix_len(s, p) < s.len() ==> !p(s[prefix_len(s, p) as int]),
    decreases s.len(),
{
    if s.len() > 0 && p(s[0]) {
        lemma_prefix_len_facts(s.drop_first(), p);
        assert forall|j: int| 0 <= j < prefix_len(s, p) implies p(s[j]) by {
            if j > 0 {
                assert(s[j] == s.drop_first()[j - 1]);
            }
        }
        if prefix_len(s, p) < s.len() {
            assert(s[prefix_len(s, p) as int] == s.drop_first()[prefix_len(s.drop_first(), p) as int]);
        }
    }
}

pub proof fn lemma_suffix_len_facts(s: Seq<char>, p: spec_fn(char) -> bool)
    ensures
        suffix_len(s, p) <= s.len(),
        forall|j: int| s.len() - suffix_len(s, p) <= j < s.len() ==> p(s[j]),
        suffix_len(s, p) < s.len() ==> !p(s[s.len() - suffix_len(s, p) - 1]),
    decreases s.len(),
{
    if s.len() > 0 && p(s.last()) {
        let t = s.drop_last();
        lemma_suffix_len_facts(t, p);
        assert forall|j: int| s.len() - suffix_len(s, p) <= j < s.len() implies p(s[j]) by {
            if j < s.len() - 1 {
                assert(s[j] == t[j]);
            }
        }
        if suffix_len(s, p) < s.len() {
            assert(s[s.len() - suffix_len(s, p) - 1] == t[t.len() - suffix_len(t, p) - 1]);
        }
    }
}

/// A non-empty trimmed text starts and ends with a non-whitespace character.
pub proof fn lemma_trim_ends(s: Seq<char>)
    ensures
        trim(s).len() > 0 ==> !is_ws(trim(s)[0]) && !is_ws(trim(s).last()),
{
    let a = trim_start(s);
    lemma_prefix_len_facts(s, ws_pred());
    lemma_suffix_len_facts(a, ws_pred());
    let t = trim(s);
    if t.len() > 0 {
        assert(t[0] == a[0]);
        assert(a[0] == s[prefix_len(s, ws_pred()) as int]);
        assert(t.last() == a[a.len() - suffix_len(a, ws_pred()) - 1]);
    }
}

/// Trimming twice trims once.
pub proof fn lemma_trim_idempotent(s: Seq<char>)
    ensures
        trim(trim(s)) == trim(s),
{
    let t = trim(s);
    lemma_trim_ends(s);
    if t.len() > 0 {
        lemma_prefix_len(t, ws_pred(), 0);
        assert(trim_start(t) =~= t);
        lemma_suffix_len(t, ws_pred(), 0);
        assert(trim_end(t) =~= t);
    } else {
        assert(trim(t) =~= t);
    }
}

/// `str::trim_end_matches(['\r', '\n'])`.
pub open spec fn trim_end_crlf(s: Seq<char>) -> Seq<char> {
    s.subrange(0, s.len() - suffix_len(s, crlf_pred()))
}

/// Index of the first character of `s` at or after `from` that is not whitespace
/// (or `s.len()` when there is none).
fn skip_ws(s: &[char], from: usize) -> (i: usize)
    requires
        from <= s@.len(),
    ensures
        from <= i <= s@.len(),
        forall|j: int| from <= j < i ==> is_ws(s@[j]),
        i < s@.len() ==> !is_ws(s@[i as int]),
{
    let mut i = from;
    while i < s.len() && is_whitespace(s[i])
        invariant
            from <= i <= s@.len(),
            forall|j: int| from <= j < i ==> is_ws(s@[j]),
        decreases s@.len() - i,
    {
        i = i + 1;
    }
    i
}

/// Index just after the last character of `s[..to]` that is not whitespace
/// (or `0` when there is none).
fn back_skip_ws(s: &[char], to: usize) -> (i: usize)
    requires
        to <= s@.len(),
    ensures
        i <= to,
        forall|j: int| i <= j < to ==> is_ws(s@[j]),
        i > 0 ==> !is_ws(s@[i - 1]),
{
    let mut i = to;
    while i > 0 && is_whitespace(s[i - 1])
        invariant
            i <= to <= s@.len(),
            forall|j: int| i <= j < to ==> is_ws(s@[j]),
        decreases i,
    {
        i = i - 1;
    }
    i
}

/// `str::trim` on a run of characters.
pub fn trim_chars(s: &[char]) -> (r: &[char])
    ensures
        r@ == trim(s@),
{
    let n = s.len();
    let a = skip_ws(s, 0);
    let b = back_skip_ws(s, n);
    proof {
        lemma_prefix_len(s@, ws_pred(), a as int);
    }
    let t = &s[a..n];
    if b < a {
        proof {
            // everything is whitespace
            assert(a == 0 || b == 0);
            assert(t@.len() == 0 || a == 0);
        }
    }
    let e = if b < a { a } else { b };
    proof {
        let ts = s@.subrange(a as int, n as int);
        assert(ts == t@);
        let k = n - e;
        assert forall|j: int| ts.len() - k <= j < ts.len() implies is_ws(ts[j]) by {
            assert(ts[j] == s@[a + j]);
        }
        if k < ts.len() {
            assert(ts[ts.len() - k - 1] == s@[e - 1]);
        }
        lemma_suffix_len(ts, ws_pred(), k);
    }
    &s[a..e]
}

/// `str::trim_end_matches(['\r', '\n'])` on a run of characters.
pub fn trim_end_crlf_chars(s: &[char]) -> (r: &[char])
    ensures
        r@ == trim_end_crlf(s@),
{
    let n = s.len();
    let mut i = n;
    while i > 0 && (s[i - 1] == '\r' || s[i - 1] == '\n')
        invariant
            i <= n == s@.len(),
            forall|j: int| i <= j < n ==> (s@[j] == '\r' || s@[j] == '\n'),
        decreases i,
    {
        i = i - 1;
    }
    proof {
        lemma_suffix_len(s@, crlf_pred(), n - i);
    }
    &s[0..i]
}

/// `str::split_whitespace`: the maximal runs of non-whitespace characters.
pub open spec fn words(s: Seq<char>) -> Seq<Seq<char>>
    decreases s.len(),
{
    let a = prefix_len(s, ws_pred());
    if a < s.len() {
        let t = s.subrange(a as int, s.len() as int);
        let b = prefix_len(t, non_ws_pred());
        if 0 < b <= t.len() {
            seq![t.subrange(0, b as int)] + words(t.subrange(b as int, t.len() as int))
        } else {
            seq![]
        }
    } else {
        seq![]
    }
}

/// `str::split_whitespace` on a run of characters.
pub fn split_words<'a>(s: &'a [char]) -> (r: Vec<&'a [char]>)
    ensures
        r@.map_values(|p: &[char]| p@) == words(s@),
    decreases s@.len(),
{
    let n = s.len();
    let a = skip_ws(s, 0);
    proof {
        lemma_prefix_len(s@, ws_pred(), a as int);
    }
    if a == n {
        let r: Vec<&'a [char]> = Vec::new();
        assert(r@.map_values(|p: &[char]| p@) =~= Seq::<Seq<char>>::empty());
        return r;
    }
    let mut e = a;
    while e < n && !is_whitespace(s[e])
        invariant
            a <= e <= n == s@.len(),
            forall|j: int| a <= j < e ==> !is_ws(s@[j]),
        decreases n - e,
    {
        e = e + 1;
    }
    let t = &s[a..n];
    proof {
        assert(!is_ws(s@[a as int]));
        assert forall|j: int| 0 <= j < e - a implies non_ws_pred()(t@[j]) by {
            assert(t@[j] == s@[a + j]);
        }
        if e - a < t@.len() {
            assert(t@[e - a] == s@[e as int]);
        }
        lemma_prefix_len(t@, non_ws_pred(), e - a);
        assert(t@.subrange(0, e - a) =~= s@.subrange(a as int, e as int));
        assert(t@.subrange(e - a, t@.len() as int) =~= s@.subrange(e as int, n as int));
    }
    let first = &s[a..e];
    let tail = split_words(&s[e..n]);
    prepend(first, tail)
}

/// Words of `s` joined by single spaces.
pub open spec fn join_words(ws: Seq<Seq<char>>) -> Seq<char>
    decreases ws.len(),
{
    if ws.len() == 0 {
        seq![]
    } else if ws.len() == 1 {
        ws[0]
    } else {
        join_words(ws.drop_last()) + seq![' '] + ws.last()
    }
}

/// `s.split_whitespace().collect::<Vec<_>>().join(" ")`.
pub open spec fn collapse_ws(s: Seq<char>) -> Seq<char> {
    join_words(words(s))
}

/// Joins the words of `s` with single spaces.
pub fn collapse_whitespace(s: &[char]) -> (r: String)
    ensures
        r@ == collapse_ws(s@),
{
    let ws = split_words(s);
    let ghost wv = ws@.map_values(|p: &[char]| p@);
    let mut r = String::new();
    let mut k: usize = 0;
    while k < ws.len()
        invariant
            k <= ws@.len(),
            wv == ws@.map_values(|p: &[char]| p@),
            r@ == join_words(wv.subrange(0, k as int)),
        decreases ws@.len() - k,
    {
        proof {
            assert(wv.subrange(0, k + 1).drop_last() =~= wv.subrange(0, k as int));
        }
        if k > 0 {
            r.push(' ');
        }
        push_chars(&mut r, ws[k]);
        proof {
            if k == 0 {
                assert(r@ =~= wv.subrange(0, 1)[0]);
            } else {
                assert(r@ =~= join_words(wv.subrange(0, k as int)) + seq![' '] + wv.subrange(0, k + 1).last());
            }
        }
        k = k + 1;
    }
    assert(wv.subrange(0, ws@.len() as int) =~= wv);
    r
}

// ---------------------------------------------------------------------------
// Case
// ---------------------------------------------------------------------------

/// ASCII letters folded to lower case, every other code point unchanged.
pub open spec fn ascii_fold(c: char) -> u32 {
    let n = c as u32;
    if 65 <= n <= 90 {
        (n + 32) as u32
    } else {
        n
    }
}

/// `str::eq_ignore_ascii_case`.
pub open spec fn eq_ignore_ascii_case(a: Seq<char>, b: Seq<char>) -> bool {
    a.len() == b.len() && forall|i: int| 0 <= i < a.len() ==> ascii_fold(a[i]) == ascii_fold(b[i])
}

fn fold_char(c: char) -> (n: u32)
    ensures
        n == ascii_fold(c),
{
    let n = c as u32;
    if 65 <= n && n <= 90 {
        n + 32
    } else {
        n
    }
}

pub fn eq_ignore_ascii_case_chars(a: &[char], b: &[char]) -> (r: bool)
    ensures
        r == eq_ignore_ascii_case(a@, b@),
{
    if a.len() != b.len() {
        return false;
    }
    let mut i: usize = 0;
    while i < a.len()
        invariant
            a@.len() == b@.len(),
            i <= a@.len(),
            forall|j: int| 0 <= j < i ==> ascii_fold(a@[j]) == ascii_fold(b@[j]),
        decreases a@.len() - i,
    {
        if fold_char(a[i]) != fold_char(b[i]) {
            return false;
        }
        i = i + 1;
    }
    true
}

/// What `str::to_lowercase` returns for a string: Unicode lower-case mapping,
/// which takes the Unicode tables to state.
pub uninterp spec fn lowercase(s: Seq<char>) -> Seq<char>;

/// Calls `str::to_lowercase`. Claimed: the result is `lowercase` of the
/// argument's characters, a function of those characters alone.
#[verifier::external_body]
pub(crate) fn to_lowercase(s: &str) -> (r: String)
    ensures
        r@ == lowercase(s@),
{
    s.to_lowercase()
}

// ---------------------------------------------------------------------------
// Decimal numbers
// ---------------------------------------------------------------------------

pub open spec fn digit_char(d: nat) -> char {
    if d == 0 { '0' }
    else if d == 1 { '1' }
    else if d == 2 { '2' }
    else if d == 3 { '3' }
    else if d == 4 { '4' }
    else if d == 5 { '5' }
    else if d == 6 { '6' }
    else if d == 7 { '7' }
    else if d == 8 { '8' }
    else { '9' }
}

/// Decimal digits of `n`, most significant first, as `{}` formats an integer.
pub open spec fn decimal(n: nat) -> Seq<char>
    decreases n,
{
    if n < 10 {
        seq![digit_char(n)]
    } else {
        decimal(n / 10).push(digit_char(n % 10))
    }
}

fn digit(d: u64) -> (c: char)
    requires
        d < 10,
    ensures
        c == digit_char(d as nat),
{
    if d == 0 { '0' }
    else if d == 1 { '1' }
    else if d == 2 { '2' }
    else if d == 3 { '3' }
    else if d == 4 { '4' }
    else if d == 5 { '5' }
    else if d == 6 { '6' }
    else if d == 7 { '7' }
    else if d == 8 { '8' }
    else { '9' }
}

/// Appends the decimal form of `n`.
pub fn push_decimal(s: &mut String, n: u64)
    ensures
        final(s)@ == old(s)@ + decimal(n as nat),
    decreases n,
{
    if n >= 10 {
        push_decimal(s, n / 10);
    }
    s.push(digit(n % 10));
    proof {
        if n >= 10 {
            assert(final(s)@ =~= old(s)@ + decimal(n as nat));
        } else {
            assert(final(s)@ =~= old(s)@ + decimal(n as nat));
        }
    }
}

/// Decimal form of a signed integer, with a leading `-` when negative.
pub open spec fn signed_decimal(n: int) -> Seq<char> {
    if n < 0 {
        seq!['-'] + decimal((-n) as nat)
    } else {
        decimal(n as nat)
    }
}

/// Appends the decimal form of `n`.
pub fn push_signed_decimal(s: &mut String, n: i32)
    ensures
        final(s)@ == old(s)@ + signed_decimal(n as int),
{
    if n < 0 {
        s.push('-');
        let m: u64 = (-(n as i64)) as u64;
        push_decimal(s, m);
        assert(final(s)@ =~= old(s)@ + signed_decimal(n as int));
    } else {
        push_decimal(s, n as u64);
    }
}

} // verus!
