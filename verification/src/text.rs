//! Text as a sequence of Unicode scalars: trimming, splitting into lines and
//! words, searching, and building strings.
use vstd::prelude::*;

verus! {

/// What every `String` of a list reads as.
pub open spec fn texts(list: Seq<String>) -> Seq<Seq<char>> {
    list.map_values(|s: String| s@)
}

/// What an optional `String` reads as.
pub open spec fn opt_text(value: Option<String>) -> Option<Seq<char>> {
    match value {
        Some(s) => Some(s@),
        None => None,
    }
}

/// Unicode's `White_Space` property.
pub open spec fn white_space(c: char) -> bool {
    let u = c as u32;
    ||| 0x9 <= u <= 0xd
    ||| u == 0x20
    ||| u == 0x85
    ||| u == 0xa0
    ||| u == 0x1680
    ||| 0x2000 <= u <= 0x200a
    ||| u == 0x2028
    ||| u == 0x2029
    ||| u == 0x202f
    ||| u == 0x205f
    ||| u == 0x3000
}

/// Unicode's `Cc` category.
pub open spec fn control(c: char) -> bool {
    let u = c as u32;
    u <= 0x1f || 0x7f <= u <= 0x9f
}

/// `s` without its leading white space.
pub open spec fn trim_start(s: Seq<char>) -> Seq<char>
    decreases s.len(),
{
    if s.len() > 0 && white_space(s[0]) {
        trim_start(s.drop_first())
    } else {
        s
    }
}

/// `s` without its trailing white space.
pub open spec fn trim_end(s: Seq<char>) -> Seq<char>
    decreases s.len(),
{
    if s.len() > 0 && white_space(s.last()) {
        trim_end(s.drop_last())
    } else {
        s
    }
}

/// `s` without white space at either end.
pub open spec fn trim(s: Seq<char>) -> Seq<char> {
    trim_end(trim_start(s))
}

/// Where `c` first stands in `s`, or the length of `s` where it does not.
pub open spec fn first_index(s: Seq<char>, c: char) -> int
    decreases s.len(),
{
    if s.len() == 0 {
        0
    } else if s[0] == c {
        0
    } else {
        1 + first_index(s.drop_first(), c)
    }
}

/// Where `c` last stands in `s`, or -1 where it does not.
pub open spec fn last_index(s: Seq<char>, c: char) -> int
    decreases s.len(),
{
    if s.len() == 0 {
        -1
    } else if s.last() == c {
        s.len() - 1
    } else {
        last_index(s.drop_last(), c)
    }
}

/// A line that ended in a line feed, without a carriage return before it.
pub open spec fn strip_return(s: Seq<char>) -> Seq<char> {
    if s.len() > 0 && s.last() == '\r' {
        s.drop_last()
    } else {
        s
    }
}

/// The lines of `s`: each ends at a line feed, the last one also at the end.
pub open spec fn lines(s: Seq<char>) -> Seq<Seq<char>>
    decreases s.len(),
{
    let at = first_index(s, '\n');
    if s.len() == 0 {
        Seq::empty()
    } else if 0 <= at < s.len() {
        seq![strip_return(s.take(at))] + lines(s.skip(at + 1))
    } else {
        seq![s]
    }
}

/// How many leading scalars of `s` are no white space.
pub open spec fn word_len(s: Seq<char>) -> nat
    decreases s.len(),
{
    if s.len() == 0 || white_space(s[0]) {
        0
    } else {
        1 + word_len(s.drop_first())
    }
}

/// The first run of non white space in `s`, empty where there is none.
pub open spec fn first_word(s: Seq<char>) -> Seq<char> {
    let t = trim_start(s);
    t.take(word_len(t) as int)
}

/// What follows the first word of `s`.
pub open spec fn after_first_word(s: Seq<char>) -> Seq<char> {
    let t = trim_start(s);
    t.skip(word_len(t) as int)
}

pub open spec fn ascii_lower(c: char) -> char {
    if 'A' <= c && c <= 'Z' {
        ((c as u32 + 32) as u32) as char
    } else {
        c
    }
}

/// `s` with its ASCII capitals made small.
pub open spec fn ascii_lowercase(s: Seq<char>) -> Seq<char> {
    s.map_values(|c: char| ascii_lower(c))
}

/// `needle` stands in `s` starting at `at`.
pub open spec fn occurs_at(s: Seq<char>, needle: Seq<char>, at: int) -> bool {
    0 <= at <= s.len() - needle.len() && s.subrange(at, at + needle.len()) == needle
}

/// `needle` stands somewhere in `s`.
pub open spec fn contains_text(s: Seq<char>, needle: Seq<char>) -> bool {
    exists|at: int| #[trigger] occurs_at(s, needle, at)
}

pub open spec fn starts_with(s: Seq<char>, prefix: Seq<char>) -> bool {
    prefix.len() <= s.len() && s.take(prefix.len() as int) == prefix
}

/// Orders texts by their scalars: negative, zero or positive.
pub open spec fn lexical(a: Seq<char>, b: Seq<char>) -> int
    decreases a.len(),
{
    if a.len() == 0 && b.len() == 0 {
        0
    } else if a.len() == 0 {
        -1
    } else if b.len() == 0 {
        1
    } else if (a[0] as u32) < (b[0] as u32) {
        -1
    } else if (a[0] as u32) > (b[0] as u32) {
        1
    } else {
        lexical(a.drop_first(), b.drop_first())
    }
}

/// `parts` one after the other with `between` put between neighbours.
pub open spec fn join_text(parts: Seq<Seq<char>>, between: Seq<char>) -> Seq<char>
    decreases parts.len(),
{
    if parts.len() == 0 {
        Seq::empty()
    } else if parts.len() == 1 {
        parts[0]
    } else {
        join_text(parts.drop_last(), between) + between + parts.last()
    }
}

/// The decimal digits of `n`.
pub open spec fn decimal(n: nat) -> Seq<char>
    decreases n,
{
    if n < 10 {
        seq![digit(n)]
    } else {
        decimal(n / 10).push(digit(n % 10))
    }
}

pub open spec fn digit(n: nat) -> char {
    ((48 + n) as u32) as char
}

pub fn is_white_space(c: char) -> (yes: bool)
    ensures
        yes == white_space(c),
        yes == ({
            let u = c as u32;
            0x9 <= u <= 0xd || u == 0x20 || u == 0x85 || u == 0xa0 || u == 0x1680 || 0x2000 <= u
                <= 0x200a || u == 0x2028 || u == 0x2029 || u == 0x202f || u == 0x205f || u == 0x3000
        }),
{
    let u: u32 = c as u32;
    (0x9 <= u && u <= 0xd) || u == 0x20 || u == 0x85 || u == 0xa0 || u == 0x1680 || (0x2000 <= u
        && u <= 0x200a) || u == 0x2028 || u == 0x2029 || u == 0x202f || u == 0x205f || u == 0x3000
}

pub fn is_control(c: char) -> (yes: bool)
    ensures
        yes == control(c),
        yes == ((c as u32) <= 0x1f || 0x7f <= (c as u32) <= 0x9f),
{
    let u: u32 = c as u32;
    u <= 0x1f || (0x7f <= u && u <= 0x9f)
}

pub fn to_ascii_lower(c: char) -> (lower: char)
    ensures
        lower == ascii_lower(c),
        'A' <= c && c <= 'Z' ==> lower as u32 == c as u32 + 32,
        !('A' <= c && c <= 'Z') ==> lower == c,
{
    if 'A' <= c && c <= 'Z' {
        let small: u8 = (c as u8) + 32;
        small as char
    } else {
        c
    }
}

/// The scalars of `s`.
pub fn chars_of(s: &str) -> (chars: Vec<char>)
    ensures
        chars@ == s@,
{
    let mut chars: Vec<char> = Vec::new();
    for c in iter: s.chars()
        invariant
            iter.seq() == s@,
            chars@ == iter.seq().take(iter.index() as int),
    {
        chars.push(c);
    }
    chars
}

/// `String::push` appends one scalar to the text.
pub assume_specification[ String::push ](s: &mut String, c: char)
    ensures
        final(s)@ == old(s)@.push(c),
;

/// The text made of `chars[from..to]`.
pub fn string_of(chars: &[char], from: usize, to: usize) -> (s: String)
    requires
        from <= to <= chars@.len(),
    ensures
        s@ == chars@.subrange(from as int, to as int),
{
    let mut s = String::new();
    let mut i: usize = from;
    while i < to
        invariant
            from <= i <= to <= chars@.len(),
            s@ == chars@.subrange(from as int, i as int),
        decreases to - i,
    {
        s.push(chars[i]);
        i = i + 1;
    }
    s
}


pub proof fn lemma_trim_start(s: Seq<char>, from: int)
    requires
        0 <= from <= s.len(),
        forall|i: int| 0 <= i < from ==> white_space(#[trigger] s[i]),
        from < s.len() ==> !white_space(s[from]),
    ensures
        trim_start(s) == s.skip(from),
    decreases s.len(),
{
    if from == 0 {
        assert(s.skip(0) =~= s);
    } else {
        assert(s.drop_first().len() == s.len() - 1);
        assert forall|i: int| 0 <= i < from - 1 implies white_space(#[trigger] s.drop_first()[i]) by {
            assert(s.drop_first()[i] == s[i + 1]);
        }
        lemma_trim_start(s.drop_first(), from - 1);
        assert(s.drop_first().skip(from - 1) =~= s.skip(from));
    }
}

pub proof fn lemma_trim_end(s: Seq<char>, to: int)
    requires
        0 <= to <= s.len(),
        forall|i: int| to <= i < s.len() ==> white_space(#[trigger] s[i]),
        to > 0 ==> !white_space(s[to - 1]),
    ensures
        trim_end(s) == s.take(to),
    decreases s.len(),
{
    if to == s.len() {
        assert(s.take(to) =~= s);
    } else {
        assert forall|i: int| to <= i < s.drop_last().len() implies white_space(
            #[trigger] s.drop_last()[i],
        ) by {
            assert(s.drop_last()[i] == s[i]);
        }
        lemma_trim_end(s.drop_last(), to);
        assert(s.drop_last().take(to) =~= s.take(to));
    }
}

/// The span of `chars` that trimming leaves.
pub fn trim_span(chars: &[char]) -> (span: (usize, usize))
    ensures
        span.0 <= span.1 <= chars@.len(),
        chars@.subrange(span.0 as int, span.1 as int) == trim(chars@),
{
    let len: usize = chars.len();
    let mut from: usize = 0;
    while from < len && is_white_space(chars[from])
        invariant
            len == chars@.len(),
            from <= len,
            forall|i: int| 0 <= i < from ==> white_space(#[trigger] chars@[i]),
        decreases len - from,
    {
        from = from + 1;
    }
    let mut to: usize = len;
    while to > from && is_white_space(chars[to - 1])
        invariant
            len == chars@.len(),
            from <= to <= len,
            forall|i: int| to <= i < len ==> white_space(#[trigger] chars@[i]),
        decreases to,
    {
        to = to - 1;
    }
    proof {
        let s = chars@;
        lemma_trim_start(s, from as int);
        let t = s.skip(from as int);
        assert forall|i: int| to - from <= i < t.len() implies white_space(#[trigger] t[i]) by {
            assert(t[i] == s[i + from]);
        }
        lemma_trim_end(t, to - from);
        assert(t.take(to - from) =~= s.subrange(from as int, to as int));
    }
    (from, to)
}

/// `s` without white space at either end.
pub fn trimmed(s: &str) -> (t: String)
    ensures
        t@ == trim(s@),
{
    let chars = chars_of(s);
    let (from, to) = trim_span(chars.as_slice());
    string_of(chars.as_slice(), from, to)
}

pub fn same_chars(a: &[char], b: &[char]) -> (same: bool)
    ensures
        same == (a@ == b@),
{
    if a.len() != b.len() {
        return false;
    }
    let mut i: usize = 0;
    while i < a.len()
        invariant
            i <= a@.len() == b@.len(),
            forall|j: int| 0 <= j < i ==> a@[j] == b@[j],
        decreases a@.len() - i,
    {
        if a[i] != b[i] {
            return false;
        }
        i = i + 1;
    }
    assert(a@ =~= b@);
    true
}

pub fn same_text(a: &str, b: &str) -> (same: bool)
    ensures
        same == (a@ == b@),
{
    same_chars(chars_of(a).as_slice(), chars_of(b).as_slice())
}

/// Whether `chars` holds `needle` at `at`.
pub fn matches_at(chars: &[char], needle: &[char], at: usize) -> (yes: bool)
    requires
        at <= chars@.len(),
    ensures
        yes == occurs_at(chars@, needle@, at as int),
{
    let len: usize = chars.len();
    if len - at < needle.len() {
        return false;
    }
    let mut i: usize = 0;
    while i < needle.len()
        invariant
            len == chars@.len(),
            i <= needle@.len() <= len - at,
            forall|j: int| 0 <= j < i ==> needle@[j] == chars@[at + j],
        decreases needle@.len() - i,
    {
        if chars[at + i] != needle[i] {
            assert(chars@.subrange(at as int, at + needle@.len())[i as int] != needle@[i as int]);
            return false;
        }
        i = i + 1;
    }
    assert(chars@.subrange(at as int, at + needle@.len()) =~= needle@);
    true
}

pub fn has_text(s: &str, needle: &str) -> (yes: bool)
    ensures
        yes == contains_text(s@, needle@),
{
    let chars = chars_of(s);
    let wanted = chars_of(needle);
    let mut at: usize = 0;
    while at < chars.len()
        invariant
            chars@ == s@,
            wanted@ == needle@,
            at <= chars@.len(),
            forall|i: int| 0 <= i < at ==> !#[trigger] occurs_at(s@, needle@, i),
        decreases chars@.len() - at,
    {
        if matches_at(chars.as_slice(), wanted.as_slice(), at) {
            return true;
        }
        at = at + 1;
    }
    matches_at(chars.as_slice(), wanted.as_slice(), at)
}

pub fn has_prefix(s: &str, prefix: &str) -> (yes: bool)
    ensures
        yes == starts_with(s@, prefix@),
{
    let chars = chars_of(s);
    let wanted = chars_of(prefix);
    proof {
        if prefix@.len() <= s@.len() {
            assert(s@.subrange(0, prefix@.len() as int) =~= s@.take(prefix@.len() as int));
        }
    }
    matches_at(chars.as_slice(), wanted.as_slice(), 0)
}

pub fn lowercase_chars(chars: &[char]) -> (lower: Vec<char>)
    ensures
        lower@ == ascii_lowercase(chars@),
{
    let mut lower: Vec<char> = Vec::new();
    let mut i: usize = 0;
    while i < chars.len()
        invariant
            i <= chars@.len(),
            lower@ == ascii_lowercase(chars@.take(i as int)),
        decreases chars@.len() - i,
    {
        lower.push(to_ascii_lower(chars[i]));
        i = i + 1;
        assert(lower@ =~= ascii_lowercase(chars@.take(i as int)));
    }
    assert(chars@.take(i as int) =~= chars@);
    lower
}

pub fn lowercased(s: &str) -> (lower: String)
    ensures
        lower@ == ascii_lowercase(s@),
{
    let chars = lowercase_chars(chars_of(s).as_slice());
    let lower = string_of(chars.as_slice(), 0, chars.len());
    assert(lower@ =~= chars@);
    lower
}

/// Where `c` first stands in `chars`, or their number.
pub fn find_first(chars: &[char], c: char) -> (at: usize)
    ensures
        at == first_index(chars@, c),
        at <= chars@.len(),
        at < chars@.len() ==> chars@[at as int] == c,
        forall|i: int| 0 <= i < at ==> chars@[i] != c,
{
    let mut at: usize = 0;
    while at < chars.len() && chars[at] != c
        invariant
            at <= chars@.len(),
            forall|i: int| 0 <= i < at ==> chars@[i] != c,
        decreases chars@.len() - at,
    {
        at = at + 1;
    }
    proof {
        lemma_first_index(chars@, c, at as int);
    }
    at
}

pub proof fn lemma_first_index(s: Seq<char>, c: char, at: int)
    requires
        0 <= at <= s.len(),
        forall|i: int| 0 <= i < at ==> s[i] != c,
        at < s.len() ==> s[at] == c,
    ensures
        first_index(s, c) == at,
    decreases s.len(),
{
    if at > 0 {
        assert forall|i: int| 0 <= i < at - 1 implies s.drop_first()[i] != c by {
            assert(s.drop_first()[i] == s[i + 1]);
        }
        lemma_first_index(s.drop_first(), c, at - 1);
    }
}

pub proof fn lemma_last_index(s: Seq<char>, c: char, at: int)
    requires
        -1 <= at < s.len(),
        forall|i: int| at < i < s.len() ==> s[i] != c,
        at >= 0 ==> s[at] == c,
    ensures
        last_index(s, c) == at,
    decreases s.len(),
{
    if s.len() > 0 && at < s.len() - 1 {
        assert forall|i: int| at < i < s.drop_last().len() implies s.drop_last()[i] != c by {
            assert(s.drop_last()[i] == s[i]);
        }
        lemma_last_index(s.drop_last(), c, at);
    }
}

/// Where `c` last stands in `chars`.
pub fn find_last(chars: &[char], c: char) -> (at: Option<usize>)
    ensures
        match at {
            Some(i) => i == last_index(chars@, c) && i < chars@.len() && chars@[i as int] == c,
            None => last_index(chars@, c) == -1,
        },
{
    let mut to: usize = chars.len();
    while to > 0
        invariant
            to <= chars@.len(),
            forall|i: int| to <= i < chars@.len() ==> chars@[i] != c,
        decreases to,
    {
        if chars[to - 1] == c {
            proof {
                lemma_last_index(chars@, c, to - 1);
            }
            return Some(to - 1);
        }
        to = to - 1;
    }
    proof {
        lemma_last_index(chars@, c, -1);
    }
    None
}

/// The lines of `s`.
pub fn lines_of(s: &str) -> (list: Vec<String>)
    ensures
        texts(list@) == lines(s@),
{
    let chars = chars_of(s);
    let len: usize = chars.len();
    let mut list: Vec<String> = Vec::new();
    let mut from: usize = 0;
    assert(texts(list@) =~= Seq::<Seq<char>>::empty());
    assert(s@.skip(0) =~= s@);
    while from < len
        invariant
            chars@ == s@,
            len == chars@.len(),
            from <= len,
            texts(list@) + lines(s@.skip(from as int)) == lines(s@),
        decreases len - from,
    {
        let ghost rest = s@.skip(from as int);
        let ghost before = texts(list@);
        let mut at: usize = from;
        while at < len && chars[at] != '\n'
            invariant
                chars@ == s@,
                len == chars@.len(),
                from <= at <= len,
                rest == s@.skip(from as int),
                forall|i: int| 0 <= i < at - from ==> rest[i] != '\n',
            decreases len - at,
        {
            at = at + 1;
        }
        proof {
            lemma_first_index(rest, '\n', at - from);
        }
        let mut to: usize = at;
        if at < len && at > from && chars[at - 1] == '\r' {
            to = at - 1;
        }
        let line = string_of(chars.as_slice(), from, to);
        let ghost text = line@;
        proof {
            let cut = rest.take(at - from);
            assert(cut =~= s@.subrange(from as int, at as int));
            if at < len {
                assert(strip_return(cut) =~= text);
                assert(rest.skip(at - from + 1) =~= s@.skip(at + 1));
                assert(lines(rest) == seq![text] + lines(s@.skip(at + 1)));
            } else {
                assert(text =~= rest);
                assert(lines(rest) == seq![text]);
                assert(lines(s@.skip(len as int)) =~= Seq::<Seq<char>>::empty());
                assert(lines(rest) =~= seq![text] + lines(s@.skip(len as int)));
            }
        }
        list.push(line);
        assert(texts(list@) =~= before.push(text));
        from = if at < len { at + 1 } else { len };
        proof {
            assert((before + (seq![text] + lines(s@.skip(from as int)))) =~= before.push(text)
                + lines(s@.skip(from as int)));
        }
    }
    assert(lines(s@.skip(from as int)) =~= Seq::<Seq<char>>::empty());
    assert(texts(list@) + Seq::<Seq<char>>::empty() =~= texts(list@));
    list
}

pub proof fn lemma_word_len(s: Seq<char>, n: int)
    requires
        0 <= n <= s.len(),
        forall|i: int| 0 <= i < n ==> !white_space(#[trigger] s[i]),
        n < s.len() ==> white_space(s[n]),
    ensures
        word_len(s) == n,
    decreases s.len(),
{
    if n > 0 {
        assert forall|i: int| 0 <= i < n - 1 implies !white_space(#[trigger] s.drop_first()[i]) by {
            assert(s.drop_first()[i] == s[i + 1]);
        }
        lemma_word_len(s.drop_first(), n - 1);
    }
}

/// The span of the first word at or after `from`; both ends are `chars.len()`
/// where no word is left.
pub fn word_span(chars: &[char], from: usize) -> (span: (usize, usize))
    requires
        from <= chars@.len(),
    ensures
        from <= span.0 <= span.1 <= chars@.len(),
        chars@.subrange(span.0 as int, span.1 as int) == first_word(chars@.skip(from as int)),
        chars@.skip(span.1 as int) == after_first_word(chars@.skip(from as int)),
{
    let len: usize = chars.len();
    let mut start: usize = from;
    while start < len && is_white_space(chars[start])
        invariant
            len == chars@.len(),
            from <= start <= len,
            forall|i: int| from <= i < start ==> white_space(#[trigger] chars@[i]),
        decreases len - start,
    {
        start = start + 1;
    }
    let mut end: usize = start;
    while end < len && !is_white_space(chars[end])
        invariant
            len == chars@.len(),
            start <= end <= len,
            forall|i: int| start <= i < end ==> !white_space(#[trigger] chars@[i]),
        decreases len - end,
    {
        end = end + 1;
    }
    proof {
        let rest = chars@.skip(from as int);
        assert forall|i: int| 0 <= i < start - from implies white_space(#[trigger] rest[i]) by {
            assert(rest[i] == chars@[i + from]);
        }
        lemma_trim_start(rest, start - from);
        let t = rest.skip(start - from);
        assert forall|i: int| 0 <= i < end - start implies !white_space(#[trigger] t[i]) by {
            assert(t[i] == chars@[i + start]);
        }
        lemma_word_len(t, end - start);
        assert(t.take(end - start) =~= chars@.subrange(start as int, end as int));
        assert(t.skip(end - start) =~= chars@.skip(end as int));
    }
    (start, end)
}

/// Compares by scalars.
pub fn compare_chars(a: &[char], b: &[char]) -> (order: i8)
    ensures
        order == lexical(a@, b@),
{
    let mut i: usize = 0;
    assert(a@.skip(0) =~= a@);
    assert(b@.skip(0) =~= b@);
    while i < a.len() && i < b.len()
        invariant
            i <= a@.len(),
            i <= b@.len(),
            lexical(a@.skip(i as int), b@.skip(i as int)) == lexical(a@, b@),
        decreases a@.len() - i,
    {
        let x: u32 = a[i] as u32;
        let y: u32 = b[i] as u32;
        if x < y {
            return -1;
        }
        if x > y {
            return 1;
        }
        assert(a@.skip(i as int).drop_first() =~= a@.skip(i + 1));
        assert(b@.skip(i as int).drop_first() =~= b@.skip(i + 1));
        i = i + 1;
    }
    if i < b.len() {
        -1
    } else if i < a.len() {
        1
    } else {
        0
    }
}

/// Appends `s` to `out`.
pub fn put(out: &mut String, s: &str)
    ensures
        final(out)@ == old(out)@ + s@,
{
    out.append(s);
}

pub fn concat2(a: &str, b: &str) -> (s: String)
    ensures
        s@ == a@ + b@,
{
    let mut s = a.to_owned();
    put(&mut s, b);
    s
}

pub fn concat3(a: &str, b: &str, c: &str) -> (s: String)
    ensures
        s@ == a@ + b@ + c@,
{
    let mut s = concat2(a, b);
    put(&mut s, c);
    s
}

pub fn concat4(a: &str, b: &str, c: &str, d: &str) -> (s: String)
    ensures
        s@ == a@ + b@ + c@ + d@,
{
    let mut s = concat3(a, b, c);
    put(&mut s, d);
    s
}

pub fn digit_char(n: u64) -> (c: char)
    requires
        n < 10,
    ensures
        c == digit(n as nat),
{
    let code: u8 = 48 + (n as u8);
    code as char
}

/// `n` in decimal digits.
pub fn decimal_of(n: u64) -> (s: String)
    ensures
        s@ == decimal(n as nat),
    decreases n,
{
    if n < 10 {
        let mut s = String::new();
        s.push(digit_char(n));
        assert(s@ =~= decimal(n as nat));
        s
    } else {
        let mut s = decimal_of(n / 10);
        s.push(digit_char(n % 10));
        s
    }
}

pub fn copy_opt(value: &Option<String>) -> (copy: Option<String>)
    ensures
        opt_text(copy) == opt_text(*value),
{
    match value {
        Some(s) => Some(s.clone()),
        None => None,
    }
}

/// `list` joined with `between`.
pub fn joined(list: &[String], between: &str) -> (s: String)
    ensures
        s@ == join_text(texts(list@), between@),
{
    let mut s = String::new();
    let mut i: usize = 0;
    while i < list.len()
        invariant
            i <= list@.len(),
            s@ == join_text(texts(list@).take(i as int), between@),
        decreases list@.len() - i,
    {
        let ghost parts = texts(list@).take(i + 1);
        assert(parts.drop_last() =~= texts(list@).take(i as int));
        if i > 0 {
            s.append(between);
        } else {
            assert(s@ =~= Seq::<char>::empty());
        }
        s.append(list[i].as_str());
        assert(s@ =~= join_text(parts, between@));
        i = i + 1;
    }
    assert(texts(list@).take(i as int) =~= texts(list@));
    s
}

/// Trimming takes white space off both ends and nothing else.
pub proof fn law_trimming_takes_white_space_off_the_ends(s: Seq<char>) -> (span: (int, int))
    ensures
        0 <= span.0 <= span.1 <= s.len(),
        trim(s) == s.subrange(span.0, span.1),
        forall|i: int| 0 <= i < span.0 ==> white_space(#[trigger] s[i]),
        forall|i: int| span.1 <= i < s.len() ==> white_space(#[trigger] s[i]),
        trim(s).len() > 0 ==> !white_space(trim(s)[0]) && !white_space(trim(s).last()),
{
    let from = law_trimming_the_start(s);
    let t = trim_start(s);
    let to = law_trimming_the_end(t);
    assert(t.take(to) =~= s.subrange(from, from + to));
    assert forall|i: int| from + to <= i < s.len() implies white_space(#[trigger] s[i]) by {
        assert(t[i - from] == s[i]);
    }
    (from, from + to)
}

/// What is left of a text without its leading white space is its end from the
/// first other character on.
pub proof fn law_trimming_the_start(s: Seq<char>) -> (from: int)
    ensures
        0 <= from <= s.len(),
        trim_start(s) == s.skip(from),
        forall|i: int| 0 <= i < from ==> white_space(#[trigger] s[i]),
        from < s.len() ==> !white_space(s[from]),
    decreases s.len(),
{
    if s.len() > 0 && white_space(s[0]) {
        let rest = s.drop_first();
        let from = law_trimming_the_start(rest);
        assert(rest.skip(from) =~= s.skip(from + 1));
        assert forall|i: int| 0 <= i < from + 1 implies white_space(#[trigger] s[i]) by {
            if i > 0 {
                assert(rest[i - 1] == s[i]);
            }
        }
        from + 1
    } else {
        assert(s.skip(0) =~= s);
        0
    }
}

/// What is left of a text without its trailing white space is its beginning up
/// to the last other character.
pub proof fn law_trimming_the_end(s: Seq<char>) -> (to: int)
    ensures
        0 <= to <= s.len(),
        trim_end(s) == s.take(to),
        forall|i: int| to <= i < s.len() ==> white_space(#[trigger] s[i]),
        to > 0 ==> !white_space(s[to - 1]),
    decreases s.len(),
{
    if s.len() > 0 && white_space(s.last()) {
        let rest = s.drop_last();
        let to = law_trimming_the_end(rest);
        assert(rest.take(to) =~= s.take(to));
        assert forall|i: int| to <= i < s.len() implies white_space(#[trigger] s[i]) by {
            if i < rest.len() {
                assert(rest[i] == s[i]);
            }
        }
        to
    } else {
        assert(s.take(s.len() as int) =~= s);
        s.len() as int
    }
}

/// Of the ASCII characters, tab to carriage return and the space are white
/// space, and those below the space and the last are controls.
pub proof fn law_white_space_and_controls_in_ascii(c: char)
    requires
        (c as u32) < 0x80,
    ensures
        white_space(c) <==> (c == '\t' || c == '\n' || c as u32 == 0xb || c as u32 == 0xc || c
            == '\r' || c == ' '),
        control(c) <==> (c < ' ' || c as u32 == 0x7f),
{
}

/// Making a text small changes its ASCII capitals, one for one, and nothing
/// else; doing it again changes nothing.
pub proof fn law_small_letters(s: Seq<char>)
    ensures
        ascii_lowercase(s).len() == s.len(),
        forall|i: int|
            0 <= i < s.len() ==> (#[trigger] ascii_lowercase(s)[i]) as u32 == if 'A' <= s[i] && s[i]
                <= 'Z' {
                s[i] as u32 + 32
            } else {
                s[i] as int
            },
        ascii_lowercase(ascii_lowercase(s)) == ascii_lowercase(s),
{
    assert(ascii_lowercase(ascii_lowercase(s)) =~= ascii_lowercase(s));
}

/// A text has a line for each line feed and one for what follows the last, if
/// anything does; a carriage return before the line feed is not part of it.
pub proof fn law_lines_end_at_line_feeds(line: Seq<char>, rest: Seq<char>)
    requires
        !line.contains('\n'),
    ensures
        lines(Seq::empty()) == Seq::<Seq<char>>::empty(),
        line.len() > 0 ==> lines(line) == seq![line],
        line.len() == 0 || line.last() != '\r' ==> lines(line.push('\n') + rest) == seq![line]
            + lines(rest),
        lines(line.push('\r').push('\n') + rest) == seq![line] + lines(rest),
{
    assert forall|i: int| 0 <= i < line.len() implies line[i] != '\n' by {
        if line[i] == '\n' {
            assert(line.contains('\n'));
        }
    }
    lemma_first_index(line, '\n', line.len() as int);
    let one = line.push('\n') + rest;
    assert(one[line.len() as int] == '\n');
    lemma_first_index(one, '\n', line.len() as int);
    assert(one.take(line.len() as int) =~= line);
    assert(one.skip((line.len() + 1) as int) =~= rest);
    let two = line.push('\r').push('\n') + rest;
    assert(two[line.len() as int] == '\r' && two[(line.len() + 1) as int] == '\n');
    lemma_first_index(two, '\n', (line.len() + 1) as int);
    assert(two.take((line.len() + 1) as int) =~= line.push('\r'));
    assert(two.take((line.len() + 1) as int).drop_last() =~= line);
    assert(two.skip((line.len() + 2) as int) =~= rest);
}

/// The first word of a text is its first run of characters that are no white
/// space; what follows it starts with white space or is empty.
pub proof fn law_first_words(before: Seq<char>, word: Seq<char>, rest: Seq<char>)
    requires
        forall|i: int| 0 <= i < before.len() ==> white_space(#[trigger] before[i]),
        forall|i: int| 0 <= i < word.len() ==> !white_space(#[trigger] word[i]),
        rest.len() > 0 ==> white_space(rest[0]) && word.len() > 0,
    ensures
        first_word(before + word + rest) == word,
        after_first_word(before + word + rest) == rest,
{
    let s = before + word + rest;
    let from = before.len() as int;
    assert forall|i: int| 0 <= i < from implies white_space(#[trigger] s[i]) by {
        assert(s[i] == before[i]);
    }
    if word.len() > 0 {
        assert(s[from] == word[0]);
    }
    lemma_trim_start(s, from);
    let t = s.skip(from);
    assert(t =~= word + rest);
    assert forall|i: int| 0 <= i < word.len() implies !white_space(#[trigger] t[i]) by {
        assert(t[i] == word[i]);
    }
    if rest.len() > 0 {
        assert(t[word.len() as int] == rest[0]);
    }
    lemma_word_len(t, word.len() as int);
    assert(t.take(word.len() as int) =~= word);
    assert(t.skip(word.len() as int) =~= rest);
}

/// Texts are ordered by the first character in which they differ; where there is
/// none, the shorter comes first, and equal texts are those that are the same.
pub proof fn law_texts_are_ordered_by_their_first_difference(
    a: Seq<char>,
    b: Seq<char>,
    k: int,
)
    requires
        0 <= k <= a.len(),
        k <= b.len(),
        a.take(k) == b.take(k),
    ensures
        k < a.len() && k < b.len() && (a[k] as u32) < (b[k] as u32) ==> lexical(a, b) < 0,
        k < a.len() && k < b.len() && (a[k] as u32) > (b[k] as u32) ==> lexical(a, b) > 0,
        k == a.len() && k < b.len() ==> lexical(a, b) < 0,
        k < a.len() && k == b.len() ==> lexical(a, b) > 0,
        k == a.len() && k == b.len() ==> lexical(a, b) == 0,
    decreases k,
{
    if k > 0 {
        assert(a.take(k)[0] == b.take(k)[0]);
        let (p, q) = (a.drop_first(), b.drop_first());
        assert(p.take(k - 1) =~= a.take(k).drop_first());
        assert(q.take(k - 1) =~= b.take(k).drop_first());
        law_texts_are_ordered_by_their_first_difference(p, q, k - 1);
        assert(a.take(k)[0] == a[0] && b.take(k)[0] == b[0]);
        assert(lexical(a, b) == lexical(p, q));
    }
}

/// A text starts with what it begins with, and holds what stands anywhere in it.
pub proof fn law_prefixes_and_parts(before: Seq<char>, part: Seq<char>, rest: Seq<char>)
    ensures
        starts_with(part + rest, part),
        contains_text(before + part + rest, part),
{
    assert((part + rest).take(part.len() as int) =~= part);
    let whole = before + part + rest;
    assert(whole.subrange(before.len() as int, (before.len() + part.len()) as int) =~= part);
    assert(occurs_at(whole, part, before.len() as int));
}

/// What starts with a text, or holds it, can be taken apart around it.
pub proof fn law_prefixes_and_parts_can_be_cut_out(s: Seq<char>, part: Seq<char>) -> (at: int)
    ensures
        starts_with(s, part) ==> s == part + s.skip(part.len() as int),
        contains_text(s, part) ==> 0 <= at <= s.len() - part.len() && s == s.take(at) + part
            + s.skip(at + part.len()),
{
    if starts_with(s, part) {
        assert(s =~= part + s.skip(part.len() as int));
    }
    if contains_text(s, part) {
        let at = choose|at: int| #[trigger] occurs_at(s, part, at);
        assert(s =~= s.take(at) + s.subrange(at, at + part.len()) + s.skip(at + part.len()));
        at
    } else {
        0
    }
}

/// Joining puts the separator between neighbours only.
pub proof fn law_joining_separates_neighbours(
    parts: Seq<Seq<char>>,
    last: Seq<char>,
    between: Seq<char>,
)
    ensures
        join_text(Seq::empty(), between) == Seq::<char>::empty(),
        join_text(seq![last], between) == last,
        parts.len() > 0 ==> join_text(parts.push(last), between) == join_text(parts, between)
            + between + last,
{
    assert(parts.push(last).drop_last() =~= parts);
}

/// The number that decimal digits spell.
pub open spec fn spelled(digits: Seq<char>) -> int
    decreases digits.len(),
{
    if digits.len() == 0 {
        0
    } else {
        spelled(digits.drop_last()) * 10 + (digits.last() as int - '0' as int)
    }
}

/// A number in decimal spells itself, in digits only and without a leading zero.
pub proof fn law_decimals_spell_their_number(n: nat)
    ensures
        spelled(decimal(n)) == n,
        decimal(n).len() > 0,
        forall|i: int|
            0 <= i < decimal(n).len() ==> '0' <= #[trigger] decimal(n)[i] && decimal(n)[i] <= '9',
        n > 0 ==> decimal(n)[0] != '0',
    decreases n,
{
    if n >= 10 {
        law_decimals_spell_their_number(n / 10);
        assert(decimal(n).drop_last() =~= decimal(n / 10));
        assert(decimal(n).last() == digit(n % 10));
        assert(decimal(n)[0] == decimal(n / 10)[0]);
    } else {
        reveal_with_fuel(spelled, 2);
        assert(decimal(n).drop_last() =~= Seq::<char>::empty());
    }
}

/// Texts are read one by one, in their order.
pub proof fn law_texts_are_read_in_order(list: Seq<String>, k: int)
    requires
        0 <= k < list.len(),
    ensures
        texts(list).len() == list.len(),
        texts(list)[k] == list[k]@,
{
}

/// A text that is there reads as it is; one that is not reads as none.
pub proof fn law_missing_texts_read_as_none(value: Option<String>)
    ensures
        value is None ==> opt_text(value) is None,
        value matches Some(s) ==> opt_text(value) == Some(s@),
{
}

} // verus!
