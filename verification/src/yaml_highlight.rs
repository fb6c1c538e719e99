//! Colours for the YAML of configuration files: keys, quoted strings, comments,
//! booleans and numbers.
use vstd::prelude::*;
use vstd::slice::slice_subrange;

use crate::text::{
    ascii_lowercase, chars_of, find_first, first_index, is_white_space, lemma_trim_start,
    lowercase_chars, same_chars, trim, trim_span, trim_start, white_space,
};
use crate::util::{byte_len, utf8_len, utf8_len_of};

verus! {

#[derive(Clone, Copy, Debug, PartialEq, Eq, Structural)]
pub enum Tone {
    Plain,
    Comment,
    Key,
    /// What separates: a colon, the dash of a list.
    Mark,
    Quoted,
    /// A number, a boolean, a null.
    Constant,
}

/// A run of characters of one tone.
#[derive(Clone, Copy, Debug, PartialEq, Eq, Structural)]
pub struct Run {
    pub len: usize,
    pub tone: Tone,
}

pub open spec fn run(len: int, tone: Tone) -> Run {
    Run { len: len as usize, tone }
}

pub open spec fn is_digit(c: char) -> bool {
    '0' <= c <= '9'
}

pub open spec fn is_sign(c: char) -> bool {
    c == '+' || c == '-'
}

/// Where the digits that start at `i` end.
pub open spec fn digits_end(s: Seq<char>, i: int) -> int
    decreases s.len() - i,
{
    if 0 <= i < s.len() && is_digit(s[i]) {
        digits_end(s, i + 1)
    } else {
        i
    }
}

/// Nothing, or an exponent, from `i` to the end.
pub open spec fn exponent_from(s: Seq<char>, i: int) -> bool {
    i == s.len() || {
        let j = if i + 1 < s.len() && is_sign(s[i + 1]) {
            i + 2
        } else {
            i + 1
        };
        &&& s[i] == 'e' || s[i] == 'E'
        &&& j < s.len()
        &&& digits_end(s, j) == s.len()
    }
}

/// Digits with at most one point among or around them, and an exponent.
pub open spec fn number_from(s: Seq<char>, i: int) -> bool {
    let whole = digits_end(s, i);
    if whole < s.len() && s[whole] == '.' {
        let part = digits_end(s, whole + 1);
        (whole > i || part > whole + 1) && exponent_from(s, part)
    } else {
        whole > i && exponent_from(s, whole)
    }
}

/// A decimal number, an infinity, or no number, with or without a sign.
pub open spec fn float_text(s: Seq<char>) -> bool {
    let i = if s.len() > 0 && is_sign(s[0]) {
        1
    } else {
        0int
    };
    let word = ascii_lowercase(s.skip(i));
    word == "inf"@ || word == "infinity"@ || word == "nan"@ || number_from(s, i)
}

pub open spec fn constant_text(s: Seq<char>) -> bool {
    s == "true"@ || s == "false"@ || s == "yes"@ || s == "no"@ || s == "null"@ || s == "~"@
        || float_text(s)
}

pub open spec fn quoted_text(s: Seq<char>) -> bool {
    s.len() >= 2 && ((s[0] == '"' && s.last() == '"') || (s[0] == '\'' && s.last() == '\''))
}

pub open spec fn value_tone(s: Seq<char>) -> Tone {
    if s.len() == 0 {
        Tone::Plain
    } else if quoted_text(s) {
        Tone::Quoted
    } else if constant_text(s) {
        Tone::Constant
    } else {
        Tone::Plain
    }
}

/// How many line feeds `s` ends in.
pub open spec fn feeds(s: Seq<char>) -> int
    decreases s.len(),
{
    if s.len() > 0 && s.last() == '\n' {
        1 + feeds(s.drop_last())
    } else {
        0
    }
}

/// A value has the tone of what it is; the end of its line has none.
pub open spec fn value_runs(s: Seq<char>) -> Seq<Run> {
    let trailing = feeds(s);
    let held = s.take(s.len() - trailing);
    let value = if held.len() > 0 {
        seq![run(held.len() as int, value_tone(trim(held)))]
    } else {
        Seq::empty()
    };
    if trailing > 0 {
        value.push(run(trailing, Tone::Plain))
    } else {
        value
    }
}

/// The first colon from `i` on that is not within quotes and stands before
/// white space or at the end.
pub open spec fn colon_from(s: Seq<char>, i: int, single: bool, double: bool) -> Option<int>
    decreases s.len() - i,
{
    if i < 0 || i >= s.len() {
        None
    } else if s[i] == '\'' && !double {
        colon_from(s, i + 1, !single, double)
    } else if s[i] == '"' && !single {
        colon_from(s, i + 1, single, !double)
    } else if s[i] == ':' && !single && !double && (i + 1 == s.len() || white_space(
        s[i + 1],
    )) {
        Some(i)
    } else {
        colon_from(s, i + 1, single, double)
    }
}

pub open spec fn indent_of(line: Seq<char>) -> int {
    line.len() - trim_start(line).len()
}

/// Where the colon of a mapping stands in a line.
pub open spec fn mapping_colon(line: Seq<char>) -> Option<int> {
    match colon_from(trim_start(line), 0, false, false) {
        Some(i) => Some(indent_of(line) + i),
        None => None,
    }
}

/// A `#` starts a comment at the start of a line, behind nothing but blanks, or
/// behind a space.
pub open spec fn comment_at(line: Seq<char>) -> Option<int> {
    let hash = first_index(line, '#');
    if 0 <= hash < line.len() && ((forall|i: int|
        0 <= i < hash ==> (#[trigger] line[i] == ' ' || line[i] == '\t')) || (hash > 0 && line[hash
        - 1] == ' ')) {
        Some(hash)
    } else {
        None
    }
}

/// A key, its colon with the space behind it, and the value.
pub open spec fn mapping_runs(line: Seq<char>, colon: int) -> Seq<Run> {
    let mark = if colon + 1 < line.len() && line[colon + 1] == ' ' {
        2
    } else {
        1int
    };
    seq![run(colon, Tone::Key), run(mark, Tone::Mark)] + value_runs(line.skip(colon + mark))
}

/// An entry of a list, or a line of its own.
pub open spec fn plain_runs(line: Seq<char>) -> Seq<Run> {
    let indent = indent_of(line);
    let rest = line.skip(indent);
    let lead = if indent > 0 {
        seq![run(indent, Tone::Plain)]
    } else {
        Seq::empty()
    };
    if rest.len() >= 2 && rest[0] == '-' && rest[1] == ' ' {
        lead.push(run(2, Tone::Mark)) + value_runs(rest.skip(2))
    } else {
        lead + value_runs(rest)
    }
}

pub open spec fn line_runs(line: Seq<char>) -> Seq<Run> {
    match comment_at(line) {
        Some(hash) => {
            let lead = if hash > 0 {
                seq![run(hash, Tone::Plain)]
            } else {
                Seq::empty()
            };
            lead.push(run(line.len() - hash, Tone::Comment))
        },
        None => match mapping_colon(line) {
            Some(colon) => mapping_runs(line, colon),
            None => plain_runs(line),
        },
    }
}

/// Where the first line ends, with its line feed.
pub open spec fn line_end(s: Seq<char>) -> int {
    let at = first_index(s, '\n');
    if 0 <= at < s.len() {
        at + 1
    } else {
        s.len() as int
    }
}

/// The runs of a text, line by line.
pub open spec fn yaml_runs(s: Seq<char>) -> Seq<Run>
    decreases s.len(),
{
    let end = line_end(s);
    if s.len() == 0 || end <= 0 || end > s.len() {
        Seq::empty()
    } else {
        line_runs(s.take(end)) + yaml_runs(s.skip(end))
    }
}

pub open spec fn total(runs: Seq<Run>) -> int
    decreases runs.len(),
{
    if runs.len() == 0 {
        0
    } else {
        total(runs.drop_last()) + runs.last().len
    }
}

proof fn lemma_total_add(a: Seq<Run>, b: Seq<Run>)
    ensures
        total(a + b) == total(a) + total(b),
    decreases b.len(),
{
    if b.len() == 0 {
        assert(a + b =~= a);
    } else {
        lemma_total_add(a, b.drop_last());
        assert((a + b).drop_last() =~= a + b.drop_last());
    }
}

proof fn lemma_feeds(s: Seq<char>)
    ensures
        0 <= feeds(s) <= s.len(),
    decreases s.len(),
{
    if s.len() > 0 && s.last() == '\n' {
        lemma_feeds(s.drop_last());
    }
}

proof fn lemma_total_one(r: Run)
    ensures
        total(seq![r]) == r.len,
        total(Seq::<Run>::empty()) == 0,
{
    let one = seq![r];
    assert(one.drop_last() =~= Seq::<Run>::empty());
    assert(total(one.drop_last()) == 0);
    assert(one.last() == r);
}

proof fn lemma_value_total(s: Seq<char>)
    requires
        s.len() <= usize::MAX,
    ensures
        total(value_runs(s)) == s.len(),
{
    lemma_feeds(s);
    let trailing = feeds(s);
    let held = s.take(s.len() - trailing);
    let first = run(held.len() as int, value_tone(trim(held)));
    let value = if held.len() > 0 {
        seq![first]
    } else {
        Seq::empty()
    };
    lemma_total_one(first);
    if trailing > 0 {
        assert(value_runs(s) =~= value + seq![run(trailing, Tone::Plain)]);
        lemma_total_one(run(trailing, Tone::Plain));
        lemma_total_add(value, seq![run(trailing, Tone::Plain)]);
    }
}

proof fn lemma_trim_start_len(s: Seq<char>)
    ensures
        trim_start(s).len() <= s.len(),
        s.skip(s.len() - trim_start(s).len()) == trim_start(s),
    decreases s.len(),
{
    if s.len() > 0 && white_space(s[0]) {
        lemma_trim_start_len(s.drop_first());
        let t = trim_start(s);
        assert(s.skip(s.len() - t.len()) =~= s.drop_first().skip(s.len() - 1 - t.len()));
    } else {
        assert(s.skip(0) =~= s);
    }
}

proof fn lemma_colon(s: Seq<char>, i: int, single: bool, double: bool)
    requires
        0 <= i,
    ensures
        colon_from(s, i, single, double) matches Some(at) ==> i <= at < s.len() && s[at] == ':',
    decreases s.len() - i,
{
    if i < s.len() {
        lemma_colon(s, i + 1, single, double);
        lemma_colon(s, i + 1, !single, double);
        lemma_colon(s, i + 1, single, !double);
    }
}

proof fn lemma_line_total(line: Seq<char>)
    requires
        line.len() <= usize::MAX,
    ensures
        total(line_runs(line)) == line.len(),
{
    let none = Seq::<Run>::empty();
    match comment_at(line) {
        Some(hash) => {
            let last = run(line.len() - hash, Tone::Comment);
            let lead = run(hash, Tone::Plain);
            lemma_total_one(lead);
            lemma_total_one(last);
            lemma_total_add(seq![lead], seq![last]);
            if hash > 0 {
                assert(line_runs(line) =~= seq![lead] + seq![last]);
            } else {
                assert(line_runs(line) =~= seq![last]);
            }
        },
        None => match mapping_colon(line) {
            Some(colon) => {
                lemma_trim_start_len(line);
                lemma_colon(trim_start(line), 0, false, false);
                let mark = if colon + 1 < line.len() && line[colon + 1] == ' ' {
                    2
                } else {
                    1int
                };
                let a = run(colon, Tone::Key);
                let b = run(mark, Tone::Mark);
                lemma_total_one(a);
                lemma_total_one(b);
                lemma_total_add(seq![a], seq![b]);
                assert(seq![a, b] =~= seq![a] + seq![b]);
                lemma_value_total(line.skip(colon + mark));
                lemma_total_add(seq![a, b], value_runs(line.skip(colon + mark)));
            },
            None => {
                lemma_trim_start_len(line);
                let indent = indent_of(line);
                let rest = line.skip(indent);
                let a = run(indent, Tone::Plain);
                let b = run(2, Tone::Mark);
                let lead = if indent > 0 {
                    seq![a]
                } else {
                    none
                };
                lemma_total_one(a);
                lemma_total_one(b);
                lemma_total_add(lead, seq![b]);
                assert(lead.push(b) =~= lead + seq![b]);
                if rest.len() >= 2 && rest[0] == '-' && rest[1] == ' ' {
                    lemma_value_total(rest.skip(2));
                    lemma_total_add(lead.push(b), value_runs(rest.skip(2)));
                } else {
                    lemma_value_total(rest);
                    lemma_total_add(lead, value_runs(rest));
                }
            },
        },
    }
}

proof fn lemma_line_end(s: Seq<char>)
    ensures
        s.len() > 0 ==> 0 < line_end(s) <= s.len(),
        0 <= first_index(s, '\n') <= s.len(),
    decreases s.len(),
{
    if s.len() > 0 && s[0] != '\n' {
        lemma_line_end(s.drop_first());
    }
}

/// The runs of a text are as long as the text: every character has a colour,
/// and only one.
pub proof fn law_every_character_has_one_colour(s: Seq<char>)
    requires
        s.len() <= usize::MAX,
    ensures
        total(yaml_runs(s)) == s.len(),
    decreases s.len(),
{
    if s.len() > 0 {
        lemma_line_end(s);
        let end = line_end(s);
        lemma_line_total(s.take(end));
        law_every_character_has_one_colour(s.skip(end));
        lemma_total_add(line_runs(s.take(end)), yaml_runs(s.skip(end)));
    }
}

fn find_digits_end(s: &[char], i: usize) -> (end: usize)
    requires
        i <= s@.len(),
    ensures
        end == digits_end(s@, i as int),
        i <= end <= s@.len(),
{
    let mut end: usize = i;
    while end < s.len() && '0' <= s[end] && s[end] <= '9'
        invariant
            i <= end <= s@.len(),
            digits_end(s@, i as int) == digits_end(s@, end as int),
        decreases s@.len() - end,
    {
        end = end + 1;
    }
    end
}

fn is_exponent_from(s: &[char], i: usize) -> (yes: bool)
    requires
        i <= s@.len(),
    ensures
        yes == exponent_from(s@, i as int),
{
    let len: usize = s.len();
    if i == len {
        return true;
    }
    if s[i] != 'e' && s[i] != 'E' {
        return false;
    }
    let mut j: usize = i + 1;
    if j < len && (s[j] == '+' || s[j] == '-') {
        j = j + 1;
    }
    j < len && find_digits_end(s, j) == len
}

fn is_number_from(s: &[char], i: usize) -> (yes: bool)
    requires
        i <= s@.len(),
    ensures
        yes == number_from(s@, i as int),
{
    let whole: usize = find_digits_end(s, i);
    if whole < s.len() && s[whole] == '.' {
        let part: usize = find_digits_end(s, whole + 1);
        (whole > i || part > whole + 1) && is_exponent_from(s, part)
    } else {
        whole > i && is_exponent_from(s, whole)
    }
}

fn is_word(s: &[char], word: &str) -> (yes: bool)
    ensures
        yes == (s@ == word@),
{
    let chars = chars_of(word);
    same_chars(s, chars.as_slice())
}

/// Whether a text reads as a floating-point number.
fn is_float_text(s: &[char]) -> (yes: bool)
    ensures
        yes == float_text(s@),
{
    let len: usize = s.len();
    let i: usize = if len > 0 && (s[0] == '+' || s[0] == '-') {
        1
    } else {
        0
    };
    let rest = slice_subrange(s, i, len);
    assert(rest@ =~= s@.skip(i as int));
    let word = lowercase_chars(rest);
    is_word(word.as_slice(), "inf") || is_word(word.as_slice(), "infinity") || is_word(
        word.as_slice(),
        "nan",
    ) || is_number_from(s, i)
}

/// Whether a value is a constant of YAML.
pub fn is_number_or_bool(s: &[char]) -> (yes: bool)
    ensures
        yes == constant_text(s@),
{
    is_word(s, "true") || is_word(s, "false") || is_word(s, "yes") || is_word(s, "no") || is_word(
        s,
        "null",
    ) || is_word(s, "~") || is_float_text(s)
}

pub fn is_quoted(s: &[char]) -> (yes: bool)
    ensures
        yes == quoted_text(s@),
{
    let len: usize = s.len();
    len >= 2 && ((s[0] == '"' && s[len - 1] == '"') || (s[0] == '\'' && s[len - 1] == '\''))
}

fn highlight_value(s: &[char], runs: &mut Vec<Run>)
    ensures
        final(runs)@ == old(runs)@ + value_runs(s@),
{
    let len: usize = s.len();
    let mut held: usize = len;
    assert(s@.take(len as int) =~= s@);
    while held > 0 && s[held - 1] == '\n'
        invariant
            held <= len,
            len == s@.len(),
            feeds(s@) == (len - held) + feeds(s@.take(held as int)),
        decreases held,
    {
        assert(s@.take(held as int).drop_last() =~= s@.take(held - 1));
        held = held - 1;
    }
    let body = slice_subrange(s, 0, held);
    assert(body@ =~= s@.take(held as int));
    let (from, to) = trim_span(body);
    let core = slice_subrange(body, from, to);
    let tone = if core.len() == 0 {
        Tone::Plain
    } else if is_quoted(core) {
        Tone::Quoted
    } else if is_number_or_bool(core) {
        Tone::Constant
    } else {
        Tone::Plain
    };
    let ghost before = runs@;
    if held > 0 {
        runs.push(Run { len: held, tone });
    }
    if len - held > 0 {
        runs.push(Run { len: len - held, tone: Tone::Plain });
    }
    assert(runs@ =~= before + value_runs(s@));
}

fn indent_len(line: &[char]) -> (indent: usize)
    ensures
        indent <= line@.len(),
        indent == indent_of(line@),
        trim_start(line@) == line@.skip(indent as int),
{
    let mut indent: usize = 0;
    while indent < line.len() && is_white_space(line[indent])
        invariant
            indent <= line@.len(),
            forall|i: int| 0 <= i < indent ==> white_space(#[trigger] line@[i]),
        decreases line@.len() - indent,
    {
        indent = indent + 1;
    }
    proof {
        lemma_trim_start(line@, indent as int);
    }
    indent
}

/// Where the colon of a mapping stands in a line.
pub fn first_mapping_colon(line: &[char]) -> (colon: Option<usize>)
    ensures
        match colon {
            Some(at) => mapping_colon(line@) == Some(at as int) && at < line@.len(),
            None => mapping_colon(line@) is None,
        },
{
    let indent: usize = indent_len(line);
    let len: usize = line.len();
    let rest = slice_subrange(line, indent, len);
    assert(rest@ =~= trim_start(line@));
    let mut single = false;
    let mut double = false;
    let mut i: usize = 0;
    while i < rest.len()
        invariant
            i <= rest@.len(),
            indent <= len,
            len == line@.len(),
            indent == indent_of(line@),
            rest@ == trim_start(line@),
            rest@.len() == len - indent,
            colon_from(rest@, 0, false, false) == colon_from(rest@, i as int, single, double),
        decreases rest@.len() - i,
    {
        let c = rest[i];
        if c == '\'' && !double {
            single = !single;
        } else if c == '"' && !single {
            double = !double;
        } else if c == ':' && !single && !double {
            let ends = i + 1 == rest.len() || is_white_space(rest[i + 1]);
            if ends {
                return Some(indent + i);
            }
        }
        i = i + 1;
    }
    None
}

fn comment_start(line: &[char]) -> (hash: Option<usize>)
    ensures
        match hash {
            Some(at) => comment_at(line@) == Some(at as int) && at < line@.len(),
            None => comment_at(line@) is None,
        },
{
    let hash: usize = find_first(line, '#');
    if hash == line.len() {
        return None;
    }
    let mut i: usize = 0;
    while i < hash && (line[i] == ' ' || line[i] == '\t')
        invariant
            i <= hash < line@.len(),
            forall|j: int| 0 <= j < i ==> (#[trigger] line@[j] == ' ' || line@[j] == '\t'),
        decreases hash - i,
    {
        i = i + 1;
    }
    if i == hash || (hash > 0 && line[hash - 1] == ' ') {
        Some(hash)
    } else {
        assert(!(line@[i as int] == ' ' || line@[i as int] == '\t'));
        None
    }
}

fn highlight_line(line: &[char], runs: &mut Vec<Run>)
    ensures
        final(runs)@ == old(runs)@ + line_runs(line@),
{
    let ghost before = runs@;
    let len: usize = line.len();
    if let Some(hash) = comment_start(line) {
        if hash > 0 {
            runs.push(Run { len: hash, tone: Tone::Plain });
        }
        runs.push(Run { len: len - hash, tone: Tone::Comment });
        assert(runs@ =~= before + line_runs(line@));
        return ;
    }
    match first_mapping_colon(line) {
        Some(colon) => {
            runs.push(Run { len: colon, tone: Tone::Key });
            let mark: usize = if colon + 1 < len && line[colon + 1] == ' ' {
                2
            } else {
                1
            };
            runs.push(Run { len: mark, tone: Tone::Mark });
            let value = slice_subrange(line, colon + mark, len);
            assert(value@ =~= line@.skip(colon + mark));
            highlight_value(value, runs);
            assert(runs@ =~= before + line_runs(line@));
        },
        None => {
            let indent: usize = indent_len(line);
            if indent > 0 {
                runs.push(Run { len: indent, tone: Tone::Plain });
            }
            let rest = slice_subrange(line, indent, len);
            assert(rest@ =~= line@.skip(indent as int));
            if rest.len() >= 2 && rest[0] == '-' && rest[1] == ' ' {
                runs.push(Run { len: 2, tone: Tone::Mark });
                let value = slice_subrange(rest, 2, rest.len());
                assert(value@ =~= rest@.skip(2));
                highlight_value(value, runs);
            } else {
                highlight_value(rest, runs);
            }
            assert(runs@ =~= before + line_runs(line@));
        },
    }
}

/// The colours of a text, as runs of characters.
pub fn highlight_yaml(text: &str) -> (runs: Vec<Run>)
    ensures
        runs@ == yaml_runs(text@),
        total(runs@) == text@.len(),
{
    let chars = chars_of(text);
    let len: usize = chars.len();
    let ghost s = text@;
    let mut runs: Vec<Run> = Vec::new();
    let mut from: usize = 0;
    assert(s.skip(0) =~= s);
    assert(runs@ + yaml_runs(s) =~= yaml_runs(s));
    while from < len
        invariant
            from <= len,
            len == s.len(),
            chars@ == s,
            runs@ + yaml_runs(s.skip(from as int)) == yaml_runs(s),
        decreases len - from,
    {
        let rest = slice_subrange(chars.as_slice(), from, len);
        assert(rest@ =~= s.skip(from as int));
        let at: usize = find_first(rest, '\n');
        let end: usize = if at < rest.len() {
            at + 1
        } else {
            at
        };
        let line = slice_subrange(rest, 0, end);
        assert(line@ =~= rest@.take(end as int));
        let ghost before = runs@;
        highlight_line(line, &mut runs);
        assert(rest@.skip(end as int) =~= s.skip(from + end));
        assert(before + (line_runs(line@) + yaml_runs(rest@.skip(end as int))) =~= (before
            + line_runs(line@)) + yaml_runs(rest@.skip(end as int)));
        from = from + end;
    }
    assert(s.skip(from as int) =~= Seq::<char>::empty());
    assert(runs@ =~= yaml_runs(s));
    proof {
        law_every_character_has_one_colour(s);
    }
    runs
}

/// A run by the bytes it covers.
#[derive(Clone, Copy, Debug, PartialEq, Eq, Structural)]
pub struct Section {
    pub start: usize,
    pub end: usize,
    pub tone: Tone,
}

/// The bytes before a character.
pub open spec fn offset(s: Seq<char>, at: int) -> nat {
    byte_len(s.take(at))
}

proof fn lemma_offset_bound(s: Seq<char>, at: int)
    requires
        0 <= at <= s.len(),
    ensures
        offset(s, at) <= byte_len(s),
        at < s.len() ==> offset(s, at + 1) == offset(s, at) + utf8_len(s[at]),
    decreases s.len() - at,
{
    if at < s.len() {
        lemma_offset_bound(s, at + 1);
        assert(s.take(at + 1).drop_last() =~= s.take(at));
    } else {
        assert(s.take(at) =~= s);
    }
}

proof fn lemma_total_take(runs: Seq<Run>, i: int)
    requires
        0 <= i < runs.len(),
    ensures
        total(runs.take(i + 1)) == total(runs.take(i)) + runs[i].len,
        total(runs.take(i + 1)) <= total(runs),
        0 <= total(runs.take(i)),
    decreases runs.len() - i,
{
    assert(runs.take(i + 1).drop_last() =~= runs.take(i));
    if i + 1 < runs.len() {
        lemma_total_take(runs, i + 1);
    } else {
        assert(runs.take(i + 1) =~= runs);
    }
    lemma_total_positive(runs.take(i));
}

proof fn lemma_total_positive(runs: Seq<Run>)
    ensures
        total(runs) >= 0,
    decreases runs.len(),
{
    if runs.len() > 0 {
        lemma_total_positive(runs.drop_last());
    }
}

/// The same runs by their bytes, each where the one before ends. No text has
/// more bytes than a `usize` counts.
pub fn highlight_sections(text: &str) -> (sections: Vec<Section>)
    requires
        byte_len(text@) <= usize::MAX,
    ensures
        sections@.len() == yaml_runs(text@).len(),
        forall|i: int|
            0 <= i < sections@.len() ==> {
                let runs = yaml_runs(text@);
                &&& (#[trigger] sections@[i]).tone == runs[i].tone
                &&& sections@[i].start == offset(text@, total(runs.take(i)))
                &&& sections@[i].end == offset(text@, total(runs.take(i + 1)))
            },
{
    let runs = highlight_yaml(text);
    let chars = chars_of(text);
    let ghost s = text@;
    let mut sections: Vec<Section> = Vec::new();
    let mut at: usize = 0;
    let mut bytes: usize = 0;
    let mut i: usize = 0;
    assert(runs@.take(0) =~= Seq::<Run>::empty());
    assert(s.take(0) =~= Seq::<char>::empty());
    while i < runs.len()
        invariant
            i <= runs@.len(),
            runs@ == yaml_runs(s),
            s == text@,
            total(runs@) == s.len(),
            chars@ == s,
            byte_len(s) <= usize::MAX,
            at == total(runs@.take(i as int)),
            at <= s.len(),
            bytes == offset(s, at as int),
            sections@.len() == i,
            forall|j: int|
                0 <= j < i ==> {
                    &&& (#[trigger] sections@[j]).tone == runs@[j].tone
                    &&& sections@[j].start == offset(s, total(runs@.take(j)))
                    &&& sections@[j].end == offset(s, total(runs@.take(j + 1)))
                },
        decreases runs@.len() - i,
    {
        let start: usize = bytes;
        let ghost from = at as int;
        proof {
            lemma_total_take(runs@, i as int);
        }
        let end_at: usize = at + runs[i].len;
        while at < end_at
            invariant
                at <= end_at <= s.len(),
                chars@ == s,
                byte_len(s) <= usize::MAX,
                bytes == offset(s, at as int),
            decreases end_at - at,
        {
            proof {
                lemma_offset_bound(s, at as int);
                lemma_offset_bound(s, at + 1);
            }
            bytes = bytes + utf8_len_of(chars[at]) as usize;
            at = at + 1;
        }
        sections.push(Section { start, end: bytes, tone: runs[i].tone });
        i = i + 1;
    }
    sections
}

proof fn lemma_digits(s: Seq<char>, i: int, k: int)
    requires
        0 <= i <= k <= s.len(),
        forall|j: int| i <= j < k ==> is_digit(#[trigger] s[j]),
        k == s.len() || !is_digit(s[k]),
    ensures
        digits_end(s, i) == k,
    decreases k - i,
{
    if i < k {
        assert(is_digit(s[i]));
        lemma_digits(s, i + 1, k);
    }
}

proof fn lemma_digits_run(s: Seq<char>, i: int)
    requires
        0 <= i <= s.len(),
    ensures
        i <= digits_end(s, i) <= s.len(),
        forall|j: int| i <= j < digits_end(s, i) ==> is_digit(#[trigger] s[j]),
    decreases s.len() - i,
{
    if i < s.len() && is_digit(s[i]) {
        lemma_digits_run(s, i + 1);
    }
}

/// Digits are a number, alone, with a point among them, and with an exponent.
pub proof fn law_digits_are_numbers(whole: Seq<char>, part: Seq<char>)
    requires
        whole.len() > 0,
        part.len() > 0,
        forall|j: int| 0 <= j < whole.len() ==> '0' <= #[trigger] whole[j] <= '9',
        forall|j: int| 0 <= j < part.len() ==> '0' <= #[trigger] part[j] <= '9',
    ensures
        value_tone(whole) is Constant,
        value_tone(whole + seq!['.'] + part) is Constant,
        value_tone(whole + seq!['e'] + part) is Constant,
        value_tone(seq!['-'] + whole) is Constant,
{
    let n = whole.len() as int;
    assert(is_digit(whole[0]));
    lemma_digits(whole, 0, n);
    let point = whole + seq!['.'] + part;
    assert forall|j: int| 0 <= j < n implies is_digit(#[trigger] point[j]) by {
        assert(point[j] == whole[j]);
    }
    assert(point[n] == '.');
    lemma_digits(point, 0, n);
    assert forall|j: int| n + 1 <= j < point.len() implies is_digit(#[trigger] point[j]) by {
        assert(point[j] == part[j - n - 1]);
    }
    lemma_digits(point, n + 1, point.len() as int);
    assert(point[0] == whole[0]);
    let power = whole + seq!['e'] + part;
    assert forall|j: int| 0 <= j < n implies is_digit(#[trigger] power[j]) by {
        assert(power[j] == whole[j]);
    }
    assert(power[n] == 'e');
    lemma_digits(power, 0, n);
    assert forall|j: int| n + 1 <= j < power.len() implies is_digit(#[trigger] power[j]) by {
        assert(power[j] == part[j - n - 1]);
    }
    assert(power[n + 1] == part[0]);
    lemma_digits(power, n + 1, power.len() as int);
    assert(power[0] == whole[0]);
    let minus = seq!['-'] + whole;
    assert forall|j: int| 1 <= j < minus.len() implies is_digit(#[trigger] minus[j]) by {
        assert(minus[j] == whole[j - 1]);
    }
    lemma_digits(minus, 1, minus.len() as int);
    assert(number_from(minus, 1));
    assert(minus[0] == '-');
}

/// A number has digits, points, signs and exponents only.
pub proof fn law_numbers_hold_nothing_else(s: Seq<char>, k: int)
    requires
        number_from(s, 0),
        0 <= k < s.len(),
    ensures
        '0' <= s[k] <= '9' || s[k] == '.' || s[k] == 'e' || s[k] == 'E' || s[k] == '+' || s[k]
            == '-',
        exists|j: int| 0 <= j < s.len() && '0' <= #[trigger] s[j] <= '9',
{
    let whole = digits_end(s, 0);
    lemma_digits_run(s, 0);
    let pointed = whole < s.len() && s[whole] == '.';
    let from = if pointed {
        digits_end(s, whole + 1)
    } else {
        whole
    };
    if pointed {
        lemma_digits_run(s, whole + 1);
    }
    if from < s.len() {
        let j = if from + 1 < s.len() && is_sign(s[from + 1]) {
            from + 2
        } else {
            from + 1
        };
        lemma_digits_run(s, j);
        if k >= j {
            assert(is_digit(s[k]));
        }
    }
    if whole > 0 {
        assert(is_digit(s[0]));
    } else {
        assert(is_digit(s[whole + 1]));
    }
    if k < whole {
        assert(is_digit(s[k]));
    } else if pointed && whole < k < from {
        assert(is_digit(s[k]));
    }
}

/// The words for true, false and nothing are constants.
pub proof fn law_words_are_constants(s: Seq<char>)
    requires
        s == "true"@ || s == "false"@ || s == "yes"@ || s == "no"@ || s == "null"@ || s == "~"@,
    ensures
        value_tone(s) is Constant,
{
    reveal_strlit("true");
    reveal_strlit("false");
    reveal_strlit("yes");
    reveal_strlit("no");
    reveal_strlit("null");
    reveal_strlit("~");
}

/// What stands between two quotes of one kind is quoted, and nothing else is.
pub proof fn law_quotes_make_a_string(inner: Seq<char>, s: Seq<char>)
    ensures
        value_tone(seq!['"'] + inner + seq!['"']) is Quoted,
        value_tone(seq!['\''] + inner + seq!['\'']) is Quoted,
        value_tone(s) is Quoted <==> s.len() >= 2 && s[0] == s[s.len() - 1] && (s[0] == '"' || s[0]
            == '\''),
        value_tone(Seq::empty()) is Plain,
{
    let d = seq!['"'] + inner + seq!['"'];
    assert(d[0] == '"' && d.last() == '"');
    let q = seq!['\''] + inner + seq!['\''];
    assert(q[0] == '\'' && q.last() == '\'');
}

/// A value is one run of its tone; a line feed behind it has none.
pub proof fn law_values_are_one_run(s: Seq<char>)
    requires
        s.len() > 0,
        s.last() != '\n',
        s.len() < usize::MAX,
    ensures
        value_runs(s) =~= seq![Run { len: s.len() as usize, tone: value_tone(trim(s)) }],
        value_runs(s.push('\n')) =~= seq![
            Run { len: s.len() as usize, tone: value_tone(trim(s)) },
            Run { len: 1, tone: Tone::Plain },
        ],
{
    assert(feeds(s) == 0);
    assert(s.take(s.len() as int) =~= s);
    let t = s.push('\n');
    assert(t.drop_last() =~= s);
    assert(feeds(t) == 1);
    assert(t.take(t.len() - 1) =~= s);
}

proof fn lemma_hash(before: Seq<char>, rest: Seq<char>, c: char)
    requires
        !before.contains(c),
    ensures
        first_index(before + seq![c] + rest, c) == before.len(),
    decreases before.len(),
{
    let line = before + seq![c] + rest;
    if before.len() == 0 {
        assert(line[0] == c);
    } else {
        assert(line[0] == before[0]);
        assert(before.contains(before[0]));
        let less = before.drop_first();
        assert forall|x: char| less.contains(x) implies before.contains(x) by {
            let j = choose|j: int| 0 <= j < less.len() && less[j] == x;
            assert(before[j + 1] == x);
        }
        assert(line.drop_first() =~= less + seq![c] + rest);
        lemma_hash(less, rest, c);
    }
}

/// A hash begins a comment that goes on to the end of its line, behind a space or
/// behind nothing but blanks; behind anything else it begins none.
pub proof fn law_hashes_begin_comments(before: Seq<char>, rest: Seq<char>)
    requires
        !before.contains('#'),
        before.len() + 1 + rest.len() <= usize::MAX,
    ensures
        ({
            let line = before + seq!['#'] + rest;
            let blank = forall|i: int|
                0 <= i < before.len() ==> (#[trigger] before[i] == ' ' || before[i] == '\t');
            let spaced = before.len() > 0 && before.last() == ' ';
            &&& blank || spaced ==> line_runs(line).last() == (Run {
                len: (line.len() - before.len()) as usize,
                tone: Tone::Comment,
            })
            &&& (blank || spaced) && before.len() > 0 ==> line_runs(line).len() == 2
                && line_runs(line)[0] == (Run { len: before.len() as usize, tone: Tone::Plain })
            &&& before.len() == 0 ==> line_runs(line).len() == 1
            &&& !blank && !spaced ==> comment_at(line) is None
        }),
{
    let line = before + seq!['#'] + rest;
    lemma_hash(before, rest, '#');
    assert forall|i: int| 0 <= i < before.len() implies #[trigger] line[i] == before[i] by {}
    if forall|i: int| 0 <= i < before.len() ==> (#[trigger] before[i] == ' ' || before[i] == '\t') {
        assert forall|i: int| 0 <= i < before.len() implies (#[trigger] line[i] == ' ' || line[i]
            == '\t') by {
            assert(line[i] == before[i]);
        }
    } else {
        let i = choose|i: int|
            0 <= i < before.len() && !(#[trigger] before[i] == ' ' || before[i] == '\t');
        assert(line[i] == before[i]);
    }
    if before.len() > 0 {
        assert(line[before.len() - 1] == before.last());
    }
}

proof fn lemma_key_colon(key: Seq<char>, rest: Seq<char>, i: int)
    requires
        0 <= i <= key.len(),
        forall|j: int|
            0 <= j < key.len() ==> #[trigger] key[j] != ':' && key[j] != '"' && key[j] != '\'',
    ensures
        colon_from(key + seq![':', ' '] + rest, i, false, false) == Some(key.len() as int),
    decreases key.len() - i,
{
    let line = key + seq![':', ' '] + rest;
    if i < key.len() {
        assert(line[i] == key[i]);
        lemma_key_colon(key, rest, i + 1);
    } else {
        assert(line[i] == ':');
        assert(line[i + 1] == ' ');
        assert(white_space(' '));
    }
}

/// What stands before a colon and a space is a key; the colon and the space are a
/// mark, and what follows is the value.
pub proof fn law_keys_stand_before_a_colon(key: Seq<char>, value: Seq<char>)
    requires
        key.len() > 0,
        !white_space(key[0]),
        forall|j: int|
            0 <= j < key.len() ==> #[trigger] key[j] != ':' && key[j] != '"' && key[j] != '\''
                && key[j] != '#',
        forall|j: int| 0 <= j < value.len() ==> #[trigger] value[j] != '#',
        key.len() + 2 + value.len() <= usize::MAX,
    ensures
        line_runs(key + seq![':', ' '] + value) =~= seq![
            Run { len: key.len() as usize, tone: Tone::Key },
            Run { len: 2, tone: Tone::Mark },
        ] + value_runs(value),
{
    let line = key + seq![':', ' '] + value;
    lemma_no_hash(line, key, value);
    assert(line[0] == key[0]);
    assert(trim_start(line) == line);
    lemma_key_colon(key, value, 0);
    let colon = key.len() as int;
    assert(line[colon + 1] == ' ');
    assert(line.skip(colon + 2) =~= value);
}

proof fn lemma_no_hash(line: Seq<char>, key: Seq<char>, value: Seq<char>)
    requires
        line == key + seq![':', ' '] + value,
        forall|j: int| 0 <= j < key.len() ==> #[trigger] key[j] != '#',
        forall|j: int| 0 <= j < value.len() ==> #[trigger] value[j] != '#',
    ensures
        comment_at(line) is None,
{
    let hash = first_index(line, '#');
    lemma_found(line, '#');
    if 0 <= hash < line.len() {
        if hash < key.len() {
            assert(line[hash] == key[hash]);
        } else if hash >= key.len() + 2 {
            assert(line[hash] == value[hash - key.len() - 2]);
        }
    }
}

proof fn lemma_found(s: Seq<char>, c: char)
    ensures
        0 <= first_index(s, c) <= s.len(),
        first_index(s, c) < s.len() ==> s[first_index(s, c)] == c,
    decreases s.len(),
{
    if s.len() > 0 && s[0] != c {
        lemma_found(s.drop_first(), c);
    }
}

proof fn lemma_no_colon(s: Seq<char>, i: int)
    requires
        0 <= i,
        forall|j: int|
            0 <= j < s.len() ==> #[trigger] s[j] != ':' && s[j] != '"' && s[j] != '\'',
    ensures
        colon_from(s, i, false, false) is None,
    decreases s.len() - i,
{
    if i < s.len() {
        lemma_no_colon(s, i + 1);
    }
}

/// The dash of a list and the space behind it are a mark, and what follows is a
/// value; a line of its own is a value as a whole.
pub proof fn law_dashes_mark_entries(value: Seq<char>)
    requires
        forall|j: int|
            0 <= j < value.len() ==> #[trigger] value[j] != ':' && value[j] != '"' && value[j]
                != '\'' && value[j] != '#',
        value.len() + 2 <= usize::MAX,
    ensures
        line_runs(seq!['-', ' '] + value) =~= seq![Run { len: 2, tone: Tone::Mark }] + value_runs(
            value,
        ),
        value.len() > 0 && !white_space(value[0]) && value[0] != '-' ==> line_runs(value)
            =~= value_runs(value),
{
    let line = seq!['-', ' '] + value;
    assert forall|j: int| 0 <= j < line.len() implies #[trigger] line[j] != ':' && line[j] != '"'
        && line[j] != '\'' && line[j] != '#' by {
        if j >= 2 {
            assert(line[j] == value[j - 2]);
        }
    }
    lemma_found(line, '#');
    lemma_no_colon(line, 0);
    assert(line[0] == '-');
    assert(!white_space('-'));
    assert(trim_start(line) == line);
    assert(line.skip(0) =~= line);
    assert(line.skip(2) =~= value);
    lemma_found(value, '#');
    lemma_no_colon(value, 0);
    if value.len() > 0 && !white_space(value[0]) {
        assert(trim_start(value) == value);
        assert(value.skip(0) =~= value);
    }
}

/// A colon within quotes ends no key.
pub proof fn law_quoted_colons_end_no_key(inner: Seq<char>, quote: char)
    requires
        quote == '"' || quote == '\'',
        forall|j: int| 0 <= j < inner.len() ==> #[trigger] inner[j] != '"' && inner[j] != '\'',
    ensures
        colon_from(seq![quote] + inner + seq![quote], 0, false, false) is None,
{
    let s = seq![quote] + inner + seq![quote];
    assert(s[0] == quote);
    lemma_within(inner, quote, 1);
}

proof fn lemma_within(inner: Seq<char>, quote: char, i: int)
    requires
        quote == '"' || quote == '\'',
        1 <= i <= inner.len() + 1,
        forall|j: int| 0 <= j < inner.len() ==> #[trigger] inner[j] != '"' && inner[j] != '\'',
    ensures
        colon_from(
            seq![quote] + inner + seq![quote],
            i,
            quote == '\'',
            quote == '"',
        ) is None,
    decreases inner.len() + 1 - i,
{
    let s = seq![quote] + inner + seq![quote];
    if i <= inner.len() {
        assert(s[i] == inner[i - 1]);
        lemma_within(inner, quote, i + 1);
    } else {
        assert(s[i] == quote);
        assert(colon_from(s, i + 1, false, false) is None);
    }
}

/// Lines are coloured one by one, each with its line feed.
pub proof fn law_lines_are_coloured_one_by_one(line: Seq<char>, rest: Seq<char>)
    requires
        !line.contains('\n'),
    ensures
        yaml_runs(line + seq!['\n'] + rest) =~= line_runs(line.push('\n')) + yaml_runs(rest),
        line.len() > 0 ==> yaml_runs(line) =~= line_runs(line),
        yaml_runs(Seq::empty()).len() == 0,
{
    let s = line + seq!['\n'] + rest;
    lemma_hash(line, rest, '\n');
    assert(s.take((line.len() + 1) as int) =~= line.push('\n'));
    assert(s.skip((line.len() + 1) as int) =~= rest);
    lemma_found(line, '\n');
    if line.len() > 0 {
        if first_index(line, '\n') < line.len() {
            assert(line.contains(line[first_index(line, '\n')]));
        }
        assert(line.take(line.len() as int) =~= line);
        assert(line.skip(line.len() as int) =~= Seq::<char>::empty());
        assert(yaml_runs(line.skip(line.len() as int)).len() == 0);
    }
}

/// Sections follow each other by bytes, as the characters before them take.
pub proof fn law_offsets_count_bytes(s: Seq<char>, at: int)
    requires
        0 <= at < s.len(),
    ensures
        offset(s, 0) == 0,
        offset(s, at + 1) == offset(s, at) + utf8_len(s[at]),
{
    lemma_offset_bound(s, at);
    assert(s.take(0) =~= Seq::<char>::empty());
}

/// An infinity and what is no number are constants, with a sign or without, in
/// small letters or capitals.
pub proof fn law_infinities_are_constants(word: Seq<char>, sign: char)
    requires
        ascii_lowercase(word) == "inf"@ || ascii_lowercase(word) == "infinity"@ || ascii_lowercase(
            word,
        ) == "nan"@,
        word.len() > 0,
        word[0] != '"' && word[0] != '\'' && word[0] != '+' && word[0] != '-',
        sign == '+' || sign == '-',
    ensures
        value_tone(word) is Constant,
        value_tone(seq![sign] + word) is Constant,
{
    assert(word.skip(0) =~= word);
    let signed = seq![sign] + word;
    assert(signed[0] == sign);
    assert(signed.skip(1) =~= word);
}

} // verus!
