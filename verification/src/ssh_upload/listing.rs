//! What the remote listing script prints, and paths made of it.
use core::cmp::Ordering;

use vstd::prelude::*;

use crate::text::{
    ascii_lowercase, chars_of, compare_chars, concat2, find_last, last_index, lexical, lines,
    lines_of, lowercase_chars, same_text, starts_with, string_of, texts,
};

verus! {

pub struct RemoteDirectoryListing {
    pub current_dir: String,
    pub entries: Vec<String>,
}

pub open spec fn pwd_mark() -> Seq<char> {
    seq!['_', '_', 'P', 'W', 'D', '_', '_']
}

pub open spec fn dir_mark() -> Seq<char> {
    seq!['_', '_', 'D', 'I', 'R', '_', '_']
}

pub open spec fn parent_name() -> Seq<char> {
    seq!['.', '.']
}

/// The directory that the last marked line names.
pub open spec fn listed_dir(lines: Seq<Seq<char>>) -> Option<Seq<char>>
    decreases lines.len(),
{
    if lines.len() == 0 {
        None
    } else if starts_with(lines.last(), pwd_mark()) {
        Some(lines.last().skip(7))
    } else {
        listed_dir(lines.drop_last())
    }
}

/// The entries that the marked lines name, in their order.
pub open spec fn listed_entries(lines: Seq<Seq<char>>) -> Seq<Seq<char>>
    decreases lines.len(),
{
    if lines.len() == 0 {
        Seq::empty()
    } else if starts_with(lines.last(), dir_mark()) {
        listed_entries(lines.drop_last()).push(lines.last().skip(7))
    } else {
        listed_entries(lines.drop_last())
    }
}

/// The parent first, then by name without regard to ASCII case: negative, zero
/// or positive.
pub open spec fn entry_order(left: Seq<char>, right: Seq<char>) -> int {
    if left == parent_name() && right != parent_name() {
        -1
    } else if left != parent_name() && right == parent_name() {
        1
    } else {
        lexical(ascii_lowercase(left), ascii_lowercase(right))
    }
}

/// `list` with `entry` put behind everything that does not come after it.
pub open spec fn insert_entry(list: Seq<Seq<char>>, entry: Seq<char>) -> Seq<Seq<char>>
    decreases list.len(),
{
    if list.len() > 0 && entry_order(list.last(), entry) > 0 {
        insert_entry(list.drop_last(), entry).push(list.last())
    } else {
        list.push(entry)
    }
}

/// `list` in order, equals staying as they stood.
pub open spec fn sorted_entries(list: Seq<Seq<char>>) -> Seq<Seq<char>>
    decreases list.len(),
{
    if list.len() == 0 {
        Seq::empty()
    } else {
        insert_entry(sorted_entries(list.drop_last()), list.last())
    }
}

/// `list` without the repetitions of a neighbour.
pub open spec fn without_repeats(list: Seq<Seq<char>>) -> Seq<Seq<char>>
    decreases list.len(),
{
    if list.len() == 0 {
        Seq::empty()
    } else {
        let head = without_repeats(list.drop_last());
        if list.len() > 1 && list[list.len() - 2] == list.last() {
            head
        } else {
            head.push(list.last())
        }
    }
}

pub fn sort_remote_entries(left: &str, right: &str) -> (order: Ordering)
    ensures
        (order == Ordering::Less) == (entry_order(left@, right@) < 0),
        (order == Ordering::Equal) == (entry_order(left@, right@) == 0),
        (order == Ordering::Greater) == (entry_order(left@, right@) > 0),
{
    let order: i8 = signed_order(left, right);
    if order < 0 {
        Ordering::Less
    } else if order > 0 {
        Ordering::Greater
    } else {
        Ordering::Equal
    }
}

fn is_parent(name: &str) -> (yes: bool)
    ensures
        yes == (name@ == parent_name()),
{
    proof {
        reveal_strlit("..");
        assert(".."@ =~= parent_name());
    }
    same_text(name, "..")
}

fn signed_order(left: &str, right: &str) -> (order: i8)
    ensures
        order == entry_order(left@, right@),
{
    let left_parent = is_parent(left);
    let right_parent = is_parent(right);
    if left_parent && !right_parent {
        return -1;
    }
    if !left_parent && right_parent {
        return 1;
    }
    let a = lowercase_chars(chars_of(left).as_slice());
    let b = lowercase_chars(chars_of(right).as_slice());
    compare_chars(a.as_slice(), b.as_slice())
}

/// Puts `entry` into the ordered `list`.
fn insert_in_order(list: &mut Vec<String>, entry: String)
    ensures
        texts(final(list)@) == insert_entry(texts(old(list)@), entry@),
{
    let ghost before = texts(list@);
    let ghost text = entry@;
    let mut at: usize = list.len();
    assert(before.take(at as int) =~= before);
    assert(before.skip(at as int) =~= Seq::<Seq<char>>::empty());
    while at > 0 && signed_order(list[at - 1].as_str(), entry.as_str()) > 0
        invariant
            list@ == old(list)@,
            before == texts(list@),
            text == entry@,
            at <= list@.len(),
            insert_entry(before, text) =~= insert_entry(before.take(at as int), text) + before.skip(
                at as int,
            ),
        decreases at,
    {
        assert(before.take(at as int).drop_last() =~= before.take(at - 1));
        assert(before.take(at as int).last() == list@[at - 1]@);
        assert(insert_entry(before.take(at as int), text) == insert_entry(
            before.take(at - 1),
            text,
        ).push(before[at - 1]));
        at = at - 1;
    }
    proof {
        let front = before.take(at as int);
        if at > 0 {
            assert(front.last() == list@[at - 1]@);
        }
        assert(insert_entry(front, text) == front.push(text));
        assert(before.insert(at as int, text) =~= front.push(text) + before.skip(at as int));
    }
    list.insert(at, entry);
    assert(texts(list@) =~= before.insert(at as int, text));
}

fn copy_deduped(list: &Vec<String>) -> (kept: Vec<String>)
    ensures
        texts(kept@) == without_repeats(texts(list@)),
{
    let mut kept: Vec<String> = Vec::new();
    let mut i: usize = 0;
    assert(texts(kept@) =~= without_repeats(texts(list@).take(0)));
    while i < list.len()
        invariant
            i <= list@.len(),
            texts(kept@) == without_repeats(texts(list@).take(i as int)),
        decreases list@.len() - i,
    {
        let ghost next = texts(list@).take(i + 1);
        assert(next.drop_last() =~= texts(list@).take(i as int));
        if i == 0 || !same_text(list[i - 1].as_str(), list[i].as_str()) {
            let ghost before = kept@;
            kept.push(list[i].clone());
            assert(texts(kept@) =~= texts(before).push(list@[i as int]@));
        }
        i = i + 1;
    }
    assert(texts(list@).take(i as int) =~= texts(list@));
    kept
}

pub open spec fn no_directory_text() -> Seq<char> {
    "remote directory listing did not include a working directory"@
}

/// Reads what the listing script printed.
pub fn parse_remote_directory_listing(output: &str) -> (listing: Result<
    RemoteDirectoryListing,
    String,
>)
    ensures
        match (listing, listed_dir(lines(output@))) {
            (Ok(found), Some(dir)) => found.current_dir@ == dir && texts(found.entries@)
                == without_repeats(sorted_entries(listed_entries(lines(output@)))),
            (Err(error), None) => error@ == no_directory_text(),
            _ => false,
        },
{
    let all = lines_of(output);
    let ghost whole = lines(output@);
    let mut dir: Option<String> = None;
    let mut entries: Vec<String> = Vec::new();
    let mut i: usize = 0;
    assert(texts(entries@) =~= sorted_entries(listed_entries(whole.take(0))));
    while i < all.len()
        invariant
            texts(all@) == whole,
            i <= all@.len(),
            crate::text::opt_text(dir) == listed_dir(whole.take(i as int)),
            texts(entries@) == sorted_entries(listed_entries(whole.take(i as int))),
        decreases all@.len() - i,
    {
        let ghost next = whole.take(i + 1);
        assert(next.drop_last() =~= whole.take(i as int));
        assert(next.last() == all@[i as int]@);
        let line = all[i].as_str();
        proof {
            reveal_strlit("__PWD__");
            reveal_strlit("__DIR__");
            assert("__PWD__"@ =~= pwd_mark());
            assert("__DIR__"@ =~= dir_mark());
        }
        if crate::text::has_prefix(line, "__PWD__") {
            let chars = chars_of(line);
            let path = string_of(chars.as_slice(), 7, chars.len());
            assert(path@ =~= line@.skip(7));
            assert(line@.take(7)[2] == 'P');
            assert(!starts_with(line@, dir_mark())) by {
                if starts_with(line@, dir_mark()) {
                    assert(line@.take(7)[2] == 'D');
                }
            }
            dir = Some(path);
        } else if crate::text::has_prefix(line, "__DIR__") {
            let chars = chars_of(line);
            let entry = string_of(chars.as_slice(), 7, chars.len());
            assert(entry@ =~= line@.skip(7));
            proof {
                let found = listed_entries(next);
                assert(found.drop_last() =~= listed_entries(whole.take(i as int)));
            }
            insert_in_order(&mut entries, entry);
        }
        i = i + 1;
    }
    assert(whole.take(i as int) =~= whole);
    match dir {
        None => Err(
            "remote directory listing did not include a working directory".to_owned(),
        ),
        Some(current_dir) => Ok(
            RemoteDirectoryListing { current_dir, entries: copy_deduped(&entries) },
        ),
    }
}

/// The path of the entry `name` of the directory `dir`; `..` names the parent.
pub open spec fn browser_path(dir: Seq<char>, name: Seq<char>) -> Seq<char> {
    if name == parent_name() {
        let at = last_index(dir, '/');
        if at <= 0 {
            seq!['/']
        } else {
            dir.take(at)
        }
    } else if dir.len() > 0 && dir.last() == '/' {
        dir + name
    } else {
        dir.push('/') + name
    }
}

pub fn join_remote_browser_path(dir: &str, name: &str) -> (path: String)
    ensures
        path@ == browser_path(dir@, name@),
{
    let chars = chars_of(dir);
    if is_parent(name) {
        let at: usize = match find_last(chars.as_slice(), '/') {
            Some(i) => i,
            None => 0,
        };
        if at == 0 {
            let mut root = String::new();
            root.push('/');
            assert(root@ =~= seq!['/']);
            return root;
        }
        let parent = string_of(chars.as_slice(), 0, at);
        assert(parent@ =~= dir@.take(at as int));
        return parent;
    }
    if chars.len() > 0 && chars[chars.len() - 1] == '/' {
        return concat2(dir, name);
    }
    let mut path = dir.to_owned();
    path.push('/');
    path.append(name);
    path
}

proof fn lemma_lexical_order(a: Seq<char>, b: Seq<char>, c: Seq<char>)
    ensures
        lexical(a, a) == 0,
        lexical(a, b) > 0 ==> lexical(b, a) < 0,
        lexical(a, b) < 0 ==> lexical(b, a) > 0,
        lexical(a, b) == 0 ==> lexical(b, a) == 0,
        lexical(a, b) <= 0 && lexical(b, c) <= 0 ==> lexical(a, c) <= 0,
    decreases a.len(),
{
    if a.len() > 0 && b.len() > 0 && c.len() > 0 {
        lemma_lexical_order(a.drop_first(), b.drop_first(), c.drop_first());
    } else if a.len() > 0 && b.len() > 0 {
        lemma_lexical_order(a.drop_first(), b.drop_first(), c);
    } else if a.len() > 0 {
        lemma_lexical_order(a.drop_first(), b, c);
    }
}

proof fn lemma_entry_order(a: Seq<char>, b: Seq<char>, c: Seq<char>)
    ensures
        entry_order(a, b) > 0 ==> entry_order(b, a) <= 0,
        entry_order(a, b) <= 0 && entry_order(b, c) <= 0 ==> entry_order(a, c) <= 0,
{
    lemma_lexical_order(ascii_lowercase(a), ascii_lowercase(b), ascii_lowercase(c));
    lemma_lexical_order(ascii_lowercase(b), ascii_lowercase(a), ascii_lowercase(c));
}

/// Every entry comes no later than those behind it.
pub open spec fn in_order(list: Seq<Seq<char>>) -> bool {
    forall|i: int, j: int|
        0 <= i < j < list.len() ==> entry_order(#[trigger] list[i], #[trigger] list[j]) <= 0
}

proof fn lemma_insert_entry(list: Seq<Seq<char>>, entry: Seq<char>)
    requires
        in_order(list),
    ensures
        in_order(insert_entry(list, entry)),
        insert_entry(list, entry).to_multiset() == list.to_multiset().insert(entry),
        insert_entry(list, entry).len() == list.len() + 1,
        forall|k: int|
            0 <= k < insert_entry(list, entry).len() ==> (#[trigger] insert_entry(list, entry)[k]
                == entry || list.contains(insert_entry(list, entry)[k])),
    decreases list.len(),
{
    broadcast use vstd::seq_lib::group_to_multiset_ensures;

    if list.len() > 0 && entry_order(list.last(), entry) > 0 {
        let head = list.drop_last();
        lemma_insert_entry(head, entry);
        let mid = insert_entry(head, entry);
        let out = mid.push(list.last());
        assert forall|i: int, j: int| 0 <= i < j < out.len() implies entry_order(
            #[trigger] out[i],
            #[trigger] out[j],
        ) <= 0 by {
            if j == out.len() - 1 {
                assert(mid[i] == entry || head.contains(mid[i]));
                if mid[i] == entry {
                    lemma_entry_order(list.last(), entry, entry);
                } else {
                    let k = choose|k: int| 0 <= k < head.len() && head[k] == mid[i];
                    assert(list[k] == mid[i]);
                    assert(entry_order(list[k], list[list.len() - 1]) <= 0);
                }
            } else {
                assert(entry_order(mid[i], mid[j]) <= 0);
            }
        }
        assert(list =~= head.push(list.last()));
        assert(out.to_multiset() =~= list.to_multiset().insert(entry));
        assert forall|k: int| 0 <= k < out.len() implies (#[trigger] out[k] == entry
            || list.contains(out[k])) by {
            if k < out.len() - 1 {
                assert(mid[k] == entry || head.contains(mid[k]));
                if head.contains(mid[k]) {
                    let m = choose|m: int| 0 <= m < head.len() && head[m] == mid[k];
                    assert(list[m] == mid[k]);
                }
            } else {
                assert(list[list.len() - 1] == out[k]);
            }
        }
    } else {
        let out = list.push(entry);
        assert forall|i: int, j: int| 0 <= i < j < out.len() implies entry_order(
            #[trigger] out[i],
            #[trigger] out[j],
        ) <= 0 by {
            if j == out.len() - 1 {
                if i < list.len() - 1 {
                    assert(entry_order(list[i], list[list.len() - 1]) <= 0);
                    lemma_entry_order(list[i], list.last(), entry);
                }
            } else {
                assert(entry_order(list[i], list[j]) <= 0);
            }
        }
        assert forall|k: int| 0 <= k < out.len() implies (#[trigger] out[k] == entry
            || list.contains(out[k])) by {
            if k < list.len() {
                assert(list[k] == out[k]);
            }
        }
    }
}

/// Sorting keeps every entry as often as it stood there, and puts them in order.
pub proof fn law_sorting_orders_the_same_entries(list: Seq<Seq<char>>)
    ensures
        in_order(sorted_entries(list)),
        sorted_entries(list).to_multiset() == list.to_multiset(),
    decreases list.len(),
{
    broadcast use vstd::seq_lib::group_to_multiset_ensures;

    if list.len() > 0 {
        law_sorting_orders_the_same_entries(list.drop_last());
        lemma_insert_entry(sorted_entries(list.drop_last()), list.last());
        assert(list =~= list.drop_last().push(list.last()));
    } else {
        assert(list =~= Seq::<Seq<char>>::empty());
    }
}

/// The entries of `list` that sort as `like` does.
pub open spec fn ties(list: Seq<Seq<char>>, like: Seq<char>) -> Seq<Seq<char>> {
    list.filter(|e: Seq<char>| entry_order(e, like) == 0)
}

proof fn lemma_filter_push(list: Seq<Seq<char>>, e: Seq<char>, like: Seq<char>)
    ensures
        ties(list.push(e), like) == (if entry_order(e, like) == 0 {
            ties(list, like).push(e)
        } else {
            ties(list, like)
        }),
{
    reveal(Seq::filter);
    assert(list.push(e).drop_last() =~= list);
}

proof fn lemma_insert_ties(list: Seq<Seq<char>>, entry: Seq<char>, like: Seq<char>)
    ensures
        ties(insert_entry(list, entry), like) == ties(list.push(entry), like),
    decreases list.len(),
{
    if list.len() > 0 && entry_order(list.last(), entry) > 0 {
        let head = list.drop_last();
        lemma_insert_ties(head, entry, like);
        lemma_filter_push(insert_entry(head, entry), list.last(), like);
        lemma_filter_push(head, entry, like);
        lemma_filter_push(head, list.last(), like);
        assert(list =~= head.push(list.last()));
        lemma_filter_push(list, entry, like);
        if entry_order(list.last(), like) == 0 && entry_order(entry, like) == 0 {
            lemma_entry_order(list.last(), like, entry);
            lemma_lexical_order(ascii_lowercase(entry), ascii_lowercase(like), ascii_lowercase(like));
            lemma_lexical_order(
                ascii_lowercase(list.last()),
                ascii_lowercase(like),
                ascii_lowercase(like),
            );
            lemma_lexical_order(ascii_lowercase(like), ascii_lowercase(like), ascii_lowercase(like));
            assert(false);
        }
    }
}

/// Entries that tie keep the order in which they were listed.
pub proof fn law_sorting_is_stable(list: Seq<Seq<char>>, like: Seq<char>)
    ensures
        ties(sorted_entries(list), like) == ties(list, like),
    decreases list.len(),
{
    if list.len() > 0 {
        let head = list.drop_last();
        law_sorting_is_stable(head, like);
        lemma_insert_ties(sorted_entries(head), list.last(), like);
        lemma_filter_push(sorted_entries(head), list.last(), like);
        lemma_filter_push(head, list.last(), like);
        assert(list =~= head.push(list.last()));
    }
}

proof fn lemma_without_repeats(list: Seq<Seq<char>>)
    requires
        in_order(list),
    ensures
        ({
            let out = without_repeats(list);
            &&& in_order(out)
            &&& out.len() > 0 <==> list.len() > 0
            &&& list.len() > 0 ==> out.last() == list.last()
            &&& forall|k: int| 0 <= k < out.len() ==> list.contains(#[trigger] out[k])
            &&& forall|k: int|
                0 < k < out.len() ==> #[trigger] out[k] != out[k - 1]
        }),
    decreases list.len(),
{
    if list.len() > 0 {
        let head = list.drop_last();
        lemma_without_repeats(head);
        let out = without_repeats(list);
        assert forall|k: int| 0 <= k < out.len() implies list.contains(#[trigger] out[k]) by {
            if k < without_repeats(head).len() {
                assert(head.contains(without_repeats(head)[k]));
                let at = choose|at: int| 0 <= at < head.len() && head[at] == out[k];
                assert(list[at] == out[k]);
            } else {
                assert(list[list.len() - 1] == out[k]);
            }
        }
        if out.len() > without_repeats(head).len() {
            assert forall|i: int, j: int| 0 <= i < j < out.len() implies entry_order(
                #[trigger] out[i],
                #[trigger] out[j],
            ) <= 0 by {
                if j == out.len() - 1 {
                    assert(head.contains(without_repeats(head)[i]));
                    let at = choose|at: int| 0 <= at < head.len() && head[at] == out[i];
                    assert(list[at] == out[i]);
                    assert(list[list.len() - 1] == out[j]);
                } else {
                    assert(entry_order(without_repeats(head)[i], without_repeats(head)[j]) <= 0);
                }
            }
        }
    }
}

/// What a listing offers is in order, and no entry is offered twice in a row.
pub proof fn law_a_listing_is_in_order_without_equal_neighbours(list: Seq<Seq<char>>)
    ensures
        in_order(without_repeats(sorted_entries(list))),
        forall|k: int|
            0 < k < without_repeats(sorted_entries(list)).len() ==> #[trigger] without_repeats(
                sorted_entries(list),
            )[k] != without_repeats(sorted_entries(list))[k - 1],
{
    law_sorting_orders_the_same_entries(list);
    lemma_without_repeats(sorted_entries(list));
}

/// Where no two names differ in their ASCII case alone, no entry is offered twice.
pub proof fn law_a_listing_offers_no_entry_twice(list: Seq<Seq<char>>)
    requires
        forall|i: int, j: int|
            0 <= i < list.len() && 0 <= j < list.len() && entry_order(
                #[trigger] list[i],
                #[trigger] list[j],
            ) == 0 ==> list[i] == list[j],
    ensures
        without_repeats(sorted_entries(list)).no_duplicates(),
{
    broadcast use vstd::seq_lib::group_to_multiset_ensures;

    let sorted = sorted_entries(list);
    let out = without_repeats(sorted);
    law_sorting_orders_the_same_entries(list);
    lemma_without_repeats(sorted);
    assert forall|k: int| 0 <= k < out.len() implies list.contains(#[trigger] out[k]) by {
        assert(sorted.contains(out[k]));
        assert(list.to_multiset().count(out[k]) > 0);
    }
    assert forall|i: int, j: int| 0 <= i < j < out.len() implies out[i] != out[j] by {
        if out[i] == out[j] {
            let (a, b) = (out[i], out[i + 1]);
            assert(out[i + 1] != out[i + 1 - 1]);
            assert(entry_order(a, b) <= 0);
            if i + 1 < j {
                assert(entry_order(out[i + 1], out[j]) <= 0);
            }
            assert(entry_order(b, a) <= 0);
            lemma_lexical_order(ascii_lowercase(a), ascii_lowercase(b), ascii_lowercase(a));
            assert(entry_order(a, b) == 0);
            assert(list.contains(out[i]) && list.contains(out[i + 1]));
            let p = choose|p: int| 0 <= p < list.len() && list[p] == a;
            let q = choose|q: int| 0 <= q < list.len() && list[q] == b;
            assert(list[p] == list[q]);
        }
    }
}

/// Where the parent is among the entries, it stands first in the sorted list.
pub proof fn law_parent_stands_first(list: Seq<Seq<char>>)
    requires
        list.contains(parent_name()),
    ensures
        sorted_entries(list).len() > 0,
        sorted_entries(list)[0] == parent_name(),
{
    broadcast use vstd::seq_lib::group_to_multiset_ensures;

    law_sorting_orders_the_same_entries(list);
    let out = sorted_entries(list);
    assert(list.to_multiset().count(parent_name()) > 0);
    assert(out.contains(parent_name()));
    let k = choose|k: int| 0 <= k < out.len() && out[k] == parent_name();
    if out[0] != parent_name() {
        assert(entry_order(out[0], out[k]) <= 0);
    }
}

/// A line that starts with `__DIR__` names an entry, one that starts with
/// `__PWD__` the directory itself, of which the last counts; any other line
/// says nothing.
pub proof fn law_marked_lines_make_a_listing(
    lines: Seq<Seq<char>>,
    line: Seq<char>,
    name: Seq<char>,
)
    requires
        !starts_with(line, seq!['_', '_', 'D', 'I', 'R', '_', '_']),
        !starts_with(line, seq!['_', '_', 'P', 'W', 'D', '_', '_']),
    ensures
        listed_dir(Seq::empty()) is None,
        listed_entries(Seq::empty()) == Seq::<Seq<char>>::empty(),
        ({
            let dir = lines.push(seq!['_', '_', 'D', 'I', 'R', '_', '_'] + name);
            &&& listed_entries(dir) == listed_entries(lines).push(name)
            &&& listed_dir(dir) == listed_dir(lines)
        }),
        ({
            let pwd = lines.push(seq!['_', '_', 'P', 'W', 'D', '_', '_'] + name);
            &&& listed_dir(pwd) == Some(name)
            &&& listed_entries(pwd) == listed_entries(lines)
        }),
        listed_entries(lines.push(line)) == listed_entries(lines),
        listed_dir(lines.push(line)) == listed_dir(lines),
{
    let d = seq!['_', '_', 'D', 'I', 'R', '_', '_'];
    let p = seq!['_', '_', 'P', 'W', 'D', '_', '_'];
    crate::text::law_prefixes_and_parts(Seq::empty(), d, name);
    crate::text::law_prefixes_and_parts(Seq::empty(), p, name);
    assert((d + name).skip(7) =~= name);
    assert((p + name).skip(7) =~= name);
    assert((d + name).take(7)[2] == 'D');
    assert((p + name).take(7)[2] == 'P');
    assert(lines.push(d + name).drop_last() =~= lines);
    assert(lines.push(p + name).drop_last() =~= lines);
    assert(lines.push(line).drop_last() =~= lines);
}

/// The parent comes before every other entry; of two others, the one whose small
/// letters differ first by a smaller character does.
pub proof fn law_entries_are_ordered_by_name(left: Seq<char>, right: Seq<char>)
    ensures
        left == seq!['.', '.'] && right != seq!['.', '.'] ==> entry_order(left, right) < 0
            && entry_order(right, left) > 0,
        left != seq!['.', '.'] && right != seq!['.', '.'] ==> entry_order(left, right) == lexical(
            ascii_lowercase(left),
            ascii_lowercase(right),
        ),
        left == right ==> entry_order(left, right) == 0,
{
    lemma_lexical_order(ascii_lowercase(left), ascii_lowercase(right), ascii_lowercase(left));
}

/// An entry's path is that of its directory, a slash and its name; the parent's
/// is the directory's own path up to its last slash, and the root's parent is
/// the root.
pub proof fn law_entries_are_below_their_directory(head: Seq<char>, dir: Seq<char>, name: Seq<char>)
    requires
        head.len() > 0,
        dir.len() > 0 && !dir.contains('/'),
        name != seq!['.', '.'],
    ensures
        browser_path(head.push('/') + dir, name) == head.push('/') + dir + seq!['/'] + name,
        browser_path(seq!['/'], name) == seq!['/'] + name,
        browser_path(head.push('/') + dir, seq!['.', '.']) == head,
        browser_path(seq!['/'], seq!['.', '.']) == seq!['/'],
        browser_path(seq!['/'] + dir, seq!['.', '.']) == seq!['/'],
{
    let whole = head.push('/') + dir;
    assert forall|i: int| 0 <= i < dir.len() implies dir[i] != '/' by {
        if dir[i] == '/' {
            assert(dir.contains('/'));
        }
    }
    assert(whole.last() == dir.last());
    assert(dir[dir.len() - 1] != '/');
    crate::text::lemma_last_index(whole, '/', head.len() as int);
    assert(whole.take(head.len() as int) =~= head);
    assert(whole.push('/') + name =~= head.push('/') + dir + seq!['/'] + name);
    crate::text::lemma_last_index(seq!['/'], '/', 0);
    let top = seq!['/'] + dir;
    crate::text::lemma_last_index(top, '/', 0);
}

} // verus!
