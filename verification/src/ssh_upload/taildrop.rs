//! Finding out whether a host takes files over Taildrop.
use vstd::prelude::*;

use crate::text::{
    after_first_word, chars_of, concat2, first_word, lines, lines_of, opt_text, same_text,
    string_of, texts, trim, trimmed, word_span,
};

verus! {

pub struct TaildropTarget {
    pub ip: String,
    pub name: Option<String>,
}

/// What a line of the target list says.
pub struct TargetView {
    pub ip: Seq<char>,
    pub name: Option<Seq<char>>,
}

impl View for TaildropTarget {
    type V = TargetView;

    open spec fn view(&self) -> TargetView {
        TargetView { ip: self.ip@, name: opt_text(self.name) }
    }
}

pub open spec fn target_views(targets: Seq<TaildropTarget>) -> Seq<TargetView> {
    targets.map_values(|t: TaildropTarget| t@)
}

/// The trimmed lines that are not blank.
pub open spec fn full_lines(lines: Seq<Seq<char>>) -> Seq<Seq<char>>
    decreases lines.len(),
{
    if lines.len() == 0 {
        Seq::empty()
    } else if trim(lines.last()).len() > 0 {
        full_lines(lines.drop_last()).push(trim(lines.last()))
    } else {
        full_lines(lines.drop_last())
    }
}

/// The first two words of a line: an address and, where there is one, a name.
pub open spec fn target_of(line: Seq<char>) -> TargetView {
    let rest = after_first_word(line);
    TargetView {
        ip: first_word(line),
        name: if first_word(rest).len() > 0 {
            Some(first_word(rest))
        } else {
            None
        },
    }
}

pub open spec fn targets_of(lines: Seq<Seq<char>>) -> Seq<TargetView> {
    full_lines(lines).map_values(|line: Seq<char>| target_of(line))
}

pub fn parse_tailscale_ips(output: &str) -> (ips: Vec<String>)
    ensures
        texts(ips@) == full_lines(lines(output@)),
{
    let all = lines_of(output);
    let ghost whole = lines(output@);
    let mut ips: Vec<String> = Vec::new();
    let mut i: usize = 0;
    assert(texts(ips@) =~= full_lines(whole.take(0)));
    while i < all.len()
        invariant
            texts(all@) == whole,
            i <= all@.len(),
            texts(ips@) == full_lines(whole.take(i as int)),
        decreases all@.len() - i,
    {
        assert(whole.take(i + 1).drop_last() =~= whole.take(i as int));
        assert(whole.take(i + 1).last() == all@[i as int]@);
        let line = trimmed(all[i].as_str());
        if !line.as_str().is_empty() {
            let ghost before = texts(ips@);
            let ghost text = line@;
            ips.push(line);
            assert(texts(ips@) =~= before.push(text));
        }
        i = i + 1;
    }
    assert(whole.take(i as int) =~= whole);
    ips
}

fn parse_target(line: &str) -> (target: TaildropTarget)
    ensures
        target@ == target_of(line@),
{
    let chars = chars_of(line);
    assert(line@.skip(0) =~= line@);
    let (from, to) = word_span(chars.as_slice(), 0);
    let ip = string_of(chars.as_slice(), from, to);
    let (next_from, next_to) = word_span(chars.as_slice(), to);
    let name = if next_from < next_to {
        Some(string_of(chars.as_slice(), next_from, next_to))
    } else {
        None
    };
    TaildropTarget { ip, name }
}

pub fn parse_taildrop_targets(output: &str) -> (targets: Vec<TaildropTarget>)
    ensures
        target_views(targets@) == targets_of(lines(output@)),
{
    let found = parse_tailscale_ips(output);
    let ghost whole = full_lines(lines(output@));
    let mut targets: Vec<TaildropTarget> = Vec::new();
    let mut i: usize = 0;
    while i < found.len()
        invariant
            texts(found@) == whole,
            i <= found@.len(),
            targets@.len() == i,
            forall|j: int| 0 <= j < i ==> (#[trigger] targets@[j])@ == target_of(whole[j]),
        decreases found@.len() - i,
    {
        assert(whole[i as int] == found@[i as int]@);
        targets.push(parse_target(found[i].as_str()));
        i = i + 1;
    }
    assert(target_views(targets@) =~= targets_of(lines(output@)));
    targets
}

/// How a run of the `tailscale` program went.
pub enum CommandRun {
    Succeeded { stdout: String },
    Unsuccessful,
    NotFound,
    Broken(String),
}

/// The addresses of the host; none where `tailscale` is missing or does not
/// know it.
pub fn tailscale_ips(run: &CommandRun) -> (ips: Result<Vec<String>, String>)
    ensures
        match run {
            CommandRun::Succeeded { stdout } => ips matches Ok(list) && texts(list@) == full_lines(
                lines(stdout@),
            ),
            CommandRun::Unsuccessful | CommandRun::NotFound => ips matches Ok(list) && list@.len()
                == 0,
            CommandRun::Broken(error) => ips matches Err(text) && text@
                == "failed to run tailscale ip: "@ + error@,
        },
{
    match run {
        CommandRun::Succeeded { stdout } => Ok(parse_tailscale_ips(stdout.as_str())),
        CommandRun::Unsuccessful | CommandRun::NotFound => Ok(Vec::new()),
        CommandRun::Broken(error) => Err(concat2("failed to run tailscale ip: ", error.as_str())),
    }
}

/// What to call a target: its name, or its address.
pub open spec fn label_of(target: TargetView) -> Seq<char> {
    match target.name {
        Some(name) => name,
        None => target.ip,
    }
}

/// The first target whose address is one of `ips`.
pub open spec fn chosen_target(targets: Seq<TargetView>, ips: Seq<Seq<char>>) -> Option<Seq<char>>
    decreases targets.len(),
{
    if targets.len() == 0 {
        None
    } else if ips.contains(targets[0].ip) {
        Some(label_of(targets[0]))
    } else {
        chosen_target(targets.drop_first(), ips)
    }
}

fn holds(ips: &Vec<String>, ip: &str) -> (yes: bool)
    ensures
        yes == texts(ips@).contains(ip@),
{
    let mut i: usize = 0;
    while i < ips.len()
        invariant
            i <= ips@.len(),
            forall|j: int| 0 <= j < i ==> texts(ips@)[j] != ip@,
        decreases ips@.len() - i,
    {
        assert(texts(ips@)[i as int] == ips@[i as int]@);
        if same_text(ips[i].as_str(), ip) {
            return true;
        }
        i = i + 1;
    }
    false
}

fn choose_target(targets: &Vec<TaildropTarget>, ips: &Vec<String>) -> (chosen: Option<String>)
    ensures
        opt_text(chosen) == chosen_target(target_views(targets@), texts(ips@)),
{
    let ghost views = target_views(targets@);
    let mut i: usize = 0;
    assert(views.skip(0) =~= views);
    while i < targets.len()
        invariant
            views == target_views(targets@),
            i <= targets@.len(),
            chosen_target(views, texts(ips@)) == chosen_target(views.skip(i as int), texts(ips@)),
        decreases targets@.len() - i,
    {
        assert(views.skip(i as int)[0] == targets@[i as int]@);
        assert(views.skip(i as int).drop_first() =~= views.skip(i + 1));
        if holds(ips, targets[i].ip.as_str()) {
            return match &targets[i].name {
                Some(name) => Some(name.clone()),
                None => Some(targets[i].ip.clone()),
            };
        }
        i = i + 1;
    }
    None
}

/// The Taildrop target of a host with the addresses `ips`, from the list of
/// targets. A host without an address has none, however the list was come by.
pub fn detect_taildrop_target(ips: &Vec<String>, run: &CommandRun) -> (target: Result<
    Option<String>,
    String,
>)
    ensures
        ips@.len() == 0 ==> (target matches Ok(chosen) && chosen is None),
        ips@.len() > 0 ==> match run {
            CommandRun::Succeeded { stdout } => target matches Ok(chosen) && opt_text(chosen)
                == chosen_target(targets_of(lines(stdout@)), texts(ips@)),
            CommandRun::Unsuccessful | CommandRun::NotFound => target matches Ok(chosen)
                && chosen is None,
            CommandRun::Broken(error) => target matches Err(text) && text@
                == "failed to query Taildrop targets: "@ + error@,
        },
{
    if ips.len() == 0 {
        return Ok(None);
    }
    match run {
        CommandRun::Succeeded { stdout } => {
            let targets = parse_taildrop_targets(stdout.as_str());
            Ok(choose_target(&targets, ips))
        },
        CommandRun::Unsuccessful | CommandRun::NotFound => Ok(None),
        CommandRun::Broken(error) => Err(
            concat2("failed to query Taildrop targets: ", error.as_str()),
        ),
    }
}

/// Addresses are the lines that are not blank, trimmed and in their order.
pub proof fn law_addresses_are_the_lines_that_are_not_blank(
    lines: Seq<Seq<char>>,
    line: Seq<char>,
)
    ensures
        full_lines(Seq::empty()) == Seq::<Seq<char>>::empty(),
        trim(line).len() == 0 ==> full_lines(lines.push(line)) == full_lines(lines),
        trim(line).len() > 0 ==> full_lines(lines.push(line)) == full_lines(lines).push(trim(line)),
{
    assert(lines.push(line).drop_last() =~= lines);
}

/// A line of the list gives an address and, behind white space, a name; what
/// else it says does not matter.
pub proof fn law_targets_are_an_address_and_a_name(
    ip: Seq<char>,
    gap: Seq<char>,
    name: Seq<char>,
    rest: Seq<char>,
)
    requires
        ip.len() > 0 && name.len() > 0 && gap.len() > 0,
        forall|i: int| 0 <= i < ip.len() ==> !crate::text::white_space(#[trigger] ip[i]),
        forall|i: int| 0 <= i < gap.len() ==> crate::text::white_space(#[trigger] gap[i]),
        forall|i: int| 0 <= i < name.len() ==> !crate::text::white_space(#[trigger] name[i]),
        rest.len() > 0 ==> crate::text::white_space(rest[0]),
    ensures
        target_of(ip) == (TargetView { ip, name: None }),
        target_of(ip + gap + name + rest) == (TargetView { ip, name: Some(name) }),
{
    let none = Seq::<char>::empty();
    crate::text::law_first_words(none, ip, none);
    assert(none + ip + none =~= ip);
    crate::text::law_first_words(none, none, none);
    assert(none + none + none =~= none);
    let tail = gap + name + rest;
    assert(tail[0] == gap[0]);
    crate::text::law_first_words(none, ip, tail);
    assert(none + ip + tail =~= ip + gap + name + rest);
    crate::text::law_first_words(gap, name, rest);
}

/// The first target that has one of the host's addresses is taken, by its name
/// where it has one and else by its address; without one there is none.
pub proof fn law_the_first_target_of_the_host_is_taken(
    targets: Seq<TargetView>,
    ips: Seq<Seq<char>>,
    k: int,
)
    requires
        0 <= k <= targets.len(),
        forall|i: int| 0 <= i < k ==> !ips.contains((#[trigger] targets[i]).ip),
        k < targets.len() ==> ips.contains(targets[k].ip),
    ensures
        k == targets.len() ==> chosen_target(targets, ips) is None,
        k < targets.len() && targets[k].name is None ==> chosen_target(targets, ips) == Some(
            targets[k].ip,
        ),
        k < targets.len() && targets[k].name is Some ==> chosen_target(targets, ips)
            == targets[k].name,
    decreases k,
{
    if k > 0 {
        let rest = targets.drop_first();
        assert(!ips.contains(targets[0].ip));
        assert forall|i: int| 0 <= i < k - 1 implies !ips.contains((#[trigger] rest[i]).ip) by {
            assert(rest[i] == targets[i + 1]);
        }
        if k < targets.len() {
            assert(rest[k - 1] == targets[k]);
        }
        law_the_first_target_of_the_host_is_taken(rest, ips, k - 1);
    }
}

/// What is said of a target is said of what it holds.
pub proof fn law_taildrop_target_is_seen_as_it_is(value: TaildropTarget)
    ensures
        value@.ip == value.ip@,
        value@.name == opt_text(value.name),
{
}

/// Targets are seen one by one, in their order.
pub proof fn law_targets_are_seen_in_order(list: Seq<TaildropTarget>, k: int)
    requires
        0 <= k < list.len(),
    ensures
        target_views(list).len() == list.len(),
        target_views(list)[k] == list[k]@,
{
}

} // verus!
