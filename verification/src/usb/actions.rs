//! Lists of processes and what was done about them.

use crate::text::{
    char_texts, copy_range, from_chars, join, lemma_split_nonempty, lines, parse_unsigned, split,
    split_chars, split_lines, to_chars, trim, trim_chars, unsigned_value,
};
use crate::usb::codec::field_or;
use crate::usb::{action_views, ActionView, ProcessAction};
use crate::wide::{before_zero, utf16_text, wide_fixed_to_string};
use vstd::prelude::*;
use vstd::string::*;

verus! {

/// The first three fields of a line, and the rest of it as the fourth.
pub open spec fn four_fields(line: Seq<char>) -> Seq<Seq<char>> {
    let pieces = split(line, '\t');
    if pieces.len() <= 4 {
        pieces
    } else {
        pieces.take(3).push(join(pieces.skip(3), seq!['\t']))
    }
}

/// The process action that a line reports, if it begins with a process number.
pub open spec fn reported_action(line: Seq<char>) -> Option<ActionView> {
    let fields = four_fields(line);
    match unsigned_value(trim(fields[0]), u32::MAX as nat) {
        Err(_) => None,
        Ok(pid) => {
            let path = trim(field_or(fields, 2, Seq::empty()));
            Some(
                ActionView {
                    pid: pid as u32,
                    name: trim(field_or(fields, 1, Seq::empty())),
                    path: if path.len() > 0 {
                        Some(path)
                    } else {
                        None
                    },
                    action: trim(field_or(fields, 3, Seq::empty())),
                },
            )
        },
    }
}

/// The process actions that lines report; other lines are passed over.
pub open spec fn reported_actions(reported: Seq<Seq<char>>) -> Seq<ActionView>
    decreases reported.len(),
{
    if reported.len() == 0 {
        Seq::empty()
    } else {
        let front = reported_actions(reported.drop_last());
        match reported_action(reported.last()) {
            Some(action) => front.push(action),
            None => front,
        }
    }
}

fn join_from(pieces: &Vec<Vec<char>>, start: usize) -> (joined: Vec<char>)
    requires
        start < pieces@.len(),
    ensures
        joined@ == join(char_texts(pieces@).skip(start as int), seq!['\t']),
{
    let ghost all = char_texts(pieces@);
    let mut joined: Vec<char> = Vec::new();
    copy_range(pieces[start].as_slice(), 0, pieces[start].len(), &mut joined);
    assert(joined@ =~= all[start as int]);
    assert(all.subrange(start as int, start + 1) =~= seq![all[start as int]]);
    for i in start + 1..pieces.len()
        invariant
            start < pieces@.len(),
            all == char_texts(pieces@),
            joined@ == join(all.subrange(start as int, i as int), seq!['\t']),
    {
        let ghost before = joined@;
        joined.push('\t');
        copy_range(pieces[i].as_slice(), 0, pieces[i].len(), &mut joined);
        let ghost part = all.subrange(start as int, i + 1);
        assert(part.drop_last() == all.subrange(start as int, i as int));
        assert(part.last() == pieces@[i as int]@);
        assert(joined@ =~= before + seq!['\t'] + pieces@[i as int]@);
    }
    assert(all.subrange(start as int, all.len() as int) == all.skip(start as int));
    joined
}

fn trimmed_field(pieces: &Vec<Vec<char>>, i: usize) -> (text: String)
    ensures
        text@ == trim(field_or(char_texts(pieces@), i as int, Seq::empty())),
{
    if i < pieces.len() {
        assert(char_texts(pieces@)[i as int] == pieces@[i as int]@);
        let trimmed = trim_chars(pieces[i].as_slice());
        from_chars(trimmed.as_slice())
    } else {
        String::new()
    }
}

fn parse_process_action(line: &[char]) -> (action: Option<ProcessAction>)
    ensures
        match action {
            Some(action) => reported_action(line@) == Some(action@),
            None => reported_action(line@) is None,
        },
{
    let mut pieces = split_chars(line, '\t');
    proof {
        lemma_split_nonempty(line@, '\t');
        assert(char_texts(pieces@).len() == pieces@.len());
    }
    if pieces.len() > 4 {
        let ghost all = char_texts(pieces@);
        let rest = join_from(&pieces, 3);
        pieces.truncate(3);
        assert(char_texts(pieces@) =~= all.take(3));
        let ghost front = char_texts(pieces@);
        pieces.push(rest);
        assert(char_texts(pieces@) =~= front.push(rest@));
    }
    assert(char_texts(pieces@) == four_fields(line@));
    assert(char_texts(pieces@)[0] == pieces@[0]@);
    let number = trim_chars(pieces[0].as_slice());
    let pid: u32 = match parse_unsigned(number.as_slice(), u32::MAX as u64) {
        Ok(pid) => pid as u32,
        Err(_) => return None,
    };
    let name = trimmed_field(&pieces, 1);
    let path = trimmed_field(&pieces, 2);
    let what = trimmed_field(&pieces, 3);
    let path = if path.as_str().unicode_len() > 0 {
        Some(path)
    } else {
        None
    };
    Some(ProcessAction { pid, name, path, action: what })
}

/// Reads the process actions that a command reports, one on each line.
pub fn parse_process_actions(output: &str) -> (actions: Vec<ProcessAction>)
    ensures
        action_views(actions@) == reported_actions(lines(output@)),
{
    let chars = to_chars(output);
    let found = split_lines(chars.as_slice());
    let mut actions: Vec<ProcessAction> = Vec::new();
    let ghost all = lines(output@);
    assert(all.take(0) == Seq::<Seq<char>>::empty());
    assert(action_views(actions@) =~= Seq::empty());
    for i in 0..found.len()
        invariant
            all == lines(output@),
            char_texts(found@) == all,
            action_views(actions@) == reported_actions(all.take(i as int)),
    {
        assert(all[i as int] == found@[i as int]@);
        assert(all.take(i + 1).drop_last() == all.take(i as int));
        let ghost before = action_views(actions@);
        match parse_process_action(found[i].as_slice()) {
            Some(action) => {
                actions.push(action);
                assert(action_views(actions@) =~= before.push(action@));
            },
            None => {},
        }
    }
    assert(all.take(all.len() as int) == all);
    actions
}

/// The index of the first action of a process, or the length where there is none.
pub open spec fn index_of_pid(actions: Seq<ActionView>, pid: u32) -> int
    decreases actions.len(),
{
    if actions.len() == 0 || actions[0].pid == pid {
        0
    } else {
        1 + index_of_pid(actions.skip(1), pid)
    }
}

/// A known action brought up to date: the newer name and path where there were
/// none, and the newer action.
pub open spec fn updated_action(known: ActionView, newer: ActionView) -> ActionView {
    ActionView {
        pid: known.pid,
        name: if known.name.len() == 0 {
            newer.name
        } else {
            known.name
        },
        path: if known.path is None {
            newer.path
        } else {
            known.path
        },
        action: newer.action,
    }
}

/// A list after one newer action: the first known action of that process is
/// brought up to date, or the newer one comes last.
pub open spec fn with_action(actions: Seq<ActionView>, newer: ActionView) -> Seq<ActionView> {
    let i = index_of_pid(actions, newer.pid);
    if i < actions.len() {
        actions.update(i, updated_action(actions[i], newer))
    } else {
        actions.push(newer)
    }
}

/// A list after newer actions, in their order.
pub open spec fn merged_actions(
    actions: Seq<ActionView>,
    newer: Seq<ActionView>,
) -> Seq<ActionView>
    decreases newer.len(),
{
    if newer.len() == 0 {
        actions
    } else {
        with_action(merged_actions(actions, newer.drop_last()), newer.last())
    }
}

proof fn lemma_index_of_pid(actions: Seq<ActionView>, pid: u32, i: int)
    requires
        0 <= i <= actions.len(),
        forall|j: int| 0 <= j < i ==> (#[trigger] actions[j]).pid != pid,
        i < actions.len() ==> actions[i].pid == pid,
    ensures
        index_of_pid(actions, pid) == i,
    decreases i,
{
    if i > 0 {
        let rest = actions.skip(1);
        assert(actions[0].pid != pid);
        assert forall|j: int| 0 <= j < i - 1 implies (#[trigger] rest[j]).pid != pid by {
            assert(actions[j + 1].pid != pid);
        }
        lemma_index_of_pid(rest, pid, i - 1);
    }
}

fn find_pid(actions: &Vec<ProcessAction>, pid: u32) -> (i: usize)
    ensures
        i == index_of_pid(action_views(actions@), pid),
        i <= actions@.len(),
        i < actions@.len() ==> actions@[i as int].pid == pid,
{
    let mut i: usize = 0;
    let ghost views = action_views(actions@);
    while i < actions.len() && actions[i].pid != pid
        invariant
            i <= actions@.len(),
            views == action_views(actions@),
            forall|j: int| 0 <= j < i ==> (#[trigger] views[j]).pid != pid,
        decreases actions@.len() - i,
    {
        assert(views[i as int] == actions@[i as int]@);
        i = i + 1;
    }
    proof {
        assert(views.len() == actions@.len());
        if i < views.len() {
            assert(views[i as int] == actions@[i as int]@);
        }
        lemma_index_of_pid(views, pid, i as int);
    }
    i
}

/// Brings a list of process actions up to date.
pub fn merge_process_actions(target: &mut Vec<ProcessAction>, additions: Vec<ProcessAction>)
    ensures
        action_views(final(target)@) == merged_actions(
            action_views(old(target)@),
            action_views(additions@),
        ),
{
    let ghost newer = action_views(additions@);
    let ghost start = action_views(target@);
    assert(newer.take(0) == Seq::<ActionView>::empty());
    for addition in it: additions
        invariant
            it.seq() == additions@,
            newer == action_views(additions@),
            start == action_views(old(target)@),
            action_views(target@) == merged_actions(start, newer.take(it.index())),
    {
        let ghost before = action_views(target@);
        proof {
            assert(newer[it.index()] == addition@);
            assert(newer.take(it.index() + 1).drop_last() == newer.take(it.index()));
        }
        let i: usize = find_pid(target, addition.pid);
        if i < target.len() {
            let ghost known = target@[i as int];
            assert(before[i as int] == known@);
            let ProcessAction { pid: _, name, path, action } = addition;
            let mut updated = target.remove(i);
            if updated.name.as_str().unicode_len() == 0 {
                updated.name = name;
            }
            if updated.path.is_none() {
                updated.path = path;
            }
            updated.action = action;
            assert(updated@ == updated_action(known@, addition@));
            target.insert(i, updated);
            assert(action_views(target@) =~= before.update(i as int, updated@));
        } else {
            target.push(addition);
            assert(action_views(target@) =~= before.push(addition@));
        }
    }
    assert(newer.take(newer.len() as int) == newer);
}

/// The process numbers of a list of actions.
pub open spec fn pids(actions: Seq<ActionView>) -> Seq<u32> {
    actions.map_values(|a: ActionView| a.pid)
}

/// Bringing a list up to date keeps the processes that were there in their
/// places, and every newer process is in it.
pub proof fn merging_keeps_and_adds_processes(actions: Seq<ActionView>, newer: Seq<ActionView>)
    ensures
        pids(actions).is_prefix_of(pids(merged_actions(actions, newer))),
        forall|i: int|
            0 <= i < newer.len() ==> pids(merged_actions(actions, newer)).contains(
                #[trigger] newer[i].pid,
            ),
    decreases newer.len(),
{
    if newer.len() > 0 {
        let front = newer.drop_last();
        merging_keeps_and_adds_processes(actions, front);
        let before = merged_actions(actions, front);
        let after = merged_actions(actions, newer);
        let last = newer.last();
        let at = index_of_pid(before, last.pid);
        lemma_index_bounds(before, last.pid);
        if at < before.len() {
            assert(pids(after) =~= pids(before));
            assert(pids(after)[at] == last.pid);
        } else {
            assert(pids(after) =~= pids(before).push(last.pid));
            assert(pids(after)[before.len() as int] == last.pid);
        }
        assert(pids(before).is_prefix_of(pids(after)));
        assert(pids(actions) =~= pids(after).subrange(0, actions.len() as int));
        assert forall|i: int| 0 <= i < newer.len() implies pids(after).contains(
            #[trigger] newer[i].pid,
        ) by {
            if i < front.len() {
                assert(front[i].pid == newer[i].pid);
                let k = choose|k: int| 0 <= k < pids(before).len() && pids(before)[k]
                    == newer[i].pid;
                assert(pids(after)[k] == newer[i].pid);
            }
        }
    } else {
        assert(pids(actions) =~= pids(actions).subrange(0, actions.len() as int));
    }
}

/// The index lies in the list, at an action of the process, or is its length.
pub proof fn lemma_index_bounds(actions: Seq<ActionView>, pid: u32)
    ensures
        0 <= index_of_pid(actions, pid) <= actions.len(),
        index_of_pid(actions, pid) < actions.len() ==> actions[index_of_pid(actions, pid)].pid
            == pid,
    decreases actions.len(),
{
    if actions.len() > 0 && actions[0].pid != pid {
        lemma_index_bounds(actions.skip(1), pid);
    }
}

/// The first action of each process, in their order.
pub open spec fn first_actions(actions: Seq<ActionView>) -> Seq<ActionView>
    decreases actions.len(),
{
    if actions.len() == 0 {
        Seq::empty()
    } else {
        let front = first_actions(actions.drop_last());
        if index_of_pid(front, actions.last().pid) < front.len() {
            front
        } else {
            front.push(actions.last())
        }
    }
}

/// Keeps the first action of each process.
pub fn dedupe_process_actions(actions: Vec<ProcessAction>) -> (kept: Vec<ProcessAction>)
    ensures
        action_views(kept@) == first_actions(action_views(actions@)),
{
    let ghost all = action_views(actions@);
    let mut kept: Vec<ProcessAction> = Vec::new();
    assert(all.take(0) == Seq::<ActionView>::empty());
    assert(action_views(kept@) =~= Seq::empty());
    for action in it: actions
        invariant
            it.seq() == actions@,
            all == action_views(actions@),
            action_views(kept@) == first_actions(all.take(it.index())),
    {
        let ghost before = action_views(kept@);
        proof {
            assert(all[it.index()] == action@);
            assert(all.take(it.index() + 1).drop_last() == all.take(it.index()));
        }
        let i: usize = find_pid(&kept, action.pid);
        if i >= kept.len() {
            kept.push(action);
            assert(action_views(kept@) =~= before.push(action@));
        }
    }
    assert(all.take(all.len() as int) == all);
    kept
}

/// No process occurs twice among the kept actions.
pub proof fn kept_actions_are_of_distinct_processes(actions: Seq<ActionView>)
    ensures
        pids(first_actions(actions)).no_duplicates(),
    decreases actions.len(),
{
    if actions.len() > 0 {
        kept_actions_are_of_distinct_processes(actions.drop_last());
        let front = first_actions(actions.drop_last());
        let pid = actions.last().pid;
        if index_of_pid(front, pid) >= front.len() {
            lemma_absent(front, pid);
            assert(pids(front.push(actions.last())) =~= pids(front).push(pid));
        }
    }
}

proof fn lemma_absent(actions: Seq<ActionView>, pid: u32)
    requires
        index_of_pid(actions, pid) >= actions.len(),
    ensures
        forall|i: int| 0 <= i < actions.len() ==> (#[trigger] actions[i]).pid != pid,
    decreases actions.len(),
{
    if actions.len() > 0 {
        lemma_index_bounds(actions.skip(1), pid);
        lemma_absent(actions.skip(1), pid);
        assert forall|i: int| 0 <= i < actions.len() implies (#[trigger] actions[i]).pid
            != pid by {
            if i > 0 {
                assert(actions.skip(1)[i - 1].pid != pid);
            }
        }
    }
}

/// A process that locks a drive, as the Restart Manager reports it.
#[derive(Debug, Clone, PartialEq, Eq)]
pub struct LockingProcess {
    pub pid: u32,
    /// The buffer with the name, which ends at the first zero.
    pub app_name: Vec<u16>,
}

/// The actions for locking processes.
pub open spec fn locking_actions(
    processes: Seq<LockingProcess>,
    action: Seq<char>,
) -> Seq<ActionView> {
    processes.map_values(
        |p: LockingProcess|
            ActionView {
                pid: p.pid,
                name: utf16_text(before_zero(p.app_name@)),
                path: None,
                action,
            },
    )
}

/// Lists locking processes with one action.
pub fn process_actions_from_rm(
    processes: &Vec<LockingProcess>,
    action: &str,
) -> (actions: Vec<ProcessAction>)
    ensures
        action_views(actions@) == locking_actions(processes@, action@),
{
    let mut actions: Vec<ProcessAction> = Vec::new();
    let ghost all = locking_actions(processes@, action@);
    assert(action_views(actions@) =~= all.take(0));
    for i in 0..processes.len()
        invariant
            all == locking_actions(processes@, action@),
            action_views(actions@) == all.take(i as int),
    {
        let ghost before = action_views(actions@);
        let process = &processes[i];
        let listed = ProcessAction {
            pid: process.pid,
            name: wide_fixed_to_string(process.app_name.as_slice()),
            path: None,
            action: action.to_owned(),
        };
        actions.push(listed);
        assert(action_views(actions@) =~= before.push(listed@));
        assert(all.take(i + 1) =~= before.push(all[i as int]));
    }
    assert(all.take(all.len() as int) == all);
    actions
}

} // verus!
