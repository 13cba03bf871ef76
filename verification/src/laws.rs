//! Properties that hold across the task manager's operations.
use vstd::prelude::*;
use crate::parser::{Commands, ListFilter, Priority, RemoveTarget};
use crate::task::{shown, views, Task, TaskView};
use crate::text::{joined, texts};
use crate::taskr::{after_removal, command_result, edited, fresh, listed, listing, removal_error, selected, survivors_from, task_line, toggle_run};

verus! {

/// How often `j` occurs in `s`.
pub open spec fn occurrences(s: Seq<usize>, j: int) -> nat
    decreases s.len(),
{
    if s.len() == 0 {
        0
    } else {
        occurrences(s.drop_last(), j) + if s.last() as int == j { 1nat } else { 0nat }
    }
}

/// All indices name tasks of a list of `len` tasks.
pub open spec fn all_in_range(indices: Seq<usize>, len: nat) -> bool {
    forall|k: int| 0 <= k < indices.len() ==> (indices[k] as int) < len
}

/// Toggling in-range indices completes for good: a task ends up with its flag
/// flipped exactly when its index occurs an odd number of times; its title and
/// priority, and the length of the list, stay.
pub proof fn lemma_toggle_parity(s: Seq<TaskView>, indices: Seq<usize>)
    requires
        all_in_range(indices, s.len()),
    ensures
        toggle_run(s, indices).1 is None,
        toggle_run(s, indices).0.len() == s.len(),
        forall|j: int| 0 <= j < s.len() ==> #[trigger] toggle_run(s, indices).0[j] == (TaskView {
            completed: s[j].completed != (occurrences(indices, j) % 2 == 1),
            ..s[j]
        }),
    decreases indices.len(),
{
    if indices.len() > 0 {
        let prefix = indices.drop_last();
        lemma_toggle_parity(s, prefix);
        let prev = toggle_run(s, prefix).0;
        assert forall|j: int| 0 <= j < s.len() implies #[trigger] toggle_run(s, indices).0[j] == (TaskView {
            completed: s[j].completed != (occurrences(indices, j) % 2 == 1),
            ..s[j]
        }) by {
            assert(prev[j] == (TaskView {
                completed: s[j].completed != (occurrences(prefix, j) % 2 == 1),
                ..s[j]
            }));
        }
    }
}

/// Toggling the same in-range indices twice gives back the original list.
pub proof fn lemma_toggle_twice_restores(s: Seq<TaskView>, indices: Seq<usize>)
    requires
        all_in_range(indices, s.len()),
    ensures
        toggle_run(toggle_run(s, indices).0, indices) == (s, None::<usize>),
{
    lemma_toggle_parity(s, indices);
    let once = toggle_run(s, indices).0;
    lemma_toggle_parity(once, indices);
    let twice = toggle_run(once, indices).0;
    assert forall|j: int| 0 <= j < s.len() implies twice[j] == s[j] by {
        assert(once[j] == (TaskView {
            completed: s[j].completed != (occurrences(indices, j) % 2 == 1),
            ..s[j]
        }));
        assert(twice[j] == (TaskView {
            completed: once[j].completed != (occurrences(indices, j) % 2 == 1),
            ..once[j]
        }));
    }
    assert(twice == s);
}

/// A successful removal with `done` leaves no completed task, and leaves no task
/// whose index was given; every other task stays.
pub proof fn lemma_removal_selects(s: Seq<Task>, target: RemoveTarget, i: nat)
    requires
        i <= s.len(),
    ensures
        forall|k: int| 0 <= k < survivors_from(s, target, i).len()
            ==> exists|p: int| i <= p < s.len() && !selected(s, target, p)
                && #[trigger] survivors_from(s, target, i)[k] == s[p],
        target.done ==> forall|k: int| 0 <= k < survivors_from(s, target, i).len()
            ==> !(#[trigger] survivors_from(s, target, i)[k])@.completed,
        survivors_from(s, target, i).len() + removed_count(s, target, i) == s.len() - i,
    decreases s.len() - i,
{
    if i < s.len() {
        lemma_removal_selects(s, target, i + 1);
        let rest = survivors_from(s, target, i + 1);
        let here = survivors_from(s, target, i);
        if !selected(s, target, i as int) {
            assert(here == seq![s[i as int]] + rest);
            assert forall|k: int| 0 <= k < here.len()
                implies exists|p: int| i <= p < s.len() && !selected(s, target, p) && #[trigger] here[k] == s[p] by {
                if k == 0 {
                    assert(here[0] == s[i as int]);
                } else {
                    assert(here[k] == rest[k - 1]);
                }
            }
            assert forall|k: int| target.done && 0 <= k < here.len() implies !(#[trigger] here[k])@.completed by {
                if k > 0 {
                    assert(here[k] == rest[k - 1]);
                }
            }
        }
    }
}

/// How many of the tasks at positions `i..` a removal selects.
pub open spec fn removed_count(s: Seq<Task>, target: RemoveTarget, i: nat) -> nat
    decreases s.len() - i,
{
    if i >= s.len() {
        0
    } else {
        removed_count(s, target, i + 1) + if selected(s, target, i as int) { 1nat } else { 0nat }
    }
}

/// A removal that selects nothing leaves the list as it is.
pub proof fn lemma_removing_nothing(s: Seq<Task>, target: RemoveTarget)
    requires
        !target.all,
        !target.done,
        target.indices@.len() == 0,
    ensures
        removal_error(s.len(), target) is None,
        after_removal(s, target) == s,
{
    lemma_survivors_of_nothing(s, target, 0);
    assert(s.subrange(0, s.len() as int) == s);
}

proof fn lemma_survivors_of_nothing(s: Seq<Task>, target: RemoveTarget, i: nat)
    requires
        !target.done,
        target.indices@.len() == 0,
        i <= s.len(),
    ensures
        survivors_from(s, target, i) == s.subrange(i as int, s.len() as int),
    decreases s.len() - i,
{
    if i < s.len() {
        lemma_survivors_of_nothing(s, target, i + 1);
        assert(!target.indices@.contains(i as usize));
        assert(s.subrange(i as int, s.len() as int) == seq![s[i as int]] + s.subrange(i as int + 1, s.len() as int));
    } else {
        assert(s.subrange(i as int, s.len() as int) == Seq::<Task>::empty());
    }
}

/// Every listing has the header and one line per shown task; the completed and
/// the uncompleted tasks together are all tasks.
pub proof fn lemma_listing_partition(s: Seq<TaskView>, n: nat)
    requires
        n <= s.len(),
    ensures
        listed(s, ListFilter::All, n).len() == n,
        listed(s, ListFilter::Done, n).len() + listed(s, ListFilter::Todo, n).len() == n,
    decreases n,
{
    if n > 0 {
        lemma_listing_partition(s, (n - 1) as nat);
    }
}

/// After a task is added, a full listing ends with the new task's line, at the
/// index that the list had as its length.
pub proof fn lemma_added_task_listed_last(s: Seq<TaskView>, title: Seq<char>, priority: Priority)
    ensures
        listing(s.push(fresh(title, priority)), ListFilter::All).last()
            == task_line(s.len(), fresh(title, priority)),
        listing(s.push(fresh(title, priority)), ListFilter::Todo).last()
            == task_line(s.len(), fresh(title, priority)),
{
}

/// An edit that gives neither a title nor a priority changes nothing.
pub proof fn lemma_empty_edit(t: TaskView)
    ensures
        edited(t, None, None) == t,
{
}

// ---------------------------------------------------------------------------
// Removal keeps the unselected tasks in their order
// ---------------------------------------------------------------------------

/// Whether a removal with `target` leaves the task at position `p` of `s`:
/// its index was not given, and it is not a completed task removed by `done`.
pub open spec fn unselected(s: Seq<Task>, target: RemoveTarget) -> spec_fn(int) -> bool {
    |p: int| !(target.indices@.contains(p as usize) || (target.done && s[p]@.completed))
}

/// `result` is `s` filtered by `keep`, order kept: `pos` lists, increasing, exactly
/// the positions of `s` that `keep` admits, and `result[k]` is the task at `pos[k]`.
pub open spec fn picks_in_order(result: Seq<Task>, s: Seq<Task>, pos: Seq<int>, keep: spec_fn(int) -> bool) -> bool {
    &&& pos.len() == result.len()
    &&& forall|k: int| 0 <= k < pos.len() ==> 0 <= #[trigger] pos[k] < s.len() && keep(pos[k]) && result[k] == s[pos[k]]
    &&& forall|k1: int, k2: int| 0 <= k1 < k2 < pos.len() ==> #[trigger] pos[k1] < #[trigger] pos[k2]
    &&& forall|p: int| 0 <= p < s.len() && keep(p) ==> #[trigger] pos.contains(p)
}

/// The positions, from `i` on, of the tasks that a removal keeps.
pub open spec fn survivor_positions(s: Seq<Task>, target: RemoveTarget, i: nat) -> Seq<int>
    decreases s.len() - i,
{
    if i >= s.len() {
        Seq::empty()
    } else if (unselected(s, target))(i as int) {
        seq![i as int] + survivor_positions(s, target, i + 1)
    } else {
        survivor_positions(s, target, i + 1)
    }
}

proof fn lemma_survivor_positions(s: Seq<Task>, target: RemoveTarget, i: nat)
    requires
        i <= s.len(),
    ensures
        ({
            let pos = survivor_positions(s, target, i);
            let r = survivors_from(s, target, i);
            let keep = unselected(s, target);
            &&& pos.len() == r.len()
            &&& forall|k: int| 0 <= k < pos.len() ==> i <= #[trigger] pos[k] < s.len() && keep(pos[k]) && r[k] == s[pos[k]]
            &&& forall|k1: int, k2: int| 0 <= k1 < k2 < pos.len() ==> #[trigger] pos[k1] < #[trigger] pos[k2]
            &&& forall|p: int| i <= p < s.len() && keep(p) ==> #[trigger] pos.contains(p)
        }),
    decreases s.len() - i,
{
    if i < s.len() {
        lemma_survivor_positions(s, target, i + 1);
        let keep = unselected(s, target);
        let rest = survivor_positions(s, target, i + 1);
        let rr = survivors_from(s, target, i + 1);
        let pos = survivor_positions(s, target, i);
        let r = survivors_from(s, target, i);
        assert(keep(i as int) == !selected(s, target, i as int));
        if keep(i as int) {
            assert(pos == seq![i as int] + rest);
            assert(r == seq![s[i as int]] + rr);
            assert forall|k: int| 0 <= k < pos.len() implies i <= #[trigger] pos[k] < s.len() && keep(pos[k]) && r[k] == s[pos[k]] by {
                if k > 0 {
                    assert(pos[k] == rest[k - 1]);
                    assert(r[k] == rr[k - 1]);
                }
            }
            assert forall|k1: int, k2: int| 0 <= k1 < k2 < pos.len() implies #[trigger] pos[k1] < #[trigger] pos[k2] by {
                assert(pos[k2] == rest[k2 - 1]);
                if k1 > 0 {
                    assert(pos[k1] == rest[k1 - 1]);
                }
            }
            assert forall|p: int| i <= p < s.len() && keep(p) implies #[trigger] pos.contains(p) by {
                if p == i {
                    assert(pos[0] == p);
                } else {
                    assert(rest.contains(p));
                    let w = choose|w: int| 0 <= w < rest.len() && rest[w] == p;
                    assert(pos[w + 1] == p);
                }
            }
        } else {
            assert(pos == rest);
            assert(r == rr);
        }
    }
}

/// A removal that does not remove everything leaves exactly the tasks it does not
/// select, in their original order.
pub proof fn lemma_removal_keeps_order(s: Seq<Task>, target: RemoveTarget)
    requires
        !target.all,
    ensures
        exists|pos: Seq<int>| picks_in_order(after_removal(s, target), s, pos, unselected(s, target)),
{
    lemma_survivor_positions(s, target, 0);
    let pos = survivor_positions(s, target, 0);
    assert(picks_in_order(after_removal(s, target), s, pos, unselected(s, target)));
}

/// The remove command, when it succeeds without `all`, leaves exactly the
/// unselected tasks in their original order.
pub proof fn lemma_remove_command_keeps_order(
    s: Seq<Task>,
    target: RemoveTarget,
    res: Result<Seq<Seq<char>>, usize>,
    after: Seq<Task>,
)
    requires
        !target.all,
        res is Ok,
        command_result(s, Some(Commands::Remove(target)), res, after),
    ensures
        exists|pos: Seq<int>| picks_in_order(after, s, pos, unselected(s, target)),
{
    lemma_removal_keeps_order(s, target);
}

// ---------------------------------------------------------------------------
// The done command toggles every given index
// ---------------------------------------------------------------------------

/// The done command with in-range indices succeeds, shows nothing, keeps the
/// length, titles and priorities, and flips a task's completion exactly when its
/// index occurs an odd number of times among the indices.
pub proof fn lemma_done_command_parity(
    s: Seq<Task>,
    indices: Vec<usize>,
    res: Result<Seq<Seq<char>>, usize>,
    after: Seq<Task>,
)
    requires
        all_in_range(indices@, s.len()),
        command_result(s, Some(Commands::Done { indices }), res, after),
    ensures
        res == Ok::<Seq<Seq<char>>, usize>(Seq::empty()),
        after.len() == s.len(),
        forall|j: int| 0 <= j < s.len() ==> {
            &&& (#[trigger] after[j])@.title == s[j]@.title
            &&& after[j]@.priority == s[j]@.priority
            &&& after[j]@.completed == (s[j]@.completed != (occurrences(indices@, j) % 2 == 1))
        },
{
    lemma_toggle_parity(views(s), indices@);
    assert(views(after).len() == after.len());
    assert forall|j: int| 0 <= j < s.len() implies {
        &&& (#[trigger] after[j])@.title == s[j]@.title
        &&& after[j]@.priority == s[j]@.priority
        &&& after[j]@.completed == (s[j]@.completed != (occurrences(indices@, j) % 2 == 1))
    } by {
        assert(views(after)[j] == after[j]@);
        assert(views(s)[j] == s[j]@);
    }
}

// ---------------------------------------------------------------------------
// How a task is shown
// ---------------------------------------------------------------------------

/// How many exclamation marks a priority shows.
pub open spec fn bangs(p: Priority) -> nat {
    match p {
        Priority::Low => 1,
        Priority::Medium => 2,
        Priority::High => 3,
    }
}

/// A task is shown as `[x]` when completed and `[ ]` otherwise, whatever its title
/// and priority; then a space, the title, a space, and the priority's marks in
/// brackets.
pub proof fn lemma_shown_layout(t: TaskView)
    ensures
        shown(t).len() == 7 + t.title.len() + bangs(t.priority),
        shown(t).subrange(0, 3) == (if t.completed { seq!['[', 'x', ']'] } else { seq!['[', ' ', ']'] }),
        shown(t)[3] == ' ',
        shown(t).subrange(4, 4 + t.title.len() as int) == t.title,
        shown(t)[4 + t.title.len() as int] == ' ',
        shown(t).subrange(5 + t.title.len() as int, shown(t).len() as int)
            == seq!['('] + Seq::new(bangs(t.priority), |i: int| '!') + seq![')'],
{
    let n = t.title.len() as int;
    let tail = seq!['('] + Seq::new(bangs(t.priority), |i: int| '!') + seq![')'];
    assert(shown(t).subrange(0, 3) =~= (if t.completed { seq!['[', 'x', ']'] } else { seq!['[', ' ', ']'] }));
    assert(shown(t).subrange(4, 4 + n) =~= t.title);
    assert(shown(t).subrange(5 + n, shown(t).len() as int) =~= tail);
}

// ---------------------------------------------------------------------------
// Editing and adding through commands
// ---------------------------------------------------------------------------

/// The edit command on an index in range succeeds and changes only that task:
/// its completion stays, its title becomes the joined words when words are
/// given, and its priority becomes the given one when one is given.
pub proof fn lemma_edit_command(
    s: Seq<Task>,
    index: usize,
    title: Vec<String>,
    priority: Option<Priority>,
    res: Result<Seq<Seq<char>>, usize>,
    after: Seq<Task>,
)
    requires
        index < s.len(),
        command_result(s, Some(Commands::Edit { index, title, priority }), res, after),
    ensures
        res == Ok::<Seq<Seq<char>>, usize>(Seq::empty()),
        after.len() == s.len(),
        forall|j: int| 0 <= j < s.len() && j != index ==> (#[trigger] after[j])@ == s[j]@,
        after[index as int]@.completed == s[index as int]@.completed,
        after[index as int]@.title == if title@.len() == 0 { s[index as int]@.title } else { joined(texts(title@)) },
        after[index as int]@.priority == match priority { Some(p) => p, None => s[index as int]@.priority },
{
    assert(views(after).len() == after.len());
    assert(views(after)[index as int] == after[index as int]@);
    assert forall|j: int| 0 <= j < s.len() && j != index implies (#[trigger] after[j])@ == s[j]@ by {
        assert(views(after)[j] == after[j]@);
        assert(views(s)[j] == s[j]@);
    }
}

/// The add command succeeds, shows nothing, keeps the existing tasks and appends
/// one uncompleted task whose title is the joined words and whose priority is the
/// given one, or low when none is given.
pub proof fn lemma_add_command(
    s: Seq<Task>,
    title: Vec<String>,
    priority: Option<Priority>,
    res: Result<Seq<Seq<char>>, usize>,
    after: Seq<Task>,
)
    requires
        command_result(s, Some(Commands::Add { title, priority }), res, after),
    ensures
        res == Ok::<Seq<Seq<char>>, usize>(Seq::empty()),
        after.len() == s.len() + 1,
        forall|j: int| 0 <= j < s.len() ==> (#[trigger] after[j])@ == s[j]@,
        after[s.len() as int]@.title == joined(texts(title@)),
        !after[s.len() as int]@.completed,
        priority matches Some(p) ==> after[s.len() as int]@.priority == p,
        priority is None ==> after[s.len() as int]@.priority == Priority::Low,
{
    assert(views(after).len() == after.len());
    assert(views(after)[s.len() as int] == after[s.len() as int]@);
    assert forall|j: int| 0 <= j < s.len() implies (#[trigger] after[j])@ == s[j]@ by {
        assert(views(after)[j] == after[j]@);
        assert(views(s)[j] == s[j]@);
    }
}

} // verus!
