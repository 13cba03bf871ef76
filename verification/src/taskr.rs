//! The task manager's rules: what each command does to the list of tasks.
use vstd::prelude::*;
use crate::parser::{Commands, ListFilter, Priority, RemoveTarget};
use crate::task::{Task, TaskView, views, shown};
use crate::text::{decimal, joined, texts, join_words, push_decimal};

verus! {

/// An index that does not name a task of the list.
#[derive(Debug, Clone, Copy, PartialEq, Eq, Structural)]
pub struct IndexOutOfRangeError {
    pub index: usize,
}

/// Text of the message of an index out of range: `index N is out of range`.
pub open spec fn index_message(index: usize) -> Seq<char> {
    seq!['i', 'n', 'd', 'e', 'x', ' '] + decimal(index as nat)
        + seq![' ', 'i', 's', ' ', 'o', 'u', 't', ' ', 'o', 'f', ' ', 'r', 'a', 'n', 'g', 'e']
}

impl IndexOutOfRangeError {
    /// The message for the user.
    pub fn message(&self) -> (m: String)
        ensures
            m@ == index_message(self.index),
    {
        proof {
            reveal_strlit("index ");
            reveal_strlit(" is out of range");
        }
        let mut m = String::new();
        m.append("index ");
        push_decimal(&mut m, self.index);
        m.append(" is out of range");
        m
    }
}

/// Makes `std::io::Error` known to the verifier as an opaque type, so that a
/// storage failure reported by the program around the library can be carried in
/// `TaskrError`. Nothing is claimed about its contents.
#[verifier::external_type_specification]
#[verifier::external_body]
pub struct ExIoError(std::io::Error);

/// What can go wrong when a command is processed.
pub enum TaskrError {
    /// Reading or writing the stored tasks failed.
    Storage(std::io::Error),
    /// A command named a task that does not exist.
    Index(IndexOutOfRangeError),
}

/// The first line of the message about a storage failure.
pub open spec fn storage_message_prefix() -> Seq<char> {
    seq!['I', 'n', 't', 'e', 'r', 'a', 'c', 't', 'i', 'n', 'g', ' ', 'w', 'i', 't', 'h', ' ', 't', 'h', 'e', ' ',
        's', 't', 'o', 'r', 'a', 'g', 'e', ' ', 'f', 'a', 'i', 'l', 'e', 'd', '.', '\n']
}

impl TaskrError {
    /// The message for the user: for a storage failure, a fixed first line and then
    /// the text that the I/O error displays; for an index, the index's message.
    pub fn message(&self) -> (m: String)
        ensures
            match self {
                TaskrError::Storage(e) => exists|d: String|
                    vstd::string::to_string_from_display_ensures::<std::io::Error>(e, d)
                    && m@ == storage_message_prefix() + d@,
                TaskrError::Index(e) => m@ == index_message(e.index),
            },
    {
        match self {
            TaskrError::Storage(e) => {
                proof {
                    reveal_strlit("Interacting with the storage failed.\n");
                }
                let mut m = String::new();
                m.append("Interacting with the storage failed.\n");
                let d = e.to_string();
                m.append(d.as_str());
                m
            },
            TaskrError::Index(e) => e.message(),
        }
    }
}

// ---------------------------------------------------------------------------
// Adding
// ---------------------------------------------------------------------------

/// The view of a new, uncompleted task.
pub open spec fn fresh(title: Seq<char>, priority: Priority) -> TaskView {
    TaskView { title, completed: false, priority }
}

/// Appends a new uncompleted task with the given title and priority.
pub fn add_task(tasks: &mut Vec<Task>, title: String, prio: Priority)
    ensures
        views(final(tasks)@) == views(old(tasks)@).push(fresh(title@, prio)),
{
    let task = Task::new(title, false, prio);
    tasks.push(task);
    assert(views(tasks@) == views(old(tasks)@).push(fresh(title@, prio)));
}

// ---------------------------------------------------------------------------
// Listing
// ---------------------------------------------------------------------------

/// Whether a listing with `filter` shows the task.
pub open spec fn shows(filter: ListFilter, t: TaskView) -> bool {
    match filter {
        ListFilter::All => true,
        ListFilter::Done => t.completed,
        ListFilter::Todo => !t.completed,
    }
}

/// The first line of every listing: `========== Tasks ==========`.
pub open spec fn listing_header() -> Seq<char> {
    Seq::new(10, |i: int| '=') + seq![' ', 'T', 'a', 's', 'k', 's', ' '] + Seq::new(10, |i: int| '=')
}

/// The line of the task at position `i`: its index, a space, and the task as shown.
pub open spec fn task_line(i: nat, t: TaskView) -> Seq<char> {
    decimal(i) + seq![' '] + shown(t)
}

/// The lines of the shown tasks among the first `n`, in order.
pub open spec fn listed(s: Seq<TaskView>, filter: ListFilter, n: nat) -> Seq<Seq<char>>
    decreases n,
{
    if n == 0 {
        Seq::empty()
    } else {
        let prev = listed(s, filter, (n - 1) as nat);
        if shows(filter, s[n - 1]) {
            prev.push(task_line((n - 1) as nat, s[n - 1]))
        } else {
            prev
        }
    }
}

/// A whole listing: the header, then one line per shown task.
pub open spec fn listing(s: Seq<TaskView>, filter: ListFilter) -> Seq<Seq<char>> {
    seq![listing_header()] + listed(s, filter, s.len())
}

/// The lines that list the tasks that `filter` selects, each with its index.
pub fn list_tasks(tasks: &[Task], filter: ListFilter) -> (lines: Vec<String>)
    ensures
        texts(lines@) == listing(views(tasks@), filter),
{
    let ghost vs = views(tasks@);
    let mut lines: Vec<String> = Vec::new();
    let mut header = String::new();
    proof {
        reveal_strlit("========== Tasks ==========");
    }
    header.append("========== Tasks ==========");
    assert(header@ == listing_header());
    lines.push(header);
    let n = tasks.len();
    let mut i: usize = 0;
    while i < n
        invariant
            n == tasks@.len(),
            vs == views(tasks@),
            0 <= i <= n,
            texts(lines@) == seq![listing_header()] + listed(vs, filter, i as nat),
        decreases n - i,
    {
        let task = &tasks[i];
        let show = match filter {
            ListFilter::All => true,
            ListFilter::Done => task.is_completed(),
            ListFilter::Todo => !task.is_completed(),
        };
        assert(vs[i as int] == task@);
        if show {
            let mut line = String::new();
            push_decimal(&mut line, i);
            proof {
                reveal_strlit(" ");
            }
            line.append(" ");
            let shown_task = task.display();
            line.append(shown_task.as_str());
            assert(line@ == task_line(i as nat, vs[i as int]));
            let ghost prev = lines@;
            let ghost text = line@;
            lines.push(line);
            assert(texts(lines@) == texts(prev).push(text));
        }
        i = i + 1;
    }
    lines
}

// ---------------------------------------------------------------------------
// Toggling
// ---------------------------------------------------------------------------

/// The list with the completion flag of the task at `i` flipped.
pub open spec fn flip(s: Seq<TaskView>, i: int) -> Seq<TaskView> {
    s.update(i, TaskView { completed: !s[i].completed, ..s[i] })
}

/// Toggling the tasks at `indices` in turn: the resulting list, and the first
/// index found out of range, at which toggling stopped.
pub open spec fn toggle_run(s: Seq<TaskView>, indices: Seq<usize>) -> (Seq<TaskView>, Option<usize>)
    decreases indices.len(),
{
    if indices.len() == 0 {
        (s, None)
    } else {
        let prev = toggle_run(s, indices.drop_last());
        if prev.1 is Some {
            prev
        } else if (indices.last() as int) < prev.0.len() {
            (flip(prev.0, indices.last() as int), None)
        } else {
            (prev.0, Some(indices.last()))
        }
    }
}

/// Toggles the completion flag of the tasks at `indices`, in order. At the first
/// index out of range it stops and reports that index; the earlier toggles stay.
pub fn toggle_tasks(tasks: &mut [Task], indices: &[usize]) -> (res: Result<(), IndexOutOfRangeError>)
    ensures
        views(final(tasks)@) == toggle_run(views(old(tasks)@), indices@).0,
        match res {
            Ok(()) => toggle_run(views(old(tasks)@), indices@).1 is None,
            Err(e) => toggle_run(views(old(tasks)@), indices@).1 == Some(e.index),
        },
{
    let ghost s = views(tasks@);
    let n = tasks.len();
    let mut k: usize = 0;
    while k < indices.len()
        invariant
            n == tasks@.len(),
            0 <= k <= indices@.len(),
            s == views(old(tasks)@),
            toggle_run(s, indices@.take(k as int)) == (views(tasks@), None::<usize>),
        decreases indices@.len() - k,
    {
        let index = indices[k];
        proof {
            assert(indices@.take(k + 1).drop_last() == indices@.take(k as int));
            assert(indices@.take(k + 1).last() == index);
        }
        if index >= n {
            proof {
                lemma_toggle_run_stops(s, indices@, k as int);
            }
            return Err(IndexOutOfRangeError { index });
        }
        let ghost before = views(tasks@);
        tasks[index].toggle_completed();
        assert(views(tasks@) == flip(before, index as int));
        k = k + 1;
    }
    proof {
        assert(indices@.take(indices@.len() as int) == indices@);
    }
    Ok(())
}

/// Once toggling stops at an index, later indices change nothing.
proof fn lemma_toggle_run_stops(s: Seq<TaskView>, indices: Seq<usize>, k: int)
    requires
        0 <= k < indices.len(),
        toggle_run(s, indices.take(k + 1)).1 == Some(indices[k]),
    ensures
        toggle_run(s, indices) == toggle_run(s, indices.take(k + 1)),
    decreases indices.len(),
{
    if indices.len() > k + 1 {
        assert(indices.drop_last().take(k + 1) == indices.take(k + 1));
        lemma_toggle_run_stops(s, indices.drop_last(), k);
    } else {
        assert(indices.take(k + 1) == indices);
    }
}

// ---------------------------------------------------------------------------
// Editing
// ---------------------------------------------------------------------------

/// The text of an optional string.
pub open spec fn text_of(o: Option<String>) -> Option<Seq<char>> {
    match o {
        Some(s) => Some(s@),
        None => None,
    }
}

/// A task with the given title and priority, where they are given.
pub open spec fn edited(t: TaskView, title: Option<Seq<char>>, prio: Option<Priority>) -> TaskView {
    TaskView {
        title: match title { Some(x) => x, None => t.title },
        completed: t.completed,
        priority: match prio { Some(p) => p, None => t.priority },
    }
}

/// Changes the title and/or priority of the task at `index` to the values given.
pub fn edit_task(tasks: &mut [Task], index: usize, title: Option<String>, prio: Option<Priority>) -> (res: Result<(), IndexOutOfRangeError>)
    ensures
        index >= old(tasks)@.len() ==> res == Err::<(), IndexOutOfRangeError>(IndexOutOfRangeError { index })
            && final(tasks)@ == old(tasks)@,
        index < old(tasks)@.len() ==> res is Ok && views(final(tasks)@) == views(old(tasks)@).update(
            index as int,
            edited(old(tasks)@[index as int]@, text_of(title), prio),
        ),
{
    if index >= tasks.len() {
        return Err(IndexOutOfRangeError { index });
    }
    let ghost s = views(tasks@);
    let ghost t = tasks@[index as int]@;
    if let Some(new_title) = title {
        tasks[index].title = new_title;
    }
    if let Some(new_prio) = prio {
        tasks[index].priority = new_prio;
    }
    assert(views(tasks@) == s.update(index as int, edited(t, text_of(title), prio)));
    Ok(())
}

// ---------------------------------------------------------------------------
// Removal
// ---------------------------------------------------------------------------

/// The largest of the indices (0 for none).
pub open spec fn largest(s: Seq<usize>) -> usize
    decreases s.len(),
{
    if s.len() == 0 {
        0
    } else {
        let m = largest(s.drop_last());
        if s.last() > m { s.last() } else { m }
    }
}

/// The index that a removal from a list of `len` tasks reports, if any:
/// the largest selected index when it is out of range.
pub open spec fn removal_error(len: nat, target: RemoveTarget) -> Option<usize> {
    if !target.all && target.indices@.len() > 0 && largest(target.indices@) >= len {
        Some(largest(target.indices@))
    } else {
        None
    }
}

/// Whether the task at position `i` is selected for removal.
pub open spec fn selected(s: Seq<Task>, target: RemoveTarget, i: int) -> bool {
    target.indices@.contains(i as usize) || (target.done && s[i]@.completed)
}

/// The tasks at positions `i..` that a removal keeps, in their order.
pub open spec fn survivors_from(s: Seq<Task>, target: RemoveTarget, i: nat) -> Seq<Task>
    decreases s.len() - i,
{
    if i >= s.len() {
        Seq::empty()
    } else if selected(s, target, i as int) {
        survivors_from(s, target, i + 1)
    } else {
        seq![s[i as int]] + survivors_from(s, target, i + 1)
    }
}

/// The list that a successful removal leaves.
pub open spec fn after_removal(s: Seq<Task>, target: RemoveTarget) -> Seq<Task> {
    if target.all { Seq::empty() } else { survivors_from(s, target, 0) }
}

proof fn lemma_largest_bounds(s: Seq<usize>)
    ensures
        forall|k: int| 0 <= k < s.len() ==> s[k] <= largest(s),
        s.len() > 0 ==> s.contains(largest(s)),
    decreases s.len(),
{
    if s.len() > 0 {
        lemma_largest_bounds(s.drop_last());
        assert forall|k: int| 0 <= k < s.len() implies s[k] <= largest(s) by {
            if k < s.len() - 1 {
                assert(s[k] == s.drop_last()[k]);
            }
        }
        if s.len() > 1 && largest(s) == largest(s.drop_last()) {
            let w = choose|k: int| 0 <= k < s.drop_last().len() && s.drop_last()[k] == largest(s);
            assert(s[w] == largest(s));
        } else {
            assert(s[s.len() - 1] == largest(s));
        }
    }
}

fn max_index(indices: &Vec<usize>) -> (m: usize)
    ensures
        m == largest(indices@),
{
    let mut m: usize = 0;
    let mut i: usize = 0;
    while i < indices.len()
        invariant
            0 <= i <= indices@.len(),
            m == largest(indices@.take(i as int)),
        decreases indices@.len() - i,
    {
        proof {
            assert(indices@.take(i + 1).drop_last() == indices@.take(i as int));
        }
        if indices[i] > m {
            m = indices[i];
        }
        i = i + 1;
    }
    proof {
        assert(indices@.take(indices@.len() as int) == indices@);
    }
    m
}

/// Marks, for each position below `n`, whether it occurs among the indices.
fn marks_of(indices: &Vec<usize>, n: usize) -> (marks: Vec<bool>)
    requires
        forall|k: int| 0 <= k < indices@.len() ==> indices@[k] < n,
    ensures
        marks@.len() == n,
        forall|j: int| 0 <= j < n ==> marks@[j] == indices@.contains(j as usize),
{
    let mut marks: Vec<bool> = Vec::new();
    let mut i: usize = 0;
    while i < n
        invariant
            0 <= i <= n,
            marks@.len() == i,
            forall|j: int| 0 <= j < i ==> !marks@[j],
        decreases n - i,
    {
        marks.push(false);
        i = i + 1;
    }
    let mut k: usize = 0;
    while k < indices.len()
        invariant
            0 <= k <= indices@.len(),
            marks@.len() == n,
            forall|q: int| 0 <= q < indices@.len() ==> indices@[q] < n,
            forall|j: int| 0 <= j < n ==> marks@[j] == indices@.take(k as int).contains(j as usize),
        decreases indices@.len() - k,
    {
        let idx = indices[k];
        marks.set(idx, true);
        proof {
            let pre = indices@.take(k as int);
            let post = indices@.take(k + 1);
            assert(post == pre.push(idx));
            assert forall|j: int| 0 <= j < n implies marks@[j] == post.contains(j as usize) by {
                if post.contains(j as usize) && j != idx {
                    let w = choose|w: int| 0 <= w < post.len() && post[w] == j as usize;
                    assert(pre[w] == j as usize);
                }
                if pre.contains(j as usize) {
                    let w = choose|w: int| 0 <= w < pre.len() && pre[w] == j as usize;
                    assert(post[w] == j as usize);
                }
                if j == idx {
                    assert(post[k as int] == idx);
                }
            }
        }
        k = k + 1;
    }
    proof {
        assert(indices@.take(indices@.len() as int) == indices@);
    }
    marks
}

/// Removes the tasks that `target` selects: all of them; or those at the given
/// indices and, with `done`, the completed ones. The others keep their order.
/// An index out of range removes nothing and reports the largest index.
pub fn remove_tasks(tasks: &mut Vec<Task>, target: &RemoveTarget) -> (res: Result<(), IndexOutOfRangeError>)
    ensures
        match removal_error(old(tasks)@.len(), *target) {
            Some(i) => res == Err::<(), IndexOutOfRangeError>(IndexOutOfRangeError { index: i })
                && final(tasks)@ == old(tasks)@,
            None => res is Ok && final(tasks)@ == after_removal(old(tasks)@, *target),
        },
{
    if target.all {
        tasks.clear();
        return Ok(());
    }
    let n = tasks.len();
    if target.indices.len() > 0 {
        let m = max_index(&target.indices);
        if m >= n {
            return Err(IndexOutOfRangeError { index: m });
        }
    }
    proof {
        lemma_largest_bounds(target.indices@);
    }
    let marks = marks_of(&target.indices, n);
    let ghost s = tasks@;
    let mut i: usize = n;
    while i > 0
        invariant
            n == s.len(),
            0 <= i <= n,
            marks@.len() == n,
            forall|j: int| 0 <= j < n ==> marks@[j] == target.indices@.contains(j as usize),
            tasks@ == s.subrange(0, i as int) + survivors_from(s, *target, i as nat),
        decreases i,
    {
        let j = i - 1;
        assert(tasks@[j as int] == s[j as int]);
        let drop = marks[j] || (target.done && tasks[j].is_completed());
        proof {
            assert(s.subrange(0, i as int) == s.subrange(0, j as int).push(s[j as int]));
        }
        if drop {
            tasks.remove(j);
            assert(tasks@ == s.subrange(0, j as int) + survivors_from(s, *target, i as nat));
        } else {
            assert(tasks@ == s.subrange(0, j as int) + (seq![s[j as int]] + survivors_from(s, *target, i as nat)));
        }
        i = j;
    }
    assert(s.subrange(0, 0) + survivors_from(s, *target, 0) == survivors_from(s, *target, 0));
    Ok(())
}

// ---------------------------------------------------------------------------
// Commands
// ---------------------------------------------------------------------------

/// The title that an edit sets: none for no words, else the words joined by spaces.
pub open spec fn edit_title(words: Seq<String>) -> Option<Seq<char>> {
    if words.len() == 0 { None } else { Some(joined(texts(words))) }
}

/// What processing `command` does to the tasks `s`: the lines it shows, or the
/// out-of-range index it reports, and the tasks it leaves (by view).
pub open spec fn command_result(
    s: Seq<Task>,
    command: Option<Commands>,
    res: Result<Seq<Seq<char>>, usize>,
    after: Seq<Task>,
) -> bool {
    match command {
        None => res == Ok::<Seq<Seq<char>>, usize>(listing(views(s), ListFilter::All)) && after == s,
        Some(Commands::List { filter }) => res == Ok::<Seq<Seq<char>>, usize>(listing(views(s), filter))
            && after == s,
        Some(Commands::Add { title, priority }) => res == Ok::<Seq<Seq<char>>, usize>(Seq::empty())
            && views(after) == views(s).push(fresh(
                joined(texts(title@)),
                match priority { Some(p) => p, None => Priority::Low },
            )),
        Some(Commands::Done { indices }) => {
            let run = toggle_run(views(s), indices@);
            views(after) == run.0 && res == match run.1 {
                None => Ok::<Seq<Seq<char>>, usize>(Seq::empty()),
                Some(i) => Err(i),
            }
        },
        Some(Commands::Edit { index, title, priority }) => if index < s.len() {
            res == Ok::<Seq<Seq<char>>, usize>(Seq::empty()) && views(after) == views(s).update(
                index as int,
                edited(s[index as int]@, edit_title(title@), priority),
            )
        } else {
            res == Err::<Seq<Seq<char>>, usize>(index) && after == s
        },
        Some(Commands::Remove(target)) => match removal_error(s.len(), target) {
            Some(i) => res == Err::<Seq<Seq<char>>, usize>(i) && after == s,
            None => res == Ok::<Seq<Seq<char>>, usize>(Seq::empty()) && after == after_removal(s, target),
        },
    }
}

fn no_lines() -> (lines: Vec<String>)
    ensures
        texts(lines@) == Seq::<Seq<char>>::empty(),
{
    let lines: Vec<String> = Vec::new();
    assert(texts(lines@) == Seq::<Seq<char>>::empty());
    lines
}

/// Applies `command` to the tasks: adds, toggles, edits or removes tasks, or
/// returns the lines of a listing (no command lists all tasks). A command that
/// names a task out of range reports the index. Storage is the caller's part.
pub fn process_command(tasks: &mut Vec<Task>, command: Option<Commands>) -> (res: Result<Vec<String>, TaskrError>)
    ensures
        match res {
            Ok(lines) => command_result(old(tasks)@, command, Ok(texts(lines@)), final(tasks)@),
            Err(TaskrError::Index(e)) => command_result(old(tasks)@, command, Err(e.index), final(tasks)@),
            Err(TaskrError::Storage(_)) => false,
        },
{
    match command {
        Some(Commands::Add { title, priority }) => {
            let title = join_words(&title);
            let priority = match priority {
                Some(p) => p,
                None => Priority::Low,
            };
            add_task(tasks, title, priority);
            Ok(no_lines())
        },
        Some(Commands::List { filter }) => Ok(list_tasks(tasks.as_slice(), filter)),
        Some(Commands::Done { indices }) => {
            match toggle_tasks(tasks.as_mut_slice(), indices.as_slice()) {
                Ok(()) => Ok(no_lines()),
                Err(e) => Err(TaskrError::Index(e)),
            }
        },
        Some(Commands::Edit { index, title, priority }) => {
            let title = if title.len() == 0 {
                None
            } else {
                Some(join_words(&title))
            };
            match edit_task(tasks.as_mut_slice(), index, title, priority) {
                Ok(()) => Ok(no_lines()),
                Err(e) => Err(TaskrError::Index(e)),
            }
        },
        Some(Commands::Remove(target)) => {
            match remove_tasks(tasks, &target) {
                Ok(()) => Ok(no_lines()),
                Err(e) => Err(TaskrError::Index(e)),
            }
        },
        None => Ok(list_tasks(tasks.as_slice(), ListFilter::All)),
    }
}

} // verus!
