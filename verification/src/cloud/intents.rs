//! What the user meant to do before they were asked to sign in, or before the
//! catalog had come.

use crate::text::{opt, same};
use vstd::prelude::*;
use vstd::string::*;

verus! {

/// What the user meant to do.
pub struct Intents {
    /// Files that become references, each with its name.
    pub references: Vec<(String, String)>,
    /// The teams are to be listed.
    pub team_picker: bool,
    /// A template is to be applied.
    pub template_id: Option<String>,
    /// The form is to be filled from a task.
    pub refill_id: Option<String>,
}

pub struct IntentsView {
    pub references: Seq<(Seq<char>, Seq<char>)>,
    pub team_picker: bool,
    pub template_id: Option<Seq<char>>,
    pub refill_id: Option<Seq<char>>,
}

/// The views of a list of pairs of texts.
pub open spec fn pair_views(v: Seq<(String, String)>) -> Seq<(Seq<char>, Seq<char>)> {
    Seq::new(v.len(), |i: int| (v[i].0@, v[i].1@))
}

impl View for Intents {
    type V = IntentsView;

    open spec fn view(&self) -> IntentsView {
        IntentsView {
            references: pair_views(self.references@),
            team_picker: self.team_picker,
            template_id: opt(self.template_id),
            refill_id: opt(self.refill_id),
        }
    }
}

/// Whether a file waits already.
pub open spec fn is_queued(queue: Seq<(Seq<char>, Seq<char>)>, path: Seq<char>) -> bool {
    exists|i: int| 0 <= i < queue.len() && (#[trigger] queue[i]).0 == path
}

/// The queue with a file at its end, where it does not wait already.
pub open spec fn enqueued(
    queue: Seq<(Seq<char>, Seq<char>)>,
    path: Seq<char>,
    name: Seq<char>,
) -> Seq<(Seq<char>, Seq<char>)> {
    if is_queued(queue, path) {
        queue
    } else {
        queue.push((path, name))
    }
}

/// Lets a file wait; the result says whether it is new.
pub fn enqueue_personal_reference(queue: &mut Vec<(String, String)>, path: String, name: String) -> (r:
    bool)
    ensures
        r == !is_queued(pair_views(old(queue)@), path@),
        pair_views(final(queue)@) == enqueued(pair_views(old(queue)@), path@, name@),
{
    let ghost before = pair_views(queue@);
    let mut i: usize = 0;
    while i < queue.len()
        invariant
            i <= queue.len(),
            *queue == *old(queue),
            before == pair_views(queue@),
            forall|j: int| 0 <= j < i ==> (#[trigger] before[j]).0 != path@,
        decreases queue.len() - i,
    {
        if same(queue[i].0.as_str(), path.as_str()) {
            proof {
                assert(before[i as int].0 == path@);
            }
            return false;
        }
        i = i + 1;
    }
    let ghost added = (path@, name@);
    queue.push((path, name));
    proof {
        assert(pair_views(queue@) =~= before.push(added));
    }
    true
}

/// Every file waits at most once, however often it is chosen, and a file that
/// waits keeps its place.
pub proof fn queued_files_are_unique(
    queue: Seq<(Seq<char>, Seq<char>)>,
    path: Seq<char>,
    name: Seq<char>,
)
    requires
        forall|i: int, j: int|
            0 <= i < j < queue.len() ==> (#[trigger] queue[i]).0 != (#[trigger] queue[j]).0,
    ensures
        ({
            let after = enqueued(queue, path, name);
            &&& is_queued(after, path)
            &&& after.take(queue.len() as int) == queue
            &&& forall|i: int, j: int|
                0 <= i < j < after.len() ==> (#[trigger] after[i]).0 != (#[trigger] after[j]).0
            &&& enqueued(after, path, name) == after
        }),
{
    let after = enqueued(queue, path, name);
    assert(after.take(queue.len() as int) =~= queue);
    if !is_queued(queue, path) {
        assert(after[queue.len() as int].0 == path);
    }
}

} // verus!
