//! Which commands are being carried out.
//!
//! A server that has waited too long sends its command again under the same id. While the
//! first one is on its way the second is ignored; afterwards the id may come again.

use vstd::prelude::*;
use crate::text_set::TextSet;

verus! {

/// The ids of the commands that are being carried out.
pub struct CommandTracker {
    running: TextSet,
}

impl CommandTracker {
    /// The ids.
    pub closed spec fn view(&self) -> Set<Seq<char>> {
        self.running.view()
    }

    /// No command is being carried out.
    pub fn new() -> (r: CommandTracker)
        ensures
            r.view() == Set::<Seq<char>>::empty(),
    {
        CommandTracker { running: TextSet::new() }
    }

    /// A command begins; `false` where one with the same id is on its way.
    pub fn begin(&mut self, request_id: String) -> (r: bool)
        ensures
            r == !old(self).view().contains(request_id@),
            final(self).view() == old(self).view().insert(request_id@),
    {
        self.running.insert(request_id)
    }

    /// A command is done. An id that is not known is passed over.
    pub fn finish(&mut self, request_id: &str)
        ensures
            final(self).view() == old(self).view().remove(request_id@),
    {
        self.running.remove(request_id)
    }
}

impl Default for CommandTracker {
    fn default() -> (r: Self)
        ensures
            r.view() == Set::<Seq<char>>::empty(),
    {
        CommandTracker::new()
    }
}

/// Begun once, an id is refused until it is finished, and accepted again afterwards.
pub proof fn law_repeats_wait_for_the_end(running: Set<Seq<char>>, id: Seq<char>)
    ensures
        running.insert(id).contains(id),
        !running.insert(id).remove(id).contains(id),
        !running.contains(id) ==> running.insert(id).remove(id) == running,
{
    if !running.contains(id) {
        assert(running.insert(id).remove(id) =~= running);
    }
}

/// Commands with different ids do not get in one another's way.
pub proof fn law_ids_are_independent(running: Set<Seq<char>>, a: Seq<char>, b: Seq<char>)
    requires
        a != b,
    ensures
        running.insert(a).contains(b) == running.contains(b),
        running.remove(a).contains(b) == running.contains(b),
{
}

} // verus!
