//! The decisions behind the interactive key loop. Reading keys and showing
//! prompts happen outside the library; the state kept between key presses
//! and the selections computed from it are verified here.
use vstd::prelude::*;

use crate::process::{ProcessId, ProcessIdView};
use crate::text::str_eq;

verus! {

/// The last one-shot action, kept so that `.` can repeat it.
pub enum BufferedCommand {
    Start(String),
    Restart(String, ProcessId),
}

/// What the input loop remembers between key presses.
pub struct InputState {
    pub requested_quit: bool,
    pub awaiting_quit_command: bool,
    pub last_command: Option<BufferedCommand>,
}

impl InputState {
    pub fn new() -> (s: Self)
        ensures
            !s.requested_quit,
            !s.awaiting_quit_command,
            s.last_command is None,
    {
        InputState { requested_quit: false, awaiting_quit_command: false, last_command: None }
    }

    /// Run at every key press before the key is looked at: a pending quit
    /// request becomes an armed one, so that the next `q` quits for real.
    pub fn begin_key(&mut self)
        ensures
            final(self).awaiting_quit_command == (old(self).awaiting_quit_command || old(
                self,
            ).requested_quit),
            !final(self).requested_quit || !old(self).requested_quit,
            final(self).last_command == old(self).last_command,
    {
        if self.requested_quit {
            self.requested_quit = false;
            self.awaiting_quit_command = true;
        }
    }

    /// The quit key: quits for real only when it was already armed by a
    /// previous quit request; otherwise it arms and asks for confirmation.
    pub fn on_quit_key(&mut self) -> (kill_all: bool)
        ensures
            kill_all == old(self).awaiting_quit_command,
            !kill_all ==> final(self).requested_quit,
            final(self).last_command == old(self).last_command,
    {
        if self.awaiting_quit_command {
            true
        } else {
            self.requested_quit = true;
            false
        }
    }
}

/// Whether some text of `keep` is the command text of `id`.
pub open spec fn spec_kept(id: ProcessIdView, keep: Seq<Seq<char>>) -> bool {
    exists|j: int| 0 <= j < keep.len() && keep[j] == id.command
}

/// The ids whose command is not in the keep list, in order.
pub open spec fn spec_to_stop(ids: Seq<ProcessIdView>, keep: Seq<Seq<char>>) -> Seq<ProcessIdView>
    decreases ids.len(),
{
    if ids.len() == 0 {
        Seq::empty()
    } else {
        spec_to_stop(ids.drop_last(), keep) + if spec_kept(ids.last(), keep) {
            Seq::empty()
        } else {
            seq![ids.last()]
        }
    }
}

fn is_kept(id: &ProcessId, keep: &Vec<String>) -> (r: bool)
    ensures
        r == spec_kept(id@, crate::config::str_views(keep@)),
{
    let ghost texts = crate::config::str_views(keep@);
    let mut j: usize = 0;
    while j < keep.len()
        invariant
            j <= keep@.len(),
            texts == crate::config::str_views(keep@),
            forall|t: int| 0 <= t < j ==> texts[t] != id@.command,
        decreases keep@.len() - j,
    {
        if str_eq(keep[j].as_str(), id.command()) {
            proof {
                assert(texts[j as int] == id@.command);
            }
            return true;
        }
        proof {
            assert(texts[j as int] != id@.command);
        }
        j += 1;
    }
    false
}

/// When the operator switches to a single recipe, every running process whose
/// command the recipe does not cover is to be stopped: exactly the listed
/// ids whose command text is not among `keep`, in listing order.
pub fn processes_to_stop(list: &Vec<ProcessId>, keep: &Vec<String>) -> (r: Vec<ProcessId>)
    ensures
        crate::manager::ids_of(r@) == spec_to_stop(
            crate::manager::ids_of(list@),
            crate::config::str_views(keep@),
        ),
{
    let ghost ids = crate::manager::ids_of(list@);
    let ghost texts = crate::config::str_views(keep@);
    let mut r: Vec<ProcessId> = Vec::new();
    let mut i: usize = 0;
    while i < list.len()
        invariant
            i <= list@.len(),
            ids == crate::manager::ids_of(list@),
            texts == crate::config::str_views(keep@),
            crate::manager::ids_of(r@) == spec_to_stop(ids.take(i as int), texts),
        decreases list@.len() - i,
    {
        proof {
            assert(ids.take(i + 1).drop_last() =~= ids.take(i as int));
            assert(ids.take(i + 1).last() == ids[i as int]);
        }
        if !is_kept(&list[i], keep) {
            let ghost before = r@;
            r.push(list[i].clone());
            proof {
                assert(crate::manager::ids_of(r@) =~= crate::manager::ids_of(before).push(
                    ids[i as int],
                ));
                assert(crate::manager::ids_of(r@) =~= spec_to_stop(ids.take(i + 1), texts));
            }
        } else {
            proof {
                assert(crate::manager::ids_of(r@) =~= spec_to_stop(ids.take(i + 1), texts));
            }
        }
        i += 1;
    }
    proof {
        assert(ids.take(ids.len() as int) =~= ids);
    }
    r
}

} // verus!
