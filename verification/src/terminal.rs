//! The terminal transport the editor drives, and a scripted terminal for
//! headless use.

use crate::input::InputEvent;
use crate::surface::Change;
use vstd::prelude::*;

verus! {

broadcast use vstd::seq::group_seq_axioms;

/// How a line-editing session can end without a line being accepted.
#[derive(Debug, Clone, Copy, PartialEq, Eq, Structural)]
pub enum LineEditError {
    /// The session was terminated by an end-of-file request.
    EndOfFile,
    /// The transport failed while switching modes, polling, rendering or
    /// flushing.
    Transport,
}

/// The raw terminal transport: mode switching, event polling, rendering
/// and flushing.  Implementations perform real input and output.
///
/// A transport models, as the ghost [`Terminal::script`], the input events
/// it will still deliver, in order: polling hands out the head of that
/// script; output and mode switching leave it alone; any method may fail,
/// and a failed transport call is always a transport failure, never one of
/// the editor's own conditions.  A session therefore sees finitely many
/// events before the stream ends or fails.
pub trait Terminal {
    /// The input events this transport will still deliver, in order.
    spec fn script(&self) -> Seq<InputEvent>;

    /// True while the transport is in raw input mode.
    spec fn in_raw_mode(&self) -> bool;

    /// Enters raw input mode.
    fn set_raw_mode(&mut self) -> (r: Result<(), LineEditError>)
        ensures
            final (self).script() == old(self).script(),
            r matches Err(e) ==> e == LineEditError::Transport,
            r is Ok ==> final (self).in_raw_mode(),
    ;

    /// Restores cooked input mode.
    fn set_cooked_mode(&mut self) -> (r: Result<(), LineEditError>)
        ensures
            final (self).script() == old(self).script(),
            r matches Err(e) ==> e == LineEditError::Transport,
            r is Ok ==> !final (self).in_raw_mode(),
    ;

    /// Blocks for the next input event; `None` means the input stream has
    /// ended.
    fn poll_input(&mut self) -> (r: Result<Option<InputEvent>, LineEditError>)
        ensures
            match r {
                Ok(Some(e)) => old(self).script().len() > 0 && e == old(self).script()[0]
                    && final (self).script() == old(self).script().drop_first(),
                Ok(None) => old(self).script().len() == 0,
                Err(e) => e == LineEditError::Transport,
            },
            final (self).in_raw_mode() == old(self).in_raw_mode(),
    ;

    /// Applies a list of display changes.
    fn render(&mut self, changes: &Vec<Change>) -> (r: Result<(), LineEditError>)
        ensures
            final (self).script() == old(self).script(),
            r matches Err(e) ==> e == LineEditError::Transport,
            final (self).in_raw_mode() == old(self).in_raw_mode(),
    ;

    /// Flushes buffered output to the display.
    fn flush(&mut self) -> (r: Result<(), LineEditError>)
        ensures
            final (self).script() == old(self).script(),
            r matches Err(e) ==> e == LineEditError::Transport,
            final (self).in_raw_mode() == old(self).in_raw_mode(),
    ;
}

/// A terminal that replays a fixed script of input events and discards all
/// output.  When the script runs out it reports the end of the input
/// stream, or a transport failure when built with [`ScriptedTerminal::failing`].
/// Useful for headless runs and tests.
pub struct ScriptedTerminal {
    queue: Vec<InputEvent>,
    fail_at_end: bool,
    raw: bool,
}

impl ScriptedTerminal {
    /// True when the exhausted script ends in a transport failure rather
    /// than an end of stream.
    pub closed spec fn fails_at_end(&self) -> bool {
        self.fail_at_end
    }

    /// A scripted terminal that will deliver the given events in order,
    /// then report the end of the input stream.
    pub fn new(events: Vec<InputEvent>) -> (r: Self)
        ensures
            r.script() == events@,
            !r.fails_at_end(),
    {
        ScriptedTerminal { queue: reverse_events(events), fail_at_end: false, raw: false }
    }

    /// A scripted terminal that will deliver the given events in order,
    /// then fail polling, as a device would on failure.
    pub fn failing(events: Vec<InputEvent>) -> (r: Self)
        ensures
            r.script() == events@,
            r.fails_at_end(),
    {
        ScriptedTerminal { queue: reverse_events(events), fail_at_end: true, raw: false }
    }
}

/// The given events in reverse order.
fn reverse_events(events: Vec<InputEvent>) -> (r: Vec<InputEvent>)
    ensures
        r@ == events@.reverse(),
        r@.reverse() == events@,
{
    let ghost all = events@;
    let mut events = events;
    let mut queue: Vec<InputEvent> = Vec::new();
    while events.len() > 0
        invariant
            events@.len() <= all.len(),
            events@ == all.take(events@.len() as int),
            queue@ == all.skip(events@.len() as int).reverse(),
        decreases events@.len(),
    {
        let ghost before = events@;
        match events.pop() {
            Some(e) => {
                queue.push(e);
                proof {
                    assert(e == all[events@.len() as int]);
                    assert(events@ =~= all.take(events@.len() as int));
                    assert(queue@ =~= all.skip(events@.len() as int).reverse()) by {
                        let n = events@.len() as int;
                        let rest = all.skip(n);
                        assert forall|j: int| 0 <= j < rest.len() implies queue@[j] == rest.reverse()[j] by {
                            assert(rest.reverse()[j] == rest[rest.len() - 1 - j]);
                            assert(rest[rest.len() - 1 - j] == all[all.len() - 1 - j]);
                            if j < rest.len() - 1 {
                                assert(queue@[j] == all.skip(n + 1).reverse()[j]);
                                assert(all.skip(n + 1).reverse()[j] == all.skip(n + 1)[all.len() - n
                                    - 2 - j]);
                            }
                        }
                    }
                }
            },
            None => {},
        }
    }
    proof {
        assert(all.skip(0) =~= all);
        assert(queue@.reverse() =~= all) by {
            assert forall|j: int| 0 <= j < all.len() implies queue@.reverse()[j] == all[j] by {
                assert(queue@.reverse()[j] == queue@[all.len() - 1 - j]);
                assert(queue@[all.len() - 1 - j] == all.reverse()[all.len() - 1 - j]);
                assert(all.reverse()[all.len() - 1 - j] == all[j]);
            }
        }
    }
    queue
}

impl Terminal for ScriptedTerminal {
    closed spec fn script(&self) -> Seq<InputEvent> {
        self.queue@.reverse()
    }

    closed spec fn in_raw_mode(&self) -> bool {
        self.raw
    }

    fn set_raw_mode(&mut self) -> (r: Result<(), LineEditError>)
        ensures
            final (self).script() == old(self).script(),
            final (self).fails_at_end() == old(self).fails_at_end(),
            r is Ok,
    {
        self.raw = true;
        Ok(())
    }

    fn set_cooked_mode(&mut self) -> (r: Result<(), LineEditError>)
        ensures
            final (self).script() == old(self).script(),
            final (self).fails_at_end() == old(self).fails_at_end(),
            r is Ok,
    {
        self.raw = false;
        Ok(())
    }

    fn poll_input(&mut self) -> (r: Result<Option<InputEvent>, LineEditError>)
        ensures
            match r {
                Ok(Some(e)) => old(self).script().len() > 0 && e == old(self).script()[0]
                    && final (self).script() == old(self).script().drop_first(),
                Ok(None) => old(self).script().len() == 0 && !old(self).fails_at_end()
                    && final (self).script() == old(self).script(),
                Err(e) => e == LineEditError::Transport && old(self).script().len() == 0 && old(
                    self,
                ).fails_at_end() && final (self).script() == old(self).script(),
            },
            final (self).fails_at_end() == old(self).fails_at_end(),
    {
        let ghost q0 = self.queue@;
        match self.queue.pop() {
            Some(e) => {
                proof {
                    assert(e == q0.last());
                    assert(q0.reverse()[0] == q0[q0.len() - 1]);
                    assert(self.queue@ =~= q0.drop_last());
                    assert(self.queue@.reverse() =~= q0.reverse().drop_first()) by {
                        assert forall|j: int| 0 <= j < q0.len() - 1 implies self.queue@.reverse()[j]
                            == q0.reverse()[j + 1] by {
                            assert(self.queue@.reverse()[j] == self.queue@[q0.len() - 2 - j]);
                            assert(q0.reverse()[j + 1] == q0[q0.len() - 2 - j]);
                        }
                    }
                }
                Ok(Some(e))
            },
            None => {
                if self.fail_at_end {
                    Err(LineEditError::Transport)
                } else {
                    Ok(None)
                }
            },
        }
    }

    fn render(&mut self, _changes: &Vec<Change>) -> (r: Result<(), LineEditError>)
        ensures
            *final (self) == *old(self),
            r is Ok,
    {
        Ok(())
    }

    fn flush(&mut self) -> (r: Result<(), LineEditError>)
        ensures
            *final (self) == *old(self),
            r is Ok,
    {
        Ok(())
    }
}

} // verus!
