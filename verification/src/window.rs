//! The decisions of the debug-window event loop: the protocol between the
//! user's thread and the loop, what a wait for a key makes of each event,
//! and the bookkeeping of open windows by title.

use vstd::prelude::*;

use crate::framebuffer::Framebuffer;

verus! {

/// Entry point of the debug display system; the event loop that runs it is
/// platform code around this crate.
pub struct DebugDisplay;

/// Wakes the event loop when a command is waiting. The wake-up itself is a
/// closure that the event loop's side provides (in tests, a stand-in).
pub struct Notifier<F: Fn() -> bool>(pub F);

impl<F: Fn() -> bool> Notifier<F> {
    /// Wake the event loop: `true` if the wake-up was delivered, `false` if
    /// the event loop has exited. The answer is the closure's.
    pub fn notify(&self) -> (delivered: bool)
        requires
            self.0.requires(()),
        ensures
            self.0.ensures((), delivered),
    {
        (self.0)()
    }
}

/// A command from the user's thread to the event loop.
pub enum WindowCommand {
    /// Create or update the window with this title.
    Show { title: String, framebuffer: Framebuffer },
    /// Close all windows and leave the event loop.
    Exit,
}

/// An event from the event loop back to the user's thread; `K` is the key
/// code type of the windowing system.
pub enum DisplayEvent<K> {
    /// A key was pressed in a window.
    KeyPressed { key: K, window_title: String },
    /// The user closed a window.
    WindowClosed { title: String },
    /// All windows are closed.
    AllClosed,
}

/// What a wait on the event channel got.
pub enum Received<K> {
    /// An event arrived.
    Event(DisplayEvent<K>),
    /// The wait timed out.
    TimedOut,
    /// The event loop has gone.
    Disconnected,
}

/// What a wait for a key does next.
pub enum WaitStep<K> {
    /// Stop waiting and return this: the key, or `None` when no key will
    /// come.
    Done(Option<K>),
    /// Keep waiting.
    KeepWaiting,
}

/// The step a wait for a key takes on what it received: a key press ends
/// it with the key; all windows closed, a timeout or a vanished event loop
/// end it without one; a single closed window does not end it.
pub open spec fn spec_wait_key_step<K>(received: Received<K>) -> WaitStep<K> {
    match received {
        Received::Event(DisplayEvent::KeyPressed { key, .. }) => WaitStep::Done(Some(key)),
        Received::Event(DisplayEvent::AllClosed) => WaitStep::Done(None),
        Received::Event(DisplayEvent::WindowClosed { .. }) => WaitStep::KeepWaiting,
        Received::TimedOut => WaitStep::Done(None),
        Received::Disconnected => WaitStep::Done(None),
    }
}

/// Decide what a wait for a key does with what it received.
pub fn wait_key_step<K>(received: Received<K>) -> (step: WaitStep<K>)
    ensures
        step == spec_wait_key_step(received),
{
    match received {
        Received::Event(DisplayEvent::KeyPressed { key, .. }) => WaitStep::Done(Some(key)),
        Received::Event(DisplayEvent::AllClosed) => WaitStep::Done(None),
        Received::Event(DisplayEvent::WindowClosed { .. }) => WaitStep::KeepWaiting,
        Received::TimedOut => WaitStep::Done(None),
        Received::Disconnected => WaitStep::Done(None),
    }
}

/// What a wait for a key returns when it receives `events` in order: the
/// first key pressed before all windows close, the wait times out or the
/// event loop goes; `None` also when the events run out first.
pub open spec fn wait_outcome<K>(events: Seq<Received<K>>) -> Option<K>
    decreases events.len(),
{
    if events.len() == 0 {
        None
    } else {
        match spec_wait_key_step(events[0]) {
            WaitStep::Done(r) => r,
            WaitStep::KeepWaiting => wait_outcome(events.drop_first()),
        }
    }
}

/// Law: closed single windows never end a wait, and the first key press
/// ends it with that key.
pub proof fn lemma_wait_skips_closed_windows<K>(closed: Seq<Received<K>>, key: K, title: String, rest: Seq<Received<K>>)
    requires
        forall|i: int|
            0 <= i < closed.len() ==> #[trigger] closed[i] matches Received::Event(
                DisplayEvent::WindowClosed { .. },
            ),
    ensures
        wait_outcome(
            closed + seq![Received::Event(DisplayEvent::KeyPressed { key, window_title: title })]
                + rest,
        ) == Some(key),
    decreases closed.len(),
{
    let tail = seq![Received::Event(DisplayEvent::KeyPressed { key, window_title: title })] + rest;
    if closed.len() == 0 {
        assert(closed + tail =~= tail);
        assert(closed + seq![Received::Event(DisplayEvent::KeyPressed { key, window_title: title })] + rest =~= tail);
    } else {
        lemma_wait_skips_closed_windows(closed.drop_first(), key, title, rest);
        let all = closed + seq![Received::Event(DisplayEvent::KeyPressed { key, window_title: title })] + rest;
        assert(all[0] == closed[0]);
        assert(all.drop_first() =~= closed.drop_first() + seq![
            Received::Event(DisplayEvent::KeyPressed { key, window_title: title }),
        ] + rest);
    }
}

/// Law: closed single windows never end a wait, and the first event that
/// decides ends it with its decision: all windows closed, a timeout or a
/// vanished event loop give `None`, a key press gives the key.
pub proof fn lemma_wait_ends_at_first_decision<K>(closed: Seq<Received<K>>, last: Received<K>, rest: Seq<Received<K>>)
    requires
        forall|i: int|
            0 <= i < closed.len() ==> #[trigger] closed[i] matches Received::Event(
                DisplayEvent::WindowClosed { .. },
            ),
        spec_wait_key_step(last) is Done,
    ensures
        wait_outcome(closed + seq![last] + rest) == spec_wait_key_step(last)->Done_0,
        last matches Received::Event(DisplayEvent::AllClosed) ==> wait_outcome(
            closed + seq![last] + rest,
        ) is None,
        last matches Received::TimedOut ==> wait_outcome(closed + seq![last] + rest) is None,
        last matches Received::Disconnected ==> wait_outcome(closed + seq![last] + rest) is None,
    decreases closed.len(),
{
    let tail = seq![last] + rest;
    if closed.len() == 0 {
        assert(closed + seq![last] + rest =~= tail);
        assert(tail[0] == last);
    } else {
        lemma_wait_ends_at_first_decision(closed.drop_first(), last, rest);
        let all = closed + seq![last] + rest;
        assert(all[0] == closed[0]);
        assert(all.drop_first() =~= closed.drop_first() + seq![last] + rest);
    }
}

// ── Open windows ────────────────────────────────────────────────────────────

/// An open window: its title, the windowing system's id for it, and the
/// state the event loop keeps for it.
pub struct WindowEntry<W> {
    title: String,
    id: u64,
    state: W,
}

/// The open windows, keyed by title: showing an image under a title that is
/// open updates that window, any other title opens a new one.
pub struct WindowRegistry<W> {
    entries: Vec<WindowEntry<W>>,
}

impl<W> WindowRegistry<W> {
    /// Titles of the open windows.
    pub closed spec fn titles(&self) -> Seq<Seq<char>> {
        self.entries@.map_values(|e: WindowEntry<W>| e.title@)
    }

    /// Ids of the open windows, in the order of [`Self::titles`].
    pub closed spec fn ids(&self) -> Seq<u64> {
        self.entries@.map_values(|e: WindowEntry<W>| e.id)
    }

    /// States of the open windows, in the order of [`Self::titles`].
    pub closed spec fn states(&self) -> Seq<W> {
        self.entries@.map_values(|e: WindowEntry<W>| e.state)
    }

    /// No title is open twice.
    pub open spec fn wf(&self) -> bool {
        &&& self.ids().len() == self.titles().len()
        &&& self.states().len() == self.titles().len()
        &&& forall|i: int, j: int|
            0 <= i < j < self.titles().len() ==> #[trigger] self.titles()[i]
                != #[trigger] self.titles()[j]
    }

    /// Whether a window with this title is open.
    pub open spec fn has_title(&self, title: Seq<char>) -> bool {
        exists|i: int| 0 <= i < self.titles().len() && #[trigger] self.titles()[i] == title
    }

    /// No window is open.
    pub fn new() -> (r: Self)
        ensures
            r.wf(),
            r.titles().len() == 0,
    {
        let r = WindowRegistry { entries: Vec::new() };
        proof {
            assert(r.titles() =~= Seq::<Seq<char>>::empty());
        }
        r
    }

    /// Number of open windows.
    pub fn len(&self) -> (n: usize)
        ensures
            n == self.titles().len(),
    {
        self.entries.len()
    }

    /// Whether no window is open.
    pub fn is_empty(&self) -> (b: bool)
        ensures
            b == (self.titles().len() == 0),
    {
        self.entries.len() == 0
    }

    /// Position of the window with this title, if it is open.
    pub fn find_title(&self, title: &String) -> (r: Option<usize>)
        requires
            self.wf(),
        ensures
            r is None <==> !self.has_title(title@),
            r matches Some(i) ==> i < self.titles().len() && self.titles()[i as int] == title@,
    {
        let mut i: usize = 0;
        while i < self.entries.len()
            invariant
                self.wf(),
                0 <= i <= self.titles().len(),
                self.titles().len() == self.entries@.len(),
                forall|j: int| 0 <= j < i ==> #[trigger] self.titles()[j] != title@,
            decreases self.entries@.len() - i,
        {
            assert(self.titles()[i as int] == self.entries@[i as int].title@);
            if self.entries[i].title == *title {
                return Some(i);
            }
            i = i + 1;
        }
        None
    }

    /// Title of the window with this id, if one is open.
    pub fn title_for_window(&self, id: u64) -> (r: Option<String>)
        requires
            self.wf(),
        ensures
            r is None <==> !self.ids().contains(id),
            r matches Some(t) ==> exists|i: int|
                0 <= i < self.ids().len() && self.ids()[i] == id && #[trigger] self.titles()[i]
                    == t@,
    {
        let mut i: usize = 0;
        while i < self.entries.len()
            invariant
                self.wf(),
                0 <= i <= self.ids().len(),
                self.ids().len() == self.entries@.len(),
                forall|j: int| 0 <= j < i ==> #[trigger] self.ids()[j] != id,
            decreases self.entries@.len() - i,
        {
            assert(self.ids()[i as int] == self.entries@[i as int].id);
            assert(self.titles()[i as int] == self.entries@[i as int].title@);
            if self.entries[i].id == id {
                return Some(self.entries[i].title.clone());
            }
            i = i + 1;
        }
        None
    }

    /// The state of the window at position `i`, to update in place.
    pub fn state_mut(&mut self, i: usize) -> (s: &mut W)
        requires
            old(self).wf(),
            i < old(self).titles().len(),
        ensures
            *s == old(self).states()[i as int],
            final(self).titles() == old(self).titles(),
            final(self).ids() == old(self).ids(),
            final(self).states() == old(self).states().update(i as int, *final(s)),
    {
        &mut self.entries[i].state
    }

    /// Open a window under a title that is not open yet.
    pub fn insert(&mut self, title: String, id: u64, state: W)
        requires
            old(self).wf(),
            !old(self).has_title(title@),
        ensures
            final(self).wf(),
            final(self).titles() == old(self).titles().push(title@),
            final(self).ids() == old(self).ids().push(id),
            final(self).states() == old(self).states().push(state),
    {
        let ghost t = title@;
        self.entries.push(WindowEntry { title, id, state });
        proof {
            assert(self.titles() =~= old(self).titles().push(t));
            assert(self.ids() =~= old(self).ids().push(id));
            assert(self.states() =~= old(self).states().push(state));
            assert forall|i: int, j: int|
                0 <= i < j < self.titles().len() implies #[trigger] self.titles()[i]
                != #[trigger] self.titles()[j] by {
                if j == self.titles().len() - 1 {
                    assert(old(self).titles()[i] == self.titles()[i]);
                }
            }
        }
    }

    /// Close the window with this id, if one is open: it leaves the
    /// registry, and its title is returned.
    pub fn remove_window(&mut self, id: u64) -> (r: Option<String>)
        requires
            old(self).wf(),
        ensures
            final(self).wf(),
            r is None <==> !old(self).ids().contains(id),
            r is None ==> final(self).titles() == old(self).titles() && final(self).ids() == old(
                self,
            ).ids() && final(self).states() == old(self).states(),
            r matches Some(t) ==> exists|i: int|
                0 <= i < old(self).ids().len() && old(self).ids()[i] == id && (forall|j: int|
                    0 <= j < i ==> #[trigger] old(self).ids()[j] != id) && #[trigger] old(
                    self,
                ).titles()[i] == t@ && final(self).titles() == old(self).titles().remove(i)
                    && final(self).ids() == old(self).ids().remove(i) && final(self).states()
                    == old(self).states().remove(i),
    {
        let mut i: usize = 0;
        while i < self.entries.len()
            invariant
                self.wf(),
                self == old(self),
                0 <= i <= self.ids().len(),
                self.ids().len() == self.entries@.len(),
                forall|j: int| 0 <= j < i ==> #[trigger] self.ids()[j] != id,
            decreases self.entries@.len() - i,
        {
            assert(self.ids()[i as int] == self.entries@[i as int].id);
            if self.entries[i].id == id {
                let ghost before = *self;
                let e = self.entries.remove(i);
                proof {
                    assert(before.titles()[i as int] == e.title@);
                    assert(self.titles() =~= before.titles().remove(i as int));
                    assert(self.ids() =~= before.ids().remove(i as int));
                    assert(self.states() =~= before.states().remove(i as int));
                    assert forall|a: int, b: int|
                        0 <= a < b < self.titles().len() implies #[trigger] self.titles()[a]
                        != #[trigger] self.titles()[b] by {
                        let a0 = if a < i { a } else { a + 1 };
                        let b0 = if b < i { b } else { b + 1 };
                        assert(self.titles()[a] == before.titles()[a0]);
                        assert(self.titles()[b] == before.titles()[b0]);
                    }
                }
                return Some(e.title);
            }
            i = i + 1;
        }
        None
    }

    /// Close every window.
    pub fn clear(&mut self)
        ensures
            final(self).wf(),
            final(self).titles().len() == 0,
    {
        self.entries = Vec::new();
        proof {
            assert(self.titles() =~= Seq::<Seq<char>>::empty());
            assert(self.ids() =~= Seq::<u64>::empty());
            assert(self.states() =~= Seq::<W>::empty());
        }
    }

    /// The user closed the window with this id: it leaves the registry; the
    /// events to send back are that window's closing, if it was open, and,
    /// once no window is left, that all are closed. The flag says whether the
    /// event loop should then exit.
    pub fn close_window<K>(&mut self, id: u64) -> (r: (Vec<DisplayEvent<K>>, bool))
        requires
            old(self).wf(),
        ensures
            final(self).wf(),
            old(self).ids().contains(id) ==> final(self).titles().len() == old(self).titles().len()
                - 1,
            !old(self).ids().contains(id) ==> final(self).titles() == old(self).titles()
                && final(self).ids() == old(self).ids() && final(self).states() == old(
                self,
            ).states(),
            old(self).ids().contains(id) ==> exists|i: int|
                #![trigger old(self).ids()[i]]
                0 <= i < old(self).ids().len() && old(self).ids()[i] == id && (forall|j: int|
                    0 <= j < i ==> #[trigger] old(self).ids()[j] != id) && final(self).titles()
                    == old(self).titles().remove(i) && final(self).ids() == old(self).ids().remove(
                    i,
                ) && final(self).states() == old(self).states().remove(i) && r.0@[0] is WindowClosed
                    && r.0@[0]->title@ == old(self).titles()[i],
            r.1 == (final(self).titles().len() == 0),
            r.0@.len() == (if old(self).ids().contains(id) {
                1int
            } else {
                0int
            }) + (if r.1 {
                1int
            } else {
                0int
            }),
            r.1 ==> r.0@.last() matches DisplayEvent::AllClosed,
    {
        let mut events: Vec<DisplayEvent<K>> = Vec::new();
        let closed = self.remove_window(id);
        match closed {
            Some(title) => {
                events.push(DisplayEvent::WindowClosed { title });
            },
            None => {},
        }
        let empty = self.entries.len() == 0;
        proof {
            assert(self.titles().len() == self.entries@.len());
        }
        if empty {
            events.push(DisplayEvent::AllClosed);
        }
        (events, empty)
    }

    /// The user's thread asked to exit: every window closes, and the event
    /// to send back is that all are closed.
    pub fn exit_all<K>(&mut self) -> (events: Vec<DisplayEvent<K>>)
        ensures
            final(self).wf(),
            final(self).titles().len() == 0,
            events@.len() == 1,
            events@[0] matches DisplayEvent::AllClosed,
    {
        self.clear();
        let mut events: Vec<DisplayEvent<K>> = Vec::new();
        events.push(DisplayEvent::AllClosed);
        events
    }
}

} // verus!
