//! The progress display: which operations are under way, and what to draw
//! when that changes.
//!
//! The state here is only the bookkeeping. Receiving updates and writing to
//! the terminal is left to the caller, who hands each received update to
//! [`ProgressState::tick`] and draws the frame that comes back.

use vstd::prelude::*;
use vstd::string::*;
use crate::text::concat3;

verus! {

/// The stages of a run.
#[derive(Debug, Clone, Copy, PartialEq, Eq, Structural)]
pub enum Phase {
    Idle,
    GettingLocks,
    Downloading,
    Extracting,
}

/// A lifecycle event of the pipeline.
#[derive(Debug, PartialEq, Eq)]
pub enum ProgressUpdate {
    PhaseStarted(Phase),
    PhaseEnded(Phase),
    Started { subject: String, step: &'static str },
    Progressed { subject: String, step: &'static str },
    Done { subject: String },
    AllDone,
}

/// A `ProgressUpdate` as plain values.
pub enum UpdateView {
    PhaseStarted(Phase),
    PhaseEnded(Phase),
    Started { subject: Seq<char>, step: Seq<char> },
    Progressed { subject: Seq<char>, step: Seq<char> },
    Done { subject: Seq<char> },
    AllDone,
}

impl View for ProgressUpdate {
    type V = UpdateView;

    open spec fn view(&self) -> UpdateView {
        match self {
            ProgressUpdate::PhaseStarted(p) => UpdateView::PhaseStarted(*p),
            ProgressUpdate::PhaseEnded(p) => UpdateView::PhaseEnded(*p),
            ProgressUpdate::Started { subject, step } => UpdateView::Started {
                subject: subject@,
                step: step@,
            },
            ProgressUpdate::Progressed { subject, step } => UpdateView::Progressed {
                subject: subject@,
                step: step@,
            },
            ProgressUpdate::Done { subject } => UpdateView::Done { subject: subject@ },
            ProgressUpdate::AllDone => UpdateView::AllDone,
        }
    }
}

impl Clone for ProgressUpdate {
    fn clone(&self) -> (r: Self)
        ensures
            r == *self,
    {
        match self {
            ProgressUpdate::PhaseStarted(p) => ProgressUpdate::PhaseStarted(*p),
            ProgressUpdate::PhaseEnded(p) => ProgressUpdate::PhaseEnded(*p),
            ProgressUpdate::Started { subject, step } => ProgressUpdate::Started {
                subject: subject.clone(),
                step: *step,
            },
            ProgressUpdate::Progressed { subject, step } => ProgressUpdate::Progressed {
                subject: subject.clone(),
                step: *step,
            },
            ProgressUpdate::Done { subject } => ProgressUpdate::Done { subject: subject.clone() },
            ProgressUpdate::AllDone => ProgressUpdate::AllDone,
        }
    }
}

/// A line of the display: a subject and the step it is at.
pub type Entry = (Seq<char>, Seq<char>);

/// The index of the first entry for `subject` among the first `n`, or `-1`.
pub open spec fn entry_index(current: Seq<Entry>, subject: Seq<char>, n: int) -> int
    decreases n,
{
    if n <= 0 {
        -1
    } else if entry_index(current, subject, n - 1) >= 0 {
        entry_index(current, subject, n - 1)
    } else if current[n - 1].0 == subject {
        n - 1
    } else {
        -1
    }
}

/// The entries after `update` has been taken in: a start adds its subject
/// unless it is shown already, progress replaces the subject's entry where
/// it stands, and completion removes every entry of the subject.
pub open spec fn handled(current: Seq<Entry>, update: UpdateView) -> Seq<Entry> {
    match update {
        UpdateView::Started { subject, step } => {
            if entry_index(current, subject, current.len() as int) >= 0 {
                current
            } else {
                current.push((subject, step))
            }
        },
        UpdateView::Progressed { subject, step } => {
            let i = entry_index(current, subject, current.len() as int);
            if i >= 0 {
                current.update(i, (subject, step))
            } else {
                current
            }
        },
        UpdateView::Done { subject } => current.filter(not_about(subject)),
        _ => current,
    }
}

/// The entries that are not about `subject`.
pub open spec fn not_about(subject: Seq<char>) -> spec_fn(Entry) -> bool {
    |e: Entry| e.0 != subject
}

/// The text of a display line.
pub open spec fn line_of(entry: Entry) -> Seq<char> {
    entry.0 + ": "@ + entry.1
}

/// The first entry for a subject is an entry for it, and no earlier one is.
pub proof fn lemma_entry_index(current: Seq<Entry>, subject: Seq<char>, n: int)
    requires
        0 <= n <= current.len(),
    ensures
        -1 <= entry_index(current, subject, n) < n,
        entry_index(current, subject, n) >= 0 ==> current[entry_index(current, subject, n)].0
            == subject,
        forall|j: int|
            0 <= j < n && (entry_index(current, subject, n) < 0 || j < entry_index(
                current,
                subject,
                n,
            )) ==> (#[trigger] current[j]).0 != subject,
    decreases n,
{
    if n > 0 {
        lemma_entry_index(current, subject, n - 1);
    }
}

/// What to draw: how many lines of the last frame to erase, then the lines
/// to write.
#[derive(Debug, PartialEq, Eq)]
pub struct Frame {
    pub erase: usize,
    pub lines: Vec<String>,
}

/// The bookkeeping of the progress display.
#[derive(Debug)]
pub struct ProgressState {
    pub current_phase: Phase,
    pub lines_drawn: usize,
    pub current: Vec<(String, &'static str)>,
}

impl ProgressState {
    /// A display that shows nothing yet.
    pub fn new() -> (r: ProgressState)
        ensures
            r.current_phase == Phase::Idle,
            r.lines_drawn == 0,
            r.current@.len() == 0,
    {
        ProgressState { current_phase: Phase::Idle, lines_drawn: 0, current: Vec::new() }
    }

    /// Where the first entry for `subject` stands.
    fn find(&self, subject: &String) -> (r: Option<usize>)
        ensures
            match r {
                Some(i) => i as int == entry_index(
                    self.current.deep_view(),
                    subject@,
                    self.current@.len() as int,
                ),
                None => entry_index(self.current.deep_view(), subject@, self.current@.len() as int)
                    < 0,
            },
    {
        let mut i: usize = 0;
        while i < self.current.len()
            invariant
                i <= self.current.len(),
                entry_index(self.current.deep_view(), subject@, i as int) < 0,
            decreases self.current.len() - i,
        {
            assert(self.current.deep_view()[i as int].0 == self.current@[i as int].0@);
            if self.current[i].0 == *subject {
                proof {
                    lemma_found_stays(
                        self.current.deep_view(),
                        subject@,
                        i + 1,
                        self.current@.len() as int,
                    );
                }
                return Some(i);
            }
            i = i + 1;
        }
        None
    }

    /// Takes one update in and says what to draw for it.
    pub fn handle(&mut self, update: ProgressUpdate) -> (frame: Frame)
        ensures
            final(self).current.deep_view() == handled(old(self).current.deep_view(), update@),
            final(self).current_phase == old(self).current_phase,
            final(self).lines_drawn == final(self).current@.len(),
            frame.erase == old(self).lines_drawn,
            frame.lines@.len() == final(self).current@.len(),
            forall|i: int|
                0 <= i < frame.lines@.len() ==> (#[trigger] frame.lines@[i])@ == line_of(
                    final(self).current.deep_view()[i],
                ),
    {
        let ghost before = self.current.deep_view();
        match update {
            ProgressUpdate::Started { subject, step } => {
                if self.find(&subject).is_none() {
                    self.current.push((subject, step));
                    assert(self.current.deep_view() =~= before.push((subject@, step@)));
                }
            },
            ProgressUpdate::Progressed { subject, step } => {
                if let Some(idx) = self.find(&subject) {
                    proof {
                        lemma_entry_index(before, subject@, before.len() as int);
                    }
                    self.current.set(idx, (subject, step));
                    assert(self.current.deep_view() =~= before.update(
                        idx as int,
                        (subject@, step@),
                    ));
                }
            },
            ProgressUpdate::Done { subject } => {
                let kept = without_subject(&self.current, &subject);
                self.current = kept;
            },
            _ => {},
        }
        self.redraw()
    }

    /// The frame for the present entries; remembers how many lines it has.
    pub fn redraw(&mut self) -> (frame: Frame)
        ensures
            final(self).current == old(self).current,
            final(self).current_phase == old(self).current_phase,
            final(self).lines_drawn == old(self).current@.len(),
            frame.erase == old(self).lines_drawn,
            frame.lines@.len() == old(self).current@.len(),
            forall|i: int|
                0 <= i < frame.lines@.len() ==> (#[trigger] frame.lines@[i])@ == line_of(
                    old(self).current.deep_view()[i],
                ),
    {
        let mut lines: Vec<String> = Vec::new();
        let mut i: usize = 0;
        while i < self.current.len()
            invariant
                i <= self.current.len(),
                lines@.len() == i,
                forall|j: int|
                    0 <= j < i ==> (#[trigger] lines@[j])@ == line_of(self.current.deep_view()[j]),
            decreases self.current.len() - i,
        {
            let line = concat3(self.current[i].0.as_str(), ": ", self.current[i].1);
            lines.push(line);
            i = i + 1;
        }
        let erase = self.lines_drawn;
        self.lines_drawn = self.current.len();
        Frame { erase, lines }
    }

    /// One turn of the display loop. `received` is what the channel gave:
    /// `None` when every sender is gone. The result is `None` when the
    /// display is finished, else the frame to draw.
    pub fn tick(&mut self, received: Option<ProgressUpdate>) -> (frame: Option<Frame>)
        ensures
            frame is None <==> (received is None || received == Some(ProgressUpdate::AllDone)),
            frame is None ==> *final(self) == *old(self),
            frame matches Some(f) ==> {
                &&& final(self).current.deep_view() == handled(
                    old(self).current.deep_view(),
                    received->0@,
                )
                &&& final(self).current_phase == old(self).current_phase
                &&& final(self).lines_drawn == final(self).current@.len()
                &&& f.erase == old(self).lines_drawn
                &&& f.lines@.len() == final(self).current@.len()
                &&& forall|i: int|
                    0 <= i < f.lines@.len() ==> (#[trigger] f.lines@[i])@ == line_of(
                        final(self).current.deep_view()[i],
                    )
            },
    {
        match received {
            None => None,
            Some(ProgressUpdate::AllDone) => None,
            Some(update) => Some(self.handle(update)),
        }
    }
}

/// Once an entry for the subject has been found, looking further finds the
/// same one.
proof fn lemma_found_stays(current: Seq<Entry>, subject: Seq<char>, n: int, m: int)
    requires
        0 < n <= m <= current.len(),
        entry_index(current, subject, n) >= 0,
    ensures
        entry_index(current, subject, m) == entry_index(current, subject, n),
    decreases m - n,
{
    if n < m {
        lemma_found_stays(current, subject, n, m - 1);
    }
}

/// The entries of `current` whose subject is not `subject`, in order.
fn without_subject(current: &Vec<(String, &'static str)>, subject: &String) -> (kept: Vec<
    (String, &'static str),
>)
    ensures
        kept.deep_view() == current.deep_view().filter(not_about(subject@)),
{
    let ghost all = current.deep_view();
    let ghost differs = not_about(subject@);
    let mut kept: Vec<(String, &'static str)> = Vec::new();
    let mut i: usize = 0;
    proof {
        reveal(Seq::filter);
        assert(all.take(0).filter(differs) =~= Seq::<Entry>::empty());
    }
    while i < current.len()
        invariant
            i <= current.len(),
            all == current.deep_view(),
            differs == not_about(subject@),
            kept.deep_view() == all.take(i as int).filter(differs),
        decreases current.len() - i,
    {
        proof {
            reveal(Seq::filter);
            assert(all.take(i + 1).drop_last() == all.take(i as int));
            assert(all.take(i + 1).last() == all[i as int]);
            assert(all[i as int].0 == current@[i as int].0@);
        }
        let ghost prior = kept.deep_view();
        if current[i].0 != *subject {
            kept.push((current[i].0.clone(), current[i].1));
            assert(kept.deep_view() =~= prior.push(all[i as int]));
        }
        i = i + 1;
    }
    assert(all.take(current.len() as int) == all);
    kept
}

} // verus!
