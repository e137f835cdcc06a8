//! Manual placement steps: set instance origins (and macro orientations) from a config.

use vstd::prelude::*;
use crate::error::ErrorView;
use crate::ops::{DbOp, OpView, Reply, ReplyView, Step, StepView};

verus! {

/// One entry of the `MANUAL_GLOBAL_PLACEMENT` config: fix `instance` at origin `(x, y)` (DBU).
#[derive(Debug, Clone, PartialEq, Eq)]
pub struct GlobalPlacement {
    pub instance: String,
    pub x: i32,
    pub y: i32,
}

/// One entry of the `MANUAL_MACRO_PLACEMENT` config: place macro `instance` at `(x, y)` (DBU)
/// and, when given, set its orientation (`R0`, `R90`, `R180`, `R270`, `MX`, `MY`, `MXR90`,
/// `MYR90`).
#[derive(Debug, Clone, PartialEq, Eq)]
pub struct MacroPlacement {
    pub instance: String,
    pub x: i32,
    pub y: i32,
    pub orient: Option<String>,
}

/// A placement entry as contracts see it.
pub struct PlacementView {
    pub instance: Seq<char>,
    pub x: i32,
    pub y: i32,
    pub orient: Option<Seq<char>>,
}

impl View for MacroPlacement {
    type V = PlacementView;

    open spec fn view(&self) -> PlacementView {
        PlacementView {
            instance: self.instance@,
            x: self.x,
            y: self.y,
            orient: match &self.orient {
                Some(o) => Some(o@),
                None => None,
            },
        }
    }
}

impl View for GlobalPlacement {
    type V = PlacementView;

    open spec fn view(&self) -> PlacementView {
        PlacementView { instance: self.instance@, x: self.x, y: self.y, orient: None }
    }
}

/// Where a [`PlacementRun`] stands within its current entry.
#[derive(Debug, Clone, Copy, PartialEq, Eq, Structural)]
pub enum PlacePhase {
    AwaitLocation,
    AwaitOrient,
    Done,
}

/// The manual placement steps: for each entry in order, move the instance to its origin and,
/// when an orientation is given, set it. The first failed edit ends the step with that error
/// (entries before it stay applied); otherwise the step returns the number of entries.
pub struct PlacementRun {
    entries: Vec<MacroPlacement>,
    index: usize,
    phase: PlacePhase,
}

/// The state of a [`PlacementRun`] as contracts see it.
pub struct PlacementRunView {
    pub entries: Seq<PlacementView>,
    pub index: int,
    pub phase: PlacePhase,
}

impl View for PlacementRun {
    type V = PlacementRunView;

    closed spec fn view(&self) -> PlacementRunView {
        PlacementRunView {
            entries: self.entries@.map_values(|e: MacroPlacement| e@),
            index: self.index as int,
            phase: self.phase,
        }
    }
}

impl PlacementRunView {
    /// Whether the run is well formed: the entry index in range while the run goes on.
    pub open spec fn wf(self) -> bool {
        &&& self.entries.len() <= usize::MAX
        &&& 0 <= self.index <= self.entries.len()
        &&& self.phase != PlacePhase::Done ==> self.index < self.entries.len()
    }

    /// Starts entry `i`, or finishes with the number of entries once they are all done.
    pub open spec fn begin(self, i: int) -> (PlacementRunView, StepView<usize>) {
        if i >= self.entries.len() {
            (
                PlacementRunView { index: i, phase: PlacePhase::Done, ..self },
                StepView::Finish(Ok(self.entries.len() as usize)),
            )
        } else {
            (
                PlacementRunView { index: i, phase: PlacePhase::AwaitLocation, ..self },
                StepView::Perform(
                    OpView::SetInstLocation {
                        inst: self.entries[i].instance,
                        x: self.entries[i].x,
                        y: self.entries[i].y,
                    },
                ),
            )
        }
    }

    /// Whether `r` is an answer the run can take now.
    pub open spec fn accepts(self, r: ReplyView) -> bool {
        self.phase != PlacePhase::Done && r is Status
    }

    /// The next state and step after answer `r`. (An answer of a shape the machine does not
    /// wait for is never handed to it: `resume` requires `accepts`.)
    pub open spec fn resume(self, r: ReplyView) -> (PlacementRunView, StepView<usize>) {
        if !self.accepts(r) {
            (self, StepView::Finish(Err(ErrorView::Odb(Seq::empty()))))
        } else {
            match r {
                ReplyView::Status(Err(e)) => (
                    PlacementRunView { phase: PlacePhase::Done, ..self },
                    StepView::Finish(Err(e)),
                ),
                _ => if self.phase == PlacePhase::AwaitLocation {
                    match self.entries[self.index].orient {
                        Some(o) => (
                            PlacementRunView { phase: PlacePhase::AwaitOrient, ..self },
                            StepView::Perform(
                                OpView::SetInstOrient {
                                    inst: self.entries[self.index].instance,
                                    orient: o,
                                },
                            ),
                        ),
                        None => self.begin(self.index + 1),
                    }
                } else {
                    self.begin(self.index + 1)
                },
            }
        }
    }

    /// The steps the run takes when handed `replies` one after the other.
    pub open spec fn feed(self, replies: Seq<ReplyView>) -> Seq<StepView<usize>>
        decreases replies.len(),
    {
        if replies.len() == 0 {
            Seq::empty()
        } else {
            let (next, step) = self.resume(replies[0]);
            seq![step] + next.feed(replies.drop_first())
        }
    }
}

/// The state in which a run over `entries` is before its first entry.
pub open spec fn placement_init(entries: Seq<PlacementView>) -> PlacementRunView {
    PlacementRunView { entries, index: 0, phase: PlacePhase::Done }
}

/// `n` successful edits.
pub open spec fn all_ok(n: nat) -> Seq<ReplyView> {
    Seq::new(n, |i: int| ReplyView::Status(Ok(())))
}

/// The origin edits of entries `from..` of `entries`, then success with their number.
pub open spec fn origin_edits(entries: Seq<PlacementView>, from: int) -> Seq<StepView<usize>>
    decreases entries.len() - from,
{
    if from >= entries.len() {
        seq![StepView::Finish(Ok(entries.len() as usize))]
    } else {
        seq![
            StepView::Perform(
                OpView::SetInstLocation {
                    inst: entries[from].instance,
                    x: entries[from].x,
                    y: entries[from].y,
                },
            ),
        ] + origin_edits(entries, from + 1)
    }
}

proof fn lemma_origin_edits_from(run: PlacementRunView, i: int)
    requires
        run.entries.len() <= usize::MAX,
        0 <= i < run.entries.len(),
        forall|j: int| 0 <= j < run.entries.len() ==> (#[trigger] run.entries[j]).orient is None,
    ensures
        run.begin(i).0.feed(all_ok((run.entries.len() - i) as nat)) == origin_edits(
            run.entries,
            i + 1,
        ),
    decreases run.entries.len() - i,
{
    let n = run.entries.len();
    let rs = all_ok((n - i) as nat);
    let m = run.begin(i).0;
    let (m2, s) = m.resume(rs[0]);
    assert(rs.drop_first() =~= all_ok((n - (i + 1)) as nat));
    if i + 1 < n {
        lemma_origin_edits_from(run, i + 1);
    } else {
        assert(rs.drop_first().len() == 0);
        assert(m2.feed(rs.drop_first()) =~= Seq::<StepView<usize>>::empty());
    }
    assert(m.feed(rs) =~= seq![s] + m2.feed(rs.drop_first()));
    assert(origin_edits(run.entries, i + 1) =~= seq![s] + m2.feed(rs.drop_first()));
}

/// When every edit succeeds, global placement moves each instance to its origin, in the order
/// of the entries, one edit per entry and nothing else, then reports the number of entries.
pub proof fn lemma_global_placement_success(entries: Seq<PlacementView>)
    requires
        entries.len() <= usize::MAX,
        forall|j: int| 0 <= j < entries.len() ==> (#[trigger] entries[j]).orient is None,
    ensures
        seq![placement_init(entries).begin(0).1] + placement_init(entries).begin(0).0.feed(
            all_ok(entries.len()),
        ) == origin_edits(entries, 0),
{
    let run = placement_init(entries);
    if entries.len() == 0 {
        assert(run.begin(0).0.feed(all_ok(0)) =~= Seq::<StepView<usize>>::empty());
        assert(seq![run.begin(0).1] =~= origin_edits(entries, 0));
    } else {
        lemma_origin_edits_from(run, 0);
        assert(seq![run.begin(0).1] + run.begin(0).0.feed(all_ok(entries.len())) =~= origin_edits(
            entries,
            0,
        ));
    }
}

/// Whenever a placement step succeeds, it reports the number of entries it was given; a failed
/// edit ends it with that very error.
pub proof fn lemma_placement_outcome(run: PlacementRunView, r: ReplyView)
    requires
        run.wf(),
        run.accepts(r),
    ensures
        run.resume(r).1 matches StepView::Finish(Ok(n)) ==> n == run.entries.len(),
        r matches ReplyView::Status(Err(e)) ==> run.resume(r).1 == StepView::<usize>::Finish(Err(e)),
        run.resume(r).0.wf(),
{
}

/// A macro entry with an orientation is first moved to its origin and then oriented, before
/// the next entry is started.
pub proof fn lemma_macro_moved_then_oriented(entries: Seq<PlacementView>, i: int, o: Seq<char>)
    requires
        entries.len() <= usize::MAX,
        0 <= i < entries.len(),
        entries[i].orient == Some(o),
    ensures
        ({
            let run = placement_init(entries).begin(i).0;
            &&& placement_init(entries).begin(i).1 == StepView::<usize>::Perform(
                OpView::SetInstLocation { inst: entries[i].instance, x: entries[i].x, y: entries[i].y },
            )
            &&& run.resume(ReplyView::Status(Ok(()))).1 == StepView::<usize>::Perform(
                OpView::SetInstOrient { inst: entries[i].instance, orient: o },
            )
            &&& run.resume(ReplyView::Status(Ok(()))).0.resume(ReplyView::Status(Ok(()))) == placement_init(
                entries,
            ).begin(i + 1)
        }),
{
}

/// After each answer, a placement step takes exactly the answers of the edit it asks for next
/// (a status), and none once it has finished.
pub proof fn lemma_placement_awaits_its_answer(run: PlacementRunView, r: ReplyView, r2: ReplyView)
    requires
        run.wf(),
        run.accepts(r),
    ensures
        run.resume(r).1 matches StepView::Perform(op) ==> (run.resume(r).0.accepts(r2) <==> r2.kind() == op.reply_kind()),
        run.resume(r).1 is Finish ==> !run.resume(r).0.accepts(r2),
{
}

impl PlacementRun {
    fn begin(&mut self, i: usize) -> (s: Step<usize>)
        requires
            old(self)@.entries.len() <= usize::MAX,
            i <= old(self)@.entries.len(),
        ensures
            final(self)@ == old(self)@.begin(i as int).0,
            s@ == old(self)@.begin(i as int).1,
            final(self)@.wf(),
    {
        self.index = i;
        if i >= self.entries.len() {
            self.phase = PlacePhase::Done;
            Step::Finish(Ok(self.entries.len()))
        } else {
            self.phase = PlacePhase::AwaitLocation;
            let e = &self.entries[i];
            Step::Perform(DbOp::SetInstLocation { inst: e.instance.clone(), x: e.x, y: e.y })
        }
    }

    fn start(entries: Vec<MacroPlacement>) -> (res: (PlacementRun, Step<usize>))
        ensures
            res.0@ == placement_init(entries@.map_values(|e: MacroPlacement| e@)).begin(0).0,
            res.1@ == placement_init(entries@.map_values(|e: MacroPlacement| e@)).begin(0).1,
            res.0@.wf(),
    {
        let n = entries.len();
        let mut run = PlacementRun { entries, index: 0, phase: PlacePhase::Done };
        assert(run@.entries.len() == n);
        let s = run.begin(0);
        (run, s)
    }

    /// Whether the run can take `reply` now.
    pub fn accepts(&self, reply: &Reply) -> (b: bool)
        ensures
            b == self@.accepts(reply@),
    {
        match reply {
            Reply::Status(_) => self.phase != PlacePhase::Done,
            _ => false,
        }
    }

    /// Takes the answer to the last edit and says what comes next.
    pub fn resume(&mut self, reply: Reply) -> (s: Step<usize>)
        requires
            old(self)@.wf(),
            old(self)@.accepts(reply@),
        ensures
            final(self)@ == old(self)@.resume(reply@).0,
            s@ == old(self)@.resume(reply@).1,
            final(self)@.wf(),
    {
        match reply {
            Reply::Status(Err(e)) => {
                self.phase = PlacePhase::Done;
                Step::Finish(Err(e))
            },
            _ => {
                if self.phase == PlacePhase::AwaitLocation {
                    let i = self.index;
                    match &self.entries[i].orient {
                        Some(o) => {
                            let op = DbOp::SetInstOrient {
                                inst: self.entries[i].instance.clone(),
                                orient: o.clone(),
                            };
                            self.phase = PlacePhase::AwaitOrient;
                            Step::Perform(op)
                        },
                        None => self.begin(i + 1),
                    }
                } else {
                    self.begin(self.index + 1)
                }
            },
        }
    }
}

/// Starts `ManualGlobalPlacement` over `entries`: the run and its first step.
pub fn manual_global_placement(entries: &[GlobalPlacement]) -> (res: (PlacementRun, Step<usize>))
    ensures
        res.0@ == placement_init(entries@.map_values(|e: GlobalPlacement| e@)).begin(0).0,
        res.1@ == placement_init(entries@.map_values(|e: GlobalPlacement| e@)).begin(0).1,
        res.0@.wf(),
{
    let mut v: Vec<MacroPlacement> = Vec::new();
    for i in 0..entries.len()
        invariant
            v@.len() == i,
            forall|j: int| 0 <= j < i ==> #[trigger] v@[j]@ == entries@[j]@,
    {
        let e = &entries[i];
        v.push(MacroPlacement { instance: e.instance.clone(), x: e.x, y: e.y, orient: None });
    }
    assert(v@.map_values(|e: MacroPlacement| e@) =~= entries@.map_values(|e: GlobalPlacement| e@));
    PlacementRun::start(v)
}

/// Starts `ManualMacroPlacement` over `entries`: the run and its first step.
pub fn manual_macro_placement(entries: &[MacroPlacement]) -> (res: (PlacementRun, Step<usize>))
    ensures
        res.0@ == placement_init(entries@.map_values(|e: MacroPlacement| e@)).begin(0).0,
        res.1@ == placement_init(entries@.map_values(|e: MacroPlacement| e@)).begin(0).1,
        res.0@.wf(),
{
    let mut v: Vec<MacroPlacement> = Vec::new();
    for i in 0..entries.len()
        invariant
            v@.len() == i,
            forall|j: int| 0 <= j < i ==> #[trigger] v@[j]@ == entries@[j]@,
    {
        let e = &entries[i];
        let orient = match &e.orient {
            Some(o) => Some(o.clone()),
            None => None,
        };
        v.push(MacroPlacement { instance: e.instance.clone(), x: e.x, y: e.y, orient });
    }
    assert(v@.map_values(|e: MacroPlacement| e@) =~= entries@.map_values(|e: MacroPlacement| e@));
    PlacementRun::start(v)
}

} // verus!
