//! ECO steps over the design database, as step machines: each says which database operation
//! comes next. They only edit the database; legalization is a separate step.

use vstd::prelude::*;
use crate::error::{Error, ErrorView};
use crate::insertion::{
    cell_surgery, insert_buffer, insert_diode, insertion_first_op, insertion_start,
    lemma_insertion_success, performs, success_replies, CellInsertion, CellKind, InsertionView,
};
use crate::ops::{DbOp, OpView, Reply, ReplyView, Step, StepView};
use crate::text::{
    join_text, decimal, lemma_split_slash_rejoins, push_decimal, split_once_slash, split_slash, texts,
};

verus! {

/// One entry of the `INSERT_ECO_BUFFERS` config.
#[derive(Debug, Clone, PartialEq, Eq)]
pub struct EcoBuffer {
    /// `"instance/pin"`: the pin to buffer.
    pub target: String,
    /// Buffer master cell name.
    pub buffer: String,
}

/// One entry of the `INSERT_ECO_DIODES` config.
#[derive(Debug, Clone, PartialEq, Eq)]
pub struct EcoDiode {
    /// `"instance/pin"`: the pin whose net gets an antenna diode.
    pub target: String,
    /// Antenna-diode master cell name.
    pub diode: String,
}

/// The name the ECO step gives the cell it inserts for the `i`-th entry: `eco_buffer_{i}` or
/// `eco_diode_{i}`.
pub open spec fn eco_cell_name(kind: CellKind, i: nat) -> Seq<char> {
    match kind {
        CellKind::Buffer => "eco_buffer_"@ + decimal(i),
        CellKind::Diode => "eco_diode_"@ + decimal(i),
    }
}

/// The message for a target that is not `inst/pin`: `bad target '{target}' (expected inst/pin)`.
pub open spec fn bad_target_message(target: Seq<char>) -> Seq<char> {
    "bad target '"@ + target + "' (expected inst/pin)"@
}

/// Where an [`EcoRun`] stands within its current entry.
pub enum EcoPhase {
    /// Waiting for the origin of the target instance.
    Locating { inst: String, pin: String },
    /// Inserting the entry's cell.
    Inserting(CellInsertion),
    /// Finished.
    Done,
}

/// [`EcoPhase`] as contracts see it.
pub enum EcoPhaseView {
    Locating { inst: Seq<char>, pin: Seq<char> },
    Inserting(InsertionView),
    Done,
}

/// The `InsertECOBuffers` / `InsertECODiodes` step: for each entry in order, split its target at
/// the first `/` into instance and pin, read the instance's origin, and insert the entry's cell
/// there, named after the entry's index. The first error ends the step with that error (entries
/// before it stay applied); otherwise the step returns the number of entries.
pub struct EcoRun {
    kind: CellKind,
    targets: Vec<String>,
    masters: Vec<String>,
    index: usize,
    phase: EcoPhase,
}

/// The state of an [`EcoRun`] as contracts see it.
pub struct EcoRunView {
    pub kind: CellKind,
    pub targets: Seq<Seq<char>>,
    pub masters: Seq<Seq<char>>,
    pub index: int,
    pub phase: EcoPhaseView,
}

impl View for EcoRun {
    type V = EcoRunView;

    closed spec fn view(&self) -> EcoRunView {
        EcoRunView {
            kind: self.kind,
            targets: texts(self.targets@),
            masters: texts(self.masters@),
            index: self.index as int,
            phase: match &self.phase {
                EcoPhase::Locating { inst, pin } => EcoPhaseView::Locating { inst: inst@, pin: pin@ },
                EcoPhase::Inserting(m) => EcoPhaseView::Inserting(m@),
                EcoPhase::Done => EcoPhaseView::Done,
            },
        }
    }
}

impl EcoRunView {
    /// Whether the run is well formed: one master per target, and the entry index in range
    /// while the run goes on.
    pub open spec fn wf(self) -> bool {
        &&& self.targets.len() == self.masters.len() <= usize::MAX
        &&& 0 <= self.index <= self.targets.len()
        &&& !(self.phase is Done) ==> self.index < self.targets.len()
    }

    /// Starts entry `i`, or finishes with the number of entries once they are all done.
    pub open spec fn begin(self, i: int) -> (EcoRunView, StepView<usize>) {
        if i >= self.targets.len() {
            (
                EcoRunView { index: i, phase: EcoPhaseView::Done, ..self },
                StepView::Finish(Ok(self.targets.len() as usize)),
            )
        } else {
            match split_slash(self.targets[i]) {
                None => (
                    EcoRunView { index: i, phase: EcoPhaseView::Done, ..self },
                    StepView::Finish(Err(ErrorView::Odb(bad_target_message(self.targets[i])))),
                ),
                Some((inst, pin)) => (
                    EcoRunView { index: i, phase: EcoPhaseView::Locating { inst, pin }, ..self },
                    StepView::Perform(OpView::InstLocation { inst }),
                ),
            }
        }
    }

    /// Whether `r` is an answer the run can take now.
    pub open spec fn accepts(self, r: ReplyView) -> bool {
        match self.phase {
            EcoPhaseView::Locating { .. } => r is Location,
            EcoPhaseView::Inserting(m) => m.accepts(r),
            EcoPhaseView::Done => false,
        }
    }

    /// The next state and step after answer `r`. (An answer of a shape the machine does not
    /// wait for is never handed to it: `resume` requires `accepts`.)
    #[verifier::opaque]
    pub open spec fn resume(self, r: ReplyView) -> (EcoRunView, StepView<usize>) {
        if !self.accepts(r) {
            (self, StepView::Finish(Err(ErrorView::Odb(Seq::empty()))))
        } else {
            match self.phase {
                EcoPhaseView::Locating { inst, pin } => {
                    let (x, y) = match r {
                        ReplyView::Location(x, y) => (x, y),
                        _ => (0, 0),
                    };
                    let m = insertion_start(
                        self.kind,
                        inst,
                        pin,
                        self.masters[self.index],
                        eco_cell_name(self.kind, self.index as nat),
                        x,
                        y,
                    );
                    (
                        EcoRunView { phase: EcoPhaseView::Inserting(m), ..self },
                        StepView::Perform(insertion_first_op(inst, pin)),
                    )
                },
                EcoPhaseView::Inserting(m) => {
                    let (m2, s) = m.resume(r);
                    match s {
                        StepView::Perform(op) => (
                            EcoRunView { phase: EcoPhaseView::Inserting(m2), ..self },
                            StepView::Perform(op),
                        ),
                        StepView::Finish(Err(e)) => (
                            EcoRunView { phase: EcoPhaseView::Done, ..self },
                            StepView::Finish(Err(e)),
                        ),
                        StepView::Finish(Ok(())) => self.begin(self.index + 1),
                    }
                },
                EcoPhaseView::Done => (self, StepView::Finish(Err(ErrorView::Odb(Seq::empty())))),
            }
        }
    }
}

impl EcoRunView {
    /// The steps the run takes when handed `replies` one after the other.
    pub open spec fn feed(self, replies: Seq<ReplyView>) -> Seq<StepView<usize>>
        decreases replies.len(),
    {
        if replies.len() == 0 {
            Seq::empty()
        } else {
            let (next, step) = self.resume(replies[0]);
            seq![step] + next.feed(replies.drop_first())
        }
    }
}

/// The state in which a run over `targets` and `masters` is before its first entry.
pub open spec fn eco_run_init(
    kind: CellKind,
    targets: Seq<Seq<char>>,
    masters: Seq<Seq<char>>,
) -> EcoRunView {
    EcoRunView { kind, targets, masters, index: 0, phase: EcoPhaseView::Done }
}

/// With no entries the step edits nothing and reports zero cells inserted.
pub proof fn lemma_eco_run_without_entries(kind: CellKind)
    ensures
        eco_run_init(kind, Seq::empty(), Seq::empty()).begin(0).1 == StepView::<usize>::Finish(
            Ok(0),
        ),
{
}

/// Whenever the step succeeds, it reports the number of entries it was given; a failed edit
/// ends it with that very error.
pub proof fn lemma_eco_run_outcome(run: EcoRunView, r: ReplyView)
    requires
        run.wf(),
        run.accepts(r),
    ensures
        run.resume(r).1 matches StepView::Finish(Ok(n)) ==> n == run.targets.len(),
        r matches ReplyView::Status(Err(e)) ==> run.resume(r).1 == StepView::<usize>::Finish(Err(e)),
        run.resume(r).0.wf(),
{
    reveal(EcoRunView::resume);
    match (run.phase, r) {
        (EcoPhaseView::Inserting(m), ReplyView::Status(Err(e))) => {
            crate::insertion::lemma_insertion_stops_at_failure(m, e);
        },
        _ => {},
    }
}

/// An entry whose target holds a `/` is split at the first one: the instance name is the text
/// before it (holding no `/`) and the pin the text after it, and the step first reads that
/// instance's origin. An entry without `/` ends the step with `bad target '{target}' (expected
/// inst/pin)`.
pub proof fn lemma_eco_run_parses_target(run: EcoRunView, i: int)
    requires
        0 <= i < run.targets.len(),
    ensures
        match run.begin(i) {
            (next, StepView::Perform(OpView::InstLocation { inst })) => next.phase matches EcoPhaseView::Locating { inst: a, pin: b } && a == inst
                && run.targets[i] == a + seq!['/'] + b && !a.contains('/'),
            (_, StepView::Finish(Err(ErrorView::Odb(msg)))) => !run.targets[i].contains('/')
                && msg == bad_target_message(run.targets[i]),
            _ => false,
        },
{
    lemma_split_slash_rejoins(run.targets[i]);
}

/// The `i`-th entry's cell is named `eco_buffer_{i}` (or `eco_diode_{i}`), is made of the
/// entry's master and is placed at the origin read for the target instance; its insertion
/// starts by reading the target pin's net.
pub proof fn lemma_eco_run_places_cell_at_origin(run: EcoRunView, x: i32, y: i32)
    requires
        run.wf(),
        run.phase is Locating,
    ensures
        ({
            let (inst, pin) = match run.phase {
                EcoPhaseView::Locating { inst, pin } => (inst, pin),
                _ => (Seq::empty(), Seq::empty()),
            };
            &&& run.resume(ReplyView::Location(x, y)).0.phase == EcoPhaseView::Inserting(
                insertion_start(
                    run.kind,
                    inst,
                    pin,
                    run.masters[run.index],
                    eco_cell_name(run.kind, run.index as nat),
                    x,
                    y,
                ),
            )
            &&& run.resume(ReplyView::Location(x, y)).1 == StepView::<usize>::Perform(
                OpView::NetOf { inst, pin },
            )
        }),
{
    reveal(EcoRunView::resume);
}

/// When the step starts an entry or asks for an operation, it takes exactly the answers of
/// that operation's shape, and once finished it takes none.
pub proof fn lemma_eco_run_begin_awaits_its_answer(run: EcoRunView, i: int, r2: ReplyView)
    ensures
        run.begin(i).1 matches StepView::Perform(op) ==> (run.begin(i).0.accepts(r2) <==> r2.kind() == op.reply_kind()),
        run.begin(i).1 is Finish ==> !run.begin(i).0.accepts(r2),
{
}

/// After each answer, the step takes exactly the answers of the operation it asks for next,
/// and none once it has finished.
pub proof fn lemma_eco_run_awaits_its_answer(run: EcoRunView, r: ReplyView, r2: ReplyView)
    requires
        run.wf(),
        run.accepts(r),
    ensures
        run.resume(r).1 matches StepView::Perform(op) ==> (run.resume(r).0.accepts(r2) <==> r2.kind() == op.reply_kind()),
        run.resume(r).1 is Finish ==> !run.resume(r).0.accepts(r2),
{
    reveal(EcoRunView::resume);
    match run.phase {
        EcoPhaseView::Inserting(m) => {
            crate::insertion::lemma_insertion_awaits_its_answer(m, r, r2);
            lemma_eco_run_begin_awaits_its_answer(run, run.index + 1, r2);
        },
        _ => {},
    }
}

/// What the database answers for one entry of the step when nothing fails: the origin of the
/// target instance, the target pin's net, and the input and output pins of the new cell.
pub struct EntryAnswers {
    pub x: i32,
    pub y: i32,
    pub driver: Seq<char>,
    pub input: Seq<char>,
    pub output: Seq<char>,
}

/// The answers, in order, for entries `i..` when nothing fails.
pub open spec fn answers_from(kind: CellKind, answers: Seq<EntryAnswers>, i: int) -> Seq<ReplyView>
    decreases answers.len() - i,
{
    if i >= answers.len() {
        Seq::empty()
    } else {
        seq![ReplyView::Location(answers[i].x, answers[i].y)] + success_replies(
            kind,
            answers[i].driver,
            answers[i].input,
            answers[i].output,
        ) + answers_from(kind, answers, i + 1)
    }
}

/// The steps of entries `i..` when nothing fails: for each entry, read the origin of its
/// instance, read the target pin's net and perform the cell's surgery at that origin; then
/// succeed with the number of entries.
pub open spec fn eco_trace(run: EcoRunView, answers: Seq<EntryAnswers>, i: int) -> Seq<StepView<usize>>
    decreases run.targets.len() - i,
{
    if i >= run.targets.len() {
        seq![StepView::Finish(Ok(run.targets.len() as usize))]
    } else {
        let (inst, pin) = match split_slash(run.targets[i]) {
            Some(p) => p,
            None => (Seq::empty(), Seq::empty()),
        };
        let a = answers[i];
        seq![
            StepView::Perform(OpView::InstLocation { inst }),
            StepView::Perform(OpView::NetOf { inst, pin }),
        ] + performs::<usize>(
            cell_surgery(
                run.kind,
                inst,
                pin,
                run.masters[i],
                eco_cell_name(run.kind, i as nat),
                a.x,
                a.y,
                a.driver,
                a.input,
                a.output,
            ),
        ) + eco_trace(run, answers, i + 1)
    }
}

proof fn lemma_run_follows_insertion(
    run: EcoRunView,
    m: InsertionView,
    rs: Seq<ReplyView>,
    ops: Seq<OpView>,
    rest: Seq<ReplyView>,
)
    requires
        run.wf(),
        run.phase == EcoPhaseView::Inserting(m),
        m.feed(rs) == performs::<()>(ops).push(StepView::Finish(Ok(()))),
    ensures
        run.feed(rs + rest) == performs::<usize>(ops) + seq![run.begin(run.index + 1).1] + run.begin(
            run.index + 1,
        ).0.feed(rest),
    decreases rs.len(),
{
    reveal(EcoRunView::resume);
    assert(performs::<()>(ops).push(StepView::Finish(Ok(()))).len() == ops.len() + 1);
    if rs.len() == 0 {
        assert(m.feed(rs).len() == 0);
    }
    let (m2, s) = m.resume(rs[0]);
    crate::insertion::lemma_insertion_unaccepted(m, rs[0]);
    assert(m.feed(rs) == seq![s] + m2.feed(rs.drop_first()));
    assert(m.feed(rs)[0] == s);
    assert((rs + rest)[0] == rs[0]);
    assert((rs + rest).drop_first() =~= rs.drop_first() + rest);
    if rs.len() == 1 {
        assert(m2.feed(rs.drop_first()) =~= Seq::<StepView<()>>::empty());
        assert(ops.len() == 0);
        assert(s == StepView::<()>::Finish(Ok(())));
        assert(m.accepts(rs[0]));
        assert(performs::<usize>(ops) =~= Seq::<StepView<usize>>::empty());
        assert(run.feed(rs + rest) =~= performs::<usize>(ops) + seq![run.begin(run.index + 1).1]
            + run.begin(run.index + 1).0.feed(rest));
    } else {
        if rs.drop_first().len() == 0 {
            assert(false);
        }
        assert(ops.len() > 0);
        assert(s == StepView::<()>::Perform(ops[0]));
        assert(m.accepts(rs[0]));
        let run2 = EcoRunView { phase: EcoPhaseView::Inserting(m2), ..run };
        assert((seq![s] + m2.feed(rs.drop_first())).drop_first() =~= m2.feed(rs.drop_first()));
        assert(performs::<()>(ops).push(StepView::Finish(Ok(()))).drop_first() =~= performs::<()>(
            ops.drop_first(),
        ).push(StepView::Finish(Ok(()))));
        assert(m2.feed(rs.drop_first()) == performs::<()>(ops.drop_first()).push(StepView::Finish(Ok(()))));
        lemma_run_follows_insertion(run2, m2, rs.drop_first(), ops.drop_first(), rest);
        assert(run2.begin(run2.index + 1) == run.begin(run.index + 1));
        assert(run.feed(rs + rest) =~= performs::<usize>(ops) + seq![run.begin(run.index + 1).1]
            + run.begin(run.index + 1).0.feed(rest));
    }
}

proof fn lemma_eco_entry_start(run: EcoRunView, i: int, x: i32, y: i32)
    requires
        run.targets.len() == run.masters.len() <= usize::MAX,
        0 <= i < run.targets.len(),
        run.targets[i].contains('/'),
    ensures
        ({
            let (inst, pin) = split_slash(run.targets[i]).unwrap();
            let loc = run.begin(i).0;
            let (ins, first) = loc.resume(ReplyView::Location(x, y));
            &&& split_slash(run.targets[i]) is Some
            &&& run.begin(i).1 == StepView::<usize>::Perform(OpView::InstLocation { inst })
            &&& first == StepView::<usize>::Perform(OpView::NetOf { inst, pin })
            &&& ins.wf()
            &&& ins.index == i
            &&& ins.phase == EcoPhaseView::Inserting(
                insertion_start(run.kind, inst, pin, run.masters[i], eco_cell_name(run.kind, i as nat), x, y),
            )
            &&& ins.begin(i + 1) == run.begin(i + 1)
        }),
{
    reveal(EcoRunView::resume);
    lemma_split_slash_rejoins(run.targets[i]);
}

proof fn lemma_eco_entry(
    loc: EcoRunView,
    ins: EcoRunView,
    first: StepView<usize>,
    m0: InsertionView,
    x: i32,
    y: i32,
    rs: Seq<ReplyView>,
    ops: Seq<OpView>,
    rest: Seq<ReplyView>,
    next: (EcoRunView, StepView<usize>),
)
    requires
        loc.resume(ReplyView::Location(x, y)) == (ins, first),
        ins.wf(),
        ins.phase == EcoPhaseView::Inserting(m0),
        ins.begin(ins.index + 1) == next,
        m0.feed(rs) == performs::<()>(ops).push(StepView::Finish(Ok(()))),
    ensures
        loc.feed(seq![ReplyView::Location(x, y)] + rs + rest) == seq![first] + performs::<usize>(ops)
            + seq![next.1] + next.0.feed(rest),
{
    lemma_run_follows_insertion(ins, m0, rs, ops, rest);
    let replies = seq![ReplyView::Location(x, y)] + rs + rest;
    lemma_feed_unfold(loc, replies);
    assert(replies[0] == ReplyView::Location(x, y));
    assert(replies.drop_first() =~= rs + rest);
    assert(loc.feed(replies) =~= seq![first] + performs::<usize>(ops) + seq![next.1] + next.0.feed(rest));
}

proof fn lemma_feed_unfold(run: EcoRunView, replies: Seq<ReplyView>)
    requires
        replies.len() > 0,
    ensures
        run.feed(replies) == seq![run.resume(replies[0]).1] + run.resume(replies[0]).0.feed(
            replies.drop_first(),
        ),
{
}

proof fn lemma_eco_trace_step(run: EcoRunView, answers: Seq<EntryAnswers>, i: int)
    requires
        run.targets.len() == run.masters.len() == answers.len() <= usize::MAX,
        0 <= i < run.targets.len(),
        run.targets[i].contains('/'),
        answers[i].driver.len() > 0,
        answers[i].input.len() > 0,
        answers[i].output.len() > 0,
        seq![run.begin(i + 1).1] + run.begin(i + 1).0.feed(answers_from(run.kind, answers, i + 1))
            == eco_trace(run, answers, i + 1),
    ensures
        seq![run.begin(i).1] + run.begin(i).0.feed(answers_from(run.kind, answers, i)) == eco_trace(
            run,
            answers,
            i,
        ),
{
    let a = answers[i];
    lemma_split_slash_rejoins(run.targets[i]);
    let (inst, pin) = split_slash(run.targets[i]).unwrap();
    let rest = answers_from(run.kind, answers, i + 1);
    let cell = eco_cell_name(run.kind, i as nat);
    let ops = cell_surgery(run.kind, inst, pin, run.masters[i], cell, a.x, a.y, a.driver, a.input, a.output);
    let rs = success_replies(run.kind, a.driver, a.input, a.output);
    let head = seq![
        StepView::<usize>::Perform(OpView::InstLocation { inst }),
        StepView::<usize>::Perform(OpView::NetOf { inst, pin }),
    ];
    let later = eco_trace(run, answers, i + 1);
    assert(answers_from(run.kind, answers, i) == seq![ReplyView::Location(a.x, a.y)] + rs + rest);
    assert(eco_trace(run, answers, i) == head + performs::<usize>(ops) + later);
    lemma_eco_entry_start(run, i, a.x, a.y);
    let m0 = insertion_start(run.kind, inst, pin, run.masters[i], cell, a.x, a.y);
    lemma_insertion_success(run.kind, inst, pin, run.masters[i], cell, a.x, a.y, a.driver, a.input, a.output);
    let loc = run.begin(i).0;
    let (ins, first) = loc.resume(ReplyView::Location(a.x, a.y));
    lemma_eco_entry(loc, ins, first, m0, a.x, a.y, rs, ops, rest, run.begin(i + 1));
    assert(seq![run.begin(i).1] + loc.feed(answers_from(run.kind, answers, i)) =~= eco_trace(run, answers, i));
}

proof fn lemma_eco_trace_from(run: EcoRunView, answers: Seq<EntryAnswers>, i: int)
    requires
        run.targets.len() == run.masters.len() == answers.len() <= usize::MAX,
        0 <= i <= run.targets.len(),
        forall|j: int| 0 <= j < run.targets.len() ==> (#[trigger] run.targets[j]).contains('/'),
        forall|j: int|
            0 <= j < answers.len() ==> (#[trigger] answers[j]).driver.len() > 0 && answers[j].input.len() > 0
                && answers[j].output.len() > 0,
    ensures
        seq![run.begin(i).1] + run.begin(i).0.feed(answers_from(run.kind, answers, i)) == eco_trace(
            run,
            answers,
            i,
        ),
    decreases run.targets.len() - i,
{
    if i >= run.targets.len() {
        assert(answers_from(run.kind, answers, i) =~= Seq::<ReplyView>::empty());
        assert(run.begin(i).0.feed(Seq::empty()) =~= Seq::<StepView<usize>>::empty());
        assert(seq![run.begin(i).1] + run.begin(i).0.feed(answers_from(run.kind, answers, i)) =~= eco_trace(run, answers, i));
    } else {
        lemma_eco_trace_from(run, answers, i + 1);
        assert(run.targets[i].contains('/'));
        assert(answers[i].driver.len() > 0 && answers[i].input.len() > 0 && answers[i].output.len() > 0);
        lemma_eco_trace_step(run, answers, i);
    }
}

/// When every target is `inst/pin` and no edit fails, the step performs, for each entry in
/// order, a read of the target instance's origin, a read of the target pin's net and the
/// cell's surgery (see [`cell_surgery`]) with the cell named after the entry's index and placed
/// at that origin; then it succeeds with the number of entries.
pub proof fn lemma_eco_run_success(
    kind: CellKind,
    targets: Seq<Seq<char>>,
    masters: Seq<Seq<char>>,
    answers: Seq<EntryAnswers>,
)
    requires
        targets.len() == masters.len() == answers.len() <= usize::MAX,
        forall|j: int| 0 <= j < targets.len() ==> (#[trigger] targets[j]).contains('/'),
        forall|j: int|
            0 <= j < answers.len() ==> (#[trigger] answers[j]).driver.len() > 0 && answers[j].input.len() > 0
                && answers[j].output.len() > 0,
    ensures
        ({
            let run = eco_run_init(kind, targets, masters);
            seq![run.begin(0).1] + run.begin(0).0.feed(answers_from(kind, answers, 0)) == eco_trace(
                run,
                answers,
                0,
            )
        }),
{
    lemma_eco_trace_from(eco_run_init(kind, targets, masters), answers, 0);
}

impl EcoRun {
    #[verifier::rlimit(50)]
    fn begin(&mut self, i: usize) -> (s: Step<usize>)
        requires
            old(self)@.targets.len() == old(self)@.masters.len(),
            i <= old(self)@.targets.len(),
        ensures
            final(self)@ == old(self)@.begin(i as int).0,
            s@ == old(self)@.begin(i as int).1,
            final(self)@.wf(),
    {
        self.index = i;
        if i >= self.targets.len() {
            self.phase = EcoPhase::Done;
            return Step::Finish(Ok(self.targets.len()));
        }
        let target = &self.targets[i];
        assert(texts(self.targets@)[i as int] == target@);
        match split_once_slash(target.as_str()) {
            None => {
                self.phase = EcoPhase::Done;
                let mut msg = join_text("bad target '", target.as_str());
                msg.append("' (expected inst/pin)");
                Step::Finish(Err(Error::Odb(msg)))
            },
            Some((inst, pin)) => {
                let op = DbOp::InstLocation { inst: inst.clone() };
                self.phase = EcoPhase::Locating { inst, pin };
                Step::Perform(op)
            },
        }
    }

    fn start(kind: CellKind, targets: Vec<String>, masters: Vec<String>) -> (res: (EcoRun, Step<usize>))
        requires
            targets.len() == masters.len(),
        ensures
            res.0@ == eco_run_init(
                kind,
                texts(targets@),
                texts(masters@),
            ).begin(0).0,
            res.1@ == eco_run_init(
                kind,
                texts(targets@),
                texts(masters@),
            ).begin(0).1,
            res.0@.wf(),
    {
        let mut run = EcoRun { kind, targets, masters, index: 0, phase: EcoPhase::Done };
        assert(run@ == eco_run_init(
            kind,
            texts(run.targets@),
            texts(run.masters@),
        ));
        let s = run.begin(0);
        (run, s)
    }

    /// Whether the run can take `reply` now.
    pub fn accepts(&self, reply: &Reply) -> (b: bool)
        ensures
            b == self@.accepts(reply@),
    {
        match &self.phase {
            EcoPhase::Locating { .. } => match reply {
                Reply::Location(..) => true,
                _ => false,
            },
            EcoPhase::Inserting(m) => m.accepts(reply),
            EcoPhase::Done => false,
        }
    }

    /// The name of the cell inserted for entry `i`.
    fn cell_name(kind: CellKind, i: usize) -> (name: String)
        ensures
            name@ == eco_cell_name(kind, i as nat),
    {
        let mut name = match kind {
            CellKind::Buffer => String::from_str("eco_buffer_"),
            CellKind::Diode => String::from_str("eco_diode_"),
        };
        push_decimal(&mut name, i);
        name
    }

    /// Takes the answer to the last operation and says what comes next.
    pub fn resume(&mut self, reply: Reply) -> (s: Step<usize>)
        requires
            old(self)@.wf(),
            old(self)@.accepts(reply@),
        ensures
            final(self)@ == old(self)@.resume(reply@).0,
            s@ == old(self)@.resume(reply@).1,
            final(self)@.wf(),
    {
        proof {
            reveal(EcoRunView::resume);
        }
        let ghost old_view = self@;
        assert(self.index < self.targets.len()) by {
            assert(!(old_view.phase is Done));
            assert(old_view.targets.len() == self.targets@.len());
        }
        let mut phase = EcoPhase::Done;
        std::mem::swap(&mut phase, &mut self.phase);
        match phase {
            EcoPhase::Locating { inst, pin } => {
                let (x, y) = match reply {
                    Reply::Location(x, y) => (x, y),
                    _ => (0, 0),
                };
                let i = self.index;
                let name = EcoRun::cell_name(self.kind, i);
                let master = &self.masters[i];
                let (m, op) = match self.kind {
                    CellKind::Buffer => insert_buffer(
                        inst.as_str(),
                        pin.as_str(),
                        master.as_str(),
                        name.as_str(),
                        x,
                        y,
                    ),
                    CellKind::Diode => insert_diode(
                        inst.as_str(),
                        pin.as_str(),
                        master.as_str(),
                        name.as_str(),
                        x,
                        y,
                    ),
                };
                self.phase = EcoPhase::Inserting(m);
                Step::Perform(op)
            },
            EcoPhase::Inserting(mut m) => {
                let s = m.resume(reply);
                match s {
                    Step::Perform(op) => {
                        self.phase = EcoPhase::Inserting(m);
                        Step::Perform(op)
                    },
                    Step::Finish(Err(e)) => Step::Finish(Err(e)),
                    Step::Finish(Ok(())) => {
                        self.begin(self.index + 1)
                    },
                }
            },
            // A finished run accepts no answer, so `resume` is not called on it.
            EcoPhase::Done => Step::Finish(Ok(0)),
        }
    }
}

/// Starts `InsertECOBuffers` over `specs`: the run and its first step. For each entry the buffer
/// `eco_buffer_{i}` is spliced onto the target pin, placed at the target instance's origin.
pub fn insert_eco_buffers(specs: &[EcoBuffer]) -> (res: (EcoRun, Step<usize>))
    ensures
        res.0@ == eco_run_init(
            CellKind::Buffer,
            specs@.map_values(|b: EcoBuffer| b.target@),
            specs@.map_values(|b: EcoBuffer| b.buffer@),
        ).begin(0).0,
        res.1@ == eco_run_init(
            CellKind::Buffer,
            specs@.map_values(|b: EcoBuffer| b.target@),
            specs@.map_values(|b: EcoBuffer| b.buffer@),
        ).begin(0).1,
        res.0@.wf(),
{
    let mut targets: Vec<String> = Vec::new();
    let mut masters: Vec<String> = Vec::new();
    for i in 0..specs.len()
        invariant
            targets@.len() == i,
            masters@.len() == i,
            forall|j: int| 0 <= j < i ==> #[trigger] targets@[j]@ == specs@[j].target@,
            forall|j: int| 0 <= j < i ==> #[trigger] masters@[j]@ == specs@[j].buffer@,
    {
        targets.push(specs[i].target.clone());
        masters.push(specs[i].buffer.clone());
    }
    assert(texts(targets@) =~= specs@.map_values(|b: EcoBuffer| b.target@));
    assert(texts(masters@) =~= specs@.map_values(|b: EcoBuffer| b.buffer@));
    EcoRun::start(CellKind::Buffer, targets, masters)
}

/// Starts `InsertECODiodes` over `specs`: the run and its first step. For each entry the diode
/// `eco_diode_{i}` is tied onto the target pin's net, placed at the target instance's origin.
pub fn insert_eco_diodes(specs: &[EcoDiode]) -> (res: (EcoRun, Step<usize>))
    ensures
        res.0@ == eco_run_init(
            CellKind::Diode,
            specs@.map_values(|d: EcoDiode| d.target@),
            specs@.map_values(|d: EcoDiode| d.diode@),
        ).begin(0).0,
        res.1@ == eco_run_init(
            CellKind::Diode,
            specs@.map_values(|d: EcoDiode| d.target@),
            specs@.map_values(|d: EcoDiode| d.diode@),
        ).begin(0).1,
        res.0@.wf(),
{
    let mut targets: Vec<String> = Vec::new();
    let mut masters: Vec<String> = Vec::new();
    for i in 0..specs.len()
        invariant
            targets@.len() == i,
            masters@.len() == i,
            forall|j: int| 0 <= j < i ==> #[trigger] targets@[j]@ == specs@[j].target@,
            forall|j: int| 0 <= j < i ==> #[trigger] masters@[j]@ == specs@[j].diode@,
    {
        targets.push(specs[i].target.clone());
        masters.push(specs[i].diode.clone());
    }
    assert(texts(targets@) =~= specs@.map_values(|d: EcoDiode| d.target@));
    assert(texts(masters@) =~= specs@.map_values(|d: EcoDiode| d.diode@));
    EcoRun::start(CellKind::Diode, targets, masters)
}

} // verus!
