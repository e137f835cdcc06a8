use vstd::prelude::*;
use crate::error::{Error, ErrorView};
use crate::ops::{DbOp, OpView, Reply, ReplyKind, ReplyView, Step, StepView};
use crate::text::join_text;

verus! {

/// Which composed edit a [`CellInsertion`] performs.
#[derive(Debug, Clone, Copy, PartialEq, Eq, Structural)]
pub enum CellKind {
    /// Splice a buffer onto a pin: the pin's driver net feeds the buffer, whose output drives a
    /// fresh net that the pin is moved onto.
    Buffer,
    /// Tie an antenna diode onto a pin's net: a leaf on the existing net, no rewiring.
    Diode,
}

/// Where a [`CellInsertion`] stands: the answer it waits for next.
#[derive(Debug, Clone, Copy, PartialEq, Eq, Structural)]
pub enum InsertPhase {
    AwaitDriver,
    AwaitNewNet,
    AwaitCellInst,
    AwaitPlacement,
    AwaitInputPin,
    AwaitOutputPin,
    AwaitInputWire,
    AwaitOutputWire,
    AwaitDetach,
    AwaitAttach,
    Done,
}

/// The decisions of inserting one buffer or diode cell on `target_inst/target_pin`, as a step
/// machine: each call says which database operation comes next, given the answer to the last.
///
/// A buffer named `cell` is spliced in as follows: the target pin's net (its driver) is read and
/// must exist; the net `{cell}_net` and the instance `cell` of `master` are created and placed at
/// `(x, y)`; the buffer's input and output pins are read and must both exist; its input joins the
/// driver net, its output the new net, and the target pin moves from the driver net to the new
/// net. A diode is created and placed the same way, and its input pin joins the target's net;
/// nothing is rewired. The first failed edit ends the insertion with that error.
pub struct CellInsertion {
    kind: CellKind,
    target_inst: String,
    target_pin: String,
    master: String,
    cell: String,
    x: i32,
    y: i32,
    new_net: String,
    driver: String,
    input_pin: String,
    output_pin: String,
    phase: InsertPhase,
}

/// The state of a [`CellInsertion`] as contracts see it.
pub struct InsertionView {
    pub kind: CellKind,
    pub target_inst: Seq<char>,
    pub target_pin: Seq<char>,
    pub master: Seq<char>,
    pub cell: Seq<char>,
    pub x: i32,
    pub y: i32,
    pub new_net: Seq<char>,
    pub driver: Seq<char>,
    pub input_pin: Seq<char>,
    pub output_pin: Seq<char>,
    pub phase: InsertPhase,
}

impl View for CellInsertion {
    type V = InsertionView;

    closed spec fn view(&self) -> InsertionView {
        InsertionView {
            kind: self.kind,
            target_inst: self.target_inst@,
            target_pin: self.target_pin@,
            master: self.master@,
            cell: self.cell@,
            x: self.x,
            y: self.y,
            new_net: self.new_net@,
            driver: self.driver@,
            input_pin: self.input_pin@,
            output_pin: self.output_pin@,
            phase: self.phase,
        }
    }
}

/// The message when the target pin has no net: `no net on {inst}/{pin}`.
pub open spec fn no_net_message(inst: Seq<char>, pin: Seq<char>) -> Seq<char> {
    "no net on "@ + inst + "/"@ + pin
}

/// The message when a buffer cell lacks a signal pin: `{master} lacks an input or output pin`.
pub open spec fn buffer_pins_message(master: Seq<char>) -> Seq<char> {
    master + " lacks an input or output pin"@
}

/// The message when a diode cell lacks an input pin: `{master} lacks an input pin`.
pub open spec fn diode_pin_message(master: Seq<char>) -> Seq<char> {
    master + " lacks an input pin"@
}

/// The state in which an insertion starts, waiting for the target pin's net.
pub open spec fn insertion_start(
    kind: CellKind,
    target_inst: Seq<char>,
    target_pin: Seq<char>,
    master: Seq<char>,
    cell: Seq<char>,
    x: i32,
    y: i32,
) -> InsertionView {
    InsertionView {
        kind,
        target_inst,
        target_pin,
        master,
        cell,
        x,
        y,
        new_net: cell + "_net"@,
        driver: Seq::empty(),
        input_pin: Seq::empty(),
        output_pin: Seq::empty(),
        phase: InsertPhase::AwaitDriver,
    }
}

/// The first operation of every insertion: read the target pin's net.
pub open spec fn insertion_first_op(target_inst: Seq<char>, target_pin: Seq<char>) -> OpView {
    OpView::NetOf { inst: target_inst, pin: target_pin }
}

impl InsertionView {
    /// The shape of answer the insertion waits for, or `None` once it has finished.
    pub open spec fn awaits(self) -> Option<ReplyKind> {
        match self.phase {
            InsertPhase::AwaitDriver | InsertPhase::AwaitInputPin | InsertPhase::AwaitOutputPin => Some(
                ReplyKind::Name,
            ),
            InsertPhase::Done => None,
            _ => Some(ReplyKind::Status),
        }
    }

    /// Whether `r` is an answer the insertion can take now.
    pub open spec fn accepts(self, r: ReplyView) -> bool {
        self.awaits() == Some(r.kind())
    }

    pub open spec fn with_phase(self, phase: InsertPhase) -> InsertionView {
        InsertionView { phase, ..self }
    }

    /// The next state and step after answer `r`. (An answer of a shape the machine does not
    /// wait for is never handed to it: `resume` requires `accepts`.)
    #[verifier::opaque]
    pub open spec fn resume(self, r: ReplyView) -> (InsertionView, StepView<()>) {
        let done = self.with_phase(InsertPhase::Done);
        if !self.accepts(r) {
            (self, StepView::Finish(Err(ErrorView::Odb(Seq::empty()))))
        } else {
            match r {
                ReplyView::Name(name) => match self.phase {
                    InsertPhase::AwaitDriver => if name.len() == 0 {
                        (
                            done,
                            StepView::Finish(
                                Err(
                                    ErrorView::Odb(
                                        no_net_message(self.target_inst, self.target_pin),
                                    ),
                                ),
                            ),
                        )
                    } else if self.kind == CellKind::Buffer {
                        (
                            InsertionView {
                                driver: name,
                                phase: InsertPhase::AwaitNewNet,
                                ..self
                            },
                            StepView::Perform(OpView::CreateNet { name: self.new_net }),
                        )
                    } else {
                        (
                            InsertionView {
                                driver: name,
                                phase: InsertPhase::AwaitCellInst,
                                ..self
                            },
                            StepView::Perform(
                                OpView::CreateInst { master: self.master, name: self.cell },
                            ),
                        )
                    },
                    InsertPhase::AwaitInputPin => if self.kind == CellKind::Buffer {
                        (
                            InsertionView {
                                input_pin: name,
                                phase: InsertPhase::AwaitOutputPin,
                                ..self
                            },
                            StepView::Perform(OpView::OutputPin { inst: self.cell }),
                        )
                    } else if name.len() == 0 {
                        (done, StepView::Finish(Err(ErrorView::Odb(diode_pin_message(self.master)))))
                    } else {
                        (
                            InsertionView {
                                input_pin: name,
                                phase: InsertPhase::AwaitInputWire,
                                ..self
                            },
                            StepView::Perform(
                                OpView::Connect { inst: self.cell, pin: name, net: self.driver },
                            ),
                        )
                    },
                    _ => if self.input_pin.len() == 0 || name.len() == 0 {
                        (
                            done,
                            StepView::Finish(Err(ErrorView::Odb(buffer_pins_message(self.master)))),
                        )
                    } else {
                        (
                            InsertionView {
                                output_pin: name,
                                phase: InsertPhase::AwaitInputWire,
                                ..self
                            },
                            StepView::Perform(
                                OpView::Connect {
                                    inst: self.cell,
                                    pin: self.input_pin,
                                    net: self.driver,
                                },
                            ),
                        )
                    },
                },
                ReplyView::Status(Err(e)) => (done, StepView::Finish(Err(e))),
                _ => match self.phase {
                    InsertPhase::AwaitNewNet => (
                        self.with_phase(InsertPhase::AwaitCellInst),
                        StepView::Perform(OpView::CreateInst { master: self.master, name: self.cell }),
                    ),
                    InsertPhase::AwaitCellInst => (
                        self.with_phase(InsertPhase::AwaitPlacement),
                        StepView::Perform(
                            OpView::SetInstLocation { inst: self.cell, x: self.x, y: self.y },
                        ),
                    ),
                    InsertPhase::AwaitPlacement => (
                        self.with_phase(InsertPhase::AwaitInputPin),
                        StepView::Perform(OpView::InputPin { inst: self.cell }),
                    ),
                    InsertPhase::AwaitInputWire => if self.kind == CellKind::Buffer {
                        (
                            self.with_phase(InsertPhase::AwaitOutputWire),
                            StepView::Perform(
                                OpView::Connect {
                                    inst: self.cell,
                                    pin: self.output_pin,
                                    net: self.new_net,
                                },
                            ),
                        )
                    } else {
                        (done, StepView::Finish(Ok(())))
                    },
                    InsertPhase::AwaitOutputWire => (
                        self.with_phase(InsertPhase::AwaitDetach),
                        StepView::Perform(
                            OpView::Disconnect { inst: self.target_inst, pin: self.target_pin },
                        ),
                    ),
                    InsertPhase::AwaitDetach => (
                        self.with_phase(InsertPhase::AwaitAttach),
                        StepView::Perform(
                            OpView::Connect {
                                inst: self.target_inst,
                                pin: self.target_pin,
                                net: self.new_net,
                            },
                        ),
                    ),
                    _ => (done, StepView::Finish(Ok(()))),
                },
            }
        }
    }

    /// The steps the insertion takes when handed `replies` one after the other (it stops
    /// taking answers once it has finished).
    pub open spec fn feed(self, replies: Seq<ReplyView>) -> Seq<StepView<()>>
        decreases replies.len(),
    {
        if replies.len() == 0 {
            Seq::empty()
        } else {
            let (next, step) = self.resume(replies[0]);
            seq![step] + next.feed(replies.drop_first())
        }
    }
}


/// The answers of a database on which every edit of a buffer insertion succeeds, where the
/// target pin's net is `driver` and the buffer's input and output pins are `input` and `output`.
pub open spec fn buffer_success_replies(
    driver: Seq<char>,
    input: Seq<char>,
    output: Seq<char>,
) -> Seq<ReplyView> {
    seq![
        ReplyView::Name(driver),
        ReplyView::Status(Ok(())),
        ReplyView::Status(Ok(())),
        ReplyView::Status(Ok(())),
        ReplyView::Name(input),
        ReplyView::Name(output),
        ReplyView::Status(Ok(())),
        ReplyView::Status(Ok(())),
        ReplyView::Status(Ok(())),
        ReplyView::Status(Ok(())),
    ]
}

/// A buffer insertion that meets no failure performs, after reading the target pin's net,
/// exactly this surgery and then succeeds: create `{cell}_net` and the buffer, place it, read its
/// input and output pins, connect its input to the original driver net and its output to the new
/// net, take the target pin off its net and connect it to the new net.
pub proof fn lemma_buffer_insertion_success(
    target_inst: Seq<char>,
    target_pin: Seq<char>,
    master: Seq<char>,
    cell: Seq<char>,
    x: i32,
    y: i32,
    driver: Seq<char>,
    input: Seq<char>,
    output: Seq<char>,
)
    requires
        driver.len() > 0,
        input.len() > 0,
        output.len() > 0,
    ensures
        insertion_start(CellKind::Buffer, target_inst, target_pin, master, cell, x, y).feed(
            buffer_success_replies(driver, input, output),
        ) == seq![
            StepView::Perform(OpView::CreateNet { name: cell + "_net"@ }),
            StepView::Perform(OpView::CreateInst { master, name: cell }),
            StepView::Perform(OpView::SetInstLocation { inst: cell, x, y }),
            StepView::Perform(OpView::InputPin { inst: cell }),
            StepView::Perform(OpView::OutputPin { inst: cell }),
            StepView::Perform(OpView::Connect { inst: cell, pin: input, net: driver }),
            StepView::Perform(OpView::Connect { inst: cell, pin: output, net: cell + "_net"@ }),
            StepView::Perform(OpView::Disconnect { inst: target_inst, pin: target_pin }),
            StepView::Perform(OpView::Connect { inst: target_inst, pin: target_pin, net: cell + "_net"@ }),
            StepView::<()>::Finish(Ok(())),
        ],
{
    reveal(InsertionView::resume);
    let rs = buffer_success_replies(driver, input, output);
    let m0 = insertion_start(CellKind::Buffer, target_inst, target_pin, master, cell, x, y);
    reveal_with_fuel(InsertionView::feed, 11);
    assert(m0.feed(rs) =~= seq![
            StepView::Perform(OpView::CreateNet { name: cell + "_net"@ }),
            StepView::Perform(OpView::CreateInst { master, name: cell }),
            StepView::Perform(OpView::SetInstLocation { inst: cell, x, y }),
            StepView::Perform(OpView::InputPin { inst: cell }),
            StepView::Perform(OpView::OutputPin { inst: cell }),
            StepView::Perform(OpView::Connect { inst: cell, pin: input, net: driver }),
            StepView::Perform(OpView::Connect { inst: cell, pin: output, net: cell + "_net"@ }),
            StepView::Perform(OpView::Disconnect { inst: target_inst, pin: target_pin }),
            StepView::Perform(OpView::Connect { inst: target_inst, pin: target_pin, net: cell + "_net"@ }),
            StepView::<()>::Finish(Ok(())),
        ]);
}

/// The answers of a database on which every edit of a diode insertion succeeds, where the
/// target pin's net is `driver` and the diode's input pin is `input`.
pub open spec fn diode_success_replies(driver: Seq<char>, input: Seq<char>) -> Seq<ReplyView> {
    seq![
        ReplyView::Name(driver),
        ReplyView::Status(Ok(())),
        ReplyView::Status(Ok(())),
        ReplyView::Name(input),
        ReplyView::Status(Ok(())),
    ]
}

/// A diode insertion that meets no failure creates and places the diode, reads its input pin and
/// ties that pin onto the target's existing net, then succeeds: it creates no net and rewires
/// nothing.
pub proof fn lemma_diode_insertion_success(
    target_inst: Seq<char>,
    target_pin: Seq<char>,
    master: Seq<char>,
    cell: Seq<char>,
    x: i32,
    y: i32,
    driver: Seq<char>,
    input: Seq<char>,
)
    requires
        driver.len() > 0,
        input.len() > 0,
    ensures
        insertion_start(CellKind::Diode, target_inst, target_pin, master, cell, x, y).feed(
            diode_success_replies(driver, input),
        ) == seq![
            StepView::Perform(OpView::CreateInst { master, name: cell }),
            StepView::Perform(OpView::SetInstLocation { inst: cell, x, y }),
            StepView::Perform(OpView::InputPin { inst: cell }),
            StepView::Perform(OpView::Connect { inst: cell, pin: input, net: driver }),
            StepView::<()>::Finish(Ok(())),
        ],
{
    reveal(InsertionView::resume);
    reveal_with_fuel(InsertionView::feed, 6);
    assert(insertion_start(CellKind::Diode, target_inst, target_pin, master, cell, x, y).feed(
        diode_success_replies(driver, input),
    ) =~= seq![
        StepView::Perform(OpView::CreateInst { master, name: cell }),
        StepView::Perform(OpView::SetInstLocation { inst: cell, x, y }),
        StepView::Perform(OpView::InputPin { inst: cell }),
        StepView::Perform(OpView::Connect { inst: cell, pin: input, net: driver }),
        StepView::<()>::Finish(Ok(())),
    ]);
}

/// An insertion whose target pin has no net edits nothing: it ends at once with the error
/// `no net on {inst}/{pin}`, and takes no further answer.
pub proof fn lemma_insertion_without_net(
    kind: CellKind,
    target_inst: Seq<char>,
    target_pin: Seq<char>,
    master: Seq<char>,
    cell: Seq<char>,
    x: i32,
    y: i32,
)
    ensures
        ({
            let (next, step) = insertion_start(kind, target_inst, target_pin, master, cell, x, y).resume(
                ReplyView::Name(Seq::empty()),
            );
            &&& step == StepView::<()>::Finish(Err(ErrorView::Odb(no_net_message(target_inst, target_pin))))
            &&& next.awaits() is None
        }),
{
    reveal(InsertionView::resume);
}

/// Whatever the insertion has done so far, a failed edit ends it with that very error, and it
/// takes no further answer.
pub proof fn lemma_insertion_stops_at_failure(m: InsertionView, e: ErrorView)
    requires
        m.accepts(ReplyView::Status(Err(e))),
    ensures
        m.resume(ReplyView::Status(Err(e))).1 == StepView::<()>::Finish(Err(e)),
        m.resume(ReplyView::Status(Err(e))).0.awaits() is None,
{
    reveal(InsertionView::resume);
}

/// An answer the insertion cannot take changes nothing (and is never handed to it).
pub proof fn lemma_insertion_unaccepted(m: InsertionView, r: ReplyView)
    ensures
        !m.accepts(r) ==> m.resume(r) == (m, StepView::<()>::Finish(Err(ErrorView::Odb(Seq::empty())))),
{
    reveal(InsertionView::resume);
}

/// After asking for an operation, an insertion takes exactly the answers of that operation's
/// shape; so a driver that hands back the database's answer to each operation never hands it
/// an answer it cannot take.
pub proof fn lemma_insertion_awaits_its_answer(m: InsertionView, r: ReplyView, r2: ReplyView)
    requires
        m.accepts(r),
    ensures
        m.resume(r).1 matches StepView::Perform(op) ==> (m.resume(r).0.accepts(r2) <==> r2.kind() == op.reply_kind()),
        m.resume(r).1 is Finish ==> !m.resume(r).0.accepts(r2),
{
    reveal(InsertionView::resume);
}

/// A new insertion takes exactly the answers to its first operation.
pub proof fn lemma_insertion_start_awaits_its_answer(
    kind: CellKind,
    target_inst: Seq<char>,
    target_pin: Seq<char>,
    master: Seq<char>,
    cell: Seq<char>,
    x: i32,
    y: i32,
    r: ReplyView,
)
    ensures
        insertion_start(kind, target_inst, target_pin, master, cell, x, y).accepts(r) <==> r.kind()
            == insertion_first_op(target_inst, target_pin).reply_kind(),
{
}

/// The operations an insertion performs after reading the target pin's net, when nothing
/// fails (see [`lemma_buffer_insertion_success`] and [`lemma_diode_insertion_success`]).
pub open spec fn cell_surgery(
    kind: CellKind,
    target_inst: Seq<char>,
    target_pin: Seq<char>,
    master: Seq<char>,
    cell: Seq<char>,
    x: i32,
    y: i32,
    driver: Seq<char>,
    input: Seq<char>,
    output: Seq<char>,
) -> Seq<OpView> {
    match kind {
        CellKind::Buffer => seq![
            OpView::CreateNet { name: cell + "_net"@ },
            OpView::CreateInst { master, name: cell },
            OpView::SetInstLocation { inst: cell, x, y },
            OpView::InputPin { inst: cell },
            OpView::OutputPin { inst: cell },
            OpView::Connect { inst: cell, pin: input, net: driver },
            OpView::Connect { inst: cell, pin: output, net: cell + "_net"@ },
            OpView::Disconnect { inst: target_inst, pin: target_pin },
            OpView::Connect { inst: target_inst, pin: target_pin, net: cell + "_net"@ },
        ],
        CellKind::Diode => seq![
            OpView::CreateInst { master, name: cell },
            OpView::SetInstLocation { inst: cell, x, y },
            OpView::InputPin { inst: cell },
            OpView::Connect { inst: cell, pin: input, net: driver },
        ],
    }
}

/// The answers of a database on which every edit of an insertion succeeds.
pub open spec fn success_replies(
    kind: CellKind,
    driver: Seq<char>,
    input: Seq<char>,
    output: Seq<char>,
) -> Seq<ReplyView> {
    match kind {
        CellKind::Buffer => buffer_success_replies(driver, input, output),
        CellKind::Diode => diode_success_replies(driver, input),
    }
}

/// The steps that ask for `ops`, one after the other.
pub open spec fn performs<T>(ops: Seq<OpView>) -> Seq<StepView<T>> {
    ops.map_values(|op: OpView| StepView::Perform(op))
}

/// An insertion that meets no failure performs exactly its surgery and then succeeds.
pub proof fn lemma_insertion_success(
    kind: CellKind,
    target_inst: Seq<char>,
    target_pin: Seq<char>,
    master: Seq<char>,
    cell: Seq<char>,
    x: i32,
    y: i32,
    driver: Seq<char>,
    input: Seq<char>,
    output: Seq<char>,
)
    requires
        driver.len() > 0,
        input.len() > 0,
        output.len() > 0,
    ensures
        insertion_start(kind, target_inst, target_pin, master, cell, x, y).feed(
            success_replies(kind, driver, input, output),
        ) == performs::<()>(
            cell_surgery(kind, target_inst, target_pin, master, cell, x, y, driver, input, output),
        ).push(StepView::Finish(Ok(()))),
{
    let ops = cell_surgery(kind, target_inst, target_pin, master, cell, x, y, driver, input, output);
    match kind {
        CellKind::Buffer => {
            lemma_buffer_insertion_success(target_inst, target_pin, master, cell, x, y, driver, input, output);
        },
        CellKind::Diode => {
            lemma_diode_insertion_success(target_inst, target_pin, master, cell, x, y, driver, input);
        },
    }
    assert(insertion_start(kind, target_inst, target_pin, master, cell, x, y).feed(
        success_replies(kind, driver, input, output),
    ) =~= performs::<()>(ops).push(StepView::Finish(Ok(()))));
}

/// Whether `op` reads the database, or edits nothing but the cell `cell`, its net
/// `{cell}_net` and the pin `target_inst/target_pin`: it creates only that net or that cell,
/// moves or orients only that cell, and connects or disconnects only a pin of that cell or the
/// target pin.
pub open spec fn confined_to(
    op: OpView,
    cell: Seq<char>,
    target_inst: Seq<char>,
    target_pin: Seq<char>,
) -> bool {
    match op {
        OpView::CreateNet { name } => name == cell + "_net"@,
        OpView::CreateInst { name, .. } => name == cell,
        OpView::SetInstLocation { inst, .. } => inst == cell,
        OpView::SetInstOrient { inst, .. } => inst == cell,
        OpView::Connect { inst, pin, .. } => inst == cell || (inst == target_inst && pin == target_pin),
        OpView::Disconnect { inst, pin } => inst == cell || (inst == target_inst && pin == target_pin),
        _ => true,
    }
}

/// The state of an insertion as it is built: its net is `{cell}_net`.
pub open spec fn names_its_net(m: InsertionView) -> bool {
    m.new_net == m.cell + "_net"@
}

/// Whatever the answers, every operation an insertion asks for is a read or an edit of only
/// the new cell, its net `{cell}_net` and the target pin; no other pin is connected or
/// disconnected, no other instance is moved, and no other object is created.
pub proof fn lemma_insertion_edits_confined(m: InsertionView, r: ReplyView)
    requires
        names_its_net(m),
        m.accepts(r),
    ensures
        m.resume(r).1 matches StepView::Perform(op) ==> confined_to(op, m.cell, m.target_inst, m.target_pin),
        names_its_net(m.resume(r).0),
        m.resume(r).0.cell == m.cell,
        m.resume(r).0.target_inst == m.target_inst,
        m.resume(r).0.target_pin == m.target_pin,
{
    reveal(InsertionView::resume);
}

/// A new insertion names its net `{cell}_net`, and its first operation is a read.
pub proof fn lemma_insertion_start_confined(
    kind: CellKind,
    target_inst: Seq<char>,
    target_pin: Seq<char>,
    master: Seq<char>,
    cell: Seq<char>,
    x: i32,
    y: i32,
)
    ensures
        names_its_net(insertion_start(kind, target_inst, target_pin, master, cell, x, y)),
        confined_to(insertion_first_op(target_inst, target_pin), cell, target_inst, target_pin),
{
}

/// The surgery of a successful insertion edits only the new cell, its net `{cell}_net` and the
/// target pin; every other pin keeps its net and every other instance its place, as far as
/// the edits go.
pub proof fn lemma_cell_surgery_confined(
    kind: CellKind,
    target_inst: Seq<char>,
    target_pin: Seq<char>,
    master: Seq<char>,
    cell: Seq<char>,
    x: i32,
    y: i32,
    driver: Seq<char>,
    input: Seq<char>,
    output: Seq<char>,
)
    ensures
        forall|k: int|
            0 <= k < cell_surgery(kind, target_inst, target_pin, master, cell, x, y, driver, input, output).len()
                ==> confined_to(
                #[trigger] cell_surgery(kind, target_inst, target_pin, master, cell, x, y, driver, input, output)[k],
                cell,
                target_inst,
                target_pin,
            ),
{
}

impl CellInsertion {
    fn start(
        kind: CellKind,
        target_inst: &str,
        target_pin: &str,
        master: &str,
        cell: &str,
        x: i32,
        y: i32,
    ) -> (res: (CellInsertion, DbOp))
        ensures
            res.0@ == insertion_start(kind, target_inst@, target_pin@, master@, cell@, x, y),
            res.1@ == insertion_first_op(target_inst@, target_pin@),
    {
        let m = CellInsertion {
            kind,
            target_inst: String::from_str(target_inst),
            target_pin: String::from_str(target_pin),
            master: String::from_str(master),
            cell: String::from_str(cell),
            x,
            y,
            new_net: join_text(cell, "_net"),
            driver: String::new(),
            input_pin: String::new(),
            output_pin: String::new(),
            phase: InsertPhase::AwaitDriver,
        };
        let op = DbOp::NetOf {
            inst: String::from_str(target_inst),
            pin: String::from_str(target_pin),
        };
        (m, op)
    }

    /// Whether the insertion can take `reply` now (it waits for one shape of answer at a time,
    /// and for none once it has finished).
    pub fn accepts(&self, reply: &Reply) -> (b: bool)
        ensures
            b == self@.accepts(reply@),
    {
        let kind = match reply {
            Reply::Name(_) => ReplyKind::Name,
            Reply::Location(..) => ReplyKind::Location,
            Reply::Status(_) => ReplyKind::Status,
        };
        match self.phase {
            InsertPhase::AwaitDriver | InsertPhase::AwaitInputPin | InsertPhase::AwaitOutputPin => {
                kind == ReplyKind::Name
            },
            InsertPhase::Done => false,
            _ => kind == ReplyKind::Status,
        }
    }

    /// Takes the answer to the last operation and says what comes next.
    pub fn resume(&mut self, reply: Reply) -> (s: Step<()>)
        requires
            old(self)@.accepts(reply@),
        ensures
            final(self)@ == old(self)@.resume(reply@).0,
            s@ == old(self)@.resume(reply@).1,
    {
        proof {
            reveal(InsertionView::resume);
        }
        match reply {
            Reply::Name(name) => match self.phase {
                InsertPhase::AwaitDriver => {
                    if name.as_str().unicode_len() == 0 {
                        self.phase = InsertPhase::Done;
                        let mut msg = join_text("no net on ", self.target_inst.as_str());
                        msg.append("/");
                        msg.append(self.target_pin.as_str());
                        Step::Finish(Err(Error::Odb(msg)))
                    } else if self.kind == CellKind::Buffer {
                        self.driver = name;
                        self.phase = InsertPhase::AwaitNewNet;
                        Step::Perform(DbOp::CreateNet { name: self.new_net.clone() })
                    } else {
                        self.driver = name;
                        self.phase = InsertPhase::AwaitCellInst;
                        Step::Perform(
                            DbOp::CreateInst { master: self.master.clone(), name: self.cell.clone() },
                        )
                    }
                },
                InsertPhase::AwaitInputPin => {
                    if self.kind == CellKind::Buffer {
                        self.input_pin = name;
                        self.phase = InsertPhase::AwaitOutputPin;
                        Step::Perform(DbOp::OutputPin { inst: self.cell.clone() })
                    } else if name.as_str().unicode_len() == 0 {
                        self.phase = InsertPhase::Done;
                        Step::Finish(
                            Err(Error::Odb(join_text(self.master.as_str(), " lacks an input pin"))),
                        )
                    } else {
                        self.input_pin = name.clone();
                        self.phase = InsertPhase::AwaitInputWire;
                        Step::Perform(
                            DbOp::Connect { inst: self.cell.clone(), pin: name, net: self.driver.clone() },
                        )
                    }
                },
                _ => {
                    if self.input_pin.as_str().unicode_len() == 0 || name.as_str().unicode_len() == 0 {
                        self.phase = InsertPhase::Done;
                        Step::Finish(
                            Err(
                                Error::Odb(
                                    join_text(self.master.as_str(), " lacks an input or output pin"),
                                ),
                            ),
                        )
                    } else {
                        self.output_pin = name;
                        self.phase = InsertPhase::AwaitInputWire;
                        Step::Perform(
                            DbOp::Connect {
                                inst: self.cell.clone(),
                                pin: self.input_pin.clone(),
                                net: self.driver.clone(),
                            },
                        )
                    }
                },
            },
            Reply::Status(Err(e)) => {
                self.phase = InsertPhase::Done;
                Step::Finish(Err(e))
            },
            _ => match self.phase {
                InsertPhase::AwaitNewNet => {
                    self.phase = InsertPhase::AwaitCellInst;
                    Step::Perform(
                        DbOp::CreateInst { master: self.master.clone(), name: self.cell.clone() },
                    )
                },
                InsertPhase::AwaitCellInst => {
                    self.phase = InsertPhase::AwaitPlacement;
                    Step::Perform(
                        DbOp::SetInstLocation { inst: self.cell.clone(), x: self.x, y: self.y },
                    )
                },
                InsertPhase::AwaitPlacement => {
                    self.phase = InsertPhase::AwaitInputPin;
                    Step::Perform(DbOp::InputPin { inst: self.cell.clone() })
                },
                InsertPhase::AwaitInputWire => {
                    if self.kind == CellKind::Buffer {
                        self.phase = InsertPhase::AwaitOutputWire;
                        Step::Perform(
                            DbOp::Connect {
                                inst: self.cell.clone(),
                                pin: self.output_pin.clone(),
                                net: self.new_net.clone(),
                            },
                        )
                    } else {
                        self.phase = InsertPhase::Done;
                        Step::Finish(Ok(()))
                    }
                },
                InsertPhase::AwaitOutputWire => {
                    self.phase = InsertPhase::AwaitDetach;
                    Step::Perform(
                        DbOp::Disconnect {
                            inst: self.target_inst.clone(),
                            pin: self.target_pin.clone(),
                        },
                    )
                },
                InsertPhase::AwaitDetach => {
                    self.phase = InsertPhase::AwaitAttach;
                    Step::Perform(
                        DbOp::Connect {
                            inst: self.target_inst.clone(),
                            pin: self.target_pin.clone(),
                            net: self.new_net.clone(),
                        },
                    )
                },
                _ => {
                    self.phase = InsertPhase::Done;
                    Step::Finish(Ok(()))
                },
            },
        }
    }
}

/// Starts inserting `buffer_master` (named `buf_name`, placed at `x, y`) on
/// `target_inst/target_pin`: the machine and its first operation.
pub fn insert_buffer(
    target_inst: &str,
    target_pin: &str,
    buffer_master: &str,
    buf_name: &str,
    x: i32,
    y: i32,
) -> (res: (CellInsertion, DbOp))
    ensures
        res.0@ == insertion_start(
            CellKind::Buffer,
            target_inst@,
            target_pin@,
            buffer_master@,
            buf_name@,
            x,
            y,
        ),
        res.1@ == insertion_first_op(target_inst@, target_pin@),
{
    CellInsertion::start(CellKind::Buffer, target_inst, target_pin, buffer_master, buf_name, x, y)
}

/// Starts tying `diode_master` (named `diode_name`, placed at `x, y`) onto the net of
/// `target_inst/target_pin`: the machine and its first operation.
pub fn insert_diode(
    target_inst: &str,
    target_pin: &str,
    diode_master: &str,
    diode_name: &str,
    x: i32,
    y: i32,
) -> (res: (CellInsertion, DbOp))
    ensures
        res.0@ == insertion_start(
            CellKind::Diode,
            target_inst@,
            target_pin@,
            diode_master@,
            diode_name@,
            x,
            y,
        ),
        res.1@ == insertion_first_op(target_inst@, target_pin@),
{
    CellInsertion::start(CellKind::Diode, target_inst, target_pin, diode_master, diode_name, x, y)
}

} // verus!
