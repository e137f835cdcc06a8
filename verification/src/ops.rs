use vstd::prelude::*;
use crate::error::{Error, ErrorView};

verus! {

/// One operation on the design database, as the composed edits issue them. Objects are
/// addressed by name, as the database API addresses them.
#[derive(Debug, Clone, PartialEq, Eq)]
pub enum DbOp {
    /// Read the name of the net connected to `inst/pin` (empty if unconnected).
    NetOf { inst: String, pin: String },
    /// Read the name of the first input-signal pin of `inst` (empty if none).
    InputPin { inst: String },
    /// Read the name of the first output-signal pin of `inst` (empty if none).
    OutputPin { inst: String },
    /// Read the origin of `inst`, in database units.
    InstLocation { inst: String },
    /// Create a net named `name`.
    CreateNet { name: String },
    /// Create an instance of library cell `master`, named `name`.
    CreateInst { master: String, name: String },
    /// Move the origin of `inst` to `(x, y)`.
    SetInstLocation { inst: String, x: i32, y: i32 },
    /// Set the orientation of `inst` (`R0`, `R90`, `MX`, ...).
    SetInstOrient { inst: String, orient: String },
    /// Connect `inst/pin` to `net`.
    Connect { inst: String, pin: String, net: String },
    /// Disconnect `inst/pin` from its net.
    Disconnect { inst: String, pin: String },
}

/// A [`DbOp`] as contracts see it.
pub enum OpView {
    NetOf { inst: Seq<char>, pin: Seq<char> },
    InputPin { inst: Seq<char> },
    OutputPin { inst: Seq<char> },
    InstLocation { inst: Seq<char> },
    CreateNet { name: Seq<char> },
    CreateInst { master: Seq<char>, name: Seq<char> },
    SetInstLocation { inst: Seq<char>, x: i32, y: i32 },
    SetInstOrient { inst: Seq<char>, orient: Seq<char> },
    Connect { inst: Seq<char>, pin: Seq<char>, net: Seq<char> },
    Disconnect { inst: Seq<char>, pin: Seq<char> },
}

impl View for DbOp {
    type V = OpView;

    open spec fn view(&self) -> OpView {
        match self {
            DbOp::NetOf { inst, pin } => OpView::NetOf { inst: inst@, pin: pin@ },
            DbOp::InputPin { inst } => OpView::InputPin { inst: inst@ },
            DbOp::OutputPin { inst } => OpView::OutputPin { inst: inst@ },
            DbOp::InstLocation { inst } => OpView::InstLocation { inst: inst@ },
            DbOp::CreateNet { name } => OpView::CreateNet { name: name@ },
            DbOp::CreateInst { master, name } => OpView::CreateInst { master: master@, name: name@ },
            DbOp::SetInstLocation { inst, x, y } => OpView::SetInstLocation { inst: inst@, x: *x, y: *y },
            DbOp::SetInstOrient { inst, orient } => OpView::SetInstOrient {
                inst: inst@,
                orient: orient@,
            },
            DbOp::Connect { inst, pin, net } => OpView::Connect { inst: inst@, pin: pin@, net: net@ },
            DbOp::Disconnect { inst, pin } => OpView::Disconnect { inst: inst@, pin: pin@ },
        }
    }
}

/// The three shapes of answer an operation has.
#[derive(Debug, Clone, Copy, PartialEq, Eq, Structural)]
pub enum ReplyKind {
    /// A name (queries of nets and pins).
    Name,
    /// A location (the origin query).
    Location,
    /// Success or failure (every edit).
    Status,
}

impl OpView {
    /// The shape of answer this operation has.
    pub open spec fn reply_kind(self) -> ReplyKind {
        match self {
            OpView::NetOf { .. } | OpView::InputPin { .. } | OpView::OutputPin { .. } => ReplyKind::Name,
            OpView::InstLocation { .. } => ReplyKind::Location,
            _ => ReplyKind::Status,
        }
    }
}


/// The answer of the database to one [`DbOp`].
#[derive(Debug, PartialEq, Eq)]
pub enum Reply {
    /// A name read from the database (empty when there is none).
    Name(String),
    /// An origin read from the database.
    Location(i32, i32),
    /// The outcome of an edit.
    Status(Result<(), Error>),
}

/// A [`Reply`] as contracts see it.
pub enum ReplyView {
    Name(Seq<char>),
    Location(i32, i32),
    Status(Result<(), ErrorView>),
}

impl View for Reply {
    type V = ReplyView;

    open spec fn view(&self) -> ReplyView {
        match self {
            Reply::Name(n) => ReplyView::Name(n@),
            Reply::Location(x, y) => ReplyView::Location(*x, *y),
            Reply::Status(Ok(())) => ReplyView::Status(Ok(())),
            Reply::Status(Err(e)) => ReplyView::Status(Err(e@)),
        }
    }
}

impl ReplyView {
    /// The shape of this answer.
    pub open spec fn kind(self) -> ReplyKind {
        match self {
            ReplyView::Name(_) => ReplyKind::Name,
            ReplyView::Location(..) => ReplyKind::Location,
            ReplyView::Status(_) => ReplyKind::Status,
        }
    }
}

/// What a composed edit asks for next: one more database operation, or its outcome.
#[derive(Debug, PartialEq, Eq)]
pub enum Step<T> {
    /// Perform this operation and hand its answer back.
    Perform(DbOp),
    /// The edit is over, with this outcome.
    Finish(Result<T, Error>),
}

/// A [`Step`] as contracts see it.
pub enum StepView<T> {
    Perform(OpView),
    Finish(Result<T, ErrorView>),
}

impl<T: Copy> View for Step<T> {
    type V = StepView<T>;

    open spec fn view(&self) -> StepView<T> {
        match self {
            Step::Perform(op) => StepView::Perform(op@),
            Step::Finish(Ok(v)) => StepView::Finish(Ok(*v)),
            Step::Finish(Err(e)) => StepView::Finish(Err(e@)),
        }
    }
}

} // verus!
