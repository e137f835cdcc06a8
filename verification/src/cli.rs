//! The command-line grammar of the OpenDB tools: which command was asked for, and what the
//! options of a step say. Reading the arguments and acting on them happens outside this crate.

use vstd::prelude::*;
use crate::text::{decimal, is_text, join_text, push_decimal};

verus! {

/// The database steps the multi-tool runs.
#[derive(Debug, Clone, Copy, PartialEq, Eq, Structural)]
pub enum StepKind {
    InsertEcoBuffers,
    InsertEcoDiodes,
    ManualGlobalPlacement,
    ManualMacroPlacement,
}

/// What the first argument of the multi-tool asks for.
#[derive(Debug, Clone, Copy, PartialEq, Eq, Structural)]
pub enum Command {
    /// Print a one-line summary of a design.
    Info,
    /// Run a database step.
    Step(StepKind),
    /// Print the version.
    Version,
    /// Print the usage text.
    Help,
}

/// The message for an unknown command: `unknown command '{cmd}'. Try 'vyges-opendb --help'.`
pub open spec fn unknown_command_message(cmd: Seq<char>) -> Seq<char> {
    "unknown command '"@ + cmd + "'. Try 'vyges-opendb --help'."@
}

/// The command that `cmd` names (the empty word, as when no command is given, asks for help).
pub open spec fn command_of(cmd: Seq<char>) -> Result<Command, Seq<char>> {
    if cmd == "info"@ {
        Ok(Command::Info)
    } else if cmd == "insert-eco-buffers"@ {
        Ok(Command::Step(StepKind::InsertEcoBuffers))
    } else if cmd == "insert-eco-diodes"@ {
        Ok(Command::Step(StepKind::InsertEcoDiodes))
    } else if cmd == "manual-global-placement"@ {
        Ok(Command::Step(StepKind::ManualGlobalPlacement))
    } else if cmd == "manual-macro-placement"@ {
        Ok(Command::Step(StepKind::ManualMacroPlacement))
    } else if cmd == "-V"@ || cmd == "--version"@ {
        Ok(Command::Version)
    } else if cmd == ""@ || cmd == "-h"@ || cmd == "--help"@ {
        Ok(Command::Help)
    } else {
        Err(unknown_command_message(cmd))
    }
}

/// Reads the first argument of the multi-tool; an unknown one gives the error message.
pub fn parse_command(cmd: &str) -> (r: Result<Command, String>)
    ensures
        match r {
            Ok(c) => command_of(cmd@) == Ok::<Command, Seq<char>>(c),
            Err(m) => command_of(cmd@) == Err::<Command, Seq<char>>(m@),
        },
{
    if is_text(cmd, "info") {
        Ok(Command::Info)
    } else if is_text(cmd, "insert-eco-buffers") {
        Ok(Command::Step(StepKind::InsertEcoBuffers))
    } else if is_text(cmd, "insert-eco-diodes") {
        Ok(Command::Step(StepKind::InsertEcoDiodes))
    } else if is_text(cmd, "manual-global-placement") {
        Ok(Command::Step(StepKind::ManualGlobalPlacement))
    } else if is_text(cmd, "manual-macro-placement") {
        Ok(Command::Step(StepKind::ManualMacroPlacement))
    } else if is_text(cmd, "-V") || is_text(cmd, "--version") {
        Ok(Command::Version)
    } else if is_text(cmd, "") || is_text(cmd, "-h") || is_text(cmd, "--help") {
        Ok(Command::Help)
    } else {
        let mut m = join_text("unknown command '", cmd);
        m.append("'. Try 'vyges-opendb --help'.");
        Err(m)
    }
}

/// The name of a step as the command line spells it.
pub open spec fn step_name(kind: StepKind) -> Seq<char> {
    match kind {
        StepKind::InsertEcoBuffers => "insert-eco-buffers"@,
        StepKind::InsertEcoDiodes => "insert-eco-diodes"@,
        StepKind::ManualGlobalPlacement => "manual-global-placement"@,
        StepKind::ManualMacroPlacement => "manual-macro-placement"@,
    }
}

/// The name of a step as the command line spells it.
pub fn step_command_name(kind: StepKind) -> (s: &'static str)
    ensures
        s@ == step_name(kind),
{
    match kind {
        StepKind::InsertEcoBuffers => "insert-eco-buffers",
        StepKind::InsertEcoDiodes => "insert-eco-diodes",
        StepKind::ManualGlobalPlacement => "manual-global-placement",
        StepKind::ManualMacroPlacement => "manual-macro-placement",
    }
}

/// Every step's command name dispatches to that very step, `info` to `info`, `-V` and
/// `--version` to the version, and the empty word, `-h` and `--help` to the help; the step
/// names are all different.
pub proof fn lemma_command_table(k: StepKind, k2: StepKind)
    ensures
        command_of(step_name(k)) == Ok::<Command, Seq<char>>(Command::Step(k)),
        k != k2 ==> step_name(k) != step_name(k2),
        command_of("info"@) == Ok::<Command, Seq<char>>(Command::Info),
        command_of("-V"@) == Ok::<Command, Seq<char>>(Command::Version),
        command_of("--version"@) == Ok::<Command, Seq<char>>(Command::Version),
        command_of(""@) == Ok::<Command, Seq<char>>(Command::Help),
        command_of("-h"@) == Ok::<Command, Seq<char>>(Command::Help),
        command_of("--help"@) == Ok::<Command, Seq<char>>(Command::Help),
{
    reveal_strlit("info");
    reveal_strlit("insert-eco-buffers");
    reveal_strlit("insert-eco-diodes");
    reveal_strlit("manual-global-placement");
    reveal_strlit("manual-macro-placement");
    reveal_strlit("-V");
    reveal_strlit("--version");
    reveal_strlit("");
    reveal_strlit("-h");
    reveal_strlit("--help");
    let names = seq![
        "info"@, "insert-eco-buffers"@, "insert-eco-diodes"@, "manual-global-placement"@,
        "manual-macro-placement"@, "-V"@, "--version"@, ""@, "-h"@, "--help"@,
    ];
    assert forall|a: int, b: int| 0 <= a < b < names.len() implies names[a] != names[b] by {
        let x = names[a];
        let y = names[b];
        if x.len() == y.len() {
            if x.len() > 0 && x[0] != y[0] {
                assert(x[0] != y[0]);
            } else if x.len() > 1 && x[1] != y[1] {
                assert(x[1] != y[1]);
            } else if x.len() > 10 && x[10] != y[10] {
                assert(x[10] != y[10]);
            } else if x.len() > 7 && x[7] != y[7] {
                assert(x[7] != y[7]);
            }
        }
    }
    assert(names[0] == "info"@);
    assert(names[1] == "insert-eco-buffers"@);
    assert(names[2] == "insert-eco-diodes"@);
    assert(names[3] == "manual-global-placement"@);
    assert(names[4] == "manual-macro-placement"@);
    assert(names[5] == "-V"@);
    assert(names[6] == "--version"@);
    assert(names[7] == ""@);
    assert(names[8] == "-h"@);
    assert(names[9] == "--help"@);
}

/// Which options a command takes besides `--input`/`-i` and `-h`/`--help`.
#[derive(Debug, Clone, Copy, PartialEq, Eq, Structural)]
pub struct OptionSet {
    /// `--output`/`-o` and `--config`/`-c`.
    pub output_and_config: bool,
    /// `--describe`.
    pub describe: bool,
}

/// Where reading the options ends: all read, with the values last given to `--input`,
/// `--output` and `--config` (`None` when not given, or when the option was the last argument);
/// or at `--describe`, at a help flag, or at an unknown argument.
pub enum OptionScan {
    Read { input: Option<Seq<char>>, output: Option<Seq<char>>, config: Option<Seq<char>> },
    Describe,
    Help,
    Unknown(Seq<char>),
}

/// The value after an option, or `None` when the option is the last argument.
pub open spec fn option_value(args: Seq<Seq<char>>) -> Option<Seq<char>> {
    if args.len() > 1 {
        Some(args[1])
    } else {
        None
    }
}

/// The arguments after an option and its value.
pub open spec fn after_value(args: Seq<Seq<char>>) -> Seq<Seq<char>> {
    if args.len() > 1 {
        args.skip(2)
    } else {
        Seq::empty()
    }
}

/// Reads `args` left to right from the values read so far.
pub open spec fn scan_options(
    opts: OptionSet,
    args: Seq<Seq<char>>,
    input: Option<Seq<char>>,
    output: Option<Seq<char>>,
    config: Option<Seq<char>>,
) -> OptionScan
    decreases args.len(),
{
    if args.len() == 0 {
        OptionScan::Read { input, output, config }
    } else {
        let a = args[0];
        if a == "--input"@ || a == "-i"@ {
            scan_options(opts, after_value(args), option_value(args), output, config)
        } else if opts.output_and_config && (a == "--output"@ || a == "-o"@) {
            scan_options(opts, after_value(args), input, option_value(args), config)
        } else if opts.output_and_config && (a == "--config"@ || a == "-c"@) {
            scan_options(opts, after_value(args), input, output, option_value(args))
        } else if opts.describe && a == "--describe"@ {
            OptionScan::Describe
        } else if a == "-h"@ || a == "--help"@ {
            OptionScan::Help
        } else {
            OptionScan::Unknown(a)
        }
    }
}

/// What each option does, for either spelling, wherever it stands: `--input`/`-i`,
/// `--output`/`-o` and `--config`/`-c` followed by a value set that value and reading goes on
/// after it; `--describe` (where the command takes it) and `-h`/`--help` end the reading with
/// that request. The long and the short spelling of an option are interchangeable.
pub proof fn lemma_option_meaning(
    opts: OptionSet,
    a: Seq<char>,
    v: Seq<char>,
    rest: Seq<Seq<char>>,
    input: Option<Seq<char>>,
    output: Option<Seq<char>>,
    config: Option<Seq<char>>,
)
    ensures
        (a == "--input"@ || a == "-i"@) ==> scan_options(opts, seq![a, v] + rest, input, output, config)
            == scan_options(opts, rest, Some(v), output, config),
        opts.output_and_config && (a == "--output"@ || a == "-o"@) ==> scan_options(
            opts,
            seq![a, v] + rest,
            input,
            output,
            config,
        ) == scan_options(opts, rest, input, Some(v), config),
        opts.output_and_config && (a == "--config"@ || a == "-c"@) ==> scan_options(
            opts,
            seq![a, v] + rest,
            input,
            output,
            config,
        ) == scan_options(opts, rest, input, output, Some(v)),
        opts.describe && a == "--describe"@ ==> scan_options(opts, seq![a] + rest, input, output, config)
            == OptionScan::Describe,
        (a == "-h"@ || a == "--help"@) ==> scan_options(opts, seq![a] + rest, input, output, config)
            == OptionScan::Help,
        (a == "--input"@ || a == "-i"@) ==> scan_options(opts, seq![a], input, output, config) == (
        OptionScan::Read { input: None, output, config }),
        opts.output_and_config && (a == "--output"@ || a == "-o"@) ==> scan_options(opts, seq![a], input, output, config) == (
        OptionScan::Read { input, output: None, config }),
        opts.output_and_config && (a == "--config"@ || a == "-c"@) ==> scan_options(opts, seq![a], input, output, config) == (
        OptionScan::Read { input, output, config: None }),
        !(a == "--input"@ || a == "-i"@ || a == "-h"@ || a == "--help"@) && !(opts.output_and_config && (a
            == "--output"@ || a == "-o"@ || a == "--config"@ || a == "-c"@)) && !(opts.describe && a
            == "--describe"@) ==> scan_options(opts, seq![a] + rest, input, output, config) == OptionScan::Unknown(
            a,
        ),
{
    reveal_strlit("--input");
    reveal_strlit("-i");
    reveal_strlit("--output");
    reveal_strlit("-o");
    reveal_strlit("--config");
    reveal_strlit("-c");
    reveal_strlit("--describe");
    reveal_strlit("-h");
    reveal_strlit("--help");
    assert("--output"@ != "--input"@ && "--config"@ != "--input"@ && "--config"@ != "--output"@) by {
        assert("--output"@[2] != "--input"@[2]);
        assert("--config"@[2] != "--input"@[2]);
        assert("--config"@[2] != "--output"@[2]);
    }
    assert("-o"@ != "-i"@ && "-c"@ != "-i"@ && "-c"@ != "-o"@) by {
        assert("-o"@[1] != "-i"@[1]);
        assert("-c"@[1] != "-i"@[1]);
        assert("-c"@[1] != "-o"@[1]);
    }
    assert("--output"@.len() != "-i"@.len() && "--config"@.len() != "-i"@.len() && "--config"@.len() != "-o"@.len());
    assert("-o"@.len() != "--input"@.len() && "-c"@.len() != "--input"@.len() && "-c"@.len() != "--output"@.len());
    assert("-h"@ != "-i"@ && "-h"@ != "-o"@ && "-h"@ != "-c"@) by {
        assert("-h"@[1] != "-i"@[1] && "-h"@[1] != "-o"@[1] && "-h"@[1] != "-c"@[1]);
    }
    assert("--help"@.len() != "--input"@.len() && "--help"@.len() != "--output"@.len()
        && "--help"@.len() != "--config"@.len() && "--help"@.len() != "--describe"@.len()
        && "-h"@.len() != "--describe"@.len());
    let args = seq![a, v] + rest;
    assert(args[0] == a);
    assert(args.len() > 1 && args[1] == v);
    assert(args.skip(2) =~= rest);
    assert((seq![a] + rest)[0] == a);
    assert(seq![a].len() == 1 && seq![a][0] == a);
    assert(after_value(seq![a]) =~= Seq::<Seq<char>>::empty());
    assert(option_value(seq![a]) == None::<Seq<char>>);
    let e = Seq::<Seq<char>>::empty();
    assert(scan_options(opts, e, None, output, config) == (OptionScan::Read { input: None, output, config }));
    assert(scan_options(opts, e, input, None, config) == (OptionScan::Read { input, output: None, config }));
    assert(scan_options(opts, e, input, output, None) == (OptionScan::Read { input, output, config: None }));
}

/// A step's options `--input i --output o --config c`, each in either spelling, ask to run on
/// `i`, writing `o`, with config `c`.
pub proof fn lemma_step_options_full(
    prefix: Seq<char>,
    hint: Seq<char>,
    fi: Seq<char>,
    i: Seq<char>,
    fo: Seq<char>,
    o: Seq<char>,
    fc: Seq<char>,
    c: Seq<char>,
)
    requires
        fi == "--input"@ || fi == "-i"@,
        fo == "--output"@ || fo == "-o"@,
        fc == "--config"@ || fc == "-c"@,
    ensures
        step_args_of(
            (OptionSet { output_and_config: true, describe: true }),
            prefix,
            hint,
            seq![fi, i, fo, o, fc, c],
        ) == (StepArgsView::Run { input: i, output: o, config: Some(c) }),
{
    let opts = OptionSet { output_and_config: true, describe: true };
    let e = Seq::<Seq<char>>::empty();
    let third = seq![fc, c];
    let second = seq![fo, o] + third;
    assert(seq![fi, i, fo, o, fc, c] =~= seq![fi, i] + second);
    assert(third =~= seq![fc, c] + e);
    lemma_option_meaning(opts, fi, i, second, None, None, None);
    lemma_option_meaning(opts, fo, o, third, Some(i), None, None);
    lemma_option_meaning(opts, fc, c, e, Some(i), Some(o), None);
}

/// What the options of a command ask for.
#[derive(Debug, PartialEq, Eq)]
pub enum StepArgs {
    /// Run on `input`, writing `output` (empty for a command without output), with the
    /// optional `config`.
    Run { input: String, output: String, config: Option<String> },
    /// Print the step's JSON contract.
    Describe,
    /// Print the command's usage.
    Help,
    /// The options are wrong; the message says how.
    Fail(String),
}

/// [`StepArgs`] as contracts see it.
pub enum StepArgsView {
    Run { input: Seq<char>, output: Seq<char>, config: Option<Seq<char>> },
    Describe,
    Help,
    Fail(Seq<char>),
}

impl View for StepArgs {
    type V = StepArgsView;

    open spec fn view(&self) -> StepArgsView {
        match self {
            StepArgs::Run { input, output, config } => StepArgsView::Run {
                input: input@,
                output: output@,
                config: match config {
                    Some(c) => Some(c@),
                    None => None,
                },
            },
            StepArgs::Describe => StepArgsView::Describe,
            StepArgs::Help => StepArgsView::Help,
            StepArgs::Fail(m) => StepArgsView::Fail(m@),
        }
    }
}

/// The outcome of the options `args` of a command whose messages start with `prefix`: an
/// unknown argument fails with `{prefix}unknown argument: {arg}`; a missing input with
/// `{prefix}{input_hint} required`, then a missing output (for a command that writes one) with
/// `{prefix}--output <out.odb> required`.
pub open spec fn step_args_of(
    opts: OptionSet,
    prefix: Seq<char>,
    input_hint: Seq<char>,
    args: Seq<Seq<char>>,
) -> StepArgsView {
    match scan_options(opts, args, None, None, None) {
        OptionScan::Describe => StepArgsView::Describe,
        OptionScan::Help => StepArgsView::Help,
        OptionScan::Unknown(a) => StepArgsView::Fail(prefix + "unknown argument: "@ + a),
        OptionScan::Read { input, output, config } => match input {
            None => StepArgsView::Fail(prefix + input_hint + " required"@),
            Some(i) => if !opts.output_and_config {
                StepArgsView::Run { input: i, output: Seq::empty(), config: None }
            } else {
                match output {
                    None => StepArgsView::Fail(prefix + "--output <out.odb> required"@),
                    Some(o) => StepArgsView::Run { input: i, output: o, config },
                }
            },
        },
    }
}

fn clone_opt(o: &Option<String>) -> (r: Option<String>)
    ensures
        match (r, o) {
            (Some(a), Some(b)) => a@ == b@,
            (None, None) => true,
            _ => false,
        },
{
    match o {
        Some(s) => Some(s.clone()),
        None => None,
    }
}

/// Reads the options `args` of a command (see [`step_args_of`]).
pub fn parse_options(opts: OptionSet, prefix: &str, input_hint: &str, args: &[String]) -> (r: StepArgs)
    ensures
        r@ == step_args_of(opts, prefix@, input_hint@, crate::text::texts(args@)),
{
    let ghost all = crate::text::texts(args@);
    let n = args.len();
    let mut i: usize = 0;
    let mut input: Option<String> = None;
    let mut output: Option<String> = None;
    let mut config: Option<String> = None;
    assert(all.skip(0) =~= all);
    while i < n
        invariant
            n == args@.len(),
            all == crate::text::texts(args@),
            i <= n,
            scan_options(opts, all, None, None, None) == scan_options(
                opts,
                all.skip(i as int),
                match input { Some(s) => Some(s@), None => None },
                match output { Some(s) => Some(s@), None => None },
                match config { Some(s) => Some(s@), None => None },
            ),
        decreases n - i,
    {
        let a = args[i].as_str();
        let ghost rest = all.skip(i as int);
        assert(rest[0] == a@);
        let value = if i + 1 < n {
            Some(args[i + 1].clone())
        } else {
            None
        };
        assert(i + 1 < n ==> rest[1] == args@[i + 1]@);
        let next = if i + 1 < n {
            i + 2
        } else {
            n
        };
        assert(after_value(rest) =~= all.skip(next as int));
        if is_text(a, "--input") || is_text(a, "-i") {
            input = value;
        } else if opts.output_and_config && (is_text(a, "--output") || is_text(a, "-o")) {
            output = value;
        } else if opts.output_and_config && (is_text(a, "--config") || is_text(a, "-c")) {
            config = value;
        } else if opts.describe && is_text(a, "--describe") {
            return StepArgs::Describe;
        } else if is_text(a, "-h") || is_text(a, "--help") {
            return StepArgs::Help;
        } else {
            let mut m = join_text(prefix, "unknown argument: ");
            m.append(a);
            return StepArgs::Fail(m);
        }
        i = next;
    }
    assert(all.skip(n as int).len() == 0);
    match input {
        None => {
            let mut m = join_text(prefix, input_hint);
            m.append(" required");
            StepArgs::Fail(m)
        },
        Some(inp) => {
            if !opts.output_and_config {
                StepArgs::Run { input: inp, output: String::new(), config: None }
            } else {
                match output {
                    None => StepArgs::Fail(join_text(prefix, "--output <out.odb> required")),
                    Some(out) => StepArgs::Run { input: inp, output: out, config: clone_opt(&config) },
                }
            }
        },
    }
}

/// Reads the options of `info`: `--input`/`-i <f.odb>` (required) and `-h`/`--help`; messages
/// start with `info: `.
pub fn parse_info_args(args: &[String]) -> (r: StepArgs)
    ensures
        r@ == step_args_of(
            OptionSet { output_and_config: false, describe: false },
            "info: "@,
            "--input <f.odb>"@,
            crate::text::texts(args@),
        ),
{
    parse_options(OptionSet { output_and_config: false, describe: false }, "info: ", "--input <f.odb>", args)
}

/// Reads the options of a step of the multi-tool: `--input`/`-i`, `--output`/`-o`,
/// `--config`/`-c`, `--describe` and `-h`/`--help`; messages start with `{step}: `.
pub fn parse_step_args(kind: StepKind, args: &[String]) -> (r: StepArgs)
    ensures
        r@ == step_args_of(
            OptionSet { output_and_config: true, describe: true },
            step_name(kind) + ": "@,
            "--input <in.odb>"@,
            crate::text::texts(args@),
        ),
{
    let prefix = join_text(step_command_name(kind), ": ");
    parse_options(OptionSet { output_and_config: true, describe: true }, prefix.as_str(), "--input <in.odb>", args)
}

/// Reads the options of the standalone `insert-eco-buffers` tool: as a step of the multi-tool
/// but without `--describe`, and with messages that carry no prefix.
pub fn parse_standalone_args(args: &[String]) -> (r: StepArgs)
    ensures
        r@ == step_args_of(
            OptionSet { output_and_config: true, describe: false },
            ""@,
            "--input <in.odb>"@,
            crate::text::texts(args@),
        ),
{
    parse_options(OptionSet { output_and_config: true, describe: false }, "", "--input <in.odb>", args)
}

/// The one-line summary `info` prints: `{input}: block={block} insts={insts} nets={nets}
/// bterms={bterms}`.
pub open spec fn info_line(input: Seq<char>, block: Seq<char>, insts: nat, nets: nat, bterms: nat) -> Seq<char> {
    input + ": block="@ + block + " insts="@ + decimal(insts) + " nets="@ + decimal(nets) + " bterms="@
        + decimal(bterms)
}

/// The one-line summary of a design, as `info` prints it.
pub fn info_summary(input: &str, block: &str, insts: usize, nets: usize, bterms: usize) -> (line: String)
    ensures
        line@ == info_line(input@, block@, insts as nat, nets as nat, bterms as nat),
{
    let mut line = join_text(input, ": block=");
    line.append(block);
    line.append(" insts=");
    push_decimal(&mut line, insts);
    line.append(" nets=");
    push_decimal(&mut line, nets);
    line.append(" bterms=");
    push_decimal(&mut line, bterms);
    line
}

/// What a step reports it did to `n` objects: `inserted {n} buffer(s)`, `inserted {n}
/// diode(s)`, `placed {n} instance(s)` or `placed {n} macro(s)`.
pub open spec fn step_outcome(kind: StepKind, n: nat) -> Seq<char> {
    match kind {
        StepKind::InsertEcoBuffers => "inserted "@ + decimal(n) + " buffer(s)"@,
        StepKind::InsertEcoDiodes => "inserted "@ + decimal(n) + " diode(s)"@,
        StepKind::ManualGlobalPlacement => "placed "@ + decimal(n) + " instance(s)"@,
        StepKind::ManualMacroPlacement => "placed "@ + decimal(n) + " macro(s)"@,
    }
}

/// The line a step prints when it is done: `{step}: {outcome}, {input} -> {output}`.
pub open spec fn step_done_line(kind: StepKind, n: nat, input: Seq<char>, output: Seq<char>) -> Seq<char> {
    step_name(kind) + ": "@ + step_outcome(kind, n) + ", "@ + input + " -> "@ + output
}

/// The line a step prints when it is done (the standalone `insert-eco-buffers` tool prints the
/// line of the `insert-eco-buffers` step).
pub fn step_summary(kind: StepKind, n: usize, input: &str, output: &str) -> (line: String)
    ensures
        line@ == step_done_line(kind, n as nat, input@, output@),
{
    let mut line = join_text(step_command_name(kind), ": ");
    let (verb, noun) = match kind {
        StepKind::InsertEcoBuffers => ("inserted ", " buffer(s)"),
        StepKind::InsertEcoDiodes => ("inserted ", " diode(s)"),
        StepKind::ManualGlobalPlacement => ("placed ", " instance(s)"),
        StepKind::ManualMacroPlacement => ("placed ", " macro(s)"),
    };
    line.append(verb);
    push_decimal(&mut line, n);
    line.append(noun);
    line.append(", ");
    line.append(input);
    line.append(" -> ");
    line.append(output);
    line
}

} // verus!
