use vyges_opendb::cli::{
    info_summary, step_summary, parse_command, parse_info_args, parse_standalone_args, parse_step_args, Command, StepArgs, StepKind,
};
use vyges_opendb::error::path_str;
use vyges_opendb::report::{
    cell_frequency_table, disconnected_pins, verilog_header, CellFreq, InstPins, PinNet, PortDir,
};
use vyges_opendb::text::{join_text, is_text, lex_less, push_decimal, split_once_slash};
use vyges_opendb::Error;

fn strings(v: &[&str]) -> Vec<String> {
    v.iter().map(|s| s.to_string()).collect()
}

#[test]
fn error_messages() {
    assert_eq!(Error::Odb("boom".into()).message(), "boom");
    assert_eq!(Error::NonUtf8Path.message(), "path is not valid UTF-8");
}

#[test]
fn path_str_accepts_utf8_only() {
    assert_eq!(path_str(b"tests/fixtures/counter.odb"), Ok("tests/fixtures/counter.odb".to_string()));
    assert_eq!(path_str("d\u{e9}sign.odb".as_bytes()), Ok("d\u{e9}sign.odb".to_string()));
    assert_eq!(path_str(&[0x66, 0xff, 0x6f]), Err(Error::NonUtf8Path));
    assert_eq!(path_str(&[0xed, 0xa0, 0x80]), Err(Error::NonUtf8Path));
}

#[test]
fn text_helpers() {
    assert_eq!(split_once_slash("inst/pin"), Some(("inst".to_string(), "pin".to_string())));
    assert_eq!(split_once_slash("a/b/c"), Some(("a".to_string(), "b/c".to_string())));
    assert_eq!(split_once_slash("/x"), Some((String::new(), "x".to_string())));
    assert_eq!(split_once_slash("nopin"), None);
    let mut s = String::from("n");
    push_decimal(&mut s, 0);
    push_decimal(&mut s, 907);
    assert_eq!(s, "n0907");
    assert!(lex_less("abc", "abd"));
    assert!(lex_less("ab", "abc"));
    assert!(!lex_less("abc", "abc"));
    assert!(!lex_less("b", "abc"));
    assert_eq!(join_text("x", "_net"), "x_net");
    assert!(is_text("INPUT", "INPUT") && !is_text("INPUT", "input"));
}

#[test]
fn cell_frequency_table_most_used_first_ties_by_name() {
    let masters = strings(&["inv", "buf", "and2", "buf", "", "inv", "buf", "and2"]);
    let table = cell_frequency_table(&masters);
    let row = |m: &str, c: usize| CellFreq { master: m.to_string(), count: c };
    assert_eq!(table, vec![row("buf", 3), row("and2", 2), row("inv", 2)]);
    // the named instances are all counted
    let total: usize = table.iter().map(|r| r.count).sum();
    assert_eq!(total, 7);
    for w in table.windows(2) {
        assert!(w[0].count >= w[1].count);
    }
    assert!(cell_frequency_table(&strings(&["", ""])).is_empty());
}

#[test]
fn disconnected_pins_lists_pins_then_ports() {
    let pn = |p: &str, n: &str| PinNet { pin: p.to_string(), net: n.to_string() };
    let insts = vec![
        InstPins { inst: "u1".into(), pins: vec![pn("A", "n1"), pn("B", ""), pn("X", "")] },
        InstPins { inst: "u2".into(), pins: vec![pn("A", "n2")] },
    ];
    let ports = vec![pn("clk", "clk"), pn("spare", "")];
    assert_eq!(disconnected_pins(&insts, &ports), strings(&["u1/B", "u1/X", "port:spare"]));
    assert!(disconnected_pins(&[], &[]).is_empty());
}

#[test]
fn verilog_header_text() {
    let pd = |n: &str, d: &str| PortDir { name: n.to_string(), direction: d.to_string() };
    let v = verilog_header("counter", &[pd("clk", "INPUT"), pd("q", "OUTPUT"), pd("io", "INOUT")]);
    assert_eq!(
        v,
        "module counter (\n  clk,\n  q,\n  io\n);\n  input clk;\n  output q;\n  inout io;\nendmodule\n"
    );
    assert_eq!(verilog_header("empty", &[]), "module empty (\n);\nendmodule\n");
}

#[test]
fn command_dispatch() {
    assert_eq!(parse_command("info"), Ok(Command::Info));
    assert_eq!(parse_command("insert-eco-diodes"), Ok(Command::Step(StepKind::InsertEcoDiodes)));
    assert_eq!(parse_command("manual-macro-placement"), Ok(Command::Step(StepKind::ManualMacroPlacement)));
    assert_eq!(parse_command("-V"), Ok(Command::Version));
    assert_eq!(parse_command(""), Ok(Command::Help));
    assert_eq!(parse_command("--help"), Ok(Command::Help));
    assert_eq!(
        parse_command("frob"),
        Err("unknown command 'frob'. Try 'vyges-opendb --help'.".to_string())
    );
}

#[test]
fn step_options() {
    let k = StepKind::InsertEcoBuffers;
    assert_eq!(
        parse_step_args(k, &strings(&["-i", "a.odb", "--output", "b.odb", "-c", "eco.json"])),
        StepArgs::Run { input: "a.odb".into(), output: "b.odb".into(), config: Some("eco.json".into()) }
    );
    // the last value given wins
    assert_eq!(
        parse_step_args(k, &strings(&["-i", "a", "-i", "c", "-o", "b"])),
        StepArgs::Run { input: "c".into(), output: "b".into(), config: None }
    );
    assert_eq!(parse_step_args(k, &strings(&["-i", "a", "--describe", "--bogus"])), StepArgs::Describe);
    assert_eq!(parse_step_args(k, &strings(&["-h"])), StepArgs::Help);
    assert_eq!(
        parse_step_args(k, &strings(&["--bogus"])),
        StepArgs::Fail("insert-eco-buffers: unknown argument: --bogus".into())
    );
    assert_eq!(
        parse_step_args(StepKind::ManualGlobalPlacement, &strings(&["-o", "b"])),
        StepArgs::Fail("manual-global-placement: --input <in.odb> required".into())
    );
    assert_eq!(
        parse_step_args(k, &strings(&["-o", "b", "-i"])),
        StepArgs::Fail("insert-eco-buffers: --input <in.odb> required".into())
    );
    assert_eq!(
        parse_step_args(k, &strings(&["-i", "a"])),
        StepArgs::Fail("insert-eco-buffers: --output <out.odb> required".into())
    );
}

#[test]
fn info_and_standalone_options() {
    assert_eq!(
        parse_info_args(&strings(&["--input", "f.odb"])),
        StepArgs::Run { input: "f.odb".into(), output: String::new(), config: None }
    );
    assert_eq!(parse_info_args(&strings(&[])), StepArgs::Fail("info: --input <f.odb> required".into()));
    assert_eq!(parse_info_args(&strings(&["-o", "x"])), StepArgs::Fail("info: unknown argument: -o".into()));
    assert_eq!(
        parse_standalone_args(&strings(&["--describe"])),
        StepArgs::Fail("unknown argument: --describe".into())
    );
    assert_eq!(parse_standalone_args(&strings(&["-i", "a"])), StepArgs::Fail("--output <out.odb> required".into()));
}

#[test]
fn cell_frequency_table_counts_all_masters() {
    // every instance has a master
    let masters = strings(&["nand2", "inv", "dff", "inv", "nand2", "inv", "buf"]);
    let table = cell_frequency_table(&masters);
    assert!(!table.is_empty());
    // so the counts sum to the instance count
    let total: usize = table.iter().map(|r| r.count).sum();
    assert_eq!(total, masters.len());
    // most-used first
    for w in table.windows(2) {
        assert!(w[0].count >= w[1].count);
    }
}

#[test]
fn disconnected_pins_all_actually_lack_a_net() {
    let pn = |p: &str, n: &str| PinNet { pin: p.to_string(), net: n.to_string() };
    let insts = vec![
        InstPins { inst: "u1".into(), pins: vec![pn("A", "n1"), pn("B", ""), pn("X", "n3")] },
        InstPins { inst: "u2".into(), pins: vec![pn("A", ""), pn("Y", "n1")] },
    ];
    let ports = vec![pn("clk", ""), pn("rst", "rst")];
    let net_of = |inst: &str, pin: &str| -> String {
        insts
            .iter()
            .find(|i| i.inst == inst)
            .and_then(|i| i.pins.iter().find(|p| p.pin == pin))
            .map(|p| p.net.clone())
            .unwrap_or_default()
    };
    for entry in disconnected_pins(&insts, &ports) {
        // each reported instance pin must genuinely carry no net
        if let Some((inst, pin)) = entry.split_once('/') {
            assert!(net_of(inst, pin).is_empty(), "{entry} was reported but has a net");
        }
    }
}

#[test]
fn tool_summary_lines() {
    assert_eq!(info_summary("f.odb", "counter", 229, 52, 7), "f.odb: block=counter insts=229 nets=52 bterms=7");
    assert_eq!(
        step_summary(StepKind::InsertEcoBuffers, 2, "in.odb", "out.odb"),
        "insert-eco-buffers: inserted 2 buffer(s), in.odb -> out.odb"
    );
    assert_eq!(
        step_summary(StepKind::InsertEcoDiodes, 0, "a", "b"),
        "insert-eco-diodes: inserted 0 diode(s), a -> b"
    );
    assert_eq!(
        step_summary(StepKind::ManualGlobalPlacement, 10, "a", "b"),
        "manual-global-placement: placed 10 instance(s), a -> b"
    );
    assert_eq!(
        step_summary(StepKind::ManualMacroPlacement, 1, "a", "b"),
        "manual-macro-placement: placed 1 macro(s), a -> b"
    );
}
