// Drives the step machines against a small in-memory netlist that answers each operation the
// way the design database does: names are looked up, unknown objects are errors, and a
// missing net or pin reads as the empty string.
use vyges_opendb::eco::{insert_eco_buffers, insert_eco_diodes, EcoBuffer, EcoDiode, EcoRun};
use vyges_opendb::insertion::{insert_buffer, insert_diode, CellInsertion};
use vyges_opendb::ops::{DbOp, Reply, Step};
use vyges_opendb::placement::{
    manual_global_placement, manual_macro_placement, GlobalPlacement, MacroPlacement, PlacementRun,
};
use vyges_opendb::Error;

struct Pin {
    name: String,
    input: bool,
    net: String,
}

struct Inst {
    name: String,
    x: i32,
    y: i32,
    orient: String,
    pins: Vec<Pin>,
}

struct Netlist {
    masters: Vec<(String, Vec<(String, bool)>)>,
    insts: Vec<Inst>,
    nets: Vec<String>,
    log: Vec<DbOp>,
}

fn err(m: &str) -> Reply {
    Reply::Status(Err(Error::Odb(m.to_string())))
}

impl Netlist {
    fn fixture() -> Netlist {
        let masters = vec![
            ("sky130_buf_2".to_string(), vec![("A".to_string(), true), ("X".to_string(), false)]),
            ("sky130_diode_2".to_string(), vec![("DIODE".to_string(), true)]),
            ("sky130_tap".to_string(), vec![]),
            ("sky130_and2".to_string(), vec![
                ("A".to_string(), true),
                ("B".to_string(), true),
                ("X".to_string(), false),
            ]),
        ];
        let mut n = Netlist { masters, insts: vec![], nets: vec!["n1".into(), "n2".into()], log: vec![] };
        n.add_inst("sky130_and2", "u1");
        n.add_inst("sky130_and2", "u2");
        n.inst_mut("u1").unwrap().x = 100;
        n.inst_mut("u1").unwrap().y = 200;
        n.pin_mut("u1", "A").unwrap().net = "n1".into();
        n.pin_mut("u1", "X").unwrap().net = "n2".into();
        n.pin_mut("u2", "A").unwrap().net = "n2".into();
        n
    }

    fn add_inst(&mut self, master: &str, name: &str) -> bool {
        let m = match self.masters.iter().find(|m| m.0 == master) {
            Some(m) => m,
            None => return false,
        };
        let pins = m.1.iter().map(|(p, i)| Pin { name: p.clone(), input: *i, net: String::new() }).collect();
        self.insts.push(Inst { name: name.into(), x: 0, y: 0, orient: "R0".into(), pins });
        true
    }

    fn inst(&self, name: &str) -> Option<&Inst> {
        self.insts.iter().find(|i| i.name == name)
    }

    fn inst_mut(&mut self, name: &str) -> Option<&mut Inst> {
        self.insts.iter_mut().find(|i| i.name == name)
    }

    fn pin_mut(&mut self, inst: &str, pin: &str) -> Option<&mut Pin> {
        self.inst_mut(inst)?.pins.iter_mut().find(|p| p.name == pin)
    }

    fn net_of(&self, inst: &str, pin: &str) -> String {
        self.inst(inst)
            .and_then(|i| i.pins.iter().find(|p| p.name == pin))
            .map(|p| p.net.clone())
            .unwrap_or_default()
    }

    fn perform(&mut self, op: &DbOp) -> Reply {
        self.log.push(op.clone());
        match op {
            DbOp::NetOf { inst, pin } => Reply::Name(self.net_of(inst, pin)),
            DbOp::InputPin { inst } => Reply::Name(
                self.inst(inst)
                    .and_then(|i| i.pins.iter().find(|p| p.input))
                    .map(|p| p.name.clone())
                    .unwrap_or_default(),
            ),
            DbOp::OutputPin { inst } => Reply::Name(
                self.inst(inst)
                    .and_then(|i| i.pins.iter().find(|p| !p.input))
                    .map(|p| p.name.clone())
                    .unwrap_or_default(),
            ),
            DbOp::InstLocation { inst } => {
                let (x, y) = self.inst(inst).map(|i| (i.x, i.y)).unwrap_or((0, 0));
                Reply::Location(x, y)
            }
            DbOp::CreateNet { name } => {
                if self.nets.contains(name) {
                    return err("net exists");
                }
                self.nets.push(name.clone());
                Reply::Status(Ok(()))
            }
            DbOp::CreateInst { master, name } => {
                if self.inst(name).is_some() || !self.add_inst(master, name) {
                    return err(&format!("cannot create {name} of {master}"));
                }
                Reply::Status(Ok(()))
            }
            DbOp::SetInstLocation { inst, x, y } => match self.inst_mut(inst) {
                Some(i) => {
                    i.x = *x;
                    i.y = *y;
                    Reply::Status(Ok(()))
                }
                None => err("no such instance"),
            },
            DbOp::SetInstOrient { inst, orient } => match self.inst_mut(inst) {
                Some(i) => {
                    i.orient = orient.clone();
                    Reply::Status(Ok(()))
                }
                None => err("no such instance"),
            },
            DbOp::Connect { inst, pin, net } => {
                if !self.nets.contains(net) {
                    return err("no such net");
                }
                match self.pin_mut(inst, pin) {
                    Some(p) => {
                        p.net = net.clone();
                        Reply::Status(Ok(()))
                    }
                    None => err("no such pin"),
                }
            }
            DbOp::Disconnect { inst, pin } => match self.pin_mut(inst, pin) {
                Some(p) => {
                    p.net = String::new();
                    Reply::Status(Ok(()))
                }
                None => err("no such pin"),
            },
        }
    }
}

fn run_insertion(db: &mut Netlist, start: (CellInsertion, DbOp)) -> Result<(), Error> {
    let (mut m, mut op) = start;
    loop {
        let reply = db.perform(&op);
        assert!(m.accepts(&reply));
        match m.resume(reply) {
            Step::Perform(next) => op = next,
            Step::Finish(r) => return r,
        }
    }
}

fn run_eco(db: &mut Netlist, start: (EcoRun, Step<usize>)) -> Result<usize, Error> {
    let (mut m, mut step) = start;
    loop {
        match step {
            Step::Perform(op) => {
                let reply = db.perform(&op);
                assert!(m.accepts(&reply));
                step = m.resume(reply);
            }
            Step::Finish(r) => return r,
        }
    }
}

fn run_placement(db: &mut Netlist, start: (PlacementRun, Step<usize>)) -> Result<usize, Error> {
    let (mut m, mut step) = start;
    loop {
        match step {
            Step::Perform(op) => {
                let reply = db.perform(&op);
                assert!(m.accepts(&reply));
                step = m.resume(reply);
            }
            Step::Finish(r) => return r,
        }
    }
}

#[test]
fn insert_buffer_end_to_end() {
    let mut db = Netlist::fixture();
    let (n0, m0) = (db.insts.len(), db.nets.len());
    run_insertion(&mut db, insert_buffer("u2", "A", "sky130_buf_2", "vyges_buf0", 10_000, 10_000))
        .expect("insert_buffer");
    // one new inst + one new net
    assert_eq!(db.insts.len(), n0 + 1);
    assert_eq!(db.nets.len(), m0 + 1);
    // target pin moved to the new net; buffer input picked up the original driver
    assert_eq!(db.net_of("u2", "A"), "vyges_buf0_net");
    assert_eq!(db.net_of("vyges_buf0", "A"), "n2");
    assert_eq!(db.net_of("vyges_buf0", "X"), "vyges_buf0_net");
    let b = db.inst("vyges_buf0").unwrap();
    assert_eq!((b.x, b.y), (10_000, 10_000));
    // every other pin keeps its net and every other instance its place
    assert_eq!(db.net_of("u1", "A"), "n1");
    assert_eq!(db.net_of("u1", "X"), "n2");
    assert_eq!(db.net_of("u1", "B"), "");
    let u1 = db.inst("u1").unwrap();
    assert_eq!((u1.x, u1.y), (100, 200));
}

#[test]
fn buffer_insertion_issues_the_documented_operations() {
    let mut db = Netlist::fixture();
    run_insertion(&mut db, insert_buffer("u2", "A", "sky130_buf_2", "b", 1, 2)).unwrap();
    let s = |x: &str| x.to_string();
    assert_eq!(db.log, vec![
        DbOp::NetOf { inst: s("u2"), pin: s("A") },
        DbOp::CreateNet { name: s("b_net") },
        DbOp::CreateInst { master: s("sky130_buf_2"), name: s("b") },
        DbOp::SetInstLocation { inst: s("b"), x: 1, y: 2 },
        DbOp::InputPin { inst: s("b") },
        DbOp::OutputPin { inst: s("b") },
        DbOp::Connect { inst: s("b"), pin: s("A"), net: s("n2") },
        DbOp::Connect { inst: s("b"), pin: s("X"), net: s("b_net") },
        DbOp::Disconnect { inst: s("u2"), pin: s("A") },
        DbOp::Connect { inst: s("u2"), pin: s("A"), net: s("b_net") },
    ]);
}

#[test]
fn buffer_on_unconnected_pin_edits_nothing() {
    let mut db = Netlist::fixture();
    let r = run_insertion(&mut db, insert_buffer("no_inst", "A", "no_master", "b", 0, 0));
    assert_eq!(r, Err(Error::Odb("no net on no_inst/A".to_string())));
    assert_eq!(db.log.len(), 1);
    assert_eq!(db.insts.len(), 2);
}

#[test]
fn buffer_with_unknown_master_reports_the_database_error() {
    let mut db = Netlist::fixture();
    let r = run_insertion(&mut db, insert_buffer("u2", "A", "no_master", "b", 0, 0));
    assert_eq!(r, Err(Error::Odb("cannot create b of no_master".to_string())));
    // the net was created before the failing edit, and nothing happened after it
    assert!(db.nets.contains(&"b_net".to_string()));
    assert_eq!(db.log.len(), 3);
    assert_eq!(db.net_of("u2", "A"), "n2");
}

#[test]
fn buffer_cell_without_output_pin_is_refused() {
    let mut db = Netlist::fixture();
    let r = run_insertion(&mut db, insert_buffer("u2", "A", "sky130_diode_2", "b", 0, 0));
    assert_eq!(r, Err(Error::Odb("sky130_diode_2 lacks an input or output pin".to_string())));
    assert_eq!(db.net_of("u2", "A"), "n2");
}

#[test]
fn diode_is_tied_onto_the_existing_net() {
    let mut db = Netlist::fixture();
    let (n0, m0) = (db.insts.len(), db.nets.len());
    run_insertion(&mut db, insert_diode("u2", "A", "sky130_diode_2", "d0", 5, 6)).unwrap();
    // one new inst, and no new net
    assert_eq!(db.insts.len(), n0 + 1);
    assert_eq!(db.nets.len(), m0);
    // target net unchanged; the diode joined it
    assert_eq!(db.net_of("u2", "A"), "n2");
    assert_eq!(db.net_of("d0", "DIODE"), "n2");
}

#[test]
fn diode_cell_without_input_pin_is_refused() {
    let mut db = Netlist::fixture();
    let r = run_insertion(&mut db, insert_diode("u2", "A", "sky130_tap", "d0", 0, 0));
    assert_eq!(r, Err(Error::Odb("sky130_tap lacks an input pin".to_string())));
    let r = run_insertion(&mut db, insert_diode("no_inst", "A", "no_master", "d", 0, 0));
    assert_eq!(r, Err(Error::Odb("no net on no_inst/A".to_string())));
}

#[test]
fn eco_buffers_step_names_and_places_each_buffer() {
    let mut db = Netlist::fixture();
    let (n0, m0) = (db.insts.len(), db.nets.len());
    let specs = vec![
        EcoBuffer { target: "u2/A".to_string(), buffer: "sky130_buf_2".to_string() },
        EcoBuffer { target: "u1/A".to_string(), buffer: "sky130_buf_2".to_string() },
    ];
    let n = run_eco(&mut db, insert_eco_buffers(&specs)).expect("insert_eco_buffers");
    assert_eq!(n, 2);
    assert_eq!(db.insts.len(), n0 + 2);
    assert_eq!(db.nets.len(), m0 + 2);
    assert_eq!(db.net_of("u2", "A"), "eco_buffer_0_net");
    assert_eq!(db.net_of("u1", "A"), "eco_buffer_1_net");
    // each buffer sits at its target instance's origin
    let b1 = db.inst("eco_buffer_1").unwrap();
    assert_eq!((b1.x, b1.y), (100, 200));
}

#[test]
fn eco_step_names_past_nine_in_decimal() {
    let mut db = Netlist::fixture();
    let specs: Vec<EcoDiode> = (0..12)
        .map(|_| EcoDiode { target: "u2/A".to_string(), diode: "sky130_diode_2".to_string() })
        .collect();
    assert_eq!(run_eco(&mut db, insert_eco_diodes(&specs)), Ok(12));
    assert_eq!(db.net_of("eco_diode_11", "DIODE"), "n2");
    assert_eq!(db.net_of("eco_diode_10", "DIODE"), "n2");
}

#[test]
fn insert_eco_diodes_step() {
    let mut db = Netlist::fixture();
    let (n0, m0) = (db.insts.len(), db.nets.len());
    let specs = vec![EcoDiode { target: "u2/A".to_string(), diode: "sky130_diode_2".to_string() }];
    let n = run_eco(&mut db, insert_eco_diodes(&specs)).unwrap();
    assert_eq!(n, 1);
    assert_eq!(db.insts.len(), n0 + 1);
    assert_eq!(db.nets.len(), m0);
    assert_eq!(db.net_of("u2", "A"), "n2");
    assert_eq!(db.net_of("eco_diode_0", "DIODE"), "n2");
}

#[test]
fn eco_step_rejects_bad_target_after_applying_earlier_entries() {
    let mut db = Netlist::fixture();
    let specs = vec![
        EcoBuffer { target: "u2/A".to_string(), buffer: "sky130_buf_2".to_string() },
        EcoBuffer { target: "u1".to_string(), buffer: "sky130_buf_2".to_string() },
    ];
    let r = run_eco(&mut db, insert_eco_buffers(&specs));
    assert_eq!(r, Err(Error::Odb("bad target 'u1' (expected inst/pin)".to_string())));
    assert_eq!(db.net_of("u2", "A"), "eco_buffer_0_net");
}

#[test]
fn eco_step_splits_target_at_first_slash() {
    let mut db = Netlist::fixture();
    let specs = vec![EcoBuffer { target: "u2/A/B".to_string(), buffer: "sky130_buf_2".to_string() }];
    let r = run_eco(&mut db, insert_eco_buffers(&specs));
    assert_eq!(r, Err(Error::Odb("no net on u2/A/B".to_string())));
    assert_eq!(db.log[0], DbOp::InstLocation { inst: "u2".to_string() });
    assert_eq!(db.log[1], DbOp::NetOf { inst: "u2".to_string(), pin: "A/B".to_string() });
}

#[test]
fn eco_step_without_entries_does_nothing() {
    let mut db = Netlist::fixture();
    assert_eq!(run_eco(&mut db, insert_eco_buffers(&[])), Ok(0));
    assert!(db.log.is_empty());
}

#[test]
fn global_and_macro_placement_move_instances() {
    let mut db = Netlist::fixture();
    let n = run_placement(
        &mut db,
        manual_global_placement(&[GlobalPlacement { instance: "u1".into(), x: 12_345, y: 67_890 }]),
    )
    .unwrap();
    assert_eq!(n, 1);
    let u1 = db.inst("u1").unwrap();
    assert_eq!((u1.x, u1.y), (12_345, 67_890));

    let n = run_placement(
        &mut db,
        manual_macro_placement(&[
            MacroPlacement { instance: "u1".into(), x: 1_000, y: 2_000, orient: Some("MX".into()) },
            MacroPlacement { instance: "u2".into(), x: 3, y: 4, orient: None },
        ]),
    )
    .unwrap();
    assert_eq!(n, 2);
    let u1 = db.inst("u1").unwrap();
    assert_eq!((u1.x, u1.y, u1.orient.as_str()), (1_000, 2_000, "MX"));
    let u2 = db.inst("u2").unwrap();
    assert_eq!((u2.x, u2.y, u2.orient.as_str()), (3, 4, "R0"));
}

#[test]
fn placement_of_unknown_instance_fails() {
    let mut db = Netlist::fixture();
    let r = run_placement(
        &mut db,
        manual_global_placement(&[
            GlobalPlacement { instance: "u1".into(), x: 1, y: 1 },
            GlobalPlacement { instance: "nope".into(), x: 1, y: 1 },
            GlobalPlacement { instance: "u2".into(), x: 1, y: 1 },
        ]),
    );
    assert_eq!(r, Err(Error::Odb("no such instance".to_string())));
    assert_eq!(db.log.len(), 2);
}

#[test]
fn machines_take_only_the_answer_they_wait_for() {
    let (mut m, op) = insert_buffer("u2", "A", "sky130_buf_2", "b", 0, 0);
    assert_eq!(op, DbOp::NetOf { inst: "u2".into(), pin: "A".into() });
    assert!(m.accepts(&Reply::Name("n2".into())));
    assert!(!m.accepts(&Reply::Status(Ok(()))));
    assert!(!m.accepts(&Reply::Location(0, 0)));
    // no net on the pin: the insertion ends at once and takes nothing more
    assert_eq!(m.resume(Reply::Name(String::new())), Step::Finish(Err(Error::Odb("no net on u2/A".into()))));
    assert!(!m.accepts(&Reply::Name("n2".into())));

    let (mut run, step) = insert_eco_buffers(&[EcoBuffer { target: "u2/A".into(), buffer: "buf".into() }]);
    assert_eq!(step, Step::Perform(DbOp::InstLocation { inst: "u2".into() }));
    assert!(run.accepts(&Reply::Location(7, 8)));
    assert!(!run.accepts(&Reply::Name("x".into())));
    assert_eq!(run.resume(Reply::Location(7, 8)), Step::Perform(DbOp::NetOf { inst: "u2".into(), pin: "A".into() }));
    assert_eq!(run.resume(Reply::Name("n2".into())), Step::Perform(DbOp::CreateNet { name: "eco_buffer_0_net".into() }));
    let failure = Error::Odb("refused".into());
    assert_eq!(run.resume(Reply::Status(Err(failure.clone()))), Step::Finish(Err(failure)));
    assert!(!run.accepts(&Reply::Status(Ok(()))));
}

#[test]
fn insert_eco_buffers_step() {
    let mut db = Netlist::fixture();
    let (n0, m0) = (db.insts.len(), db.nets.len());
    let specs = vec![EcoBuffer { target: format!("{}/{}", "u2", "A"), buffer: "sky130_buf_2".to_string() }];
    let n = run_eco(&mut db, insert_eco_buffers(&specs)).expect("insert_eco_buffers");
    assert_eq!(n, 1);
    assert_eq!(db.insts.len(), n0 + 1);
    assert_eq!(db.nets.len(), m0 + 1);
    assert_eq!(db.net_of("u2", "A"), "eco_buffer_0_net");
}

#[test]
fn manual_placement_steps() {
    let mut db = Netlist::fixture();
    let inst = db.insts[0].name.clone();
    let n = run_placement(
        &mut db,
        manual_global_placement(&[GlobalPlacement { instance: inst.clone(), x: 12_345, y: 67_890 }]),
    )
    .unwrap();
    assert_eq!(n, 1);
    let i = db.inst(&inst).unwrap();
    assert_eq!((i.x, i.y), (12_345, 67_890));

    // macro placement + orient; location moves
    run_placement(
        &mut db,
        manual_macro_placement(&[MacroPlacement { instance: inst.clone(), x: 1_000, y: 2_000, orient: Some("R0".into()) }]),
    )
    .unwrap();
    let i = db.inst(&inst).unwrap();
    assert_eq!((i.x, i.y), (1_000, 2_000));
}

#[test]
fn errors_are_typed() {
    let mut db = Netlist::fixture();
    assert!(matches!(
        db.perform(&DbOp::CreateInst { master: "no_such_master".into(), name: "x".into() }),
        Reply::Status(Err(_))
    ));
    assert!(run_insertion(&mut db, insert_buffer("no_inst", "A", "no_master", "b", 0, 0)).is_err());
    assert!(run_insertion(&mut db, insert_diode("no_inst", "A", "no_master", "d", 0, 0)).is_err());
    assert!(run_placement(
        &mut db,
        manual_macro_placement(&[MacroPlacement { instance: "no_inst".into(), x: 0, y: 0, orient: Some("R0".into()) }]),
    )
    .is_err());
}
