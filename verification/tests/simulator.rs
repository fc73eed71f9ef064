use telemux::evaluation::Evaluation;
use telemux::number::Real;
use telemux::protocol::modbus_server::{ModbusException, ModbusRequest, ModbusResponse};
use telemux::sim::layout::{find_collision, lay_out, starts, Cell, Placement, Span};
use telemux::sim::model::{Area, Side, SimConfig, SimControl, SimEngine, SimSensor, Storage};
use telemux::sim::registers::{encode_raw, encode_raw_given, HoldingSlot, Readings, RegisterMap};
use telemux::sim::server::SimSlaveState;
use telemux::sim::web::SlotView;
use telemux::sim::web_assets::{asset_name, index_or_static, mime_for, AssetAnswer};

fn num(v: f64) -> Real {
    Real { bits: v.to_bits() }
}

fn value(r: Real) -> f64 {
    f64::from_bits(r.bits)
}

fn evaluate(e: Evaluation) -> Real {
    let names: Vec<&str> = e.names.iter().map(|n| n.as_str()).collect();
    let values: Vec<f64> = e.values.iter().map(|v| value(*v)).collect();
    let f = e.expression.parse::<meval::Expr>().unwrap().bindn(&names).unwrap();
    num(f(&values))
}

fn eval_all(engine: &SimEngine) -> Vec<(String, f64)> {
    engine.eval_all(num(0.0), &evaluate).into_iter().map(|(id, v)| (id, value(v))).collect()
}

fn readings(engine: &SimEngine) -> Readings {
    engine.readings(num(0.0), &evaluate)
}

fn control(name: &str, initial: f64, address: Option<u16>) -> SimControl {
    SimControl { name: name.into(), initial: num(initial), unit: Some("%".into()), writable: true, address }
}

fn sensor(id: &str, formula: &str) -> SimSensor {
    SimSensor {
        sensor_id: id.into(),
        name: id.into(),
        kind: "x".into(),
        unit: None,
        formula: formula.into(),
        inputs: vec![],
        address: None,
        area: Area::Input,
        storage: Storage::F32,
        encode: None,
    }
}

fn placed(id: &str, formula: &str, address: u16, area: Area, storage: Storage, encode: Option<&str>) -> SimSensor {
    let mut s = sensor(id, formula);
    s.address = Some(address);
    s.area = area;
    s.storage = storage;
    s.encode = encode.map(|e| e.to_string());
    s
}

fn config(controls: Vec<SimControl>, sensors: Vec<SimSensor>) -> SimConfig {
    SimConfig { controls, sensors, pri: None, sec: None }
}

fn find(all: &[(String, f64)], id: &str) -> f64 {
    all.iter().find(|(i, _)| i == id).unwrap().1
}

// ---- the model ----

fn model_config() -> SimConfig {
    let mut t2 = sensor("cdu.t2_out", "45 - f1_flow * 0.1");
    t2.inputs = vec![("f1_flow".into(), "cdu.f1_flow".into())];
    config(
        vec![control("pump1_duty", 50.0, None), control("valve1_duty", 40.0, None)],
        vec![sensor("cdu.f2_flow", "pump1_duty * 2"), sensor("cdu.f1_flow", "valve1_duty * 1.5"), t2],
    )
}

#[test]
fn evaluates_all_sensors() {
    let engine = SimEngine::new(model_config());
    let all = eval_all(&engine);
    assert_eq!(find(&all, "cdu.f2_flow"), 100.0);
    assert_eq!(find(&all, "cdu.f1_flow"), 60.0);
    assert_eq!(find(&all, "cdu.t2_out"), 39.0);
}

#[test]
fn set_control_changes_values() {
    let mut engine = SimEngine::new(model_config());
    engine.set_control("pump1_duty", num(80.0)).unwrap();
    assert_eq!(find(&eval_all(&engine), "cdu.f2_flow"), 160.0);
    assert_eq!(engine.control("pump1_duty").map(value), Some(80.0));
    assert_eq!(engine.control("valve1_duty").map(value), Some(40.0));
}

#[test]
fn read_only_control_rejects_write() {
    let mut sim = model_config();
    sim.controls[0].writable = false;
    let mut engine = SimEngine::new(sim);
    assert!(engine.set_control("pump1_duty", num(80.0)).is_err());
    assert_eq!(engine.set_control("pump1_duty", num(1.0)).unwrap_err(), "control `pump1_duty` is read-only");
    assert_eq!(engine.set_control("nope", num(1.0)).unwrap_err(), "unknown control `nope`");
    assert_eq!(engine.control("pump1_duty").map(value), Some(50.0));
    assert_eq!(engine.control("nope"), None);
}

#[test]
fn validate_rejects_unknown_input() {
    let mut sim = model_config();
    sim.sensors[0].inputs = vec![("x".into(), "s.nope".into())];
    assert!(sim.validate().is_err());
    assert_eq!(
        sim.validate().unwrap_err(),
        "sim sensor `cdu.f2_flow`: input `x` references unknown target `s.nope`"
    );
}

#[test]
fn validation_names_each_problem() {
    let mut sim = model_config();
    sim.validate().unwrap();
    sim.controls[1].name = "pump1_duty".into();
    assert_eq!(sim.validate().unwrap_err(), "duplicate sim control `pump1_duty`");
    let mut sim = model_config();
    sim.sensors[1].sensor_id = "cdu.f2_flow".into();
    assert_eq!(sim.validate().unwrap_err(), "duplicate sim sensor_id `cdu.f2_flow`");
    let mut sim = model_config();
    sim.sensors[1].name = "".into();
    assert_eq!(sim.validate().unwrap_err(), "sim sensor `cdu.f1_flow`: name is required");
    let mut sim = model_config();
    sim.sensors[1].formula = "1 +".into();
    assert!(sim.validate().unwrap_err().starts_with("sim sensor `cdu.f1_flow`: invalid formula `1 +`: "));
    let sim = model_config();
    let mut faults = sim.inspect();
    sim.validate_given(&faults).unwrap();
    faults[2] = Some("odd".into());
    assert!(sim.validate_given(&faults).unwrap_err().ends_with(": odd"));
}

#[test]
fn groups_come_before_other_sensors() {
    let side = |p: &str| Side {
        input: vec![sensor(&format!("{p}.in"), "1")],
        output: vec![sensor(&format!("{p}.out"), "2")],
        auxiliary: vec![sensor(&format!("{p}.aux"), "3")],
    };
    let mut sim = config(vec![], vec![sensor("tank", "4")]);
    sim.sec = Some(side("sec"));
    sim.pri = Some(side("pri"));
    let ids: Vec<&str> = sim.iter_sensors().iter().map(|s| s.sensor_id.as_str()).collect();
    assert_eq!(ids, vec!["pri.in", "pri.out", "pri.aux", "sec.in", "sec.out", "sec.aux", "tank"]);
    sim.validate().unwrap();
    let engine = SimEngine::new(sim);
    assert_eq!(eval_all(&engine).len(), engine.config().iter_sensors().len());
    let state = SimSlaveState::new(engine);
    let shown = state.build_state(&readings(&state.engine));
    assert_eq!(shown.pri.as_ref().unwrap().output[0].sensor_id, "pri.out");
    assert_eq!(shown.sec.as_ref().unwrap().auxiliary[0].value.map(value), Some(3.0));
    assert_eq!(shown.sensors.len(), 7);
}

#[test]
fn settings_are_checked_for_blank_expressions() {
    let mut sim = register_config();
    assert!(sim.is_readable() && sim.is_encodable() && sim.is_addressable());
    assert!(sim.is_decided() && sim.has_sound_sensors());
    sim.sensors[0].encode = Some("  ".into());
    assert!(sim.is_encodable());
    sim.sensors[0].storage = Storage::U16;
    assert!(!sim.is_encodable());
    sim.sensors[0].formula = " ".into();
    assert!(!sim.is_readable() && !sim.is_decided());
    sim.sensors[0].name = "".into();
    assert!(sim.is_decided());
    assert_eq!(sim.validate().unwrap_err(), "sim sensor `cdu.pri.p1`: name is required");
    sim.sensors.push(sim.sensors[0].clone());
    assert!(!sim.has_sound_sensors());
}

// ---- the registers ----

fn register_config() -> SimConfig {
    config(
        vec![control("pump1_duty", 50.0, None)],
        vec![sensor("cdu.pri.p1", "300 + pump1_duty * 1.2")],
    )
}

#[test]
fn map_lays_out_addresses() {
    let map = RegisterMap::build(&register_config());
    assert_eq!(map.holding.len(), 1);
    assert!(matches!(
        &map.holding[0],
        Some(HoldingSlot::Control { control, .. }) if control == "pump1_duty"
    ));
    assert_eq!(map.inputs.len(), 2);
}

#[test]
fn reads_holding_and_input() {
    let map = RegisterMap::build(&register_config());
    let engine = SimEngine::new(register_config());
    let r = readings(&engine);
    assert_eq!(map.read_holding(&engine, &r, 0), 50);
    let hi = map.read_input(&engine, &r, 0);
    let lo = map.read_input(&engine, &r, 1);
    let v = f32::from_bits(((hi as u32) << 16) | lo as u32);
    assert_eq!(v, 360.0);
}

#[test]
fn explicit_address_u16_encode() {
    let cfg = config(
        vec![],
        vec![placed("cdu.pri.in.t1", "25.5", 3328, Area::Input, Storage::U16, Some("v * 10"))],
    );
    cfg.validate().expect("validate ok");
    let map = RegisterMap::build(&cfg);
    assert_eq!(map.inputs.len(), 3329);
    let engine = SimEngine::new(cfg);
    let r = readings(&engine);
    assert_eq!(map.read_input(&engine, &r, 3328), 255);
    assert_eq!(map.read_input(&engine, &r, 0), 0);
}

#[test]
fn adjacent_u16_addresses() {
    let cfg = config(
        vec![],
        vec![
            placed("cdu.pri.in.t1", "20", 3328, Area::Input, Storage::U16, Some("v * 10")),
            placed("cdu.pri.out.t2", "22", 3329, Area::Input, Storage::U16, Some("v * 10")),
        ],
    );
    cfg.validate().expect("validate ok");
    let map = RegisterMap::build(&cfg);
    let engine = SimEngine::new(cfg);
    let r = readings(&engine);
    assert_eq!(map.read_input(&engine, &r, 3328), 200);
    assert_eq!(map.read_input(&engine, &r, 3329), 220);
}

#[test]
fn overlapping_address_rejected() {
    let cfg = config(
        vec![],
        vec![
            placed("a", "1", 100, Area::Input, Storage::F32, None),
            placed("b", "1", 101, Area::Input, Storage::U16, None),
        ],
    );
    assert!(cfg.validate().is_err());
    assert_eq!(cfg.validate().unwrap_err(), "sim input address 101 of `b` overlaps `a`");
}

#[test]
fn holding_area_sensor_readable() {
    let cfg = config(
        vec![control("pump1_duty", 50.0, Some(2192))],
        vec![placed("cdu.pri.in.t1", "25.5", 3328, Area::Holding, Storage::U16, Some("v * 10"))],
    );
    cfg.validate().expect("validate ok");
    let map = RegisterMap::build(&cfg);
    let engine = SimEngine::new(cfg);
    let r = readings(&engine);
    assert_eq!(map.read_holding(&engine, &r, 3328), 255);
    assert_eq!(map.read_holding(&engine, &r, 2192), 50);
}

#[test]
fn holding_area_conflict_rejected() {
    let cfg = config(
        vec![control("pump1_duty", 50.0, Some(3328))],
        vec![placed("cdu.pri.in.t1", "25.5", 3328, Area::Holding, Storage::U16, None)],
    );
    assert!(cfg.validate().is_err());
}

#[test]
fn coils_area_readable() {
    let coil = |id: &str, formula: &str, address: u16| placed(id, formula, address, Area::Coils, Storage::U16, None);
    let cfg = config(
        vec![],
        vec![
            coil("cdu.liquid.li1", "1", 0),
            coil("cdu.liquid.li2", "1", 1),
            coil("cdu.leak.le1", "0", 24),
            coil("cdu.leak.le1.break", "1", 25),
        ],
    );
    cfg.validate().expect("validate ok");
    let map = RegisterMap::build(&cfg);
    let engine = SimEngine::new(cfg);
    let r = readings(&engine);
    assert_eq!(map.coils.len(), 26);
    assert!(map.read_coil(&engine, &r, 0));
    assert!(map.read_coil(&engine, &r, 1));
    assert!(!map.read_coil(&engine, &r, 24));
    assert!(map.read_coil(&engine, &r, 25));
    assert!(!map.read_coil(&engine, &r, 10));
}

#[test]
fn coils_area_conflict_rejected() {
    let cfg = config(
        vec![],
        vec![
            placed("a", "1", 5, Area::Coils, Storage::U16, None),
            placed("b", "1", 5, Area::Coils, Storage::U16, None),
        ],
    );
    assert!(cfg.validate().is_err());
}

#[test]
fn items_are_placed_behind_all_addresses_or_in_turn() {
    let spans = vec![
        Span { address: None, wide: true },
        Span { address: Some(7), wide: false },
        Span { address: None, wide: true },
    ];
    assert_eq!(starts(Placement::AddressesFirst, &spans), vec![8, 7, 10]);
    assert_eq!(starts(Placement::InTurn, &spans), vec![0, 7, 8]);
    assert_eq!(find_collision(&spans), None);
    let cells = lay_out(Placement::AddressesFirst, &spans);
    assert_eq!(cells.len(), 12);
    assert_eq!(cells[6], None);
    assert_eq!(cells[7], Some(Cell { item: 1, part: 0 }));
    assert_eq!(cells[9], Some(Cell { item: 0, part: 1 }));
    assert_eq!(cells[11], Some(Cell { item: 2, part: 1 }));
    let plain = vec![Span { address: None, wide: true }, Span { address: None, wide: false }];
    assert_eq!(starts(Placement::AddressesFirst, &plain), vec![0, 2]);
    assert_eq!(starts(Placement::InTurn, &plain), vec![0, 2]);
    let gap = [Some(5), None, Some(100)].map(|address| Span { address, wide: false }).to_vec();
    assert_eq!(starts(Placement::InTurn, &gap), vec![5, 6, 100]);
    assert_eq!(lay_out(Placement::InTurn, &gap)[6], Some(Cell { item: 1, part: 0 }));
    assert_eq!(starts(Placement::AddressesFirst, &gap), vec![5, 101, 100]);
    let clash = vec![Span { address: Some(1), wide: false }, Span { address: Some(0), wide: true }];
    assert_eq!(find_collision(&clash), Some((0, 1)));
    assert_eq!(lay_out(Placement::InTurn, &clash)[1], Some(Cell { item: 1, part: 1 }));
}

#[test]
fn no_holding_register_is_lost() {
    let cfg = config(vec![control("a", 1.0, None), control("b", 2.0, Some(0))], vec![]);
    cfg.validate().expect("validate ok");
    let map = RegisterMap::build(&cfg);
    assert_eq!(map.holding.len(), 2);
    assert!(matches!(&map.holding[0], Some(HoldingSlot::Control { control, .. }) if control == "b"));
    assert!(matches!(&map.holding[1], Some(HoldingSlot::Control { control, .. }) if control == "a"));

    let cfg = config(
        vec![control("a", 1.0, None)],
        vec![placed("z", "9", 0, Area::Holding, Storage::U16, None)],
    );
    cfg.validate().expect("validate ok");
    let map = RegisterMap::build(&cfg);
    let engine = SimEngine::new(cfg);
    let r = readings(&engine);
    assert_eq!((map.read_holding(&engine, &r, 0), map.read_holding(&engine, &r, 1)), (9, 1));
}

#[test]
fn input_registers_and_coils_are_placed_in_turn() {
    let mut behind = placed("b", "8", 0, Area::Input, Storage::U16, None);
    behind.address = None;
    let mut coil = placed("d", "1", 0, Area::Coils, Storage::U16, None);
    coil.address = None;
    let cfg = config(
        vec![],
        vec![
            placed("a", "7", 5, Area::Input, Storage::U16, None),
            behind,
            placed("c", "9", 100, Area::Input, Storage::U16, None),
            placed("e", "0", 3, Area::Coils, Storage::U16, None),
            coil,
            placed("f", "0", 20, Area::Coils, Storage::U16, None),
        ],
    );
    cfg.validate().expect("validate ok");
    let map = RegisterMap::build(&cfg);
    let engine = SimEngine::new(cfg);
    let r = readings(&engine);
    assert_eq!((map.inputs.len(), map.coils.len()), (101, 21));
    assert_eq!([5, 6, 7, 100].map(|a| map.read_input(&engine, &r, a)), [7, 8, 0, 9]);
    assert_eq!([3, 4, 20].map(|a| map.read_coil(&engine, &r, a)), [false, true, false]);
}

#[test]
fn a_later_input_takes_the_words_that_it_shares() {
    let cfg = config(vec![], vec![sensor("x", "7.1"), placed("y", "8", 0, Area::Input, Storage::U16, None)]);
    cfg.validate().expect("validate ok");
    let map = RegisterMap::build(&cfg);
    let engine = SimEngine::new(cfg);
    let r = readings(&engine);
    assert_eq!(map.inputs.len(), 2);
    let low = (7.1f32.to_bits() & 0xFFFF) as u16;
    assert_eq!((map.read_input(&engine, &r, 0), map.read_input(&engine, &r, 1)), (8, low));
}

#[test]
fn stored_numbers_are_encoded_where_that_is_possible() {
    let stored = |encode: Option<&str>| value(encode_raw(&encode.map(|e| e.to_string()), num(2.0), &evaluate));
    assert_eq!(stored(None), 2.0);
    assert_eq!(stored(Some("v * 10")), 20.0);
    assert_eq!(stored(Some("w * 10")), 2.0);
    let refused = encode_raw_given(&Some("v * 10".into()), &Some("bad".into()), num(2.0), &evaluate);
    assert_eq!(value(refused), 2.0);
}

#[test]
fn words_of_an_odd_address_are_in_order() {
    let cfg = config(vec![], vec![placed("a", "360", 3, Area::Input, Storage::F32, None)]);
    let map = RegisterMap::build(&cfg);
    let engine = SimEngine::new(cfg);
    let r = readings(&engine);
    assert_eq!((map.read_input(&engine, &r, 3), map.read_input(&engine, &r, 4)), (0x43B4, 0x0000));
}

#[test]
fn sensors_without_a_value_read_as_nan_or_zero() {
    let cfg = config(
        vec![],
        vec![
            placed("a", "1 / 0", 0, Area::Input, Storage::F32, None),
            placed("b", "1 / 0", 2, Area::Input, Storage::U16, None),
            placed("c", "1 / 0", 0, Area::Coils, Storage::U16, None),
        ],
    );
    let map = RegisterMap::build(&cfg);
    let engine = SimEngine::new(cfg);
    let r = readings(&engine);
    let bits = ((map.read_input(&engine, &r, 0) as u32) << 16) | map.read_input(&engine, &r, 1) as u32;
    assert!(f32::from_bits(bits).is_nan());
    assert_eq!(map.read_input(&engine, &r, 2), 0);
    assert!(!map.read_coil(&engine, &r, 0));
}

// ---- the server ----

fn none() -> Readings {
    Readings { values: vec![], raws: vec![] }
}

fn server() -> SimSlaveState {
    let mut fixed = control("valve1_duty", 40.0, Some(1));
    fixed.writable = false;
    SimSlaveState::new(SimEngine::new(config(
        vec![control("pump1_duty", 50.0, Some(0)), fixed],
        vec![
            sensor("cdu.f2", "pump1_duty * 2"),
            placed("cdu.t1", "25.5", 2, Area::Holding, Storage::U16, Some("v * 10")),
        ],
    )))
}

#[test]
fn writes_set_controls_within_their_range() {
    let mut s = server();
    let r = s.handle(&none(), &ModbusRequest::WriteSingleRegister(0, 80)).unwrap();
    assert!(matches!(r, ModbusResponse::WriteSingleRegister(0, 80)));
    let now = readings(&s.engine);
    match s.handle(&now, &ModbusRequest::ReadHoldingRegisters(0, 4)).unwrap() {
        ModbusResponse::ReadHoldingRegisters(w) => assert_eq!(w, vec![80, 40, 255, 0]),
        other => panic!("{other:?}"),
    }
    match s.handle(&now, &ModbusRequest::ReadInputRegisters(0, 2)).unwrap() {
        ModbusResponse::ReadInputRegisters(w) => assert_eq!(w, vec![0x4320, 0x0000]),
        other => panic!("{other:?}"),
    }
    s.handle(&none(), &ModbusRequest::WriteSingleRegister(0, 500)).unwrap();
    assert_eq!(s.engine.control("pump1_duty").map(value), Some(100.0));
}

#[test]
fn requests_are_answered_from_the_plant() {
    let mut s = server();
    s.answer(num(0.0), &ModbusRequest::WriteSingleRegister(0, 80), &evaluate).unwrap();
    match s.answer(num(0.0), &ModbusRequest::ReadHoldingRegisters(0, 4), &evaluate).unwrap() {
        ModbusResponse::ReadHoldingRegisters(w) => assert_eq!(w, vec![80, 40, 255, 0]),
        other => panic!("{other:?}"),
    }
    let shown = s.show(num(0.0), &evaluate);
    assert_eq!(shown.sensors[0].value.map(value), Some(160.0));
}

#[test]
fn coils_are_read_from_the_plant() {
    let mut s = SimSlaveState::new(SimEngine::new(config(
        vec![],
        vec![
            placed("cdu.li1", "1", 0, Area::Coils, Storage::U16, None),
            placed("cdu.le1", "0", 2, Area::Coils, Storage::U16, None),
            placed("cdu.le2", "1", 3, Area::Coils, Storage::U16, None),
        ],
    )));
    match s.answer(num(0.0), &ModbusRequest::ReadCoils(0, 5), &evaluate).unwrap() {
        ModbusResponse::ReadCoils(b) => assert_eq!(b, vec![true, false, false, true, false]),
        other => panic!("{other:?}"),
    }
}

#[test]
fn refused_writes_keep_the_plant() {
    let mut s = server();
    let mut refused = |req: ModbusRequest| s.handle(&none(), &req).unwrap_err();
    assert_eq!(refused(ModbusRequest::WriteSingleRegister(9, 1)), ModbusException::IllegalDataAddress);
    assert_eq!(refused(ModbusRequest::WriteSingleRegister(1, 1)), ModbusException::IllegalFunction);
    assert_eq!(refused(ModbusRequest::WriteSingleRegister(2, 1)), ModbusException::IllegalFunction);
    assert_eq!(refused(ModbusRequest::ReadDiscreteInputs(0, 1)), ModbusException::IllegalFunction);
    assert_eq!(refused(ModbusRequest::WriteSingleCoil(0, true)), ModbusException::IllegalFunction);
    assert_eq!(refused(ModbusRequest::Other), ModbusException::IllegalFunction);
    assert_eq!(s.engine.control("pump1_duty").map(value), Some(50.0));
}

#[test]
fn a_write_of_many_words_stops_at_the_first_refusal() {
    let mut s = server();
    let e = s.handle(&none(), &ModbusRequest::WriteMultipleRegisters(0, vec![7, 8])).unwrap_err();
    assert_eq!(e, ModbusException::IllegalFunction);
    assert_eq!(s.engine.control("pump1_duty").map(value), Some(7.0));
    assert_eq!(s.engine.control("valve1_duty").map(value), Some(40.0));
    let r = s.handle(&none(), &ModbusRequest::WriteMultipleRegisters(0, vec![9])).unwrap();
    assert!(matches!(r, ModbusResponse::WriteMultipleRegisters(0, 1)));
}

// ---- the web interface ----

#[test]
fn the_state_shows_controls_sensors_and_registers() {
    let mut s = server();
    s.set_control("pump1_duty", num(60.5)).unwrap();
    assert_eq!(s.set_control("valve1_duty", num(1.0)).unwrap_err(), "control `valve1_duty` is read-only");
    let shown = s.build_state(&readings(&s.engine));
    assert_eq!(shown.controls[0].name, "pump1_duty");
    assert_eq!(value(shown.controls[0].value), 60.5);
    assert!(shown.pri.is_none() && shown.sec.is_none());
    assert_eq!(shown.sensors[0].value.map(value), Some(121.0));
    assert_eq!(shown.holding.len(), 3);
    assert_eq!(shown.holding[0].raw, 61);
    assert!(matches!(
        shown.holding[2].slot.as_ref(),
        Some(SlotView::Sensor { sensor, storage: Storage::U16 }) if sensor == "cdu.t1"
    ));
    assert_eq!(shown.inputs.len(), 1);
    assert_eq!(shown.inputs[0].value_f32.map(f32::from_bits), Some(121.0));
    assert_eq!((shown.inputs[0].raw_hi, shown.inputs[0].raw_lo), (0x42F2, Some(0)));
}

#[test]
fn paths_are_answered_by_files_or_the_start_page() {
    assert_eq!(asset_name("//assets/app.js"), "assets/app.js");
    assert_eq!(asset_name("/"), "");
    assert_eq!(index_or_static("/assets/app.js", true, true), AssetAnswer::File);
    assert_eq!(index_or_static("/settings", false, true), AssetAnswer::Index);
    assert_eq!(index_or_static("/api/none", false, true), AssetAnswer::NotFound);
    assert_eq!(index_or_static("/x", false, false), AssetAnswer::NotFound);
    assert_eq!(mime_for("html"), "text/html; charset=utf-8");
    assert_eq!(mime_for("mjs"), "application/javascript; charset=utf-8");
    assert_eq!(mime_for("map"), "application/json");
    assert_eq!(mime_for("exe"), "application/octet-stream");
}
