use telemux::config::{
    Access, RegisterConfig, RegisterFunction, SimConfig, SimControl, SimSensor, ValueType, WordOrder,
};
use telemux::domain::RawSample;
use telemux::evaluation::{
    evaluate_all, formula_refs, plan_model, plan_sensor_given, resolve_sensor, short_name, start_round, value_of,
    Evaluation, Model, SensorFormula, Source,
};
use telemux::number::Real;
use telemux::simulation::SimSource;

fn num(v: f64) -> Real {
    Real { bits: v.to_bits() }
}

fn value(r: Real) -> f64 {
    f64::from_bits(r.bits)
}

fn evaluate(e: Evaluation) -> Real {
    let names: Vec<&str> = e.names.iter().map(|n| n.as_str()).collect();
    let values: Vec<f64> = e.values.iter().map(|v| value(*v)).collect();
    let f = e.expression.parse::<meval::Expr>().unwrap().bindn(&names).unwrap();
    num(f(&values))
}

fn read_at(source: &SimSource, registers: &[RegisterConfig], time: f64) -> Vec<RawSample> {
    source.read_samples(&registers.to_vec(), num(time), 99, &evaluate).unwrap()
}

fn read(source: &SimSource, registers: &[RegisterConfig]) -> Vec<RawSample> {
    read_at(source, registers, 0.0)
}

fn control(name: &str, initial: f64) -> SimControl {
    SimControl { name: name.into(), initial: num(initial), unit: Some("%".into()), writable: true }
}

fn sensor(id: &str, formula: &str, inputs: &[(&str, &str)]) -> SimSensor {
    SimSensor {
        sensor_id: id.into(),
        name: id.into(),
        kind: "flow".into(),
        unit: Some("L/min".into()),
        formula: formula.into(),
        inputs: inputs.iter().map(|(k, v)| (k.to_string(), v.to_string())).collect(),
    }
}

fn sim_config() -> SimConfig {
    SimConfig {
        controls: vec![control("pump1_duty", 50.0), control("valve1_duty", 40.0)],
        sensors: vec![
            sensor("cdu.f2_flow", "pump1_duty * 2", &[]),
            sensor("cdu.f1_flow", "valve1_duty * 1.5", &[]),
            sensor("cdu.t2_out", "45 - f1_flow * 0.1", &[("f1_flow", "cdu.f1_flow")]),
        ],
    }
}

fn reg(id: &str) -> RegisterConfig {
    RegisterConfig {
        name: id.into(),
        sensor_id: id.into(),
        function: RegisterFunction::Input,
        address: 0,
        count: Some(1),
        value_type: ValueType::U16,
        word_order: WordOrder::Big,
        unit: None,
        access: Access::Read,
    }
}

fn by_id(samples: &[RawSample], id: &str) -> f64 {
    value(samples.iter().find(|s| s.sensor_id.as_str() == id).unwrap().raw_value)
}

#[test]
fn evaluates_all_sensors_with_control_dependencies() {
    let source = SimSource::new(sim_config());
    let samples = read(&source, &[reg("cdu.f2_flow"), reg("cdu.f1_flow"), reg("cdu.t2_out")]);
    assert_eq!(samples.len(), 3);
    assert_eq!(by_id(&samples, "cdu.f2_flow"), 100.0);
    assert_eq!(by_id(&samples, "cdu.f1_flow"), 60.0);
    assert_eq!(by_id(&samples, "cdu.t2_out"), 39.0);
}

#[test]
fn write_updates_a_control_variable() {
    let mut source = SimSource::new(sim_config());
    source.write_holding_register("pump1_duty", 80).unwrap();
    let samples = read(&source, &[reg("cdu.f2_flow")]);
    assert_eq!(value(samples[0].raw_value), 160.0);
}

#[test]
fn unknown_control_write_is_error() {
    let mut source = SimSource::new(sim_config());
    let err = source.write_holding_register("nope", 1).unwrap_err();
    assert!(err.message().contains("unknown writable control"));
    assert_eq!(err.message(), "device `sim`: unknown writable control `nope`");
}

#[test]
fn formula_with_unknown_var_skips_sensor() {
    let mut sim = sim_config();
    sim.sensors[0].formula = "pump1_duty + gibberish".into();
    let source = SimSource::new(sim);
    let samples = read(&source, &[reg("cdu.f2_flow")]);
    assert!(samples.is_empty());
}

#[test]
fn without_registers_every_sensor_is_read() {
    let source = SimSource::new(sim_config());
    let samples = read(&source, &[]);
    assert_eq!(samples.len(), 3);
    assert_eq!(samples[0].name, "cdu.f2_flow");
    assert_eq!(samples[0].unit.as_deref(), Some("L/min"));
    assert_eq!(samples[0].timestamp_ms(), 99);
    assert!(read(&source, &[reg("cdu.other")]).is_empty());
}

#[test]
fn read_only_controls_and_coils_refuse_writes() {
    let mut sim = sim_config();
    sim.controls[0].writable = false;
    let mut source = SimSource::new(sim);
    let e = source.write_holding_register("pump1_duty", 80).unwrap_err();
    assert_eq!(e.message(), "device `sim`: control `pump1_duty` is read-only");
    let e = source.write_single_coil("x", true).unwrap_err();
    assert_eq!(e.message(), "device `sim`: sim has no writable coil `x`");
    assert_eq!(by_id(&read(&source, &[]), "cdu.f2_flow"), 100.0);
}

#[test]
fn the_time_and_short_names_are_variables() {
    let mut sim = sim_config();
    sim.sensors.push(sensor("cdu.wave", "t * 2 + t2_out", &[]));
    let source = SimSource::new(sim);
    assert_eq!(by_id(&read_at(&source, &[], 3.0), "cdu.wave"), 45.0);
}

#[test]
fn cyclic_and_infinite_sensors_have_no_sample() {
    let mut sim = sim_config();
    sim.sensors = vec![
        sensor("a", "b + 1", &[]),
        sensor("b", "a + 1", &[]),
        sensor("c", "1 / 0", &[]),
        sensor("d", "c + 1", &[]),
        sensor("e", "2", &[]),
        sensor("f", "x", &[("x", "nothing")]),
    ];
    let source = SimSource::new(sim);
    let samples = read(&source, &[]);
    assert_eq!(samples.len(), 1);
    assert_eq!(samples[0].sensor_id.as_str(), "e");
}

#[test]
fn names_are_taken_out_of_formulas() {
    assert_eq!(formula_refs("300 + pump1_duty * max(p_2, e) - t"), vec!["pump1_duty", "p_2", "t"]);
    assert_eq!(formula_refs("2e3 + x"), vec!["e3", "x"]);
    assert!(formula_refs("sin(pi)").is_empty());
    assert_eq!(short_name("cdu.pri.p1"), "p1");
    assert_eq!(short_name("plain"), "plain");
}

fn model() -> Model {
    let formula = |id: &str, formula: &str| SensorFormula { id: id.into(), formula: formula.into(), inputs: vec![] };
    Model {
        controls: vec!["duty".into()],
        sensors: vec![formula("x.a", "duty + b + duty + t"), formula("y.b", "1"), formula("z.b", "2")],
    }
}

#[test]
fn names_stand_for_controls_time_and_sensors() {
    let m = model();
    assert_eq!(value_of(&m, "duty"), Some(Source::Control(0)));
    assert_eq!(value_of(&m, "t"), Some(Source::Time));
    assert_eq!(value_of(&m, "z.b"), Some(Source::Sensor(2)));
    assert_eq!(value_of(&m, "b"), None);
    assert_eq!(resolve_sensor(&m.sensors, "b"), Some(1));
    assert_eq!(resolve_sensor(&m.sensors, "c"), None);
}

#[test]
fn plans_follow_the_parser() {
    let m = model();
    let p = plan_sensor_given(&m, 0, &None, &None);
    assert_eq!(p.vars, vec!["duty", "b", "t"]);
    assert_eq!(p.sources, vec![Source::Control(0), Source::Sensor(1), Source::Time]);
    assert!(p.usable);
    assert!(!plan_sensor_given(&m, 0, &Some("bad".into()), &None).usable);
    assert!(!plan_sensor_given(&m, 0, &None, &Some("bad".into())).usable);
}

#[test]
fn rounds_end_alike_in_any_order() {
    let formula = |id: &str, formula: &str| SensorFormula { id: id.into(), formula: formula.into(), inputs: vec![] };
    let m = Model {
        controls: vec!["duty".into()],
        sensors: vec![formula("c", "a + b"), formula("a", "duty * 2"), formula("b", "duty + 1"), formula("d", "d")],
    };
    let plans = plan_model(&m);
    let whole = evaluate_all(&m, &plans, vec![num(3.0)], num(0.0), &evaluate);
    let mut other = start_round(&m, &plans, vec![num(3.0)], num(0.0));
    other.accept(2, num(4.0));
    other.accept(1, num(6.0));
    let (sensor, e) = other.next(&m, &plans).unwrap();
    assert_eq!((sensor, e.expression.as_str()), (0, "a + b"));
    assert_eq!(e.names, vec!["a", "b"]);
    other.accept(sensor, evaluate(e));
    assert!(other.next(&m, &plans).is_none());
    for i in 0..4 {
        assert_eq!(whole.value_at(i), other.value_at(i));
    }
    assert_eq!(whole.value_at(0).map(value), Some(10.0));
    assert_eq!(whole.value_at(3), None);
}
