use telemux::config::{AggregateMode, Config, EndpointsConfig, GeneralConfig, PipelineConfig, SimConfig, StageConfig};
use telemux::config_handle::ConfigHandle;
use telemux::domain::{Metric, MetricStatus, RawSample, SensorId};
use telemux::number::Real;
use telemux::pipeline::describe::{describe_pipeline, describe_stage, stage_numbers};
use telemux::pipeline::stages::{
    AggregateStage, Arithmetic, MathStage, MedianStage, ScaleStage, SlidingAverageStage, Stage, ThresholdStage,
};
use telemux::pipeline::{
    build_pipelines, build_stage, validate_stage, validate_stage_given, Pipeline, PipelineError, PipelinesCache,
    SampleContext,
};

fn num(v: f64) -> Real {
    Real { bits: v.to_bits() }
}

fn value(r: Real) -> f64 {
    f64::from_bits(r.bits)
}

fn calculate(a: Arithmetic) -> Real {
    num(match a {
        Arithmetic::Scale { value: v, scale, offset } => value(v) * value(scale) + value(offset),
        Arithmetic::Mean { values } => values.iter().map(|v| value(*v)).sum::<f64>() / values.len() as f64,
        Arithmetic::Midpoint { low, high } => (value(low) + value(high)) / 2.0,
        Arithmetic::Evaluate { expression, v } => {
            let f = expression.parse::<meval::Expr>().unwrap().bind("v").unwrap();
            f(value(v))
        }
    })
}

fn process(stage: &mut Stage, ctx: &mut SampleContext) -> Result<(), PipelineError> {
    stage.process(ctx, &calculate)
}

fn run(pipe: &mut Pipeline, sample: RawSample) -> Result<Metric, PipelineError> {
    pipe.process(sample, &calculate)
}

fn ctx(v: f64) -> SampleContext {
    SampleContext {
        sensor_id: SensorId("test.sensor".into()),
        name: "sensor".into(),
        value: num(v),
        unit: Some("counts".into()),
        status: MetricStatus::Unknown,
        timestamp: 0,
    }
}

fn sample(v: f64) -> RawSample {
    RawSample {
        sensor_id: SensorId("s.cpu".into()),
        name: "cpu".into(),
        raw_value: num(v),
        unit: Some("counts".into()),
        timestamp: 7,
    }
}

#[test]
fn scale_stage() {
    let mut s = Stage::Scale(ScaleStage::new(num(0.1), num(5.0), Some("°C".into())));
    let mut c = ctx(100.0);
    process(&mut s, &mut c).unwrap();
    assert_eq!(value(c.value), 15.0);
    assert_eq!(c.unit.as_deref(), Some("°C"));
}

#[test]
fn sliding_average_stage() {
    let mut s = Stage::SlidingAverage(SlidingAverageStage::new(3));
    for (input, expected) in [(1.0, 1.0), (2.0, 1.5), (3.0, 2.0), (10.0, 5.0)] {
        let mut c = ctx(input);
        process(&mut s, &mut c).unwrap();
        assert!((value(c.value) - expected).abs() < 1e-9, "got {}", value(c.value));
    }
}

#[test]
fn median_stage_odd_and_even() {
    let mut s = Stage::Median(MedianStage::new(3));
    for (input, expected) in [(3.0, 3.0), (1.0, 2.0), (2.0, 2.0)] {
        let mut c = ctx(input);
        process(&mut s, &mut c).unwrap();
        assert_eq!(value(c.value), expected);
    }
    let mut s = Stage::Median(MedianStage::new(2));
    let mut c = ctx(1.0);
    process(&mut s, &mut c).unwrap();
    let mut c = ctx(3.0);
    process(&mut s, &mut c).unwrap();
    assert_eq!(value(c.value), 2.0);
}

#[test]
fn math_stage() {
    let mut s = Stage::Math(MathStage::new("v * 2 + 1").unwrap());
    let mut c = ctx(10.0);
    process(&mut s, &mut c).unwrap();
    assert_eq!(value(c.value), 21.0);
}

#[test]
fn math_stage_rejects_bad_expression() {
    assert!(MathStage::new("v +* 2").is_err());
}

#[test]
fn threshold_stage_critical_beats_warning() {
    let mut s = Stage::Threshold(ThresholdStage::new(
        Some(num(20.0)),
        Some(num(80.0)),
        Some(num(10.0)),
        Some(num(90.0)),
    ));
    let cases = [
        (5.0, MetricStatus::Critical),
        (15.0, MetricStatus::Warning),
        (50.0, MetricStatus::Normal),
        (85.0, MetricStatus::Warning),
        (95.0, MetricStatus::Critical),
    ];
    for (v, expected) in cases {
        let mut c = ctx(v);
        process(&mut s, &mut c).unwrap();
        assert_eq!(c.status, expected, "value {v}");
    }
}

#[test]
fn threshold_stage_single_bound() {
    let mut s = Stage::Threshold(ThresholdStage::new(None, Some(num(80.0)), None, None));
    let mut c = ctx(90.0);
    process(&mut s, &mut c).unwrap();
    assert_eq!(c.status, MetricStatus::Warning);
    let mut c = ctx(50.0);
    process(&mut s, &mut c).unwrap();
    assert_eq!(c.status, MetricStatus::Normal);
}

#[test]
fn aggregate_stage_modes() {
    let mut s = Stage::Aggregate(AggregateStage::new(3, AggregateMode::Max));
    for v in [1.0, 5.0, 3.0, 2.0] {
        let mut c = ctx(v);
        process(&mut s, &mut c).unwrap();
    }
    let mut c = ctx(0.0);
    process(&mut s, &mut c).unwrap();
    assert_eq!(value(c.value), 3.0);

    let mut s = Stage::Aggregate(AggregateStage::new(2, AggregateMode::Avg));
    let mut c = ctx(10.0);
    process(&mut s, &mut c).unwrap();
    assert_eq!(value(c.value), 10.0);
    let mut c = ctx(20.0);
    process(&mut s, &mut c).unwrap();
    assert_eq!(value(c.value), 15.0);
}

#[test]
fn aggregate_minimum() {
    let mut s = Stage::Aggregate(AggregateStage::new(2, AggregateMode::Min));
    let mut last = 0.0;
    for v in [1.0, -5.0, 3.0, 2.0] {
        let mut c = ctx(v);
        process(&mut s, &mut c).unwrap();
        last = value(c.value);
    }
    assert_eq!(last, 2.0);
}

#[test]
fn pipeline_integration_raw_to_metric() {
    let cfg = PipelineConfig {
        sensor_id: "s.cpu".into(),
        stages: vec![
            StageConfig::Scale { scale: num(0.1), offset: num(0.0), unit: Some("°C".into()) },
            StageConfig::Threshold {
                low_warning: None,
                high_warning: Some(num(25.0)),
                low_critical: None,
                high_critical: Some(num(30.0)),
            },
        ],
    };
    let mut pipe = Pipeline::from_config(&cfg).unwrap();
    let metric = run(&mut pipe, sample(260.0)).unwrap();
    assert_eq!(value(metric.value), 26.0);
    assert_eq!(metric.unit.as_deref(), Some("°C"));
    assert_eq!(metric.status, MetricStatus::Warning);
    assert_eq!(metric.sensor_id.as_str(), "s.cpu");
    assert_eq!(metric.timestamp_ms(), 7);
}

#[test]
fn validate_stage_rules() {
    assert!(validate_stage(&StageConfig::SlidingAverage { window: 0 }).is_err());
    assert!(validate_stage(&StageConfig::Median { window: 1025 }).is_err());
    assert!(validate_stage(&StageConfig::Math { expression: "v/".into() }).is_err());
    assert!(validate_stage(&StageConfig::Threshold {
        low_warning: None,
        high_warning: None,
        low_critical: None,
        high_critical: None
    })
    .is_err());
    assert!(validate_stage(&StageConfig::Threshold {
        low_warning: Some(num(90.0)),
        high_warning: Some(num(10.0)),
        low_critical: None,
        high_critical: None
    })
    .is_err());
    assert!(validate_stage(&StageConfig::Scale { scale: num(1.0), offset: num(0.0), unit: None }).is_ok());
}

#[test]
fn stage_verdicts_follow_the_parser() {
    let math = StageConfig::Math { expression: "v * 2".into() };
    assert!(validate_stage_given(&math, &None).is_ok());
    let refused = validate_stage_given(&math, &Some("odd".into())).unwrap_err();
    assert_eq!(refused, "invalid expression `v * 2`: odd");
    assert!(build_stage(&math).is_ok());
    assert_eq!(
        validate_stage(&StageConfig::Scale { scale: num(f64::NAN), offset: num(0.0), unit: None }).unwrap_err(),
        "scale must be finite"
    );
    assert!(validate_stage(&StageConfig::Median { window: 1024 }).is_ok());
}

/// Writes numbers as they are shown in formulas.
fn described(config: &StageConfig) -> String {
    let shown: Vec<String> = stage_numbers(config).iter().map(|r| value(*r).to_string()).collect();
    describe_stage(config, &shown)
}

#[test]
fn describe_stage_formulas() {
    assert_eq!(
        described(&StageConfig::Scale { scale: num(0.1), offset: num(0.0), unit: Some("°C".into()) }),
        "v = v × 0.1 → °C"
    );
    assert_eq!(
        described(&StageConfig::Scale { scale: num(0.001), offset: num(-2.0), unit: None }),
        "v = v × 0.001 + -2"
    );
    assert_eq!(described(&StageConfig::SlidingAverage { window: 5 }), "v = avg(最近 5 个值)");
    assert_eq!(
        described(&StageConfig::Math { expression: "(v - 273.15) * 10".into() }),
        "v = (v - 273.15) * 10  (v 为当前值)"
    );
    assert_eq!(
        described(&StageConfig::Threshold {
            low_warning: Some(num(10.0)),
            high_warning: Some(num(30.0)),
            low_critical: Some(num(5.0)),
            high_critical: Some(num(35.0)),
        }),
        "状态: <5 critical / <10 warning / >30 warning / >35 critical"
    );
    assert_eq!(described(&StageConfig::Aggregate { window: 4, mode: AggregateMode::Avg }), "v = avg(窗口 4)");
}

#[test]
fn describe_pipeline_joins_stages() {
    let cfg = PipelineConfig {
        sensor_id: "s.cpu".into(),
        stages: vec![
            StageConfig::Scale { scale: num(0.1), offset: num(0.0), unit: Some("°C".into()) },
            StageConfig::Threshold {
                low_warning: None,
                high_warning: Some(num(30.0)),
                low_critical: None,
                high_critical: None,
            },
        ],
    };
    let shown: Vec<Vec<String>> = cfg
        .stages
        .iter()
        .map(|s| stage_numbers(s).iter().map(|r| value(*r).to_string()).collect())
        .collect();
    assert_eq!(describe_pipeline(&cfg, &shown), "v = v × 0.1 → °C → 状态: >30 warning");
}

#[test]
fn an_empty_pipeline_takes_no_sample() {
    let mut pipe = Pipeline::from_config(&PipelineConfig { sensor_id: "s.cpu".into(), stages: vec![] }).unwrap();
    assert!(pipe.is_empty());
    assert!(matches!(run(&mut pipe, sample(1.0)), Err(PipelineError::Empty)));
}

#[test]
fn an_expression_with_an_unknown_variable_fails_a_sample() {
    let cfg = PipelineConfig { sensor_id: "s.cpu".into(), stages: vec![StageConfig::Math { expression: "w + 1".into() }] };
    let mut pipe = Pipeline::from_config(&cfg).unwrap();
    let e = run(&mut pipe, sample(1.0)).unwrap_err();
    assert!(e.message().contains('w'), "got: {}", e.message());
}

#[test]
fn windows_forget_the_oldest_value() {
    let cfg = PipelineConfig { sensor_id: "s.cpu".into(), stages: vec![StageConfig::SlidingAverage { window: 2 }] };
    let mut pipe = Pipeline::from_config(&cfg).unwrap();
    let mut got = Vec::new();
    for v in [2.0, 4.0, 8.0] {
        got.push(value(run(&mut pipe, sample(v)).unwrap().value));
    }
    assert_eq!(got, vec![2.0, 3.0, 6.0]);
}

fn config_with(pipelines: Vec<PipelineConfig>) -> Config {
    Config {
        general: GeneralConfig::default(),
        devices: vec![],
        pipelines,
        computed: vec![],
        endpoints: EndpointsConfig::default(),
        sim: SimConfig { controls: vec![], sensors: vec![] },
    }
}

#[test]
fn pipelines_are_found_by_sensor() {
    let average = PipelineConfig { sensor_id: "s.cpu".into(), stages: vec![StageConfig::SlidingAverage { window: 2 }] };
    let mut cache = PipelinesCache::new(&config_with(vec![average])).unwrap();
    assert_eq!(cache.len(), 1);
    assert!(!cache.is_empty());
    assert!(cache.get_mut(&SensorId("s.other".into())).is_none());
    let pipe = cache.get_mut(&SensorId("s.cpu".into())).unwrap();
    run(pipe, sample(2.0)).unwrap();
    let pipe = cache.get_mut(&SensorId("s.cpu".into())).unwrap();
    assert_eq!(value(run(pipe, sample(4.0)).unwrap().value), 3.0);
    let handle = ConfigHandle::new(config_with(vec![]), "x.toml".into(), true);
    cache.refresh(&handle).unwrap();
    assert_eq!(cache.len(), 1);
}

#[test]
fn a_later_pipeline_replaces_an_earlier_one() {
    let offset = |by: f64| PipelineConfig {
        sensor_id: "s.cpu".into(),
        stages: vec![StageConfig::Scale { scale: num(1.0), offset: num(by), unit: None }],
    };
    let mut cache = PipelinesCache::new(&config_with(vec![offset(1.0), offset(2.0)])).unwrap();
    assert_eq!(cache.len(), 1);
    let pipe = cache.get_mut(&SensorId("s.cpu".into())).unwrap();
    assert_eq!(value(run(pipe, sample(10.0)).unwrap().value), 12.0);
}

#[test]
fn stages_ask_for_their_arithmetic() {
    let mut s = Stage::Median(MedianStage::new(2));
    let mut c = ctx(1.0);
    assert!(s.begin(&mut c).unwrap().is_none());
    let mut c = ctx(4.0);
    let asked = s.begin(&mut c).unwrap().unwrap();
    assert!(matches!(asked, Arithmetic::Midpoint { low, high } if value(low) == 1.0 && value(high) == 4.0));
    s.finish(&mut c, num(2.5));
    assert_eq!(value(c.value), 2.5);
    let mut m = Stage::Math(MathStage::new("v + 1").unwrap());
    let refused = m.begin_given(&mut c, &Some("odd".into())).unwrap_err();
    assert_eq!(refused.message(), "expression error: odd");
}

#[test]
fn pipelines_of_bad_stages_are_not_built() {
    let bad = PipelineConfig { sensor_id: "s".into(), stages: vec![StageConfig::Median { window: 0 }] };
    assert!(build_pipelines(&vec![bad]).is_err());
}
