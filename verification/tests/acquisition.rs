use telemux::acquisition::manager::{
    backoff_delay, find_device, not_connected, AcquisitionManager, DeviceAction, DeviceEvent, DeviceLoop,
};
use telemux::acquisition::{
    address_error, address_text, serial_settings, writable_register, write_command, AcquisitionError, ReadCycle,
    ReadReply, ReadRequest, WriteCommand,
};
use telemux::config::{
    Access, Config, DeviceConfig, EndpointsConfig, GeneralConfig, RegisterConfig, RegisterFunction, SimConfig,
    Transport, ValueType, WordOrder,
};
use telemux::config_handle::ConfigHandle;
use telemux::domain::{RawSample, SensorId};
use telemux::mock::{dynamic_value, MockPcba};
use telemux::protocol::modbus_server::{ModbusException, ModbusRequest, ModbusResponse};
use telemux::protocol::WriteValue;
use telemux::store::MetricStore;

fn reg(
    name: &str,
    sensor_id: &str,
    function: RegisterFunction,
    address: u16,
    value_type: ValueType,
    word_order: WordOrder,
) -> RegisterConfig {
    RegisterConfig {
        name: name.to_string(),
        sensor_id: sensor_id.to_string(),
        function,
        address,
        count: Some(value_type.register_count()),
        value_type,
        word_order,
        unit: None,
        access: Access::Read,
    }
}

fn device(registers: Vec<RegisterConfig>) -> DeviceConfig {
    DeviceConfig {
        name: "test-pcba".into(),
        transport: Transport::Tcp,
        unit_id: 1,
        host: "127.0.0.1".into(),
        port: 1502,
        poll_interval_ms: 100,
        timeout_ms: 1000,
        reconnect_initial_ms: 100,
        reconnect_max_ms: 1000,
        serial_port: None,
        baud_rate: None,
        registers,
    }
}

fn config(device: DeviceConfig) -> Config {
    Config {
        general: GeneralConfig::default(),
        devices: vec![device],
        pipelines: vec![],
        computed: vec![],
        endpoints: EndpointsConfig::default(),
        sim: SimConfig { controls: vec![], sensors: vec![] },
    }
}

/// Carries a read over to the board.
fn ask(board: &mut MockPcba, request: ReadRequest) -> ReadReply {
    let req = match request {
        ReadRequest::Coils { address, count } => ModbusRequest::ReadCoils(address, count),
        ReadRequest::DiscreteInputs { address, count } => ModbusRequest::ReadDiscreteInputs(address, count),
        ReadRequest::HoldingRegisters { address, count } => ModbusRequest::ReadHoldingRegisters(address, count),
        ReadRequest::InputRegisters { address, count } => ModbusRequest::ReadInputRegisters(address, count),
    };
    match board.call(&req) {
        Ok(ModbusResponse::ReadCoils(b)) | Ok(ModbusResponse::ReadDiscreteInputs(b)) => ReadReply::Bits(b),
        Ok(ModbusResponse::ReadHoldingRegisters(w)) | Ok(ModbusResponse::ReadInputRegisters(w)) => ReadReply::Words(w),
        other => panic!("{other:?}"),
    }
}

fn read_all(board: &mut MockPcba, d: &DeviceConfig) -> Result<Vec<RawSample>, AcquisitionError> {
    let mut cycle = ReadCycle::new(&d.name);
    while let Some(request) = cycle.next(&d.registers) {
        let reply = ask(board, request);
        cycle.accept(&d.registers, reply, 5)?;
    }
    Ok(cycle.finish())
}

fn by_name(samples: &[RawSample], name: &str) -> f64 {
    f64::from_bits(samples.iter().find(|s| s.name == name).unwrap().raw_value.bits)
}

#[test]
fn tcp_source_decodes_all_value_types() {
    let mut board = MockPcba::fixed();
    let dev = device(vec![
        reg("r_u16", "s.u16", RegisterFunction::Holding, 0, ValueType::U16, WordOrder::Big),
        reg("r_i16", "s.i16", RegisterFunction::Holding, 1, ValueType::I16, WordOrder::Big),
        reg("r_u32", "s.u32", RegisterFunction::Holding, 2, ValueType::U32, WordOrder::Big),
        reg("r_f32", "s.f32", RegisterFunction::Holding, 4, ValueType::F32, WordOrder::Big),
        reg("r_u32l", "s.u32l", RegisterFunction::Holding, 2, ValueType::U32, WordOrder::Little),
        reg("r_in", "s.in", RegisterFunction::Input, 0, ValueType::U16, WordOrder::Big),
    ]);
    let samples = read_all(&mut board, &dev).unwrap();
    assert_eq!(samples.len(), 6);
    assert_eq!(by_name(&samples, "r_u16"), 0x1234 as f64);
    assert_eq!(by_name(&samples, "r_i16"), -1.0);
    assert_eq!(by_name(&samples, "r_u32"), 0xDEAD_BEEFu32 as f64);
    assert_eq!(by_name(&samples, "r_u32l"), 0xBEEF_DEADu32 as f64);
    assert_eq!(by_name(&samples, "r_f32"), 12.5);
    assert_eq!(by_name(&samples, "r_in"), 200.0);
}

#[test]
fn manager_streams_samples_from_mock() {
    let mut board = MockPcba::dynamic();
    let dev = device(vec![reg("r0", "s.0", RegisterFunction::Holding, 0, ValueType::U16, WordOrder::Big)]);
    let handle = ConfigHandle::new(config(dev), "unused.toml".into(), true);
    let manager = AcquisitionManager::new(&handle);
    assert_eq!(manager.device_count(), 1);
    let dev = find_device(handle.read(), &manager.device_name(0).to_string()).unwrap();
    let mut task = DeviceLoop::new();
    assert_eq!(task.retime(dev), Some(100));
    assert_eq!(task.retime(dev), None);
    assert_eq!(task.step(dev, DeviceEvent::Tick), DeviceAction::Connect);
    assert_eq!(task.step(dev, DeviceEvent::Connected(true)), DeviceAction::Read);
    let batch = read_all(&mut board, dev).unwrap();
    assert_eq!(task.step(dev, DeviceEvent::Read(true)), DeviceAction::Deliver);
    assert_eq!(task.step(dev, DeviceEvent::Delivered(true)), DeviceAction::Wait);
    assert_eq!(batch.len(), 1);
    assert_eq!(batch[0].sensor_id.as_str(), "s.0");
    assert_eq!(by_name(&batch, "r0"), 251.0);
    assert_eq!(by_name(&read_all(&mut board, dev).unwrap(), "r0"), 252.0);
}

#[test]
fn survives_device_outage_and_recovers() {
    let mut board = MockPcba::dynamic();
    let dev = device(vec![reg("r0", "s.0", RegisterFunction::Holding, 0, ValueType::U16, WordOrder::Big)]);
    let mut store = MetricStore::new();
    let mut task = DeviceLoop::new();
    task.step(&dev, DeviceEvent::Connected(true));
    store.update_batch_raw(&read_all(&mut board, &dev).unwrap());
    let id = SensorId("s.0".into());
    let v_before = store.get(&id).unwrap().raw.as_ref().unwrap().raw_value;
    store.update_batch_raw(&read_all(&mut board, &dev).unwrap());
    let v_after = store.get(&id).unwrap().raw.as_ref().unwrap().raw_value;
    assert_ne!(v_before, v_after, "dynamic values must keep flowing");
    assert_eq!(store.len(), 1, "store bounded during steady state");

    assert_eq!(task.step(&dev, DeviceEvent::Read(false)), DeviceAction::BackOff(200));
    assert_eq!(task.step(&dev, DeviceEvent::Tick), DeviceAction::Connect);
    assert_eq!(task.step(&dev, DeviceEvent::Connected(false)), DeviceAction::BackOff(400));
    assert_eq!(task.step(&dev, DeviceEvent::Write(true)), DeviceAction::RefuseWrite);

    assert_eq!(task.step(&dev, DeviceEvent::Tick), DeviceAction::Connect);
    assert_eq!(task.step(&dev, DeviceEvent::Connected(true)), DeviceAction::Read);
    assert_eq!(task.failures, 0);
    store.update_batch_raw(&read_all(&mut board, &dev).unwrap());
    assert_ne!(store.get(&id).unwrap().raw.as_ref().unwrap().raw_value, v_after);
    assert_eq!(store.len(), 1, "store must stay bounded (1 sensor)");
    assert_eq!(task.step(&dev, DeviceEvent::Write(true)), DeviceAction::ForwardWrite);
    assert_eq!(task.step(&dev, DeviceEvent::Shutdown), DeviceAction::Stop);
}

#[test]
fn rtu_source_reads_registers() {
    let dev = device(vec![reg("r0", "rtu.r0", RegisterFunction::Holding, 0, ValueType::U16, WordOrder::Big)]);
    let mut cycle = ReadCycle::new("rtu-test");
    assert_eq!(cycle.next(&dev.registers), Some(ReadRequest::HoldingRegisters { address: 0, count: 1 }));
    cycle.accept(&dev.registers, ReadReply::Words(vec![0x1234]), 0).unwrap();
    assert_eq!(cycle.next(&dev.registers), None);
    let samples = cycle.finish();
    assert_eq!(samples.len(), 1);
    assert_eq!(by_name(&samples, "r0"), 0x1234 as f64);
}

#[test]
fn rtu_source_surfaces_exception() {
    let dev = device(vec![reg("r0", "rtu.r0", RegisterFunction::Holding, 0, ValueType::U16, WordOrder::Big)]);
    let mut cycle = ReadCycle::new("rtu-test");
    let failure = ReadReply::Failed(AcquisitionError::Exception("IllegalDataAddress".into()));
    let err = cycle.accept(&dev.registers, failure, 0).unwrap_err();
    assert!(matches!(&err, AcquisitionError::Exception(code) if code == "IllegalDataAddress"));
    assert_eq!(err.message(), "modbus exception from slave: IllegalDataAddress");
}

#[test]
fn a_short_reply_ends_a_cycle() {
    let dev = device(vec![reg("r0", "s.0", RegisterFunction::Input, 9, ValueType::F32, WordOrder::Big)]);
    let mut cycle = ReadCycle::new("d");
    assert_eq!(cycle.next(&dev.registers), Some(ReadRequest::InputRegisters { address: 9, count: 2 }));
    assert!(cycle.accept(&dev.registers, ReadReply::Words(vec![1]), 0).is_err());
    assert!(cycle.finish().is_empty());
}

#[test]
fn an_empty_reply_of_bits_is_off() {
    let dev = device(vec![reg("r0", "s.0", RegisterFunction::Coil, 3, ValueType::Bool, WordOrder::Big)]);
    let mut cycle = ReadCycle::new("d");
    assert_eq!(cycle.next(&dev.registers), Some(ReadRequest::Coils { address: 3, count: 1 }));
    cycle.accept(&dev.registers, ReadReply::Bits(vec![]), 0).unwrap();
    assert_eq!(by_name(&cycle.finish(), "r0"), 0.0);
}

#[test]
fn delays_double_up_to_the_maximum() {
    let dev = device(vec![]);
    let delays: Vec<u64> = (0..6).map(|n| backoff_delay(&dev, n)).collect();
    assert_eq!(delays, vec![100, 200, 400, 800, 1000, 1000]);
    assert_eq!(backoff_delay(&dev, u64::MAX), 1000);
    let mut zero = device(vec![]);
    zero.reconnect_initial_ms = 0;
    zero.reconnect_max_ms = u64::MAX;
    assert_eq!(backoff_delay(&zero, 0), 1);
    assert_eq!(backoff_delay(&zero, 50), 1024);
    let mut long = device(vec![]);
    long.reconnect_initial_ms = 500;
    long.reconnect_max_ms = 20;
    assert_eq!((backoff_delay(&long, 0), backoff_delay(&long, 9)), (500, 500));
}

#[test]
fn writes_go_to_open_registers_only() {
    let mut duty = reg("duty", "s.duty", RegisterFunction::Holding, 7, ValueType::U16, WordOrder::Big);
    duty.access = Access::ReadWrite;
    let mut relay = reg("relay", "s.relay", RegisterFunction::Coil, 2, ValueType::Bool, WordOrder::Big);
    relay.access = Access::ReadWrite;
    let fixed = reg("fixed", "s.fixed", RegisterFunction::Holding, 8, ValueType::U16, WordOrder::Big);
    let dev = device(vec![duty, relay, fixed]);
    assert_eq!(
        write_command(&dev, "s.duty", WriteValue::Holding(60)).unwrap(),
        WriteCommand::Register { address: 7, word: 60 }
    );
    assert_eq!(
        write_command(&dev, "s.relay", WriteValue::Coil(true)).unwrap(),
        WriteCommand::Coil { address: 2, bit: true }
    );
    assert!(write_command(&dev, "s.duty", WriteValue::Coil(true)).is_err());
    assert!(write_command(&dev, "s.none", WriteValue::Holding(1)).is_err());
    assert_eq!(
        write_command(&dev, "s.fixed", WriteValue::Holding(1)).unwrap_err().message(),
        "device `test-pcba`: sensor `s.fixed` is read-only (access=read)"
    );
    assert_eq!(writable_register(&dev, "s.duty").unwrap().address, 7);
    assert_eq!(not_connected(&dev).message(), "device `test-pcba`: device not connected (write refused)");
}

#[test]
fn connections_take_their_settings() {
    let mut dev = device(vec![]);
    assert_eq!(address_text(&dev), "127.0.0.1:1502");
    assert_eq!(
        address_error(&dev, "bad").message(),
        "device `test-pcba`: invalid address `127.0.0.1:1502`: bad"
    );
    assert!(serial_settings(&dev).unwrap_err().message().contains("serial_port"));
    dev.serial_port = Some("COM3".into());
    assert!(serial_settings(&dev).unwrap_err().message().contains("baud_rate"));
    dev.baud_rate = Some(9600);
    assert_eq!(serial_settings(&dev).unwrap(), ("COM3", 9600));
}

#[test]
fn every_error_has_a_text() {
    let text = |e: AcquisitionError| e.message();
    assert_eq!(text(AcquisitionError::Modbus("x".into())), "modbus transport error: x");
    assert_eq!(text(AcquisitionError::Io("x".into())), "io error: x");
    assert_eq!(text(AcquisitionError::Serial("x".into())), "serial port error: x");
    assert_eq!(text(AcquisitionError::Timeout(0)), "request timed out after 0ns");
    assert_eq!(text(AcquisitionError::Timeout(250)), "request timed out after 250ms");
    assert_eq!(text(AcquisitionError::Timeout(1000)), "request timed out after 1s");
    assert_eq!(text(AcquisitionError::Timeout(1025)), "request timed out after 1.025s");
}

// ---- the board ----

#[test]
fn mock_pcba_serves_modbus() {
    let mut board = MockPcba::fixed();
    match board.call(&ModbusRequest::ReadHoldingRegisters(0, 6)).unwrap() {
        ModbusResponse::ReadHoldingRegisters(w) => assert_eq!(w, vec![0x1234, 0xFFFF, 0xDEAD, 0xBEEF, 0x4148, 0]),
        other => panic!("{other:?}"),
    }
    match board.call(&ModbusRequest::ReadInputRegisters(0, 2)).unwrap() {
        ModbusResponse::ReadInputRegisters(w) => assert_eq!(w, vec![200, 0xFFFF]),
        other => panic!("{other:?}"),
    }
    assert_eq!(board.request_count, 2);
}

#[test]
fn written_registers_are_read_back() {
    let mut board = MockPcba::from_maps(vec![1, 2, 3], vec![]);
    board.call(&ModbusRequest::WriteSingleRegister(1, 99)).unwrap();
    board.call(&ModbusRequest::WriteSingleCoil(4, true)).unwrap();
    board.call(&ModbusRequest::WriteMultipleRegisters(2, vec![7, 8])).unwrap();
    assert_eq!(board.words(true, 0, 4), vec![1, 99, 7, 0]);
    assert_eq!(board.bits(true, 3, 3), vec![false, true, false]);
    assert!(matches!(board.call(&ModbusRequest::Other), Err(ModbusException::IllegalFunction)));
}

#[test]
fn dynamic_boards_count_reads() {
    let mut board = MockPcba::dynamic();
    assert_eq!(board.words(true, 0, 5), vec![251, 3201, 0, 1, 0x4148]);
    assert_eq!(board.words(false, 0, 3), vec![12502, 902, 0]);
    assert_eq!(dynamic_value(true, 0, 50), 250);
    assert_eq!(dynamic_value(true, 2, 0x2_0003), 2);
    assert_eq!(dynamic_value(true, 3, 0x2_0003), 3);
}
