use sage_os::ai_subsystem::{
    load_model, subsystem, AiError, AiModel, AiModelType, AiPrecision, AiSubsystem, DriverReport,
    ModelInfo,
};

fn info() -> ModelInfo {
    ModelInfo {
        id: 9,
        model_type: AiModelType::Detection,
        precision: AiPrecision::INT8,
        input_size: 4,
        output_size: 2,
    }
}

fn up() -> AiSubsystem {
    let mut ai = AiSubsystem::new();
    let report = DriverReport {
        init_status: 0,
        version: Some(b"1.2.3\0garbage".to_vec()),
        capabilities: Some((0x4150_0000, 8192)),
    };
    assert_eq!(ai.init(&report), Ok(()));
    ai
}

#[test]
fn model_types_and_precisions_have_their_codes() {
    let kinds = [
        AiModelType::Unknown,
        AiModelType::Classification,
        AiModelType::Detection,
        AiModelType::Segmentation,
        AiModelType::Generation,
        AiModelType::Custom,
    ];
    for (code, kind) in kinds.iter().enumerate() {
        assert_eq!(kind.code(), code as u32);
        assert_eq!(AiModelType::from_code(code as u32), Some(*kind));
    }
    assert_eq!(AiModelType::from_code(6), None);
    assert_eq!(AiModelType::from_code(u32::MAX), None);
    let formats = [
        AiPrecision::Unknown,
        AiPrecision::FP32,
        AiPrecision::FP16,
        AiPrecision::INT8,
        AiPrecision::INT4,
    ];
    for (code, format) in formats.iter().enumerate() {
        assert_eq!(format.code(), code as u32);
        assert_eq!(AiPrecision::from_code(code as u32), Some(*format));
    }
    assert_eq!(AiPrecision::from_code(5), None);
}

#[test]
fn errors_have_their_messages() {
    assert_eq!(AiError::LoadFailed.message(), "Failed to load AI model");
    assert_eq!(AiError::InputSizeMismatch.message(), "Input data size mismatch");
    assert_eq!(AiError::InferenceFailed.message(), "Inference failed");
    assert_eq!(AiError::InitFailed.message(), "Failed to initialize AI HAT+");
    assert_eq!(AiError::NotInitialized.message(), "AI subsystem not initialized");
    assert_eq!(AiError::PowerModeFailed.message(), "Failed to set power mode");
    assert_eq!(AiError::PowerReadFailed.message(), "Failed to get power consumption");
    assert_eq!(AiError::TemperatureReadFailed.message(), "Failed to get temperature");
}

#[test]
fn a_load_that_succeeded_gives_the_model() {
    let model = AiModel::new(0, info()).unwrap();
    assert_eq!(model.id(), 9);
    assert_eq!(model.model_type(), AiModelType::Detection);
    assert_eq!(model.precision(), AiPrecision::INT8);
    assert_eq!(model.input_size(), 4);
    assert_eq!(model.output_size(), 2);
}

#[test]
fn a_load_that_failed_gives_no_model() {
    assert_eq!(AiModel::new(-1, info()).unwrap_err(), AiError::LoadFailed);
    assert_eq!(AiModel::new(1, info()).unwrap_err(), AiError::LoadFailed);
    assert_eq!(AiModel::new(i32::MIN, info()).unwrap_err(), AiError::LoadFailed);
}

#[test]
fn input_must_have_the_size_of_the_model() {
    let model = AiModel::new(0, info()).unwrap();
    assert_eq!(model.check_input(4), Ok(()));
    assert_eq!(model.check_input(3), Err(AiError::InputSizeMismatch));
    assert_eq!(model.check_input(5), Err(AiError::InputSizeMismatch));
    assert_eq!(model.check_input(0), Err(AiError::InputSizeMismatch));
}

#[test]
fn inference_gives_the_output_or_an_error() {
    let model = AiModel::new(0, info()).unwrap();
    assert_eq!(model.run_inference(0, vec![1, 2]), Ok(vec![1, 2]));
    assert_eq!(model.run_inference(0, Vec::new()), Ok(Vec::new()));
    assert_eq!(model.run_inference(-5, vec![1, 2]), Err(AiError::InferenceFailed));
}

#[test]
fn a_new_accelerator_is_not_up() {
    let ai = AiSubsystem::new();
    assert!(!ai.is_initialized());
    assert_eq!(ai.version(), "");
    assert_eq!(ai.tops_bits(), 0);
    assert_eq!(ai.memory_mb(), 0);
    assert_eq!(ai.check_initialized(), Err(AiError::NotInitialized));
}

#[test]
fn init_takes_version_and_capabilities_from_the_report() {
    let ai = up();
    assert!(ai.is_initialized());
    assert_eq!(ai.version(), "1.2.3");
    assert_eq!(ai.tops_bits(), 0x4150_0000);
    assert_eq!(f32::from_bits(ai.tops_bits()), 13.0);
    assert_eq!(ai.memory_mb(), 8192);
    assert_eq!(ai.check_initialized(), Ok(()));
}

#[test]
fn version_without_a_zero_byte_is_the_whole_buffer() {
    let mut ai = AiSubsystem::new();
    let report = DriverReport { init_status: 0, version: Some(b"v2".to_vec()), capabilities: None };
    assert_eq!(ai.init(&report), Ok(()));
    assert_eq!(ai.version(), "v2");
    assert_eq!(ai.tops_bits(), 0);
    assert_eq!(ai.memory_mb(), 0);
}

#[test]
fn version_that_starts_with_a_zero_byte_is_empty() {
    let mut ai = AiSubsystem::new();
    let report = DriverReport { init_status: 0, version: Some(vec![0; 64]), capabilities: None };
    assert_eq!(ai.init(&report), Ok(()));
    assert_eq!(ai.version(), "");
}

#[test]
fn version_bytes_that_are_not_utf8_are_replaced() {
    let mut ai = AiSubsystem::new();
    let report = DriverReport {
        init_status: 0,
        version: Some(vec![b'a', 0xFF, b'b', 0, b'c']),
        capabilities: None,
    };
    assert_eq!(ai.init(&report), Ok(()));
    assert_eq!(ai.version(), "a\u{FFFD}b");
}

#[test]
fn version_is_unknown_without_a_buffer() {
    let mut ai = AiSubsystem::new();
    let report = DriverReport { init_status: 0, version: None, capabilities: Some((1, 2)) };
    assert_eq!(ai.init(&report), Ok(()));
    assert_eq!(ai.version(), "Unknown");
    assert_eq!(ai.tops_bits(), 1);
    assert_eq!(ai.memory_mb(), 2);
}

#[test]
fn a_failed_bring_up_changes_nothing() {
    let mut ai = AiSubsystem::new();
    let report = DriverReport {
        init_status: -1,
        version: Some(b"1.0".to_vec()),
        capabilities: Some((3, 4)),
    };
    assert_eq!(ai.init(&report), Err(AiError::InitFailed));
    assert!(!ai.is_initialized());
    assert_eq!(ai.version(), "");
    assert_eq!(ai.tops_bits(), 0);
    assert_eq!(ai.memory_mb(), 0);
}

#[test]
fn a_second_init_changes_nothing() {
    let mut ai = up();
    let report = DriverReport {
        init_status: -1,
        version: Some(b"9.9".to_vec()),
        capabilities: Some((5, 6)),
    };
    assert_eq!(ai.init(&report), Ok(()));
    assert_eq!(ai.version(), "1.2.3");
    assert_eq!(ai.tops_bits(), 0x4150_0000);
    assert_eq!(ai.memory_mb(), 8192);
}

#[test]
fn power_and_temperature_need_the_accelerator_up() {
    let ai = AiSubsystem::new();
    assert_eq!(ai.set_power_mode(0), Err(AiError::NotInitialized));
    assert_eq!(ai.get_power(0, 1500), Err(AiError::NotInitialized));
    assert_eq!(ai.get_temperature(0, 0x4228_0000), Err(AiError::NotInitialized));
}

#[test]
fn power_and_temperature_follow_the_status() {
    let ai = up();
    assert_eq!(ai.set_power_mode(0), Ok(()));
    assert_eq!(ai.set_power_mode(2), Err(AiError::PowerModeFailed));
    assert_eq!(ai.get_power(0, 1500), Ok(1500));
    assert_eq!(ai.get_power(-1, 1500), Err(AiError::PowerReadFailed));
    assert_eq!(ai.get_temperature(0, 0x4228_0000), Ok(0x4228_0000));
    assert_eq!(f32::from_bits(ai.get_temperature(0, 0x4228_0000).unwrap()), 42.0);
    assert_eq!(ai.get_temperature(7, 0x4228_0000), Err(AiError::TemperatureReadFailed));
}

#[test]
fn models_load_only_once_the_kernel_has_its_accelerator() {
    let none: Option<AiSubsystem> = None;
    assert!(subsystem(&none).is_err());
    assert_eq!(load_model(&none, 0, info()).unwrap_err(), AiError::NotInitialized);
    let some = Some(AiSubsystem::new());
    assert!(subsystem(&some).is_ok());
    assert_eq!(load_model(&some, 0, info()).unwrap().id(), 9);
    assert_eq!(load_model(&some, 3, info()).unwrap_err(), AiError::LoadFailed);
}
