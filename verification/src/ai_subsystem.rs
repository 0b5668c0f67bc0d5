//! The accelerator binding: what the kernel keeps of the accelerator and of
//! its models, and what it makes of the answers of the driver.
//!
//! The driver itself is foreign code. Its caller hands the answers over as
//! plain values: a status, which is zero for success, and what came with it.

use vstd::prelude::*;
use vstd::slice::slice_subrange;
use vstd::utf8::{decode_utf8, valid_utf8};

verus! {

/// What kind of model the accelerator holds.
#[derive(Clone, Copy, Debug, PartialEq, Eq, Structural)]
pub enum AiModelType {
    Unknown,
    Classification,
    Detection,
    Segmentation,
    Generation,
    Custom,
}

/// The number format in which a model computes.
#[derive(Clone, Copy, Debug, PartialEq, Eq, Structural)]
pub enum AiPrecision {
    Unknown,
    FP32,
    FP16,
    INT8,
    INT4,
}

impl AiModelType {
    /// The number by which the driver names this kind.
    pub open spec fn spec_code(self) -> u32 {
        match self {
            AiModelType::Unknown => 0,
            AiModelType::Classification => 1,
            AiModelType::Detection => 2,
            AiModelType::Segmentation => 3,
            AiModelType::Generation => 4,
            AiModelType::Custom => 5,
        }
    }

    /// The kind that the driver names by `code`, if it names one.
    pub open spec fn spec_from_code(code: u32) -> Option<AiModelType> {
        match code {
            0 => Some(AiModelType::Unknown),
            1 => Some(AiModelType::Classification),
            2 => Some(AiModelType::Detection),
            3 => Some(AiModelType::Segmentation),
            4 => Some(AiModelType::Generation),
            5 => Some(AiModelType::Custom),
            _ => None,
        }
    }

    /// The number by which the driver names this kind.
    #[verifier::when_used_as_spec(spec_code)]
    pub fn code(self) -> (code: u32)
        ensures
            code == self.spec_code(),
    {
        match self {
            AiModelType::Unknown => 0,
            AiModelType::Classification => 1,
            AiModelType::Detection => 2,
            AiModelType::Segmentation => 3,
            AiModelType::Generation => 4,
            AiModelType::Custom => 5,
        }
    }

    /// The kind that the driver names by `code`: one of the six, for the
    /// codes 0 to 5, and none for any other.
    pub fn from_code(code: u32) -> (kind: Option<AiModelType>)
        ensures
            kind == Self::spec_from_code(code),
    {
        match code {
            0 => Some(AiModelType::Unknown),
            1 => Some(AiModelType::Classification),
            2 => Some(AiModelType::Detection),
            3 => Some(AiModelType::Segmentation),
            4 => Some(AiModelType::Generation),
            5 => Some(AiModelType::Custom),
            _ => None,
        }
    }
}

impl AiPrecision {
    /// The number by which the driver names this format.
    pub open spec fn spec_code(self) -> u32 {
        match self {
            AiPrecision::Unknown => 0,
            AiPrecision::FP32 => 1,
            AiPrecision::FP16 => 2,
            AiPrecision::INT8 => 3,
            AiPrecision::INT4 => 4,
        }
    }

    /// The format that the driver names by `code`, if it names one.
    pub open spec fn spec_from_code(code: u32) -> Option<AiPrecision> {
        match code {
            0 => Some(AiPrecision::Unknown),
            1 => Some(AiPrecision::FP32),
            2 => Some(AiPrecision::FP16),
            3 => Some(AiPrecision::INT8),
            4 => Some(AiPrecision::INT4),
            _ => None,
        }
    }

    /// The number by which the driver names this format.
    #[verifier::when_used_as_spec(spec_code)]
    pub fn code(self) -> (code: u32)
        ensures
            code == self.spec_code(),
    {
        match self {
            AiPrecision::Unknown => 0,
            AiPrecision::FP32 => 1,
            AiPrecision::FP16 => 2,
            AiPrecision::INT8 => 3,
            AiPrecision::INT4 => 4,
        }
    }

    /// The format that the driver names by `code`: one of the five, for
    /// the codes 0 to 4, and none for any other.
    pub fn from_code(code: u32) -> (precision: Option<AiPrecision>)
        ensures
            precision == Self::spec_from_code(code),
    {
        match code {
            0 => Some(AiPrecision::Unknown),
            1 => Some(AiPrecision::FP32),
            2 => Some(AiPrecision::FP16),
            3 => Some(AiPrecision::INT8),
            4 => Some(AiPrecision::INT4),
            _ => None,
        }
    }
}

/// Every kind and every format is named by one code, and that code names it.
pub proof fn lemma_codes_round_trip(kind: AiModelType, precision: AiPrecision)
    ensures
        AiModelType::spec_from_code(kind.spec_code()) == Some(kind),
        AiPrecision::spec_from_code(precision.spec_code()) == Some(precision),
{
}

/// Why a request to the accelerator binding failed.
#[derive(Clone, Copy, Debug, PartialEq, Eq, Structural)]
pub enum AiError {
    /// The driver could not load the model.
    LoadFailed,
    /// The input does not have the size that the model takes.
    InputSizeMismatch,
    /// The driver could not run the model.
    InferenceFailed,
    /// The driver could not bring the accelerator up.
    InitFailed,
    /// The accelerator was not brought up.
    NotInitialized,
    /// The driver could not set the power mode.
    PowerModeFailed,
    /// The driver could not read the power drawn.
    PowerReadFailed,
    /// The driver could not read the temperature.
    TemperatureReadFailed,
}

impl AiError {
    /// The error in words.
    pub fn message(self) -> (text: &'static str)
        ensures
            text@ == match self {
                AiError::LoadFailed => "Failed to load AI model"@,
                AiError::InputSizeMismatch => "Input data size mismatch"@,
                AiError::InferenceFailed => "Inference failed"@,
                AiError::InitFailed => "Failed to initialize AI HAT+"@,
                AiError::NotInitialized => "AI subsystem not initialized"@,
                AiError::PowerModeFailed => "Failed to set power mode"@,
                AiError::PowerReadFailed => "Failed to get power consumption"@,
                AiError::TemperatureReadFailed => "Failed to get temperature"@,
            },
    {
        match self {
            AiError::LoadFailed => "Failed to load AI model",
            AiError::InputSizeMismatch => "Input data size mismatch",
            AiError::InferenceFailed => "Inference failed",
            AiError::InitFailed => "Failed to initialize AI HAT+",
            AiError::NotInitialized => "AI subsystem not initialized",
            AiError::PowerModeFailed => "Failed to set power mode",
            AiError::PowerReadFailed => "Failed to get power consumption",
            AiError::TemperatureReadFailed => "Failed to get temperature",
        }
    }
}

/// What the driver reports of a model that it has loaded.
#[derive(Clone, Copy, Debug, PartialEq, Eq, Structural)]
pub struct ModelInfo {
    /// The number by which the driver knows the model.
    pub id: u32,
    /// What kind of model it is.
    pub model_type: AiModelType,
    /// The number format in which it computes.
    pub precision: AiPrecision,
    /// The size of its input, in bytes.
    pub input_size: usize,
    /// The size of its output, in bytes.
    pub output_size: usize,
}

/// A model that the accelerator holds.
#[derive(Debug)]
pub struct AiModel {
    inner: ModelInfo,
}

impl AiModel {
    /// What the driver reported of the model.
    pub closed spec fn view(&self) -> ModelInfo {
        self.inner
    }

    /// Makes a model of the driver's answer to a load: the model that
    /// `info` describes if the status is zero, and no model otherwise.
    pub fn new(status: i32, info: ModelInfo) -> (model: Result<AiModel, AiError>)
        ensures
            status == 0 ==> model is Ok && model->Ok_0@ == info,
            status != 0 ==> model == Err::<AiModel, AiError>(AiError::LoadFailed),
    {
        if status != 0 {
            return Err(AiError::LoadFailed);
        }
        Ok(AiModel { inner: info })
    }

    /// Tells whether an input of `input_len` bytes can be run: it can if
    /// that is the input size of the model.
    pub fn check_input(&self, input_len: usize) -> (check: Result<(), AiError>)
        ensures
            input_len == self@.input_size ==> check == Ok::<(), AiError>(()),
            input_len != self@.input_size ==> check == Err::<(), AiError>(
                AiError::InputSizeMismatch,
            ),
    {
        if input_len != self.inner.input_size {
            return Err(AiError::InputSizeMismatch);
        }
        Ok(())
    }

    /// Makes the result of a run of the driver's answer: the output bytes
    /// if the status is zero, and an error otherwise.
    pub fn run_inference(&self, status: i32, output: Vec<u8>) -> (result: Result<
        Vec<u8>,
        AiError,
    >)
        ensures
            status == 0 ==> result == Ok::<Vec<u8>, AiError>(output),
            status != 0 ==> result == Err::<Vec<u8>, AiError>(AiError::InferenceFailed),
    {
        if status != 0 {
            return Err(AiError::InferenceFailed);
        }
        Ok(output)
    }

    /// The number by which the driver knows the model.
    pub fn id(&self) -> (id: u32)
        ensures
            id == self@.id,
    {
        self.inner.id
    }

    /// What kind of model it is.
    pub fn model_type(&self) -> (kind: AiModelType)
        ensures
            kind == self@.model_type,
    {
        self.inner.model_type
    }

    /// The number format in which it computes.
    pub fn precision(&self) -> (precision: AiPrecision)
        ensures
            precision == self@.precision,
    {
        self.inner.precision
    }

    /// The size of its input, in bytes.
    pub fn input_size(&self) -> (size: usize)
        ensures
            size == self@.input_size,
    {
        self.inner.input_size
    }

    /// The size of its output, in bytes.
    pub fn output_size(&self) -> (size: usize)
        ensures
            size == self@.output_size,
    {
        self.inner.output_size
    }
}

/// The text that `String::from_utf8_lossy` makes of bytes.
pub uninterp spec fn utf8_lossy(bytes: Seq<u8>) -> Seq<char>;

/// Calls `String::from_utf8_lossy` and takes the text it gives as a
/// `String`. The text depends on the bytes alone; where the bytes are valid
/// UTF-8 it is the text that they encode, and elsewhere the function puts
/// U+FFFD in place of what is not valid.
#[verifier::external_body]
fn decode_lossy(bytes: &[u8]) -> (text: String)
    ensures
        text@ == utf8_lossy(bytes@),
        valid_utf8(bytes@) ==> text@ == decode_utf8(bytes@),
{
    String::from_utf8_lossy(bytes).into_owned()
}

/// The number of bytes before the first zero byte, or the number of all
/// bytes if none is zero.
pub open spec fn terminated_len(bytes: Seq<u8>) -> int
    decreases bytes.len(),
{
    if bytes.len() == 0 || bytes[0] == 0 {
        0
    } else {
        1 + terminated_len(bytes.skip(1))
    }
}

/// The bytes before the first zero byte: what a buffer holds of a
/// zero-terminated text.
pub open spec fn terminated(bytes: Seq<u8>) -> Seq<u8> {
    bytes.take(terminated_len(bytes))
}

/// The bytes before the first zero byte lie within the buffer.
pub proof fn lemma_terminated_len_bounds(bytes: Seq<u8>)
    ensures
        0 <= terminated_len(bytes) <= bytes.len(),
    decreases bytes.len(),
{
    if bytes.len() > 0 && bytes[0] != 0 {
        lemma_terminated_len_bounds(bytes.skip(1));
    }
}

/// What the driver answers when the accelerator is brought up.
pub struct DriverReport {
    /// Status of the bring-up itself.
    pub init_status: i32,
    /// The buffer into which the driver wrote its version, if it did.
    pub version: Option<Vec<u8>>,
    /// The throughput, as the bits of a single-precision float, and the
    /// memory in megabytes, if the driver told them.
    pub capabilities: Option<(u32, u32)>,
}

/// What an accelerator is, to its contracts.
pub struct AiState {
    /// The accelerator was brought up.
    pub initialized: bool,
    /// Version of the accelerator.
    pub version: Seq<char>,
    /// Throughput in TOPS, as the bits of a single-precision float.
    pub tops_bits: u32,
    /// Memory in megabytes.
    pub memory_mb: u32,
}

/// The version that a report gives: the text before the first zero byte of
/// the buffer, or `Unknown` without a buffer.
pub open spec fn reported_version(report: DriverReport) -> Seq<char> {
    match report.version {
        Some(buffer) => utf8_lossy(terminated(buffer@)),
        None => "Unknown"@,
    }
}

/// The accelerator after a bring-up with the given report.
///
/// Nothing changes if it was brought up before, or if the bring-up failed.
/// Otherwise it is up, with the version of the report and with the
/// capabilities of the report if it has them.
pub open spec fn after_init(state: AiState, report: DriverReport) -> AiState {
    if state.initialized || report.init_status != 0 {
        state
    } else {
        AiState {
            initialized: true,
            version: reported_version(report),
            tops_bits: match report.capabilities {
                Some(c) => c.0,
                None => state.tops_bits,
            },
            memory_mb: match report.capabilities {
                Some(c) => c.1,
                None => state.memory_mb,
            },
        }
    }
}

/// The accelerator, as far as the kernel knows it.
pub struct AiSubsystem {
    initialized: bool,
    version: String,
    tops_bits: u32,
    memory_mb: u32,
}

impl AiSubsystem {
    /// What the accelerator is, to its contracts.
    pub closed spec fn view(&self) -> AiState {
        AiState {
            initialized: self.initialized,
            version: self.version@,
            tops_bits: self.tops_bits,
            memory_mb: self.memory_mb,
        }
    }

    /// An accelerator that is not brought up: no version, zero throughput,
    /// zero memory.
    pub fn new() -> (subsystem: Self)
        ensures
            subsystem@ == (AiState {
                initialized: false,
                version: Seq::<char>::empty(),
                tops_bits: 0,
                memory_mb: 0,
            }),
    {
        AiSubsystem { initialized: false, version: String::new(), tops_bits: 0, memory_mb: 0 }
    }

    /// Tells whether the accelerator was brought up.
    pub fn is_initialized(&self) -> (flag: bool)
        ensures
            flag == self@.initialized,
    {
        self.initialized
    }

    /// Takes the driver's answer to a bring-up.
    ///
    /// An accelerator that is up stays as it is, whatever the report. A
    /// report of a failed bring-up is an error and changes nothing.
    pub fn init(&mut self, report: &DriverReport) -> (result: Result<(), AiError>)
        ensures
            final(self)@ == after_init(old(self)@, *report),
            !old(self)@.initialized && report.init_status != 0 ==> result == Err::<(), AiError>(
                AiError::InitFailed,
            ),
            old(self)@.initialized || report.init_status == 0 ==> result == Ok::<(), AiError>(()),
    {
        if self.initialized {
            return Ok(());
        }
        if report.init_status != 0 {
            return Err(AiError::InitFailed);
        }
        match &report.version {
            Some(buffer) => {
                let mut len: usize = 0;
                assert(buffer@.skip(0) =~= buffer@);
                while len < buffer.len() && buffer[len] != 0
                    invariant
                        len <= buffer.len(),
                        terminated_len(buffer@) == len + terminated_len(buffer@.skip(len as int)),
                    decreases buffer.len() - len,
                {
                    assert(buffer@.skip(len as int)[0] == buffer@[len as int]);
                    assert(buffer@.skip(len as int).skip(1) =~= buffer@.skip(len + 1));
                    len += 1;
                }
                assert(terminated_len(buffer@) == len) by {
                    if len < buffer.len() {
                        assert(buffer@.skip(len as int)[0] == buffer@[len as int]);
                    }
                }
                let text = slice_subrange(buffer.as_slice(), 0, len);
                assert(text@ =~= terminated(buffer@));
                self.version = decode_lossy(text);
            },
            None => {
                self.version = "Unknown".to_string();
            },
        }
        match report.capabilities {
            Some((tops_bits, memory_mb)) => {
                self.tops_bits = tops_bits;
                self.memory_mb = memory_mb;
            },
            None => {},
        }
        self.initialized = true;
        Ok(())
    }

    /// Version of the accelerator.
    pub fn version(&self) -> (version: &str)
        ensures
            version@ == self@.version,
    {
        self.version.as_str()
    }

    /// Throughput in TOPS, as the bits of a single-precision float.
    pub fn tops_bits(&self) -> (bits: u32)
        ensures
            bits == self@.tops_bits,
    {
        self.tops_bits
    }

    /// Memory in megabytes.
    pub fn memory_mb(&self) -> (memory: u32)
        ensures
            memory == self@.memory_mb,
    {
        self.memory_mb
    }

    /// Tells whether the driver may be asked about power and temperature:
    /// it may once the accelerator is up.
    pub fn check_initialized(&self) -> (check: Result<(), AiError>)
        ensures
            self@.initialized ==> check == Ok::<(), AiError>(()),
            !self@.initialized ==> check == Err::<(), AiError>(AiError::NotInitialized),
    {
        if !self.initialized {
            return Err(AiError::NotInitialized);
        }
        Ok(())
    }

    /// Makes the result of setting the power mode of the driver's status.
    pub fn set_power_mode(&self, status: i32) -> (result: Result<(), AiError>)
        ensures
            !self@.initialized ==> result == Err::<(), AiError>(AiError::NotInitialized),
            self@.initialized && status != 0 ==> result == Err::<(), AiError>(
                AiError::PowerModeFailed,
            ),
            self@.initialized && status == 0 ==> result == Ok::<(), AiError>(()),
    {
        if !self.initialized {
            return Err(AiError::NotInitialized);
        }
        if status != 0 {
            return Err(AiError::PowerModeFailed);
        }
        Ok(())
    }

    /// Makes the power drawn, in milliwatts, of the driver's answer.
    pub fn get_power(&self, status: i32, power_mw: u32) -> (result: Result<u32, AiError>)
        ensures
            !self@.initialized ==> result == Err::<u32, AiError>(AiError::NotInitialized),
            self@.initialized && status != 0 ==> result == Err::<u32, AiError>(
                AiError::PowerReadFailed,
            ),
            self@.initialized && status == 0 ==> result == Ok::<u32, AiError>(power_mw),
    {
        if !self.initialized {
            return Err(AiError::NotInitialized);
        }
        if status != 0 {
            return Err(AiError::PowerReadFailed);
        }
        Ok(power_mw)
    }

    /// Makes the temperature, as the bits of a single-precision float of
    /// degrees Celsius, of the driver's answer.
    pub fn get_temperature(&self, status: i32, celsius_bits: u32) -> (result: Result<
        u32,
        AiError,
    >)
        ensures
            !self@.initialized ==> result == Err::<u32, AiError>(AiError::NotInitialized),
            self@.initialized && status != 0 ==> result == Err::<u32, AiError>(
                AiError::TemperatureReadFailed,
            ),
            self@.initialized && status == 0 ==> result == Ok::<u32, AiError>(celsius_bits),
    {
        if !self.initialized {
            return Err(AiError::NotInitialized);
        }
        if status != 0 {
            return Err(AiError::TemperatureReadFailed);
        }
        Ok(celsius_bits)
    }
}

/// Gives the accelerator of the kernel, if the kernel has made one.
pub fn subsystem(slot: &Option<AiSubsystem>) -> (result: Result<&AiSubsystem, AiError>)
    ensures
        match *slot {
            Some(s) => result == Ok::<&AiSubsystem, AiError>(&s),
            None => result == Err::<&AiSubsystem, AiError>(AiError::NotInitialized),
        },
{
    match slot {
        Some(s) => Ok(s),
        None => Err(AiError::NotInitialized),
    }
}

/// Makes a model of the driver's answer to a load, if the kernel has made
/// its accelerator.
pub fn load_model(slot: &Option<AiSubsystem>, status: i32, info: ModelInfo) -> (model: Result<
    AiModel,
    AiError,
>)
    ensures
        *slot is None ==> model == Err::<AiModel, AiError>(AiError::NotInitialized),
        *slot is Some && status != 0 ==> model == Err::<AiModel, AiError>(AiError::LoadFailed),
        *slot is Some && status == 0 ==> model is Ok && model->Ok_0@ == info,
{
    match subsystem(slot) {
        Err(e) => Err(e),
        Ok(_) => AiModel::new(status, info),
    }
}

} // verus!
