//! Which board family a kernel is built for, and how that family stops a CPU.

use vstd::prelude::*;

verus! {

/// A board family that the kernel can be built for.
#[derive(Clone, Copy, Debug, PartialEq, Eq, Structural)]
pub enum PlatformFamily {
    /// Raspberry Pi 4, an ARM board.
    Rpi4,
    /// A RISC-V target.
    RiscV,
    /// An x86-64 target.
    X86_64,
}

/// Why a build has no platform.
#[derive(Clone, Copy, Debug, PartialEq, Eq, Structural)]
pub enum SelectError {
    /// No family was selected.
    NoPlatform,
    /// More than one family was selected.
    MultiplePlatforms,
}

/// The instruction on which a halted CPU waits.
#[derive(Clone, Copy, Debug, PartialEq, Eq, Structural)]
pub enum WaitInstruction {
    /// ARM: wait for event.
    Wfe,
    /// RISC-V: wait for interrupt.
    Wfi,
    /// x86-64: halt.
    Hlt,
}

/// How many of the three families a build configuration selects.
pub open spec fn selected_count(rpi4: bool, riscv: bool, x86_64: bool) -> nat {
    (if rpi4 { 1nat } else { 0nat }) + (if riscv { 1nat } else { 0nat }) + (if x86_64 {
        1nat
    } else {
        0nat
    })
}

/// The family of a build configuration that selects exactly one.
pub open spec fn selected_family(rpi4: bool, riscv: bool, x86_64: bool) -> PlatformFamily {
    if rpi4 {
        PlatformFamily::Rpi4
    } else if riscv {
        PlatformFamily::RiscV
    } else {
        PlatformFamily::X86_64
    }
}

/// Resolves the platform of a build from its three selection switches.
///
/// A build has a platform only if exactly one switch is on.
pub fn select(rpi4: bool, riscv: bool, x86_64: bool) -> (choice: Result<PlatformFamily, SelectError>)
    ensures
        selected_count(rpi4, riscv, x86_64) == 0 ==> choice == Err::<PlatformFamily, SelectError>(
            SelectError::NoPlatform,
        ),
        selected_count(rpi4, riscv, x86_64) == 1 ==> choice == Ok::<PlatformFamily, SelectError>(
            selected_family(rpi4, riscv, x86_64),
        ),
        selected_count(rpi4, riscv, x86_64) > 1 ==> choice == Err::<PlatformFamily, SelectError>(
            SelectError::MultiplePlatforms,
        ),
{
    match (rpi4, riscv, x86_64) {
        (false, false, false) => Err(SelectError::NoPlatform),
        (true, false, false) => Ok(PlatformFamily::Rpi4),
        (false, true, false) => Ok(PlatformFamily::RiscV),
        (false, false, true) => Ok(PlatformFamily::X86_64),
        _ => Err(SelectError::MultiplePlatforms),
    }
}

impl PlatformFamily {
    /// The instruction that a halted CPU of this family executes, over and
    /// over, until a reset.
    pub open spec fn spec_wait_instruction(self) -> WaitInstruction {
        match self {
            PlatformFamily::Rpi4 => WaitInstruction::Wfe,
            PlatformFamily::RiscV => WaitInstruction::Wfi,
            PlatformFamily::X86_64 => WaitInstruction::Hlt,
        }
    }

    /// The instruction that a halted CPU of this family executes, over and
    /// over, until a reset.
    #[verifier::when_used_as_spec(spec_wait_instruction)]
    pub fn wait_instruction(self) -> (instruction: WaitInstruction)
        ensures
            instruction == self.spec_wait_instruction(),
    {
        match self {
            PlatformFamily::Rpi4 => WaitInstruction::Wfe,
            PlatformFamily::RiscV => WaitInstruction::Wfi,
            PlatformFamily::X86_64 => WaitInstruction::Hlt,
        }
    }
}

impl WaitInstruction {
    /// The mnemonic of the instruction.
    pub fn mnemonic(self) -> (name: &'static str)
        ensures
            name@ == match self {
                WaitInstruction::Wfe => "wfe"@,
                WaitInstruction::Wfi => "wfi"@,
                WaitInstruction::Hlt => "hlt"@,
            },
    {
        match self {
            WaitInstruction::Wfe => "wfe",
            WaitInstruction::Wfi => "wfi",
            WaitInstruction::Hlt => "hlt",
        }
    }
}

} // verus!
