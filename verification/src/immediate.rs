//! The transport that sends one command at a time through the immediate
//! command registers.

use vstd::prelude::*;
use crate::error::HdaError;
use crate::registers::{IoBase, RegOp, PCI_IC, PCI_IR, PCI_IRS, PCI_IRS_ICB_BIT, PCI_IRS_IRV_BIT};

verus! {

/// Microseconds to wait for the immediate command registers.
pub const IMMEDIATE_WAIT: u64 = 1000;

/// The transport that sends one command at a time through the immediate
/// command registers.
#[derive(Clone, Copy, Debug, PartialEq, Eq, Structural)]
pub struct Immediate {}

/// The wait for the busy bit to clear, with which every command starts.
pub open spec fn spec_wait_idle() -> RegOp {
    RegOp::Wait {
        reg: IoBase::spec_word(PCI_IRS),
        timeout: IMMEDIATE_WAIT,
        mask: PCI_IRS_ICB_BIT,
        value: 0,
    }
}

/// The register program that sends `cmd` once the registers are idle: clear
/// a stale result, write the command, set the busy bit, and wait until the
/// result is valid and the busy bit clear.
pub open spec fn spec_issue(cmd: u32) -> Seq<RegOp> {
    seq![
        RegOp::Or { reg: IoBase::spec_word(PCI_IRS), mask: PCI_IRS_IRV_BIT },
        RegOp::Write { reg: IoBase::spec_dword(PCI_IC), value: cmd },
        RegOp::Or { reg: IoBase::spec_word(PCI_IRS), mask: PCI_IRS_ICB_BIT },
        RegOp::Wait {
            reg: IoBase::spec_word(PCI_IRS),
            timeout: IMMEDIATE_WAIT,
            mask: PCI_IRS_IRV_BIT | PCI_IRS_ICB_BIT,
            value: PCI_IRS_IRV_BIT,
        },
    ]
}

/// The step that clears a busy bit that is stuck.
pub open spec fn spec_force_idle() -> RegOp {
    RegOp::And { reg: IoBase::spec_word(PCI_IRS), mask: !PCI_IRS_ICB_BIT }
}

/// The register program that follows the wait for the busy bit, by the
/// outcome of that wait: a wait that timed out has the busy bit cleared by
/// force, once, before the command goes out; any other failure ends the
/// command.
pub open spec fn spec_exec_immediate(idle: Result<(), HdaError>, cmd: u32) -> Result<
    Seq<RegOp>,
    HdaError,
> {
    match idle {
        Ok(_) => Ok(spec_issue(cmd)),
        Err(HdaError::Timeout) => Ok(seq![spec_force_idle()] + spec_issue(cmd)),
        Err(e) => Err(e),
    }
}

impl Immediate {
    /// The transport; it keeps nothing between two commands.
    pub fn new() -> (r: Immediate) {
        Immediate {  }
    }

    /// The wait with which a command starts. Its outcome goes to `exec_immediate`.
    pub fn wait_idle(&self) -> (op: RegOp)
        ensures
            op == spec_wait_idle(),
    {
        RegOp::Wait {
            reg: IoBase::word(PCI_IRS),
            timeout: IMMEDIATE_WAIT,
            mask: PCI_IRS_ICB_BIT,
            value: 0,
        }
    }

    /// The register that holds the response once the program of
    /// `exec_immediate` has run.
    pub fn response(&self) -> (reg: IoBase)
        ensures
            reg == IoBase::spec_dword(PCI_IR),
    {
        IoBase::dword(PCI_IR)
    }
}

/// The register program that sends `cmd` through the immediate command
/// registers, given how the wait for the busy bit ended.
pub fn exec_immediate(idle: Result<(), HdaError>, cmd: u32) -> (r: Result<Vec<RegOp>, HdaError>)
    ensures
        r is Ok <==> spec_exec_immediate(idle, cmd) is Ok,
        r matches Ok(ops) ==> Ok::<Seq<RegOp>, HdaError>(ops@) == spec_exec_immediate(idle, cmd),
        r matches Err(e) ==> Err::<Seq<RegOp>, HdaError>(e) == spec_exec_immediate(idle, cmd),
{
    let irs = IoBase::word(PCI_IRS);
    let mut ops: Vec<RegOp> = Vec::new();
    match idle {
        Ok(_) => {},
        Err(HdaError::Timeout) => {
            ops.push(irs.and(!PCI_IRS_ICB_BIT));
        },
        Err(e) => {
            return Err(e);
        },
    }
    let ghost head = ops@;
    ops.push(irs.or(PCI_IRS_IRV_BIT));
    ops.push(IoBase::dword(PCI_IC).write(cmd));
    ops.push(irs.or(PCI_IRS_ICB_BIT));
    ops.push(irs.wait(IMMEDIATE_WAIT, PCI_IRS_IRV_BIT | PCI_IRS_ICB_BIT, PCI_IRS_IRV_BIT));
    assert(ops@ =~= head + spec_issue(cmd));
    proof {
        if idle is Ok {
            assert(head + spec_issue(cmd) =~= spec_issue(cmd));
        }
    }
    Ok(ops)
}

} // verus!
