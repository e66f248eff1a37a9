//! The decisions of a vCPU's run loop: what to do with the exit record that
//! the hypervisor hands back, and how a pending read is completed from outside.

use vstd::prelude::*;
use crate::bus::AccessId;
use crate::bus::Bus;
use crate::bus::BusAccessError;
use crate::bus::BusDevice;
use crate::bus::BusDeviceSync;
use crate::text::decimal_digits;
use crate::text::hex_digits;
use crate::text::push_decimal;
use crate::text::push_hex;

verus! {

/// Exit reasons, as the kernel's `gunyah.h` numbers them.
pub const GUNYAH_VCPU_EXIT_UNKNOWN: u32 = 0;

pub const GUNYAH_VCPU_EXIT_MMIO: u32 = 1;

pub const GUNYAH_VCPU_EXIT_STATUS: u32 = 2;

pub const GUNYAH_VCPU_EXIT_PAGE_FAULT: u32 = 3;

/// Resume actions, as the kernel's `gunyah.h` numbers them.
pub const GUNYAH_VCPU_RESUME_HANDLED: u8 = 0;

pub const GUNYAH_VCPU_RESUME_FAULT: u8 = 1;

/// The number of bytes that one MMIO access carries at most.
pub const MMIO_DATA_LEN: usize = 8;

/// An access of the guest to an address that no memory backs.
#[derive(Copy, Clone, Debug, PartialEq, Eq)]
pub struct MmioExit {
    pub phys_addr: u64,
    pub data: [u8; 8],
    pub len: u32,
    pub is_write: u8,
    pub resume_action: u8,
}

/// A change of the guest's status.
#[derive(Copy, Clone, Debug, PartialEq, Eq)]
pub struct StatusExit {
    pub status: u32,
    pub exit_reason: u32,
}

/// A fault of the guest on a page.
#[derive(Copy, Clone, Debug, PartialEq, Eq)]
pub struct PageFaultExit {
    pub phys_addr: u64,
    pub attempt: i32,
    pub resume_action: u8,
}

/// The run structure of a vCPU: the exit reason and, for each reason, the
/// record as the hypervisor left it. Only the record of the exit reason means
/// anything.
#[derive(Copy, Clone, Debug, PartialEq, Eq)]
pub struct VcpuRun {
    pub immediate_exit: u8,
    pub exit_reason: u32,
    pub mmio: MmioExit,
    pub status: StatusExit,
    pub page_fault: PageFaultExit,
}

/// Why a vCPU's run loop ends, or why a read could not be completed.
#[derive(Copy, Clone, Debug, PartialEq, Eq, Structural)]
pub enum VcpuError {
    /// The vCPU exited for no reason that the hypervisor names.
    UnknownExit,
    /// The vCPU exited for a change of status, which this loop does not handle.
    Status,
    /// The guest faulted on the page at this address.
    PageFault { phys_addr: u64 },
    /// The exit reason is none that this loop knows.
    UnknownExitReason { exit_reason: u32 },
    /// The MMIO record carries more bytes than it can hold, or a direction
    /// that is neither read nor write.
    InvalidMmio,
    /// The vCPU did not exit for MMIO.
    NotMmio,
    /// The vCPU exited for an MMIO write, not for a read.
    NotMmioRead,
    /// The vCPU did not exit for a read at this address.
    WrongAddress { phys_addr: u64 },
    /// The pending read is not of as many bytes as were provided.
    LengthMismatch,
    /// The hypervisor refused to run the guest, with this error number.
    Hypervisor { errno: i32 },
}

impl VcpuError {
    /// The error in words.
    pub open spec fn message(&self) -> Seq<char> {
        match *self {
            VcpuError::UnknownExit => "Unexpected exit for unknown reason"@,
            VcpuError::Status => "Unexpected exit for a change of status"@,
            VcpuError::PageFault { phys_addr } => "Unexpected page fault at "@ + hex_digits(phys_addr as nat),
            VcpuError::UnknownExitReason { exit_reason } => "Unknown exit reason: "@ + decimal_digits(
                exit_reason as nat,
            ),
            VcpuError::InvalidMmio => "vCPU exited for mmio with a malformed record"@,
            VcpuError::NotMmio => "vCPU didn't exit for mmio"@,
            VcpuError::NotMmioRead => "vCPU didn't exit for mmio read"@,
            VcpuError::WrongAddress { phys_addr } => "vCPU didn't exit for mmio read at "@ + decimal_digits(
                phys_addr as nat,
            ),
            VcpuError::LengthMismatch => "vCPU length didn't match"@,
            VcpuError::Hypervisor { errno } => if errno >= 0 {
                "Hypervisor failed to run the vCPU: error "@ + decimal_digits(errno as nat)
            } else {
                "Hypervisor failed to run the vCPU: error -"@ + decimal_digits((-errno) as nat)
            },
        }
    }

    /// The error in words.
    pub fn to_string(&self) -> (s: String)
        ensures
            s@ == self.message(),
    {
        match *self {
            VcpuError::UnknownExit => String::from_str("Unexpected exit for unknown reason"),
            VcpuError::Status => String::from_str("Unexpected exit for a change of status"),
            VcpuError::PageFault { phys_addr } => {
                let mut s = String::from_str("Unexpected page fault at ");
                push_hex(&mut s, phys_addr);
                s
            },
            VcpuError::UnknownExitReason { exit_reason } => {
                let mut s = String::from_str("Unknown exit reason: ");
                push_decimal(&mut s, exit_reason as u64);
                s
            },
            VcpuError::InvalidMmio => String::from_str("vCPU exited for mmio with a malformed record"),
            VcpuError::NotMmio => String::from_str("vCPU didn't exit for mmio"),
            VcpuError::NotMmioRead => String::from_str("vCPU didn't exit for mmio read"),
            VcpuError::WrongAddress { phys_addr } => {
                let mut s = String::from_str("vCPU didn't exit for mmio read at ");
                push_decimal(&mut s, phys_addr);
                s
            },
            VcpuError::LengthMismatch => String::from_str("vCPU length didn't match"),
            VcpuError::Hypervisor { errno } => {
                if errno >= 0 {
                    let mut s = String::from_str("Hypervisor failed to run the vCPU: error ");
                    push_decimal(&mut s, errno as u64);
                    s
                } else {
                    let mut s = String::from_str("Hypervisor failed to run the vCPU: error -");
                    push_decimal(&mut s, (-(errno as i64)) as u64);
                    s
                }
            },
        }
    }
}

/// Where the run loop of a vCPU stands. A loop that runs has the hypervisor
/// run the guest, or is about to; a loop that has ended stays ended.
#[derive(Copy, Clone, Debug, PartialEq, Eq, Structural)]
pub enum RunState {
    /// The loop was not started yet.
    Idle,
    /// The hypervisor runs the guest, or is to run it next.
    Running,
    /// The loop has ended with this error.
    Terminated(VcpuError),
}

/// What the run loop is told.
#[derive(Copy, Clone, Debug, PartialEq, Eq, Structural)]
pub enum RunEvent {
    /// The loop is started.
    Start,
    /// The hypervisor has returned from running the guest, and the run
    /// structure records the exit.
    Exited,
    /// The hypervisor has refused to run the guest, with this error number.
    Failed { errno: i32 },
}

/// What a turn of the run loop has come to.
#[derive(Debug, PartialEq, Eq)]
pub struct RunStep {
    /// Where the loop stands now.
    pub state: RunState,
    /// Why the bus refused the guest's access, where the turn handled one
    /// and the bus refused it. The guest is resumed with a fault then.
    pub refusal: Option<BusAccessError>,
}

/// The resume action after an access that the bus answered with `r`.
pub open spec fn resume_action_for(r: Result<(), BusAccessError>) -> u8 {
    if r is Ok {
        GUNYAH_VCPU_RESUME_HANDLED
    } else {
        GUNYAH_VCPU_RESUME_FAULT
    }
}

/// The bytes of an MMIO record that an access carries.
pub open spec fn mmio_bytes(mmio: MmioExit) -> Seq<u8> {
    mmio.data@.take(mmio.len as int)
}

/// The shared handle of one vCPU of a virtual machine.
#[derive(Copy, Clone, Debug, PartialEq, Eq, Structural)]
pub struct GunyahVcpu {
    id: u8,
}

impl GunyahVcpu {
    /// The identity under which this vCPU accesses the bus: that of the
    /// vCPU with its id.
    pub open spec fn accessor(&self) -> AccessId {
        AccessId::Vcpu(self.spec_id())
    }

    /// The id that the vCPU was created with.
    pub closed spec fn spec_id(&self) -> u8 {
        self.id
    }

    pub fn new(id: u8) -> (vcpu: Self)
        ensures
            vcpu.spec_id() == id,
            vcpu.accessor() == AccessId::Vcpu(id),
    {
        GunyahVcpu { id }
    }

    pub fn id(&self) -> (id: u32)
        ensures
            id == self.spec_id(),
    {
        self.id as u32
    }

    /// What `handle_exit` does with an exit for MMIO.
    pub open spec fn mmio_post<O: BusDevice, I: BusDeviceSync>(
        &self,
        bus: Bus<O, I>,
        mmio: MmioExit,
        next_bus: Bus<O, I>,
        next: MmioExit,
        r: Result<Result<(), BusAccessError>, VcpuError>,
    ) -> bool {
        let as_vcpu = bus.with_accessor(self.accessor());
        if mmio.len > MMIO_DATA_LEN || mmio.is_write > 1 {
            &&& r matches Err(VcpuError::InvalidMmio)
            &&& next == mmio
            &&& next_bus == bus
        } else if mmio.is_write == 1 {
            &&& r matches Ok(answer)
            &&& as_vcpu.write_post(mmio.phys_addr, mmio_bytes(mmio), &next_bus, r->Ok_0)
            &&& next == (MmioExit { resume_action: resume_action_for(r->Ok_0), ..mmio })
        } else {
            &&& r matches Ok(answer)
            &&& as_vcpu.read_post(
                mmio.phys_addr,
                mmio_bytes(mmio),
                &next_bus,
                next.data@.take(mmio.len as int),
                r->Ok_0,
            )
            &&& next.data@.skip(mmio.len as int) == mmio.data@.skip(mmio.len as int)
            &&& next == (MmioExit { resume_action: resume_action_for(r->Ok_0), data: next.data, ..mmio })
        }
    }

    /// What `handle_exit` does.
    pub open spec fn exit_post<O: BusDevice, I: BusDeviceSync>(
        &self,
        bus: Bus<O, I>,
        run: VcpuRun,
        next_bus: Bus<O, I>,
        next: VcpuRun,
        r: Result<Result<(), BusAccessError>, VcpuError>,
    ) -> bool {
        if run.exit_reason == GUNYAH_VCPU_EXIT_MMIO {
            &&& self.mmio_post(bus, run.mmio, next_bus, next.mmio, r)
            &&& next == (VcpuRun { mmio: next.mmio, ..run })
        } else {
            &&& next == run
            &&& next_bus == bus
            &&& r is Err
            &&& r->Err_0 == if run.exit_reason == GUNYAH_VCPU_EXIT_UNKNOWN {
                VcpuError::UnknownExit
            } else if run.exit_reason == GUNYAH_VCPU_EXIT_STATUS {
                VcpuError::Status
            } else if run.exit_reason == GUNYAH_VCPU_EXIT_PAGE_FAULT {
                VcpuError::PageFault { phys_addr: run.page_fault.phys_addr }
            } else {
                VcpuError::UnknownExitReason { exit_reason: run.exit_reason }
            }
        }
    }

    /// One turn of the run loop, after the hypervisor has returned: handles
    /// the exit that `run` records. An MMIO exit goes through the bus under
    /// this vCPU's identity, and the record says afterwards whether the guest
    /// resumes with the access handled or with a fault; the loop goes on, and
    /// the answer of the bus is returned with `Ok`. Every other exit ends the
    /// loop with its error.
    pub fn handle_exit<O: BusDevice, I: BusDeviceSync>(
        &self,
        bus: &mut Bus<O, I>,
        run: &mut VcpuRun,
    ) -> (r: Result<Result<(), BusAccessError>, VcpuError>)
        requires
            old(bus).wf(),
        ensures
            final(bus).wf(),
            r is Ok == (old(run).exit_reason == GUNYAH_VCPU_EXIT_MMIO && old(run).mmio.len <= MMIO_DATA_LEN
                && old(run).mmio.is_write <= 1),
            self.exit_post(*old(bus), *old(run), *final(bus), *final(run), r),
    {
        let reason: u32 = run.exit_reason;
        if reason == GUNYAH_VCPU_EXIT_UNKNOWN {
            Err(VcpuError::UnknownExit)
        } else if reason == GUNYAH_VCPU_EXIT_MMIO {
            let len: usize = run.mmio.len as usize;
            if run.mmio.len > 8 || run.mmio.is_write > 1 {
                return Err(VcpuError::InvalidMmio);
            }
            bus.set_access_id(AccessId::Vcpu(self.id));
            proof {
                old(bus).lemma_with_accessor(self.accessor());
            }
            let mut buf: Vec<u8> = Vec::new();
            let mut i: usize = 0;
            while i < len
                invariant
                    0 <= i <= len <= 8,
                    buf@ == run.mmio.data@.take(i as int),
                decreases len - i,
            {
                buf.push(run.mmio.data[i]);
                assert(run.mmio.data@.take(i + 1) == run.mmio.data@.take(i as int).push(run.mmio.data@[i as int]));
                i += 1;
            }
            if run.mmio.is_write == 1 {
                let handled = bus.write(run.mmio.phys_addr, buf.as_slice());
                run.mmio.resume_action = if handled.is_ok() {
                    GUNYAH_VCPU_RESUME_HANDLED
                } else {
                    GUNYAH_VCPU_RESUME_FAULT
                };
                Ok(handled)
            } else {
                let handled = bus.read(run.mmio.phys_addr, buf.as_mut_slice());
                let mut j: usize = 0;
                while j < len
                    invariant
                        0 <= j <= len <= 8,
                        buf@.len() == len,
                        run.mmio.data@.take(j as int) == buf@.take(j as int),
                        run.mmio.data@.skip(j as int) == old(run).mmio.data@.skip(j as int),
                        *run == (VcpuRun { mmio: MmioExit { data: run.mmio.data, ..old(run).mmio }, ..*old(run) }),
                    decreases len - j,
                {
                    let ghost before = run.mmio.data@;
                    run.mmio.data[j] = buf[j];
                    proof {
                        assert(run.mmio.data@ == before.update(j as int, buf@[j as int]));
                        assert(run.mmio.data@.take(j + 1) =~= buf@.take(j + 1));
                        assert forall|k: int| j < k < 8 implies run.mmio.data@[k] == old(run).mmio.data@[k] by {
                            assert(before.skip(j as int)[k - j] == old(run).mmio.data@.skip(j as int)[k - j]);
                        }
                        assert(run.mmio.data@.skip(j + 1) =~= old(run).mmio.data@.skip(j + 1));
                    }
                    j += 1;
                }
                run.mmio.resume_action = if handled.is_ok() {
                    GUNYAH_VCPU_RESUME_HANDLED
                } else {
                    GUNYAH_VCPU_RESUME_FAULT
                };
                proof {
                    assert(buf@.take(len as int) == buf@);
                }
                Ok(handled)
            }
        } else if reason == GUNYAH_VCPU_EXIT_STATUS {
            Err(VcpuError::Status)
        } else if reason == GUNYAH_VCPU_EXIT_PAGE_FAULT {
            Err(VcpuError::PageFault { phys_addr: run.page_fault.phys_addr })
        } else {
            Err(VcpuError::UnknownExitReason { exit_reason: reason })
        }
    }

    /// What `step` does in the state `state` on the event `event`. A loop
    /// that is idle starts; a loop that runs handles the guest's exit and
    /// runs on, or ends with the error of the exit or of the hypervisor; and
    /// nothing else changes anything: above all, a loop that has ended stays
    /// ended.
    pub open spec fn step_post<O: BusDevice, I: BusDeviceSync>(
        &self,
        state: RunState,
        event: RunEvent,
        bus: Bus<O, I>,
        run: VcpuRun,
        next_bus: Bus<O, I>,
        next_run: VcpuRun,
        step: RunStep,
    ) -> bool {
        match (state, event) {
            (RunState::Idle, RunEvent::Start) => {
                &&& step.state == RunState::Running
                &&& step.refusal is None
                &&& next_bus == bus
                &&& next_run == run
            },
            (RunState::Running, RunEvent::Exited) => exists|r: Result<Result<(), BusAccessError>, VcpuError>|
                {
                    &&& #[trigger] self.exit_post(bus, run, next_bus, next_run, r)
                    &&& match r {
                        Ok(Ok(())) => step.state == RunState::Running && step.refusal is None,
                        Ok(Err(e)) => step.state == RunState::Running && step.refusal == Some(e),
                        Err(e) => step.state == RunState::Terminated(e) && step.refusal is None,
                    }
                },
            (RunState::Running, RunEvent::Failed { errno }) => {
                &&& step.state == RunState::Terminated(VcpuError::Hypervisor { errno })
                &&& step.refusal is None
                &&& next_bus == bus
                &&& next_run == run
            },
            _ => {
                &&& step.state == state
                &&& step.refusal is None
                &&& next_bus == bus
                &&& next_run == run
            },
        }
    }

    /// One turn of the run loop: takes the loop from `state` to its next
    /// state on `event`. While the loop runs, its caller has the hypervisor
    /// run the guest and tells the loop how that ended.
    pub fn step<O: BusDevice, I: BusDeviceSync>(
        &self,
        state: RunState,
        event: RunEvent,
        bus: &mut Bus<O, I>,
        run: &mut VcpuRun,
    ) -> (step: RunStep)
        requires
            old(bus).wf(),
        ensures
            final(bus).wf(),
            self.step_post(state, event, *old(bus), *old(run), *final(bus), *final(run), step),
    {
        match (state, event) {
            (RunState::Idle, RunEvent::Start) => RunStep { state: RunState::Running, refusal: None },
            (RunState::Running, RunEvent::Exited) => {
                let r = self.handle_exit(bus, run);
                let ghost result = r;
                let step = match r {
                    Ok(Ok(())) => RunStep { state: RunState::Running, refusal: None },
                    Ok(Err(e)) => RunStep { state: RunState::Running, refusal: Some(e) },
                    Err(e) => RunStep { state: RunState::Terminated(e), refusal: None },
                };
                assert(self.exit_post(*old(bus), *old(run), *bus, *run, result));
                step
            },
            (RunState::Running, RunEvent::Failed { errno }) => RunStep {
                state: RunState::Terminated(VcpuError::Hypervisor { errno }),
                refusal: None,
            },
            _ => RunStep { state, refusal: None },
        }
    }

    /// What `vmmio_provide_read` returns for a pending exit and what is
    /// provided: the reason for which nothing is completed, or none.
    pub open spec fn provide_refusal(run: VcpuRun, phys_addr: u64, len: nat) -> Option<VcpuError> {
        if run.exit_reason != GUNYAH_VCPU_EXIT_MMIO {
            Some(VcpuError::NotMmio)
        } else if run.mmio.is_write != 0 {
            Some(VcpuError::NotMmioRead)
        } else if run.mmio.phys_addr != phys_addr {
            Some(VcpuError::WrongAddress { phys_addr })
        } else if run.mmio.len != len {
            Some(VcpuError::LengthMismatch)
        } else if len > MMIO_DATA_LEN {
            Some(VcpuError::InvalidMmio)
        } else {
            None
        }
    }

    /// Completes a pending MMIO read from outside the run loop: puts `data`
    /// into the record and marks the access handled. The pending exit must be
    /// a read at `phys_addr` of as many bytes as `data` has; else nothing
    /// changes.
    pub fn vmmio_provide_read(&self, run: &mut VcpuRun, phys_addr: u64, data: &[u8]) -> (r: Result<
        (),
        VcpuError,
    >)
        ensures
            match Self::provide_refusal(*old(run), phys_addr, data@.len()) {
                Some(e) => r == Err::<(), VcpuError>(e) && *final(run) == *old(run),
                None => {
                    &&& r is Ok
                    &&& final(run).mmio.data@ == data@ + old(run).mmio.data@.skip(data@.len() as int)
                    &&& *final(run) == (VcpuRun {
                        mmio: MmioExit {
                            data: final(run).mmio.data,
                            resume_action: GUNYAH_VCPU_RESUME_HANDLED,
                            ..old(run).mmio
                        },
                        ..*old(run)
                    })
                },
            },
    {
        if run.exit_reason != GUNYAH_VCPU_EXIT_MMIO {
            return Err(VcpuError::NotMmio);
        }
        if run.mmio.is_write != 0 {
            return Err(VcpuError::NotMmioRead);
        }
        if run.mmio.phys_addr != phys_addr {
            return Err(VcpuError::WrongAddress { phys_addr });
        }
        let len: usize = data.len();
        if run.mmio.len as usize != len {
            return Err(VcpuError::LengthMismatch);
        }
        if len > MMIO_DATA_LEN {
            return Err(VcpuError::InvalidMmio);
        }
        let mut j: usize = 0;
        while j < len
            invariant
                0 <= j <= len <= 8,
                data@.len() == len,
                run.mmio.data@.take(j as int) == data@.take(j as int),
                run.mmio.data@.skip(j as int) == old(run).mmio.data@.skip(j as int),
                *run == (VcpuRun { mmio: MmioExit { data: run.mmio.data, ..old(run).mmio }, ..*old(run) }),
            decreases len - j,
        {
            let ghost before = run.mmio.data@;
            run.mmio.data[j] = data[j];
            proof {
                assert(run.mmio.data@ == before.update(j as int, data@[j as int]));
                assert(run.mmio.data@.take(j + 1) =~= data@.take(j + 1));
                assert forall|k: int| j < k < 8 implies run.mmio.data@[k] == old(run).mmio.data@[k] by {
                    assert(before.skip(j as int)[k - j] == old(run).mmio.data@.skip(j as int)[k - j]);
                }
                assert(run.mmio.data@.skip(j + 1) =~= old(run).mmio.data@.skip(j + 1));
            }
            j += 1;
        }
        run.mmio.resume_action = GUNYAH_VCPU_RESUME_HANDLED;
        proof {
            assert(data@.take(len as int) == data@);
            assert(run.mmio.data@ =~= run.mmio.data@.take(len as int) + run.mmio.data@.skip(len as int));
        }
        Ok(())
    }
}

/// A loop that has ended stays ended, whatever it is told, and touches
/// nothing.
pub proof fn lemma_terminated_stays<O: BusDevice, I: BusDeviceSync>(
    vcpu: GunyahVcpu,
    error: VcpuError,
    event: RunEvent,
    bus: Bus<O, I>,
    run: VcpuRun,
    next_bus: Bus<O, I>,
    next_run: VcpuRun,
    step: RunStep,
)
    requires
        vcpu.step_post(RunState::Terminated(error), event, bus, run, next_bus, next_run, step),
    ensures
        step.state == RunState::Terminated(error),
        next_bus == bus,
        next_run == run,
{
}

/// An access of the guest that fails does not end the loop: on an MMIO exit
/// whose record is well formed the loop runs on, whatever the bus answers,
/// and the record says whether the guest resumes with a fault.
pub proof fn lemma_mmio_runs_on<O: BusDevice, I: BusDeviceSync>(
    vcpu: GunyahVcpu,
    bus: Bus<O, I>,
    run: VcpuRun,
    next_bus: Bus<O, I>,
    next_run: VcpuRun,
    step: RunStep,
)
    requires
        vcpu.step_post(RunState::Running, RunEvent::Exited, bus, run, next_bus, next_run, step),
        run.exit_reason == GUNYAH_VCPU_EXIT_MMIO,
        run.mmio.len <= MMIO_DATA_LEN,
        run.mmio.is_write <= 1,
    ensures
        step.state == RunState::Running,
        next_run.mmio.resume_action == if step.refusal is None {
            GUNYAH_VCPU_RESUME_HANDLED
        } else {
            GUNYAH_VCPU_RESUME_FAULT
        },
{
}

/// Every exit but an MMIO exit whose record is well formed ends the loop.
pub proof fn lemma_other_exits_end<O: BusDevice, I: BusDeviceSync>(
    vcpu: GunyahVcpu,
    bus: Bus<O, I>,
    run: VcpuRun,
    next_bus: Bus<O, I>,
    next_run: VcpuRun,
    step: RunStep,
)
    requires
        vcpu.step_post(RunState::Running, RunEvent::Exited, bus, run, next_bus, next_run, step),
        run.exit_reason != GUNYAH_VCPU_EXIT_MMIO || run.mmio.len > MMIO_DATA_LEN || run.mmio.is_write > 1,
    ensures
        step.state is Terminated,
        next_bus == bus,
        next_run == run,
{
}

} // verus!
