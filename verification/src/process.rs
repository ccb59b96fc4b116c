//! The backend that runs a command as an ordinary process of the host.

use vstd::prelude::*;

use crate::backend::{
    Backend, BackendCapabilities, BackendError, BackendErrorView, CapabilitySupport,
    IsolationLevel, Signal,
};

verus! {

#[derive(Debug, Clone, Copy, Default)]
pub struct ProcessBackend;

impl Backend for ProcessBackend {
    open spec fn name_spec(&self) -> Seq<char> {
        "process"@
    }

    open spec fn capabilities_spec(&self) -> BackendCapabilities {
        BackendCapabilities {
            isolation: IsolationLevel::HostProcess,
            tty: CapabilitySupport::Unsupported,
            network: CapabilitySupport::Unsupported,
            box_persistence: CapabilitySupport::Unsupported,
            workspace: CapabilitySupport::Unsupported,
        }
    }

    fn name(&self) -> (name: &'static str) {
        "process"
    }

    fn capabilities(&self) -> (capabilities: BackendCapabilities) {
        BackendCapabilities {
            isolation: IsolationLevel::HostProcess,
            tty: CapabilitySupport::Unsupported,
            network: CapabilitySupport::Unsupported,
            box_persistence: CapabilitySupport::Unsupported,
            workspace: CapabilitySupport::Unsupported,
        }
    }
}

/// What the backend reads of a run specification.
#[derive(Debug, Clone, Copy, PartialEq, Eq, Structural)]
pub struct ProcessRequest {
    pub has_box: bool,
    pub tty: bool,
    pub network: bool,
}

/// Why a run is refused, if it is.  `invalid` is what is wrong with the specification itself.
pub open spec fn refusal(request: ProcessRequest, invalid: Option<Seq<char>>) -> Option<
    BackendErrorView,
> {
    match invalid {
        Some(reason) => Some(BackendErrorView::InvalidSpec(reason)),
        None => if request.has_box {
            Some(
                BackendErrorView::Unsupported(
                    "Box persistence on the process backend; it does not provide VM isolation"@,
                ),
            )
        } else if request.tty {
            Some(BackendErrorView::Unsupported("PTY on the deterministic process backend"@))
        } else if request.network {
            Some(
                BackendErrorView::Unsupported(
                    "network opt-in on the process backend; it already uses the host network without VM isolation"@,
                ),
            )
        } else {
            None
        },
    }
}

impl ProcessBackend {
    /// Whether a run can be started, before anything is.
    pub fn check(&self, request: ProcessRequest, invalid: Option<String>) -> (checked: Result<
        (),
        BackendError,
    >)
        ensures
            match checked {
                Ok(()) => refusal(request, crate::text::text_of(invalid)) is None,
                Err(error) => refusal(request, crate::text::text_of(invalid)) == Some(error@),
            },
    {
        match invalid {
            Some(reason) => {
                return Err(BackendError::InvalidSpec(reason));
            },
            None => {},
        }
        if request.has_box {
            return Err(
                BackendError::Unsupported(
                    "Box persistence on the process backend; it does not provide VM isolation".to_owned(),
                ),
            );
        }
        if request.tty {
            return Err(
                BackendError::Unsupported("PTY on the deterministic process backend".to_owned()),
            );
        }
        if request.network {
            return Err(
                BackendError::Unsupported(
                    "network opt-in on the process backend; it already uses the host network without VM isolation".to_owned(),
                ),
            );
        }
        Ok(())
    }
}

/// A process backend gives no isolation, so it takes no run that asks for what a virtual machine
/// would give: a box, a terminal or a network of its own.
pub proof fn law_isolation_features_are_refused(request: ProcessRequest, invalid: Option<Seq<char>>)
    ensures
        refusal(request, invalid) is None <==> invalid is None && !request.has_box && !request.tty
            && !request.network,
{
}

/// The number of a signal on the host.
pub open spec fn signal_number_spec(signal: Signal) -> i32 {
    match signal {
        Signal::Hangup => 1,
        Signal::Interrupt => 2,
        Signal::Kill => 9,
        Signal::Terminate => 15,
    }
}

/// The number of a signal on the host.
pub fn signal_number(signal: Signal) -> (number: i32)
    ensures
        number == signal_number_spec(signal),
{
    match signal {
        Signal::Hangup => 1,
        Signal::Interrupt => 2,
        Signal::Kill => 9,
        Signal::Terminate => 15,
    }
}

/// The process group that a signal goes to, as the negative number that names it; `None` for a
/// process number that the host cannot have.
pub fn signal_target(pid: u32) -> (target: Option<i32>)
    ensures
        target == (if pid <= i32::MAX {
            Some(-(pid as int) as i32)
        } else {
            None::<i32>
        }),
{
    if pid <= 0x7fff_ffff {
        Some(-(pid as i32))
    } else {
        None
    }
}

} // verus!
