use moraebox::backend::{
    Backend, BackendError, CapabilitySupport, EnvironmentComponent, IsolationLevel, Signal,
};
use moraebox::budget::{RunStage, StageError};
use moraebox::process::{signal_number, signal_target, ProcessBackend, ProcessRequest};
use moraebox::time::Duration;

fn request() -> ProcessRequest {
    ProcessRequest {
        has_box: false,
        tty: false,
        network: false,
    }
}

#[test]
fn rejects_vm_network_opt_in() {
    let mut spec = request();
    spec.network = true;

    assert!(matches!(
        ProcessBackend.check(spec, None),
        Err(BackendError::Unsupported(_))
    ));
}

#[test]
fn rejects_box_persistence() {
    let mut spec = request();
    spec.has_box = true;

    assert!(matches!(
        ProcessBackend.check(spec, None),
        Err(BackendError::Unsupported(message)) if message.contains("Box persistence")
    ));
}

#[test]
fn plain_commands_are_accepted() {
    assert!(ProcessBackend.check(request(), None).is_ok());
    assert!(matches!(
        ProcessBackend.check(request(), Some("argv is empty".to_owned())),
        Err(BackendError::InvalidSpec(text)) if text == "argv is empty"
    ));
    let mut terminal = request();
    terminal.tty = true;
    assert!(matches!(
        ProcessBackend.check(terminal, None),
        Err(BackendError::Unsupported(_))
    ));
    assert_eq!(ProcessBackend.name(), "process");
    assert_eq!(
        ProcessBackend.capabilities().isolation,
        IsolationLevel::HostProcess
    );
    assert!(!CapabilitySupport::Unsupported.is_supported());
}

#[test]
fn signals_go_to_the_process_group() {
    assert_eq!(signal_number(Signal::Interrupt), 2);
    assert_eq!(signal_number(Signal::Terminate), 15);
    assert_eq!(signal_number(Signal::Kill), 9);
    assert_eq!(signal_number(Signal::Hangup), 1);
    assert_eq!(signal_target(12), Some(-12));
    assert_eq!(signal_target(u32::MAX), None);
}

#[test]
fn backend_errors_are_put_into_words() {
    assert_eq!(
        BackendError::Timeout {
            stage: RunStage::HelperSpawn,
            limit: Duration::from_secs(2)
        }
        .message(),
        "run timed out after 2s during helper_spawn"
    );
    assert_eq!(
        BackendError::Control("x".to_owned()).message(),
        "backend control failed: x"
    );
    assert!(BackendError::NonUnicodeEnvironment {
        variable: "\"A\"".to_owned(),
        component: EnvironmentComponent::Value
    }
    .message()
    .contains("value"));
    assert!(matches!(
        BackendError::from_stage(StageError::Failed {
            stage: RunStage::ProcessSpawn,
            source: "no such file".to_owned()
        }),
        BackendError::Control(text) if text == "process_spawn failed: no such file"
    ));
}
