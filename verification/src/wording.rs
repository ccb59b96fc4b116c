//! What messages tell: each holds what went wrong, with its numbers in their places, and names that
//! stand for different things differ.

use vstd::prelude::*;

use crate::backend::{BackendErrorView, EnvironmentComponent};
use crate::budget::RunStage;
use crate::doctor::DoctorCheckStatus;
use crate::helper::bridge::BridgeErrorView;
use crate::helper::HelperErrorView;
use crate::lifecycle::SessionState;
use crate::output::OutputReadError;
use crate::pool::PoolError;
use crate::sdk::SdkErrorView;
use crate::session::finish::{IoFailureView, SessionIoStream};
use crate::session::handle::SessionErrorView;
use crate::supervisor::SupervisorErrorView;
use crate::text::{decimal_text, occurs_in};

verus! {

/// Whether two texts stand in a text, the first of them before the second.
pub open spec fn in_this_order(text: Seq<char>, first: Seq<char>, second: Seq<char>) -> bool {
    exists|left: Seq<char>, middle: Seq<char>, right: Seq<char>|
        text == #[trigger] (left + first + middle + second + right)
}

proof fn lemma_in_order(
    text: Seq<char>,
    left: Seq<char>,
    first: Seq<char>,
    middle: Seq<char>,
    second: Seq<char>,
    right: Seq<char>,
)
    requires
        text == left + first + middle + second + right,
    ensures
        in_this_order(text, first, second),
{
}

/// The errors of a backend end with what is told of them, and a stage that ran out of time is named
/// behind its limit.
pub proof fn law_backend_errors_tell_what_went_wrong(
    text: Seq<char>,
    stage: RunStage,
    limit: int,
    variable: Seq<char>,
    component: EnvironmentComponent,
)
    ensures
        text.is_suffix_of(BackendErrorView::InvalidSpec(text).text()),
        text.is_suffix_of(BackendErrorView::Unsupported(text).text()),
        text.is_suffix_of(BackendErrorView::Io(text).text()),
        text.is_suffix_of(BackendErrorView::Control(text).text()),
        text.is_suffix_of(BackendErrorView::ImagePreparation(text).text()),
        in_this_order(
            (BackendErrorView::Timeout { stage, limit }).text(),
            crate::time::span_text(limit),
            stage.label_spec(),
        ),
        in_this_order(
            (BackendErrorView::NonUnicodeEnvironment { variable, component }).text(),
            component.label_spec(),
            variable,
        ),
{
    let late = (BackendErrorView::Timeout { stage, limit }).text();
    let none = Seq::<char>::empty();
    let span = crate::time::span_text(limit);
    assert(late =~= "run timed out after "@ + span + " during "@ + stage.label_spec() + none);
    lemma_in_order(late, "run timed out after "@, span, " during "@, stage.label_spec(), none);
    let bad = (BackendErrorView::NonUnicodeEnvironment { variable, component }).text();
    assert(bad =~= "host environment "@ + component.label_spec() + " for "@ + variable
        + " is not valid Unicode"@);
    lemma_in_order(
        bad,
        "host environment "@,
        component.label_spec(),
        " for "@,
        variable,
        " is not valid Unicode"@,
    );
}

/// What asks for too much is told what it asked for and then what it may.
pub proof fn law_limits_are_told_behind_requests(requested: usize, maximum: usize)
    ensures
        in_this_order(
            (SessionErrorView::StdinWriteTooLarge { requested, maximum }).text(),
            decimal_text(requested as nat),
            decimal_text(maximum as nat),
        ),
        in_this_order(
            (SessionErrorView::OutputReadTooLarge { requested, maximum }).text(),
            decimal_text(requested as nat),
            decimal_text(maximum as nat),
        ),
        in_this_order(
            (SdkErrorView::OutputReadTooLarge { requested, maximum }).text(),
            decimal_text(requested as nat),
            decimal_text(maximum as nat),
        ),
        occurs_in(
            (SdkErrorView::SessionLimitExceeded { maximum }).text(),
            decimal_text(maximum as nat),
        ),
        occurs_in(PoolError::Full(maximum).message_spec(), decimal_text(maximum as nat)),
{
    let first = decimal_text(requested as nat);
    let second = decimal_text(maximum as nat);
    let write = (SessionErrorView::StdinWriteTooLarge { requested, maximum }).text();
    let read = (SessionErrorView::OutputReadTooLarge { requested, maximum }).text();
    let page = (SdkErrorView::OutputReadTooLarge { requested, maximum }).text();
    let between = " bytes, exceeding the "@;
    assert(write =~= "stdin write is "@ + first + between + second + "-byte queue limit"@);
    lemma_in_order(write, "stdin write is "@, first, between, second, "-byte queue limit"@);
    assert(read =~= "output read is "@ + first + between + second + "-byte request limit"@);
    lemma_in_order(read, "output read is "@, first, between, second, "-byte request limit"@);
    assert(page =~= "output read is "@ + first + between + second + "-byte SDK limit"@);
    lemma_in_order(page, "output read is "@, first, between, second, "-byte SDK limit"@);
    crate::notation::law_parts_occur_in_the_whole(
        "active sandbox session limit reached (maximum "@,
        second,
        ")"@,
    );
    crate::notation::law_parts_occur_in_the_whole("prepared pool is full (capacity "@, second, ")"@);
}

/// A read at a wrong position is told its position and then the one that it could begin at.
pub proof fn law_positions_are_told(requested: u64, bound: u64)
    ensures
        in_this_order(
            (OutputReadError::CursorExpired { requested, earliest: bound }).text(),
            decimal_text(requested as nat),
            decimal_text(bound as nat),
        ),
        in_this_order(
            (OutputReadError::CursorAhead { requested, next: bound }).text(),
            decimal_text(requested as nat),
            decimal_text(bound as nat),
        ),
{
    let first = decimal_text(requested as nat);
    let second = decimal_text(bound as nat);
    let none = Seq::<char>::empty();
    let expired = (OutputReadError::CursorExpired { requested, earliest: bound }).text();
    let ahead = (OutputReadError::CursorAhead { requested, next: bound }).text();
    assert(expired =~= "output cursor "@ + first + " expired; earliest is "@ + second + none);
    lemma_in_order(expired, "output cursor "@, first, " expired; earliest is "@, second, none);
    assert(ahead =~= "output cursor "@ + first + " is ahead of "@ + second + none);
    lemma_in_order(ahead, "output cursor "@, first, " is ahead of "@, second, none);
}

/// The errors of sessions and of runs tell what they were handed: another error as that one does,
/// and words behind what failed.
pub proof fn law_errors_are_told_as_they_are(
    error: BackendErrorView,
    failure: IoFailureView,
    session: SessionErrorView,
    text: Seq<char>,
)
    ensures
        SessionErrorView::Backend(error).text() == error.text(),
        SessionErrorView::Io(failure).text() == failure.text(),
        SessionErrorView::Output(text).text() == text,
        text.is_suffix_of(SessionErrorView::Control(text).text()),
        SupervisorErrorView::Backend(error).text() == error.text(),
        SupervisorErrorView::SessionIo(failure).text() == failure.text(),
        SupervisorErrorView::Session(session).text() == session.text(),
        text.is_suffix_of(SupervisorErrorView::Io(text).text()),
        text.is_suffix_of(SupervisorErrorView::Cleanup(text).text()),
        SdkErrorView::Session(session).text() == session.text(),
        text.is_suffix_of(SdkErrorView::UnknownSession(text).text()),
        text.is_suffix_of(SdkErrorView::SessionTask(text).text()),
        text.is_suffix_of(SdkErrorView::BoxTask(text).text()),
        SdkErrorView::BoxStore(text).text() == text,
        failure.stream.label_spec().is_prefix_of(failure.text()),
        failure.message.is_suffix_of(failure.text()),
        occurs_in(failure.text(), failure.kind.label_spec()),
{
    let left = failure.stream.label_spec() + " pump "@;
    let right = ": "@ + failure.message;
    assert(failure.text() =~= left + failure.kind.label_spec() + right);
    crate::notation::law_parts_occur_in_the_whole(left, failure.kind.label_spec(), right);
}

/// The errors of the conversation with a guest end with what is told of them, and hold the numbers
/// that they are about.
pub proof fn law_guest_errors_tell_what_went_wrong(
    text: Seq<char>,
    number: i32,
    id: u64,
    expected: u64,
    actual: u64,
    size: usize,
)
    ensures
        text.is_suffix_of(BridgeErrorView::Io(text).text()),
        text.is_suffix_of(BridgeErrorView::Protocol(text).text()),
        text.is_suffix_of(BridgeErrorView::MissingCapabilities(text).text()),
        text.is_suffix_of(BridgeErrorView::InvalidExit(text).text()),
        text.is_suffix_of(BridgeErrorView::AgentShutdown(text).text()),
        text.is_suffix_of(BridgeErrorView::UnsafeCopyArchive(text).text()),
        text.is_suffix_of(BridgeErrorView::CopyDestinationExists(text).text()),
        crate::text::signed_text(number as int).is_suffix_of(
            BridgeErrorView::InvalidOutputChannel(number).text(),
        ),
        decimal_text(id as nat).is_suffix_of(BridgeErrorView::UnexpectedCopyTransfer(id).text()),
        occurs_in(BridgeErrorView::CopyLimitExceeded(id).text(), decimal_text(id as nat)),
        occurs_in(BridgeErrorView::FrameTooLarge(size).text(), decimal_text(size as nat)),
        in_this_order(
            (BridgeErrorView::CopySizeMismatch { expected, actual }).text(),
            decimal_text(expected as nat),
            decimal_text(actual as nat),
        ),
{
    crate::notation::law_parts_occur_in_the_whole(
        "copy transfer exceeded its "@,
        decimal_text(id as nat),
        "-byte limit"@,
    );
    crate::notation::law_parts_occur_in_the_whole(
        "guest frame size "@,
        decimal_text(size as nat),
        " exceeds the protocol limit"@,
    );
    let first = decimal_text(expected as nat);
    let second = decimal_text(actual as nat);
    let none = Seq::<char>::empty();
    let mismatch = (BridgeErrorView::CopySizeMismatch { expected, actual }).text();
    let head = "copy transfer size mismatch: expected "@;
    assert(mismatch =~= head + first + ", received "@ + second + none);
    lemma_in_order(mismatch, head, first, ", received "@, second, none);
}

/// The errors of the helper end with what is told of them; a call is named with its code, and a tool
/// with what it was to do.
pub proof fn law_helper_errors_tell_what_went_wrong(
    text: Seq<char>,
    position: usize,
    operation: Seq<char>,
    code: i32,
    status: Option<i32>,
)
    ensures
        text.is_suffix_of(HelperErrorView::Invalid(text).text()),
        text.is_suffix_of(HelperErrorView::InvalidCopy(text).text()),
        text.is_suffix_of(HelperErrorView::Unsupported(text).text()),
        text.is_suffix_of(HelperErrorView::Io(text).text()),
        text.is_suffix_of(HelperErrorView::GuestAgentVerification(text).text()),
        text.is_suffix_of(HelperErrorView::Load(text).text()),
        decimal_text(position as nat).is_suffix_of(HelperErrorView::Nul(position).text()),
        operation.is_prefix_of((HelperErrorView::KrunCall { operation, code }).text()),
        crate::text::signed_text(code as int).is_suffix_of(
            (HelperErrorView::KrunCall { operation, code }).text(),
        ),
        text.is_suffix_of((HelperErrorView::Debugfs { operation, status, stderr: text }).text()),
        in_this_order(
            (HelperErrorView::Debugfs { operation, status, stderr: text }).text(),
            operation,
            crate::libkrun::root::code_text(status),
        ),
{
    let failed = (HelperErrorView::Debugfs { operation, status, stderr: text }).text();
    let number = crate::libkrun::root::code_text(status);
    let tail = ": "@ + text;
    assert(failed =~= "debugfs failed to "@ + operation + " with status "@ + number + tail);
    lemma_in_order(failed, "debugfs failed to "@, operation, " with status "@, number, tail);
}

/// Stages, states, streams and findings that differ have names that differ.
pub proof fn law_names_tell_things_apart(
    stage: RunStage,
    other_stage: RunStage,
    state: SessionState,
    other_state: SessionState,
    stream: SessionIoStream,
    other_stream: SessionIoStream,
    status: DoctorCheckStatus,
    other_status: DoctorCheckStatus,
)
    ensures
        stage.label_spec() == other_stage.label_spec() ==> stage == other_stage,
        state.label_spec() == other_state.label_spec() ==> state == other_state,
        stream.label_spec() == other_stream.label_spec() ==> stream == other_stream,
        status.label_spec() == other_status.label_spec() ==> status == other_status,
{
    reveal_strlit("image_pull");
    reveal_strlit("workspace_prepare");
    reveal_strlit("process_spawn");
    reveal_strlit("network_setup");
    reveal_strlit("root_prepare");
    reveal_strlit("box_lock");
    reveal_strlit("box_repair");
    reveal_strlit("cache_lookup");
    reveal_strlit("base_disk_prepare");
    reveal_strlit("ephemeral_disk_clone");
    reveal_strlit("helper_spawn");
    reveal_strlit("command_run");
    reveal_strlit("created");
    reveal_strlit("preparing");
    reveal_strlit("starting");
    reveal_strlit("ready");
    reveal_strlit("running");
    reveal_strlit("stopping");
    reveal_strlit("timed_out");
    reveal_strlit("failed");
    reveal_strlit("dead");
    reveal_strlit("stdin");
    reveal_strlit("stdout");
    reveal_strlit("stderr");
    reveal_strlit("pass");
    reveal_strlit("warn");
    reveal_strlit("fail");
    let one = stage.label_spec();
    let two = other_stage.label_spec();
    if one == two {
        assert(one[0] == two[0] && one[1] == two[1] && one[2] == two[2] && one[4] == two[4]);
    }
    let three = state.label_spec();
    let four = other_state.label_spec();
    if three == four {
        assert(three[0] == four[0] && three[1] == four[1] && three[2] == four[2]);
    }
    let five = stream.label_spec();
    let six = other_stream.label_spec();
    if five == six {
        assert(five[3] == six[3]);
    }
    let seven = status.label_spec();
    let eight = other_status.label_spec();
    if seven == eight {
        assert(seven[0] == eight[0]);
    }
}

} // verus!
