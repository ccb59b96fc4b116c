//! What can be relied on of the library towards its embedder: how sessions are registered and
//! forgotten, how starts and executions go, and how output is collected.

use vstd::prelude::*;

use crate::output::{OutputChunk, OutputRead};
use crate::sdk::configuration::{platform_text, Platform};
use crate::sdk::execution::{
    collected, io_steps_spec, retained_step, settled_of, start_step, CollectView, IoStep, ReadEnd,
    RetainedAction, RetainedEvent, RetainedPhase, StartAction, StartEvent, StartPhase,
};
use crate::sdk::{
    page_complaint, slots_of, IoRequest, RegistryView, SdkError, SdkErrorView, SessionEntry,
};
use crate::session::finish::{SessionStatus, StatusView};
use crate::session::handle::{SessionError, SessionErrorView};
use crate::lifecycle::SessionState;

verus! {

/// A registered session is found under its name, is the current one of that name, and is active
/// with the slot that was taken for it; the other sessions are as they were.
pub proof fn law_registered_sessions_are_found(
    registry: RegistryView,
    id: Seq<char>,
    other: Seq<char>,
)
    requires
        registry.wf(),
        registry.unlisted > 0,
        registry.next_generation < u64::MAX,
        id != other,
    ensures
        registry.registered(id).found(id) == Ok::<(), SdkErrorView>(()),
        registry.registered(id).is_current(id, registry.next_generation),
        registry.registered(id).entries[id].holds_slot,
        registry.registered(id).found(other) == registry.found(other),
        registry.registered(id).entries.contains_key(other) ==> registry.registered(
            id,
        ).entries[other] == registry.entries[other],
        !registry.entries.contains_key(id) ==> registry.registered(id).active()
            == registry.active(),
        registry.registered(id).unlisted == registry.unlisted - 1,
{
    let entry = SessionEntry { generation: registry.next_generation, holds_slot: true };
    let after = registry.entries.insert(id, entry);
    if !registry.entries.contains_key(id) {
        assert(slots_of(after) =~= slots_of(registry.entries).insert(id));
        assert(!slots_of(registry.entries).contains(id));
        assert(slots_of(registry.entries).finite());
    }
}

/// A session that is over stays known under its name, but counts no longer as active; giving up
/// a slot twice is no more than giving it up once.
pub proof fn law_completed_sessions_stay_known(registry: RegistryView, id: Seq<char>, generation: u64)
    requires
        registry.wf(),
        registry.is_current(id, generation),
    ensures
        registry.released(id).found(id) == Ok::<(), SdkErrorView>(()),
        registry.released(id).is_current(id, generation),
        !registry.released(id).entries[id].holds_slot,
        registry.released(id).released(id) == registry.released(id),
        registry.released(id).active() == registry.active() - (if registry.entries[id].holds_slot {
            1int
        } else {
            0
        }),
{
    let entry = SessionEntry { holds_slot: false, ..registry.entries[id] };
    let after = registry.entries.insert(id, entry);
    assert(slots_of(after) =~= slots_of(registry.entries).remove(id));
    assert(slots_of(registry.entries).finite());
    assert(after.insert(id, entry) =~= after);
    assert(registry.released(id).released(id) =~= registry.released(id));
}

/// A registry has room for as many active sessions as its limit says: each slot that is taken
/// counts, whether its session is known by name yet or not, and every other session does not.
pub proof fn law_active_sessions_are_those_with_a_slot(registry: RegistryView, id: Seq<char>)
    requires
        registry.entries.dom().finite(),
    ensures
        registry.with_unlisted((registry.unlisted + 1) as nat).active() == registry.active() + 1,
        registry.active() >= registry.unlisted,
        registry.entries.contains_key(id) && registry.entries[id].holds_slot ==> registry.active()
            > registry.unlisted,
        (forall|name: Seq<char>| #[trigger]
            registry.entries.contains_key(name) ==> !registry.entries[name].holds_slot)
            ==> registry.active() == registry.unlisted,
{
    let slots = slots_of(registry.entries);
    assert(slots.finite());
    if registry.entries.contains_key(id) && registry.entries[id].holds_slot {
        assert(slots.contains(id));
        if slots.len() == 0 {
            assert(slots =~= Set::empty());
        }
    }
    if forall|name: Seq<char>| #[trigger]
        registry.entries.contains_key(name) ==> !registry.entries[name].holds_slot {
        assert forall|name: Seq<char>| !slots.contains(name) by {
            if slots.contains(name) {
                assert(registry.entries.contains_key(name));
            }
        }
        assert(slots =~= Set::empty());
    }
}

/// Output may be asked for in pages of one byte up to eight MiB.
pub proof fn law_pages_are_bounded(max_bytes: usize)
    ensures
        page_complaint(max_bytes) is None <==> 1 <= max_bytes <= 8_388_608,
        page_complaint(max_bytes) == Some(SdkErrorView::OutputReadEmpty) <==> max_bytes == 0,
        max_bytes > 8_388_608 ==> (page_complaint(
            max_bytes,
        ) matches Some(SdkErrorView::OutputReadTooLarge { requested, maximum }) && requested
            == max_bytes && maximum < requested),
{
}

/// A stop succeeds exactly where the session could be stopped and its end was seen, and hands on
/// what the session ended with; else it fails with one of the two errors.
pub proof fn law_stops_report_the_end(
    stop_error: Option<SessionErrorView>,
    waited: Result<StatusView, SessionErrorView>,
)
    ensures
        settled_of(stop_error, waited) is Ok <==> stop_error is None && waited is Ok,
        settled_of(stop_error, waited) matches Ok(status) ==> waited == Ok::<
            StatusView,
            SessionErrorView,
        >(status),
        settled_of(stop_error, waited) matches Err(SdkErrorView::Session(error)) ==> {
            ||| stop_error == Some(error)
            ||| waited == Err::<StatusView, SessionErrorView>(error)
        },
        settled_of(stop_error, waited) matches Err(error) ==> error is Session,
{
}

/// A start that is not cancelled hands its session over; one that fails reports its own error; one
/// that was cancelled before anything was done starts nothing.
pub proof fn law_starts_hand_over_their_session(error: SessionError, status: SessionStatus)
    ensures
        ({
            let (begun, action) = start_step(
                StartPhase::Asked,
                StartEvent::Checked { cancelled: false },
            );
            let started = start_step(begun, StartEvent::Started { failed: None, cancelled: false });
            let failed = start_step(
                begun,
                StartEvent::Started { failed: Some(error), cancelled: false },
            );
            &&& action is Start
            &&& started.1 is HandOver
            &&& failed.1 == StartAction::Fail(SdkError::Session(error))
            &&& started.0 == StartPhase::Over && failed.0 == StartPhase::Over
        }),
        start_step(StartPhase::Asked, StartEvent::Checked { cancelled: true }).1
            == StartAction::Fail(SdkError::RequestCancelled),
{
}

/// A start that is cancelled while its session is being started waits for the session, stops it,
/// and then reports that it was cancelled, or why the session could not be stopped.
pub proof fn law_cancelled_starts_stop_their_session(status: SessionStatus, error: SdkError)
    ensures
        ({
            let (abandoned, action) = start_step(StartPhase::Starting, StartEvent::Cancelled);
            let (stopping, next) = start_step(
                abandoned,
                StartEvent::Started { failed: None, cancelled: true },
            );
            &&& action is AwaitStart
            &&& next is Stop
            &&& start_step(stopping, StartEvent::Stopped(Ok(status))).1 == StartAction::Fail(
                SdkError::RequestCancelled,
            )
            &&& start_step(stopping, StartEvent::Stopped(Err(error))).1 == StartAction::Fail(error)
        }),
        start_step(
            StartPhase::Starting,
            StartEvent::Started { failed: None, cancelled: true },
        ).1 is Stop,
{
}

/// An execution that is left alone closes its input, waits for its end and for its output, reads
/// the output from the start, and hands on what it read with the status that it ended with.
pub proof fn law_executions_hand_on_their_output(
    status: SessionStatus,
    output_end: u64,
    page: OutputRead,
)
    ensures
        ({
            let (waiting, first) = retained_step(RetainedPhase::Closing, RetainedEvent::StdinClosed);
            let (ended, second) = retained_step(waiting, RetainedEvent::Finished(Ok(status)));
            let (reading, third) = retained_step(ended, RetainedEvent::OutputEnd(Ok(output_end)));
            let last = retained_step(reading, RetainedEvent::Read(ReadEnd::Page(page)));
            &&& first is AwaitEnd
            &&& second is AwaitOutput
            &&& third == RetainedAction::ReadAt(0)
            &&& last.1 matches RetainedAction::Done(result)
            &&& result.status == status
            &&& result.output == page.chunks
            &&& result.next_cursor == page.next_cursor
            &&& result.output_next_cursor == output_end
            &&& result.truncated == page.truncated
        }),
{
}

/// Output whose beginning is no longer kept is read from the earliest position that is; where that
/// is gone too, the output is lost.
pub proof fn law_executions_read_what_is_kept(
    status: SessionStatus,
    output_end: u64,
    earliest: u64,
    later: u64,
    page: OutputRead,
)
    ensures
        ({
            let reading = RetainedPhase::Reading { status, output_next_cursor: output_end };
            let (again, action) = retained_step(
                reading,
                RetainedEvent::Read(ReadEnd::Expired { earliest }),
            );
            &&& action == RetainedAction::ReadAt(earliest)
            &&& retained_step(again, RetainedEvent::Read(ReadEnd::Expired { earliest: later })).1
                is Lost
            &&& retained_step(again, RetainedEvent::Read(ReadEnd::Page(page))).1 matches
                RetainedAction::Done(result)
            &&& result.output == page.chunks && result.status == status
            &&& result.output_next_cursor == output_end
        }),
{
}

/// An execution whose input cannot be closed is removed and fails with that error, unless its
/// session is dead already; one that is cancelled is removed and fails as cancelled; one whose
/// removal fails reports that.
pub proof fn law_failed_executions_are_removed(error: SessionError, state: SessionState, other: SdkError)
    ensures
        ({
            let refused = RetainedEvent::StdinRefused { error, state };
            let (phase, action) = retained_step(RetainedPhase::Closing, refused);
            &&& state == SessionState::Dead ==> action is AwaitEnd
            &&& state != SessionState::Dead ==> action is Remove && retained_step(
                phase,
                RetainedEvent::Removed(Ok(())),
            ).1 == RetainedAction::Fail(SdkError::Session(error))
        }),
        ({
            let (phase, action) = retained_step(RetainedPhase::Waiting, RetainedEvent::Cancelled);
            &&& action is Remove
            &&& retained_step(phase, RetainedEvent::Removed(Ok(()))).1 == RetainedAction::Fail(
                SdkError::RequestCancelled,
            )
            &&& retained_step(phase, RetainedEvent::Removed(Err(other))).1 == RetainedAction::Fail(
                other,
            )
        }),
        retained_step(RetainedPhase::Waiting, RetainedEvent::Finished(Err(error))).1
            == RetainedAction::Forget(SdkError::Session(error)),
{
}

/// Each page is put behind what was collected, and the next is read where it ended; the page that
/// leads no further is the last.
pub proof fn law_pages_are_put_one_behind_the_other(
    chunks: Seq<OutputChunk>,
    cursor: u64,
    truncated: bool,
    page: OutputRead,
)
    ensures
        match collected(chunks, cursor, truncated, ReadEnd::Page(page)) {
            CollectView::Read { chunks: more, cursor: next, truncated: cut } => {
                &&& more == chunks + page.chunks@
                &&& next == page.next_cursor && next != cursor
                &&& cut == (truncated || page.truncated)
            },
            CollectView::Done { chunks: all, cursor: end, truncated: cut } => {
                &&& all == chunks + page.chunks@
                &&& end == cursor && page.next_cursor == cursor
                &&& cut == (truncated || page.truncated)
            },
            _ => false,
        },
{
}

/// A collection begins at the earliest position that is kept, but goes on without a gap: once
/// something was collected, a position that is no longer kept ends it as lost.
pub proof fn law_collections_begin_where_output_is_kept(
    chunks: Seq<OutputChunk>,
    cursor: u64,
    truncated: bool,
    earliest: u64,
    error: SessionError,
)
    ensures
        chunks.len() == 0 ==> (collected(
            chunks,
            cursor,
            truncated,
            ReadEnd::Expired { earliest },
        ) matches CollectView::Read { chunks: none, cursor: next, truncated: cut } && none.len()
            == 0 && next == earliest && cut == truncated),
        chunks.len() > 0 ==> collected(chunks, cursor, truncated, ReadEnd::Expired { earliest })
            is Lost,
        collected(chunks, cursor, truncated, ReadEnd::Failed(error)) == CollectView::Fail(
            SdkError::Session(error),
        ),
{
}

/// An exchange does all that it was asked for and nothing else, and reads output last.
pub proof fn law_exchanges_do_what_was_asked(request: IoRequest)
    ensures
        ({
            let steps = io_steps_spec(request);
            &&& request.stdin matches Some(input) ==> steps.contains(IoStep::Write(input))
            &&& request.close_stdin ==> steps.contains(IoStep::CloseStdin)
            &&& request.resize matches Some(size) ==> steps.contains(
                IoStep::Resize(size.0, size.1),
            )
            &&& request.signal matches Some(signal) ==> steps.contains(IoStep::Signal(signal))
            &&& request.wait_timeout matches Some(limit) ==> steps.contains(
                IoStep::AwaitChange { cursor: request.cursor, limit },
            ) && steps.contains(IoStep::CheckCursor(request.cursor))
            &&& steps.last() == (IoStep::Read {
                cursor: request.cursor,
                max_bytes: request.max_bytes,
            })
            &&& steps.len() == 1 + (if request.stdin is Some {
                1int
            } else {
                0
            }) + (if request.close_stdin {
                1int
            } else {
                0
            }) + (if request.resize is Some {
                1int
            } else {
                0
            }) + (if request.signal is Some {
                1int
            } else {
                0
            }) + (if request.wait_timeout is Some {
                2int
            } else {
                0
            })
            &&& request.stdin is Some ==> steps[0] is Write
        }),
{
    let steps = io_steps_spec(request);
    let first = crate::sdk::execution::write_steps(request);
    let second = crate::sdk::execution::close_steps(request);
    let third = crate::sdk::execution::resize_steps(request.resize);
    let fourth = crate::sdk::execution::signal_steps(request.signal);
    let fifth = crate::sdk::execution::wait_steps(request.cursor, request.wait_timeout);
    if request.stdin is Some {
        assert(steps[0] == first[0]);
    }
    if request.close_stdin {
        assert(steps[first.len() as int] == second[0]);
    }
    if request.resize is Some {
        assert(steps[first.len() + second.len() as int] == third[0]);
    }
    if request.signal is Some {
        assert(steps[first.len() + second.len() + third.len() as int] == fourth[0]);
    }
    if request.wait_timeout is Some {
        let at = first.len() + second.len() + third.len() + fourth.len() as int;
        assert(steps[at] == fifth[0]);
        assert(steps[at + 1] == fifth[1]);
    }
}

/// An exchange closes the input only after it was written to, and waits only after everything was
/// sent.
pub proof fn law_exchanges_keep_their_order(request: IoRequest, i: int, j: int)
    requires
        0 <= i < j < io_steps_spec(request).len(),
    ensures
        !(io_steps_spec(request)[j] is Write),
        io_steps_spec(request)[i] is CloseStdin ==> !(io_steps_spec(request)[j] is Write),
        io_steps_spec(request)[i] is AwaitChange ==> io_steps_spec(request)[j] is Read,
        io_steps_spec(request)[i] is CheckCursor ==> io_steps_spec(request)[j] is AwaitChange
            || io_steps_spec(request)[j] is Read,
        !(io_steps_spec(request)[i] is Read),
{
}

/// A platform is named by its parts, with a slash between them.
pub proof fn law_platforms_are_named_by_their_parts(platform: Platform)
    ensures
        ({
            let text = platform_text(platform);
            let os = platform.os@;
            let architecture = platform.architecture@;
            &&& text.subrange(0, os.len() as int) == os
            &&& text[os.len() as int] == '/'
            &&& text.subrange(os.len() + 1int, os.len() + 1int + architecture.len()) == architecture
            &&& match platform.variant {
                None => text.len() == os.len() + 1 + architecture.len(),
                Some(variant) => {
                    &&& text.len() == os.len() + 2 + architecture.len() + variant@.len()
                    &&& text[os.len() + 1int + architecture.len()] == '/'
                    &&& variant@.is_suffix_of(text)
                },
            }
        }),
{
    reveal_strlit("/");
    let text = platform_text(platform);
    let os = platform.os@;
    let architecture = platform.architecture@;
    assert(text.subrange(0, os.len() as int) =~= os);
    assert(text.subrange(os.len() + 1int, os.len() + 1int + architecture.len()) =~= architecture);
}

} // verus!
