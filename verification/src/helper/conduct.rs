//! What is done for a machine and its files: what goes in is what comes out.

use vstd::prelude::*;

use crate::backend::OutputChannel;
use crate::helper::bridge::{
    BridgeActionView, BridgeErrorView, BridgeView, ExecRequest, GuestFrame, HostFrame, HostFrameView,
    PendingView, StdinRead, StdinStep, WireChannel,
};
use crate::helper::opening::{OpeningView, PreparedView};
use crate::helper::plan::{KrunCallView, KrunSymbols, PlanView};
use crate::helper::transfer::{
    CopyArchiveView, ExtractStepView, ExtractionView, ReceivedView, SourceEntry, TarEntryView,
};
use crate::helper::{CopyFacts, HelperErrorView, HelperRequest};
use crate::helper::walk::{CopySourceView, CopyWalkView};
use crate::libkrun::CopySpec;

verus! {

/// The mode that an archive gives a file agrees with the file's own in each of the nine bits of its
/// permissions, and has no other bit: permissions alone are kept, and all of them are.
pub proof fn law_packed_mode_is_that_of_the_file(entry: SourceEntry, mode: u32, bit: u32)
    requires
        bit < 32,
    ensures
        ({
            let packed = crate::helper::transfer::header_of(entry, mode).mode;
            &&& bit < 9 ==> (packed >> bit) & 1 == (mode >> bit) & 1
            &&& bit >= 9 ==> (packed >> bit) & 1 == 0
            &&& mode <= 0o777 ==> packed == mode
        }),
{
    let packed = crate::helper::transfer::header_of(entry, mode).mode;
    assert(packed == mode & 0o777);
    assert(bit < 9 ==> ((mode & 0o777) >> bit) & 1 == (mode >> bit) & 1) by (bit_vector);
    assert(9 <= bit < 32 ==> ((mode & 0o777) >> bit) & 1 == 0) by (bit_vector);
    assert(mode <= 0o777 ==> mode & 0o777 == mode) by (bit_vector);
}

/// The mode that a file is unpacked with agrees in the same way with the mode in the archive, and
/// what is made is what the archive says: a file with the data in their place, a directory, or a
/// link to its target; a parent is looked at before anything is made in it.
pub proof fn law_entry_is_unpacked_as_it_is(
    done: ExtractionView,
    entry: TarEntryView,
    mode: u32,
    bit: u32,
)
    requires
        bit < 32,
        done.seen.len() < 100_000,
        crate::helper::archive::valid_name(entry.path),
        !done.seen.contains(crate::helper::archive::parts_from(entry.path, 0)),
        entry.mode == Ok::<u32, Seq<char>>(mode),
        entry.kind == 0x30 || entry.kind == 0x35 || (entry.kind == 0x32 && entry.link is Some
            && crate::helper::archive::valid_link(entry.path, entry.link->0)),
    ensures
        ({
            let (after, complaint) = done.taken(entry);
            let first = done.steps.len() as int;
            &&& complaint is None
            &&& after.steps.len() == first + 2
            &&& after.steps.subrange(0, first) == done.steps
            &&& after.steps[first] == ExtractStepView::CheckParents(entry.path)
            &&& after.seen == done.seen.push(crate::helper::archive::parts_from(entry.path, 0))
            &&& entry.kind == 0x30 ==> match after.steps[first + 1] {
                ExtractStepView::CreateFile { path, mode: kept, position, size } => {
                    &&& path == entry.path && position == entry.position && size == entry.size
                    &&& (kept >> bit) & 1 == (if bit < 9 {
                        (mode >> bit) & 1
                    } else {
                        0
                    })
                },
                _ => false,
            }
            &&& entry.kind == 0x35 ==> {
                &&& after.steps[first + 1] == ExtractStepView::CreateDirectory(entry.path)
                &&& after.directories.len() == done.directories.len() + 1
                &&& after.directories.last().0 == entry.path
                &&& (after.directories.last().1 >> bit) & 1 == (if bit < 9 {
                    (mode >> bit) & 1
                } else {
                    0
                })
            }
            &&& entry.kind == 0x32 ==> after.steps[first + 1] == (ExtractStepView::CreateLink {
                path: entry.path,
                target: entry.link->0,
            })
            &&& entry.kind != 0x35 ==> after.directories == done.directories
        }),
{
    let after = done.taken(entry).0;
    assert(after.steps.subrange(0, done.steps.len() as int) =~= done.steps);
    assert(bit < 9 ==> ((mode & 0o777) >> bit) & 1 == (mode >> bit) & 1) by (bit_vector);
    assert(9 <= bit < 32 ==> ((mode & 0o777) >> bit) & 1 == 0) by (bit_vector);
}

/// An entry that leads out of the root, that was there before, that is of another kind, or that is
/// one too many makes nothing and ends the unpacking.
pub proof fn law_other_entries_are_refused(done: ExtractionView, entry: TarEntryView)
    requires
        done.seen.len() >= 100_000 || !crate::helper::archive::valid_name(entry.path)
            || done.seen.contains(crate::helper::archive::parts_from(entry.path, 0)) || entry.mode
            is Err || (entry.kind != 0x30 && entry.kind != 0x35 && entry.kind != 0x32) || (
        entry.kind == 0x32 && (entry.link is None || !crate::helper::archive::valid_link(
            entry.path,
            entry.link->0,
        ))),
    ensures
        done.taken(entry).1 is Some,
        done.taken(entry).0.directories == done.directories,
        forall|i: int|
            0 <= i < done.taken(entry).0.steps.len() ==> i < done.steps.len() && (
            #[trigger] done.taken(entry).0.steps[i]) == done.steps[i] || done.taken(
                entry,
            ).0.steps[i] == ExtractStepView::CheckParents(entry.path),
{
}

/// The modes of directories are set when all is made, from the last directory to the first.
pub proof fn law_directories_are_closed_last(directories: Seq<(Seq<u8>, u32)>, upto: nat, i: int)
    requires
        upto <= directories.len(),
        0 <= i < upto,
    ensures
        crate::helper::transfer::mode_steps(directories, upto).len() == upto,
        crate::helper::transfer::mode_steps(directories, upto)[i] == (ExtractStepView::SetMode {
            path: directories[upto - 1 - i].0,
            mode: directories[upto - 1 - i].1,
        }),
    decreases upto,
{
    reveal_with_fuel(crate::helper::transfer::mode_steps, 2);
    let steps = crate::helper::transfer::mode_steps(directories, upto);
    if upto > 1 {
        let rest = crate::helper::transfer::mode_steps(directories, (upto - 1) as nat);
        if i > 0 {
            law_directories_are_closed_last(directories, (upto - 1) as nat, i - 1);
            assert(steps[i] == rest[i - 1]);
        } else {
            law_directories_are_closed_last(directories, (upto - 1) as nat, 0);
        }
    }
}

/// An archive without a root, or with something wrong behind its last entry, is not unpacked; one
/// whose entries are all taken is, and nothing is done but what was planned for them.
pub proof fn law_unpacking_needs_a_root(listing: (Seq<TarEntryView>, Option<Seq<char>>))
    ensures
        ({
            let done = crate::helper::transfer::extraction_of(listing.0, listing.0.len());
            let (steps, complaint) = crate::helper::transfer::extraction_plan(listing);
            let rooted = exists|i: int|
                0 <= i < done.0.seen.len() && (#[trigger] done.0.seen[i]).len() == 1;
            &&& complaint is None <==> done.1 is None && listing.1 is None && rooted
            &&& steps.len() >= done.0.steps.len()
            &&& steps.subrange(0, done.0.steps.len() as int) == done.0.steps
            &&& complaint is Some ==> steps == done.0.steps
            &&& complaint is None ==> steps == done.0.steps + crate::helper::transfer::mode_steps(
                done.0.directories,
                done.0.directories.len(),
            )
        }),
{
    let done = crate::helper::transfer::extraction_of(listing.0, listing.0.len());
    let steps = crate::helper::transfer::extraction_plan(listing).0;
    assert(steps.subrange(0, done.0.steps.len() as int) =~= done.0.steps);
}

/// The header of a file tells what it is: a file with its size, a directory, or a link with its
/// target; and nothing of its owner or its time.
pub proof fn law_header_tells_what_it_is(entry: SourceEntry, mode: u32)
    requires
        crate::helper::transfer::data_of(entry).len() <= u64::MAX,
    ensures
        ({
            let header = crate::helper::transfer::header_of(entry, mode);
            &&& header.uid == 0 && header.gid == 0 && header.mtime == 0
            &&& match entry {
                SourceEntry::File(data) => header.kind == 0x30 && header.size == data@.len()
                    && header.link is None && crate::helper::transfer::data_of(entry) == data@,
                SourceEntry::Directory => header.kind == 0x35 && header.size == 0 && header.link
                    is None,
                SourceEntry::Symlink(target) => header.kind == 0x32 && header.size == 0
                    && header.link == Some(target@),
                SourceEntry::Other => true,
            }
        }),
{
}

/// A file is put into an archive behind what is there, as long as the archive may become longer and
/// hold more, and a link does not lead out; what cannot be put in is refused for its own reason.
pub proof fn law_files_are_put_in_one_by_one(
    archive: CopyArchiveView,
    source: Seq<char>,
    name: Seq<char>,
    entry: SourceEntry,
    mode: u32,
)
    ensures
        ({
            let encoded = crate::helper::transfer::tar_entry(
                crate::helper::transfer::header_of(entry, mode),
                name,
                crate::helper::transfer::data_of(entry),
            );
            let leads_out = match entry {
                SourceEntry::Symlink(target) => !crate::helper::archive::valid_link(
                    vstd::utf8::encode_utf8(name),
                    vstd::utf8::encode_utf8(target@),
                ),
                _ => false,
            };
            match archive.appended(source, name, entry, mode) {
                Ok(after) => {
                    &&& archive.entries < 100_000 && !leads_out && !(entry is Other)
                    &&& encoded is Ok && archive.bytes.len() + encoded->Ok_0.len() <= archive.limit
                    &&& after.bytes == archive.bytes + encoded->Ok_0
                    &&& after.entries == archive.entries + 1 && after.limit == archive.limit
                },
                Err(error) => {
                    &&& archive.entries >= 100_000 ==> error == BridgeErrorView::TooManyCopyEntries
                    &&& archive.entries < 100_000 ==> leads_out || entry is Other || encoded is Err
                        || archive.bytes.len() + encoded->Ok_0.len() > archive.limit
                },
            }
        }),
{
}

/// Data that arrive for a copy are put behind what is there, and nothing else changes; what belongs
/// to another copy, or is too much, is refused.
pub proof fn law_copy_grows_by_what_arrives(copy: ReceivedView, transfer_id: u64, chunk: Seq<u8>)
    ensures
        match copy.appended(transfer_id, chunk) {
            Ok(after) => {
                &&& transfer_id == copy.transfer_id
                &&& copy.data.len() + chunk.len() <= copy.limit
                &&& after.data == copy.data + chunk
                &&& after.transfer_id == copy.transfer_id && after.destination == copy.destination
                    && after.limit == copy.limit
            },
            Err(error) => {
                &&& transfer_id != copy.transfer_id || copy.data.len() + chunk.len() > copy.limit
                &&& transfer_id != copy.transfer_id ==> error
                    == BridgeErrorView::UnexpectedCopyTransfer(transfer_id)
                &&& transfer_id == copy.transfer_id ==> error == BridgeErrorView::CopyLimitExceeded(
                    copy.limit,
                )
            },
        },
{
}

/// A copy is taken as whole only where the guest names it, its size and its digest, and each that
/// does not agree is complained of.
pub proof fn law_copy_ends_with_its_size_and_digest(
    copy: ReceivedView,
    transfer_id: u64,
    total: u64,
    digest: Seq<char>,
)
    requires
        copy.data.len() <= u64::MAX,
    ensures
        ({
            let same = crate::helper::transfer::same_but_case(
                crate::helper::transfer::digest_spec(copy.data),
                digest,
            );
            &&& copy.end_complaint(transfer_id, total, digest) is None <==> transfer_id
                == copy.transfer_id && total == copy.data.len() && same
            &&& transfer_id == copy.transfer_id && total == copy.data.len() && !same
                ==> copy.end_complaint(transfer_id, total, digest) == Some(
                BridgeErrorView::CopyDigestMismatch,
            )
        }),
{
}

/// The exit of the command is the helper's own: the command's code where it exited, and 128 with
/// the number of the signal where it was killed.  So success is told of a success alone.
pub proof fn law_exit_tells_how_the_command_ended(
    bridge: BridgeView,
    code: i32,
    signal: Option<i32>,
)
    ensures
        ({
            let outcome = bridge.after(GuestFrame::Exit { code, signal });
            let told = match signal {
                Some(number) => 1 <= number <= 127 && code == 0,
                None => 0 <= code <= 255,
            };
            &&& outcome is Ok <==> bridge.active is None && bridge.pending.len() == 0 && told
            &&& outcome matches Ok((_, action)) ==> match signal {
                Some(number) => action == BridgeActionView::Exit((128 + number) as i32),
                None => action == BridgeActionView::Exit(code),
            }
            &&& outcome matches Ok((_, BridgeActionView::Exit(0))) ==> signal is None && code == 0
            &&& outcome matches Ok((after, _)) ==> after == bridge
        }),
{
}

/// Output of the guest is written where it belongs, as it is, and changes nothing else.
pub proof fn law_output_goes_where_it_belongs(bridge: BridgeView, data: Vec<u8>, number: i32)
    ensures
        bridge.after(
            GuestFrame::Output { channel: WireChannel::Known(OutputChannel::Stdout), data },
        ) == Ok::<(BridgeView, BridgeActionView), BridgeErrorView>(
            (bridge, BridgeActionView::WriteStdout(data@)),
        ),
        bridge.after(
            GuestFrame::Output { channel: WireChannel::Known(OutputChannel::Tty), data },
        ) == Ok::<(BridgeView, BridgeActionView), BridgeErrorView>(
            (bridge, BridgeActionView::WriteStdout(data@)),
        ),
        bridge.after(
            GuestFrame::Output { channel: WireChannel::Known(OutputChannel::Stderr), data },
        ) == Ok::<(BridgeView, BridgeActionView), BridgeErrorView>(
            (bridge, BridgeActionView::WriteStderr(data@)),
        ),
        bridge.after(GuestFrame::Output { channel: WireChannel::Unknown(number), data }) == Err::<
            (BridgeView, BridgeActionView),
            BridgeErrorView,
        >(BridgeErrorView::InvalidOutputChannel(number)),
{
}

proof fn lemma_found(pending: Seq<PendingView>, transfer_id: u64, from: int, at: int)
    requires
        0 <= from <= at < pending.len(),
        pending[at].transfer_id == transfer_id,
        forall|i: int| from <= i < at ==> (#[trigger] pending[i]).transfer_id != transfer_id,
    ensures
        crate::helper::bridge::find_pending(pending, transfer_id, from) == Some(at),
    decreases at - from,
{
    if from < at {
        lemma_found(pending, transfer_id, from + 1, at);
    }
}

proof fn lemma_not_found(pending: Seq<PendingView>, transfer_id: u64, from: int)
    requires
        0 <= from <= pending.len(),
        forall|i: int| from <= i < pending.len() ==> (#[trigger] pending[i]).transfer_id
            != transfer_id,
    ensures
        crate::helper::bridge::find_pending(pending, transfer_id, from) is None,
    decreases pending.len() - from,
{
    if from < pending.len() {
        lemma_not_found(pending, transfer_id, from + 1);
    }
}

/// A copy that was asked for begins where the guest names it, empty and for the place that was
/// asked for; one that was not, or a second one at a time, is refused.
pub proof fn law_copy_begins_as_asked_for(bridge: BridgeView, at: int, transfer_id: u64)
    ensures
        bridge.active is Some ==> bridge.after(GuestFrame::CopyOutStart { transfer_id }) is Err,
        (forall|i: int|
            0 <= i < bridge.pending.len() ==> (#[trigger] bridge.pending[i]).transfer_id
                != transfer_id) ==> bridge.after(GuestFrame::CopyOutStart { transfer_id }) is Err,
        bridge.active is None && 0 <= at < bridge.pending.len() && bridge.pending[at].transfer_id
            == transfer_id && (forall|i: int|
            0 <= i < at ==> (#[trigger] bridge.pending[i]).transfer_id != transfer_id)
            ==> bridge.after(GuestFrame::CopyOutStart { transfer_id }) == Ok::<
            (BridgeView, BridgeActionView),
            BridgeErrorView,
        >(
            (
                BridgeView {
                    pending: bridge.pending.remove(at),
                    active: Some(
                        ReceivedView {
                            transfer_id,
                            destination: bridge.pending[at].destination,
                            data: Seq::empty(),
                            limit: bridge.limit,
                        },
                    ),
                    limit: bridge.limit,
                },
                BridgeActionView::Continue,
            ),
        ),
{
    if forall|i: int|
        0 <= i < bridge.pending.len() ==> (#[trigger] bridge.pending[i]).transfer_id
            != transfer_id {
        lemma_not_found(bridge.pending, transfer_id, 0);
    }
    if bridge.active is None && 0 <= at < bridge.pending.len() && bridge.pending[at].transfer_id
        == transfer_id && (forall|i: int|
        0 <= i < at ==> (#[trigger] bridge.pending[i]).transfer_id != transfer_id) {
        lemma_found(bridge.pending, transfer_id, 0, at);
    }
}

/// A copy that is under way takes the data that arrive and is unpacked at its end, whole, to the
/// place that it was asked for; data or an end without a copy, a hello, and anything unknown are
/// refused, and a shutdown of the agent is an error in its own words.
pub proof fn law_copy_is_unpacked_at_its_end(
    bridge: BridgeView,
    copy: ReceivedView,
    transfer_id: u64,
    data: Vec<u8>,
    total_bytes: u64,
    sha256: String,
    reason: String,
)
    ensures
        bridge.active == Some(copy) ==> {
            &&& match bridge.after(GuestFrame::CopyOutChunk { transfer_id, data }) {
                Ok((after, action)) => {
                    &&& action == BridgeActionView::Continue
                    &&& transfer_id == copy.transfer_id && copy.data.len() + data@.len()
                        <= copy.limit
                    &&& after.pending == bridge.pending && after.limit == bridge.limit
                    &&& after.active == Some(ReceivedView { data: copy.data + data@, ..copy })
                },
                Err(_) => transfer_id != copy.transfer_id || copy.data.len() + data@.len()
                    > copy.limit,
            }
            &&& match bridge.after(
                GuestFrame::CopyOutEnd { transfer_id, total_bytes, sha256 },
            ) {
                Ok((after, action)) => {
                    &&& action == (BridgeActionView::Extract {
                        destination: copy.destination,
                        archive: copy.data,
                    })
                    &&& after.active is None && after.pending == bridge.pending
                    &&& copy.end_complaint(transfer_id, total_bytes, sha256@) is None
                },
                Err(error) => copy.end_complaint(transfer_id, total_bytes, sha256@) == Some(error),
            }
        },
        bridge.active is None ==> bridge.after(GuestFrame::CopyOutChunk { transfer_id, data })
            is Err && bridge.after(GuestFrame::CopyOutEnd { transfer_id, total_bytes, sha256 })
            is Err,
        bridge.after(GuestFrame::Other) is Err,
        bridge.after(GuestFrame::Shutdown { reason }) == Err::<
            (BridgeView, BridgeActionView),
            BridgeErrorView,
        >(BridgeErrorView::AgentShutdown(reason@)),
{
}

/// An agent is taken exactly where it names its version and can do all that is needed, whatever else
/// it can do and in whatever order it says so.
pub proof fn law_agent_can_do_what_is_needed(version: Seq<char>, offered: Seq<Seq<char>>)
    ensures
        crate::helper::bridge::hello_complaint(version, offered) is None <==> {
            &&& version.len() > 0
            &&& offered.contains("exec"@) && offered.contains("stdin"@) && offered.contains(
                "signal"@,
            ) && offered.contains("resize"@) && offered.contains("tty"@) && offered.contains(
                "output-v1"@,
            ) && offered.contains("copy-tar-v1"@)
        },
        version.len() == 0 ==> crate::helper::bridge::hello_complaint(version, offered) == Some(
            BridgeErrorView::MissingAgentVersion,
        ),
{
    let needed = crate::helper::bridge::required_capabilities_spec();
    let lacks = |name: Seq<char>| !offered.contains(name);
    let missing = needed.filter(lacks);
    assert(missing == crate::helper::bridge::missing_capabilities(offered));
    assert forall|i: int| 0 <= i < needed.len() && lacks(#[trigger] needed[i]) implies missing.len()
        > 0 by {
        needed.lemma_filter_contains(lacks, i);
        assert(missing.contains(needed[i]));
    }
    assert(needed[0] == "exec"@ && needed[1] == "stdin"@ && needed[2] == "signal"@ && needed[3]
        == "resize"@ && needed[4] == "tty"@ && needed[5] == "output-v1"@ && needed[6]
        == "copy-tar-v1"@);
    if missing.len() > 0 {
        let name = missing[0];
        needed.lemma_filter_pred(lacks, 0);
        assert(missing.contains(name));
        needed.lemma_filter_contains_rev(lacks, name);
        let i = choose|i: int| 0 <= i < needed.len() && needed[i] == name;
        assert(0 <= i < 7);
    }
}

/// A file goes to the guest as it is: it is announced with its place, its size and its digest,
/// followed by its bytes in their order and by its end.
pub proof fn law_file_is_sent_whole(
    transfer_id: u64,
    destination: Seq<char>,
    archive: Seq<u8>,
    size: u64,
    digest: Seq<char>,
)
    ensures
        ({
            let frames = crate::helper::bridge::copy_in_frames(
                transfer_id,
                destination,
                archive,
                size,
                digest,
            );
            &&& frames.len() >= 2
            &&& frames.first() == (HostFrameView::CopyInStart {
                transfer_id,
                destination,
                archive_size: size,
                sha256: digest,
            })
            &&& frames.last() == (HostFrameView::CopyInEnd { transfer_id })
            &&& crate::helper::bridge::chunk_data(
                frames.subrange(1, frames.len() - 1),
            ) == archive
            &&& forall|i: int|
                1 <= i < frames.len() - 1 ==> match #[trigger] frames[i] {
                    HostFrameView::CopyInChunk { transfer_id: id, data } => id == transfer_id && 0
                        < data.len() <= 65536,
                    _ => false,
                }
        }),
{
    let frames = crate::helper::bridge::copy_in_frames(
        transfer_id,
        destination,
        archive,
        size,
        digest,
    );
    let chunks = crate::helper::bridge::chunk_frames(transfer_id, archive, 0);
    crate::helper::bridge::law_chunks_make_up_the_archive(transfer_id, archive, 0);
    assert(frames.subrange(1, frames.len() - 1) =~= chunks);
    assert(archive.subrange(0, archive.len() as int) =~= archive);
    assert forall|i: int| 1 <= i < frames.len() - 1 implies match #[trigger] frames[i] {
        HostFrameView::CopyInChunk { transfer_id: id, data } => id == transfer_id && 0 < data.len()
            <= 65536,
        _ => false,
    } by {
        assert(frames[i] == chunks[i - 1]);
    }
}

/// Each file that is to be copied out is asked for once, under the next number, and waited for at
/// its own place.
pub proof fn law_each_file_is_asked_for(copies: Seq<CopySpec>, first: u64, limit: u64, upto: nat, i: int)
    requires
        upto <= copies.len(),
        first + upto <= u64::MAX,
        0 <= i < upto,
    ensures
        crate::helper::bridge::request_frames(copies, first, limit, upto).len() == upto,
        crate::helper::bridge::request_frames(copies, first, limit, upto)[i] == (
        HostFrameView::CopyOutRequest {
            transfer_id: (first + i) as u64,
            source: copies[i].source@,
            max_bytes: limit,
        }),
        crate::helper::bridge::numbered_copies(copies, first, upto).len() == upto,
        crate::helper::bridge::numbered_copies(copies, first, upto)[i] == (PendingView {
            transfer_id: (first + i) as u64,
            destination: copies[i].destination@,
        }),
    decreases upto,
{
    reveal_with_fuel(crate::helper::bridge::request_frames, 2);
    reveal_with_fuel(crate::helper::bridge::numbered_copies, 2);
    if i < upto - 1 {
        law_each_file_is_asked_for(copies, first, limit, (upto - 1) as nat, i);
    } else if upto > 1 {
        law_each_file_is_asked_for(copies, first, limit, (upto - 1) as nat, 0);
    }
}

/// A signal to the helper is passed on as that signal, and a new size of its terminal as that size
/// where there is a terminal; no other number is.
pub proof fn law_signals_are_passed_on(number: i32, tty: bool, rows: u16, cols: u16)
    ensures
        crate::helper::bridge::relayed(2, tty, Some((rows, cols))) == Some(
            HostFrameView::Signal(crate::backend::Signal::Interrupt),
        ),
        crate::helper::bridge::relayed(15, tty, Some((rows, cols))) == Some(
            HostFrameView::Signal(crate::backend::Signal::Terminate),
        ),
        crate::helper::bridge::relayed(1, tty, Some((rows, cols))) == Some(
            HostFrameView::Signal(crate::backend::Signal::Hangup),
        ),
        crate::helper::bridge::relayed(28, tty, Some((rows, cols))) == (if tty && rows != 0 && cols
            != 0 {
            Some(HostFrameView::Resize { rows: rows as u32, cols: cols as u32 })
        } else {
            None
        }),
        number != 1 && number != 2 && number != 15 && number != 28
            ==> crate::helper::bridge::relayed(number, tty, Some((rows, cols))) is None,
        crate::helper::bridge::relayed(28, tty, None) is None,
{
}

/// The agent is removed, written, made executable, looked at and read back, by these commands and in
/// this order; each but the removal has to succeed, and a listing that does not show an executable
/// file is an error.
pub proof fn law_agent_is_put_in_step_by_step(end: crate::helper::agent::CommandEnd)
    ensures
        ({
            let removing = crate::helper::agent::AgentPhase::Removing;
            let writing = removing.next();
            let setting = writing.next();
            let inspecting = setting.next();
            let reading = inspecting.next();
            let listing = crate::text::lossy_text(end.stdout@);
            &&& removing.request_spec() == Some("rm /.moraebox-agent"@)
            &&& writing.request_spec() == Some("write agent /.moraebox-agent"@)
            &&& setting.request_spec() == Some(
                "set_inode_field /.moraebox-agent mode 0100755"@,
            )
            &&& inspecting.request_spec() == Some("stat /.moraebox-agent"@)
            &&& reading.request_spec() == Some("dump /.moraebox-agent verified-agent"@)
            &&& reading.next() == crate::helper::agent::AgentPhase::Comparing
            &&& reading.next().request_spec() is None
            &&& removing.complaint(end) is None
            &&& writing.complaint(end) is None <==> end.success
            &&& setting.complaint(end) is None <==> end.success
            &&& reading.complaint(end) is None <==> end.success
            &&& inspecting.complaint(end) is None <==> end.success && (crate::text::occurs_in(
                listing,
                "Mode:  0755"@,
            ) || crate::text::occurs_in(listing, "Mode:  0100755"@))
        }),
{
}

/// Whether no text that a machine is configured with holds a zero byte.
pub open spec fn is_clean(texts: Seq<Seq<char>>) -> bool {
    forall|i: int| 0 <= i < texts.len() ==> crate::helper::plan::nul_in(#[trigger] texts[i]) is None
}

proof fn lemma_clean(texts: Seq<Seq<char>>, from: int)
    requires
        is_clean(texts),
        0 <= from,
    ensures
        crate::helper::plan::nul_among(texts, from) is None,
    decreases texts.len() - from,
{
    if from < texts.len() {
        lemma_clean(texts, from + 1);
    }
}

/// A machine whose library can do everything is configured with all that was asked for and nothing
/// else, in an order in which each call finds what it needs: its size, its root, its sockets, its
/// network, its console, its workspace, its directory and what it runs.
pub proof fn law_machine_gets_what_was_asked_for(
    request: HelperRequest,
    symbols: KrunSymbols,
    control: Option<Seq<char>>,
    input: i32,
)
    requires
        symbols.set_root && symbols.disable_implicit_vsock && symbols.add_vsock_port
            && symbols.add_net_unixgram && symbols.add_disk && symbols.set_root_disk_remount
            && symbols.disable_implicit_console && symbols.add_virtio_console_default,
        request.command@.len() > 0,
        request.root_disk is Some || request.root is Some,
        request.root_disk matches Some(path) ==> crate::helper::plan::nul_in(path@) is None,
        request.root matches Some(path) ==> crate::helper::plan::nul_in(path@) is None,
        control matches Some(path) ==> crate::helper::plan::nul_in(path) is None,
        request.network_socket matches Some(path) ==> crate::helper::plan::nul_in(path@) is None,
        request.workspace_disk matches Some(path) ==> crate::helper::plan::nul_in(path@) is None,
        request.cwd matches Some(path) ==> crate::helper::plan::nul_in(path@) is None,
        control is Some ==> is_clean(crate::helper::plan::agent_arguments(request))
            && crate::helper::plan::nul_in("/.moraebox-agent"@) is None,
        control is None ==> is_clean(crate::text::strings(request.command@)) && is_clean(
            crate::helper::environment::lines_of(
                crate::helper::environment::environment_of(
                    crate::helper::environment::pair_views(request.environment@),
                ),
            ),
        ),
    ensures
        crate::helper::plan::machine_plan(request, symbols, control, input) == (PlanView {
            calls: seq![
                KrunCallView::SetVmConfig { cpus: request.cpus, memory_mib: request.memory_mib },
            ] + (match (request.root_disk, request.root) {
                (Some(disk), _) => seq![
                    KrunCallView::AddRootDisk(disk@),
                    KrunCallView::SetRootDiskRemount,
                ],
                (None, Some(root)) => seq![KrunCallView::SetRoot(root@)],
                (None, None) => Seq::empty(),
            }) + seq![KrunCallView::DisableImplicitVsock, KrunCallView::AddVsock] + (match control {
                Some(path) => seq![KrunCallView::AddVsockPort { port: 1070, path }],
                None => Seq::empty(),
            }) + (match request.network_socket {
                Some(socket) => seq![KrunCallView::AddNetwork(socket@)],
                None => Seq::empty(),
            }) + seq![
                KrunCallView::DisableImplicitConsole,
                KrunCallView::AddConsole {
                    input,
                    output: if control is Some {
                        2
                    } else {
                        1
                    },
                    error: 2,
                },
            ] + (match request.workspace_disk {
                Some(path) => seq![KrunCallView::AddWorkspaceDisk(path@)],
                None => Seq::empty(),
            }) + (match request.cwd {
                Some(path) if control is None => seq![KrunCallView::SetWorkdir(path@)],
                _ => Seq::empty(),
            }) + seq![
                match control {
                    Some(_) => KrunCallView::SetExec {
                        executable: "/.moraebox-agent"@,
                        arguments: crate::helper::plan::agent_arguments(request),
                        environment: Seq::empty(),
                    },
                    None => KrunCallView::SetExec {
                        executable: request.command@[0]@,
                        arguments: crate::text::strings(request.command@).subrange(
                            1,
                            request.command@.len() as int,
                        ),
                        environment: crate::helper::environment::lines_of(
                            crate::helper::environment::environment_of(
                                crate::helper::environment::pair_views(request.environment@),
                            ),
                        ),
                    },
                },
            ],
            failure: None,
        }),
{
    let root = match (request.root_disk, request.root) {
        (Some(disk), _) => seq![KrunCallView::AddRootDisk(disk@), KrunCallView::SetRootDiskRemount],
        (None, Some(root)) => seq![KrunCallView::SetRoot(root@)],
        (None, None) => Seq::empty(),
    };
    let port = match control {
        Some(path) => seq![KrunCallView::AddVsockPort { port: 1070, path }],
        None => Seq::empty(),
    };
    let device = match request.network_socket {
        Some(socket) => seq![KrunCallView::AddNetwork(socket@)],
        None => Seq::empty(),
    };
    let sockets = seq![KrunCallView::DisableImplicitVsock, KrunCallView::AddVsock];
    let console = seq![
        KrunCallView::DisableImplicitConsole,
        KrunCallView::AddConsole {
            input,
            output: if control is Some {
                2
            } else {
                1
            },
            error: 2,
        },
    ];
    let workspace = match request.workspace_disk {
        Some(path) => seq![KrunCallView::AddWorkspaceDisk(path@)],
        None => Seq::empty(),
    };
    let directory = match request.cwd {
        Some(path) if control is None => seq![KrunCallView::SetWorkdir(path@)],
        _ => Seq::empty(),
    };
    let network = crate::text::text_of(request.network_socket);
    assert(crate::helper::plan::any_root_plan(request, symbols) == crate::helper::plan::calls_only(
        root,
    ));
    assert(crate::helper::plan::control_plan(control, symbols) == crate::helper::plan::calls_only(
        port,
    ));
    assert(crate::helper::plan::networking_plan(control, network, symbols)
        == crate::helper::plan::calls_only(sockets + port + device));
    assert(crate::helper::plan::workspace_plan(
        crate::text::text_of(request.workspace_disk),
        symbols,
    ) == crate::helper::plan::calls_only(workspace));
    assert(crate::helper::plan::workdir_plan(
        crate::text::text_of(request.cwd),
        control is Some,
    ) == crate::helper::plan::calls_only(directory));
    lemma_exec(request, control);
    let run = crate::helper::plan::exec_plan(request, control is Some).calls;
    let size = seq![
        KrunCallView::SetVmConfig { cpus: request.cpus, memory_mib: request.memory_mib },
    ];
    lemma_in_order(
        size,
        root,
        sockets,
        port,
        device,
        console,
        workspace,
        directory,
        run,
        crate::helper::plan::machine_plan(request, symbols, control, input),
    );
}

proof fn lemma_in_order(
    size: Seq<KrunCallView>,
    root: Seq<KrunCallView>,
    sockets: Seq<KrunCallView>,
    port: Seq<KrunCallView>,
    device: Seq<KrunCallView>,
    console: Seq<KrunCallView>,
    workspace: Seq<KrunCallView>,
    directory: Seq<KrunCallView>,
    run: Seq<KrunCallView>,
    plan: PlanView,
)
    requires
        plan == crate::helper::plan::calls_only(size).followed_by(
            crate::helper::plan::calls_only(root),
        ).followed_by(crate::helper::plan::calls_only(sockets + port + device)).followed_by(
            crate::helper::plan::calls_only(console),
        ).followed_by(crate::helper::plan::calls_only(workspace)).followed_by(
            crate::helper::plan::calls_only(directory),
        ).followed_by(crate::helper::plan::calls_only(run)),
    ensures
        plan == (PlanView {
            calls: size + root + sockets + port + device + console + workspace + directory + run,
            failure: None,
        }),
{
    assert(size + root + (sockets + port + device) =~= size + root + sockets + port + device);
}

proof fn lemma_exec(request: HelperRequest, control: Option<Seq<char>>)
    requires
        request.command@.len() > 0,
        control is Some ==> is_clean(crate::helper::plan::agent_arguments(request))
            && crate::helper::plan::nul_in("/.moraebox-agent"@) is None,
        control is None ==> is_clean(crate::text::strings(request.command@)) && is_clean(
            crate::helper::environment::lines_of(
                crate::helper::environment::environment_of(
                    crate::helper::environment::pair_views(request.environment@),
                ),
            ),
        ),
    ensures
        crate::helper::plan::exec_plan(request, control is Some) == crate::helper::plan::calls_only(
            seq![
                match control {
                    Some(_) => KrunCallView::SetExec {
                        executable: "/.moraebox-agent"@,
                        arguments: crate::helper::plan::agent_arguments(request),
                        environment: Seq::empty(),
                    },
                    None => KrunCallView::SetExec {
                        executable: request.command@[0]@,
                        arguments: crate::text::strings(request.command@).subrange(
                            1,
                            request.command@.len() as int,
                        ),
                        environment: crate::helper::environment::lines_of(
                            crate::helper::environment::environment_of(
                                crate::helper::environment::pair_views(request.environment@),
                            ),
                        ),
                    },
                },
            ],
        ),
{
    let empty: Seq<Seq<char>> = Seq::empty();
    assert(crate::helper::plan::nul_among(empty, 0) is None);
    match control {
        Some(_) => {
            lemma_clean(crate::helper::plan::agent_arguments(request), 0);
        },
        None => {
            let command = crate::text::strings(request.command@);
            let arguments = command.skip(1);
            assert(command[0] == request.command@[0]@);
            assert forall|i: int| 0 <= i < arguments.len() implies crate::helper::plan::nul_in(
                #[trigger] arguments[i],
            ) is None by {
                assert(arguments[i] == command[i + 1]);
            }
            lemma_clean(arguments, 0);
            lemma_clean(
                crate::helper::environment::lines_of(
                    crate::helper::environment::environment_of(
                        crate::helper::environment::pair_views(request.environment@),
                    ),
                ),
                0,
            );
            assert(arguments =~= command.subrange(1, command.len() as int));
        },
    }
}

/// The agent of a machine is told where to call, for which session, and where its workspace is, if
/// there is one and whether it may be written to.
pub proof fn law_agent_is_told_its_work(request: HelperRequest)
    ensures
        ({
            let told = crate::helper::plan::agent_arguments(request);
            &&& told[0] == "--port"@ && told[1] == crate::text::decimal_text(1070)
            &&& told[2] == "--session"@
            &&& request.session_id matches Some(id) ==> told[3] == id@
            &&& request.workspace_disk is None ==> told.len() == 4
            &&& request.workspace_disk is Some ==> told[4] == "--workspace-device"@ && told[5]
                == "/dev/vdb"@
            &&& request.workspace_disk is Some && !request.workspace_writable ==> told.len() == 6
            &&& request.workspace_disk is Some && request.workspace_writable ==> told.len() == 7
                && told[6] == "--workspace-writable"@
        }),
{
}

/// A plan that cannot be carried out ends with an error: where a text holds a zero byte, or where
/// the library lacks what was asked for.
pub proof fn law_missing_functions_are_errors(
    request: HelperRequest,
    symbols: KrunSymbols,
    control: Option<Seq<char>>,
    input: i32,
)
    requires
        (request.root_disk is Some && (!symbols.add_disk || !symbols.set_root_disk_remount)) || (
        request.root_disk is None && request.root is Some && !symbols.set_root
            && !symbols.add_virtiofs3) || (request.root_disk is None && request.root is None) || (
        control is Some && !symbols.add_vsock_port) || (request.network_socket is Some
            && !symbols.add_net_unixgram) || (request.workspace_disk is Some && !symbols.add_disk),
    ensures
        crate::helper::plan::machine_plan(request, symbols, control, input).failure is Some,
{
}

proof fn lemma_no_fault(request: HelperRequest, facts: CopyFacts, from: int)
    requires
        0 <= from,
    ensures
        crate::helper::copy_in_faults(request, facts, from) is None <==> forall|i: int|
            from <= i < request.copy_in_sources@.len() ==> (#[trigger] crate::helper::copy_in_fault(
                request,
                facts,
                i,
            )) is None,
    decreases request.copy_in_sources@.len() - from,
{
    if from < request.copy_in_sources@.len() {
        lemma_no_fault(request, facts, from + 1);
    }
}

proof fn lemma_no_fault_out(request: HelperRequest, facts: CopyFacts, from: int)
    requires
        0 <= from,
    ensures
        crate::helper::copy_out_faults(request, facts, from) is None <==> forall|i: int|
            from <= i < request.copy_out_sources@.len() ==> (
            #[trigger] crate::helper::copy_out_fault(request, facts, i)) is None,
    decreases request.copy_out_sources@.len() - from,
{
    if from < request.copy_out_sources@.len() {
        lemma_no_fault_out(request, facts, from + 1);
    }
}

/// A request is met exactly where it is sound: there is something to run, on a machine of some
/// size, on a terminal of some size where it has one; each copy has two ends, the ones in the guest
/// are fit and not named twice, what is copied in is a file or a directory, what is copied out has
/// an absolute place of its own that is free, and no copy may be longer than a transfer; a
/// workspace needs a disk as root, and such a root needs its tool and its session.
pub proof fn law_sound_requests_are_met(request: HelperRequest, facts: CopyFacts)
    requires
        facts.copy_in@.len() == request.copy_in_sources@.len(),
        facts.copy_out@.len() == request.copy_out_sources@.len(),
    ensures
        crate::helper::request_complaint(request, facts) is None <==> {
            &&& request.command@.len() > 0 && request.command@[0]@.len() > 0
            &&& request.cpus > 0 && request.memory_mib > 0
            &&& request.tty ==> request.tty_rows > 0 && request.tty_cols > 0
            &&& request.copy_in_sources@.len() == request.copy_in_destinations@.len()
            &&& request.copy_out_sources@.len() == request.copy_out_destinations@.len()
            &&& 0 < request.copy_limit_bytes <= facts.max_transfer
            &&& forall|i: int|
                0 <= i < request.copy_in_sources@.len() ==> {
                    &&& (#[trigger] facts.copy_in@[i]).0 is None
                    &&& facts.copy_in@[i].1 is File || facts.copy_in@[i].1 is Directory
                }
            &&& forall|i: int, j: int|
                0 <= i < j < request.copy_in_destinations@.len() ==> (
                #[trigger] request.copy_in_destinations@[i])@ != (
                #[trigger] request.copy_in_destinations@[j])@
            &&& forall|i: int|
                0 <= i < request.copy_out_sources@.len() ==> {
                    &&& (#[trigger] facts.copy_out@[i]).0 is None
                    &&& !facts.copy_out@[i].1
                }
            &&& forall|i: int|
                0 <= i < request.copy_out_destinations@.len() ==> {
                    let path = (#[trigger] request.copy_out_destinations@[i])@;
                    path.len() > 0 && path[0] == '/'
                }
            &&& forall|i: int, j: int|
                0 <= i < j < request.copy_out_destinations@.len() ==> !crate::paths::same_path_spec(
                    (#[trigger] request.copy_out_destinations@[i])@,
                    (#[trigger] request.copy_out_destinations@[j])@,
                )
            &&& request.workspace_disk is Some ==> request.root_disk is Some
            &&& request.root_disk is Some ==> request.debugfs is Some && request.session_id is Some
                && request.session_id->0@.len() > 0
        },
{
    lemma_no_fault(request, facts, 0);
    lemma_no_fault_out(request, facts, 0);
    if request.copy_in_sources@.len() == request.copy_in_destinations@.len()
        && request.copy_out_sources@.len() == request.copy_out_destinations@.len() {
        let names = request.copy_in_destinations@;
        let paths = request.copy_out_destinations@;
        if crate::helper::copy_in_faults(request, facts, 0) is None {
            assert forall|i: int| 0 <= i < names.len() implies {
                &&& (#[trigger] facts.copy_in@[i]).0 is None
                &&& facts.copy_in@[i].1 is File || facts.copy_in@[i].1 is Directory
            } by {
                assert(crate::helper::copy_in_fault(request, facts, i) is None);
            }
            assert forall|i: int, j: int| 0 <= i < j < names.len() implies (#[trigger] names[i])@
                != (#[trigger] names[j])@ by {
                assert(crate::helper::copy_in_fault(request, facts, j) is None);
            }
        }
        if crate::helper::copy_out_faults(request, facts, 0) is None {
            assert forall|i: int| 0 <= i < paths.len() implies {
                &&& (#[trigger] facts.copy_out@[i]).0 is None
                &&& !facts.copy_out@[i].1
            } by {
                assert(crate::helper::copy_out_fault(request, facts, i) is None);
            }
            assert forall|i: int| 0 <= i < paths.len() implies {
                let path = (#[trigger] paths[i])@;
                path.len() > 0 && path[0] == '/'
            } by {
                assert(crate::helper::copy_out_fault(request, facts, i) is None);
            }
            assert forall|i: int, j: int| 0 <= i < j < paths.len() implies !crate::paths::same_path_spec(
                (#[trigger] paths[i])@,
                (#[trigger] paths[j])@,
            ) by {
                assert(crate::helper::copy_out_fault(request, facts, j) is None);
            }
        }
    }
}

/// A command's end is accepted exactly where it can be one: a signal that there is, without a code
/// beside it, or a code that a process can exit with.
pub proof fn law_plain_ends_are_accepted(code: i32, signal: Option<i32>)
    ensures
        crate::helper::bridge::exit_complaint(code, signal) is None <==> match signal {
            Some(number) => 1 <= number <= 127 && code == 0,
            None => 0 <= code <= 255,
        },
{
}

/// A frame states its length in four bytes, the most significant first; one that is too long is
/// refused, and no other.
pub proof fn law_frames_state_their_length(header: Seq<u8>, maximum: usize)
    requires
        header.len() == 4,
    ensures
        ({
            let stated = ((header[0] * 256 + header[1]) * 256 + header[2]) * 256 + header[3];
            match crate::helper::bridge::declared_length(header, maximum) {
                Ok(length) => length == stated && stated <= maximum,
                Err(error) => stated > maximum && error is FrameTooLarge,
            }
        }),
{
}

/// What is read of the helper's input goes to the guest as it is, and the end of it is told once;
/// what was interrupted is tried again.
pub proof fn law_input_is_forwarded(data: Vec<u8>)
    ensures
        crate::helper::bridge::forwarded(StdinRead::Data(data)) == StdinStep::Send(
            HostFrame::Stdin(data),
        ),
        crate::helper::bridge::forwarded(StdinRead::End) == StdinStep::SendLast(
            HostFrame::StdinEof,
        ),
        crate::helper::bridge::forwarded(StdinRead::Interrupted) is Retry,
        crate::helper::bridge::forwarded(StdinRead::Failed) is Stop,
{
}

/// No two transfers have the same number.
pub proof fn law_transfers_are_numbered(next: u64)
    ensures
        crate::helper::bridge::transfer_id_of(next) matches Some((id, following)) ==> id == next
            && following > id,
        crate::helper::bridge::transfer_id_of(next) is None <==> next == u64::MAX,
{
}

/// The helper exits with the code of its command, as near as a process can.
pub proof fn law_codes_are_kept(code: i32)
    ensures
        0 <= code <= 255 ==> crate::helper::clamped_code(code) == code,
        code < 0 ==> crate::helper::clamped_code(code) == 0,
        code > 255 ==> crate::helper::clamped_code(code) == 255,
{
}

/// A command is run where it was asked to be, and else in its workspace, if there is one.
pub proof fn law_commands_run_in_their_directory(request: HelperRequest)
    ensures
        request.cwd matches Some(path) ==> request.directory_spec() == path@,
        request.cwd is None && request.workspace_disk is Some ==> request.directory_spec()
            == "/workspace"@,
        request.cwd is None && request.workspace_disk is None ==> request.directory_spec().len()
            == 0,
{
}

/// An archive ends with two blocks of zeros behind what was put in, as long as they fit.
pub proof fn law_archives_end_with_zeros(archive: CopyArchiveView)
    ensures
        archive.finished() is Ok <==> archive.bytes.len() + 1024 <= archive.limit,
        archive.finished() matches Ok(bytes) ==> {
            &&& bytes.len() == archive.bytes.len() + 1024
            &&& bytes.subrange(0, archive.bytes.len() as int) == archive.bytes
            &&& forall|i: int|
                archive.bytes.len() <= i < bytes.len() ==> #[trigger] bytes[i] == 0
        },
{
    if archive.finished() is Ok {
        let bytes = archive.finished()->Ok_0;
        assert(bytes.subrange(0, archive.bytes.len() as int) =~= archive.bytes);
    }
}

/// Every file of a directory is copied, each once, from below the directory and under a name below
/// the directory's; what was waiting still does.
pub proof fn law_listed_files_are_copied(
    walk: CopyWalkView,
    directory: CopySourceView,
    files: Seq<Seq<char>>,
    i: int,
)
    requires
        walk.listing == Some(directory),
        directory.name.len() > 0,
        directory.name.last() != '/',
        0 <= i < files.len(),
        files[i].len() > 0,
        files[i][0] != '/',
    ensures
        ({
            let after = walk.listed(files);
            let child = CopySourceView {
                source: crate::paths::join_of(directory.source, files[i]),
                name: directory.name + seq!['/'] + files[i],
            };
            &&& after.waiting.len() == walk.waiting.len() + files.len()
            &&& after.waiting.subrange(0, walk.waiting.len() as int) == walk.waiting
            &&& after.waiting.contains(child)
            &&& after.listing is None
            &&& after.archive == walk.archive
        }),
{
    reveal_strlit("/");
    assert("/"@ =~= seq!['/']);
    let order = crate::text::text_order();
    crate::text::lemma_text_order();
    files.lemma_sort_by_ensures(order);
    let sorted = files.sort_by(order);
    let after = walk.listed(files);
    let children = directory.children(sorted);
    files.to_multiset_ensures();
    sorted.to_multiset_ensures();
    assert(files.to_multiset().contains(files[i]));
    assert(sorted.contains(files[i]));
    let j = choose|j: int| 0 <= j < sorted.len() && sorted[j] == files[i];
    assert(after.waiting.subrange(0, walk.waiting.len() as int) =~= walk.waiting);
    let child = directory.child(files[i]);
    assert(children[sorted.len() - 1 - j] == child);
    assert(after.waiting[walk.waiting.len() + sorted.len() - 1 - j] == child);
}

/// Entries are taken one after the other, from nothing on; the first that is complained of ends the
/// unpacking.
pub proof fn law_entries_are_taken_in_order(entries: Seq<TarEntryView>, upto: nat, total: nat)
    requires
        upto <= total <= entries.len(),
    ensures
        ({
            let (first, _) = crate::helper::transfer::extraction_of(entries, 0);
            first.steps.len() == 0 && first.seen.len() == 0 && first.directories.len() == 0
        }),
        crate::helper::transfer::extraction_of(entries, 0).1 is None,
        crate::helper::transfer::extraction_of(entries, upto).1 is None && upto < total
            ==> crate::helper::transfer::extraction_of(entries, upto + 1)
            == crate::helper::transfer::extraction_of(entries, upto).0.taken(
            entries[upto as int],
        ),
        crate::helper::transfer::extraction_of(entries, upto).1 is Some
            ==> crate::helper::transfer::extraction_of(entries, total)
            == crate::helper::transfer::extraction_of(entries, upto),
    decreases total,
{
    assert((upto + 1 - 1) as nat == upto);
    if crate::helper::transfer::extraction_of(entries, upto).1 is Some && upto < total {
        law_entries_are_taken_in_order(entries, upto, (total - 1) as nat);
    }
}

/// A library without the older function for a root has the newer one called, and one without a
/// function to take away what comes by itself keeps that: a second console is never added to it.
pub proof fn law_older_libraries_are_served(
    path: Seq<char>,
    symbols: KrunSymbols,
    input: i32,
    output: i32,
    error: i32,
)
    requires
        crate::helper::plan::nul_in(path) is None,
    ensures
        ({
            let plan = crate::helper::plan::root_plan(path, symbols);
            &&& symbols.set_root ==> plan.failure is None && plan.calls == seq![
                KrunCallView::SetRoot(path),
            ]
            &&& !symbols.set_root && symbols.add_virtiofs3 ==> plan.failure is None && plan.calls
                == seq![KrunCallView::AddVirtiofs(path)]
            &&& !symbols.set_root && !symbols.add_virtiofs3 ==> plan.failure == Some(
                HelperErrorView::MissingRootApi,
            )
        }),
        ({
            let plan = crate::helper::plan::vsock_plan(symbols);
            &&& plan.failure is None
            &&& plan.calls.last() == KrunCallView::AddVsock
            &&& plan.calls.len() == (if symbols.disable_implicit_vsock {
                2int
            } else {
                1
            })
            &&& symbols.disable_implicit_vsock ==> plan.calls[0]
                == KrunCallView::DisableImplicitVsock
        }),
        ({
            let plan = crate::helper::plan::console_plan(input, output, error, symbols);
            &&& plan.failure is None
            &&& plan.calls.len() > 0 <==> symbols.disable_implicit_console
                && symbols.add_virtio_console_default
            &&& plan.calls.len() > 0 ==> plan.calls == seq![
                KrunCallView::DisableImplicitConsole,
                KrunCallView::AddConsole { input, output, error },
            ]
        }),
{
}

/// A text with a zero byte in it is never handed to the library: the position of its first is told,
/// and nothing is called for it.
pub proof fn law_zero_bytes_are_told(path: Seq<char>, at: int, symbols: KrunSymbols)
    requires
        0 <= at < vstd::utf8::encode_utf8(path).len() <= usize::MAX,
        vstd::utf8::encode_utf8(path)[at] == 0,
        forall|i: int| 0 <= i < at ==> vstd::utf8::encode_utf8(path)[i] != 0,
        symbols.add_disk && symbols.set_root_disk_remount && symbols.add_net_unixgram,
    ensures
        crate::helper::plan::nul_in(path) == Some(at as usize),
        crate::helper::plan::root_plan(path, symbols) == (PlanView {
            calls: Seq::empty(),
            failure: Some(HelperErrorView::Nul(at as usize)),
        }),
        crate::helper::plan::root_disk_plan(path, symbols) == (PlanView {
            calls: Seq::empty(),
            failure: Some(HelperErrorView::Nul(at as usize)),
        }),
        crate::helper::plan::network_plan(path, symbols) == (PlanView {
            calls: Seq::empty(),
            failure: Some(HelperErrorView::Nul(at as usize)),
        }),
        crate::helper::plan::workspace_plan(Some(path), symbols) == (PlanView {
            calls: Seq::empty(),
            failure: Some(HelperErrorView::Nul(at as usize)),
        }),
{
    crate::text::lemma_find_from(vstd::utf8::encode_utf8(path), 0, at, 0);
}

/// A text without a zero byte is handed on.
pub proof fn law_clean_texts_are_handed_on(path: Seq<char>)
    requires
        forall|i: int|
            0 <= i < vstd::utf8::encode_utf8(path).len() ==> vstd::utf8::encode_utf8(path)[i] != 0,
    ensures
        crate::helper::plan::nul_in(path) is None,
{
    let bytes = vstd::utf8::encode_utf8(path);
    crate::text::lemma_find_from(bytes, 0, bytes.len() as int, 0);
}

/// One part of a plan follows another, unless the first one fails: then nothing more is called, and
/// its failure is the plan's.
pub proof fn law_plans_end_with_their_first_failure(first: PlanView, second: PlanView)
    ensures
        first.failure is Some ==> first.followed_by(second) == first,
        first.failure is None ==> {
            &&& first.followed_by(second).calls == first.calls + second.calls
            &&& first.followed_by(second).failure == second.failure
        },
{
}

/// A call has failed exactly where it returned less than zero, and is told with that; a machine that
/// was started and whose agent was spoken to to the end is reported with its code.
pub proof fn law_failed_calls_are_told(operation: Seq<char>, result: i32, bridge_failed: bool)
    ensures
        crate::helper::plan::call_complaint(operation, result) is None <==> result >= 0,
        result < 0 ==> crate::helper::plan::call_complaint(operation, result) == Some(
            HelperErrorView::KrunCall { operation, code: result },
        ),
        crate::helper::plan::machine_outcome(result, bridge_failed) is Ok <==> result >= 0
            && !bridge_failed,
        result >= 0 && !bridge_failed ==> crate::helper::plan::machine_outcome(
            result,
            bridge_failed,
        ) == Ok::<i32, HelperErrorView>(result),
        result >= 0 && bridge_failed ==> crate::helper::plan::machine_outcome(
            result,
            bridge_failed,
        ) == Err::<i32, HelperErrorView>(HelperErrorView::BridgeThread),
{
}

/// Each file goes to its own place under a number of its own; those that are copied out are numbered
/// behind them, and are waited for under these numbers.
pub proof fn law_each_file_goes_to_its_place(
    opening: OpeningView,
    archive: PreparedView,
    i: int,
)
    requires
        opening.wf(),
        opening.done < opening.copy_in.len(),
        opening.copy_in.len() + opening.copy_out.len() < u64::MAX,
        0 <= i < opening.copy_out.len(),
    ensures
        opening.taken(archive).first() == (HostFrameView::CopyInStart {
            transfer_id: (opening.done + 1) as u64,
            destination: opening.copy_in[opening.done as int].destination@,
            archive_size: archive.size,
            sha256: archive.digest,
        }),
        opening.taken(archive).last() == (HostFrameView::CopyInEnd {
            transfer_id: (opening.done + 1) as u64,
        }),
        opening.advanced() == (OpeningView { done: opening.done + 1, ..opening }),
        opening.bridge().active is None,
        opening.bridge().limit == opening.limit,
        opening.bridge().pending.len() == opening.copy_out.len(),
        opening.bridge().pending[i].transfer_id == opening.done + 1 + i,
        opening.bridge().pending[i].destination == opening.copy_out[i].destination@,
        opening.last_frames().len() == opening.copy_out.len() + 1,
        opening.last_frames()[i] == (HostFrameView::CopyOutRequest {
            transfer_id: (opening.done + 1 + i) as u64,
            source: opening.copy_out[i].source@,
            max_bytes: opening.limit,
        }),
        opening.last_frames().last() == opening.command,
{
    law_each_file_is_asked_for(
        opening.copy_out,
        (opening.done + 1) as u64,
        opening.limit,
        opening.copy_out.len(),
        i,
    );
    law_file_is_sent_whole(
        (opening.done + 1) as u64,
        opening.copy_in[opening.done as int].destination@,
        archive.bytes,
        archive.size,
        archive.digest,
    );
}

/// The command goes to the guest as it was asked for: with its arguments, its directory, its
/// variables and its terminal.
pub proof fn law_command_goes_as_asked_for(request: ExecRequest)
    ensures
        crate::helper::opening::exec_of(request) matches HostFrameView::Exec {
            argv,
            cwd,
            env,
            tty,
            rows,
            cols,
        } && {
            &&& argv.len() == request.command@.len()
            &&& forall|i: int| 0 <= i < argv.len() ==> #[trigger] argv[i] == request.command@[i]@
            &&& cwd == request.cwd@
            &&& env.len() == request.environment@.len()
            &&& forall|i: int| 0 <= i < env.len() ==> #[trigger] env[i] == request.environment@[i]@
            &&& tty == request.tty && rows == request.rows && cols == request.cols
        },
{
}

} // verus!
