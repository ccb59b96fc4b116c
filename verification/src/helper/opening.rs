//! The opening of the conversation with an agent: the files that are copied in, the files that are
//! asked for, and the command.

use vstd::prelude::*;

use crate::helper::bridge::{
    exec_frame, request_copies, send_copy_in, take_transfer_id, Bridge, BridgeError,
    BridgeErrorView, BridgeView, ExecRequest, GuestFrame, HostFrame, HostFrameView,
};
use crate::helper::transfer::PreparedCopy;
use crate::libkrun::CopySpec;

verus! {

/// What has been sent of an opening, and what is still to be sent.
#[derive(Debug)]
pub struct Opening {
    copy_in: Vec<CopySpec>,
    done: usize,
    next: u64,
    copy_out: Vec<CopySpec>,
    limit: u64,
    command: ExecRequest,
}

#[verifier::ext_equal]
pub struct OpeningView {
    pub copy_in: Seq<CopySpec>,
    /// How many of the files have been sent.
    pub done: nat,
    pub copy_out: Seq<CopySpec>,
    pub limit: u64,
    pub command: HostFrameView,
}

impl View for Opening {
    type V = OpeningView;

    closed spec fn view(&self) -> OpeningView {
        OpeningView {
            copy_in: self.copy_in@,
            done: self.done as nat,
            copy_out: self.copy_out@,
            limit: self.limit,
            command: exec_of(self.command),
        }
    }
}

pub open spec fn exec_of(request: ExecRequest) -> HostFrameView {
    HostFrameView::Exec {
        argv: crate::text::strings(request.command@),
        cwd: request.cwd@,
        env: crate::text::strings(request.environment@),
        tty: request.tty,
        rows: request.rows as u32,
        cols: request.cols as u32,
    }
}

/// The archive of a file that is copied in.
pub struct PreparedView {
    pub bytes: Seq<u8>,
    pub size: u64,
    pub digest: Seq<char>,
}

impl View for PreparedCopy {
    type V = PreparedView;

    open spec fn view(&self) -> PreparedView {
        PreparedView { bytes: self.bytes@, size: self.size, digest: self.digest@ }
    }
}

impl OpeningView {
    pub open spec fn wf(self) -> bool {
        &&& self.done <= self.copy_in.len()
        &&& self.command is Exec
    }

    /// The number of the next transfer: they are numbered from one on.
    pub open spec fn next(self) -> nat {
        self.done + 1
    }

    /// The frames of the next file.
    pub open spec fn taken(self, archive: PreparedView) -> Seq<HostFrameView> {
        crate::helper::bridge::copy_in_frames(
            self.next() as u64,
            self.copy_in[self.done as int].destination@,
            archive.bytes,
            archive.size,
            archive.digest,
        )
    }

    pub open spec fn advanced(self) -> OpeningView {
        OpeningView { done: self.done + 1, ..self }
    }

    /// The frames behind the last file: a request for each file that is to be copied out, and then
    /// the command.
    pub open spec fn last_frames(self) -> Seq<HostFrameView> {
        crate::helper::bridge::request_frames(
            self.copy_out,
            self.next() as u64,
            self.limit,
            self.copy_out.len(),
        ).push(self.command)
    }

    /// The conversation that follows.
    pub open spec fn bridge(self) -> BridgeView {
        BridgeView {
            pending: crate::helper::bridge::numbered_copies(
                self.copy_out,
                self.next() as u64,
                self.copy_out.len(),
            ),
            active: None,
            limit: self.limit,
        }
    }

    /// All that is still sent, given the archives of the files that are still copied in.
    pub open spec fn frames(self, archives: Seq<PreparedView>) -> Seq<HostFrameView>
        decreases archives.len(),
    {
        if archives.len() == 0 {
            self.last_frames()
        } else {
            self.taken(archives[0]) + self.advanced().frames(archives.drop_first())
        }
    }
}

impl Opening {
    pub closed spec fn wf(self) -> bool {
        &&& self.done <= self.copy_in@.len()
        &&& self.next == self.done + 1
    }

    /// Begins an opening: nothing is sent to an agent that does not say that it can do what is
    /// needed.
    pub fn begin(
        hello: GuestFrame,
        copy_in: Vec<CopySpec>,
        copy_out: Vec<CopySpec>,
        limit: u64,
        command: ExecRequest,
    ) -> (begun: Result<Opening, BridgeError>)
        ensures
            match (hello, begun) {
                (GuestFrame::Hello { agent_version, capabilities }, Ok(opening)) => {
                    &&& crate::helper::bridge::hello_complaint(
                        agent_version@,
                        crate::text::strings(capabilities@),
                    ) is None
                    &&& opening.wf()
                    &&& opening@ == (OpeningView {
                        copy_in: copy_in@,
                        done: 0,
                        copy_out: copy_out@,
                        limit,
                        command: exec_of(command),
                    })
                },
                (GuestFrame::Hello { agent_version, capabilities }, Err(error)) => {
                    crate::helper::bridge::hello_complaint(
                        agent_version@,
                        crate::text::strings(capabilities@),
                    ) == Some(error@)
                },
                (_, Err(error)) => error@ == BridgeErrorView::ExpectedHello,
                (_, Ok(_)) => false,
            },
    {
        match Bridge::begin(hello, Vec::new(), limit) {
            Ok(_) => Ok(Opening { copy_in, done: 0, next: 1, copy_out, limit, command }),
            Err(error) => Err(error),
        }
    }

    /// The file whose archive is sent next; `None` once all of them are.
    pub fn source(&self) -> (source: Option<&str>)
        requires
            self.wf(),
        ensures
            match source {
                Some(path) => self@.done < self@.copy_in.len() && path@
                    == self@.copy_in[self@.done as int].source@,
                None => self@.done == self@.copy_in.len(),
            },
    {
        if self.done < self.copy_in.len() {
            Some(self.copy_in[self.done].source.as_str())
        } else {
            None
        }
    }

    /// Sends the next file.
    pub fn take(&mut self, copy: &PreparedCopy) -> (sent: Result<Vec<HostFrame>, BridgeError>)
        requires
            old(self).wf(),
            old(self)@.done < old(self)@.copy_in.len(),
        ensures
            final(self).wf(),
            match sent {
                Ok(frames) => {
                    &&& old(self)@.next() < u64::MAX
                    &&& final(self)@ == old(self)@.advanced()
                    &&& crate::helper::bridge::frame_views(frames@) == old(self)@.taken(copy@)
                },
                Err(error) => {
                    &&& old(self)@.next() == u64::MAX
                    &&& final(self)@ == old(self)@
                    &&& error@ == BridgeErrorView::TransferIdsExhausted
                },
            },
    {
        assert(self.copy_in.len() == self.copy_in@.len());
        let transfer_id: u64 = match take_transfer_id(&mut self.next) {
            Ok(id) => id,
            Err(error) => {
                return Err(error);
            },
        };
        let frames = send_copy_in(
            transfer_id,
            self.copy_in[self.done].destination.as_str(),
            copy,
        );
        self.done = self.done + 1;
        assert(self@ =~= old(self)@.advanced());
        Ok(frames)
    }

    /// Ends an opening: its last frames, and the conversation that follows.
    pub fn finish(self) -> (opened: Result<(Vec<HostFrame>, Bridge), BridgeError>)
        requires
            self.wf(),
            self@.done == self@.copy_in.len(),
        ensures
            match opened {
                Ok((frames, bridge)) => {
                    &&& self@.next() + self@.copy_out.len() <= u64::MAX
                    &&& crate::helper::bridge::frame_views(frames@) == self@.last_frames()
                    &&& bridge@ == self@.bridge()
                },
                Err(error) => {
                    &&& self@.next() + self@.copy_out.len() > u64::MAX
                    &&& error@ == BridgeErrorView::TransferIdsExhausted
                },
            },
    {
        let mut next: u64 = self.next;
        let (requests, pending) = match request_copies(&self.copy_out, self.limit, &mut next) {
            Ok(requested) => requested,
            Err(error) => {
                return Err(error);
            },
        };
        let mut frames = requests;
        let ghost before = frames@;
        frames.push(exec_frame(self.command));
        assert(crate::helper::bridge::frame_views(frames@)
            =~= crate::helper::bridge::frame_views(before).push(exec_of(self.command)));
        Ok((frames, Bridge { pending, active: None, limit: self.limit }))
    }
}

/// The place of a frame in an opening: files are copied in before any is asked for, and the command
/// comes last.
pub open spec fn rank(frame: HostFrameView) -> int {
    match frame {
        HostFrameView::CopyInStart { .. }
        | HostFrameView::CopyInChunk { .. }
        | HostFrameView::CopyInEnd { .. } => 0,
        HostFrameView::CopyOutRequest { .. } => 1,
        _ => 2,
    }
}

proof fn lemma_copied_ranks(
    transfer_id: u64,
    destination: Seq<char>,
    archive: PreparedView,
)
    ensures
        ({
            let frames = crate::helper::bridge::copy_in_frames(
                transfer_id,
                destination,
                archive.bytes,
                archive.size,
                archive.digest,
            );
            forall|i: int| 0 <= i < frames.len() ==> rank(#[trigger] frames[i]) == 0
        }),
{
    crate::helper::bridge::law_chunks_make_up_the_archive(transfer_id, archive.bytes, 0);
    let chunks = crate::helper::bridge::chunk_frames(transfer_id, archive.bytes, 0);
    let frames = crate::helper::bridge::copy_in_frames(
        transfer_id,
        destination,
        archive.bytes,
        archive.size,
        archive.digest,
    );
    assert forall|i: int| 0 <= i < frames.len() implies rank(#[trigger] frames[i]) == 0 by {
        if 0 < i <= chunks.len() {
            assert(frames[i] == chunks[i - 1]);
        }
    }
}

proof fn lemma_request_ranks(copies: Seq<CopySpec>, first: u64, limit: u64, upto: nat)
    ensures
        forall|i: int|
            0 <= i < crate::helper::bridge::request_frames(copies, first, limit, upto).len()
                ==> rank(
                #[trigger] crate::helper::bridge::request_frames(copies, first, limit, upto)[i],
            ) == 1,
    decreases upto,
{
    let frames = crate::helper::bridge::request_frames(copies, first, limit, upto);
    if upto > 0 {
        let before = crate::helper::bridge::request_frames(
            copies,
            first,
            limit,
            (upto - 1) as nat,
        );
        lemma_request_ranks(copies, first, limit, (upto - 1) as nat);
        assert forall|i: int| 0 <= i < frames.len() implies rank(#[trigger] frames[i]) == 1 by {
            if i < before.len() {
                assert(frames[i] == before[i]);
            }
        }
    }
}

/// The files are copied in, then the files to be copied out are asked for, and the command comes
/// once, behind all of them.
pub proof fn law_command_comes_last(opening: OpeningView, archives: Seq<PreparedView>)
    requires
        opening.wf(),
        opening.done + archives.len() == opening.copy_in.len(),
    ensures
        opening.frames(archives).len() > 0,
        opening.frames(archives).last() == opening.command,
        forall|i: int|
            0 <= i < opening.frames(archives).len() - 1 ==> rank(
                #[trigger] opening.frames(archives)[i],
            ) < 2,
        forall|i: int, j: int|
            0 <= i < j < opening.frames(archives).len() ==> rank(
                #[trigger] opening.frames(archives)[i],
            ) <= rank(#[trigger] opening.frames(archives)[j]),
    decreases archives.len(),
{
    let frames = opening.frames(archives);
    if archives.len() == 0 {
        lemma_request_ranks(
            opening.copy_out,
            opening.next() as u64,
            opening.limit,
            opening.copy_out.len(),
        );
        let requests = crate::helper::bridge::request_frames(
            opening.copy_out,
            opening.next() as u64,
            opening.limit,
            opening.copy_out.len(),
        );
        assert forall|i: int| 0 <= i < frames.len() - 1 implies rank(#[trigger] frames[i])
            == 1 by {
            assert(frames[i] == requests[i]);
        }
    } else {
        let first = opening.taken(archives[0]);
        let rest = opening.advanced().frames(archives.drop_first());
        lemma_copied_ranks(
            opening.next() as u64,
            opening.copy_in[opening.done as int].destination@,
            archives[0],
        );
        law_command_comes_last(opening.advanced(), archives.drop_first());
        assert forall|i: int| 0 <= i < frames.len() implies #[trigger] frames[i] == (if i
            < first.len() {
            first[i]
        } else {
            rest[i - first.len()]
        }) by {}
        assert forall|i: int, j: int| 0 <= i < j < frames.len() implies rank(#[trigger] frames[i])
            <= rank(#[trigger] frames[j]) by {
            if i >= first.len() {
                assert(rank(rest[i - first.len()]) <= rank(rest[j - first.len()]));
            } else if j >= first.len() {
                assert(rank(first[i]) == 0);
                assert(rank(rest[j - first.len()]) >= 0);
            } else {
                assert(rank(first[i]) == 0);
            }
        }
    }
}

} // verus!
