//! A plugin on its way into a slot: the commands a sender writes over Bluetooth, and what each
//! of them asks of the flash.
//!
//! The flash itself is somebody else's. `Receiver::receive` takes a command and either answers it
//! at once or names the one thing to do; `Receiver::answer` takes how that went.

use vstd::prelude::*;

verus! {

/// How an upload stands, as the sender and the receive dialog read it.
#[derive(Clone, Copy, Debug, PartialEq, Eq, Structural)]
pub enum UploadStatus {
    Idle,
    Ready,
    Written,
    Deleted,
    NoSlot,
    Mismatch,
    OutOfOrder,
    Flash,
    Refused,
    NoPlugin,
}

/// An upload under way: the slot it goes into, the bytes received and the bytes announced.
#[derive(Clone, Copy, Debug, PartialEq, Eq, Structural)]
pub struct Upload {
    pub slot: usize,
    pub received: usize,
    pub total: usize,
}

/// What is said of an upload after a command.
#[derive(Clone, Copy, Debug, PartialEq, Eq, Structural)]
pub struct Received {
    pub status: UploadStatus,
    pub slot: usize,
    pub received: usize,
    pub total: usize,
}

impl Default for Received {
    fn default() -> (r: Self)
        ensures
            r == failed_spec(UploadStatus::Idle),
    {
        Received { status: UploadStatus::Idle, slot: 0, received: 0, total: 0 }
    }
}

/// A status with no upload behind it.
pub open spec fn failed_spec(status: UploadStatus) -> Received {
    Received { status, slot: 0, received: 0, total: 0 }
}

fn failed(status: UploadStatus) -> (r: Received)
    ensures
        r == failed_spec(status),
{
    Received { status, slot: 0, received: 0, total: 0 }
}

impl Received {
    pub open spec fn of_spec(status: UploadStatus, upload: Upload) -> Received {
        Received { status, slot: upload.slot, received: upload.received, total: upload.total }
    }

    pub fn of(status: UploadStatus, upload: &Upload) -> (r: Self)
        ensures
            r == Received::of_spec(status, *upload),
    {
        Received { status, slot: upload.slot, received: upload.received, total: upload.total }
    }
}

/// A command from the sender. The bytes of a piece go to the flash as they came.
#[derive(Clone, Copy, Debug, PartialEq, Eq, Structural)]
pub enum Command {
    Begin,
    Piece { offset: usize },
    Commit,
    Abort,
    Delete { slot: usize },
}

/// Whether there is flash to write to.
#[derive(Clone, Copy, Debug, PartialEq, Eq, Structural)]
pub enum Flash {
    /// No flash at all.
    Missing,
    /// Flash without a plugins partition.
    NoPartition,
    Ready,
}

/// What a command asks of the flash.
#[derive(Clone, Copy, Debug, PartialEq, Eq, Structural)]
pub enum Request {
    /// Look for a slot that holds nothing.
    FreeSlot,
    /// Erase the slot and take the header the sender announced.
    Begin { slot: usize },
    /// Take the bytes of the piece into the slot.
    Feed { slot: usize },
    /// Check what arrived against its header and keep it.
    Finish { slot: usize },
}

/// How a request went.
#[derive(Clone, Copy, Debug, PartialEq, Eq, Structural)]
pub enum Answer {
    /// The slot that holds nothing, if there is one.
    Free(Option<usize>),
    /// The upload that was begun.
    Begun(Upload),
    /// The bytes the upload has received now.
    Fed(usize),
    Finished,
    /// The module or its header is not what it should be.
    BadModule,
    /// Anything else went wrong.
    BadFlash,
}

/// What comes of a command: an answer, or something to do first.
#[derive(Clone, Copy, Debug, PartialEq, Eq, Structural)]
pub enum Plan {
    Done(Received),
    Ask(Request),
}

/// Takes the commands of uploads, one upload at a time.
#[derive(Clone, Copy, Debug, PartialEq, Eq, Structural)]
pub struct Receiver {
    pub upload: Option<Upload>,
}

/// What a command comes to while `upload` is under way: the upload it leaves, and the plan.
pub open spec fn commanded(flash: Flash, upload: Option<Upload>, command: Command) -> (
    Option<Upload>,
    Plan,
) {
    if flash != Flash::Ready {
        (upload, Plan::Done(failed_spec(UploadStatus::Flash)))
    } else {
        match command {
            Command::Begin => (None, Plan::Ask(Request::FreeSlot)),
            Command::Piece { offset } => match upload {
                None => (None, Plan::Done(failed_spec(UploadStatus::Refused))),
                Some(current) => if offset != current.received {
                    (upload, Plan::Done(Received::of_spec(UploadStatus::OutOfOrder, current)))
                } else {
                    (upload, Plan::Ask(Request::Feed { slot: current.slot }))
                },
            },
            Command::Commit => match upload {
                None => (None, Plan::Done(failed_spec(UploadStatus::Refused))),
                Some(done) => (upload, Plan::Ask(Request::Finish { slot: done.slot })),
            },
            Command::Abort => (None, Plan::Done(failed_spec(UploadStatus::Idle))),
            Command::Delete { .. } => (upload, Plan::Done(failed_spec(UploadStatus::Refused))),
        }
    }
}

/// Which answers a request can have while `upload` is under way.
pub open spec fn answers(upload: Option<Upload>, request: Request, answer: Answer) -> bool {
    match request {
        Request::FreeSlot => answer is Free || answer is BadFlash,
        Request::Begin { .. } => answer is Begun || answer is BadModule || answer is BadFlash,
        Request::Feed { .. } => upload is Some && (answer is Fed || answer is BadModule
            || answer is BadFlash),
        Request::Finish { .. } => upload is Some && (answer is Finished || answer is BadModule
            || answer is BadFlash),
    }
}

/// The status that an error of the flash comes to.
pub open spec fn fault_spec(answer: Answer) -> UploadStatus {
    if answer is BadModule {
        UploadStatus::Mismatch
    } else {
        UploadStatus::Flash
    }
}

/// What the answer to a request comes to: the upload it leaves, and the plan.
pub open spec fn answered(upload: Option<Upload>, request: Request, answer: Answer) -> (
    Option<Upload>,
    Plan,
) {
    match request {
        Request::FreeSlot => match answer {
            Answer::Free(Some(slot)) => (upload, Plan::Ask(Request::Begin { slot })),
            Answer::Free(None) => (upload, Plan::Done(failed_spec(UploadStatus::NoSlot))),
            _ => (upload, Plan::Done(failed_spec(UploadStatus::Flash))),
        },
        Request::Begin { .. } => match answer {
            Answer::Begun(begun) => (
                Some(begun),
                Plan::Done(Received::of_spec(UploadStatus::Ready, begun)),
            ),
            _ => (upload, Plan::Done(failed_spec(fault_spec(answer)))),
        },
        Request::Feed { .. } => match answer {
            Answer::Fed(received) => {
                let now = Upload { received, ..upload->0 };
                (Some(now), Plan::Done(Received::of_spec(UploadStatus::Ready, now)))
            },
            _ => (None, Plan::Done(Received::of_spec(fault_spec(answer), upload->0))),
        },
        Request::Finish { .. } => match answer {
            Answer::Finished => (
                None,
                Plan::Done(Received::of_spec(UploadStatus::Written, upload->0)),
            ),
            _ => (None, Plan::Done(Received::of_spec(fault_spec(answer), upload->0))),
        },
    }
}

fn fault(answer: Answer) -> (status: UploadStatus)
    ensures
        status == fault_spec(answer),
{
    match answer {
        Answer::BadModule => UploadStatus::Mismatch,
        _ => UploadStatus::Flash,
    }
}

impl Receiver {
    /// No upload under way.
    pub fn new() -> (r: Self)
        ensures
            r.upload is None,
    {
        Receiver { upload: None }
    }

    /// Takes one command. A second begin replaces the upload under way, a piece is taken only
    /// where the last one ended, and deleting is not done here.
    pub fn receive(&mut self, flash: Flash, command: Command) -> (plan: Plan)
        ensures
            (final(self).upload, plan) == commanded(flash, old(self).upload, command),
    {
        match flash {
            Flash::Missing | Flash::NoPartition => {
                return Plan::Done(failed(UploadStatus::Flash));
            },
            Flash::Ready => {},
        }
        match command {
            Command::Begin => {
                self.upload = None;
                Plan::Ask(Request::FreeSlot)
            },
            Command::Piece { offset } => match &self.upload {
                None => Plan::Done(failed(UploadStatus::Refused)),
                Some(current) => if offset != current.received {
                    Plan::Done(Received::of(UploadStatus::OutOfOrder, current))
                } else {
                    Plan::Ask(Request::Feed { slot: current.slot })
                },
            },
            Command::Commit => match &self.upload {
                None => Plan::Done(failed(UploadStatus::Refused)),
                Some(done) => Plan::Ask(Request::Finish { slot: done.slot }),
            },
            Command::Abort => {
                self.upload = None;
                Plan::Done(failed(UploadStatus::Idle))
            },
            Command::Delete { .. } => Plan::Done(failed(UploadStatus::Refused)),
        }
    }

    /// Takes how the request went that a plan asked for.
    pub fn answer(&mut self, request: Request, answer: Answer) -> (plan: Plan)
        requires
            answers(old(self).upload, request, answer),
        ensures
            (final(self).upload, plan) == answered(old(self).upload, request, answer),
    {
        match request {
            Request::FreeSlot => match answer {
                Answer::Free(Some(slot)) => Plan::Ask(Request::Begin { slot }),
                Answer::Free(None) => Plan::Done(failed(UploadStatus::NoSlot)),
                _ => Plan::Done(failed(UploadStatus::Flash)),
            },
            Request::Begin { .. } => match answer {
                Answer::Begun(begun) => {
                    self.upload = Some(begun);
                    Plan::Done(Received::of(UploadStatus::Ready, &begun))
                },
                _ => Plan::Done(failed(fault(answer))),
            },
            Request::Feed { .. } => match (self.upload, answer) {
                (Some(current), Answer::Fed(received)) => {
                    let now = Upload { slot: current.slot, received, total: current.total };
                    self.upload = Some(now);
                    Plan::Done(Received::of(UploadStatus::Ready, &now))
                },
                (Some(current), _) => {
                    self.upload = None;
                    Plan::Done(Received::of(fault(answer), &current))
                },
                (None, _) => Plan::Done(failed(UploadStatus::Refused)),
            },
            Request::Finish { .. } => match (self.upload, answer) {
                (Some(done), Answer::Finished) => {
                    self.upload = None;
                    Plan::Done(Received::of(UploadStatus::Written, &done))
                },
                (Some(done), _) => {
                    self.upload = None;
                    Plan::Done(Received::of(fault(answer), &done))
                },
                (None, _) => Plan::Done(failed(UploadStatus::Refused)),
            },
        }
    }
}

impl Receiver {
    /// Takes how deleting a slot went. A plugin deleted drops the upload under way.
    pub fn delete(&mut self, slot: usize, status: UploadStatus) -> (r: Received)
        ensures
            status == UploadStatus::Deleted ==> final(self).upload is None && r == (Received {
                status,
                slot,
                received: 0,
                total: 0,
            }),
            status != UploadStatus::Deleted ==> *final(self) == *old(self) && r == failed_spec(
                status,
            ),
    {
        match status {
            UploadStatus::Deleted => {
                self.upload = None;
                Received { status, slot, received: 0, total: 0 }
            },
            _ => failed(status),
        }
    }

    /// Takes whether the receive dialog is open: closing it drops the upload under way, whose
    /// slot stays empty. Says which upload was dropped.
    pub fn opened(&mut self, receiving: bool, received: &mut Received) -> (dropped: Option<Upload>)
        ensures
            receiving ==> dropped is None && *final(self) == *old(self) && *final(received)
                == *old(received),
            !receiving ==> dropped == old(self).upload && final(self).upload is None
                && *final(received) == failed_spec(UploadStatus::Idle),
    {
        if receiving {
            return None;
        }
        let dropped = self.upload;
        self.upload = None;
        *received = failed(UploadStatus::Idle);
        dropped
    }
}

/// Bytes reach the flash only while an upload is under way, and only where its last piece
/// ended.
pub proof fn pieces_come_in_order(flash: Flash, upload: Option<Upload>, command: Command)
    ensures
        (commanded(flash, upload, command).1 matches Plan::Ask(Request::Feed { slot }) ==> {
            &&& upload matches Some(current)
            &&& command == (Command::Piece { offset: current.received })
            &&& slot == current.slot
        }),
{
}

/// A piece out of order changes nothing, and the sender is told how far the upload is, so that
/// it can go on from there.
pub proof fn out_of_order_keeps_the_upload(current: Upload, offset: usize)
    requires
        offset != current.received,
    ensures
        commanded(Flash::Ready, Some(current), Command::Piece { offset }) == (
            Some(current),
            Plan::Done(Received::of_spec(UploadStatus::OutOfOrder, current)),
        ),
{
}

/// Without flash no command of any kind changes the upload or reaches a slot.
pub proof fn no_flash_refuses_everything(flash: Flash, upload: Option<Upload>, command: Command)
    requires
        flash != Flash::Ready,
    ensures
        commanded(flash, upload, command) == (
            upload,
            Plan::Done(failed_spec(UploadStatus::Flash)),
        ),
{
}

/// "Written" is said only once the flash has checked and kept the module, and never for a
/// command alone.
pub proof fn written_means_finished(
    flash: Flash,
    upload: Option<Upload>,
    command: Command,
    request: Request,
    answer: Answer,
)
    requires
        answers(upload, request, answer),
    ensures
        (commanded(flash, upload, command).1 matches Plan::Done(said) ==> said.status
            != UploadStatus::Written),
        (answered(upload, request, answer).1 matches Plan::Done(said) ==> (said.status
            == UploadStatus::Written <==> answer is Finished && request is Finish)),
{
}

/// An upload ends with its commit, whatever the flash says to it, and with the first piece the
/// flash refuses.
pub proof fn refused_or_finished_ends_the_upload(
    upload: Option<Upload>,
    request: Request,
    answer: Answer,
)
    requires
        answers(upload, request, answer),
        request is Finish || request is Feed && !(answer is Fed),
    ensures
        answered(upload, request, answer).0 is None,
        answered(upload, request, answer).1 is Done,
{
}

/// A piece that begins where the last one ended is handed to the flash, however much has
/// arrived, and goes into the slot of the upload under way.
pub proof fn a_piece_in_order_reaches_the_flash(current: Upload)
    ensures
        commanded(
            Flash::Ready,
            Some(current),
            Command::Piece { offset: current.received },
        ) == (Some(current), Plan::Ask(Request::Feed { slot: current.slot })),
{
}

/// The bytes of some pieces together.
pub open spec fn bytes_of(pieces: Seq<usize>) -> int
    decreases pieces.len(),
{
    if pieces.len() == 0 {
        0
    } else {
        bytes_of(pieces.drop_last()) + pieces.last()
    }
}

/// The upload a sender has once it sent pieces of these lengths one after another, each where the
/// last one ended, to a flash that takes them all; `None` once a piece was not taken.
pub open spec fn sent(upload: Option<Upload>, pieces: Seq<usize>) -> Option<Upload>
    decreases pieces.len(),
{
    if pieces.len() == 0 {
        upload
    } else {
        match sent(upload, pieces.drop_last()) {
            None => None,
            Some(current) => {
                let (left, plan) = commanded(
                    Flash::Ready,
                    Some(current),
                    Command::Piece { offset: current.received },
                );
                match plan {
                    Plan::Ask(request) => answered(
                        left,
                        request,
                        Answer::Fed((current.received + pieces.last()) as usize),
                    ).0,
                    Plan::Done(_) => None,
                }
            },
        }
    }
}

/// A sender that sends a whole module piece by piece, however it is cut, has all of it received in
/// the slot that was begun, and its commit is handed to the flash; once the flash kept it the
/// sender is told so, with every byte counted, and no upload is left.
pub proof fn a_module_sent_in_order_is_written(begun: Upload, pieces: Seq<usize>)
    requires
        begun.received + bytes_of(pieces) == begun.total,
    ensures
        sent(Some(begun), pieces) == Some(Upload { received: begun.total, ..begun }),
        commanded(Flash::Ready, sent(Some(begun), pieces), Command::Commit).1 == Plan::Ask(
            Request::Finish { slot: begun.slot },
        ),
        answered(
            commanded(Flash::Ready, sent(Some(begun), pieces), Command::Commit).0,
            Request::Finish { slot: begun.slot },
            Answer::Finished,
        ) == (
            None::<Upload>,
            Plan::Done(
                Received {
                    status: UploadStatus::Written,
                    slot: begun.slot,
                    received: begun.total,
                    total: begun.total,
                },
            ),
        ),
{
    pieces_add_up(begun, pieces);
}

proof fn pieces_add_up(begun: Upload, pieces: Seq<usize>)
    requires
        begun.received + bytes_of(pieces) <= usize::MAX,
    ensures
        0 <= bytes_of(pieces),
        sent(Some(begun), pieces) == Some(
            Upload { received: (begun.received + bytes_of(pieces)) as usize, ..begun },
        ),
    decreases pieces.len(),
{
    if pieces.len() > 0 {
        pieces_add_up(begun, pieces.drop_last());
    }
}

/// A begin drops whatever was under way and looks for a free slot; the slot found is begun, and
/// the upload then under way is the one the flash began, nothing more and nothing less. Where no
/// slot is free the sender is told so, and no upload is under way.
pub proof fn a_begin_starts_over(upload: Option<Upload>, slot: usize, begun: Upload)
    ensures
        commanded(Flash::Ready, upload, Command::Begin) == (
            None::<Upload>,
            Plan::Ask(Request::FreeSlot),
        ),
        answered(None, Request::FreeSlot, Answer::Free(Some(slot))) == (
            None::<Upload>,
            Plan::Ask(Request::Begin { slot }),
        ),
        answered(None, Request::FreeSlot, Answer::Free(None)) == (
            None::<Upload>,
            Plan::Done(
                Received { status: UploadStatus::NoSlot, slot: 0, received: 0, total: 0 },
            ),
        ),
        answered(None, Request::Begin { slot }, Answer::Begun(begun)) == (
            Some(begun),
            Plan::Done(
                Received {
                    status: UploadStatus::Ready,
                    slot: begun.slot,
                    received: begun.received,
                    total: begun.total,
                },
            ),
        ),
{
}

/// An upload under way can always be committed and always be aborted: a commit is put to the flash
/// for its slot, and an abort leaves no upload and is answered with the idle state. Neither a piece
/// nor a commit finds anything to do without one, and a delete is refused here and leaves the
/// upload alone.
pub proof fn every_command_is_answered(upload: Option<Upload>, offset: usize, slot: usize)
    ensures
        (upload matches Some(current) ==> commanded(Flash::Ready, upload, Command::Commit) == (
            upload,
            Plan::Ask(Request::Finish { slot: current.slot }),
        )),
        commanded(Flash::Ready, upload, Command::Abort) == (
            None::<Upload>,
            Plan::Done(Received { status: UploadStatus::Idle, slot: 0, received: 0, total: 0 }),
        ),
        upload is None ==> commanded(Flash::Ready, upload, Command::Piece { offset }) == commanded(
            Flash::Ready,
            upload,
            Command::Commit,
        ),
        upload is None ==> commanded(Flash::Ready, upload, Command::Commit) == (
            upload,
            Plan::Done(Received { status: UploadStatus::Refused, slot: 0, received: 0, total: 0 }),
        ),
        commanded(Flash::Ready, upload, Command::Delete { slot }) == (
            upload,
            Plan::Done(Received { status: UploadStatus::Refused, slot: 0, received: 0, total: 0 }),
        ),
{
}

/// What the flash says of a piece or a commit is what the sender is told: the count it has now and
/// that it is ready for more, or that the module is not what its header says, or that the flash
/// failed, each with the slot and the size of the upload it is about.
pub proof fn the_sender_hears_what_the_flash_said(
    current: Upload,
    request: Request,
    answer: Answer,
    received: usize,
)
    requires
        answers(Some(current), request, answer),
    ensures
        answered(Some(current), Request::Feed { slot: current.slot }, Answer::Fed(received)) == (
            Some(Upload { slot: current.slot, received, total: current.total }),
            Plan::Done(
                Received {
                    status: UploadStatus::Ready,
                    slot: current.slot,
                    received,
                    total: current.total,
                },
            ),
        ),
        (answered(Some(current), request, answer).1 matches Plan::Done(said) ==> {
            &&& answer is BadModule <==> said.status == UploadStatus::Mismatch
            &&& answer is BadFlash <==> said.status == UploadStatus::Flash
            &&& request is Feed || request is Finish ==> said.slot == current.slot && said.total
                == current.total
            &&& request is Finish || request is Feed && !(answer is Fed) ==> said.received
                == current.received
        }),
        answer is BadModule || answer is BadFlash ==> answered(
            Some(current),
            request,
            answer,
        ).1 is Done,
{
}

/// A header of a slot that holds a plugin: its id and whether it was accepted.
#[derive(Debug)]
pub struct SlotHeader {
    pub id: Vec<u8>,
    pub accepted: bool,
    pub len: usize,
}

/// Whether two ids are the same.
pub fn same_id(a: &Vec<u8>, b: &Vec<u8>) -> (r: bool)
    ensures
        r == (a@ == b@),
{
    if a.len() != b.len() {
        return false;
    }
    let mut i: usize = 0;
    while i < a.len()
        invariant
            i <= a.len(),
            a.len() == b.len(),
            forall|k: int| 0 <= k < i ==> a[k] == b[k],
        decreases a.len() - i,
    {
        if a[i] != b[i] {
            assert(a@[i as int] != b@[i as int]);
            return false;
        }
        i = i + 1;
    }
    assert(a@ =~= b@);
    true
}

/// Whether slot `m` holds an older copy of the plugin in slot `n`: another slot, accepted, with
/// the same id.
pub open spec fn is_older(headers: Seq<Option<SlotHeader>>, n: int, m: int) -> bool {
    &&& m != n
    &&& 0 <= n < headers.len()
    &&& headers[m] is Some
    &&& headers[m]->0.accepted
    &&& headers[n] is Some
    &&& headers[m]->0.id@ == headers[n]->0.id@
}

/// The first `m` slots that hold an older copy, in their order.
pub open spec fn older_before(headers: Seq<Option<SlotHeader>>, n: int, m: int) -> Seq<usize>
    decreases m,
{
    if m <= 0 {
        Seq::empty()
    } else if is_older(headers, n, m - 1) {
        older_before(headers, n, m - 1).push((m - 1) as usize)
    } else {
        older_before(headers, n, m - 1)
    }
}

/// The slots to erase once slot `n` is accepted: those that hold an accepted plugin with its id,
/// and none if there is no such slot or it holds nothing.
pub fn replace_older(headers: &Vec<Option<SlotHeader>>, n: usize) -> (erase: Vec<usize>)
    ensures
        erase@ == older_before(headers@, n as int, headers.len() as int),
{
    let mut erase: Vec<usize> = Vec::new();
    let mut m: usize = 0;
    while m < headers.len()
        invariant
            m <= headers.len(),
            erase@ == older_before(headers@, n as int, m as int),
        decreases headers.len() - m,
    {
        if m != n && n < headers.len() {
            if let (Some(old_copy), Some(new_copy)) = (&headers[m], &headers[n]) {
                if old_copy.accepted && same_id(&old_copy.id, &new_copy.id) {
                    erase.push(m);
                }
            }
        }
        m = m + 1;
    }
    erase
}

/// Once an update is accepted and its older copies erased, its slot is still there and no other
/// slot holds an accepted plugin with its id.
pub proof fn one_copy_is_left(headers: Seq<Option<SlotHeader>>, n: int, m: int, top: int)
    requires
        0 <= n < headers.len(),
        0 <= m < top <= headers.len(),
        headers.len() <= usize::MAX,
    ensures
        !older_before(headers, n, top).contains(n as usize),
        is_older(headers, n, m) ==> older_before(headers, n, top).contains(m as usize),
    decreases top,
{
    let before = older_before(headers, n, top - 1);
    let all = older_before(headers, n, top);
    if top > 1 {
        if m < top - 1 {
            one_copy_is_left(headers, n, m, top - 1);
        } else {
            one_copy_is_left(headers, n, 0, top - 1);
        }
    }
    if is_older(headers, n, top - 1) {
        assert(all.last() == (top - 1) as usize);
        assert(all.contains((top - 1) as usize));
        assert forall|x: usize| before.contains(x) implies all.contains(x) by {
            let i = choose|i: int| 0 <= i < before.len() && before[i] == x;
            assert(all[i] == x);
        }
        if all.contains(n as usize) {
            let i = choose|i: int| 0 <= i < all.len() && all[i] == n as usize;
            if i < before.len() {
                assert(before[i] == n as usize);
            }
        }
    }
}

/// Nothing else is erased: every slot that is, is another than the one accepted and holds an
/// accepted plugin with its id, so neither a plugin that waits nor any other plugin is lost. The
/// slots come in their order, each once.
pub proof fn only_older_copies_are_erased(headers: Seq<Option<SlotHeader>>, n: int, top: int, i: int)
    requires
        0 <= top <= headers.len() <= usize::MAX,
        0 <= i < older_before(headers, n, top).len(),
    ensures
        older_before(headers, n, top)[i] < top,
        older_before(headers, n, top)[i] != n,
        (headers[older_before(headers, n, top)[i] as int] matches Some(copy) && copy.accepted && (
        headers[n] matches Some(new) && new.id@ == copy.id@)),
        forall|j: int|
            0 <= j < i ==> #[trigger] older_before(headers, n, top)[j] < older_before(
                headers,
                n,
                top,
            )[i],
    decreases top,
{
    if top > 0 {
        let before = older_before(headers, n, top - 1);
        if i < before.len() {
            only_older_copies_are_erased(headers, n, top - 1, i);
        } else {
            assert forall|j: int| 0 <= j < i implies #[trigger] older_before(headers, n, top)[j]
                < older_before(headers, n, top)[i] by {
                only_older_copies_are_erased(headers, n, top - 1, j);
            }
        }
    }
}

/// Whether a slot counts as accepted: there is flash with a partition, and the slot took the
/// mark. Only then are its older copies erased.
pub fn accept_slot(flash: Flash, marked: bool) -> (taken: bool)
    ensures
        taken ==> marked,
        flash != Flash::Ready ==> !taken,
        taken == (flash == Flash::Ready && marked),
{
    match flash {
        Flash::Ready => marked,
        _ => false,
    }
}

/// The place of the plugin that came from slot `slot`, if one did.
pub open spec fn in_slot(from_slot: Seq<Option<usize>>, slot: usize, n: int) -> Option<usize>
    decreases from_slot.len() - n,
{
    if n < 0 || n >= from_slot.len() {
        None
    } else if from_slot[n] == Some(slot) {
        Some(n as usize)
    } else {
        in_slot(from_slot, slot, n + 1)
    }
}

/// Which plugin a sender may delete by naming a slot, or why there is none: the plugins listed
/// come first, then the flash. `from_slot` names the slot of each listed plugin.
pub fn delete_slot(from_slot: &Vec<Option<usize>>, flash: Flash, slot: usize) -> (r: Result<
    usize,
    UploadStatus,
>)
    ensures
        (r matches Ok(n) ==> flash == Flash::Ready && n < from_slot.len() && from_slot[n as int] == Some(
            slot,
        )),
        (r matches Err(status) ==> status == UploadStatus::NoPlugin || status == UploadStatus::Flash
            && flash != Flash::Ready),
        r == (match in_slot(from_slot@, slot, 0) {
            None => Err::<usize, UploadStatus>(UploadStatus::NoPlugin),
            Some(n) => if flash == Flash::Ready {
                Ok(n)
            } else {
                Err(UploadStatus::Flash)
            },
        }),
{
    let mut n: usize = 0;
    while n < from_slot.len()
        invariant
            n <= from_slot.len(),
            in_slot(from_slot@, slot, 0) == in_slot(from_slot@, slot, n as int),
        decreases from_slot.len() - n,
    {
        if let Some(held) = from_slot[n] {
            if held == slot {
                return match flash {
                    Flash::Ready => Ok(n),
                    _ => Err(UploadStatus::Flash),
                };
            }
        }
        n = n + 1;
    }
    Err(UploadStatus::NoPlugin)
}

/// A sender can delete exactly the plugins that came from a slot, by naming that slot: the place
/// found is the first whose plugin came from it, and none is found only where no plugin did.
pub proof fn a_slot_names_its_plugin(from_slot: Seq<Option<usize>>, slot: usize, n: int)
    requires
        0 <= n,
        from_slot.len() <= usize::MAX,
    ensures
        (in_slot(from_slot, slot, n) matches Some(k) ==> n <= k < from_slot.len()
            && from_slot[k as int] == Some(slot) && forall|m: int|
            n <= m < k ==> #[trigger] from_slot[m] != Some(slot)),
        in_slot(from_slot, slot, n) is None ==> forall|m: int|
            n <= m < from_slot.len() ==> #[trigger] from_slot[m] != Some(slot),
    decreases from_slot.len() - n,
{
    if n < from_slot.len() && from_slot[n] != Some(slot) {
        a_slot_names_its_plugin(from_slot, slot, n + 1);
    }
}

/// What a sender is told about an erased slot: the plugin deleted, or that the flash refused.
pub fn deleted(erased: bool) -> (status: UploadStatus)
    ensures
        status == UploadStatus::Deleted <==> erased,
        status == (if erased {
            UploadStatus::Deleted
        } else {
            UploadStatus::Flash
        }),
{
    if erased {
        UploadStatus::Deleted
    } else {
        UploadStatus::Flash
    }
}

/// The plugin list a sender reads, one entry of bytes for each plugin the settings show.
pub struct Listing {
    pub entries: Vec<Vec<u8>>,
}

/// What a sender gets for an index: the entry, or how far the list goes.
#[derive(Debug)]
pub enum ListingEntry {
    Entry(Vec<u8>),
    PastEnd { index: u8, count: u8 },
}

/// The first `n` plugins the settings show, in their order.
pub open spec fn shown_before(listed: Seq<bool>, n: int) -> Seq<usize>
    decreases n,
{
    if n <= 0 {
        Seq::empty()
    } else if listed[n - 1] {
        shown_before(listed, n - 1).push((n - 1) as usize)
    } else {
        shown_before(listed, n - 1)
    }
}

/// The plugins a list names, in the order of the settings: those with a manifest.
pub fn shown(listed: &Vec<bool>) -> (r: Vec<usize>)
    ensures
        r@ == shown_before(listed@, listed.len() as int),
        r.len() <= listed.len(),
{
    let mut r: Vec<usize> = Vec::new();
    let mut n: usize = 0;
    while n < listed.len()
        invariant
            n <= listed.len(),
            r.len() <= n,
            r@ == shown_before(listed@, n as int),
        decreases listed.len() - n,
    {
        if listed[n] {
            r.push(n);
        }
        n = n + 1;
    }
    r
}

/// A list names every plugin the settings show and no other, in their order.
pub proof fn a_list_names_what_is_shown(listed: Seq<bool>, top: int, n: int)
    requires
        0 <= n < top <= listed.len() <= usize::MAX,
    ensures
        listed[n] <==> shown_before(listed, top).contains(n as usize),
        forall|i: int, j: int|
            0 <= i < j < shown_before(listed, top).len() ==> (#[trigger] shown_before(listed, top)[i])
                < (#[trigger] shown_before(listed, top)[j]),
        forall|i: int| 0 <= i < shown_before(listed, top).len() ==> shown_before(listed, top)[i] < top,
    decreases top,
{
    let before = shown_before(listed, top - 1);
    let all = shown_before(listed, top);
    if top > 1 {
        a_list_names_what_is_shown(
            listed,
            top - 1,
            if n < top - 1 {
                n
            } else {
                0
            },
        );
    }
    if listed[top - 1] {
        assert(all.last() == (top - 1) as usize);
        if before.contains(n as usize) {
            let i = choose|i: int| 0 <= i < before.len() && before[i] == n as usize;
            assert(all[i] == n as usize);
        }
        if all.contains(n as usize) && n < top - 1 {
            let i = choose|i: int| 0 <= i < all.len() && all[i] == n as usize;
            assert(before[i] == n as usize);
        }
    }
}

impl Listing {
    /// An empty list.
    pub fn new() -> (r: Self)
        ensures
            r.entries@.len() == 0,
    {
        Listing { entries: Vec::new() }
    }

    /// How many plugins the list names.
    pub fn count(&self) -> (r: u8)
        requires
            self.entries.len() < 256,
        ensures
            r == self.entries.len(),
    {
        self.entries.len() as u8
    }

    /// The entry for `index`, or the end of the list.
    pub fn entry(&self, index: u8) -> (r: ListingEntry)
        requires
            self.entries.len() < 256,
        ensures
            index < self.entries.len() ==> (r matches ListingEntry::Entry(bytes) && bytes@
                == self.entries[index as int]@),
            index >= self.entries.len() ==> r == (ListingEntry::PastEnd {
                index,
                count: self.entries.len() as u8,
            }),
    {
        let at: usize = index as usize;
        if at < self.entries.len() {
            let mut bytes: Vec<u8> = Vec::new();
            let raw = &self.entries[at];
            let mut i: usize = 0;
            while i < raw.len()
                invariant
                    i <= raw.len(),
                    bytes@ == raw@.take(i as int),
                decreases raw.len() - i,
            {
                bytes.push(raw[i]);
                i = i + 1;
            }
            assert(raw@.take(raw.len() as int) =~= raw@);
            ListingEntry::Entry(bytes)
        } else {
            ListingEntry::PastEnd { index, count: self.entries.len() as u8 }
        }
    }
}

} // verus!
