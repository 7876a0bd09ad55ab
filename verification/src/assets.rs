//! Swapping two assets, and copying one over another.

use vstd::prelude::*;
use crate::messages::{
    about, about_two, message_about, message_about_two, optional_message, Message, MessageView,
};
use crate::text::{join_path, joined_path_has_one_slash_between, slashed};

verus! {

/// How far a transfer has come.
#[derive(Debug)]
pub enum Phase {
    /// The first asset is to be read.
    ReadFirst,
    /// The second asset is to be read; these are the bytes of the first.
    ReadSecond(Vec<u8>),
    /// The bytes of the second asset are to be written over the first.
    WriteFirst { first: Vec<u8>, second: Vec<u8> },
    /// The bytes of the first asset are to be written over the second.
    WriteSecond(Vec<u8>),
    /// There is nothing more to do.
    Ended,
}

/// How far a transfer has come, as a value.
pub enum PhaseView {
    ReadFirst,
    ReadSecond(Seq<u8>),
    WriteFirst { first: Seq<u8>, second: Seq<u8> },
    WriteSecond(Seq<u8>),
    Ended,
}

impl View for Phase {
    type V = PhaseView;

    open spec fn view(&self) -> PhaseView {
        match self {
            Phase::ReadFirst => PhaseView::ReadFirst,
            Phase::ReadSecond(first) => PhaseView::ReadSecond(first@),
            Phase::WriteFirst { first, second } => PhaseView::WriteFirst {
                first: first@,
                second: second@,
            },
            Phase::WriteSecond(first) => PhaseView::WriteSecond(first@),
            Phase::Ended => PhaseView::Ended,
        }
    }
}

/// A swap of two assets, or a copy of the first over the second.
#[derive(Debug)]
pub struct Transfer {
    /// The names of the two assets.
    pub first: String,
    pub second: String,
    /// The paths of the two assets.
    pub first_path: String,
    pub second_path: String,
    /// Whether the assets are swapped.
    pub swap: bool,
    pub phase: Phase,
}

/// A swap or a copy, as a value.
pub struct TransferView {
    pub first: Seq<char>,
    pub second: Seq<char>,
    pub first_path: Seq<char>,
    pub second_path: Seq<char>,
    pub swap: bool,
    pub phase: PhaseView,
}

impl View for Transfer {
    type V = TransferView;

    open spec fn view(&self) -> TransferView {
        TransferView {
            first: self.first@,
            second: self.second@,
            first_path: self.first_path@,
            second_path: self.second_path@,
            swap: self.swap,
            phase: self.phase@,
        }
    }
}

/// What is to be done next for a transfer.
#[derive(Debug)]
pub enum Request {
    Read(String),
    Write { path: String, bytes: Vec<u8> },
    Nothing,
}

/// What is to be done next, as a value.
pub enum RequestView {
    Read(Seq<char>),
    Write { path: Seq<char>, bytes: Seq<u8> },
    Nothing,
}

impl View for Request {
    type V = RequestView;

    open spec fn view(&self) -> RequestView {
        match self {
            Request::Read(path) => RequestView::Read(path@),
            Request::Write { path, bytes } => RequestView::Write { path: path@, bytes: bytes@ },
            Request::Nothing => RequestView::Nothing,
        }
    }
}

/// What came of it.
#[derive(Debug)]
pub enum Reply {
    /// The bytes that were read.
    Bytes(Vec<u8>),
    /// The bytes were written.
    Written,
    /// It failed, for the given reason.
    Failed(String),
}

/// What came of it, as a value.
pub enum ReplyView {
    Bytes(Seq<u8>),
    Written,
    Failed(Seq<char>),
}

impl View for Reply {
    type V = ReplyView;

    open spec fn view(&self) -> ReplyView {
        match self {
            Reply::Bytes(bytes) => ReplyView::Bytes(bytes@),
            Reply::Written => ReplyView::Written,
            Reply::Failed(error) => ReplyView::Failed(error@),
        }
    }
}

impl TransferView {
    /// What is to be done next.
    pub open spec fn request(self) -> RequestView {
        match self.phase {
            PhaseView::ReadFirst => RequestView::Read(self.first_path),
            PhaseView::ReadSecond(_) => RequestView::Read(self.second_path),
            PhaseView::WriteFirst { second, .. } => RequestView::Write {
                path: self.first_path,
                bytes: second,
            },
            PhaseView::WriteSecond(first) => RequestView::Write {
                path: self.second_path,
                bytes: first,
            },
            PhaseView::Ended => RequestView::Nothing,
        }
    }

    /// The reply is one to what is to be done next.
    pub open spec fn awaits(self, reply: ReplyView) -> bool {
        match reply {
            ReplyView::Bytes(_) => self.request() is Read,
            ReplyView::Written => self.request() is Write,
            ReplyView::Failed(_) => !(self.request() is Nothing),
        }
    }

    /// The transfer after a reply. Where an asset cannot be read it ends, and nothing is
    /// written; where one cannot be written it goes on.
    pub open spec fn after(self, reply: ReplyView) -> TransferView {
        let phase = match (self.phase, reply) {
            (PhaseView::ReadFirst, ReplyView::Bytes(bytes)) => if self.swap {
                PhaseView::ReadSecond(bytes)
            } else {
                PhaseView::WriteSecond(bytes)
            },
            (PhaseView::ReadSecond(first), ReplyView::Bytes(bytes)) => PhaseView::WriteFirst {
                first,
                second: bytes,
            },
            (PhaseView::WriteFirst { first, .. }, _) => PhaseView::WriteSecond(first),
            _ => PhaseView::Ended,
        };
        TransferView { phase, ..self }
    }

    /// The message that tells that the transfer is done. It comes after the second asset
    /// was to be written, whether it could be or not.
    pub open spec fn done_message(self) -> Option<MessageView> {
        if self.phase is WriteSecond {
            Some(
                about_two(
                    if self.swap {
                        "swapped"@
                    } else {
                        "copied"@
                    },
                    self.first,
                    self.second,
                ),
            )
        } else {
            None
        }
    }
}

/// The message that tells of a failure.
pub open spec fn failure_message(reply: ReplyView) -> Option<MessageView> {
    match reply {
        ReplyView::Failed(error) => Some(about("failed-opening-file"@, "error"@, error)),
        _ => None,
    }
}

/// The transfer at its start: the two assets are in the directory `dir`.
pub open spec fn transfer(dir: Seq<char>, a: Seq<char>, b: Seq<char>, swap: bool) -> TransferView {
    TransferView {
        first: a,
        second: b,
        first_path: slashed(dir, a),
        second_path: slashed(dir, b),
        swap,
        phase: PhaseView::ReadFirst,
    }
}

fn new_transfer(dir: &str, a: &str, b: &str, swap: bool) -> (res: Transfer)
    ensures
        res@ == transfer(dir@, a@, b@, swap),
{
    Transfer {
        first: a.to_owned(),
        second: b.to_owned(),
        first_path: join_path(dir, a),
        second_path: join_path(dir, b),
        swap,
        phase: Phase::ReadFirst,
    }
}

/// Starts a swap of the assets `asset_a` and `asset_b` of the directory `dir`.
pub fn swap_assets(dir: &str, asset_a: &str, asset_b: &str) -> (res: Transfer)
    ensures
        res@ == transfer(dir@, asset_a@, asset_b@, true),
{
    new_transfer(dir, asset_a, asset_b, true)
}

/// Starts a copy of the asset `asset_a` of the directory `dir` over `asset_b`.
pub fn copy_assets(dir: &str, asset_a: &str, asset_b: &str) -> (res: Transfer)
    ensures
        res@ == transfer(dir@, asset_a@, asset_b@, false),
{
    new_transfer(dir, asset_a, asset_b, false)
}

/// What is to be done next for a transfer.
pub fn next_request(transfer: &Transfer) -> (res: Request)
    ensures
        res@ == transfer@.request(),
{
    match &transfer.phase {
        Phase::ReadFirst => Request::Read(transfer.first_path.clone()),
        Phase::ReadSecond(_) => Request::Read(transfer.second_path.clone()),
        Phase::WriteFirst { second, .. } => Request::Write {
            path: transfer.first_path.clone(),
            bytes: second.clone(),
        },
        Phase::WriteSecond(first) => Request::Write {
            path: transfer.second_path.clone(),
            bytes: first.clone(),
        },
        Phase::Ended => Request::Nothing,
    }
}

/// What is shown after a step of a transfer: first the failure, then that it is done.
#[derive(Debug)]
pub struct StepReport {
    pub failure: Option<Message>,
    pub done: Option<Message>,
}

/// Takes up the reply to what was to be done. Returns the status messages.
pub fn take_reply(transfer: Transfer, reply: Reply) -> (res: (Transfer, StepReport))
    requires
        transfer@.awaits(reply@),
    ensures
        res.0@ == transfer@.after(reply@),
        optional_message(res.1.failure) == failure_message(reply@),
        optional_message(res.1.done) == transfer@.done_message(),
{
    let Transfer { first, second, first_path, second_path, swap, phase } = transfer;
    let done = match &phase {
        Phase::WriteSecond(_) => Some(
            if swap {
                message_about_two("swapped", first.clone(), second.clone())
            } else {
                message_about_two("copied", first.clone(), second.clone())
            },
        ),
        _ => None,
    };
    let failure = match &reply {
        Reply::Failed(error) => Some(
            message_about("failed-opening-file", "error", error.clone()),
        ),
        _ => None,
    };
    let phase = match (phase, reply) {
        (Phase::ReadFirst, Reply::Bytes(bytes)) => if swap {
            Phase::ReadSecond(bytes)
        } else {
            Phase::WriteSecond(bytes)
        },
        (Phase::ReadSecond(first), Reply::Bytes(bytes)) => Phase::WriteFirst {
            first,
            second: bytes,
        },
        (Phase::WriteFirst { first, .. }, _) => Phase::WriteSecond(first),
        _ => Phase::Ended,
    };
    let after = Transfer { first, second, first_path, second_path, swap, phase };
    (after, StepReport { failure, done })
}

impl TransferView {
    /// How many steps are left at most.
    pub open spec fn steps_left(self) -> nat {
        match self.phase {
            PhaseView::ReadFirst => 4,
            PhaseView::ReadSecond(_) => 3,
            PhaseView::WriteFirst { .. } => 2,
            PhaseView::WriteSecond(_) => 1,
            PhaseView::Ended => 0,
        }
    }

    /// The files, by path, after the transfer has run to its end on them. A file that is
    /// there can be read, and every file can be written.
    pub open spec fn run(self, files: Map<Seq<char>, Seq<u8>>) -> Map<Seq<char>, Seq<u8>>
        decreases self.steps_left(),
    {
        match self.request() {
            RequestView::Read(path) => if files.contains_key(path) {
                self.after(ReplyView::Bytes(files[path])).run(files)
            } else {
                self.after(ReplyView::Failed(Seq::empty())).run(files)
            },
            RequestView::Write { path, bytes } => self.after(ReplyView::Written).run(
                files.insert(path, bytes),
            ),
            RequestView::Nothing => files,
        }
    }
}

/// A swap exchanges the contents of the two assets and touches no other file.
pub proof fn swap_exchanges(
    files: Map<Seq<char>, Seq<u8>>,
    dir: Seq<char>,
    a: Seq<char>,
    b: Seq<char>,
)
    requires
        files.contains_key(slashed(dir, a)),
        files.contains_key(slashed(dir, b)),
    ensures
        transfer(dir, a, b, true).run(files) == files.insert(
            slashed(dir, a),
            files[slashed(dir, b)],
        ).insert(slashed(dir, b), files[slashed(dir, a)]),
{
    reveal_with_fuel(TransferView::run, 5);
}

/// A swap of which one asset is missing changes nothing.
pub proof fn swap_needs_both(
    files: Map<Seq<char>, Seq<u8>>,
    dir: Seq<char>,
    a: Seq<char>,
    b: Seq<char>,
)
    requires
        !files.contains_key(slashed(dir, a)) || !files.contains_key(slashed(dir, b)),
    ensures
        transfer(dir, a, b, true).run(files) == files,
{
    reveal_with_fuel(TransferView::run, 5);
}

/// A swap is undone by the same swap.
pub proof fn swap_undoes_itself(
    files: Map<Seq<char>, Seq<u8>>,
    dir: Seq<char>,
    a: Seq<char>,
    b: Seq<char>,
)
    ensures
        transfer(dir, a, b, true).run(transfer(dir, a, b, true).run(files)) == files,
{
    if files.contains_key(slashed(dir, a)) && files.contains_key(slashed(dir, b)) {
        swap_exchanges(files, dir, a, b);
        let swapped = transfer(dir, a, b, true).run(files);
        swap_exchanges(swapped, dir, a, b);
        assert(transfer(dir, a, b, true).run(swapped) =~= files);
    } else {
        swap_needs_both(files, dir, a, b);
    }
}

/// A copy gives the second asset the contents of the first and touches no other file;
/// without the first asset it changes nothing.
pub proof fn copy_overwrites(
    files: Map<Seq<char>, Seq<u8>>,
    dir: Seq<char>,
    a: Seq<char>,
    b: Seq<char>,
)
    ensures
        transfer(dir, a, b, false).run(files) == if files.contains_key(slashed(dir, a)) {
            files.insert(slashed(dir, b), files[slashed(dir, a)])
        } else {
            files
        },
{
    reveal_with_fuel(TransferView::run, 5);
}

/// Every reply brings a transfer nearer to its end.
pub proof fn transfer_ends(transfer: TransferView, reply: ReplyView)
    requires
        transfer.awaits(reply),
    ensures
        transfer.after(reply).steps_left() < transfer.steps_left(),
{
}

/// The two assets are found in the directory by their names.
pub proof fn assets_are_found_by_name(dir: Seq<char>, a: Seq<char>, b: Seq<char>, swap: bool)
    ensures
        transfer(dir, a, b, swap) == (TransferView {
            first: a,
            second: b,
            first_path: dir + seq!['/'] + a,
            second_path: dir + seq!['/'] + b,
            swap,
            phase: PhaseView::ReadFirst,
        }),
{
    joined_path_has_one_slash_between(dir, a);
    joined_path_has_one_slash_between(dir, b);
}

/// A swap gives each asset the whole contents of the other, a copy gives the second those of
/// the first, and every other file stays as it is.
pub proof fn contents_are_moved_whole(
    files: Map<Seq<char>, Seq<u8>>,
    dir: Seq<char>,
    a: Seq<char>,
    b: Seq<char>,
    other: Seq<char>,
)
    requires
        files.contains_key(dir + seq!['/'] + a),
        files.contains_key(dir + seq!['/'] + b),
        other != dir + seq!['/'] + a,
        other != dir + seq!['/'] + b,
    ensures
        ({
            let (at_a, at_b) = (dir + seq!['/'] + a, dir + seq!['/'] + b);
            let swapped = transfer(dir, a, b, true).run(files);
            let copied = transfer(dir, a, b, false).run(files);
            &&& swapped[at_a] == files[at_b]
            &&& swapped[at_b] == files[at_a]
            &&& copied[at_a] == files[at_a]
            &&& copied[at_b] == files[at_a]
            &&& swapped.contains_key(other) == files.contains_key(other)
            &&& swapped[other] == files[other]
            &&& copied.contains_key(other) == files.contains_key(other)
            &&& copied[other] == files[other]
        }),
{
    joined_path_has_one_slash_between(dir, a);
    joined_path_has_one_slash_between(dir, b);
    swap_exchanges(files, dir, a, b);
    copy_overwrites(files, dir, a, b);
}

/// What a transfer asks for at each step: the first asset is read, then for a swap the
/// second, then each gets the bytes of the other. A failure to read ends it, a failure to
/// write does not keep it from going on.
pub proof fn transfer_step_by_step(
    transfer: TransferView,
    first: Seq<u8>,
    second: Seq<u8>,
    error: Seq<char>,
)
    ensures
        ({
            let reading = TransferView { phase: PhaseView::ReadFirst, ..transfer };
            let reading_second = TransferView { phase: PhaseView::ReadSecond(first), ..transfer };
            let writing = TransferView {
                phase: PhaseView::WriteFirst { first, second },
                ..transfer
            };
            let writing_second = TransferView {
                phase: PhaseView::WriteSecond(first),
                ..transfer
            };
            let ended = TransferView { phase: PhaseView::Ended, ..transfer };
            &&& reading.request() == RequestView::Read(transfer.first_path)
            &&& reading.after(ReplyView::Bytes(first)) == if transfer.swap {
                reading_second
            } else {
                writing_second
            }
            &&& reading.after(ReplyView::Failed(error)) == ended
            &&& reading_second.request() == RequestView::Read(transfer.second_path)
            &&& reading_second.after(ReplyView::Bytes(second)) == writing
            &&& reading_second.after(ReplyView::Failed(error)) == ended
            &&& writing.request() == (RequestView::Write {
                path: transfer.first_path,
                bytes: second,
            })
            &&& writing.after(ReplyView::Written) == writing_second
            &&& writing.after(ReplyView::Failed(error)) == writing_second
            &&& writing_second.request() == (RequestView::Write {
                path: transfer.second_path,
                bytes: first,
            })
            &&& writing_second.after(ReplyView::Written) == ended
            &&& writing_second.after(ReplyView::Failed(error)) == ended
            &&& ended.request() is Nothing
            &&& reading.done_message() is None
            &&& reading_second.done_message() is None
            &&& writing.done_message() is None
            &&& writing_second.done_message() == Some(
                about_two(
                    if transfer.swap {
                        "swapped"@
                    } else {
                        "copied"@
                    },
                    transfer.first,
                    transfer.second,
                ),
            )
            &&& failure_message(ReplyView::Failed(error)) == Some(
                about("failed-opening-file"@, "error"@, error),
            )
            &&& failure_message(ReplyView::Written) is None
            &&& failure_message(ReplyView::Bytes(first)) is None
        }),
{
}

/// A transfer, what it asks for and what comes of it are as values all that they hold.
pub proof fn transfer_is_all_it_holds(
    transfer: Transfer,
    path: String,
    bytes: Vec<u8>,
    other: Vec<u8>,
)
    ensures
        transfer@.first == transfer.first@,
        transfer@.second == transfer.second@,
        transfer@.first_path == transfer.first_path@,
        transfer@.second_path == transfer.second_path@,
        transfer@.swap == transfer.swap,
        transfer@.phase == transfer.phase@,
        (Phase::ReadFirst)@ == PhaseView::ReadFirst,
        (Phase::ReadSecond(bytes))@ == PhaseView::ReadSecond(bytes@),
        (Phase::WriteFirst { first: bytes, second: other })@ == (PhaseView::WriteFirst {
            first: bytes@,
            second: other@,
        }),
        (Phase::WriteSecond(bytes))@ == PhaseView::WriteSecond(bytes@),
        (Phase::Ended)@ == PhaseView::Ended,
        (Request::Read(path))@ == RequestView::Read(path@),
        (Request::Write { path, bytes })@ == (RequestView::Write { path: path@, bytes: bytes@ }),
        (Request::Nothing)@ == RequestView::Nothing,
        (Reply::Bytes(bytes))@ == ReplyView::Bytes(bytes@),
        (Reply::Written)@ == ReplyView::Written,
        (Reply::Failed(path))@ == ReplyView::Failed(path@),
{
}

/// Whatever comes of what is asked for can be taken up.
pub proof fn every_reply_is_awaited(transfer: TransferView, bytes: Seq<u8>, error: Seq<char>)
    ensures
        transfer.request() is Read ==> transfer.awaits(ReplyView::Bytes(bytes))
            && transfer.awaits(ReplyView::Failed(error)),
        transfer.request() is Write ==> transfer.awaits(ReplyView::Written) && transfer.awaits(
            ReplyView::Failed(error),
        ),
{
}

} // verus!
