//! The stage workers: what each helper is started with, and what is done on
//! each outcome that it reports and on its exit.
//!
//! A task runs through one or two passes. The download worker fetches the
//! torrent's metadata and then the torrent; the encode worker encodes and then,
//! where the preset asks for an intro, joins the intro on; the upload worker
//! uploads.

use vstd::prelude::*;
use crate::codec::{tok_colon, tok_percent, tok_slash};
use crate::driver::{
    line_outcome, operand, operand_at, read_line, string_views, Outcome, OutcomeView,
};
use crate::protocol::{negotiation_of, Protocol};
use crate::job::child_path;
use crate::messages::{
    CTORRENT_DONE, CTORRENT_FAIL, ENCODE_DONE, ENCODE_FAIL, ENCODE_PROG, JOB_CANCELLED,
    TORRENT_DONE, TORRENT_FAIL, TORRENT_PROG, UPLOAD_DONE, UPLOAD_FAIL, UPLOAD_PROG,
};
use crate::number::{decimal, parse_u64, parse_unsigned, push_decimal};
use crate::stage::{Preset, Stage};
use crate::text::{chars_of, extend_chars, owned, replace_all, replaced, string_of};

verus! {

/// One run of a helper.
#[derive(Copy, Clone, Debug, PartialEq, Eq, Structural)]
pub enum Pass {
    /// Fetching the torrent's metadata.
    Fetch,
    /// Downloading the torrent.
    Torrent,
    /// Encoding the video with the subtitle burnt in.
    Encode,
    /// Joining the intro clip on.
    Concat,
    /// Uploading the result.
    Upload,
}

/// The helper that a pass runs.
#[derive(Copy, Clone, Debug, PartialEq, Eq, Structural)]
pub enum Helper {
    Curl,
    P2p,
    Mpeg,
}

/// What a worker tells the coordinator about a job: a text for the status view
/// and, where the job has moved on, its new stage.
#[derive(Debug)]
pub struct CommEvent {
    pub job_id: u64,
    pub message: String,
    pub stage: Option<Stage>,
}

/// What the download worker is asked to do.
#[derive(Debug)]
pub struct DownloadTask {
    pub directory: String,
    /// The address of the torrent: a link to its metadata, or a magnet address.
    pub link: String,
    /// Whether the address is a magnet address.
    pub magnet: bool,
    pub job_id: u64,
}

/// What the encode worker is asked to do.
#[derive(Debug)]
pub struct EncodeTask {
    pub directory: String,
    pub preset: Preset,
    pub job_id: u64,
}

/// What the upload worker is asked to do.
#[derive(Debug)]
pub struct UploadTask {
    pub directory: String,
    pub out_name: String,
    pub release: bool,
    pub job_id: u64,
}

/// What is to be done on disk before an event is sent.
#[derive(Copy, Clone, Debug, PartialEq, Eq, Structural)]
pub enum Effect {
    Nothing,
    /// The downloaded file becomes `contents/torrent/input.mkv`.
    AdoptDownload,
    /// `work/output_noconcat.mp4` becomes `work/output.mp4`.
    PromoteOutput,
}

/// How a task goes on.
#[derive(Copy, Clone, Debug, PartialEq, Eq, Structural)]
pub enum Next {
    /// The helper's output is read on.
    Continue,
    /// The helper has reported that it is done; its exit is awaited.
    AwaitExit,
    /// The next pass is started.
    Start(Pass),
    /// The task is over, and nothing more is sent for it.
    Finished,
}

/// What a worker does on an outcome or an exit.
#[derive(Debug)]
pub struct Reaction {
    pub emit: Option<CommEvent>,
    pub effect: Effect,
    pub next: Next,
}

/// The mathematical value of a `Reaction`: the text and the stage of the event
/// sent, if one is, then the effect and how the task goes on.
pub struct ReactionView {
    pub emit: Option<(Seq<char>, Option<Stage>)>,
    pub effect: Effect,
    pub next: Next,
}

impl View for Reaction {
    type V = ReactionView;

    open spec fn view(&self) -> ReactionView {
        ReactionView {
            emit: match self.emit {
                Some(e) => Some((e.message@, e.stage)),
                None => None,
            },
            effect: self.effect,
            next: self.next,
        }
    }
}

/// The helper that a pass runs.
pub fn helper_of(pass: Pass) -> (r: Helper)
    ensures
        r == match pass {
            Pass::Fetch => Helper::Curl,
            Pass::Torrent => Helper::P2p,
            Pass::Encode => Helper::Mpeg,
            Pass::Concat => Helper::Mpeg,
            Pass::Upload => Helper::Curl,
        },
{
    match pass {
        Pass::Fetch => Helper::Curl,
        Pass::Torrent => Helper::P2p,
        Pass::Encode => Helper::Mpeg,
        Pass::Concat => Helper::Mpeg,
        Pass::Upload => Helper::Curl,
    }
}

/// The encoder's switch for a preset.
pub open spec fn preset_flag(preset: Preset) -> Seq<char> {
    match preset {
        Preset::PseudoLossless(_) => "--pseudolossless"@,
        Preset::Gpu(_) => "--gpu"@,
        Preset::Standard(_) => "--x264"@,
    }
}

/// The name of the file whose presence tells the torrent helper to stop.
pub open spec fn cancel_sentinel(directory: Seq<char>) -> Seq<char> {
    child_path(directory, "cancel"@)
}

/// The arguments of the pass that fetches the torrent's metadata.
pub open spec fn fetch_arguments(directory: Seq<char>, link: Seq<char>, job_id: nat) -> Seq<
    Seq<char>,
> {
    seq![
        "--link"@,
        link,
        "--opcode"@,
        child_path(directory, "contents/fetch.torrent"@),
        "--negkey"@,
        "PNcurlT"@ + decimal(job_id),
        "--negotiator"@,
        "PNdloadworker"@,
        "--negver"@,
        "1"@,
    ]
}

/// The arguments of the pass that downloads the torrent. A torrent with a
/// link is downloaded from the metadata that was fetched; a torrent with a
/// magnet address from the address, which the switch `--magnet` announces.
pub open spec fn torrent_arguments(
    directory: Seq<char>,
    link: Seq<char>,
    magnet: bool,
    job_id: nat,
) -> Seq<Seq<char>> {
    seq![
        "--opcode"@,
        if magnet {
            link
        } else {
            child_path(directory, "contents/fetch.torrent"@)
        },
        "--save"@,
        child_path(directory, "contents/torrent"@),
    ] + (if magnet {
        seq!["--magnet"@]
    } else {
        Seq::empty()
    }) + seq![
        "--cancelfile"@,
        cancel_sentinel(directory),
        "--negkey"@,
        "PNp2pT"@ + decimal(job_id),
        "--negotiator"@,
        "PNdloadworker"@,
        "--negver"@,
        "1"@,
    ]
}

/// The arguments of the pass that encodes.
pub open spec fn encode_arguments(directory: Seq<char>, preset: Preset, job_id: nat) -> Seq<
    Seq<char>,
> {
    seq![
        "--input"@,
        child_path(directory, "contents/torrent/input.mkv"@),
        "--output"@,
        child_path(directory, "work/output_noconcat.mp4"@),
        "--ass"@,
        child_path(directory, "contents/subtitle.ass"@),
        preset_flag(preset),
        "--negkey"@,
        "PNmpeg"@ + decimal(job_id),
        "--negotiator"@,
        "PNencdeworker"@,
        "--negver"@,
        "1"@,
    ]
}

/// The arguments of the pass that joins the intro on.
pub open spec fn concat_arguments(directory: Seq<char>, job_id: nat) -> Seq<Seq<char>> {
    seq![
        "--input"@,
        child_path(directory, "work/output_noconcat.mp4"@),
        "--output"@,
        child_path(directory, "work/output.mp4"@),
        "--subinput"@,
        child_path(directory, "contents/concat.mp4"@),
        "--concat"@,
        "--negkey"@,
        "PNmpegC"@ + decimal(job_id),
        "--negotiator"@,
        "PNdloadworker"@,
        "--negver"@,
        "1"@,
    ]
}

/// The arguments of the pass that uploads.
pub open spec fn upload_arguments(directory: Seq<char>, out_name: Seq<char>, job_id: nat) -> Seq<
    Seq<char>,
> {
    seq![
        "--link"@,
        child_path(directory, "work/output.mp4"@),
        "--opcode"@,
        out_name,
        "--drive"@,
        "--env"@,
        "env.pandora"@,
        "--negkey"@,
        "PNcurlG"@ + decimal(job_id),
        "--negotiator"@,
        "PNuloadworker"@,
        "--negver"@,
        "1"@,
    ]
}

fn path_in(directory: &str, rel: &str) -> (r: String)
    ensures
        r@ == child_path(directory@, rel@),
{
    crate::job::join_path(directory, rel)
}

fn keyed(prefix: &str, job_id: u64) -> (r: String)
    ensures
        r@ == prefix@ + decimal(job_id as nat),
{
    let mut out = chars_of(prefix);
    push_decimal(&mut out, job_id);
    string_of(&out)
}

impl DownloadTask {
    /// The arguments for the helper that fetches the torrent's metadata.
    pub fn fetch_args(&self) -> (r: Vec<String>)
        ensures
            string_views(r@) == fetch_arguments(
                self.directory@,
                self.link@,
                self.job_id as nat,
            ),
    {
        let mut args: Vec<String> = Vec::new();
        args.push(owned("--link"));
        args.push(self.link.clone());
        args.push(owned("--opcode"));
        args.push(path_in(self.directory.as_str(), "contents/fetch.torrent"));
        args.push(owned("--negkey"));
        args.push(keyed("PNcurlT", self.job_id));
        args.push(owned("--negotiator"));
        args.push(owned("PNdloadworker"));
        args.push(owned("--negver"));
        args.push(owned("1"));
        proof {
            assert(string_views(args@) =~= fetch_arguments(
                self.directory@,
                self.link@,
                self.job_id as nat,
            ));
        }
        args
    }

    /// The pass that the task starts with: a torrent with a link has its
    /// metadata fetched first, a torrent with a magnet address is downloaded at
    /// once.
    pub fn first_pass(&self) -> (r: Pass)
        ensures
            r == if self.magnet {
                Pass::Torrent
            } else {
                Pass::Fetch
            },
    {
        if self.magnet {
            Pass::Torrent
        } else {
            Pass::Fetch
        }
    }

    /// The arguments for the helper that downloads the torrent.
    pub fn torrent_args(&self) -> (r: Vec<String>)
        ensures
            string_views(r@) == torrent_arguments(
                self.directory@,
                self.link@,
                self.magnet,
                self.job_id as nat,
            ),
    {
        let mut args: Vec<String> = Vec::new();
        args.push(owned("--opcode"));
        if self.magnet {
            args.push(self.link.clone());
        } else {
            args.push(path_in(self.directory.as_str(), "contents/fetch.torrent"));
        }
        args.push(owned("--save"));
        args.push(path_in(self.directory.as_str(), "contents/torrent"));
        if self.magnet {
            args.push(owned("--magnet"));
        }
        args.push(owned("--cancelfile"));
        args.push(path_in(self.directory.as_str(), "cancel"));
        args.push(owned("--negkey"));
        args.push(keyed("PNp2pT", self.job_id));
        args.push(owned("--negotiator"));
        args.push(owned("PNdloadworker"));
        args.push(owned("--negver"));
        args.push(owned("1"));
        proof {
            assert(string_views(args@) =~= torrent_arguments(
                self.directory@,
                self.link@,
                self.magnet,
                self.job_id as nat,
            ));
        }
        args
    }
}

impl EncodeTask {
    /// The arguments for the encoder's first pass.
    pub fn encode_args(&self) -> (r: Vec<String>)
        ensures
            string_views(r@) == encode_arguments(
                self.directory@,
                self.preset,
                self.job_id as nat,
            ),
    {
        let mut args: Vec<String> = Vec::new();
        args.push(owned("--input"));
        args.push(path_in(self.directory.as_str(), "contents/torrent/input.mkv"));
        args.push(owned("--output"));
        args.push(path_in(self.directory.as_str(), "work/output_noconcat.mp4"));
        args.push(owned("--ass"));
        args.push(path_in(self.directory.as_str(), "contents/subtitle.ass"));
        args.push(
            match self.preset {
                Preset::PseudoLossless(_) => owned("--pseudolossless"),
                Preset::Gpu(_) => owned("--gpu"),
                Preset::Standard(_) => owned("--x264"),
            },
        );
        args.push(owned("--negkey"));
        args.push(keyed("PNmpeg", self.job_id));
        args.push(owned("--negotiator"));
        args.push(owned("PNencdeworker"));
        args.push(owned("--negver"));
        args.push(owned("1"));
        proof {
            assert(string_views(args@) =~= encode_arguments(
                self.directory@,
                self.preset,
                self.job_id as nat,
            ));
        }
        args
    }

    /// The arguments for the encoder's second pass.
    pub fn concat_args(&self) -> (r: Vec<String>)
        ensures
            string_views(r@) == concat_arguments(self.directory@, self.job_id as nat),
    {
        let mut args: Vec<String> = Vec::new();
        args.push(owned("--input"));
        args.push(path_in(self.directory.as_str(), "work/output_noconcat.mp4"));
        args.push(owned("--output"));
        args.push(path_in(self.directory.as_str(), "work/output.mp4"));
        args.push(owned("--subinput"));
        args.push(path_in(self.directory.as_str(), "contents/concat.mp4"));
        args.push(owned("--concat"));
        args.push(owned("--negkey"));
        args.push(keyed("PNmpegC", self.job_id));
        args.push(owned("--negotiator"));
        args.push(owned("PNdloadworker"));
        args.push(owned("--negver"));
        args.push(owned("1"));
        proof {
            assert(string_views(args@) =~= concat_arguments(self.directory@, self.job_id as nat));
        }
        args
    }
}

impl UploadTask {
    /// The arguments for the helper that uploads.
    pub fn upload_args(&self) -> (r: Vec<String>)
        ensures
            string_views(r@) == upload_arguments(
                self.directory@,
                self.out_name@,
                self.job_id as nat,
            ),
    {
        let mut args: Vec<String> = Vec::new();
        args.push(owned("--link"));
        args.push(path_in(self.directory.as_str(), "work/output.mp4"));
        args.push(owned("--opcode"));
        args.push(self.out_name.clone());
        args.push(owned("--drive"));
        args.push(owned("--env"));
        args.push(owned("env.pandora"));
        args.push(owned("--negkey"));
        args.push(keyed("PNcurlG", self.job_id));
        args.push(owned("--negotiator"));
        args.push(owned("PNuloadworker"));
        args.push(owned("--negver"));
        args.push(owned("1"));
        proof {
            assert(string_views(args@) =~= upload_arguments(
                self.directory@,
                self.out_name@,
                self.job_id as nat,
            ));
        }
        args
    }
}

/// A count of bytes, given as text, in whole mebibytes. Text that is no number
/// counts as one byte.
pub open spec fn megabytes(s: Seq<char>) -> nat {
    let bytes = match parse_unsigned(s, u64::MAX as nat) {
        Some(v) => v,
        None => 1,
    };
    bytes / 1024 / 1024
}

/// A count of bytes, given as text, in whole mebibytes.
pub fn string_byte_to_mb(str: &String) -> (r: u64)
    ensures
        r == megabytes(str@),
{
    let bytes: u64 = match parse_u64(&chars_of(str.as_str())) {
        Some(v) => v,
        None => 1,
    };
    bytes / 1024 / 1024
}

/// A link with the tokens of `/`, `:` and `%` turned back into the characters,
/// in this order.
pub open spec fn normalized(s: Seq<char>) -> Seq<char> {
    replaced(
        replaced(replaced(s, tok_slash(), seq!['/']), tok_colon(), seq![':']),
        tok_percent(),
        seq!['%'],
    )
}

/// Turns the tokens of `/`, `:` and `%` in a link back into the characters.
pub fn normalize(str: &String) -> (r: String)
    ensures
        r@ == normalized(str@),
{
    let slash = chars_of("?PNslash?");
    let colon = chars_of("?PNcolon?");
    let percent = chars_of("?PNpercent?");
    proof {
        reveal_strlit("?PNslash?");
        reveal_strlit("?PNcolon?");
        reveal_strlit("?PNpercent?");
        assert(slash@ =~= tok_slash());
        assert(colon@ =~= tok_colon());
        assert(percent@ =~= tok_percent());
    }
    let mut one: Vec<char> = Vec::new();
    one.push('/');
    proof {
        assert(one@ =~= seq!['/']);
    }
    let a = replace_all(&chars_of(str.as_str()), &slash, &one);
    one.set(0, ':');
    proof {
        assert(one@ =~= seq![':']);
    }
    let b = replace_all(&a, &colon, &one);
    one.set(0, '%');
    proof {
        assert(one@ =~= seq!['%']);
    }
    let c = replace_all(&b, &percent, &one);
    string_of(&c)
}

/// The progress text of the torrent download. The operands are the percentage
/// and the bytes downloaded and in all.
pub open spec fn torrent_progress(ops: Seq<Seq<char>>) -> Seq<char> {
    TORRENT_PROG@ + seq![' '] + operand(ops, 0) + seq!['%', ' '] + decimal(
        megabytes(operand(ops, 1)),
    ) + seq!['M', 'B', '/'] + decimal(megabytes(operand(ops, 2))) + seq!['M', 'B']
}

/// The progress text of an encoder pass, the `phase`-th of `phases`. The
/// operands are the frames per second, the frames done and in all, and the
/// bitrate.
pub open spec fn encode_progress(phase: nat, phases: nat, ops: Seq<Seq<char>>) -> Seq<char> {
    ENCODE_PROG@ + "\nAşama: "@ + decimal(phase) + seq!['/'] + decimal(phases)
        + "\nİşlenen kare: "@ + operand(ops, 1) + seq!['/'] + operand(ops, 2)
        + "\nSaniye başına işlenen kare: "@ + operand(ops, 0)
        + " \nSaniye başına ortalama veri: "@ + operand(ops, 3) + "kbit/s"@
}

/// The progress text of the upload. The operands are the bytes sent and in all.
pub open spec fn upload_progress(ops: Seq<Seq<char>>) -> Seq<char> {
    UPLOAD_PROG@ + seq![' '] + decimal(megabytes(operand(ops, 0))) + seq!['/'] + decimal(
        megabytes(operand(ops, 1)),
    )
}

/// The text sent when the upload has failed: where the output was left.
pub open spec fn upload_failure(directory: Seq<char>) -> Seq<char> {
    UPLOAD_FAIL@ + seq![' '] + child_path(directory, "work/output.mp4"@)
}

/// The text sent when the upload is done: the link, normalized.
pub open spec fn upload_success(link: Seq<char>) -> Seq<char> {
    UPLOAD_DONE@ + seq![' '] + normalized(link)
}


/// An event that ends the task with the given text and stage.
pub open spec fn ending(text: Seq<char>, stage: Stage) -> ReactionView {
    ReactionView { emit: Some((text, Some(stage))), effect: Effect::Nothing, next: Next::Finished }
}

/// An event that only reports progress.
pub open spec fn reporting(text: Seq<char>) -> ReactionView {
    ReactionView { emit: Some((text, None)), effect: Effect::Nothing, next: Next::Continue }
}

/// The text sent when a pass has failed.
pub open spec fn failure_text(pass: Pass, directory: Seq<char>) -> Seq<char> {
    match pass {
        Pass::Fetch => CTORRENT_FAIL@,
        Pass::Torrent => TORRENT_FAIL@,
        Pass::Encode => ENCODE_FAIL@,
        Pass::Concat => ENCODE_FAIL@,
        Pass::Upload => upload_failure(directory),
    }
}

/// What is done on an outcome that the helper of `pass` reports for a job whose
/// files are in `directory`; `with_concat` says whether the job's preset asks
/// for an intro.
///
/// Progress is passed on as text. A failure ends the task with the stage
/// `Failed`, a cancellation with the stage `Cancelled`. When the helper is done:
/// after the metadata and after the first encoder pass its exit is awaited;
/// after the torrent the download is adopted and the job is `Downloaded`;
/// after the intro the job is `Encoded`; after the upload it is `Uploaded`.
pub open spec fn reaction_to(
    pass: Pass,
    directory: Seq<char>,
    with_concat: bool,
    outcome: OutcomeView,
) -> ReactionView {
    match outcome {
        OutcomeView::Fail => ending(failure_text(pass, directory), Stage::Failed),
        OutcomeView::Cancelled => ending(JOB_CANCELLED@, Stage::Cancelled),
        OutcomeView::Progress(ops) => match pass {
            Pass::Fetch => ReactionView {
                emit: None,
                effect: Effect::Nothing,
                next: Next::Continue,
            },
            Pass::Torrent => reporting(torrent_progress(ops)),
            Pass::Encode => reporting(
                encode_progress(
                    1,
                    if with_concat {
                        2
                    } else {
                        1
                    },
                    ops,
                ),
            ),
            Pass::Concat => reporting(encode_progress(2, 2, ops)),
            Pass::Upload => reporting(upload_progress(ops)),
        },
        OutcomeView::Done(text) => match pass {
            Pass::Fetch => ReactionView {
                emit: Some((CTORRENT_DONE@, None)),
                effect: Effect::Nothing,
                next: Next::AwaitExit,
            },
            Pass::Torrent => ReactionView {
                emit: Some((TORRENT_DONE@, Some(Stage::Downloaded))),
                effect: Effect::AdoptDownload,
                next: Next::Finished,
            },
            Pass::Encode => ReactionView {
                emit: None,
                effect: Effect::Nothing,
                next: Next::AwaitExit,
            },
            Pass::Concat => ending(ENCODE_DONE@, Stage::Encoded),
            Pass::Upload => ending(upload_success(text), Stage::Uploaded),
        },
    }
}

/// What is done when the helper of `pass` has exited before the task was
/// finished. `done_seen` says whether the helper had reported that it was done,
/// `success` whether it exited with the code 0.
///
/// A helper that did both lets the metadata pass go on to the torrent, and the
/// first encoder pass go on to the intro or, where the preset asks for none,
/// promote its output and make the job `Encoded`. Every other exit ends the task
/// with the stage `Failed`.
pub open spec fn reaction_to_exit(
    pass: Pass,
    directory: Seq<char>,
    with_concat: bool,
    done_seen: bool,
    success: bool,
) -> ReactionView {
    if done_seen && success && pass == Pass::Fetch {
        ReactionView { emit: None, effect: Effect::Nothing, next: Next::Start(Pass::Torrent) }
    } else if done_seen && success && pass == Pass::Encode {
        if with_concat {
            ReactionView { emit: None, effect: Effect::Nothing, next: Next::Start(Pass::Concat) }
        } else {
            ReactionView {
                emit: Some((ENCODE_DONE@, Some(Stage::Encoded))),
                effect: Effect::PromoteOutput,
                next: Next::Finished,
            }
        }
    } else {
        ending(failure_text(pass, directory), Stage::Failed)
    }
}

fn event(job_id: u64, message: Vec<char>, stage: Option<Stage>) -> (r: CommEvent)
    ensures
        r.job_id == job_id,
        r.message@ == message@,
        r.stage == stage,
{
    CommEvent { job_id, message: string_of(&message), stage }
}

fn failure_message(pass: Pass, directory: &str) -> (r: Vec<char>)
    ensures
        r@ == failure_text(pass, directory@),
{
    match pass {
        Pass::Fetch => chars_of(CTORRENT_FAIL),
        Pass::Torrent => chars_of(TORRENT_FAIL),
        Pass::Encode => chars_of(ENCODE_FAIL),
        Pass::Concat => chars_of(ENCODE_FAIL),
        Pass::Upload => {
            let mut out = chars_of(UPLOAD_FAIL);
            out.push(' ');
            let path = path_in(directory, "work/output.mp4");
            extend_chars(&mut out, &chars_of(path.as_str()));
            proof {
                assert(out@ =~= upload_failure(directory@));
            }
            out
        },
    }
}

fn push_megabytes(out: &mut Vec<char>, ops: &Vec<String>, j: usize)
    ensures
        final(out)@ == old(out)@ + decimal(megabytes(operand(string_views(ops@), j as int))),
{
    let text = string_of(&operand_at(ops, j));
    push_decimal(out, string_byte_to_mb(&text));
}

fn torrent_progress_text(ops: &Vec<String>) -> (r: Vec<char>)
    ensures
        r@ == torrent_progress(string_views(ops@)),
{
    let mut out = chars_of(TORRENT_PROG);
    out.push(' ');
    extend_chars(&mut out, &operand_at(ops, 0));
    out.push('%');
    out.push(' ');
    push_megabytes(&mut out, ops, 1);
    out.push('M');
    out.push('B');
    out.push('/');
    push_megabytes(&mut out, ops, 2);
    out.push('M');
    out.push('B');
    proof {
        assert(out@ =~= torrent_progress(string_views(ops@)));
    }
    out
}

fn encode_progress_text(phase: u8, phases: u8, ops: &Vec<String>) -> (r: Vec<char>)
    ensures
        r@ == encode_progress(phase as nat, phases as nat, string_views(ops@)),
{
    let mut out = chars_of(ENCODE_PROG);
    extend_chars(&mut out, &chars_of("\nAşama: "));
    push_decimal(&mut out, phase as u64);
    out.push('/');
    push_decimal(&mut out, phases as u64);
    extend_chars(&mut out, &chars_of("\nİşlenen kare: "));
    extend_chars(&mut out, &operand_at(ops, 1));
    out.push('/');
    extend_chars(&mut out, &operand_at(ops, 2));
    extend_chars(&mut out, &chars_of("\nSaniye başına işlenen kare: "));
    extend_chars(&mut out, &operand_at(ops, 0));
    extend_chars(&mut out, &chars_of(" \nSaniye başına ortalama veri: "));
    extend_chars(&mut out, &operand_at(ops, 3));
    extend_chars(&mut out, &chars_of("kbit/s"));
    proof {
        assert(out@ =~= encode_progress(phase as nat, phases as nat, string_views(ops@)));
    }
    out
}

fn upload_progress_text(ops: &Vec<String>) -> (r: Vec<char>)
    ensures
        r@ == upload_progress(string_views(ops@)),
{
    let mut out = chars_of(UPLOAD_PROG);
    out.push(' ');
    push_megabytes(&mut out, ops, 0);
    out.push('/');
    push_megabytes(&mut out, ops, 1);
    proof {
        assert(out@ =~= upload_progress(string_views(ops@)));
    }
    out
}

/// Decides what to do on an outcome that the helper of `pass` has reported.
pub fn react(pass: Pass, job_id: u64, directory: &str, with_concat: bool, outcome: &Outcome) -> (r:
    Reaction)
    ensures
        r@ == reaction_to(pass, directory@, with_concat, outcome@),
        r.emit matches Some(e) ==> e.job_id == job_id,
{
    match outcome {
        Outcome::Fail => Reaction {
            emit: Some(event(job_id, failure_message(pass, directory), Some(Stage::Failed))),
            effect: Effect::Nothing,
            next: Next::Finished,
        },
        Outcome::Cancelled => Reaction {
            emit: Some(event(job_id, chars_of(JOB_CANCELLED), Some(Stage::Cancelled))),
            effect: Effect::Nothing,
            next: Next::Finished,
        },
        Outcome::Progress(ops) => {
            let text = match pass {
                Pass::Fetch => {
                    return Reaction { emit: None, effect: Effect::Nothing, next: Next::Continue };
                },
                Pass::Torrent => torrent_progress_text(ops),
                Pass::Encode => encode_progress_text(
                    1,
                    if with_concat {
                        2
                    } else {
                        1
                    },
                    ops,
                ),
                Pass::Concat => encode_progress_text(2, 2, ops),
                Pass::Upload => upload_progress_text(ops),
            };
            Reaction {
                emit: Some(event(job_id, text, None)),
                effect: Effect::Nothing,
                next: Next::Continue,
            }
        },
        Outcome::Done(text) => match pass {
            Pass::Fetch => Reaction {
                emit: Some(event(job_id, chars_of(CTORRENT_DONE), None)),
                effect: Effect::Nothing,
                next: Next::AwaitExit,
            },
            Pass::Torrent => Reaction {
                emit: Some(event(job_id, chars_of(TORRENT_DONE), Some(Stage::Downloaded))),
                effect: Effect::AdoptDownload,
                next: Next::Finished,
            },
            Pass::Encode => Reaction {
                emit: None,
                effect: Effect::Nothing,
                next: Next::AwaitExit,
            },
            Pass::Concat => Reaction {
                emit: Some(event(job_id, chars_of(ENCODE_DONE), Some(Stage::Encoded))),
                effect: Effect::Nothing,
                next: Next::Finished,
            },
            Pass::Upload => {
                let mut message = chars_of(UPLOAD_DONE);
                message.push(' ');
                let link = normalize(text);
                extend_chars(&mut message, &chars_of(link.as_str()));
                proof {
                    assert(message@ =~= upload_success(text@));
                }
                Reaction {
                    emit: Some(event(job_id, message, Some(Stage::Uploaded))),
                    effect: Effect::Nothing,
                    next: Next::Finished,
                }
            },
        },
    }
}

/// Decides what to do when the helper of `pass` has exited before the task
/// was finished.
pub fn react_to_exit(
    pass: Pass,
    job_id: u64,
    directory: &str,
    with_concat: bool,
    done_seen: bool,
    success: bool,
) -> (r: Reaction)
    ensures
        r@ == reaction_to_exit(pass, directory@, with_concat, done_seen, success),
        r.emit matches Some(e) ==> e.job_id == job_id,
{
    if done_seen && success && pass == Pass::Fetch {
        Reaction { emit: None, effect: Effect::Nothing, next: Next::Start(Pass::Torrent) }
    } else if done_seen && success && pass == Pass::Encode {
        if with_concat {
            Reaction { emit: None, effect: Effect::Nothing, next: Next::Start(Pass::Concat) }
        } else {
            Reaction {
                emit: Some(event(job_id, chars_of(ENCODE_DONE), Some(Stage::Encoded))),
                effect: Effect::PromoteOutput,
                next: Next::Finished,
            }
        }
    } else {
        Reaction {
            emit: Some(event(job_id, failure_message(pass, directory), Some(Stage::Failed))),
            effect: Effect::Nothing,
            next: Next::Finished,
        }
    }
}

/// One run of a helper for a task, as the worker follows it.
#[derive(Debug)]
pub struct Run {
    pub pass: Pass,
    pub job_id: u64,
    pub directory: String,
    /// Whether the job's preset asks for an intro.
    pub with_concat: bool,
    /// Whether the helper's handshake has been accepted.
    pub negotiated: bool,
    /// Whether the helper has reported that it is done.
    pub done_seen: bool,
    /// Whether the run is over.
    pub finished: bool,
}

impl Run {
    /// The run of `pass` before the helper has said anything.
    pub fn start(pass: Pass, job_id: u64, directory: &str, with_concat: bool) -> (r: Run)
        ensures
            r.pass == pass,
            r.job_id == job_id,
            r.directory@ == directory@,
            r.with_concat == with_concat,
            !r.negotiated && !r.done_seen && !r.finished,
    {
        Run {
            pass,
            job_id,
            directory: owned(directory),
            with_concat,
            negotiated: false,
            done_seen: false,
            finished: false,
        }
    }

    /// Takes a line of the helper's output and decides what to do on it. Until
    /// a handshake has been accepted each line is tried as one, and the
    /// handshake that is accepted records its key in the session; after that
    /// each line is read as a frame under the keys of the session. Once the task
    /// is over nothing is read and nothing is done.
    pub fn on_line(&mut self, proto: &mut Protocol, line: &str) -> (r: Option<Reaction>)
        ensures
            final(self).pass == old(self).pass,
            final(self).job_id == old(self).job_id,
            final(self).directory@ == old(self).directory@,
            final(self).with_concat == old(self).with_concat,
            final(proto).supported@ == old(proto).supported@,
            old(self).finished ==> r is None && final(self).finished && final(self).done_seen
                == old(self).done_seen && final(self).negotiated == old(self).negotiated
                && *final(proto) == *old(proto),
            !old(self).finished ==> match line_outcome(
                old(proto).keys(),
                old(self).negotiated,
                line@,
            ) {
                Some(outcome) => r is Some && r->0@ == reaction_to(
                    old(self).pass,
                    old(self).directory@,
                    old(self).with_concat,
                    outcome,
                ) && (r->0.emit is Some ==> r->0.emit->0.job_id == old(self).job_id),
                None => r is None,
            },
            !old(self).finished ==> final(self).finished == (r is Some && r->0.next
                == Next::Finished) && final(self).done_seen == (old(self).done_seen || (r is Some
                && r->0.next == Next::AwaitExit)),
            !old(self).finished && old(self).negotiated ==> final(self).negotiated && *final(proto)
                == *old(proto),
            !old(self).finished && !old(self).negotiated ==> final(self).negotiated
                == negotiation_of(line@, old(proto).supported@) is Ok,
            !old(self).finished && !old(self).negotiated ==> match negotiation_of(
                line@,
                old(proto).supported@,
            ) {
                Ok((key, entry)) => final(proto).table() == old(proto).table().insert(key, entry)
                    && final(proto).keys() == old(proto).keys().insert(key),
                Err(_) => *final(proto) == *old(proto),
            },
    {
        if self.finished {
            return None;
        }
        match read_line(proto, &mut self.negotiated, line) {
            None => None,
            Some(outcome) => {
                let reaction = react(
                    self.pass,
                    self.job_id,
                    self.directory.as_str(),
                    self.with_concat,
                    &outcome,
                );
                if reaction.next == Next::Finished {
                    self.finished = true;
                } else if reaction.next == Next::AwaitExit {
                    self.done_seen = true;
                }
                Some(reaction)
            },
        }
    }

    /// Takes the helper's exit and decides what to do on it. The task is over
    /// afterwards, unless the next pass is to be started. Nothing is done where
    /// the task was over already.
    pub fn on_exit(&mut self, success: bool) -> (r: Option<Reaction>)
        ensures
            final(self).pass == old(self).pass,
            final(self).job_id == old(self).job_id,
            final(self).directory@ == old(self).directory@,
            final(self).with_concat == old(self).with_concat,
            final(self).negotiated == old(self).negotiated,
            final(self).done_seen == old(self).done_seen,
            final(self).finished,
            old(self).finished ==> r is None,
            !old(self).finished ==> r is Some && r->0@ == reaction_to_exit(
                old(self).pass,
                old(self).directory@,
                old(self).with_concat,
                old(self).done_seen,
                success,
            ) && (r->0.emit is Some ==> r->0.emit->0.job_id == old(self).job_id),
    {
        if self.finished {
            return None;
        }
        self.finished = true;
        Some(
            react_to_exit(
                self.pass,
                self.job_id,
                self.directory.as_str(),
                self.with_concat,
                self.done_seen,
                success,
            ),
        )
    }
}

/// The stage that a reaction sends, if it sends one.
pub open spec fn stage_sent(r: ReactionView) -> Option<Stage> {
    match r.emit {
        Some(e) => e.1,
        None => None,
    }
}

/// A reaction sends a stage exactly when it ends the task. A cancellation
/// always ends the task, with the stage `Cancelled`; and `Downloaded` is sent
/// only when the helper has reported that it is done.
pub proof fn lemma_reactions_end_once(
    pass: Pass,
    directory: Seq<char>,
    with_concat: bool,
    outcome: OutcomeView,
)
    ensures
        (reaction_to(pass, directory, with_concat, outcome).next == Next::Finished) == (stage_sent(
            reaction_to(pass, directory, with_concat, outcome),
        ) is Some),
        outcome is Cancelled ==> stage_sent(reaction_to(pass, directory, with_concat, outcome))
            == Some(Stage::Cancelled),
        stage_sent(reaction_to(pass, directory, with_concat, outcome)) == Some(Stage::Downloaded)
            ==> outcome is Done,
{
}

/// What is done on a helper's exit sends a stage exactly when it ends the
/// task, and otherwise starts the next pass and sends nothing.
pub proof fn lemma_exits_end_once(
    pass: Pass,
    directory: Seq<char>,
    with_concat: bool,
    done_seen: bool,
    success: bool,
)
    ensures
        ({
            let r = reaction_to_exit(pass, directory, with_concat, done_seen, success);
            &&& (r.next == Next::Finished) == (stage_sent(r) is Some)
            &&& r.next != Next::Finished ==> r.emit is None && (r.next == Next::Start(
                Pass::Torrent,
            ) || r.next == Next::Start(Pass::Concat))
            &&& stage_sent(r) != Some(Stage::Downloaded)
        }),
{
}


/// `a` comes before `b`, or is `b`, in the order of a sorted listing:
/// character by character, the shorter of two texts first where one starts
/// the other.
pub open spec fn text_le(a: Seq<char>, b: Seq<char>) -> bool
    decreases a.len(),
{
    if a.len() == 0 {
        true
    } else if b.len() == 0 {
        false
    } else if a[0] != b[0] {
        a[0] < b[0]
    } else {
        text_le(a.skip(1), b.skip(1))
    }
}

proof fn lemma_text_le_total(a: Seq<char>, b: Seq<char>)
    ensures
        text_le(a, b) || text_le(b, a),
    decreases a.len(),
{
    if a.len() > 0 && b.len() > 0 && a[0] == b[0] {
        lemma_text_le_total(a.skip(1), b.skip(1));
    }
}

proof fn lemma_text_le_transitive(a: Seq<char>, b: Seq<char>, c: Seq<char>)
    requires
        text_le(a, b),
        text_le(b, c),
    ensures
        text_le(a, c),
    decreases a.len(),
{
    if a.len() > 0 && b.len() > 0 && c.len() > 0 {
        if a[0] == b[0] && b[0] == c[0] {
            lemma_text_le_transitive(a.skip(1), b.skip(1), c.skip(1));
        }
    }
}

fn text_le_exec(a: &Vec<char>, b: &Vec<char>) -> (r: bool)
    ensures
        r == text_le(a@, b@),
{
    let mut i: usize = 0;
    proof {
        assert(a@.skip(0) =~= a@);
        assert(b@.skip(0) =~= b@);
    }
    while i < a.len() && i < b.len()
        invariant
            i <= a.len(),
            i <= b.len(),
            text_le(a@, b@) == text_le(a@.skip(i as int), b@.skip(i as int)),
        decreases a.len() - i,
    {
        proof {
            assert(a@.skip(i as int)[0] == a@[i as int]);
            assert(b@.skip(i as int)[0] == b@[i as int]);
            assert(a@.skip(i as int).skip(1) =~= a@.skip(i + 1));
            assert(b@.skip(i as int).skip(1) =~= b@.skip(i + 1));
        }
        if a[i] != b[i] {
            return a[i] < b[i];
        }
        i += 1;
    }
    i == a.len()
}

/// `best` is the place of the download among the files found: its name is the
/// first of a sorted listing, and of equal names it stands first.
pub open spec fn is_download(entries: Seq<String>, best: int) -> bool {
    &&& 0 <= best < entries.len()
    &&& forall|j: int| 0 <= j < entries.len() ==> text_le(entries[best]@, (#[trigger] entries[j])@)
    &&& forall|j: int| 0 <= j < best ==> !text_le((#[trigger] entries[j])@, entries[best]@)
}

/// Which of the files found in the download directory is taken as the
/// download: the first of a sorted listing, and of equal names the one found
/// first. Nothing is taken from an empty directory.
pub fn select_download(entries: &Vec<String>) -> (r: Option<usize>)
    ensures
        entries@.len() == 0 ==> r is None,
        entries@.len() > 0 ==> r is Some && is_download(entries@, r->0 as int),
{
    if entries.len() == 0 {
        return None;
    }
    let mut best: usize = 0;
    let mut best_chars = chars_of(entries[0].as_str());
    let mut i: usize = 1;
    proof {
        lemma_text_le_total(entries@[0]@, entries@[0]@);
    }
    while i < entries.len()
        invariant
            1 <= i <= entries.len(),
            best < i,
            best_chars@ == entries@[best as int]@,
            forall|j: int|
                0 <= j < i ==> text_le(entries@[best as int]@, (#[trigger] entries@[j])@),
            forall|j: int|
                0 <= j < best ==> !text_le((#[trigger] entries@[j])@, entries@[best as int]@),
        decreases entries.len() - i,
    {
        let candidate = chars_of(entries[i].as_str());
        if !text_le_exec(&best_chars, &candidate) {
            proof {
                lemma_text_le_total(best_chars@, candidate@);
                assert forall|j: int| 0 <= j < i + 1 implies text_le(
                    candidate@,
                    (#[trigger] entries@[j])@,
                ) by {
                    if j < i {
                        lemma_text_le_transitive(candidate@, best_chars@, entries@[j]@);
                    } else {
                        lemma_text_le_total(candidate@, candidate@);
                    }
                }
                assert forall|j: int| 0 <= j < i implies !text_le(
                    (#[trigger] entries@[j])@,
                    candidate@,
                ) by {
                    if text_le(entries@[j]@, candidate@) {
                        lemma_text_le_transitive(best_chars@, entries@[j]@, candidate@);
                    }
                }
            }
            best = i;
            best_chars = candidate;
        }
        i += 1;
    }
    Some(best)
}

/// How often the renaming of the download is tried.
pub const ADOPT_TRIES: u32 = 5;

/// The seconds waited before each try, for the torrent client to put the file
/// in place.
pub const ADOPT_WAIT_SECS: u64 = 1;

/// Which file is to be renamed at the next try, after `failed` tries have
/// failed: the download among the files found. Nothing is left to try after
/// `ADOPT_TRIES` failures, nor in an empty directory.
pub fn adoption_try(failed: u32, entries: &Vec<String>) -> (r: Option<usize>)
    ensures
        failed >= ADOPT_TRIES || entries@.len() == 0 ==> r is None,
        failed < ADOPT_TRIES && entries@.len() > 0 ==> r is Some && is_download(
            entries@,
            r->0 as int,
        ),
{
    if failed >= ADOPT_TRIES {
        None
    } else {
        select_download(entries)
    }
}

} // verus!
