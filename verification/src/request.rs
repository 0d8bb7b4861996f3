//! The request source: what a chat event asks of the coordinator.

use vstd::prelude::*;
use crate::coordinator::CancelRequest;
use crate::job::Job;
use crate::nyaaise::{nyaaise, nyaaised, TorrentType};
use crate::stage::{JobType, Preset, Stage};
use crate::text::{chars_of, same_text, string_of, views, words, words_of};

verus! {

/// The reaction by which a user asks to stop a job.
pub const CANCEL_EMOJI: &'static str = "❌";

/// The answers to the text commands.
pub const USE_SLASH_COMMAND: &'static str = "Lütfen yeni /encode komutunu kullanın.";

pub const AUTHORIZED: &'static str =
    "Merhaba, Pandora Toolchain'e hoş geldiniz, Myisha-P.\nYetkilendirilen kullanıcı: <@";

pub const NOT_AUTHORIZED: &'static str =
    "Merhaba, Pandora Toolchain'e hoş geldiniz, Myisha-P.\nKullanıcı yetkilendirilemedi.";

/// What a text message asks for.
#[derive(Debug)]
pub enum TextCommand {
    /// An encode by the old text command; the user is pointed to the slash
    /// command.
    Encode,
    /// The permission to ask for jobs, for the principal named.
    Authorize(String),
    /// Nothing.
    Ignore,
}

/// The mathematical value of a `TextCommand`.
pub enum TextCommandView {
    Encode,
    Authorize(Seq<char>),
    Ignore,
}

impl View for TextCommand {
    type V = TextCommandView;

    open spec fn view(&self) -> TextCommandView {
        match self {
            TextCommand::Encode => TextCommandView::Encode,
            TextCommand::Authorize(who) => TextCommandView::Authorize(who@),
            TextCommand::Ignore => TextCommandView::Ignore,
        }
    }
}

/// What a text message asks for: its first word is the command; the second
/// word names the principal to authorize.
pub open spec fn command_of(content: Seq<char>) -> TextCommandView {
    let parts = words_of(content);
    if parts.len() == 0 {
        TextCommandView::Ignore
    } else if parts[0] == "!enc"@ {
        TextCommandView::Encode
    } else if (parts[0] == "!authorize"@ || parts[0] == "!auth"@) && parts.len() >= 2 {
        TextCommandView::Authorize(parts[1])
    } else {
        TextCommandView::Ignore
    }
}

/// The first word of a text message, which names its command.
pub fn command_word(content: &str) -> (r: Option<String>)
    ensures
        words_of(content@).len() == 0 ==> r is None,
        words_of(content@).len() > 0 ==> r is Some && r->0@ == words_of(content@)[0],
{
    let parts = words(content);
    if parts.len() == 0 {
        None
    } else {
        proof {
            assert(views(parts@)[0] == parts@[0]@);
        }
        Some(string_of(&parts[0]))
    }
}

/// Reads a text message.
pub fn text_command(content: &str) -> (r: TextCommand)
    ensures
        r@ == command_of(content@),
{
    let parts = words(content);
    if parts.len() == 0 {
        return TextCommand::Ignore;
    }
    proof {
        assert(views(parts@)[0] == parts@[0]@);
    }
    if same_text(&parts[0], "!enc") {
        TextCommand::Encode
    } else if (same_text(&parts[0], "!authorize") || same_text(&parts[0], "!auth"))
        && parts.len() >= 2 {
        proof {
            assert(views(parts@)[1] == parts@[1]@);
        }
        TextCommand::Authorize(string_of(&parts[1]))
    } else {
        TextCommand::Ignore
    }
}

/// The preset that a choice names: `gpu`, `standard`, or anything else for the
/// pseudo-lossless preset; no choice is the standard preset.
pub open spec fn preset_of_choice(choice: Option<Seq<char>>, concat: Option<i16>) -> Preset {
    match choice {
        None => Preset::Standard(concat),
        Some(name) => if name == "gpu"@ {
            Preset::Gpu(concat)
        } else if name == "standard"@ {
            Preset::Standard(concat)
        } else {
            Preset::PseudoLossless(concat)
        },
    }
}

/// The preset that a choice names.
pub fn preset_from_choice(choice: Option<&str>, concat: Option<i16>) -> (r: Preset)
    ensures
        r == preset_of_choice(
            match choice {
                Some(name) => Some(name@),
                None => None,
            },
            concat,
        ),
{
    match choice {
        None => Preset::Standard(concat),
        Some(name) => {
            let c = chars_of(name);
            if same_text(&c, "gpu") {
                Preset::Gpu(concat)
            } else if same_text(&c, "standard") {
                Preset::Standard(concat)
            } else {
                Preset::PseudoLossless(concat)
            }
        },
    }
}

/// The id of an intro clip from the integer that the user gave: its low 16
/// bits.
pub fn concat_id(value: i64) -> (r: i16)
    ensures
        r == value as i16,
{
    #[verifier::truncate]
    (value as i16)
}

/// The request to cancel that a reaction makes: the reaction must be the cross
/// mark and must not be the bot's own.
pub fn cancel_from_reaction(
    user_id: u64,
    bot_id: u64,
    emoji: &str,
    channel_id: u64,
    message_id: u64,
) -> (r: Option<CancelRequest>)
    ensures
        r == if user_id != bot_id && emoji@ == CANCEL_EMOJI@ {
            Some(CancelRequest { user_id, channel_id, response_id: message_id })
        } else {
            None
        },
{
    if user_id == bot_id {
        return None;
    }
    if same_text(&chars_of(emoji), CANCEL_EMOJI) {
        Some(CancelRequest { user_id, channel_id, response_id: message_id })
    } else {
        None
    }
}

/// Why a request is not taken.
#[derive(Copy, Clone, Debug, PartialEq, Eq, Structural)]
pub enum RequestError {
    Unauthorized,
    EmptyUrl,
    MissingAttachment,
}

/// The text shown for a request that is not taken.
pub fn request_error_text(error: RequestError) -> (r: &'static str)
    ensures
        r@ == match error {
            RequestError::Unauthorized => "Error: Not authorized"@,
            RequestError::EmptyUrl => "Error: Torrent URL is required"@,
            RequestError::MissingAttachment => "Error: Subtitle file is required"@,
        },
{
    match error {
        RequestError::Unauthorized => "Error: Not authorized",
        RequestError::EmptyUrl => "Error: Torrent URL is required",
        RequestError::MissingAttachment => "Error: Subtitle file is required",
    }
}

/// Whether a request can be taken: the caller must be authorized, the address
/// of the torrent must not be empty, and a subtitle must be attached. The first
/// of these that fails is reported.
pub fn check_request(authorized: bool, url: &str, has_attachment: bool) -> (r: Result<
    (),
    RequestError,
>)
    ensures
        r == if !authorized {
            Err::<(), RequestError>(RequestError::Unauthorized)
        } else if url@.len() == 0 {
            Err::<(), RequestError>(RequestError::EmptyUrl)
        } else if !has_attachment {
            Err::<(), RequestError>(RequestError::MissingAttachment)
        } else {
            Ok::<(), RequestError>(())
        },
{
    if !authorized {
        Err(RequestError::Unauthorized)
    } else if chars_of(url).len() == 0 {
        Err(RequestError::EmptyUrl)
    } else if !has_attachment {
        Err(RequestError::MissingAttachment)
    } else {
        Ok(())
    }
}

/// Whether a torrent source can be handed to the download worker: its address
/// must not be empty.
pub fn is_usable(torrent: &TorrentType) -> (r: bool)
    ensures
        r == (torrent.address().len() > 0),
{
    let address = torrent.get();
    chars_of(address.as_str()).len() > 0
}

/// The job that a request makes: an encode of the torrent that `torrent_url`
/// names, asked for at `requested_at`, with its directory below `base`.
pub fn job_from_request(
    author: u64,
    channel_id: u64,
    response_id: u64,
    job_id: u64,
    preset: Preset,
    torrent_url: &str,
    requested_at: u64,
    base: &str,
) -> (job: Job)
    ensures
        job.author == author,
        job.channel_id == channel_id,
        job.response_id == response_id,
        job.job_type == JobType::Encode,
        job.job_id == job_id,
        job.preset == preset,
        job.torrent@ == nyaaised(torrent_url@),
        job.requested_at == requested_at,
        job.ready == Stage::Queued,
        job.directory_under(base@),
{
    let torrent = nyaaise(torrent_url).0;
    Job::new(
        author,
        channel_id,
        response_id,
        JobType::Encode,
        job_id,
        preset,
        torrent,
        requested_at,
        base,
    )
}

} // verus!
