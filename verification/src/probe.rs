//! What is asked of the prober, and what is read from its answers.

use vstd::prelude::*;
use crate::driver::string_views;
use crate::number::{parse_u64, parse_unsigned};
use crate::text::{chars_of, owned, same_text, trim_chars, trimmed};

verus! {

/// An audio track as the prober lists it.
#[derive(Debug)]
pub struct AudioStream {
    pub index: u32,
    /// The tag that names the track's language, where there is one.
    pub language: Option<String>,
}

/// The language of a track that has no tag.
pub const UNDETERMINED: &'static str = "und";

/// The language that is looked for where none is asked for.
pub const DEFAULT_LANGUAGE: &'static str = "jpn";

/// The language of a track.
pub open spec fn language_of(stream: AudioStream) -> Seq<char> {
    match stream.language {
        Some(l) => l@,
        None => UNDETERMINED@,
    }
}

/// The position of the first track in the given language, from the `i`-th on,
/// or the number of tracks where there is none.
pub open spec fn first_in_language(streams: Seq<AudioStream>, lang: Seq<char>, i: int) -> int
    decreases streams.len() - i,
{
    if i < 0 || i >= streams.len() {
        streams.len() as int
    } else if language_of(streams[i]) == lang {
        i
    } else {
        first_in_language(streams, lang, i + 1)
    }
}

/// The arguments by which the prober is asked for the audio tracks of a file
/// and their languages.
pub open spec fn language_probe_arguments(path: Seq<char>) -> Seq<Seq<char>> {
    seq![
        "-v"@,
        "error"@,
        "-select_streams"@,
        "a"@,
        "-show_entries"@,
        "stream=index:stream_tags=language"@,
        "-of"@,
        "json"@,
        path,
    ]
}

/// The arguments by which the prober is asked for the number of video frames
/// of a file.
pub open spec fn frame_probe_arguments(path: Seq<char>) -> Seq<Seq<char>> {
    seq![
        "-v"@,
        "error"@,
        "-select_streams"@,
        "v:0"@,
        "-count_packets"@,
        "-show_entries"@,
        "stream=nb_read_packets"@,
        "-of"@,
        "csv=p=0"@,
        path,
    ]
}

/// The arguments for asking after the audio tracks of a file.
pub fn language_probe_args(path: &str) -> (r: Vec<String>)
    ensures
        string_views(r@) == language_probe_arguments(path@),
{
    let mut args: Vec<String> = Vec::new();
    args.push(owned("-v"));
    args.push(owned("error"));
    args.push(owned("-select_streams"));
    args.push(owned("a"));
    args.push(owned("-show_entries"));
    args.push(owned("stream=index:stream_tags=language"));
    args.push(owned("-of"));
    args.push(owned("json"));
    args.push(owned(path));
    proof {
        assert(string_views(args@) =~= language_probe_arguments(path@));
    }
    args
}

/// The arguments for asking after the number of video frames of a file.
pub fn frame_probe_args(path: &str) -> (r: Vec<String>)
    ensures
        string_views(r@) == frame_probe_arguments(path@),
{
    let mut args: Vec<String> = Vec::new();
    args.push(owned("-v"));
    args.push(owned("error"));
    args.push(owned("-select_streams"));
    args.push(owned("v:0"));
    args.push(owned("-count_packets"));
    args.push(owned("-show_entries"));
    args.push(owned("stream=nb_read_packets"));
    args.push(owned("-of"));
    args.push(owned("csv=p=0"));
    args.push(owned(path));
    proof {
        assert(string_views(args@) =~= frame_probe_arguments(path@));
    }
    args
}

/// The index of the first audio track in the language `f_lang`; a track
/// without a language tag counts as `und`.
pub fn ffprobe_lang(streams: &Vec<AudioStream>, f_lang: &str) -> (r: Option<u32>)
    ensures
        ({
            let i = first_in_language(streams@, f_lang@, 0);
            if i < streams@.len() {
                r == Some(streams@[i].index)
            } else {
                r is None
            }
        }),
{
    let mut i: usize = 0;
    while i < streams.len()
        invariant
            i <= streams.len(),
            first_in_language(streams@, f_lang@, 0) == first_in_language(
                streams@,
                f_lang@,
                i as int,
            ),
        decreases streams.len() - i,
    {
        let matches = match &streams[i].language {
            Some(l) => same_text(&chars_of(l.as_str()), f_lang),
            None => same_text(&chars_of(UNDETERMINED), f_lang),
        };
        if matches {
            return Some(streams[i].index);
        }
        i += 1;
    }
    None
}

/// The number of frames that the prober's answer names: the answer without the
/// white space at its ends, read as a number.
pub fn ffprobe_frame(stdout: &str) -> (r: Option<u64>)
    ensures
        match parse_unsigned(trimmed(stdout@), u64::MAX as nat) {
            Some(v) => r == Some(v as u64),
            None => r is None,
        },
{
    parse_u64(&trim_chars(&chars_of(stdout)))
}

} // verus!
