//! The encoder's command line: its parameters, the bundle chosen for a preset,
//! the placeholders filled in, and the progress read from the encoder's output.

use vstd::prelude::*;
use crate::driver::string_views;
use crate::frame::{Schema, TypeC};
use crate::number::{decimal, parse_u64, parse_unsigned, push_decimal};
use crate::p2p::{ending_frame, progress_frame};
use crate::text::{chars_of, contains_text, contains_text_exec, owned, replace_all, replaced, string_of};

verus! {

/// What the encoder reports while it runs.
#[derive(Debug)]
pub enum RpbData {
    /// Frames per second, frames done, frames in all, bitrate.
    Progress(u64, u64, u64, u64),
    Done(String),
    Fail,
}

/// Something that stands for one or more words of a command line.
pub trait Decode {
    /// The words.
    spec fn decoded(&self) -> Seq<Seq<char>>;

    fn decode(&self) -> (r: Vec<String>)
        ensures
            string_views(r@) == self.decoded(),
    ;
}

/// A parameter of the encoder.
#[derive(Debug)]
pub enum FfmpegParams {
    Input(String),
    X264Params(String),
    BasicFilter(String),
    ComplexFilter(String),
    Cv(String),
    Profile(String),
    Level(String),
    Mapping(String),
    R(String),
    Quality(String),
    Qp(String),
    QpI(String),
    QpP(String),
    Tune(String),
    Rc(String),
    Bufsize(String),
    Maxrate(String),
    Crf(u8),
    Preset(String),
    Ca(String),
    Ba(String),
    Movflags,
    Stats,
    NoStats,
    Overwrite,
    NoOverwrite,
    Progress(String),
    Output(String),
}

impl FfmpegParams {
    /// The switch that introduces the parameter; the output alone has none.
    pub open spec fn switch(&self) -> Option<Seq<char>> {
        match self {
            FfmpegParams::Input(_) => Some("-i"@),
            FfmpegParams::X264Params(_) => Some("-x264-params"@),
            FfmpegParams::BasicFilter(_) => Some("-vf"@),
            FfmpegParams::ComplexFilter(_) => Some("-filter_complex"@),
            FfmpegParams::Cv(_) => Some("-c:v"@),
            FfmpegParams::Profile(_) => Some("-profile:v"@),
            FfmpegParams::Level(_) => Some("-level:v"@),
            FfmpegParams::Mapping(_) => Some("-map"@),
            FfmpegParams::R(_) => Some("-r"@),
            FfmpegParams::Quality(_) => Some("-quality"@),
            FfmpegParams::Qp(_) => Some("-qp"@),
            FfmpegParams::QpI(_) => Some("-qp_i"@),
            FfmpegParams::QpP(_) => Some("-qp_p"@),
            FfmpegParams::Tune(_) => Some("-tune"@),
            FfmpegParams::Rc(_) => Some("-rc"@),
            FfmpegParams::Bufsize(_) => Some("-bufsize"@),
            FfmpegParams::Maxrate(_) => Some("-maxrate"@),
            FfmpegParams::Crf(_) => Some("-crf"@),
            FfmpegParams::Preset(_) => Some("-preset"@),
            FfmpegParams::Ca(_) => Some("-c:a"@),
            FfmpegParams::Ba(_) => Some("-b:a"@),
            FfmpegParams::Movflags => Some("-movflags"@),
            FfmpegParams::Stats => Some("-stats"@),
            FfmpegParams::NoStats => Some("-nostats"@),
            FfmpegParams::Overwrite => Some("-y"@),
            FfmpegParams::NoOverwrite => Some("-n"@),
            FfmpegParams::Progress(_) => Some("-progress"@),
            FfmpegParams::Output(_) => None,
        }
    }

    /// The value that follows the switch, for a parameter that has one.
    pub open spec fn value(&self) -> Option<Seq<char>> {
        match self {
            FfmpegParams::Input(a) => Some(a@),
            FfmpegParams::X264Params(a) => Some(a@),
            FfmpegParams::BasicFilter(a) => Some(a@),
            FfmpegParams::ComplexFilter(a) => Some(a@),
            FfmpegParams::Cv(a) => Some(a@),
            FfmpegParams::Profile(a) => Some(a@),
            FfmpegParams::Level(a) => Some(a@),
            FfmpegParams::Mapping(a) => Some(a@),
            FfmpegParams::R(a) => Some(a@),
            FfmpegParams::Quality(a) => Some(a@),
            FfmpegParams::Qp(a) => Some(a@),
            FfmpegParams::QpI(a) => Some(a@),
            FfmpegParams::QpP(a) => Some(a@),
            FfmpegParams::Tune(a) => Some(a@),
            FfmpegParams::Rc(a) => Some(a@),
            FfmpegParams::Bufsize(a) => Some(a@),
            FfmpegParams::Maxrate(a) => Some(a@),
            FfmpegParams::Crf(a) => Some(decimal(*a as nat)),
            FfmpegParams::Preset(a) => Some(a@),
            FfmpegParams::Ca(a) => Some(a@),
            FfmpegParams::Ba(a) => Some(a@),
            FfmpegParams::Movflags => Some("+faststart"@),
            FfmpegParams::Stats => None,
            FfmpegParams::NoStats => None,
            FfmpegParams::Overwrite => None,
            FfmpegParams::NoOverwrite => None,
            FfmpegParams::Progress(a) => Some(a@),
            FfmpegParams::Output(a) => Some(a@),
        }
    }

    fn switch_text(&self) -> (r: Option<String>)
        ensures
            match self.switch() {
                Some(s) => r matches Some(t) && t@ == s,
                None => r is None,
            },
    {
        match self {
            FfmpegParams::Input(_) => Some(owned("-i")),
            FfmpegParams::X264Params(_) => Some(owned("-x264-params")),
            FfmpegParams::BasicFilter(_) => Some(owned("-vf")),
            FfmpegParams::ComplexFilter(_) => Some(owned("-filter_complex")),
            FfmpegParams::Cv(_) => Some(owned("-c:v")),
            FfmpegParams::Profile(_) => Some(owned("-profile:v")),
            FfmpegParams::Level(_) => Some(owned("-level:v")),
            FfmpegParams::Mapping(_) => Some(owned("-map")),
            FfmpegParams::R(_) => Some(owned("-r")),
            FfmpegParams::Quality(_) => Some(owned("-quality")),
            FfmpegParams::Qp(_) => Some(owned("-qp")),
            FfmpegParams::QpI(_) => Some(owned("-qp_i")),
            FfmpegParams::QpP(_) => Some(owned("-qp_p")),
            FfmpegParams::Tune(_) => Some(owned("-tune")),
            FfmpegParams::Rc(_) => Some(owned("-rc")),
            FfmpegParams::Bufsize(_) => Some(owned("-bufsize")),
            FfmpegParams::Maxrate(_) => Some(owned("-maxrate")),
            FfmpegParams::Crf(_) => Some(owned("-crf")),
            FfmpegParams::Preset(_) => Some(owned("-preset")),
            FfmpegParams::Ca(_) => Some(owned("-c:a")),
            FfmpegParams::Ba(_) => Some(owned("-b:a")),
            FfmpegParams::Movflags => Some(owned("-movflags")),
            FfmpegParams::Stats => Some(owned("-stats")),
            FfmpegParams::NoStats => Some(owned("-nostats")),
            FfmpegParams::Overwrite => Some(owned("-y")),
            FfmpegParams::NoOverwrite => Some(owned("-n")),
            FfmpegParams::Progress(_) => Some(owned("-progress")),
            FfmpegParams::Output(_) => None,
        }
    }

    fn value_text(&self) -> (r: Option<String>)
        ensures
            match self.value() {
                Some(s) => r matches Some(t) && t@ == s,
                None => r is None,
            },
    {
        match self {
            FfmpegParams::Input(a) => Some(a.clone()),
            FfmpegParams::X264Params(a) => Some(a.clone()),
            FfmpegParams::BasicFilter(a) => Some(a.clone()),
            FfmpegParams::ComplexFilter(a) => Some(a.clone()),
            FfmpegParams::Cv(a) => Some(a.clone()),
            FfmpegParams::Profile(a) => Some(a.clone()),
            FfmpegParams::Level(a) => Some(a.clone()),
            FfmpegParams::Mapping(a) => Some(a.clone()),
            FfmpegParams::R(a) => Some(a.clone()),
            FfmpegParams::Quality(a) => Some(a.clone()),
            FfmpegParams::Qp(a) => Some(a.clone()),
            FfmpegParams::QpI(a) => Some(a.clone()),
            FfmpegParams::QpP(a) => Some(a.clone()),
            FfmpegParams::Tune(a) => Some(a.clone()),
            FfmpegParams::Rc(a) => Some(a.clone()),
            FfmpegParams::Bufsize(a) => Some(a.clone()),
            FfmpegParams::Maxrate(a) => Some(a.clone()),
            FfmpegParams::Crf(a) => {
                let mut digits: Vec<char> = Vec::new();
                push_decimal(&mut digits, *a as u64);
                proof {
                    assert(digits@ =~= decimal(*a as nat));
                }
                Some(string_of(&digits))
            },
            FfmpegParams::Preset(a) => Some(a.clone()),
            FfmpegParams::Ca(a) => Some(a.clone()),
            FfmpegParams::Ba(a) => Some(a.clone()),
            FfmpegParams::Movflags => Some(owned("+faststart")),
            FfmpegParams::Stats => None,
            FfmpegParams::NoStats => None,
            FfmpegParams::Overwrite => None,
            FfmpegParams::NoOverwrite => None,
            FfmpegParams::Progress(a) => Some(a.clone()),
            FfmpegParams::Output(a) => Some(a.clone()),
        }
    }
}

/// A word, or nothing.
pub open spec fn word(w: Option<Seq<char>>) -> Seq<Seq<char>> {
    match w {
        Some(s) => seq![s],
        None => Seq::empty(),
    }
}

impl Decode for FfmpegParams {
    /// The switch, where there is one, and then the value, where there is one.
    open spec fn decoded(&self) -> Seq<Seq<char>> {
        word(self.switch()) + word(self.value())
    }

    fn decode(&self) -> (r: Vec<String>) {
        let mut out: Vec<String> = Vec::new();
        match self.switch_text() {
            Some(s) => {
                out.push(s);
            },
            None => {},
        }
        match self.value_text() {
            Some(s) => {
                out.push(s);
            },
            None => {},
        }
        proof {
            assert(string_views(out@) =~= self.decoded());
        }
        out
    }
}

/// Something that takes parameters and runs with them.
pub trait Encode<T: Decode> {
    /// The words of the parameters taken so far.
    spec fn arguments(&self) -> Seq<Seq<char>>;

    /// How many runs have been asked of it.
    spec fn runs(&self) -> nat;

    /// Takes a parameter: its words follow those taken before. No run is made.
    fn insert_param(&mut self, param: T)
        ensures
            final(self).arguments() == old(self).arguments() + param.decoded(),
            final(self).runs() == old(self).runs(),
    ;

    /// Runs once with the parameters taken, and tells whether the run was made.
    fn run(&mut self) -> (r: bool)
        ensures
            final(self).arguments() == old(self).arguments(),
            final(self).runs() == old(self).runs() + 1,
    ;
}

/// The command line of the encoder as it is built up. Running the encoder is
/// left to the caller, who starts the program `ffmpeg` with the words in `out`
/// once a run has been asked for.
pub struct FFmpeg {
    pub out: Vec<String>,
    /// How many runs have been asked for.
    pub asked: Ghost<nat>,
}

impl FFmpeg {
    /// A command line without words, of which no run has been asked.
    pub fn new() -> (r: Self)
        ensures
            r.out@.len() == 0,
            r.asked@ == 0,
    {
        FFmpeg { out: Vec::new(), asked: Ghost(0) }
    }
}

impl<T: Decode> Encode<T> for FFmpeg {
    open spec fn arguments(&self) -> Seq<Seq<char>> {
        string_views(self.out@)
    }

    open spec fn runs(&self) -> nat {
        self.asked@
    }

    fn insert_param(&mut self, param: T) {
        let words = param.decode();
        let mut i: usize = 0;
        proof {
            assert(string_views(self.out@) + string_views(words@).take(0) =~= string_views(
                old(self).out@,
            ));
        }
        while i < words.len()
            invariant
                i <= words.len(),
                self.asked@ == old(self).asked@,
                string_views(self.out@) == string_views(old(self).out@) + string_views(
                    words@,
                ).take(i as int),
            decreases words.len() - i,
        {
            let ghost before = string_views(self.out@);
            self.out.push(words[i].clone());
            proof {
                assert(string_views(self.out@) =~= before.push(words@[i as int]@));
                assert(string_views(words@).take(i + 1) =~= string_views(words@).take(
                    i as int,
                ).push(words@[i as int]@));
            }
            i += 1;
        }
        proof {
            assert(string_views(words@).take(words@.len() as int) =~= string_views(words@));
        }
    }

    /// Takes note that a run is asked for, and makes none: it returns `false`.
    fn run(&mut self) -> (r: bool)
        returns
            false,
    {
        self.asked = Ghost(self.asked@ + 1);
        false
    }
}

/// The words of all parameters, in order.
pub open spec fn all_decoded<I: Decode>(params: Seq<I>) -> Seq<Seq<char>>
    decreases params.len(),
{
    if params.len() == 0 {
        Seq::empty()
    } else {
        all_decoded(params.drop_last()) + params.last().decoded()
    }
}

/// Hands all parameters to the encoder, in order, and then runs it once.
pub fn do_encode<T, I>(encoder: &mut T, params: Vec<I>) where T: Encode<I>, I: Decode
    ensures
        final(encoder).arguments() == old(encoder).arguments() + all_decoded(params@),
        final(encoder).runs() == old(encoder).runs() + 1,
{
    let ghost all = params@;
    let mut params = params;
    let mut taken: Ghost<Seq<I>> = Ghost(Seq::empty());
    proof {
        assert(old(encoder).arguments() + all_decoded(taken@) =~= old(encoder).arguments());
    }
    while params.len() > 0
        invariant
            taken@ + params@ == all,
            encoder.arguments() == old(encoder).arguments() + all_decoded(taken@),
            encoder.runs() == old(encoder).runs(),
        decreases params.len(),
    {
        let param = params.remove(0);
        proof {
            let next = taken@.push(param);
            assert(next.drop_last() =~= taken@);
            assert(next + params@ =~= all);
            assert(old(encoder).arguments() + all_decoded(taken@) + param.decoded()
                =~= old(encoder).arguments() + all_decoded(next));
            taken@ = next;
        }
        encoder.insert_param(param);
    }
    proof {
        assert(taken@ =~= all);
    }
    encoder.run();
}

/// The bundle of parameters that the encoder is run with.
#[derive(Copy, Clone, Debug, PartialEq, Eq, Structural)]
pub enum Bundle {
    GpuSaneDefaults,
    CpuSaneDefaults,
    CpuPseudoLossless,
    Concat,
}

/// More than one preset was asked for.
#[derive(Copy, Clone, Debug, PartialEq, Eq, Structural)]
pub struct TooManyPresets;

/// The bundle for the switches given: at most one of `gpu`, `x264` and
/// `pseudolossless` may be set; with none of them, `concat` selects the bundle
/// that joins the intro on, and otherwise the standard bundle is taken.
pub fn choose_bundle(gpu: bool, x264: bool, pseudolossless: bool, concat: bool) -> (r: Result<
    Bundle,
    TooManyPresets,
>)
    ensures
        r == if (gpu && x264) || (gpu && pseudolossless) || (x264 && pseudolossless) {
            Err::<Bundle, TooManyPresets>(TooManyPresets)
        } else if gpu {
            Ok::<Bundle, TooManyPresets>(Bundle::GpuSaneDefaults)
        } else if x264 {
            Ok::<Bundle, TooManyPresets>(Bundle::CpuSaneDefaults)
        } else if pseudolossless {
            Ok::<Bundle, TooManyPresets>(Bundle::CpuPseudoLossless)
        } else if concat {
            Ok::<Bundle, TooManyPresets>(Bundle::Concat)
        } else {
            Ok::<Bundle, TooManyPresets>(Bundle::CpuSaneDefaults)
        },
{
    let mut count: u8 = 0;
    if gpu {
        count += 1;
    }
    if x264 {
        count += 1;
    }
    if pseudolossless {
        count += 1;
    }
    if count > 1 {
        Err(TooManyPresets)
    } else if gpu {
        Ok(Bundle::GpuSaneDefaults)
    } else if x264 {
        Ok(Bundle::CpuSaneDefaults)
    } else if pseudolossless {
        Ok(Bundle::CpuPseudoLossless)
    } else if concat {
        Ok(Bundle::Concat)
    } else {
        Ok(Bundle::CpuSaneDefaults)
    }
}

/// The words of a bundle, with placeholders for what the command line names:
/// `INPUTFILEV`, `CONCATFILEV`, `INPUTFILEASS`, `JPN_INDEX` and `OUTFILEV`.
pub open spec fn bundle_words(bundle: Bundle) -> Seq<Seq<char>> {
    let encode = seq![
        "-y"@,
        "-i"@,
        "INPUTFILEV"@,
        "-map"@,
        "0:v:0"@,
        "-map"@,
        "0:JPN_INDEX"@,
        "-vf"@,
        "ass=INPUTFILEASS"@,
        "-c:v"@,
    ];
    let ending = seq![
        "-c:a"@,
        "aac"@,
        "-b:a"@,
        "192k"@,
        "-movflags"@,
        "+faststart"@,
        "-stats"@,
        "OUTFILEV"@,
    ];
    match bundle {
        Bundle::Concat => seq![
            "-y"@,
            "-i"@,
            "CONCATFILEV"@,
            "-i"@,
            "INPUTFILEV"@,
            "-filter_complex"@,
            "[0:v][0:a][1:v][1:a]concat=n=2:v=1:a=1"@,
            "-c:v"@,
            "libx264"@,
            "-crf"@,
            decimal(20),
        ] + ending,
        Bundle::GpuSaneDefaults => encode + seq!["h264_nvenc"@, "-rc"@, "vbr"@, "-qp"@, "23"@]
            + ending,
        Bundle::CpuSaneDefaults => encode + seq![
            "libx264"@,
            "-preset"@,
            "medium"@,
            "-crf"@,
            decimal(21),
        ] + ending,
        Bundle::CpuPseudoLossless => encode + seq![
            "libx264"@,
            "-preset"@,
            "slow"@,
            "-crf"@,
            decimal(14),
        ] + ending,
    }
}

fn push_param(params: &mut Vec<FfmpegParams>, param: FfmpegParams)
    ensures
        final(params)@ == old(params)@.push(param),
        all_decoded(final(params)@) == all_decoded(old(params)@) + param.decoded(),
{
    params.push(param);
    proof {
        assert(final(params)@.drop_last() =~= old(params)@);
    }
}

fn push_encode_start(params: &mut Vec<FfmpegParams>)
    ensures
        all_decoded(final(params)@) == all_decoded(old(params)@) + seq![
            "-y"@,
            "-i"@,
            "INPUTFILEV"@,
            "-map"@,
            "0:v:0"@,
            "-map"@,
            "0:JPN_INDEX"@,
            "-vf"@,
            "ass=INPUTFILEASS"@,
        ],
{
    push_param(params, FfmpegParams::Overwrite);
    push_param(params, FfmpegParams::Input(owned("INPUTFILEV")));
    push_param(params, FfmpegParams::Mapping(owned("0:v:0")));
    push_param(params, FfmpegParams::Mapping(owned("0:JPN_INDEX")));
    push_param(params, FfmpegParams::BasicFilter(owned("ass=INPUTFILEASS")));
    proof {
        assert(all_decoded(final(params)@) =~= all_decoded(old(params)@) + seq![
            "-y"@,
            "-i"@,
            "INPUTFILEV"@,
            "-map"@,
            "0:v:0"@,
            "-map"@,
            "0:JPN_INDEX"@,
            "-vf"@,
            "ass=INPUTFILEASS"@,
        ]);
    }
}

fn push_ending(params: &mut Vec<FfmpegParams>)
    ensures
        all_decoded(final(params)@) == all_decoded(old(params)@) + seq![
            "-c:a"@,
            "aac"@,
            "-b:a"@,
            "192k"@,
            "-movflags"@,
            "+faststart"@,
            "-stats"@,
            "OUTFILEV"@,
        ],
{
    push_param(params, FfmpegParams::Ca(owned("aac")));
    push_param(params, FfmpegParams::Ba(owned("192k")));
    push_param(params, FfmpegParams::Movflags);
    push_param(params, FfmpegParams::Stats);
    push_param(params, FfmpegParams::Output(owned("OUTFILEV")));
    proof {
        assert(all_decoded(final(params)@) =~= all_decoded(old(params)@) + seq![
            "-c:a"@,
            "aac"@,
            "-b:a"@,
            "192k"@,
            "-movflags"@,
            "+faststart"@,
            "-stats"@,
            "OUTFILEV"@,
        ]);
    }
}

fn push_codec(params: &mut Vec<FfmpegParams>, bundle: Bundle)
    ensures
        all_decoded(final(params)@) == all_decoded(old(params)@) + match bundle {
            Bundle::Concat => seq![
                "-filter_complex"@,
                "[0:v][0:a][1:v][1:a]concat=n=2:v=1:a=1"@,
                "-c:v"@,
                "libx264"@,
                "-crf"@,
                decimal(20),
            ],
            Bundle::GpuSaneDefaults => seq![
                "-c:v"@,
                "h264_nvenc"@,
                "-rc"@,
                "vbr"@,
                "-qp"@,
                "23"@,
            ],
            Bundle::CpuSaneDefaults => seq![
                "-c:v"@,
                "libx264"@,
                "-preset"@,
                "medium"@,
                "-crf"@,
                decimal(21),
            ],
            Bundle::CpuPseudoLossless => seq![
                "-c:v"@,
                "libx264"@,
                "-preset"@,
                "slow"@,
                "-crf"@,
                decimal(14),
            ],
        },
{
    match bundle {
        Bundle::Concat => {
            push_param(
                params,
                FfmpegParams::ComplexFilter(owned("[0:v][0:a][1:v][1:a]concat=n=2:v=1:a=1")),
            );
            push_param(params, FfmpegParams::Cv(owned("libx264")));
            push_param(params, FfmpegParams::Crf(20));
            proof {
                assert(all_decoded(final(params)@) =~= all_decoded(old(params)@) + seq![
                    "-filter_complex"@,
                    "[0:v][0:a][1:v][1:a]concat=n=2:v=1:a=1"@,
                    "-c:v"@,
                    "libx264"@,
                    "-crf"@,
                    decimal(20),
                ]);
            }
        },
        Bundle::GpuSaneDefaults => {
            push_param(params, FfmpegParams::Cv(owned("h264_nvenc")));
            push_param(params, FfmpegParams::Rc(owned("vbr")));
            push_param(params, FfmpegParams::Qp(owned("23")));
            proof {
                assert(all_decoded(final(params)@) =~= all_decoded(old(params)@) + seq![
                    "-c:v"@,
                    "h264_nvenc"@,
                    "-rc"@,
                    "vbr"@,
                    "-qp"@,
                    "23"@,
                ]);
            }
        },
        Bundle::CpuSaneDefaults => {
            push_param(params, FfmpegParams::Cv(owned("libx264")));
            push_param(params, FfmpegParams::Preset(owned("medium")));
            push_param(params, FfmpegParams::Crf(21));
            proof {
                assert(all_decoded(final(params)@) =~= all_decoded(old(params)@) + seq![
                    "-c:v"@,
                    "libx264"@,
                    "-preset"@,
                    "medium"@,
                    "-crf"@,
                    decimal(21),
                ]);
            }
        },
        Bundle::CpuPseudoLossless => {
            push_param(params, FfmpegParams::Cv(owned("libx264")));
            push_param(params, FfmpegParams::Preset(owned("slow")));
            push_param(params, FfmpegParams::Crf(14));
            proof {
                assert(all_decoded(final(params)@) =~= all_decoded(old(params)@) + seq![
                    "-c:v"@,
                    "libx264"@,
                    "-preset"@,
                    "slow"@,
                    "-crf"@,
                    decimal(14),
                ]);
            }
        },
    }
}

/// The parameters of a bundle, with placeholders for what the command line
/// names.
pub fn bundle_params(bundle: Bundle) -> (r: Vec<FfmpegParams>)
    ensures
        all_decoded(r@) == bundle_words(bundle),
{
    let mut params: Vec<FfmpegParams> = Vec::new();
    let ghost none = all_decoded(params@);
    proof {
        assert(none =~= Seq::<Seq<char>>::empty());
    }
    match bundle {
        Bundle::Concat => {
            push_param(&mut params, FfmpegParams::Overwrite);
            push_param(&mut params, FfmpegParams::Input(owned("CONCATFILEV")));
            push_param(&mut params, FfmpegParams::Input(owned("INPUTFILEV")));
        },
        _ => {
            push_encode_start(&mut params);
        },
    }
    let ghost start = all_decoded(params@);
    push_codec(&mut params, bundle);
    let ghost middle = all_decoded(params@);
    push_ending(&mut params);
    proof {
        if bundle == Bundle::Concat {
            assert(start =~= seq!["-y"@, "-i"@, "CONCATFILEV"@, "-i"@, "INPUTFILEV"@]);
        }
        assert(all_decoded(params@) =~= bundle_words(bundle));
    }
    params
}

/// What the placeholders of a bundle are filled with.
#[derive(Debug)]
pub struct Fill {
    pub input: String,
    pub output: String,
    pub ass: Option<String>,
    pub subinput: Option<String>,
    /// The index of the audio track to take.
    pub audio_index: u32,
}

/// `text` with the placeholder replaced, where there is something to replace it
/// with.
pub open spec fn filled_with(text: Seq<char>, placeholder: Seq<char>, with: Option<Seq<char>>) -> Seq<
    char,
> {
    match with {
        Some(w) => replaced(text, placeholder, w),
        None => text,
    }
}

fn fill_one(text: &String, placeholder: &str, with: &Vec<char>) -> (r: String)
    ensures
        r@ == replaced(text@, placeholder@, with@),
{
    string_of(&replace_all(&chars_of(text.as_str()), &chars_of(placeholder), with))
}

fn fill_optional(text: String, placeholder: &str, with: &Option<String>) -> (r: String)
    ensures
        r@ == filled_with(
            text@,
            placeholder@,
            match with {
                Some(w) => Some(w@),
                None => None,
            },
        ),
{
    match with {
        Some(w) => fill_one(&text, placeholder, &chars_of(w.as_str())),
        None => text,
    }
}

/// A parameter with its placeholders filled in: `JPN_INDEX` in a map by the
/// index of the audio track; `INPUTFILEV` and, where there is an intro,
/// `CONCATFILEV` in an input; `INPUTFILEASS` in a filter, where there is a
/// subtitle; `OUTFILEV` in the output. Every other parameter is kept.
pub fn fill_placeholders(param: FfmpegParams, fill: &Fill) -> (r: FfmpegParams)
    ensures
        match param {
            FfmpegParams::Mapping(a) => r matches FfmpegParams::Mapping(b) && b@ == replaced(
                a@,
                "JPN_INDEX"@,
                decimal(fill.audio_index as nat),
            ),
            FfmpegParams::Input(a) => r matches FfmpegParams::Input(b) && b@ == filled_with(
                replaced(a@, "INPUTFILEV"@, fill.input@),
                "CONCATFILEV"@,
                match fill.subinput {
                    Some(w) => Some(w@),
                    None => None,
                },
            ),
            FfmpegParams::BasicFilter(a) => r matches FfmpegParams::BasicFilter(b) && b@
                == filled_with(
                a@,
                "INPUTFILEASS"@,
                match fill.ass {
                    Some(w) => Some(w@),
                    None => None,
                },
            ),
            FfmpegParams::Output(a) => r matches FfmpegParams::Output(b) && b@ == replaced(
                a@,
                "OUTFILEV"@,
                fill.output@,
            ),
            _ => r.decoded() == param.decoded() && r.switch() == param.switch(),
        },
{
    match param {
        FfmpegParams::Mapping(a) => {
            let mut index: Vec<char> = Vec::new();
            push_decimal(&mut index, fill.audio_index as u64);
            proof {
                assert(index@ =~= decimal(fill.audio_index as nat));
            }
            FfmpegParams::Mapping(fill_one(&a, "JPN_INDEX", &index))
        },
        FfmpegParams::Input(a) => {
            let with_input = fill_one(&a, "INPUTFILEV", &chars_of(fill.input.as_str()));
            FfmpegParams::Input(fill_optional(with_input, "CONCATFILEV", &fill.subinput))
        },
        FfmpegParams::BasicFilter(a) => FfmpegParams::BasicFilter(
            fill_optional(a, "INPUTFILEASS", &fill.ass),
        ),
        FfmpegParams::Output(a) => FfmpegParams::Output(
            fill_one(&a, "OUTFILEV", &chars_of(fill.output.as_str())),
        ),
        other => other,
    }
}

/// The frame that tells the coordinator's worker what the encoder reported.
pub fn frame_of(data: &RpbData) -> (r: (Schema, TypeC))
    ensures
        match data {
            RpbData::Progress(fps, frame, total, bitrate) => r.1@ == crate::frame::Tree::Node(
                seq![
                    crate::frame::Tree::Leaf("0"@),
                    crate::frame::Tree::Node(
                        crate::p2p::operand_numerals(seq![*fps, *frame, *total, *bitrate]),
                    ),
                ],
            ) && r.0@ == crate::p2p::progress_shape(4),
            RpbData::Done(text) => r.1@ == crate::frame::Tree::Node(
                seq![crate::frame::Tree::Leaf("1"@), crate::frame::Tree::Leaf(text@)],
            ) && r.0@ == crate::p2p::ending_shape(),
            RpbData::Fail => r.1@ == crate::frame::Tree::Node(
                seq![crate::frame::Tree::Leaf("2"@), crate::frame::Tree::Leaf("0"@)],
            ) && r.0@ == crate::p2p::ending_shape(),
        },
{
    match data {
        RpbData::Progress(fps, frame, total, bitrate) => {
            let mut operands: Vec<u64> = Vec::new();
            operands.push(*fps);
            operands.push(*frame);
            operands.push(*total);
            operands.push(*bitrate);
            proof {
                assert(operands@ =~= seq![*fps, *frame, *total, *bitrate]);
            }
            progress_frame(&operands)
        },
        RpbData::Done(text) => ending_frame(crate::driver::FrameStatus::Done, text.as_str()),
        RpbData::Fail => ending_frame(crate::driver::FrameStatus::Fail, "0"),
    }
}


/// Finds the frames done in a line of the encoder's output.
pub const FRAME_PATTERN: &'static str = "frame=\\s*(\\d+)";

/// Finds the frames per second.
pub const FPS_PATTERN: &'static str = "fps=\\s*([\\d\\.]+)";

/// Finds the bitrate.
pub const BITRATE_PATTERN: &'static str = "bitrate=\\s*([\\d\\.]+)";

/// What the first group of the regular expression `pattern` holds in its
/// leftmost match in `line`; `None` where `pattern` is no regular expression,
/// where it matches nowhere in `line`, and where the group took no part in the
/// match.
pub uninterp spec fn first_group(pattern: Seq<char>, line: Seq<char>) -> Option<Seq<char>>;

/// The view of a string that may be absent.
pub open spec fn text_of(s: Option<String>) -> Option<Seq<char>> {
    match s {
        Some(t) => Some(t@),
        None => None,
    }
}

/// Finds the first group of a regular expression in a line. Rests on the regex
/// crate: `Regex::new` compiles the pattern, `Regex::captures` finds its
/// leftmost match, and `Captures::get` gives the text of the group. The result
/// depends on the pattern and the line alone.
#[verifier::external_body]
pub(crate) fn capture_first_group(pattern: &str, line: &str) -> (r: Option<String>)
    ensures
        text_of(r) == first_group(pattern@, line@),
{
    match regex::Regex::new(pattern) {
        Ok(re) => match re.captures(line) {
            Some(caps) => match caps.get(1) {
                Some(m) => Some(m.as_str().to_string()),
                None => None,
            },
            None => None,
        },
        Err(_) => None,
    }
}

/// The text after `fps=` in a line of the encoder's output.
pub fn captured_fps(line: &str) -> (r: Option<String>)
    ensures
        text_of(r) == first_group(FPS_PATTERN@, line@),
{
    capture_first_group(FPS_PATTERN, line)
}

/// The text after `bitrate=` in a line of the encoder's output.
pub fn captured_bitrate(line: &str) -> (r: Option<String>)
    ensures
        text_of(r) == first_group(BITRATE_PATTERN@, line@),
{
    capture_first_group(BITRATE_PATTERN, line)
}

/// What was last read of the encoder's progress.
#[derive(Copy, Clone, Debug, PartialEq, Eq, Structural)]
pub struct ProgressTracker {
    pub last_fps: u64,
    pub last_frame: u64,
    pub last_bitrate: u64,
    pub total_frame: u64,
}

/// The number that a text denotes, or 0 where it denotes none.
pub open spec fn count_of(text: Seq<char>) -> u64 {
    match parse_unsigned(text, u64::MAX as nat) {
        Some(v) => v as u64,
        None => 0,
    }
}

/// The tracker after a line in which the given values were found.
pub open spec fn tracker_after(
    before: ProgressTracker,
    frame: Option<Seq<char>>,
    fps: Option<u64>,
    bitrate: Option<u64>,
) -> ProgressTracker {
    ProgressTracker {
        last_frame: match frame {
            Some(text) => count_of(text),
            None => before.last_frame,
        },
        last_fps: match fps {
            Some(v) => v,
            None => before.last_fps,
        },
        last_bitrate: match bitrate {
            Some(v) => v,
            None => before.last_bitrate,
        },
        total_frame: before.total_frame,
    }
}

impl ProgressTracker {
    /// A tracker that has read nothing yet.
    pub fn new(totalframe: Option<u64>) -> (r: Self)
        ensures
            r == (ProgressTracker {
                last_fps: 0,
                last_frame: 0,
                last_bitrate: 0,
                total_frame: match totalframe {
                    Some(v) => v,
                    None => 0,
                },
            }),
    {
        ProgressTracker {
            last_fps: 0,
            last_frame: 0,
            last_bitrate: 0,
            total_frame: match totalframe {
                Some(v) => v,
                None => 0,
            },
        }
    }

    /// Takes what was found in one line: the text of the frames done, and the
    /// frames per second and the bitrate as whole numbers. What was not found
    /// stays as it was. A report is made where `has_frame` says that the line
    /// speaks of frames.
    pub fn record(
        &mut self,
        frame: Option<&str>,
        fps: Option<u64>,
        bitrate: Option<u64>,
        has_frame: bool,
    ) -> (r: Option<RpbData>)
        ensures
            *final(self) == tracker_after(
                *old(self),
                match frame {
                    Some(t) => Some(t@),
                    None => None,
                },
                fps,
                bitrate,
            ),
            has_frame ==> r == Some(
                RpbData::Progress(
                    final(self).last_fps,
                    final(self).last_frame,
                    final(self).total_frame,
                    final(self).last_bitrate,
                ),
            ),
            !has_frame ==> r is None,
    {
        match frame {
            Some(text) => {
                self.last_frame = match parse_u64(&chars_of(text)) {
                    Some(v) => v,
                    None => 0,
                };
            },
            None => {},
        }
        match fps {
            Some(v) => {
                self.last_fps = v;
            },
            None => {},
        }
        match bitrate {
            Some(v) => {
                self.last_bitrate = v;
            },
            None => {},
        }
        if has_frame {
            Some(
                RpbData::Progress(
                    self.last_fps,
                    self.last_frame,
                    self.total_frame,
                    self.last_bitrate,
                ),
            )
        } else {
            None
        }
    }

    /// Reads one line of the encoder's output. The frames done are found in the
    /// line; the frames per second and the bitrate are handed in as whole
    /// numbers. A report is made where the line holds `frame=`.
    pub fn read_line(&mut self, line: &str, fps: Option<u64>, bitrate: Option<u64>) -> (r: Option<
        RpbData,
    >)
        ensures
            *final(self) == tracker_after(*old(self), first_group(FRAME_PATTERN@, line@), fps, bitrate),
            contains_text(line@, "frame="@) ==> r == Some(
                RpbData::Progress(
                    final(self).last_fps,
                    final(self).last_frame,
                    final(self).total_frame,
                    final(self).last_bitrate,
                ),
            ),
            !contains_text(line@, "frame="@) ==> r is None,
    {
        let frame = capture_first_group(FRAME_PATTERN, line);
        let has_frame = contains_text_exec(&chars_of(line), &chars_of("frame="));
        match frame {
            Some(text) => self.record(Some(text.as_str()), fps, bitrate, has_frame),
            None => self.record(None, fps, bitrate, has_frame),
        }
    }
}

/// What is reported when the encoder has exited.
pub fn exit_report(success: bool) -> (r: RpbData)
    ensures
        success ==> (r matches RpbData::Done(text) && text@ == "DONE"@),
        !success ==> r is Fail,
{
    if success {
        RpbData::Done(owned("DONE"))
    } else {
        RpbData::Fail
    }
}

} // verus!
