use pandora_toolchain::curl::{ProgressReader, Req};
use pandora_toolchain::ffmpeg::{
    bundle_params, captured_bitrate, captured_fps, choose_bundle, do_encode, exit_report,
    fill_placeholders,
    Bundle, Decode, Encode, FFmpeg, FfmpegParams, Fill, ProgressTracker, TooManyPresets,
};
use pandora_toolchain::frame::{Data, TypeC};
use pandora_toolchain::probe::{
    ffprobe_frame, ffprobe_lang, frame_probe_args, language_probe_args, AudioStream,
};
use pandora_toolchain::protocol::Protocol;

fn s(t: &str) -> String {
    t.to_string()
}

#[test]
fn parameters_decode_to_a_switch_and_a_value() {
    assert_eq!(FfmpegParams::Input(s("in.mkv")).decode(), vec!["-i", "in.mkv"]);
    assert_eq!(FfmpegParams::X264Params(s("a=1")).decode(), vec!["-x264-params", "a=1"]);
    assert_eq!(FfmpegParams::BasicFilter(s("f")).decode(), vec!["-vf", "f"]);
    assert_eq!(FfmpegParams::ComplexFilter(s("f")).decode(), vec!["-filter_complex", "f"]);
    assert_eq!(FfmpegParams::Cv(s("libx264")).decode(), vec!["-c:v", "libx264"]);
    assert_eq!(FfmpegParams::Profile(s("high")).decode(), vec!["-profile:v", "high"]);
    assert_eq!(FfmpegParams::Level(s("4.1")).decode(), vec!["-level:v", "4.1"]);
    assert_eq!(FfmpegParams::Mapping(s("0:1")).decode(), vec!["-map", "0:1"]);
    assert_eq!(FfmpegParams::R(s("24")).decode(), vec!["-r", "24"]);
    assert_eq!(FfmpegParams::Quality(s("q")).decode(), vec!["-quality", "q"]);
    assert_eq!(FfmpegParams::Qp(s("1")).decode(), vec!["-qp", "1"]);
    assert_eq!(FfmpegParams::QpI(s("1")).decode(), vec!["-qp_i", "1"]);
    assert_eq!(FfmpegParams::QpP(s("1")).decode(), vec!["-qp_p", "1"]);
    assert_eq!(FfmpegParams::Tune(s("animation")).decode(), vec!["-tune", "animation"]);
    assert_eq!(FfmpegParams::Rc(s("vbr")).decode(), vec!["-rc", "vbr"]);
    assert_eq!(FfmpegParams::Bufsize(s("8M")).decode(), vec!["-bufsize", "8M"]);
    assert_eq!(FfmpegParams::Maxrate(s("4M")).decode(), vec!["-maxrate", "4M"]);
    assert_eq!(FfmpegParams::Crf(18).decode(), vec!["-crf", "18"]);
    assert_eq!(FfmpegParams::Crf(0).decode(), vec!["-crf", "0"]);
    assert_eq!(FfmpegParams::Preset(s("slow")).decode(), vec!["-preset", "slow"]);
    assert_eq!(FfmpegParams::Ca(s("aac")).decode(), vec!["-c:a", "aac"]);
    assert_eq!(FfmpegParams::Ba(s("192k")).decode(), vec!["-b:a", "192k"]);
    assert_eq!(FfmpegParams::Movflags.decode(), vec!["-movflags", "+faststart"]);
    assert_eq!(FfmpegParams::Stats.decode(), vec!["-stats"]);
    assert_eq!(FfmpegParams::NoStats.decode(), vec!["-nostats"]);
    assert_eq!(FfmpegParams::Overwrite.decode(), vec!["-y"]);
    assert_eq!(FfmpegParams::NoOverwrite.decode(), vec!["-n"]);
    assert_eq!(FfmpegParams::Progress(s("pipe:1")).decode(), vec!["-progress", "pipe:1"]);
    assert_eq!(FfmpegParams::Output(s("out.mp4")).decode(), vec!["out.mp4"]);
}

#[test]
fn an_encoder_takes_all_parameters_in_order() {
    let mut encoder = FFmpeg::new();
    assert!(encoder.out.is_empty());
    encoder.insert_param(FfmpegParams::NoStats);
    do_encode(
        &mut encoder,
        vec![FfmpegParams::Overwrite, FfmpegParams::Input(s("a")), FfmpegParams::Crf(20), FfmpegParams::Output(s("b"))],
    );
    assert_eq!(encoder.out, vec!["-nostats", "-y", "-i", "a", "-crf", "20", "b"]);
    do_encode(&mut encoder, Vec::<FfmpegParams>::new());
    assert_eq!(encoder.out.len(), 7);
    assert!(!Encode::<FfmpegParams>::run(&mut encoder));
}

#[test]
fn bundles_hold_placeholders() {
    let words = |bundle: Bundle| -> Vec<String> {
        bundle_params(bundle).iter().flat_map(|p| p.decode()).collect()
    };
    assert_eq!(
        words(Bundle::CpuSaneDefaults),
        vec![
            "-y", "-i", "INPUTFILEV", "-map", "0:v:0", "-map", "0:JPN_INDEX", "-vf",
            "ass=INPUTFILEASS", "-c:v", "libx264", "-preset", "medium", "-crf", "21", "-c:a",
            "aac", "-b:a", "192k", "-movflags", "+faststart", "-stats", "OUTFILEV",
        ]
    );
    assert_eq!(
        words(Bundle::CpuPseudoLossless)[9..15],
        ["-c:v", "libx264", "-preset", "slow", "-crf", "14"]
    );
    assert_eq!(
        words(Bundle::GpuSaneDefaults)[9..15],
        ["-c:v", "h264_nvenc", "-rc", "vbr", "-qp", "23"]
    );
    assert_eq!(
        words(Bundle::Concat),
        vec![
            "-y", "-i", "CONCATFILEV", "-i", "INPUTFILEV", "-filter_complex",
            "[0:v][0:a][1:v][1:a]concat=n=2:v=1:a=1", "-c:v", "libx264", "-crf", "20", "-c:a",
            "aac", "-b:a", "192k", "-movflags", "+faststart", "-stats", "OUTFILEV",
        ]
    );
}

#[test]
fn at_most_one_preset_may_be_asked_for() {
    assert_eq!(choose_bundle(true, false, false, false), Ok(Bundle::GpuSaneDefaults));
    assert_eq!(choose_bundle(false, true, false, true), Ok(Bundle::CpuSaneDefaults));
    assert_eq!(choose_bundle(false, false, true, false), Ok(Bundle::CpuPseudoLossless));
    assert_eq!(choose_bundle(false, false, false, true), Ok(Bundle::Concat));
    assert_eq!(choose_bundle(false, false, false, false), Ok(Bundle::CpuSaneDefaults));
    assert_eq!(choose_bundle(true, true, false, false), Err(TooManyPresets));
    assert_eq!(choose_bundle(true, false, true, false), Err(TooManyPresets));
    assert_eq!(choose_bundle(false, true, true, true), Err(TooManyPresets));
    assert_eq!(choose_bundle(true, true, true, false), Err(TooManyPresets));
}

#[test]
fn placeholders_are_filled_in() {
    let fill = Fill {
        input: s("/in.mkv"),
        output: s("/out.mp4"),
        ass: Some(s("/sub.ass")),
        subinput: None,
        audio_index: 2,
    };
    assert_eq!(fill_placeholders(FfmpegParams::Mapping(s("0:JPN_INDEX")), &fill).decode(), vec!["-map", "0:2"]);
    assert_eq!(fill_placeholders(FfmpegParams::Input(s("INPUTFILEV")), &fill).decode(), vec!["-i", "/in.mkv"]);
    assert_eq!(fill_placeholders(FfmpegParams::Input(s("CONCATFILEV")), &fill).decode(), vec!["-i", "CONCATFILEV"]);
    assert_eq!(
        fill_placeholders(FfmpegParams::BasicFilter(s("ass=INPUTFILEASS,scale")), &fill).decode(),
        vec!["-vf", "ass=/sub.ass,scale"]
    );
    assert_eq!(fill_placeholders(FfmpegParams::Output(s("OUTFILEV")), &fill).decode(), vec!["/out.mp4"]);
    assert_eq!(fill_placeholders(FfmpegParams::Cv(s("INPUTFILEV")), &fill).decode(), vec!["-c:v", "INPUTFILEV"]);
    let concat = Fill { ass: None, subinput: Some(s("/intro.mp4")), ..fill };
    assert_eq!(fill_placeholders(FfmpegParams::Input(s("CONCATFILEV")), &concat).decode(), vec!["-i", "/intro.mp4"]);
    assert_eq!(
        fill_placeholders(FfmpegParams::BasicFilter(s("ass=INPUTFILEASS")), &concat).decode(),
        vec!["-vf", "ass=INPUTFILEASS"]
    );
}

#[test]
fn progress_is_read_from_the_lines_of_the_encoder() {
    let mut tracker = ProgressTracker::new(Some(5000));
    assert_eq!((tracker.last_fps, tracker.last_frame, tracker.last_bitrate, tracker.total_frame), (0, 0, 0, 5000));
    let line = "frame=  120 fps= 23.98 q=28.0 size=    1024kB time=00:00:05.00 bitrate=1677.7kbits/s speed=1x";
    assert_eq!(captured_fps(line), Some(s("23.98")));
    assert_eq!(captured_bitrate(line), Some(s("1677.7")));
    match tracker.read_line(line, Some(23), Some(1677)) {
        Some(pandora_toolchain::ffmpeg::RpbData::Progress(fps, frame, total, bitrate)) => {
            assert_eq!((fps, frame, total, bitrate), (23, 120, 5000, 1677));
        }
        _ => panic!("expected progress"),
    }
    // A line without frames is taken note of and not reported.
    assert!(tracker.read_line("fps=30 bitrate=2000", Some(30), Some(2000)).is_none());
    assert_eq!((tracker.last_fps, tracker.last_frame, tracker.last_bitrate), (30, 120, 2000));
    // `frame=` without a number: reported with what was read before.
    match tracker.read_line("frame= ", None, None) {
        Some(pandora_toolchain::ffmpeg::RpbData::Progress(fps, frame, total, bitrate)) => {
            assert_eq!((fps, frame, total, bitrate), (30, 120, 5000, 2000));
        }
        _ => panic!("expected progress"),
    }
    // A number of frames that does not fit counts as 0.
    assert!(tracker.read_line("frame=99999999999999999999", None, None).is_some());
    assert_eq!(tracker.last_frame, 0);
    assert!(tracker.record(Some("7"), None, Some(1), false).is_none());
    assert_eq!((tracker.last_fps, tracker.last_frame, tracker.last_bitrate), (30, 7, 1));
    assert_eq!(ProgressTracker::new(None).total_frame, 0);
    assert_eq!(captured_fps("no numbers here"), None);
    assert!(matches!(exit_report(false), pandora_toolchain::ffmpeg::RpbData::Fail));
    match exit_report(true) {
        pandora_toolchain::ffmpeg::RpbData::Done(text) => assert_eq!(text, "DONE"),
        _ => panic!("expected done"),
    }
}

#[test]
fn helpers_report_in_frames() {
    let mut proto = Protocol::new(vec![1]);
    proto.negotiate("PNprotocol:a@1@1:b@1@1:K").unwrap();
    let (schema, data) = pandora_toolchain::ffmpeg::frame_of(&pandora_toolchain::ffmpeg::RpbData::Progress(24, 100, 5000, 1800));
    assert_eq!(proto.build_info_string("K", &schema, &data), Ok(s("K:0:24/100/5000/1800")));
    let (schema, data) = pandora_toolchain::ffmpeg::frame_of(&pandora_toolchain::ffmpeg::RpbData::Done(s("DONE")));
    assert_eq!(proto.build_info_string("K", &schema, &data), Ok(s("K:1:DONE")));
    let (schema, data) = pandora_toolchain::ffmpeg::frame_of(&pandora_toolchain::ffmpeg::RpbData::Fail);
    assert_eq!(proto.build_info_string("K", &schema, &data), Ok(s("K:2:0")));
    let (schema, data) = pandora_toolchain::curl::frame_of(&pandora_toolchain::curl::RpbData::Progress(10, 20));
    assert_eq!(proto.build_info_string("K", &schema, &data), Ok(s("K:0:10/20")));
    let link = "https://drive.google.com/file/d/abc/view?usp=sharing";
    let (schema, data) = pandora_toolchain::curl::frame_of(&pandora_toolchain::curl::RpbData::Done(s(link)));
    let line = proto.build_info_string("K", &schema, &data).unwrap();
    assert!(!line[4..].contains(':') && !line.contains('/'));
    match proto.extract_data(&line).unwrap() {
        TypeC::Multi(items) => match &items[1] {
            TypeC::Single(Data { value }) => assert_eq!(value, link),
            TypeC::Multi(_) => panic!("expected a leaf"),
        },
        TypeC::Single(_) => panic!("expected a node"),
    }
    let (schema, data) = pandora_toolchain::curl::frame_of(&pandora_toolchain::curl::RpbData::Fail);
    assert_eq!(proto.build_info_string("K", &schema, &data), Ok(s("K:2:0")));
}

#[test]
fn the_bytes_of_an_upload_are_counted() {
    let mut reader = ProgressReader::new(100);
    assert!(reader.read(0).is_none());
    assert_eq!(reader.sent, 0);
    match reader.read(40) {
        Some(pandora_toolchain::curl::RpbData::Progress(sent, total)) => assert_eq!((sent, total), (40, 100)),
        _ => panic!("expected progress"),
    }
    match reader.read(70) {
        Some(pandora_toolchain::curl::RpbData::Progress(sent, total)) => assert_eq!((sent, total), (110, 100)),
        _ => panic!("expected progress"),
    }
    let mut full = ProgressReader { sent: u64::MAX - 1, total: 0 };
    assert!(full.read(5).is_some());
    assert_eq!(full.sent, u64::MAX);
}

#[test]
fn an_upload_is_named_and_linked() {
    let req = Req { target: s("/d/work/output.mp4") };
    assert_eq!(req.upload_name(Some(s("1-2-3.mp4"))), "1-2-3.mp4");
    assert_eq!(req.upload_name(None), "/d/work/output.mp4");
    match Req::upload_report(Some("abc123")) {
        pandora_toolchain::curl::RpbData::Done(link) => {
            assert_eq!(link, "https://drive.google.com/file/d/abc123/view?usp=sharing")
        }
        _ => panic!("expected done"),
    }
    assert!(matches!(Req::upload_report(None), pandora_toolchain::curl::RpbData::Fail));
}

#[test]
fn the_prober_is_asked_and_answered() {
    assert_eq!(
        language_probe_args("in.mkv"),
        vec!["-v", "error", "-select_streams", "a", "-show_entries", "stream=index:stream_tags=language", "-of", "json", "in.mkv"]
    );
    assert_eq!(
        frame_probe_args("in.mkv"),
        vec!["-v", "error", "-select_streams", "v:0", "-count_packets", "-show_entries", "stream=nb_read_packets", "-of", "csv=p=0", "in.mkv"]
    );
    let streams = vec![
        AudioStream { index: 1, language: Some(s("eng")) },
        AudioStream { index: 2, language: None },
        AudioStream { index: 3, language: Some(s("jpn")) },
        AudioStream { index: 4, language: Some(s("jpn")) },
    ];
    assert_eq!(ffprobe_lang(&streams, "jpn"), Some(3));
    assert_eq!(ffprobe_lang(&streams, "und"), Some(2));
    assert_eq!(ffprobe_lang(&streams, "eng"), Some(1));
    assert_eq!(ffprobe_lang(&streams, "fra"), None);
    assert_eq!(ffprobe_lang(&vec![], "jpn"), None);
    assert_eq!(ffprobe_frame("34567\n"), Some(34567));
    assert_eq!(ffprobe_frame("  12  "), Some(12));
    assert_eq!(ffprobe_frame(""), None);
    assert_eq!(ffprobe_frame("N/A\n"), None);
    assert_eq!(ffprobe_frame("12\n13\n"), None);
}
