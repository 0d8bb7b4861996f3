use pandora_toolchain::coordinator::{
    preset_i16_f, CancelRequest, Coordinator, Dispatch, Reconciled, QUEUE_LIMIT,
};
use pandora_toolchain::driver::{read_line, Outcome};
use pandora_toolchain::job::Job;
use pandora_toolchain::messages::{StageColour, TORRENT_FAIL};
use pandora_toolchain::nyaaise::TorrentType;
use pandora_toolchain::p2p::{ending_frame, poll_step, progress_frame, HelperAction, Poll};
use pandora_toolchain::driver::FrameStatus;
use pandora_toolchain::protocol::{Protocol, ToolInfo};
use pandora_toolchain::stage::{JobType, Preset, Stage};
use pandora_toolchain::worker::{react, react_to_exit, CommEvent, Next, Pass};

fn job(job_id: u64, preset: Preset) -> Job {
    let mut job = Job::new(
        1,
        100,
        1000 + job_id,
        JobType::Encode,
        job_id,
        preset,
        TorrentType::Link("https://nyaa.si/download/1.torrent".to_string()),
        50,
        "/base",
    );
    job.response_id = 1000 + job_id;
    job
}

fn event(job_id: u64, message: &str, stage: Option<Stage>) -> CommEvent {
    CommEvent { job_id, message: message.to_string(), stage }
}

fn stages(c: &Coordinator) -> Vec<(u64, Stage)> {
    c.queue.iter().map(|j| (j.job_id, j.ready)).collect()
}

#[test]
fn the_sixth_job_is_declined() {
    let mut c = Coordinator::new();
    assert!(c.in_order());
    assert_eq!(QUEUE_LIMIT, 5);
    for id in 1..=5 {
        assert!(c.has_room());
        assert!(c.enqueue(job(id, Preset::Standard(None))).is_ok());
    }
    assert!(!c.has_room());
    let before = stages(&c);
    match c.enqueue(job(6, Preset::Standard(None))) {
        Err(back) => {
            assert_eq!(back.job_id, 6);
            assert_eq!(back.ready, Stage::Declined);
        }
        Ok(()) => panic!("the sixth job was taken"),
    }
    assert_eq!(stages(&c), before);
    assert_eq!(before, (1..=5).map(|id| (id, Stage::Downloading)).collect::<Vec<_>>());
    // Once a job has reached an end there is room again.
    c.reconcile(&event(3, "failed", Some(Stage::Failed)));
    assert!(c.has_room());
    assert!(c.enqueue(job(6, Preset::Standard(None))).is_ok());
    assert_eq!(c.queue.len(), 5);
    assert!(c.in_order());
    c.queue[0].ready = Stage::Uploaded;
    assert!(!c.in_order());
}

#[test]
fn only_a_job_that_was_just_asked_for_is_admitted() {
    let mut c = Coordinator::new();
    for stage in [Stage::Uploaded, Stage::Downloading, Stage::Declined, Stage::Failed, Stage::Encoded] {
        let mut odd = job(1, Preset::Standard(None));
        odd.ready = stage;
        match c.enqueue(odd) {
            Err(back) => {
                assert_eq!(back.ready, stage);
                assert_eq!(back.job_id, 1);
            }
            Ok(()) => panic!("a job at {:?} was admitted", stage),
        }
        let mut odd = job(1, Preset::Standard(None));
        odd.ready = stage;
        assert!(c.admit_job(odd, "/base").is_err());
        assert!(c.queue.is_empty());
    }
}

#[test]
fn an_admitted_job_comes_with_its_plan() {
    let mut c = Coordinator::new();
    let plan = c.admit_job(job(7, Preset::Gpu(Some(1))), "/base").unwrap();
    assert_eq!(plan.directories, vec!["/base/DB/1-7-50/contents", "/base/DB/1-7-50/work"]);
    assert_eq!(plan.subtitle_path, "/base/DB/1-7-50/contents/subtitle.ass");
    assert_eq!(
        plan.concat,
        Some((
            "/base/DB/concat/somesubs.mp4".to_string(),
            "/base/DB/1-7-50/contents/concat.mp4".to_string()
        ))
    );
    assert_eq!(plan.download.job_id, 7);
    assert_eq!(stages(&c), vec![(7, Stage::Downloading)]);
    for id in 8..=11 {
        assert!(c.admit_job(job(id, Preset::Standard(None)), "/base").is_ok());
    }
    let before = stages(&c);
    match c.admit_job(job(12, Preset::Standard(None)), "/base") {
        Err(back) => {
            assert_eq!(back.job_id, 12);
            assert_eq!(back.ready, Stage::Declined);
        }
        Ok(_) => panic!("the sixth job was taken"),
    }
    assert_eq!(stages(&c), before);
    assert!(c.in_order());
}

#[test]
fn the_status_view_of_a_job_is_told_later() {
    let mut c = Coordinator::new();
    c.enqueue(job(1, Preset::Standard(None))).unwrap();
    c.enqueue(job(2, Preset::Standard(None))).unwrap();
    assert!(c.set_response_id(2, 777));
    assert!(!c.set_response_id(3, 888));
    let views: Vec<(u64, u64, Stage)> =
        c.queue.iter().map(|j| (j.job_id, j.response_id, j.ready)).collect();
    assert_eq!(views, vec![(1, 1001, Stage::Downloading), (2, 777, Stage::Downloading)]);
    let request = CancelRequest { user_id: 9, channel_id: 100, response_id: 777 };
    assert_eq!(c.cancel(&request), Some("/base/DB/1-2-50/cancel".to_string()));
}

#[test]
fn admission_is_planned_on_disk() {
    let plain = job(7, Preset::Standard(None));
    let plan = Coordinator::plan_admission(&plain, "/base");
    assert_eq!(plan.directories, vec!["/base/DB/1-7-50/contents", "/base/DB/1-7-50/work"]);
    assert_eq!(plan.subtitle_path, "/base/DB/1-7-50/contents/subtitle.ass");
    assert!(plan.concat.is_none());
    assert_eq!(plan.download.directory, "/base/DB/1-7-50");
    assert_eq!(plan.download.link, "https://nyaa.si/download/1.torrent");
    assert!(!plan.download.magnet);
    assert_eq!(plan.download.job_id, 7);
    let mut by_magnet = job(7, Preset::Standard(None));
    by_magnet.torrent = TorrentType::Magnet("magnet:?xt=1".to_string());
    let plan = Coordinator::plan_admission(&by_magnet, "/base");
    assert!(plan.download.magnet);
    assert_eq!(plan.download.link, "magnet:?xt=1");
    let with_intro = job(8, Preset::Gpu(Some(1)));
    let plan = Coordinator::plan_admission(&with_intro, "/base");
    assert_eq!(
        plan.concat,
        Some((
            "/base/DB/concat/somesubs.mp4".to_string(),
            "/base/DB/1-8-50/contents/concat.mp4".to_string()
        ))
    );
    let unknown_intro = job(9, Preset::Gpu(Some(2)));
    assert!(Coordinator::plan_admission(&unknown_intro, "/base").concat.is_none());
    assert_eq!(preset_i16_f(1), Some("somesubs.mp4".to_string()));
    assert_eq!(preset_i16_f(0), None);
}

#[test]
fn the_head_of_the_queue_is_handed_on() {
    let mut c = Coordinator::new();
    assert!(c.dispatch().is_none());
    c.enqueue(job(1, Preset::Gpu(Some(1)))).unwrap();
    c.enqueue(job(2, Preset::Standard(None))).unwrap();
    assert!(c.dispatch().is_none());
    // The second job is ready first, but only the head is handed on.
    c.reconcile(&event(2, "done", Some(Stage::Downloaded)));
    assert!(c.dispatch().is_none());
    c.reconcile(&event(1, "done", Some(Stage::Downloaded)));
    match c.dispatch() {
        Some(Dispatch::Encode(task)) => {
            assert_eq!(task.directory, "/base/DB/1-1-50");
            assert_eq!(task.preset, Preset::Gpu(Some(1)));
            assert_eq!(task.job_id, 1);
        }
        _ => panic!("expected an encode"),
    }
    assert_eq!(stages(&c), vec![(1, Stage::Encoding), (2, Stage::Downloaded)]);
    assert!(c.dispatch().is_none());
    c.reconcile(&event(1, "done", Some(Stage::Encoded)));
    match c.dispatch() {
        Some(Dispatch::Upload(task)) => {
            assert_eq!(task.directory, "/base/DB/1-1-50");
            assert_eq!(task.out_name, "1-1-50.mp4");
            assert!(!task.release);
            assert_eq!(task.job_id, 1);
        }
        _ => panic!("expected an upload"),
    }
    assert_eq!(stages(&c), vec![(1, Stage::Uploading), (2, Stage::Downloaded)]);
    match c.reconcile(&event(1, "link", Some(Stage::Uploaded))) {
        Reconciled::Edited { job_id, moved, archived, .. } => {
            assert_eq!(job_id, 1);
            assert_eq!(moved, Some(Stage::Uploaded));
            assert!(archived);
        }
        Reconciled::Unknown => panic!("the job was under way"),
    }
    assert_eq!(stages(&c), vec![(2, Stage::Downloaded)]);
    assert!(matches!(c.dispatch(), Some(Dispatch::Encode(_))));
}

#[test]
fn events_move_jobs_only_along_allowed_steps() {
    let mut c = Coordinator::new();
    c.enqueue(job(1, Preset::Standard(None))).unwrap();
    match c.reconcile(&event(1, "progress", None)) {
        Reconciled::Edited { job_id, response_id, view, moved, archived } => {
            assert_eq!((job_id, response_id, moved, archived), (1, 1001, None, false));
            assert_eq!(view.colour, StageColour::Blue);
            assert_eq!(view.fields[2].value, "İndiriliyor");
            assert_eq!(view.fields[5].value, "progress");
        }
        Reconciled::Unknown => panic!("the job was under way"),
    }
    // A step that skips a stage, one that goes back, and one that repeats.
    for stage in [Stage::Encoded, Stage::Queued, Stage::Downloading, Stage::Uploaded, Stage::Declined] {
        match c.reconcile(&event(1, "odd", Some(stage))) {
            Reconciled::Edited { moved, archived, .. } => {
                assert_eq!(moved, None);
                assert!(!archived);
            }
            Reconciled::Unknown => panic!("the job was under way"),
        }
        assert_eq!(stages(&c), vec![(1, Stage::Downloading)]);
    }
    // The view shows the stage that the job had when the event came.
    match c.reconcile(&event(1, "done", Some(Stage::Downloaded))) {
        Reconciled::Edited { view, moved, archived, .. } => {
            assert_eq!(view.fields[2].value, "İndiriliyor");
            assert_eq!(moved, Some(Stage::Downloaded));
            assert!(!archived);
        }
        Reconciled::Unknown => panic!("the job was under way"),
    }
    assert_eq!(stages(&c), vec![(1, Stage::Downloaded)]);
    assert!(matches!(c.reconcile(&event(2, "x", Some(Stage::Failed))), Reconciled::Unknown));
    assert_eq!(stages(&c), vec![(1, Stage::Downloaded)]);
}

#[test]
fn a_failed_download_is_shown_five_times_and_then_archived() {
    let mut c = Coordinator::new();
    c.enqueue(job(1, Preset::Standard(None))).unwrap();
    c.enqueue(job(2, Preset::Standard(None))).unwrap();
    let mut proto = Protocol::new(vec![1]);
    let mut negotiated = false;
    let mut edits: Vec<(String, Option<Stage>)> = Vec::new();
    let lines = [
        "PNprotocol:PNdloadworker@1@1:PNp2p@0.1.1@1:PNp2pT2",
        "PNp2pT2:0:1/1048576/104857600",
        "PNp2pT2:0:2/2097152/104857600",
        "PNp2pT2:0:3/3145728/104857600",
        "PNp2pT2:0:4/4194304/104857600",
        "PNp2pT2:0:5/5242880/104857600",
    ];
    let mut next = Next::Continue;
    for line in lines {
        if let Some(outcome) = read_line(&mut proto, &mut negotiated, line) {
            let r = react(Pass::Torrent, 2, "/base/DB/1-2-50", false, &outcome);
            next = r.next;
            let e = r.emit.unwrap();
            if let Reconciled::Edited { view, moved, .. } = c.reconcile(&e) {
                edits.push((view.fields[5].value.clone(), moved));
            }
        }
    }
    assert_eq!(next, Next::Continue);
    // The helper exits with a code other than 0.
    let r = react_to_exit(Pass::Torrent, 2, "/base/DB/1-2-50", false, false, false);
    assert_eq!(r.next, Next::Finished);
    let e = r.emit.unwrap();
    match c.reconcile(&e) {
        Reconciled::Edited { view, moved, archived, job_id, .. } => {
            assert_eq!(job_id, 2);
            assert!(archived);
            edits.push((view.fields[5].value.clone(), moved));
        }
        Reconciled::Unknown => panic!("the job was under way"),
    }
    assert_eq!(edits.len(), 6);
    for (i, (text, moved)) in edits[..5].iter().enumerate() {
        assert!(text.ends_with(&format!("İlerleme: {}% {}MB/100MB", i + 1, i + 1)));
        assert_eq!(*moved, None);
    }
    assert_eq!(edits[5], (TORRENT_FAIL.to_string(), Some(Stage::Failed)));
    // The second job has left the queue; the first is untouched.
    assert_eq!(stages(&c), vec![(1, Stage::Downloading)]);
}

#[test]
fn only_a_downloading_job_is_cancelled_by_a_sentinel() {
    let mut c = Coordinator::new();
    c.enqueue(job(1, Preset::Standard(None))).unwrap();
    c.enqueue(job(2, Preset::Standard(None))).unwrap();
    c.reconcile(&event(1, "done", Some(Stage::Downloaded)));
    let request = |channel_id, response_id| CancelRequest { user_id: 9, channel_id, response_id };
    assert_eq!(c.cancel(&request(100, 1002)), Some("/base/DB/1-2-50/cancel".to_string()));
    assert_eq!(c.cancel(&request(100, 1001)), None);
    assert_eq!(c.cancel(&request(101, 1002)), None);
    assert_eq!(c.cancel(&request(100, 5)), None);
    assert_eq!(stages(&c), vec![(1, Stage::Downloaded), (2, Stage::Downloading)]);
}

#[test]
fn a_cancelled_download_ends_once_and_is_never_downloaded() {
    let mut c = Coordinator::new();
    c.enqueue(job(4, Preset::Standard(None))).unwrap();
    // The helper: three looks with progress, then the cancel file is there.
    let mut helper = Protocol::new(vec![1]);
    let key = "PNp2pT4";
    let handshake = helper
        .request(
            ToolInfo { tool: "PNdloadworker", build: "1", proto: 1 },
            ToolInfo { tool: "PNp2p", build: "0.1.1", proto: 1 },
            key,
        )
        .unwrap();
    let mut sent_lines = vec![handshake];
    let mut last = None;
    let looks = [
        Poll { cancel_seen: false, downloaded: 10, total: 1000 },
        Poll { cancel_seen: false, downloaded: 10, total: 1000 },
        Poll { cancel_seen: false, downloaded: 200, total: 1000 },
        Poll { cancel_seen: false, downloaded: 300, total: 1000 },
        Poll { cancel_seen: true, downloaded: 1000, total: 1000 },
        Poll { cancel_seen: false, downloaded: 1000, total: 1000 },
    ];
    let mut actions = Vec::new();
    for look in looks {
        let action = poll_step(&mut last, look);
        actions.push(action);
        match action {
            HelperAction::Report { percent } => {
                let (schema, data) = progress_frame(&vec![percent, look.downloaded, look.total]);
                sent_lines.push(helper.build_info_string(key, &schema, &data).unwrap());
            }
            HelperAction::Cancel => {
                let (schema, data) = ending_frame(FrameStatus::Cancelled, "CANCELFILE");
                sent_lines.push(helper.build_info_string(key, &schema, &data).unwrap());
                break;
            }
            HelperAction::Finish => {
                let (schema, data) = ending_frame(FrameStatus::Done, "DONE");
                sent_lines.push(helper.build_info_string(key, &schema, &data).unwrap());
                break;
            }
            HelperAction::Wait => {}
        }
    }
    assert_eq!(
        actions,
        vec![
            HelperAction::Report { percent: 1 },
            HelperAction::Wait,
            HelperAction::Report { percent: 20 },
            HelperAction::Report { percent: 30 },
            HelperAction::Cancel,
        ]
    );
    assert_eq!(
        sent_lines,
        vec![
            "PNprotocol:PNdloadworker@1@1:PNp2p@0.1.1@1:PNp2pT4",
            "PNp2pT4:0:1/10/1000",
            "PNp2pT4:0:20/200/1000",
            "PNp2pT4:0:30/300/1000",
            "PNp2pT4:3:CANCELFILE",
        ]
    );
    // The worker and the coordinator.
    let mut proto = Protocol::new(vec![1]);
    let mut negotiated = false;
    let mut moves = Vec::new();
    let mut finished = false;
    for line in &sent_lines {
        assert!(!finished);
        if let Some(outcome) = read_line(&mut proto, &mut negotiated, line) {
            let cancelled = matches!(outcome, Outcome::Cancelled);
            let r = react(Pass::Torrent, 4, "/base/DB/1-4-50", false, &outcome);
            finished = r.next == Next::Finished;
            assert_eq!(finished, cancelled);
            if let Reconciled::Edited { moved, .. } = c.reconcile(&r.emit.unwrap()) {
                moves.push(moved);
            }
        }
    }
    assert_eq!(moves, vec![None, None, None, Some(Stage::Cancelled)]);
    assert!(c.queue.is_empty());
    // Whatever comes later for the job changes nothing.
    assert!(matches!(c.reconcile(&event(4, "late", Some(Stage::Downloaded))), Reconciled::Unknown));
    assert!(c.queue.is_empty());
}

#[test]
fn the_helper_looks_at_the_cancel_file_first() {
    let mut last = None;
    assert_eq!(poll_step(&mut last, Poll { cancel_seen: true, downloaded: 5, total: 5 }), HelperAction::Cancel);
    assert_eq!(last, None);
    assert_eq!(poll_step(&mut last, Poll { cancel_seen: false, downloaded: 5, total: 5 }), HelperAction::Finish);
    assert_eq!(poll_step(&mut last, Poll { cancel_seen: false, downloaded: 6, total: 5 }), HelperAction::Finish);
    assert_eq!(poll_step(&mut last, Poll { cancel_seen: false, downloaded: 0, total: 0 }), HelperAction::Wait);
    assert_eq!(poll_step(&mut last, Poll { cancel_seen: false, downloaded: 1, total: 0 }), HelperAction::Finish);
    assert_eq!(poll_step(&mut last, Poll { cancel_seen: false, downloaded: 0, total: 7 }), HelperAction::Report { percent: 0 });
    assert_eq!(last, Some(0));
    assert_eq!(poll_step(&mut last, Poll { cancel_seen: false, downloaded: 0, total: 7 }), HelperAction::Wait);
    // 1234 of 100000 bytes are 1.234 percent: twelve tenths.
    assert_eq!(
        poll_step(&mut last, Poll { cancel_seen: false, downloaded: 1234, total: 100000 }),
        HelperAction::Report { percent: 1 }
    );
    assert_eq!(last, Some(12));
    assert_eq!(poll_step(&mut last, Poll { cancel_seen: false, downloaded: 1299, total: 100000 }), HelperAction::Wait);
    assert_eq!(
        poll_step(&mut last, Poll { cancel_seen: false, downloaded: u64::MAX - 1, total: u64::MAX }),
        HelperAction::Report { percent: 99 }
    );
    assert_eq!(last, Some(999));
}
