use pandora_toolchain::job::{join_path, path_file_name, Job};
use pandora_toolchain::messages::{create_job_embed, get_stage_emoji, stage_colour, StageColour, QUEUED};
use pandora_toolchain::nyaaise::TorrentType;
use pandora_toolchain::stage::{JobType, Preset, Stage};
use pandora_toolchain::store::JobRow;

fn sample(job_id: u64) -> Job {
    Job::new(
        11,
        22,
        33,
        JobType::Encode,
        job_id,
        Preset::Standard(None),
        TorrentType::Link("https://nyaa.si/download/1.torrent".to_string()),
        1700000000,
        "/srv/pandora",
    )
}

#[test]
fn a_new_job_is_queued_in_its_own_directory() {
    let job = sample(44);
    assert_eq!(job.directory, "/srv/pandora/DB/11-44-1700000000");
    assert_eq!(job.ready, Stage::Queued);
    assert_eq!(job.author, 11);
    assert_eq!(job.channel_id, 22);
    assert_eq!(job.response_id, 33);
    assert_eq!(job.job_id, 44);
    assert_eq!(job.requested_at, 1700000000);
    let zero = Job::new(0, 0, 0, JobType::Encode, 0, Preset::Gpu(None), TorrentType::Link(String::new()), 0, "");
    assert_eq!(zero.directory, "/DB/0-0-0");
    let large = Job::new(u64::MAX, 0, 0, JobType::Encode, 10, Preset::Gpu(None), TorrentType::Link(String::new()), 9, ".");
    assert_eq!(large.directory, "./DB/18446744073709551615-10-9");
}

#[test]
fn jobs_with_different_ids_have_different_directories() {
    // Same author and time; the numerals 1 and 12 next to 23 and 3 would run
    // together without the hyphens.
    let a = Job::new(1, 0, 0, JobType::Encode, 23, Preset::Gpu(None), TorrentType::Link(String::new()), 5, "/b");
    let b = Job::new(12, 0, 0, JobType::Encode, 3, Preset::Gpu(None), TorrentType::Link(String::new()), 5, "/b");
    assert_eq!(a.directory, "/b/DB/1-23-5");
    assert_eq!(b.directory, "/b/DB/12-3-5");
    assert_ne!(a.directory, b.directory);
    assert_ne!(sample(1).directory, sample(2).directory);
}

#[test]
fn paths_are_joined_with_a_slash() {
    assert_eq!(join_path("/a/b", "contents"), "/a/b/contents");
    assert_eq!(join_path("", "x"), "/x");
    assert_eq!(path_file_name("/a/b/11-44-1700000000"), "11-44-1700000000");
    assert_eq!(path_file_name("plain"), "plain");
    assert_eq!(path_file_name("/a/b/"), "");
    assert_eq!(path_file_name(""), "");
}

#[test]
fn a_clone_of_a_job_is_the_job() {
    let job = sample(5);
    let copy = job.clone();
    assert_eq!(copy.directory, job.directory);
    assert_eq!(copy.job_id, job.job_id);
    assert_eq!(copy.ready, job.ready);
    assert_eq!(copy.torrent.get(), job.torrent.get());
}

#[test]
fn the_status_view_has_six_fields() {
    let mut job = sample(44);
    job.ready = Stage::Encoding;
    job.preset = Preset::Gpu(Some(1));
    let view = create_job_embed(&job, QUEUED);
    assert_eq!(view.title, "Encode İşlemi");
    assert_eq!(view.colour, StageColour::Orange);
    let fields: Vec<(&str, &str, bool)> =
        view.fields.iter().map(|f| (f.name.as_str(), f.value.as_str(), f.inline)).collect();
    assert_eq!(
        fields,
        vec![
            ("İşlem Numarası", "`44`", true),
            ("İşlem Sahibi", "<@11>", true),
            ("Durum", "Encode Ediliyor", true),
            ("Encode Preset", "Standart - Ekran kartı | İntrolu", false),
            ("Torrent Linki", "Torrent: https://nyaa.si/download/1.torrent", false),
            ("İlerleme", "\n\nİsteğiniz alındı.", false),
        ]
    );
    job.torrent = TorrentType::Magnet("magnet:?xt=1".to_string());
    job.preset = Preset::PseudoLossless(None);
    let view = create_job_embed(&job, "x");
    assert_eq!(view.fields[3].value, "Kayıpsız - İşlemci | İntrosuz");
    assert_eq!(view.fields[4].value, "Torrent: Magnet linki gösterilmiyor.");
    job.preset = Preset::Standard(Some(2));
    assert_eq!(create_job_embed(&job, "x").fields[3].value, "Standart - İşlemci | İntrolu");
}

#[test]
fn every_stage_has_a_label_and_a_colour() {
    let expected = [
        (Stage::Queued, "Sırada", StageColour::LightGrey),
        (Stage::Downloading, "İndiriliyor", StageColour::Blue),
        (Stage::Downloaded, "İndirildi", StageColour::DarkBlue),
        (Stage::Encoding, "Encode Ediliyor", StageColour::Orange),
        (Stage::Encoded, "Encode Edildi", StageColour::DarkOrange),
        (Stage::Uploading, "Yükleniyor", StageColour::Purple),
        (Stage::Uploaded, "Tamamlandı", StageColour::DarkGreen),
        (Stage::Failed, "Başarısız", StageColour::Red),
        (Stage::Declined, "Reddedildi", StageColour::Red),
        (Stage::Cancelled, "İptal Edildi", StageColour::Red),
    ];
    for (stage, label, colour) in expected {
        assert_eq!(get_stage_emoji(stage), label);
        assert_eq!(stage_colour(stage), colour);
    }
}

#[test]
fn a_job_is_stored_and_read_back() {
    let mut job = sample(44);
    job.ready = Stage::Uploading;
    job.preset = Preset::Gpu(Some(1));
    let row = JobRow::of_job(&job);
    assert_eq!(row.job_id, 44);
    assert_eq!(row.author, "11");
    assert_eq!(row.requested_at, 1700000000);
    assert_eq!(row.job_type, 1);
    assert_eq!(row.preset, 2);
    assert_eq!(row.preset_concat, Some(1));
    assert_eq!(row.link, "https://nyaa.si/download/1.torrent");
    assert_eq!(row.directory, "/srv/pandora/DB/11-44-1700000000");
    assert_eq!(row.ready, 5);
    assert_eq!(row.message_id, 33);
    assert_eq!(row.channel_id, 22);
    assert!(!row.archived);
    let back = row.to_job_metadata();
    assert_eq!(back.job_id, 44);
    assert_eq!(back.author, "11");
    assert_eq!(back.requested_at, 1700000000);
    assert_eq!(back.job_type, JobType::Encode);
    assert_eq!(back.preset, Preset::Gpu(Some(1)));
    assert_eq!(back.ready, Stage::Uploading);
    assert_eq!(back.link, row.link);
    assert_eq!(back.directory, row.directory);
    assert_eq!(back.message_id, 33);
    assert_eq!(back.channel_id, 22);
    assert!(!back.archived);
    let mut odd = row.clone();
    odd.ready = 42;
    odd.preset = 7;
    odd.archived = true;
    let back = odd.to_job_metadata();
    assert_eq!(back.ready, Stage::Failed);
    assert_eq!(back.preset, Preset::Standard(Some(0)));
    assert!(back.archived);
}
