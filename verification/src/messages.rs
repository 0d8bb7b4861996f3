//! The texts shown to users, and the status view of a job.

use vstd::prelude::*;
use crate::job::Job;
use crate::number::{decimal, push_decimal};
use crate::stage::{Preset, Stage};
use crate::text::{chars_of, extend_chars, string_of};

verus! {

/// Shown to a user whose job is declined because the queue is full. The texts
/// below are shown as the progress of a job.
pub const QUEUE_TOO_LONG: &'static str =
    "\n\nŞu anda Pandora Toolchain'de biraz sıra var. \nLütfen daha sonra tekrar deneyin.";

pub const QUEUED: &'static str = "\n\nİsteğiniz alındı.";

pub const HEADER_JOBID: &'static str = "İşlem numarası: ";

pub const HEADER_AUTID: &'static str = "\nİşlem sahibi: ";

pub const HEADER_TORRN: &'static str = "\nTorrent linki: ";

pub const HEADER_PREST: &'static str = "\nEncode preset: ";

pub const JOB_CANCELLED: &'static str = "\nİşlem iptal edildi.";

pub const CTORRENT_DONE: &'static str =
    "\n\nTorrent metadatası indirildi.\nTorrentin kendisini indiriliyor.\nİlerleme: Torrent başlatılıyor.";

pub const CTORRENT_FAIL: &'static str = "\n\nTorrent metadatası indirilemedi.\nÇıkılıyor.";

pub const TORRENT_PROG: &'static str =
    "\n\nTorrent metadatası indirildi.\nTorrentin kendisini indiriliyor.\nİlerleme:";

pub const TORRENT_DONE: &'static str =
    "\n\nTorrentin kendisi indirildi.\nUygun olunduğunda encode işlemine geçilecek.";

pub const TORRENT_FAIL: &'static str = "\n\nTorrentin kendisi indirilemedi. \nÇıkılıyor.";

pub const ENCODE_PROG: &'static str = "\n\nDosya encode ediliyor.\n";

pub const ENCODE_CONCAT_PROG: &'static str = "\n\nDosyaya intro ekleniyor.\n";

pub const ENCODE_DONE: &'static str = "\n\nDosya encode edildi.\nGDrive'a yükleniyor.";

pub const ENCODE_FAIL: &'static str = "\n\nDosya encode edilemedi. \nÇıkılıyor.";

pub const UPLOAD_PROG: &'static str = "\n\nDosya GDrive'a yükleniyor.\nİlerleme:";

pub const UPLOAD_DONE: &'static str = "\n\nDosya GDrive'a yüklendi. \nLink:";

pub const UPLOAD_FAIL: &'static str =
    "\n\nDosya GDrive'a yüklenemedi. \nÇıktı dosyası makineden 24:00'da silinecektir.\nİsterseniz dosyayı şu konumdan kendiniz alabilirsiniz:";

/// The colour of a status view.
#[derive(Copy, Clone, Debug, PartialEq, Eq, Structural)]
pub enum StageColour {
    LightGrey,
    Blue,
    DarkBlue,
    Orange,
    DarkOrange,
    Purple,
    DarkGreen,
    Red,
}

/// One named entry of a status view.
#[derive(Debug)]
pub struct StatusField {
    pub name: String,
    pub value: String,
    pub inline: bool,
}

/// What is shown for a job: a title, a colour for its stage, and six fields.
#[derive(Debug)]
pub struct StatusView {
    pub title: String,
    pub colour: StageColour,
    pub fields: Vec<StatusField>,
}

/// The colour for a stage.
pub open spec fn colour_of(stage: Stage) -> StageColour {
    match stage {
        Stage::Queued => StageColour::LightGrey,
        Stage::Downloading => StageColour::Blue,
        Stage::Downloaded => StageColour::DarkBlue,
        Stage::Encoding => StageColour::Orange,
        Stage::Encoded => StageColour::DarkOrange,
        Stage::Uploading => StageColour::Purple,
        Stage::Uploaded => StageColour::DarkGreen,
        Stage::Failed => StageColour::Red,
        Stage::Declined => StageColour::Red,
        Stage::Cancelled => StageColour::Red,
    }
}

/// The label for a stage.
pub open spec fn stage_label(stage: Stage) -> Seq<char> {
    match stage {
        Stage::Queued => "Sırada"@,
        Stage::Downloading => "İndiriliyor"@,
        Stage::Downloaded => "İndirildi"@,
        Stage::Encoding => "Encode Ediliyor"@,
        Stage::Encoded => "Encode Edildi"@,
        Stage::Uploading => "Yükleniyor"@,
        Stage::Uploaded => "Tamamlandı"@,
        Stage::Failed => "Başarısız"@,
        Stage::Declined => "Reddedildi"@,
        Stage::Cancelled => "İptal Edildi"@,
    }
}

/// The description of a preset.
pub open spec fn preset_text(preset: Preset) -> Seq<char> {
    let kind = match preset {
        Preset::PseudoLossless(_) => "Kayıpsız - İşlemci | "@,
        Preset::Gpu(_) => "Standart - Ekran kartı | "@,
        Preset::Standard(_) => "Standart - İşlemci | "@,
    };
    kind + if preset.concat_spec() is Some {
        "İntrolu"@
    } else {
        "İntrosuz"@
    }
}

/// The colour for a stage.
pub fn stage_colour(stage: Stage) -> (r: StageColour)
    ensures
        r == colour_of(stage),
{
    match stage {
        Stage::Queued => StageColour::LightGrey,
        Stage::Downloading => StageColour::Blue,
        Stage::Downloaded => StageColour::DarkBlue,
        Stage::Encoding => StageColour::Orange,
        Stage::Encoded => StageColour::DarkOrange,
        Stage::Uploading => StageColour::Purple,
        Stage::Uploaded => StageColour::DarkGreen,
        Stage::Failed => StageColour::Red,
        Stage::Declined => StageColour::Red,
        Stage::Cancelled => StageColour::Red,
    }
}

/// The label for a stage.
pub fn get_stage_emoji(stage: Stage) -> (r: &'static str)
    ensures
        r@ == stage_label(stage),
{
    match stage {
        Stage::Queued => "Sırada",
        Stage::Downloading => "İndiriliyor",
        Stage::Downloaded => "İndirildi",
        Stage::Encoding => "Encode Ediliyor",
        Stage::Encoded => "Encode Edildi",
        Stage::Uploading => "Yükleniyor",
        Stage::Uploaded => "Tamamlandı",
        Stage::Failed => "Başarısız",
        Stage::Declined => "Reddedildi",
        Stage::Cancelled => "İptal Edildi",
    }
}

/// The description of a preset.
pub fn describe_preset(preset: Preset) -> (r: String)
    ensures
        r@ == preset_text(preset),
{
    let mut out = match preset {
        Preset::PseudoLossless(_) => chars_of("Kayıpsız - İşlemci | "),
        Preset::Gpu(_) => chars_of("Standart - Ekran kartı | "),
        Preset::Standard(_) => chars_of("Standart - İşlemci | "),
    };
    if preset.concat().is_some() {
        extend_chars(&mut out, &chars_of("İntrolu"));
    } else {
        extend_chars(&mut out, &chars_of("İntrosuz"));
    }
    string_of(&out)
}

/// The fields of the status view of a job: name, value, and whether the field
/// is shown in line with its neighbours.
pub open spec fn status_fields(job: Job, status_message: Seq<char>) -> Seq<
    (Seq<char>, Seq<char>, bool),
> {
    seq![
        ("İşlem Numarası"@, seq!['`'] + decimal(job.job_id as nat) + seq!['`'], true),
        ("İşlem Sahibi"@, seq!['<', '@'] + decimal(job.author as nat) + seq!['>'], true),
        ("Durum"@, stage_label(job.ready), true),
        ("Encode Preset"@, preset_text(job.preset), false),
        (
            "Torrent Linki"@,
            "Torrent: "@ + match job.torrent {
                crate::nyaaise::TorrentType::Link(a) => a@,
                crate::nyaaise::TorrentType::Magnet(_) => "Magnet linki gösterilmiyor."@,
            },
            false,
        ),
        ("İlerleme"@, status_message, false),
    ]
}

fn field(name: &str, value: Vec<char>, inline: bool) -> (r: StatusField)
    ensures
        r.name@ == name@,
        r.value@ == value@,
        r.inline == inline,
{
    StatusField { name: string_of(&chars_of(name)), value: string_of(&value), inline }
}

/// The status view of a job with the given progress text.
pub fn create_job_embed(job: &Job, status_message: &str) -> (r: StatusView)
    ensures
        r.title@ == "Encode İşlemi"@,
        r.colour == colour_of(job.ready),
        r.fields@.len() == 6,
        forall|i: int|
            0 <= i < 6 ==> ((#[trigger] r.fields@[i]).name@, r.fields@[i].value@, r.fields@[i].inline)
                == status_fields(*job, status_message@)[i],
{
    let mut id_text: Vec<char> = Vec::new();
    id_text.push('`');
    push_decimal(&mut id_text, job.job_id);
    id_text.push('`');
    let mut author_text: Vec<char> = Vec::new();
    author_text.push('<');
    author_text.push('@');
    push_decimal(&mut author_text, job.author);
    author_text.push('>');
    let mut torrent_text = chars_of("Torrent: ");
    let shown = job.torrent.display();
    extend_chars(&mut torrent_text, &chars_of(shown.as_str()));
    let preset = describe_preset(job.preset);
    proof {
        assert(id_text@ =~= seq!['`'] + decimal(job.job_id as nat) + seq!['`']);
        assert(author_text@ =~= seq!['<', '@'] + decimal(job.author as nat) + seq!['>']);
    }
    let mut fields: Vec<StatusField> = Vec::new();
    fields.push(field("İşlem Numarası", id_text, true));
    fields.push(field("İşlem Sahibi", author_text, true));
    fields.push(field("Durum", chars_of(get_stage_emoji(job.ready)), true));
    fields.push(field("Encode Preset", chars_of(preset.as_str()), false));
    fields.push(field("Torrent Linki", torrent_text, false));
    fields.push(field("İlerleme", chars_of(status_message), false));
    StatusView {
        title: string_of(&chars_of("Encode İşlemi")),
        colour: stage_colour(job.ready),
        fields,
    }
}

} // verus!
