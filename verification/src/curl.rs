//! The fetch and upload helper: the progress of an upload, the name and the
//! link of what was uploaded, and the frames that the helper sends.

use vstd::prelude::*;
use crate::driver::FrameStatus;
use crate::frame::{Schema, TypeC};
use crate::p2p::{ending_frame, ending_shape, operand_numerals, progress_frame, progress_shape};
use crate::text::{chars_of, extend_chars, string_of};

verus! {

/// Where files are uploaded to.
pub const UPLOAD_ENDPOINT: &'static str =
    "https://www.googleapis.com/upload/drive/v3/files?uploadType=multipart&supportsAllDrives=true";

/// The kind of what is uploaded.
pub const UPLOAD_MIME: &'static str = "video/mp4";

/// What the helper reports while it runs.
#[derive(Debug)]
pub enum RpbData {
    /// Bytes sent, bytes in all.
    Progress(u64, u64),
    Done(String),
    Fail,
}

/// What is fetched, or what is uploaded.
#[derive(Debug)]
pub struct Req {
    pub target: String,
}

/// The count of the bytes of an upload that have been read so far.
#[derive(Copy, Clone, Debug, PartialEq, Eq, Structural)]
pub struct ProgressReader {
    pub sent: u64,
    pub total: u64,
}

/// `sent` and `n` more, held to the largest number that fits.
pub open spec fn sent_after(sent: u64, n: usize) -> u64 {
    if sent + n > u64::MAX {
        u64::MAX
    } else {
        (sent + n) as u64
    }
}

impl ProgressReader {
    /// A count for an upload of `total` bytes of which none has been read.
    pub fn new(total: u64) -> (r: Self)
        ensures
            r == (ProgressReader { sent: 0, total }),
    {
        ProgressReader { sent: 0, total }
    }

    /// Takes note that `n` more bytes have been read, and reports the count
    /// where any have.
    pub fn read(&mut self, n: usize) -> (r: Option<RpbData>)
        ensures
            final(self).total == old(self).total,
            n == 0 ==> final(self).sent == old(self).sent && r is None,
            n > 0 ==> final(self).sent == sent_after(old(self).sent, n) && r == Some(
                RpbData::Progress(final(self).sent, final(self).total),
            ),
    {
        if n == 0 {
            return None;
        }
        let room: u64 = u64::MAX - self.sent;
        if n as u64 > room {
            self.sent = u64::MAX;
        } else {
            self.sent = self.sent + n as u64;
        }
        Some(RpbData::Progress(self.sent, self.total))
    }
}

/// The link under which an uploaded file is shared.
pub open spec fn share_link(file_id: Seq<char>) -> Seq<char> {
    "https://drive.google.com/file/d/"@ + file_id + "/view?usp=sharing"@
}

impl Req {
    /// The name under which the target is uploaded: the name given, or the
    /// target's own.
    pub fn upload_name(&self, outfile: Option<String>) -> (r: String)
        ensures
            r@ == match outfile {
                Some(name) => name@,
                None => self.target@,
            },
    {
        match outfile {
            Some(name) => name,
            None => self.target.clone(),
        }
    }

    /// What is reported when the upload has been answered: the link of the file
    /// whose id the answer holds, or a failure where it holds none.
    pub fn upload_report(file_id: Option<&str>) -> (r: RpbData)
        ensures
            match file_id {
                Some(id) => r matches RpbData::Done(link) && link@ == share_link(id@),
                None => r is Fail,
            },
    {
        match file_id {
            Some(id) => {
                let mut link = chars_of("https://drive.google.com/file/d/");
                extend_chars(&mut link, &chars_of(id));
                extend_chars(&mut link, &chars_of("/view?usp=sharing"));
                RpbData::Done(string_of(&link))
            },
            None => RpbData::Fail,
        }
    }
}

/// The frame that tells the coordinator's worker what the helper reported.
pub fn frame_of(data: &RpbData) -> (r: (Schema, TypeC))
    ensures
        match data {
            RpbData::Progress(sent, total) => r.1@ == crate::frame::Tree::Node(
                seq![
                    crate::frame::Tree::Leaf("0"@),
                    crate::frame::Tree::Node(operand_numerals(seq![*sent, *total])),
                ],
            ) && r.0@ == progress_shape(2),
            RpbData::Done(text) => r.1@ == crate::frame::Tree::Node(
                seq![crate::frame::Tree::Leaf("1"@), crate::frame::Tree::Leaf(text@)],
            ) && r.0@ == ending_shape(),
            RpbData::Fail => r.1@ == crate::frame::Tree::Node(
                seq![crate::frame::Tree::Leaf("2"@), crate::frame::Tree::Leaf("0"@)],
            ) && r.0@ == ending_shape(),
        },
{
    match data {
        RpbData::Progress(sent, total) => {
            let mut operands: Vec<u64> = Vec::new();
            operands.push(*sent);
            operands.push(*total);
            proof {
                assert(operands@ =~= seq![*sent, *total]);
            }
            progress_frame(&operands)
        },
        RpbData::Done(text) => ending_frame(FrameStatus::Done, text.as_str()),
        RpbData::Fail => ending_frame(FrameStatus::Fail, "0"),
    }
}

} // verus!
