//! The coordinator's decisions: which jobs are admitted, when a job is handed to
//! the next worker, and what an event from a worker does to the queue.
//!
//! The queue holds the jobs that are under way, oldest first, and never more
//! than `QUEUE_LIMIT` of them. A job leaves the queue when it reaches an end.

use vstd::prelude::*;
use crate::job::{child_path, file_name, join_path, path_file_name, Job, JobView};
use crate::messages::{create_job_embed, status_fields, colour_of, StatusView};
use crate::stage::Stage;
use crate::text::{chars_of, extend_chars, string_of};
use crate::worker::{cancel_sentinel, CommEvent, DownloadTask, EncodeTask, UploadTask};

verus! {

/// The largest number of jobs under way.
pub const QUEUE_LIMIT: usize = 5;

/// How many commands of the request source can wait for the coordinator.
pub const COMMAND_CAPACITY: usize = 5;

/// How many tasks can wait for each stage worker.
pub const TASK_CAPACITY: usize = 5;

/// How many events of the workers can wait for the coordinator.
pub const EVENT_CAPACITY: usize = 50;

/// The time between two looks of the coordinator at its channels, in
/// milliseconds.
pub const TICK_MILLIS: u64 = 200;

/// A request to stop the job whose status view is the message `response_id`
/// in the channel `channel_id`.
#[derive(Copy, Clone, Debug, PartialEq, Eq, Structural)]
pub struct CancelRequest {
    pub user_id: u64,
    pub channel_id: u64,
    pub response_id: u64,
}

/// The jobs under way.
pub struct Coordinator {
    pub queue: Vec<Job>,
}

/// What is to be prepared on disk for a job that is admitted.
#[derive(Debug)]
pub struct AdmissionPlan {
    /// The directories to create.
    pub directories: Vec<String>,
    /// Where the subtitle is written.
    pub subtitle_path: String,
    /// The intro clip to copy, from where and to where, if the preset names one
    /// that exists.
    pub concat: Option<(String, String)>,
    /// What the download worker is asked to do.
    pub download: DownloadTask,
}

/// What the coordinator hands to a worker when the job at the head of the queue
/// is ready for it.
#[derive(Debug)]
pub enum Dispatch {
    Encode(EncodeTask),
    Upload(UploadTask),
}

/// What an event from a worker led to.
#[derive(Debug)]
pub enum Reconciled {
    /// No job under way has the event's id.
    Unknown,
    /// The status view is to be shown. `moved` holds the new stage where the job
    /// has moved on, to be stored; `archived` says that the job has reached an
    /// end and left the queue.
    Edited { job_id: u64, response_id: u64, view: StatusView, moved: Option<Stage>, archived: bool },
}

/// The file name of the intro clip with the given id.
pub open spec fn intro_file(id: i16) -> Option<Seq<char>> {
    if id == 1 {
        Some("somesubs.mp4"@)
    } else {
        None
    }
}

/// The file name of the intro clip with the given id.
pub fn preset_i16_f(preset: i16) -> (r: Option<String>)
    ensures
        match intro_file(preset) {
            Some(name) => r matches Some(s) && s@ == name,
            None => r is None,
        },
{
    match preset {
        1 => Some(crate::text::owned("somesubs.mp4")),
        _ => None,
    }
}

/// Index of the first job with the given id, or the length where there is none.
pub open spec fn position_of(jobs: Seq<JobView>, job_id: u64) -> int
    decreases jobs.len(),
{
    if jobs.len() == 0 {
        0
    } else if jobs[0].job_id == job_id {
        0
    } else {
        1 + position_of(jobs.skip(1), job_id)
    }
}

/// Index of the first job whose status view is the given message, or the length
/// where there is none.
pub open spec fn position_of_view(jobs: Seq<JobView>, channel_id: u64, response_id: u64) -> int
    decreases jobs.len(),
{
    if jobs.len() == 0 {
        0
    } else if jobs[0].channel_id == channel_id && jobs[0].response_id == response_id {
        0
    } else {
        1 + position_of_view(jobs.skip(1), channel_id, response_id)
    }
}

/// A first job with the given id is found where it stands.
pub proof fn lemma_position_of(jobs: Seq<JobView>, job_id: u64, i: int)
    requires
        0 <= i <= jobs.len(),
        forall|k: int| 0 <= k < i ==> jobs[k].job_id != job_id,
        i < jobs.len() ==> jobs[i].job_id == job_id,
    ensures
        position_of(jobs, job_id) == i,
    decreases jobs.len(),
{
    if jobs.len() > 0 && i > 0 {
        assert(jobs[0].job_id != job_id);
        let rest = jobs.skip(1);
        assert forall|k: int| 0 <= k < i - 1 implies rest[k].job_id != job_id by {
            assert(rest[k] == jobs[k + 1]);
        }
        lemma_position_of(rest, job_id, i - 1);
    }
}

/// A first job with the given status view is found where it stands.
pub proof fn lemma_position_of_view(jobs: Seq<JobView>, channel_id: u64, response_id: u64, i: int)
    requires
        0 <= i <= jobs.len(),
        forall|k: int|
            0 <= k < i ==> !(jobs[k].channel_id == channel_id && jobs[k].response_id
                == response_id),
        i < jobs.len() ==> jobs[i].channel_id == channel_id && jobs[i].response_id == response_id,
    ensures
        position_of_view(jobs, channel_id, response_id) == i,
    decreases jobs.len(),
{
    if jobs.len() > 0 && i > 0 {
        assert(!(jobs[0].channel_id == channel_id && jobs[0].response_id == response_id));
        let rest = jobs.skip(1);
        assert forall|k: int| 0 <= k < i - 1 implies !(rest[k].channel_id == channel_id
            && rest[k].response_id == response_id) by {
            assert(rest[k] == jobs[k + 1]);
        }
        lemma_position_of_view(rest, channel_id, response_id, i - 1);
    }
}

/// The queue is within its limit and holds no job that has reached an end.
pub open spec fn queue_in_order(jobs: Seq<JobView>) -> bool {
    &&& jobs.len() <= QUEUE_LIMIT
    &&& forall|i: int| 0 <= i < jobs.len() ==> !(#[trigger] jobs[i]).ready.is_terminal_spec()
}

/// The job can be admitted: it has just been asked for, and the queue has
/// room.
pub open spec fn admissible(jobs: Seq<JobView>, job: JobView) -> bool {
    job.ready == Stage::Queued && jobs.len() < QUEUE_LIMIT
}

/// The queue after a job was offered for admission: a job that can be admitted
/// is added at the end, at the stage `Downloading`; any other job leaves the
/// queue as it is.
pub open spec fn queue_after_admission(jobs: Seq<JobView>, job: JobView) -> Seq<JobView> {
    if admissible(jobs, job) {
        jobs.push(job.at(Stage::Downloading))
    } else {
        jobs
    }
}

/// The job as it is handed back when it is not admitted: a job that has just
/// been asked for is `Declined`; a job at any other stage is not touched.
pub open spec fn handed_back(job: JobView) -> JobView {
    if job.ready == Stage::Queued {
        job.at(Stage::Declined)
    } else {
        job
    }
}

/// The plan is the one for `job` below `base`: the directories `contents` and
/// `work` in the job's directory, the subtitle at `contents/subtitle.ass`, the
/// intro clip, where the preset names one that exists, copied from `DB/concat`
/// below `base` to `contents/concat.mp4`, and the download of the job's
/// torrent.
pub open spec fn plans(plan: AdmissionPlan, job: Job, base: Seq<char>) -> bool {
    &&& plan.directories@.len() == 2
    &&& plan.directories@[0]@ == child_path(job.directory@, "contents"@)
    &&& plan.directories@[1]@ == child_path(job.directory@, "work"@)
    &&& plan.subtitle_path@ == child_path(job.directory@, "contents/subtitle.ass"@)
    &&& plan.download.directory@ == job.directory@
    &&& plan.download.link@ == job.torrent.address()
    &&& plan.download.magnet == (job.torrent is Magnet)
    &&& plan.download.job_id == job.job_id
    &&& match job.preset.concat_spec() {
        Some(id) => match intro_file(id) {
            Some(name) => plan.concat matches Some(c) && c.0@ == child_path(
                child_path(base, "DB/concat"@),
                name,
            ) && c.1@ == child_path(job.directory@, "contents/concat.mp4"@),
            None => plan.concat is None,
        },
        None => plan.concat is None,
    }
}

/// The queue after the status view of a job has been told: the first job with
/// the id has the new view, and nothing else has changed.
pub open spec fn queue_after_response(jobs: Seq<JobView>, job_id: u64, response_id: u64) -> Seq<
    JobView,
> {
    let i = position_of(jobs, job_id);
    if i < jobs.len() {
        jobs.update(i, JobView { response_id, ..jobs[i] })
    } else {
        jobs
    }
}

/// The stage that the job at the head of the queue is moved to when it is
/// handed to the next worker.
pub open spec fn dispatch_target(jobs: Seq<JobView>) -> Option<Stage> {
    if jobs.len() == 0 {
        None
    } else if jobs[0].ready == Stage::Downloaded {
        Some(Stage::Encoding)
    } else if jobs[0].ready == Stage::Encoded {
        Some(Stage::Uploading)
    } else {
        None
    }
}

/// The queue after the job at its head has been handed to the next worker, if
/// it was ready for one.
pub open spec fn queue_after_dispatch(jobs: Seq<JobView>) -> Seq<JobView> {
    match dispatch_target(jobs) {
        Some(stage) => jobs.update(0, jobs[0].at(stage)),
        None => jobs,
    }
}

/// The stage that an event moves its job to: the stage that the event carries,
/// where the job's stage allows that step.
pub open spec fn event_target(jobs: Seq<JobView>, job_id: u64, stage: Option<Stage>) -> Option<
    Stage,
> {
    let i = position_of(jobs, job_id);
    if i < jobs.len() && stage is Some && jobs[i].ready.allows_spec(stage->0) {
        stage
    } else {
        None
    }
}

/// The queue after an event: the job moves to the event's stage where that step
/// is allowed, and leaves the queue where the stage is an end.
pub open spec fn queue_after_event(jobs: Seq<JobView>, job_id: u64, stage: Option<Stage>) -> Seq<
    JobView,
> {
    let i = position_of(jobs, job_id);
    match event_target(jobs, job_id, stage) {
        Some(to) => if to.is_terminal_spec() {
            jobs.remove(i)
        } else {
            jobs.update(i, jobs[i].at(to))
        },
        None => jobs,
    }
}

impl Coordinator {
    /// The jobs under way as mathematical values.
    pub open spec fn jobs(&self) -> Seq<JobView> {
        Seq::new(self.queue@.len(), |i: int| self.queue@[i]@)
    }

    /// The queue is within its limit and holds no job that has reached an end.
    pub open spec fn wf(&self) -> bool {
        queue_in_order(self.jobs())
    }

    /// A coordinator with no job under way.
    pub fn new() -> (out: Self)
        ensures
            out.wf(),
            out.jobs() == Seq::<JobView>::empty(),
    {
        let out = Coordinator { queue: Vec::new() };
        proof {
            assert(out.jobs() =~= Seq::<JobView>::empty());
        }
        out
    }

    /// Whether the queue is within its limit and holds no job that has reached
    /// an end.
    pub fn in_order(&self) -> (r: bool)
        ensures
            r == self.wf(),
    {
        if self.queue.len() > QUEUE_LIMIT {
            return false;
        }
        let mut i: usize = 0;
        while i < self.queue.len()
            invariant
                i <= self.queue@.len(),
                self.queue@.len() <= QUEUE_LIMIT,
                forall|k: int| 0 <= k < i ==> !(#[trigger] self.jobs()[k]).ready.is_terminal_spec(),
            decreases self.queue@.len() - i,
        {
            if self.queue[i].ready.is_terminal() {
                proof {
                    assert(self.jobs()[i as int].ready.is_terminal_spec());
                }
                return false;
            }
            i += 1;
        }
        true
    }

    /// Whether another job can be admitted.
    pub fn has_room(&self) -> (r: bool)
        ensures
            r == (self.jobs().len() < QUEUE_LIMIT),
    {
        self.queue.len() < QUEUE_LIMIT
    }

    /// What is to be prepared on disk for `job`. The directories `contents` and
    /// `work` are created in the job's directory, the subtitle is written to
    /// `contents/subtitle.ass`, and where the preset names an intro clip that
    /// exists, it is copied from `DB/concat` below `base` to
    /// `contents/concat.mp4`.
    pub fn plan_admission(job: &Job, base: &str) -> (plan: AdmissionPlan)
        ensures
            plans(plan, *job, base@),
    {
        let dir = job.directory.as_str();
        let mut directories: Vec<String> = Vec::new();
        directories.push(join_path(dir, "contents"));
        directories.push(join_path(dir, "work"));
        let concat = match job.preset.concat() {
            None => None,
            Some(id) => match preset_i16_f(id) {
                None => None,
                Some(name) => {
                    let store = join_path(base, "DB/concat");
                    Some(
                        (
                            join_path(store.as_str(), name.as_str()),
                            join_path(dir, "contents/concat.mp4"),
                        ),
                    )
                },
            },
        };
        AdmissionPlan {
            directories,
            subtitle_path: join_path(dir, "contents/subtitle.ass"),
            concat,
            download: DownloadTask {
                directory: job.directory.clone(),
                link: job.torrent.get(),
                magnet: match job.torrent {
                    crate::nyaaise::TorrentType::Magnet(_) => true,
                    crate::nyaaise::TorrentType::Link(_) => false,
                },
                job_id: job.job_id,
            },
        }
    }

    /// Offers `job` for admission. A job that has just been asked for joins the
    /// queue at the stage `Downloading`, where the queue has room; where it is
    /// full the job is handed back at the stage `Declined`. A job at any other
    /// stage is handed back as it is. The queue changes only by the job added.
    pub fn enqueue(&mut self, job: Job) -> (r: Result<(), Job>)
        requires
            old(self).wf(),
        ensures
            final(self).wf(),
            final(self).jobs() == queue_after_admission(old(self).jobs(), job@),
            admissible(old(self).jobs(), job@) ==> r is Ok,
            !admissible(old(self).jobs(), job@) ==> (r matches Err(back) && back@ == handed_back(
                job@,
            )),
    {
        let mut job = job;
        if job.ready != Stage::Queued {
            return Err(job);
        }
        if self.queue.len() >= QUEUE_LIMIT {
            job.ready = Stage::Declined;
            return Err(job);
        }
        job.ready = Stage::Downloading;
        self.queue.push(job);
        proof {
            assert(final(self).jobs() =~= old(self).jobs().push(job@));
            assert forall|i: int| 0 <= i < final(self).jobs().len() implies !(
            #[trigger] final(self).jobs()[i]).ready.is_terminal_spec() by {
                if i < old(self).jobs().len() {
                    assert(final(self).jobs()[i] == old(self).jobs()[i]);
                }
            }
        }
        Ok(())
    }

    /// Admits `job` and plans what is to be prepared on disk for it. A job that
    /// has just been asked for joins the queue at the stage `Downloading`, where
    /// the queue has room, and its plan is returned. Any other job is handed
    /// back, `Declined` where it had just been asked for and as it is otherwise;
    /// the queue stays as it is, and there is no plan.
    pub fn admit_job(&mut self, job: Job, base: &str) -> (r: Result<AdmissionPlan, Job>)
        requires
            old(self).wf(),
        ensures
            final(self).wf(),
            final(self).jobs() == queue_after_admission(old(self).jobs(), job@),
            admissible(old(self).jobs(), job@) ==> (r matches Ok(plan) && plans(plan, job, base@)),
            !admissible(old(self).jobs(), job@) ==> (r matches Err(back) && back@ == handed_back(
                job@,
            )) && final(self).jobs() == old(self).jobs(),
    {
        let plan = Self::plan_admission(&job, base);
        match self.enqueue(job) {
            Ok(()) => Ok(plan),
            Err(back) => Err(back),
        }
    }

    /// Takes note of the status view of a job under way: the first job with the
    /// id has the view from then on. The result tells whether there is such a
    /// job.
    pub fn set_response_id(&mut self, job_id: u64, response_id: u64) -> (r: bool)
        requires
            old(self).wf(),
        ensures
            final(self).wf(),
            final(self).jobs() == queue_after_response(old(self).jobs(), job_id, response_id),
            r == (position_of(old(self).jobs(), job_id) < old(self).jobs().len()),
    {
        let i = self.find(job_id);
        if i >= self.queue.len() {
            return false;
        }
        let mut job = self.queue[i].clone();
        job.response_id = response_id;
        self.queue.set(i, job);
        proof {
            let before = old(self).jobs();
            assert(final(self).jobs() =~= before.update(
                i as int,
                JobView { response_id, ..before[i as int] },
            ));
            assert forall|k: int| 0 <= k < final(self).jobs().len() implies !(
            #[trigger] final(self).jobs()[k]).ready.is_terminal_spec() by {
                assert(!before[k].ready.is_terminal_spec());
            }
        }
        true
    }

    /// Hands the job at the head of the queue to the next worker where it is
    /// ready for one: a job that is `Downloaded` goes to the encode worker and is
    /// `Encoding` from then on, a job that is `Encoded` goes to the upload worker
    /// and is `Uploading`. The upload is named after the job's directory.
    pub fn dispatch(&mut self) -> (r: Option<Dispatch>)
        requires
            old(self).wf(),
        ensures
            final(self).wf(),
            final(self).jobs() == queue_after_dispatch(old(self).jobs()),
            match dispatch_target(old(self).jobs()) {
                None => r is None,
                Some(Stage::Encoding) => r matches Some(Dispatch::Encode(task)) && task.directory@
                    == old(self).jobs()[0].directory && task.preset == old(self).jobs()[0].preset
                    && task.job_id == old(self).jobs()[0].job_id,
                Some(_) => r matches Some(Dispatch::Upload(task)) && task.directory@ == old(
                    self,
                ).jobs()[0].directory && task.out_name@ == file_name(
                    old(self).jobs()[0].directory,
                ) + ".mp4"@ && !task.release && task.job_id == old(self).jobs()[0].job_id,
            },
    {
        if self.queue.len() == 0 {
            return None;
        }
        proof {
            assert(old(self).jobs()[0] == self.queue@[0]@);
        }
        let stage = self.queue[0].ready;
        if stage == Stage::Downloaded {
            let task = EncodeTask {
                directory: self.queue[0].directory.clone(),
                preset: self.queue[0].preset,
                job_id: self.queue[0].job_id,
            };
            self.set_stage(0, Stage::Encoding);
            Some(Dispatch::Encode(task))
        } else if stage == Stage::Encoded {
            let name = path_file_name(self.queue[0].directory.as_str());
            let mut out_name = chars_of(name.as_str());
            extend_chars(&mut out_name, &chars_of(".mp4"));
            let task = UploadTask {
                directory: self.queue[0].directory.clone(),
                out_name: string_of(&out_name),
                release: false,
                job_id: self.queue[0].job_id,
            };
            self.set_stage(0, Stage::Uploading);
            Some(Dispatch::Upload(task))
        } else {
            None
        }
    }

    fn set_stage(&mut self, i: usize, stage: Stage)
        requires
            i < old(self).queue@.len(),
        ensures
            final(self).jobs() == old(self).jobs().update(i as int, old(self).jobs()[i as int].at(stage)),
    {
        let mut job = self.queue[i].clone();
        job.ready = stage;
        self.queue.set(i, job);
        proof {
            assert(final(self).jobs() =~= old(self).jobs().update(
                i as int,
                old(self).jobs()[i as int].at(stage),
            ));
        }
    }

    fn find(&self, job_id: u64) -> (i: usize)
        ensures
            i as int == position_of(self.jobs(), job_id),
            i <= self.queue@.len(),
    {
        let mut i: usize = 0;
        while i < self.queue.len()
            invariant
                i <= self.queue@.len(),
                forall|k: int| 0 <= k < i ==> self.jobs()[k].job_id != job_id,
            decreases self.queue@.len() - i,
        {
            if self.queue[i].job_id == job_id {
                proof {
                    lemma_position_of(self.jobs(), job_id, i as int);
                }
                return i;
            }
            i += 1;
        }
        proof {
            lemma_position_of(self.jobs(), job_id, i as int);
        }
        i
    }

    /// Takes an event from a worker. The status view of the event's job is made
    /// with the event's text and the stage that the job had so far. Where the
    /// event carries a stage that the job may move to, the job moves to it, and
    /// leaves the queue where the stage is an end. An event for a job that is
    /// not under way changes nothing.
    pub fn reconcile(&mut self, event: &CommEvent) -> (r: Reconciled)
        requires
            old(self).wf(),
        ensures
            final(self).wf(),
            final(self).jobs() == queue_after_event(old(self).jobs(), event.job_id, event.stage),
            position_of(old(self).jobs(), event.job_id) >= old(self).jobs().len() ==> r is Unknown,
            position_of(old(self).jobs(), event.job_id) < old(self).jobs().len() ==> ({
                let job = old(self).queue@[position_of(old(self).jobs(), event.job_id)];
                let target = event_target(old(self).jobs(), event.job_id, event.stage);
                &&& r is Edited
                &&& r->job_id == event.job_id
                &&& r->response_id == job.response_id
                &&& r->moved == target
                &&& r->archived == (target is Some && target->0.is_terminal_spec())
                &&& r->view.title@ == "Encode İşlemi"@
                &&& r->view.colour == colour_of(job.ready)
                &&& r->view.fields@.len() == 6
                &&& forall|k: int|
                    0 <= k < 6 ==> ((#[trigger] r->view.fields@[k]).name@, r->view.fields@[k].value@, r->view.fields@[k].inline)
                        == status_fields(job, event.message@)[k]
            }),
    {
        let i = self.find(event.job_id);
        if i >= self.queue.len() {
            return Reconciled::Unknown;
        }
        proof {
            assert(old(self).jobs()[i as int] == self.queue@[i as int]@);
        }
        let view = create_job_embed(&self.queue[i], event.message.as_str());
        let response_id = self.queue[i].response_id;
        let current = self.queue[i].ready;
        let moved = match event.stage {
            Some(to) => if current.allows(to) {
                Some(to)
            } else {
                None
            },
            None => None,
        };
        let mut archived = false;
        match moved {
            Some(to) => {
                if to.is_terminal() {
                    self.queue.remove(i);
                    archived = true;
                    proof {
                        assert(final(self).jobs() =~= old(self).jobs().remove(i as int));
                    }
                } else {
                    self.set_stage(i, to);
                }
            },
            None => {},
        }
        Reconciled::Edited { job_id: event.job_id, response_id, view, moved, archived }
    }

    /// Takes a request to cancel. Where the job whose status view the request
    /// names is downloading, the result is the path of the file to create, by
    /// which the torrent helper is told to stop. For every other job, and where
    /// no job under way has that status view, nothing is to be done.
    pub fn cancel(&self, request: &CancelRequest) -> (r: Option<String>)
        ensures
            ({
                let i = position_of_view(self.jobs(), request.channel_id, request.response_id);
                if i < self.jobs().len() && self.jobs()[i].ready == Stage::Downloading {
                    r matches Some(path) && path@ == cancel_sentinel(self.jobs()[i].directory)
                } else {
                    r is None
                }
            }),
    {
        let mut i: usize = 0;
        while i < self.queue.len()
            invariant
                i <= self.queue@.len(),
                forall|k: int|
                    0 <= k < i ==> !(self.jobs()[k].channel_id == request.channel_id
                        && self.jobs()[k].response_id == request.response_id),
            decreases self.queue@.len() - i,
        {
            if self.queue[i].channel_id == request.channel_id && self.queue[i].response_id
                == request.response_id {
                proof {
                    lemma_position_of_view(
                        self.jobs(),
                        request.channel_id,
                        request.response_id,
                        i as int,
                    );
                }
                if self.queue[i].ready == Stage::Downloading {
                    return Some(join_path(self.queue[i].directory.as_str(), "cancel"));
                }
                return None;
            }
            i += 1;
        }
        proof {
            lemma_position_of_view(
                self.jobs(),
                request.channel_id,
                request.response_id,
                i as int,
            );
        }
        None
    }
}

} // verus!
