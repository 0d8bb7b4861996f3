//! Jobs and the layout of their working directories.

use vstd::prelude::*;
use crate::number::{decimal, lemma_decimal_injective, lemma_decimal_value, push_decimal};
use crate::nyaaise::{TorrentType, TorrentView};
use crate::stage::{JobType, Preset, Stage};
use crate::text::{chars_of, extend_chars, lemma_first_index_is, string_of};

verus! {

/// A unit of work: who asked for it, where its status is shown, what is to be
/// encoded and how, where its files are, and how far it has come.
#[derive(Debug)]
pub struct Job {
    pub author: u64,
    pub channel_id: u64,
    pub response_id: u64,
    /// Seconds since the epoch at which the job was asked for.
    pub requested_at: u64,
    pub job_type: JobType,
    pub job_id: u64,
    pub preset: Preset,
    pub torrent: TorrentType,
    pub directory: String,
    pub ready: Stage,
}

/// The mathematical value of a `Job`.
pub struct JobView {
    pub author: u64,
    pub channel_id: u64,
    pub response_id: u64,
    pub requested_at: u64,
    pub job_type: JobType,
    pub job_id: u64,
    pub preset: Preset,
    pub torrent: TorrentView,
    pub directory: Seq<char>,
    pub ready: Stage,
}

impl View for Job {
    type V = JobView;

    open spec fn view(&self) -> JobView {
        JobView {
            author: self.author,
            channel_id: self.channel_id,
            response_id: self.response_id,
            requested_at: self.requested_at,
            job_type: self.job_type,
            job_id: self.job_id,
            preset: self.preset,
            torrent: self.torrent@,
            directory: self.directory@,
            ready: self.ready,
        }
    }
}

impl JobView {
    /// The same job at another stage.
    pub open spec fn at(self, stage: Stage) -> JobView {
        JobView { ready: stage, ..self }
    }
}

/// The name of a job's directory: author, job id and time of the request,
/// joined by hyphens.
pub open spec fn directory_name(author: nat, job_id: nat, requested_at: nat) -> Seq<char> {
    decimal(author).push('-') + decimal(job_id).push('-') + decimal(requested_at)
}

/// The directory of a job below `base`.
pub open spec fn job_directory(base: Seq<char>, author: nat, job_id: nat, requested_at: nat) -> Seq<
    char,
> {
    base + seq!['/', 'D', 'B', '/'] + directory_name(author, job_id, requested_at)
}

/// The path of `name` inside the directory `dir`.
pub open spec fn child_path(dir: Seq<char>, name: Seq<char>) -> Seq<char> {
    dir.push('/') + name
}

/// The path of `name` inside the directory `dir`.
pub fn join_path(dir: &str, name: &str) -> (r: String)
    ensures
        r@ == child_path(dir@, name@),
{
    let mut out = chars_of(dir);
    out.push('/');
    extend_chars(&mut out, &chars_of(name));
    string_of(&out)
}

/// The last component of a path: what follows its last `/`, or all of it.
pub open spec fn file_name(path: Seq<char>) -> Seq<char>
    decreases path.len(),
{
    if path.len() == 0 {
        path
    } else if path.last() == '/' {
        Seq::empty()
    } else {
        file_name(path.drop_last()).push(path.last())
    }
}

/// The last component of a path.
pub fn path_file_name(path: &str) -> (r: String)
    ensures
        r@ == file_name(path@),
{
    let chars = chars_of(path);
    let mut start: usize = chars.len();
    while start > 0 && chars[start - 1] != '/'
        invariant
            start <= chars.len(),
            forall|j: int| start <= j < chars.len() ==> chars@[j] != '/',
        decreases start,
    {
        start -= 1;
    }
    proof {
        lemma_file_name_is_tail(chars@, start as int);
    }
    string_of(&crate::text::slice_chars(&chars, start, chars.len()))
}

proof fn lemma_file_name_is_tail(path: Seq<char>, start: int)
    requires
        0 <= start <= path.len(),
        forall|j: int| start <= j < path.len() ==> path[j] != '/',
        start > 0 ==> path[start - 1] == '/',
    ensures
        file_name(path) == path.subrange(start, path.len() as int),
    decreases path.len(),
{
    if path.len() == 0 {
        assert(path.subrange(0, 0) =~= path);
    } else if start == path.len() {
        assert(path.subrange(start, path.len() as int) =~= Seq::<char>::empty());
    } else {
        lemma_file_name_is_tail(path.drop_last(), start);
        assert(path.subrange(start, path.len() as int) =~= path.drop_last().subrange(
            start,
            path.len() - 1,
        ).push(path.last()));
    }
}

impl Job {
    /// A job that has just been asked for, with its directory below `base` and
    /// the stage `Queued`.
    pub fn new(
        author: u64,
        channel_id: u64,
        response_id: u64,
        job_type: JobType,
        job_id: u64,
        preset: Preset,
        torrent: TorrentType,
        requested_at: u64,
        base: &str,
    ) -> (job: Job)
        ensures
            job.author == author,
            job.channel_id == channel_id,
            job.response_id == response_id,
            job.job_type == job_type,
            job.job_id == job_id,
            job.preset == preset,
            job.torrent@ == torrent@,
            job.requested_at == requested_at,
            job.ready == Stage::Queued,
            job.directory@ == job_directory(
                base@,
                author as nat,
                job_id as nat,
                requested_at as nat,
            ),
    {
        let mut dir = chars_of(base);
        dir.push('/');
        dir.push('D');
        dir.push('B');
        dir.push('/');
        push_decimal(&mut dir, author);
        dir.push('-');
        push_decimal(&mut dir, job_id);
        dir.push('-');
        push_decimal(&mut dir, requested_at);
        proof {
            assert(dir@ =~= job_directory(
                base@,
                author as nat,
                job_id as nat,
                requested_at as nat,
            ));
        }
        Job {
            author,
            channel_id,
            response_id,
            requested_at,
            job_type,
            job_id,
            preset,
            torrent,
            directory: string_of(&dir),
            ready: Stage::Queued,
        }
    }

    /// The directory is the one that the job's author, id and time give below
    /// `base`.
    pub open spec fn directory_under(self, base: Seq<char>) -> bool {
        self.directory@ == job_directory(
            base,
            self.author as nat,
            self.job_id as nat,
            self.requested_at as nat,
        )
    }
}

impl Clone for Job {
    fn clone(&self) -> (out: Self)
        ensures
            out@ == self@,
    {
        Job {
            author: self.author,
            channel_id: self.channel_id,
            response_id: self.response_id,
            requested_at: self.requested_at,
            job_type: self.job_type,
            job_id: self.job_id,
            preset: self.preset,
            torrent: self.torrent.clone(),
            directory: self.directory.clone(),
            ready: self.ready,
        }
    }
}


proof fn lemma_digits_lack(n: nat, c: char)
    requires
        c == '-' || c == '/',
    ensures
        !decimal(n).contains(c),
{
    lemma_decimal_value(n);
    if decimal(n).contains(c) {
        let j = choose|j: int| 0 <= j < decimal(n).len() && decimal(n)[j] == c;
        assert(crate::number::digit_of(decimal(n)[j]) is Some);
    }
}

/// Two numerals, each followed by a hyphen and more text, make the same text
/// only if they are the same numeral followed by the same text.
proof fn lemma_numeral_then_hyphen(a: nat, rest_a: Seq<char>, b: nat, rest_b: Seq<char>)
    requires
        decimal(a).push('-') + rest_a == decimal(b).push('-') + rest_b,
    ensures
        a == b,
        rest_a == rest_b,
{
    let text_a = decimal(a).push('-') + rest_a;
    let text_b = decimal(b).push('-') + rest_b;
    lemma_digits_lack(a, '-');
    lemma_digits_lack(b, '-');
    assert forall|j: int| 0 <= j < decimal(a).len() implies text_a[j] != '-' by {
        assert(text_a[j] == decimal(a)[j]);
        if decimal(a)[j] == '-' {
            assert(decimal(a).contains('-'));
        }
    }
    assert forall|j: int| 0 <= j < decimal(b).len() implies text_b[j] != '-' by {
        assert(text_b[j] == decimal(b)[j]);
        if decimal(b)[j] == '-' {
            assert(decimal(b).contains('-'));
        }
    }
    assert(text_a[decimal(a).len() as int] == '-');
    assert(text_b[decimal(b).len() as int] == '-');
    lemma_first_index_is(text_a, '-', decimal(a).len() as int);
    lemma_first_index_is(text_b, '-', decimal(b).len() as int);
    assert(decimal(a) =~= text_a.take(decimal(a).len() as int));
    assert(decimal(b) =~= text_b.take(decimal(b).len() as int));
    lemma_decimal_injective(a, b);
    assert(rest_a =~= text_a.skip(decimal(a).len() as int + 1));
    assert(rest_b =~= text_b.skip(decimal(b).len() as int + 1));
}

/// A directory name tells the author, the job id and the time of the request.
pub proof fn lemma_directory_name_injective(
    author_a: nat,
    job_a: nat,
    at_a: nat,
    author_b: nat,
    job_b: nat,
    at_b: nat,
)
    requires
        directory_name(author_a, job_a, at_a) == directory_name(author_b, job_b, at_b),
    ensures
        author_a == author_b,
        job_a == job_b,
        at_a == at_b,
{
    let rest_a = decimal(job_a).push('-') + decimal(at_a);
    let rest_b = decimal(job_b).push('-') + decimal(at_b);
    assert(directory_name(author_a, job_a, at_a) =~= decimal(author_a).push('-') + rest_a);
    assert(directory_name(author_b, job_b, at_b) =~= decimal(author_b).push('-') + rest_b);
    lemma_numeral_then_hyphen(author_a, rest_a, author_b, rest_b);
    lemma_numeral_then_hyphen(job_a, decimal(at_a), job_b, decimal(at_b));
    lemma_decimal_injective(at_a, at_b);
}

proof fn lemma_name_lacks_slash(author: nat, job_id: nat, requested_at: nat)
    ensures
        !directory_name(author, job_id, requested_at).contains('/'),
{
    let name = directory_name(author, job_id, requested_at);
    lemma_digits_lack(author, '/');
    lemma_digits_lack(job_id, '/');
    lemma_digits_lack(requested_at, '/');
    if name.contains('/') {
        let j = choose|j: int| 0 <= j < name.len() && name[j] == '/';
        let a = decimal(author).len() as int;
        let b = decimal(job_id).len() as int;
        if j < a {
            assert(decimal(author)[j] == '/');
            assert(decimal(author).contains('/'));
        } else if j == a {
        } else if j < a + 1 + b {
            assert(decimal(job_id)[j - a - 1] == '/');
            assert(decimal(job_id).contains('/'));
        } else if j == a + 1 + b {
        } else {
            assert(decimal(requested_at)[j - a - b - 2] == '/');
            assert(decimal(requested_at).contains('/'));
        }
    }
}

/// Jobs with different ids have different directories, whatever they lie
/// below.
pub proof fn lemma_directories_distinct(a: Job, base_a: Seq<char>, b: Job, base_b: Seq<char>)
    requires
        a.directory_under(base_a),
        b.directory_under(base_b),
        a.job_id != b.job_id,
    ensures
        a.directory@ != b.directory@,
{
    let name_a = directory_name(a.author as nat, a.job_id as nat, a.requested_at as nat);
    let name_b = directory_name(b.author as nat, b.job_id as nat, b.requested_at as nat);
    let full_a = a.directory@;
    let full_b = b.directory@;
    if full_a == full_b {
        lemma_name_lacks_slash(a.author as nat, a.job_id as nat, a.requested_at as nat);
        lemma_name_lacks_slash(b.author as nat, b.job_id as nat, b.requested_at as nat);
        let n = full_a.len() as int;
        let la = name_a.len() as int;
        let lb = name_b.len() as int;
        assert(full_a[n - la - 1] == '/');
        assert(full_b[n - lb - 1] == '/');
        if la < lb {
            assert(name_b[lb - la - 1] == full_b[n - la - 1]);
            assert(name_b.contains('/'));
        } else if lb < la {
            assert(name_a[la - lb - 1] == full_a[n - lb - 1]);
            assert(name_a.contains('/'));
        }
        assert(name_a =~= full_a.skip(n - la));
        assert(name_b =~= full_b.skip(n - lb));
        lemma_directory_name_injective(
            a.author as nat,
            a.job_id as nat,
            a.requested_at as nat,
            b.author as nat,
            b.job_id as nat,
            b.requested_at as nat,
        );
    }
}

} // verus!
