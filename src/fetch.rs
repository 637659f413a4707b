//! The fetcher's decisions: what one HTTP response turns into.
//!
//! A response is turned into a [`FetchPlan`]: the file-system steps to carry out,
//! in order, and the outcome once all of them have succeeded. Whoever performs
//! the steps stops at the first one that fails, and [`settle`] turns that into
//! an I/O failure. A failed response plans no step at all. In decompression mode the
//! compressed file is written first; the decompressed file follows, and the
//! compressed one is removed only after that, so a malformed stream leaves the
//! compressed file in place for inspection.
use vstd::prelude::*;
use crate::gzip::{gunzip, gunzip_of};
use crate::naming::{decompressed_name, decompressed_name_of, file_name, last_segment};

verus! {

/// Why fetching one URL failed.
#[derive(Debug)]
pub enum FetchError {
    /// The server answered with a status outside 2xx.
    Status(u16),
    /// The request could not be sent or the body could not be read.
    Transport(String),
    /// The URL yields no usable file name.
    BadFileName,
    /// The body is not a well-formed gzip stream.
    Decode,
    /// Writing or removing a file failed.
    Io(String),
    /// The task that ran the fetch did not finish normally.
    Task(String),
}

/// The result of fetching one URL.
#[derive(Debug)]
pub enum FetchOutcome {
    /// The final file, and how many bytes it holds.
    Success { bytes_written: usize, file_name: String },
    /// The URL that failed, and why.
    Failure { url: String, detail: FetchError },
}

/// One file-system step, relative to the destination directory.
#[derive(Debug)]
pub enum Step {
    /// Create or replace the file with these contents, and flush it.
    Write { file_name: String, data: Vec<u8> },
    /// Delete the file.
    Remove { file_name: String },
}

/// The steps to perform, in order, and the outcome once all have succeeded.
#[derive(Debug)]
pub struct FetchPlan {
    pub steps: Vec<Step>,
    pub outcome: FetchOutcome,
}

pub open spec fn success_status(code: u16) -> bool {
    200 <= code < 300
}

pub open spec fn is_write(s: Step, name: Seq<char>, data: Seq<u8>) -> bool {
    match s {
        Step::Write { file_name, data: d } => file_name@ == name && d@ == data,
        _ => false,
    }
}

pub open spec fn is_remove(s: Step, name: Seq<char>) -> bool {
    match s {
        Step::Remove { file_name } => file_name@ == name,
        _ => false,
    }
}

pub open spec fn is_success(o: FetchOutcome, bytes: nat, name: Seq<char>) -> bool {
    match o {
        FetchOutcome::Success { bytes_written, file_name } => bytes_written == bytes
            && file_name@ == name,
        _ => false,
    }
}

pub open spec fn is_status_failure(o: FetchOutcome, url: Seq<char>, code: u16) -> bool {
    match o {
        FetchOutcome::Failure { url: u, detail: FetchError::Status(c) } => u@ == url && c == code,
        _ => false,
    }
}

pub open spec fn is_bad_name_failure(o: FetchOutcome, url: Seq<char>) -> bool {
    match o {
        FetchOutcome::Failure { url: u, detail: FetchError::BadFileName } => u@ == url,
        _ => false,
    }
}

pub open spec fn is_decode_failure(o: FetchOutcome, url: Seq<char>) -> bool {
    match o {
        FetchOutcome::Failure { url: u, detail: FetchError::Decode } => u@ == url,
        _ => false,
    }
}

/// The plan for a decompression-mode fetch of `url`, saved as `name`, whose body
/// `body` decompresses to `decoded`.
pub open spec fn decoded_plan(
    p: FetchPlan,
    url: Seq<char>,
    name: Seq<char>,
    body: Seq<u8>,
    decoded: Option<Seq<u8>>,
) -> bool {
    let target = decompressed_name_of(name);
    if target.len() == 0 {
        p.steps@.len() == 1 && is_write(p.steps@[0], name, body) && is_bad_name_failure(
            p.outcome,
            url,
        )
    } else {
        match decoded {
            None => p.steps@.len() == 1 && is_write(p.steps@[0], name, body) && is_decode_failure(
                p.outcome,
                url,
            ),
            Some(d) => {
                &&& p.steps@.len() == (if target == name { 2int } else { 3int })
                &&& is_write(p.steps@[0], name, body)
                &&& is_write(p.steps@[1], target, d)
                &&& target != name ==> is_remove(p.steps@[2], name)
                &&& is_success(p.outcome, d.len(), target)
            },
        }
    }
}

/// The plan for a response to `url` with status `code` and body `body`.
pub open spec fn response_plan(
    p: FetchPlan,
    url: Seq<char>,
    code: u16,
    body: Seq<u8>,
    decompress: bool,
) -> bool {
    let name = last_segment(url);
    if !success_status(code) {
        p.steps@.len() == 0 && is_status_failure(p.outcome, url, code)
    } else if name.len() == 0 {
        p.steps@.len() == 0 && is_bad_name_failure(p.outcome, url)
    } else if !decompress {
        p.steps@.len() == 1 && is_write(p.steps@[0], name, body) && is_success(
            p.outcome,
            body.len(),
            name,
        )
    } else {
        decoded_plan(p, url, name, body, gunzip_of(body))
    }
}

/// Whether an HTTP status counts as success: any 2xx.
pub fn is_success_status(code: u16) -> (r: bool)
    ensures
        r == success_status(code),
{
    200 <= code && code < 300
}

/// Plans a decompression-mode fetch of `url` saved as `name`, given what its
/// body `body` decompresses to (`None` for a malformed stream).
///
/// The compressed file is written first. When decompression succeeded, the
/// decompressed file is written under the name without `.gz`, and the
/// compressed file is removed after that, unless both names are the same.
/// When it failed, the compressed file stays and the outcome is a decode failure.
/// When the name without `.gz` is empty, the compressed file stays too and the
/// outcome is a bad-name failure.
pub fn plan_decoded(url: &str, name: &str, body: Vec<u8>, decoded: Option<Vec<u8>>) -> (p:
    FetchPlan)
    ensures
        decoded_plan(
            p,
            url@,
            name@,
            body@,
            match decoded {
                Some(d) => Some(d@),
                None => None,
            },
        ),
{
    let target = decompressed_name(name);
    let mut steps: Vec<Step> = Vec::new();
    steps.push(Step::Write { file_name: name.to_owned(), data: body });
    if target.is_empty() {
        return FetchPlan {
            steps,
            outcome: FetchOutcome::Failure { url: url.to_owned(), detail: FetchError::BadFileName },
        };
    }
    match decoded {
        None => FetchPlan {
            steps,
            outcome: FetchOutcome::Failure { url: url.to_owned(), detail: FetchError::Decode },
        },
        Some(d) => {
            let n = d.len();
            steps.push(Step::Write { file_name: target.to_owned(), data: d });
            let target_name = target.to_owned();
            let name_owned = name.to_owned();
            if !(target_name == name_owned) {
                steps.push(Step::Remove { file_name: name_owned });
            }
            FetchPlan {
                steps,
                outcome: FetchOutcome::Success { bytes_written: n, file_name: target_name },
            }
        },
    }
}

pub open spec fn is_io_failure(o: FetchOutcome, url: Seq<char>, message: Seq<char>) -> bool {
    match o {
        FetchOutcome::Failure { url: u, detail: FetchError::Io(m) } => u@ == url && m@ == message,
        _ => false,
    }
}

/// The outcome of fetching `url` once `plan` has been carried out in order.
///
/// When every step succeeded (`failed_step` is `None`) it is the planned
/// outcome. When step `i` failed with `message`, the steps after it are not
/// carried out, and the outcome is an I/O failure whatever was planned.
pub fn settle(url: &str, plan: FetchPlan, failed_step: Option<(usize, String)>) -> (r: FetchOutcome)
    requires
        match failed_step {
            Some((i, _)) => i < plan.steps@.len(),
            None => true,
        },
    ensures
        match failed_step {
            Some((_, message)) => is_io_failure(r, url@, message@),
            None => r == plan.outcome,
        },
{
    match failed_step {
        Some((_, message)) => FetchOutcome::Failure {
            url: url.to_owned(),
            detail: FetchError::Io(message),
        },
        None => plan.outcome,
    }
}

/// Plans what to do with the response to `url`: status `code`, body `body`.
///
/// A status outside 2xx, or a URL with an empty last segment, fails with no
/// step. Otherwise the body is written under the URL's last segment; in
/// decompression mode it is then decompressed as [`plan_decoded`] says.
pub fn plan_response(url: &str, code: u16, body: Vec<u8>, decompress: bool) -> (p: FetchPlan)
    ensures
        response_plan(p, url@, code, body@, decompress),
{
    if !is_success_status(code) {
        return FetchPlan {
            steps: Vec::new(),
            outcome: FetchOutcome::Failure { url: url.to_owned(), detail: FetchError::Status(code) },
        };
    }
    let name = file_name(url);
    if name.is_empty() {
        return FetchPlan {
            steps: Vec::new(),
            outcome: FetchOutcome::Failure { url: url.to_owned(), detail: FetchError::BadFileName },
        };
    }
    if !decompress {
        let n = body.len();
        let mut steps: Vec<Step> = Vec::new();
        steps.push(Step::Write { file_name: name.to_owned(), data: body });
        return FetchPlan {
            steps,
            outcome: FetchOutcome::Success { bytes_written: n, file_name: name.to_owned() },
        };
    }
    let decoded = gunzip(body.as_slice());
    plan_decoded(url, name, body, decoded)
}

/// The files of the destination directory, by name.
pub type Files = Map<Seq<char>, Seq<u8>>;

pub open spec fn apply_step(files: Files, s: Step) -> Files {
    match s {
        Step::Write { file_name, data } => files.insert(file_name@, data@),
        Step::Remove { file_name } => files.remove(file_name@),
    }
}

/// The files after `steps` have all been carried out, in order.
pub open spec fn apply_steps(files: Files, steps: Seq<Step>) -> Files
    decreases steps.len(),
{
    if steps.len() == 0 {
        files
    } else {
        apply_step(apply_steps(files, steps.drop_last()), steps.last())
    }
}

proof fn lemma_apply_steps_unfold(files: Files, steps: Seq<Step>)
    requires
        1 <= steps.len() <= 3,
    ensures
        steps.len() == 1 ==> apply_steps(files, steps) == apply_step(files, steps[0]),
        steps.len() == 2 ==> apply_steps(files, steps) == apply_step(
            apply_step(files, steps[0]),
            steps[1],
        ),
        steps.len() == 3 ==> apply_steps(files, steps) == apply_step(
            apply_step(apply_step(files, steps[0]), steps[1]),
            steps[2],
        ),
{
    reveal_with_fuel(apply_steps, 4);
    let d1 = steps.drop_last();
    if steps.len() >= 2 {
        let d2 = d1.drop_last();
        assert(d1[0] == steps[0]);
        if steps.len() == 3 {
            assert(d2[0] == steps[0]);
            assert(d1[1] == steps[1]);
            assert(d2.drop_last().len() == 0);
        } else {
            assert(d2.len() == 0);
        }
    } else {
        assert(d1.len() == 0);
    }
}

/// In decompression mode, once the plan for a body that decompresses to `d`
/// has been carried out, the decompressed file holds exactly `d`, and the
/// compressed file no longer exists (unless its name had no `.gz` to strip,
/// so that the decompressed file replaced it).
pub proof fn lemma_decompressed_file_holds_contents(
    p: FetchPlan,
    url: Seq<char>,
    name: Seq<char>,
    body: Seq<u8>,
    d: Seq<u8>,
    files: Files,
)
    requires
        decoded_plan(p, url, name, body, Some(d)),
        decompressed_name_of(name).len() > 0,
    ensures
        p.outcome is Success,
        apply_steps(files, p.steps@).dom().contains(decompressed_name_of(name)),
        apply_steps(files, p.steps@)[decompressed_name_of(name)] == d,
        decompressed_name_of(name) != name ==> !apply_steps(files, p.steps@).dom().contains(name),
{
    lemma_apply_steps_unfold(files, p.steps@);
}

/// In decompression mode, when the body is not a well-formed gzip stream, the
/// fetch fails, the compressed file stays on disk with the body, and nothing
/// else is written: in particular no decompressed file is created.
pub proof fn lemma_malformed_keeps_compressed(
    p: FetchPlan,
    url: Seq<char>,
    name: Seq<char>,
    body: Seq<u8>,
    files: Files,
)
    requires
        decoded_plan(p, url, name, body, None),
    ensures
        p.outcome is Failure,
        apply_steps(files, p.steps@) == files.insert(name, body),
        decompressed_name_of(name) != name ==> (apply_steps(files, p.steps@).dom().contains(
            decompressed_name_of(name),
        ) == files.dom().contains(decompressed_name_of(name))),
{
    lemma_apply_steps_unfold(files, p.steps@);
}

/// In decompression mode, when a step of the plan fails, the steps before it
/// have been carried out and none after it. Whichever step that is (other than
/// the first, which writes the compressed file), the compressed file is still on
/// disk with the body: it is removed only by the last step, after the
/// decompressed file has been written.
pub proof fn lemma_compressed_kept_until_decompressed_written(
    p: FetchPlan,
    url: Seq<char>,
    name: Seq<char>,
    body: Seq<u8>,
    decoded: Option<Seq<u8>>,
    files: Files,
    failed: int,
)
    requires
        decoded_plan(p, url, name, body, decoded),
        1 <= failed < p.steps@.len(),
    ensures
        apply_steps(files, p.steps@.take(failed)).dom().contains(name),
        apply_steps(files, p.steps@.take(failed))[name] == body,
{
    let done = p.steps@.take(failed);
    lemma_apply_steps_unfold(files, done);
    assert(done[0] == p.steps@[0]);
    if failed == 2 {
        assert(done[1] == p.steps@[1]);
    }
}

/// Two successful fetches, without decompression, of URLs with the same last
/// path segment write the same file, and the one carried out last wins.
pub proof fn lemma_colliding_names_last_writer_wins(
    p1: FetchPlan,
    p2: FetchPlan,
    url1: Seq<char>,
    url2: Seq<char>,
    body1: Seq<u8>,
    body2: Seq<u8>,
    files: Files,
)
    requires
        response_plan(p1, url1, 200, body1, false),
        response_plan(p2, url2, 200, body2, false),
        last_segment(url1) == last_segment(url2),
        last_segment(url1).len() > 0,
    ensures
        is_success(p1.outcome, body1.len(), last_segment(url1)),
        is_success(p2.outcome, body2.len(), last_segment(url1)),
        apply_steps(apply_steps(files, p1.steps@), p2.steps@) == files.insert(
            last_segment(url1),
            body2,
        ),
{
    let after1 = apply_steps(files, p1.steps@);
    lemma_apply_steps_unfold(files, p1.steps@);
    lemma_apply_steps_unfold(after1, p2.steps@);
    assert(after1.insert(last_segment(url1), body2) =~= files.insert(last_segment(url1), body2));
}

} // verus!
