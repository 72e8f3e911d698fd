//! Planning a batch run and aggregating its outcomes.
//!
//! The orchestrator around the library walks the input directory, hands
//! the discovered file paths over, runs one transform per planned task on
//! a worker pool, and reports the collected outcomes. The decisions are
//! made here: which files count as images, which output path each one
//! maps to, when an empty batch is rejected, and what the final tally is.

use vstd::prelude::*;

use crate::errors::ConvertError;
use crate::paths::{extend_from, extension_of, get_output_path, has_extension, is_under,
    last_index_exec, mapped_output_path};
use crate::text::{chars_of, matches_ci, seq_matches_ci};

verus! {

/// The extension (without its dot) of a file the batch walk keeps:
/// one of the supported image containers, ignoring ASCII case.
pub open spec fn supported_ext(e: Seq<char>) -> bool {
    ||| seq_matches_ci(e, "jpg"@)
    ||| seq_matches_ci(e, "jpeg"@)
    ||| seq_matches_ci(e, "png"@)
    ||| seq_matches_ci(e, "gif"@)
    ||| seq_matches_ci(e, "bmp"@)
    ||| seq_matches_ci(e, "tiff"@)
    ||| seq_matches_ci(e, "webp"@)
}

/// A path the batch walk keeps: its file name has an extension and the
/// extension names a supported image container.
pub open spec fn supported_image(p: Seq<char>) -> bool {
    match extension_of(p) {
        Some(e) => supported_ext(e),
        None => false,
    }
}

/// Whether the batch walk keeps the file at `path`. Files it drops are
/// silently skipped, never reported as errors.
pub fn is_supported_image(path: &str) -> (b: bool)
    ensures
        b == supported_image(path@),
{
    let v = chars_of(path);
    let dot = last_index_exec(&v, '.');
    let slash = last_index_exec(&v, '/');
    let (with_ext, d): (bool, usize) = match (dot, slash) {
        (Some(di), Some(sl)) => (di > sl && di - sl > 1, di),
        (Some(di), None) => (di > 0, di),
        (None, _) => (false, 0),
    };
    assert(with_ext == has_extension(path@));
    if !with_ext {
        return false;
    }
    let vlen = v.len();
    let mut e: Vec<char> = Vec::new();
    extend_from(&mut e, &v, d + 1, vlen);
    proof {
        assert(v@.subrange(d + 1, v@.len() as int) =~= v@.skip(d + 1));
        assert(e@ == extension_of(path@)->Some_0);
    }
    matches_ci(&e, &chars_of("jpg")) || matches_ci(&e, &chars_of("jpeg")) || matches_ci(
        &e,
        &chars_of("png"),
    ) || matches_ci(&e, &chars_of("gif")) || matches_ci(&e, &chars_of("bmp")) || matches_ci(
        &e,
        &chars_of("tiff"),
    ) || matches_ci(&e, &chars_of("webp"))
}

/// One planned unit of work: an input file and its derived output path.
/// Created during batch planning and consumed exactly once.
#[derive(Clone, Debug)]
pub struct FileTask {
    pub input: String,
    pub output: String,
}

impl View for FileTask {
    type V = (Seq<char>, Seq<char>);

    open spec fn view(&self) -> (Seq<char>, Seq<char>) {
        (self.input@, self.output@)
    }
}

/// The tasks a batch over `files` runs: one per supported image, in
/// discovery order, each mapped to its mirrored output path.
pub open spec fn planned_tasks(
    files: Seq<Seq<char>>,
    input_root: Seq<char>,
    output_root: Seq<char>,
    fmt: Seq<char>,
) -> Seq<(Seq<char>, Seq<char>)>
    decreases files.len(),
{
    if files.len() == 0 {
        Seq::empty()
    } else {
        let front = planned_tasks(files.drop_last(), input_root, output_root, fmt);
        let p = files.last();
        if supported_image(p) {
            front.push((p, mapped_output_path(p, input_root, output_root, fmt)))
        } else {
            front
        }
    }
}

/// How many of the discovered files the batch keeps.
pub open spec fn supported_count(files: Seq<Seq<char>>) -> nat
    decreases files.len(),
{
    if files.len() == 0 {
        0
    } else {
        supported_count(files.drop_last()) + if supported_image(files.last()) {
            1nat
        } else {
            0nat
        }
    }
}

/// A batch plan is exact: it holds one task per discovered file with a
/// supported image extension and nothing else, so unsupported files are
/// skipped without a trace, and every planned task pairs a supported
/// input with its mapped output path.
pub proof fn lemma_planned_tasks_exact(
    files: Seq<Seq<char>>,
    input_root: Seq<char>,
    output_root: Seq<char>,
    fmt: Seq<char>,
)
    ensures
        planned_tasks(files, input_root, output_root, fmt).len() == supported_count(files),
        forall|k: int|
            0 <= k < planned_tasks(files, input_root, output_root, fmt).len() ==> {
                let task = #[trigger] planned_tasks(files, input_root, output_root, fmt)[k];
                supported_image(task.0) && task.1 == mapped_output_path(
                    task.0,
                    input_root,
                    output_root,
                    fmt,
                )
            },
    decreases files.len(),
{
    if files.len() > 0 {
        lemma_planned_tasks_exact(files.drop_last(), input_root, output_root, fmt);
    }
}

/// Plans a batch: keeps the discovered files with a supported image
/// extension, maps each to its output path, and rejects a batch that
/// would do no work. Unsupported files are skipped silently; a batch
/// with no supported file at all is the one hard failure, raised before
/// any work starts. The walk only yields paths below the input root,
/// which the caller guarantees for the files it keeps.
pub fn plan_batch(files: &Vec<String>, input_root: &str, output_root: &str, format: &str) -> (r:
    Result<Vec<FileTask>, ConvertError>)
    requires
        forall|i: int|
            0 <= i < files@.len() && supported_image(#[trigger] files@[i]@) ==> is_under(
                files@[i]@,
                input_root@,
            ),
    ensures
        ({
            let planned = planned_tasks(
                files@.map_values(|f: String| f@),
                input_root@,
                output_root@,
                format@,
            );
            match r {
                Ok(tasks) => planned.len() > 0 && tasks@.map_values(|t: FileTask| t@) == planned,
                Err(e) => e == ConvertError::NoImagesFound && planned.len() == 0,
            }
        }),
{
    let ghost fviews = files@.map_values(|f: String| f@);
    let mut tasks: Vec<FileTask> = Vec::new();
    let mut i: usize = 0;
    while i < files.len()
        invariant
            i <= files@.len(),
            fviews == files@.map_values(|f: String| f@),
            forall|j: int|
                0 <= j < files@.len() && supported_image(#[trigger] files@[j]@) ==> is_under(
                    files@[j]@,
                    input_root@,
                ),
            tasks@.map_values(|t: FileTask| t@) == planned_tasks(
                fviews.take(i as int),
                input_root@,
                output_root@,
                format@,
            ),
        decreases files@.len() - i,
    {
        proof {
            assert(fviews.take(i + 1).drop_last() =~= fviews.take(i as int));
            assert(fviews.take(i + 1).last() == files@[i as int]@);
        }
        if is_supported_image(files[i].as_str()) {
            let output = get_output_path(files[i].as_str(), input_root, output_root, format);
            let task = FileTask { input: files[i].clone(), output };
            let ghost old_tasks = tasks@;
            tasks.push(task);
            proof {
                assert(tasks@.map_values(|t: FileTask| t@) =~= old_tasks.map_values(
                    |t: FileTask| t@,
                ).push(task@));
            }
        }
        i = i + 1;
    }
    proof {
        assert(fviews.take(files@.len() as int) =~= fviews);
    }
    if tasks.len() == 0 {
        Err(ConvertError::NoImagesFound)
    } else {
        proof {
            assert(planned_tasks(fviews, input_root@, output_root@, format@).len() == tasks@
                .map_values(|t: FileTask| t@).len());
        }
        Ok(tasks)
    }
}

/// The per-file result of one transform: success, or the input path
/// with a human-readable cause. A failure never aborts the batch.
#[derive(Clone, Debug)]
pub enum Outcome {
    Success,
    Failure { input: String, cause: String },
}

/// Whether an outcome records a failure.
pub open spec fn spec_is_failure(o: Outcome) -> bool {
    match o {
        Outcome::Success => false,
        Outcome::Failure { .. } => true,
    }
}

impl Outcome {
    /// Whether this outcome records a failure.
    pub fn is_failure(&self) -> (b: bool)
        ensures
            b == spec_is_failure(*self),
    {
        match self {
            Outcome::Success => false,
            Outcome::Failure { .. } => true,
        }
    }
}

/// How many of the outcomes record a failure.
pub open spec fn failure_count(s: Seq<Outcome>) -> nat
    decreases s.len(),
{
    if s.len() == 0 {
        0
    } else {
        failure_count(s.drop_last()) + if spec_is_failure(s.last()) {
            1nat
        } else {
            0nat
        }
    }
}

/// The final tally of a batch run: how many tasks ran and how many of
/// them failed. The run itself succeeds whatever the tally says; only
/// an empty plan aborts a batch.
#[derive(Clone, Copy, Debug, PartialEq, Eq, Structural)]
pub struct BatchSummary {
    pub total: usize,
    pub failures: usize,
}

/// Aggregates the collected per-file outcomes into the final tally.
pub fn summarize(outcomes: &Vec<Outcome>) -> (s: BatchSummary)
    ensures
        s.total == outcomes@.len(),
        s.failures == failure_count(outcomes@),
        s.failures <= s.total,
{
    let mut failures: usize = 0;
    let mut i: usize = 0;
    while i < outcomes.len()
        invariant
            i <= outcomes@.len(),
            failures == failure_count(outcomes@.take(i as int)),
            failures <= i,
        decreases outcomes@.len() - i,
    {
        proof {
            assert(outcomes@.take(i + 1).drop_last() =~= outcomes@.take(i as int));
            assert(outcomes@.take(i + 1).last() == outcomes@[i as int]);
        }
        if outcomes[i].is_failure() {
            failures = failures + 1;
        }
        i = i + 1;
    }
    proof {
        assert(outcomes@.take(outcomes@.len() as int) =~= outcomes@);
    }
    BatchSummary { total: outcomes.len(), failures }
}

} // verus!
