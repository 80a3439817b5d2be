//! The structured errors of the project-layout reader, and the decision of
//! when a whole load fails.
//!
//! The reading itself is file input done by the surrounding program; the
//! library holds the error taxonomy and the rule that a load of fuzz
//! targets fails only when no target at all is readable.

use vstd::prelude::*;

verus! {

broadcast use vstd::std_specs::vec::group_vec_axioms;

/// Why one fuzz target could not be loaded: the cause of the read failure,
/// or a file that is not a Rust source file, named by its path.
#[derive(Debug, PartialEq, Eq)]
pub enum FuzzTargetError {
    IoError(String),
    ExtensionError(String),
}

/// Why the fuzz-target folder could not be loaded: the folder itself was
/// unreadable, or no target at all was readable.
#[derive(Debug, PartialEq, Eq)]
pub enum FuzzTargetsError {
    IoError(String),
    NoFuzzTargets(Vec<FuzzTargetError>),
}

/// Why the build script could not be loaded.
#[derive(Debug, PartialEq, Eq)]
pub enum BuildRsError {
    IoError(String),
}

/// Why the corpora folder could not be loaded.
#[derive(Debug, PartialEq, Eq)]
pub enum CorporaError {
    IoError(String),
    CorpusIsNotDirectory(String),
}

/// One per-file outcome of reading the fuzz-target folder: the file's
/// name with its content, or the error it produced.
pub enum TargetOutcome {
    Loaded(String, Vec<u8>),
    Failed(FuzzTargetError),
}

/// How many outcomes are loaded targets.
pub open spec fn count_loaded(outcomes: Seq<TargetOutcome>) -> int
    decreases outcomes.len(),
{
    if outcomes.len() == 0 {
        0
    } else {
        count_loaded(outcomes.drop_last()) + if outcomes.last() is Loaded {
            1int
        } else {
            0int
        }
    }
}

/// The loaded targets, in order, as (name, content) views.
pub open spec fn loaded_targets(outcomes: Seq<TargetOutcome>) -> Seq<(Seq<char>, Seq<u8>)>
    decreases outcomes.len(),
{
    if outcomes.len() == 0 {
        Seq::empty()
    } else {
        let rest = loaded_targets(outcomes.drop_last());
        match outcomes.last() {
            TargetOutcome::Loaded(name, content) => rest.push((name@, content@)),
            TargetOutcome::Failed(_) => rest,
        }
    }
}

/// The per-file errors, in order.
pub open spec fn failed_errors(outcomes: Seq<TargetOutcome>) -> Seq<FuzzTargetError>
    decreases outcomes.len(),
{
    if outcomes.len() == 0 {
        Seq::empty()
    } else {
        let rest = failed_errors(outcomes.drop_last());
        match outcomes.last() {
            TargetOutcome::Loaded(_, _) => rest,
            TargetOutcome::Failed(e) => rest.push(e),
        }
    }
}

/// Collects the fuzz targets that were read. Per-file errors are
/// accumulated; the whole load fails exactly when not one target was
/// readable.
pub fn collect_fuzz_targets(outcomes: Vec<TargetOutcome>) -> (r: Result<
    Vec<(String, Vec<u8>)>,
    FuzzTargetsError,
>)
    ensures
        r is Ok <==> count_loaded(outcomes@) > 0,
        (r matches Result::Ok(ts) ==> ts@.len() == count_loaded(outcomes@)),
        (r matches Result::Ok(ts) ==> ts.deep_view() == loaded_targets(outcomes@)),
        (r matches Result::Err(e) ==> (e matches FuzzTargetsError::NoFuzzTargets(es) && es@
            == failed_errors(outcomes@))),
{
    let ghost ov = outcomes@;
    let mut targets: Vec<(String, Vec<u8>)> = Vec::new();
    let mut errors: Vec<FuzzTargetError> = Vec::new();
    let n = outcomes.len();
    let mut rest = outcomes;
    let mut i: usize = 0;
    while i < n
        invariant
            n == ov.len(),
            rest@ == ov.skip(i as int),
            0 <= i <= n,
            targets@.len() == count_loaded(ov.take(i as int)),
            targets.deep_view() == loaded_targets(ov.take(i as int)),
            errors@ == failed_errors(ov.take(i as int)),
        decreases n - i,
    {
        proof {
            assert(ov.skip(i as int)[0] == ov[i as int]);
            assert(ov.skip(i as int).remove(0) =~= ov.skip(i + 1));
            assert(ov.take(i + 1).drop_last() =~= ov.take(i as int));
            assert(ov.take(i + 1).last() == ov[i as int]);
        }
        let ghost tv0 = targets.deep_view();
        let ghost ev0 = errors@;
        let outcome = rest.remove(0);
        match outcome {
            TargetOutcome::Loaded(name, content) => {
                let ghost nv = name@;
                let ghost cv = content@;
                proof {
                    assert(content.deep_view() =~= content@);
                    assert(name.deep_view() == name@);
                }
                targets.push((name, content));
                proof {
                    assert(targets.deep_view() =~= tv0.push((nv, cv)));
                }
            },
            TargetOutcome::Failed(e) => {
                let ghost evv = e;
                errors.push(e);
                proof {
                    assert(errors@ =~= ev0.push(evv));
                }
            },
        }
        i = i + 1;
    }
    proof {
        assert(ov.take(n as int) =~= ov);
        lemma_count_loaded_nonneg(ov);
    }
    if targets.len() == 0 {
        Err(FuzzTargetsError::NoFuzzTargets(errors))
    } else {
        Ok(targets)
    }
}

proof fn lemma_count_loaded_nonneg(outcomes: Seq<TargetOutcome>)
    ensures
        count_loaded(outcomes) >= 0,
    decreases outcomes.len(),
{
    if outcomes.len() > 0 {
        lemma_count_loaded_nonneg(outcomes.drop_last());
    }
}

} // verus!
