//! Configurations as types of their own.
//!
//! A type that stands for a configuration implements `FromEnv`: its `load`
//! takes a file into the environment and binds each field by its rule
//! (`Rule::bind_scalar`, `Rule::bind_list`, or the `load` of a nested
//! configuration). The load over several candidate files, `load_iter`,
//! comes with the trait.

use crate::dotenv::{kept, lemma_kept_twice, make_no_file_error, no_file_error, FileRead};
use crate::env::Env;
use crate::error::{CfgError, CfgErrorView};
use vstd::prelude::*;

verus! {

/// A configuration that can be loaded from a source environment.
pub trait FromEnv: Sized {
    /// Whether a load of this type, given the environment `before` and
    /// what the read of a file gave, can leave the environment `after`
    /// and end in `r`. A type that says nothing here allows everything.
    open spec fn loads(
        before: Map<Seq<char>, Seq<char>>,
        file: FileRead,
        after: Map<Seq<char>, Seq<char>>,
        r: Result<Self, CfgError>,
    ) -> bool {
        true
    }

    /// Takes the file behind `file` into `env` and binds the fields.
    /// A load replaces no value that `env` holds.
    fn load(env: &mut Env, file: &FileRead) -> (r: Result<Self, CfgError>)
        ensures
            kept(old(env)@, final(env)@),
            Self::loads(old(env)@, *file, final(env)@, r),
    ;

    /// Loads from each of the candidate files in turn, each in the
    /// environment as the load before it left it, up to the first with
    /// which the load goes through, and returns what `first_of` makes of
    /// the outcomes: the configuration of that candidate; where none goes
    /// through, the error of the last candidate; without any candidate,
    /// the error that says that no file was found.
    fn load_iter(env: &mut Env, files: &Vec<FileRead>) -> (r: Result<Self, CfgError>)
        ensures
            kept(old(env)@, final(env)@),
            files.len() == 0 ==> (r matches Err(e) && e@ == no_file_error()) && final(env)@
                == old(env)@,
            loads_first(
                |a: Map<Seq<char>, Seq<char>>, f: FileRead, b: Map<Seq<char>, Seq<char>>, o: Result<
                    Self,
                    CfgError,
                >|
                    Self::loads(a, f, b, o),
                old(env)@,
                files@,
                final(env)@,
                r,
            ),
    {
        let n: usize = files.len();
        let mut outcomes: Vec<Result<Self, CfgError>> = Vec::new();
        let mut done: bool = false;
        let mut i: usize = 0;
        let ghost mut envs: Seq<Map<Seq<char>, Seq<char>>> = seq![env@];
        while i < n && !done
            invariant
                i <= n,
                n == files.len(),
                kept(old(env)@, env@),
                outcomes.len() == i,
                forall|j: int| 0 <= j < i - 1 ==> (#[trigger] outcomes[j]) is Err,
                i > 0 ==> done == (outcomes[i - 1] is Ok),
                i == 0 ==> !done,
                envs.len() == i + 1,
                envs[0] == old(env)@,
                envs[i as int] == env@,
                forall|j: int|
                    0 <= j < i ==> Self::loads(
                        envs[j],
                        files@[j],
                        envs[j + 1],
                        #[trigger] outcomes@[j],
                    ),
            decreases n - i,
        {
            let ghost before = env@;
            let outcome = Self::load(env, &files[i]);
            proof {
                lemma_kept_twice(old(env)@, before, env@);
                envs = envs.push(env@);
            }
            done = outcome.is_ok();
            outcomes.push(outcome);
            i += 1;
        }
        proof {
            assert(loads_in_order(
                |a: Map<Seq<char>, Seq<char>>, f: FileRead, b: Map<Seq<char>, Seq<char>>, o: Result<
                    Self,
                    CfgError,
                >|
                    Self::loads(a, f, b, o),
                files@,
                envs,
                outcomes@,
            ));
        }
        first_of(outcomes)
    }
}

/// An outcome of a load with its error as a mathematical value.
pub open spec fn typed_outcome<T>(r: Result<T, CfgError>) -> Result<T, CfgErrorView> {
    match r {
        Ok(v) => Ok(v),
        Err(e) => Err(e@),
    }
}

/// What a load over candidates ends in, given the outcomes of the loads
/// in the order of the candidates: the first configuration among them;
/// where every load failed, the error of the last one; without any
/// outcome, the error that says that no file was found.
pub open spec fn first_outcome<T>(outcomes: Seq<Result<T, CfgError>>) -> Result<T, CfgErrorView>
    decreases outcomes.len(),
{
    if outcomes.len() == 0 {
        Err(no_file_error())
    } else {
        match outcomes[0] {
            Ok(v) => Ok(v),
            Err(e) => if outcomes.len() == 1 {
                Err(e@)
            } else {
                first_outcome(outcomes.skip(1))
            },
        }
    }
}

/// Whether `outcomes` can be the outcomes of loads over `candidates`
/// files tried in order up to the first that goes through: every load
/// but the last failed, and a load that failed is the last only where
/// no candidate is left.
pub open spec fn tried_in_order<T>(candidates: nat, outcomes: Seq<Result<T, CfgError>>) -> bool {
    &&& outcomes.len() <= candidates
    &&& candidates > 0 ==> outcomes.len() > 0
    &&& forall|j: int| 0 <= j < outcomes.len() - 1 ==> (#[trigger] outcomes[j]) is Err
    &&& 0 < outcomes.len() < candidates ==> outcomes.last() is Ok
}

/// Whether `outcomes` are the outcomes of loads of the candidates `files`
/// in their order, each begun in the environment that the one before it
/// left: `envs` holds the environment before the first load and the one
/// after each, and `loads` says what a load can do.
pub open spec fn loads_in_order<T>(
    loads: spec_fn(
        Map<Seq<char>, Seq<char>>,
        FileRead,
        Map<Seq<char>, Seq<char>>,
        Result<T, CfgError>,
    ) -> bool,
    files: Seq<FileRead>,
    envs: Seq<Map<Seq<char>, Seq<char>>>,
    outcomes: Seq<Result<T, CfgError>>,
) -> bool {
    &&& outcomes.len() <= files.len()
    &&& envs.len() == outcomes.len() + 1
    &&& forall|j: int|
        0 <= j < outcomes.len() ==> loads(envs[j], files[j], envs[j + 1], #[trigger] outcomes[j])
}

/// Whether a load of a `T` over the candidates `files`, begun in the
/// environment `before`, can leave `after` and end in `r`, where `loads`
/// says what a load of one candidate can do: the candidates
/// are loaded in order, each in the environment as the one before it
/// left it, up to the first that goes through, and `r` is what
/// `first_outcome` makes of their outcomes.
pub open spec fn loads_first<T>(
    loads: spec_fn(
        Map<Seq<char>, Seq<char>>,
        FileRead,
        Map<Seq<char>, Seq<char>>,
        Result<T, CfgError>,
    ) -> bool,
    before: Map<Seq<char>, Seq<char>>,
    files: Seq<FileRead>,
    after: Map<Seq<char>, Seq<char>>,
    r: Result<T, CfgError>,
) -> bool {
    exists|envs: Seq<Map<Seq<char>, Seq<char>>>, outcomes: Seq<Result<T, CfgError>>|
        #[trigger] loads_in_order(loads, files, envs, outcomes) && envs[0] == before && envs.last()
            == after && tried_in_order(files.len(), outcomes) && typed_outcome(r) == first_outcome(
            outcomes,
        )
}

/// Decides what a load over candidates ends in, from the outcomes of the
/// loads in the order of the candidates.
pub fn first_of<T>(outcomes: Vec<Result<T, CfgError>>) -> (r: Result<T, CfgError>)
    ensures
        typed_outcome(r) == first_outcome(outcomes@),
{
    let ghost all = outcomes@;
    let mut left = outcomes;
    let mut found: Result<T, CfgError> = Err(make_no_file_error());
    let mut behind: bool = false;
    while left.len() > 0
        invariant
            left.len() <= all.len(),
            left@ == all.take(left.len() as int),
            behind == (left.len() < all.len()),
            typed_outcome(found) == first_outcome(all.skip(left.len() as int)),
        decreases left.len(),
    {
        let ghost at = left.len() - 1;
        let outcome = left.pop();
        proof {
            assert(all.skip(at).skip(1) =~= all.skip(at + 1));
        }
        match outcome {
            Some(Ok(v)) => {
                found = Ok(v);
            },
            Some(Err(e)) => {
                if !behind {
                    found = Err(e);
                }
            },
            None => {},
        }
        behind = true;
    }
    proof {
        assert(all.skip(0) =~= all);
    }
    found
}

/// The default of a type that is no configuration of its own. No source
/// is read and `file` is not looked at.
pub fn load_or_default<T: Default>(file: &FileRead) -> (r: Result<T, CfgError>)
    ensures
        r matches Ok(v) && call_ensures(T::default, (), v),
{
    Ok(T::default())
}

} // verus!
