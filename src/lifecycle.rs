//! The decisions taken when a fixture is generated, loaded or compacted. The
//! filesystem and the store engine are driven by the caller, which hands in
//! what it observed.
//!
//! Generation assumes a single operator: the check that the backing file
//! exists and the writes that follow are not atomic as a unit.

use vstd::prelude::*;
use crate::descriptor::{state_of_json, FixtureStateView, LmdbFixtureState};
use crate::error::{DescriptorFault, FixtureError};
use crate::hash::StateHash;
use crate::layout::{
    fixture_dir_of, path_view, state_file_of, valid_fixture_name, FixturePaths, FixturesRoot,
    STATE_JSON_FILE,
};

verus! {

/// What `generate` does for a name.
#[derive(Clone, Debug)]
pub enum GenerationPlan {
    /// The store's backing file is there already: nothing is written, and
    /// this is reported, not failed.
    AlreadyExists { data_file: Vec<String> },
    /// Build the store, write the descriptor and compact, at these paths.
    Create { paths: FixturePaths },
}

/// Where a load copies from and what it opens in the copy.
#[derive(Clone, Debug)]
pub struct LoadPlan {
    /// The fixture directory, which is only ever copied.
    pub source_dir: Vec<String>,
    /// The copy, relative to the private workspace.
    pub copied_dir: Vec<String>,
    /// The copied descriptor, relative to the private workspace.
    pub copied_state_file: Vec<String>,
}

/// How a store is reopened so that the engine drops its unused space.
#[derive(Clone, Copy, Debug, PartialEq, Eq, Structural)]
pub struct CompactionSettings {
    pub write_map: bool,
    pub no_sub_dir: bool,
    pub max_dbs: u32,
    pub map_size: usize,
}

/// What compaction did to the size of a backing file.
#[derive(Clone, Copy, Debug, PartialEq, Eq, Structural)]
pub enum ShrinkOutcome {
    Reduced { before: u64, after: u64, saved: u64 },
    NotReduced { before: u64, after: u64 },
}

/// Decides what generating fixture `name` under `root` does, given whether
/// its backing file exists. An existing fixture is never overwritten.
pub fn plan_generation(root: &FixturesRoot, name: &str, data_file_exists: bool) -> (r: Result<
    GenerationPlan,
    FixtureError,
>)
    ensures
        match r {
            Ok(GenerationPlan::AlreadyExists { data_file }) => valid_fixture_name(name@)
                && data_file_exists && path_view(data_file@) == crate::layout::data_file_of(
                root@,
                name@,
            ),
            Ok(GenerationPlan::Create { paths }) => valid_fixture_name(name@)
                && !data_file_exists && paths.of(root@, name@),
            Err(e) => !valid_fixture_name(name@) && e is InvalidName,
        },
{
    let paths = match root.fixture_paths(name) {
        Ok(p) => p,
        Err(e) => {
            return Err(e);
        },
    };
    if data_file_exists {
        Ok(GenerationPlan::AlreadyExists { data_file: paths.data_file })
    } else {
        Ok(GenerationPlan::Create { paths })
    }
}

/// Decides where loading fixture `name` copies from and what it reads in
/// the copy: `<workspace>/<name>` and `<workspace>/<name>/state.json`.
pub fn plan_load(root: &FixturesRoot, name: &str) -> (r: Result<LoadPlan, FixtureError>)
    ensures
        match r {
            Ok(p) => valid_fixture_name(name@) && path_view(p.source_dir@) == fixture_dir_of(
                root@,
                name@,
            ) && path_view(p.copied_dir@) == seq![name@] && path_view(p.copied_state_file@)
                == state_file_of(Seq::empty(), name@),
            Err(e) => !valid_fixture_name(name@) && e is InvalidName,
        },
{
    let paths = match root.fixture_paths(name) {
        Ok(p) => p,
        Err(e) => {
            return Err(e);
        },
    };
    let mut copied_dir: Vec<String> = Vec::new();
    copied_dir.push(String::from_str(name));
    let mut copied_state_file: Vec<String> = Vec::new();
    copied_state_file.push(String::from_str(name));
    copied_state_file.push(String::from_str(STATE_JSON_FILE));
    assert(path_view(copied_dir@) =~= seq![name@]);
    assert(path_view(copied_state_file@) =~= state_file_of(Seq::empty(), name@));
    Ok(LoadPlan { source_dir: paths.dir, copied_dir, copied_state_file })
}

/// Reads the descriptor of fixture `name` from the text of its copy.
pub fn load_descriptor(name: &str, doc: &str) -> (r: Result<LmdbFixtureState, FixtureError>)
    ensures
        match r {
            Ok(s) => state_of_json(doc@) == Ok::<FixtureStateView, DescriptorFault>(s@) && s.wf(),
            Err(e) => e is Serialization && e->Serialization_name@ == name@ && state_of_json(doc@)
                == Err::<FixtureStateView, DescriptorFault>(e->Serialization_fault),
        },
{
    match LmdbFixtureState::from_json(doc) {
        Ok(s) => Ok(s),
        Err(fault) => Err(FixtureError::Serialization { name: String::from_str(name), fault }),
    }
}

/// Checks the store opened from a copy of fixture `name`: `opened` is the
/// root digest the store holds a state for, `None` where the recorded one
/// is not there. Succeeds exactly when it is the recorded digest.
pub fn check_opened_root(name: &str, state: &LmdbFixtureState, opened: Option<StateHash>) -> (r:
    Result<(), FixtureError>)
    ensures
        r is Ok <==> (opened is Some && opened.unwrap()@ == state@.post_state_hash),
        match r {
            Ok(_) => true,
            Err(e) => e is StoreOpen && e->StoreOpen_name@ == name@ && e->StoreOpen_expected@
                == state@.post_state_hash && match e->StoreOpen_observed {
                Some(o) => opened is Some && o@ == opened.unwrap()@,
                None => opened is None,
            },
        },
{
    let matches = match &opened {
        Some(h) => h.same_as(&state.post_state_hash),
        None => false,
    };
    if matches {
        Ok(())
    } else {
        let expected = StateHash::copied(&state.post_state_hash);
        Err(FixtureError::StoreOpen { name: String::from_str(name), expected, observed: opened })
    }
}

/// The settings compaction reopens a store with: the store is a single
/// file, mapped for writing, with room for 100 databases and the smallest
/// map the engine allows.
pub fn compaction_settings() -> (r: CompactionSettings)
    ensures
        r == (CompactionSettings { write_map: true, no_sub_dir: true, max_dbs: 100, map_size: 1 }),
{
    CompactionSettings { write_map: true, no_sub_dir: true, max_dbs: 100, map_size: 1 }
}

/// What compaction did, from the backing file's size before and after.
/// A file that did not shrink is no failure.
pub fn shrink_outcome(before: u64, after: u64) -> (r: ShrinkOutcome)
    ensures
        before > after ==> r == (ShrinkOutcome::Reduced { before, after, saved: (before - after) as u64 }),
        before <= after ==> r == (ShrinkOutcome::NotReduced { before, after }),
{
    if before > after {
        ShrinkOutcome::Reduced { before, after, saved: before - after }
    } else {
        ShrinkOutcome::NotReduced { before, after }
    }
}

} // verus!
