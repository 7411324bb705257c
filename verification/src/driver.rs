//! The driver's decisions: given what the target directory holds and which
//! package managers are installed, which ecosystems run, which are skipped
//! with a warning, and whether the ignore-file is brought up to date.

use vstd::prelude::*;

use crate::ecosystem::Ecosystem;

verus! {

/// The tool's configuration, fixed at startup.
pub struct RunConfig {
    /// Whether backups are made before manifests are rewritten.
    pub backup: bool,
    /// Whether debug-level messages print, and whether the package
    /// managers run with their verbosity flag.
    pub verbose: bool,
    /// Whether the run restores from backups instead of updating.
    pub revert: bool,
}

/// What a look at the target directory found.
pub struct DirScan {
    pub has_composer_manifest: bool,
    pub composer_available: bool,
    pub has_npm_manifest: bool,
    pub npm_available: bool,
    pub has_cargo_manifest: bool,
    pub cargo_available: bool,
    pub has_git_dir: bool,
}

/// The ecosystems an update run processes, in the fixed order the tool
/// uses: each one whose manifest is present and whose package manager is
/// installed.
pub open spec fn ecosystems_to_run(scan: DirScan) -> Seq<Ecosystem> {
    (if scan.has_composer_manifest && scan.composer_available {
        seq![Ecosystem::Composer]
    } else {
        Seq::empty()
    }) + (if scan.has_npm_manifest && scan.npm_available {
        seq![Ecosystem::Npm]
    } else {
        Seq::empty()
    }) + (if scan.has_cargo_manifest && scan.cargo_available {
        seq![Ecosystem::Cargo]
    } else {
        Seq::empty()
    })
}

/// The ecosystems an update run skips with a warning: each one whose
/// manifest is present while its package manager is not installed.
pub open spec fn ecosystems_skipped(scan: DirScan) -> Seq<Ecosystem> {
    (if scan.has_composer_manifest && !scan.composer_available {
        seq![Ecosystem::Composer]
    } else {
        Seq::empty()
    }) + (if scan.has_npm_manifest && !scan.npm_available {
        seq![Ecosystem::Npm]
    } else {
        Seq::empty()
    }) + (if scan.has_cargo_manifest && !scan.cargo_available {
        seq![Ecosystem::Cargo]
    } else {
        Seq::empty()
    })
}

/// The plan of one run.
pub struct RunPlan {
    /// Whether the ignore-file is brought up to date before the
    /// ecosystems are processed.
    pub ensure_ignore_file: bool,
    /// The ecosystems to process, in order.
    pub run: Vec<Ecosystem>,
    /// The ecosystems skipped because their package manager is missing.
    pub skipped: Vec<Ecosystem>,
    /// Whether any ecosystem is processed; when false the run ends with a
    /// notice instead of a success message.
    pub packages_found: bool,
}

/// Plans one run.  A revert run processes no ecosystem and touches no
/// ignore-file; an update run touches the ignore-file only when backups
/// are enabled and a version-control directory is present, and processes
/// exactly the ecosystems whose manifest and package manager are both
/// found.
pub fn plan_run(config: &RunConfig, scan: &DirScan) -> (r: RunPlan)
    ensures
        r.ensure_ignore_file == (!config.revert && config.backup && scan.has_git_dir),
        r.run@ == (if config.revert {
            Seq::<Ecosystem>::empty()
        } else {
            ecosystems_to_run(*scan)
        }),
        r.skipped@ == (if config.revert {
            Seq::<Ecosystem>::empty()
        } else {
            ecosystems_skipped(*scan)
        }),
        r.packages_found == (!config.revert && ecosystems_to_run(*scan).len() > 0),
{
    let mut run: Vec<Ecosystem> = Vec::new();
    let mut skipped: Vec<Ecosystem> = Vec::new();
    if config.revert {
        return RunPlan {
            ensure_ignore_file: false,
            run,
            skipped,
            packages_found: false,
        };
    }
    if scan.has_composer_manifest {
        if scan.composer_available {
            run.push(Ecosystem::Composer);
        } else {
            skipped.push(Ecosystem::Composer);
        }
    }
    if scan.has_npm_manifest {
        if scan.npm_available {
            run.push(Ecosystem::Npm);
        } else {
            skipped.push(Ecosystem::Npm);
        }
    }
    if scan.has_cargo_manifest {
        if scan.cargo_available {
            run.push(Ecosystem::Cargo);
        } else {
            skipped.push(Ecosystem::Cargo);
        }
    }
    proof {
        assert(run@ =~= ecosystems_to_run(*scan));
        assert(skipped@ =~= ecosystems_skipped(*scan));
    }
    let packages_found = run.len() > 0;
    RunPlan {
        ensure_ignore_file: config.backup && scan.has_git_dir,
        run,
        skipped,
        packages_found,
    }
}

} // verus!
