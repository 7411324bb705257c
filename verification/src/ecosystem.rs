//! The three supported ecosystems and the fixed names each one brings: its
//! manifest and lock files, its package-manager executable, and the
//! commands the tool runs.

use vstd::prelude::*;

use crate::model::strings_view;

verus! {

/// One supported ecosystem.
#[derive(Clone, Copy, PartialEq, Eq, Structural, Debug)]
pub enum Ecosystem {
    Cargo,
    Npm,
    Composer,
}

impl Ecosystem {
    /// Name of the ecosystem's manifest file.
    pub open spec fn manifest_name(self) -> Seq<char> {
        match self {
            Ecosystem::Cargo => "Cargo.toml"@,
            Ecosystem::Npm => "package.json"@,
            Ecosystem::Composer => "composer.json"@,
        }
    }

    /// Name of the ecosystem's lock file.
    pub open spec fn lock_name(self) -> Seq<char> {
        match self {
            Ecosystem::Cargo => "Cargo.lock"@,
            Ecosystem::Npm => "package-lock.json"@,
            Ecosystem::Composer => "composer.lock"@,
        }
    }

    /// Name of the ecosystem's package-manager executable.
    pub open spec fn tool_name(self) -> Seq<char> {
        match self {
            Ecosystem::Cargo => "cargo"@,
            Ecosystem::Npm => "npm"@,
            Ecosystem::Composer => "composer"@,
        }
    }

    /// The verbosity argument the ecosystem's update command takes.
    pub open spec fn verbose_flag(self) -> Seq<char> {
        match self {
            Ecosystem::Cargo => "--verbose"@,
            Ecosystem::Npm => "--verbose"@,
            Ecosystem::Composer => "-v"@,
        }
    }

    /// Returns the manifest file name.
    pub fn manifest_file(&self) -> (r: String)
        ensures
            r@ == self.manifest_name(),
    {
        match self {
            Ecosystem::Cargo => String::from_str("Cargo.toml"),
            Ecosystem::Npm => String::from_str("package.json"),
            Ecosystem::Composer => String::from_str("composer.json"),
        }
    }

    /// Returns the lock file name.
    pub fn lock_file(&self) -> (r: String)
        ensures
            r@ == self.lock_name(),
    {
        match self {
            Ecosystem::Cargo => String::from_str("Cargo.lock"),
            Ecosystem::Npm => String::from_str("package-lock.json"),
            Ecosystem::Composer => String::from_str("composer.lock"),
        }
    }

    /// Returns the package-manager executable name.
    pub fn tool(&self) -> (r: String)
        ensures
            r@ == self.tool_name(),
    {
        match self {
            Ecosystem::Cargo => String::from_str("cargo"),
            Ecosystem::Npm => String::from_str("npm"),
            Ecosystem::Composer => String::from_str("composer"),
        }
    }

    /// Arguments of the command that refreshes the lock file: the update
    /// subcommand, with the ecosystem's verbosity flag when asked for.
    pub fn update_args(&self, verbose: bool) -> (r: Vec<String>)
        ensures
            strings_view(r@) == (if verbose {
                seq!["update"@, self.verbose_flag()]
            } else {
                seq!["update"@]
            }),
    {
        let mut args: Vec<String> = Vec::new();
        args.push(String::from_str("update"));
        if verbose {
            match self {
                Ecosystem::Cargo => args.push(String::from_str("--verbose")),
                Ecosystem::Npm => args.push(String::from_str("--verbose")),
                Ecosystem::Composer => args.push(String::from_str("-v")),
            }
            proof {
                assert(strings_view(args@) =~= seq!["update"@, self.verbose_flag()]);
            }
        } else {
            proof {
                assert(strings_view(args@) =~= seq!["update"@]);
            }
        }
        args
    }

    /// Arguments of the command that lists outdated packages in JSON form;
    /// the TOML ecosystem resolves from the reference table instead and
    /// runs none.
    pub fn outdated_args(&self) -> (r: Option<Vec<String>>)
        ensures
            self is Cargo <==> r is None,
            r matches Some(args) ==> strings_view(args@) == (if self is Npm {
                seq!["outdated"@, "--json"@]
            } else {
                seq!["outdated"@, "-D"@, "--format=json"@]
            }),
    {
        match self {
            Ecosystem::Cargo => None,
            Ecosystem::Npm => {
                let mut args: Vec<String> = Vec::new();
                args.push(String::from_str("outdated"));
                args.push(String::from_str("--json"));
                proof {
                    assert(strings_view(args@) =~= seq!["outdated"@, "--json"@]);
                }
                Some(args)
            },
            Ecosystem::Composer => {
                let mut args: Vec<String> = Vec::new();
                args.push(String::from_str("outdated"));
                args.push(String::from_str("-D"));
                args.push(String::from_str("--format=json"));
                proof {
                    assert(strings_view(args@) =~= seq!["outdated"@, "-D"@, "--format=json"@]);
                }
                Some(args)
            },
        }
    }
}

} // verus!
