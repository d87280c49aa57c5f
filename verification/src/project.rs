//! The project context: the working directory, the resolved
//! configuration and architecture, and the artifact paths, together
//! with the command plans the pipeline hands to its process runner.

use vstd::prelude::*;

use crate::arch::{spec_from_target, Arch};
use crate::codec::{encode_config, parse_config, spec_encode, spec_parse};
use crate::config::{spec_default_config, ProjectConfig};
use crate::errors::{Error, ErrorKind};

verus! {

/// A planned external-process invocation: the pipeline decides these,
/// an unverified runner executes them.
#[derive(Debug)]
pub struct CmdSpec {
    pub program: String,
    pub args: Vec<String>,
    pub current_dir: String,
}

/// Mathematical model of `CmdSpec`.
#[verifier::ext_equal]
pub struct CmdSpecV {
    pub program: Seq<char>,
    pub args: Seq<Seq<char>>,
    pub current_dir: Seq<char>,
}

impl View for CmdSpec {
    type V = CmdSpecV;

    open spec fn view(&self) -> CmdSpecV {
        CmdSpecV {
            program: self.program@,
            args: self.args.deep_view(),
            current_dir: self.current_dir@,
        }
    }
}

/// One package of the build metadata, reduced to what the pipeline
/// reads: its name and the names of its dependencies.
#[derive(Debug)]
pub struct PackageMeta {
    pub name: String,
    pub dependencies: Vec<String>,
}

/// Mathematical model of `PackageMeta`.
#[verifier::ext_equal]
pub struct PackageMetaV {
    pub name: Seq<char>,
    pub dependencies: Seq<Seq<char>>,
}

impl View for PackageMeta {
    type V = PackageMetaV;

    open spec fn view(&self) -> PackageMetaV {
        PackageMetaV { name: self.name@, dependencies: self.dependencies.deep_view() }
    }
}

/// The model of a package list.
pub open spec fn packages_view(v: Seq<PackageMeta>) -> Seq<PackageMetaV> {
    v.map_values(|p: PackageMeta| p@)
}

/// The first package of the list carrying `name`, if any.
pub open spec fn spec_find_package(ps: Seq<PackageMetaV>, name: Seq<char>) -> Option<PackageMetaV>
    decreases ps.len(),
{
    if ps.len() == 0 {
        None
    } else if ps[0].name == name {
        Some(ps[0])
    } else {
        spec_find_package(ps.skip(1), name)
    }
}

proof fn lemma_find_package_first(ps: Seq<PackageMetaV>, name: Seq<char>, i: int)
    requires
        0 <= i < ps.len(),
        ps[i].name == name,
        forall|j: int| 0 <= j < i ==> ps[j].name != name,
    ensures
        spec_find_package(ps, name) == Some(ps[i]),
    decreases i,
{
    if i > 0 {
        lemma_find_package_first(ps.skip(1), name, i - 1);
        assert(ps.skip(1)[i - 1] == ps[i]);
    }
}

proof fn lemma_find_package_none(ps: Seq<PackageMetaV>, name: Seq<char>)
    requires
        forall|j: int| 0 <= j < ps.len() ==> ps[j].name != name,
    ensures
        spec_find_package(ps, name) is None,
    decreases ps.len(),
{
    if ps.len() > 0 {
        lemma_find_package_none(ps.skip(1), name);
    }
}

/// The mutable state one pipeline run owns: working directory,
/// resolved configuration and architecture, and the artifact paths the
/// steps fill in.
#[derive(Debug)]
pub struct Project {
    pub workdir: String,

    pub config: ProjectConfig,
    pub arch: Arch,
    pub out_dir: Option<String>,
    pub elf_path: Option<String>,
    pub bin_path: Option<String>,
}

impl Project {
    /// The path of the project configuration file: an explicit path
    /// when one was given, else `.project.toml` under the working
    /// directory.
    pub fn config_path(workdir: &str, explicit: Option<String>) -> (r: String)
        ensures
            match explicit {
                Some(p) => r@ == p@,
                None => r@ == workdir@ + "/.project.toml"@,
            },
    {
        match explicit {
            Some(p) => p,
            None => workdir.to_owned().concat("/.project.toml"),
        }
    }

    /// Build the context from the configuration file's text, or
    /// synthesize the default configuration when the file is absent.
    /// The second result is the text to persist: it is present exactly
    /// when the configuration was synthesized, so a second run with
    /// the file in place writes nothing.
    pub fn new(workdir: String, file_text: Option<&str>) -> (r: Result<
        (Project, Option<String>),
        Error,
    >)
        requires
            file_text is Some ==> file_text->Some_0@.len() < usize::MAX,
        ensures
            match file_text {
                None => r is Ok && {
                    let (p, w) = r->Ok_0;
                    &&& p.config@ == spec_default_config(Arch::Aarch64)
                    &&& p.arch == Arch::Aarch64
                    &&& p.workdir@ == workdir@
                    &&& p.out_dir is None
                    &&& p.elf_path is None
                    &&& p.bin_path is None
                    &&& w is Some
                    &&& w->Some_0@ == spec_encode(spec_default_config(Arch::Aarch64))
                },
                Some(t) => match spec_parse(t@) {
                    None => r is Err && r->Err_0.kind == ErrorKind::ConfigParse,
                    Some(c) => match spec_from_target(c.compile.target) {
                        None => r is Err && r->Err_0.kind == ErrorKind::UnsupportedTarget,
                        Some(a) => r is Ok && {
                            let (p, w) = r->Ok_0;
                            &&& p.config@ == c
                            &&& p.arch == a
                            &&& p.workdir@ == workdir@
                            &&& p.out_dir is None
                            &&& p.elf_path is None
                            &&& p.bin_path is None
                            &&& w is None
                        },
                    },
                },
            },
    {
        match file_text {
            None => {
                let config = ProjectConfig::new(Arch::Aarch64);
                proof {
                    reveal_strlit("aarch64-unknown-none");
                    reveal_strlit("aarch64");
                    assert(crate::strutil::match_at(
                        "aarch64-unknown-none"@,
                        "aarch64"@,
                        0,
                    ));
                }
                let text = encode_config(&config);
                let p = Project {
                    workdir,
                    config,
                    arch: Arch::Aarch64,
                    out_dir: None,
                    elf_path: None,
                    bin_path: None,
                };
                Ok((p, Some(text)))
            },
            Some(t) => {
                let config = match parse_config(t) {
                    Ok(c) => c,
                    Err(e) => {
                        return Err(e);
                    },
                };
                let arch = match Arch::from_target(config.compile.target.as_str()) {
                    Ok(a) => a,
                    Err(e) => {
                        return Err(e);
                    },
                };
                let p = Project {
                    workdir,
                    config,
                    arch,
                    out_dir: None,
                    elf_path: None,
                    bin_path: None,
                };
                Ok((p, None))
            },
        }
    }

    /// A process plan for `program`, run in the working directory.
    pub fn shell(&self, program: String) -> (r: CmdSpec)
        ensures
            r.program@ == program@,
            r.args@.len() == 0,
            r.current_dir@ == self.workdir@,
    {
        CmdSpec { program, args: Vec::new(), current_dir: self.workdir.clone() }
    }

    /// The process plans that install the build prerequisites:
    /// `cargo install cargo-binutils`, then
    /// `rustup component add llvm-tools-preview rust-src`.
    pub fn install_deps(&self) -> (r: Vec<CmdSpec>)
        ensures
            r@.len() == 2,
            r@[0]@ =~= (CmdSpecV {
                program: "cargo"@,
                args: seq!["install"@, "cargo-binutils"@],
                current_dir: self.workdir@,
            }),
            r@[1]@ =~= (CmdSpecV {
                program: "rustup"@,
                args: seq!["component"@, "add"@, "llvm-tools-preview"@, "rust-src"@],
                current_dir: self.workdir@,
            }),
    {
        let mut cargo_args: Vec<String> = Vec::new();
        cargo_args.push(String::from_str("install"));
        cargo_args.push(String::from_str("cargo-binutils"));
        let cargo = CmdSpec {
            program: String::from_str("cargo"),
            args: cargo_args,
            current_dir: self.workdir.clone(),
        };
        let mut rustup_args: Vec<String> = Vec::new();
        rustup_args.push(String::from_str("component"));
        rustup_args.push(String::from_str("add"));
        rustup_args.push(String::from_str("llvm-tools-preview"));
        rustup_args.push(String::from_str("rust-src"));
        let rustup = CmdSpec {
            program: String::from_str("rustup"),
            args: rustup_args,
            current_dir: self.workdir.clone(),
        };
        let mut r: Vec<CmdSpec> = Vec::new();
        r.push(cargo);
        r.push(rustup);
        proof {
            assert(r@[0]@.args =~= seq!["install"@, "cargo-binutils"@]);
            assert(r@[1]@.args =~= seq![
                "component"@,
                "add"@,
                "llvm-tools-preview"@,
                "rust-src"@,
            ]);
        }
        r
    }

    /// The output directory for a build: `target/<triple>/<profile>`
    /// under the working directory.
    pub fn output_dir(&self, debug: bool) -> (r: String)
        ensures
            r@ == self.workdir@ + "/target/"@ + self.config.compile.target@ + (if debug {
                "/debug"@
            } else {
                "/release"@
            }),
    {
        let mut s = self.workdir.clone();
        s.append("/target/");
        s.append(self.config.compile.target.as_str());
        if debug {
            s.append("/debug");
        } else {
            s.append("/release");
        }
        s
    }

    /// The metadata entry of the configured package: the first entry
    /// of the list carrying its name, which leaves the list; a miss
    /// leaves the list as it was. A package list without the entry is
    /// a `ConfigParse` error: the configuration names a package the
    /// build metadata does not know.
    pub fn package_metadata(&self, packages: &mut Vec<PackageMeta>) -> (r: Result<
        PackageMeta,
        Error,
    >)
        ensures
            match r {
                Ok(m) => spec_find_package(
                    packages_view(old(packages)@),
                    self.config.compile.package@,
                ) == Some(m@) && exists|i: int|
                    {
                        &&& 0 <= i < old(packages)@.len()
                        &&& #[trigger] packages_view(old(packages)@)[i].name
                            == self.config.compile.package@
                        &&& (forall|j: int|
                            0 <= j < i ==> packages_view(old(packages)@)[j].name
                                != self.config.compile.package@)
                        &&& final(packages)@ == old(packages)@.remove(i)
                    },
                Err(e) => spec_find_package(
                    packages_view(old(packages)@),
                    self.config.compile.package@,
                ) is None && e.kind == ErrorKind::ConfigParse && e.value@
                    == self.config.compile.package@ && final(packages)@ == old(packages)@,
            },
    {
        let ghost ps = old(packages)@;
        let n = packages.len();
        let mut i: usize = 0;
        while i < n
            invariant
                ps == old(packages)@,
                n == packages@.len(),
                packages@ == ps,
                0 <= i <= n,
                forall|j: int| 0 <= j < i ==> packages_view(ps)[j].name
                    != self.config.compile.package@,
            decreases n - i,
        {
            if packages[i].name.eq(&self.config.compile.package) {
                proof {
                    assert(packages_view(ps)[i as int] == ps[i as int]@);
                    lemma_find_package_first(
                        packages_view(ps),
                        self.config.compile.package@,
                        i as int,
                    );
                }
                let ghost before = packages@;
                let m = packages.remove(i);
                proof {
                    assert(m == ps[i as int]);
                    assert(m@ == packages_view(ps)[i as int]);
                    assert(packages_view(ps)[i as int].name == self.config.compile.package@);
                    assert(packages@ =~= before.remove(i as int));
                }
                return Ok(m);
            }
            proof {
                assert(packages_view(ps)[i as int].name == ps[i as int].name@);
            }
            i += 1;
        }
        proof {
            lemma_find_package_none(packages_view(ps), self.config.compile.package@);
        }
        Err(Error::new(ErrorKind::ConfigParse, self.config.compile.package.clone()))
    }

    /// The names of the configured package's dependencies, in metadata
    /// order.
    pub fn package_dependencies(&self, packages: &mut Vec<PackageMeta>) -> (r: Result<
        Vec<String>,
        Error,
    >)
        ensures
            match r {
                Ok(deps) => {
                    let found = spec_find_package(
                        packages_view(old(packages)@),
                        self.config.compile.package@,
                    );
                    found is Some && deps.deep_view() == found->Some_0.dependencies
                },
                Err(e) => spec_find_package(
                    packages_view(old(packages)@),
                    self.config.compile.package@,
                ) is None && e.kind == ErrorKind::ConfigParse,
            },
    {
        match self.package_metadata(packages) {
            Ok(m) => Ok(m.dependencies),
            Err(e) => Err(e),
        }
    }

    /// The compiler invocation for this project: a cargo build for the
    /// configured target and package, release unless a debug build was
    /// asked for.
    pub fn compile_cmd(&self, debug: bool) -> (r: CmdSpec)
        ensures
            r@.program == "cargo"@,
            r@.current_dir == self.workdir@,
            r@.args =~= seq!["build"@, "--target"@, self.config.compile.target@, "-p"@,
                self.config.compile.package@] + (if debug {
                Seq::<Seq<char>>::empty()
            } else {
                seq!["--release"@]
            }),
    {
        let mut args: Vec<String> = Vec::new();
        args.push(String::from_str("build"));
        args.push(String::from_str("--target"));
        args.push(self.config.compile.target.clone());
        args.push(String::from_str("-p"));
        args.push(self.config.compile.package.clone());
        if !debug {
            args.push(String::from_str("--release"));
        }
        CmdSpec {
            program: String::from_str("cargo"),
            args,
            current_dir: self.workdir.clone(),
        }
    }
}

} // verus!
