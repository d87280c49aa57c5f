//! The test-preparation step, in two phases around the external
//! strip/convert tool. `plan` resolves the architecture from the test
//! image's header and derives the pre-cleaned artifact paths and the
//! tool invocation; only after the tool has succeeded does `commit`
//! resolve the configuration through the full precedence chain and
//! set the context, so a tool failure aborts the step with nothing
//! committed. The artifact paths depend on the image path alone, so a
//! second run against the same image derives identical paths and
//! overwrites rather than accumulates.

use vstd::prelude::*;

use crate::arch::{spec_from_header, Arch, HeaderArch};
use crate::codec::{
    enc_uboot, encode_uboot_file, parse_test_fragment, parse_uboot_file, spec_parse_fragment,
    spec_parse_uboot_file,
};
use crate::config::{
    man_view, resolve_qemu, spec_default_config, spec_default_qemu, spec_lookup,
    spec_resolve_qemu, take_manifest_qemu, ConfigV, ManifestEntry, ProjectConfig, Qemu, QemuV,
    UbootConfig, UbootV,
};
use crate::errors::{Error, ErrorKind};
use crate::project::{CmdSpec, CmdSpecV, Project};
use crate::strutil::{find_last, is_last_index, spec_find_last, take_sub};

use object::Object;

verus! {

/// The architecture tag of an executable image, as its header carries
/// it: a function of the image bytes alone. `None` stands for bytes
/// that do not parse as an executable at all.
pub uninterp spec fn parsed_header_arch(b: Seq<u8>) -> Option<HeaderArch>;

/// The name of that tag, so an unsupported architecture can be
/// reported by name: again a function of the image bytes alone.
pub uninterp spec fn parsed_header_name(b: Seq<u8>) -> Seq<char>;

/// Relies on object::File::parse and Object::architecture: the header
/// architecture of an image depends on the image bytes alone, and an
/// unparseable image is reported as an error, never as a tag. The
/// returned string is the tag's name, from the Debug rendering of
/// object::Architecture — also a pure function of the parsed tag.
#[verifier::external_body]
fn read_header_arch(data: &Vec<u8>) -> (r: Option<(HeaderArch, String)>)
    ensures
        match r {
            Some(p) => parsed_header_arch(data@) == Some(p.0) && p.1@ == parsed_header_name(
                data@,
            ),
            None => parsed_header_arch(data@) is None,
        },
{
    match object::File::parse(data.as_slice()) {
        Ok(f) => {
            let a = f.architecture();
            let tag = match a {
                object::Architecture::Aarch64 => HeaderArch::Aarch64,
                object::Architecture::Riscv64 => HeaderArch::Riscv64,
                object::Architecture::X86_64 => HeaderArch::X86_64,
                _ => HeaderArch::Other,
            };
            Some((tag, format!("{:?}", a)))
        },
        Err(_) => None,
    }
}

/// The directory part of a path: everything before the last `/`.
pub open spec fn spec_parent(p: Seq<char>) -> Option<Seq<char>> {
    match spec_find_last(p, '/') {
        Some(k) => Some(p.subrange(0, k)),
        None => None,
    }
}

/// The file-name part of a path: everything after the last `/`.
pub open spec fn spec_basename(p: Seq<char>) -> Seq<char> {
    match spec_find_last(p, '/') {
        Some(k) => p.subrange(k + 1, p.len() as int),
        None => p,
    }
}

/// The file stem: the basename up to its last `.`, except that a
/// leading `.` does not start an extension.
pub open spec fn spec_stem(p: Seq<char>) -> Seq<char> {
    let b = spec_basename(p);
    match spec_find_last(b, '.') {
        Some(k) => if k > 0 {
            b.subrange(0, k)
        } else {
            b
        },
        None => b,
    }
}

/// The directory a path lies in, if the path has one.
pub fn path_parent(p: &str) -> (r: Option<String>)
    ensures
        match r {
            Some(d) => spec_parent(p@) == Some(d@),
            None => spec_parent(p@) is None,
        },
{
    match find_last(p, '/') {
        Some(k) => {
            proof {
                assert(is_last_index(p@, '/', k as int));
            }
            Some(take_sub(p, 0, k))
        },
        None => None,
    }
}

/// The file stem of a path.
pub fn file_stem(p: &str) -> (r: String)
    ensures
        r@ == spec_stem(p@),
{
    let b: String = match find_last(p, '/') {
        Some(k) => {
            proof {
                assert(is_last_index(p@, '/', k as int));
            }
            let n = p.unicode_len();
            take_sub(p, k + 1, n)
        },
        None => p.to_owned(),
    };
    match find_last(b.as_str(), '.') {
        Some(k) => {
            proof {
                assert(is_last_index(b@, '.', k as int));
            }
            if k > 0 {
                take_sub(b.as_str(), 0, k)
            } else {
                b
            }
        },
        None => b,
    }
}

/// The raw-binary artifact path: `<dir>/<stem>.bin`.
pub open spec fn spec_bin_path(elf: Seq<char>) -> Seq<char> {
    spec_parent(elf)->Some_0 + "/"@ + spec_stem(elf) + ".bin"@
}

/// The staged copy of the test executable: `<dir>/test.elf`.
pub open spec fn spec_elf_out_path(elf: Seq<char>) -> Seq<char> {
    spec_parent(elf)->Some_0 + "/test.elf"@
}

/// The model of an optional borrowed string.
pub open spec fn opt_str_view(o: Option<&String>) -> Option<Seq<char>> {
    match o {
        Some(s) => Some(s@),
        None => None,
    }
}

/// The model of an optional borrowed bootloader configuration.
pub open spec fn opt_uboot_ref_view(o: Option<&UbootConfig>) -> Option<UbootV> {
    match o {
        Some(u) => Some(u@),
        None => None,
    }
}

/// The test-scope `qemu` override: nothing when no override file is
/// present, the file's fragment when it parses, a parse error
/// otherwise.
pub open spec fn spec_frag_override(frag: Option<Seq<char>>) -> Result<Option<QemuV>, ErrorKind> {
    match frag {
        None => Ok(None),
        Some(t) => match spec_parse_fragment(t) {
            Some(o) => Ok(o),
            None => Err(ErrorKind::ConfigParse),
        },
    }
}

/// The bootloader section and the user-scope file text to persist:
/// nothing when staging is not requested; the parsed user file when
/// one is present; otherwise the interactively selected configuration,
/// which is also written back so later runs are non-interactive.
/// Staging without a file and without a selection cannot proceed.
pub open spec fn spec_uboot_resolved(
    uboot_flag: bool,
    text: Option<Seq<char>>,
    sel: Option<UbootV>,
) -> Result<(Option<UbootV>, Option<Seq<char>>), ErrorKind> {
    if !uboot_flag {
        Ok((None, None))
    } else {
        match text {
            Some(t) => match spec_parse_uboot_file(t) {
                Some(u) => Ok((Some(u), None)),
                None => Err(ErrorKind::ConfigParse),
            },
            None => match sel {
                Some(u) => Ok((Some(u), Some(enc_uboot(u)))),
                None => Err(ErrorKind::ConfigIo),
            },
        }
    }
}

/// What the planning phase decides: the resolved architecture and
/// the artifact paths, a function of the image path and bytes alone.
#[verifier::ext_equal]
pub struct PlanV {
    pub arch: Arch,
    pub out_dir: Seq<char>,
    pub elf_out: Seq<char>,
    pub bin: Seq<char>,
}

/// The planning decision: resolve the architecture from the image
/// header and derive the artifact paths from the image path.
pub open spec fn spec_plan_prepare(elf: Seq<char>, data: Seq<u8>) -> Result<PlanV, ErrorKind> {
    match parsed_header_arch(data) {
        None => Err(ErrorKind::ArtifactPath),
        Some(tag) => match spec_from_header(tag) {
            None => Err(ErrorKind::UnsupportedTarget),
            Some(arch) => match spec_parent(elf) {
                None => Err(ErrorKind::ArtifactPath),
                Some(od) => Ok(
                    PlanV {
                        arch,
                        out_dir: od,
                        elf_out: spec_elf_out_path(elf),
                        bin: spec_bin_path(elf),
                    },
                ),
            },
        },
    }
}

/// What the commit phase resolves: the `qemu` section through the
/// full precedence chain, the bootloader section, and the user-scope
/// text to persist.
#[verifier::ext_equal]
pub struct ResolutionV {
    pub qemu: QemuV,
    pub uboot: Option<UbootV>,
    pub write_user: Option<Seq<char>>,
}

/// The commit decision, a function of the resolved architecture, the
/// override sources and the manifest table.
pub open spec fn spec_resolve(
    arch: Arch,
    frag: Option<Seq<char>>,
    uboot_flag: bool,
    utext: Option<Seq<char>>,
    usel: Option<UbootV>,
    man: Seq<crate::config::ManifestEntryV>,
) -> Result<ResolutionV, ErrorKind> {
    match spec_frag_override(frag) {
        Err(k) => Err(k),
        Ok(test_q) => match spec_uboot_resolved(uboot_flag, utext, usel) {
            Err(k) => Err(k),
            Ok((uboot, write_user)) => Ok(
                ResolutionV {
                    qemu: spec_resolve_qemu(
                        spec_default_qemu(arch),
                        test_q,
                        spec_lookup(man, crate::arch::spec_qemu_arch(arch)),
                    ),
                    uboot,
                    write_user,
                },
            ),
        },
    }
}

/// Preparation is idempotent in its artifact paths: any two
/// successful plans for the same test image derive the same output
/// directory and the same two artifact paths, whatever bytes the
/// image held and whatever the context held before — and each run
/// deletes those paths before regenerating them, so files are
/// overwritten, never accumulated.
pub proof fn lemma_prepare_paths_idempotent(elf: Seq<char>, data1: Seq<u8>, data2: Seq<u8>)
    requires
        spec_plan_prepare(elf, data1) is Ok,
        spec_plan_prepare(elf, data2) is Ok,
    ensures
        spec_plan_prepare(elf, data1)->Ok_0.out_dir == spec_plan_prepare(elf, data2)->Ok_0.out_dir,
        spec_plan_prepare(elf, data1)->Ok_0.elf_out == spec_plan_prepare(elf, data2)->Ok_0.elf_out,
        spec_plan_prepare(elf, data1)->Ok_0.bin == spec_plan_prepare(elf, data2)->Ok_0.bin,
{
}

/// What planning yields: the resolved architecture, the derived
/// paths, and the side effects the caller must perform, in order:
/// delete the two artifact paths, copy the image to `elf_out`, and
/// run the strip/convert tool. Only when the tool has succeeded is
/// `commit` to be called.
#[derive(Debug)]
pub struct PrepareOutcome {
    pub arch: Arch,
    pub out_dir: String,
    pub elf_out: String,
    pub bin: String,
    pub remove_paths: Vec<String>,
    pub copy_src: String,
    pub tool: CmdSpec,
}

/// Copy a bootloader configuration.
fn clone_uboot(u: &UbootConfig) -> (r: UbootConfig)
    ensures
        r@ == u@,
{
    UbootConfig {
        serial: u.serial.clone(),
        net: u.net.clone(),
        dtb_file: u.dtb_file.clone(),
    }
}

/// The step that prepares a compiled test image for an emulator run.
#[derive(Debug)]
pub struct CargoTestPrepare {
    pub elf: String,
    pub uboot: bool,
}

impl CargoTestPrepare {
    /// Box a preparation step for the image at `elf`, staging a
    /// bootloader when `uboot` asks for it.
    pub fn new_boxed(elf: String, uboot: bool) -> (r: Box<CargoTestPrepare>)
        ensures
            r.elf@ == elf@,
            r.uboot == uboot,
    {
        Box::new(CargoTestPrepare { elf, uboot })
    }

    /// Plan the preparation of the test image: resolve the
    /// architecture from the image header and derive the pre-cleaned
    /// artifact paths and the strip/convert invocation. Nothing is
    /// committed yet; the paths depend on the image path alone. An
    /// image path without a directory separator has no parent and is
    /// rejected with `ArtifactPath` rather than treated as relative
    /// to the working directory.
    pub fn plan(&self, project: &Project, data: &Vec<u8>) -> (r: Result<PrepareOutcome, Error>)
        ensures
            ({
                let sp = spec_plan_prepare(self.elf@, data@);
                match r {
                    Ok(out) => sp is Ok && {
                        let pv = sp->Ok_0;
                        &&& out.arch == pv.arch
                        &&& out.out_dir@ == pv.out_dir
                        &&& out.elf_out@ == pv.elf_out
                        &&& out.bin@ == pv.bin
                        &&& out.remove_paths.deep_view() =~= seq![pv.elf_out, pv.bin]
                        &&& out.copy_src@ == self.elf@
                        &&& out.tool@ =~= (CmdSpecV {
                            program: "rust-objcopy"@,
                            args: seq!["--strip-all"@, "-O"@, "binary"@, self.elf@, pv.bin],
                            current_dir: project.workdir@,
                        })
                    },
                    Err(e) => sp is Err && e.kind == sp->Err_0 && (sp->Err_0
                        == ErrorKind::ArtifactPath ==> e.value@ == self.elf@) && (sp->Err_0
                        == ErrorKind::UnsupportedTarget ==> e.value@ == parsed_header_name(
                        data@,
                    )),
                }
            }),
    {
        let (tag, tag_name) = match read_header_arch(data) {
            Some(p) => p,
            None => {
                return Err(Error::new(ErrorKind::ArtifactPath, self.elf.clone()));
            },
        };
        let arch = match Arch::from_header(tag) {
            Ok(a) => a,
            Err(_) => {
                return Err(Error::new(ErrorKind::UnsupportedTarget, tag_name));
            },
        };
        let od = match path_parent(self.elf.as_str()) {
            Some(d) => d,
            None => {
                return Err(Error::new(ErrorKind::ArtifactPath, self.elf.clone()));
            },
        };
        let stem = file_stem(self.elf.as_str());
        let mut bin = od.clone();
        bin.append("/");
        bin.append(stem.as_str());
        bin.append(".bin");
        let mut elf_out = od.clone();
        elf_out.append("/test.elf");
        let mut tool_args: Vec<String> = Vec::new();
        tool_args.push(String::from_str("--strip-all"));
        tool_args.push(String::from_str("-O"));
        tool_args.push(String::from_str("binary"));
        tool_args.push(self.elf.clone());
        tool_args.push(bin.clone());
        let tool = CmdSpec {
            program: String::from_str("rust-objcopy"),
            args: tool_args,
            current_dir: project.workdir.clone(),
        };
        let mut remove_paths: Vec<String> = Vec::new();
        remove_paths.push(elf_out.clone());
        remove_paths.push(bin.clone());
        let out = PrepareOutcome {
            arch,
            out_dir: od,
            elf_out,
            bin,
            remove_paths,
            copy_src: self.elf.clone(),
            tool,
        };
        proof {
            assert(out.tool@.args =~= seq!["--strip-all"@, "-O"@, "binary"@, self.elf@,
                spec_bin_path(self.elf@)]);
            assert(out.remove_paths.deep_view() =~= seq![
                spec_elf_out_path(self.elf@),
                spec_bin_path(self.elf@),
            ]);
        }
        Ok(out)
    }

    /// Commit a successful preparation into the context: resolve the
    /// `qemu` section through the full precedence chain, resolve the
    /// bootloader section, and set the configuration and artifact
    /// paths. To honor the step's fail-fast order, this is called
    /// only after the planned strip/convert invocation succeeded; on
    /// any failure here the context and the manifest table are left
    /// untouched. The result is the user-scope file text to persist,
    /// present exactly when a fresh bootloader selection was taken.
    pub fn commit(
        &self,
        project: &mut Project,
        prep: &PrepareOutcome,
        frag: Option<&String>,
        uboot_text: Option<&String>,
        uboot_selected: Option<&UbootConfig>,
        manifest: &mut Vec<ManifestEntry>,
    ) -> (r: Result<Option<String>, Error>)
        requires
            frag is Some ==> frag->Some_0@.len() < usize::MAX,
            uboot_text is Some ==> uboot_text->Some_0@.len() < usize::MAX,
        ensures
            ({
                let sr = spec_resolve(
                    prep.arch,
                    opt_str_view(frag),
                    self.uboot,
                    opt_str_view(uboot_text),
                    opt_uboot_ref_view(uboot_selected),
                    man_view(old(manifest)@),
                );
                match r {
                    Ok(w) => sr is Ok && {
                        let rv = sr->Ok_0;
                        &&& final(project).arch == prep.arch
                        &&& final(project).workdir@ == old(project).workdir@
                        &&& final(project).out_dir matches Some(d) && d@ == prep.out_dir@
                        &&& final(project).elf_path matches Some(e) && e@ == prep.elf_out@
                        &&& final(project).bin_path matches Some(b) && b@ == prep.bin@
                        &&& final(project).config@ == (ConfigV {
                            compile: spec_default_config(prep.arch).compile,
                            qemu: rv.qemu,
                            uboot: rv.uboot,
                        })
                        &&& opt_str_view(match w {
                            Some(ref t) => Some(t),
                            None => None,
                        }) == rv.write_user
                    },
                    Err(e) => sr is Err && e.kind == sr->Err_0 && *final(project) == *old(
                        project,
                    ) && final(manifest)@ == old(manifest)@,
                }
            }),
    {
        let test_q: Option<Qemu> = match frag {
            None => None,
            Some(t) => match parse_test_fragment(t.as_str()) {
                Ok(o) => o,
                Err(e) => {
                    return Err(e);
                },
            },
        };
        let (uboot_cfg, write_user): (Option<UbootConfig>, Option<String>) = if !self.uboot {
            (None, None)
        } else {
            match uboot_text {
                Some(t) => match parse_uboot_file(t.as_str()) {
                    Ok(u) => (Some(u), None),
                    Err(e) => {
                        return Err(e);
                    },
                },
                None => match uboot_selected {
                    Some(u) => {
                        let owned = clone_uboot(u);
                        let text = encode_uboot_file(&owned);
                        (Some(owned), Some(text))
                    },
                    None => {
                        return Err(
                            Error::new(ErrorKind::ConfigIo, String::from_str(".bare-test.toml")),
                        );
                    },
                },
            }
        };
        let key = prep.arch.qemu_arch();
        let man_q = take_manifest_qemu(manifest, &key);
        let qemu = resolve_qemu(Qemu::new_default(prep.arch), test_q, man_q);
        let mut config = ProjectConfig::new(prep.arch);
        config.qemu = qemu;
        config.uboot = uboot_cfg;
        proof {
            assert(config@ =~= (ConfigV {
                compile: spec_default_config(prep.arch).compile,
                qemu: config@.qemu,
                uboot: config@.uboot,
            }));
        }
        project.arch = prep.arch;
        project.out_dir = Some(prep.out_dir.clone());
        project.config = config;
        project.elf_path = Some(prep.elf_out.clone());
        project.bin_path = Some(prep.bin.clone());
        Ok(write_user)
    }
}

} // verus!
