//! Project and test configuration: the value model, per-architecture
//! defaults, and the layered precedence resolution in which each later
//! source wholesale-replaces the `qemu` section (no deep merge).

use vstd::prelude::*;

use crate::arch::Arch;

verus! {

/// Emulator launch settings.
#[derive(Debug)]
pub struct Qemu {
    pub machine: Option<String>,
    pub memory: Option<String>,
    pub extra_args: Vec<String>,
}

/// Compilation settings: the cross-compilation target triple and the
/// package to build.
#[derive(Debug)]
pub struct CompileConfig {
    pub target: String,
    pub package: String,
}

/// Bootloader staging settings, created interactively on first use.
#[derive(Debug)]
pub struct UbootConfig {
    pub serial: String,
    pub net: String,
    pub dtb_file: String,
}

/// The whole project configuration.
#[derive(Debug)]
pub struct ProjectConfig {
    pub compile: CompileConfig,
    pub qemu: Qemu,
    pub uboot: Option<UbootConfig>,
}

/// Mathematical model of `Qemu`.
#[verifier::ext_equal]
pub struct QemuV {
    pub machine: Option<Seq<char>>,
    pub memory: Option<Seq<char>>,
    pub extra_args: Seq<Seq<char>>,
}

/// Mathematical model of `CompileConfig`.
#[verifier::ext_equal]
pub struct CompileV {
    pub target: Seq<char>,
    pub package: Seq<char>,
}

/// Mathematical model of `UbootConfig`.
#[verifier::ext_equal]
pub struct UbootV {
    pub serial: Seq<char>,
    pub net: Seq<char>,
    pub dtb_file: Seq<char>,
}

/// Mathematical model of `ProjectConfig`.
#[verifier::ext_equal]
pub struct ConfigV {
    pub compile: CompileV,
    pub qemu: QemuV,
    pub uboot: Option<UbootV>,
}

impl View for Qemu {
    type V = QemuV;

    open spec fn view(&self) -> QemuV {
        QemuV {
            machine: self.machine.deep_view(),
            memory: self.memory.deep_view(),
            extra_args: self.extra_args.deep_view(),
        }
    }
}

impl View for CompileConfig {
    type V = CompileV;

    open spec fn view(&self) -> CompileV {
        CompileV { target: self.target@, package: self.package@ }
    }
}

impl View for UbootConfig {
    type V = UbootV;

    open spec fn view(&self) -> UbootV {
        UbootV { serial: self.serial@, net: self.net@, dtb_file: self.dtb_file@ }
    }
}

/// The model of an optional `UbootConfig`.
pub open spec fn opt_uboot_view(o: Option<UbootConfig>) -> Option<UbootV> {
    match o {
        Some(u) => Some(u@),
        None => None,
    }
}

/// The model of an optional `Qemu`.
pub open spec fn opt_qemu_view(o: Option<Qemu>) -> Option<QemuV> {
    match o {
        Some(q) => Some(q@),
        None => None,
    }
}

impl View for ProjectConfig {
    type V = ConfigV;

    open spec fn view(&self) -> ConfigV {
        ConfigV {
            compile: self.compile@,
            qemu: self.qemu@,
            uboot: opt_uboot_view(self.uboot),
        }
    }
}

/// The default target triple for an architecture.
pub open spec fn spec_default_target(a: Arch) -> Seq<char> {
    match a {
        Arch::Aarch64 => "aarch64-unknown-none"@,
        Arch::Riscv64 => "riscv64gc-unknown-none-elf"@,
        Arch::X86_64 => "x86_64-unknown-none"@,
    }
}

/// The default emulator settings for an architecture.
pub open spec fn spec_default_qemu(a: Arch) -> QemuV {
    QemuV {
        machine: match a {
            Arch::X86_64 => Some("q35"@),
            _ => Some("virt"@),
        },
        memory: Some("1G"@),
        extra_args: Seq::empty(),
    }
}

/// The default project configuration for an architecture.
pub open spec fn spec_default_config(a: Arch) -> ConfigV {
    ConfigV {
        compile: CompileV { target: spec_default_target(a), package: "app"@ },
        qemu: spec_default_qemu(a),
        uboot: None,
    }
}

impl Qemu {
    /// Architecture-appropriate default emulator settings.
    pub fn new_default(arch: Arch) -> (r: Qemu)
        ensures
            r@ == spec_default_qemu(arch),
    {
        let machine = match arch {
            Arch::X86_64 => String::from_str("q35"),
            _ => String::from_str("virt"),
        };
        let r = Qemu {
            machine: Some(machine),
            memory: Some(String::from_str("1G")),
            extra_args: Vec::new(),
        };
        proof {
            assert(r@ =~= spec_default_qemu(arch));
        }
        r
    }
}

impl ProjectConfig {
    /// Synthesize the default configuration for an architecture.
    pub fn new(arch: Arch) -> (r: ProjectConfig)
        ensures
            r@ == spec_default_config(arch),
    {
        let target = match arch {
            Arch::Aarch64 => String::from_str("aarch64-unknown-none"),
            Arch::Riscv64 => String::from_str("riscv64gc-unknown-none-elf"),
            Arch::X86_64 => String::from_str("x86_64-unknown-none"),
        };
        let r = ProjectConfig {
            compile: CompileConfig { target, package: String::from_str("app") },
            qemu: Qemu::new_default(arch),
            uboot: None,
        };
        proof {
            assert(r@ =~= spec_default_config(arch));
        }
        r
    }
}

/// One entry of the per-architecture override table in the package
/// manifest: an emulator-binary-name key and its `qemu` fragment.
#[derive(Debug)]
pub struct ManifestEntry {
    pub key: String,
    pub qemu: Qemu,
}

/// Mathematical model of `ManifestEntry`.
#[verifier::ext_equal]
pub struct ManifestEntryV {
    pub key: Seq<char>,
    pub qemu: QemuV,
}

impl View for ManifestEntry {
    type V = ManifestEntryV;

    open spec fn view(&self) -> ManifestEntryV {
        ManifestEntryV { key: self.key@, qemu: self.qemu@ }
    }
}

/// The model of a manifest table.
pub open spec fn man_view(v: Seq<ManifestEntry>) -> Seq<ManifestEntryV> {
    v.map_values(|e: ManifestEntry| e@)
}

/// The `qemu` fragment the manifest table holds for `key`: the first
/// entry whose key equals it, if any.
pub open spec fn spec_lookup(entries: Seq<ManifestEntryV>, key: Seq<char>) -> Option<QemuV>
    decreases entries.len(),
{
    if entries.len() == 0 {
        None
    } else if entries[0].key == key {
        Some(entries[0].qemu)
    } else {
        spec_lookup(entries.skip(1), key)
    }
}

/// `spec_lookup` returns the entry at the first matching index, and
/// `None` when no index matches.
pub proof fn lemma_lookup_first(entries: Seq<ManifestEntryV>, key: Seq<char>, i: int)
    requires
        0 <= i < entries.len(),
        entries[i].key == key,
        forall|j: int| 0 <= j < i ==> entries[j].key != key,
    ensures
        spec_lookup(entries, key) == Some(entries[i].qemu),
    decreases i,
{
    if i == 0 {
    } else {
        assert(entries[0].key != key);
        lemma_lookup_first(entries.skip(1), key, i - 1);
        assert(entries.skip(1)[i - 1] == entries[i]);
    }
}

/// When no entry's key matches, `spec_lookup` is `None`.
pub proof fn lemma_lookup_none(entries: Seq<ManifestEntryV>, key: Seq<char>)
    requires
        forall|j: int| 0 <= j < entries.len() ==> entries[j].key != key,
    ensures
        spec_lookup(entries, key) is None,
    decreases entries.len(),
{
    if entries.len() > 0 {
        lemma_lookup_none(entries.skip(1), key);
    }
}

/// Take the `qemu` fragment for `key` out of the manifest table, if
/// one of the entries carries it: the first matching entry leaves the
/// list, and a miss leaves the list as it was.
pub fn take_manifest_qemu(entries: &mut Vec<ManifestEntry>, key: &String) -> (r: Option<Qemu>)
    ensures
        opt_qemu_view(r) == spec_lookup(man_view(old(entries)@), key@),
        r is None ==> final(entries)@ == old(entries)@,
        r is Some ==> exists|i: int|
            {
                &&& 0 <= i < old(entries)@.len()
                &&& #[trigger] man_view(old(entries)@)[i].key == key@
                &&& (forall|j: int| 0 <= j < i ==> man_view(old(entries)@)[j].key != key@)
                &&& final(entries)@ == old(entries)@.remove(i)
            },
{
    let n = entries.len();
    let mut i: usize = 0;
    while i < n
        invariant
            n == entries@.len(),
            entries@ == old(entries)@,
            0 <= i <= n,
            forall|j: int| 0 <= j < i ==> man_view(entries@)[j].key != key@,
        decreases n - i,
    {
        if entries[i].key.eq(key) {
            proof {
                assert(man_view(entries@)[i as int].key == entries@[i as int].key@);
                lemma_lookup_first(man_view(entries@), key@, i as int);
            }
            let ghost before = entries@;
            let e = entries.remove(i);
            proof {
                assert(man_view(before)[i as int].key == key@);
                assert(entries@ =~= before.remove(i as int));
            }
            return Some(e.qemu);
        }
        proof {
            assert(man_view(entries@)[i as int].key == entries@[i as int].key@);
        }
        i += 1;
    }
    proof {
        lemma_lookup_none(man_view(entries@), key@);
    }
    None
}

/// The precedence rule: the manifest fragment, when present, replaces
/// everything; otherwise the test-scope fragment, when present,
/// replaces the base; otherwise the base stands. Replacement is always
/// of the whole `qemu` section.
pub open spec fn spec_resolve_qemu(
    base: QemuV,
    test: Option<QemuV>,
    manifest: Option<QemuV>,
) -> QemuV {
    if manifest is Some {
        manifest->Some_0
    } else if test is Some {
        test->Some_0
    } else {
        base
    }
}

/// Resolve the `qemu` section across the three layered sources.
pub fn resolve_qemu(base: Qemu, test: Option<Qemu>, manifest: Option<Qemu>) -> (r: Qemu)
    ensures
        r@ == spec_resolve_qemu(base@, opt_qemu_view(test), opt_qemu_view(manifest)),
{
    match manifest {
        Some(m) => m,
        None => match test {
            Some(t) => t,
            None => base,
        },
    }
}

} // verus!
