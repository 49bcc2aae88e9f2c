use crate::partition::PartitionSpec;
use vstd::prelude::*;
use vstd::string::StrSliceExecFns;

verus! {

/// The kind of partition table written to a device.
#[derive(Clone, Copy, Debug, PartialEq, Eq, Structural)]
pub enum PartitionMapType {
    MBR,
    GPT,
}

/// CPU architecture of a device.
#[derive(Clone, Copy, Debug, PartialEq, Eq, Structural, PartialOrd, Ord)]
pub enum DeviceArch {
    /// x86-64
    Amd64,
    /// AArch64
    Arm64,
    /// LoongArch64
    LoongArch64,
    /// IBM POWER 8 and up (Little Endian)
    Ppc64el,
    /// MIPS Loongson CPUs (Loongson 3, mips64el)
    Loongson3,
    /// 64-bit RISC-V with Extension C and G
    Riscv64,
    /// 64-Bit MIPS Release 6
    Mips64r6el,
}

/// Flavour of the distribution installed in an image.
#[derive(Clone, Copy, Debug, PartialEq, Eq, Structural)]
pub enum ImageVariant {
    Base,
    Desktop,
    Server,
}

/// Image size, in MiB, for each variant.
#[derive(Clone, Copy, Debug)]
pub struct ImageVariantSizes {
    pub base: u64,
    pub desktop: u64,
    pub server: u64,
}

/// The binfmt_misc entry that runs foreign binaries of an architecture.
pub open spec fn qemu_binfmt_name(arch: DeviceArch) -> Seq<char> {
    match arch {
        DeviceArch::Amd64 => "qemu-x86_64"@,
        DeviceArch::Arm64 => "qemu-aarch64"@,
        DeviceArch::LoongArch64 => "qemu-loongarch64"@,
        DeviceArch::Ppc64el => "qemu-ppc64le"@,
        DeviceArch::Loongson3 => "qemu-mips64el"@,
        DeviceArch::Riscv64 => "qemu-riscv64"@,
        DeviceArch::Mips64r6el => "qemu-mips64el"@,
    }
}

/// Whether two strings hold the same characters.
fn same_text(a: &str, b: &str) -> (r: bool)
    ensures
        r == (a@ == b@),
{
    let n = a.unicode_len();
    if n != b.unicode_len() {
        return false;
    }
    let mut i: usize = 0;
    while i < n
        invariant
            n == a@.len(),
            n == b@.len(),
            i <= n,
            forall|j: int| 0 <= j < i ==> a@[j] == b@[j],
        decreases n - i,
    {
        if a.get_char(i) != b.get_char(i) {
            return false;
        }
        i = i + 1;
    }
    assert(a@ =~= b@);
    true
}

/// The architecture of a host whose target architecture is named `arch`
/// (as Rust names it), where `mips_r6` tells a MIPS64 release 6 CPU from a
/// Loongson 3.
pub open spec fn host_arch(arch: Seq<char>, mips_r6: bool) -> Option<DeviceArch> {
    if arch == "x86_64"@ {
        Some(DeviceArch::Amd64)
    } else if arch == "aarch64"@ {
        Some(DeviceArch::Arm64)
    } else if arch == "loongarch64"@ {
        Some(DeviceArch::LoongArch64)
    } else if arch == "mips64"@ {
        if mips_r6 {
            Some(DeviceArch::Mips64r6el)
        } else {
            Some(DeviceArch::Loongson3)
        }
    } else if arch == "riscv64"@ {
        Some(DeviceArch::Riscv64)
    } else if arch == "powerpc64"@ {
        Some(DeviceArch::Ppc64el)
    } else {
        None
    }
}

impl Default for ImageVariantSizes {
    fn default() -> (r: Self)
        ensures
            r.base == 5120,
            r.desktop == 25600,
            r.server == 6144,
    {
        ImageVariantSizes { base: 5120, desktop: 25600, server: 6144 }
    }
}

impl ImageVariantSizes {
    /// The image size of `variant`.
    pub fn get_variant_size(&self, variant: &ImageVariant) -> (r: u64)
        ensures
            r == (match *variant {
                ImageVariant::Base => self.base,
                ImageVariant::Desktop => self.desktop,
                ImageVariant::Server => self.server,
            }),
    {
        match variant {
            ImageVariant::Base => self.base,
            ImageVariant::Desktop => self.desktop,
            ImageVariant::Server => self.server,
        }
    }
}

impl DeviceArch {
    /// The device architecture of a host whose target architecture is
    /// named `arch`; `None` for any other host.
    pub fn from_host_arch(arch: &str, mips_r6: bool) -> (r: Option<DeviceArch>)
        ensures
            r == host_arch(arch@, mips_r6),
    {
        if same_text(arch, "x86_64") {
            Some(DeviceArch::Amd64)
        } else if same_text(arch, "aarch64") {
            Some(DeviceArch::Arm64)
        } else if same_text(arch, "loongarch64") {
            Some(DeviceArch::LoongArch64)
        } else if same_text(arch, "mips64") {
            if mips_r6 {
                Some(DeviceArch::Mips64r6el)
            } else {
                Some(DeviceArch::Loongson3)
            }
        } else if same_text(arch, "riscv64") {
            Some(DeviceArch::Riscv64)
        } else if same_text(arch, "powerpc64") {
            Some(DeviceArch::Ppc64el)
        } else {
            None
        }
    }

    /// Whether this architecture is the one of the host, `native`
    /// (`None` when the host is none of the known architectures).
    pub fn is_native(&self, native: Option<DeviceArch>) -> (r: bool)
        ensures
            r == (native == Some(*self)),
    {
        match native {
            Some(a) => a == *self,
            None => false,
        }
    }

    /// The binfmt_misc entry that runs binaries of this architecture.
    pub fn get_qemu_binfmt_names(&self) -> (r: &'static str)
        ensures
            r@ == qemu_binfmt_name(*self),
    {
        match self {
            DeviceArch::Amd64 => "qemu-x86_64",
            DeviceArch::Arm64 => "qemu-aarch64",
            DeviceArch::LoongArch64 => "qemu-loongarch64",
            DeviceArch::Ppc64el => "qemu-ppc64le",
            DeviceArch::Loongson3 => "qemu-mips64el",
            DeviceArch::Riscv64 => "qemu-riscv64",
            DeviceArch::Mips64r6el => "qemu-mips64el",
        }
    }
}

/// Why foreign binaries of a device's architecture cannot be run.
#[derive(Clone, Copy, Debug, PartialEq, Eq, Structural)]
pub enum BinfmtError {
    /// The host has no binfmt_misc support.
    Unavailable,
    /// No binfmt_misc entry is registered for the architecture.
    NotRegistered,
}

/// Decides whether binaries of `arch` can be run on the host: always on a
/// native host, otherwise only where binfmt_misc is available and holds the
/// architecture's entry.
pub fn check_binfmt(
    arch: &DeviceArch,
    native: Option<DeviceArch>,
    binfmt_available: bool,
    entry_registered: bool,
) -> (r: Result<(), BinfmtError>)
    ensures
        r == (if native == Some(*arch) {
            Ok(())
        } else if !binfmt_available {
            Err(BinfmtError::Unavailable)
        } else if !entry_registered {
            Err(BinfmtError::NotRegistered)
        } else {
            Ok(())
        }),
{
    if arch.is_native(native) {
        return Ok(());
    }
    if !binfmt_available {
        return Err(BinfmtError::Unavailable);
    }
    if !entry_registered {
        return Err(BinfmtError::NotRegistered);
    }
    Ok(())
}

/// One hardware target, as its device description gives it.
#[derive(Clone, Debug)]
pub struct DeviceSpec {
    /// Unique ID of the device.
    pub id: String,
    /// Other names of the device.
    pub aliases: Option<Vec<String>>,
    pub vendor: String,
    pub arch: DeviceArch,
    /// Vendor of the SoC platform.
    pub soc_vendor: String,
    /// Full name of the device for humans.
    pub name: String,
    /// Model name, where it differs from the name.
    pub model: Option<String>,
    /// Most relevant value of the device tree's root compatible string.
    pub of_compatible: Option<String>,
    /// Board support packages to install.
    pub bsp_packages: Vec<String>,
    pub partition_map: PartitionMapType,
    /// Declared number of partitions.
    pub num_partitions: u32,
    pub size: ImageVariantSizes,
    /// Partitions, in ascending order of number.
    pub partitions: Vec<PartitionSpec>,
    /// Canonical path of the description.
    pub file_path: String,
}

} // verus!
