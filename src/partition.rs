use vstd::prelude::*;
use vstd::string::StrSliceExecFns;

verus! {

/// GPT type GUID of a Linux filesystem partition, in canonical byte order.
pub const LINUX_FS_GUID: [u8; 16] = [
    0x0F, 0xC6, 0x3D, 0xAF, 0x84, 0x83, 0x47, 0x72, 0x8E, 0x79, 0x3D, 0x69, 0xD8, 0x47, 0x7D, 0xE4,
];

/// GPT type GUID of an EFI system partition, in canonical byte order.
pub const EFI_SYSTEM_GUID: [u8; 16] = [
    0xC1, 0x2A, 0x73, 0x28, 0xF8, 0x1F, 0x11, 0xD2, 0xBA, 0x4B, 0x00, 0xA0, 0xC9, 0x3E, 0xC9, 0x3B,
];

/// GPT type GUID of a basic data partition, in canonical byte order.
pub const BASIC_DATA_GUID: [u8; 16] = [
    0xEB, 0xD0, 0xA0, 0xA2, 0xB9, 0xE5, 0x44, 0x33, 0x87, 0xC0, 0x68, 0xB6, 0xB7, 0x26, 0x99, 0xC7,
];

/// GPT type GUID of a Linux swap partition, in canonical byte order.
pub const LINUX_SWAP_GUID: [u8; 16] = [
    0x06, 0x57, 0xFD, 0x6D, 0xA4, 0xAB, 0x43, 0xC4, 0x84, 0xE5, 0x09, 0x33, 0xC8, 0x4B, 0x4F, 0x4F,
];

/// MBR system byte of a Linux filesystem partition.
pub const LINUX_FS_BYTE: u8 = 0x83;

/// MBR system byte of an EFI system partition.
pub const EFI_SYSTEM_BYTE: u8 = 0xEF;

/// MBR system byte of a FAT32 (LBA) data partition.
pub const BASIC_DATA_BYTE: u8 = 0x0C;

/// MBR system byte of a Linux swap partition.
pub const LINUX_SWAP_BYTE: u8 = 0x82;

/// The role-and-format tag of a partition.
#[derive(Clone, Copy, Debug, PartialEq, Eq)]
pub enum PartitionType {
    /// Linux filesystem data.
    Linux,
    /// EFI system partition.
    Efi,
    /// Basic data (FAT) partition.
    Basic,
    /// Linux swap.
    Swap,
    /// A GPT type given by its GUID, in canonical byte order; GPT only.
    Guid([u8; 16]),
    /// An MBR type given by its system byte; MBR only.
    Byte(u8),
}

/// A partition type that the chosen table format cannot express.
#[derive(Clone, Copy, Debug, PartialEq, Eq, Structural)]
pub enum TypeError {
    /// The type has no GPT type GUID.
    NoGptGuid,
    /// The type has no MBR system byte.
    NoMbrByte,
}

impl PartitionType {
    /// The GPT type GUID of this tag, if it has one.
    pub open spec fn gpt_guid(self) -> Option<[u8; 16]> {
        match self {
            PartitionType::Linux => Some(LINUX_FS_GUID),
            PartitionType::Efi => Some(EFI_SYSTEM_GUID),
            PartitionType::Basic => Some(BASIC_DATA_GUID),
            PartitionType::Swap => Some(LINUX_SWAP_GUID),
            PartitionType::Guid(g) => Some(g),
            PartitionType::Byte(_) => None,
        }
    }

    /// The MBR system byte of this tag, if it has one.
    pub open spec fn mbr_byte(self) -> Option<u8> {
        match self {
            PartitionType::Linux => Some(LINUX_FS_BYTE),
            PartitionType::Efi => Some(EFI_SYSTEM_BYTE),
            PartitionType::Basic => Some(BASIC_DATA_BYTE),
            PartitionType::Swap => Some(LINUX_SWAP_BYTE),
            PartitionType::Guid(_) => None,
            PartitionType::Byte(b) => Some(b),
        }
    }

    /// Resolves the tag to its GPT type GUID (canonical byte order).
    pub fn to_gpt_guid(&self) -> (r: Result<[u8; 16], TypeError>)
        ensures
            r == (match self.gpt_guid() {
                Some(g) => Ok(g),
                None => Err(TypeError::NoGptGuid),
            }),
    {
        match self {
            PartitionType::Linux => Ok(LINUX_FS_GUID),
            PartitionType::Efi => Ok(EFI_SYSTEM_GUID),
            PartitionType::Basic => Ok(BASIC_DATA_GUID),
            PartitionType::Swap => Ok(LINUX_SWAP_GUID),
            PartitionType::Guid(g) => Ok(*g),
            PartitionType::Byte(_) => Err(TypeError::NoGptGuid),
        }
    }

    /// Resolves the tag to its MBR system byte.
    pub fn to_mbr_byte(&self) -> (r: Result<u8, TypeError>)
        ensures
            r == (match self.mbr_byte() {
                Some(b) => Ok(b),
                None => Err(TypeError::NoMbrByte),
            }),
    {
        match self {
            PartitionType::Linux => Ok(LINUX_FS_BYTE),
            PartitionType::Efi => Ok(EFI_SYSTEM_BYTE),
            PartitionType::Basic => Ok(BASIC_DATA_BYTE),
            PartitionType::Swap => Ok(LINUX_SWAP_BYTE),
            PartitionType::Guid(_) => Err(TypeError::NoMbrByte),
            PartitionType::Byte(b) => Ok(*b),
        }
    }
}

/// What a partition is for.
#[derive(Clone, Copy, Debug, PartialEq, Eq, Structural)]
pub enum PartitionUsage {
    /// The root filesystem; exactly one per device.
    Rootfs,
    /// The boot partition; active under MBR.
    Boot,
    /// Swap space; not allowed in raw images.
    Swap,
    /// Any other data.
    Data,
}

/// The filesystem that a partition is formatted with.
#[derive(Clone, Copy, Debug, PartialEq, Eq, Structural)]
pub enum FilesystemType {
    Ext4,
    Xfs,
    Btrfs,
    Fat32,
    /// Left unformatted.
    Unformatted,
}

impl FilesystemType {
    /// The longest filesystem label, in characters, that this filesystem stores.
    pub open spec fn label_limit(self) -> nat {
        match self {
            FilesystemType::Ext4 => 16,
            FilesystemType::Xfs => 12,
            FilesystemType::Btrfs => 255,
            FilesystemType::Fat32 => 11,
            FilesystemType::Unformatted => 0,
        }
    }

    /// Whether this filesystem accepts `label` as its label: ASCII only,
    /// and no longer than the filesystem stores.
    pub open spec fn label_ok(self, label: Seq<char>) -> bool {
        &&& self != FilesystemType::Unformatted
        &&& vstd::utf8::is_ascii_chars(label)
        &&& label.len() <= self.label_limit()
    }

    /// Checks a filesystem label against this filesystem's rules.
    pub fn is_valid_label(&self, label: &str) -> (r: bool)
        ensures
            r == self.label_ok(label@),
    {
        let limit: usize = match self {
            FilesystemType::Ext4 => 16,
            FilesystemType::Xfs => 12,
            FilesystemType::Btrfs => 255,
            FilesystemType::Fat32 => 11,
            FilesystemType::Unformatted => {
                return false;
            },
        };
        label.is_ascii() && label.unicode_len() <= limit
    }
}

/// One partition of a device.
#[derive(Clone, Debug)]
pub struct PartitionSpec {
    /// 1-based partition number.
    pub num: u32,
    /// Size in sectors; 0 takes the rest of the disk.
    pub size: u64,
    /// Explicit first sector, if any.
    pub start_sector: Option<u64>,
    pub part_type: PartitionType,
    pub usage: PartitionUsage,
    /// GPT partition name.
    pub label: Option<String>,
    pub filesystem: FilesystemType,
    pub fs_label: Option<String>,
}

} // verus!
