use mkrawimg::device::{check_binfmt, BinfmtError, DeviceArch, ImageVariant, ImageVariantSizes};
use mkrawimg::guid::{encode_gpt_guid, guid_to_string, push_hex_byte, random_guid};
use mkrawimg::partition::{PartitionType, TypeError, EFI_SYSTEM_GUID};

#[test]
fn variant_sizes() {
    let s = ImageVariantSizes::default();
    assert_eq!(s.get_variant_size(&ImageVariant::Base), 5120);
    assert_eq!(s.get_variant_size(&ImageVariant::Desktop), 25600);
    assert_eq!(s.get_variant_size(&ImageVariant::Server), 6144);
}

#[test]
fn native_arch() {
    assert!(DeviceArch::Amd64.is_native(Some(DeviceArch::Amd64)));
    assert!(!DeviceArch::Arm64.is_native(Some(DeviceArch::Amd64)));
    assert!(!DeviceArch::Arm64.is_native(None));
}

#[test]
fn host_arch_names() {
    assert_eq!(DeviceArch::from_host_arch("x86_64", false), Some(DeviceArch::Amd64));
    assert_eq!(DeviceArch::from_host_arch("aarch64", false), Some(DeviceArch::Arm64));
    assert_eq!(DeviceArch::from_host_arch("mips64", false), Some(DeviceArch::Loongson3));
    assert_eq!(DeviceArch::from_host_arch("mips64", true), Some(DeviceArch::Mips64r6el));
    assert_eq!(DeviceArch::from_host_arch("powerpc64", false), Some(DeviceArch::Ppc64el));
    assert_eq!(DeviceArch::from_host_arch("sparc64", false), None);
}

#[test]
fn qemu_binfmt_names() {
    assert_eq!(DeviceArch::Amd64.get_qemu_binfmt_names(), "qemu-x86_64");
    assert_eq!(DeviceArch::Ppc64el.get_qemu_binfmt_names(), "qemu-ppc64le");
    assert_eq!(DeviceArch::Loongson3.get_qemu_binfmt_names(), "qemu-mips64el");
    assert_eq!(DeviceArch::Mips64r6el.get_qemu_binfmt_names(), "qemu-mips64el");
}

#[test]
fn binfmt_decisions() {
    let a = DeviceArch::Arm64;
    assert_eq!(check_binfmt(&a, Some(DeviceArch::Arm64), false, false), Ok(()));
    assert_eq!(check_binfmt(&a, Some(DeviceArch::Amd64), false, false), Err(BinfmtError::Unavailable));
    assert_eq!(check_binfmt(&a, None, true, false), Err(BinfmtError::NotRegistered));
    assert_eq!(check_binfmt(&a, None, true, true), Ok(()));
}

#[test]
fn type_registry() {
    assert_eq!(PartitionType::Efi.to_gpt_guid(), Ok(EFI_SYSTEM_GUID));
    assert_eq!(PartitionType::Efi.to_mbr_byte(), Ok(0xEF));
    assert_eq!(PartitionType::Swap.to_mbr_byte(), Ok(0x82));
    assert_eq!(PartitionType::Byte(0x83).to_gpt_guid(), Err(TypeError::NoGptGuid));
    assert_eq!(PartitionType::Guid([9; 16]).to_mbr_byte(), Err(TypeError::NoMbrByte));
    assert_eq!(PartitionType::Guid([9; 16]).to_gpt_guid(), Ok([9; 16]));
}

#[test]
fn guid_encoding() {
    let g = [0x01, 0x02, 0x03, 0x04, 0x05, 0x06, 0x07, 0x08, 0x09, 0x0A, 0x0B, 0x0C, 0x0D, 0x0E, 0x0F, 0x10];
    assert_eq!(
        encode_gpt_guid(&g),
        [0x04, 0x03, 0x02, 0x01, 0x06, 0x05, 0x08, 0x07, 0x09, 0x0A, 0x0B, 0x0C, 0x0D, 0x0E, 0x0F, 0x10]
    );
    assert_eq!(guid_to_string(&EFI_SYSTEM_GUID), "c12a7328-f81f-11d2-ba4b-00a0c93ec93b");
}

#[test]
fn random_guids_are_version_4() {
    let a = random_guid();
    let b = random_guid();
    assert_ne!(a, b);
    assert_eq!(a[6] & 0xF0, 0x40);
    assert_eq!(a[8] & 0xC0, 0x80);
}

#[test]
fn hex_bytes() {
    let mut s = String::from("x");
    push_hex_byte(&mut s, 0xA5);
    push_hex_byte(&mut s, 0x0F);
    assert_eq!(s, "xa50f");
}
