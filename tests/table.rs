use mkrawimg::device::{DeviceArch, DeviceSpec, ImageVariantSizes, PartitionMapType};
use mkrawimg::guid::{decode_gpt_guid, guid_to_string};
use mkrawimg::layout::PlanError;
use mkrawimg::partition::{
    FilesystemType, PartitionSpec, PartitionType, PartitionUsage, LINUX_FS_GUID,
};
use mkrawimg::space::Geometry;
use mkrawimg::table::{
    assemble_gpt, assemble_mbr, build_gpt, build_mbr, mbr_part_uuid, BOOT_ACTIVE, BOOT_INACTIVE,
};

const MIB: u64 = 2048;

fn part(num: u32, size: u64, usage: PartitionUsage) -> PartitionSpec {
    PartitionSpec {
        num,
        size,
        start_sector: None,
        part_type: PartitionType::Linux,
        usage,
        label: None,
        filesystem: FilesystemType::Ext4,
        fs_label: None,
    }
}

fn device(kind: PartitionMapType, partitions: Vec<PartitionSpec>) -> DeviceSpec {
    DeviceSpec {
        id: "test".to_string(),
        aliases: None,
        vendor: "vendor".to_string(),
        arch: DeviceArch::Riscv64,
        soc_vendor: "soc".to_string(),
        name: "Test".to_string(),
        model: None,
        of_compatible: None,
        bsp_packages: vec![],
        partition_map: kind,
        num_partitions: partitions.len() as u32,
        size: ImageVariantSizes::default(),
        partitions,
        file_path: String::new(),
    }
}

fn gpt_device() -> DeviceSpec {
    let mut boot = part(1, 100 * MIB, PartitionUsage::Boot);
    boot.part_type = PartitionType::Efi;
    boot.label = Some("EFI".to_string());
    device(
        PartitionMapType::GPT,
        vec![boot, part(2, 200 * MIB, PartitionUsage::Data), part(3, 0, PartitionUsage::Rootfs)],
    )
}

#[test]
fn gpt_scenario_through_builder() {
    let t = build_gpt(&gpt_device(), 512, 34, 2097118).unwrap();
    assert_eq!(t.align, 2048);
    let starts: Vec<u64> = t.entries.iter().map(|e| e.starting_lba).collect();
    let ends: Vec<u64> = t.entries.iter().map(|e| e.ending_lba).collect();
    assert_eq!(starts, vec![2048, 206848, 616448]);
    assert_eq!(ends, vec![206847, 616447, 2097117]);
    assert_eq!(t.entries[0].name, "EFI");
    assert_eq!(t.entries[1].name, "");
    assert_eq!(t.map.root_part_num, 3);
    assert_eq!(t.map.efi_part_num, None);
    assert_eq!(t.map.boot_part_num, None);
}

#[test]
fn gpt_guids_round_trip() {
    let t = build_gpt(&gpt_device(), 512, 34, 2097118).unwrap();
    // The root identifier is the text of the partition GUID that was
    // written in mixed-endian form.
    let root = decode_gpt_guid(&t.entries[2].unique_guid);
    assert_eq!(t.map.root_part_uuid, guid_to_string(&root));
    assert_eq!(root[6] & 0xF0, 0x40);
    // The type GUID is stored mixed-endian.
    assert_eq!(
        t.entries[1].type_guid,
        [0xAF, 0x3D, 0xC6, 0x0F, 0x83, 0x84, 0x72, 0x47, 0x8E, 0x79, 0x3D, 0x69, 0xD8, 0x47, 0x7D, 0xE4]
    );
    assert_eq!(decode_gpt_guid(&t.entries[1].type_guid), LINUX_FS_GUID);
}

#[test]
fn two_builds_differ_in_ids_not_layout() {
    let d = gpt_device();
    let a = build_gpt(&d, 512, 34, 2097118).unwrap();
    let b = build_gpt(&d, 512, 34, 2097118).unwrap();
    assert_ne!(a.disk_guid, b.disk_guid);
    for i in 0..3 {
        assert_ne!(a.entries[i].unique_guid, b.entries[i].unique_guid);
        assert_eq!(a.entries[i].starting_lba, b.entries[i].starting_lba);
        assert_eq!(a.entries[i].ending_lba, b.entries[i].ending_lba);
    }
}

#[test]
fn assemble_gpt_writes_given_guids() {
    let d = gpt_device();
    let g = Geometry { sector_size: 512, first_usable: 34, last_usable: 2097118, align: MIB };
    let disk = [1, 2, 3, 4, 5, 6, 7, 8, 9, 10, 11, 12, 13, 14, 15, 16];
    let guids = vec![[0x11; 16], [0x22; 16], [0x01, 0x02, 0x03, 0x04, 0x05, 0x06, 0x07, 0x08, 0x09, 0x0A, 0x0B, 0x0C, 0x0D, 0x0E, 0x0F, 0x10]];
    let t = assemble_gpt(&d, g, disk, &guids).unwrap();
    assert_eq!(t.disk_guid, [4, 3, 2, 1, 6, 5, 8, 7, 9, 10, 11, 12, 13, 14, 15, 16]);
    assert_eq!(
        t.entries[2].unique_guid,
        [0x04, 0x03, 0x02, 0x01, 0x06, 0x05, 0x08, 0x07, 0x09, 0x0A, 0x0B, 0x0C, 0x0D, 0x0E, 0x0F, 0x10]
    );
    assert_eq!(t.map.root_part_uuid, "01020304-0506-0708-090a-0b0c0d0e0f10");
}

#[test]
fn gpt_refuses_mbr_only_type() {
    let mut d = gpt_device();
    d.partitions[1].part_type = PartitionType::Byte(0x83);
    assert_eq!(build_gpt(&d, 512, 34, 2097118).unwrap_err(), PlanError::TypeUnsupported(2));
}

#[test]
fn gpt_needs_a_root() {
    let mut d = gpt_device();
    d.partitions[2].usage = PartitionUsage::Data;
    assert_eq!(build_gpt(&d, 512, 34, 2097118).unwrap_err(), PlanError::NoRootfs);
}

#[test]
fn gpt_with_4096_byte_sectors() {
    let d = device(PartitionMapType::GPT, vec![part(1, 0, PartitionUsage::Rootfs)]);
    let t = build_gpt(&d, 4096, 6, 262138).unwrap();
    assert_eq!(t.align, 256);
    assert_eq!(t.entries[0].starting_lba, 256);
    assert_eq!(t.entries[0].ending_lba, 262137);
}

#[test]
fn gpt_with_unusable_sector_size() {
    let d = device(PartitionMapType::GPT, vec![part(1, 0, PartitionUsage::Rootfs)]);
    assert_eq!(build_gpt(&d, 0, 34, 2097118).unwrap_err(), PlanError::BadGeometry);
}

fn mbr_device() -> DeviceSpec {
    let mut boot = part(1, 100 * MIB, PartitionUsage::Boot);
    boot.part_type = PartitionType::Basic;
    device(PartitionMapType::MBR, vec![boot, part(2, 0, PartitionUsage::Rootfs)])
}

#[test]
fn mbr_entries_and_flags() {
    let t = build_mbr(&mbr_device(), 512, 2097152, 2048).unwrap();
    assert_eq!(t.entries.len(), 2);
    assert_eq!(t.entries[0].starting_lba, 2048);
    assert_eq!(t.entries[0].sectors, 204800);
    assert_eq!(t.entries[0].boot, BOOT_ACTIVE);
    assert_eq!(t.entries[0].sys, 0x0C);
    assert_eq!(t.entries[1].starting_lba, 206848);
    assert_eq!(t.entries[1].sectors, 2097152 - 206848 - 1);
    assert_eq!(t.entries[1].boot, BOOT_INACTIVE);
    assert_eq!(t.entries[1].sys, 0x83);
    assert_eq!(t.map.root_part_num, 2);
}

#[test]
fn mbr_root_identifier_from_signature() {
    let g = Geometry { sector_size: 512, first_usable: 1, last_usable: 2097151, align: 2048 };
    let t = assemble_mbr(&mbr_device(), g, 0x12345678).unwrap();
    assert_eq!(t.disk_signature, [0x12, 0x34, 0x56, 0x78]);
    assert_eq!(t.map.root_part_uuid, "78563412-02");
}

#[test]
fn mbr_part_uuid_text() {
    assert_eq!(mbr_part_uuid(&[0xDE, 0xAD, 0xBE, 0xEF], 1), "efbeadde-01");
    assert_eq!(mbr_part_uuid(&[0, 0, 0, 0x0A], 4), "0a000000-04");
}

#[test]
fn mbr_refuses_gpt_only_type() {
    let mut d = mbr_device();
    d.partitions[1].part_type = PartitionType::Guid([7; 16]);
    assert_eq!(build_mbr(&d, 512, 2097152, 2048).unwrap_err(), PlanError::TypeUnsupported(2));
}

#[test]
fn mbr_fifth_partition_refused() {
    let d = device(
        PartitionMapType::MBR,
        vec![
            part(1, MIB, PartitionUsage::Boot),
            part(2, MIB, PartitionUsage::Data),
            part(3, MIB, PartitionUsage::Data),
            part(4, MIB, PartitionUsage::Data),
            part(5, 0, PartitionUsage::Rootfs),
        ],
    );
    assert_eq!(
        build_mbr(&d, 512, 2097152, 2048).unwrap_err(),
        PlanError::ExtendedUnsupported(5)
    );
}

#[test]
fn mbr_odd_sector_size_falls_back_to_512() {
    let d = device(PartitionMapType::MBR, vec![part(1, 0, PartitionUsage::Rootfs)]);
    let t = build_mbr(&d, 1u64 << 33, 2097152, 2048).unwrap();
    assert_eq!(t.entries[0].starting_lba, 2048);
}
