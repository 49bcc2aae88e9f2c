use mkrawimg::device::{DeviceArch, DeviceSpec, ImageVariantSizes, PartitionMapType};
use mkrawimg::layout::{plan_layout, Placed, PlanError};
use mkrawimg::partition::{FilesystemType, PartitionSpec, PartitionType, PartitionUsage};
use mkrawimg::space::{first_fit_in, Allocator, Geometry};

const MIB: u64 = 2048;

fn part(num: u32, size: u64, usage: PartitionUsage) -> PartitionSpec {
    PartitionSpec {
        num,
        size,
        start_sector: None,
        part_type: PartitionType::Linux,
        usage,
        label: None,
        filesystem: FilesystemType::Ext4,
        fs_label: None,
    }
}

fn device(kind: PartitionMapType, partitions: Vec<PartitionSpec>) -> DeviceSpec {
    DeviceSpec {
        id: "test".to_string(),
        aliases: None,
        vendor: "vendor".to_string(),
        arch: DeviceArch::Amd64,
        soc_vendor: "soc".to_string(),
        name: "Test".to_string(),
        model: None,
        of_compatible: None,
        bsp_packages: vec![],
        partition_map: kind,
        num_partitions: partitions.len() as u32,
        size: ImageVariantSizes::default(),
        partitions,
        file_path: String::new(),
    }
}

/// A 1 GiB disk of 512-byte sectors, as a GPT table lays it out.
fn gpt_512() -> Geometry {
    Geometry { sector_size: 512, first_usable: 34, last_usable: 2097118, align: MIB }
}

#[test]
fn three_partition_gpt_scenario() {
    let d = device(
        PartitionMapType::GPT,
        vec![
            part(1, 100 * MIB, PartitionUsage::Boot),
            part(2, 200 * MIB, PartitionUsage::Data),
            part(3, 0, PartitionUsage::Rootfs),
        ],
    );
    let placed = plan_layout(PartitionMapType::GPT, gpt_512(), &d).unwrap();
    assert_eq!(placed[0], Placed { num: 1, start: 2048, size: 204800 });
    assert_eq!(placed[1], Placed { num: 2, start: 206848, size: 409600 });
    // The rest of the disk, from the end of partition 2, less one sector.
    assert_eq!(placed[2].start, 616448);
    assert_eq!(placed[2].size, 2097119 - 616448 - 1);
    assert_eq!(placed[2].start + placed[2].size - 1, 2097117);
}

#[test]
fn first_partition_at_one_mib_512() {
    let d = device(PartitionMapType::GPT, vec![part(1, 4096, PartitionUsage::Rootfs)]);
    let placed = plan_layout(PartitionMapType::GPT, gpt_512(), &d).unwrap();
    assert_eq!(placed[0].start, 2048);
}

#[test]
fn first_partition_at_one_mib_4096() {
    let g = Geometry { sector_size: 4096, first_usable: 6, last_usable: 262138, align: 256 };
    let d = device(PartitionMapType::GPT, vec![part(1, 0, PartitionUsage::Rootfs)]);
    let placed = plan_layout(PartitionMapType::GPT, g, &d).unwrap();
    assert_eq!(placed[0].start, 256);
    // Fills the disk but one sector.
    assert_eq!(placed[0].size, 262139 - 256 - 1);
}

#[test]
fn layout_is_deterministic() {
    let d = device(
        PartitionMapType::GPT,
        vec![part(1, MIB, PartitionUsage::Boot), part(2, 0, PartitionUsage::Rootfs)],
    );
    let a = plan_layout(PartitionMapType::GPT, gpt_512(), &d).unwrap();
    let b = plan_layout(PartitionMapType::GPT, gpt_512(), &d).unwrap();
    assert_eq!(a, b);
}

#[test]
fn explicit_start_is_kept() {
    let mut first = part(1, MIB, PartitionUsage::Boot);
    first.start_sector = Some(8192);
    let d = device(PartitionMapType::GPT, vec![first, part(2, MIB, PartitionUsage::Rootfs)]);
    let placed = plan_layout(PartitionMapType::GPT, gpt_512(), &d).unwrap();
    assert_eq!(placed[0], Placed { num: 1, start: 8192, size: MIB });
    // First fit: the aligned gap before partition 1 holds partition 2.
    assert_eq!(placed[1], Placed { num: 2, start: 2048, size: MIB });
}

#[test]
fn fill_partition_must_be_last() {
    let mut d = device(
        PartitionMapType::GPT,
        vec![part(1, 0, PartitionUsage::Rootfs), part(2, MIB, PartitionUsage::Data)],
    );
    d.num_partitions = 2;
    assert_eq!(
        plan_layout(PartitionMapType::GPT, gpt_512(), &d),
        Err(PlanError::FillNotLast(1))
    );
}

#[test]
fn two_fill_partitions_rejected_at_the_lower() {
    let d = device(
        PartitionMapType::GPT,
        vec![
            part(1, MIB, PartitionUsage::Boot),
            part(2, 0, PartitionUsage::Data),
            part(3, 0, PartitionUsage::Rootfs),
        ],
    );
    assert_eq!(
        plan_layout(PartitionMapType::GPT, gpt_512(), &d),
        Err(PlanError::FillNotLast(2))
    );
}

#[test]
fn fifth_mbr_partition_unsupported() {
    let g = Geometry { sector_size: 512, first_usable: 1, last_usable: 2097151, align: MIB };
    let d = device(
        PartitionMapType::MBR,
        vec![
            part(1, MIB, PartitionUsage::Boot),
            part(2, MIB, PartitionUsage::Data),
            part(3, MIB, PartitionUsage::Data),
            part(4, MIB, PartitionUsage::Data),
            part(5, MIB, PartitionUsage::Rootfs),
        ],
    );
    assert_eq!(
        plan_layout(PartitionMapType::MBR, g, &d),
        Err(PlanError::ExtendedUnsupported(5))
    );
}

#[test]
fn partition_number_zero_rejected() {
    let d = device(PartitionMapType::GPT, vec![part(0, MIB, PartitionUsage::Rootfs)]);
    assert_eq!(plan_layout(PartitionMapType::GPT, gpt_512(), &d), Err(PlanError::NumberZero));
}

#[test]
fn gpt_slot_past_128_rejected() {
    let d = device(PartitionMapType::GPT, vec![part(129, MIB, PartitionUsage::Rootfs)]);
    assert_eq!(
        plan_layout(PartitionMapType::GPT, gpt_512(), &d),
        Err(PlanError::SlotOutOfRange(129))
    );
}

#[test]
fn no_room_for_second_partition() {
    let d = device(
        PartitionMapType::GPT,
        vec![part(1, 2000000, PartitionUsage::Boot), part(2, 200000, PartitionUsage::Rootfs)],
    );
    assert_eq!(
        plan_layout(PartitionMapType::GPT, gpt_512(), &d),
        Err(PlanError::NoSuitableSpace(2))
    );
}

#[test]
fn disk_full_leaves_no_free_space() {
    let mut first = part(1, 2097118 - 34 + 1, PartitionUsage::Boot);
    first.start_sector = Some(34);
    let d = device(PartitionMapType::GPT, vec![first, part(2, MIB, PartitionUsage::Rootfs)]);
    assert_eq!(
        plan_layout(PartitionMapType::GPT, gpt_512(), &d),
        Err(PlanError::NoFreeSpace(2))
    );
}

#[test]
fn fill_needs_one_mib() {
    let g = Geometry { sector_size: 512, first_usable: 34, last_usable: 4000, align: MIB };
    let mut first = part(1, 100, PartitionUsage::Boot);
    first.start_sector = Some(34);
    let d = device(PartitionMapType::GPT, vec![first, part(2, 0, PartitionUsage::Rootfs)]);
    // The only free range is 2048..=4000, shorter than one mebibyte.
    assert_eq!(plan_layout(PartitionMapType::GPT, g, &d), Err(PlanError::NotEnoughSpace(2)));
}

#[test]
fn mbr_partition_below_one_mib_rejected() {
    let g = Geometry { sector_size: 512, first_usable: 1, last_usable: 2097151, align: MIB };
    let d = device(PartitionMapType::MBR, vec![part(1, 100, PartitionUsage::Rootfs)]);
    assert_eq!(plan_layout(PartitionMapType::MBR, g, &d), Err(PlanError::NotEnoughSpace(1)));
}

#[test]
fn mbr_size_past_32_bits_rejected() {
    let g = Geometry { sector_size: 512, first_usable: 1, last_usable: 2097151, align: MIB };
    let d = device(PartitionMapType::MBR, vec![part(1, 1u64 << 32, PartitionUsage::Rootfs)]);
    assert_eq!(plan_layout(PartitionMapType::MBR, g, &d), Err(PlanError::SizeTooLarge(1)));
}

#[test]
fn mbr_start_past_32_bits_rejected() {
    let g = Geometry { sector_size: 512, first_usable: 1, last_usable: 2097151, align: MIB };
    let mut p = part(1, MIB, PartitionUsage::Rootfs);
    p.start_sector = Some(1u64 << 32);
    let d = device(PartitionMapType::MBR, vec![p]);
    assert_eq!(plan_layout(PartitionMapType::MBR, g, &d), Err(PlanError::StartTooLarge(1)));
}

#[test]
fn overlapping_start_rejected() {
    let mut second = part(2, MIB, PartitionUsage::Rootfs);
    second.start_sector = Some(3000);
    let d = device(PartitionMapType::GPT, vec![part(1, MIB, PartitionUsage::Boot), second]);
    assert_eq!(plan_layout(PartitionMapType::GPT, gpt_512(), &d), Err(PlanError::DoesNotFit(2)));
}

#[test]
fn zero_sector_size_rejected() {
    let g = Geometry { sector_size: 0, first_usable: 34, last_usable: 2097118, align: MIB };
    let d = device(PartitionMapType::GPT, vec![part(1, MIB, PartitionUsage::Rootfs)]);
    assert_eq!(plan_layout(PartitionMapType::GPT, g, &d), Err(PlanError::BadGeometry));
}

#[test]
fn free_ranges_are_aligned_gaps() {
    let mut a = Allocator::new(gpt_512());
    assert_eq!(a.free_ranges(), vec![(2048, 2097119 - 2048)]);
    a.occupy(4096, 100);
    a.occupy(2048, 10);
    assert_eq!(a.occupied, vec![(2048, 2057), (4096, 4195)]);
    // The gap 2058..4096 is empty once aligned to 4096.
    assert_eq!(a.free_ranges(), vec![(6144, 2097119 - 6144)]);
    assert!(!a.fits(4100, 1));
    assert!(a.fits(4196, 1));
    assert_eq!(a.find_first_fit(10), Some(6144));
}

#[test]
fn first_fit_takes_the_first_range_that_holds() {
    let fr = vec![(2048, 10), (8192, 500), (16384, 100000)];
    assert_eq!(first_fit_in(&fr, 10), Some(2048));
    assert_eq!(first_fit_in(&fr, 11), Some(8192));
    assert_eq!(first_fit_in(&fr, 501), Some(16384));
    assert_eq!(first_fit_in(&fr, 100001), None);
}
