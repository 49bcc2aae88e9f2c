use crate::device::{DeviceSpec, PartitionMapType};
use crate::guid::{
    guid_text, guid_to_string, encode_gpt_guid, hex_byte, mixed_endian, push_hex_byte, random_guid,
};
use crate::layout::{layout, plan_layout, Placed, PlanError};
use crate::partition::{PartitionSpec, PartitionType, PartitionUsage};
use crate::space::{Geometry, ONE_MIB};
use vstd::prelude::*;
use vstd::string::StringExecFns;

verus! {

/// Boot flag of the active MBR partition.
pub const BOOT_ACTIVE: u8 = 0x80;

/// Boot flag of every other MBR partition.
pub const BOOT_INACTIVE: u8 = 0x00;

/// Alignment, in sectors, that an MBR table gives computed starts unless
/// told otherwise.
pub const MBR_DEFAULT_ALIGN: u32 = 2048;

/// What later build steps need to know of a partition table.
#[derive(Clone, Debug)]
pub struct PartitionMapData {
    /// Number of the root filesystem's partition.
    pub root_part_num: u32,
    /// Identifier of the root filesystem's partition (PARTUUID).
    pub root_part_uuid: String,
    /// Reserved for a separate EFI system partition; never filled yet.
    pub efi_part_num: Option<u32>,
    pub efi_part_uuid: Option<String>,
    /// Reserved for a separate boot partition; never filled yet.
    pub boot_part_num: Option<u32>,
    pub boot_part_uuid: Option<String>,
}

/// One GPT entry, with its GUIDs in on-disk (mixed-endian) form.
#[derive(Clone, Debug)]
pub struct GptEntry {
    pub num: u32,
    pub type_guid: [u8; 16],
    pub unique_guid: [u8; 16],
    pub starting_lba: u64,
    /// Last sector of the partition.
    pub ending_lba: u64,
    pub name: String,
}

/// A GPT partition table, assembled and ready to be written.
#[derive(Clone, Debug)]
pub struct GptTable {
    /// Disk GUID in on-disk (mixed-endian) form.
    pub disk_guid: [u8; 16],
    /// Alignment of computed starts, in sectors.
    pub align: u64,
    /// Entries in ascending order of number.
    pub entries: Vec<GptEntry>,
    pub map: PartitionMapData,
}

/// One primary MBR entry.
#[derive(Clone, Copy, Debug)]
pub struct MbrEntry {
    pub num: u32,
    /// `BOOT_ACTIVE` or `BOOT_INACTIVE`.
    pub boot: u8,
    /// System byte of the partition type.
    pub sys: u8,
    pub starting_lba: u32,
    pub sectors: u32,
}

/// An MBR partition table, assembled and ready to be written.
#[derive(Clone, Debug)]
pub struct MbrTable {
    /// The four signature bytes as they are stored on disk.
    pub disk_signature: [u8; 4],
    pub entries: Vec<MbrEntry>,
    pub map: PartitionMapData,
}

/// Whether a table of kind `kind` can record partition type `t`.
pub open spec fn has_code(kind: PartitionMapType, t: PartitionType) -> bool {
    match kind {
        PartitionMapType::GPT => t.gpt_guid() is Some,
        PartitionMapType::MBR => t.mbr_byte() is Some,
    }
}

/// Number of the first partition from index `i` on whose type a table of
/// kind `kind` cannot record.
pub open spec fn first_untyped_from(kind: PartitionMapType, parts: Seq<PartitionSpec>, i: int) -> Option<u32>
    decreases parts.len() - i,
{
    if i < 0 || i >= parts.len() {
        None
    } else if !has_code(kind, parts[i].part_type) {
        Some(parts[i].num)
    } else {
        first_untyped_from(kind, parts, i + 1)
    }
}

/// Index of the first root-filesystem partition from index `i` on.
pub open spec fn root_index_from(parts: Seq<PartitionSpec>, i: int) -> Option<int>
    decreases parts.len() - i,
{
    if i < 0 || i >= parts.len() {
        None
    } else if parts[i].usage == PartitionUsage::Rootfs {
        Some(i)
    } else {
        root_index_from(parts, i + 1)
    }
}

pub open spec fn root_index(parts: Seq<PartitionSpec>) -> Option<int> {
    root_index_from(parts, 0)
}

/// Whether a table of kind `kind` can be built for `d` on geometry `g`:
/// the placements, or the first reason it cannot. Placement comes first,
/// then partition types, then the root filesystem.
pub open spec fn table_check(kind: PartitionMapType, g: Geometry, d: DeviceSpec) -> Result<
    Seq<Placed>,
    PlanError,
> {
    match layout(kind, g, d) {
        Err(e) => Err(e),
        Ok(placed) => match first_untyped_from(kind, d.partitions@, 0) {
            Some(num) => Err(PlanError::TypeUnsupported(num)),
            None => match root_index(d.partitions@) {
                None => Err(PlanError::NoRootfs),
                Some(_) => Ok(placed),
            },
        },
    }
}

/// The GPT partition name of a partition: its label, or nothing.
pub open spec fn name_of(label: Option<String>) -> Seq<char> {
    match label {
        Some(l) => l@,
        None => seq![],
    }
}

/// `e` records partition `p`, placed at `pl`, with GUID `guid`.
pub open spec fn gpt_entry_matches(e: GptEntry, pl: Placed, p: PartitionSpec, guid: [u8; 16]) -> bool {
    &&& e.num == p.num
    &&& e.type_guid@ == mixed_endian(p.part_type.gpt_guid()->Some_0@)
    &&& e.unique_guid@ == mixed_endian(guid@)
    &&& e.starting_lba == pl.start
    &&& e.ending_lba == pl.start + pl.size - 1
    &&& e.name@ == name_of(p.label)
}

/// `m` names the root partition `root_num` with identifier `root_uuid`
/// and leaves the reserved fields empty.
pub open spec fn map_matches(m: PartitionMapData, root_num: u32, root_uuid: Seq<char>) -> bool {
    &&& m.root_part_num == root_num
    &&& m.root_part_uuid@ == root_uuid
    &&& m.efi_part_num is None
    &&& m.efi_part_uuid is None
    &&& m.boot_part_num is None
    &&& m.boot_part_uuid is None
}

/// `t` is the GPT table of `d` on `g`, with disk GUID `disk_guid` and
/// partition GUIDs `guids` (both in canonical byte order).
pub open spec fn gpt_table_matches(
    t: GptTable,
    d: DeviceSpec,
    g: Geometry,
    disk_guid: [u8; 16],
    guids: Seq<[u8; 16]>,
) -> bool {
    let parts = d.partitions@;
    let placed = table_check(PartitionMapType::GPT, g, d)->Ok_0;
    let ri = root_index(parts)->Some_0;
    &&& t.disk_guid@ == mixed_endian(disk_guid@)
    &&& t.align == g.align
    &&& t.entries@.len() == parts.len()
    &&& forall|i: int|
        0 <= i < parts.len() ==> gpt_entry_matches(
            #[trigger] t.entries@[i],
            placed[i],
            parts[i],
            guids[i],
        )
    &&& map_matches(t.map, parts[ri].num, guid_text(guids[ri]@))
}

/// Index of the first root-filesystem partition.
fn find_root(parts: &Vec<PartitionSpec>) -> (r: Option<usize>)
    ensures
        match r {
            Some(i) => root_index(parts@) == Some(i as int) && i < parts@.len(),
            None => root_index(parts@) is None,
        },
{
    let mut i: usize = 0;
    while i < parts.len()
        invariant
            i <= parts@.len(),
            root_index(parts@) == root_index_from(parts@, i as int),
        decreases parts@.len() - i,
    {
        if parts[i].usage == PartitionUsage::Rootfs {
            return Some(i);
        }
        i = i + 1;
    }
    None
}

fn label_name(label: &Option<String>) -> (r: String)
    ensures
        r@ == name_of(*label),
{
    match label {
        Some(l) => l.clone(),
        None => String::new(),
    }
}

fn empty_map(root_part_num: u32, root_part_uuid: String) -> (r: PartitionMapData)
    ensures
        map_matches(r, root_part_num, root_part_uuid@),
{
    PartitionMapData {
        root_part_num,
        root_part_uuid,
        efi_part_num: None,
        efi_part_uuid: None,
        boot_part_num: None,
        boot_part_uuid: None,
    }
}

/// Assembles the GPT table of `d` on geometry `g`, with the given disk GUID
/// and one GUID per partition, in the order the partitions are listed (all
/// in canonical byte order).
pub fn assemble_gpt(
    d: &DeviceSpec,
    g: Geometry,
    disk_guid: [u8; 16],
    part_guids: &Vec<[u8; 16]>,
) -> (r: Result<GptTable, PlanError>)
    requires
        part_guids@.len() == d.partitions@.len(),
    ensures
        match r {
            Ok(t) => table_check(PartitionMapType::GPT, g, *d) is Ok && gpt_table_matches(
                t,
                *d,
                g,
                disk_guid,
                part_guids@,
            ),
            Err(e) => table_check(PartitionMapType::GPT, g, *d) == Err::<Seq<Placed>, PlanError>(e),
        },
{
    let placed = match plan_layout(PartitionMapType::GPT, g, d) {
        Err(e) => {
            return Err(e);
        },
        Ok(v) => v,
    };
    proof {
        crate::layout::lemma_layout_bounds(PartitionMapType::GPT, g, *d);
    }
    let n = d.partitions.len();
    let mut entries: Vec<GptEntry> = Vec::new();
    let mut i: usize = 0;
    while i < n
        invariant
            n == d.partitions@.len(),
            n == part_guids@.len(),
            placed@.len() == n,
            layout(PartitionMapType::GPT, g, *d) == Ok::<Seq<Placed>, PlanError>(placed@),
            g.last_usable <= crate::space::MAX_LBA,
            forall|j: int|
                0 <= j < n ==> (#[trigger] placed@[j]).size > 0 && placed@[j].start + placed@[j].size
                    - 1 <= g.last_usable,
            i <= n,
            entries@.len() == i,
            first_untyped_from(PartitionMapType::GPT, d.partitions@, 0) == first_untyped_from(
                PartitionMapType::GPT,
                d.partitions@,
                i as int,
            ),
            forall|j: int|
                0 <= j < i ==> gpt_entry_matches(
                    #[trigger] entries@[j],
                    placed@[j],
                    d.partitions@[j],
                    part_guids@[j],
                ),
        decreases n - i,
    {
        let p = &d.partitions[i];
        let type_guid = match p.part_type.to_gpt_guid() {
            Err(_) => {
                assert(first_untyped_from(PartitionMapType::GPT, d.partitions@, i as int) == Some(
                    p.num,
                ));
                return Err(PlanError::TypeUnsupported(p.num));
            },
            Ok(t) => t,
        };
        let pl = placed[i];
        let entry = GptEntry {
            num: p.num,
            type_guid: encode_gpt_guid(&type_guid),
            unique_guid: encode_gpt_guid(&part_guids[i]),
            starting_lba: pl.start,
            ending_lba: pl.start + (pl.size - 1),
            name: label_name(&p.label),
        };
        entries.push(entry);
        i = i + 1;
    }
    let ri = match find_root(&d.partitions) {
        None => {
            return Err(PlanError::NoRootfs);
        },
        Some(ri) => ri,
    };
    let map = empty_map(d.partitions[ri].num, guid_to_string(&part_guids[ri]));
    Ok(GptTable { disk_guid: encode_gpt_guid(&disk_guid), align: g.align, entries, map })
}

/// The geometry of a GPT disk whose sectors are `sector_size` bytes, with
/// computed starts aligned to one mebibyte.
pub open spec fn gpt_geometry(sector_size: u64, first_usable: u64, last_usable: u64) -> Geometry {
    Geometry {
        sector_size,
        first_usable,
        last_usable,
        align: if 0 < sector_size <= ONE_MIB {
            (ONE_MIB / sector_size) as u64
        } else {
            0
        },
    }
}

/// Builds the GPT table of `d` for a disk with the given sector size and
/// usable area, with a fresh random disk GUID and partition GUIDs. The
/// placements are those of `table_check`, whatever GUIDs were drawn.
pub fn build_gpt(d: &DeviceSpec, sector_size: u64, first_usable: u64, last_usable: u64) -> (r:
    Result<GptTable, PlanError>)
    ensures
        match r {
            Ok(t) => {
                &&& table_check(
                    PartitionMapType::GPT,
                    gpt_geometry(sector_size, first_usable, last_usable),
                    *d,
                ) is Ok
                &&& exists|disk_guid: [u8; 16], guids: Seq<[u8; 16]>|
                    guids.len() == d.partitions@.len() && gpt_table_matches(
                        t,
                        *d,
                        gpt_geometry(sector_size, first_usable, last_usable),
                        disk_guid,
                        guids,
                    )
            },
            Err(e) => table_check(
                PartitionMapType::GPT,
                gpt_geometry(sector_size, first_usable, last_usable),
                *d,
            ) == Err::<Seq<Placed>, PlanError>(e),
        },
{
    let align: u64 = if 0 < sector_size && sector_size <= ONE_MIB {
        ONE_MIB / sector_size
    } else {
        0
    };
    let g = Geometry { sector_size, first_usable, last_usable, align };
    let disk_guid = random_guid();
    let mut guids: Vec<[u8; 16]> = Vec::new();
    let mut i: usize = 0;
    while i < d.partitions.len()
        invariant
            i <= d.partitions@.len(),
            guids@.len() == i,
        decreases d.partitions@.len() - i,
    {
        guids.push(random_guid());
        i = i + 1;
    }
    let r = assemble_gpt(d, g, disk_guid, &guids);
    proof {
        if r is Ok {
            assert(gpt_table_matches(r->Ok_0, *d, g, disk_guid, guids@));
        }
    }
    r
}

/// The four bytes of a disk signature as they are stored on disk: most
/// significant first.
pub open spec fn signature_bytes(sig: u32) -> Seq<u8> {
    seq![(sig >> 24u32) as u8, (sig >> 16u32) as u8, (sig >> 8u32) as u8, sig as u8]
}

/// The identifier that Linux gives partition `num` of a disk with the
/// stored signature bytes `b`: the signature read little-endian, in eight
/// hexadecimal digits, a hyphen, and the number in two.
pub open spec fn mbr_part_uuid_text(b: Seq<u8>, num: u8) -> Seq<char> {
    hex_byte(b[3]) + hex_byte(b[2]) + hex_byte(b[1]) + hex_byte(b[0]) + seq!['-'] + hex_byte(num)
}

/// The identifier that Linux gives partition `num` of a disk with the
/// stored signature bytes `sig`.
pub fn mbr_part_uuid(sig: &[u8; 4], num: u8) -> (r: String)
    ensures
        r@ == mbr_part_uuid_text(sig@, num),
{
    let mut s = String::new();
    push_hex_byte(&mut s, sig[3]);
    push_hex_byte(&mut s, sig[2]);
    push_hex_byte(&mut s, sig[1]);
    push_hex_byte(&mut s, sig[0]);
    s.append("-");
    proof {
        reveal_strlit("-");
    }
    push_hex_byte(&mut s, num);
    assert(s@ =~= mbr_part_uuid_text(sig@, num));
    s
}

/// The boot flag of a partition used as `usage`.
pub open spec fn boot_flag(usage: PartitionUsage) -> u8 {
    if usage == PartitionUsage::Boot {
        BOOT_ACTIVE
    } else {
        BOOT_INACTIVE
    }
}

/// `e` records partition `p`, placed at `pl`.
pub open spec fn mbr_entry_matches(e: MbrEntry, pl: Placed, p: PartitionSpec) -> bool {
    &&& e.num == p.num
    &&& e.boot == boot_flag(p.usage)
    &&& e.sys == p.part_type.mbr_byte()->Some_0
    &&& e.starting_lba == pl.start
    &&& e.sectors == pl.size
}

/// `t` is the MBR table of `d` on `g`, with disk signature `sig`.
pub open spec fn mbr_table_matches(t: MbrTable, d: DeviceSpec, g: Geometry, sig: u32) -> bool {
    let parts = d.partitions@;
    let placed = table_check(PartitionMapType::MBR, g, d)->Ok_0;
    let ri = root_index(parts)->Some_0;
    &&& t.disk_signature@ == signature_bytes(sig)
    &&& t.entries@.len() == parts.len()
    &&& forall|i: int|
        0 <= i < parts.len() ==> mbr_entry_matches(#[trigger] t.entries@[i], placed[i], parts[i])
    &&& map_matches(t.map, parts[ri].num, mbr_part_uuid_text(signature_bytes(sig), parts[ri].num as u8))
}

/// Assembles the MBR table of `d` on geometry `g` with disk signature `sig`.
pub fn assemble_mbr(d: &DeviceSpec, g: Geometry, sig: u32) -> (r: Result<MbrTable, PlanError>)
    ensures
        match r {
            Ok(t) => table_check(PartitionMapType::MBR, g, *d) is Ok && mbr_table_matches(t, *d, g, sig),
            Err(e) => table_check(PartitionMapType::MBR, g, *d) == Err::<Seq<Placed>, PlanError>(e),
        },
{
    let placed = match plan_layout(PartitionMapType::MBR, g, d) {
        Err(e) => {
            return Err(e);
        },
        Ok(v) => v,
    };
    proof {
        crate::layout::lemma_layout_bounds(PartitionMapType::MBR, g, *d);
        assert(g.last_usable <= 0xFFFF_FFFEu64);
    }
    let n = d.partitions.len();
    let mut entries: Vec<MbrEntry> = Vec::new();
    let mut i: usize = 0;
    while i < n
        invariant
            n == d.partitions@.len(),
            placed@.len() == n,
            layout(PartitionMapType::MBR, g, *d) == Ok::<Seq<Placed>, PlanError>(placed@),
            g.last_usable <= 0xFFFF_FFFEu64,
            forall|j: int|
                0 <= j < n ==> (#[trigger] placed@[j]).size > 0 && placed@[j].size <= u32::MAX
                    && placed@[j].start + placed@[j].size - 1 <= g.last_usable,
            i <= n,
            entries@.len() == i,
            first_untyped_from(PartitionMapType::MBR, d.partitions@, 0) == first_untyped_from(
                PartitionMapType::MBR,
                d.partitions@,
                i as int,
            ),
            forall|j: int|
                0 <= j < i ==> mbr_entry_matches(#[trigger] entries@[j], placed@[j], d.partitions@[j]),
        decreases n - i,
    {
        let p = &d.partitions[i];
        let sys = match p.part_type.to_mbr_byte() {
            Err(_) => {
                assert(first_untyped_from(PartitionMapType::MBR, d.partitions@, i as int) == Some(
                    p.num,
                ));
                return Err(PlanError::TypeUnsupported(p.num));
            },
            Ok(b) => b,
        };
        let pl = placed[i];
        let boot = if p.usage == PartitionUsage::Boot {
            BOOT_ACTIVE
        } else {
            BOOT_INACTIVE
        };
        entries.push(
            MbrEntry { num: p.num, boot, sys, starting_lba: pl.start as u32, sectors: pl.size as u32 },
        );
        i = i + 1;
    }
    let ri = match find_root(&d.partitions) {
        None => {
            return Err(PlanError::NoRootfs);
        },
        Some(ri) => ri,
    };
    let disk_signature: [u8; 4] = [(sig >> 24u32) as u8, (sig >> 16u32) as u8, (sig >> 8u32) as u8, sig as u8];
    assert(disk_signature@ =~= signature_bytes(sig));
    let root_num = d.partitions[ri].num;
    let map = empty_map(root_num, mbr_part_uuid(&disk_signature, root_num as u8));
    Ok(MbrTable { disk_signature, entries, map })
}

/// Relies on rand's `random`: a value drawn from the thread-local
/// generator; nothing is promised of it.
#[verifier::external_body]
fn random_u32() -> (r: u32) {
    rand::random::<u32>()
}

/// The geometry of an MBR disk of `disk_size` sectors. A sector size that
/// does not fit in 32 bits is taken as 512 bytes.
pub open spec fn mbr_geometry(reported_sector_size: u64, disk_size: u32, align: u32) -> Geometry {
    Geometry {
        sector_size: if reported_sector_size <= u32::MAX {
            reported_sector_size
        } else {
            512
        },
        first_usable: 1,
        last_usable: if disk_size >= 2 {
            (disk_size - 1) as u64
        } else {
            0
        },
        align: align as u64,
    }
}

/// Builds the MBR table of `d` for a disk of `disk_size` sectors, with a
/// fresh random disk signature. The placements are those of `table_check`,
/// whatever signature was drawn.
pub fn build_mbr(d: &DeviceSpec, reported_sector_size: u64, disk_size: u32, align: u32) -> (r:
    Result<MbrTable, PlanError>)
    ensures
        match r {
            Ok(t) => {
                &&& table_check(
                    PartitionMapType::MBR,
                    mbr_geometry(reported_sector_size, disk_size, align),
                    *d,
                ) is Ok
                &&& exists|sig: u32|
                    mbr_table_matches(
                        t,
                        *d,
                        mbr_geometry(reported_sector_size, disk_size, align),
                        sig,
                    )
            },
            Err(e) => table_check(
                PartitionMapType::MBR,
                mbr_geometry(reported_sector_size, disk_size, align),
                *d,
            ) == Err::<Seq<Placed>, PlanError>(e),
        },
{
    let sector_size: u64 = if reported_sector_size <= 0xFFFF_FFFFu64 {
        reported_sector_size
    } else {
        512
    };
    let last_usable: u64 = if disk_size >= 2 {
        (disk_size - 1) as u64
    } else {
        0
    };
    let g = Geometry { sector_size, first_usable: 1, last_usable, align: align as u64 };
    let sig = random_u32();
    let r = assemble_mbr(d, g, sig);
    proof {
        if r is Ok {
            assert(mbr_table_matches(r->Ok_0, *d, g, sig));
        }
    }
    r
}

/// The GUIDs of a GPT table round-trip: decoding the written disk GUID and
/// each written partition GUID from mixed-endian form gives back the GUID
/// that was meant.
pub proof fn lemma_gpt_guids_round_trip(
    t: GptTable,
    d: DeviceSpec,
    g: Geometry,
    disk_guid: [u8; 16],
    guids: Seq<[u8; 16]>,
)
    requires
        gpt_table_matches(t, d, g, disk_guid, guids),
    ensures
        mixed_endian(t.disk_guid@) == disk_guid@,
        forall|i: int|
            0 <= i < d.partitions@.len() ==> mixed_endian((#[trigger] t.entries@[i]).unique_guid@)
                == guids[i]@,
{
    crate::guid::lemma_guid_round_trip(disk_guid@);
    assert forall|i: int| 0 <= i < d.partitions@.len() implies mixed_endian(
        (#[trigger] t.entries@[i]).unique_guid@,
    ) == guids[i]@ by {
        assert(gpt_entry_matches(t.entries@[i], table_check(PartitionMapType::GPT, g, d)->Ok_0[i], d.partitions@[i], guids[i]));
        crate::guid::lemma_guid_round_trip(guids[i]@);
    }
}

/// Two GPT tables built for the same description and geometry have the
/// same partitions in the same places, whatever GUIDs each was given: the
/// layout depends on the description and the geometry alone.
pub proof fn lemma_gpt_layout_independent_of_guids(
    t1: GptTable,
    t2: GptTable,
    d: DeviceSpec,
    g: Geometry,
    disk_guid1: [u8; 16],
    guids1: Seq<[u8; 16]>,
    disk_guid2: [u8; 16],
    guids2: Seq<[u8; 16]>,
)
    requires
        gpt_table_matches(t1, d, g, disk_guid1, guids1),
        gpt_table_matches(t2, d, g, disk_guid2, guids2),
    ensures
        t1.entries@.len() == t2.entries@.len(),
        t1.align == t2.align,
        forall|i: int|
            0 <= i < t1.entries@.len() ==> {
                &&& (#[trigger] t1.entries@[i]).num == t2.entries@[i].num
                &&& t1.entries@[i].starting_lba == t2.entries@[i].starting_lba
                &&& t1.entries@[i].ending_lba == t2.entries@[i].ending_lba
                &&& t1.entries@[i].type_guid == t2.entries@[i].type_guid
            },
{
    assert forall|i: int| 0 <= i < t1.entries@.len() implies {
        &&& (#[trigger] t1.entries@[i]).num == t2.entries@[i].num
        &&& t1.entries@[i].starting_lba == t2.entries@[i].starting_lba
        &&& t1.entries@[i].ending_lba == t2.entries@[i].ending_lba
        &&& t1.entries@[i].type_guid == t2.entries@[i].type_guid
    } by {
        let pl = table_check(PartitionMapType::GPT, g, d)->Ok_0[i];
        assert(gpt_entry_matches(t1.entries@[i], pl, d.partitions@[i], guids1[i]));
        assert(gpt_entry_matches(t2.entries@[i], pl, d.partitions@[i], guids2[i]));
        assert(t1.entries@[i].type_guid@ == t2.entries@[i].type_guid@);
    }
}

/// Two MBR tables built for the same description and geometry have the
/// same entries, whatever disk signature each was given.
pub proof fn lemma_mbr_layout_independent_of_signature(
    t1: MbrTable,
    t2: MbrTable,
    d: DeviceSpec,
    g: Geometry,
    sig1: u32,
    sig2: u32,
)
    requires
        mbr_table_matches(t1, d, g, sig1),
        mbr_table_matches(t2, d, g, sig2),
    ensures
        t1.entries@ == t2.entries@,
{
    assert forall|i: int| 0 <= i < t1.entries@.len() implies #[trigger] t1.entries@[i]
        == t2.entries@[i] by {
        let pl = table_check(PartitionMapType::MBR, g, d)->Ok_0[i];
        assert(mbr_entry_matches(t1.entries@[i], pl, d.partitions@[i]));
        assert(mbr_entry_matches(t2.entries@[i], pl, d.partitions@[i]));
    }
    assert(t1.entries@ =~= t2.entries@);
}

} // verus!
