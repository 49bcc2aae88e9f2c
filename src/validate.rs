use crate::device::{DeviceSpec, PartitionMapType};
use crate::partition::{PartitionSpec, PartitionUsage};
use vstd::prelude::*;
use vstd::string::StrSliceExecFns;

verus! {

/// Longest GPT partition name, in characters.
pub const MAX_LABEL_LEN: usize = 35;

/// Most partitions that an MBR table holds (no extended partitions).
pub const MBR_MAX_PARTITIONS: usize = 4;

/// Most partitions that a GPT table holds.
pub const GPT_MAX_PARTITIONS: usize = 128;

/// A structural or semantic flaw in a device description.
#[derive(Clone, Copy, Debug, PartialEq, Eq, Structural)]
pub enum ValidationError {
    /// The ID holds a non-ASCII or forbidden character.
    BadId,
    /// An alias holds a non-ASCII or forbidden character.
    BadAlias,
    /// The vendor holds a non-ASCII or forbidden character.
    BadVendor,
    /// The compatible string holds a non-ASCII or forbidden character.
    BadCompatible,
    /// The name holds a forbidden character.
    BadName,
    /// The model holds a forbidden character.
    BadModel,
    /// No partition is declared.
    NoPartitions,
    /// The declared count differs from the number of partitions.
    CountMismatch,
    /// More partitions than the partition map holds.
    TooManyPartitions,
    /// This partition number does not start at 1 or does not increase.
    BadNumber(u32),
    /// This partition is swap.
    SwapNotAllowed(u32),
    /// This partition is a second root filesystem.
    MultipleRootfs(u32),
    /// This partition has a name under MBR.
    LabelNotAllowed(u32),
    /// This partition's name is too long.
    LabelTooLong(u32),
    /// This partition's filesystem label is refused by its filesystem.
    BadFsLabel(u32),
    /// This partition takes the rest of the disk but is not the last one.
    FillNotLast(u32),
    /// No partition holds the root filesystem.
    NoRootfs,
}

/// Characters that no name of a device may hold: quotes, backslash, the
/// path separator, braces, brackets and shell metacharacters.
pub open spec fn forbidden_char(c: char) -> bool {
    c == '"' || c == '\'' || c == '\\' || c == '/' || c == '{' || c == '}' || c == '['
        || c == ']' || c == '!' || c == '`' || c == '*' || c == '&'
}

/// Text that identifies a device: ASCII, with no forbidden character.
pub open spec fn identity_text_ok(s: Seq<char>) -> bool {
    forall|i: int| 0 <= i < s.len() ==> (s[i] as u32) < 128 && !forbidden_char(#[trigger] s[i])
}

/// Text for humans: any characters but the forbidden ones.
pub open spec fn human_text_ok(s: Seq<char>) -> bool {
    forall|i: int| 0 <= i < s.len() ==> !forbidden_char(#[trigger] s[i])
}

/// Most partitions that a table of kind `kind` holds.
pub open spec fn capacity(kind: PartitionMapType) -> nat {
    match kind {
        PartitionMapType::MBR => MBR_MAX_PARTITIONS as nat,
        PartitionMapType::GPT => GPT_MAX_PARTITIONS as nat,
    }
}

pub open spec fn opt_identity_ok(s: Option<String>) -> bool {
    match s {
        Some(t) => identity_text_ok(t@),
        None => true,
    }
}

pub open spec fn opt_human_ok(s: Option<String>) -> bool {
    match s {
        Some(t) => human_text_ok(t@),
        None => true,
    }
}

pub open spec fn all_identity_ok(v: Seq<String>) -> bool {
    forall|i: int| 0 <= i < v.len() ==> identity_text_ok((#[trigger] v[i])@)
}

pub open spec fn aliases_ok(a: Option<Vec<String>>) -> bool {
    match a {
        Some(v) => all_identity_ok(v@),
        None => true,
    }
}

/// The number of the partition at index `i` is in order: the first is 1,
/// and each is greater than the one before.
pub open spec fn number_in_order(parts: Seq<PartitionSpec>, i: int) -> bool {
    if i == 0 {
        parts[0].num == 1
    } else {
        parts[i].num > parts[i - 1].num
    }
}

/// Whether a partition's GPT name is acceptable under `kind`.
pub open spec fn label_ok(kind: PartitionMapType, label: Option<String>) -> bool {
    match label {
        Some(l) => kind == PartitionMapType::GPT && l@.len() <= MAX_LABEL_LEN,
        None => true,
    }
}

/// Whether a partition's filesystem label is acceptable.
pub open spec fn fs_label_ok(p: PartitionSpec) -> bool {
    match p.fs_label {
        Some(l) => p.filesystem.label_ok(l@),
        None => true,
    }
}

/// The first flaw of the partition at index `i`, given whether a root
/// filesystem came before it.
pub open spec fn partition_flaw(d: DeviceSpec, i: int, seen_root: bool) -> Option<ValidationError> {
    let parts = d.partitions@;
    let p = parts[i];
    if !number_in_order(parts, i) {
        Some(ValidationError::BadNumber(p.num))
    } else if p.usage == PartitionUsage::Swap {
        Some(ValidationError::SwapNotAllowed(p.num))
    } else if p.usage == PartitionUsage::Rootfs && seen_root {
        Some(ValidationError::MultipleRootfs(p.num))
    } else if p.label is Some && d.partition_map == PartitionMapType::MBR {
        Some(ValidationError::LabelNotAllowed(p.num))
    } else if !label_ok(d.partition_map, p.label) {
        Some(ValidationError::LabelTooLong(p.num))
    } else if !fs_label_ok(p) {
        Some(ValidationError::BadFsLabel(p.num))
    } else if p.size == 0 && i + 1 < parts.len() {
        Some(ValidationError::FillNotLast(p.num))
    } else {
        None
    }
}

/// The outcome of scanning the partitions from index `i` on.
pub open spec fn scan_partitions(d: DeviceSpec, i: int, seen_root: bool) -> Result<(), ValidationError>
    decreases d.partitions@.len() - i,
{
    if i < 0 || i >= d.partitions@.len() {
        if seen_root {
            Ok(())
        } else {
            Err(ValidationError::NoRootfs)
        }
    } else {
        match partition_flaw(d, i, seen_root) {
            Some(e) => Err(e),
            None => scan_partitions(
                d,
                i + 1,
                seen_root || d.partitions@[i].usage == PartitionUsage::Rootfs,
            ),
        }
    }
}

/// The outcome of validating a device description: the first flaw found,
/// checking names first, then the partition count, then each partition in
/// order.
pub open spec fn validation(d: DeviceSpec) -> Result<(), ValidationError> {
    if !identity_text_ok(d.id@) {
        Err(ValidationError::BadId)
    } else if !aliases_ok(d.aliases) {
        Err(ValidationError::BadAlias)
    } else if !identity_text_ok(d.vendor@) {
        Err(ValidationError::BadVendor)
    } else if !opt_identity_ok(d.of_compatible) {
        Err(ValidationError::BadCompatible)
    } else if !human_text_ok(d.name@) {
        Err(ValidationError::BadName)
    } else if !opt_human_ok(d.model) {
        Err(ValidationError::BadModel)
    } else if d.partitions@.len() == 0 {
        Err(ValidationError::NoPartitions)
    } else if d.num_partitions as nat != d.partitions@.len() {
        Err(ValidationError::CountMismatch)
    } else if d.partitions@.len() > capacity(d.partition_map) {
        Err(ValidationError::TooManyPartitions)
    } else {
        scan_partitions(d, 0, false)
    }
}

/// Whether the partition at index `i` is the root filesystem.
pub open spec fn is_root(d: DeviceSpec, i: int) -> bool {
    d.partitions@[i].usage == PartitionUsage::Rootfs
}

/// Everything asked of the partition at index `i` on its own: its number is
/// in order, it is not swap, its names are acceptable, and it takes the rest
/// of the disk only if it is the last one.
pub open spec fn partition_clean(d: DeviceSpec, i: int) -> bool {
    let parts = d.partitions@;
    let p = parts[i];
    &&& number_in_order(parts, i)
    &&& p.usage != PartitionUsage::Swap
    &&& label_ok(d.partition_map, p.label)
    &&& fs_label_ok(p)
    &&& (p.size == 0 ==> i == parts.len() - 1)
}

/// Exactly one partition holds the root filesystem.
pub open spec fn one_root(d: DeviceSpec) -> bool {
    exists|i: int|
        0 <= i < d.partitions@.len() && #[trigger] is_root(d, i) && forall|j: int|
            0 <= j < d.partitions@.len() && #[trigger] is_root(d, j) ==> j == i
}

/// A device description that is consistent in every respect that
/// `validate` checks.
pub open spec fn consistent(d: DeviceSpec) -> bool {
    &&& identity_text_ok(d.id@)
    &&& aliases_ok(d.aliases)
    &&& identity_text_ok(d.vendor@)
    &&& opt_identity_ok(d.of_compatible)
    &&& human_text_ok(d.name@)
    &&& opt_human_ok(d.model)
    &&& d.partitions@.len() > 0
    &&& d.num_partitions as nat == d.partitions@.len()
    &&& d.partitions@.len() <= capacity(d.partition_map)
    &&& forall|i: int| 0 <= i < d.partitions@.len() ==> #[trigger] partition_clean(d, i)
    &&& one_root(d)
}

proof fn lemma_scan(d: DeviceSpec, i: int, seen_root: bool)
    requires
        0 <= i <= d.partitions@.len(),
    ensures
        scan_partitions(d, i, seen_root) is Ok <==> {
            &&& forall|j: int| i <= j < d.partitions@.len() ==> #[trigger] partition_clean(d, j)
            &&& if seen_root {
                forall|j: int| i <= j < d.partitions@.len() ==> !#[trigger] is_root(d, j)
            } else {
                exists|j: int|
                    i <= j < d.partitions@.len() && #[trigger] is_root(d, j) && forall|k: int|
                        i <= k < d.partitions@.len() && #[trigger] is_root(d, k) ==> k == j
            }
        },
    decreases d.partitions@.len() - i,
{
    let n = d.partitions@.len();
    if i < n {
        let next = seen_root || is_root(d, i);
        lemma_scan(d, i + 1, next);
        if partition_flaw(d, i, seen_root) is None {
            assert(partition_clean(d, i));
            if !seen_root && is_root(d, i) {
                if scan_partitions(d, i + 1, next) is Ok {
                    assert(forall|k: int| i <= k < n && #[trigger] is_root(d, k) ==> k == i);
                }
            }
            if !seen_root && !is_root(d, i) {
                if scan_partitions(d, i + 1, next) is Ok {
                    let j = choose|j: int|
                        i + 1 <= j < n && #[trigger] is_root(d, j) && forall|k: int|
                            i + 1 <= k < n && #[trigger] is_root(d, k) ==> k == j;
                    assert(forall|k: int| i <= k < n && #[trigger] is_root(d, k) ==> k == j);
                } else if forall|j: int| i <= j < n ==> #[trigger] partition_clean(d, j) {
                    if exists|j: int|
                        i <= j < n && #[trigger] is_root(d, j) && forall|k: int|
                            i <= k < n && #[trigger] is_root(d, k) ==> k == j {
                        let j = choose|j: int|
                            i <= j < n && #[trigger] is_root(d, j) && forall|k: int|
                                i <= k < n && #[trigger] is_root(d, k) ==> k == j;
                        assert(j != i);
                    }
                }
            }
        } else {
            if partition_clean(d, i) {
                assert(seen_root && is_root(d, i));
            }
        }
    }
}

/// `validate` accepts a device description exactly when it is consistent:
/// its names hold only the characters allowed, it declares as many
/// partitions as it lists and no more than its partition map holds, the
/// partition numbers start at 1 and increase, no partition is swap, exactly
/// one holds the root filesystem, names are absent under MBR and at most 35
/// characters under GPT, filesystem labels suit their filesystems, and only
/// the last partition takes the rest of the disk.
pub proof fn lemma_validate_iff_consistent(d: DeviceSpec)
    ensures
        validation(d) is Ok <==> consistent(d),
{
    if d.partitions@.len() > 0 {
        lemma_scan(d, 0, false);
        if scan_partitions(d, 0, false) is Ok {
            let j = choose|j: int|
                0 <= j < d.partitions@.len() && #[trigger] is_root(d, j) && forall|k: int|
                    0 <= k < d.partitions@.len() && #[trigger] is_root(d, k) ==> k == j;
            assert(one_root(d));
        }
    }
}

/// On descriptions whose partitions fit their partition map, whose
/// filesystem labels suit their filesystems, and where only the last
/// partition takes the rest of the disk, `validate` accepts exactly when
/// the declared count matches, exactly one partition holds the root
/// filesystem, none is swap, the numbers start at 1 and increase, names are
/// absent under MBR and at most 35 characters under GPT, and every name of
/// the device holds only the characters allowed.
pub proof fn lemma_validate_core_conditions(d: DeviceSpec)
    requires
        d.partitions@.len() <= capacity(d.partition_map),
        forall|i: int| 0 <= i < d.partitions@.len() ==> fs_label_ok(#[trigger] d.partitions@[i]),
        forall|i: int|
            0 <= i < d.partitions@.len() && (#[trigger] d.partitions@[i]).size == 0 ==> i
                == d.partitions@.len() - 1,
    ensures
        validation(d) is Ok <==> {
            &&& identity_text_ok(d.id@)
            &&& aliases_ok(d.aliases)
            &&& identity_text_ok(d.vendor@)
            &&& opt_identity_ok(d.of_compatible)
            &&& human_text_ok(d.name@)
            &&& opt_human_ok(d.model)
            &&& d.num_partitions as nat == d.partitions@.len()
            &&& one_root(d)
            &&& forall|i: int|
                0 <= i < d.partitions@.len() ==> (#[trigger] d.partitions@[i]).usage
                    != PartitionUsage::Swap
            &&& forall|i: int|
                0 <= i < d.partitions@.len() ==> #[trigger] number_in_order(d.partitions@, i)
            &&& forall|i: int|
                0 <= i < d.partitions@.len() ==> label_ok(
                    d.partition_map,
                    (#[trigger] d.partitions@[i]).label,
                )
        },
{
    lemma_validate_iff_consistent(d);
    let n = d.partitions@.len();
    if validation(d) is Ok {
        assert forall|i: int| 0 <= i < n implies (#[trigger] d.partitions@[i]).usage
            != PartitionUsage::Swap by {
            assert(partition_clean(d, i));
        }
        assert forall|i: int| 0 <= i < n implies #[trigger] number_in_order(d.partitions@, i) by {
            assert(partition_clean(d, i));
        }
        assert forall|i: int| 0 <= i < n implies label_ok(
            d.partition_map,
            (#[trigger] d.partitions@[i]).label,
        ) by {
            assert(partition_clean(d, i));
        }
    }
    if one_root(d) {
        let j = choose|j: int|
            0 <= j < n && #[trigger] is_root(d, j) && forall|k: int|
                0 <= k < n && #[trigger] is_root(d, k) ==> k == j;
        assert(n > 0);
    }
    if (forall|i: int|
        0 <= i < n ==> (#[trigger] d.partitions@[i]).usage != PartitionUsage::Swap) && (forall|
        i: int,
    |
        0 <= i < n ==> #[trigger] number_in_order(d.partitions@, i)) && (forall|i: int|
        0 <= i < n ==> label_ok(d.partition_map, (#[trigger] d.partitions@[i]).label)) {
        assert forall|i: int| 0 <= i < n implies #[trigger] partition_clean(d, i) by {
            assert(fs_label_ok(d.partitions@[i]));
            assert(d.partitions@[i].usage != PartitionUsage::Swap);
            assert(number_in_order(d.partitions@, i));
            assert(label_ok(d.partition_map, d.partitions@[i].label));
        }
    }
}

/// Checks that `s` holds no forbidden character and, where `ascii_only`,
/// only ASCII characters.
fn text_ok(s: &str, ascii_only: bool) -> (r: bool)
    ensures
        r == (if ascii_only {
            identity_text_ok(s@)
        } else {
            human_text_ok(s@)
        }),
{
    let n = s.unicode_len();
    let mut i: usize = 0;
    while i < n
        invariant
            n == s@.len(),
            i <= n,
            forall|j: int|
                0 <= j < i ==> !forbidden_char(#[trigger] s@[j]) && (ascii_only ==> (s@[j] as u32)
                    < 128),
        decreases n - i,
    {
        let c = s.get_char(i);
        if c == '"' || c == '\'' || c == '\\' || c == '/' || c == '{' || c == '}' || c == '['
            || c == ']' || c == '!' || c == '`' || c == '*' || c == '&' {
            return false;
        }
        if ascii_only && (c as u32) >= 128 {
            return false;
        }
        i = i + 1;
    }
    true
}

fn opt_text_ok(s: &Option<String>, ascii_only: bool) -> (r: bool)
    ensures
        r == (if ascii_only {
            opt_identity_ok(*s)
        } else {
            opt_human_ok(*s)
        }),
{
    match s {
        Some(t) => text_ok(t.as_str(), ascii_only),
        None => true,
    }
}

fn aliases_text_ok(a: &Option<Vec<String>>) -> (r: bool)
    ensures
        r == aliases_ok(*a),
{
    match a {
        Some(v) => {
            let mut i: usize = 0;
            while i < v.len()
                invariant
                    *a == Some(*v),
                    i <= v@.len(),
                    forall|j: int| 0 <= j < i ==> identity_text_ok((#[trigger] v@[j])@),
                decreases v@.len() - i,
            {
                if !text_ok(v[i].as_str(), true) {
                    assert(!identity_text_ok(v@[i as int]@));
                    return false;
                }
                i = i + 1;
            }
            true
        },
        None => true,
    }
}

/// The first flaw of the partition at index `i`.
fn check_partition(d: &DeviceSpec, i: usize, seen_root: bool) -> (r: Option<ValidationError>)
    requires
        i < d.partitions@.len(),
    ensures
        r == partition_flaw(*d, i as int, seen_root),
{
    let p = &d.partitions[i];
    let in_order = if i == 0 {
        p.num == 1
    } else {
        p.num > d.partitions[i - 1].num
    };
    if !in_order {
        return Some(ValidationError::BadNumber(p.num));
    }
    if p.usage == PartitionUsage::Swap {
        return Some(ValidationError::SwapNotAllowed(p.num));
    }
    if p.usage == PartitionUsage::Rootfs && seen_root {
        return Some(ValidationError::MultipleRootfs(p.num));
    }
    match &p.label {
        Some(l) => {
            if d.partition_map == PartitionMapType::MBR {
                return Some(ValidationError::LabelNotAllowed(p.num));
            }
            if l.as_str().unicode_len() > MAX_LABEL_LEN {
                return Some(ValidationError::LabelTooLong(p.num));
            }
        },
        None => {},
    }
    match &p.fs_label {
        Some(l) => {
            if !p.filesystem.is_valid_label(l.as_str()) {
                return Some(ValidationError::BadFsLabel(p.num));
            }
        },
        None => {},
    }
    if p.size == 0 && i < d.partitions.len() - 1 {
        return Some(ValidationError::FillNotLast(p.num));
    }
    None
}

/// Checks a device description for consistency before any table is built.
/// The result is the first flaw found, in the order `validation` gives.
pub fn validate(d: &DeviceSpec) -> (r: Result<(), ValidationError>)
    ensures
        r == validation(*d),
{
    if !text_ok(d.id.as_str(), true) {
        return Err(ValidationError::BadId);
    }
    if !aliases_text_ok(&d.aliases) {
        return Err(ValidationError::BadAlias);
    }
    if !text_ok(d.vendor.as_str(), true) {
        return Err(ValidationError::BadVendor);
    }
    if !opt_text_ok(&d.of_compatible, true) {
        return Err(ValidationError::BadCompatible);
    }
    if !text_ok(d.name.as_str(), false) {
        return Err(ValidationError::BadName);
    }
    if !opt_text_ok(&d.model, false) {
        return Err(ValidationError::BadModel);
    }
    let n = d.partitions.len();
    if n == 0 {
        return Err(ValidationError::NoPartitions);
    }
    if d.num_partitions as usize != n {
        return Err(ValidationError::CountMismatch);
    }
    let cap = match d.partition_map {
        PartitionMapType::MBR => MBR_MAX_PARTITIONS,
        PartitionMapType::GPT => GPT_MAX_PARTITIONS,
    };
    if n > cap {
        return Err(ValidationError::TooManyPartitions);
    }
    let mut seen_root = false;
    let mut i: usize = 0;
    while i < n
        invariant
            n == d.partitions@.len(),
            i <= n,
            validation(*d) == scan_partitions(*d, i as int, seen_root),
        decreases n - i,
    {
        match check_partition(d, i, seen_root) {
            Some(e) => {
                return Err(e);
            },
            None => {},
        }
        seen_root = seen_root || d.partitions[i].usage == PartitionUsage::Rootfs;
        i = i + 1;
    }
    if seen_root {
        Ok(())
    } else {
        Err(ValidationError::NoRootfs)
    }
}

} // verus!
