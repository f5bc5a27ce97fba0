use vstd::arithmetic::power2::pow2;
use vstd::prelude::*;

verus! {

/// The lowercase hexadecimal digit of `n`, `0 <= n < 16`.
pub open spec fn hex_digit(n: int) -> char {
    seq!['0', '1', '2', '3', '4', '5', '6', '7', '8', '9', 'a', 'b', 'c', 'd', 'e', 'f'][n]
}

/// The `k`-th of the 32 four-bit digits of `v`, the most significant first.
pub open spec fn nibble(v: u128, k: int) -> int {
    (v as int / pow2((4 * (31 - k)) as nat) as int) % 16
}

pub open spec fn is_hyphen_position(i: int) -> bool {
    i == 8 || i == 13 || i == 18 || i == 23
}

/// How many digits come before position `i` of the hyphenated form.
pub open spec fn digits_before(i: int) -> int {
    i - (if i > 23 {
        4int
    } else if i > 18 {
        3int
    } else if i > 13 {
        2int
    } else if i > 8 {
        1int
    } else {
        0int
    })
}

/// The hyphenated form of the UUID whose 128 bits, most significant first,
/// are `v`: 32 lowercase hexadecimal digits in groups of 8, 4, 4, 4 and 12,
/// joined by `-`.
pub open spec fn hyphenated_of(v: u128) -> Seq<char> {
    Seq::new(
        36,
        |i: int|
            if is_hyphen_position(i) {
                '-'
            } else {
                hex_digit(nibble(v, digits_before(i)))
            },
    )
}

/// Relies on `uuid::Uuid::from_u128`, which takes the value's bytes most
/// significant first, and the `Display` of its `Hyphenated` form, which
/// writes those bytes as lowercase hexadecimal digits in the groups
/// 8-4-4-4-12, `Hyphenated::LENGTH` (36) characters.
#[verifier::external_body]
fn partuuid_text(v: u128) -> (r: String)
    ensures
        r@ == hyphenated_of(v),
{
    uuid::Uuid::from_u128(v).hyphenated().to_string()
}

/// A block device, named in one of three ways.
pub enum Device {
    /// A path to the device node.
    Path(String),
    /// A partition UUID, looked up under `/dev/disk/by-partuuid`.
    PartUuid(u128),
    /// The name of an unlocked encrypted device, under `/dev/mapper`.
    Mapper(String),
}

impl Device {
    /// The path of the device node that this reference designates.
    pub open spec fn path_spec(&self) -> Seq<char> {
        match self {
            Device::Path(p) => p@,
            Device::PartUuid(u) => "/dev/disk/by-partuuid/"@ + hyphenated_of(*u),
            Device::Mapper(n) => "/dev/mapper/"@ + n@,
        }
    }

    pub fn full_path(&self) -> (r: String)
        ensures
            r@ == self.path_spec(),
    {
        match self {
            Device::Path(p) => p.clone(),
            Device::PartUuid(u) => {
                let dir = "/dev/disk/by-partuuid/".to_string();
                let id = partuuid_text(*u);
                dir.concat(id.as_str())
            },
            Device::Mapper(n) => {
                let dir = "/dev/mapper/".to_string();
                dir.concat(n.as_str())
            },
        }
    }
}

/// What a look at a path found there.
#[derive(Clone, Copy, Debug, PartialEq, Eq, Structural)]
pub enum PathKind {
    /// Nothing could be read there: absent, or not readable.
    Missing,
    BlockDevice,
    Directory,
    Other,
}

impl PathKind {
    pub fn is_block_device(&self) -> (r: bool)
        ensures
            r == (*self == PathKind::BlockDevice),
    {
        matches!(self, PathKind::BlockDevice)
    }

    pub fn is_directory(&self) -> (r: bool)
        ensures
            r == (*self == PathKind::Directory),
    {
        matches!(self, PathKind::Directory)
    }
}

} // verus!
