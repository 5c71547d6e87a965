use vstd::prelude::*;
use crate::device::{android_block_path, android_path};
use crate::text::{
    chars_of, decimal, decimal_chars, find_from, hex_lower, hex_spec,
    lemma_hex_len, splitn_chars, splitn_spec, starts_with, has_prefix, string_of, views,
};

verus! {

broadcast use vstd::string::group_string_axioms;

/// The number of bytes in a mebibyte.
pub const MIB: usize = 1048576;

/// How many bytes a sample of the first `mb` mebibytes reads: `None` where `mb` mebibytes exceed
/// what a `usize` counts, so that the sample is the whole device.
pub open spec fn sample_byte_count_spec(mb: usize) -> Option<usize> {
    if mb * MIB <= usize::MAX {
        Some((mb * MIB) as usize)
    } else {
        None
    }
}

/// How many bytes a sample of the first `mb` mebibytes reads, `None` for no limit.
pub fn sample_byte_count(mb: usize) -> (r: Option<usize>)
    ensures
        r == sample_byte_count_spec(mb),
{
    mb.checked_mul(MIB)
}

/// Where a device path leads.
#[derive(Debug, Clone, PartialEq, Eq)]
pub enum DevicePath {
    /// A device node or drive path of this machine.
    Local,
    /// A block device of the Android device with serial number `serial`, at node `dev_path`.
    Adb { serial: String, dev_path: String },
    /// A path that begins with `adb:` but lacks the `:<node>` part.
    MalformedAdb,
}

/// The mathematical value of a `DevicePath`.
pub enum DevicePathView {
    Local,
    Adb { serial: Seq<char>, dev_path: Seq<char> },
    MalformedAdb,
}

impl View for DevicePath {
    type V = DevicePathView;

    open spec fn view(&self) -> DevicePathView {
        match self {
            DevicePath::Local => DevicePathView::Local,
            DevicePath::Adb { serial, dev_path } => DevicePathView::Adb {
                serial: serial@,
                dev_path: dev_path@,
            },
            DevicePath::MalformedAdb => DevicePathView::MalformedAdb,
        }
    }
}

/// How a device path is read: `adb:<serial>:<node>` addresses a block device of an Android
/// device (the node keeps any further `:`), any other path one of this machine.
pub open spec fn device_path_spec(p: Seq<char>) -> DevicePathView {
    if !has_prefix(p, "adb:"@) {
        DevicePathView::Local
    } else {
        let parts = splitn_spec(p, 3, ':');
        if parts.len() < 3 {
            DevicePathView::MalformedAdb
        } else {
            DevicePathView::Adb { serial: parts[1], dev_path: parts[2] }
        }
    }
}

/// Reads a device path: `adb:<serial>:<node>` or a path of this machine.
pub fn parse_device_path(path: &str) -> (r: DevicePath)
    ensures
        r@ == device_path_spec(path@),
{
    let cs = chars_of(path);
    let prefix = chars_of("adb:");
    if !starts_with(cs.as_slice(), prefix.as_slice()) {
        return DevicePath::Local;
    }
    let parts = splitn_chars(cs.as_slice(), 3, ':');
    if parts.len() < 3 {
        return DevicePath::MalformedAdb;
    }
    assert(views(parts@)[1] == parts@[1]@);
    assert(views(parts@)[2] == parts@[2]@);
    DevicePath::Adb { serial: string_of(parts[1].as_slice()), dev_path: string_of(parts[2].as_slice()) }
}

/// The command that reads the first `mb` mebibytes of `dev_path` on an Android device.
pub open spec fn dd_command_spec(dev_path: Seq<char>, mb: nat) -> Seq<char> {
    "dd if="@ + dev_path + " bs=1M count="@ + decimal(mb)
}

/// The command that reads the first `mb` mebibytes of `dev_path` on an Android device.
pub fn dd_command(dev_path: &str, mb: usize) -> (r: String)
    ensures
        r@ == dd_command_spec(dev_path@, mb as nat),
{
    let mut r = String::from_str("dd if=");
    r.append(dev_path);
    r.append(" bs=1M count=");
    let digits = decimal_chars(mb as u64);
    let ds = string_of(digits.as_slice());
    r.append(ds.as_str());
    r
}

/// One step of reading a sample in chunks: the total after a chunk of `chunk_len` bytes, and
/// whether reading stops: at the end of the data, or once the limit `bytes_to_read` (if any) is
/// reached.
pub fn sample_read_step(total_read: usize, chunk_len: usize, bytes_to_read: Option<usize>) -> (r: (
    usize,
    bool,
))
    requires
        total_read + chunk_len <= usize::MAX,
    ensures
        chunk_len == 0 ==> r == (total_read, true),
        chunk_len > 0 ==> r == ((total_read + chunk_len) as usize, match bytes_to_read {
            Some(limit) => total_read + chunk_len >= limit,
            None => false,
        }),
{
    if chunk_len == 0 {
        return (total_read, true);
    }
    let total = total_read + chunk_len;
    match bytes_to_read {
        Some(limit) => (total, total >= limit),
        None => (total, false),
    }
}

/// The SHA-256 digest of a byte string, as the `sha2` crate computes it.
pub uninterp spec fn sha256_spec(data: Seq<u8>) -> Seq<u8>;

/// `sha2::Sha256::digest`: the digest of `data`, named by `sha256_spec`, 32 bytes long (the
/// output size that `Sha256` declares).
#[verifier::external_body]
pub(crate) fn sha256_digest(data: &[u8]) -> (r: Vec<u8>)
    ensures
        r@ == sha256_spec(data@),
        r@.len() == 32,
{
    <sha2::Sha256 as sha2::Digest>::digest(data).to_vec()
}

/// The SHA-256 digest of a sample, in lowercase hexadecimal: 64 characters.
pub fn sha256_hex(data: &[u8]) -> (r: String)
    ensures
        r@ == hex_spec(sha256_spec(data@)),
        r@.len() == 64,
{
    let digest = sha256_digest(data);
    let hex = hex_lower(digest.as_slice());
    proof {
        lemma_hex_len(digest@);
    }
    string_of(hex.as_slice())
}

/// `find_from` finds the first `c`.
proof fn lemma_find_from_first(s: Seq<char>, c: char, i: int, m: int)
    requires
        0 <= i <= m < s.len(),
        s[m] == c,
        forall|k: int| i <= k < m ==> s[k] != c,
    ensures
        find_from(s, c, i) == m,
    decreases m - i,
{
    if i < m {
        lemma_find_from_first(s, c, i + 1, m);
    }
}

/// A device that the Android enumeration lists can be sampled: its path reads back as the serial
/// number and node it was built from, whenever the serial number holds no `:`.
pub proof fn law_android_path_round_trip(serial: Seq<char>, name: Seq<char>)
    requires
        forall|k: int| 0 <= k < serial.len() ==> serial[k] != ':',
    ensures
        device_path_spec(android_path(serial, name)) == (DevicePathView::Adb {
            serial: serial,
            dev_path: android_block_path(name),
        }),
{
    reveal_strlit("adb:");
    reveal_strlit(":");
    let node = android_block_path(name);
    let p = android_path(serial, name);
    let rest = serial + ":"@ + node;
    assert(p =~= "adb:"@ + rest);
    assert(p.subrange(0, 4) =~= "adb:"@);
    lemma_find_from_first(p, ':', 0, 3);
    assert(p.subrange(4, p.len() as int) =~= rest);
    lemma_find_from_first(rest, ':', 0, serial.len() as int);
    assert(rest.subrange(0, serial.len() as int) =~= serial);
    assert(rest.subrange(serial.len() as int + 1, rest.len() as int) =~= node);
    let parts = splitn_spec(p, 3, ':');
    assert(parts == seq![p.subrange(0, 3)] + splitn_spec(rest, 2, ':'));
    assert(splitn_spec(rest, 2, ':') == seq![serial] + splitn_spec(node, 1, ':'));
    assert(parts =~= seq![p.subrange(0, 3), serial, node]);
}

} // verus!
