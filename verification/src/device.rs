use vstd::prelude::*;
use crate::json::{json_string_fields, read_json_string_fields, table_view};
use crate::media::{detect_media_spec, detect_media_unix, lowercase_chars, lowercase_spec, MediaType};
use crate::text::{
    after_last, after_last_char, chars_of, contains, first_word, first_word_of, has_infix, has_prefix,
    lines_spec, same_chars, split_lines, splitn_chars, splitn_spec, starts_with, string_of, trim_chars,
    trim_spec, views,
};

verus! {

broadcast use vstd::string::group_string_axioms;

/// A block device that can be selected for wiping.
#[derive(Debug, Clone)]
pub struct Device {
    pub name: String,
    pub path: String,
    pub size: String,
    pub model: Option<String>,
    pub serial: Option<String>,
    pub tran: Option<String>,
    pub media: MediaType,
    pub source: String,
    pub removable: bool,
}

/// The mathematical value of a `Device`.
pub struct DeviceView {
    pub name: Seq<char>,
    pub path: Seq<char>,
    pub size: Seq<char>,
    pub model: Option<Seq<char>>,
    pub serial: Option<Seq<char>>,
    pub tran: Option<Seq<char>>,
    pub media: MediaType,
    pub source: Seq<char>,
    pub removable: bool,
}

impl View for Device {
    type V = DeviceView;

    open spec fn view(&self) -> DeviceView {
        DeviceView {
            name: self.name@,
            path: self.path@,
            size: self.size@,
            model: self.model.deep_view(),
            serial: self.serial.deep_view(),
            tran: self.tran.deep_view(),
            media: self.media,
            source: self.source@,
            removable: self.removable,
        }
    }
}

/// The views of a list of devices.
pub open spec fn devices_view(v: Seq<Device>) -> Seq<DeviceView> {
    v.map_values(|d: Device| d@)
}

/// Why a device listing failed.
#[derive(Debug, Clone, Copy, PartialEq, Eq, Structural)]
pub enum DeviceError {
    /// The listing tool's output is not JSON.
    InvalidJson,
}

/// The fields that the device listing reads from one `lsblk` JSON entry, each present where the
/// entry holds it as a string.
#[derive(Debug, Clone)]
pub struct LsblkEntry {
    pub kind: Option<String>,
    pub name: Option<String>,
    pub size: Option<String>,
    pub model: Option<String>,
    pub serial: Option<String>,
    pub tran: Option<String>,
    pub rota: Option<String>,
}

/// The mathematical value of an `LsblkEntry`.
pub struct LsblkEntryView {
    pub kind: Option<Seq<char>>,
    pub name: Option<Seq<char>>,
    pub size: Option<Seq<char>>,
    pub model: Option<Seq<char>>,
    pub serial: Option<Seq<char>>,
    pub tran: Option<Seq<char>>,
    pub rota: Option<Seq<char>>,
}

impl View for LsblkEntry {
    type V = LsblkEntryView;

    open spec fn view(&self) -> LsblkEntryView {
        LsblkEntryView {
            kind: self.kind.deep_view(),
            name: self.name.deep_view(),
            size: self.size.deep_view(),
            model: self.model.deep_view(),
            serial: self.serial.deep_view(),
            tran: self.tran.deep_view(),
            rota: self.rota.deep_view(),
        }
    }
}

/// The views of a list of entries.
pub open spec fn entries_view(v: Seq<LsblkEntry>) -> Seq<LsblkEntryView> {
    v.map_values(|e: LsblkEntry| e@)
}

/// The members of an `lsblk` entry that the listing reads, in the order of `LsblkEntryView`.
pub open spec fn lsblk_keys() -> Seq<Seq<char>> {
    seq!["type"@, "name"@, "size"@, "model"@, "serial"@, "tran"@, "rota"@]
}

/// The entry made of one row of fields read in the order of `lsblk_keys`.
pub open spec fn entry_of_row(row: Seq<Option<Seq<char>>>) -> LsblkEntryView {
    LsblkEntryView {
        kind: row[0],
        name: row[1],
        size: row[2],
        model: row[3],
        serial: row[4],
        tran: row[5],
        rota: row[6],
    }
}

/// The entries that `lsblk -J` output lists under `blockdevices`: `None` where the text is not
/// JSON, an empty list where it has no such array.
pub open spec fn lsblk_entries_spec(txt: Seq<char>) -> Option<Seq<LsblkEntryView>> {
    match json_string_fields(txt, "blockdevices"@, lsblk_keys()) {
        None => None,
        Some(None) => Some(Seq::empty()),
        Some(Some(rows)) => Some(rows.map_values(|row: Seq<Option<Seq<char>>>| entry_of_row(row))),
    }
}

/// The text of an optional field, or the empty text.
pub open spec fn or_empty(o: Option<Seq<char>>) -> Seq<char> {
    match o {
        Some(s) => s,
        None => Seq::empty(),
    }
}

/// Whether an entry describes a whole disk (and not a partition or another kind of device).
pub open spec fn is_disk_entry(e: LsblkEntryView) -> bool {
    e.kind == Some("disk"@)
}

/// The device that a local disk entry describes.
pub open spec fn local_device_spec(e: LsblkEntryView) -> DeviceView {
    let name = or_empty(e.name);
    DeviceView {
        name: name,
        path: "/dev/"@ + name,
        size: or_empty(e.size),
        model: e.model,
        serial: e.serial,
        tran: e.tran,
        media: detect_media_spec(name, e.tran, e.rota, e.model),
        source: "local"@,
        removable: (e.tran is Some && has_infix(lowercase_spec(e.tran->0), "usb"@)) || has_prefix(
            name,
            "mmcblk"@,
        ),
    }
}

/// The local devices that a list of entries describes: one per disk entry, in order.
pub open spec fn local_devices_spec(es: Seq<LsblkEntryView>) -> Seq<DeviceView>
    decreases es.len(),
{
    if es.len() == 0 {
        Seq::empty()
    } else {
        let rest = local_devices_spec(es.drop_last());
        if is_disk_entry(es.last()) {
            rest.push(local_device_spec(es.last()))
        } else {
            rest
        }
    }
}

/// Every local device that a listing yields is addressed as `/dev/<name>` and comes from this
/// machine.
pub proof fn law_local_devices_under_dev(es: Seq<LsblkEntryView>)
    ensures
        forall|i: int|
            0 <= i < local_devices_spec(es).len() ==> (#[trigger] local_devices_spec(es)[i]).path == "/dev/"@
                + local_devices_spec(es)[i].name && local_devices_spec(es)[i].source == "local"@,
        local_devices_spec(es).len() <= es.len(),
    decreases es.len(),
{
    if es.len() > 0 {
        law_local_devices_under_dev(es.drop_last());
    }
}

/// A copy of an optional text.
pub(crate) fn copy_opt(o: &Option<String>) -> (r: Option<String>)
    ensures
        r.deep_view() == o.deep_view(),
{
    match o {
        Some(s) => Some(s.clone()),
        None => None,
    }
}

/// The text of an optional field, or the empty text.
pub(crate) fn text_or_empty(o: &Option<String>) -> (r: String)
    ensures
        r@ == or_empty(o.deep_view()),
{
    match o {
        Some(s) => s.clone(),
        None => String::new(),
    }
}

/// The view of an optional text, borrowed.
pub open spec fn opt_str_view(o: Option<&str>) -> Option<Seq<char>> {
    match o {
        Some(s) => Some(s@),
        None => None,
    }
}

fn as_opt_str(o: &Option<String>) -> (r: Option<&str>)
    ensures
        opt_str_view(r) == o.deep_view(),
{
    match o {
        Some(s) => Some(s.as_str()),
        None => None,
    }
}

/// Whether an entry is a disk entry.
fn entry_is_disk(e: &LsblkEntry) -> (b: bool)
    ensures
        b == is_disk_entry(e@),
{
    match &e.kind {
        Some(k) => {
            let disk = String::from_str("disk");
            *k == disk
        },
        None => false,
    }
}

/// The device that a local disk entry describes: `/dev/<name>`, classified by
/// `detect_media_unix`, removable when its transport mentions USB or it is an MMC block device.
pub fn local_device_from_entry(e: &LsblkEntry) -> (d: Device)
    ensures
        d@ == local_device_spec(e@),
{
    let name = text_or_empty(&e.name);
    let mut path = String::from_str("/dev/");
    path.append(name.as_str());
    let media = detect_media_unix(name.as_str(), &e.tran, as_opt_str(&e.rota), as_opt_str(&e.model));
    let usb = chars_of("usb");
    let by_tran = match &e.tran {
        Some(t) => {
            let tl = lowercase_chars(t.as_str());
            contains(tl.as_slice(), usb.as_slice())
        },
        None => false,
    };
    let name_chars = chars_of(name.as_str());
    let mmcblk = chars_of("mmcblk");
    let removable = by_tran || starts_with(name_chars.as_slice(), mmcblk.as_slice());
    Device {
        name,
        path,
        size: text_or_empty(&e.size),
        model: copy_opt(&e.model),
        serial: copy_opt(&e.serial),
        tran: copy_opt(&e.tran),
        media,
        source: String::from_str("local"),
        removable,
    }
}

/// The local devices that `lsblk` entries describe: one per entry of type `disk`, in order.
pub fn local_devices_from_entries(entries: &[LsblkEntry]) -> (r: Vec<Device>)
    ensures
        devices_view(r@) == local_devices_spec(entries_view(entries@)),
{
    let n = entries.len();
    let mut out: Vec<Device> = Vec::new();
    let mut i: usize = 0;
    while i < n
        invariant
            i <= n,
            n == entries@.len(),
            devices_view(out@) == local_devices_spec(entries_view(entries@.take(i as int))),
        decreases n - i,
    {
        let ghost before = out@;
        assert(entries_view(entries@.take(i + 1)).drop_last() =~= entries_view(entries@.take(i as int)));
        assert(entries_view(entries@.take(i + 1)).last() == entries@[i as int]@);
        if entry_is_disk(&entries[i]) {
            let d = local_device_from_entry(&entries[i]);
            out.push(d);
            assert(devices_view(out@) =~= devices_view(before).push(d@));
        }
        i += 1;
    }
    assert(entries@.take(n as int) =~= entries@);
    out
}

/// The member names of an `lsblk` entry, in the order of `lsblk_keys`.
fn lsblk_key_list() -> (keys: Vec<&'static str>)
    ensures
        crate::json::keys_view(keys@) == lsblk_keys(),
        keys@.len() == 7,
{
    let mut keys: Vec<&'static str> = Vec::new();
    keys.push("type");
    keys.push("name");
    keys.push("size");
    keys.push("model");
    keys.push("serial");
    keys.push("tran");
    keys.push("rota");
    assert(crate::json::keys_view(keys@) =~= lsblk_keys());
    keys
}

/// The entry made of one row of fields read in the order of `lsblk_keys`.
fn entry_from_row(row: &Vec<Option<String>>) -> (e: LsblkEntry)
    requires
        row@.len() == 7,
    ensures
        e@ == entry_of_row(row@.map_values(|f: Option<String>| f.deep_view())),
{
    LsblkEntry {
        kind: copy_opt(&row[0]),
        name: copy_opt(&row[1]),
        size: copy_opt(&row[2]),
        model: copy_opt(&row[3]),
        serial: copy_opt(&row[4]),
        tran: copy_opt(&row[5]),
        rota: copy_opt(&row[6]),
    }
}

/// Reads the entries of `lsblk -J -o NAME,TYPE,SIZE,MODEL,SERIAL,ROTA,TRAN` output: an error
/// where the text is not JSON, no entries where it has no `blockdevices` array.
pub fn lsblk_entries(txt: &str) -> (r: Result<Vec<LsblkEntry>, DeviceError>)
    ensures
        match r {
            Ok(es) => lsblk_entries_spec(txt@) == Some(entries_view(es@)),
            Err(e) => lsblk_entries_spec(txt@).is_none() && e == DeviceError::InvalidJson,
        },
{
    let keys = lsblk_key_list();
    let list_key = "blockdevices";
    match read_json_string_fields(txt, list_key, keys.as_slice()) {
        Err(_) => Err(DeviceError::InvalidJson),
        Ok(None) => {
            let es: Vec<LsblkEntry> = Vec::new();
            assert(entries_view(es@) =~= Seq::<LsblkEntryView>::empty());
            Ok(es)
        },
        Ok(Some(rows)) => {
            let n = rows.len();
            let ghost rv = table_view(rows@);
            let mut es: Vec<LsblkEntry> = Vec::new();
            let mut i: usize = 0;
            while i < n
                invariant
                    i <= n,
                    n == rows@.len(),
                    rv == table_view(rows@),
                    forall|j: int| 0 <= j < rows@.len() ==> #[trigger] rows@[j]@.len() == 7,
                    entries_view(es@) == rv.take(i as int).map_values(
                        |row: Seq<Option<Seq<char>>>| entry_of_row(row),
                    ),
                decreases n - i,
            {
                let e = entry_from_row(&rows[i]);
                assert(rv[i as int] == rows@[i as int]@.map_values(|f: Option<String>| f.deep_view()));
                let ghost before = es@;
                es.push(e);
                assert(entries_view(es@) =~= entries_view(before).push(e@));
                assert(entries_view(es@) =~= rv.take(i + 1).map_values(
                    |row: Seq<Option<Seq<char>>>| entry_of_row(row),
                ));
                i += 1;
            }
            assert(rv.take(n as int) =~= rv);
            Ok(es)
        },
    }
}

/// The local disks that `lsblk -J` output lists, or an error where the output is not JSON.
pub fn parse_lsblk_devices(txt: &str) -> (r: Result<Vec<Device>, DeviceError>)
    ensures
        match lsblk_entries_spec(txt@) {
            None => r == Err::<Vec<Device>, DeviceError>(DeviceError::InvalidJson),
            Some(es) => r is Ok && devices_view(r->Ok_0@) == local_devices_spec(es),
        },
{
    let es = lsblk_entries(txt)?;
    Ok(local_devices_from_entries(es.as_slice()))
}

// ---------------------------------------------------------------------------
// Devices of phones and tablets attached over adb
// ---------------------------------------------------------------------------

/// The device node under which an Android device exposes the block device `name`.
pub open spec fn android_block_path(name: Seq<char>) -> Seq<char> {
    if has_prefix(name, "mmcblk"@) || has_prefix(name, "sda"@) || has_prefix(name, "nvme"@) {
        "/dev/"@ + name
    } else {
        "/dev/block/"@ + name
    }
}

/// The path by which a block device of the Android device `serial` is addressed:
/// `adb:<serial>:<node>`.
pub open spec fn android_path(serial: Seq<char>, name: Seq<char>) -> Seq<char> {
    "adb:"@ + serial + ":"@ + android_block_path(name)
}

/// The device that a disk entry listed by the Android device `serial` describes.
pub open spec fn android_device_spec(serial: Seq<char>, e: LsblkEntryView) -> DeviceView {
    let name = or_empty(e.name);
    DeviceView {
        name: name + "@"@ + serial,
        path: android_path(serial, name),
        size: or_empty(e.size),
        model: e.model,
        serial: e.serial,
        tran: e.tran,
        media: detect_media_spec(name, e.tran, e.rota, e.model),
        source: "android:"@ + serial,
        removable: has_prefix(name, "mmcblk"@) || has_prefix(name, "sd"@),
    }
}

/// The devices that the Android device `serial` lists: one per disk entry, in order.
pub open spec fn android_devices_spec(serial: Seq<char>, es: Seq<LsblkEntryView>) -> Seq<DeviceView>
    decreases es.len(),
{
    if es.len() == 0 {
        Seq::empty()
    } else {
        let rest = android_devices_spec(serial, es.drop_last());
        if is_disk_entry(es.last()) {
            rest.push(android_device_spec(serial, es.last()))
        } else {
            rest
        }
    }
}

/// The node under which an Android device exposes the block device `name`.
pub fn android_block_path_of(name: &str) -> (p: String)
    ensures
        p@ == android_block_path(name@),
{
    let cs = chars_of(name);
    let mmcblk = chars_of("mmcblk");
    let sda = chars_of("sda");
    let nvme = chars_of("nvme");
    let mut p = if starts_with(cs.as_slice(), mmcblk.as_slice()) || starts_with(cs.as_slice(), sda.as_slice())
        || starts_with(cs.as_slice(), nvme.as_slice()) {
        String::from_str("/dev/")
    } else {
        String::from_str("/dev/block/")
    };
    p.append(name);
    p
}

/// The device that a disk entry listed by the Android device `serial` describes.
pub fn android_device_from_entry(serial: &str, e: &LsblkEntry) -> (d: Device)
    ensures
        d@ == android_device_spec(serial@, e@),
{
    let name = text_or_empty(&e.name);
    let mut full_name = name.clone();
    full_name.append("@");
    full_name.append(serial);
    let mut path = String::from_str("adb:");
    path.append(serial);
    path.append(":");
    let node = android_block_path_of(name.as_str());
    path.append(node.as_str());
    let media = detect_media_unix(name.as_str(), &e.tran, as_opt_str(&e.rota), as_opt_str(&e.model));
    let name_chars = chars_of(name.as_str());
    let mmcblk = chars_of("mmcblk");
    let sd = chars_of("sd");
    let removable = starts_with(name_chars.as_slice(), mmcblk.as_slice()) || starts_with(
        name_chars.as_slice(),
        sd.as_slice(),
    );
    let mut source = String::from_str("android:");
    source.append(serial);
    assert(path@ =~= android_path(serial@, name@));
    Device {
        name: full_name,
        path,
        size: text_or_empty(&e.size),
        model: copy_opt(&e.model),
        serial: copy_opt(&e.serial),
        tran: copy_opt(&e.tran),
        media,
        source,
        removable,
    }
}

/// The devices that the `lsblk -J` output of the Android device `serial` lists: one per disk
/// entry, in order; none where the output is not JSON.
pub fn android_devices_from_lsblk(serial: &str, txt: &str) -> (r: Vec<Device>)
    ensures
        devices_view(r@) == match lsblk_entries_spec(txt@) {
            None => Seq::<DeviceView>::empty(),
            Some(es) => android_devices_spec(serial@, es),
        },
{
    let mut out: Vec<Device> = Vec::new();
    let entries = match lsblk_entries(txt) {
        Ok(es) => es,
        Err(_) => {
            assert(devices_view(out@) =~= Seq::<DeviceView>::empty());
            return out;
        },
    };
    let n = entries.len();
    let mut i: usize = 0;
    while i < n
        invariant
            i <= n,
            n == entries@.len(),
            devices_view(out@) == android_devices_spec(serial@, entries_view(entries@.take(i as int))),
        decreases n - i,
    {
        let ghost before = out@;
        assert(entries_view(entries@.take(i + 1)).drop_last() =~= entries_view(entries@.take(i as int)));
        assert(entries_view(entries@.take(i + 1)).last() == entries@[i as int]@);
        if entry_is_disk(&entries[i]) {
            let d = android_device_from_entry(serial, &entries[i]);
            out.push(d);
            assert(devices_view(out@) =~= devices_view(before).push(d@));
        }
        i += 1;
    }
    assert(entries@.take(n as int) =~= entries@);
    out
}

/// The lines of `adb devices -l` output after its header line.
pub open spec fn after_header(ls: Seq<Seq<char>>) -> Seq<Seq<char>> {
    if ls.len() == 0 {
        ls
    } else {
        ls.drop_first()
    }
}

/// The serial number that one line of `adb devices -l` output names, if it names a usable device:
/// not a blank line, not one that reports missing permissions, not the `List` header.
pub open spec fn adb_serial_of_line(line: Seq<char>) -> Option<Seq<char>> {
    let s = trim_spec(line);
    if s.len() == 0 || has_infix(s, "no permissions"@) {
        None
    } else {
        match first_word(s) {
            None => None,
            Some(w) => if w == "List"@ {
                None
            } else {
                Some(w)
            },
        }
    }
}

/// The serial numbers that a sequence of lines names, in order.
pub open spec fn adb_serials_spec(ls: Seq<Seq<char>>) -> Seq<Seq<char>>
    decreases ls.len(),
{
    if ls.len() == 0 {
        Seq::empty()
    } else {
        let rest = adb_serials_spec(ls.drop_last());
        match adb_serial_of_line(ls.last()) {
            Some(w) => rest.push(w),
            None => rest,
        }
    }
}

/// The views of a list of strings.
pub open spec fn strings_view(v: Seq<String>) -> Seq<Seq<char>> {
    v.map_values(|s: String| s@)
}

/// The serial number that one line of `adb devices -l` output names, if any.
pub fn adb_serial_from_line(line: &[char]) -> (r: Option<String>)
    ensures
        r.deep_view() == adb_serial_of_line(line@),
{
    let s = trim_chars(line);
    if s.len() == 0 {
        return None;
    }
    let np = chars_of("no permissions");
    if contains(s.as_slice(), np.as_slice()) {
        return None;
    }
    match first_word_of(s.as_slice()) {
        None => None,
        Some(w) => {
            let list = chars_of("List");
            if same_chars(w.as_slice(), list.as_slice()) {
                None
            } else {
                Some(string_of(w.as_slice()))
            }
        },
    }
}

/// The serial numbers of the devices that `adb devices -l` output lists, in order.
pub fn adb_device_serials(txt: &str) -> (r: Vec<String>)
    ensures
        strings_view(r@) == adb_serials_spec(after_header(lines_spec(txt@))),
{
    let cs = chars_of(txt);
    let lines = split_lines(cs.as_slice());
    let ghost ls = views(lines@);
    let mut out: Vec<String> = Vec::new();
    if lines.len() == 0 {
        assert(strings_view(out@) =~= adb_serials_spec(after_header(ls)));
        return out;
    }
    let ghost body = ls.drop_first();
    let n = lines.len();
    let mut i: usize = 1;
    while i < n
        invariant
            1 <= i <= n,
            n == lines@.len(),
            ls == views(lines@),
            body == ls.drop_first(),
            strings_view(out@) == adb_serials_spec(body.take(i - 1)),
        decreases n - i,
    {
        let ghost before = out@;
        assert(body.take(i as int).drop_last() =~= body.take(i - 1));
        assert(body.take(i as int).last() == lines@[i as int]@);
        match adb_serial_from_line(lines[i].as_slice()) {
            Some(w) => {
                out.push(w);
                assert(strings_view(out@) =~= strings_view(before).push(w@));
            },
            None => {},
        }
        i += 1;
    }
    assert(body.take(n - 1) =~= body);
    out
}

// ---------------------------------------------------------------------------
// Windows disk drives, as `wmic diskdrive get ... /format:csv` lists them
// ---------------------------------------------------------------------------

/// How a Windows disk drive is classified from its model and its lowercased interface type:
/// USB by the interface, else by words in the lowercased model.
pub open spec fn wmic_media_spec(model: Seq<char>, iface_l: Seq<char>) -> MediaType {
    if has_infix(iface_l, "usb"@) {
        MediaType::USB
    } else if model.len() == 0 {
        MediaType::UNKNOWN
    } else {
        let ml = lowercase_spec(model);
        if has_infix(ml, "nvme"@) {
            MediaType::NVMe
        } else if has_infix(ml, "ssd"@) {
            MediaType::SSD
        } else if has_infix(ml, "hdd"@) || has_infix(ml, "disk"@) {
            MediaType::HDD
        } else {
            MediaType::UNKNOWN
        }
    }
}

/// An optional text that is absent where it is empty.
pub open spec fn non_empty(s: Seq<char>) -> Option<Seq<char>> {
    if s.len() == 0 {
        None
    } else {
        Some(s)
    }
}

/// The drive that one line of `wmic` CSV output (`Node,DeviceID,Model,SerialNumber,Size,
/// InterfaceType`) describes: none for blank lines, the header line, and lines of fewer than six
/// fields; the last field holds the rest of the line.
pub open spec fn wmic_device_of_line(line: Seq<char>) -> Option<DeviceView> {
    let s = trim_spec(line);
    if s.len() == 0 || has_prefix(lowercase_spec(s), "node,"@) {
        None
    } else {
        let parts = splitn_spec(s, 6, ',');
        if parts.len() < 6 {
            None
        } else {
            let id = trim_spec(parts[1]);
            let model = trim_spec(parts[2]);
            let serial = trim_spec(parts[3]);
            let size = trim_spec(parts[4]);
            let iface = trim_spec(parts[5]);
            let iface_l = lowercase_spec(iface);
            Some(
                DeviceView {
                    name: after_last(id, '\\'),
                    path: id,
                    size: if size.len() == 0 {
                        "unknown"@
                    } else {
                        size
                    },
                    model: non_empty(model),
                    serial: non_empty(serial),
                    tran: Some(iface),
                    media: wmic_media_spec(model, iface_l),
                    source: "windows"@,
                    removable: has_infix(iface_l, "usb"@),
                },
            )
        }
    }
}

/// The drives that a sequence of `wmic` CSV lines describes, in order.
pub open spec fn wmic_devices_spec(ls: Seq<Seq<char>>) -> Seq<DeviceView>
    decreases ls.len(),
{
    if ls.len() == 0 {
        Seq::empty()
    } else {
        let rest = wmic_devices_spec(ls.drop_last());
        match wmic_device_of_line(ls.last()) {
            Some(d) => rest.push(d),
            None => rest,
        }
    }
}

/// Classifies a Windows disk drive from its trimmed model and its lowercased interface type.
pub fn wmic_media(model: &[char], iface_l: &[char]) -> (m: MediaType)
    ensures
        m == wmic_media_spec(model@, iface_l@),
{
    let usb = chars_of("usb");
    if contains(iface_l, usb.as_slice()) {
        return MediaType::USB;
    }
    if model.len() == 0 {
        return MediaType::UNKNOWN;
    }
    let ms = string_of(model);
    let ml = lowercase_chars(ms.as_str());
    let nvme = chars_of("nvme");
    let ssd = chars_of("ssd");
    let hdd = chars_of("hdd");
    let disk = chars_of("disk");
    if contains(ml.as_slice(), nvme.as_slice()) {
        MediaType::NVMe
    } else if contains(ml.as_slice(), ssd.as_slice()) {
        MediaType::SSD
    } else if contains(ml.as_slice(), hdd.as_slice()) || contains(ml.as_slice(), disk.as_slice()) {
        MediaType::HDD
    } else {
        MediaType::UNKNOWN
    }
}

fn non_empty_string(cs: &[char]) -> (r: Option<String>)
    ensures
        r.deep_view() == non_empty(cs@),
{
    if cs.len() == 0 {
        None
    } else {
        Some(string_of(cs))
    }
}

/// The drive that one line of `wmic` CSV output describes, if any.
pub fn wmic_device_from_line(line: &[char]) -> (r: Option<Device>)
    ensures
        match r {
            Some(d) => wmic_device_of_line(line@) == Some(d@),
            None => wmic_device_of_line(line@).is_none(),
        },
{
    let s = trim_chars(line);
    if s.len() == 0 {
        return None;
    }
    let st = string_of(s.as_slice());
    let sl = lowercase_chars(st.as_str());
    let node = chars_of("node,");
    if starts_with(sl.as_slice(), node.as_slice()) {
        return None;
    }
    let parts = splitn_chars(s.as_slice(), 6, ',');
    if parts.len() < 6 {
        return None;
    }
    assert(views(parts@)[1] == parts@[1]@);
    assert(views(parts@)[2] == parts@[2]@);
    assert(views(parts@)[3] == parts@[3]@);
    assert(views(parts@)[4] == parts@[4]@);
    assert(views(parts@)[5] == parts@[5]@);
    let id = trim_chars(parts[1].as_slice());
    let model = trim_chars(parts[2].as_slice());
    let serial = trim_chars(parts[3].as_slice());
    let size = trim_chars(parts[4].as_slice());
    let iface = trim_chars(parts[5].as_slice());
    let iface_s = string_of(iface.as_slice());
    let iface_l = lowercase_chars(iface_s.as_str());
    let usb = chars_of("usb");
    let removable = contains(iface_l.as_slice(), usb.as_slice());
    let media = wmic_media(model.as_slice(), iface_l.as_slice());
    let name_chars = after_last_char(id.as_slice(), '\\');
    let size_s = if size.len() == 0 {
        String::from_str("unknown")
    } else {
        string_of(size.as_slice())
    };
    Some(
        Device {
            name: string_of(name_chars.as_slice()),
            path: string_of(id.as_slice()),
            size: size_s,
            model: non_empty_string(model.as_slice()),
            serial: non_empty_string(serial.as_slice()),
            tran: Some(iface_s),
            media,
            source: String::from_str("windows"),
            removable,
        },
    )
}

/// The drives that `wmic diskdrive get DeviceID,Model,SerialNumber,Size,InterfaceType
/// /format:csv` output lists, in order.
pub fn parse_wmic_devices(txt: &str) -> (r: Vec<Device>)
    ensures
        devices_view(r@) == wmic_devices_spec(lines_spec(txt@)),
{
    let cs = chars_of(txt);
    let lines = split_lines(cs.as_slice());
    let ghost ls = views(lines@);
    let n = lines.len();
    let mut out: Vec<Device> = Vec::new();
    let mut i: usize = 0;
    while i < n
        invariant
            i <= n,
            n == lines@.len(),
            ls == views(lines@),
            devices_view(out@) == wmic_devices_spec(ls.take(i as int)),
        decreases n - i,
    {
        let ghost before = out@;
        assert(ls.take(i + 1).drop_last() =~= ls.take(i as int));
        assert(ls.take(i + 1).last() == lines@[i as int]@);
        match wmic_device_from_line(lines[i].as_slice()) {
            Some(d) => {
                out.push(d);
                assert(devices_view(out@) =~= devices_view(before).push(d@));
            },
            None => {},
        }
        i += 1;
    }
    assert(ls.take(n as int) =~= ls);
    out
}

/// Every drive that `wmic` output lists counts as removable exactly when it is classified USB.
pub proof fn law_wmic_removable_iff_usb(ls: Seq<Seq<char>>)
    ensures
        forall|i: int|
            0 <= i < wmic_devices_spec(ls).len() ==> (#[trigger] wmic_devices_spec(ls)[i]).removable
                == (wmic_devices_spec(ls)[i].media == MediaType::USB),
    decreases ls.len(),
{
    if ls.len() > 0 {
        law_wmic_removable_iff_usb(ls.drop_last());
    }
}

// ---------------------------------------------------------------------------
// The whole listing
// ---------------------------------------------------------------------------

/// The listing of all devices: the local ones, then those of attached Android devices where adb
/// is available and their enumeration succeeded. A failure to list the local devices fails the
/// whole listing; a failure of the Android enumeration only leaves those devices out.
pub fn merge_device_lists<E>(local: Result<Vec<Device>, E>, android: Option<Result<Vec<Device>, E>>) -> (r:
    Result<Vec<Device>, E>)
    ensures
        match local {
            Err(e) => r == Err::<Vec<Device>, E>(e),
            Ok(l) => r is Ok && r->Ok_0@ == match android {
                Some(Ok(a)) => l@ + a@,
                _ => l@,
            },
        },
{
    match local {
        Err(e) => Err(e),
        Ok(mut out) => {
            match android {
                Some(Ok(mut a)) => {
                    out.append(&mut a);
                },
                _ => {},
            }
            Ok(out)
        },
    }
}

// ---------------------------------------------------------------------------
// Hidden protected areas
// ---------------------------------------------------------------------------

/// Whether a device is probed for a hidden protected area with `hdparm -N`: not on Windows, and
/// only where `hdparm` is installed.
pub fn hpa_probe_applies(is_windows: bool, hdparm_found: bool) -> (r: bool)
    ensures
        r == (!is_windows && hdparm_found),
{
    !is_windows && hdparm_found
}

/// The report of an `hdparm -N` run: what it wrote to standard output where it succeeded, else
/// what it wrote to standard error.
pub fn hpa_report(success: bool, stdout: String, stderr: String) -> (r: String)
    ensures
        r@ == if success {
            stdout@
        } else {
            stderr@
        },
{
    if success {
        stdout
    } else {
        stderr
    }
}

// ---------------------------------------------------------------------------
// What the listings hold, field by field
// ---------------------------------------------------------------------------

/// The test that picks the entries describing whole disks: a `type` of `disk`.
pub open spec fn disk_kind() -> spec_fn(LsblkEntryView) -> bool {
    |e: LsblkEntryView| e.kind == Some("disk"@)
}

/// The local listing has one device per entry of type `disk`, in order, and the `i`-th device is
/// made of the `i`-th such entry: its name, the node `/dev/<name>`, its size, model, serial number
/// and transport as reported, its media class from `detect_media_spec`, source `local`, and it
/// counts as removable exactly when its transport mentions `usb` (in any case) or its name begins
/// with `mmcblk` — whatever its media class.
pub proof fn law_local_devices_fields(es: Seq<LsblkEntryView>)
    ensures
        local_devices_spec(es).len() == es.filter(disk_kind()).len(),
        forall|i: int|
            0 <= i < local_devices_spec(es).len() ==> {
                let e = es.filter(disk_kind())[i];
                let d = #[trigger] local_devices_spec(es)[i];
                let name = or_empty(e.name);
                &&& d.name == name
                &&& d.path == "/dev/"@ + name
                &&& d.size == or_empty(e.size)
                &&& d.model == e.model
                &&& d.serial == e.serial
                &&& d.tran == e.tran
                &&& d.media == detect_media_spec(name, e.tran, e.rota, e.model)
                &&& d.source == "local"@
                &&& d.removable == ((e.tran is Some && has_infix(lowercase_spec(e.tran->0), "usb"@))
                    || has_prefix(name, "mmcblk"@))
            },
    decreases es.len(),
{
    reveal(Seq::filter);
    if es.len() > 0 {
        law_local_devices_fields(es.drop_last());
    }
}

/// The listing of the Android device `serial` has one device per entry of type `disk`, in order,
/// and the `i`-th device is made of the `i`-th such entry: named `<name>@<serial>`, addressed as
/// `adb:<serial>:<node>`, with the entry's size, model, serial number and transport as reported,
/// its media class from `detect_media_spec`, source `android:<serial>`, and removable exactly when
/// its name begins with `mmcblk` or `sd`.
pub proof fn law_android_devices_fields(serial: Seq<char>, es: Seq<LsblkEntryView>)
    ensures
        android_devices_spec(serial, es).len() == es.filter(disk_kind()).len(),
        forall|i: int|
            0 <= i < android_devices_spec(serial, es).len() ==> {
                let e = es.filter(disk_kind())[i];
                let d = #[trigger] android_devices_spec(serial, es)[i];
                let name = or_empty(e.name);
                &&& d.name == name + "@"@ + serial
                &&& d.path == "adb:"@ + serial + ":"@ + android_block_path(name)
                &&& d.size == or_empty(e.size)
                &&& d.model == e.model
                &&& d.serial == e.serial
                &&& d.tran == e.tran
                &&& d.media == detect_media_spec(name, e.tran, e.rota, e.model)
                &&& d.source == "android:"@ + serial
                &&& d.removable == (has_prefix(name, "mmcblk"@) || has_prefix(name, "sd"@))
            },
    decreases es.len(),
{
    reveal(Seq::filter);
    if es.len() > 0 {
        law_android_devices_fields(serial, es.drop_last());
    }
}

/// Every drive that `wmic` output lists has its interface type as transport, and its media class
/// follows from that and its model alone: USB where the interface mentions `usb` (in any case);
/// else unknown without a model; else, by the lowercased model, NVMe where it mentions `nvme`,
/// then SSD for `ssd`, then a hard disk for `hdd` or `disk`, else unknown. It is removable exactly
/// when the interface mentions `usb`.
pub proof fn law_wmic_media(ls: Seq<Seq<char>>)
    ensures
        forall|i: int|
            0 <= i < wmic_devices_spec(ls).len() ==> {
                let d = #[trigger] wmic_devices_spec(ls)[i];
                &&& d.tran is Some
                &&& d.removable == has_infix(lowercase_spec(d.tran->0), "usb"@)
                &&& d.media == if has_infix(lowercase_spec(d.tran->0), "usb"@) {
                    MediaType::USB
                } else {
                    match d.model {
                        None => MediaType::UNKNOWN,
                        Some(m) => if has_infix(lowercase_spec(m), "nvme"@) {
                            MediaType::NVMe
                        } else if has_infix(lowercase_spec(m), "ssd"@) {
                            MediaType::SSD
                        } else if has_infix(lowercase_spec(m), "hdd"@) || has_infix(
                            lowercase_spec(m),
                            "disk"@,
                        ) {
                            MediaType::HDD
                        } else {
                            MediaType::UNKNOWN
                        },
                    }
                }
            },
    decreases ls.len(),
{
    if ls.len() > 0 {
        law_wmic_media(ls.drop_last());
    }
}

/// Whether a line of `adb devices -l` output names a usable device: after trimming it is not
/// blank, does not report missing permissions, and its first word is not `List`.
pub open spec fn usable_adb_line() -> spec_fn(Seq<char>) -> bool {
    |l: Seq<char>|
        {
            let s = trim_spec(l);
            &&& s.len() > 0
            &&& !has_infix(s, "no permissions"@)
            &&& first_word(s) is Some
            &&& first_word(s)->0 != "List"@
        }
}

/// The serial numbers listed are, in order, the whole first word of each usable line, kept as it
/// is (a network address such as `192.168.1.20:5555` keeps its port).
pub proof fn law_adb_serials_first_words(ls: Seq<Seq<char>>)
    ensures
        adb_serials_spec(ls) == ls.filter(usable_adb_line()).map_values(
            |l: Seq<char>| first_word(trim_spec(l))->0,
        ),
    decreases ls.len(),
{
    reveal(Seq::filter);
    if ls.len() > 0 {
        law_adb_serials_first_words(ls.drop_last());
        let prev = ls.drop_last().filter(usable_adb_line());
        let f = |l: Seq<char>| first_word(trim_spec(l))->0;
        if usable_adb_line()(ls.last()) {
            assert(prev.push(ls.last()).map_values(f) =~= prev.map_values(f).push(f(ls.last())));
        }
        assert(adb_serials_spec(ls) =~= ls.filter(usable_adb_line()).map_values(f));
    }
}

} // verus!
