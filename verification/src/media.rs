use vstd::prelude::*;
use crate::text::{chars_of, contains, has_infix, has_prefix, same_chars, starts_with};

verus! {

broadcast use vstd::string::group_string_axioms;

/// The kind of storage medium behind a block device.
#[derive(Debug, Clone, Copy, PartialEq, Eq, Structural)]
pub enum MediaType {
    HDD,
    SSD,
    NVMe,
    USB,
    Emmc,
    UFS,
    UNKNOWN,
}

/// The label that a medium kind is shown with.
pub open spec fn media_label(m: MediaType) -> Seq<char> {
    match m {
        MediaType::HDD => "HDD"@,
        MediaType::SSD => "SSD"@,
        MediaType::NVMe => "NVMe"@,
        MediaType::USB => "USB"@,
        MediaType::Emmc => "eMMC"@,
        MediaType::UFS => "UFS"@,
        MediaType::UNKNOWN => "UNKNOWN"@,
    }
}

impl MediaType {
    /// The label of this medium kind, as it is displayed to the operator.
    pub fn to_string(&self) -> (s: String)
        ensures
            s@ == media_label(*self),
    {
        let lit = match self {
            MediaType::HDD => "HDD",
            MediaType::SSD => "SSD",
            MediaType::NVMe => "NVMe",
            MediaType::USB => "USB",
            MediaType::Emmc => "eMMC",
            MediaType::UFS => "UFS",
            MediaType::UNKNOWN => "UNKNOWN",
        };
        lit.to_string()
    }
}

/// What `str::to_lowercase` returns for a text: Unicode's lowercase mapping, character by
/// character, as the standard library implements it.
pub uninterp spec fn lowercase_spec(s: Seq<char>) -> Seq<char>;

/// `str::to_lowercase`. Its result is named by `lowercase_spec`: the mapping depends on the text
/// alone, and Unicode's case tables are too long to restate here.
#[verifier::external_body]
pub(crate) fn to_lowercase(s: &str) -> (r: String)
    ensures
        r@ == lowercase_spec(s@),
{
    s.to_lowercase()
}

/// The characters of `s`, lowercased.
pub(crate) fn lowercase_chars(s: &str) -> (r: Vec<char>)
    ensures
        r@ == lowercase_spec(s@),
{
    let l = to_lowercase(s);
    chars_of(l.as_str())
}

/// How a block device is classified from its lowercased kernel name, lowercased transport,
/// rotational flag (as reported, not lowercased) and lowercased model.
pub open spec fn classify_spec(
    name_l: Seq<char>,
    tran_l: Seq<char>,
    rota: Option<Seq<char>>,
    model_l: Seq<char>,
) -> MediaType {
    if has_prefix(name_l, "nvme"@) || has_infix(tran_l, "nvme"@) || has_infix(model_l, "nvme"@) {
        MediaType::NVMe
    } else if has_infix(tran_l, "usb"@) {
        MediaType::USB
    } else if rota == Some("1"@) {
        MediaType::HDD
    } else if rota == Some("0"@) {
        if has_infix(model_l, "emmc"@) || has_prefix(name_l, "mmcblk"@) {
            MediaType::Emmc
        } else if has_infix(model_l, "ufs"@) {
            MediaType::UFS
        } else {
            MediaType::SSD
        }
    } else if has_infix(model_l, "emmc"@) {
        MediaType::Emmc
    } else if has_infix(model_l, "ufs"@) {
        MediaType::UFS
    } else if has_infix(model_l, "ssd"@) {
        MediaType::SSD
    } else if has_infix(model_l, "hdd"@) || has_infix(model_l, "hard"@) {
        MediaType::HDD
    } else {
        MediaType::UNKNOWN
    }
}

/// The view of an optional text.
pub open spec fn opt_text(o: Option<&str>) -> Option<Seq<char>> {
    match o {
        Some(s) => Some(s@),
        None => None,
    }
}

/// The classification of the raw fields that `lsblk` reports for a device.
pub open spec fn detect_media_spec(
    name: Seq<char>,
    tran: Option<Seq<char>>,
    rota: Option<Seq<char>>,
    model: Option<Seq<char>>,
) -> MediaType {
    classify_spec(
        lowercase_spec(name),
        lowercase_spec(tran.unwrap_or(Seq::empty())),
        rota,
        lowercase_spec(model.unwrap_or(Seq::empty())),
    )
}

/// Whether lowercased lsblk fields hint at an NVMe device: the name begins with `nvme`, or the
/// transport or the model mentions it.
pub open spec fn nvme_hint(name_l: Seq<char>, tran_l: Seq<char>, model_l: Seq<char>) -> bool {
    has_prefix(name_l, "nvme"@) || has_infix(tran_l, "nvme"@) || has_infix(model_l, "nvme"@)
}

/// An NVMe hint in the name, transport or model makes the device NVMe, whatever else it reports.
pub proof fn law_media_nvme_first(
    name: Seq<char>,
    tran: Option<Seq<char>>,
    rota: Option<Seq<char>>,
    model: Option<Seq<char>>,
)
    requires
        nvme_hint(
            lowercase_spec(name),
            lowercase_spec(tran.unwrap_or(Seq::empty())),
            lowercase_spec(model.unwrap_or(Seq::empty())),
        ),
    ensures
        detect_media_spec(name, tran, rota, model) == MediaType::NVMe,
{
}

/// Without an NVMe hint, a transport that mentions `usb` (in any case) makes the device USB,
/// whatever its rotational flag and model say.
pub proof fn law_media_usb_transport(
    name: Seq<char>,
    t: Seq<char>,
    rota: Option<Seq<char>>,
    model: Option<Seq<char>>,
)
    requires
        !nvme_hint(lowercase_spec(name), lowercase_spec(t), lowercase_spec(model.unwrap_or(Seq::empty()))),
        has_infix(lowercase_spec(t), "usb"@),
    ensures
        detect_media_spec(name, Some(t), rota, model) == MediaType::USB,
{
}

/// A device is classified USB only where its transport mentions `usb`.
pub proof fn law_media_usb_needs_usb_transport(
    name: Seq<char>,
    tran: Option<Seq<char>>,
    rota: Option<Seq<char>>,
    model: Option<Seq<char>>,
)
    requires
        detect_media_spec(name, tran, rota, model) == MediaType::USB,
    ensures
        has_infix(lowercase_spec(tran.unwrap_or(Seq::empty())), "usb"@),
{
}

/// Without an NVMe hint or a USB transport, a rotational flag of `1` makes the device a hard disk.
pub proof fn law_media_rotational_is_hdd(
    name: Seq<char>,
    tran: Option<Seq<char>>,
    model: Option<Seq<char>>,
)
    requires
        !nvme_hint(
            lowercase_spec(name),
            lowercase_spec(tran.unwrap_or(Seq::empty())),
            lowercase_spec(model.unwrap_or(Seq::empty())),
        ),
        !has_infix(lowercase_spec(tran.unwrap_or(Seq::empty())), "usb"@),
    ensures
        detect_media_spec(name, tran, Some(seq!['1']), model) == MediaType::HDD,
{
    reveal_strlit("1");
    assert("1"@ =~= seq!['1']);
}

/// Without an NVMe hint or a USB transport, a rotational flag of `0` makes the device solid state:
/// eMMC where the model mentions `emmc` or the name begins with `mmcblk`, else UFS where the model
/// mentions `ufs`, else an SSD.
pub proof fn law_media_non_rotational(name: Seq<char>, tran: Option<Seq<char>>, model: Option<Seq<char>>)
    requires
        !nvme_hint(
            lowercase_spec(name),
            lowercase_spec(tran.unwrap_or(Seq::empty())),
            lowercase_spec(model.unwrap_or(Seq::empty())),
        ),
        !has_infix(lowercase_spec(tran.unwrap_or(Seq::empty())), "usb"@),
    ensures
        ({
            let n = lowercase_spec(name);
            let m = lowercase_spec(model.unwrap_or(Seq::empty()));
            detect_media_spec(name, tran, Some(seq!['0']), model) == if has_infix(m, "emmc"@)
                || has_prefix(n, "mmcblk"@) {
                MediaType::Emmc
            } else if has_infix(m, "ufs"@) {
                MediaType::UFS
            } else {
                MediaType::SSD
            }
        }),
{
    reveal_strlit("0");
    reveal_strlit("1");
    assert("0"@ =~= seq!['0']);
    assert("1"@ != seq!['0']) by {
        assert("1"@[0] != seq!['0'][0]);
    }
}

/// Without an NVMe hint, a USB transport, or a rotational flag of `0` or `1`, the model decides:
/// eMMC, then UFS, then SSD, then a hard disk (`hdd` or `hard`), else unknown.
pub proof fn law_media_by_model(
    name: Seq<char>,
    tran: Option<Seq<char>>,
    rota: Option<Seq<char>>,
    model: Option<Seq<char>>,
)
    requires
        !nvme_hint(
            lowercase_spec(name),
            lowercase_spec(tran.unwrap_or(Seq::empty())),
            lowercase_spec(model.unwrap_or(Seq::empty())),
        ),
        !has_infix(lowercase_spec(tran.unwrap_or(Seq::empty())), "usb"@),
        rota != Some(seq!['0']),
        rota != Some(seq!['1']),
    ensures
        ({
            let m = lowercase_spec(model.unwrap_or(Seq::empty()));
            detect_media_spec(name, tran, rota, model) == if has_infix(m, "emmc"@) {
                MediaType::Emmc
            } else if has_infix(m, "ufs"@) {
                MediaType::UFS
            } else if has_infix(m, "ssd"@) {
                MediaType::SSD
            } else if has_infix(m, "hdd"@) || has_infix(m, "hard"@) {
                MediaType::HDD
            } else {
                MediaType::UNKNOWN
            }
        }),
{
    reveal_strlit("0");
    reveal_strlit("1");
    assert("0"@ =~= seq!['0']);
    assert("1"@ =~= seq!['1']);
}

/// Classifies a device from its already lowercased name, transport and model, and its
/// rotational flag.
pub fn classify_media(name_l: &[char], tran_l: &[char], rota: Option<&[char]>, model_l: &[char]) -> (m:
    MediaType)
    ensures
        m == classify_spec(
            name_l@,
            tran_l@,
            match rota {
                Some(r) => Some(r@),
                None => None,
            },
            model_l@,
        ),
{
    let nvme = chars_of("nvme");
    let usb = chars_of("usb");
    let emmc = chars_of("emmc");
    let mmcblk = chars_of("mmcblk");
    let ufs = chars_of("ufs");
    if starts_with(name_l, nvme.as_slice()) || contains(tran_l, nvme.as_slice()) || contains(
        model_l,
        nvme.as_slice(),
    ) {
        return MediaType::NVMe;
    }
    if contains(tran_l, usb.as_slice()) {
        return MediaType::USB;
    }
    if let Some(r) = rota {
        let one = chars_of("1");
        let zero = chars_of("0");
        if same_chars(r, one.as_slice()) {
            return MediaType::HDD;
        } else if same_chars(r, zero.as_slice()) {
            if contains(model_l, emmc.as_slice()) || starts_with(name_l, mmcblk.as_slice()) {
                return MediaType::Emmc;
            }
            if contains(model_l, ufs.as_slice()) {
                return MediaType::UFS;
            }
            return MediaType::SSD;
        }
    }
    if contains(model_l, emmc.as_slice()) {
        return MediaType::Emmc;
    }
    if contains(model_l, ufs.as_slice()) {
        return MediaType::UFS;
    }
    let ssd = chars_of("ssd");
    if contains(model_l, ssd.as_slice()) {
        return MediaType::SSD;
    }
    let hdd = chars_of("hdd");
    let hard = chars_of("hard");
    if contains(model_l, hdd.as_slice()) || contains(model_l, hard.as_slice()) {
        return MediaType::HDD;
    }
    MediaType::UNKNOWN
}

/// Classifies a device from the fields that `lsblk` reports for it: its kernel name, transport,
/// rotational flag and model. Name, transport and model are compared in lowercase.
pub fn detect_media_unix(name: &str, tran: &Option<String>, rota: Option<&str>, model: Option<&str>) -> (m:
    MediaType)
    ensures
        m == detect_media_spec(name@, tran.deep_view(), opt_text(rota), opt_text(model)),
{
    let name_l = lowercase_chars(name);
    let tran_l = match tran {
        Some(t) => lowercase_chars(t.as_str()),
        None => lowercase_chars(""),
    };
    let model_l = match model {
        Some(m) => lowercase_chars(m),
        None => lowercase_chars(""),
    };
    let rota_chars: Option<Vec<char>> = match rota {
        Some(r) => Some(chars_of(r)),
        None => None,
    };
    let m = match &rota_chars {
        Some(r) => classify_media(name_l.as_slice(), tran_l.as_slice(), Some(r.as_slice()), model_l.as_slice()),
        None => classify_media(name_l.as_slice(), tran_l.as_slice(), None, model_l.as_slice()),
    };
    proof {
        assert(""@ == Seq::<char>::empty()) by {
            reveal_strlit("");
        }
    }
    m
}

} // verus!
