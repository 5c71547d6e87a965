use vstd::prelude::*;
use crate::device::{Device, DeviceView};
use crate::media::media_label;
use crate::text::{decimal, decimal_chars, string_of};

verus! {

broadcast use vstd::string::group_string_axioms;

/// What `format!("{:?}", s)` writes for a text: the text quoted and escaped as Rust's `Debug`
/// for `str` does it.
pub uninterp spec fn debug_text_spec(s: Seq<char>) -> Seq<char>;

/// `format!("{:?}", s)` for a `str`: the quoted, escaped text, named by `debug_text_spec` (the
/// escaping follows Unicode's printable tables, too long to restate).
#[verifier::external_body]
fn debug_text(s: &str) -> (r: String)
    ensures
        r@ == debug_text_spec(s@),
{
    format!("{:?}", s)
}

/// What `format!("{:?}", o)` writes for an optional text.
pub open spec fn debug_opt_spec(o: Option<Seq<char>>) -> Seq<char> {
    match o {
        None => "None"@,
        Some(s) => "Some("@ + debug_text_spec(s) + ")"@,
    }
}

/// `format!("{:?}", o)` for an optional text.
pub fn debug_opt(o: &Option<String>) -> (r: String)
    ensures
        r@ == debug_opt_spec(o.deep_view()),
{
    match o {
        None => String::from_str("None"),
        Some(s) => {
            let mut r = String::from_str("Some(");
            let d = debug_text(s.as_str());
            r.append(d.as_str());
            r.append(")");
            r
        },
    }
}

/// The line that lists device `d` under index `i`:
/// ` [<i>] <path>  size=<size> type=<media> model=<model> serial=<serial> tran=<tran>`, the
/// optional fields written as `Debug` writes them.
pub open spec fn device_line_spec(i: nat, d: DeviceView) -> Seq<char> {
    " ["@ + decimal(i) + "] "@ + d.path + "  size="@ + d.size + " type="@ + media_label(d.media)
        + " model="@ + debug_opt_spec(d.model) + " serial="@ + debug_opt_spec(d.serial) + " tran="@
        + debug_opt_spec(d.tran)
}

/// The line that lists device `d` under index `i`.
pub fn device_line(i: usize, d: &Device) -> (r: String)
    ensures
        r@ == device_line_spec(i as nat, d@),
{
    let mut r = String::from_str(" [");
    let digits = decimal_chars(i as u64);
    let ds = string_of(digits.as_slice());
    r.append(ds.as_str());
    r.append("] ");
    r.append(d.path.as_str());
    r.append("  size=");
    r.append(d.size.as_str());
    r.append(" type=");
    let label = d.media.to_string();
    r.append(label.as_str());
    r.append(" model=");
    let m = debug_opt(&d.model);
    r.append(m.as_str());
    r.append(" serial=");
    let s = debug_opt(&d.serial);
    r.append(s.as_str());
    r.append(" tran=");
    let t = debug_opt(&d.tran);
    r.append(t.as_str());
    r
}

/// The lines that list the devices, one per device, indexed from 0.
pub fn device_lines(devs: &[Device]) -> (r: Vec<String>)
    ensures
        r@.len() == devs@.len(),
        forall|i: int| 0 <= i < devs@.len() ==> (#[trigger] r@[i])@ == device_line_spec(i as nat, devs@[i]@),
{
    let n = devs.len();
    let mut out: Vec<String> = Vec::new();
    let mut i: usize = 0;
    while i < n
        invariant
            i <= n,
            n == devs@.len(),
            out@.len() == i,
            forall|j: int| 0 <= j < i ==> (#[trigger] out@[j])@ == device_line_spec(j as nat, devs@[j]@),
        decreases n - i,
    {
        out.push(device_line(i, &devs[i]));
        i += 1;
    }
    out
}

} // verus!
