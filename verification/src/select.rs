use vstd::prelude::*;
use crate::device::{Device, DeviceView, devices_view};
use crate::text::{chars_of, parse_usize, parse_usize_spec, same_chars, trim_chars, trim_spec};

verus! {

broadcast use vstd::string::group_string_axioms;

/// What the operator must type to confirm a wipe of `d`: its serial number, or `ERASE-<name>`
/// where it has none.
pub open spec fn confirmation_token_spec(d: DeviceView) -> Seq<char> {
    match d.serial {
        Some(s) => s,
        None => "ERASE-"@ + d.name,
    }
}

/// What the operator must type to confirm a wipe of `dev`.
pub fn confirmation_token(dev: &Device) -> (r: String)
    ensures
        r@ == confirmation_token_spec(dev@),
{
    match &dev.serial {
        Some(s) => s.clone(),
        None => {
            let mut t = String::from_str("ERASE-");
            t.append(dev.name.as_str());
            t
        },
    }
}

/// Whether a typed answer matches what was asked for, white space around either aside.
pub fn answer_matches(typed: &str, expected: &str) -> (r: bool)
    ensures
        r == (trim_spec(typed@) == trim_spec(expected@)),
{
    let t = chars_of(typed);
    let e = chars_of(expected);
    let tt = trim_chars(t.as_slice());
    let et = trim_chars(e.as_slice());
    same_chars(tt.as_slice(), et.as_slice())
}

/// Whether the answer to the final question confirms the wipe: `YES`, white space around it aside.
pub fn final_confirmation(typed: &str) -> (r: bool)
    ensures
        r == (trim_spec(typed@) == "YES"@),
{
    let t = chars_of(typed);
    let tt = trim_chars(t.as_slice());
    let yes = chars_of("YES");
    same_chars(tt.as_slice(), yes.as_slice())
}

/// The index of the first device whose path is `path`, if any.
pub fn find_device_by_path(devs: &[Device], path: &str) -> (r: Option<usize>)
    ensures
        match r {
            Some(i) => i < devs@.len() && devs@[i as int].path@ == path@ && forall|j: int|
                0 <= j < i ==> devs@[j].path@ != path@,
            None => forall|j: int| 0 <= j < devs@.len() ==> devs@[j].path@ != path@,
        },
{
    let n = devs.len();
    let p = String::from_str(path);
    let mut i: usize = 0;
    while i < n
        invariant
            i <= n,
            n == devs@.len(),
            p@ == path@,
            forall|j: int| 0 <= j < i ==> devs@[j].path@ != path@,
        decreases n - i,
    {
        if devs[i].path == p {
            return Some(i);
        }
        i += 1;
    }
    None
}

/// What the operator's answer to the device prompt selects.
#[derive(Debug, Clone, Copy, PartialEq, Eq, Structural)]
pub enum Selection {
    /// The operator asked to quit.
    Quit,
    /// The device with this index.
    Device(usize),
    /// The answer is not an index.
    InvalidIndex,
    /// The index is past the last device.
    OutOfRange,
}

/// Whether an answer asks to quit: `q` or `Q`, white space around it aside.
pub open spec fn is_quit_spec(answer: Seq<char>) -> bool {
    trim_spec(answer) == seq!['q'] || trim_spec(answer) == seq!['Q']
}

/// What an answer to the device prompt selects among `count` devices: quit for `q` (either case),
/// else the index it spells (as `usize::from_str` reads it) where that is below `count`.
pub open spec fn selection_spec(answer: Seq<char>, count: nat) -> Selection {
    if is_quit_spec(answer) {
        Selection::Quit
    } else {
        match parse_usize_spec(trim_spec(answer)) {
            None => Selection::InvalidIndex,
            Some(i) => if i < count {
                Selection::Device(i)
            } else {
                Selection::OutOfRange
            },
        }
    }
}

/// What an answer to the device prompt selects among `count` devices.
pub fn parse_selection(answer: &str, count: usize) -> (r: Selection)
    ensures
        r == selection_spec(answer@, count as nat),
{
    let a = chars_of(answer);
    let t = trim_chars(a.as_slice());
    if t.len() == 1 && (t[0] == 'q' || t[0] == 'Q') {
        assert(t@ =~= seq![t@[0]]);
        return Selection::Quit;
    }
    assert(!is_quit_spec(answer@)) by {
        if t@ == seq!['q'] || t@ == seq!['Q'] {
            assert(t@.len() == 1 && t@[0] == t@[0]);
        }
    }
    match parse_usize(t.as_slice()) {
        None => Selection::InvalidIndex,
        Some(i) => if i < count {
            Selection::Device(i)
        } else {
            Selection::OutOfRange
        },
    }
}

/// Typing exactly what was asked for, with any white space around it, always confirms.
pub proof fn law_exact_answer_confirms(expected: Seq<char>, before: Seq<char>, after: Seq<char>)
    requires
        forall|k: int| 0 <= k < before.len() ==> crate::text::is_white(#[trigger] before[k]),
        forall|k: int| 0 <= k < after.len() ==> crate::text::is_white(#[trigger] after[k]),
    ensures
        trim_spec(before + expected + after) == trim_spec(expected),
{
    crate::text::lemma_trim_padded(expected, before, after);
}

} // verus!
