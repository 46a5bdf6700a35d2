use vstd::prelude::*;
use vstd::string::*;

verus! {

/// A Bluetooth Low-Energy device to look for, by address and by name.
#[derive(Debug)]
pub struct DeviceBle {
    pub mac_address: String,
    pub name_device: String,
}

/// What to do with a peripheral that a scan has found.
#[derive(Clone, Copy, Debug, PartialEq, Eq, Structural)]
pub enum ScanStep {
    /// Its name holds the wanted name: connect to it.
    Connect,
    /// It is another device: pass over it.
    Skip,
}

/// Whether `part` stands in `text` at place `i`.
pub open spec fn occurs_at(text: Seq<char>, part: Seq<char>, i: int) -> bool {
    0 <= i && i + part.len() <= text.len() && text.subrange(i, i + part.len()) == part
}

/// Whether `part` stands somewhere in `text`.
pub open spec fn occurs_in(text: Seq<char>, part: Seq<char>) -> bool {
    exists|i: int| occurs_at(text, part, i)
}

/// The name under which a peripheral goes: its own, or a fixed text where
/// it announces none.
pub open spec fn shown_name(local_name: Option<Seq<char>>) -> Seq<char> {
    match local_name {
        Some(name) => name,
        None => "(peripheral name unknown)"@,
    }
}

/// The step for a peripheral, by its announced name and the wanted one.
pub open spec fn step_for(local_name: Option<Seq<char>>, wanted: Seq<char>) -> ScanStep {
    if occurs_in(shown_name(local_name), wanted) {
        ScanStep::Connect
    } else {
        ScanStep::Skip
    }
}

fn matches_at(text: &str, n: usize, part: &str, m: usize, i: usize) -> (b: bool)
    requires
        n == text@.len(),
        m == part@.len(),
        i + m <= n,
    ensures
        b == occurs_at(text@, part@, i as int),
{
    let mut j: usize = 0;
    while j < m
        invariant
            n == text@.len(),
            m == part@.len(),
            i + m <= n,
            j <= m,
            forall|l: int| 0 <= l < j ==> text@[i + l] == part@[l],
        decreases m - j,
    {
        if text.get_char(i + j) != part.get_char(j) {
            assert(text@.subrange(i as int, i + m)[j as int] != part@[j as int]);
            return false;
        }
        j += 1;
    }
    assert(text@.subrange(i as int, i + m) =~= part@);
    true
}

/// Whether `part` stands somewhere in `text`.
pub fn contains(text: &str, part: &str) -> (b: bool)
    ensures
        b == occurs_in(text@, part@),
{
    let n: usize = text.unicode_len();
    let m: usize = part.unicode_len();
    if m > n {
        return false;
    }
    let last: usize = n - m;
    let mut i: usize = 0;
    while i < last
        invariant
            n == text@.len(),
            m == part@.len(),
            last == n - m,
            i <= last,
            forall|k: int| 0 <= k < i ==> !occurs_at(text@, part@, k),
        decreases last - i,
    {
        if matches_at(text, n, part, m, i) {
            return true;
        }
        i += 1;
    }
    matches_at(text, n, part, m, last)
}

impl DeviceBle {
    /// A device to look for. Scanning and connecting are the caller's part.
    pub fn new(mac_address: String, name_device: String) -> (device: DeviceBle)
        ensures
            device.mac_address == mac_address,
            device.name_device == name_device,
    {
        DeviceBle { mac_address, name_device }
    }

    /// Decides what to do with a peripheral that announces `local_name`.
    pub fn step(&self, local_name: Option<&str>) -> (step: ScanStep)
        ensures
            step == step_for(
                match local_name {
                    Some(name) => Some(name@),
                    None => None,
                },
                self.name_device@,
            ),
    {
        let shown = match local_name {
            Some(name) => name,
            None => "(peripheral name unknown)",
        };
        if contains(shown, self.name_device.as_str()) {
            ScanStep::Connect
        } else {
            ScanStep::Skip
        }
    }
}

} // verus!
