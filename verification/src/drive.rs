//! Which storage bus a clip's drive sits on. A path alone does not say what it
//! is stored on, and a drive's type does not tell an external disk from an
//! internal one; the bus does.

use vstd::prelude::*;

use crate::text;

verus! {

/// Values of the Windows enumeration `STORAGE_BUS_TYPE`.
pub const BUS_SCSI: i32 = 1;

pub const BUS_ATA: i32 = 3;

pub const BUS_1394: i32 = 4;

pub const BUS_USB: i32 = 7;

pub const BUS_RAID: i32 = 8;

pub const BUS_SAS: i32 = 10;

pub const BUS_SATA: i32 = 11;

pub const BUS_SD: i32 = 12;

pub const BUS_VIRTUAL: i32 = 14;

pub const BUS_NVME: i32 = 17;

/// Whether `c` is an ASCII letter.
pub open spec fn is_letter(c: char) -> bool {
    ('a' <= c && c <= 'z') || ('A' <= c && c <= 'Z')
}

/// An ASCII letter in upper case, anything else as it is.
pub open spec fn upper(c: char) -> char {
    if 'a' <= c && c <= 'z' {
        (c as u32 - 32) as char
    } else {
        c
    }
}

/// Whether a drive letter and its colon stand at `at`.
pub open spec fn drive_at(path: Seq<char>, at: int) -> bool {
    path.len() >= at + 2 && is_letter(path[at]) && path[at + 1] == ':'
}

/// Whether a path is written verbatim: behind `\\?\`.
pub open spec fn is_verbatim(path: Seq<char>) -> bool {
    path.len() >= 4 && path[0] == '\\' && path[1] == '\\' && path[2] == '?' && path[3] == '\\'
}

/// The letter of the drive a path starts from, in upper case: of a path that
/// starts with a letter and a colon, or that has them behind the verbatim prefix
/// and nothing but a separator next. A network path has none, nor has a relative
/// one.
pub open spec fn drive_letter(path: Seq<char>) -> Option<char> {
    if drive_at(path, 0) {
        Some(upper(path[0]))
    } else if is_verbatim(path) && drive_at(path, 4) && (path.len() == 6 || path[6] == '\\'
        || path[6] == '/') {
        Some(upper(path[4]))
    } else {
        None
    }
}

fn letter(c: char) -> (l: bool)
    ensures
        l == is_letter(c),
{
    ('a' <= c && c <= 'z') || ('A' <= c && c <= 'Z')
}

fn upper_case(c: char) -> (u: char)
    ensures
        u == upper(c),
{
    if 'a' <= c && c <= 'z' {
        ((c as u32 - 32) as u8) as char
    } else {
        c
    }
}

/// The drive letter `path` starts from, uppercase.
pub fn letter_of(path: &str) -> (l: Option<char>)
    ensures
        l == drive_letter(path@),
{
    let n: usize = path.unicode_len();
    if n >= 2 && letter(path.get_char(0)) && path.get_char(1) == ':' {
        return Some(upper_case(path.get_char(0)));
    }
    if n >= 6 && path.get_char(0) == '\\' && path.get_char(1) == '\\' && path.get_char(2) == '?'
        && path.get_char(3) == '\\' && letter(path.get_char(4)) && path.get_char(5) == ':' && (n
        == 6 || path.get_char(6) == '\\' || path.get_char(6) == '/') {
        return Some(upper_case(path.get_char(4)));
    }
    None
}

/// The name of the volume device behind a drive letter. This form takes no
/// trailing separator, unlike the root of the file system on it.
pub fn device_name(letter: char) -> (s: String)
    ensures
        s@ == "\\\\.\\"@.push(letter).push(':'),
{
    let mut s: String = "\\\\.\\".to_owned();
    s.push(letter);
    s.push(':');
    s
}

/// What a bus is called. One without a name is told by its number: that still
/// tells two runs apart.
pub open spec fn bus_name(bus: i32) -> Seq<char> {
    if bus == BUS_USB {
        "USB"@
    } else if bus == BUS_SATA {
        "SATA"@
    } else if bus == BUS_NVME {
        "NVMe"@
    } else if bus == BUS_ATA {
        "ATA"@
    } else if bus == BUS_RAID {
        "RAID"@
    } else if bus == BUS_SAS {
        "SAS"@
    } else if bus == BUS_SCSI {
        "SCSI"@
    } else if bus == BUS_1394 {
        "FireWire"@
    } else if bus == BUS_SD {
        "SD"@
    } else if bus == BUS_VIRTUAL {
        "virtual"@
    } else {
        "bus "@ + text::signed(bus as int)
    }
}

/// The storage bus of a drive, given what the device reported, if it could be
/// asked. A missing answer is never worth failing over.
pub fn bus_of(reported: Option<i32>) -> (name: Option<String>)
    ensures
        match (reported, name) {
            (Some(bus), Some(s)) => s@ == bus_name(bus),
            (None, None) => true,
            _ => false,
        },
{
    match reported {
        Some(bus) => {
            let known: &str = if bus == BUS_USB {
                "USB"
            } else if bus == BUS_SATA {
                "SATA"
            } else if bus == BUS_NVME {
                "NVMe"
            } else if bus == BUS_ATA {
                "ATA"
            } else if bus == BUS_RAID {
                "RAID"
            } else if bus == BUS_SAS {
                "SAS"
            } else if bus == BUS_SCSI {
                "SCSI"
            } else if bus == BUS_1394 {
                "FireWire"
            } else if bus == BUS_SD {
                "SD"
            } else if bus == BUS_VIRTUAL {
                "virtual"
            } else {
                let mut s: String = "bus ".to_owned();
                text::push_signed(&mut s, bus as i128);
                return Some(s);
            };
            Some(known.to_owned())
        },
        None => None,
    }
}

/// The drives whose bus has been asked for in this run: once per drive is
/// enough, since every line about a clip carries its path.
pub struct DriveLog {
    pub seen: Vec<char>,
}

impl DriveLog {
    /// No drive has been asked for.
    pub fn new() -> (d: DriveLog)
        ensures
            d.seen@ == Seq::<char>::empty(),
    {
        DriveLog { seen: Vec::new() }
    }

    /// Whether this drive is to be asked for its bus: when it has not been
    /// before.
    pub fn first_sight(&mut self, letter: char) -> (first: bool)
        ensures
            first == !old(self).seen@.contains(letter),
            final(self).seen@ == if first {
                old(self).seen@.push(letter)
            } else {
                old(self).seen@
            },
    {
        let mut i: usize = 0;
        while i < self.seen.len()
            invariant
                i <= self.seen.len(),
                *self == *old(self),
                forall|j: int| 0 <= j < i ==> self.seen@[j] != letter,
            decreases self.seen.len() - i,
        {
            if self.seen[i] == letter {
                assert(self.seen@[i as int] == letter);
                return false;
            }
            i = i + 1;
        }
        self.seen.push(letter);
        true
    }
}

/// What the log says of a drive's bus.
pub fn storage_line(letter: char, bus: &str) -> (s: String)
    ensures
        s@ == "storage: "@.push(letter) + ": is on a "@ + bus@ + " bus"@,
{
    let mut s: String = "storage: ".to_owned();
    s.push(letter);
    s.append(": is on a ");
    s.append(bus);
    s.append(" bus");
    s
}

/// A drive letter is given in upper case: the letter itself, or the other case of
/// it.
pub proof fn a_drive_letter_is_given_in_upper_case(c: char)
    ensures
        is_letter(c) <==> 65 <= c as u32 <= 90 || 97 <= c as u32 <= 122,
        is_letter(c) ==> 65 <= upper(c) as u32 <= 90,
        is_letter(c) ==> upper(c) == c || upper(c) as u32 + 32 == c as u32,
{
}

/// A path that starts with a letter and a colon is on the drive of that letter,
/// whatever follows; so is one with them behind `\\?\` and a separator or nothing
/// next. Any other path is on none.
pub proof fn a_path_is_on_the_drive_it_starts_with(c: char, rest: Seq<char>, path: Seq<char>)
    ensures
        is_letter(c) ==> drive_letter(seq![c, ':'] + rest) == Some(upper(c)),
        is_letter(c) ==> drive_letter(seq!['\\', '\\', '?', '\\', c, ':']) == Some(upper(c)),
        is_letter(c) ==> drive_letter(seq!['\\', '\\', '?', '\\', c, ':', '\\'] + rest) == Some(
            upper(c),
        ),
        is_letter(c) ==> drive_letter(seq!['\\', '\\', '?', '\\', c, ':', '/'] + rest) == Some(
            upper(c),
        ),
        path.len() >= 2 && !is_letter(path[0]) && path[0] != '\\' ==> drive_letter(path) is None,
        path.len() >= 2 && path[0] != '\\' && path[1] != ':' ==> drive_letter(path) is None,
        path.len() < 2 ==> drive_letter(path) is None,
        path.len() < 4 && path.len() > 0 && path[0] == '\\' ==> drive_letter(path) is None,
        path.len() >= 4 && path[0] == '\\' && path.take(4) != seq!['\\', '\\', '?', '\\']
            ==> drive_letter(path) is None,
        drive_letter(seq!['\\', '\\', '?', '\\'] + rest) is Some ==> rest.len() >= 2 && is_letter(
            rest[0],
        ) && rest[1] == ':' && (rest.len() == 2 || rest[2] == '\\' || rest[2] == '/'),
{
    if is_verbatim(path) {
        assert(path.take(4) =~= seq!['\\', '\\', '?', '\\']);
    }
    let p = seq!['\\', '\\', '?', '\\'] + rest;
    assert(p[0] == '\\' && p.len() == rest.len() + 4);
    if rest.len() >= 2 {
        assert(p[4] == rest[0] && p[5] == rest[1]);
    }
    if rest.len() >= 3 {
        assert(p[6] == rest[2]);
    }
}

/// Each known bus has its name, and any other is told by its number.
pub proof fn a_bus_is_told_by_its_name_or_number(bus: i32)
    ensures
        bus_name(1) == "SCSI"@,
        bus_name(3) == "ATA"@,
        bus_name(4) == "FireWire"@,
        bus_name(7) == "USB"@,
        bus_name(8) == "RAID"@,
        bus_name(10) == "SAS"@,
        bus_name(11) == "SATA"@,
        bus_name(12) == "SD"@,
        bus_name(14) == "virtual"@,
        bus_name(17) == "NVMe"@,
        !set![1i32, 3, 4, 7, 8, 10, 11, 12, 14, 17].contains(bus) ==> bus_name(bus) == "bus "@
            + text::signed(bus as int),
{
}

} // verus!
