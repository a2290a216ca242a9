//! File names: which of them are clips, what a clip's still is called, and
//! which names a clip may be given.

use vstd::prelude::*;

verus! {

/// Extensions treated as video.
pub const VIDEO_EXT_COUNT: usize = 6;

/// The extensions treated as video.
pub open spec fn video_exts() -> Seq<Seq<char>> {
    seq!["mp4"@, "mkv"@, "mov"@, "webm"@, "avi"@, "m4v"@]
}

/// The extension number `i`.
pub fn video_ext(i: usize) -> (e: &'static str)
    requires
        i < VIDEO_EXT_COUNT,
    ensures
        e@ == video_exts()[i as int],
{
    if i == 0 {
        "mp4"
    } else if i == 1 {
        "mkv"
    } else if i == 2 {
        "mov"
    } else if i == 3 {
        "webm"
    } else if i == 4 {
        "avi"
    } else {
        "m4v"
    }
}

/// Where the last dot of `s` stands; -1 if it has none.
pub open spec fn last_dot(s: Seq<char>) -> int
    decreases s.len(),
{
    if s.len() == 0 {
        -1
    } else if s.last() == '.' {
        s.len() - 1
    } else {
        last_dot(s.drop_last())
    }
}

/// The part of a file name behind its last dot, if it has an extension: a name
/// without a dot has none, nor has one whose only dot leads it, nor has `..`.
pub open spec fn extension(name: Seq<char>) -> Option<Seq<char>> {
    if last_dot(name) <= 0 || name == seq!['.', '.'] {
        None
    } else {
        Some(name.skip(last_dot(name) + 1))
    }
}

/// A file name without its extension.
pub open spec fn stem(name: Seq<char>) -> Seq<char> {
    if extension(name) is None {
        name
    } else {
        name.take(last_dot(name))
    }
}

/// An ASCII letter in lower case, anything else as it is.
pub open spec fn lower(c: char) -> char {
    if 'A' <= c && c <= 'Z' {
        (c as u32 + 32) as char
    } else {
        c
    }
}

/// Whether two texts are the same but for the case of ASCII letters.
pub open spec fn same_but_case(a: Seq<char>, b: Seq<char>) -> bool {
    &&& a.len() == b.len()
    &&& forall|i: int| 0 <= i < a.len() ==> lower(#[trigger] a[i]) == lower(b[i])
}

/// Whether a file name has a recognized video extension.
pub open spec fn names_a_video(name: Seq<char>) -> bool {
    extension(name) matches Some(e) && exists|i: int|
        0 <= i < video_exts().len() && same_but_case(e, #[trigger] video_exts()[i])
}

/// The name of the still saved beside the clip called `name`.
pub open spec fn still_of(name: Seq<char>) -> Seq<char> {
    stem(name) + ".jpg"@
}

/// Whether a character is white space (the Unicode property White_Space).
pub open spec fn is_white(c: char) -> bool {
    let u = c as u32;
    ||| 0x9 <= u <= 0xd
    ||| u == 0x20
    ||| u == 0x85
    ||| u == 0xa0
    ||| u == 0x1680
    ||| 0x2000 <= u <= 0x200a
    ||| u == 0x2028
    ||| u == 0x2029
    ||| u == 0x202f
    ||| u == 0x205f
    ||| u == 0x3000
}

/// `s` without the white space around it.
pub open spec fn trimmed(s: Seq<char>) -> Seq<char>
    decreases s.len(),
{
    if s.len() == 0 {
        s
    } else if is_white(s[0]) {
        trimmed(s.drop_first())
    } else if is_white(s.last()) {
        trimmed(s.drop_last())
    } else {
        s
    }
}

fn white(c: char) -> (w: bool)
    ensures
        w == is_white(c),
{
    let u: u32 = c as u32;
    (0x9 <= u && u <= 0xd) || u == 0x20 || u == 0x85 || u == 0xa0 || u == 0x1680 || (0x2000 <= u
        && u <= 0x200a) || u == 0x2028 || u == 0x2029 || u == 0x202f || u == 0x205f || u == 0x3000
}

fn ascii_lower(c: char) -> (l: char)
    ensures
        l == lower(c),
{
    if 'A' <= c && c <= 'Z' {
        ((c as u32 + 32) as u8) as char
    } else {
        c
    }
}

/// The index of the last dot, if there is one.
fn find_dot(s: &str) -> (d: Option<usize>)
    ensures
        match d {
            Some(i) => i == last_dot(s@) && i < s@.len(),
            None => last_dot(s@) == -1,
        },
{
    let n: usize = s.unicode_len();
    let mut i: usize = n;
    assert(s@.take(n as int) =~= s@);
    while i > 0
        invariant
            i <= n,
            n == s@.len(),
            last_dot(s@) == last_dot(s@.take(i as int)),
        decreases i,
    {
        let ghost before = s@.take(i as int);
        assert(before.last() == s@[i - 1]);
        assert(before.drop_last() =~= s@.take(i - 1));
        if s.get_char(i - 1) == '.' {
            return Some(i - 1);
        }
        i = i - 1;
    }
    None
}

/// Where a file name's extension starts behind its dot, if it has one.
fn find_extension(name: &str) -> (at: Option<usize>)
    ensures
        match at {
            Some(i) => extension(name@) == Some(name@.skip(i as int)) && i == last_dot(name@) + 1
                && i <= name@.len(),
            None => extension(name@) is None,
        },
{
    let n: usize = name.unicode_len();
    match find_dot(name) {
        Some(d) => {
            if d == 0 {
                return None;
            }
            if d == 1 && n == 2 && name.get_char(0) == '.' && name.get_char(1)
                == '.' {
                assert(name@ =~= seq!['.', '.']);
                return None;
            }
            assert(name@ != seq!['.', '.']) by {
                if name@ == seq!['.', '.'] {
                    assert(name@.last() == '.');
                    assert(last_dot(name@) == 1);
                }
            }
            Some(d + 1)
        },
        None => None,
    }
}

/// Whether the text of `s` from `from` on is `t`, but for case.
fn matches_from(s: &str, from: usize, t: &str) -> (m: bool)
    requires
        from <= s@.len(),
    ensures
        m == same_but_case(s@.skip(from as int), t@),
{
    let n: usize = t.unicode_len();
    let total: usize = s.unicode_len();
    if total - from != n {
        return false;
    }
    let mut i: usize = 0;
    while i < n
        invariant
            i <= n,
            n == t@.len(),
            total == s@.len(),
            from + n == total,
            forall|j: int| 0 <= j < i ==> lower(s@.skip(from as int)[j]) == lower(#[trigger] t@[j]),
        decreases n - i,
    {
        let a = ascii_lower(s.get_char(from + i));
        let b = ascii_lower(t.get_char(i));
        if a != b {
            assert(lower(s@.skip(from as int)[i as int]) != lower(t@[i as int]));
            return false;
        }
        i = i + 1;
    }
    assert forall|j: int| 0 <= j < n implies lower(#[trigger] s@.skip(from as int)[j]) == lower(
        t@[j],
    ) by {
        assert(t@[j] == t@[j]);
    }
    true
}

/// Whether a file name has a recognized video extension, in any case.
pub fn is_video(name: &str) -> (v: bool)
    ensures
        v == names_a_video(name@),
{
    match find_extension(name) {
        Some(at) => {
            let mut i: usize = 0;
            while i < VIDEO_EXT_COUNT
                invariant
                    i <= VIDEO_EXT_COUNT,
                    at <= name@.len(),
                    extension(name@) == Some(name@.skip(at as int)),
                    forall|j: int|
                        0 <= j < i ==> !same_but_case(
                            name@.skip(at as int),
                            #[trigger] video_exts()[j],
                        ),
                decreases VIDEO_EXT_COUNT - i,
            {
                if matches_from(name, at, video_ext(i)) {
                    return true;
                }
                i = i + 1;
            }
            false
        },
        None => false,
    }
}

/// The name of the still saved beside the clip called `name`: `<stem>.jpg`.
pub fn still_name(name: &str) -> (s: String)
    ensures
        s@ == still_of(name@),
{
    let end: usize = match find_extension(name) {
        Some(at) => at - 1,
        None => name.unicode_len(),
    };
    assert(name@.subrange(0, end as int) =~= stem(name@));
    let mut s: String = name.substring_char(0, end).to_owned();
    s.append(".jpg");
    s
}

/// A file's name for a message to the user: its final component, or the whole
/// path where it has none.
pub fn display_name(file_name: Option<&str>, path: &str) -> (s: String)
    ensures
        s@ == match file_name {
            Some(n) => n@,
            None => path@,
        },
{
    match file_name {
        Some(n) => n.to_owned(),
        None => path.to_owned(),
    }
}

/// Character index the rename dialog opens its caret at: right before the last
/// dot, so the name is what gets typed over; the end of a name without one.
pub fn caret_before_ext(name: &str) -> (at: usize)
    ensures
        at == if last_dot(name@) < 0 {
            name@.len() as int
        } else {
            last_dot(name@)
        },
{
    match find_dot(name) {
        Some(d) => d,
        None => name.unicode_len(),
    }
}

/// Whether two paths could both be resolved and are the same file.
pub open spec fn same_file(a: Option<Vec<u8>>, b: Option<Vec<u8>>) -> bool {
    a is Some && b is Some && a->0@ == b->0@
}

/// Whether a candidate names a file that is already there and is not the clip
/// itself. Whether it is there is nothing where the question failed, and the
/// paths are the resolved ones, where they could be resolved; not knowing counts
/// as taken.
pub fn is_taken(
    present: Option<bool>,
    candidate: &Option<Vec<u8>>,
    current: &Option<Vec<u8>>,
) -> (taken: bool)
    ensures
        taken == (present != Some(false) && !same_file(*candidate, *current)),
{
    if let Some(false) = present {
        return false;
    }
    match candidate {
        Some(a) => match current {
            Some(b) => !same_bytes(a, b),
            None => true,
        },
        None => true,
    }
}

fn same_bytes(a: &Vec<u8>, b: &Vec<u8>) -> (same: bool)
    ensures
        same == (a@ == b@),
{
    if a.len() != b.len() {
        return false;
    }
    let mut i: usize = 0;
    while i < a.len()
        invariant
            i <= a.len(),
            a.len() == b.len(),
            forall|j: int| 0 <= j < i ==> a@[j] == b@[j],
        decreases a.len() - i,
    {
        if a[i] != b[i] {
            return false;
        }
        i = i + 1;
    }
    assert(a@ =~= b@);
    true
}

/// `s` without the white space around it.
pub fn trim(s: &str) -> (t: String)
    ensures
        t@ == trimmed(s@),
{
    let n: usize = s.unicode_len();
    let mut from: usize = 0;
    let mut to: usize = n;
    assert(s@.subrange(0, n as int) =~= s@);
    while from < to && white(s.get_char(from))
        invariant
            from <= to,
            to == n,
            n == s@.len(),
            trimmed(s@) == trimmed(s@.subrange(from as int, to as int)),
        decreases to - from,
    {
        let ghost here = s@.subrange(from as int, to as int);
        assert(here[0] == s@[from as int]);
        assert(here.drop_first() =~= s@.subrange(from + 1, to as int));
        from = from + 1;
    }
    while from < to && white(s.get_char(to - 1))
        invariant
            from <= to <= n,
            n == s@.len(),
            from < to ==> !is_white(s@[from as int]),
            trimmed(s@) == trimmed(s@.subrange(from as int, to as int)),
        decreases to,
    {
        let ghost here = s@.subrange(from as int, to as int);
        assert(here[0] == s@[from as int]);
        assert(here.last() == s@[to - 1]);
        assert(here.drop_last() =~= s@.subrange(from as int, to - 1));
        to = to - 1;
    }
    let ghost rest = s@.subrange(from as int, to as int);
    proof {
        if from < to {
            assert(rest[0] == s@[from as int]);
            assert(rest.last() == s@[to - 1]);
        }
        assert(trimmed(rest) == rest);
    }
    s.substring_char(from, to).to_owned()
}

/// What comes of a name typed for a clip, before the folder is looked at.
pub enum NameCheck {
    /// It cannot be the clip's name, for this reason.
    Refused(String),
    /// It is the clip's name already.
    Unchanged,
    /// It could be the clip's name.
    Candidate(String),
}

/// Whether a name leads out of its folder.
pub open spec fn has_separator(name: Seq<char>) -> bool {
    name.contains('/') || name.contains('\\')
}

/// Whether `check` is what comes of typing `typed` for the clip `current`.
pub open spec fn checked_name(current: Seq<char>, typed: Seq<char>, check: NameCheck) -> bool {
    let name = trimmed(typed);
    if name.len() == 0 {
        check matches NameCheck::Refused(why) && why@ == "The name cannot be empty."@
    } else if has_separator(name) {
        check matches NameCheck::Refused(why) && why@ == "The name cannot contain \\ or /."@
    } else if name == current {
        check is Unchanged
    } else if !names_a_video(name) {
        check matches NameCheck::Refused(why) && why@
            == "The name has to keep a video extension (mp4, mkv, mov, webm, avi, m4v)."@
    } else {
        check matches NameCheck::Candidate(n) && n@ == name
    }
}

fn contains_char(s: &str, c: char) -> (found: bool)
    ensures
        found == s@.contains(c),
{
    let n: usize = s.unicode_len();
    let mut i: usize = 0;
    while i < n
        invariant
            i <= n,
            n == s@.len(),
            forall|j: int| 0 <= j < i ==> s@[j] != c,
        decreases n - i,
    {
        if s.get_char(i) == c {
            assert(s@[i as int] == c);
            return true;
        }
        i = i + 1;
    }
    false
}

/// Check a name typed for the clip called `current`. A name, not a path: it
/// renames a clip where it lies. And a clip renamed out of the video extensions
/// would no longer be listed beside its siblings.
pub fn check_name(current: &str, typed: &str) -> (check: NameCheck)
    ensures
        checked_name(current@, typed@, check),
{
    let name: String = trim(typed);
    if name.as_str().unicode_len() == 0 {
        return NameCheck::Refused("The name cannot be empty.".to_owned());
    }
    if contains_char(name.as_str(), '/') || contains_char(name.as_str(), '\\') {
        return NameCheck::Refused("The name cannot contain \\ or /.".to_owned());
    }
    if same_text(name.as_str(), current) {
        return NameCheck::Unchanged;
    }
    if !is_video(name.as_str()) {
        return NameCheck::Refused(
            "The name has to keep a video extension (mp4, mkv, mov, webm, avi, m4v).".to_owned(),
        );
    }
    NameCheck::Candidate(name)
}

/// Whether two texts are the same.
pub fn same_text(a: &str, b: &str) -> (same: bool)
    ensures
        same == (a@ == b@),
{
    let n: usize = a.unicode_len();
    if n != b.unicode_len() {
        return false;
    }
    let mut i: usize = 0;
    while i < n
        invariant
            i <= n,
            n == a@.len(),
            n == b@.len(),
            forall|j: int| 0 <= j < i ==> a@[j] == b@[j],
        decreases n - i,
    {
        if a.get_char(i) != b.get_char(i) {
            return false;
        }
        i = i + 1;
    }
    assert(a@ =~= b@);
    true
}

/// `name` in quotes, followed by `rest`.
pub open spec fn quoted(before: Seq<char>, name: Seq<char>, rest: Seq<char>) -> Seq<char> {
    before + "\""@ + name + "\""@ + rest
}

/// `before`, then `name` in quotes, then `rest`.
pub fn quote(before: &str, name: &str, rest: &str) -> (s: String)
    ensures
        s@ == quoted(before@, name@, rest@),
{
    let mut s: String = before.to_owned();
    s.append("\"");
    s.append(name);
    s.append("\"");
    s.append(rest);
    s
}

/// What a name that is already in the folder is refused with.
pub fn taken_message(name: &str) -> (s: String)
    ensures
        s@ == quoted(Seq::empty(), name@, " is already in this folder."@),
{
    let s = quote("", name, " is already in this folder.");
    proof {
        reveal_strlit("");
        assert(""@ =~= Seq::<char>::empty());
    }
    s
}

/// Let a candidate name through unless it is taken: a rename overwrites its
/// destination without a word, so a name that belongs to another file, or to one
/// that cannot be told, is refused.
pub fn refuse_taken(
    name: &str,
    present: Option<bool>,
    candidate: &Option<Vec<u8>>,
    current: &Option<Vec<u8>>,
) -> (r: Result<(), String>)
    ensures
        match r {
            Ok(_) => present == Some(false) || same_file(*candidate, *current),
            Err(e) => present != Some(false) && !same_file(*candidate, *current) && e@ == quoted(
                Seq::empty(),
                name@,
                " is already in this folder."@,
            ),
        },
{
    if is_taken(present, candidate, current) {
        Err(taken_message(name))
    } else {
        Ok(())
    }
}

/// A clip keeps a recognized extension through any rename that is let through,
/// stays in its folder, and its new name has no white space around it.
pub proof fn a_candidate_is_still_a_clip_of_its_folder(
    current: Seq<char>,
    typed: Seq<char>,
    check: NameCheck,
)
    requires
        checked_name(current, typed, check),
        check is Candidate,
    ensures
        names_a_video(check->Candidate_0@),
        !has_separator(check->Candidate_0@),
        check->Candidate_0@ != current,
        check->Candidate_0@.len() > 0,
        !is_white(check->Candidate_0@[0]),
        !is_white(check->Candidate_0@.last()),
{
    lemma_trimmed_ends(typed);
}

proof fn lemma_trimmed_ends(s: Seq<char>)
    ensures
        trimmed(s).len() > 0 ==> !is_white(trimmed(s)[0]) && !is_white(trimmed(s).last()),
    decreases s.len(),
{
    if s.len() > 0 {
        if is_white(s[0]) {
            lemma_trimmed_ends(s.drop_first());
        } else if is_white(s.last()) {
            lemma_trimmed_ends(s.drop_last());
        }
    }
}

/// Changing only a name's extension leaves the name of its still unchanged.
pub proof fn a_new_extension_keeps_the_still(a: Seq<char>, b: Seq<char>)
    requires
        stem(a) == stem(b),
    ensures
        still_of(a) == still_of(b),
{
}

/// The still of a clip is never taken for a clip itself.
pub proof fn a_still_is_not_a_clip(name: Seq<char>)
    ensures
        !names_a_video(still_of(name)),
{
    reveal_strlit(".jpg");
    let s = still_of(name);
    let t = stem(name);
    lemma_dot_of_name(name);
    assert(s.len() == t.len() + 4);
    assert(s.last() == 'g');
    assert(s.drop_last().last() == 'p');
    assert(s.drop_last().drop_last().last() == 'j');
    assert(s.drop_last().drop_last().drop_last().last() == '.');
    reveal_with_fuel(last_dot, 5);
    assert(last_dot(s) == t.len());
    if extension(s) is Some {
        let e = extension(s)->0;
        assert(e =~= seq!['j', 'p', 'g']);
        assert forall|i: int| 0 <= i < video_exts().len() implies !same_but_case(
            e,
            #[trigger] video_exts()[i],
        ) by {
            reveal_strlit("mp4");
            reveal_strlit("mkv");
            reveal_strlit("mov");
            reveal_strlit("webm");
            reveal_strlit("avi");
            reveal_strlit("m4v");
            assert(lower(e[0]) == 'j');
            let v = video_exts()[i];
            assert(v.len() >= 3);
            assert(lower(v[0]) != 'j');
        }
    }
}

proof fn lemma_dot_of_name(s: Seq<char>)
    ensures
        -1 <= last_dot(s) < s.len(),
    decreases s.len(),
{
    if s.len() > 0 && s.last() != '.' {
        lemma_dot_of_name(s.drop_last());
    }
}

/// The last dot of a text is a dot with none behind it; a text without one has
/// no dot at all.
pub proof fn the_last_dot_has_none_behind_it(s: Seq<char>)
    ensures
        -1 <= last_dot(s) < s.len(),
        last_dot(s) >= 0 ==> s[last_dot(s)] == '.',
        forall|i: int| last_dot(s) < i < s.len() ==> #[trigger] s[i] != '.',
    decreases s.len(),
{
    if s.len() > 0 && s.last() != '.' {
        let t = s.drop_last();
        the_last_dot_has_none_behind_it(t);
        assert forall|i: int| last_dot(s) < i < s.len() implies #[trigger] s[i] != '.' by {
            if i < t.len() {
                assert(t[i] == s[i]);
            }
        }
    }
}

/// A name with an extension is its stem, a dot and the extension: the stem has
/// something in it, and the extension no dot. A name without one is all stem, and
/// has no dot but one that leads it, unless it is `..`.
pub proof fn a_name_is_its_stem_and_extension(name: Seq<char>)
    ensures
        match extension(name) {
            Some(e) => {
                &&& name == stem(name) + seq!['.'] + e
                &&& stem(name).len() > 0
                &&& !e.contains('.')
            },
            None => {
                &&& stem(name) == name
                &&& name == seq!['.', '.'] || forall|i: int|
                    1 <= i < name.len() ==> #[trigger] name[i] != '.'
            },
        },
{
    the_last_dot_has_none_behind_it(name);
    let d = last_dot(name);
    match extension(name) {
        Some(e) => {
            assert(name =~= stem(name) + seq!['.'] + e);
            if e.contains('.') {
                let i = choose|i: int| 0 <= i < e.len() && e[i] == '.';
                assert(name[d + 1 + i] == '.');
            }
        },
        None => {},
    }
}

/// Whatever a name is put together from comes apart again: behind a stem with
/// something in it, a dot and text without one are the extension.
pub proof fn a_stem_and_an_extension_come_apart_again(s: Seq<char>, e: Seq<char>)
    requires
        s.len() > 0,
        !e.contains('.'),
        s + seq!['.'] + e != seq!['.', '.'],
    ensures
        extension(s + seq!['.'] + e) == Some(e),
        stem(s + seq!['.'] + e) == s,
{
    let name = s + seq!['.'] + e;
    the_last_dot_has_none_behind_it(name);
    let d = last_dot(name);
    let n = s.len() as int;
    assert(name[n] == '.');
    if d > n {
        assert(e[d - n - 1] == '.');
        assert(e.contains('.'));
    }
    assert(d == n);
    assert(name.skip(n + 1) =~= e);
    assert(name.take(n) =~= s);
}

/// The still of a clip has the clip's own stem, all of it, and the extension of a
/// JPEG file.
pub proof fn a_still_keeps_the_stem_of_its_clip(name: Seq<char>)
    requires
        name.len() > 0,
    ensures
        stem(still_of(name)) == stem(name),
        extension(still_of(name)) == Some(seq!['j', 'p', 'g']),
{
    reveal_strlit(".jpg");
    let e = seq!['j', 'p', 'g'];
    a_name_is_its_stem_and_extension(name);
    let s = stem(name);
    assert(s + ".jpg"@ =~= s + seq!['.'] + e);
    assert((s + seq!['.'] + e).last() == 'g');
    assert(seq!['.', '.'].last() == '.');
    a_stem_and_an_extension_come_apart_again(s, e);
}

/// Two clips share a still only where their names differ in nothing but the
/// extension.
pub proof fn clips_share_a_still_only_by_their_stem(a: Seq<char>, b: Seq<char>)
    requires
        still_of(a) == still_of(b),
    ensures
        stem(a) == stem(b),
{
    reveal_strlit(".jpg");
    let (x, y) = (stem(a), stem(b));
    let s = still_of(a);
    assert(s.len() == x.len() + 4 && s.len() == y.len() + 4);
    assert(s.take(x.len() as int) =~= x);
    assert(s.take(x.len() as int) =~= y) by {
        assert(s == y + ".jpg"@);
    }
}

/// Case is a matter of ASCII letters alone: two characters are the same but for
/// it when they are equal, or the two cases of one letter.
pub proof fn case_is_a_matter_of_ascii_letters(c: char, d: char)
    ensures
        same_but_case(seq![c], seq![d]) <==> {
            ||| c == d
            ||| 'A' <= c && c <= 'Z' && d as u32 == c as u32 + 32
            ||| 'A' <= d && d <= 'Z' && c as u32 == d as u32 + 32
        },
{
    let (a, b) = (seq![c], seq![d]);
    if same_but_case(a, b) {
        assert(lower(a[0]) == lower(b[0]));
    }
    if lower(c) == lower(d) {
        assert forall|i: int| 0 <= i < a.len() implies lower(#[trigger] a[i]) == lower(b[i]) by {}
    }
}

/// Texts are the same but for case when their characters are, one by one.
pub proof fn texts_go_by_their_characters(a: Seq<char>, b: Seq<char>)
    ensures
        same_but_case(a, b) <==> a.len() == b.len() && forall|i: int|
            0 <= i < a.len() ==> same_but_case(seq![#[trigger] a[i]], seq![b[i]]),
{
    if same_but_case(a, b) {
        assert forall|i: int| 0 <= i < a.len() implies same_but_case(
            seq![#[trigger] a[i]],
            seq![b[i]],
        ) by {
            assert(lower(a[i]) == lower(b[i]));
        }
    }
    if a.len() == b.len() && forall|i: int|
        0 <= i < a.len() ==> same_but_case(seq![#[trigger] a[i]], seq![b[i]]) {
        assert forall|i: int| 0 <= i < a.len() implies lower(#[trigger] a[i]) == lower(b[i]) by {
            let (x, y) = (seq![a[i]], seq![b[i]]);
            assert(same_but_case(x, y));
            assert(lower(x[0]) == lower(y[0]));
        }
    }
}

/// A clip is any file with one of the six video extensions, in any case, behind
/// whatever stem.
pub proof fn a_video_extension_makes_a_clip(s: Seq<char>, e: Seq<char>)
    requires
        s.len() > 0,
        !e.contains('.'),
    ensures
        names_a_video(s + seq!['.'] + e) <==> {
            ||| same_but_case(e, seq!['m', 'p', '4'])
            ||| same_but_case(e, seq!['m', 'k', 'v'])
            ||| same_but_case(e, seq!['m', 'o', 'v'])
            ||| same_but_case(e, seq!['w', 'e', 'b', 'm'])
            ||| same_but_case(e, seq!['a', 'v', 'i'])
            ||| same_but_case(e, seq!['m', '4', 'v'])
        },
{
    let name = s + seq!['.'] + e;
    lemma_video_exts();
    let x = video_exts();
    if name == seq!['.', '.'] {
        assert(e.len() == 0) by {
            assert(name.len() == 2);
        }
        reveal_with_fuel(last_dot, 3);
        assert(extension(name) is None);
        assert forall|i: int| 0 <= i < x.len() implies !same_but_case(e, #[trigger] x[i]) by {}
        assert(!same_but_case(e, x[0]));
    } else {
        a_stem_and_an_extension_come_apart_again(s, e);
        if same_but_case(e, x[0]) || same_but_case(e, x[1]) || same_but_case(e, x[2])
            || same_but_case(e, x[3]) || same_but_case(e, x[4]) || same_but_case(e, x[5]) {
            assert(names_a_video(name));
        }
    }
}

/// A name without an extension is no clip.
pub proof fn a_clip_has_an_extension(name: Seq<char>)
    requires
        name == seq!['.', '.'] || forall|i: int| 1 <= i < name.len() ==> #[trigger] name[i] != '.',
    ensures
        !names_a_video(name),
{
    the_last_dot_has_none_behind_it(name);
}

proof fn lemma_video_exts()
    ensures
        video_exts() == seq![
            seq!['m', 'p', '4'],
            seq!['m', 'k', 'v'],
            seq!['m', 'o', 'v'],
            seq!['w', 'e', 'b', 'm'],
            seq!['a', 'v', 'i'],
            seq!['m', '4', 'v'],
        ],
{
    reveal_strlit("mp4");
    reveal_strlit("mkv");
    reveal_strlit("mov");
    reveal_strlit("webm");
    reveal_strlit("avi");
    reveal_strlit("m4v");
    assert("mp4"@ =~= seq!['m', 'p', '4']);
    assert("mkv"@ =~= seq!['m', 'k', 'v']);
    assert("mov"@ =~= seq!['m', 'o', 'v']);
    assert("webm"@ =~= seq!['w', 'e', 'b', 'm']);
    assert("avi"@ =~= seq!['a', 'v', 'i']);
    assert("m4v"@ =~= seq!['m', '4', 'v']);
}

/// White space is these twenty-five characters.
pub proof fn white_space_is_these_characters(c: char)
    ensures
        is_white(c) <==> set![
            0x9u32, 0xa, 0xb, 0xc, 0xd, 0x20, 0x85, 0xa0, 0x1680, 0x2000, 0x2001, 0x2002, 0x2003,
            0x2004, 0x2005, 0x2006, 0x2007, 0x2008, 0x2009, 0x200a, 0x2028, 0x2029, 0x202f, 0x205f,
            0x3000,
        ].contains(c as u32),
{
}

/// Whether a text is white space throughout.
pub open spec fn blank(s: Seq<char>) -> bool {
    forall|i: int| 0 <= i < s.len() ==> is_white(#[trigger] s[i])
}

/// Trimming takes the white space off both ends and nothing else, however much of
/// it there is: what stands between is kept, to the character.
pub proof fn trimming_keeps_what_stands_between(a: Seq<char>, n: Seq<char>, b: Seq<char>)
    requires
        blank(a),
        blank(b),
        n.len() > 0 ==> !is_white(n[0]) && !is_white(n.last()),
    ensures
        trimmed(a + n + b) == n,
    decreases a.len() + b.len(),
{
    let s = a + n + b;
    if a.len() > 0 {
        assert(s[0] == a[0]);
        assert(s.drop_first() =~= a.drop_first() + n + b);
        assert forall|i: int| 0 <= i < a.drop_first().len() implies is_white(
            #[trigger] a.drop_first()[i],
        ) by {
            assert(is_white(a[i + 1]));
        }
        trimming_keeps_what_stands_between(a.drop_first(), n, b);
    } else if n.len() > 0 {
        assert(s[0] == n[0]);
        if b.len() > 0 {
            assert(s.last() == b.last());
            assert(is_white(b[b.len() - 1]));
            assert(s.drop_last() =~= a + n + b.drop_last());
            assert forall|i: int| 0 <= i < b.drop_last().len() implies is_white(
                #[trigger] b.drop_last()[i],
            ) by {
                assert(is_white(b[i]));
            }
            trimming_keeps_what_stands_between(a, n, b.drop_last());
        } else {
            assert(s =~= n);
        }
    } else if b.len() > 0 {
        assert(s =~= b);
        assert(is_white(b[0]));
        assert(s.drop_first() =~= a + n + b.drop_first());
        assert forall|i: int| 0 <= i < b.drop_first().len() implies is_white(
            #[trigger] b.drop_first()[i],
        ) by {
            assert(is_white(b[i + 1]));
        }
        trimming_keeps_what_stands_between(a, n, b.drop_first());
    } else {
        assert(s =~= n);
    }
}

/// A name typed with any white space around it is let through when it names a
/// video in the clip's folder that is not the clip itself, and then to the
/// character; typing the clip's own name changes nothing; anything else is
/// refused.
pub proof fn a_typed_name_is_taken_as_it_stands(
    current: Seq<char>,
    a: Seq<char>,
    n: Seq<char>,
    b: Seq<char>,
    check: NameCheck,
)
    requires
        blank(a),
        blank(b),
        n.len() > 0 ==> !is_white(n[0]) && !is_white(n.last()),
        checked_name(current, a + n + b, check),
    ensures
        check is Candidate <==> n.len() > 0 && !n.contains('/') && !n.contains('\\') && n != current
            && names_a_video(n),
        check is Unchanged <==> n.len() > 0 && !n.contains('/') && !n.contains('\\') && n
            == current,
        check is Candidate ==> check->Candidate_0@ == n,
{
    trimming_keeps_what_stands_between(a, n, b);
}

/// Two paths are the same file when both could be resolved, to the same bytes.
pub proof fn only_resolved_paths_are_the_same_file(a: Vec<u8>, b: Vec<u8>)
    ensures
        same_file(Some(a), Some(b)) <==> a@ == b@,
        !same_file(None, Some(b)),
        !same_file(Some(a), None),
        !same_file(None, None),
{
}

/// What stands in quotes is the name, between one quote and the next.
pub proof fn a_quoted_name_stands_between_quotes(
    before: Seq<char>,
    name: Seq<char>,
    rest: Seq<char>,
)
    ensures
        ({
            let q = quoted(before, name, rest);
            let at = before.len() as int;
            &&& q.len() == before.len() + name.len() + rest.len() + 2
            &&& q.take(at) == before
            &&& q[at] == '"'
            &&& q.subrange(at + 1, at + 1 + name.len()) == name
            &&& q[at + 1 + name.len()] == '"'
            &&& q.skip(at + 2 + name.len()) == rest
        }),
{
    reveal_strlit("\"");
    let q = quoted(before, name, rest);
    let at = before.len() as int;
    assert(q.take(at) =~= before);
    assert(q.subrange(at + 1, at + 1 + name.len()) =~= name);
    assert(q.skip(at + 2 + name.len()) =~= rest);
}

/// A refused name is told why: that there is none, that it leads out of its
/// folder, or that it is no video's, in this order.
pub proof fn a_refused_name_is_told_why(
    current: Seq<char>,
    a: Seq<char>,
    n: Seq<char>,
    b: Seq<char>,
    check: NameCheck,
)
    requires
        blank(a),
        blank(b),
        n.len() > 0 ==> !is_white(n[0]) && !is_white(n.last()),
        checked_name(current, a + n + b, check),
        check is Refused,
    ensures
        n.len() == 0 ==> check->Refused_0@ == "The name cannot be empty."@,
        n.contains('/') || n.contains('\\') ==> check->Refused_0@
            == "The name cannot contain \\ or /."@,
        n.len() > 0 && !n.contains('/') && !n.contains('\\') ==> check->Refused_0@
            == "The name has to keep a video extension (mp4, mkv, mov, webm, avi, m4v)."@,
{
    trimming_keeps_what_stands_between(a, n, b);
}

} // verus!
