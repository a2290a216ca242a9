//! The log beside the executable: what its files are called, how they make way
//! for a new run, and what a line of it looks like.

use vstd::prelude::*;

use crate::text;

verus! {

/// How many previous runs are kept beside the current log, which makes twenty
/// runs in all.
pub const KEEP_PREVIOUS: usize = 19;

/// The name of the log `n` runs back; zero is the current one.
pub open spec fn log_name(n: nat) -> Seq<char> {
    if n == 0 {
        "footage_viewer.log"@
    } else {
        "footage_viewer."@ + text::decimal(n) + ".log"@
    }
}

/// The path of a file in a folder.
pub open spec fn joined(dir: Seq<char>, name: Seq<char>) -> Seq<char> {
    if dir.len() == 0 || dir.last() == '/' {
        dir + name
    } else {
        dir.push('/') + name
    }
}

/// Path of the log file `n` runs back in the folder `dir`.
pub fn log_path(dir: &str, n: usize) -> (path: String)
    ensures
        path@ == joined(dir@, log_name(n as nat)),
{
    let mut path: String = dir.to_owned();
    let len: usize = dir.unicode_len();
    if len > 0 && dir.get_char(len - 1) != '/' {
        path.push('/');
    }
    let ghost base = path@;
    if n == 0 {
        path.append("footage_viewer.log");
    } else {
        path.append("footage_viewer.");
        text::push_decimal(&mut path, n as u128);
        path.append(".log");
    }
    assert(path@ =~= base + log_name(n as nat));
    path
}

/// What a start does to the logs of earlier runs, in this order: drop the oldest
/// kept one, then move each of these to the number behind it.
pub fn rotation() -> (r: (usize, Vec<(usize, usize)>))
    ensures
        r.0 == KEEP_PREVIOUS,
        r.1.len() == KEEP_PREVIOUS,
        forall|i: int|
            0 <= i < r.1.len() ==> #[trigger] r.1@[i] == (
                (KEEP_PREVIOUS - 1 - i) as usize,
                (KEEP_PREVIOUS - i) as usize,
            ),
{
    let mut moves: Vec<(usize, usize)> = Vec::new();
    let mut n: usize = KEEP_PREVIOUS;
    while n > 0
        invariant
            n <= KEEP_PREVIOUS,
            moves.len() == KEEP_PREVIOUS - n,
            forall|i: int|
                0 <= i < moves.len() ==> #[trigger] moves@[i] == (
                    (KEEP_PREVIOUS - 1 - i) as usize,
                    (KEEP_PREVIOUS - i) as usize,
                ),
        decreases n,
    {
        n = n - 1;
        moves.push((n, n + 1));
    }
    (KEEP_PREVIOUS, moves)
}

/// The logs by number, once the file numbered `from` has been moved to `to`;
/// where there is no such file nothing happens.
pub open spec fn moved<C>(logs: Map<int, C>, from: int, to: int) -> Map<int, C> {
    if logs.contains_key(from) {
        logs.insert(to, logs[from]).remove(from)
    } else {
        logs
    }
}

/// The logs by number, once the first `k` moves of a rotation have been made.
pub open spec fn rotated<C>(logs: Map<int, C>, k: nat) -> Map<int, C>
    decreases k,
{
    if k == 0 {
        logs.remove(KEEP_PREVIOUS as int)
    } else {
        moved(rotated(logs, (k - 1) as nat), KEEP_PREVIOUS - k, KEEP_PREVIOUS - k + 1)
    }
}

/// A rotation shifts every log up by one: the current log's place is free, each
/// earlier run is kept under the next number, the oldest is gone, and nothing
/// else is touched.
pub proof fn a_rotation_shifts_every_run_up<C>(logs: Map<int, C>, n: int)
    ensures
        ({
            let after = rotated(logs, KEEP_PREVIOUS as nat);
            &&& !after.contains_key(0)
            &&& 0 <= n < KEEP_PREVIOUS ==> (after.contains_key(n + 1) <==> logs.contains_key(n))
            &&& 0 <= n < KEEP_PREVIOUS && logs.contains_key(n) ==> after[n + 1] == logs[n]
            &&& (n < 0 || n > KEEP_PREVIOUS) ==> (after.contains_key(n) <==> logs.contains_key(n))
            &&& (n < 0 || n > KEEP_PREVIOUS) && logs.contains_key(n) ==> after[n] == logs[n]
        }),
{
    lemma_rotated(logs, KEEP_PREVIOUS as nat);
}

proof fn lemma_rotated<C>(logs: Map<int, C>, k: nat)
    requires
        k <= KEEP_PREVIOUS,
    ensures
        ({
            let after = rotated(logs, k);
            let hole = KEEP_PREVIOUS - k;
            &&& !after.contains_key(hole)
            &&& forall|n: int|
                #![trigger after.contains_key(n)]
                #![trigger after[n]]
                hole < n <= KEEP_PREVIOUS ==> (after.contains_key(n) <==> logs.contains_key(
                    n - 1,
                )) && (after.contains_key(n) ==> after[n] == logs[n - 1])
            &&& forall|n: int|
                #![trigger after.contains_key(n)]
                #![trigger after[n]]
                n < hole || n > KEEP_PREVIOUS ==> (after.contains_key(n) <==> logs.contains_key(n))
                    && (after.contains_key(n) ==> after[n] == logs[n])
        }),
    decreases k,
{
    if k > 0 {
        lemma_rotated(logs, (k - 1) as nat);
    }
}

/// `level` filled up with spaces to five characters.
pub open spec fn level_column(level: Seq<char>) -> Seq<char> {
    level + Seq::new(
        if level.len() >= 5 {
            0
        } else {
            (5 - level.len()) as nat
        },
        |i: int| ' ',
    )
}

/// A line of the log: when, how severe, where from, and what.
pub open spec fn line_text(
    ts: Seq<char>,
    level: Seq<char>,
    target: Seq<char>,
    message: Seq<char>,
) -> Seq<char> {
    ts + " "@ + level_column(level) + " ["@ + target + "] "@ + message + "\n"@
}

/// One line of the log.
pub fn log_line(ts: &str, level: &str, target: &str, message: &str) -> (line: String)
    ensures
        line@ == line_text(ts@, level@, target@, message@),
{
    let mut line: String = ts.to_owned();
    line.append(" ");
    let ghost before = line@;
    line.append(level);
    let mut n: usize = level.unicode_len();
    let ghost len = n as int;
    assert(line@ =~= before + (level@ + Seq::new((n - len) as nat, |i: int| ' ')));
    while n < 5
        invariant
            len <= n,
            len == level@.len(),
            n <= 5 || n == len,
            line@ == before + (level@ + Seq::new((n - len) as nat, |i: int| ' ')),
        decreases 5 - n,
    {
        line.push(' ');
        n = n + 1;
        assert(line@ =~= before + (level@ + Seq::new((n - len) as nat, |i: int| ' ')));
    }
    assert(line@ =~= before + level_column(level@));
    line.append(" [");
    line.append(target);
    line.append("] ");
    line.append(message);
    line.append("\n");
    line
}

/// The current log has no number, and every earlier one is named by how many runs
/// it is back, so that no two runs share a name.
pub proof fn a_log_is_named_by_its_run(n: nat, m: nat)
    ensures
        log_name(0) == "footage_viewer.log"@,
        n > 0 ==> ({
            let s = log_name(n);
            &&& s.len() > 19
            &&& s.take(15) == "footage_viewer."@
            &&& s.skip(s.len() - 4) == ".log"@
            &&& text::all_digits(s.subrange(15, s.len() - 4))
            &&& text::read_digits(s.subrange(15, s.len() - 4)) == n
        }),
        log_name(n) == log_name(m) ==> n == m,
{
    lemma_log_name(n);
    lemma_log_name(m);
}

proof fn lemma_log_name(n: nat)
    ensures
        log_name(0).len() == 18,
        n > 0 ==> ({
            let s = log_name(n);
            &&& s.len() > 19
            &&& s.take(15) == "footage_viewer."@
            &&& s.skip(s.len() - 4) == ".log"@
            &&& text::all_digits(s.subrange(15, s.len() - 4))
            &&& text::read_digits(s.subrange(15, s.len() - 4)) == n
        }),
{
    reveal_strlit("footage_viewer.log");
    if n > 0 {
        reveal_strlit("footage_viewer.");
        reveal_strlit(".log");
        text::a_decimal_reads_back(n);
        let s = log_name(n);
        assert(s.take(15) =~= "footage_viewer."@);
        assert(s.skip(s.len() - 4) =~= ".log"@);
        assert(s.subrange(15, s.len() - 4) =~= text::decimal(n));
    }
}

/// The path of a file in a folder is the folder, one separator unless the folder
/// brings its own or is empty, and the name.
pub proof fn a_path_is_a_folder_and_a_name(dir: Seq<char>, name: Seq<char>)
    ensures
        joined(Seq::empty(), name) == name,
        joined(dir.push('/'), name) == dir + seq!['/'] + name,
        dir.len() > 0 && dir.last() != '/' ==> joined(dir, name) == dir + seq!['/'] + name,
{
    assert(joined(Seq::empty(), name) =~= name);
    assert(dir.push('/') + name =~= dir + seq!['/'] + name);
}

/// A line of the log holds when, how severe, where from and what, in this order,
/// with the severity in a column of five characters, and ends the line.
pub proof fn a_log_line_holds_its_four_parts(
    ts: Seq<char>,
    level: Seq<char>,
    target: Seq<char>,
    message: Seq<char>,
)
    ensures
        ({
            let s = line_text(ts, level, target, message);
            let a = ts.len() as int;
            let wide: int = if level.len() >= 5 {
                level.len() as int
            } else {
                5
            };
            let b = a + 1 + wide;
            let c = b + 2 + target.len();
            &&& s.take(a) == ts
            &&& s[a] == ' '
            &&& s.subrange(a + 1, a + 1 + level.len()) == level
            &&& forall|i: int| a + 1 + level.len() <= i < b ==> #[trigger] s[i] == ' '
            &&& s[b] == ' ' && s[b + 1] == '['
            &&& s.subrange(b + 2, c) == target
            &&& s[c] == ']' && s[c + 1] == ' '
            &&& s.subrange(c + 2, s.len() - 1) == message
            &&& s.len() == c + 3 + message.len()
            &&& s.last() == '\n'
        }),
{
    reveal_strlit(" ");
    reveal_strlit(" [");
    reveal_strlit("] ");
    reveal_strlit("\n");
    let s = line_text(ts, level, target, message);
    let a = ts.len() as int;
    let wide = level_column(level).len() as int;
    let b = a + 1 + wide;
    let c = b + 2 + target.len();
    assert(s.take(a) =~= ts);
    assert(s.subrange(a + 1, a + 1 + level.len()) =~= level);
    assert forall|i: int| a + 1 + level.len() <= i < b implies #[trigger] s[i] == ' ' by {
        assert(s[i] == level_column(level)[i - a - 1]);
    }
    assert(s.subrange(b + 2, c) =~= target);
    assert(s.subrange(c + 2, s.len() - 1) =~= message);
}

} // verus!
