//! Memory report formatting: byte counts written as megabytes or
//! kilobytes with one decimal, as the memory monitor logs them.

use vstd::prelude::*;

use crate::text::{
    chars_of, decimal_text, digit_char, lemma_split_on_extends, parse_unsigned,
    parse_unsigned_chars, push_chars, push_str, push_u64_text, skip_spaces, slice_chars, split_on,
    str_equals, string_from_chars, trim_start, word_end, word_len,
};

verus! {

/// `q` rounded by the remainder `r` of a division by `unit`: up above one
/// half, to an even `q` at exactly one half.
pub open spec fn round_half_even(q: nat, r: nat, unit: nat) -> nat {
    if 2 * r > unit || (2 * r == unit && q % 2 == 1) {
        q + 1
    } else {
        q
    }
}

pub open spec fn f64_mantissa_limit() -> nat {
    0x20_0000_0000_0000
}

/// The spacing of `f64` values around `n`: the least power of two `unit`
/// (starting from `unit`) for which `n / unit` has at most 53 bits.
pub open spec fn f64_spacing(n: nat, unit: nat) -> nat
    decreases n / unit,
    when unit > 0
{
    if n / unit < f64_mantissa_limit() {
        unit
    } else {
        proof {
            assert(n / (2 * unit) < n / unit) by (nonlinear_arith)
                requires
                    unit > 0,
                    n / unit >= 0x20_0000_0000_0000,
            {
                assert(n / (2 * unit) == (n / unit) / 2) by {
                    vstd::arithmetic::div_mod::lemma_div_denominator(n as int, unit as int, 2);
                }
            }
        }
        f64_spacing(n, 2 * unit)
    }
}

/// The value of `n as f64`: `n` rounded to 53 significant bits, ties to even.
pub open spec fn as_f64_value(n: nat) -> nat {
    let unit = f64_spacing(n, 1);
    round_half_even(n / unit, n % unit, unit) * unit
}

/// Tenths of `n / denom`, rounded half to even (how `{:.1}` writes the
/// exact quotient).
pub open spec fn tenths(n: nat, denom: nat) -> nat {
    round_half_even((10 * n) / denom, (10 * n) % denom, denom)
}

/// `{:.1}` of a number of tenths: integer part, `.`, one digit.
pub open spec fn one_decimal(t: nat) -> Seq<char> {
    decimal_text(t / 10) + seq!['.', digit_char(t % 10)]
}

/// `fmt_bytes` of a byte count: megabytes at or above one MiB, kilobytes
/// below, one decimal.
pub open spec fn bytes_text(b: nat) -> Seq<char> {
    if b >= 1048576 {
        one_decimal(tenths(as_f64_value(b), 1048576)) + " MB"@
    } else {
        one_decimal(tenths(b, 1024)) + " KB"@
    }
}

fn rounded_as_f64(n: u64) -> (res: u128)
    ensures
        res == as_f64_value(n as nat),
        res < 0x2_0000_0000_0000_0000,
{
    let mut unit: u64 = 1;
    while n / unit >= 0x20_0000_0000_0000
        invariant
            unit > 0,
            unit < 0x1000,
            f64_spacing(n as nat, 1) == f64_spacing(n as nat, unit as nat),
        decreases n / unit,
    {
        proof {
            assert(unit * 0x20_0000_0000_0000 <= n) by (nonlinear_arith)
                requires
                    unit > 0,
                    n / unit >= 0x20_0000_0000_0000,
            {
                vstd::arithmetic::div_mod::lemma_fundamental_div_mod(n as int, unit as int);
            }
            assert(unit < 0x800) by (nonlinear_arith)
                requires
                    unit * 0x20_0000_0000_0000 <= n,
                    n < 0x1_0000_0000_0000_0000,
            {
            }
            let nn = n as int;
            let uu = unit as int;
            assert(nn / (2 * uu) == (nn / uu) / 2) by {
                vstd::arithmetic::div_mod::lemma_div_denominator(nn, uu, 2);
            }
            assert(nn / (2 * uu) < nn / uu);
        }
        unit = unit * 2;
    }
    let q = n / unit;
    let r = n % unit;
    let rq: u64 = if 2 * (r as u128) > unit as u128 || (2 * (r as u128) == unit as u128 && q % 2
        == 1) {
        q + 1
    } else {
        q
    };
    proof {
        assert(rq <= 0x20_0000_0000_0000);
        assert((rq as nat) * (unit as nat) < 0x2_0000_0000_0000_0000) by (nonlinear_arith)
            requires
                rq <= 0x20_0000_0000_0000,
                unit < 0x1000,
        {
        }
    }
    (rq as u128) * (unit as u128)
}

fn push_one_decimal(s: &mut String, t: u64)
    ensures
        final(s)@ == old(s)@ + one_decimal(t as nat),
{
    let ghost start = s@;
    push_u64_text(s, t / 10);
    let d = ((t % 10) as u8 + 48u8) as char;
    push_chars(s, &['.', d]);
    proof {
        assert(s@ =~= start + one_decimal(t as nat));
    }
}

/// A byte count for the memory report: `{:.1} MB` at or above one MiB,
/// `{:.1} KB` below (the quotient of the count, as a 64-bit float, rounded
/// to one decimal).
pub fn fmt_bytes(b: usize) -> (res: String)
    ensures
        res@ == bytes_text(b as nat),
{
    let mut s = String::new();
    if b >= 1048576 {
        let v = rounded_as_f64(b as u64);
        let num: u128 = 10 * v;
        let q = num / 1048576;
        let r = num % 1048576;
        let t: u128 = if 2 * r > 1048576 || (2 * r == 1048576 && q % 2 == 1) {
            q + 1
        } else {
            q
        };
        proof {
            assert(q <= 0x2_0000_0000_0000);
        }
        push_one_decimal(&mut s, t as u64);
        push_str(&mut s, " MB");
    } else {
        let num: u64 = 10 * b as u64;
        let q = num / 1024;
        let r = num % 1024;
        let t: u64 = if 2 * r > 1024 || (2 * r == 1024 && q % 2 == 1) {
            q + 1
        } else {
            q
        };
        push_one_decimal(&mut s, t);
        push_str(&mut s, " KB");
    }
    proof {
        assert(s@ =~= bytes_text(b as nat));
    }
    s
}


// ---------------------------------------------------------------------
// Process status
// ---------------------------------------------------------------------

/// Memory figures of the process, in bytes, as `/proc/self/status` gives
/// them (there in kB).
#[derive(Debug)]
pub struct ProcMemInfo {
    pub vm_rss: usize,
    pub vm_hwm: usize,
    pub vm_size: usize,
    pub rss_anon: usize,
    pub rss_file: usize,
    pub rss_shmem: usize,
}

impl ProcMemInfo {
    /// The six figures in the order `VmRSS`, `VmHWM`, `VmSize`, `RssAnon`,
    /// `RssFile`, `RssShmem`.
    pub open spec fn fields(&self) -> Seq<int> {
        seq![
            self.vm_rss as int,
            self.vm_hwm as int,
            self.vm_size as int,
            self.rss_anon as int,
            self.rss_file as int,
            self.rss_shmem as int,
        ]
    }
}

/// `str::lines` as far as the words of each line go: pieces between `\n`,
/// the empty piece after a final `\n` left out (a `\r` before a `\n` stays
/// in its line, where it is whitespace and changes no word).
pub open spec fn status_lines(s: Seq<char>) -> Seq<Seq<char>> {
    if s.len() == 0 {
        Seq::empty()
    } else if s.last() == '\n' {
        split_on(s, '\n').drop_last()
    } else {
        split_on(s, '\n')
    }
}

/// The first whitespace-separated word of a line, if it has one.
pub open spec fn line_key(line: Seq<char>) -> Option<Seq<char>> {
    let t = trim_start(line);
    if t.len() == 0 {
        None
    } else {
        Some(t.take(word_len(t) as int))
    }
}

/// The second word of a line read as a `usize`; 0 when it is missing or
/// is not such a number.
pub open spec fn line_number(line: Seq<char>) -> nat {
    let t = trim_start(line);
    let rest = trim_start(t.skip(word_len(t) as int));
    if rest.len() == 0 {
        0
    } else {
        match parse_unsigned(rest.take(word_len(rest) as int), usize::MAX as nat) {
            Some(n) => n,
            None => 0,
        }
    }
}

/// Which figure a key sets.
pub open spec fn field_slot(key: Seq<char>) -> Option<int> {
    if key == "VmRSS:"@ {
        Some(0)
    } else if key == "VmHWM:"@ {
        Some(1)
    } else if key == "VmSize:"@ {
        Some(2)
    } else if key == "RssAnon:"@ {
        Some(3)
    } else if key == "RssFile:"@ {
        Some(4)
    } else if key == "RssShmem:"@ {
        Some(5)
    } else {
        None
    }
}

/// The figures after reading `lines` in order (all 0 at first, the last
/// line of a key winning); `None` as soon as a line has no word at all.
pub open spec fn status_fields(lines: Seq<Seq<char>>) -> Option<Seq<int>>
    decreases lines.len(),
{
    if lines.len() == 0 {
        Some(seq![0int, 0, 0, 0, 0, 0])
    } else {
        match status_fields(lines.drop_last()) {
            None => None,
            Some(f) => match line_key(lines.last()) {
                None => None,
                Some(k) => match field_slot(k) {
                    Some(j) => Some(f.update(j, (line_number(lines.last()) * 1024) as int)),
                    None => Some(f),
                },
            },
        }
    }
}

/// Every line that is read (up to the first line without a word) has a
/// number whose byte count, `1024` times it, fits in a `usize`.
pub open spec fn status_overflow_free(lines: Seq<Seq<char>>) -> bool
    decreases lines.len(),
{
    if lines.len() == 0 {
        true
    } else {
        status_overflow_free(lines.drop_last()) && (status_fields(lines.drop_last()) is Some
            && line_key(lines.last()) is Some ==> line_number(lines.last()) * 1024
            <= usize::MAX)
    }
}

pub proof fn lemma_status_prefix(lines: Seq<Seq<char>>, k: int)
    requires
        0 <= k <= lines.len(),
    ensures
        status_overflow_free(lines) ==> status_overflow_free(lines.take(k)),
        status_fields(lines.take(k)) is None ==> status_fields(lines) is None,
    decreases lines.len(),
{
    if k == lines.len() {
        assert(lines.take(k) =~= lines);
    } else {
        lemma_status_prefix(lines.drop_last(), k);
        assert(lines.drop_last().take(k) =~= lines.take(k));
    }
}

/// Key and number of the line `cs[from..to]`; `None` when it has no word.
fn read_status_line(cs: &[char], from: usize, to: usize) -> (res: Option<(String, u64)>)
    requires
        from <= to <= cs@.len(),
    ensures
        match res {
            None => line_key(cs@.subrange(from as int, to as int)) is None,
            Some((k, v)) => line_key(cs@.subrange(from as int, to as int)) == Some(k@) && v
                == line_number(cs@.subrange(from as int, to as int)),
        },
{
    let ghost line = cs@.subrange(from as int, to as int);
    let a = skip_spaces(cs, from, to);
    if a == to {
        return None;
    }
    let b = word_end(cs, a, to);
    let key = slice_chars(cs, a, b);
    let c = skip_spaces(cs, b, to);
    proof {
        let t = trim_start(line);
        assert(t == cs@.subrange(a as int, to as int));
        assert(t.take(word_len(t) as int) =~= cs@.subrange(a as int, b as int));
        assert(t.skip(word_len(t) as int) =~= cs@.subrange(b as int, to as int));
    }
    let v: u64 = if c == to {
        0
    } else {
        let d = word_end(cs, c, to);
        let w = slice_chars(cs, c, d);
        proof {
            let rest = cs@.subrange(c as int, to as int);
            assert(rest.take(word_len(rest) as int) =~= cs@.subrange(c as int, d as int));
        }
        match parse_unsigned_chars(&w, usize::MAX as u64) {
            Some(n) => n,
            None => 0,
        }
    };
    Some((string_from_chars(key.as_slice()), v))
}

/// Which figure a key sets, as an index.
fn slot_of(key: &str) -> (res: Option<usize>)
    ensures
        match res {
            Some(j) => field_slot(key@) == Some(j as int),
            None => field_slot(key@) is None,
        },
{
    if str_equals(key, "VmRSS:") {
        Some(0)
    } else if str_equals(key, "VmHWM:") {
        Some(1)
    } else if str_equals(key, "VmSize:") {
        Some(2)
    } else if str_equals(key, "RssAnon:") {
        Some(3)
    } else if str_equals(key, "RssFile:") {
        Some(4)
    } else if str_equals(key, "RssShmem:") {
        Some(5)
    } else {
        None
    }
}

/// What reading one line does.
enum LineStep {
    /// The line has no word: reading stops.
    Stop,
    /// The line's byte count does not fit in a `usize`.
    Overflow,
    /// The line was applied to the figures.
    Applied,
}

pub proof fn lemma_stopped_stays_free(lines: Seq<Seq<char>>, k: int)
    requires
        0 <= k <= lines.len(),
        status_fields(lines.take(k)) is None,
        status_overflow_free(lines.take(k)),
    ensures
        status_overflow_free(lines),
    decreases lines.len(),
{
    if k == lines.len() {
        assert(lines.take(k) =~= lines);
    } else {
        assert(lines.drop_last().take(k) =~= lines.take(k));
        lemma_stopped_stays_free(lines.drop_last(), k);
        lemma_status_prefix(lines.drop_last(), k);
    }
}

/// Applies the line `cs[from..to]` to the figures read so far (from the
/// lines `done`).
fn apply_status_line(
    vals: &mut Vec<usize>,
    cs: &[char],
    from: usize,
    to: usize,
    Ghost(done): Ghost<Seq<Seq<char>>>,
) -> (res: LineStep)
    requires
        from <= to <= cs@.len(),
        old(vals)@.len() == 6,
        status_fields(done) == Some(old(vals)@.map_values(|v: usize| v as int)),
        status_overflow_free(done),
    ensures
        final(vals)@.len() == 6,
        ({
            let all = done.push(cs@.subrange(from as int, to as int));
            match res {
                LineStep::Stop => status_fields(all) is None && status_overflow_free(all),
                LineStep::Overflow => !status_overflow_free(all),
                LineStep::Applied => status_overflow_free(all) && status_fields(all) == Some(
                    final(vals)@.map_values(|v: usize| v as int),
                ),
            }
        }),
{
    let ghost line = cs@.subrange(from as int, to as int);
    let ghost all = done.push(line);
    proof {
        assert(all.drop_last() =~= done);
        assert(all.last() == line);
    }
    match read_status_line(cs, from, to) {
        None => LineStep::Stop,
        Some((key, v)) => {
            if v > (usize::MAX / 1024) as u64 {
                return LineStep::Overflow;
            }
            match slot_of(key.as_str()) {
                Some(j) => {
                    let bytes: usize = (v as usize) * 1024;
                    let ghost before = vals@.map_values(|v: usize| v as int);
                    vals.set(j, bytes);
                    proof {
                        assert(vals@.map_values(|v: usize| v as int) =~= before.update(
                            j as int,
                            (line_number(line) * 1024) as int,
                        ));
                    }
                },
                None => {},
            }
            LineStep::Applied
        },
    }
}

/// Reads `content` line by line: the figures (or `None` when a line has
/// no word), and whether a byte count overflowed on the way.
fn scan_proc_status(content: &str) -> (res: (Option<Vec<usize>>, bool))
    ensures
        res.1 == !status_overflow_free(status_lines(content@)),
        !res.1 ==> match res.0 {
            Some(v) => v@.len() == 6 && status_fields(status_lines(content@)) == Some(
                v@.map_values(|x: usize| x as int),
            ),
            None => status_fields(status_lines(content@)) is None,
        },
{
    let cs = chars_of(content);
    let ghost lines = status_lines(cs@);
    let mut vals: Vec<usize> = vec![0, 0, 0, 0, 0, 0];
    let ghost mut done: Seq<Seq<char>> = Seq::empty();
    let mut ls: usize = 0;
    let mut i: usize = 0;
    proof {
        assert(vals@.map_values(|v: usize| v as int) =~= seq![0int, 0, 0, 0, 0, 0]);
        assert(cs@.take(0) =~= Seq::<char>::empty());
        assert(split_on(Seq::<char>::empty(), '\n') =~= done.push(cs@.subrange(0, 0)));
        assert(lines.take(0) =~= done);
    }
    while i < cs.len()
        invariant
            ls <= i <= cs@.len(),
            cs@ == content@,
            lines == status_lines(cs@),
            vals@.len() == 6,
            split_on(cs@.take(i as int), '\n') == done.push(cs@.subrange(ls as int, i as int)),
            done.len() <= lines.len(),
            done == lines.take(done.len() as int),
            status_fields(done) == Some(vals@.map_values(|v: usize| v as int)),
            status_overflow_free(done),
            ls == 0 || cs@[ls - 1] == '\n',
            forall|j: int| ls <= j < i ==> cs@[j] != '\n',
        decreases cs@.len() - i,
    {
        let c = cs[i];
        proof {
            assert(cs@.take(i + 1).drop_last() =~= cs@.take(i as int));
            assert(cs@.take(i + 1).last() == c);
        }
        if c == '\n' {
            let ghost piece = cs@.subrange(ls as int, i as int);
            let ghost k = done.len() as int;
            proof {
                lemma_split_on_extends(cs@, i as int, '\n');
                let before = split_on(cs@.take(i + 1), '\n');
                assert(before == done.push(piece).push(Seq::<char>::empty()));
                assert(before[k] == piece);
                assert(split_on(cs@, '\n')[k] == piece);
                assert(lines[k] == piece);
                assert(lines.take(k + 1) =~= done.push(piece));
            }
            match apply_status_line(&mut vals, cs.as_slice(), ls, i, Ghost(done)) {
                LineStep::Stop => {
                    proof {
                        lemma_status_prefix(lines, k + 1);
                        lemma_stopped_stays_free(lines, k + 1);
                    }
                    return (None, false);
                },
                LineStep::Overflow => {
                    proof {
                        lemma_status_prefix(lines, k + 1);
                    }
                    return (None, true);
                },
                LineStep::Applied => {},
            }
            proof {
                done = done.push(piece);
                assert(cs@.subrange(i + 1, i + 1) =~= Seq::<char>::empty());
            }
            ls = i + 1;
        } else {
            proof {
                let rest = done.push(cs@.subrange(ls as int, i as int));
                assert(cs@.subrange(ls as int, i + 1) =~= cs@.subrange(ls as int, i as int).push(c));
                assert(rest.update(rest.len() - 1, rest.last().push(c)) =~= done.push(
                    cs@.subrange(ls as int, i + 1),
                ));
            }
        }
        i = i + 1;
    }
    proof {
        assert(cs@.take(i as int) =~= cs@);
    }
    if ls < cs.len() {
        let ghost piece = cs@.subrange(ls as int, i as int);
        proof {
            assert(cs@.last() != '\n') by {
                assert(cs@[cs@.len() - 1] != '\n');
            }
            assert(lines == done.push(piece));
        }
        match apply_status_line(&mut vals, cs.as_slice(), ls, i, Ghost(done)) {
            LineStep::Stop => return (None, false),
            LineStep::Overflow => return (None, true),
            LineStep::Applied => {},
        }
    } else {
        proof {
            if cs@.len() > 0 {
                assert(cs@.last() == '\n');
                assert(cs@.subrange(ls as int, i as int) =~= Seq::<char>::empty());
            }
            assert(lines =~= done);
        }
    }
    (Some(vals), false)
}

/// Whether every size read from `content` (up to the first line without
/// a word) fits in a `usize` once converted to bytes; the figures can be
/// read only then.
pub fn proc_status_fits(content: &str) -> (res: bool)
    ensures
        res == status_overflow_free(status_lines(content@)),
{
    let (_, overflow) = scan_proc_status(content);
    !overflow
}

/// Reads the memory figures from the text of `/proc/self/status`: for
/// each line, the first word names a figure (`VmRSS:`, `VmHWM:`,
/// `VmSize:`, `RssAnon:`, `RssFile:`, `RssShmem:`, others are ignored) and
/// the second word is its size in kB (0 when unreadable), stored in bytes.
/// `None` when a line has no word at all.
pub fn parse_proc_status(content: &str) -> (res: Option<ProcMemInfo>)
    requires
        status_overflow_free(status_lines(content@)),
    ensures
        match res {
            Some(info) => status_fields(status_lines(content@)) == Some(info.fields()),
            None => status_fields(status_lines(content@)) is None,
        },
{
    let (vals, _) = scan_proc_status(content);
    match vals {
        None => None,
        Some(v) => {
            let info = ProcMemInfo {
                vm_rss: v[0],
                vm_hwm: v[1],
                vm_size: v[2],
                rss_anon: v[3],
                rss_file: v[4],
                rss_shmem: v[5],
            };
            proof {
                assert(info.fields() =~= v@.map_values(|x: usize| x as int));
            }
            Some(info)
        },
    }
}

// ---------------------------------------------------------------------
// Memory report
// ---------------------------------------------------------------------

/// Allocator figures, in bytes.
#[derive(Debug)]
pub struct JemallocStats {
    /// Bytes currently allocated by the application.
    pub allocated: usize,
    /// Bytes in active pages (allocated plus internal fragmentation).
    pub active: usize,
    /// Bytes of allocator metadata.
    pub metadata: usize,
    /// Bytes of resident pages mapped by the allocator.
    pub resident: usize,
    /// Bytes mapped by the allocator.
    pub mapped: usize,
    /// Bytes retained (virtual, not yet returned to the system).
    pub retained: usize,
}

/// The allocator part of the report; `frag` is the fragmentation
/// percentage, already written with one decimal.
pub open spec fn jemalloc_text(je: JemallocStats, frag: Seq<char>) -> Seq<char> {
    "jemalloc [ allocated: "@ + bytes_text(je.allocated as nat) + " | active: "@ + bytes_text(
        je.active as nat,
    ) + " | metadata: "@ + bytes_text(je.metadata as nat) + " | resident: "@ + bytes_text(
        je.resident as nat,
    ) + " | mapped: "@ + bytes_text(je.mapped as nat) + " | retained: "@ + bytes_text(
        je.retained as nat,
    ) + " | frag: "@ + frag + "% ]"@
}

/// The system part of the report.
pub open spec fn os_text(pm: ProcMemInfo) -> Seq<char> {
    "OS [ RSS: "@ + bytes_text(pm.vm_rss as nat) + " (anon: "@ + bytes_text(pm.rss_anon as nat)
        + " + file: "@ + bytes_text(pm.rss_file as nat) + " + shmem: "@ + bytes_text(
        pm.rss_shmem as nat,
    ) + ") | HWM: "@ + bytes_text(pm.vm_hwm as nat) + " | VMSize: "@ + bytes_text(
        pm.vm_size as nat,
    ) + " ]"@
}

/// The allocator part of the memory report.
pub fn jemalloc_line(je: &JemallocStats, frag: &str) -> (res: String)
    ensures
        res@ == jemalloc_text(*je, frag@),
{
    let mut s = String::new();
    push_str(&mut s, "jemalloc [ allocated: ");
    push_str(&mut s, fmt_bytes(je.allocated).as_str());
    push_str(&mut s, " | active: ");
    push_str(&mut s, fmt_bytes(je.active).as_str());
    push_str(&mut s, " | metadata: ");
    push_str(&mut s, fmt_bytes(je.metadata).as_str());
    push_str(&mut s, " | resident: ");
    push_str(&mut s, fmt_bytes(je.resident).as_str());
    push_str(&mut s, " | mapped: ");
    push_str(&mut s, fmt_bytes(je.mapped).as_str());
    push_str(&mut s, " | retained: ");
    push_str(&mut s, fmt_bytes(je.retained).as_str());
    push_str(&mut s, " | frag: ");
    push_str(&mut s, frag);
    push_str(&mut s, "% ]");
    proof {
        assert(s@ =~= jemalloc_text(*je, frag@));
    }
    s
}

/// The system part of the memory report.
pub fn os_memory_line(pm: &ProcMemInfo) -> (res: String)
    ensures
        res@ == os_text(*pm),
{
    let mut s = String::new();
    push_str(&mut s, "OS [ RSS: ");
    push_str(&mut s, fmt_bytes(pm.vm_rss).as_str());
    push_str(&mut s, " (anon: ");
    push_str(&mut s, fmt_bytes(pm.rss_anon).as_str());
    push_str(&mut s, " + file: ");
    push_str(&mut s, fmt_bytes(pm.rss_file).as_str());
    push_str(&mut s, " + shmem: ");
    push_str(&mut s, fmt_bytes(pm.rss_shmem).as_str());
    push_str(&mut s, ") | HWM: ");
    push_str(&mut s, fmt_bytes(pm.vm_hwm).as_str());
    push_str(&mut s, " | VMSize: ");
    push_str(&mut s, fmt_bytes(pm.vm_size).as_str());
    push_str(&mut s, " ]");
    proof {
        assert(s@ =~= os_text(*pm));
    }
    s
}

/// The logged memory line: `[MEM] ` and the parts present, joined by
/// ` | `; nothing to log when no figures could be read.
pub open spec fn memory_log(je: Option<Seq<char>>, os: Option<Seq<char>>) -> Option<Seq<char>> {
    match (je, os) {
        (None, None) => None,
        (Some(a), None) => Some("[MEM] "@ + a),
        (None, Some(b)) => Some("[MEM] "@ + b),
        (Some(a), Some(b)) => Some("[MEM] "@ + a + " | "@ + b),
    }
}

/// The memory report line from the allocator figures (with their
/// fragmentation text) and the process figures, each when it could be
/// read.
pub fn log_memory_stats(je: Option<(&JemallocStats, &str)>, pm: Option<&ProcMemInfo>) -> (res:
    Option<String>)
    ensures
        match res {
            Some(r) => memory_log(
                match je {
                    Some((j, f)) => Some(jemalloc_text(*j, f@)),
                    None => None,
                },
                match pm {
                    Some(p) => Some(os_text(*p)),
                    None => None,
                },
            ) == Some(r@),
            None => je is None && pm is None,
        },
{
    let a = match je {
        Some((j, f)) => Some(jemalloc_line(j, f)),
        None => None,
    };
    let b = match pm {
        Some(p) => Some(os_memory_line(p)),
        None => None,
    };
    if a.is_none() && b.is_none() {
        return None;
    }
    let mut s = String::new();
    push_str(&mut s, "[MEM] ");
    match &a {
        Some(x) => push_str(&mut s, x.as_str()),
        None => {},
    }
    match (&a, &b) {
        (Some(_), Some(_)) => push_str(&mut s, " | "),
        _ => {},
    }
    match &b {
        Some(y) => push_str(&mut s, y.as_str()),
        None => {},
    }
    proof {
        match (a, b) {
            (Some(x), Some(y)) => assert(s@ =~= "[MEM] "@ + x@ + " | "@ + y@),
            (Some(x), None) => assert(s@ =~= "[MEM] "@ + x@),
            (None, Some(y)) => assert(s@ =~= "[MEM] "@ + y@),
            (None, None) => {},
        }
    }
    Some(s)
}

/// Ticks of the memory monitor between two allocator purges.
pub const PURGE_EVERY_TICKS: u64 = 30;

/// One tick of the memory monitor: the new tick count, and whether the
/// allocator is purged on this tick (every 30th).
pub fn monitor_tick(ticks: u64) -> (res: (u64, bool))
    requires
        ticks < u64::MAX,
    ensures
        res.0 == ticks + 1,
        res.1 == ((ticks + 1) % 30 == 0),
{
    let n = ticks + 1;
    (n, n % PURGE_EVERY_TICKS == 0)
}

} // verus!
