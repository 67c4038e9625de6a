//! Release tracking: comparing version numbers, reading the release feed,
//! naming the release artifact for a platform, and deciding when and to
//! which release an installation is updated.

use vstd::prelude::*;

use crate::text::{
    chars_of, find_chars, find_first, lemma_find_first_bounds, parse_unsigned, parse_unsigned_chars,
    push_str, slice_chars, split_on, str_equals, string_from_chars, trim, trim_bounds, has_text,
    text_contains,
};

verus! {

// ---------------------------------------------------------------------
// Version comparison
// ---------------------------------------------------------------------

/// The pieces that parse as `u32`, in order (`filter_map(|p| p.parse().ok())`).
pub open spec fn parsed_numbers(pieces: Seq<Seq<char>>) -> Seq<u32>
    decreases pieces.len(),
{
    if pieces.len() == 0 {
        Seq::<u32>::empty()
    } else {
        let rest = parsed_numbers(pieces.drop_last());
        match parse_unsigned(pieces.last(), u32::MAX as nat) {
            Some(n) => rest.push(n as u32),
            None => rest,
        }
    }
}

/// The numbers of a dotted version text.
pub open spec fn version_numbers(v: Seq<char>) -> Seq<u32> {
    parsed_numbers(split_on(v, '.'))
}

pub open spec fn number_or_zero(ns: Seq<u32>, i: int) -> u32 {
    if 0 <= i < ns.len() {
        ns[i]
    } else {
        0
    }
}

/// `(major, minor, patch)` of a version text; missing parts count as 0.
pub open spec fn version_key(v: Seq<char>) -> (u32, u32, u32) {
    let ns = version_numbers(v);
    (number_or_zero(ns, 0), number_or_zero(ns, 1), number_or_zero(ns, 2))
}

pub open spec fn key_greater(a: (u32, u32, u32), b: (u32, u32, u32)) -> bool {
    a.0 > b.0 || (a.0 == b.0 && (a.1 > b.1 || (a.1 == b.1 && a.2 > b.2)))
}

/// `latest` names a newer release than `current`.
pub open spec fn newer_than(latest: Seq<char>, current: Seq<char>) -> bool {
    key_greater(version_key(latest), version_key(current))
}

fn parsed_version_numbers(v: &str) -> (res: Vec<u32>)
    ensures
        res@ == version_numbers(v@),
{
    let cs = chars_of(v);
    let mut nums: Vec<u32> = Vec::new();
    let mut piece: Vec<char> = Vec::new();
    let ghost mut done: Seq<Seq<char>> = Seq::empty();
    let mut i: usize = 0;
    proof {
        assert(cs@.take(0) =~= Seq::<char>::empty());
        assert(split_on(Seq::<char>::empty(), '.') =~= done.push(piece@));
    }
    while i < cs.len()
        invariant
            i <= cs@.len(),
            cs@ == v@,
            split_on(cs@.take(i as int), '.') == done.push(piece@),
            nums@ == parsed_numbers(done),
        decreases cs@.len() - i,
    {
        let c = cs[i];
        proof {
            assert(cs@.take(i + 1).drop_last() =~= cs@.take(i as int));
            assert(cs@.take(i + 1).last() == c);
        }
        if c == '.' {
            let parsed = parse_unsigned_chars(&piece, u32::MAX as u64);
            proof {
                assert(done.push(piece@).push(Seq::<char>::empty()).drop_last() =~= done.push(
                    piece@,
                ));
                assert(done.push(piece@).drop_last() =~= done);
            }
            match parsed {
                Some(n) => {
                    nums.push(n as u32);
                },
                None => {},
            }
            proof {
                done = done.push(piece@);
            }
            piece = Vec::new();
        } else {
            let ghost old_piece = piece@;
            piece.push(c);
            proof {
                let rest = done.push(old_piece);
                assert(rest.last() == old_piece);
                assert(rest.update(rest.len() - 1, rest.last().push(c)) =~= done.push(piece@));
            }
        }
        i = i + 1;
    }
    let parsed = parse_unsigned_chars(&piece, u32::MAX as u64);
    proof {
        assert(cs@.take(i as int) =~= cs@);
        assert(done.push(piece@).drop_last() =~= done);
    }
    match parsed {
        Some(n) => {
            nums.push(n as u32);
        },
        None => {},
    }
    nums
}

fn number_at(ns: &Vec<u32>, i: usize) -> (res: u32)
    ensures
        res == number_or_zero(ns@, i as int),
{
    if i < ns.len() {
        ns[i]
    } else {
        0
    }
}

/// Compares two dotted version texts by `(major, minor, patch)`: true when
/// `latest` is strictly newer than `current`. Parts that are not numbers are
/// skipped, and missing parts count as 0.
pub fn is_newer(latest: &str, current: &str) -> (res: bool)
    ensures
        res == newer_than(latest@, current@),
{
    let a = parsed_version_numbers(latest);
    let b = parsed_version_numbers(current);
    let (a0, a1, a2) = (number_at(&a, 0), number_at(&a, 1), number_at(&a, 2));
    let (b0, b1, b2) = (number_at(&b, 0), number_at(&b, 1), number_at(&b, 2));
    a0 > b0 || (a0 == b0 && (a1 > b1 || (a1 == b1 && a2 > b2)))
}

} // verus!

verus! {

// ---------------------------------------------------------------------
// Release feed
// ---------------------------------------------------------------------

/// One release of the feed: its version title and its update date.
#[derive(Debug)]
pub struct ReleaseEntry {
    pub version: String,
    pub date: String,
}

impl View for ReleaseEntry {
    type V = (Seq<char>, Seq<char>);

    open spec fn view(&self) -> (Seq<char>, Seq<char>) {
        (self.version@, self.date@)
    }
}

pub open spec fn tag_open(tag: Seq<char>) -> Seq<char> {
    seq!['<'] + tag
}

pub open spec fn tag_close(tag: Seq<char>) -> Seq<char> {
    seq!['<', '/'] + tag + seq!['>']
}

/// The trimmed text between the first `<tag` (and the `>` that ends it) and
/// the next `</tag>`; `None` when any of the three is missing.
pub open spec fn xml_tag_text(xml: Seq<char>, tag: Seq<char>) -> Option<Seq<char>> {
    match find_first(xml, tag_open(tag)) {
        None => None,
        Some(start) => {
            let after_open = xml.skip(start);
            match find_first(after_open, seq!['>']) {
                None => None,
                Some(gt) => {
                    let content = after_open.skip(gt + 1);
                    match find_first(content, tag_close(tag)) {
                        None => None,
                        Some(end) => Some(trim(content.take(end))),
                    }
                },
            }
        },
    }
}

pub open spec fn entry_open() -> Seq<char> {
    seq!['<', 'e', 'n', 't', 'r', 'y', '>']
}

pub open spec fn entry_close() -> Seq<char> {
    seq!['<', '/', 'e', 'n', 't', 'r', 'y', '>']
}

pub open spec fn title_tag() -> Seq<char> {
    seq!['t', 'i', 't', 'l', 'e']
}

pub open spec fn updated_tag() -> Seq<char> {
    seq!['u', 'p', 'd', 'a', 't', 'e', 'd']
}

pub open spec fn text_or_empty(t: Option<Seq<char>>) -> Seq<char> {
    match t {
        Some(s) => s,
        None => Seq::<char>::empty(),
    }
}

/// The releases of an Atom feed, in feed order: each `<entry>...</entry>`
/// block with a non-empty title gives `(title, updated)`; scanning stops at
/// the first `<entry>` without a closing `</entry>`.
pub open spec fn atom_entries(rest: Seq<char>) -> Seq<(Seq<char>, Seq<char>)>
    decreases rest.len(),
{
    match find_first(rest, entry_open()) {
        None => Seq::empty(),
        Some(start) => {
            let after_start = rest.skip(start);
            match find_first(after_start, entry_close()) {
                None => Seq::empty(),
                Some(end) => {
                    proof {
                        lemma_find_first_bounds(rest, entry_open());
                        lemma_find_first_bounds(after_start, entry_close());
                    }
                    let entry = after_start.take(end + 8);
                    let version = text_or_empty(xml_tag_text(entry, title_tag()));
                    let date = text_or_empty(xml_tag_text(entry, updated_tag()));
                    let tail = atom_entries(after_start.skip(end + 8));
                    if version.len() > 0 {
                        seq![(version, date)] + tail
                    } else {
                        tail
                    }
                },
            }
        },
    }
}

/// Bounds of the trimmed tag text inside `xml`.
fn xml_tag_bounds(xml: &Vec<char>, tag: &Vec<char>) -> (res: Option<(usize, usize)>)
    ensures
        match res {
            Some((lo, hi)) => lo <= hi <= xml@.len() && xml_tag_text(xml@, tag@) == Some(
                xml@.subrange(lo as int, hi as int),
            ),
            None => xml_tag_text(xml@, tag@) is None,
        },
{
    let mut open: Vec<char> = vec!['<'];
    let mut close: Vec<char> = vec!['<', '/'];
    let mut k: usize = 0;
    while k < tag.len()
        invariant
            k <= tag@.len(),
            open@ == seq!['<'] + tag@.take(k as int),
            close@ == seq!['<', '/'] + tag@.take(k as int),
        decreases tag@.len() - k,
    {
        open.push(tag[k]);
        close.push(tag[k]);
        proof {
            assert(tag@.take(k + 1) =~= tag@.take(k as int).push(tag@[k as int]));
            assert(seq!['<'] + tag@.take(k + 1) =~= (seq!['<'] + tag@.take(k as int)).push(
                tag@[k as int],
            ));
            assert(seq!['<', '/'] + tag@.take(k + 1) =~= (seq!['<', '/'] + tag@.take(
                k as int,
            )).push(tag@[k as int]));
        }
        k = k + 1;
    }
    close.push('>');
    proof {
        assert(tag@.take(k as int) =~= tag@);
        assert(open@ =~= tag_open(tag@));
        assert(close@ =~= tag_close(tag@));
        assert(xml@.skip(0) =~= xml@);
    }
    let start = match find_chars(xml.as_slice(), 0, open.as_slice()) {
        Some(p) => p,
        None => return None,
    };
    proof {
        lemma_find_first_bounds(xml@, tag_open(tag@));
    }
    let gt_char: Vec<char> = vec!['>'];
    proof {
        assert(gt_char@ =~= seq!['>']);
    }
    let gt = match find_chars(xml.as_slice(), start, gt_char.as_slice()) {
        Some(p) => p,
        None => return None,
    };
    proof {
        lemma_find_first_bounds(xml@.skip(start as int), seq!['>']);
        assert(gt + 1 <= xml@.len());
    }
    let n = xml.len();
    assert(gt < n);
    let content_start = gt + 1;
    proof {
        assert(xml@.skip(start as int).skip(gt - start + 1) =~= xml@.skip(content_start as int));
    }
    let end = match find_chars(xml.as_slice(), content_start, close.as_slice()) {
        Some(p) => p,
        None => return None,
    };
    proof {
        lemma_find_first_bounds(xml@.skip(content_start as int), tag_close(tag@));
        assert(content_start <= end);
        assert(xml@.skip(content_start as int).take(end - content_start) =~= xml@.subrange(
            content_start as int,
            end as int,
        ));
    }
    let (lo, hi) = trim_bounds(xml.as_slice(), content_start, end);
    Some((lo, hi))
}

/// The trimmed text of the first `<tag>...</tag>` element.
pub fn extract_xml_tag(xml: &str, tag: &str) -> (res: Option<String>)
    ensures
        match res {
            Some(s) => xml_tag_text(xml@, tag@) == Some(s@),
            None => xml_tag_text(xml@, tag@) is None,
        },
{
    let x = chars_of(xml);
    let t = chars_of(tag);
    match xml_tag_bounds(&x, &t) {
        Some((lo, hi)) => {
            let cs = slice_chars(x.as_slice(), lo, hi);
            Some(string_from_chars(cs.as_slice()))
        },
        None => None,
    }
}

fn tag_text_or_empty(xml: &Vec<char>, tag: &Vec<char>) -> (res: Vec<char>)
    ensures
        res@ == text_or_empty(xml_tag_text(xml@, tag@)),
{
    match xml_tag_bounds(xml, tag) {
        Some((lo, hi)) => slice_chars(xml.as_slice(), lo, hi),
        None => Vec::new(),
    }
}

pub open spec fn entries_view(es: Seq<ReleaseEntry>) -> Seq<(Seq<char>, Seq<char>)> {
    es.map_values(|e: ReleaseEntry| e@)
}

/// The releases listed in an Atom feed, newest first as the feed lists them.
pub fn parse_atom_entries(xml: &str) -> (res: Vec<ReleaseEntry>)
    ensures
        entries_view(res@) == atom_entries(xml@),
{
    let cs = chars_of(xml);
    let open: Vec<char> = vec!['<', 'e', 'n', 't', 'r', 'y', '>'];
    let close: Vec<char> = vec!['<', '/', 'e', 'n', 't', 'r', 'y', '>'];
    let title: Vec<char> = vec!['t', 'i', 't', 'l', 'e'];
    let updated: Vec<char> = vec!['u', 'p', 'd', 'a', 't', 'e', 'd'];
    proof {
        assert(open@ =~= entry_open());
        assert(close@ =~= entry_close());
        assert(title@ =~= title_tag());
        assert(updated@ =~= updated_tag());
    }
    let mut entries: Vec<ReleaseEntry> = Vec::new();
    let mut pos: usize = 0;
    proof {
        assert(cs@.skip(0) =~= cs@);
        assert(entries_view(entries@) + atom_entries(cs@.skip(0)) =~= atom_entries(cs@));
    }
    while pos <= cs.len()
        invariant
            pos <= cs@.len(),
            cs@ == xml@,
            open@ == entry_open(),
            close@ == entry_close(),
            title@ == title_tag(),
            updated@ == updated_tag(),
            entries_view(entries@) + atom_entries(cs@.skip(pos as int)) == atom_entries(xml@),
        ensures
            entries_view(entries@) == atom_entries(xml@),
        decreases cs@.len() - pos,
    {
        let ghost rest = cs@.skip(pos as int);
        let start = match find_chars(cs.as_slice(), pos, open.as_slice()) {
            Some(p) => p,
            None => {
                proof {
                    assert(entries_view(entries@) + Seq::empty() =~= entries_view(entries@));
                }
                break;
            },
        };
        proof {
            lemma_find_first_bounds(rest, entry_open());
            assert(rest.skip(start - pos) =~= cs@.skip(start as int));
        }
        let end = match find_chars(cs.as_slice(), start, close.as_slice()) {
            Some(p) => p,
            None => {
                proof {
                    assert(entries_view(entries@) + Seq::empty() =~= entries_view(entries@));
                }
                break;
            },
        };
        proof {
            lemma_find_first_bounds(cs@.skip(start as int), entry_close());
        }
        let entry = slice_chars(cs.as_slice(), start, end + 8);
        let version = tag_text_or_empty(&entry, &title);
        let date = tag_text_or_empty(&entry, &updated);
        let ghost after_start = cs@.skip(start as int);
        proof {
            assert(after_start.take(end - start + 8) =~= entry@);
            assert(after_start.skip(end - start + 8) =~= cs@.skip(end + 8));
        }
        let ghost before = entries@;
        if version.len() > 0 {
            let e = ReleaseEntry {
                version: string_from_chars(version.as_slice()),
                date: string_from_chars(date.as_slice()),
            };
            entries.push(e);
            proof {
                assert(entries_view(entries@) =~= entries_view(before).push((version@, date@)));
                assert(entries_view(before) + (seq![(version@, date@)] + atom_entries(
                    cs@.skip(end + 8),
                )) =~= entries_view(entries@) + atom_entries(cs@.skip(end + 8)));
            }
        }
        pos = end + 8;
    }
    entries
}

} // verus!

verus! {

// ---------------------------------------------------------------------
// Platforms and release artifacts
// ---------------------------------------------------------------------

/// Repository that publishes the releases.
pub const REPO: &'static str = "illab-org/Proxy-Pulse";

/// Seconds between two automatic update checks.
pub const CHECK_INTERVAL_SECS: u64 = 30;

/// The version of this release.
pub const CURRENT_VERSION: &'static str = "1.2.1";

pub open spec fn platform_os(target_os: Seq<char>) -> Seq<char> {
    if target_os == "linux"@ {
        "linux"@
    } else if target_os == "macos"@ {
        "darwin"@
    } else if target_os == "windows"@ {
        "windows"@
    } else {
        "unknown"@
    }
}

pub open spec fn platform_arch(target_arch: Seq<char>) -> Seq<char> {
    if target_arch == "x86_64"@ {
        "amd64"@
    } else if target_arch == "aarch64"@ {
        "arm64"@
    } else {
        "unknown"@
    }
}

/// Release naming of the platform the program was built for: the operating
/// system (`linux`, `darwin`, `windows`) and the architecture (`amd64`,
/// `arm64`), each `unknown` when not supported.
pub fn detect_platform(target_os: &str, target_arch: &str) -> (res: (&'static str, &'static str))
    ensures
        res.0@ == platform_os(target_os@),
        res.1@ == platform_arch(target_arch@),
{
    let os = if str_equals(target_os, "linux") {
        "linux"
    } else if str_equals(target_os, "macos") {
        "darwin"
    } else if str_equals(target_os, "windows") {
        "windows"
    } else {
        "unknown"
    };
    let arch = if str_equals(target_arch, "x86_64") {
        "amd64"
    } else if str_equals(target_arch, "aarch64") {
        "arm64"
    } else {
        "unknown"
    };
    (os, arch)
}

pub open spec fn archive_extension(os: Seq<char>) -> Seq<char> {
    if os == "windows"@ {
        "zip"@
    } else {
        "tar.gz"@
    }
}

/// Name of the binary inside a release archive: `proxy-pulse-{os}-{arch}`.
pub open spec fn artifact_name(os: Seq<char>, arch: Seq<char>) -> Seq<char> {
    "proxy-pulse-"@ + os + "-"@ + arch
}

/// Name of the release archive: `proxy-pulse-{os}-{arch}.{zip|tar.gz}`.
pub open spec fn package_name(os: Seq<char>, arch: Seq<char>) -> Seq<char> {
    artifact_name(os, arch) + "."@ + archive_extension(os)
}

/// Download location of a release archive.
pub open spec fn asset_url(tag: Seq<char>, os: Seq<char>, arch: Seq<char>) -> Seq<char> {
    "https://github.com/"@ + REPO@ + "/releases/download/"@ + tag + "/"@ + package_name(
        os,
        arch,
    )
}

pub fn artifact_file_name(os: &str, arch: &str) -> (res: String)
    ensures
        res@ == artifact_name(os@, arch@),
{
    let mut s = String::new();
    push_str(&mut s, "proxy-pulse-");
    push_str(&mut s, os);
    push_str(&mut s, "-");
    push_str(&mut s, arch);
    proof {
        assert(s@ =~= artifact_name(os@, arch@));
    }
    s
}

pub fn package_file_name(os: &str, arch: &str) -> (res: String)
    ensures
        res@ == package_name(os@, arch@),
{
    let mut s = artifact_file_name(os, arch);
    push_str(&mut s, ".");
    if str_equals(os, "windows") {
        push_str(&mut s, "zip");
    } else {
        push_str(&mut s, "tar.gz");
    }
    s
}

/// URL of the archive of release `tag` for the platform `(os, arch)`.
pub fn release_asset_url(tag: &str, os: &str, arch: &str) -> (res: String)
    ensures
        res@ == asset_url(tag@, os@, arch@),
{
    let mut s = String::new();
    push_str(&mut s, "https://github.com/");
    push_str(&mut s, REPO);
    push_str(&mut s, "/releases/download/");
    push_str(&mut s, tag);
    push_str(&mut s, "/");
    let pkg = package_file_name(os, arch);
    push_str(&mut s, pkg.as_str());
    proof {
        assert(s@ =~= asset_url(tag@, os@, arch@));
    }
    s
}

/// URL of the release feed.
pub fn releases_feed_url() -> (res: String)
    ensures
        res@ == "https://github.com/"@ + REPO@ + "/releases.atom"@,
{
    let mut s = String::new();
    push_str(&mut s, "https://github.com/");
    push_str(&mut s, REPO);
    push_str(&mut s, "/releases.atom");
    proof {
        assert(s@ =~= "https://github.com/"@ + REPO@ + "/releases.atom"@);
    }
    s
}

/// URL of the launcher script of the default branch (`run.ps1` on Windows).
pub fn run_script_url(windows: bool) -> (res: String)
    ensures
        res@ == "https://raw.githubusercontent.com/"@ + REPO@ + "/main/"@ + (if windows {
            "run.ps1"@
        } else {
            "run"@
        }),
{
    let mut s = String::new();
    push_str(&mut s, "https://raw.githubusercontent.com/");
    push_str(&mut s, REPO);
    push_str(&mut s, "/main/");
    let name = if windows {
        "run.ps1"
    } else {
        "run"
    };
    push_str(&mut s, name);
    proof {
        assert(s@ =~= "https://raw.githubusercontent.com/"@ + REPO@ + "/main/"@ + name@);
    }
    s
}

/// The release host answers 200 or a 302 redirect for an archive that exists.
pub fn release_asset_exists(status: u16) -> (res: bool)
    ensures
        res == (status == 200 || status == 302),
{
    status == 200 || status == 302
}

/// A download answer that can be used: any 2xx status or a 302 redirect.
pub fn download_status_ok(status: u16) -> (res: bool)
    ensures
        res == ((200 <= status && status <= 299) || status == 302),
{
    (200 <= status && status <= 299) || status == 302
}

// ---------------------------------------------------------------------
// Update decisions
// ---------------------------------------------------------------------

/// `str::trim_start_matches('v')`: without any leading `v`.
pub open spec fn strip_v(s: Seq<char>) -> Seq<char>
    decreases s.len(),
{
    if s.len() > 0 && s[0] == 'v' {
        strip_v(s.drop_first())
    } else {
        s
    }
}

/// The release tag of a version: the text itself when it starts with `v`,
/// else `v` followed by it.
pub open spec fn tag_of(version: Seq<char>) -> Seq<char> {
    if version.len() > 0 && version[0] == 'v' {
        version
    } else {
        seq!['v'] + version
    }
}

/// The version text without its leading `v` characters.
pub fn version_core(tag: &str) -> (res: String)
    ensures
        res@ == strip_v(tag@),
{
    let cs = chars_of(tag);
    let mut i: usize = 0;
    proof {
        assert(cs@.skip(0) =~= cs@);
    }
    while i < cs.len() && cs[i] == 'v'
        invariant
            i <= cs@.len(),
            cs@ == tag@,
            strip_v(tag@) == strip_v(cs@.skip(i as int)),
        decreases cs@.len() - i,
    {
        proof {
            assert(cs@.skip(i as int).drop_first() =~= cs@.skip(i + 1));
        }
        i = i + 1;
    }
    proof {
        assert(cs@.skip(i as int).subrange(0, cs@.len() - i) =~= cs@.skip(i as int));
    }
    let rest = slice_chars(cs.as_slice(), i, cs.len());
    proof {
        assert(rest@ =~= cs@.skip(i as int));
    }
    string_from_chars(rest.as_slice())
}

/// The release tag of a version text (`v` prefixed when missing).
pub fn release_tag(version: &str) -> (res: String)
    ensures
        res@ == tag_of(version@),
{
    let cs = chars_of(version);
    if cs.len() > 0 && cs[0] == 'v' {
        string_from_chars(cs.as_slice())
    } else {
        let mut s = String::new();
        push_str(&mut s, "v");
        push_str(&mut s, version);
        proof {
            reveal_strlit("v");
            assert(s@ =~= seq!['v'] + version@);
        }
        s
    }
}

/// The tag to install when a user asks for release `version`: `None` when
/// it is the running version (without its `v`s), else the release tag.
pub fn plan_requested_update(version: &str, current: &str) -> (res: Option<String>)
    ensures
        match res {
            None => strip_v(version@) == current@,
            Some(tag) => strip_v(version@) != current@ && tag@ == tag_of(version@),
        },
{
    let target = version_core(version);
    if str_equals(target.as_str(), current) {
        None
    } else {
        Some(release_tag(version))
    }
}

/// The tag to install given the newest published tag: `Some` exactly when
/// that release is newer than the running version.
pub fn plan_latest_update(latest_tag: &str, current: &str) -> (res: Option<String>)
    ensures
        match res {
            None => !newer_than(strip_v(latest_tag@), current@),
            Some(tag) => newer_than(strip_v(latest_tag@), current@) && tag@ == tag_of(
                latest_tag@,
            ),
        },
{
    let latest = version_core(latest_tag);
    if !is_newer(latest.as_str(), current) {
        None
    } else {
        Some(release_tag(latest_tag))
    }
}

/// Whether the process runs in a container: `/.dockerenv` exists, or the
/// control groups of process 1 mention `docker` or `containerd`, or the
/// `container` environment variable is set.
pub open spec fn in_container(dockerenv: bool, cgroup: Option<Seq<char>>, container_var: bool) -> bool {
    dockerenv || (cgroup matches Some(c) && (has_text(c, "docker"@) || has_text(c, "containerd"@)))
        || container_var
}

/// The container test from what was read: the `/.dockerenv` probe, the
/// text of `/proc/1/cgroup` when it could be read, and the `container`
/// variable probe. In a container an update replaces the binary in place
/// instead of going through the run script.
pub fn is_container(dockerenv: bool, cgroup: Option<&str>, container_var: bool) -> (res: bool)
    ensures
        res == in_container(dockerenv, crate::auth::opt_text(cgroup), container_var),
{
    if dockerenv {
        return true;
    }
    match cgroup {
        Some(c) => {
            if text_contains(c, "docker") || text_contains(c, "containerd") {
                return true;
            }
        },
        None => {},
    }
    container_var
}

/// Why an update could not go ahead.
#[derive(Debug, PartialEq, Eq, Structural)]
pub enum UpdateError {
    /// The release exists but its archive for this platform is not published yet.
    BinaryNotReady,
    /// The release feed lists no release.
    NoReleases,
}

/// Outcome when the archive of the chosen release is missing: a manual
/// update reports `BinaryNotReady`, an automatic one skips quietly.
pub fn missing_binary_outcome(manual: bool) -> (res: Result<bool, UpdateError>)
    ensures
        manual ==> res == Err::<bool, UpdateError>(UpdateError::BinaryNotReady),
        !manual ==> res == Ok::<bool, UpdateError>(false),
{
    if manual {
        Err(UpdateError::BinaryNotReady)
    } else {
        Ok(false)
    }
}

/// The newest release of the feed (its first entry).
pub fn latest_version(entries: &Vec<ReleaseEntry>) -> (res: Result<String, UpdateError>)
    ensures
        entries@.len() == 0 ==> res == Err::<String, UpdateError>(UpdateError::NoReleases),
        entries@.len() > 0 ==> (res matches Ok(v) && v@ == entries@[0].version@),
{
    if entries.len() == 0 {
        Err(UpdateError::NoReleases)
    } else {
        let cs = chars_of(entries[0].version.as_str());
        Ok(string_from_chars(cs.as_slice()))
    }
}

/// Whether automatic updates are on: the stored setting, unless it is
/// exactly `false`; on when nothing is stored.
pub fn auto_update_enabled(setting: Option<&str>) -> (res: bool)
    ensures
        res == match setting {
            Some(v) => v@ != "false"@,
            None => true,
        },
{
    match setting {
        Some(v) => !str_equals(v, "false"),
        None => true,
    }
}

pub open spec fn schedule_allows(schedule: Seq<char>, hour: u32) -> bool {
    if schedule == "anytime"@ {
        true
    } else if schedule == "night"@ {
        hour < 6
    } else if schedule == "morning"@ {
        6 <= hour < 12
    } else if schedule == "afternoon"@ {
        12 <= hour < 18
    } else if schedule == "evening"@ {
        hour >= 18
    } else {
        true
    }
}

/// Whether an update may be installed at local `hour` under the install
/// schedule (`anytime` when none is stored; unknown names allow any hour).
pub fn is_within_schedule(schedule: Option<&str>, hour: u32) -> (res: bool)
    ensures
        res == match schedule {
            Some(s) => schedule_allows(s@, hour),
            None => true,
        },
{
    let s = match schedule {
        Some(s) => s,
        None => return true,
    };
    if str_equals(s, "anytime") {
        true
    } else if str_equals(s, "night") {
        hour < 6
    } else if str_equals(s, "morning") {
        6 <= hour && hour < 12
    } else if str_equals(s, "afternoon") {
        12 <= hour && hour < 18
    } else if str_equals(s, "evening") {
        hour >= 18
    } else {
        true
    }
}


// ---------------------------------------------------------------------
// Laws
// ---------------------------------------------------------------------

/// "Newer" is a strict order on version texts: no version is newer than
/// itself, of two versions at most one is newer than the other, and it is
/// transitive.
pub proof fn law_newer_is_strict_order(a: Seq<char>, b: Seq<char>, c: Seq<char>)
    ensures
        !newer_than(a, a),
        newer_than(a, b) ==> !newer_than(b, a),
        newer_than(a, b) && newer_than(b, c) ==> newer_than(a, c),
{
}

/// Two versions with different `(major, minor, patch)` are ordered: one
/// of them is newer.
pub proof fn law_newer_is_total(a: Seq<char>, b: Seq<char>)
    ensures
        version_key(a) != version_key(b) ==> newer_than(a, b) || newer_than(b, a),
{
}

/// Stripping the leading `v`s of a release tag gives the version back
/// without its own leading `v`s.
pub proof fn law_tag_round_trip(version: Seq<char>)
    ensures
        strip_v(tag_of(version)) == strip_v(version),
{
    if !(version.len() > 0 && version[0] == 'v') {
        let t = seq!['v'] + version;
        assert(t.drop_first() =~= version);
    }
}

/// An installation is never updated to the release it runs: asking for
/// its own version, with or without the `v`, plans nothing, and its own
/// tag as the newest release is not newer.
pub proof fn law_no_update_to_running_version(current: Seq<char>)
    requires
        current.len() == 0 || current[0] != 'v',
    ensures
        strip_v(tag_of(current)) == current,
        !newer_than(strip_v(tag_of(current)), current),
{
    law_tag_round_trip(current);
}


/// The install schedules split the day: `night` is the hours before 6,
/// `morning` 6 to 12, `afternoon` 12 to 18, `evening` 18 on, and `anytime`
/// every hour; each hour of a day lies in exactly one of the four windows.
pub proof fn law_schedule_windows_split_the_day(hour: u32)
    ensures
        schedule_allows("night"@, hour) <==> hour < 6,
        schedule_allows("morning"@, hour) <==> 6 <= hour && hour < 12,
        schedule_allows("afternoon"@, hour) <==> 12 <= hour && hour < 18,
        schedule_allows("evening"@, hour) <==> 18 <= hour,
        schedule_allows("anytime"@, hour),
        hour < 24 ==> (schedule_allows("night"@, hour) as int) + (schedule_allows(
            "morning"@,
            hour,
        ) as int) + (schedule_allows("afternoon"@, hour) as int) + (schedule_allows(
            "evening"@,
            hour,
        ) as int) == 1,
{
    reveal_strlit("anytime");
    reveal_strlit("night");
    reveal_strlit("morning");
    reveal_strlit("afternoon");
    reveal_strlit("evening");
    assert("night"@.len() != "anytime"@.len());
    assert("morning"@[0] != "anytime"@[0] && "morning"@.len() != "night"@.len());
    assert("afternoon"@.len() != "anytime"@.len() && "afternoon"@.len() != "night"@.len()
        && "afternoon"@.len() != "morning"@.len());
    assert("evening"@[0] != "anytime"@[0] && "evening"@.len() != "night"@.len() && "evening"@[0]
        != "morning"@[0] && "evening"@.len() != "afternoon"@.len());
}

} // verus!
