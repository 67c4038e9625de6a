//! Schema upgrade decisions: which repairs an existing database needs, and
//! which versioned migrations are still to be applied, in order.

use vstd::prelude::*;

use crate::text::{all_digits, digits_value, has_text, split_on, text_contains};

verus! {

/// The `check_logs` table needs rebuilding when its stored definition
/// still refers to `proxies_old` (a foreign key left dangling by an earlier
/// rename); a missing table needs nothing.
pub fn needs_check_logs_repair(table_sql: Option<&str>) -> (res: bool)
    ensures
        res == match table_sql {
            Some(sql) => has_text(sql@, "proxies_old"@),
            None => false,
        },
{
    match table_sql {
        Some(sql) => text_contains(sql, "proxies_old"),
        None => false,
    }
}

/// The `proxies` table needs rebuilding when its stored definition does
/// not make `ip:port` the unique key of a proxy (it lacks
/// `UNIQUE(ip, port)`, as a table keyed on the protocol too does); a
/// missing table needs nothing.
pub fn needs_address_unique_migration(table_sql: Option<&str>) -> (res: bool)
    ensures
        res == match table_sql {
            Some(sql) => !has_text(sql@, "UNIQUE(ip, port)"@),
            None => false,
        },
{
    match table_sql {
        Some(sql) => !text_contains(sql, "UNIQUE(ip, port)"),
        None => false,
    }
}

/// A versioned schema upgrade.
#[derive(Clone, Copy, Debug)]
pub struct Migration {
    pub version: &'static str,
    pub description: &'static str,
}

impl View for Migration {
    type V = (Seq<char>, Seq<char>);

    open spec fn view(&self) -> (Seq<char>, Seq<char>) {
        (self.version@, self.description@)
    }
}

/// The version recorded in a fresh database before any upgrade runs.
pub const BASE_SCHEMA_VERSION: &'static str = "1.0.0";

pub open spec fn migration_table() -> Seq<(Seq<char>, Seq<char>)> {
    seq![
        ("1.0.1"@, "create migration logs table"@),
        ("1.1.0"@, "normalize default group and enforce metadata indexes"@),
        ("1.2.0"@, "add subscription group field and proxy subscription linkage"@),
    ]
}

/// The known upgrades, in ascending version order (the list only grows at
/// its end).
pub fn migrations() -> (res: Vec<Migration>)
    ensures
        res@.map_values(|m: Migration| m@) == migration_table(),
{
    let res = vec![
        Migration { version: "1.0.1", description: "create migration logs table" },
        Migration {
            version: "1.1.0",
            description: "normalize default group and enforce metadata indexes",
        },
        Migration {
            version: "1.2.0",
            description: "add subscription group field and proxy subscription linkage",
        },
    ];
    proof {
        assert(res@.map_values(|m: Migration| m@) =~= migration_table());
    }
    res
}

/// A number of a plain version: decimal digits without a leading zero
/// (but `0` itself), within `u64`.
pub open spec fn plain_number(p: Seq<char>) -> Option<nat> {
    if p.len() > 0 && all_digits(p) && (p.len() == 1 || p[0] != '0') && digits_value(p)
        <= u64::MAX {
        Some(digits_value(p))
    } else {
        None
    }
}

/// A plain version text `major.minor.patch` (no pre-release or build
/// part), as its three numbers.
pub open spec fn plain_version(s: Seq<char>) -> Option<(nat, nat, nat)> {
    let parts = split_on(s, '.');
    if parts.len() == 3 && plain_number(parts[0]) is Some && plain_number(parts[1]) is Some
        && plain_number(parts[2]) is Some {
        Some(
            (
                plain_number(parts[0]).unwrap(),
                plain_number(parts[1]).unwrap(),
                plain_number(parts[2]).unwrap(),
            ),
        )
    } else {
        None
    }
}

/// `a` is a later version than `b`: by major, then minor, then patch.
pub open spec fn version_gt(a: (nat, nat, nat), b: (nat, nat, nat)) -> bool {
    a.0 > b.0 || (a.0 == b.0 && (a.1 > b.1 || (a.1 == b.1 && a.2 > b.2)))
}

/// Both texts are plain versions.
pub open spec fn both_plain(version: Seq<char>, current: Seq<char>) -> bool {
    plain_version(version) is Some && plain_version(current) is Some
}

/// What `semver` answers when both texts are parsed as versions and the
/// first is compared with the second: `Some(first > second)`, or `None`
/// when either is not a version.
pub uninterp spec fn semver_newer(version: Seq<char>, current: Seq<char>) -> Option<bool>;

/// `semver::Version::parse` of both texts, then the crate's `>` on the
/// two versions. The contract claims that the answer is a function of the
/// two texts, and that for two plain versions it is whether the first is
/// later by major, minor and patch: the parser reads three dot-separated
/// numbers without leading zeros into `Version::new`, and the derived
/// order compares major, minor and patch before the (then empty)
/// pre-release and build parts. Other texts are left to the crate.
#[verifier::external_body]
fn semver_is_newer(version: &str, current: &str) -> (res: Option<bool>)
    ensures
        res == semver_newer(version@, current@),
        both_plain(version@, current@) ==> res == Some(
            version_gt(plain_version(version@).unwrap(), plain_version(current@).unwrap()),
        ),
{
    match (semver::Version::parse(version), semver::Version::parse(current)) {
        (Ok(v), Ok(c)) => Some(v > c),
        _ => None,
    }
}

/// A text `d.e.f` of three single digits, the first and last nonzero or
/// not, is the plain version `(d, e, f)`.
proof fn lemma_single_digit_version(s: Seq<char>, d: char, e: char, f: char)
    requires
        s == seq![d, '.', e, '.', f],
        crate::text::is_digit(d),
        crate::text::is_digit(e),
        crate::text::is_digit(f),
    ensures
        plain_version(s) == Some(
            (
                crate::text::digit_value(d),
                crate::text::digit_value(e),
                crate::text::digit_value(f),
            ),
        ),
{
    reveal_with_fuel(split_on, 6);
    assert(s.drop_last() =~= seq![d, '.', e, '.']);
    assert(s.drop_last().drop_last() =~= seq![d, '.', e]);
    assert(s.drop_last().drop_last().drop_last() =~= seq![d, '.']);
    assert(s.drop_last().drop_last().drop_last().drop_last() =~= seq![d]);
    assert(seq![d].drop_last() =~= Seq::<char>::empty());
    let p1 = split_on(seq![d], '.');
    assert(p1 =~= seq![seq![d]]);
    let p2 = split_on(seq![d, '.'], '.');
    assert(p2 =~= seq![seq![d], Seq::<char>::empty()]);
    let p3 = split_on(seq![d, '.', e], '.');
    assert(p3 =~= seq![seq![d], seq![e]]);
    let p4 = split_on(seq![d, '.', e, '.'], '.');
    assert(p4 =~= seq![seq![d], seq![e], Seq::<char>::empty()]);
    let p5 = split_on(s, '.');
    assert(p5 =~= seq![seq![d], seq![e], seq![f]]);
    assert(seq![d].drop_last() =~= Seq::<char>::empty());
    assert(seq![e].drop_last() =~= Seq::<char>::empty());
    assert(seq![f].drop_last() =~= Seq::<char>::empty());
    assert(seq![d].last() == d && seq![e].last() == e && seq![f].last() == f);
    assert(digits_value(Seq::<char>::empty()) == 0);
    assert(digits_value(seq![d]) == crate::text::digit_value(d));
    assert(digits_value(seq![e]) == crate::text::digit_value(e));
    assert(digits_value(seq![f]) == crate::text::digit_value(f));
    assert(all_digits(seq![d]) && all_digits(seq![e]) && all_digits(seq![f]));
}

/// The versions of the upgrade table, and the base version, are plain.
pub proof fn lemma_table_versions_plain()
    ensures
        plain_version("1.0.1"@) == Some((1nat, 0nat, 1nat)),
        plain_version("1.1.0"@) == Some((1nat, 1nat, 0nat)),
        plain_version("1.2.0"@) == Some((1nat, 2nat, 0nat)),
        plain_version("1.0.0"@) == Some((1nat, 0nat, 0nat)),
{
    reveal_strlit("1.0.1");
    reveal_strlit("1.1.0");
    reveal_strlit("1.2.0");
    reveal_strlit("1.0.0");
    assert("1.0.1"@ =~= seq!['1', '.', '0', '.', '1']);
    lemma_single_digit_version("1.0.1"@, '1', '0', '1');
    assert("1.1.0"@ =~= seq!['1', '.', '1', '.', '0']);
    lemma_single_digit_version("1.1.0"@, '1', '1', '0');
    assert("1.2.0"@ =~= seq!['1', '.', '2', '.', '0']);
    lemma_single_digit_version("1.2.0"@, '1', '2', '0');
    assert("1.0.0"@ =~= seq!['1', '.', '0', '.', '0']);
    lemma_single_digit_version("1.0.0"@, '1', '0', '0');
}

/// Upgrades of `table[i..]` still to run on a database at `current`, and
/// whether an unreadable version stops the run after them.
pub open spec fn pending_from(
    table: Seq<(Seq<char>, Seq<char>)>,
    current: Seq<char>,
    i: int,
) -> (Seq<(Seq<char>, Seq<char>)>, bool)
    decreases table.len() - i,
{
    if i < 0 || i >= table.len() {
        (Seq::empty(), false)
    } else {
        match semver_newer(table[i].0, current) {
            None => (Seq::empty(), true),
            Some(true) => {
                let rest = pending_from(table, current, i + 1);
                (seq![table[i]] + rest.0, rest.1)
            },
            Some(false) => pending_from(table, current, i + 1),
        }
    }
}

/// Every version in the table is plain.
pub open spec fn all_plain(t: Seq<(Seq<char>, Seq<char>)>) -> bool {
    forall|j: int| 0 <= j < t.len() ==> #[trigger] plain_version(t[j].0) is Some
}

/// The upgrades of `t` later than the version `cur`, in table order.
pub open spec fn newer_than(t: Seq<(Seq<char>, Seq<char>)>, cur: (nat, nat, nat)) -> Seq<
    (Seq<char>, Seq<char>),
>
    decreases t.len(),
{
    if t.len() == 0 {
        Seq::empty()
    } else {
        let r = newer_than(t.drop_last(), cur);
        if version_gt(plain_version(t.last().0).unwrap(), cur) {
            r.push(t.last())
        } else {
            r
        }
    }
}

/// The upgrades to apply, in table order, to a database whose recorded
/// version is `current`: those newer than it. The flag is set when a
/// version cannot be read (the current one, or one in the table); the
/// upgrades before that point are still applied. When every version is a
/// plain `major.minor.patch`, nothing stops the run, and exactly the
/// upgrades later than `current` are applied, in table order.
pub fn pending_migrations(table: &Vec<Migration>, current: &str) -> (res: (Vec<Migration>, bool))
    ensures
        (res.0@.map_values(|m: Migration| m@), res.1) == pending_from(
            table@.map_values(|m: Migration| m@),
            current@,
            0,
        ),
        plain_version(current@) is Some && all_plain(table@.map_values(|m: Migration| m@)) ==> !res.1
            && res.0@.map_values(|m: Migration| m@) == newer_than(
            table@.map_values(|m: Migration| m@),
            plain_version(current@).unwrap(),
        ),
{
    let ghost t = table@.map_values(|m: Migration| m@);
    let ghost cond = plain_version(current@) is Some && all_plain(t);
    let ghost cur = plain_version(current@).unwrap();
    let mut out: Vec<Migration> = Vec::new();
    let mut i: usize = 0;
    while i < table.len()
        invariant
            i <= table@.len(),
            t == table@.map_values(|m: Migration| m@),
            (out@.map_values(|m: Migration| m@) + pending_from(t, current@, i as int).0,
                pending_from(t, current@, i as int).1) == pending_from(t, current@, 0),
            cond == (plain_version(current@) is Some && all_plain(t)),
            cur == plain_version(current@).unwrap(),
            cond ==> out@.map_values(|m: Migration| m@) == newer_than(t.take(i as int), cur),
        decreases table@.len() - i,
    {
        let m = table[i];
        let ghost before = out@.map_values(|m: Migration| m@);
        proof {
            assert(t[i as int] == m@);
            assert(t.take(i + 1).drop_last() =~= t.take(i as int));
            assert(t.take(i + 1).last() == t[i as int]);
            if cond {
                assert(plain_version(t[i as int].0) is Some);
            }
        }
        match semver_is_newer(m.version, current) {
            None => {
                proof {
                    assert(before + Seq::<(Seq<char>, Seq<char>)>::empty() =~= before);
                    assert(!cond);
                }
                return (out, true);
            },
            Some(true) => {
                out.push(m);
                proof {
                    let rest = pending_from(t, current@, i + 1);
                    assert(out@.map_values(|m: Migration| m@) =~= before.push(t[i as int]));
                    assert(before + (seq![t[i as int]] + rest.0) =~= before.push(t[i as int])
                        + rest.0);
                }
            },
            Some(false) => {},
        }
        i = i + 1;
    }
    proof {
        let v = out@.map_values(|m: Migration| m@);
        assert(v + Seq::<(Seq<char>, Seq<char>)>::empty() =~= v);
        assert(t.take(i as int) =~= t);
    }
    (out, false)
}


/// The upgrades still to run on a database at any plain version are the
/// table's upgrades later than it, in ascending version order, each once;
/// a database at the base version `1.0.0` runs all of them.
pub proof fn law_pending_upgrades_ascend(cur: (nat, nat, nat))
    ensures
        all_plain(migration_table()),
        forall|i: int, j: int|
            #![trigger newer_than(migration_table(), cur)[i], newer_than(migration_table(), cur)[j]]
            0 <= i < j < newer_than(migration_table(), cur).len() ==> version_gt(
                plain_version(newer_than(migration_table(), cur)[j].0).unwrap(),
                plain_version(newer_than(migration_table(), cur)[i].0).unwrap(),
            ),
        forall|k: int|
            0 <= k < migration_table().len() ==> (newer_than(migration_table(), cur).contains(
                #[trigger] migration_table()[k],
            ) <==> version_gt(plain_version(migration_table()[k].0).unwrap(), cur)),
        newer_than(migration_table(), (1nat, 0nat, 0nat)) == migration_table(),
{
    lemma_table_versions_plain();
    let t = migration_table();
    let t2 = t.drop_last();
    let t1 = t2.drop_last();
    let t0 = t1.drop_last();
    assert(t0 =~= Seq::<(Seq<char>, Seq<char>)>::empty());
    assert(t1 =~= seq![t[0]]);
    assert(t2 =~= seq![t[0], t[1]]);
    assert(plain_version(t[0].0) == Some((1nat, 0nat, 1nat)));
    assert(plain_version(t[1].0) == Some((1nat, 1nat, 0nat)));
    assert(plain_version(t[2].0) == Some((1nat, 2nat, 0nat)));
    assert(all_plain(t));
    reveal_with_fuel(newer_than, 4);
    let r = newer_than(t, cur);
    let g0 = version_gt((1nat, 0nat, 1nat), cur);
    let g1 = version_gt((1nat, 1nat, 0nat), cur);
    let g2 = version_gt((1nat, 2nat, 0nat), cur);
    assert(g0 ==> g1 && g2);
    assert(g1 ==> g2);
    assert(t[0] != t[1] && t[0] != t[2] && t[1] != t[2]);
    if g0 {
        assert(r =~= t);
        assert(r[0] == t[0] && r[1] == t[1] && r[2] == t[2]);
        assert(r.contains(t[0]) && r.contains(t[1]) && r.contains(t[2]));
    } else if g1 {
        assert(r =~= seq![t[1], t[2]]);
        assert(r[0] == t[1] && r[1] == t[2]);
        assert(r.contains(t[1]) && r.contains(t[2]));
        assert(!r.contains(t[0]));
    } else if g2 {
        assert(r =~= seq![t[2]]);
        assert(r[0] == t[2]);
        assert(r.contains(t[2]));
        assert(!r.contains(t[0]) && !r.contains(t[1]));
    } else {
        assert(r =~= Seq::<(Seq<char>, Seq<char>)>::empty());
        assert(!r.contains(t[0]) && !r.contains(t[1]) && !r.contains(t[2]));
    }
    assert forall|k: int| 0 <= k < t.len() implies (r.contains(#[trigger] t[k]) <==> version_gt(
        plain_version(t[k].0).unwrap(),
        cur,
    )) by {
        assert(k == 0 || k == 1 || k == 2);
    }
    assert(newer_than(t, (1nat, 0nat, 0nat)) =~= t);
}

} // verus!
