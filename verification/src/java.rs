//! The Java major version a Minecraft game version needs, by Mojang's
//! published thresholds, and the choice between that and what Mojang's
//! version metadata names.
use vstd::prelude::*;
use crate::numbers::{
    all_digits, decimal, law_parse_decimal, lemma_decimal_digits, parse_u32, parse_u32_chars,
};
use crate::text::{
    chars_of, find_char_from, index_of, lemma_index_of, lemma_index_of_concat,
    lemma_index_of_unique,
};

verus! {

/// The `n`-th part of `s` when split at each `c`, as `str::split` gives
/// them; `None` past the last part.
pub open spec fn nth_part(s: Seq<char>, c: char, n: nat) -> Option<Seq<char>>
    decreases n,
{
    let i = index_of(s, c);
    if n == 0 {
        Some(s.take(i))
    } else if i < s.len() {
        nth_part(s.skip(i + 1), c, (n - 1) as nat)
    } else {
        None
    }
}

/// The number of a dotted version part: its digits before any `-`, read as
/// a `u32`, or 0 where that fails or the part is missing.
pub open spec fn version_number(version: Seq<char>, n: nat) -> u32 {
    match nth_part(version, '.', n) {
        Some(p) => match parse_u32(p.take(index_of(p, '-'))) {
            Some(x) => x,
            None => 0,
        },
        None => 0,
    }
}

pub open spec fn at_least3(a: int, b: int, c: int, x: int, y: int, z: int) -> bool {
    a > x || (a == x && (b > y || (b == y && c >= z)))
}

pub open spec fn at_least2(a: int, b: int, x: int, y: int) -> bool {
    a > x || (a == x && b >= y)
}

/// Java 21 from 1.20.5 (and any 1.21), Java 17 from 1.17, else Java 8.
pub open spec fn required_java(version: Seq<char>) -> u32 {
    let a = version_number(version, 0) as int;
    let b = version_number(version, 1) as int;
    let c = version_number(version, 2) as int;
    if at_least3(a, b, c, 1, 20, 5) || at_least2(a, b, 1, 21) {
        21
    } else if at_least2(a, b, 1, 17) {
        17
    } else {
        8
    }
}

/// The number of the dotted part that starts at `v[pos]`, and where the next
/// part starts, if there is one.
fn part_number(v: &Vec<char>, pos: usize) -> (r: (u32, Option<usize>))
    requires
        pos <= v.len(),
    ensures
        ({
            let s = v@.skip(pos as int);
            let p = s.take(index_of(s, '.'));
            &&& r.0 == match parse_u32(p.take(index_of(p, '-'))) {
                Some(x) => x,
                None => 0,
            }
            &&& index_of(s, '.') < s.len() <==> r.1 is Some
            &&& r.1 matches Some(next) ==> next <= v.len() && next == pos + index_of(s, '.') + 1
        }),
{
    let dot = find_char_from(v, pos, '.');
    let dash = find_char_from(v, pos, '-');
    let end = if dash < dot {
        dash
    } else {
        dot
    };
    let x = parse_u32_chars(v, pos, end);
    proof {
        let s = v@.skip(pos as int);
        let p = s.take(index_of(s, '.'));
        lemma_index_of(s, '.');
        lemma_index_of(s, '-');
        lemma_index_of(p, '-');
        let k = if index_of(s, '-') < index_of(s, '.') {
            index_of(s, '-')
        } else {
            index_of(s, '.')
        };
        assert forall|j: int| 0 <= j < k implies p[j] != '-' by {
            assert(p[j] == s[j]);
        }
        if k < p.len() {
            assert(p[k] == s[k]);
        }
        crate::text::lemma_index_of_unique(p, '-', k);
        assert(p.take(index_of(p, '-')) =~= v@.subrange(pos as int, end as int));
    }
    let val = match x {
        Some(n) => n,
        None => 0,
    };
    if dot < v.len() {
        (val, Some(dot + 1))
    } else {
        (val, None)
    }
}

/// Mojang's Java requirement for a game version, by the version number
/// alone.
pub fn required_java_version(game_version: &str) -> (j: u32)
    ensures
        j == required_java(game_version@),
{
    let v = chars_of(game_version);
    let ghost s = v@;
    let (a, next1) = part_number(&v, 0);
    assert(s.skip(0) =~= s);
    let (b, next2) = match next1 {
        Some(p) => part_number(&v, p),
        None => (0, None),
    };
    let c = match next2 {
        Some(p) => part_number(&v, p).0,
        None => 0,
    };
    proof {
        assert(a == version_number(s, 0));
        let i0 = index_of(s, '.');
        lemma_index_of(s, '.');
        if let Some(p1) = next1 {
            assert(s.skip(i0 + 1) =~= v@.skip(p1 as int));
            let s1 = v@.skip(p1 as int);
            assert(nth_part(s, '.', 1) == nth_part(s1, '.', 0));
            assert(b == version_number(s, 1));
            let i1 = index_of(s1, '.');
            lemma_index_of(s1, '.');
            assert(nth_part(s, '.', 2) == nth_part(s1, '.', 1));
            if let Some(p2) = next2 {
                assert(s1.skip(i1 + 1) =~= v@.skip(p2 as int));
                assert(nth_part(s1, '.', 1) == nth_part(v@.skip(p2 as int), '.', 0));
            } else {
                assert(nth_part(s1, '.', 1) is None);
            }
            assert(c == version_number(s, 2));
        } else {
            assert(nth_part(s, '.', 1) is None);
            assert(nth_part(s, '.', 2) is None);
        }
    }
    let ge_1_20_5 = a > 1 || (a == 1 && (b > 20 || (b == 20 && c >= 5)));
    let ge_1_21 = a > 1 || (a == 1 && b >= 21);
    let ge_1_17 = a > 1 || (a == 1 && b >= 17);
    if ge_1_20_5 || ge_1_21 {
        21
    } else if ge_1_17 {
        17
    } else {
        8
    }
}

/// Whether version `a.b.c` comes before `x.y.z`, part by part.
pub open spec fn version_before(a: u32, b: u32, c: u32, x: u32, y: u32, z: u32) -> bool {
    a < x || (a == x && b < y) || (a == x && b == y && c < z)
}

/// Mojang's thresholds: from 1.20.5 on (1.20.6, 1.21, 2.0, ...) a server
/// needs Java 21; from 1.17 up to 1.20.4 Java 17; before 1.17 Java 8.
pub proof fn law_java_thresholds(version: Seq<char>)
    ensures
        ({
            let a = version_number(version, 0);
            let b = version_number(version, 1);
            let c = version_number(version, 2);
            &&& !version_before(a, b, c, 1, 20, 5) ==> required_java(version) == 21
            &&& version_before(a, b, c, 1, 20, 5) && !version_before(a, b, 0, 1, 17, 0)
                ==> required_java(version) == 17
            &&& version_before(a, b, 0, 1, 17, 0) ==> required_java(version) == 8
        }),
{
}

/// A later game version never needs an older Java.
pub proof fn law_java_monotone(v: Seq<char>, w: Seq<char>)
    requires
        !version_before(
            version_number(w, 0),
            version_number(w, 1),
            version_number(w, 2),
            version_number(v, 0),
            version_number(v, 1),
            version_number(v, 2),
        ),
    ensures
        required_java(v) <= required_java(w),
{
    law_java_thresholds(v);
    law_java_thresholds(w);
}

/// A game version written `a.b.c` in decimal.
pub open spec fn written_version(a: u32, b: u32, c: u32) -> Seq<char> {
    decimal(a as nat) + seq!['.'] + decimal(b as nat) + seq!['.'] + decimal(c as nat)
}

proof fn lemma_decimal_part(n: u32)
    ensures
        !decimal(n as nat).contains('.'),
        index_of(decimal(n as nat), '.') == decimal(n as nat).len(),
        index_of(decimal(n as nat), '-') == decimal(n as nat).len(),
        parse_u32(decimal(n as nat).take(index_of(decimal(n as nat), '-'))) == Some(n),
{
    let d = decimal(n as nat);
    lemma_decimal_digits(n as nat);
    assert(all_digits(d));
    assert forall|j: int| 0 <= j < d.len() implies d[j] != '.' && d[j] != '-' by {
        assert(crate::numbers::is_digit(d[j]));
    }
    lemma_index_of_unique(d, '.', d.len() as int);
    lemma_index_of_unique(d, '-', d.len() as int);
    assert(d.take(d.len() as int) =~= d);
    law_parse_decimal(n);
}

/// A game version written `a.b.c` is read as the parts `a`, `b` and `c`.
pub proof fn law_version_parts(a: u32, b: u32, c: u32)
    ensures
        version_number(written_version(a, b, c), 0) == a,
        version_number(written_version(a, b, c), 1) == b,
        version_number(written_version(a, b, c), 2) == c,
{
    lemma_decimal_part(a);
    lemma_decimal_part(b);
    lemma_decimal_part(c);
    let da = decimal(a as nat);
    let db = decimal(b as nat);
    let dc = decimal(c as nat);
    let v = written_version(a, b, c);
    let r1 = db + seq!['.'] + dc;
    assert(v =~= da + (seq!['.'] + r1));
    lemma_index_of_concat(da, seq!['.'] + r1, '.');
    assert(index_of(seq!['.'] + r1, '.') == 0);
    assert(v.take(da.len() as int) =~= da);
    assert(v.skip(da.len() as int + 1) =~= r1);
    assert(r1 =~= db + (seq!['.'] + dc));
    lemma_index_of_concat(db, seq!['.'] + dc, '.');
    assert(index_of(seq!['.'] + dc, '.') == 0);
    assert(r1.take(db.len() as int) =~= db);
    assert(r1.skip(db.len() as int + 1) =~= dc);
    assert(dc.take(dc.len() as int) =~= dc);
    assert(nth_part(v, '.', 0) == Some(da));
    assert(nth_part(r1, '.', 0) == Some(db));
    assert(nth_part(v, '.', 1) == Some(db));
    assert(nth_part(dc, '.', 0) == Some(dc));
    assert(nth_part(r1, '.', 1) == Some(dc));
    assert(nth_part(v, '.', 2) == Some(dc));
}

/// The Java a game version written `a.b.c` needs: 21 from 1.20.5 on (so
/// 1.20.5, 1.20.6, 1.21.4, 2.0.0 all need 21), 17 from 1.17.0 up to
/// 1.20.4, and 8 before 1.17.
pub proof fn law_java_by_number(a: u32, b: u32, c: u32)
    ensures
        !version_before(a, b, c, 1, 20, 5) ==> required_java(written_version(a, b, c)) == 21,
        version_before(a, b, c, 1, 20, 5) && !version_before(a, b, c, 1, 17, 0) ==> required_java(
            written_version(a, b, c),
        ) == 17,
        version_before(a, b, c, 1, 17, 0) ==> required_java(written_version(a, b, c)) == 8,
{
    law_version_parts(a, b, c);
    law_java_thresholds(written_version(a, b, c));
}

/// The Java version a server is set up with: the major version that the
/// game version's metadata names where it was fetched and names one, else
/// the threshold rule of `required_java_version`.
pub fn resolve_java_version(game_version: &str, metadata_major: Option<u32>) -> (j: u32)
    ensures
        j == match metadata_major {
            Some(m) => m,
            None => required_java(game_version@),
        },
{
    match metadata_major {
        Some(m) => m,
        None => required_java_version(game_version),
    }
}

} // verus!
