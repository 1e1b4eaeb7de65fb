//! Version strings: the Node.js major-version requirement and the
//! "is the registry's version newer" comparison.
use vstd::prelude::*;
use crate::command::{decimal, digit_char};
use crate::text::{find_ch, chars_of, lemma_split_ch_nonempty, split_ch, split_chars, trim_chars, trim_start_ch, trim_start_ch_chars, trim_ws, trim_start_ws, trim_end_ws, is_ws};

verus! {

pub open spec fn is_digit(c: char) -> bool {
    '0' <= c <= '9'
}

pub open spec fn all_digits(s: Seq<char>) -> bool {
    forall|i: int| 0 <= i < s.len() ==> is_digit(#[trigger] s[i])
}

/// The value of a string of decimal digits.
pub open spec fn digits_value(s: Seq<char>) -> nat
    decreases s.len(),
{
    if s.len() == 0 {
        0
    } else {
        digits_value(s.drop_last()) * 10 + ((s.last() as u32) - ('0' as u32)) as nat
    }
}

/// `str::parse::<u32>`: an optional `+`, then one or more ASCII digits whose
/// value fits in a `u32`.
pub open spec fn parse_u32(s: Seq<char>) -> Option<u32> {
    let d = if s.len() > 0 && s[0] == '+' {
        s.drop_first()
    } else {
        s
    };
    if d.len() > 0 && all_digits(d) && digits_value(d) <= u32::MAX {
        Some(digits_value(d) as u32)
    } else {
        None
    }
}

/// The numbers among `pieces`, in order (`filter_map(|s| s.parse().ok())`).
pub open spec fn parse_all(pieces: Seq<Seq<char>>) -> Seq<u32>
    decreases pieces.len(),
{
    if pieces.len() == 0 {
        Seq::<u32>::empty()
    } else {
        let r = parse_all(pieces.drop_last());
        match parse_u32(pieces.last()) {
            Some(n) => r.push(n),
            None => r,
        }
    }
}

/// The numeric parts of a version string: surrounding whitespace and
/// leading `v`s left out, split at `.`, the pieces that are not numbers
/// dropped.
pub open spec fn version_parts(s: Seq<char>) -> Seq<u32> {
    parse_all(split_ch(trim_start_ch(trim_ws(s), 'v'), '.'))
}

/// The `i`-th part, 0 where there is none.
pub open spec fn part(p: Seq<u32>, i: int) -> u32 {
    if 0 <= i < p.len() {
        p[i]
    } else {
        0
    }
}

/// `l` is above `c` in the order of (major, minor, patch).
pub open spec fn parts_newer(c: Seq<u32>, l: Seq<u32>) -> bool {
    ||| part(l, 0) > part(c, 0)
    ||| part(l, 0) == part(c, 0) && part(l, 1) > part(c, 1)
    ||| part(l, 0) == part(c, 0) && part(l, 1) == part(c, 1) && part(l, 2) > part(c, 2)
}

/// An update is available when `latest` is newer than `current`.
pub open spec fn update_available(current: Seq<char>, latest: Seq<char>) -> bool {
    parts_newer(version_parts(current), version_parts(latest))
}

/// The major version that the requirement check reads: leading `v`s left
/// out, the text before the first `.`, 0 where that is not a number.
pub open spec fn major_of(v: Seq<char>) -> u32 {
    match parse_u32(split_ch(trim_start_ch(v, 'v'), '.')[0]) {
        Some(n) => n,
        None => 0,
    }
}

/// Node.js satisfies the requirement when its major version is at least 22.
pub open spec fn node_version_ok(version: Option<Seq<char>>) -> bool {
    match version {
        Some(v) => major_of(v) >= 22,
        None => false,
    }
}

proof fn lemma_digits_prefix(d: Seq<char>, k: int)
    requires
        0 <= k <= d.len(),
        all_digits(d),
    ensures
        digits_value(d.subrange(0, k)) <= digits_value(d),
    decreases d.len(),
{
    if k < d.len() {
        let t = d.drop_last();
        assert(all_digits(t)) by {
            assert forall|i: int| 0 <= i < t.len() implies is_digit(#[trigger] t[i]) by {
                assert(t[i] == d[i]);
            }
        }
        lemma_digits_prefix(t, k);
        assert(t.subrange(0, k) =~= d.subrange(0, k));
    } else {
        assert(d.subrange(0, k) =~= d);
    }
}

/// `str::parse::<u32>` on characters.
pub fn parse_u32_chars(s: &Vec<char>) -> (r: Option<u32>)
    ensures
        r == parse_u32(s@),
{
    let start: usize = if s.len() > 0 && s[0] == '+' {
        1
    } else {
        0
    };
    let ghost d = if s@.len() > 0 && s@[0] == '+' {
        s@.drop_first()
    } else {
        s@
    };
    assert(d =~= s@.subrange(start as int, s@.len() as int));
    if start == s.len() {
        return None;
    }
    let mut acc: u64 = 0;
    let mut k: usize = start;
    assert(d.subrange(0, 0) =~= Seq::<char>::empty());
    while k < s.len()
        invariant
            start <= k <= s.len(),
            start < s.len(),
            d == s@.subrange(start as int, s@.len() as int),
            d == (if s@.len() > 0 && s@[0] == '+' {
                s@.drop_first()
            } else {
                s@
            }),
            all_digits(d.subrange(0, (k - start) as int)),
            acc == digits_value(d.subrange(0, (k - start) as int)),
            acc <= u32::MAX,
        decreases s.len() - k,
    {
        let c = s[k];
        let ghost pre = d.subrange(0, (k - start) as int);
        let ghost nxt = d.subrange(0, (k - start + 1) as int);
        assert(nxt.drop_last() =~= pre);
        assert(nxt.last() == c);
        if !('0' <= c && c <= '9') {
            assert(!all_digits(d)) by {
                assert(d[(k - start) as int] == c);
            }
            return None;
        }
        let digit = (c as u32 - '0' as u32) as u64;
        acc = acc * 10 + digit;
        assert(all_digits(nxt)) by {
            assert forall|i: int| 0 <= i < nxt.len() implies is_digit(#[trigger] nxt[i]) by {
                if i < pre.len() {
                    assert(nxt[i] == pre[i]);
                }
            }
        }
        if acc > 0xFFFF_FFFF {
            proof {
                if all_digits(d) {
                    lemma_digits_prefix(d, (k - start + 1) as int);
                }
            }
            return None;
        }
        k = k + 1;
    }
    assert(d.subrange(0, (k - start) as int) =~= d);
    Some(acc as u32)
}

/// The numbers among the pieces, in order.
fn parse_all_pieces(pieces: &Vec<Vec<char>>) -> (r: Vec<u32>)
    ensures
        forall|ps: Seq<Seq<char>>|
            ps.len() == pieces@.len() && (forall|k: int|
                0 <= k < ps.len() ==> #[trigger] ps[k] == pieces@[k]@) ==> r@ == parse_all(ps),
{
    let mut r: Vec<u32> = Vec::new();
    let mut i: usize = 0;
    let ghost pv = pieces@.map_values(|p: Vec<char>| p@);
    assert(pv.subrange(0, 0) =~= Seq::<Seq<char>>::empty());
    while i < pieces.len()
        invariant
            i <= pieces.len(),
            pv == pieces@.map_values(|p: Vec<char>| p@),
            r@ == parse_all(pv.subrange(0, i as int)),
        decreases pieces.len() - i,
    {
        assert(pv.subrange(0, i + 1).drop_last() =~= pv.subrange(0, i as int));
        match parse_u32_chars(&pieces[i]) {
            Some(n) => r.push(n),
            None => {},
        }
        i = i + 1;
    }
    assert(pv.subrange(0, i as int) =~= pv);
    assert forall|ps: Seq<Seq<char>>|
        ps.len() == pieces@.len() && (forall|k: int|
            0 <= k < ps.len() ==> #[trigger] ps[k] == pieces@[k]@) implies r@ == parse_all(ps) by {
        assert(ps =~= pv);
    }
    r
}

/// The numeric parts of a version string.
pub fn parse_version_parts(s: &str) -> (r: Vec<u32>)
    ensures
        r@ == version_parts(s@),
{
    let v = chars_of(s);
    let t = trim_chars(&v);
    let u = trim_start_ch_chars(&t, 'v');
    let pieces = split_chars(&u, '.');
    parse_all_pieces(&pieces)
}

fn part_at(p: &Vec<u32>, i: usize) -> (r: u32)
    ensures
        r == part(p@, i as int),
{
    if i < p.len() {
        p[i]
    } else {
        0
    }
}

/// Whether `latest` is a newer version than `current` ("1.0.0", "v1.0.1",
/// surrounding whitespace allowed): the first three numeric parts are
/// compared in order, a missing part counting as 0.
pub fn compare_versions(current: &str, latest: &str) -> (r: bool)
    ensures
        r == update_available(current@, latest@),
{
    let c = parse_version_parts(current);
    let l = parse_version_parts(latest);
    let mut i: usize = 0;
    while i < 3
        invariant
            i <= 3,
            c@ == version_parts(current@),
            l@ == version_parts(latest@),
            forall|k: int| 0 <= k < i ==> part(l@, k) == part(c@, k),
        decreases 3 - i,
    {
        let cv = part_at(&c, i);
        let lv = part_at(&l, i);
        if lv > cv {
            return true;
        } else if lv < cv {
            return false;
        }
        i = i + 1;
    }
    false
}

/// Whether the Node.js version (such as "v22.1.0") has a major version of
/// at least 22; `None` (no Node.js) does not.
pub fn check_node_version_requirement(version: &Option<String>) -> (r: bool)
    ensures
        r == node_version_ok(
            match version {
                Some(v) => Some(v@),
                None => None,
            },
        ),
{
    match version {
        Some(v) => {
            let chars = chars_of(v.as_str());
            let t = trim_start_ch_chars(&chars, 'v');
            let pieces = split_chars(&t, '.');
            proof {
                lemma_split_ch_nonempty(t@, '.');
            }
            let major = match parse_u32_chars(&pieces[0]) {
                Some(n) => n,
                None => 0,
            };
            major >= 22
        },
        None => false,
    }
}

/// No version is newer than itself: a current version never has itself as
/// an update.
pub proof fn law_no_update_to_same_version(v: Seq<char>)
    ensures
        !update_available(v, v),
{
}

/// If `b` is an update for `a`, then `a` is no update for `b`.
pub proof fn law_update_asymmetric(a: Seq<char>, b: Seq<char>)
    ensures
        update_available(a, b) ==> !update_available(b, a),
{
}

/// Updates chain: if `b` is newer than `a` and `c` newer than `b`, then `c`
/// is newer than `a`.
pub proof fn law_update_transitive(a: Seq<char>, b: Seq<char>, c: Seq<char>)
    ensures
        update_available(a, b) && update_available(b, c) ==> update_available(a, c),
{
}


proof fn lemma_trim_with_v(s: Seq<char>)
    requires
        trim_ws(s) == s,
    ensures
        trim_ws(seq!['v'] + s) == seq!['v'] + s,
{
    crate::command::lemma_trim_ws_shape(s);
    let t = seq!['v'] + s;
    assert(!is_ws('v'));
    assert(t[0] == 'v');
    assert(trim_start_ws(t) == t);
    if s.len() > 0 {
        assert(t.last() == s.last());
    } else {
        assert(t.last() == 'v');
    }
    assert(trim_end_ws(t) == t);
}

/// A leading `v` makes no difference to the comparison: `v1.2.3` and
/// `1.2.3` are the same version (for a version written without
/// surrounding whitespace).
pub proof fn law_v_prefix_ignored(s: Seq<char>, other: Seq<char>)
    requires
        trim_ws(s) == s,
    ensures
        update_available(seq!['v'] + s, other) == update_available(s, other),
        update_available(other, seq!['v'] + s) == update_available(other, s),
{
    lemma_trim_with_v(s);
    let t = seq!['v'] + s;
    assert(t.drop_first() =~= s);
    assert(trim_start_ch(t, 'v') == trim_start_ch(s, 'v'));
    assert(version_parts(t) == version_parts(s));
}

proof fn lemma_decimal(n: nat)
    ensures
        decimal(n).len() > 0,
        all_digits(decimal(n)),
        digits_value(decimal(n)) == n,
    decreases n,
{
    let d = decimal(n);
    if n < 10 {
        assert(d =~= seq![digit_char(n)]);
        assert(d.drop_last() =~= Seq::<char>::empty());
        assert(digits_value(d.drop_last()) == 0);
    } else {
        lemma_decimal(n / 10);
        let h = decimal(n / 10);
        assert(d.drop_last() =~= h);
        assert(d.last() == digit_char(n % 10));
        assert forall|i: int| 0 <= i < d.len() implies is_digit(#[trigger] d[i]) by {
            if i < h.len() {
                assert(d[i] == h[i]);
            }
        }
        assert(n == (n / 10) * 10 + n % 10);
    }
}

/// The Node.js requirement goes by the major version alone and has no
/// upper bound: `v<n>` followed by nothing or by `.minor...` satisfies it
/// exactly when `n` is at least 22.
pub proof fn law_node_requirement_by_major(n: nat, rest: Seq<char>)
    requires
        n <= u32::MAX,
        rest.len() == 0 || rest[0] == '.',
    ensures
        node_version_ok(Some(seq!['v'] + decimal(n) + rest)) == (n >= 22),
{
    lemma_decimal(n);
    let d = decimal(n);
    let v = seq!['v'] + d + rest;
    let u = d + rest;
    assert(v.drop_first() =~= u);
    assert(is_digit(d[0]));
    assert(u[0] == d[0]);
    assert(trim_start_ch(u, 'v') == u);
    assert(trim_start_ch(v, 'v') == u);
    crate::text::lemma_find_ch(u, '.');
    crate::text::lemma_split_ch_first(u, '.');
    assert forall|j: int| 0 <= j < d.len() implies u[j] != '.' by {
        assert(u[j] == d[j]);
        assert(is_digit(d[j]));
    }
    if rest.len() == 0 {
        assert(u =~= d);
        assert(find_ch(u, '.') is None);
    } else {
        assert(u[d.len() as int] == '.');
        assert(find_ch(u, '.') == Some(d.len() as int));
        assert(u.subrange(0, d.len() as int) =~= d);
    }
    assert(split_ch(u, '.')[0] == d);
    assert(d[0] != '+');
    assert(parse_u32(d) == Some(n as u32));
}

} // verus!
