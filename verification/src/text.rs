//! Character-level text operations with their meaning over `Seq<char>`:
//! Unicode whitespace, trimming, splitting on a character, prefixes.
use vstd::prelude::*;

verus! {

/// Unicode `White_Space`, the set that `char::is_whitespace` tests.
pub open spec fn is_ws(c: char) -> bool {
    let u = c as u32;
    ||| 0x09 <= u <= 0x0D
    ||| u == 0x20
    ||| u == 0x85
    ||| u == 0xA0
    ||| u == 0x1680
    ||| 0x2000 <= u <= 0x200A
    ||| u == 0x2028
    ||| u == 0x2029
    ||| u == 0x202F
    ||| u == 0x205F
    ||| u == 0x3000
}

/// `s` without its leading whitespace.
pub open spec fn trim_start_ws(s: Seq<char>) -> Seq<char>
    decreases s.len(),
{
    if s.len() > 0 && is_ws(s[0]) {
        trim_start_ws(s.drop_first())
    } else {
        s
    }
}

/// `s` without its trailing whitespace.
pub open spec fn trim_end_ws(s: Seq<char>) -> Seq<char>
    decreases s.len(),
{
    if s.len() > 0 && is_ws(s.last()) {
        trim_end_ws(s.drop_last())
    } else {
        s
    }
}

/// `str::trim`: whitespace removed from both ends.
pub open spec fn trim_ws(s: Seq<char>) -> Seq<char> {
    trim_end_ws(trim_start_ws(s))
}

/// `s` without any leading copy of `ch` (`trim_start_matches(ch)`).
pub open spec fn trim_start_ch(s: Seq<char>, ch: char) -> Seq<char>
    decreases s.len(),
{
    if s.len() > 0 && s[0] == ch {
        trim_start_ch(s.drop_first(), ch)
    } else {
        s
    }
}

/// `s` without any trailing copy of `ch` (`trim_end_matches(ch)`).
pub open spec fn trim_end_ch(s: Seq<char>, ch: char) -> Seq<char>
    decreases s.len(),
{
    if s.len() > 0 && s.last() == ch {
        trim_end_ch(s.drop_last(), ch)
    } else {
        s
    }
}

/// `trim_matches(ch)`: every copy of `ch` removed from both ends.
pub open spec fn trim_ch(s: Seq<char>, ch: char) -> Seq<char> {
    trim_end_ch(trim_start_ch(s, ch), ch)
}

/// The pieces of `str::split(ch)`: the text between separators, in order;
/// there is always one piece more than there are separators.
pub open spec fn split_ch(s: Seq<char>, ch: char) -> Seq<Seq<char>>
    decreases s.len(),
{
    if s.len() == 0 {
        seq![Seq::<char>::empty()]
    } else {
        let r = split_ch(s.drop_last(), ch);
        if s.last() == ch {
            r.push(Seq::<char>::empty())
        } else {
            r.update(r.len() - 1, r.last().push(s.last()))
        }
    }
}

pub open spec fn has_prefix(s: Seq<char>, p: Seq<char>) -> bool {
    p.len() <= s.len() && s.subrange(0, p.len() as int) == p
}

pub open spec fn has_suffix(s: Seq<char>, p: Seq<char>) -> bool {
    p.len() <= s.len() && s.subrange(s.len() - p.len(), s.len() as int) == p
}

/// The index of the first `ch` in `s`, if any.
pub open spec fn find_ch(s: Seq<char>, ch: char) -> Option<int>
    decreases s.len(),
{
    if s.len() == 0 {
        None
    } else {
        match find_ch(s.drop_last(), ch) {
            Some(i) => Some(i),
            None => if s.last() == ch {
                Some(s.len() - 1)
            } else {
                None
            },
        }
    }
}

/// The views of a sequence of strings.
pub open spec fn views(v: Seq<String>) -> Seq<Seq<char>> {
    v.map_values(|s: String| s@)
}

pub proof fn lemma_split_ch_nonempty(s: Seq<char>, ch: char)
    ensures
        split_ch(s, ch).len() >= 1,
    decreases s.len(),
{
    if s.len() > 0 {
        lemma_split_ch_nonempty(s.drop_last(), ch);
    }
}

/// No piece of a split holds the separator.
pub proof fn lemma_split_ch_pieces(s: Seq<char>, ch: char)
    ensures
        forall|i: int, j: int|
            0 <= i < split_ch(s, ch).len() && 0 <= j < split_ch(s, ch)[i].len() ==> split_ch(
                s,
                ch,
            )[i][j] != ch,
    decreases s.len(),
{
    if s.len() > 0 {
        lemma_split_ch_pieces(s.drop_last(), ch);
        lemma_split_ch_nonempty(s.drop_last(), ch);
    }
}

pub proof fn lemma_find_ch(s: Seq<char>, ch: char)
    ensures
        match find_ch(s, ch) {
            Some(i) => 0 <= i < s.len() && s[i] == ch && forall|j: int| 0 <= j < i ==> s[j] != ch,
            None => forall|j: int| 0 <= j < s.len() ==> s[j] != ch,
        },
    decreases s.len(),
{
    if s.len() > 0 {
        let t = s.drop_last();
        lemma_find_ch(t, ch);
        assert(forall|j: int| 0 <= j < t.len() ==> t[j] == s[j]);
    }
}

/// The first piece of a split is the text before the first separator (all
/// of it when there is none), and there is a single piece exactly when the
/// text holds no separator.
pub proof fn lemma_split_ch_first(s: Seq<char>, ch: char)
    ensures
        split_ch(s, ch).len() >= 1,
        (split_ch(s, ch).len() == 1) == (find_ch(s, ch) is None),
        split_ch(s, ch)[0] == match find_ch(s, ch) {
            Some(i) => s.subrange(0, i),
            None => s,
        },
    decreases s.len(),
{
    if s.len() == 0 {
    } else {
        let t = s.drop_last();
        lemma_split_ch_first(t, ch);
        lemma_find_ch(t, ch);
        match find_ch(t, ch) {
            Some(i) => {
                assert(t.subrange(0, i) =~= s.subrange(0, i));
            },
            None => {
                if s.last() == ch {
                    assert(t =~= s.subrange(0, s.len() - 1));
                } else {
                    assert(t.push(s.last()) =~= s);
                }
            },
        }
    }
}

/// Splitting `s`, a separator and a piece without separators gives the
/// pieces of `s` and then that piece.
pub proof fn lemma_split_append_piece(s: Seq<char>, line: Seq<char>, ch: char)
    requires
        forall|j: int| 0 <= j < line.len() ==> line[j] != ch,
    ensures
        split_ch(s.push(ch) + line, ch) == split_ch(s, ch).push(line),
    decreases line.len(),
{
    if line.len() == 0 {
        assert(s.push(ch) + line =~= s.push(ch));
        assert((s.push(ch)).drop_last() =~= s);
        assert(line =~= Seq::<char>::empty());
    } else {
        let pre = line.drop_last();
        assert forall|j: int| 0 <= j < pre.len() implies pre[j] != ch by {
            assert(pre[j] == line[j]);
        }
        assert(pre.push(line.last()) =~= line);
        assert(line.last() != ch);
        lemma_split_append_piece(s, pre, ch);
        let all = s.push(ch) + line;
        assert(all.drop_last() =~= s.push(ch) + pre);
        assert(all.last() == line.last());
        lemma_split_ch_nonempty(s.push(ch) + pre, ch);
        assert(split_ch(s, ch).push(pre).update(
            split_ch(s, ch).push(pre).len() - 1,
            pre.push(line.last()),
        ) =~= split_ch(s, ch).push(line));
        assert(pre.push(line.last()) =~= line);
    }
}

/// `String::push`.
#[verifier::external_body]
fn push_char(s: &mut String, c: char)
    ensures
        final(s)@ == old(s)@.push(c),
{
    s.push(c);
}

/// The characters of `s`, in order.
pub fn chars_of(s: &str) -> (v: Vec<char>)
    ensures
        v@ == s@,
{
    let n = s.unicode_len();
    let mut v: Vec<char> = Vec::new();
    let mut i: usize = 0;
    while i < n
        invariant
            n == s@.len(),
            i <= n,
            v@ == s@.subrange(0, i as int),
        decreases n - i,
    {
        v.push(s.get_char(i));
        i = i + 1;
    }
    v
}

/// The string made of the characters of `v`.
pub fn string_of(v: &Vec<char>) -> (s: String)
    ensures
        s@ == v@,
{
    let mut s = String::new();
    let mut i: usize = 0;
    while i < v.len()
        invariant
            i <= v.len(),
            s@ == v@.subrange(0, i as int),
        decreases v.len() - i,
    {
        push_char(&mut s, v[i]);
        i = i + 1;
    }
    s
}

/// `a` followed by `b`.
pub fn cat(a: &str, b: &str) -> (r: String)
    ensures
        r@ == a@ + b@,
{
    let mut r = String::from_str(a);
    r.append(b);
    r
}

/// `a`, `b` and `c`, one after the other.
pub fn cat3(a: &str, b: &str, c: &str) -> (r: String)
    ensures
        r@ == a@ + b@ + c@,
{
    let mut r = String::from_str(a);
    r.append(b);
    r.append(c);
    r
}

/// A copy of `s`.
pub fn copy_str(s: &str) -> (r: String)
    ensures
        r@ == s@,
{
    String::from_str(s)
}

/// Equality of two strings by their characters.
pub fn str_eq(a: &str, b: &str) -> (r: bool)
    ensures
        r == (a@ == b@),
{
    let x = String::from_str(a);
    let y = String::from_str(b);
    x == y
}

/// `char::is_whitespace`.
pub fn is_whitespace(c: char) -> (r: bool)
    ensures
        r == is_ws(c),
{
    let u = c as u32;
    (0x09 <= u && u <= 0x0D) || u == 0x20 || u == 0x85 || u == 0xA0 || u == 0x1680 || (0x2000
        <= u && u <= 0x200A) || u == 0x2028 || u == 0x2029 || u == 0x202F || u == 0x205F || u
        == 0x3000
}

/// The characters of `v` from `i` up to `j`.
pub fn sub_chars(v: &Vec<char>, i: usize, j: usize) -> (r: Vec<char>)
    requires
        i <= j <= v.len(),
    ensures
        r@ == v@.subrange(i as int, j as int),
{
    let mut r: Vec<char> = Vec::new();
    let mut k: usize = i;
    while k < j
        invariant
            i <= k <= j <= v.len(),
            r@ == v@.subrange(i as int, k as int),
        decreases j - k,
    {
        r.push(v[k]);
        k = k + 1;
    }
    r
}

proof fn lemma_trim_start_ws_step(s: Seq<char>, i: int)
    requires
        0 <= i < s.len(),
        is_ws(s[i]),
    ensures
        trim_start_ws(s.subrange(i, s.len() as int)) == trim_start_ws(
            s.subrange(i + 1, s.len() as int),
        ),
{
    assert(s.subrange(i, s.len() as int).drop_first() =~= s.subrange(i + 1, s.len() as int));
}

proof fn lemma_trim_end_ws_step(s: Seq<char>, j: int)
    requires
        0 < j <= s.len(),
        is_ws(s[j - 1]),
    ensures
        trim_end_ws(s.subrange(0, j)) == trim_end_ws(s.subrange(0, j - 1)),
{
    assert(s.subrange(0, j).drop_last() =~= s.subrange(0, j - 1));
}

/// The number of leading whitespace characters of `v`.
fn ws_prefix_len(v: &Vec<char>) -> (i: usize)
    ensures
        i <= v.len(),
        trim_start_ws(v@) == v@.subrange(i as int, v.len() as int),
{
    let n = v.len();
    let mut i: usize = 0;
    assert(v@.subrange(0, n as int) =~= v@);
    while i < n && is_whitespace(v[i])
        invariant
            i <= n == v.len(),
            trim_start_ws(v@) == trim_start_ws(v@.subrange(i as int, n as int)),
        decreases n - i,
    {
        proof {
            lemma_trim_start_ws_step(v@, i as int);
        }
        i = i + 1;
    }
    i
}

/// The end of `v` once its trailing whitespace is left out, searching no
/// lower than `lo`.
fn ws_suffix_start(v: &Vec<char>, lo: usize) -> (j: usize)
    requires
        lo <= v.len(),
    ensures
        lo <= j <= v.len(),
        trim_end_ws(v@.subrange(lo as int, v.len() as int)) == v@.subrange(lo as int, j as int),
{
    let n = v.len();
    let ghost t = v@.subrange(lo as int, n as int);
    let mut j: usize = n;
    assert(t.subrange(0, (j - lo) as int) =~= t);
    while j > lo && is_whitespace(v[j - 1])
        invariant
            lo <= j <= n == v.len(),
            t == v@.subrange(lo as int, n as int),
            trim_end_ws(t) == trim_end_ws(t.subrange(0, (j - lo) as int)),
        decreases j,
    {
        proof {
            lemma_trim_end_ws_step(t, (j - lo) as int);
        }
        j = j - 1;
    }
    assert(t.subrange(0, (j - lo) as int) =~= v@.subrange(lo as int, j as int));
    j
}

/// `str::trim` on characters.
pub fn trim_chars(v: &Vec<char>) -> (r: Vec<char>)
    ensures
        r@ == trim_ws(v@),
{
    let i = ws_prefix_len(v);
    let j = ws_suffix_start(v, i);
    sub_chars(v, i, j)
}

/// `str::trim`.
pub fn trim(s: &str) -> (r: String)
    ensures
        r@ == trim_ws(s@),
{
    let v = chars_of(s);
    let t = trim_chars(&v);
    string_of(&t)
}

/// `trim_matches(ch)` on characters.
pub fn trim_ch_chars(v: &Vec<char>, ch: char) -> (r: Vec<char>)
    ensures
        r@ == trim_ch(v@, ch),
{
    let n = v.len();
    let mut i: usize = 0;
    assert(v@.subrange(0, n as int) =~= v@);
    while i < n && v[i] == ch
        invariant
            i <= n == v.len(),
            trim_start_ch(v@, ch) == trim_start_ch(v@.subrange(i as int, n as int), ch),
        decreases n - i,
    {
        assert(v@.subrange(i as int, n as int).drop_first() =~= v@.subrange(
            i + 1,
            n as int,
        ));
        i = i + 1;
    }
    let ghost t = v@.subrange(i as int, n as int);
    let mut j: usize = n;
    assert(t.subrange(0, (j - i) as int) =~= t);
    while j > i && v[j - 1] == ch
        invariant
            i <= j <= n == v.len(),
            t == v@.subrange(i as int, n as int),
            trim_end_ch(t, ch) == trim_end_ch(t.subrange(0, (j - i) as int), ch),
        decreases j,
    {
        assert(t.subrange(0, (j - i) as int).drop_last() =~= t.subrange(0, (j - 1 - i) as int));
        j = j - 1;
    }
    assert(t.subrange(0, (j - i) as int) =~= v@.subrange(i as int, j as int));
    sub_chars(v, i, j)
}

/// `trim_start_matches(ch)` on characters.
pub fn trim_start_ch_chars(v: &Vec<char>, ch: char) -> (r: Vec<char>)
    ensures
        r@ == trim_start_ch(v@, ch),
{
    let n = v.len();
    let mut i: usize = 0;
    assert(v@.subrange(0, n as int) =~= v@);
    while i < n && v[i] == ch
        invariant
            i <= n == v.len(),
            trim_start_ch(v@, ch) == trim_start_ch(v@.subrange(i as int, n as int), ch),
        decreases n - i,
    {
        assert(v@.subrange(i as int, n as int).drop_first() =~= v@.subrange(
            i + 1,
            n as int,
        ));
        i = i + 1;
    }
    sub_chars(v, i, n)
}

/// The pieces of `str::split(ch)`.
pub fn split_chars(v: &Vec<char>, ch: char) -> (r: Vec<Vec<char>>)
    ensures
        r@.len() == split_ch(v@, ch).len(),
        forall|k: int| 0 <= k < r@.len() ==> #[trigger] r@[k]@ == split_ch(v@, ch)[k],
{
    let mut r: Vec<Vec<char>> = Vec::new();
    r.push(Vec::new());
    let mut i: usize = 0;
    assert(v@.subrange(0, 0) =~= Seq::<char>::empty());
    while i < v.len()
        invariant
            i <= v.len(),
            r@.len() == split_ch(v@.subrange(0, i as int), ch).len(),
            forall|k: int|
                0 <= k < r@.len() ==> #[trigger] r@[k]@ == split_ch(v@.subrange(0, i as int), ch)[k],
        decreases v.len() - i,
    {
        let ghost pre = v@.subrange(0, i as int);
        let ghost nxt = v@.subrange(0, i + 1);
        assert(nxt.drop_last() =~= pre);
        assert(nxt.last() == v@[i as int]);
        proof {
            lemma_split_ch_nonempty(pre, ch);
        }
        if v[i] == ch {
            r.push(Vec::new());
        } else {
            let mut last = r.pop().unwrap();
            last.push(v[i]);
            r.push(last);
        }
        i = i + 1;
    }
    assert(v@.subrange(0, v.len() as int) =~= v@);
    r
}

/// Whether `v` starts with `p`.
pub fn starts_with_chars(v: &Vec<char>, p: &Vec<char>) -> (r: bool)
    ensures
        r == has_prefix(v@, p@),
{
    if p.len() > v.len() {
        return false;
    }
    let mut i: usize = 0;
    while i < p.len()
        invariant
            p.len() <= v.len(),
            i <= p.len(),
            forall|k: int| 0 <= k < i ==> v@[k] == p@[k],
        decreases p.len() - i,
    {
        if v[i] != p[i] {
            assert(v@.subrange(0, p@.len() as int)[i as int] != p@[i as int]);
            return false;
        }
        i = i + 1;
    }
    assert(v@.subrange(0, p@.len() as int) =~= p@);
    true
}

/// Whether `v` ends with `p`.
pub fn ends_with_chars(v: &Vec<char>, p: &Vec<char>) -> (r: bool)
    ensures
        r == has_suffix(v@, p@),
{
    if p.len() > v.len() {
        return false;
    }
    let off = v.len() - p.len();
    let mut i: usize = 0;
    while i < p.len()
        invariant
            p.len() <= v.len(),
            off == v.len() - p.len(),
            i <= p.len(),
            forall|k: int| 0 <= k < i ==> v@[off + k] == p@[k],
        decreases p.len() - i,
    {
        if v[off + i] != p[i] {
            assert(v@.subrange(off as int, v@.len() as int)[i as int] != p@[i as int]);
            return false;
        }
        i = i + 1;
    }
    assert(v@.subrange(off as int, v@.len() as int) =~= p@);
    true
}

/// The index of the first `ch` in `v`.
pub fn find_char(v: &Vec<char>, ch: char) -> (r: Option<usize>)
    ensures
        match r {
            Some(i) => find_ch(v@, ch) == Some(i as int),
            None => find_ch(v@, ch) is None,
        },
{
    proof {
        lemma_find_ch(v@, ch);
    }
    let mut i: usize = 0;
    while i < v.len()
        invariant
            i <= v.len(),
            forall|j: int| 0 <= j < i ==> v@[j] != ch,
        decreases v.len() - i,
    {
        if v[i] == ch {
            proof {
                let s = v@;
                lemma_find_ch(s, ch);
                match find_ch(s, ch) {
                    Some(k) => {
                        if k < i {
                            assert(s[k] != ch);
                        } else if k > i {
                            assert(s[i as int] != ch);
                        }
                    },
                    None => {
                        assert(s[i as int] != ch);
                    },
                }
            }
            return Some(i);
        }
        i = i + 1;
    }
    None
}

} // verus!
