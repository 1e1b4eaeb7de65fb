//! The `~/.openclaw/env` file: `KEY=value` lines, read as a shell that
//! sources the file would set them.
use vstd::prelude::*;
use crate::text::{
    chars_of, find_ch, find_char, has_prefix, split_ch, split_chars, starts_with_chars,
    string_of, sub_chars, trim_ch, trim_ch_chars, trim_chars, trim_ws,
};
use crate::command::env_views;
use crate::text::{is_whitespace, is_ws, trim_end_ws, trim_start_ws};

verus! {

/// A `#` at `j` that follows whitespace.
pub open spec fn comment_at(s: Seq<char>, j: int) -> bool {
    s[j] == '#' && is_ws(s[j - 1])
}

/// Where an inline comment starts in a value: the first `#` that follows
/// whitespace.
pub open spec fn comment_start(s: Seq<char>) -> Option<int>
    decreases s.len(),
{
    if s.len() < 2 {
        None
    } else {
        match comment_start(s.drop_last()) {
            Some(i) => Some(i),
            None => if comment_at(s, s.len() - 1) {
                Some(s.len() - 1)
            } else {
                None
            },
        }
    }
}

/// An unquoted value: the text before an inline comment, trimmed, with any
/// stray `"` and then `'` at its ends removed.
pub open spec fn unquoted_value(v: Seq<char>) -> Seq<char> {
    let c = match comment_start(v) {
        Some(k) => v.subrange(0, k),
        None => v,
    };
    trim_ch(trim_ch(trim_ws(c), '"'), '\'')
}

/// What may follow a closing quote for the quoted text to be the whole
/// value: nothing, or whitespace and then a comment.
pub open spec fn quote_closes_value(tail: Seq<char>) -> bool {
    tail.len() == 0 || (is_ws(tail[0]) && trim_ws(tail).len() > 0 && trim_ws(tail)[0] == '#')
}

/// The value that a shell gives the text after `=`: a value in `"` or `'`
/// is the text up to its closing quote when only a comment (or nothing)
/// follows that quote; any other value ends before an inline comment.
pub open spec fn env_value(raw: Seq<char>) -> Seq<char> {
    let v = trim_ws(raw);
    if v.len() > 0 && (v[0] == '"' || v[0] == '\'') {
        match find_ch(v.drop_first(), v[0]) {
            Some(j) => if quote_closes_value(v.subrange(j + 2, v.len() as int)) {
                v.subrange(1, j + 1)
            } else {
                unquoted_value(raw)
            },
            None => unquoted_value(raw),
        }
    } else {
        unquoted_value(raw)
    }
}

/// The assignment on one line of the file, if it holds one, as `source`
/// reads it: the line is trimmed; empty lines and `#` comments hold none;
/// an `export ` prefix is left out; the key is the trimmed text before the
/// first `=`, the value is `env_value` of the text after it.
pub open spec fn parse_env_line(line: Seq<char>) -> Option<(Seq<char>, Seq<char>)> {
    let t = trim_ws(line);
    if t.len() == 0 || t[0] == '#' {
        None
    } else {
        let l = if has_prefix(t, "export "@) {
            t.subrange(("export "@).len() as int, t.len() as int)
        } else {
            t
        };
        match find_ch(l, '=') {
            Some(i) => Some(
                (trim_ws(l.subrange(0, i)), env_value(l.subrange(i + 1, l.len() as int))),
            ),
            None => None,
        }
    }
}

/// The assignments of the lines, in file order.
pub open spec fn assignments(lines: Seq<Seq<char>>) -> Seq<(Seq<char>, Seq<char>)>
    decreases lines.len(),
{
    if lines.len() == 0 {
        Seq::<(Seq<char>, Seq<char>)>::empty()
    } else {
        let r = assignments(lines.drop_last());
        match parse_env_line(lines.last()) {
            Some(p) => r.push(p),
            None => r,
        }
    }
}

/// The variables that a list of assignments sets: each in turn, a later
/// one replacing an earlier one of the same key.
pub open spec fn pairs_map(p: Seq<(Seq<char>, Seq<char>)>) -> Map<Seq<char>, Seq<char>>
    decreases p.len(),
{
    if p.len() == 0 {
        Map::<Seq<char>, Seq<char>>::empty()
    } else {
        pairs_map(p.drop_last()).insert(p.last().0, p.last().1)
    }
}

/// The variables that the content of the env file sets.
pub open spec fn env_vars_of(content: Seq<char>) -> Map<Seq<char>, Seq<char>> {
    pairs_map(assignments(split_ch(content, '\n')))
}

pub open spec fn unique_keys(p: Seq<(Seq<char>, Seq<char>)>) -> bool {
    forall|i: int, j: int| 0 <= i < j < p.len() ==> p[i].0 != p[j].0
}

proof fn lemma_pairs_map_update(p: Seq<(Seq<char>, Seq<char>)>, j: int, v: Seq<char>)
    requires
        unique_keys(p),
        0 <= j < p.len(),
    ensures
        pairs_map(p.update(j, (p[j].0, v))) == pairs_map(p).insert(p[j].0, v),
    decreases p.len(),
{
    let k = p[j].0;
    let q = p.update(j, (k, v));
    if j == p.len() - 1 {
        assert(q.drop_last() =~= p.drop_last());
        assert(pairs_map(q) =~= pairs_map(p).insert(k, v));
    } else {
        let pd = p.drop_last();
        assert(unique_keys(pd)) by {
            assert forall|a: int, b: int| 0 <= a < b < pd.len() implies pd[a].0 != pd[b].0 by {
                assert(pd[a] == p[a] && pd[b] == p[b]);
            }
        }
        lemma_pairs_map_update(pd, j, v);
        assert(q.drop_last() =~= pd.update(j, (k, v)));
        assert(p.last().0 != k);
        assert(pairs_map(q) =~= pairs_map(p).insert(k, v));
    }
}

proof fn lemma_pairs_map_keys(p: Seq<(Seq<char>, Seq<char>)>, k: Seq<char>)
    requires
        forall|i: int| 0 <= i < p.len() ==> p[i].0 != k,
    ensures
        !pairs_map(p).dom().contains(k),
    decreases p.len(),
{
    if p.len() > 0 {
        lemma_pairs_map_keys(p.drop_last(), k);
    }
}

proof fn lemma_comment_start(s: Seq<char>)
    ensures
        match comment_start(s) {
            Some(k) => 1 <= k < s.len() && comment_at(s, k) && forall|j: int|
                1 <= j < k ==> !#[trigger] comment_at(s, j),
            None => forall|j: int| 1 <= j < s.len() ==> !#[trigger] comment_at(s, j),
        },
    decreases s.len(),
{
    if s.len() >= 2 {
        let t = s.drop_last();
        lemma_comment_start(t);
        assert(forall|j: int| 0 <= j < t.len() ==> t[j] == s[j]);
        assert(forall|j: int| 1 <= j < t.len() ==> comment_at(t, j) == comment_at(s, j));
    }
}

/// Where an inline comment starts in `v`.
fn find_comment(v: &Vec<char>) -> (r: Option<usize>)
    ensures
        match r {
            Some(k) => comment_start(v@) == Some(k as int),
            None => comment_start(v@) is None,
        },
{
    proof {
        lemma_comment_start(v@);
    }
    let mut k: usize = 1;
    while k < v.len()
        invariant
            1 <= k,
            forall|j: int| 1 <= j < k && j < v@.len() ==> !#[trigger] comment_at(v@, j),
        decreases v.len() - k,
    {
        if v[k] == '#' && is_whitespace(v[k - 1]) {
            proof {
                let s = v@;
                lemma_comment_start(s);
                match comment_start(s) {
                    Some(m) => {
                        assert(comment_at(s, k as int));
                        if m < k {
                            assert(!comment_at(s, m));
                        } else if m > k {
                            assert(!comment_at(s, k as int));
                        }
                    },
                    None => {
                        assert(!comment_at(s, k as int));
                    },
                }
            }
            return Some(k);
        }
        k = k + 1;
    }
    None
}

fn unquoted_chars(v: &Vec<char>) -> (r: Vec<char>)
    ensures
        r@ == unquoted_value(v@),
{
    proof {
        lemma_comment_start(v@);
    }
    let c = match find_comment(v) {
        Some(k) => sub_chars(v, 0, k),
        None => {
            assert(v@.subrange(0, v@.len() as int) =~= v@);
            sub_chars(v, 0, v.len())
        },
    };
    trim_ch_chars(&trim_ch_chars(&trim_chars(&c), '"'), '\'')
}

/// `env_value`, computed.
fn env_value_chars(raw: &Vec<char>) -> (r: Vec<char>)
    ensures
        r@ == env_value(raw@),
{
    let v = trim_chars(raw);
    if v.len() > 0 && (v[0] == '"' || v[0] == '\'') {
        let q = v[0];
        let rest = sub_chars(&v, 1, v.len());
        assert(rest@ =~= v@.drop_first());
        match find_char(&rest, q) {
            Some(j) => {
                proof {
                    crate::text::lemma_find_ch(rest@, q);
                }
                let tail = sub_chars(&v, j + 2, v.len());
                let closes = if tail.len() == 0 {
                    true
                } else if is_whitespace(tail[0]) {
                    let t = trim_chars(&tail);
                    t.len() > 0 && t[0] == '#'
                } else {
                    false
                };
                if closes {
                    sub_chars(&v, 1, j + 1)
                } else {
                    unquoted_chars(raw)
                }
            },
            None => unquoted_chars(raw),
        }
    } else {
        unquoted_chars(raw)
    }
}

/// The assignment on one line, computed.
fn parse_line(line: &Vec<char>) -> (r: Option<(String, String)>)
    ensures
        match r {
            Some(p) => parse_env_line(line@) == Some((p.0@, p.1@)),
            None => parse_env_line(line@) is None,
        },
{
    let t = trim_chars(line);
    if t.len() == 0 || t[0] == '#' {
        return None;
    }
    let export = chars_of("export ");
    let l = if starts_with_chars(&t, &export) {
        sub_chars(&t, export.len(), t.len())
    } else {
        sub_chars(&t, 0, t.len())
    };
    assert(t@.subrange(0, t@.len() as int) =~= t@);
    match find_char(&l, '=') {
        Some(i) => {
            proof {
                crate::text::lemma_find_ch(l@, '=');
            }
            let key = trim_chars(&sub_chars(&l, 0, i));
            let raw = sub_chars(&l, i + 1, l.len());
            let value = env_value_chars(&raw);
            Some((string_of(&key), string_of(&value)))
        },
        None => None,
    }
}

/// The index of the pair whose key is `key`.
fn find_key(pairs: &Vec<(String, String)>, key: &String) -> (r: Option<usize>)
    ensures
        match r {
            Some(j) => j < pairs@.len() && pairs@[j as int].0@ == key@,
            None => forall|k: int| 0 <= k < pairs@.len() ==> pairs@[k].0@ != key@,
        },
{
    let mut j: usize = 0;
    while j < pairs.len()
        invariant
            j <= pairs.len(),
            forall|k: int| 0 <= k < j ==> pairs@[k].0@ != key@,
        decreases pairs.len() - j,
    {
        if pairs[j].0 == *key {
            return Some(j);
        }
        j = j + 1;
    }
    None
}

/// Reads the env file's content into its variables (`load_openclaw_env_vars`):
/// no key occurs twice, and each key has the value of its last assignment.
pub fn load_openclaw_env_vars(content: &str) -> (r: Vec<(String, String)>)
    ensures
        unique_keys(env_views(r@)),
        pairs_map(env_views(r@)) == env_vars_of(content@),
{
    let v = chars_of(content);
    let lines = split_chars(&v, '\n');
    let ghost lv = lines@.map_values(|p: Vec<char>| p@);
    let mut out: Vec<(String, String)> = Vec::new();
    let mut i: usize = 0;
    assert(lv.subrange(0, 0) =~= Seq::<Seq<char>>::empty());
    assert(env_views(out@) =~= Seq::<(Seq<char>, Seq<char>)>::empty());
    while i < lines.len()
        invariant
            i <= lines.len(),
            lv == lines@.map_values(|p: Vec<char>| p@),
            unique_keys(env_views(out@)),
            pairs_map(env_views(out@)) == pairs_map(assignments(lv.subrange(0, i as int))),
        decreases lines.len() - i,
    {
        assert(lv.subrange(0, i + 1).drop_last() =~= lv.subrange(0, i as int));
        assert(lv.subrange(0, i + 1).last() == lines@[i as int]@);
        let ghost prev = assignments(lv.subrange(0, i as int));
        match parse_line(&lines[i]) {
            Some((key, value)) => {
                let ghost before = env_views(out@);
                assert(assignments(lv.subrange(0, i + 1)) == prev.push((key@, value@)));
                assert(prev.push((key@, value@)).drop_last() =~= prev);
                match find_key(&out, &key) {
                    Some(j) => {
                        proof {
                            lemma_pairs_map_update(before, j as int, value@);
                        }
                        out.set(j, (key, value));
                        assert(env_views(out@) =~= before.update(
                            j as int,
                            (before[j as int].0, value@),
                        ));
                    },
                    None => {
                        out.push((key, value));
                        assert(env_views(out@) =~= before.push((key@, value@)));
                        assert(env_views(out@).drop_last() =~= before);
                    },
                }
            },
            None => {},
        }
        i = i + 1;
    }
    assert(lv.subrange(0, i as int) =~= lv);
    assert(lv =~= split_ch(v@, '\n'));
    out
}

/// A later assignment of a key wins over an earlier one: appending the line
/// `key=value` (a plain key and value) to the file gives that key that
/// value and leaves the other variables as they were.
pub proof fn law_later_assignment_wins(content: Seq<char>, key: Seq<char>, value: Seq<char>)
    requires
        forall|j: int| 0 <= j < key.len() ==> key[j] != '\n',
        forall|j: int| 0 <= j < value.len() ==> value[j] != '\n',
        parse_env_line(key + "="@ + value) == Some((key, value)),
    ensures
        env_vars_of(content + "\n"@ + key + "="@ + value) == env_vars_of(content).insert(
            key,
            value,
        ),
{
    reveal_strlit("\n");
    reveal_strlit("=");
    let line = key + "="@ + value;
    let all = content + "\n"@ + line;
    assert(all =~= content.push('\n') + line);
    assert(content + "\n"@ + key + "="@ + value =~= all);
    assert forall|j: int| 0 <= j < line.len() implies line[j] != '\n' by {
        if j < key.len() {
            assert(line[j] == key[j]);
        } else if j > key.len() {
            assert(line[j] == value[j - key.len() - 1]);
        } else {
            assert(line[j] == '=');
        }
    }
    crate::text::lemma_split_append_piece(content, line, '\n');
    let sc = split_ch(content, '\n');
    let sa = split_ch(all, '\n');
    assert(sa == sc.push(line));
    assert(sa.drop_last() =~= sc);
    let asg = assignments(sc);
    assert(assignments(sa) == asg.push((key, value)));
    assert(asg.push((key, value)).drop_last() =~= asg);
}


proof fn lemma_trim_end_keeps_first(s: Seq<char>)
    requires
        s.len() > 0,
        !is_ws(s[0]),
    ensures
        trim_end_ws(s).len() > 0,
        trim_end_ws(s)[0] == s[0],
    decreases s.len(),
{
    if is_ws(s.last()) {
        let t = s.drop_last();
        assert(t[0] == s[0]);
        lemma_trim_end_keeps_first(t);
    }
}

/// A comment line sets nothing: appending a line whose text starts with
/// `#` (after any leading blanks) leaves the variables as they were.
pub proof fn law_comment_line_sets_nothing(content: Seq<char>, lead: Seq<char>, rest: Seq<char>)
    requires
        forall|j: int| 0 <= j < lead.len() ==> is_ws(#[trigger] lead[j]) && lead[j] != '\n',
        forall|j: int| 0 <= j < rest.len() ==> rest[j] != '\n',
    ensures
        env_vars_of(content + "\n"@ + lead + "#"@ + rest) == env_vars_of(content),
{
    reveal_strlit("\n");
    reveal_strlit("#");
    let line = lead + "#"@ + rest;
    let all = content + "\n"@ + line;
    assert(all =~= content.push('\n') + line);
    assert(content + "\n"@ + lead + "#"@ + rest =~= all);
    assert forall|j: int| 0 <= j < line.len() implies line[j] != '\n' by {
        if j < lead.len() {
            assert(line[j] == lead[j]);
        } else if j > lead.len() {
            assert(line[j] == rest[j - lead.len() - 1]);
        } else {
            assert(line[j] == '#');
        }
    }
    crate::text::lemma_split_append_piece(content, line, '\n');
    let sc = split_ch(content, '\n');
    let sa = split_ch(all, '\n');
    assert(sa.drop_last() =~= sc);
    // the line, trimmed, starts with `#`
    let hashed = "#"@ + rest;
    assert(hashed[0] == '#');
    assert(trim_start_ws(line) == trim_start_ws(hashed)) by {
        lemma_trim_start_lead(lead, hashed);
        assert(lead + hashed =~= line);
    }
    assert(trim_start_ws(hashed) == hashed);
    lemma_trim_end_keeps_first(hashed);
    assert(trim_ws(line)[0] == '#');
    assert(parse_env_line(line) is None);
    assert(assignments(sa) == assignments(sc));
}

proof fn lemma_trim_start_lead(lead: Seq<char>, s: Seq<char>)
    requires
        forall|j: int| 0 <= j < lead.len() ==> is_ws(#[trigger] lead[j]),
    ensures
        trim_start_ws(lead + s) == trim_start_ws(s),
    decreases lead.len(),
{
    if lead.len() > 0 {
        let t = lead.drop_first();
        assert forall|j: int| 0 <= j < t.len() implies is_ws(#[trigger] t[j]) by {
            assert(t[j] == lead[j + 1]);
        }
        lemma_trim_start_lead(t, s);
        assert((lead + s)[0] == lead[0]);
        assert((lead + s).drop_first() =~= t + s);
    } else {
        assert(lead + s =~= s);
    }
}

} // verus!
