//! The accumulated environment of a run.
//!
//! An environment is an ordered list of key/value pairs; on a key collision
//! the later pair wins. Layering one environment over another is plain
//! concatenation, so the precedence chain of a run (process environment,
//! then flow, then step, then synthesized variables, then what the step
//! wrote to its output file) is a chain of `extend_env` calls. The output
//! file itself is newline-separated `KEY=VALUE` lines, parsed here.

use vstd::prelude::*;
use vstd::string::*;

verus! {

/// An ordered list of key/value pairs; the later pair wins on collision.
pub type Env = Vec<(String, String)>;

/// The value bound to `k`, taking the latest binding; `None` when unbound.
pub open spec fn env_lookup(e: Seq<(String, String)>, k: Seq<char>) -> Option<Seq<char>>
    decreases e.len(),
{
    if e.len() == 0 {
        None
    } else if e.last().0@ == k {
        Some(e.last().1@)
    } else {
        env_lookup(e.drop_last(), k)
    }
}

/// Whether `k` is bound at all.
pub open spec fn env_has(e: Seq<(String, String)>, k: Seq<char>) -> bool {
    env_lookup(e, k) is Some
}

/// The view of the entries: each pair as its character sequences.
pub open spec fn env_entries_view(e: Seq<(String, String)>) -> Seq<(Seq<char>, Seq<char>)> {
    e.map(|i: int, p: (String, String)| (p.0@, p.1@))
}

/// The entry view of a concatenation is the concatenation of the views.
pub proof fn lemma_env_view_concat(a: Seq<(String, String)>, b: Seq<(String, String)>)
    ensures
        env_entries_view(a + b) == env_entries_view(a) + env_entries_view(b),
{
    assert(env_entries_view(a + b) =~= env_entries_view(a) + env_entries_view(b));
}

/// Later bindings override earlier ones: a lookup in `a + b` takes `b`'s
/// binding when `b` has the key and falls back to `a` otherwise.
pub proof fn lemma_env_last_wins(a: Seq<(String, String)>, b: Seq<(String, String)>, k: Seq<char>)
    ensures
        env_lookup(a + b, k) == if env_has(b, k) {
            env_lookup(b, k)
        } else {
            env_lookup(a, k)
        },
    decreases b.len(),
{
    if b.len() == 0 {
        assert(a + b =~= a);
    } else {
        let ab = a + b;
        assert(ab.last() == b.last());
        assert(ab.drop_last() =~= a + b.drop_last());
        if b.last().0@ != k {
            lemma_env_last_wins(a, b.drop_last(), k);
        }
    }
}

/// Looks the key up, latest binding first.
pub fn lookup_env(env: &Env, key: &String) -> (r: Option<String>)
    ensures
        match r {
            Some(v) => env_lookup(env@, key@) == Some(v@),
            None => env_lookup(env@, key@) is None,
        },
{
    let mut i: usize = env.len();
    proof {
        assert(env@.subrange(0, i as int) =~= env@);
    }
    while i > 0
        invariant
            i <= env@.len(),
            env_lookup(env@, key@) == env_lookup(env@.subrange(0, i as int), key@),
        decreases i,
    {
        i = i - 1;
        proof {
            assert(env@.subrange(0, i as int + 1).last() == env@[i as int]);
            assert(env@.subrange(0, i as int + 1).drop_last() =~= env@.subrange(0, i as int));
        }
        if env[i].0 == *key {
            return Some(env[i].1.clone());
        }
    }
    None
}

/// Layers `more` over `env`: appends every pair, so `more`'s bindings win.
pub fn extend_env(env: &mut Env, more: &Env)
    ensures
        final(env)@ == old(env)@ + more@,
{
    let n = more.len();
    let mut j: usize = 0;
    proof {
        assert(old(env)@ + more@.subrange(0, 0) =~= old(env)@);
    }
    while j < n
        invariant
            j <= n == more@.len(),
            env@ == old(env)@ + more@.subrange(0, j as int),
        decreases n - j,
    {
        let k = more[j].0.clone();
        let v = more[j].1.clone();
        env.push((k, v));
        proof {
            assert((old(env)@ + more@.subrange(0, j as int)).push(more@[j as int]) =~= old(env)@
                + more@.subrange(0, j as int + 1));
        }
        j = j + 1;
    }
    proof {
        assert(old(env)@ + more@.subrange(0, n as int) =~= old(env)@ + more@);
    }
}

/// Pushes one binding, which then overrides any earlier binding of the key.
pub fn push_binding(env: &mut Env, key: String, value: String)
    ensures
        final(env)@ == old(env)@.push((key, value)),
        env_lookup(final(env)@, key@) == Some(value@),
{
    env.push((key, value));
    proof {
        assert(final(env)@.last() == (key, value));
    }
}

/// The position of the first occurrence of `c` in `s`.
pub open spec fn find_char(s: Seq<char>, c: char) -> Option<int>
    decreases s.len(),
{
    if s.len() == 0 {
        None
    } else if s[0] == c {
        Some(0)
    } else {
        match find_char(s.skip(1), c) {
            None => None,
            Some(i) => Some(i + 1),
        }
    }
}

/// What `find_char` finds is in range, is the character, and nothing
/// before it is.
pub proof fn lemma_find_char(s: Seq<char>, c: char)
    ensures
        match find_char(s, c) {
            Some(i) => 0 <= i < s.len() && s[i] == c && forall|j: int| 0 <= j < i ==> s[j] != c,
            None => forall|j: int| 0 <= j < s.len() ==> s[j] != c,
        },
    decreases s.len(),
{
    if s.len() == 0 {
    } else if s[0] == c {
    } else {
        lemma_find_char(s.skip(1), c);
        match find_char(s.skip(1), c) {
            None => {
                assert(forall|j: int| 1 <= j < s.len() ==> s[j] == s.skip(1)[j - 1]);
            }
            Some(i) => {
                assert(s[i + 1] == s.skip(1)[i]);
                assert(forall|j: int| 1 <= j < i + 1 ==> s[j] == s.skip(1)[j - 1]);
            }
        }
    }
}

/// One line of an environment file: `None` for a blank line (no entry),
/// the key/value pair otherwise. A line without `=` or with an empty key
/// is malformed.
pub open spec fn spec_parse_line(l: Seq<char>) -> Option<Option<(Seq<char>, Seq<char>)>> {
    if l.len() == 0 {
        Some(None)
    } else {
        match find_char(l, '=') {
            None => None,
            Some(i) => if i == 0 {
                None
            } else {
                Some(Some((l.take(i), l.skip(i + 1))))
            },
        }
    }
}

/// The entries of a whole environment file: newline-separated lines, blank
/// lines skipped; `None` when any line is malformed.
pub open spec fn spec_parse_env(s: Seq<char>) -> Option<Seq<(Seq<char>, Seq<char>)>>
    decreases s.len(),
{
    if s.len() == 0 {
        Some(Seq::empty())
    } else {
        match find_char(s, '\n') {
            None => match spec_parse_line(s) {
                None => None,
                Some(None) => Some(Seq::empty()),
                Some(Some(p)) => Some(seq![p]),
            },
            Some(i) => {
                if 0 <= i < s.len() {
                    match spec_parse_line(s.take(i)) {
                        None => None,
                        Some(entry) => match spec_parse_env(s.skip(i + 1)) {
                            None => None,
                            Some(tail) => match entry {
                                None => Some(tail),
                                Some(p) => Some(seq![p] + tail),
                            },
                        },
                    }
                } else {
                    None
                }
            },
        }
    }
}

/// The contents of an environment file could not be parsed.
#[derive(Clone, Copy, PartialEq, Eq, Structural, Debug)]
pub struct EnvParseError;

/// Finds `c` in `s@` at or after `from`.
fn scan_char(s: &str, from: usize, c: char) -> (r: Option<usize>)
    requires
        from <= s@.len(),
    ensures
        match r {
            Some(i) => from <= i < s@.len() && find_char(s@.skip(from as int), c) == Some(
                i - from as int,
            ),
            None => find_char(s@.skip(from as int), c) is None,
        },
{
    let n = s.unicode_len();
    let mut i: usize = from;
    while i < n
        invariant
            from <= i <= n == s@.len(),
            forall|j: int| from <= j < i ==> s@[j] != c,
        decreases n - i,
    {
        if s.get_char(i) == c {
            proof {
                lemma_find_char_from(s@, from as int, i as int, c);
            }
            return Some(i);
        }
        i = i + 1;
    }
    proof {
        lemma_find_char_from_none(s@, from as int, c);
    }
    None
}

/// When `s[i] == c` and nothing in `[from, i)` is `c`, the first occurrence
/// of `c` in `s.skip(from)` is at `i - from`.
proof fn lemma_find_char_from(s: Seq<char>, from: int, i: int, c: char)
    requires
        0 <= from <= i < s.len(),
        s[i] == c,
        forall|j: int| from <= j < i ==> s[j] != c,
    ensures
        find_char(s.skip(from), c) == Some(i - from),
    decreases i - from,
{
    let t = s.skip(from);
    if i == from {
        assert(t[0] == s[from]);
    } else {
        assert(t[0] == s[from]);
        assert(t.skip(1) =~= s.skip(from + 1));
        lemma_find_char_from(s, from + 1, i, c);
    }
}

/// When nothing at or after `from` is `c`, the suffix holds no `c`.
proof fn lemma_find_char_from_none(s: Seq<char>, from: int, c: char)
    requires
        0 <= from <= s.len(),
        forall|j: int| from <= j < s.len() ==> s[j] != c,
    ensures
        find_char(s.skip(from), c) is None,
    decreases s.len() - from,
{
    let t = s.skip(from);
    if t.len() == 0 {
    } else {
        assert(t[0] == s[from]);
        assert(t.skip(1) =~= s.skip(from + 1));
        lemma_find_char_from_none(s, from + 1, c);
    }
}

/// Parses one line of an environment file: `Ok(None)` for a blank line,
/// the key/value pair for `KEY=VALUE`, and an error exactly when the line
/// has no `=` or an empty key.
pub fn parse_env_line(line: &str) -> (r: Result<Option<(String, String)>, EnvParseError>)
    ensures
        match r {
            Ok(None) => spec_parse_line(line@) == Some(None::<(Seq<char>, Seq<char>)>),
            Ok(Some(p)) => spec_parse_line(line@) == Some(Some((p.0@, p.1@))),
            Err(_) => spec_parse_line(line@) is None,
        },
{
    let n = line.unicode_len();
    if n == 0 {
        return Ok(None);
    }
    match scan_char(line, 0, '=') {
        None => {
            proof {
                assert(line@.skip(0) =~= line@);
            }
            Err(EnvParseError)
        }
        Some(i) => {
            proof {
                assert(line@.skip(0) =~= line@);
            }
            if i == 0 {
                Err(EnvParseError)
            } else {
                let key = line.substring_char(0, i).to_owned();
                let value = line.substring_char(i + 1, n).to_owned();
                proof {
                    assert(key@ =~= line@.take(i as int));
                    assert(value@ =~= line@.skip(i as int + 1));
                }
                Ok(Some((key, value)))
            }
        }
    }
}

/// Pairs an optional head entry with a parsed tail.
pub open spec fn opt_prepend(
    pre: Seq<(Seq<char>, Seq<char>)>,
    tail: Option<Seq<(Seq<char>, Seq<char>)>>,
) -> Option<Seq<(Seq<char>, Seq<char>)>> {
    match tail {
        None => None,
        Some(t) => Some(pre + t),
    }
}

/// Parses a whole environment file: newline-separated `KEY=VALUE` lines,
/// blank lines skipped. Fails exactly when some line is malformed.
pub fn parse_env_file(text: &String) -> (r: Result<Env, EnvParseError>)
    ensures
        match r {
            Ok(e) => spec_parse_env(text@) == Some(env_entries_view(e@)),
            Err(_) => spec_parse_env(text@) is None,
        },
{
    let s = text.as_str();
    let n = s.unicode_len();
    let mut acc: Env = Vec::new();
    let mut p: usize = 0;
    proof {
        assert(text@.skip(0) =~= text@);
        assert(env_entries_view(acc@) =~= Seq::<(Seq<char>, Seq<char>)>::empty());
        assert(spec_parse_env(text@) == opt_prepend(
            env_entries_view(acc@),
            spec_parse_env(text@.skip(p as int)),
        ));
    }
    while p < n
        invariant
            p <= n == text@.len(),
            s@ == text@,
            spec_parse_env(text@) == opt_prepend(
                env_entries_view(acc@),
                spec_parse_env(text@.skip(p as int)),
            ),
        decreases n - p,
    {
        let rest_ghost: Ghost<Seq<char>> = Ghost(text@.skip(p as int));
        let (line_end, next_p, had_nl) = match scan_char(s, p, '\n') {
            Some(i) => (i, i + 1, true),
            None => (n, n, false),
        };
        let line = s.substring_char(p, line_end);
        proof {
            if had_nl {
                lemma_find_char(rest_ghost@, '\n');
                assert(line@ =~= rest_ghost@.take(line_end - p as int));
                assert(text@.skip(next_p as int) =~= rest_ghost@.skip(line_end - p as int + 1));
            } else {
                lemma_find_char(rest_ghost@, '\n');
                assert(line@ =~= rest_ghost@);
            }
        }
        match parse_env_line(line) {
            Err(e) => {
                return Err(e);
            }
            Ok(entry) => {
                proof {
                    if !had_nl {
                        assert(rest_ghost@.len() > 0);
                        assert(spec_parse_env(rest_ghost@) == match spec_parse_line(rest_ghost@) {
                            None => None::<Seq<(Seq<char>, Seq<char>)>>,
                            Some(None) => Some(Seq::<(Seq<char>, Seq<char>)>::empty()),
                            Some(Some(pr)) => Some(seq![pr]),
                        });
                    }
                }
                match entry {
                    None => {
                        proof {
                            if had_nl {
                                assert(spec_parse_env(rest_ghost@) == spec_parse_env(
                                    text@.skip(next_p as int),
                                ));
                            } else {
                                assert(spec_parse_env(rest_ghost@) == Some(
                                    Seq::<(Seq<char>, Seq<char>)>::empty(),
                                ));
                                assert(text@.skip(n as int) =~= Seq::<char>::empty());
                            }
                        }
                        p = next_p;
                    }
                    Some(pair) => {
                        let ghost pv = (pair.0@, pair.1@);
                        proof {
                            if had_nl {
                                assert(spec_parse_env(rest_ghost@) == opt_prepend(
                                    seq![pv],
                                    spec_parse_env(text@.skip(next_p as int)),
                                ));
                            } else {
                                assert(spec_parse_env(rest_ghost@) == Some(seq![pv]));
                                assert(text@.skip(n as int) =~= Seq::<char>::empty());
                                assert(spec_parse_env(text@.skip(n as int)) == Some(
                                    Seq::<(Seq<char>, Seq<char>)>::empty(),
                                ));
                                assert(seq![pv] + Seq::<(Seq<char>, Seq<char>)>::empty()
                                    =~= seq![pv]);
                            }
                            assert(env_entries_view(acc@.push(pair)) =~= env_entries_view(
                                acc@,
                            ).push(pv));
                        }
                        let ghost old_acc = acc@;
                        acc.push(pair);
                        proof {
                            match spec_parse_env(text@.skip(next_p as int)) {
                                None => {}
                                Some(t) => {
                                    assert(env_entries_view(old_acc) + (seq![pv] + t)
                                        =~= env_entries_view(old_acc).push(pv) + t);
                                }
                            }
                        }
                        p = next_p;
                    }
                }
            }
        }
    }
    proof {
        assert(text@.skip(n as int) =~= Seq::<char>::empty());
        assert(spec_parse_env(text@.skip(n as int)) == Some(Seq::<(Seq<char>, Seq<char>)>::empty()));
        assert(env_entries_view(acc@) + Seq::<(Seq<char>, Seq<char>)>::empty() =~= env_entries_view(
            acc@,
        ));
    }
    Ok(acc)
}

} // verus!
