//! Indenting text for display.
use vstd::prelude::*;

verus! {

/// The pieces of `s` between its line feeds (one more than there are line feeds).
pub open spec fn split_nl(s: Seq<char>) -> Seq<Seq<char>>
    decreases s.len(),
{
    if s.len() == 0 {
        seq![Seq::<char>::empty()]
    } else {
        let rest = split_nl(s.drop_last());
        if s.last() == '\n' {
            rest.push(Seq::<char>::empty())
        } else {
            rest.update(rest.len() - 1, rest.last().push(s.last()))
        }
    }
}

/// A line without the carriage return that ended it, if one did.
pub open spec fn strip_cr(l: Seq<char>) -> Seq<char> {
    if l.len() > 0 && l.last() == '\r' {
        l.drop_last()
    } else {
        l
    }
}

/// Each line of `list` without its final carriage return.
pub open spec fn stripped(list: Seq<Seq<char>>) -> Seq<Seq<char>> {
    list.map_values(|l: Seq<char>| strip_cr(l))
}

/// Each line of `list` behind `level` spaces.
pub open spec fn prefixed(list: Seq<Seq<char>>, level: nat) -> Seq<Seq<char>> {
    list.map_values(|l: Seq<char>| spaces(level) + l)
}

/// The lines of `s`, as `str::lines` gives them: split at `\n` or `\r\n`,
/// without the terminators, and with no empty line after a final one.
pub open spec fn lines(s: Seq<char>) -> Seq<Seq<char>> {
    let p = split_nl(s);
    let complete = stripped(p.drop_last());
    if p.last().len() > 0 {
        complete.push(p.last())
    } else {
        complete
    }
}

/// The pieces of `list` joined with `sep` between them.
pub open spec fn join(list: Seq<Seq<char>>, sep: Seq<char>) -> Seq<char>
    decreases list.len(),
{
    if list.len() == 0 {
        Seq::<char>::empty()
    } else if list.len() == 1 {
        list[0]
    } else {
        join(list.drop_last(), sep) + sep + list.last()
    }
}

/// `n` spaces.
pub open spec fn spaces(n: nat) -> Seq<char> {
    Seq::new(n, |i: int| ' ')
}

/// Each line of `s` behind `level` spaces, the lines joined by `\n`.
pub open spec fn spec_indent(s: Seq<char>, level: nat) -> Seq<char> {
    join(prefixed(lines(s), level), seq!['\n'])
}

/// Splitting at line feeds and joining with line feeds gives the text back.
pub proof fn law_split_join(s: Seq<char>)
    ensures
        join(split_nl(s), seq!['\n']) == s,
    decreases s.len(),
{
    if s.len() == 0 {
        assert(join(split_nl(s), seq!['\n']) =~= s);
    } else {
        let pre = s.drop_last();
        let c = s.last();
        let p = split_nl(pre);
        law_split_join(pre);
        lemma_split_nl_len(pre);
        if c == '\n' {
            assert(p.push(Seq::<char>::empty()).drop_last() =~= p);
            assert(join(p, seq!['\n']) + seq!['\n'] + Seq::<char>::empty() =~= s);
        } else {
            let u = p.update(p.len() - 1, p.last().push(c));
            assert(u.drop_last() =~= p.drop_last());
            if p.len() == 1 {
                assert(join(u, seq!['\n']) =~= s);
            } else {
                let a = join(p.drop_last(), seq!['\n']);
                assert(a + seq!['\n'] + p.last().push(c) =~= (a + seq!['\n'] + p.last()).push(c));
                assert(join(u, seq!['\n']) =~= s);
            }
        }
    }
}

proof fn lemma_split_nl_no_cr(s: Seq<char>)
    requires
        forall|i: int| 0 <= i < s.len() ==> s[i] != '\r',
    ensures
        forall|k: int, j: int|
            0 <= k < split_nl(s).len() && 0 <= j < split_nl(s)[k].len() ==> split_nl(s)[k][j]
                != '\r',
    decreases s.len(),
{
    if s.len() > 0 {
        lemma_split_nl_no_cr(s.drop_last());
        lemma_split_nl_len(s.drop_last());
    }
}

/// Indenting by no spaces gives back a text that holds no carriage return
/// and does not end in a line feed.
pub proof fn law_indent_zero(s: Seq<char>)
    requires
        s.len() > 0,
        s.last() != '\n',
        forall|i: int| 0 <= i < s.len() ==> s[i] != '\r',
    ensures
        spec_indent(s, 0) == s,
{
    let p = split_nl(s);
    lemma_split_nl_len(s.drop_last());
    lemma_split_nl_len(s);
    lemma_split_nl_no_cr(s);
    law_split_join(s);
    assert(p.last().len() > 0);
    assert(stripped(p.drop_last()) =~= p.drop_last()) by {
        assert forall|k: int| 0 <= k < p.drop_last().len() implies strip_cr(p.drop_last()[k])
            == p.drop_last()[k] by {
            let l = p[k];
            if l.len() > 0 {
                assert(l[l.len() - 1] != '\r');
            }
        }
    }
    assert(lines(s) =~= p);
    assert(prefixed(p, 0) =~= p) by {
        assert forall|k: int| 0 <= k < p.len() implies spaces(0) + p[k] == p[k] by {
            assert(spaces(0) + p[k] =~= p[k]);
        }
    }
}

/// `String::push`: appends one `char`.
#[verifier::external_body]
pub(crate) fn push_char(s: &mut String, c: char)
    ensures
        final(s)@ == old(s)@.push(c),
{
    s.push(c);
}

pub trait Indent {
    fn indent(&self, level: usize) -> String;
}

proof fn lemma_split_nl_len(s: Seq<char>)
    ensures
        split_nl(s).len() >= 1,
    decreases s.len(),
{
    if s.len() > 0 {
        lemma_split_nl_len(s.drop_last());
    }
}

fn push_spaces(out: &mut String, level: usize)
    ensures
        final(out)@ == old(out)@ + spaces(level as nat),
{
    let mut k: usize = 0;
    while k < level
        invariant
            k <= level,
            out@ == old(out)@ + spaces(k as nat),
        decreases level - k,
    {
        push_char(out, ' ');
        k = k + 1;
        proof {
            assert(out@ =~= old(out)@ + spaces(k as nat));
        }
    }
}

fn push_chars(out: &mut String, line: &Vec<char>, n: usize)
    requires
        n <= line@.len(),
    ensures
        final(out)@ == old(out)@ + line@.take(n as int),
{
    let mut k: usize = 0;
    while k < n
        invariant
            k <= n <= line@.len(),
            out@ == old(out)@ + line@.take(k as int),
        decreases n - k,
    {
        push_char(out, line[k]);
        k = k + 1;
        proof {
            assert(out@ =~= old(out)@ + line@.take(k as int));
        }
    }
}

proof fn lemma_join_push(list: Seq<Seq<char>>, sep: Seq<char>, x: Seq<char>)
    ensures
        join(list.push(x), sep) == if list.len() == 0 {
            x
        } else {
            join(list, sep) + sep + x
        },
{
    assert(list.push(x).drop_last() =~= list);
}

impl Indent for String {
    /// Each line behind `level` spaces, the lines joined by `\n`.
    fn indent(&self, level: usize) -> (r: String)
        ensures
            r@ == spec_indent(self@, level as nat),
    {
        let ghost s = self@;
        let text = self.as_str();
        let n = text.unicode_len();
        let mut out = String::new();
        let mut cur: Vec<char> = Vec::new();
        let mut emitted = false;
        let mut i: usize = 0;
        while i < n
            invariant
                i <= n,
                n == s.len(),
                text@ == s,
                cur@ == split_nl(s.take(i as int)).last(),
                emitted == (split_nl(s.take(i as int)).len() > 1),
                out@ == join(prefixed(stripped(split_nl(s.take(i as int)).drop_last()), level as nat), seq!['\n']),
            decreases n - i,
        {
            let c = text.get_char(i);
            let ghost pre = s.take(i as int);
            let ghost p = split_nl(pre);
            proof {
                lemma_split_nl_len(pre);
                assert(s.take(i + 1).drop_last() =~= pre);
                assert(s.take(i + 1).last() == c);
            }
            if c == '\n' {
                let keep = if cur.len() > 0 && cur[cur.len() - 1] == '\r' {
                    cur.len() - 1
                } else {
                    cur.len()
                };
                if emitted {
                    push_char(&mut out, '\n');
                }
                push_spaces(&mut out, level);
                push_chars(&mut out, &cur, keep);
                proof {
                    let done = stripped(p.drop_last());
                    let line = strip_cr(p.last());
                    let q = split_nl(s.take(i + 1));
                    assert(q == p.push(Seq::<char>::empty()));
                    assert(q.drop_last() =~= p);
                    assert(stripped(p) =~= done.push(line));
                    assert(cur@.take(keep as int) =~= line);
                    assert(prefixed(done.push(line), level as nat) =~= prefixed(done, level as nat).push(
                        spaces(level as nat) + line,
                    ));
                    lemma_join_push(prefixed(done, level as nat), seq!['\n'], spaces(level as nat) + line);
                }
                cur = Vec::new();
                emitted = true;
            } else {
                cur.push(c);
                proof {
                    let q = split_nl(s.take(i + 1));
                    assert(q == p.update(p.len() - 1, p.last().push(c)));
                    assert(q.drop_last() =~= p.drop_last());
                }
            }
            i = i + 1;
        }
        proof {
            assert(s.take(n as int) =~= s);
        }
        proof {
            lemma_split_nl_len(s);
        }
        if cur.len() > 0 {
            let ghost p = split_nl(s);
            let ghost done = stripped(p.drop_last());
            if emitted {
                push_char(&mut out, '\n');
            }
            push_spaces(&mut out, level);
            let len = cur.len();
            push_chars(&mut out, &cur, len);
            proof {
                assert(cur@.take(len as int) =~= cur@);
                assert(prefixed(done.push(p.last()), level as nat) =~= prefixed(done, level as nat).push(
                    spaces(level as nat) + p.last(),
                ));
                lemma_join_push(prefixed(done, level as nat), seq!['\n'], spaces(level as nat) + p.last());
            }
        }
        out
    }
}

} // verus!
