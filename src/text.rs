//! Characters in and out of strings, and the canonical text form shared by
//! the contract fingerprint and external generators.
use vstd::prelude::*;

verus! {

/// Relies on `str::chars`: the characters of `s`, in order.
#[verifier::external_body]
pub(crate) fn chars_of(s: &str) -> (r: Vec<char>)
    ensures
        r@ == s@,
{
    s.chars().collect()
}

/// Relies on `String`'s `FromIterator<char>`: the string of these characters.
#[verifier::external_body]
pub(crate) fn string_of(cs: &[char]) -> (r: String)
    ensures
        r@ == cs@,
{
    cs.iter().collect()
}

/// `char::is_whitespace`: the Unicode `White_Space` property.
pub open spec fn is_space(c: char) -> bool {
    ('\u{9}' <= c && c <= '\u{d}') || c == ' ' || c == '\u{85}' || c == '\u{a0}' || c == '\u{1680}'
        || ('\u{2000}' <= c && c <= '\u{200a}') || c == '\u{2028}' || c == '\u{2029}' || c
        == '\u{202f}' || c == '\u{205f}' || c == '\u{3000}'
}

pub fn is_space_exec(c: char) -> (r: bool)
    ensures
        r == is_space(c),
{
    ('\u{9}' <= c && c <= '\u{d}') || c == ' ' || c == '\u{85}' || c == '\u{a0}' || c == '\u{1680}'
        || ('\u{2000}' <= c && c <= '\u{200a}') || c == '\u{2028}' || c == '\u{2029}' || c
        == '\u{202f}' || c == '\u{205f}' || c == '\u{3000}'
}

/// `s` without its trailing whitespace.
pub open spec fn trim_end(s: Seq<char>) -> Seq<char>
    decreases s.len(),
{
    if s.len() > 0 && is_space(s.last()) {
        trim_end(s.drop_last())
    } else {
        s
    }
}

/// The pieces of `s` between newlines; a text without newline is one piece.
pub open spec fn split_lines(s: Seq<char>) -> Seq<Seq<char>>
    decreases s.len(),
{
    if s.len() == 0 {
        seq![Seq::empty()]
    } else {
        let before = split_lines(s.drop_last());
        if s.last() == '\n' {
            before.push(Seq::empty())
        } else {
            before.update(before.len() - 1, before.last().push(s.last()))
        }
    }
}

/// The lines right-trimmed, with those that are then empty dropped.
pub open spec fn content_of(lines: Seq<Seq<char>>) -> Seq<Seq<char>>
    decreases lines.len(),
{
    if lines.len() == 0 {
        Seq::empty()
    } else {
        let before = content_of(lines.drop_last());
        if trim_end(lines.last()).len() == 0 {
            before
        } else {
            before.push(trim_end(lines.last()))
        }
    }
}

/// What is left of a text once trailing whitespace and blank lines are gone.
pub open spec fn content_lines(s: Seq<char>) -> Seq<Seq<char>> {
    content_of(split_lines(s))
}

/// The pieces joined with one newline between each two.
pub open spec fn join_lines(lines: Seq<Seq<char>>) -> Seq<char>
    decreases lines.len(),
{
    if lines.len() == 0 {
        Seq::empty()
    } else if lines.len() == 1 {
        lines[0]
    } else {
        join_lines(lines.drop_last()) + seq!['\n'] + lines.last()
    }
}

/// The canonical form: content lines joined by newlines, no trailing newline.
pub open spec fn canonical(s: Seq<char>) -> Seq<char> {
    join_lines(content_lines(s))
}

/// Whitespace appended to a line goes away when it is trimmed.
pub proof fn lemma_trim_end_absorbs_whitespace(line: Seq<char>, ws: Seq<char>)
    requires
        forall|i: int| 0 <= i < ws.len() ==> is_space(#[trigger] ws[i]),
    ensures
        trim_end(line + ws) == trim_end(line),
    decreases ws.len(),
{
    if ws.len() > 0 {
        let w0 = ws.drop_last();
        assert((line + ws).drop_last() =~= line + w0);
        lemma_trim_end_absorbs_whitespace(line, w0);
    } else {
        assert(line + ws =~= line);
    }
}

/// A line of whitespace alone is blank once trimmed.
pub proof fn lemma_whitespace_line_is_blank(ws: Seq<char>)
    requires
        forall|i: int| 0 <= i < ws.len() ==> is_space(#[trigger] ws[i]),
    ensures
        trim_end(ws).len() == 0,
{
    lemma_trim_end_absorbs_whitespace(Seq::empty(), ws);
    assert(Seq::<char>::empty() + ws =~= ws);
}

/// Lines that differ only in trailing whitespace have the same content.
pub proof fn lemma_content_ignores_trailing_whitespace(x: Seq<Seq<char>>, y: Seq<Seq<char>>)
    requires
        x.len() == y.len(),
        forall|k: int| 0 <= k < x.len() ==> trim_end(#[trigger] x[k]) == trim_end(y[k]),
    ensures
        content_of(x) == content_of(y),
    decreases x.len(),
{
    if x.len() > 0 {
        let xi = x.drop_last();
        let yi = y.drop_last();
        assert forall|k: int| 0 <= k < xi.len() implies trim_end(#[trigger] xi[k]) == trim_end(yi[k]) by {
            assert(xi[k] == x[k]);
            assert(yi[k] == y[k]);
        }
        lemma_content_ignores_trailing_whitespace(xi, yi);
        assert(trim_end(x[x.len() - 1]) == trim_end(y[y.len() - 1]));
    }
}

/// A blank line inserted anywhere leaves the content as it was.
pub proof fn lemma_content_ignores_blank_line(x: Seq<Seq<char>>, blank: Seq<char>, y: Seq<Seq<char>>)
    requires
        trim_end(blank).len() == 0,
    ensures
        content_of(x + seq![blank] + y) == content_of(x + y),
    decreases y.len(),
{
    if y.len() == 0 {
        assert((x + seq![blank] + y).drop_last() =~= x);
        assert(x + y =~= x);
    } else {
        let yi = y.drop_last();
        lemma_content_ignores_blank_line(x, blank, yi);
        assert((x + seq![blank] + y).drop_last() =~= x + seq![blank] + yi);
        assert((x + y).drop_last() =~= x + yi);
    }
}

/// Texts with the same content lines have the same canonical form.
pub proof fn lemma_canonical_depends_on_content(a: Seq<char>, b: Seq<char>)
    requires
        content_lines(a) == content_lines(b),
    ensures
        canonical(a) == canonical(b),
{
}

proof fn lemma_content_last_nonblank(lines: Seq<Seq<char>>)
    ensures
        content_of(lines).len() > 0 ==> content_of(lines).last().len() > 0,
    decreases lines.len(),
{
    if lines.len() > 0 {
        lemma_content_last_nonblank(lines.drop_last());
    }
}

proof fn lemma_join_ends_with_last(lines: Seq<Seq<char>>)
    requires
        lines.len() > 0,
    ensures
        join_lines(lines).len() >= lines.last().len(),
{
}

proof fn lemma_trim_end_is_prefix(s: Seq<char>)
    ensures
        trim_end(s).len() <= s.len(),
        trim_end(s) =~= s.take(trim_end(s).len() as int),
    decreases s.len(),
{
    if s.len() > 0 && is_space(s.last()) {
        lemma_trim_end_is_prefix(s.drop_last());
    }
}

pub open spec fn no_newline(s: Seq<char>) -> bool {
    forall|i: int| 0 <= i < s.len() ==> s[i] != '\n'
}

/// Lines that can be told apart once joined: none empty, none with a newline.
pub open spec fn plain_lines(lines: Seq<Seq<char>>) -> bool {
    forall|k: int| 0 <= k < lines.len() ==> (#[trigger] lines[k]).len() > 0 && no_newline(lines[k])
}

proof fn lemma_split_lines_plain(s: Seq<char>)
    ensures
        split_lines(s).len() > 0,
        forall|k: int| 0 <= k < split_lines(s).len() ==> no_newline(#[trigger] split_lines(s)[k]),
    decreases s.len(),
{
    if s.len() > 0 {
        lemma_split_lines_plain(s.drop_last());
        let before = split_lines(s.drop_last());
        let now = split_lines(s);
        assert forall|k: int| 0 <= k < now.len() implies no_newline(#[trigger] now[k]) by {
            if k < before.len() - 1 {
                assert(now[k] == before[k]);
            } else if k == before.len() - 1 && s.last() == '\n' {
                assert(now[k] == before[k]);
            }
        }
    }
}

proof fn lemma_content_plain(lines: Seq<Seq<char>>)
    requires
        forall|k: int| 0 <= k < lines.len() ==> no_newline(#[trigger] lines[k]),
    ensures
        plain_lines(content_of(lines)),
    decreases lines.len(),
{
    if lines.len() > 0 {
        let init = lines.drop_last();
        assert forall|k: int| 0 <= k < init.len() implies no_newline(#[trigger] init[k]) by {
            assert(init[k] == lines[k]);
        }
        lemma_content_plain(init);
        let l = lines.last();
        lemma_trim_end_is_prefix(l);
        let t = trim_end(l);
        assert(no_newline(lines[lines.len() - 1]));
        assert forall|i: int| 0 <= i < t.len() implies t[i] != '\n' by {
            assert(t[i] == l[i]);
        }
        let c = content_of(lines);
        let b = content_of(init);
        assert forall|k: int| 0 <= k < c.len() implies (#[trigger] c[k]).len() > 0 && no_newline(c[k]) by {
            if k < b.len() {
                assert(c[k] == b[k]);
            }
        }
    }
}

/// The content lines of any text are non-empty and free of newlines.
pub proof fn lemma_content_lines_plain(s: Seq<char>)
    ensures
        plain_lines(content_lines(s)),
{
    lemma_split_lines_plain(s);
    lemma_content_plain(split_lines(s));
}

proof fn lemma_join_nonempty(lines: Seq<Seq<char>>)
    requires
        plain_lines(lines),
    ensures
        lines.len() > 0 ==> join_lines(lines).len() > 0,
{
    if lines.len() > 0 {
        assert(lines[lines.len() - 1].len() > 0);
    }
}

/// Two ways of writing `text` as a prefix that is empty or ends in a newline,
/// followed by a newline-free piece, agree.
proof fn lemma_last_piece_unique(p1: Seq<char>, l1: Seq<char>, p2: Seq<char>, l2: Seq<char>)
    requires
        p1 + l1 == p2 + l2,
        no_newline(l1),
        no_newline(l2),
        p1.len() == 0 || p1.last() == '\n',
        p2.len() == 0 || p2.last() == '\n',
    ensures
        l1 == l2,
        p1 == p2,
{
    let t = p1 + l1;
    if l1.len() < l2.len() {
        let i = p1.len() - 1;
        assert(p1.len() > 0);
        assert(t[i] == p1.last());
        assert(t[i] == l2[i - p2.len()]);
    } else if l2.len() < l1.len() {
        let i = p2.len() - 1;
        assert(p2.len() > 0);
        assert(t[i] == (p2 + l2)[i]);
        assert((p2 + l2)[i] == p2.last());
        assert(t[i] == l1[i - p1.len()]);
    }
    assert(l1 =~= t.subrange(p1.len() as int, t.len() as int));
    assert(l2 =~= (p2 + l2).subrange(p2.len() as int, t.len() as int));
    assert(p1 =~= t.subrange(0, p1.len() as int));
    assert(p2 =~= (p2 + l2).subrange(0, p2.len() as int));
}

/// Joining plain lines loses nothing: different lines give different texts.
pub proof fn lemma_join_injective(a: Seq<Seq<char>>, b: Seq<Seq<char>>)
    requires
        plain_lines(a),
        plain_lines(b),
        join_lines(a) == join_lines(b),
    ensures
        a == b,
    decreases a.len() + b.len(),
{
    lemma_join_nonempty(a);
    lemma_join_nonempty(b);
    if a.len() > 0 && b.len() > 0 {
        let pa = if a.len() == 1 { Seq::<char>::empty() } else { join_lines(a.drop_last()) + seq!['\n'] };
        let pb = if b.len() == 1 { Seq::<char>::empty() } else { join_lines(b.drop_last()) + seq!['\n'] };
        assert(a[a.len() - 1].len() > 0 && no_newline(a[a.len() - 1]));
        assert(b[b.len() - 1].len() > 0 && no_newline(b[b.len() - 1]));
        if a.len() == 1 {
            assert(join_lines(a) =~= pa + a.last());
        } else {
            assert(join_lines(a) =~= pa + a.last());
        }
        if b.len() == 1 {
            assert(join_lines(b) =~= pb + b.last());
        } else {
            assert(join_lines(b) =~= pb + b.last());
        }
        lemma_last_piece_unique(pa, a.last(), pb, b.last());
        if a.len() > 1 && b.len() > 1 {
            let ia = a.drop_last();
            let ib = b.drop_last();
            assert(join_lines(ia) =~= pa.drop_last());
            assert(join_lines(ib) =~= pb.drop_last());
            assert forall|k: int| 0 <= k < ia.len() implies (#[trigger] ia[k]).len() > 0 && no_newline(ia[k]) by {
                assert(ia[k] == a[k]);
            }
            assert forall|k: int| 0 <= k < ib.len() implies (#[trigger] ib[k]).len() > 0 && no_newline(ib[k]) by {
                assert(ib[k] == b[k]);
            }
            lemma_join_injective(ia, ib);
            assert(a =~= ia.push(a.last()));
            assert(b =~= ib.push(b.last()));
        } else if a.len() == 1 && b.len() == 1 {
            assert(a =~= b);
        } else if a.len() == 1 {
            assert(pb.len() > 0);
        } else {
            assert(pa.len() > 0);
        }
    }
}

/// Texts with different content lines have different canonical forms: only
/// trailing whitespace and blank lines are forgotten.
pub proof fn lemma_canonical_keeps_content(a: Seq<char>, b: Seq<char>)
    requires
        canonical(a) == canonical(b),
    ensures
        content_lines(a) == content_lines(b),
{
    lemma_content_lines_plain(a);
    lemma_content_lines_plain(b);
    lemma_join_injective(content_lines(a), content_lines(b));
}

/// Length of `s` once trailing whitespace is cut.
fn trimmed_len(s: &Vec<char>) -> (k: usize)
    ensures
        k <= s@.len(),
        trim_end(s@) == s@.take(k as int),
{
    let mut k = s.len();
    proof {
        assert(s@.take(k as int) =~= s@);
    }
    while k > 0 && is_space_exec(s[k - 1])
        invariant
            k <= s@.len(),
            trim_end(s@) == trim_end(s@.take(k as int)),
        decreases k,
    {
        proof {
            assert(s@.take(k as int).drop_last() =~= s@.take(k - 1));
        }
        k = k - 1;
    }
    k
}

/// Appends one finished line to `out`: trimmed, and only when not blank.
fn flush_line(out: &mut Vec<char>, line: &Vec<char>, Ghost(done): Ghost<Seq<Seq<char>>>)
    requires
        old(out)@ == join_lines(content_of(done)),
    ensures
        final(out)@ == join_lines(content_of(done.push(line@))),
{
    let k = trimmed_len(line);
    proof {
        assert(done.push(line@).drop_last() =~= done);
    }
    if k > 0 {
        let ghost before = content_of(done);
        proof {
            lemma_content_last_nonblank(done);
            if before.len() > 0 {
                lemma_join_ends_with_last(before);
            }
        }
        if out.len() > 0 {
            out.push('\n');
        }
        let mut i: usize = 0;
        let ghost base = out@;
        while i < k
            invariant
                i <= k <= line@.len(),
                out@ == base + line@.take(i as int),
            decreases k - i,
        {
            out.push(line[i]);
            i = i + 1;
            proof {
                assert(line@.take(i as int) =~= line@.take(i - 1).push(line@[i - 1]));
                assert(out@ =~= base + line@.take(i as int));
            }
        }
        proof {
            let after = before.push(line@.take(k as int));
            assert(after.drop_last() =~= before);
            if before.len() == 0 {
                assert(out@ =~= after[0]);
            } else {
                assert(out@ =~= join_lines(before) + seq!['\n'] + after.last());
            }
        }
    }
}

/// Right-trims every line, drops lines that are then empty, and joins the
/// rest with `\n`, without a trailing newline.
pub fn canonicalize(input: &str) -> (r: String)
    ensures
        r@ == canonical(input@),
{
    let cs = chars_of(input);
    let mut out: Vec<char> = Vec::new();
    let mut line: Vec<char> = Vec::new();
    let ghost mut done: Seq<Seq<char>> = Seq::empty();
    let mut i: usize = 0;
    proof {
        assert(cs@.take(0) =~= Seq::<char>::empty());
        assert(out@ =~= join_lines(content_of(done)));
        assert(line@ =~= Seq::<char>::empty());
    }
    while i < cs.len()
        invariant
            i <= cs@.len(),
            split_lines(cs@.take(i as int)) == done.push(line@),
            out@ == join_lines(content_of(done)),
        decreases cs@.len() - i,
    {
        let c = cs[i];
        proof {
            assert(cs@.take(i + 1).drop_last() =~= cs@.take(i as int));
        }
        if c == '\n' {
            flush_line(&mut out, &line, Ghost(done));
            proof {
                done = done.push(line@);
            }
            line = Vec::new();
            proof {
                assert(split_lines(cs@.take(i + 1)) =~= done.push(line@));
            }
        } else {
            line.push(c);
            proof {
                let prev = split_lines(cs@.take(i as int));
                assert(prev.update(prev.len() - 1, prev.last().push(c)) =~= done.push(line@));
            }
        }
        i = i + 1;
    }
    flush_line(&mut out, &line, Ghost(done));
    proof {
        assert(cs@.take(i as int) =~= cs@);
    }
    string_of(out.as_slice())
}

} // verus!
