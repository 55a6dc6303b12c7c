//! What holds of every cleaned doc comment.

use vstd::prelude::*;

use crate::text::{
    clean_docs_spec, is_white_space, join, lines, split_newlines, strip_cr, trim, trim_end,
    trim_start,
};

verus! {

/// The lines of `docs`, each trimmed: what `clean_docs` joins.
pub open spec fn trimmed_lines(docs: Seq<char>) -> Seq<Seq<char>> {
    lines(docs).map_values(|line: Seq<char>| trim(line))
}

/// `s` holds no line feed.
pub open spec fn no_newline(s: Seq<char>) -> bool {
    forall|i: int| 0 <= i < s.len() ==> s[i] != '\n'
}

/// The index of the first non-empty piece, or the number of pieces if there is none.
pub open spec fn first_nonblank(t: Seq<Seq<char>>) -> int
    decreases t.len(),
{
    if t.len() == 0 {
        0
    } else if t[0].len() > 0 {
        0
    } else {
        1 + first_nonblank(t.drop_first())
    }
}

/// The index of the last non-empty piece, or -1 if there is none.
pub open spec fn last_nonblank(t: Seq<Seq<char>>) -> int
    decreases t.len(),
{
    if t.len() == 0 {
        -1
    } else if t.last().len() > 0 {
        t.len() - 1
    } else {
        last_nonblank(t.drop_last())
    }
}

proof fn lemma_first_nonblank(t: Seq<Seq<char>>)
    ensures
        0 <= first_nonblank(t) <= t.len(),
        forall|k: int| 0 <= k < first_nonblank(t) ==> (#[trigger] t[k]).len() == 0,
        first_nonblank(t) < t.len() ==> t[first_nonblank(t)].len() > 0,
    decreases t.len(),
{
    if t.len() > 0 && t[0].len() == 0 {
        lemma_first_nonblank(t.drop_first());
        assert forall|k: int| 0 <= k < first_nonblank(t) implies (#[trigger] t[k]).len() == 0 by {
            if k > 0 {
                assert(t[k] == t.drop_first()[k - 1]);
            }
        }
    }
}

proof fn lemma_last_nonblank(t: Seq<Seq<char>>)
    ensures
        -1 <= last_nonblank(t) < t.len(),
        forall|k: int| last_nonblank(t) < k < t.len() ==> (#[trigger] t[k]).len() == 0,
        last_nonblank(t) >= 0 ==> t[last_nonblank(t)].len() > 0,
    decreases t.len(),
{
    if t.len() > 0 && t.last().len() == 0 {
        lemma_last_nonblank(t.drop_last());
        assert forall|k: int| last_nonblank(t) < k < t.len() implies (#[trigger] t[k]).len() == 0 by {
            if k < t.len() - 1 {
                assert(t[k] == t.drop_last()[k]);
            }
        }
    }
}

/// A join of two or more pieces begins with the first piece and a separator.
proof fn lemma_join_first(u: Seq<Seq<char>>, sep: Seq<char>)
    requires
        u.len() >= 2,
    ensures
        join(u, sep) == u[0] + sep + join(u.drop_first(), sep),
    decreases u.len(),
{
    if u.len() == 2 {
        assert(join(u.drop_last(), sep) == u.drop_last()[0]);
        assert(join(u.drop_first(), sep) == u.drop_first()[0]);
        assert(u.drop_last()[0] == u[0]);
        assert(u.drop_first()[0] == u[1]);
    } else {
        let init = u.drop_last();
        let rest = u.drop_first();
        lemma_join_first(init, sep);
        assert(init.drop_first() =~= rest.drop_last());
        assert(rest.last() == u.last());
        assert(init[0] == u[0]);
        assert(join(rest, sep) == join(rest.drop_last(), sep) + sep + rest.last());
        assert(join(u, sep) == join(init, sep) + sep + u.last());
        assert(u[0] + sep + join(init.drop_first(), sep) + sep + u.last() =~= u[0] + sep + (join(
            rest.drop_last(),
            sep,
        ) + sep + rest.last()));
    }
}

/// A join ends with the last piece's last character.
proof fn lemma_join_last(u: Seq<Seq<char>>, sep: Seq<char>)
    requires
        u.len() >= 1,
        u.last().len() > 0,
    ensures
        join(u, sep).len() > 0,
        join(u, sep).last() == u.last().last(),
{
    if u.len() == 1 {
        assert(u.last() == u[0]);
    } else {
        let x = join(u.drop_last(), sep) + sep;
        assert(join(u, sep) == x + u.last());
        assert((x + u.last()).last() == u.last().last());
    }
}

/// A join of pieces begins with the first piece's first character and ends
/// with the last piece's last character.
proof fn lemma_join_ends(u: Seq<Seq<char>>, sep: Seq<char>)
    requires
        u.len() >= 1,
        u[0].len() > 0,
        u.last().len() > 0,
    ensures
        join(u, sep).len() > 0,
        join(u, sep)[0] == u[0][0],
        join(u, sep).last() == u.last().last(),
{
    lemma_join_last(u, sep);
    if u.len() >= 2 {
        lemma_join_first(u, sep);
        assert((u[0] + sep + join(u.drop_first(), sep))[0] == u[0][0]);
    } else {
        assert(join(u, sep) == u[0]);
    }
}

/// A join whose first and last pieces are non-empty and trimmed is trimmed.
proof fn lemma_trim_join(u: Seq<Seq<char>>, sep: Seq<char>)
    requires
        u.len() >= 1,
        u[0].len() > 0,
        u.last().len() > 0,
        !is_white_space(u[0][0]),
        !is_white_space(u.last().last()),
    ensures
        trim(join(u, sep)) == join(u, sep),
        trim_end(join(u, sep)) == join(u, sep),
{
    lemma_join_ends(u, sep);
}

/// Dropping empty last pieces leaves the end-trimmed join as it was.
proof fn lemma_trim_end_blank_tail(u: Seq<Seq<char>>, j: int)
    requires
        0 <= j < u.len(),
        forall|k: int| j < k < u.len() ==> (#[trigger] u[k]).len() == 0,
    ensures
        trim_end(join(u, seq!['\n'])) == trim_end(join(u.take(j + 1), seq!['\n'])),
    decreases u.len(),
{
    if u.len() > j + 1 {
        let init = u.drop_last();
        assert(u.last().len() == 0);
        let x = join(init, seq!['\n']);
        assert(join(u, seq!['\n']) == x + seq!['\n'] + u.last());
        assert((x + seq!['\n'] + u.last()).drop_last() =~= x);
        lemma_trim_end_blank_tail(init, j);
        assert(init.take(j + 1) =~= u.take(j + 1));
    } else {
        assert(u.take(j + 1) =~= u);
    }
}

/// Dropping empty first pieces leaves the start-trimmed join as it was.
proof fn lemma_trim_start_blank_head(u: Seq<Seq<char>>, i: int)
    requires
        0 <= i < u.len(),
        forall|k: int| 0 <= k < i ==> (#[trigger] u[k]).len() == 0,
    ensures
        trim_start(join(u, seq!['\n'])) == trim_start(join(u.skip(i), seq!['\n'])),
    decreases i,
{
    if i > 0 {
        let rest = u.drop_first();
        lemma_join_first(u, seq!['\n']);
        assert(u[0].len() == 0);
        let y = join(rest, seq!['\n']);
        assert(u[0] + seq!['\n'] + y =~= seq!['\n'] + y);
        assert((seq!['\n'] + y).drop_first() =~= y);
        assert forall|k: int| 0 <= k < i - 1 implies (#[trigger] rest[k]).len() == 0 by {
            assert(rest[k] == u[k + 1]);
        }
        lemma_trim_start_blank_head(rest, i - 1);
        assert(rest.skip(i - 1) =~= u.skip(i));
    } else {
        assert(u.skip(0) =~= u);
    }
}

proof fn lemma_all_white(s: Seq<char>)
    requires
        forall|k: int| 0 <= k < s.len() ==> is_white_space(#[trigger] s[k]),
    ensures
        trim_end(s).len() == 0,
    decreases s.len(),
{
    if s.len() > 0 {
        lemma_all_white(s.drop_last());
    }
}

proof fn lemma_join_blank(u: Seq<Seq<char>>)
    requires
        forall|k: int| 0 <= k < u.len() ==> (#[trigger] u[k]).len() == 0,
    ensures
        forall|c: int|
            0 <= c < join(u, seq!['\n']).len() ==> #[trigger] join(u, seq!['\n'])[c] == '\n',
    decreases u.len(),
{
    if u.len() > 1 {
        lemma_join_blank(u.drop_last());
        assert(u.last().len() == 0);
        let x = join(u.drop_last(), seq!['\n']);
        assert(join(u, seq!['\n']) =~= x + seq!['\n']);
        assert forall|c: int| 0 <= c < join(u, seq!['\n']).len() implies #[trigger] join(
            u,
            seq!['\n'],
        )[c] == '\n' by {
            if c < x.len() {
                assert(x[c] == '\n');
            }
        }
    } else if u.len() == 1 {
        assert(join(u, seq!['\n']) == u[0]);
    }
}

proof fn lemma_trim_ends(s: Seq<char>)
    ensures
        trim(s).len() > 0 ==> !is_white_space(trim(s)[0]) && !is_white_space(trim(s).last()),
{
    crate::laws::law_trim_has_no_surrounding_space(s);
}

/// Doc comment lines that are all blank clean to nothing.
pub proof fn law_clean_docs_of_blank_lines(docs: Seq<char>)
    requires
        forall|k: int|
            0 <= k < trimmed_lines(docs).len() ==> (#[trigger] trimmed_lines(docs)[k]).len() == 0,
    ensures
        clean_docs_spec(docs) == Seq::<char>::empty(),
{
    let t = trimmed_lines(docs);
    lemma_join_blank(t);
    lemma_all_white(join(t, seq!['\n']));
}

/// Cleaning drops the blank lines before the first and after the last
/// non-blank line and keeps those between them: the result is the trimmed
/// lines from the first to the last non-blank one, joined with line feeds.
pub proof fn law_clean_docs_drops_blank_edge_lines(docs: Seq<char>, i: int, j: int)
    requires
        0 <= i <= j < trimmed_lines(docs).len(),
        trimmed_lines(docs)[i].len() > 0,
        trimmed_lines(docs)[j].len() > 0,
        forall|k: int| 0 <= k < i ==> (#[trigger] trimmed_lines(docs)[k]).len() == 0,
        forall|k: int|
            j < k < trimmed_lines(docs).len() ==> (#[trigger] trimmed_lines(docs)[k]).len() == 0,
    ensures
        clean_docs_spec(docs) == join(trimmed_lines(docs).subrange(i, j + 1), seq!['\n']),
{
    let t = trimmed_lines(docs);
    let sep = seq!['\n'];
    lemma_trim_ends(lines(docs)[i]);
    lemma_trim_ends(lines(docs)[j]);
    lemma_trim_end_blank_tail(t, j);
    let w = t.take(j + 1);
    assert(w.last() == t[j]);
    lemma_join_last(w, sep);
    assert(trim_end(join(w, sep)) == join(w, sep));
    assert forall|k: int| 0 <= k < i implies (#[trigger] w[k]).len() == 0 by {
        assert(w[k] == t[k]);
    }
    lemma_trim_start_blank_head(w, i);
    let u = w.skip(i);
    assert(u =~= t.subrange(i, j + 1));
    assert(u[0] == t[i]);
    assert(u.last() == t[j]);
    lemma_trim_join(u, sep);
    assert(trim_start(join(u, sep)) == join(u, sep));
}

proof fn lemma_split_len(s: Seq<char>)
    ensures
        split_newlines(s).len() >= 1,
    decreases s.len(),
{
    if s.len() > 0 {
        lemma_split_len(s.drop_last());
    }
}

proof fn lemma_split_pieces(s: Seq<char>)
    ensures
        forall|k: int|
            0 <= k < split_newlines(s).len() ==> no_newline(#[trigger] split_newlines(s)[k]),
    decreases s.len(),
{
    if s.len() > 0 {
        lemma_split_len(s.drop_last());
        lemma_split_pieces(s.drop_last());
        let p = split_newlines(s.drop_last());
        if s.last() != '\n' {
            assert(no_newline(p.last().push(s.last())));
        }
        assert forall|k: int|
            0 <= k < split_newlines(s).len() implies no_newline(#[trigger] split_newlines(s)[k]) by {
            if k < p.len() - 1 || (s.last() == '\n' && k < p.len()) {
                assert(split_newlines(s)[k] == p[k]);
            }
        }
    }
}

/// Appending text without line feeds extends the last piece.
proof fn lemma_split_append(c: Seq<char>, b: Seq<char>)
    requires
        no_newline(b),
    ensures
        split_newlines(c + b) == split_newlines(c).update(
            split_newlines(c).len() - 1,
            split_newlines(c).last() + b,
        ),
    decreases b.len(),
{
    lemma_split_len(c);
    if b.len() == 0 {
        assert(c + b =~= c);
        assert(split_newlines(c).last() + b =~= split_newlines(c).last());
        assert(split_newlines(c).update(split_newlines(c).len() - 1, split_newlines(c).last())
            =~= split_newlines(c));
    } else {
        let b0 = b.drop_last();
        lemma_split_append(c, b0);
        assert((c + b).drop_last() =~= c + b0);
        assert((c + b).last() == b.last());
        assert(b.last() != '\n');
        let pc = split_newlines(c);
        let pieces = split_newlines(c + b0);
        assert(pieces == pc.update(pc.len() - 1, pc.last() + b0));
        assert(pieces.len() == pc.len());
        assert(pieces.last() == pc.last() + b0);
        assert(split_newlines(c + b) == pieces.update(
            pieces.len() - 1,
            pieces.last().push(b.last()),
        ));
        assert((pc.last() + b0).push(b.last()) =~= pc.last() + b);
        assert(split_newlines(c + b) =~= split_newlines(c).update(
            split_newlines(c).len() - 1,
            split_newlines(c).last() + b,
        ));
    }
}

/// Splitting a join of pieces without line feeds gives the pieces back.
proof fn lemma_split_join(u: Seq<Seq<char>>)
    requires
        u.len() >= 1,
        forall|k: int| 0 <= k < u.len() ==> no_newline(#[trigger] u[k]),
    ensures
        split_newlines(join(u, seq!['\n'])) == u,
    decreases u.len(),
{
    let sep = seq!['\n'];
    if u.len() == 1 {
        lemma_split_append(Seq::empty(), u[0]);
        assert(Seq::<char>::empty() + u[0] =~= u[0]);
        assert(seq![Seq::<char>::empty()].update(0, Seq::<char>::empty() + u[0]) =~= u);
    } else {
        let init = u.drop_last();
        lemma_split_join(init);
        let a = join(init, sep);
        let c = a + sep;
        assert(c.drop_last() =~= a);
        assert(split_newlines(c) == split_newlines(a).push(Seq::empty()));
        assert(no_newline(u.last()));
        lemma_split_append(c, u.last());
        assert(Seq::<char>::empty() + u.last() =~= u.last());
        assert(split_newlines(c + u.last()) =~= u);
    }
}

proof fn lemma_trim_start_sub(s: Seq<char>)
    ensures
        no_newline(s) ==> no_newline(trim_start(s)),
    decreases s.len(),
{
    if s.len() > 0 && is_white_space(s[0]) {
        lemma_trim_start_sub(s.drop_first());
    }
}

proof fn lemma_trim_end_sub(s: Seq<char>)
    ensures
        no_newline(s) ==> no_newline(trim_end(s)),
    decreases s.len(),
{
    if s.len() > 0 && is_white_space(s.last()) {
        lemma_trim_end_sub(s.drop_last());
    }
}

/// Trimming twice trims no more than once.
proof fn lemma_trim_idempotent(s: Seq<char>)
    ensures
        trim(trim(s)) == trim(s),
{
    lemma_trim_ends(s);
}

proof fn lemma_trimmed_lines_props(docs: Seq<char>)
    ensures
        forall|k: int|
            0 <= k < trimmed_lines(docs).len() ==> no_newline(#[trigger] trimmed_lines(docs)[k])
                && trim(trimmed_lines(docs)[k]) == trimmed_lines(docs)[k] && (
                trimmed_lines(docs)[k].len() > 0 ==> !is_white_space(trimmed_lines(docs)[k][0])
                    && !is_white_space(trimmed_lines(docs)[k].last())),
{
    lemma_split_pieces(docs);
    let t = trimmed_lines(docs);
    assert forall|k: int| 0 <= k < t.len() implies no_newline(#[trigger] t[k]) && trim(t[k])
        == t[k] && (t[k].len() > 0 ==> !is_white_space(t[k][0]) && !is_white_space(t[k].last())) by {
        let l = lines(docs)[k];
        let pieces = split_newlines(docs);
        lemma_split_len(docs);
        let terminated = pieces.drop_last().map_values(|line: Seq<char>| strip_cr(line));
        if k < pieces.len() - 1 {
            assert(no_newline(pieces[k]));
            assert(l == terminated[k]);
            assert(l == strip_cr(pieces[k]));
            assert(no_newline(l));
        } else {
            assert(docs.last() != '\n');
            assert(lines(docs) == terminated.push(pieces.last()));
            assert(l == pieces.last());
            assert(no_newline(l));
        }
        lemma_trim_end_sub(l);
        lemma_trim_start_sub(trim_end(l));
        lemma_trim_idempotent(l);
        lemma_trim_ends(l);
    }
}

/// Cleaning a cleaned doc comment changes nothing, and each line of a
/// cleaned doc comment is trimmed.
pub proof fn law_clean_docs_is_stable(docs: Seq<char>)
    ensures
        clean_docs_spec(clean_docs_spec(docs)) == clean_docs_spec(docs),
        forall|k: int|
            0 <= k < split_newlines(clean_docs_spec(docs)).len() ==> trim(
                #[trigger] split_newlines(clean_docs_spec(docs))[k],
            ) == split_newlines(clean_docs_spec(docs))[k],
{
    let t = trimmed_lines(docs);
    let sep = seq!['\n'];
    let r = clean_docs_spec(docs);
    lemma_trimmed_lines_props(docs);
    lemma_first_nonblank(t);
    lemma_last_nonblank(t);
    let i = first_nonblank(t);
    let j = last_nonblank(t);
    if i == t.len() {
        law_clean_docs_of_blank_lines(docs);
        assert(r.len() == 0);
        assert(lines(r) == Seq::<Seq<char>>::empty());
        assert(trimmed_lines(r) =~= Seq::<Seq<char>>::empty());
        assert(split_newlines(r) == seq![Seq::<char>::empty()]);
    } else {
        assert(t[i].len() > 0);
        if j < i {
            assert(t[j + 1].len() == 0 || j + 1 == i);
            assert(false);
        }
        law_clean_docs_drops_blank_edge_lines(docs, i, j);
        let u = t.subrange(i, j + 1);
        assert(r == join(u, sep));
        assert(forall|k: int| 0 <= k < u.len() ==> #[trigger] u[k] == t[i + k]);
        lemma_split_join(u);
        lemma_join_ends(u, sep);
        assert(r.last() == t[j].last());
        assert(r.last() != '\n');
        let pieces = split_newlines(r);
        let terminated = pieces.drop_last().map_values(|l: Seq<char>| strip_cr(l));
        assert(lines(r) == terminated.push(pieces.last()));
        assert forall|k: int| 0 <= k < u.len() - 1 implies strip_cr(#[trigger] u[k]) == u[k] by {
            assert(u[k] == t[i + k]);
        }
        assert(lines(r) =~= u);
        assert(trimmed_lines(r) =~= u);
        lemma_trim_join(u, sep);
    }
}

} // verus!
