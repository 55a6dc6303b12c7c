//! Character-level text helpers.

use vstd::prelude::*;

verus! {

broadcast use vstd::string::group_string_axioms;

/// Whether `c` has the Unicode `White_Space` property, which is what
/// `char::is_whitespace` tests.
pub open spec fn is_white_space(c: char) -> bool {
    ||| ('\u{9}' <= c && c <= '\u{d}')
    ||| c == ' '
    ||| c == '\u{85}'
    ||| c == '\u{a0}'
    ||| c == '\u{1680}'
    ||| ('\u{2000}' <= c && c <= '\u{200a}')
    ||| c == '\u{2028}'
    ||| c == '\u{2029}'
    ||| c == '\u{202f}'
    ||| c == '\u{205f}'
    ||| c == '\u{3000}'
}

/// `s` without its leading white space.
pub open spec fn trim_start(s: Seq<char>) -> Seq<char>
    decreases s.len(),
{
    if s.len() > 0 && is_white_space(s[0]) {
        trim_start(s.drop_first())
    } else {
        s
    }
}

/// `s` without its trailing white space.
pub open spec fn trim_end(s: Seq<char>) -> Seq<char>
    decreases s.len(),
{
    if s.len() > 0 && is_white_space(s.last()) {
        trim_end(s.drop_last())
    } else {
        s
    }
}

/// `s` without leading or trailing white space, as `str::trim` gives it.
pub open spec fn trim(s: Seq<char>) -> Seq<char> {
    trim_start(trim_end(s))
}

/// The pieces of `s` between line feeds: one more piece than there are line feeds.
pub open spec fn split_newlines(s: Seq<char>) -> Seq<Seq<char>>
    decreases s.len(),
{
    if s.len() == 0 {
        seq![Seq::empty()]
    } else {
        let pieces = split_newlines(s.drop_last());
        if s.last() == '\n' {
            pieces.push(Seq::empty())
        } else {
            pieces.update(pieces.len() - 1, pieces.last().push(s.last()))
        }
    }
}

/// `line` without one carriage return at its end.
pub open spec fn strip_cr(line: Seq<char>) -> Seq<char> {
    if line.len() > 0 && line.last() == '\r' {
        line.drop_last()
    } else {
        line
    }
}

/// The lines of `s`, as `str::lines` gives them: split at line feeds, with a
/// carriage return just before a line feed dropped, and no line after a final
/// line feed. A last line without a line feed keeps a carriage return at its end.
pub open spec fn lines(s: Seq<char>) -> Seq<Seq<char>> {
    if s.len() == 0 {
        Seq::empty()
    } else {
        let pieces = split_newlines(s);
        let terminated = pieces.drop_last().map_values(|line: Seq<char>| strip_cr(line));
        if s.last() == '\n' {
            terminated
        } else {
            terminated.push(pieces.last())
        }
    }
}

/// The pieces joined with `sep` between each two of them.
pub open spec fn join(pieces: Seq<Seq<char>>, sep: Seq<char>) -> Seq<char>
    decreases pieces.len(),
{
    if pieces.len() == 0 {
        Seq::empty()
    } else if pieces.len() == 1 {
        pieces[0]
    } else {
        join(pieces.drop_last(), sep) + sep + pieces.last()
    }
}

/// Doc comment text as it is shown: each line trimmed, the lines joined
/// with line feeds, and the whole trimmed.
pub open spec fn clean_docs_spec(docs: Seq<char>) -> Seq<char> {
    trim(join(lines(docs).map_values(|line: Seq<char>| trim(line)), seq!['\n']))
}

/// Whether `c` is white space.
pub fn is_whitespace(c: char) -> (r: bool)
    ensures
        r == is_white_space(c),
{
    ('\u{9}' <= c && c <= '\u{d}') || c == ' ' || c == '\u{85}' || c == '\u{a0}' || c
        == '\u{1680}' || ('\u{2000}' <= c && c <= '\u{200a}') || c == '\u{2028}' || c
        == '\u{2029}' || c == '\u{202f}' || c == '\u{205f}' || c == '\u{3000}'
}

/// Appends one character to a string.
#[verifier::external_body]
pub(crate) fn push_char(s: &mut String, c: char)
    ensures
        final(s)@ == old(s)@.push(c),
{
    s.push(c);
}

/// The characters of `s`, in order.
pub fn chars_of(s: &str) -> (r: Vec<char>)
    ensures
        r@ == s@,
{
    let mut r: Vec<char> = Vec::new();
    for c in it: s.chars()
        invariant
            r@ == it.seq().take(it.index() as int),
    {
        r.push(c);
    }
    r
}

} // verus!

verus! {

/// Whether two strings hold the same characters.
pub fn str_eq(a: &str, b: &str) -> (r: bool)
    ensures
        r == (a@ == b@),
{
    let x = chars_of(a);
    let y = chars_of(b);
    if x.len() != y.len() {
        return false;
    }
    let mut i: usize = 0;
    while i < x.len()
        invariant
            x@ == a@,
            y@ == b@,
            x@.len() == y@.len(),
            i <= x@.len(),
            forall|j: int| 0 <= j < i ==> x@[j] == y@[j],
        decreases x@.len() - i,
    {
        if x[i] != y[i] {
            return false;
        }
        i += 1;
    }
    assert(x@ =~= y@);
    true
}

/// The string made of `chars[lo..hi]`.
pub fn string_from_chars(chars: &Vec<char>, lo: usize, hi: usize) -> (r: String)
    requires
        lo <= hi <= chars@.len(),
    ensures
        r@ == chars@.subrange(lo as int, hi as int),
{
    let mut r = String::new();
    let mut i = lo;
    while i < hi
        invariant
            lo <= i <= hi <= chars@.len(),
            r@ == chars@.subrange(lo as int, i as int),
        decreases hi - i,
    {
        push_char(&mut r, chars[i]);
        assert(chars@.subrange(lo as int, i + 1) =~= chars@.subrange(lo as int, i as int).push(chars@[i as int]));
        i += 1;
    }
    r
}

} // verus!

verus! {

proof fn lemma_trim_end_ws(s: Seq<char>, j: int)
    requires
        0 < j <= s.len(),
        is_white_space(s[j - 1]),
    ensures
        trim_end(s.take(j)) == trim_end(s.take(j - 1)),
{
    assert(s.take(j).drop_last() =~= s.take(j - 1));
}

proof fn lemma_trim_start_ws(s: Seq<char>, k: int)
    requires
        0 <= k < s.len(),
        is_white_space(s[k]),
    ensures
        trim_start(s.skip(k)) == trim_start(s.skip(k + 1)),
{
    assert(s.skip(k).drop_first() =~= s.skip(k + 1));
}

/// The bounds of `chars[lo..hi]` with its surrounding white space left out.
fn trim_bounds(chars: &Vec<char>, lo: usize, hi: usize) -> (r: (usize, usize))
    requires
        lo <= hi <= chars@.len(),
    ensures
        lo <= r.0 <= r.1 <= hi,
        chars@.subrange(r.0 as int, r.1 as int) == trim(chars@.subrange(lo as int, hi as int)),
{
    let ghost s = chars@.subrange(lo as int, hi as int);
    assert(s.take(hi - lo) =~= s);
    let mut j = hi;
    while j > lo && is_whitespace(chars[j - 1])
        invariant
            lo <= j <= hi <= chars@.len(),
            s == chars@.subrange(lo as int, hi as int),
            trim_end(s) == trim_end(s.take(j - lo)),
        decreases j,
    {
        proof {
            lemma_trim_end_ws(s, j - lo);
        }
        j -= 1;
    }
    let ghost e = s.take(j - lo);
    assert(trim_end(e) == e);
    assert(e.skip(0) =~= e);
    let mut k = lo;
    while k < j && is_whitespace(chars[k])
        invariant
            lo <= k <= j <= hi <= chars@.len(),
            s == chars@.subrange(lo as int, hi as int),
            e == s.take(j - lo),
            e =~= chars@.subrange(lo as int, j as int),
            trim_start(e) == trim_start(e.skip(k - lo)),
        decreases j - k,
    {
        proof {
            lemma_trim_start_ws(e, k - lo);
        }
        k += 1;
    }
    assert(trim_start(e.skip(k - lo)) == e.skip(k - lo));
    assert(e.skip(k - lo) =~= chars@.subrange(k as int, j as int));
    (k, j)
}

/// `s` without leading or trailing white space.
pub fn trim_str(s: &str) -> (r: String)
    ensures
        r@ == trim(s@),
{
    let chars = chars_of(s);
    let (a, b) = trim_bounds(&chars, 0, chars.len());
    assert(chars@.subrange(0, chars@.len() as int) =~= chars@);
    string_from_chars(&chars, a, b)
}

} // verus!

verus! {

proof fn lemma_trim_strip_cr(line: Seq<char>)
    ensures
        trim(strip_cr(line)) == trim(line),
{
}

proof fn lemma_trim_lines(pieces: Seq<Seq<char>>)
    ensures
        pieces.map_values(|l: Seq<char>| strip_cr(l)).map_values(|l: Seq<char>| trim(l))
            =~= pieces.map_values(|l: Seq<char>| trim(l)),
{
    assert forall|i: int| 0 <= i < pieces.len() implies trim(strip_cr(pieces[i])) == trim(
        pieces[i],
    ) by {
        lemma_trim_strip_cr(pieces[i]);
    }
}

proof fn lemma_join_push(pieces: Seq<Seq<char>>, x: Seq<char>, sep: Seq<char>)
    ensures
        join(pieces.push(x), sep) == if pieces.len() == 0 {
            x
        } else {
            join(pieces, sep) + sep + x
        },
{
    assert(pieces.push(x).drop_last() =~= pieces);
}

/// Appends `chars[lo..hi]` to `out`.
fn append_range(out: &mut Vec<char>, chars: &Vec<char>, lo: usize, hi: usize)
    requires
        lo <= hi <= chars@.len(),
    ensures
        final(out)@ == old(out)@ + chars@.subrange(lo as int, hi as int),
{
    let mut i = lo;
    while i < hi
        invariant
            lo <= i <= hi <= chars@.len(),
            out@ == old(out)@ + chars@.subrange(lo as int, i as int),
        decreases hi - i,
    {
        out.push(chars[i]);
        assert(old(out)@ + chars@.subrange(lo as int, i + 1) =~= old(out)@ + chars@.subrange(
            lo as int,
            i as int,
        ) + seq![chars@[i as int]]);
        i += 1;
    }
}

/// Formats a doc comment for display: trims each line, joins the lines with
/// line feeds, and trims the result.
pub fn clean_docs(docs: &str) -> (r: String)
    ensures
        r@ == clean_docs_spec(docs@),
{
    let chars = chars_of(docs);
    let ghost s = chars@;
    let ghost sep = seq!['\n'];
    let mut out: Vec<char> = Vec::new();
    let mut first = true;
    let mut line_start: usize = 0;
    let mut i: usize = 0;
    let ghost mut done: Seq<Seq<char>> = Seq::empty();
    assert(s.take(0) =~= Seq::<char>::empty());
    assert(s.subrange(0, 0) =~= Seq::<char>::empty());
    assert(done.push(Seq::<char>::empty()) =~= seq![Seq::<char>::empty()]);
    while i < chars.len()
        invariant
            s == chars@,
            sep == seq!['\n'],
            line_start <= i <= chars@.len(),
            split_newlines(s.take(i as int)) == done.push(s.subrange(line_start as int, i as int)),
            out@ == join(done.map_values(|l: Seq<char>| trim(l)), sep),
            first == (done.len() == 0),
            line_start > 0 ==> s[line_start - 1] == '\n',
            i > 0 && s[i - 1] == '\n' ==> line_start == i,
        decreases chars@.len() - i,
    {
        assert(s.take(i + 1).drop_last() =~= s.take(i as int));
        if chars[i] == '\n' {
            let (a, b) = trim_bounds(&chars, line_start, i);
            proof {
                lemma_join_push(
                    done.map_values(|l: Seq<char>| trim(l)),
                    trim(s.subrange(line_start as int, i as int)),
                    sep,
                );
                assert(done.push(s.subrange(line_start as int, i as int)).map_values(
                    |l: Seq<char>| trim(l),
                ) =~= done.map_values(|l: Seq<char>| trim(l)).push(
                    trim(s.subrange(line_start as int, i as int)),
                ));
            }
            if !first {
                out.push('\n');
            }
            append_range(&mut out, &chars, a, b);
            proof {
                done = done.push(s.subrange(line_start as int, i as int));
                assert(s.subrange(i + 1, i + 1) =~= Seq::<char>::empty());
            }
            first = false;
            line_start = i + 1;
        } else {
            assert(s.subrange(line_start as int, i + 1) =~= s.subrange(
                line_start as int,
                i as int,
            ).push(s[i as int]));
        }
        i += 1;
    }
    assert(s.take(s.len() as int) =~= s);
    let ghost pieces = split_newlines(s);
    if line_start < chars.len() {
        let (a, b) = trim_bounds(&chars, line_start, chars.len());
        proof {
            lemma_join_push(
                done.map_values(|l: Seq<char>| trim(l)),
                trim(s.subrange(line_start as int, s.len() as int)),
                sep,
            );
            assert(pieces.map_values(|l: Seq<char>| trim(l)) =~= done.map_values(
                |l: Seq<char>| trim(l),
            ).push(trim(s.subrange(line_start as int, s.len() as int))));
            lemma_trim_lines(pieces);
        }
        if !first {
            out.push('\n');
        }
        append_range(&mut out, &chars, a, b);
        proof {
            assert(s.last() != '\n');
            let last = s.subrange(line_start as int, s.len() as int);
            assert(pieces =~= done.push(last));
            assert(pieces.drop_last() =~= done);
            lemma_trim_lines(done);
            let terminated = done.map_values(|l: Seq<char>| strip_cr(l));
            assert(lines(s) == terminated.push(last));
            assert(lines(s).map_values(|l: Seq<char>| trim(l)) =~= terminated.map_values(
                |l: Seq<char>| trim(l),
            ).push(trim(last)));
            assert(pieces.map_values(|l: Seq<char>| trim(l)) =~= done.map_values(
                |l: Seq<char>| trim(l),
            ).push(trim(last)));
            assert(out@ == join(lines(s).map_values(|l: Seq<char>| trim(l)), sep));
        }
    } else {
        proof {
            if s.len() > 0 {
                assert(pieces.drop_last() =~= done);
                lemma_trim_lines(done);
                assert(lines(s) == done.map_values(|l: Seq<char>| strip_cr(l)));
            } else {
                assert(lines(s).map_values(|l: Seq<char>| trim(l)) =~= Seq::<Seq<char>>::empty());
                assert(done.map_values(|l: Seq<char>| trim(l)) =~= Seq::<Seq<char>>::empty());
            }
            assert(out@ == join(lines(s).map_values(|l: Seq<char>| trim(l)), sep));
        }
    }
    let (a, b) = trim_bounds(&out, 0, out.len());
    assert(out@.subrange(0, out@.len() as int) =~= out@);
    string_from_chars(&out, a, b)
}

} // verus!

verus! {

/// Whether `s` begins with `prefix`.
pub fn starts_with(s: &str, prefix: &str) -> (r: bool)
    ensures
        r == prefix@.is_prefix_of(s@),
{
    let x = chars_of(s);
    let p = chars_of(prefix);
    if p.len() > x.len() {
        return false;
    }
    let mut i: usize = 0;
    while i < p.len()
        invariant
            x@ == s@,
            p@ == prefix@,
            p@.len() <= x@.len(),
            i <= p@.len(),
            forall|j: int| 0 <= j < i ==> p@[j] == x@[j],
        decreases p@.len() - i,
    {
        if p[i] != x[i] {
            return false;
        }
        i += 1;
    }
    true
}

} // verus!

verus! {

/// The decimal digits, in order of value.
pub open spec fn digits() -> Seq<char> {
    seq!['0', '1', '2', '3', '4', '5', '6', '7', '8', '9']
}

/// The decimal text of `n`, without leading zeros.
pub open spec fn decimal(n: nat) -> Seq<char>
    decreases n,
{
    if n < 10 {
        seq![digits()[n as int]]
    } else {
        decimal(n / 10).push(digits()[(n % 10) as int])
    }
}

fn digit(d: u64) -> (c: char)
    requires
        d < 10,
    ensures
        c == digits()[d as int],
{
    match d {
        0 => '0',
        1 => '1',
        2 => '2',
        3 => '3',
        4 => '4',
        5 => '5',
        6 => '6',
        7 => '7',
        8 => '8',
        _ => '9',
    }
}

/// The decimal text of `n`.
pub fn decimal_string(n: u64) -> (r: String)
    ensures
        r@ == decimal(n as nat),
    decreases n,
{
    if n < 10 {
        let mut s = String::new();
        push_char(&mut s, digit(n));
        s
    } else {
        let mut s = decimal_string(n / 10);
        push_char(&mut s, digit(n % 10));
        s
    }
}

} // verus!
