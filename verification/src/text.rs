//! Small verified text-building helpers: joining path segments, rendering
//! decimal numbers, and rendering the diagnostic commit lines.

use vstd::prelude::*;

verus! {

/// Relies on `String::push`: appends exactly one character.
#[verifier::external_body]
pub(crate) fn push_char(s: &mut String, c: char)
    ensures
        final(s)@ == old(s)@.push(c),
{
    s.push(c);
}

/// The join of a base path and an entry name: a `/` separator is inserted
/// unless the base already ends with one.
pub open spec fn join_chars(b: Seq<char>, n: Seq<char>) -> Seq<char> {
    if b.len() > 0 && b[b.len() - 1] == '/' {
        b + n
    } else {
        b + seq!['/'] + n
    }
}

/// Joins a base path and an entry name with a `/` separator.
pub fn join_path(base: &str, name: &str) -> (r: String)
    ensures
        r@ == join_chars(base@, name@),
{
    let mut s = String::from_str(base);
    let bl: usize = base.unicode_len();
    if bl == 0 || base.get_char(bl - 1) != '/' {
        push_char(&mut s, '/');
        proof {
            assert(s@ =~= base@ + seq!['/']);
        }
    }
    s.append(name);
    proof {
        assert(s@ =~= join_chars(base@, name@));
    }
    s
}

/// The character for a value below sixteen, as in lower-case hexadecimal.
pub open spec fn nibble_char(v: int) -> char {
    if v == 0 { '0' }
    else if v == 1 { '1' }
    else if v == 2 { '2' }
    else if v == 3 { '3' }
    else if v == 4 { '4' }
    else if v == 5 { '5' }
    else if v == 6 { '6' }
    else if v == 7 { '7' }
    else if v == 8 { '8' }
    else if v == 9 { '9' }
    else if v == 10 { 'a' }
    else if v == 11 { 'b' }
    else if v == 12 { 'c' }
    else if v == 13 { 'd' }
    else if v == 14 { 'e' }
    else { 'f' }
}

/// The character for a value below sixteen, as in lower-case hexadecimal.
pub fn nibble_char_exec(v: u8) -> (c: char)
    requires
        v < 16,
    ensures
        c == nibble_char(v as int),
{
    if v == 0 { '0' }
    else if v == 1 { '1' }
    else if v == 2 { '2' }
    else if v == 3 { '3' }
    else if v == 4 { '4' }
    else if v == 5 { '5' }
    else if v == 6 { '6' }
    else if v == 7 { '7' }
    else if v == 8 { '8' }
    else if v == 9 { '9' }
    else if v == 10 { 'a' }
    else if v == 11 { 'b' }
    else if v == 12 { 'c' }
    else if v == 13 { 'd' }
    else if v == 14 { 'e' }
    else { 'f' }
}

/// The decimal rendering of a number, most significant digit first, with no
/// leading zeros (zero itself renders as `0`).
pub open spec fn dec_chars(n: nat) -> Seq<char>
    decreases n,
{
    if n < 10 {
        seq![nibble_char(n as int)]
    } else {
        dec_chars(n / 10).push(nibble_char((n % 10) as int))
    }
}

/// Appends the decimal rendering of `n`.
pub fn push_decimal(s: &mut String, n: u64)
    ensures
        final(s)@ == old(s)@ + dec_chars(n as nat),
    decreases n,
{
    let ghost pre = s@;
    if n >= 10 {
        push_decimal(s, n / 10);
    }
    push_char(s, nibble_char_exec((n % 10) as u8));
    proof {
        if n < 10 {
            assert(s@ =~= pre + dec_chars(n as nat));
        } else {
            assert((n as nat) / 10 == (n / 10) as nat);
            assert(s@ =~= pre + dec_chars(n as nat));
        }
    }
}

/// The rendering of a list of short ids as a bracketed, quoted,
/// comma-separated list body (without the brackets).
pub open spec fn quoted_list_chars(ps: Seq<Seq<char>>) -> Seq<char>
    decreases ps.len(),
{
    if ps.len() == 0 {
        Seq::empty()
    } else if ps.len() == 1 {
        quoted_chars(ps[0])
    } else {
        quoted_chars(ps[0]) + ", "@ + quoted_list_chars(ps.drop_first())
    }
}

/// A character sequence surrounded by double quotes.
pub open spec fn quoted_chars(s: Seq<char>) -> Seq<char> {
    "\""@ + s + "\""@
}

/// Extending a quoted list by one element appends a separator (when the list
/// was not empty) and the quoted element.
pub proof fn lemma_quoted_list_push(ps: Seq<Seq<char>>, x: Seq<char>)
    ensures
        quoted_list_chars(ps.push(x)) == if ps.len() == 0 {
            quoted_chars(x)
        } else {
            quoted_list_chars(ps) + ", "@ + quoted_chars(x)
        },
    decreases ps.len(),
{
    if ps.len() == 0 {
        assert(ps.push(x) =~= seq![x]);
        assert(quoted_list_chars(seq![x]) == quoted_chars(x));
    } else {
        assert(ps.push(x).drop_first() =~= ps.drop_first().push(x));
        lemma_quoted_list_push(ps.drop_first(), x);
        assert(quoted_list_chars(ps.push(x)) =~= quoted_list_chars(ps) + ", "@
            + quoted_chars(x));
    }
}

/// One diagnostic line of the commit graph: the commit's short id, the list
/// of its parents' short ids, and its message.
pub open spec fn commit_line_chars(short: Seq<char>, parents: Seq<Seq<char>>, msg: Seq<char>)
    -> Seq<char> {
    short + " (["@ + quoted_list_chars(parents) + "]) "@ + msg
}

/// Renders one diagnostic line of the commit graph.
pub fn render_commit_line(short: &str, parents: &Vec<String>, msg: &str) -> (r: String)
    ensures
        r@ == commit_line_chars(short@, parents@.map_values(|p: String| p@), msg@),
{
    let ghost ps = parents@.map_values(|p: String| p@);
    let mut s = String::from_str(short);
    s.append(" ([");
    let mut i: usize = 0;
    proof {
        assert(ps.take(0) =~= Seq::<Seq<char>>::empty());
        assert(s@ =~= short@ + " (["@ + quoted_list_chars(ps.take(0)));
    }
    while i < parents.len()
        invariant
            i <= parents@.len(),
            ps == parents@.map_values(|p: String| p@),
            s@ == short@ + " (["@ + quoted_list_chars(ps.take(i as int)),
        decreases parents@.len() - i,
    {
        if i > 0 {
            s.append(", ");
        }
        s.append("\"");
        s.append(parents[i].as_str());
        s.append("\"");
        proof {
            assert(ps.take(i as int).push(ps[i as int]) =~= ps.take(i + 1));
            lemma_quoted_list_push(ps.take(i as int), ps[i as int]);
            assert(quoted_chars(ps[i as int]) =~= "\""@ + ps[i as int] + "\""@);
            assert(s@ =~= short@ + " (["@ + quoted_list_chars(ps.take(i + 1)));
        }
        i = i + 1;
    }
    s.append("]) ");
    s.append(msg);
    proof {
        assert(ps.take(ps.len() as int) =~= ps);
        assert(s@ =~= commit_line_chars(short@, ps, msg@));
    }
    s
}

} // verus!
