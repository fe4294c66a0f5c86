//! Directory-first ordering of slash-separated paths.
//!
//! A path such as `./folder/file` is compared to another path component by
//! component. At each position, a component that is the last of its path (a
//! file name) sorts after a component that still has directory components
//! following it; components with the same file/directory status are compared
//! lexicographically by code point.

use vstd::prelude::*;

verus! {

/// The components of a slash-separated path: the maximal runs of characters
/// between `/` separators. The empty string has one empty component.
pub open spec fn path_components(s: Seq<char>) -> Seq<Seq<char>>
    decreases s.len(),
{
    if s.len() == 0 {
        seq![Seq::<char>::empty()]
    } else if s[0] == '/' {
        seq![Seq::<char>::empty()] + path_components(s.drop_first())
    } else {
        let rest = path_components(s.drop_first());
        seq![seq![s[0]] + rest[0]] + rest.drop_first()
    }
}

/// A path always has at least one component.
pub proof fn lemma_path_components_len(s: Seq<char>)
    ensures
        path_components(s).len() >= 1,
    decreases s.len(),
{
    if s.len() > 0 {
        lemma_path_components_len(s.drop_first());
    }
}

/// Three-way lexicographic comparison of character sequences by code point:
/// negative when `a` comes first, zero when they are equal, positive when
/// `b` comes first. A proper prefix comes before the longer sequence.
pub open spec fn lex_cmp(a: Seq<char>, b: Seq<char>) -> int
    decreases a.len() + b.len(),
{
    if a.len() == 0 && b.len() == 0 {
        0
    } else if a.len() == 0 {
        -1
    } else if b.len() == 0 {
        1
    } else if a[0] < b[0] {
        -1
    } else if a[0] > b[0] {
        1
    } else {
        lex_cmp(a.drop_first(), b.drop_first())
    }
}

/// Directory-first three-way comparison of two component sequences. A
/// sequence of length one (or zero) is at its file component; a longer one
/// still has directory components to traverse. Files sort after directories
/// at the same position; otherwise the front components decide
/// lexicographically, and on a tie the comparison moves inward.
pub open spec fn cmp_components(a: Seq<Seq<char>>, b: Seq<Seq<char>>) -> int
    decreases a.len() + b.len(),
{
    let a_file = a.len() <= 1;
    let b_file = b.len() <= 1;
    if a_file && !b_file {
        1
    } else if !a_file && b_file {
        -1
    } else if a.len() == 0 && b.len() == 0 {
        0
    } else if a.len() == 0 {
        -1
    } else if b.len() == 0 {
        1
    } else {
        let c = lex_cmp(a[0], b[0]);
        if c != 0 {
            c
        } else {
            cmp_components(a.drop_first(), b.drop_first())
        }
    }
}

/// Directory-first three-way comparison of two slash-separated paths.
pub open spec fn path_cmp_spec(a: Seq<char>, b: Seq<char>) -> int {
    cmp_components(path_components(a), path_components(b))
}

/// `a` sorts no later than `b` in the directory-first path order.
pub open spec fn path_le(a: Seq<char>, b: Seq<char>) -> bool {
    path_cmp_spec(a, b) <= 0
}

/// `lex_cmp` only takes the values -1, 0 and 1.
pub proof fn lemma_lex_cmp_range(a: Seq<char>, b: Seq<char>)
    ensures
        -1 <= lex_cmp(a, b) <= 1,
    decreases a.len() + b.len(),
{
    if a.len() > 0 && b.len() > 0 && a[0] == b[0] {
        lemma_lex_cmp_range(a.drop_first(), b.drop_first());
    }
}

/// Swapping the arguments of `lex_cmp` negates its result.
pub proof fn lemma_lex_cmp_antisym(a: Seq<char>, b: Seq<char>)
    ensures
        lex_cmp(a, b) == -lex_cmp(b, a),
    decreases a.len() + b.len(),
{
    if a.len() > 0 && b.len() > 0 && a[0] == b[0] {
        lemma_lex_cmp_antisym(a.drop_first(), b.drop_first());
    }
}

/// Character sequences that compare as equal are equal.
pub proof fn lemma_lex_cmp_eq(a: Seq<char>, b: Seq<char>)
    requires
        lex_cmp(a, b) == 0,
    ensures
        a == b,
    decreases a.len() + b.len(),
{
    if a.len() > 0 && b.len() > 0 && a[0] == b[0] {
        lemma_lex_cmp_eq(a.drop_first(), b.drop_first());
        assert(a =~= seq![a[0]] + a.drop_first());
        assert(b =~= seq![b[0]] + b.drop_first());
    } else {
        assert(a =~= b);
    }
}

/// The lexicographic order is transitive in its strict form.
pub proof fn lemma_lex_cmp_trans(a: Seq<char>, b: Seq<char>, c: Seq<char>)
    requires
        lex_cmp(a, b) < 0,
        lex_cmp(b, c) < 0,
    ensures
        lex_cmp(a, c) < 0,
    decreases a.len() + b.len() + c.len(),
{
    if a.len() > 0 && b.len() > 0 && c.len() > 0 && a[0] == b[0] && b[0] == c[0] {
        lemma_lex_cmp_trans(a.drop_first(), b.drop_first(), c.drop_first());
    }
}

/// `cmp_components` only takes the values -1, 0 and 1.
pub proof fn lemma_cmp_components_range(a: Seq<Seq<char>>, b: Seq<Seq<char>>)
    ensures
        -1 <= cmp_components(a, b) <= 1,
    decreases a.len() + b.len(),
{
    if a.len() > 0 && b.len() > 0 {
        lemma_lex_cmp_range(a[0], b[0]);
        if lex_cmp(a[0], b[0]) == 0 {
            lemma_cmp_components_range(a.drop_first(), b.drop_first());
        }
    }
}

/// Swapping the arguments of `cmp_components` negates its result.
pub proof fn lemma_cmp_components_antisym(a: Seq<Seq<char>>, b: Seq<Seq<char>>)
    ensures
        cmp_components(a, b) == -cmp_components(b, a),
    decreases a.len() + b.len(),
{
    if a.len() > 0 && b.len() > 0 {
        lemma_lex_cmp_antisym(a[0], b[0]);
        if lex_cmp(a[0], b[0]) == 0 {
            lemma_cmp_components_antisym(a.drop_first(), b.drop_first());
        }
    }
}

/// Component sequences that compare as equal are equal.
pub proof fn lemma_cmp_components_eq(a: Seq<Seq<char>>, b: Seq<Seq<char>>)
    requires
        cmp_components(a, b) == 0,
    ensures
        a == b,
    decreases a.len() + b.len(),
{
    if a.len() == 0 && b.len() == 0 {
        assert(a =~= b);
    } else {
        lemma_lex_cmp_range(a[0], b[0]);
        lemma_lex_cmp_eq(a[0], b[0]);
        lemma_cmp_components_eq(a.drop_first(), b.drop_first());
        assert(a =~= seq![a[0]] + a.drop_first());
        assert(b =~= seq![b[0]] + b.drop_first());
    }
}

/// The directory-first order on component sequences is transitive in its
/// strict form.
pub proof fn lemma_cmp_components_strict_trans(
    a: Seq<Seq<char>>,
    b: Seq<Seq<char>>,
    c: Seq<Seq<char>>,
)
    requires
        cmp_components(a, b) < 0,
        cmp_components(b, c) < 0,
    ensures
        cmp_components(a, c) < 0,
    decreases a.len() + b.len() + c.len(),
{
    if a.len() > 0 && b.len() > 0 {
        lemma_lex_cmp_range(a[0], b[0]);
    }
    if b.len() > 0 && c.len() > 0 {
        lemma_lex_cmp_range(b[0], c[0]);
    }
    if a.len() > 0 && b.len() > 0 && c.len() > 0 {
        lemma_lex_cmp_range(a[0], c[0]);
        if lex_cmp(a[0], b[0]) == 0 {
            lemma_lex_cmp_eq(a[0], b[0]);
        }
        if lex_cmp(b[0], c[0]) == 0 {
            lemma_lex_cmp_eq(b[0], c[0]);
        }
        if lex_cmp(a[0], b[0]) < 0 && lex_cmp(b[0], c[0]) < 0 {
            lemma_lex_cmp_trans(a[0], b[0], c[0]);
        }
        if lex_cmp(a[0], b[0]) == 0 && lex_cmp(b[0], c[0]) == 0
            && cmp_components(a.drop_first(), b.drop_first()) < 0
            && cmp_components(b.drop_first(), c.drop_first()) < 0 {
            lemma_cmp_components_strict_trans(
                a.drop_first(),
                b.drop_first(),
                c.drop_first(),
            );
        }
    }
}

/// The directory-first path order is total: any two paths compare in one
/// direction or the other.
pub proof fn lemma_path_le_total(a: Seq<char>, b: Seq<char>)
    ensures
        path_le(a, b) || path_le(b, a),
{
    lemma_cmp_components_antisym(path_components(a), path_components(b));
}

/// The directory-first path order is transitive.
pub proof fn lemma_path_le_trans(a: Seq<char>, b: Seq<char>, c: Seq<char>)
    requires
        path_le(a, b),
        path_le(b, c),
    ensures
        path_le(a, c),
{
    let ca = path_components(a);
    let cb = path_components(b);
    let cc = path_components(c);
    if cmp_components(ca, cb) == 0 {
        lemma_cmp_components_eq(ca, cb);
    } else if cmp_components(cb, cc) == 0 {
        lemma_cmp_components_eq(cb, cc);
    } else {
        lemma_cmp_components_strict_trans(ca, cb, cc);
    }
}

/// The value of a three-way comparison outcome: -1 for less, 0 for equal,
/// 1 for greater.
pub open spec fn ordering_value(o: core::cmp::Ordering) -> int {
    match o {
        core::cmp::Ordering::Less => -1,
        core::cmp::Ordering::Equal => 0,
        core::cmp::Ordering::Greater => 1,
    }
}

/// Lexicographic three-way comparison of two character vectors.
fn lex_cmp_chars(a: &Vec<char>, b: &Vec<char>) -> (r: core::cmp::Ordering)
    ensures
        ordering_value(r) == lex_cmp(a@, b@),
{
    let mut i: usize = 0;
    proof {
        assert(a@.skip(0) =~= a@);
        assert(b@.skip(0) =~= b@);
    }
    while i < a.len() && i < b.len()
        invariant
            i <= a@.len(),
            i <= b@.len(),
            lex_cmp(a@, b@) == lex_cmp(a@.skip(i as int), b@.skip(i as int)),
        decreases a@.len() - i,
    {
        let x = a[i];
        let y = b[i];
        proof {
            assert(a@.skip(i as int)[0] == a@[i as int]);
            assert(b@.skip(i as int)[0] == b@[i as int]);
        }
        if x < y {
            return core::cmp::Ordering::Less;
        }
        if y < x {
            return core::cmp::Ordering::Greater;
        }
        proof {
            assert(a@.skip(i as int).drop_first() =~= a@.skip(i + 1));
            assert(b@.skip(i as int).drop_first() =~= b@.skip(i + 1));
        }
        i = i + 1;
    }
    if a.len() == b.len() {
        core::cmp::Ordering::Equal
    } else if a.len() < b.len() {
        core::cmp::Ordering::Less
    } else {
        core::cmp::Ordering::Greater
    }
}

/// Splits a path into its slash-separated components, as character vectors.
fn split_components(s: &str) -> (r: Vec<Vec<char>>)
    ensures
        r@.map_values(|c: Vec<char>| c@) == path_components(s@),
{
    let n: usize = s.unicode_len();
    let mut out: Vec<Vec<char>> = Vec::new();
    let mut cur: Vec<char> = Vec::new();
    let mut i: usize = 0;
    proof {
        assert(s@.skip(0) =~= s@);
        lemma_path_components_len(s@);
        assert(out@.map_values(|c: Vec<char>| c@) =~= Seq::<Seq<char>>::empty());
        assert(cur@ + path_components(s@)[0] =~= path_components(s@)[0]);
        assert(path_components(s@) =~= seq![path_components(s@)[0]]
            + path_components(s@).drop_first());
    }
    while i < n
        invariant
            n == s@.len(),
            i <= n,
            path_components(s@) =~= out@.map_values(|c: Vec<char>| c@)
                + seq![cur@ + path_components(s@.skip(i as int))[0]]
                + path_components(s@.skip(i as int)).drop_first(),
        decreases n - i,
    {
        let ghost suffix = s@.skip(i as int);
        proof {
            lemma_path_components_len(s@.skip(i + 1));
            assert(suffix[0] == s@[i as int]);
            assert(suffix.drop_first() =~= s@.skip(i + 1));
        }
        let c = s.get_char(i);
        if c == '/' {
            let ghost old_out = out@;
            let ghost old_cur = cur@;
            out.push(cur);
            cur = Vec::new();
            proof {
                assert(out@.map_values(|c: Vec<char>| c@)
                    =~= old_out.map_values(|c: Vec<char>| c@) + seq![old_cur]);
                assert(path_components(suffix)
                    =~= seq![Seq::<char>::empty()] + path_components(s@.skip(i + 1)));
                assert(path_components(s@) =~= out@.map_values(|c: Vec<char>| c@)
                    + seq![cur@ + path_components(s@.skip(i + 1))[0]]
                    + path_components(s@.skip(i + 1)).drop_first());
            }
        } else {
            let ghost old_cur = cur@;
            cur.push(c);
            proof {
                let rest = path_components(s@.skip(i + 1));
                assert(path_components(suffix) =~= seq![seq![suffix[0]] + rest[0]]
                    + rest.drop_first());
                assert(cur@ + rest[0] =~= old_cur + path_components(suffix)[0]);
                assert(path_components(s@) =~= out@.map_values(|c: Vec<char>| c@)
                    + seq![cur@ + rest[0]] + rest.drop_first());
            }
        }
        i = i + 1;
    }
    proof {
        assert(s@.skip(n as int) =~= Seq::<char>::empty());
        assert(path_components(s@.skip(n as int)) =~= seq![Seq::<char>::empty()]);
        assert(cur@ + Seq::<char>::empty() =~= cur@);
    }
    let ghost old_out = out@;
    out.push(cur);
    proof {
        assert(out@.map_values(|c: Vec<char>| c@)
            =~= old_out.map_values(|c: Vec<char>| c@) + seq![out@.last()@]);
        assert(out@.map_values(|c: Vec<char>| c@) =~= path_components(s@));
    }
    out
}

/// Directory-first three-way comparison of two slash-separated paths:
/// directories sort before files at the same depth, and components with the
/// same file/directory status compare lexicographically.
pub fn path_cmp(a: &str, b: &str) -> (r: core::cmp::Ordering)
    ensures
        ordering_value(r) == path_cmp_spec(a@, b@),
{
    let ca = split_components(a);
    let cb = split_components(b);
    let ghost va = ca@.map_values(|c: Vec<char>| c@);
    let ghost vb = cb@.map_values(|c: Vec<char>| c@);
    let mut i: usize = 0;
    proof {
        assert(va.skip(0) =~= va);
        assert(vb.skip(0) =~= vb);
        assert(va == path_components(a@));
        assert(vb == path_components(b@));
    }
    while i < ca.len() || i < cb.len()
        invariant
            i <= ca@.len(),
            i <= cb@.len(),
            va == ca@.map_values(|c: Vec<char>| c@),
            vb == cb@.map_values(|c: Vec<char>| c@),
            va == path_components(a@),
            vb == path_components(b@),
            cmp_components(va, vb) == cmp_components(
                va.skip(i as int),
                vb.skip(i as int),
            ),
        decreases va.len() + vb.len() - 2 * i,
    {
        let a_file = ca.len() - i <= 1;
        let b_file = cb.len() - i <= 1;
        if a_file && !b_file {
            return core::cmp::Ordering::Greater;
        }
        if !a_file && b_file {
            return core::cmp::Ordering::Less;
        }
        if i >= ca.len() {
            return core::cmp::Ordering::Less;
        }
        if i >= cb.len() {
            return core::cmp::Ordering::Greater;
        }
        proof {
            assert(va.skip(i as int)[0] == va[i as int]);
            assert(vb.skip(i as int)[0] == vb[i as int]);
        }
        let c = lex_cmp_chars(&ca[i], &cb[i]);
        match c {
            core::cmp::Ordering::Equal => {},
            _ => {
                return c;
            },
        }
        proof {
            assert(va.skip(i as int).drop_first() =~= va.skip(i + 1));
            assert(vb.skip(i as int).drop_first() =~= vb.skip(i + 1));
        }
        i = i + 1;
    }
    proof {
        assert(va.skip(i as int) =~= Seq::<Seq<char>>::empty());
        assert(vb.skip(i as int) =~= Seq::<Seq<char>>::empty());
    }
    core::cmp::Ordering::Equal
}

} // verus!
