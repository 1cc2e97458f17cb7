//! The skeleton data file of a namespace: the variables its templates need,
//! without the namespace segment, sorted and without repeats.
use vstd::prelude::*;

use crate::template::texts;
use crate::text::first_index;

verus! {

/// A path without its first dot-separated segment: the text after the first
/// `.`, or nothing if there is no `.`.
pub open spec fn strip_first_segment(p: Seq<char>) -> Seq<char> {
    match first_index(p, '.') {
        Some(i) => p.subrange(i + 1, p.len() as int),
        None => Seq::empty(),
    }
}

/// Drops the first dot-separated segment of a path.
pub fn strip_namespace(p: &str) -> (r: String)
    ensures
        r@ == strip_first_segment(p@),
{
    match crate::text::find_char(p, '.') {
        Some(i) => {
            let n = p.unicode_len();
            String::from_str(p.substring_char(i + 1, n))
        },
        None => String::new(),
    }
}

/// Lexicographic order of texts by character code.
pub open spec fn lex_lt(a: Seq<char>, b: Seq<char>) -> bool
    decreases a.len(),
{
    if a.len() == 0 {
        b.len() > 0
    } else if b.len() == 0 {
        false
    } else if a[0] != b[0] {
        a[0] < b[0]
    } else {
        lex_lt(a.drop_first(), b.drop_first())
    }
}

proof fn lemma_lex_trans(a: Seq<char>, b: Seq<char>, c: Seq<char>)
    requires
        lex_lt(a, b),
        lex_lt(b, c),
    ensures
        lex_lt(a, c),
    decreases a.len(),
{
    if a.len() > 0 && b.len() > 0 && c.len() > 0 && a[0] == b[0] && b[0] == c[0] {
        lemma_lex_trans(a.drop_first(), b.drop_first(), c.drop_first());
    }
}

proof fn lemma_lex_total(a: Seq<char>, b: Seq<char>)
    ensures
        a != b ==> (lex_lt(a, b) || lex_lt(b, a)),
        !(lex_lt(a, b) && lex_lt(b, a)),
        !lex_lt(a, a),
    decreases a.len(),
{
    if a.len() > 0 && b.len() > 0 {
        lemma_lex_total(a.drop_first(), b.drop_first());
        lemma_lex_total(a.drop_first(), a.drop_first());
        if a[0] == b[0] && a.drop_first() == b.drop_first() {
            assert(a =~= seq![a[0]] + a.drop_first());
            assert(b =~= seq![b[0]] + b.drop_first());
        }
    } else if a.len() == 0 && b.len() == 0 {
        assert(a =~= b);
    }
    if a.len() > 0 {
        lemma_lex_total(a.drop_first(), a.drop_first());
    }
}

/// Compares two texts: -1, 0 or 1 as `a` comes before, equals or comes after
/// `b`.
pub fn compare(a: &str, b: &str) -> (r: i8)
    ensures
        r == 0 <==> a@ == b@,
        r < 0 <==> lex_lt(a@, b@),
        r > 0 <==> lex_lt(b@, a@),
{
    proof {
        lemma_lex_total(a@, b@);
    }
    let n = a.unicode_len();
    let m = b.unicode_len();
    let mut i: usize = 0;
    proof {
        assert(a@.subrange(0, a@.len() as int) =~= a@);
        assert(b@.subrange(0, b@.len() as int) =~= b@);
    }
    while i < n && i < m
        invariant
            n == a@.len(),
            m == b@.len(),
            0 <= i <= n,
            i <= m,
            forall|j: int| 0 <= j < i ==> a@[j] == b@[j],
            lex_lt(a@, b@) == lex_lt(a@.subrange(i as int, n as int), b@.subrange(i as int, m as int)),
            lex_lt(b@, a@) == lex_lt(b@.subrange(i as int, m as int), a@.subrange(i as int, n as int)),
        decreases n - i,
    {
        let x = a.get_char(i);
        let y = b.get_char(i);
        let ghost sa = a@.subrange(i as int, n as int);
        let ghost sb = b@.subrange(i as int, m as int);
        proof {
            assert(sa[0] == x && sb[0] == y);
            assert(sa.drop_first() =~= a@.subrange(i as int + 1, n as int));
            assert(sb.drop_first() =~= b@.subrange(i as int + 1, m as int));
        }
        if x < y {
            proof {
                assert(a@[i as int] != b@[i as int]);
            }
            return -1;
        }
        if y < x {
            proof {
                assert(a@[i as int] != b@[i as int]);
            }
            return 1;
        }
        i = i + 1;
    }
    if n == m {
        proof {
            assert(a@ =~= b@);
        }
        0
    } else if n < m {
        proof {
            assert(a@.subrange(i as int, n as int).len() == 0);
            assert(a@.len() != b@.len());
        }
        -1
    } else {
        proof {
            assert(b@.subrange(i as int, m as int).len() == 0);
            assert(a@.len() != b@.len());
        }
        1
    }
}

/// Strictly increasing in lexicographic order, hence without repeats.
pub open spec fn strictly_sorted(s: Seq<Seq<char>>) -> bool {
    forall|i: int, j: int| 0 <= i < j < s.len() ==> lex_lt(#[trigger] s[i], #[trigger] s[j])
}

/// Where `x` belongs in a strictly sorted list: the position of the first
/// element not before it, and whether that element is `x` itself.
fn sorted_position(v: &Vec<String>, x: &str) -> (r: (usize, bool))
    ensures
        r.0 <= v@.len(),
        forall|j: int| 0 <= j < r.0 ==> lex_lt(#[trigger] texts(v@)[j], x@),
        r.1 ==> r.0 < v@.len() && texts(v@)[r.0 as int] == x@,
        !r.1 && r.0 < v@.len() ==> lex_lt(x@, texts(v@)[r.0 as int]),
{
    let mut i: usize = 0;
    while i < v.len()
        invariant
            0 <= i <= v.len(),
            forall|j: int| 0 <= j < i ==> lex_lt(#[trigger] texts(v@)[j], x@),
        decreases v.len() - i,
    {
        let c = compare(v[i].as_str(), x);
        if c == 0 {
            return (i, true);
        }
        if c > 0 {
            return (i, false);
        }
        i = i + 1;
    }
    (i, false)
}

/// Adds `x` to a strictly sorted list, where it is not there yet.
pub fn insert_sorted(v: &mut Vec<String>, x: String)
    requires
        strictly_sorted(texts(old(v)@)),
    ensures
        strictly_sorted(texts(final(v)@)),
        texts(final(v)@).to_set() == texts(old(v)@).to_set().insert(x@),
{
    let ghost s0 = texts(v@);
    let (i, found) = sorted_position(v, x.as_str());
    if found {
        proof {
            assert(s0.to_set().insert(x@) =~= s0.to_set());
        }
        return;
    }
    let ghost xv = x@;
    v.insert(i, x);
    proof {
        let s1 = texts(v@);
        assert(s1 =~= s0.insert(i as int, xv));
        assert forall|a: int, b: int| 0 <= a < b < s1.len() implies lex_lt(#[trigger] s1[a], #[trigger] s1[b]) by {
            if i < s0.len() {
                lemma_lex_total(s0[i as int], xv);
            }
            if b < i {
            } else if b == i {
                assert(lex_lt(s0[a], xv));
            } else if a < i {
                assert(lex_lt(s0[a], xv));
                assert(s1[b] == s0[b - 1]);
                if b - 1 > i {
                    assert(lex_lt(s0[i as int], s0[b - 1]));
                    lemma_lex_trans(xv, s0[i as int], s0[b - 1]);
                }
                lemma_lex_trans(s0[a], xv, s0[b - 1]);
            } else if a == i {
                if b - 1 > i {
                    assert(lex_lt(s0[i as int], s0[b - 1]));
                    lemma_lex_trans(xv, s0[i as int], s0[b - 1]);
                }
            } else {
                assert(s1[a] == s0[a - 1] && s1[b] == s0[b - 1]);
            }
        }
        assert(s1.to_set() =~= s0.to_set().insert(xv)) by {
            assert forall|y: Seq<char>| s1.to_set().contains(y) <==> s0.to_set().insert(xv).contains(y) by {
                if s1.contains(y) {
                    let k = choose|k: int| 0 <= k < s1.len() && s1[k] == y;
                    if k < i {
                        assert(s0[k] == y);
                    } else if k > i {
                        assert(s0[k - 1] == y);
                    }
                }
                if s0.contains(y) {
                    let k = choose|k: int| 0 <= k < s0.len() && s0[k] == y;
                    if k < i {
                        assert(s1[k] == y);
                    } else {
                        assert(s1[k + 1] == y);
                    }
                }
                if y == xv {
                    assert(s1[i as int] == xv);
                }
            }
        }
    }
}

/// The models of a list of lists of strings.
pub open spec fn text_lists(v: Seq<Vec<String>>) -> Seq<Seq<Seq<char>>> {
    v.map_values(|l: Vec<String>| texts(l@))
}

/// The harvested names: every path of every list, without its first
/// segment.
pub open spec fn harvested(lists: Seq<Seq<Seq<char>>>) -> Set<Seq<char>> {
    Set::new(
        |x: Seq<char>|
            exists|i: int, j: int|
                0 <= i < lists.len() && 0 <= j < lists[i].len() && #[trigger] strip_first_segment(lists[i][j]) == x,
    )
}

/// The names harvested from the lists before `i`, and from the first `j`
/// paths of list `i`.
pub open spec fn harvested_upto(lists: Seq<Seq<Seq<char>>>, i: int, j: int) -> Set<Seq<char>> {
    Set::new(
        |x: Seq<char>|
            exists|a: int, b: int|
                0 <= a < lists.len() && 0 <= b < lists[a].len() && (a < i || (a == i && b < j))
                    && #[trigger] strip_first_segment(lists[a][b]) == x,
    )
}

/// Collects the parameter names of all lists: each without its namespace
/// segment, in lexicographic order, without repeats.
pub fn harvest(lists: &Vec<Vec<String>>) -> (r: Vec<String>)
    ensures
        strictly_sorted(texts(r@)),
        texts(r@).to_set() == harvested(text_lists(lists@)),
{
    let ghost ls = text_lists(lists@);
    let mut out: Vec<String> = Vec::new();
    let mut i: usize = 0;
    proof {
        assert(texts(out@).to_set() =~= harvested_upto(ls, 0, 0));
    }
    while i < lists.len()
        invariant
            0 <= i <= lists.len(),
            ls == text_lists(lists@),
            strictly_sorted(texts(out@)),
            texts(out@).to_set() == harvested_upto(ls, i as int, 0),
        decreases lists.len() - i,
    {
        let list = &lists[i];
        let mut j: usize = 0;
        while j < list.len()
            invariant
                0 <= i < lists.len(),
                0 <= j <= list.len(),
                *list == lists@[i as int],
                ls == text_lists(lists@),
                strictly_sorted(texts(out@)),
                texts(out@).to_set() == harvested_upto(ls, i as int, j as int),
            decreases list.len() - j,
        {
            let x = strip_namespace(list[j].as_str());
            let ghost xv = x@;
            insert_sorted(&mut out, x);
            proof {
                assert(ls[i as int][j as int] == list@[j as int]@);
                assert(harvested_upto(ls, i as int, j as int).insert(xv) =~= harvested_upto(ls, i as int, j as int + 1)) by {
                    assert forall|y: Seq<char>| #[trigger] harvested_upto(ls, i as int, j as int + 1).contains(y) implies harvested_upto(ls, i as int, j as int).insert(xv).contains(y) by {
                        let (a, b) = choose|a: int, b: int|
                            0 <= a < ls.len() && 0 <= b < ls[a].len() && (a < i || (a == i && b < j + 1))
                                && #[trigger] strip_first_segment(ls[a][b]) == y;
                        if !(a == i && b == j) {
                            assert(harvested_upto(ls, i as int, j as int).contains(y));
                        }
                    }
                    assert forall|y: Seq<char>| #[trigger] harvested_upto(ls, i as int, j as int).insert(xv).contains(y) implies harvested_upto(ls, i as int, j as int + 1).contains(y) by {
                        if y == xv {
                            assert(strip_first_segment(ls[i as int][j as int]) == y);
                        } else {
                            let (a, b) = choose|a: int, b: int|
                                0 <= a < ls.len() && 0 <= b < ls[a].len() && (a < i || (a == i && b < j))
                                    && #[trigger] strip_first_segment(ls[a][b]) == y;
                            assert(strip_first_segment(ls[a][b]) == y);
                        }
                    }
                }
            }
            j = j + 1;
        }
        proof {
            assert(ls[i as int].len() == list@.len());
            assert(harvested_upto(ls, i as int, j as int) =~= harvested_upto(ls, i as int + 1, 0)) by {
                assert forall|y: Seq<char>| #[trigger] harvested_upto(ls, i as int + 1, 0).contains(y) implies harvested_upto(ls, i as int, j as int).contains(y) by {
                    let (a, b) = choose|a: int, b: int|
                        0 <= a < ls.len() && 0 <= b < ls[a].len() && (a < i + 1 || (a == i + 1 && b < 0))
                            && #[trigger] strip_first_segment(ls[a][b]) == y;
                    assert(strip_first_segment(ls[a][b]) == y);
                }
                assert forall|y: Seq<char>| #[trigger] harvested_upto(ls, i as int, j as int).contains(y) implies harvested_upto(ls, i as int + 1, 0).contains(y) by {
                    let (a, b) = choose|a: int, b: int|
                        0 <= a < ls.len() && 0 <= b < ls[a].len() && (a < i || (a == i && b < j))
                            && #[trigger] strip_first_segment(ls[a][b]) == y;
                    assert(strip_first_segment(ls[a][b]) == y);
                }
            }
        }
        i = i + 1;
    }
    proof {
        assert(harvested_upto(ls, i as int, 0) =~= harvested(ls)) by {
            assert forall|y: Seq<char>| #[trigger] harvested(ls).contains(y) implies harvested_upto(ls, i as int, 0).contains(y) by {
                let (a, b) = choose|a: int, b: int|
                    0 <= a < ls.len() && 0 <= b < ls[a].len() && #[trigger] strip_first_segment(ls[a][b]) == y;
                assert(strip_first_segment(ls[a][b]) == y);
            }
            assert forall|y: Seq<char>| #[trigger] harvested_upto(ls, i as int, 0).contains(y) implies harvested(ls).contains(y) by {
                let (a, b) = choose|a: int, b: int|
                    0 <= a < ls.len() && 0 <= b < ls[a].len() && (a < i || (a == i && b < 0))
                        && #[trigger] strip_first_segment(ls[a][b]) == y;
                assert(strip_first_segment(ls[a][b]) == y);
            }
        }
    }
    out
}

/// The first line of a data file, and the empty line after it.
pub open spec fn data_file_header(version: Seq<char>, stamp: Seq<char>) -> Seq<char> {
    "# Data file generated by eri "@ + version + " at "@ + stamp + "\n\n"@
}

/// One `<path> =` line per parameter, in order.
pub open spec fn data_file_lines(params: Seq<Seq<char>>) -> Seq<char>
    decreases params.len(),
{
    if params.len() == 0 {
        Seq::empty()
    } else {
        data_file_lines(params.drop_last()) + params.last() + " =\n"@
    }
}

/// The text of a data file: the header naming the tool's version and the
/// time of generation, then one `<path> =` line per parameter.
pub fn data_file_text(version: &str, stamp: &str, params: &Vec<String>) -> (r: String)
    ensures
        r@ == data_file_header(version@, stamp@) + data_file_lines(texts(params@)),
{
    let mut r = String::from_str("# Data file generated by eri ");
    r.append(version);
    r.append(" at ");
    r.append(stamp);
    r.append("\n\n");
    let ghost header = r@;
    let mut i: usize = 0;
    proof {
        assert(texts(params@).subrange(0, 0) =~= Seq::<Seq<char>>::empty());
        assert(r@ =~= header + data_file_lines(Seq::<Seq<char>>::empty()));
    }
    while i < params.len()
        invariant
            0 <= i <= params.len(),
            header == data_file_header(version@, stamp@),
            r@ == header + data_file_lines(texts(params@).subrange(0, i as int)),
        decreases params.len() - i,
    {
        proof {
            let q = texts(params@).subrange(0, i as int + 1);
            assert(q.drop_last() =~= texts(params@).subrange(0, i as int));
            assert(q.last() == params@[i as int]@);
        }
        r.append(params[i].as_str());
        r.append(" =\n");
        proof {
            let q = texts(params@).subrange(0, i as int + 1);
            assert(r@ =~= header + data_file_lines(q));
        }
        i = i + 1;
    }
    proof {
        assert(texts(params@).subrange(0, params@.len() as int) =~= texts(params@));
    }
    r
}

} // verus!
