//! Text helpers: characters of strings and building strings.
use vstd::prelude::*;

verus! {

/// `String::push` of std: appends one character to a string.
#[verifier::external_body]
pub(crate) fn push_char(s: &mut String, c: char)
    ensures
        final(s)@ == old(s)@.push(c),
{
    s.push(c);
}

/// The characters of a string slice, in order.
pub fn chars_of(s: &str) -> (r: Vec<char>)
    ensures
        r@ == s@,
{
    let mut r: Vec<char> = Vec::new();
    for c in it: s.chars()
        invariant
            it.seq() == s@,
            r@ == it.seq().take(it.index() as int),
    {
        r.push(c);
    }
    r
}


/// The pieces of `s` between single spaces, in order, as `str::split(" ")`
/// yields them: there is always at least one piece, and two spaces in a row
/// give an empty piece.
pub open spec fn split_spaces(s: Seq<char>) -> Seq<Seq<char>>
    decreases s.len(),
{
    if s.len() == 0 {
        seq![Seq::<char>::empty()]
    } else {
        let p = split_spaces(s.drop_last());
        if s.last() == ' ' {
            p.push(Seq::<char>::empty())
        } else {
            p.update(p.len() - 1, p.last().push(s.last()))
        }
    }
}

/// The pieces written one after the other with a single space between two
/// neighbours.
pub open spec fn join_spaces(ps: Seq<Seq<char>>) -> Seq<char>
    decreases ps.len(),
{
    if ps.len() == 0 {
        Seq::<char>::empty()
    } else if ps.len() == 1 {
        ps[0]
    } else {
        join_spaces(ps.drop_last()) + seq![' '] + ps.last()
    }
}

pub open spec fn has_no_space(s: Seq<char>) -> bool {
    forall|i: int| 0 <= i < s.len() ==> s[i] != ' '
}

pub open spec fn is_prefix_of<A>(a: Seq<A>, b: Seq<A>) -> bool {
    a.len() <= b.len() && b.take(a.len() as int) == a
}

/// The values of a sequence of results, or the first error among them, as
/// collecting an iterator of `Result`s into a `Result` gives.
pub open spec fn collect_results<T, E>(rs: Seq<Result<T, E>>) -> Result<Seq<T>, E>
    decreases rs.len(),
{
    if rs.len() == 0 {
        Ok(Seq::<T>::empty())
    } else {
        match collect_results(rs.drop_last()) {
            Err(e) => Err(e),
            Ok(v) => match rs.last() {
                Ok(x) => Ok(v.push(x)),
                Err(e) => Err(e),
            },
        }
    }
}

/// A space-separated list read as the `StringWithSeparator` format of
/// `serde_with` reads it: the empty string is the empty list, any other string
/// is split at each single space and every piece is read by `item`; the first
/// piece that `item` refuses gives the error.
pub open spec fn parse_separated<T, E>(
    s: Seq<char>,
    item: spec_fn(Seq<char>) -> Result<T, E>,
) -> Result<Seq<T>, E> {
    if s.len() == 0 {
        Ok(Seq::<T>::empty())
    } else {
        collect_results(split_spaces(s).map_values(item))
    }
}

pub proof fn lemma_split_spaces_nonempty(s: Seq<char>)
    ensures
        split_spaces(s).len() >= 1,
    decreases s.len(),
{
    if s.len() > 0 {
        lemma_split_spaces_nonempty(s.drop_last());
    }
}

/// Appending characters other than a space only lengthens the last piece.
pub proof fn lemma_split_spaces_append(a: Seq<char>, b: Seq<char>)
    requires
        has_no_space(b),
    ensures
        split_spaces(a + b) == split_spaces(a).update(
            split_spaces(a).len() - 1,
            split_spaces(a).last() + b,
        ),
    decreases b.len(),
{
    lemma_split_spaces_nonempty(a);
    if b.len() == 0 {
        assert(a + b =~= a);
        assert(split_spaces(a).last() + b =~= split_spaces(a).last());
        assert(split_spaces(a).update(split_spaces(a).len() - 1, split_spaces(a).last())
            =~= split_spaces(a));
    } else {
        let b0 = b.drop_last();
        lemma_split_spaces_append(a, b0);
        assert((a + b).drop_last() =~= a + b0);
        assert((a + b).last() == b.last());
        let p = split_spaces(a);
        assert(b.last() != ' ');
        assert(b0 + seq![b.last()] =~= b);
        assert((p.last() + b0).push(b.last()) =~= p.last() + b);
        let p1 = split_spaces(a + b0);
        assert(p1.len() == p.len());
        assert(p1.last() == p.last() + b0);
        assert(split_spaces(a + b) =~= p.update(p.len() - 1, p.last() + b));
    }
}

/// A space closes the last piece and opens an empty one.
pub proof fn lemma_split_spaces_push_space(a: Seq<char>)
    ensures
        split_spaces(a.push(' ')) == split_spaces(a).push(Seq::<char>::empty()),
{
    assert(a.push(' ').drop_last() =~= a);
}

/// Splitting the joined pieces gives the pieces back, where no piece holds a
/// space and there is at least one.
pub proof fn lemma_split_join(ps: Seq<Seq<char>>)
    requires
        ps.len() >= 1,
        forall|i: int| 0 <= i < ps.len() ==> #[trigger] has_no_space(ps[i]),
    ensures
        split_spaces(join_spaces(ps)) == ps,
    decreases ps.len(),
{
    if ps.len() == 1 {
        lemma_split_spaces_append(Seq::<char>::empty(), ps[0]);
        assert(Seq::<char>::empty() + ps[0] =~= ps[0]);
        assert(split_spaces(Seq::<char>::empty()) =~= seq![Seq::<char>::empty()]);
        assert(Seq::<char>::empty() + ps[0] =~= ps[0]);
        assert(split_spaces(ps[0]) =~= ps);
    } else {
        let q = ps.drop_last();
        assert forall|i: int| 0 <= i < q.len() implies #[trigger] has_no_space(q[i]) by {
            assert(q[i] == ps[i]);
        }
        lemma_split_join(q);
        let j = join_spaces(q);
        lemma_split_spaces_push_space(j);
        assert(j + seq![' '] =~= j.push(' '));
        assert(has_no_space(ps.last()));
        lemma_split_spaces_append(j.push(' '), ps.last());
        let r = q.push(Seq::<char>::empty());
        assert(Seq::<char>::empty() + ps.last() =~= ps.last());
        assert(r.update(r.len() - 1, r.last() + ps.last()) =~= ps);
    }
}

/// Reading characters one at a time: the finished pieces before a character
/// stay finished pieces after it.
pub proof fn lemma_split_spaces_prefix_step(t: Seq<char>, c: char)
    ensures
        is_prefix_of(split_spaces(t).drop_last(), split_spaces(t.push(c)).drop_last()),
        c == ' ' ==> split_spaces(t.push(c)).drop_last() == split_spaces(t),
{
    lemma_split_spaces_nonempty(t);
    assert(t.push(c).drop_last() =~= t);
    let p = split_spaces(t);
    if c == ' ' {
        assert(split_spaces(t.push(c)).drop_last() =~= p);
        assert(p.take(p.drop_last().len() as int) =~= p.drop_last());
    } else {
        let u = p.update(p.len() - 1, p.last().push(c));
        assert(u.drop_last() =~= p.drop_last());
        assert(u.drop_last().take(p.drop_last().len() as int) =~= p.drop_last());
    }
}

pub proof fn lemma_prefix_trans<A>(a: Seq<A>, b: Seq<A>, c: Seq<A>)
    requires
        is_prefix_of(a, b),
        is_prefix_of(b, c),
    ensures
        is_prefix_of(a, c),
{
    assert(c.take(a.len() as int) =~= c.take(b.len() as int).take(a.len() as int));
}

/// The finished pieces of a prefix of `s` are finished pieces of `s`.
pub proof fn lemma_split_spaces_prefix(s: Seq<char>, i: int)
    requires
        0 <= i <= s.len(),
    ensures
        is_prefix_of(split_spaces(s.take(i)).drop_last(), split_spaces(s).drop_last()),
    decreases s.len() - i,
{
    if i == s.len() {
        assert(s.take(i) =~= s);
        let p = split_spaces(s).drop_last();
        assert(p.take(p.len() as int) =~= p);
    } else {
        lemma_split_spaces_prefix(s, i + 1);
        assert(s.take(i + 1) =~= s.take(i).push(s[i]));
        lemma_split_spaces_prefix_step(s.take(i), s[i]);
        lemma_prefix_trans(
            split_spaces(s.take(i)).drop_last(),
            split_spaces(s.take(i + 1)).drop_last(),
            split_spaces(s).drop_last(),
        );
    }
}

/// An error among the first results is the error of the whole collection.
pub proof fn lemma_collect_results_prefix_err<T, E>(rs: Seq<Result<T, E>>, k: int)
    requires
        0 <= k <= rs.len(),
        collect_results(rs.take(k)) is Err,
    ensures
        collect_results(rs) == collect_results(rs.take(k)),
    decreases rs.len(),
{
    if k == rs.len() {
        assert(rs.take(k) =~= rs);
    } else {
        assert(rs.drop_last().take(k) =~= rs.take(k));
        lemma_collect_results_prefix_err(rs.drop_last(), k);
    }
}

pub proof fn lemma_join_spaces_len(ps: Seq<Seq<char>>)
    requires
        ps.len() >= 1,
    ensures
        join_spaces(ps).len() >= ps.last().len(),
{
}

/// Collecting results that are all `Ok` gives their values.
pub proof fn lemma_collect_results_all_ok<T, E>(vs: Seq<T>)
    ensures
        collect_results(vs.map_values(|v: T| Ok::<T, E>(v))) == Ok::<Seq<T>, E>(vs),
    decreases vs.len(),
{
    let rs = vs.map_values(|v: T| Ok::<T, E>(v));
    if vs.len() > 0 {
        lemma_collect_results_all_ok::<T, E>(vs.drop_last());
        assert(rs.drop_last() =~= vs.drop_last().map_values(|v: T| Ok::<T, E>(v)));
        assert(vs.drop_last().push(vs.last()) =~= vs);
    } else {
        assert(vs =~= Seq::<T>::empty());
    }
}


/// The outcome of `parse_separated`, compared with an executable result.
pub open spec fn matches_result<T, E>(r: Result<Vec<T>, E>, spec: Result<Seq<T>, E>) -> bool {
    match r {
        Ok(v) => spec == Ok::<Seq<T>, E>(v@),
        Err(e) => spec == Err::<Seq<T>, E>(e),
    }
}

/// Reads a space-separated list (see `parse_separated`), reading each piece
/// with `item`.
pub(crate) fn parse_separated_with<T, E, F: Fn(&Vec<char>) -> Result<T, E>>(
    s: &str,
    item: F,
    Ghost(spec_item): Ghost<spec_fn(Seq<char>) -> Result<T, E>>,
) -> (r: Result<Vec<T>, E>)
    requires
        forall|t: &Vec<char>| #[trigger] item.requires((t,)),
        forall|t: &Vec<char>, x: Result<T, E>| #[trigger]
            item.ensures((t,), x) ==> x == spec_item(t@),
    ensures
        matches_result(r, parse_separated(s@, spec_item)),
{
    let cs = chars_of(s);
    let n = cs.len();
    if n == 0 {
        return Ok(Vec::new());
    }
    let mut vals: Vec<T> = Vec::new();
    let mut cur: Vec<char> = Vec::new();
    let mut i: usize = 0;
    proof {
        assert(cs@.take(0) =~= Seq::<char>::empty());
        assert(split_spaces(Seq::<char>::empty()).drop_last() =~= Seq::<Seq<char>>::empty());
        assert(Seq::<Seq<char>>::empty().map_values(spec_item) =~= Seq::<Result<T, E>>::empty());
        assert(vals@ =~= Seq::<T>::empty());
    }
    while i < n
        invariant
            0 <= i <= n,
            n == cs.len(),
            cs@ == s@,
            n > 0,
            forall|t: &Vec<char>| #[trigger] item.requires((t,)),
            forall|t: &Vec<char>, x: Result<T, E>| #[trigger]
                item.ensures((t,), x) ==> x == spec_item(t@),
            split_spaces(cs@.take(i as int)).last() == cur@,
            collect_results(split_spaces(cs@.take(i as int)).drop_last().map_values(spec_item))
                == Ok::<Seq<T>, E>(vals@),
        decreases n - i,
    {
        let c = cs[i];
        let ghost t = cs@.take(i as int);
        let ghost p = split_spaces(t);
        proof {
            lemma_split_spaces_nonempty(t);
            assert(cs@.take(i + 1) =~= t.push(c));
            assert(t.push(c).drop_last() =~= t);
            assert(p.map_values(spec_item).drop_last() =~= p.drop_last().map_values(spec_item));
        }
        if c == ' ' {
            let r = item(&cur);
            proof {
                lemma_split_spaces_push_space(t);
                assert(split_spaces(cs@.take(i + 1)).drop_last() =~= p);
            }
            match r {
                Err(e) => {
                    proof {
                        let whole = split_spaces(s@);
                        lemma_split_spaces_nonempty(s@);
                        lemma_split_spaces_prefix(s@, i + 1);
                        assert(is_prefix_of(whole.drop_last(), whole)) by {
                            assert(whole.take(whole.drop_last().len() as int) =~= whole.drop_last());
                        }
                        lemma_prefix_trans(p, whole.drop_last(), whole);
                        let rs = whole.map_values(spec_item);
                        assert(rs.take(p.len() as int) =~= p.map_values(spec_item));
                        lemma_collect_results_prefix_err(rs, p.len() as int);
                    }
                    return Err(e);
                },
                Ok(x) => {
                    vals.push(x);
                },
            }
            cur = Vec::new();
            proof {
                assert(split_spaces(cs@.take(i + 1)).last() =~= cur@);
            }
        } else {
            cur.push(c);
            proof {
                let u = split_spaces(cs@.take(i + 1));
                assert(u.drop_last() =~= p.drop_last());
            }
        }
        i = i + 1;
    }
    let r = item(&cur);
    proof {
        assert(cs@.take(n as int) =~= s@);
        let whole = split_spaces(s@);
        lemma_split_spaces_nonempty(s@);
        assert(whole.map_values(spec_item).drop_last() =~= whole.drop_last().map_values(spec_item));
    }
    match r {
        Err(e) => Err(e),
        Ok(x) => {
            vals.push(x);
            Ok(vals)
        },
    }
}


/// Whether two character vectors hold the same characters.
pub fn chars_equal(a: &Vec<char>, b: &Vec<char>) -> (r: bool)
    ensures
        r == (a@ == b@),
{
    if a.len() != b.len() {
        return false;
    }
    let mut i: usize = 0;
    while i < a.len()
        invariant
            0 <= i <= a.len(),
            a.len() == b.len(),
            forall|j: int| 0 <= j < i ==> a@[j] == b@[j],
        decreases a.len() - i,
    {
        if a[i] != b[i] {
            return false;
        }
        i = i + 1;
    }
    assert(a@ =~= b@);
    true
}

/// The pieces written one after the other with a single space between
/// neighbours (what `serde_with`'s `StringWithSeparator` writes).
pub fn join_with_spaces(pieces: &Vec<String>) -> (s: String)
    ensures
        s@ == join_spaces(pieces@.map_values(|p: String| p@)),
{
    let mut s = String::new();
    let mut i: usize = 0;
    while i < pieces.len()
        invariant
            0 <= i <= pieces.len(),
            s@ == join_spaces(pieces@.take(i as int).map_values(|p: String| p@)),
        decreases pieces.len() - i,
    {
        let ghost before = pieces@.take(i as int).map_values(|p: String| p@);
        let ghost after = pieces@.take(i + 1).map_values(|p: String| p@);
        assert(after.drop_last() =~= before);
        if i > 0 {
            push_char(&mut s, ' ');
        }
        s.append(pieces[i].as_str());
        proof {
            if i == 0 {
                assert(s@ =~= after[0]);
            } else {
                assert(s@ =~= join_spaces(before) + seq![' '] + after.last());
            }
        }
        i = i + 1;
    }
    assert(pieces@.take(pieces.len() as int) =~= pieces@);
    s
}


/// The character sequences of a sequence of strings.
pub open spec fn views(v: Seq<String>) -> Seq<Seq<char>> {
    v.map_values(|s: String| s@)
}

/// A new string: `prefix` followed by `s`.
pub fn prefixed(prefix: &str, s: &String) -> (r: String)
    ensures
        r@ == prefix@ + s@,
{
    let mut r = String::from_str(prefix);
    r.append(s.as_str());
    r
}

/// The collection succeeds exactly when every result is `Ok`, and then it
/// holds the values of the results, one for one and in order.
pub proof fn lemma_collect_results_ok<T, E>(rs: Seq<Result<T, E>>)
    ensures
        collect_results(rs) is Ok <==> forall|i: int| 0 <= i < rs.len() ==> #[trigger] rs[i] is Ok,
        collect_results(rs) matches Ok(v) ==> {
            &&& v.len() == rs.len()
            &&& forall|i: int| 0 <= i < rs.len() ==> #[trigger] rs[i] == Ok::<T, E>(v[i])
        },
    decreases rs.len(),
{
    if rs.len() > 0 {
        let p = rs.drop_last();
        lemma_collect_results_ok(p);
        assert forall|i: int| 0 <= i < p.len() implies #[trigger] p[i] == rs[i] by {}
        if collect_results(rs) is Ok {
            let v = collect_results(rs)->Ok_0;
            let w = collect_results(p)->Ok_0;
            assert(v == w.push(rs.last()->Ok_0));
            assert forall|i: int| 0 <= i < rs.len() implies #[trigger] rs[i] == Ok::<T, E>(v[i]) by {
                if i < p.len() {
                    assert(p[i] == Ok::<T, E>(w[i]));
                }
            }
        } else if collect_results(p) is Err {
            let k = choose|i: int| 0 <= i < p.len() && !(#[trigger] p[i] is Ok);
            assert(!(rs[k] is Ok));
        } else {
            assert(!(rs[rs.len() - 1] is Ok));
        }
    }
}

} // verus!
