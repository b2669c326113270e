//! Character-sequence utilities shared by the adapter, path, and provider
//! logic. All executable functions work on `Vec<char>` so that their results
//! can be stated exactly over `Seq<char>` views; `chars_of` and `string_of`
//! convert at the boundary to `&str` / `String`.

use vstd::prelude::*;

verus! {

use vstd::std_specs::iter::IteratorSpec;

/// The whitespace characters this library treats as blank space: the ASCII
/// set that terminal output and done-marker lines are made of.
pub open spec fn is_space_char(c: char) -> bool {
    c == ' ' || c == '\t' || c == '\r' || c == '\n'
}

/// A sequence is blank when every character is whitespace.
pub open spec fn spec_blank(s: Seq<char>) -> bool {
    forall|i: int| 0 <= i < s.len() ==> is_space_char(#[trigger] s[i])
}

pub fn is_blank(s: &Vec<char>) -> (r: bool)
    ensures
        r == spec_blank(s@),
{
    let mut i: usize = 0;
    while i < s.len()
        invariant
            i <= s@.len(),
            forall|j: int| 0 <= j < i ==> is_space_char(#[trigger] s@[j]),
        decreases s@.len() - i,
    {
        let c = s[i];
        if !(c == ' ' || c == '\t' || c == '\r' || c == '\n') {
            return false;
        }
        i += 1;
    }
    true
}

/// `p` occurs in `s` at position `i`.
pub open spec fn spec_match_at(s: Seq<char>, p: Seq<char>, i: int) -> bool {
    0 <= i && i + p.len() <= s.len() && s.subrange(i, i + p.len()) == p
}

pub open spec fn spec_starts_with(s: Seq<char>, p: Seq<char>) -> bool {
    spec_match_at(s, p, 0)
}

pub fn match_at(s: &Vec<char>, p: &Vec<char>, i: usize) -> (r: bool)
    requires
        i + p@.len() <= s@.len(),
    ensures
        r == spec_match_at(s@, p@, i as int),
{
    let slen = s.len();
    let mut j: usize = 0;
    while j < p.len()
        invariant
            i + p@.len() <= s@.len(),
            s@.len() == slen,
            j <= p@.len(),
            forall|k: int| 0 <= k < j ==> s@[i + k] == p@[k],
        decreases p@.len() - j,
    {
        if s[i + j] != p[j] {
            assert(s@.subrange(i as int, i + p@.len())[j as int] != p@[j as int]);
            return false;
        }
        j += 1;
    }
    assert(s@.subrange(i as int, i + p@.len()) =~= p@);
    true
}

pub fn starts_with(s: &Vec<char>, p: &Vec<char>) -> (r: bool)
    ensures
        r == spec_starts_with(s@, p@),
{
    if p.len() > s.len() {
        return false;
    }
    match_at(s, p, 0)
}

pub fn chars_eq(a: &Vec<char>, b: &Vec<char>) -> (r: bool)
    ensures
        r == (a@ == b@),
{
    if a.len() != b.len() {
        return false;
    }
    let r = match_at(a, b, 0);
    if r {
        assert(a@.subrange(0, a@.len() as int) =~= a@);
    } else {
        assert(a@.subrange(0, b@.len() as int) =~= a@);
    }
    r
}

/// Append every character of `src` to `dst`.
pub fn push_all(dst: &mut Vec<char>, src: &Vec<char>)
    ensures
        final(dst)@ == old(dst)@ + src@,
{
    let ghost base = dst@;
    let mut j: usize = 0;
    while j < src.len()
        invariant
            j <= src@.len(),
            dst@ == base + src@.take(j as int),
        decreases src@.len() - j,
    {
        dst.push(src[j]);
        assert(dst@ =~= base + src@.take(j + 1));
        j += 1;
    }
    assert(base + src@.take(src@.len() as int) =~= base + src@);
}

/// Left-to-right, non-overlapping replacement of `from` by `to`, as
/// `str::replace` does it. An empty `from` leaves the input unchanged
/// (this library never substitutes an empty placeholder).
pub open spec fn spec_replace(s: Seq<char>, from: Seq<char>, to: Seq<char>) -> Seq<char>
    decreases s.len(),
{
    if from.len() == 0 || s.len() < from.len() {
        s
    } else if s.take(from.len() as int) == from {
        to + spec_replace(s.skip(from.len() as int), from, to)
    } else {
        seq![s[0]] + spec_replace(s.skip(1), from, to)
    }
}

pub fn replace_chars(s: &Vec<char>, from: &Vec<char>, to: &Vec<char>) -> (r: Vec<char>)
    ensures
        r@ == spec_replace(s@, from@, to@),
{
    let mut r: Vec<char> = Vec::new();
    if from.len() == 0 {
        push_all(&mut r, s);
        return r;
    }
    let mut i: usize = 0;
    proof {
        assert(s@.skip(0) =~= s@);
        assert(Seq::<char>::empty() + spec_replace(s@, from@, to@) =~= spec_replace(
            s@,
            from@,
            to@,
        ));
    }
    while i < s.len()
        invariant
            i <= s@.len(),
            from@.len() > 0,
            spec_replace(s@, from@, to@) == r@ + spec_replace(s@.skip(i as int), from@, to@),
        decreases s@.len() - i,
    {
        let ghost rest = s@.skip(i as int);
        if from.len() <= s.len() - i && match_at(s, from, i) {
            proof {
                assert(rest.take(from@.len() as int) =~= s@.subrange(i as int, i + from@.len()));
                assert(spec_replace(rest, from@, to@) == to@ + spec_replace(
                    rest.skip(from@.len() as int),
                    from@,
                    to@,
                ));
                assert(rest.skip(from@.len() as int) =~= s@.skip(i + from@.len()));
            }
            push_all(&mut r, to);
            i += from.len();
        } else {
            proof {
                if rest.len() >= from@.len() {
                    assert(rest.take(from@.len() as int) =~= s@.subrange(
                        i as int,
                        i + from@.len(),
                    ));
                    assert(rest.take(from@.len() as int) != from@);
                    assert(spec_replace(rest, from@, to@) == seq![rest[0]] + spec_replace(
                        rest.skip(1),
                        from@,
                        to@,
                    ));
                } else {
                    assert(spec_replace(rest, from@, to@) == rest);
                    assert(rest.skip(1).len() < from@.len());
                    assert(spec_replace(rest.skip(1), from@, to@) == rest.skip(1));
                    assert(rest =~= seq![rest[0]] + rest.skip(1));
                }
                assert(seq![rest[0]] =~= seq![s@[i as int]]);
                assert(rest.skip(1) =~= s@.skip(i + 1));
            }
            r.push(s[i]);
            i += 1;
        }
    }
    proof {
        assert(s@.skip(s@.len() as int) =~= Seq::<char>::empty());
        assert(r@ + Seq::<char>::empty() =~= r@);
    }
    r
}

/// Copy of `s[a..b]`.
pub fn copy_range(s: &Vec<char>, a: usize, b: usize) -> (r: Vec<char>)
    requires
        a <= b <= s@.len(),
    ensures
        r@ == s@.subrange(a as int, b as int),
{
    let mut r: Vec<char> = Vec::new();
    let mut i: usize = a;
    while i < b
        invariant
            a <= i <= b <= s@.len(),
            r@ == s@.subrange(a as int, i as int),
        decreases b - i,
    {
        r.push(s[i]);
        assert(r@ =~= s@.subrange(a as int, i + 1));
        i += 1;
    }
    r
}

/// Position of the first newline in `s`, or `s.len()` when there is none.
pub open spec fn first_nl(s: Seq<char>) -> nat
    decreases s.len(),
{
    if s.len() == 0 {
        0
    } else if s[0] == '\n' {
        0
    } else {
        1 + first_nl(s.skip(1))
    }
}

pub proof fn lemma_first_nl(s: Seq<char>)
    ensures
        first_nl(s) <= s.len(),
        first_nl(s) < s.len() ==> s[first_nl(s) as int] == '\n',
        forall|j: int| 0 <= j < first_nl(s) ==> s[j] != '\n',
    decreases s.len(),
{
    if s.len() == 0 {
    } else if s[0] == '\n' {
    } else {
        lemma_first_nl(s.skip(1));
        assert forall|j: int| 0 <= j < first_nl(s) implies s[j] != '\n' by {
            if j > 0 {
                assert(s.skip(1)[j - 1] != '\n');
            }
        }
    }
}

/// `first_nl` is pinned down by any witness position.
pub proof fn lemma_first_nl_at(s: Seq<char>, m: int)
    requires
        0 <= m <= s.len(),
        forall|j: int| 0 <= j < m ==> s[j] != '\n',
        m < s.len() ==> s[m] == '\n',
    ensures
        first_nl(s) == m,
    decreases s.len(),
{
    if s.len() == 0 {
    } else if s[0] == '\n' {
        assert(m == 0);
    } else {
        assert(s[0] != '\n');
        assert(m >= 1);
        assert forall|j: int| 0 <= j < m - 1 implies s.skip(1)[j] != '\n' by {
            assert(s[j + 1] != '\n');
        }
        lemma_first_nl_at(s.skip(1), m - 1);
    }
}

/// One trailing carriage return is dropped, as `str::lines` does before a
/// newline.
pub open spec fn strip_cr(s: Seq<char>) -> Seq<char> {
    if s.len() > 0 && s.last() == '\r' {
        s.drop_last()
    } else {
        s
    }
}

/// The lines of `s`: split at `'\n'`, one `'\r'` stripped before each split
/// point, the final newline optional, exactly as `str::lines` splits.
pub open spec fn spec_lines(s: Seq<char>) -> Seq<Seq<char>>
    decreases s.len(),
{
    if s.len() == 0 {
        seq![]
    } else {
        let k = first_nl(s);
        if k < s.len() {
            seq![strip_cr(s.take(k as int))] + spec_lines(s.skip(k as int + 1))
        } else {
            seq![s]
        }
    }
}

pub fn split_lines(s: &Vec<char>) -> (r: Vec<Vec<char>>)
    ensures
        r.deep_view() == spec_lines(s@),
{
    let mut r: Vec<Vec<char>> = Vec::new();
    let mut i: usize = 0;
    proof {
        assert(s@.skip(0) =~= s@);
        assert(r.deep_view() + spec_lines(s@) =~= spec_lines(s@));
    }
    while i < s.len()
        invariant
            i <= s@.len(),
            spec_lines(s@) == r.deep_view() + spec_lines(s@.skip(i as int)),
        decreases s@.len() - i,
    {
        let ghost rest = s@.skip(i as int);
        let ghost r0 = r.deep_view();
        let ghost old_rv = r@;
        let mut j: usize = i;
        while j < s.len() && s[j] != '\n'
            invariant
                i <= j <= s@.len(),
                forall|k: int| i <= k < j ==> s@[k] != '\n',
            decreases s@.len() - j,
        {
            j += 1;
        }
        proof {
            assert forall|k: int| 0 <= k < j - i implies rest[k] != '\n' by {
                assert(s@[i + k] != '\n');
            }
            if j < s@.len() {
                assert(rest[j - i] == '\n');
            }
            lemma_first_nl_at(rest, j - i);
        }
        if j < s.len() {
            let endx = if j > i && s[j - 1] == '\r' {
                j - 1
            } else {
                j
            };
            let line = copy_range(s, i, endx);
            proof {
                assert(rest.take(j - i) =~= s@.subrange(i as int, j as int));
                if j > i && s@[j - 1] == '\r' {
                    assert(strip_cr(rest.take(j - i)) =~= s@.subrange(i as int, j - 1));
                } else {
                    assert(strip_cr(rest.take(j - i)) =~= s@.subrange(i as int, j as int));
                }
                assert(line@ == strip_cr(rest.take(j - i)));
                assert(rest.skip(j - i + 1) =~= s@.skip(j + 1));
                assert(spec_lines(rest) == seq![strip_cr(rest.take(j - i))] + spec_lines(
                    rest.skip(j - i + 1),
                ));
            }
            let ghost lv = line@;
            r.push(line);
            proof {
                assert forall|k: int| 0 <= k < r0.len() implies r.deep_view()[k] == r0[k] by {
                    assert(r@[k] == old_rv[k]);
                }
                assert(r.deep_view()[r0.len() as int] == lv);
                assert(r.deep_view() =~= r0 + seq![lv]);
                assert(r0 + (seq![lv] + spec_lines(s@.skip(j + 1))) =~= (r0 + seq![lv])
                    + spec_lines(s@.skip(j + 1)));
            }
            i = j + 1;
        } else {
            let line = copy_range(s, i, j);
            proof {
                assert(rest =~= s@.subrange(i as int, j as int));
                assert(rest.len() > 0);
                assert(spec_lines(rest) == seq![rest]);
            }
            let ghost lv = line@;
            r.push(line);
            proof {
                assert forall|k: int| 0 <= k < r0.len() implies r.deep_view()[k] == r0[k] by {
                    assert(r@[k] == old_rv[k]);
                }
                assert(r.deep_view()[r0.len() as int] == lv);
                assert(r.deep_view() =~= r0 + seq![lv]);
                assert(s@.skip(j as int) =~= Seq::<char>::empty());
                assert(r.deep_view() + spec_lines(s@.skip(j as int)) =~= r.deep_view());
            }
            i = j;
        }
    }
    proof {
        assert(s@.skip(s@.len() as int) =~= Seq::<char>::empty());
        assert(r.deep_view() + spec_lines(Seq::<char>::empty()) =~= r.deep_view());
    }
    r
}

/// Lines joined with single newlines; the inverse of `spec_lines` on
/// newline-free lines with a non-empty final line.
pub open spec fn spec_join(ls: Seq<Seq<char>>) -> Seq<char>
    decreases ls.len(),
{
    if ls.len() == 0 {
        seq![]
    } else if ls.len() == 1 {
        ls[0]
    } else {
        ls[0] + seq!['\n'] + spec_join(ls.skip(1))
    }
}

pub fn join_lines(ls: &Vec<Vec<char>>) -> (r: Vec<char>)
    ensures
        r@ == spec_join(ls.deep_view()),
{
    let mut r: Vec<char> = Vec::new();
    let mut i: usize = 0;
    proof {
        assert(ls.deep_view().skip(0) =~= ls.deep_view());
        assert(r@ + spec_join(ls.deep_view()) =~= spec_join(ls.deep_view()));
    }
    while i < ls.len()
        invariant
            i <= ls@.len(),
            ls@.len() == ls.deep_view().len(),
            spec_join(ls.deep_view()) == r@ + spec_join(ls.deep_view().skip(i as int)),
        decreases ls@.len() - i,
    {
        let ghost rest = ls.deep_view().skip(i as int);
        push_all(&mut r, &ls[i]);
        proof {
            assert(rest[0] == ls.deep_view()[i as int]);
            assert(rest[0] == ls@[i as int].deep_view());
            assert(ls@[i as int].deep_view() == ls@[i as int]@);
        }
        if i + 1 < ls.len() {
            r.push('\n');
            proof {
                assert(rest.len() > 1);
                assert(spec_join(rest) == rest[0] + seq!['\n'] + spec_join(rest.skip(1)));
                assert(rest.skip(1) =~= ls.deep_view().skip(i + 1));
                assert(r@ + spec_join(ls.deep_view().skip(i + 1)) =~= spec_join(ls.deep_view()));
            }
        } else {
            proof {
                assert(rest.len() == 1);
                assert(spec_join(rest) == rest[0]);
                assert(ls.deep_view().skip(i + 1) =~= Seq::<Seq<char>>::empty());
                assert(r@ + spec_join(ls.deep_view().skip(i + 1)) =~= spec_join(ls.deep_view()));
            }
        }
        i += 1;
    }
    proof {
        assert(ls.deep_view().skip(ls@.len() as int) =~= Seq::<Seq<char>>::empty());
        assert(r@ + spec_join(Seq::<Seq<char>>::empty()) =~= r@);
    }
    r
}

/// `s` without its trailing whitespace.
pub open spec fn spec_trim_end(s: Seq<char>) -> Seq<char>
    decreases s.len(),
{
    if s.len() > 0 && is_space_char(s.last()) {
        spec_trim_end(s.drop_last())
    } else {
        s
    }
}

pub fn trim_end(s: &mut Vec<char>)
    ensures
        final(s)@ == spec_trim_end(old(s)@),
{
    let ghost orig = s@;
    loop
        invariant
            spec_trim_end(orig) == spec_trim_end(s@),
        ensures
            s@ == spec_trim_end(orig),
        decreases s@.len(),
    {
        let n = s.len();
        if n == 0 {
            break;
        }
        let c = s[n - 1];
        if !(c == ' ' || c == '\t' || c == '\r' || c == '\n') {
            break;
        }
        let ghost before = s@;
        s.pop();
        assert(s@ =~= before.drop_last());
    }
}

/// `ls` without its trailing all-whitespace lines.
pub open spec fn spec_drop_trailing_blanks(ls: Seq<Seq<char>>) -> Seq<Seq<char>>
    decreases ls.len(),
{
    if ls.len() > 0 && spec_blank(ls.last()) {
        spec_drop_trailing_blanks(ls.drop_last())
    } else {
        ls
    }
}

pub fn drop_trailing_blanks(ls: &mut Vec<Vec<char>>)
    ensures
        final(ls).deep_view() == spec_drop_trailing_blanks(old(ls).deep_view()),
{
    let ghost orig = ls.deep_view();
    loop
        invariant
            spec_drop_trailing_blanks(orig) == spec_drop_trailing_blanks(ls.deep_view()),
        ensures
            ls.deep_view() == spec_drop_trailing_blanks(orig),
        decreases ls@.len(),
    {
        let n = ls.len();
        if n == 0 {
            break;
        }
        if !is_blank(&ls[n - 1]) {
            assert(ls.deep_view().last() == ls@[n - 1]@);
            break;
        }
        let ghost before = ls.deep_view();
        let ghost before_v = ls@;
        assert(before.last() == before_v[n - 1]@);
        ls.pop();
        proof {
            assert forall|k: int| 0 <= k < ls@.len() implies ls.deep_view()[k]
                == before.drop_last()[k] by {
                assert(ls@[k] == before_v[k]);
            }
            assert(ls.deep_view() =~= before.drop_last());
        }
    }
}

/// The last line of `ls` that is not blank, if any.
pub open spec fn spec_last_nonblank(ls: Seq<Seq<char>>) -> Option<Seq<char>>
    decreases ls.len(),
{
    if ls.len() == 0 {
        None
    } else if !spec_blank(ls.last()) {
        Some(ls.last())
    } else {
        spec_last_nonblank(ls.drop_last())
    }
}

/// Index of the last non-blank line.
pub fn last_nonblank(ls: &Vec<Vec<char>>) -> (r: Option<usize>)
    ensures
        match r {
            Some(i) => i < ls@.len() && spec_last_nonblank(ls.deep_view()) == Some(
                ls.deep_view()[i as int],
            ) && !spec_blank(ls.deep_view()[i as int]),
            None => spec_last_nonblank(ls.deep_view()) is None,
        },
{
    let mut k = ls.len();
    proof {
        assert(ls.deep_view().take(ls@.len() as int) =~= ls.deep_view());
    }
    while k > 0
        invariant
            k <= ls@.len(),
            ls@.len() == ls.deep_view().len(),
            spec_last_nonblank(ls.deep_view()) == spec_last_nonblank(
                ls.deep_view().take(k as int),
            ),
        decreases k,
    {
        let ghost pre = ls.deep_view().take(k as int);
        assert(pre.last() == ls.deep_view()[k - 1]);
        assert(ls.deep_view()[k - 1] == ls@[k - 1]@);
        if !is_blank(&ls[k - 1]) {
            return Some(k - 1);
        }
        proof {
            assert(pre.drop_last() =~= ls.deep_view().take(k - 1));
        }
        k -= 1;
    }
    proof {
        assert(ls.deep_view().take(0) =~= Seq::<Seq<char>>::empty());
    }
    None
}

/// The characters of `s`, in order.
pub fn chars_of(s: &str) -> (v: Vec<char>)
    ensures
        v@ == s@,
{
    broadcast use vstd::string::axiom_spec_iter, vstd::string::next_postcondition;

    let mut it = s.chars();
    let mut v: Vec<char> = Vec::new();
    proof {
        assert(it.remaining() == s@);
    }
    loop
        invariant
            v@ + IteratorSpec::remaining(&it) == s@,
            IteratorSpec::decrease(&it) is Some,
        ensures
            v@ == s@,
        decreases IteratorSpec::decrease(&it)->0,
    {
        let ghost old_it = it;
        match it.next() {
            Some(c) => {
                proof {
                    assert(old_it.remaining().len() > 0);
                    assert(v@.push(c) + it.remaining() =~= v@ + old_it.remaining());
                }
                v.push(c);
            },
            None => {
                proof {
                    assert(old_it.remaining().len() == 0);
                    assert(v@ + it.remaining() =~= v@);
                }
                break;
            },
        }
    }
    v
}

/// Relies on `String::push`: appends exactly the one character.
#[verifier::external_body]
pub fn push_char(s: &mut String, c: char)
    ensures
        final(s)@ == old(s)@.push(c),
{
    s.push(c);
}

/// A `String` holding exactly the characters of `v`.
pub fn string_of(v: &Vec<char>) -> (r: String)
    ensures
        r@ == v@,
{
    let mut r = String::new();
    let mut i: usize = 0;
    while i < v.len()
        invariant
            i <= v@.len(),
            r@ == v@.take(i as int),
        decreases v@.len() - i,
    {
        push_char(&mut r, v[i]);
        assert(r@ =~= v@.take(i + 1));
        i += 1;
    }
    assert(v@.take(v@.len() as int) =~= v@);
    r
}


/// No line produced by `spec_lines` contains a newline.
pub proof fn lemma_lines_no_nl(s: Seq<char>)
    ensures
        forall|i: int, j: int|
            0 <= i < spec_lines(s).len() && 0 <= j < spec_lines(s)[i].len() ==> #[trigger] spec_lines(
                s,
            )[i][j] != '\n',
    decreases s.len(),
{
    if s.len() == 0 {
    } else {
        lemma_first_nl(s);
        let k = first_nl(s);
        if k < s.len() {
            lemma_lines_no_nl(s.skip(k as int + 1));
            assert forall|i: int, j: int|
                0 <= i < spec_lines(s).len() && 0 <= j < spec_lines(s)[i].len() implies #[trigger] spec_lines(
                s,
            )[i][j] != '\n' by {
                if i == 0 {
                    assert(spec_lines(s)[0] == strip_cr(s.take(k as int)));
                    assert(strip_cr(s.take(k as int))[j] == s.take(k as int)[j]);
                    assert(s.take(k as int)[j] == s[j]);
                } else {
                    assert(spec_lines(s)[i] == spec_lines(s.skip(k as int + 1))[i - 1]);
                }
            }
        } else {
            assert forall|i: int, j: int|
                0 <= i < spec_lines(s).len() && 0 <= j < spec_lines(s)[i].len() implies #[trigger] spec_lines(
                s,
            )[i][j] != '\n' by {
                assert(spec_lines(s)[i] == s);
                assert(s[j] != '\n');
            }
        }
    }
}

/// Splitting distributes over concatenation at a final newline of the left
/// part.
pub proof fn lemma_lines_concat(a: Seq<char>, b: Seq<char>)
    requires
        a.len() > 0,
        a.last() == '\n',
    ensures
        spec_lines(a + b) == spec_lines(a) + spec_lines(b),
    decreases a.len(),
{
    lemma_first_nl(a);
    let k = first_nl(a);
    if k == a.len() {
        assert(a[a.len() - 1] != '\n');
        assert(false);
    }
    let ab = a + b;
    assert forall|j: int| 0 <= j < k implies ab[j] != '\n' by {
        assert(ab[j] == a[j]);
    }
    assert(ab[k as int] == a[k as int]);
    lemma_first_nl_at(ab, k as int);
    assert(ab.len() > 0);
    assert(spec_lines(ab) == seq![strip_cr(ab.take(k as int))] + spec_lines(ab.skip(k as int + 1)));
    assert(ab.take(k as int) =~= a.take(k as int));
    if k + 1 == a.len() {
        assert(ab.skip(k as int + 1) =~= b);
        assert(a.skip(k as int + 1) =~= Seq::<char>::empty());
        assert(spec_lines(a) == seq![strip_cr(a.take(k as int))] + spec_lines(a.skip(k as int + 1)));
        assert(spec_lines(a) =~= seq![strip_cr(a.take(k as int))]);
        assert(spec_lines(ab) =~= spec_lines(a) + spec_lines(b));
    } else {
        let a2 = a.skip(k as int + 1);
        assert(a2.len() > 0);
        assert(a2.last() == a.last());
        lemma_lines_concat(a2, b);
        assert(ab.skip(k as int + 1) =~= a2 + b);
        assert(spec_lines(a) == seq![strip_cr(a.take(k as int))] + spec_lines(a2));
        assert(spec_lines(ab) =~= spec_lines(a) + spec_lines(b));
    }
}

/// A last non-blank line is a non-blank member of the line sequence.
pub proof fn lemma_last_nonblank_props(ls: Seq<Seq<char>>)
    ensures
        spec_last_nonblank(ls) matches Some(l) ==> !spec_blank(l) && exists|i: int|
            0 <= i < ls.len() && ls[i] == l,
    decreases ls.len(),
{
    if ls.len() == 0 {
    } else if !spec_blank(ls.last()) {
        assert(ls[ls.len() - 1] == ls.last());
    } else {
        lemma_last_nonblank_props(ls.drop_last());
        let lo = spec_last_nonblank(ls);
        if lo is Some {
            let l = lo->Some_0;
            let i = choose|i: int| 0 <= i < ls.drop_last().len() && ls.drop_last()[i] == l;
            assert(ls[i] == l);
        }
    }
}


/// Dropping trailing blank lines is idempotent.
pub proof fn lemma_dtb_idempotent(ls: Seq<Seq<char>>)
    ensures
        spec_drop_trailing_blanks(spec_drop_trailing_blanks(ls)) == spec_drop_trailing_blanks(ls),
    decreases ls.len(),
{
    if ls.len() > 0 && spec_blank(ls.last()) {
        lemma_dtb_idempotent(ls.drop_last());
    }
}


/// Dropping trailing blank lines keeps a prefix of the input.
pub proof fn lemma_dtb_prefix(ls: Seq<Seq<char>>)
    ensures
        spec_drop_trailing_blanks(ls).len() <= ls.len(),
        spec_drop_trailing_blanks(ls) == ls.take(spec_drop_trailing_blanks(ls).len() as int),
    decreases ls.len(),
{
    if ls.len() > 0 && spec_blank(ls.last()) {
        lemma_dtb_prefix(ls.drop_last());
        let d = spec_drop_trailing_blanks(ls);
        assert(ls.drop_last() =~= ls.take(ls.len() - 1));
        assert(ls.take(ls.len() - 1).take(d.len() as int) =~= ls.take(d.len() as int));
    } else {
        assert(ls.take(ls.len() as int) =~= ls);
    }
}

/// What survives dropping trailing blank lines ends in a non-blank line.
pub proof fn lemma_dtb_last(ls: Seq<Seq<char>>)
    ensures
        spec_drop_trailing_blanks(ls).len() > 0 ==> !spec_blank(
            spec_drop_trailing_blanks(ls).last(),
        ),
    decreases ls.len(),
{
    if ls.len() > 0 && spec_blank(ls.last()) {
        lemma_dtb_last(ls.drop_last());
    }
}

/// The last non-blank line is the last line left after dropping trailing
/// blank ones.
pub proof fn lemma_last_nonblank_dtb(ls: Seq<Seq<char>>)
    ensures
        spec_last_nonblank(ls) == (if spec_drop_trailing_blanks(ls).len() > 0 {
            Some(spec_drop_trailing_blanks(ls).last())
        } else {
            None
        }),
    decreases ls.len(),
{
    if ls.len() > 0 && spec_blank(ls.last()) {
        lemma_last_nonblank_dtb(ls.drop_last());
    }
}

/// The last character of a join is the last character of its last line.
pub proof fn lemma_join_last_char(ls: Seq<Seq<char>>)
    requires
        ls.len() > 0,
        ls.last().len() > 0,
    ensures
        spec_join(ls).len() > 0,
        spec_join(ls).last() == ls.last().last(),
    decreases ls.len(),
{
    if ls.len() == 1 {
    } else {
        lemma_join_last_char(ls.skip(1));
        assert(ls.skip(1).last() == ls.last());
        let right = spec_join(ls.skip(1));
        assert(spec_join(ls) == ls[0] + seq!['\n'] + right);
        assert((ls[0] + seq!['\n'] + right).last() == right.last());
    }
}

/// Splitting inverts joining, for lines free of newlines and trailing
/// carriage returns whose last line is non-empty.
pub proof fn lemma_join_lines_roundtrip(ls: Seq<Seq<char>>)
    requires
        forall|i: int, j: int|
            0 <= i < ls.len() && 0 <= j < ls[i].len() ==> #[trigger] ls[i][j] != '\n',
        forall|i: int|
            0 <= i < ls.len() ==> ((#[trigger] ls[i]).len() == 0 || ls[i].last() != '\r'),
        ls.len() == 0 || ls.last().len() > 0,
    ensures
        spec_lines(spec_join(ls)) == ls,
    decreases ls.len(),
{
    if ls.len() == 0 {
        assert(spec_join(ls) =~= Seq::<char>::empty());
        assert(spec_lines(spec_join(ls)) =~= ls);
    } else if ls.len() == 1 {
        let x = spec_join(ls);
        assert(x == ls[0]);
        assert(x.len() > 0);
        assert forall|j: int| 0 <= j < x.len() implies x[j] != '\n' by {
            assert(ls[0][j] != '\n');
        }
        lemma_first_nl_at(x, x.len() as int);
        assert(spec_lines(x) == seq![x]);
        assert(spec_lines(x) =~= ls);
    } else {
        let x = spec_join(ls);
        let right = spec_join(ls.skip(1));
        assert(x == ls[0] + seq!['\n'] + right);
        let n0 = ls[0].len() as int;
        assert forall|j: int| 0 <= j < n0 implies x[j] != '\n' by {
            assert(x[j] == ls[0][j]);
        }
        assert(x[n0] == '\n');
        lemma_first_nl_at(x, n0);
        assert(x.take(n0) =~= ls[0]);
        assert(strip_cr(ls[0]) == ls[0]);
        assert(x.skip(n0 + 1) =~= right);
        assert forall|i: int, j: int|
            0 <= i < ls.skip(1).len() && 0 <= j < ls.skip(1)[i].len() implies #[trigger] ls.skip(
            1,
        )[i][j] != '\n' by {
            assert(ls.skip(1)[i] == ls[i + 1]);
            assert(ls[i + 1][j] != '\n');
        }
        assert forall|i: int|
            0 <= i < ls.skip(1).len() implies ((#[trigger] ls.skip(1)[i]).len() == 0 || ls.skip(
            1,
        )[i].last() != '\r') by {
            assert(ls.skip(1)[i] == ls[i + 1]);
        }
        assert(ls.skip(1).last() == ls.last());
        lemma_join_lines_roundtrip(ls.skip(1));
        assert(spec_lines(x) == seq![ls[0]] + ls.skip(1));
        assert(seq![ls[0]] + ls.skip(1) =~= ls);
    }
}

} // verus!
