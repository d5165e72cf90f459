//! Unicode whitespace, trimming and whitespace collapsing over `char` sequences.

use vstd::prelude::*;

verus! {

/// The Unicode `White_Space` property, the set that `char::is_whitespace`,
/// `str::trim` and `str::split_whitespace` use.
pub open spec fn is_white_space(c: char) -> bool {
    let v = c as u32;
    ||| 0x09 <= v <= 0x0d
    ||| v == 0x20
    ||| v == 0x85
    ||| v == 0xa0
    ||| v == 0x1680
    ||| 0x2000 <= v <= 0x200a
    ||| v == 0x2028
    ||| v == 0x2029
    ||| v == 0x202f
    ||| v == 0x205f
    ||| v == 0x3000
}

/// Whether `c` is Unicode whitespace.
pub fn white_space(c: char) -> (r: bool)
    ensures
        r == is_white_space(c),
{
    let v = c as u32;
    (0x09 <= v && v <= 0x0d) || v == 0x20 || v == 0x85 || v == 0xa0 || v == 0x1680 || (0x2000
        <= v && v <= 0x200a) || v == 0x2028 || v == 0x2029 || v == 0x202f || v == 0x205f || v
        == 0x3000
}

/// The characters of `s`, in order.
pub fn chars_of(s: &str) -> (v: Vec<char>)
    ensures
        v@ == s@,
{
    let mut v: Vec<char> = Vec::new();
    for c in it: s.chars()
        invariant
            v@ == it.seq().take(it.index() as int),
            it.seq() == s@,
    {
        v.push(c);
    }
    v
}


/// `s` without its leading whitespace.
pub open spec fn trim_start(s: Seq<char>) -> Seq<char>
    decreases s.len(),
{
    if s.len() > 0 && is_white_space(s[0]) {
        trim_start(s.subrange(1, s.len() as int))
    } else {
        s
    }
}

/// `s` without its trailing whitespace.
pub open spec fn trim_end(s: Seq<char>) -> Seq<char>
    decreases s.len(),
{
    if s.len() > 0 && is_white_space(s.last()) {
        trim_end(s.drop_last())
    } else {
        s
    }
}

/// `s` without leading and trailing whitespace, as `str::trim` gives it.
pub open spec fn trim(s: Seq<char>) -> Seq<char> {
    trim_end(trim_start(s))
}

/// Every character of `s` is whitespace (the empty sequence included).
pub open spec fn is_blank(s: Seq<char>) -> bool {
    forall|i: int| 0 <= i < s.len() ==> is_white_space(#[trigger] s[i])
}

/// `s` with leading and trailing whitespace removed and every inner run of
/// whitespace replaced by one space: the words of `s` joined by single spaces,
/// as `split_whitespace` followed by `join(" ")` gives them.
pub open spec fn collapse_whitespace(s: Seq<char>) -> Seq<char>
    decreases s.len(),
{
    if s.len() == 0 {
        Seq::empty()
    } else if is_white_space(s.last()) {
        collapse_whitespace(s.drop_last())
    } else {
        let prefix = s.drop_last();
        let head = collapse_whitespace(prefix);
        if prefix.len() > 0 && is_white_space(prefix.last()) && head.len() > 0 {
            head.push(' ').push(s.last())
        } else {
            head.push(s.last())
        }
    }
}

proof fn lemma_trim_start_skip(s: Seq<char>, i: int)
    requires
        0 <= i <= s.len(),
        forall|k: int| 0 <= k < i ==> is_white_space(#[trigger] s[k]),
    ensures
        trim_start(s) == trim_start(s.subrange(i, s.len() as int)),
    decreases i,
{
    if i > 0 {
        let t = s.subrange(1, s.len() as int);
        assert forall|k: int| 0 <= k < i - 1 implies is_white_space(#[trigger] t[k]) by {
            assert(t[k] == s[k + 1]);
        }
        lemma_trim_start_skip(t, i - 1);
        assert(t.subrange(i - 1, t.len() as int) =~= s.subrange(i, s.len() as int));
    } else {
        assert(s.subrange(0, s.len() as int) =~= s);
    }
}

proof fn lemma_trim_end_skip(s: Seq<char>, j: int)
    requires
        0 <= j <= s.len(),
        forall|k: int| j <= k < s.len() ==> is_white_space(#[trigger] s[k]),
    ensures
        trim_end(s) == trim_end(s.subrange(0, j)),
    decreases s.len() - j,
{
    if j < s.len() {
        let t = s.drop_last();
        lemma_trim_end_skip(t, j);
        assert(t.subrange(0, j) =~= s.subrange(0, j));
    } else {
        assert(s.subrange(0, j) =~= s);
    }
}

/// Appends `c` to `s`.
///
/// Trusted: calls `String::push`, which std documents as appending the given
/// `char` to the end of the string.
#[verifier::external_body]
pub(crate) fn push_char(s: &mut String, c: char)
    ensures
        final(s)@ == old(s)@.push(c),
{
    s.push(c);
}

/// The characters `v[from..to]` as a `String`.
pub fn string_from_chars(v: &Vec<char>, from: usize, to: usize) -> (r: String)
    requires
        from <= to <= v.len(),
    ensures
        r@ == v@.subrange(from as int, to as int),
{
    let mut r = String::new();
    let mut i = from;
    while i < to
        invariant
            from <= i <= to <= v.len(),
            r@ == v@.subrange(from as int, i as int),
        decreases to - i,
    {
        push_char(&mut r, v[i]);
        assert(v@.subrange(from as int, i + 1) =~= v@.subrange(from as int, i as int).push(v@[i as int]));
        i = i + 1;
    }
    r
}

/// `s` without leading and trailing whitespace (`str::trim`).
pub fn trim_text(s: &str) -> (r: String)
    ensures
        r@ == trim(s@),
{
    let v = chars_of(s);
    let n = v.len();
    let mut i: usize = 0;
    while i < n && white_space(v[i])
        invariant
            i <= n == v@.len(),
            forall|k: int| 0 <= k < i ==> is_white_space(#[trigger] v@[k]),
        decreases n - i,
    {
        i = i + 1;
    }
    let mut j: usize = n;
    while j > i && white_space(v[j - 1])
        invariant
            i <= j <= n == v@.len(),
            forall|k: int| j <= k < n ==> is_white_space(#[trigger] v@[k]),
        decreases j,
    {
        j = j - 1;
    }
    proof {
        let s0 = v@;
        lemma_trim_start_skip(s0, i as int);
        let rest = s0.subrange(i as int, n as int);
        assert(trim_start(rest) == rest);
        assert forall|k: int| j - i <= k < rest.len() implies is_white_space(#[trigger] rest[k]) by {
            assert(rest[k] == s0[k + i]);
        }
        lemma_trim_end_skip(rest, j - i);
        let mid = rest.subrange(0, j - i);
        assert(mid =~= s0.subrange(i as int, j as int));
        if j > i {
            assert(mid.last() == s0[j - 1]);
        }
        assert(trim_end(mid) == mid);
    }
    string_from_chars(&v, i, j)
}

/// Whether `s` is empty or all whitespace (`s.trim().is_empty()`).
pub fn is_blank_text(s: &str) -> (r: bool)
    ensures
        r == (trim(s@).len() == 0),
        r == is_blank(s@),
{
    let t = trim_text(s);
    let v = chars_of(t.as_str());
    proof {
        lemma_trim_empty_iff_blank(s@);
    }
    v.len() == 0
}

/// The trimmed sequence is empty exactly when every character is whitespace.
pub proof fn lemma_trim_empty_iff_blank(s: Seq<char>)
    ensures
        (trim(s).len() == 0) == is_blank(s),
    decreases s.len(),
{
    if s.len() > 0 && is_white_space(s[0]) {
        let t = s.subrange(1, s.len() as int);
        lemma_trim_empty_iff_blank(t);
        if is_blank(t) {
            assert forall|i: int| 0 <= i < s.len() implies is_white_space(#[trigger] s[i]) by {
                if i > 0 {
                    assert(s[i] == t[i - 1]);
                }
            }
        }
        if is_blank(s) {
            assert forall|i: int| 0 <= i < t.len() implies is_white_space(#[trigger] t[i]) by {
                assert(t[i] == s[i + 1]);
            }
        }
    } else if s.len() > 0 {
        lemma_trim_end_keeps_first(s);
        assert(!is_white_space(s[0]));
    }
}

proof fn lemma_trim_end_keeps_first(s: Seq<char>)
    requires
        s.len() > 0,
        !is_white_space(s[0]),
    ensures
        trim_end(s).len() > 0,
    decreases s.len(),
{
    if is_white_space(s.last()) {
        lemma_trim_end_keeps_first(s.drop_last());
    }
}

/// `s` with whitespace runs collapsed to single spaces and the ends trimmed.
pub fn collapse_whitespace_text(s: &str) -> (r: String)
    ensures
        r@ == collapse_whitespace(s@),
{
    let v = chars_of(s);
    let n = v.len();
    let mut out = String::new();
    let mut nonempty = false;
    let mut pending = false;
    let mut i: usize = 0;
    while i < n
        invariant
            i <= n == v@.len(),
            out@ == collapse_whitespace(v@.take(i as int)),
            nonempty == (out@.len() > 0),
            pending == (i > 0 && is_white_space(v@[i - 1])),
        decreases n - i,
    {
        let c = v[i];
        let ghost pre = v@.take(i as int);
        assert(v@.take(i + 1).drop_last() =~= pre);
        assert(v@.take(i + 1).last() == c);
        if white_space(c) {
            pending = true;
        } else {
            if pending && nonempty {
                push_char(&mut out, ' ');
            }
            push_char(&mut out, c);
            nonempty = true;
            pending = false;
        }
        i = i + 1;
    }
    assert(v@.take(n as int) =~= v@);
    out
}


/// `a` followed by `b`.
pub fn concat(a: &str, b: &str) -> (r: String)
    ensures
        r@ == a@ + b@,
{
    let mut r = String::from_str(a);
    r.append(b);
    r
}

/// Whether `a` and `b` hold the same characters.
pub fn text_equals(a: &str, b: &str) -> (r: bool)
    ensures
        r == (a@ == b@),
{
    a.to_owned() == b.to_owned()
}

/// The first `n` characters of `s` (all of them when it is shorter).
pub fn take_chars(s: &str, n: usize) -> (r: String)
    ensures
        r@ == s@.take(if s@.len() < n { s@.len() as int } else { n as int }),
{
    let v = chars_of(s);
    let end = if v.len() < n { v.len() } else { n };
    let r = string_from_chars(&v, 0, end);
    assert(v@.subrange(0, end as int) =~= s@.take(end as int));
    r
}

/// `t` has no whitespace at either end.
pub open spec fn has_trimmed_ends(t: Seq<char>) -> bool {
    t.len() > 0 ==> (!is_white_space(t[0]) && !is_white_space(t.last()))
}

proof fn lemma_trim_end_prefix(x: Seq<char>)
    ensures
        trim_end(x).len() <= x.len(),
        trim_end(x) == x.take(trim_end(x).len() as int),
        trim_end(x).len() > 0 ==> !is_white_space(trim_end(x).last()),
    decreases x.len(),
{
    if x.len() > 0 && is_white_space(x.last()) {
        lemma_trim_end_prefix(x.drop_last());
        let r = trim_end(x.drop_last());
        assert(x.drop_last().take(r.len() as int) =~= x.take(r.len() as int));
    } else {
        assert(x.take(x.len() as int) =~= x);
    }
}

proof fn lemma_trim_start_first(x: Seq<char>)
    ensures
        trim_start(x).len() > 0 ==> !is_white_space(trim_start(x)[0]),
    decreases x.len(),
{
    if x.len() > 0 && is_white_space(x[0]) {
        lemma_trim_start_first(x.subrange(1, x.len() as int));
    }
}

/// Trimming leaves no whitespace at either end.
pub proof fn lemma_trim_ends(s: Seq<char>)
    ensures
        has_trimmed_ends(trim(s)),
{
    let u = trim_start(s);
    lemma_trim_start_first(s);
    lemma_trim_end_prefix(u);
    let t = trim_end(u);
    if t.len() > 0 {
        assert(t[0] == u[0]);
    }
}

/// A sequence without whitespace at its ends is its own trim.
pub proof fn lemma_trim_fixed(t: Seq<char>)
    requires
        has_trimmed_ends(t),
    ensures
        trim(t) == t,
{
}

/// Trimming twice is trimming once.
pub proof fn lemma_trim_idempotent(s: Seq<char>)
    ensures
        trim(trim(s)) == trim(s),
{
    lemma_trim_ends(s);
    lemma_trim_fixed(trim(s));
}

/// `t` has the shape of collapsed text: no whitespace at the ends, and every
/// whitespace character is a single space between two other characters.
pub open spec fn is_collapsed(t: Seq<char>) -> bool {
    &&& has_trimmed_ends(t)
    &&& forall|i: int|
        0 <= i < t.len() && is_white_space(#[trigger] t[i]) ==> (t[i] == ' ' && 0 < i < t.len()
            - 1 && !is_white_space(t[i - 1]) && !is_white_space(t[i + 1]))
}

/// Collapsing whitespace gives collapsed text.
pub proof fn lemma_collapse_shape(s: Seq<char>)
    ensures
        is_collapsed(collapse_whitespace(s)),
    decreases s.len(),
{
    if s.len() == 0 {
    } else if is_white_space(s.last()) {
        lemma_collapse_shape(s.drop_last());
    } else {
        let prefix = s.drop_last();
        let head = collapse_whitespace(prefix);
        lemma_collapse_shape(prefix);
        let c = s.last();
        let r = collapse_whitespace(s);
        if prefix.len() > 0 && is_white_space(prefix.last()) && head.len() > 0 {
            assert(r == head.push(' ').push(c));
            assert(is_white_space(' '));
            assert forall|i: int|
                0 <= i < r.len() && is_white_space(#[trigger] r[i]) implies (r[i] == ' ' && 0 < i
                < r.len() - 1 && !is_white_space(r[i - 1]) && !is_white_space(r[i + 1])) by {
                if i < head.len() {
                    assert(r[i] == head[i]);
                    if i + 1 < head.len() {
                        assert(r[i + 1] == head[i + 1]);
                    }
                    assert(r[i - 1] == head[i - 1]);
                }
            }
        } else {
            assert(r == head.push(c));
            assert forall|i: int|
                0 <= i < r.len() && is_white_space(#[trigger] r[i]) implies (r[i] == ' ' && 0 < i
                < r.len() - 1 && !is_white_space(r[i - 1]) && !is_white_space(r[i + 1])) by {
                assert(r[i] == head[i]);
                if i + 1 < head.len() {
                    assert(r[i + 1] == head[i + 1]);
                }
                assert(r[i - 1] == head[i - 1]);
            }
        }
    }
}

proof fn lemma_collapse_collapsed_prefix(t: Seq<char>, k: int)
    requires
        is_collapsed(t),
        0 <= k <= t.len(),
    ensures
        k > 0 && is_white_space(t[k - 1]) ==> collapse_whitespace(t.take(k)) == t.take(k - 1),
        !(k > 0 && is_white_space(t[k - 1])) ==> collapse_whitespace(t.take(k)) == t.take(k),
    decreases k,
{
    if k > 0 {
        let p = t.take(k);
        assert(p.drop_last() =~= t.take(k - 1));
        assert(p.last() == t[k - 1]);
        lemma_collapse_collapsed_prefix(t, k - 1);
        if is_white_space(t[k - 1]) {
            assert(!is_white_space(t[k - 2]));
        } else if k - 1 > 0 && is_white_space(t[k - 2]) {
            assert(t[k - 2] == ' ');
            assert(!is_white_space(t[k - 3]));
            assert(t.take(k - 2).push(' ').push(t[k - 1]) =~= p);
        } else {
            assert(t.take(k - 1).push(t[k - 1]) =~= p);
        }
    } else {
        assert(t.take(0) =~= Seq::<char>::empty());
    }
}

/// Collapsed text is its own collapse.
pub proof fn lemma_collapse_fixed(t: Seq<char>)
    requires
        is_collapsed(t),
    ensures
        collapse_whitespace(t) == t,
{
    lemma_collapse_collapsed_prefix(t, t.len() as int);
    assert(t.take(t.len() as int) =~= t);
}

/// Collapsing whitespace twice is collapsing it once.
pub proof fn lemma_collapse_idempotent(s: Seq<char>)
    ensures
        collapse_whitespace(collapse_whitespace(s)) == collapse_whitespace(s),
{
    lemma_collapse_shape(s);
    lemma_collapse_fixed(collapse_whitespace(s));
}

/// Two collapsed texts put together with one space between them, or the
/// one that is not empty.
pub open spec fn glue(x: Seq<char>, y: Seq<char>) -> Seq<char> {
    if x.len() == 0 {
        y
    } else if y.len() == 0 {
        x
    } else {
        x + seq![' '] + y
    }
}

proof fn lemma_collapse_keeps_last_word(s: Seq<char>)
    requires
        s.len() > 0,
        !is_white_space(s.last()),
    ensures
        collapse_whitespace(s).len() > 0,
        collapse_whitespace(s).last() == s.last(),
{
}

/// Collapsing two texts joined by a space collapses each and joins the
/// results with one space (or keeps the one that is not empty): no word of
/// either is lost, and the words of the first come before those of the
/// second.
pub proof fn lemma_collapse_glue(a: Seq<char>, b: Seq<char>)
    ensures
        collapse_whitespace(a + seq![' '] + b) == glue(collapse_whitespace(a), collapse_whitespace(b)),
    decreases b.len(),
{
    let x = a + seq![' '] + b;
    let ca = collapse_whitespace(a);
    assert(is_white_space(' '));
    if b.len() == 0 {
        assert(x.drop_last() =~= a);
        assert(x.last() == ' ');
        assert(collapse_whitespace(b) =~= Seq::<char>::empty());
    } else {
        let b1 = b.drop_last();
        let c = b.last();
        lemma_collapse_glue(a, b1);
        let x1 = a + seq![' '] + b1;
        assert(x.drop_last() =~= x1);
        assert(x.last() == c);
        let cb1 = collapse_whitespace(b1);
        let cx1 = collapse_whitespace(x1);
        assert(cx1 == glue(ca, cb1));
        if is_white_space(c) {
            assert(collapse_whitespace(x) == cx1);
            assert(collapse_whitespace(b) == cb1);
        } else if b1.len() == 0 {
            assert(x1.last() == ' ');
            assert(cb1 =~= Seq::<char>::empty());
            assert(collapse_whitespace(b) =~= seq![c]);
            if ca.len() > 0 {
                assert(collapse_whitespace(x) == cx1.push(' ').push(c));
                assert(cx1.push(' ').push(c) =~= ca + seq![' '] + seq![c]);
            } else {
                assert(collapse_whitespace(x) == cx1.push(c));
                assert(cx1.push(c) =~= seq![c]);
            }
        } else {
            assert(x1.last() == b1.last());
            if is_white_space(b1.last()) {
                if cb1.len() > 0 {
                    assert(collapse_whitespace(b) == cb1.push(' ').push(c));
                    assert(cx1.len() > 0);
                    assert(collapse_whitespace(x) == cx1.push(' ').push(c));
                    if ca.len() > 0 {
                        assert(cx1.push(' ').push(c) =~= ca + seq![' '] + cb1.push(' ').push(c));
                    } else {
                        assert(cx1.push(' ').push(c) =~= cb1.push(' ').push(c));
                    }
                } else {
                    assert(collapse_whitespace(b) == cb1.push(c));
                    assert(cb1.push(c) =~= seq![c]);
                    assert(cx1 == ca);
                    if ca.len() > 0 {
                        assert(collapse_whitespace(x) == cx1.push(' ').push(c));
                        assert(cx1.push(' ').push(c) =~= ca + seq![' '] + seq![c]);
                    } else {
                        assert(collapse_whitespace(x) == cx1.push(c));
                        assert(cx1.push(c) =~= seq![c]);
                    }
                }
            } else {
                lemma_collapse_keeps_last_word(b1);
                assert(cb1.len() > 0);
                assert(collapse_whitespace(b) == cb1.push(c));
                assert(collapse_whitespace(x) == cx1.push(c));
                if ca.len() > 0 {
                    assert(cx1.push(c) =~= ca + seq![' '] + cb1.push(c));
                } else {
                    assert(cx1.push(c) =~= cb1.push(c));
                }
            }
        }
    }
}

} // verus!
