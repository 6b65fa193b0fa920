//! Character-level text model: the string operations the library relies on,
//! each given as a spec function over `Seq<char>` with an executable
//! counterpart proved against it.
use vstd::prelude::*;

verus! {

/// `char::is_whitespace`: the Unicode `White_Space` property.
pub open spec fn is_ws(c: char) -> bool {
    ||| ('\u{9}' <= c && c <= '\u{d}')
    ||| c == ' '
    ||| c == '\u{85}'
    ||| c == '\u{a0}'
    ||| c == '\u{1680}'
    ||| ('\u{2000}' <= c && c <= '\u{200a}')
    ||| c == '\u{2028}'
    ||| c == '\u{2029}'
    ||| c == '\u{202f}'
    ||| c == '\u{205f}'
    ||| c == '\u{3000}'
}

/// Whether `c` is whitespace.
pub fn is_ws_exec(c: char) -> (r: bool)
    ensures
        r == is_ws(c),
{
    ('\u{9}' <= c && c <= '\u{d}') || c == ' ' || c == '\u{85}' || c == '\u{a0}' || c == '\u{1680}'
        || ('\u{2000}' <= c && c <= '\u{200a}') || c == '\u{2028}' || c == '\u{2029}' || c
        == '\u{202f}' || c == '\u{205f}' || c == '\u{3000}'
}

/// `char::to_ascii_lowercase`.
pub open spec fn lower_char(c: char) -> char {
    if 'A' <= c && c <= 'Z' {
        ((c as u32) + 32) as char
    } else {
        c
    }
}

/// `c` in ASCII lower case.
pub fn lower_char_exec(c: char) -> (r: char)
    ensures
        r == lower_char(c),
{
    if 'A' <= c && c <= 'Z' {
        let b: u8 = (c as u32 + 32) as u8;
        b as char
    } else {
        c
    }
}

/// `str::trim_start`.
pub open spec fn trim_start(s: Seq<char>) -> Seq<char>
    decreases s.len(),
{
    if s.len() > 0 && is_ws(s[0]) {
        trim_start(s.drop_first())
    } else {
        s
    }
}

/// `str::trim_end`.
pub open spec fn trim_end(s: Seq<char>) -> Seq<char>
    decreases s.len(),
{
    if s.len() > 0 && is_ws(s.last()) {
        trim_end(s.drop_last())
    } else {
        s
    }
}

/// `str::trim`: whitespace removed from both ends.
pub open spec fn trim(s: Seq<char>) -> Seq<char> {
    trim_end(trim_start(s))
}

/// An optional character vector, taken by its characters.
pub open spec fn opt_chars(o: Option<Vec<char>>) -> Option<Seq<char>> {
    match o {
        Some(v) => Some(v@),
        None => None,
    }
}

/// `str::to_ascii_lowercase`.
pub open spec fn ascii_lower(s: Seq<char>) -> Seq<char> {
    s.map_values(|c: char| lower_char(c))
}

/// The characters of a string slice.
pub fn to_chars(s: &str) -> (v: Vec<char>)
    ensures
        v@ == s@,
{
    let mut v: Vec<char> = Vec::new();
    for c in it: s.chars()
        invariant
            v@ == it.seq().take(it.index() as int),
            it.seq() == s@,
    {
        v.push(c);
    }
    v
}

/// Appends one character to a `String` (`String::push`).
#[verifier::external_body]
fn push_char(s: &mut String, c: char)
    ensures
        final(s)@ == old(s)@.push(c),
{
    s.push(c);
}

/// Collects characters into a `String`.
pub fn to_string(v: &[char]) -> (s: String)
    ensures
        s@ == v@,
{
    let mut s = String::new();
    let mut i: usize = 0;
    while i < v.len()
        invariant
            i <= v@.len(),
            s@ == v@.take(i as int),
        decreases v@.len() - i,
    {
        push_char(&mut s, v[i]);
        i += 1;
        assert(s@ =~= v@.take(i as int));
    }
    assert(v@.take(v@.len() as int) =~= v@);
    s
}

/// Copies `v[lo..hi]`.
pub fn slice_chars(v: &[char], lo: usize, hi: usize) -> (r: Vec<char>)
    requires
        lo <= hi <= v@.len(),
    ensures
        r@ == v@.subrange(lo as int, hi as int),
{
    let mut r: Vec<char> = Vec::new();
    let mut i: usize = lo;
    while i < hi
        invariant
            lo <= i <= hi <= v@.len(),
            r@ == v@.subrange(lo as int, i as int),
        decreases hi - i,
    {
        r.push(v[i]);
        i += 1;
        assert(r@ =~= v@.subrange(lo as int, i as int));
    }
    r
}

proof fn lemma_trim_start_skip(s: Seq<char>, a: int)
    requires
        0 <= a < s.len(),
        is_ws(s[a]),
    ensures
        trim_start(s.skip(a)) == trim_start(s.skip(a + 1)),
{
    assert(s.skip(a).drop_first() =~= s.skip(a + 1));
}

proof fn lemma_trim_end_sub(s: Seq<char>, a: int, b: int)
    requires
        0 <= a < b <= s.len(),
        is_ws(s[b - 1]),
    ensures
        trim_end(s.subrange(a, b)) == trim_end(s.subrange(a, b - 1)),
{
    assert(s.subrange(a, b).drop_last() =~= s.subrange(a, b - 1));
}

/// Bounds `(a, b)` such that `v[a..b]` is `v` trimmed.
pub fn trim_bounds(v: &[char]) -> (r: (usize, usize))
    ensures
        r.0 <= r.1 <= v@.len(),
        v@.subrange(r.0 as int, r.1 as int) == trim(v@),
{
    let n = v.len();
    let mut a: usize = 0;
    assert(v@.skip(0) =~= v@);
    while a < n && is_ws_exec(v[a])
        invariant
            a <= n == v@.len(),
            trim_start(v@) == trim_start(v@.skip(a as int)),
        decreases n - a,
    {
        proof {
            lemma_trim_start_skip(v@, a as int);
        }
        a += 1;
    }
    assert(trim_start(v@) == v@.subrange(a as int, n as int)) by {
        assert(v@.skip(a as int) =~= v@.subrange(a as int, n as int));
    }
    let mut b: usize = n;
    while b > a && is_ws_exec(v[b - 1])
        invariant
            a <= b <= n == v@.len(),
            trim(v@) == trim_end(v@.subrange(a as int, b as int)),
        decreases b - a,
    {
        proof {
            lemma_trim_end_sub(v@, a as int, b as int);
        }
        b -= 1;
    }
    (a, b)
}

/// `str::trim`, on characters.
pub fn trim_chars(v: &[char]) -> (r: Vec<char>)
    ensures
        r@ == trim(v@),
{
    let (a, b) = trim_bounds(v);
    slice_chars(v, a, b)
}

/// `str::to_ascii_lowercase`, on characters.
pub fn lower_chars(v: &[char]) -> (r: Vec<char>)
    ensures
        r@ == ascii_lower(v@),
{
    let mut r: Vec<char> = Vec::new();
    let mut i: usize = 0;
    while i < v.len()
        invariant
            i <= v@.len(),
            r@ == ascii_lower(v@.take(i as int)),
        decreases v@.len() - i,
    {
        let c = lower_char_exec(v[i]);
        r.push(c);
        i += 1;
        assert(r@ =~= ascii_lower(v@.take(i as int)));
    }
    assert(v@.take(v@.len() as int) =~= v@);
    r
}


/// `p` occurs in `s` starting at index `i`.
pub open spec fn occurs_at(s: Seq<char>, p: Seq<char>, i: int) -> bool {
    0 <= i && i + p.len() <= s.len() && s.subrange(i, i + p.len()) == p
}

/// `s.contains(p)`.
pub open spec fn contains(s: Seq<char>, p: Seq<char>) -> bool {
    exists|i: int| occurs_at(s, p, i)
}

/// `i` is the leftmost occurrence of `p` in `s`.
pub open spec fn is_first_at(s: Seq<char>, p: Seq<char>, i: int) -> bool {
    occurs_at(s, p, i) && forall|j: int| 0 <= j < i ==> !occurs_at(s, p, j)
}

/// `s.find(p)`: the index of the leftmost occurrence of `p`.
pub open spec fn find(s: Seq<char>, p: Seq<char>) -> Option<int> {
    if exists|i: int| is_first_at(s, p, i) {
        Some(choose|i: int| is_first_at(s, p, i))
    } else {
        None
    }
}

/// `s.strip_prefix(p)`.
pub open spec fn strip_prefix(s: Seq<char>, p: Seq<char>) -> Option<Seq<char>> {
    if occurs_at(s, p, 0) {
        Some(s.skip(p.len() as int))
    } else {
        None
    }
}

/// `s.split_once(p)`.
pub open spec fn split_once(s: Seq<char>, p: Seq<char>) -> Option<(Seq<char>, Seq<char>)> {
    match find(s, p) {
        Some(i) => Some((s.take(i), s.skip(i + p.len()))),
        None => None,
    }
}

/// `s.split(p).next()` (never `None`): the text before the first `p`.
pub open spec fn before_first(s: Seq<char>, p: Seq<char>) -> Seq<char> {
    match find(s, p) {
        Some(i) => s.take(i),
        None => s,
    }
}

/// `s.split(p).nth(1)`: the text between the first and the second `p`.
pub open spec fn second_piece(s: Seq<char>, p: Seq<char>) -> Option<Seq<char>> {
    match split_once(s, p) {
        Some((_, rest)) => Some(before_first(rest, p)),
        None => None,
    }
}

proof fn lemma_first_unique(s: Seq<char>, p: Seq<char>, i: int)
    requires
        is_first_at(s, p, i),
    ensures
        find(s, p) == Some(i),
{
    let k = choose|k: int| is_first_at(s, p, k);
    assert(is_first_at(s, p, k));
    if k < i {
        assert(!occurs_at(s, p, k));
    } else if i < k {
        assert(!occurs_at(s, p, i));
    }
}

/// Whether `p` occurs in `v` at `i`.
pub fn occurs_at_exec(v: &[char], p: &[char], i: usize) -> (r: bool)
    ensures
        r == occurs_at(v@, p@, i as int),
{
    if p.len() > v.len() || i > v.len() - p.len() {
        return false;
    }
    let mut k: usize = 0;
    while k < p.len()
        invariant
            i + p.len() <= v.len(),
            k <= p@.len(),
            forall|j: int| 0 <= j < k ==> v@[i + j] == p@[j],
        decreases p@.len() - k,
    {
        if v[i + k] != p[k] {
            assert(v@.subrange(i as int, i + p@.len())[k as int] != p@[k as int]);
            return false;
        }
        k += 1;
    }
    assert(v@.subrange(i as int, i + p@.len()) =~= p@);
    true
}

/// `v.find(p)`.
pub fn find_exec(v: &[char], p: &[char]) -> (r: Option<usize>)
    ensures
        r matches Some(i) ==> find(v@, p@) == Some(i as int) && is_first_at(v@, p@, i as int),
        r is None ==> find(v@, p@) is None && !contains(v@, p@),
{
    let mut i: usize = 0;
    while i < v.len()
        invariant
            i <= v@.len(),
            forall|j: int| 0 <= j < i ==> !occurs_at(v@, p@, j),
        decreases v@.len() - i,
    {
        if occurs_at_exec(v, p, i) {
            proof {
                lemma_first_unique(v@, p@, i as int);
            }
            return Some(i);
        }
        i += 1;
    }
    if occurs_at_exec(v, p, i) {
        proof {
            lemma_first_unique(v@, p@, i as int);
        }
        return Some(i);
    }

    assert forall|j: int| !occurs_at(v@, p@, j) by {
        if 0 <= j <= i {
        }
    }
    None
}

/// `v.contains(p)`.
pub fn contains_exec(v: &[char], p: &[char]) -> (r: bool)
    ensures
        r == contains(v@, p@),
{
    match find_exec(v, p) {
        Some(i) => true,
        None => false,
    }
}

/// `v.strip_prefix(p)`.
pub fn strip_prefix_exec(v: &[char], p: &[char]) -> (r: Option<Vec<char>>)
    ensures
        opt_chars(r) == strip_prefix(v@, p@),
{
    if occurs_at_exec(v, p, 0) {
        Some(slice_chars(v, p.len(), v.len()))
    } else {
        None
    }
}

/// `v.split_once(p)`.
pub fn split_once_exec(v: &[char], p: &[char]) -> (r: Option<(Vec<char>, Vec<char>)>)
    ensures
        match r {
            Some((a, b)) => split_once(v@, p@) == Some((a@, b@)),
            None => split_once(v@, p@) is None,
        },
{
    match find_exec(v, p) {
        Some(i) => {
            assert(i + p@.len() <= v@.len());
            assert(i + p.len() <= v.len());
            let a = slice_chars(v, 0, i);
            let b = slice_chars(v, i + p.len(), v.len());
            assert(a@ =~= v@.take(i as int));
            assert(b@ =~= v@.skip(i + p@.len()));
            Some((a, b))
        },
        None => None,
    }
}

/// `v.split(p).next().unwrap()`.
pub fn before_first_exec(v: &[char], p: &[char]) -> (r: Vec<char>)
    ensures
        r@ == before_first(v@, p@),
{
    match find_exec(v, p) {
        Some(i) => {
            let a = slice_chars(v, 0, i);
            assert(a@ =~= v@.take(i as int));
            a
        },
        None => slice_chars(v, 0, v.len()),
    }
}

/// `v.split(p).nth(1)`.
pub fn second_piece_exec(v: &[char], p: &[char]) -> (r: Option<Vec<char>>)
    ensures
        opt_chars(r) == second_piece(v@, p@),
{
    match split_once_exec(v, p) {
        Some((_, rest)) => Some(before_first_exec(&rest, p)),
        None => None,
    }
}

/// Whether two character sequences are equal.
pub fn chars_eq(a: &[char], b: &[char]) -> (r: bool)
    ensures
        r == (a@ == b@),
{
    if a.len() != b.len() {
        return false;
    }
    let mut i: usize = 0;
    while i < a.len()
        invariant
            a@.len() == b@.len(),
            i <= a@.len(),
            forall|j: int| 0 <= j < i ==> a@[j] == b@[j],
        decreases a@.len() - i,
    {
        if a[i] != b[i] {
            return false;
        }
        i += 1;
    }
    assert(a@ =~= b@);
    true
}


/// The pieces of `s.split('\n')`; there is always at least one.
pub open spec fn nl_pieces(s: Seq<char>) -> Seq<Seq<char>>
    decreases s.len(),
{
    if s.len() == 0 {
        seq![Seq::<char>::empty()]
    } else {
        let ps = nl_pieces(s.drop_last());
        if s.last() == '\n' {
            ps.push(Seq::<char>::empty())
        } else {
            ps.update(ps.len() - 1, ps.last().push(s.last()))
        }
    }
}

/// One trailing carriage return removed.
pub open spec fn strip_cr(l: Seq<char>) -> Seq<char> {
    if l.len() > 0 && l.last() == '\r' {
        l.drop_last()
    } else {
        l
    }
}

/// `str::lines`: the pieces between newlines, a final empty piece dropped,
/// and the `\r` of a `\r\n` ending removed.
pub open spec fn lines(s: Seq<char>) -> Seq<Seq<char>> {
    let ps = nl_pieces(s);
    let n = if ps.last().len() == 0 {
        ps.len() - 1
    } else {
        ps.len() as int
    };
    Seq::new(n as nat, |k: int| if k + 1 < ps.len() { strip_cr(ps[k]) } else { ps[k] })
}

pub proof fn lemma_nl_pieces_len(s: Seq<char>)
    ensures
        nl_pieces(s).len() >= 1,
    decreases s.len(),
{
    if s.len() > 0 {
        lemma_nl_pieces_len(s.drop_last());
    }
}

/// Splitting at newlines is piecewise: the pieces of two texts joined by a
/// newline are the pieces of the first followed by those of the second.
pub proof fn lemma_nl_pieces_concat(a: Seq<char>, b: Seq<char>)
    ensures
        nl_pieces(a + seq!['\n'] + b) == nl_pieces(a) + nl_pieces(b),
    decreases b.len(),
{
    let s = a + seq!['\n'] + b;
    if b.len() == 0 {
        assert(s.drop_last() =~= a);
        assert(nl_pieces(a) + nl_pieces(b) =~= nl_pieces(a).push(Seq::<char>::empty()));
    } else {
        assert(s.drop_last() =~= a + seq!['\n'] + b.drop_last());
        lemma_nl_pieces_concat(a, b.drop_last());
        lemma_nl_pieces_len(b.drop_last());
        let pa = nl_pieces(a);
        let q = nl_pieces(b.drop_last());
        if b.last() == '\n' {
            assert((pa + q).push(Seq::<char>::empty()) =~= pa + q.push(Seq::<char>::empty()));
        } else {
            let c = b.last();
            assert((pa + q).update((pa + q).len() - 1, (pa + q).last().push(c)) =~= pa + q.update(
                q.len() - 1,
                q.last().push(c),
            ));
        }
    }
}

proof fn lemma_trim_start_push(y: Seq<char>, c: char)
    ensures
        trim_start(y.push(c)) == if trim_start(y).len() == 0 {
            if is_ws(c) {
                Seq::<char>::empty()
            } else {
                seq![c]
            }
        } else {
            trim_start(y).push(c)
        },
    decreases y.len(),
{
    if y.len() == 0 {
        assert(y.push(c) =~= seq![c]);
        assert(seq![c].drop_first() =~= Seq::<char>::empty());
        assert(trim_start(Seq::<char>::empty()) == Seq::<char>::empty());
        assert(trim_start(y) == y);
    } else if is_ws(y[0]) {
        assert(y.push(c)[0] == y[0]);
        assert(y.push(c).drop_first() =~= y.drop_first().push(c));
        lemma_trim_start_push(y.drop_first(), c);
    } else {
        assert(y.push(c)[0] == y[0]);
    }
}

/// A trailing carriage return does not survive trimming.
pub proof fn lemma_trim_strip_cr(x: Seq<char>)
    ensures
        trim(strip_cr(x)) == trim(x),
{
    if x.len() > 0 && x.last() == '\r' {
        let y = x.drop_last();
        assert(y.push('\r') =~= x);
        lemma_trim_start_push(y, '\r');
        let t = trim_start(y);
        if t.len() > 0 {
            assert(t.push('\r').drop_last() =~= t);
        }
    }
}

fn strip_cr_exec(l: Vec<char>) -> (r: Vec<char>)
    ensures
        r@ == strip_cr(l@),
{
    let mut l = l;
    if l.len() > 0 && l[l.len() - 1] == '\r' {
        l.pop();
    }
    l
}

/// `str::lines`, on characters.
pub fn lines_exec(v: &[char]) -> (r: Vec<Vec<char>>)
    ensures
        r@.len() == lines(v@).len(),
        forall|k: int| 0 <= k < r@.len() ==> #[trigger] r@[k]@ == lines(v@)[k],
{
    let mut done: Vec<Vec<char>> = Vec::new();
    let mut cur: Vec<char> = Vec::new();
    let mut i: usize = 0;
    assert(v@.take(0) =~= Seq::<char>::empty());
    while i < v.len()
        invariant
            i <= v@.len(),
            nl_pieces(v@.take(i as int)).len() == done@.len() + 1,
            nl_pieces(v@.take(i as int)).last() == cur@,
            forall|k: int|
                0 <= k < done@.len() ==> #[trigger] done@[k]@ == strip_cr(
                    nl_pieces(v@.take(i as int))[k],
                ),
        decreases v@.len() - i,
    {
        let ghost before = v@.take(i as int);
        assert(v@.take(i + 1).drop_last() =~= before);
        if v[i] == '\n' {
            let line = strip_cr_exec(cur);
            done.push(line);
            cur = Vec::new();
        } else {
            cur.push(v[i]);
        }
        i += 1;
    }
    assert(v@.take(v@.len() as int) =~= v@);
    proof {
        lemma_nl_pieces_len(v@);
    }
    if cur.len() > 0 {
        done.push(cur);
    }
    done
}


/// The characters of `t` up to its first whitespace.
pub open spec fn take_word(t: Seq<char>) -> Seq<char>
    decreases t.len(),
{
    if t.len() == 0 || is_ws(t[0]) {
        Seq::<char>::empty()
    } else {
        seq![t[0]] + take_word(t.drop_first())
    }
}

/// `s.split_whitespace().next()`.
pub open spec fn first_word(s: Seq<char>) -> Option<Seq<char>> {
    let t = trim_start(s);
    if t.len() == 0 {
        None
    } else {
        Some(take_word(t))
    }
}

proof fn lemma_take_word_prefix(t: Seq<char>, k: int)
    requires
        0 <= k <= t.len(),
        forall|j: int| 0 <= j < k ==> !is_ws(t[j]),
        k == t.len() || is_ws(t[k]),
    ensures
        take_word(t) == t.take(k),
    decreases t.len(),
{
    if t.len() == 0 || is_ws(t[0]) {
        assert(t.take(k) =~= Seq::<char>::empty());
    } else {
        lemma_take_word_prefix(t.drop_first(), k - 1);
        assert(seq![t[0]] + t.drop_first().take(k - 1) =~= t.take(k));
    }
}

/// `v.split_whitespace().next()`.
pub fn first_word_exec(v: &[char]) -> (r: Option<Vec<char>>)
    ensures
        opt_chars(r) == first_word(v@),
{
    let t = trim_start_exec(v);
    if t.len() == 0 {
        return None;
    }
    let mut k: usize = 0;
    while k < t.len() && !is_ws_exec(t[k])
        invariant
            k <= t@.len(),
            forall|j: int| 0 <= j < k ==> !is_ws(t@[j]),
        decreases t@.len() - k,
    {
        k += 1;
    }
    proof {
        lemma_take_word_prefix(t@, k as int);
    }
    let w = slice_chars(&t, 0, k);
    assert(w@ =~= t@.take(k as int));
    Some(w)
}

/// `str::trim_start`, on characters.
pub fn trim_start_exec(v: &[char]) -> (r: Vec<char>)
    ensures
        r@ == trim_start(v@),
{
    let n = v.len();
    let mut a: usize = 0;
    assert(v@.skip(0) =~= v@);
    while a < n && is_ws_exec(v[a])
        invariant
            a <= n == v@.len(),
            trim_start(v@) == trim_start(v@.skip(a as int)),
        decreases n - a,
    {
        proof {
            lemma_trim_start_skip(v@, a as int);
        }
        a += 1;
    }
    assert(v@.skip(a as int) =~= v@.subrange(a as int, n as int));
    slice_chars(v, a, n)
}

/// Every character is an ASCII letter or digit.
pub open spec fn all_ascii_alnum(s: Seq<char>) -> bool {
    forall|i: int|
        0 <= i < s.len() ==> {
            let c = #[trigger] s[i];
            ('a' <= c && c <= 'z') || ('A' <= c && c <= 'Z') || ('0' <= c && c <= '9')
        }
}

/// Every character is an ASCII digit.
pub open spec fn all_ascii_digits(s: Seq<char>) -> bool {
    forall|i: int| 0 <= i < s.len() ==> '0' <= #[trigger] s[i] && s[i] <= '9'
}

pub fn all_ascii_alnum_exec(v: &[char]) -> (r: bool)
    ensures
        r == all_ascii_alnum(v@),
{
    let mut i: usize = 0;
    while i < v.len()
        invariant
            i <= v@.len(),
            all_ascii_alnum(v@.take(i as int)),
        decreases v@.len() - i,
    {
        let c = v[i];
        if !(('a' <= c && c <= 'z') || ('A' <= c && c <= 'Z') || ('0' <= c && c <= '9')) {
            assert(v@[i as int] == c);
            return false;
        }
        i += 1;
        assert forall|j: int| 0 <= j < i implies {
            let d = #[trigger] v@.take(i as int)[j];
            ('a' <= d && d <= 'z') || ('A' <= d && d <= 'Z') || ('0' <= d && d <= '9')
        } by {
            if j < i - 1 {
                assert(v@.take(i as int)[j] == v@.take(i - 1)[j]);
            }
        }
    }
    assert(v@.take(v@.len() as int) =~= v@);
    true
}

pub fn all_ascii_digits_exec(v: &[char]) -> (r: bool)
    ensures
        r == all_ascii_digits(v@),
{
    let mut i: usize = 0;
    while i < v.len()
        invariant
            i <= v@.len(),
            forall|j: int| 0 <= j < i ==> '0' <= #[trigger] v@[j] && v@[j] <= '9',
        decreases v@.len() - i,
    {
        let c = v[i];
        if !('0' <= c && c <= '9') {
            return false;
        }
        i += 1;
    }
    true
}

/// The decimal digit for `d < 10`.
pub open spec fn digit(d: nat) -> char {
    (('0' as u32) + d) as char
}

/// `u64` as `Display` prints it: decimal digits, no leading zeros.
pub open spec fn decimal(n: nat) -> Seq<char>
    decreases n,
{
    if n < 10 {
        seq![digit(n)]
    } else {
        decimal(n / 10).push(digit(n % 10))
    }
}

pub fn decimal_exec(n: u64) -> (r: Vec<char>)
    ensures
        r@ == decimal(n as nat),
    decreases n,
{
    if n < 10 {
        let c = ((n as u8) + 48u8) as char;
        assert(c == digit(n as nat));
        let mut r: Vec<char> = Vec::new();
        r.push(c);
        assert(r@ =~= seq![digit(n as nat)]);
        r
    } else {
        let mut r = decimal_exec(n / 10);
        let d = n % 10;
        let c = ((d as u8) + 48u8) as char;
        assert(c == digit((n % 10) as nat));
        r.push(c);
        r
    }
}

/// `bool` as `Display` prints it.
pub open spec fn bool_text(b: bool) -> Seq<char> {
    if b {
        "true"@
    } else {
        "false"@
    }
}

/// The text of a `str` as `Debug` prints it (quoted and escaped).
pub uninterp spec fn debug_str(s: Seq<char>) -> Seq<char>;

/// `<str as Debug>::fmt`, the quoted and escaped form of `s` that `{:?}`
/// prints; its result is named by `debug_str` and depends on `s` alone.
#[verifier::external_body]
pub(crate) fn debug_str_exec(s: &str) -> (r: String)
    ensures
        r@ == debug_str(s@),
{
    format!("{:?}", s)
}

} // verus!
