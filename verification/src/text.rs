//! Character-sequence helpers shared by the parsers: whitespace, trimming,
//! ASCII case folding, prefix tests and conversions between `str` and `Vec<char>`.
use vstd::prelude::*;
use vstd::std_specs::iter::IteratorSpec;
use vstd::utf8::{decode_utf8, valid_utf8};

verus! {

broadcast use vstd::string::group_string_axioms;

/// Every character of `s` is ASCII.
pub open spec fn ascii(s: Seq<char>) -> bool {
    forall|i: int| 0 <= i < s.len() ==> '\0' <= #[trigger] s[i] <= '\u{7f}'
}

/// The characters of a string slice, in order.
pub fn chars_of(s: &str) -> (v: Vec<char>)
    ensures
        v@ == s@,
{
    let mut v: Vec<char> = Vec::new();
    for c in iter: s.chars()
        invariant
            iter.seq() == s@,
            v@ == s@.take(iter.index() as int),
    {
        v.push(c);
    }
    v
}

/// A `String` holding exactly the given characters.
#[verifier::external_body]
pub fn string_of(v: &Vec<char>) -> (s: String)
    ensures
        s@ == v@,
{
    v.iter().collect()
}

/// `char::is_whitespace`: the Unicode `White_Space` property.
pub open spec fn is_ws(c: char) -> bool {
    let u = c as u32;
    u == 0x20 || (0x09 <= u && u <= 0x0d) || u == 0x85 || u == 0xa0 || u == 0x1680 || (0x2000
        <= u && u <= 0x200a) || u == 0x2028 || u == 0x2029 || u == 0x202f || u == 0x205f || u
        == 0x3000
}

pub fn is_ws_exec(c: char) -> (r: bool)
    ensures
        r == is_ws(c),
{
    let u = c as u32;
    u == 0x20 || (0x09 <= u && u <= 0x0d) || u == 0x85 || u == 0xa0 || u == 0x1680 || (0x2000
        <= u && u <= 0x200a) || u == 0x2028 || u == 0x2029 || u == 0x202f || u == 0x205f || u
        == 0x3000
}

/// `str::trim_start`: drops leading whitespace.
pub open spec fn trim_start(s: Seq<char>) -> Seq<char>
    decreases s.len(),
{
    if s.len() > 0 && is_ws(s[0]) {
        trim_start(s.subrange(1, s.len() as int))
    } else {
        s
    }
}

/// `str::trim_end`: drops trailing whitespace.
pub open spec fn trim_end(s: Seq<char>) -> Seq<char>
    decreases s.len(),
{
    if s.len() > 0 && is_ws(s[s.len() - 1]) {
        trim_end(s.subrange(0, s.len() - 1))
    } else {
        s
    }
}

/// `str::trim`: drops leading and trailing whitespace.
pub open spec fn trim(s: Seq<char>) -> Seq<char> {
    trim_end(trim_start(s))
}

pub proof fn lemma_trim_start_bounds(s: Seq<char>)
    ensures
        trim_start(s).len() <= s.len(),
        trim_start(s) == s.subrange(s.len() - trim_start(s).len(), s.len() as int),
    decreases s.len(),
{
    if s.len() > 0 && is_ws(s[0]) {
        lemma_trim_start_bounds(s.subrange(1, s.len() as int));
    }
}

/// A copy of `v[lo..hi]`.
pub fn sub_vec(v: &Vec<char>, lo: usize, hi: usize) -> (r: Vec<char>)
    requires
        lo <= hi <= v.len(),
    ensures
        r@ == v@.subrange(lo as int, hi as int),
{
    let mut r: Vec<char> = Vec::new();
    let mut i = lo;
    while i < hi
        invariant
            lo <= i <= hi <= v.len(),
            r@ == v@.subrange(lo as int, i as int),
        decreases hi - i,
    {
        r.push(v[i]);
        i += 1;
    }
    r
}

/// Bounds of `trim(v[lo..hi])` inside `v`.
pub fn trim_range(v: &Vec<char>, lo: usize, hi: usize) -> (r: (usize, usize))
    requires
        lo <= hi <= v.len(),
    ensures
        lo <= r.0 <= r.1 <= hi,
        v@.subrange(r.0 as int, r.1 as int) == trim(v@.subrange(lo as int, hi as int)),
        v@.subrange(r.0 as int, hi as int) == trim_start(v@.subrange(lo as int, hi as int)),
{
    let mut a = lo;
    while a < hi && is_ws_exec(v[a])
        invariant
            lo <= a <= hi <= v.len(),
            trim_start(v@.subrange(lo as int, hi as int)) == trim_start(
                v@.subrange(a as int, hi as int),
            ),
        decreases hi - a,
    {
        assert(v@.subrange(a as int, hi as int).subrange(1, hi - a) =~= v@.subrange(
            a + 1,
            hi as int,
        ));
        a += 1;
    }
    let mut b = hi;
    while b > a && is_ws_exec(v[b - 1])
        invariant
            lo <= a <= b <= hi <= v.len(),
            trim_end(v@.subrange(a as int, hi as int)) == trim_end(v@.subrange(a as int, b as int)),
        decreases b - a,
    {
        assert(v@.subrange(a as int, b as int).subrange(0, b - a - 1) =~= v@.subrange(
            a as int,
            b - 1,
        ));
        b -= 1;
    }
    (a, b)
}

/// `trim_end(v)` as a new vector.
pub fn trim_end_vec(v: &Vec<char>) -> (r: Vec<char>)
    ensures
        r@ == trim_end(v@),
{
    let mut b = v.len();
    assert(v@.subrange(0, b as int) =~= v@);
    while b > 0 && is_ws_exec(v[b - 1])
        invariant
            b <= v.len(),
            trim_end(v@) == trim_end(v@.subrange(0, b as int)),
        decreases b,
    {
        assert(v@.subrange(0, b as int).subrange(0, b - 1) =~= v@.subrange(0, b - 1));
        b -= 1;
    }
    sub_vec(v, 0, b)
}

/// `trim(v)` as a new vector.
pub fn trim_vec(v: &Vec<char>) -> (r: Vec<char>)
    ensures
        r@ == trim(v@),
        ascii(v@) ==> ascii(r@),
{
    let (a, b) = trim_range(v, 0, v.len());
    assert(v@.subrange(0, v.len() as int) =~= v@);
    let r = sub_vec(v, a, b);
    assert(forall|i: int| 0 <= i < r@.len() ==> r@[i] == v@[a + i]);
    r
}

/// `v` begins with `tok`.
pub fn starts_with_exec(v: &Vec<char>, tok: &Vec<char>) -> (r: bool)
    ensures
        r == starts_with(v@, tok@),
{
    occurs_at_exec(v, 0, tok)
}

/// ASCII upper-case letters mapped to lower case; every other character kept.
pub open spec fn lower_char(c: char) -> char {
    if 'A' <= c && c <= 'Z' {
        ((c as u32) + 32) as char
    } else {
        c
    }
}

pub open spec fn lower_seq(s: Seq<char>) -> Seq<char> {
    s.map_values(|c: char| lower_char(c))
}

/// Lower-cases an ASCII text; on ASCII input this is what `str::to_lowercase` gives.
pub fn lower_vec(v: &Vec<char>) -> (r: Vec<char>)
    ensures
        r@ == lower_seq(v@),
{
    let mut r: Vec<char> = Vec::new();
    let mut i: usize = 0;
    while i < v.len()
        invariant
            i <= v.len(),
            r@ == lower_seq(v@.subrange(0, i as int)),
        decreases v.len() - i,
    {
        let c = v[i];
        let d = if 'A' <= c && c <= 'Z' {
            ((c as u8) + 32) as char
        } else {
            c
        };
        assert(d == lower_char(c));
        r.push(d);
        assert(lower_seq(v@.subrange(0, i + 1)) =~= lower_seq(v@.subrange(0, i as int)).push(
            lower_char(c),
        ));
        i += 1;
    }
    assert(v@.subrange(0, v.len() as int) =~= v@);
    r
}

/// `tok` occurs in `s` at position `i`.
pub open spec fn occurs_at(s: Seq<char>, i: int, tok: Seq<char>) -> bool {
    0 <= i && i + tok.len() <= s.len() && s.subrange(i, i + tok.len()) == tok
}

pub fn occurs_at_exec(v: &Vec<char>, i: usize, tok: &Vec<char>) -> (r: bool)
    ensures
        r == occurs_at(v@, i as int, tok@),
{
    if i > v.len() || tok.len() > v.len() - i {
        return false;
    }
    let mut k: usize = 0;
    while k < tok.len()
        invariant
            i + tok.len() <= v.len(),
            k <= tok.len(),
            forall|j: int| 0 <= j < k ==> v@[i + j] == tok@[j],
        decreases tok.len() - k,
    {
        if v[i + k] != tok[k] {
            assert(v@.subrange(i as int, i + tok.len())[k as int] != tok@[k as int]);
            return false;
        }
        k += 1;
    }
    assert(v@.subrange(i as int, i + tok.len()) =~= tok@);
    true
}

/// Joins the pieces with `sep` between consecutive ones.
pub open spec fn join(parts: Seq<Seq<char>>, sep: Seq<char>) -> Seq<char>
    decreases parts.len(),
{
    if parts.len() == 0 {
        Seq::empty()
    } else if parts.len() == 1 {
        parts[0]
    } else {
        join(parts.drop_last(), sep) + sep + parts.last()
    }
}

pub fn join_exec(parts: &Vec<Vec<char>>, sep: &Vec<char>) -> (r: Vec<char>)
    ensures
        r@ == join(parts@.map_values(|p: Vec<char>| p@), sep@),
{
    let ghost views = parts@.map_values(|p: Vec<char>| p@);
    let mut r: Vec<char> = Vec::new();
    let mut i: usize = 0;
    while i < parts.len()
        invariant
            i <= parts.len(),
            views == parts@.map_values(|p: Vec<char>| p@),
            r@ == join(views.subrange(0, i as int), sep@),
        decreases parts.len() - i,
    {
        if i > 0 {
            append_vec(&mut r, sep);
        }
        append_vec(&mut r, &parts[i]);
        assert(views.subrange(0, i + 1).drop_last() =~= views.subrange(0, i as int));
        i += 1;
    }
    assert(views.subrange(0, parts.len() as int) =~= views);
    r
}

pub fn append_vec(r: &mut Vec<char>, s: &Vec<char>)
    ensures
        final(r)@ == old(r)@ + s@,
{
    let mut k: usize = 0;
    while k < s.len()
        invariant
            k <= s.len(),
            r@ == old(r)@ + s@.subrange(0, k as int),
        decreases s.len() - k,
    {
        r.push(s[k]);
        assert(s@.subrange(0, k + 1) =~= s@.subrange(0, k as int).push(s@[k as int]));
        k += 1;
    }
    assert(s@.subrange(0, s.len() as int) =~= s@);
}

/// `p` begins with `q`.
pub open spec fn starts_with(p: Seq<char>, q: Seq<char>) -> bool {
    q.len() <= p.len() && p.subrange(0, q.len() as int) == q
}

/// `v` holds `c`.
pub fn contains_char(v: &Vec<char>, c: char) -> (r: bool)
    ensures
        r == v@.contains(c),
{
    let mut i: usize = 0;
    while i < v.len()
        invariant
            i <= v.len(),
            forall|j: int| 0 <= j < i ==> v@[j] != c,
        decreases v.len() - i,
    {
        if v[i] == c {
            assert(v@[i as int] == c);
            return true;
        }
        i += 1;
    }
    false
}

/// `str::split` on one character: the pieces between separators (one more
/// piece than there are separators).
pub open spec fn split_char(s: Seq<char>, c: char) -> Seq<Seq<char>>
    decreases s.len(),
{
    if s.len() == 0 {
        seq![Seq::empty()]
    } else {
        let r = split_char(s.drop_last(), c);
        if s.last() == c {
            r.push(Seq::empty())
        } else {
            r.update(r.len() - 1, r.last().push(s.last()))
        }
    }
}

pub proof fn lemma_split_char_len(s: Seq<char>, c: char)
    ensures
        split_char(s, c).len() >= 1,
    decreases s.len(),
{
    if s.len() > 0 {
        lemma_split_char_len(s.drop_last(), c);
    }
}

pub proof fn lemma_split_char_ascii(s: Seq<char>, c: char)
    requires
        ascii(s),
    ensures
        forall|j: int| 0 <= j < split_char(s, c).len() ==> ascii(#[trigger] split_char(s, c)[j]),
    decreases s.len(),
{
    if s.len() > 0 {
        lemma_split_char_ascii(s.drop_last(), c);
        lemma_split_char_len(s.drop_last(), c);
        let r = split_char(s.drop_last(), c);
        assert(ascii(r.last()));
        assert(ascii(r.last().push(s.last())));
    }
}

pub fn split_char_exec(v: &Vec<char>, c: char) -> (r: Vec<Vec<char>>)
    ensures
        vecs_view(r@) == split_char(v@, c),
{
    let mut done: Vec<Vec<char>> = Vec::new();
    let mut cur: Vec<char> = Vec::new();
    let mut i: usize = 0;
    while i < v.len()
        invariant
            i <= v.len(),
            split_char(v@.subrange(0, i as int), c) == vecs_view(done@).push(cur@),
        decreases v.len() - i,
    {
        assert(v@.subrange(0, i + 1).drop_last() =~= v@.subrange(0, i as int));
        proof {
            lemma_split_char_len(v@.subrange(0, i as int), c);
        }
        if v[i] == c {
            let ghost before = vecs_view(done@);
            done.push(cur);
            cur = Vec::new();
            assert(vecs_view(done@) =~= before.push(vecs_view(done@).last()));
            assert(split_char(v@.subrange(0, i + 1), c) =~= vecs_view(done@).push(cur@));
        } else {
            let ghost pc = cur@;
            cur.push(v[i]);
            assert(split_char(v@.subrange(0, i + 1), c) =~= vecs_view(done@).push(cur@));
        }
        i += 1;
    }
    assert(v@.subrange(0, v.len() as int) =~= v@);
    let ghost before = vecs_view(done@);
    done.push(cur);
    assert(vecs_view(done@) =~= before.push(vecs_view(done@).last()));
    done
}

/// First position at or after `i` holding `c`.
pub open spec fn find_char_from(l: Seq<char>, c: char, i: int) -> Option<int>
    decreases l.len() - i,
{
    if i < 0 || i >= l.len() {
        None
    } else if l[i] == c {
        Some(i)
    } else {
        find_char_from(l, c, i + 1)
    }
}

pub proof fn lemma_find_char_from(l: Seq<char>, c: char, i: int)
    requires
        0 <= i,
    ensures
        find_char_from(l, c, i) matches Some(k) ==> i <= k < l.len() && l[k] == c,
    decreases l.len() - i,
{
    if i < l.len() && l[i] != c {
        lemma_find_char_from(l, c, i + 1);
    }
}

pub fn find_char_exec(l: &Vec<char>, c: char, i: usize) -> (r: Option<usize>)
    ensures
        match find_char_from(l@, c, i as int) {
            Some(k) => r == Some(k as usize) && i <= k < l.len(),
            None => r is None,
        },
        match r {
            Some(k) => find_char_from(l@, c, i as int) == Some(k as int) && i <= k < l.len(),
            None => find_char_from(l@, c, i as int) is None,
        },
{
    proof {
        lemma_find_char_from(l@, c, i as int);
    }
    let mut k = i;
    while k < l.len()
        invariant
            i <= k,
            find_char_from(l@, c, i as int) == find_char_from(l@, c, k as int),
        decreases l.len() - k,
    {
        if l[k] == c {
            return Some(k);
        }
        k += 1;
    }
    None
}

/// First position at or after `i` where `tok` occurs in `s`.
pub open spec fn find_sub_from(s: Seq<char>, tok: Seq<char>, i: int) -> Option<int>
    decreases s.len() + 1 - i,
{
    if i < 0 || i + tok.len() > s.len() {
        None
    } else if occurs_at(s, i, tok) {
        Some(i)
    } else {
        find_sub_from(s, tok, i + 1)
    }
}

pub proof fn lemma_find_sub_from(s: Seq<char>, tok: Seq<char>, i: int)
    requires
        0 <= i,
    ensures
        find_sub_from(s, tok, i) matches Some(k) ==> i <= k && occurs_at(s, k, tok),
        find_sub_from(s, tok, i) is None ==> forall|k: int| i <= k ==> !occurs_at(s, k, tok),
    decreases s.len() + 1 - i,
{
    if i + tok.len() <= s.len() && !occurs_at(s, i, tok) {
        lemma_find_sub_from(s, tok, i + 1);
    }
}

pub fn find_sub_exec(v: &Vec<char>, tok: &Vec<char>) -> (r: Option<usize>)
    ensures
        match find_sub_from(v@, tok@, 0) {
            Some(k) => r == Some(k as usize) && 0 <= k && k + tok@.len() <= v@.len(),
            None => r is None,
        },
        match r {
            Some(k) => find_sub_from(v@, tok@, 0) == Some(k as int) && k + tok@.len() <= v@.len(),
            None => find_sub_from(v@, tok@, 0) is None,
        },
{
    proof {
        lemma_find_sub_from(v@, tok@, 0);
    }
    if tok.len() > v.len() {
        return None;
    }
    let last = v.len() - tok.len();
    let mut k: usize = 0;
    loop
        invariant
            tok.len() <= v.len(),
            last == v.len() - tok.len(),
            k <= last,
            find_sub_from(v@, tok@, 0) == find_sub_from(v@, tok@, k as int),
        decreases last - k,
    {
        if occurs_at_exec(v, k, tok) {
            return Some(k);
        }
        if k == last {
            assert(find_sub_from(v@, tok@, k + 1) is None);
            return None;
        }
        k += 1;
    }
}

/// Last position holding `c`.
pub open spec fn rfind_char(s: Seq<char>, c: char) -> Option<int>
    decreases s.len(),
{
    if s.len() == 0 {
        None
    } else if s.last() == c {
        Some(s.len() - 1)
    } else {
        rfind_char(s.drop_last(), c)
    }
}

pub proof fn lemma_rfind_char(s: Seq<char>, c: char)
    ensures
        rfind_char(s, c) matches Some(k) ==> 0 <= k < s.len(),
    decreases s.len(),
{
    if s.len() > 0 && s.last() != c {
        lemma_rfind_char(s.drop_last(), c);
    }
}

pub fn rfind_char_exec(v: &Vec<char>, c: char) -> (r: Option<usize>)
    ensures
        match rfind_char(v@, c) {
            Some(k) => r == Some(k as usize) && 0 <= k < v@.len(),
            None => r is None,
        },
        match r {
            Some(k) => rfind_char(v@, c) == Some(k as int) && k < v@.len(),
            None => rfind_char(v@, c) is None,
        },
{
    proof {
        lemma_rfind_char(v@, c);
    }
    let mut k: usize = v.len();
    assert(v@.subrange(0, k as int) =~= v@);
    while k > 0
        invariant
            k <= v.len(),
            rfind_char(v@, c) == rfind_char(v@.subrange(0, k as int), c),
        decreases k,
    {
        assert(v@.subrange(0, k as int).drop_last() =~= v@.subrange(0, k - 1));
        if v[k - 1] == c {
            return Some(k - 1);
        }
        k -= 1;
    }
    None
}

/// A line without the `\r` of a `\r\n` ending.
pub open spec fn strip_cr(p: Seq<char>) -> Seq<char> {
    if p.len() > 0 && p.last() == '\r' {
        p.drop_last()
    } else {
        p
    }
}

/// `str::lines`: pieces between `\n` (a `\r` before the `\n` dropped), with
/// no piece after a final `\n`.
pub open spec fn lines_spec(text: Seq<char>) -> Seq<Seq<char>> {
    let ps = split_char(text, '\n');
    let body = ps.drop_last().map_values(|p: Seq<char>| strip_cr(p));
    if ps.last().len() == 0 {
        body
    } else {
        body.push(ps.last())
    }
}

pub fn lines_exec(text: &Vec<char>) -> (r: Vec<Vec<char>>)
    ensures
        vecs_view(r@) == lines_spec(text@),
        ascii(text@) ==> forall|i: int| 0 <= i < r@.len() ==> ascii(#[trigger] r@[i]@),
{
    let ps = split_char_exec(text, '\n');
    let ghost pv = vecs_view(ps@);
    proof {
        lemma_split_char_len(text@, '\n');
        if ascii(text@) {
            lemma_split_char_ascii(text@, '\n');
        }
    }
    let mut r: Vec<Vec<char>> = Vec::new();
    let mut i: usize = 0;
    while i + 1 < ps.len()
        invariant
            pv == vecs_view(ps@),
            ps.len() >= 1,
            i + 1 <= ps.len(),
            vecs_view(r@) == pv.drop_last().subrange(0, i as int).map_values(
                |p: Seq<char>| strip_cr(p),
            ),
            ascii(text@) ==> forall|j: int| 0 <= j < pv.len() ==> ascii(#[trigger] pv[j]),
            ascii(text@) ==> forall|j: int| 0 <= j < r@.len() ==> ascii(#[trigger] r@[j]@),
        decreases ps.len() - i,
    {
        let p = &ps[i];
        assert(pv[i as int] == p@);
        let q = if p.len() > 0 && p[p.len() - 1] == '\r' {
            sub_vec(p, 0, p.len() - 1)
        } else {
            sub_vec(p, 0, p.len())
        };
        assert(p@.subrange(0, p@.len() as int) =~= p@);
        assert(q@ == strip_cr(p@));
        assert(ascii(text@) ==> ascii(q@)) by {
            if ascii(text@) {
                assert(ascii(pv[i as int]));
                assert(forall|j: int| 0 <= j < q@.len() ==> q@[j] == p@[j]);
            }
        }
        let ghost before = vecs_view(r@);
        r.push(q);
        assert(vecs_view(r@) =~= before.push(q@));
        assert(pv.drop_last().subrange(0, i + 1).map_values(|p: Seq<char>| strip_cr(p))
            =~= pv.drop_last().subrange(0, i as int).map_values(|p: Seq<char>| strip_cr(p)).push(
            strip_cr(pv[i as int]),
        ));
        i += 1;
    }
    assert(pv.drop_last().subrange(0, i as int) =~= pv.drop_last());
    let last = &ps[ps.len() - 1];
    assert(pv.last() == last@);
    if last.len() > 0 {
        let ghost before = vecs_view(r@);
        r.push(sub_vec(last, 0, last.len()));
        assert(last@.subrange(0, last@.len() as int) =~= last@);
        assert(vecs_view(r@) =~= before.push(last@));
        assert(ascii(text@) ==> ascii(pv[pv.len() - 1]));
    }
    r
}

/// The characters of each vector.
pub open spec fn vecs_view(v: Seq<Vec<char>>) -> Seq<Seq<char>> {
    v.map_values(|s: Vec<char>| s@)
}

/// Exact equality of two character vectors.
pub fn eq_vec(a: &Vec<char>, b: &Vec<char>) -> (r: bool)
    ensures
        r == (a@ == b@),
{
    if a.len() != b.len() {
        return false;
    }
    let mut i: usize = 0;
    while i < a.len()
        invariant
            a.len() == b.len(),
            i <= a.len(),
            forall|j: int| 0 <= j < i ==> a@[j] == b@[j],
        decreases a.len() - i,
    {
        if a[i] != b[i] {
            return false;
        }
        i += 1;
    }
    assert(a@ =~= b@);
    true
}

/// `Path::join` on Unix for a path `rel`: an absolute `rel` replaces the
/// base; otherwise a `/` separates the two unless the base is empty or
/// already ends with one.
pub open spec fn path_join(base: Seq<char>, rel: Seq<char>) -> Seq<char> {
    if rel.len() > 0 && rel[0] == '/' {
        rel
    } else if base.len() == 0 || base.last() == '/' {
        base + rel
    } else {
        base + "/"@ + rel
    }
}

/// Joins two paths (see `path_join`).
pub fn join_path(base: &str, rel: &str) -> (r: String)
    ensures
        r@ == path_join(base@, rel@),
{
    let b = chars_of(base);
    let rv = chars_of(rel);
    if rv.len() > 0 && rv[0] == '/' {
        return string_of(&rv);
    }
    let mut out = b;
    if out.len() > 0 && out[out.len() - 1] != '/' {
        proof {
            reveal_strlit("/");
        }
        out.push('/');
        assert(out@ =~= base@ + "/"@);
    }
    append_vec(&mut out, &rv);
    string_of(&out)
}

/// What `str::to_lowercase` gives (Unicode lower-casing).
pub uninterp spec fn to_lowercase_result(s: Seq<char>) -> Seq<char>;

/// Calls `str::to_lowercase`. The result is named, not restated.
#[verifier::external_body]
pub(crate) fn to_lowercase(s: &str) -> (r: String)
    ensures
        r@ == to_lowercase_result(s@),
{
    s.to_lowercase()
}

/// What `Path::file_name` gives for a path: its last normal component.
pub uninterp spec fn file_name_result(path: Seq<char>) -> Option<Seq<char>>;

/// Calls `Path::file_name` on a path given as text. The result is named,
/// not restated.
#[verifier::external_body]
pub(crate) fn file_name(path: &str) -> (r: Option<String>)
    ensures
        match r {
            Some(s) => file_name_result(path@) == Some(s@),
            None => file_name_result(path@) is None,
        },
{
    std::path::Path::new(path).file_name().map(|s| s.to_string_lossy().to_string())
}

/// What `Path::file_stem` gives for a path: its file name without the
/// extension.
pub uninterp spec fn file_stem_result(path: Seq<char>) -> Option<Seq<char>>;

/// Calls `Path::file_stem` on a path given as text. The result is named,
/// not restated.
#[verifier::external_body]
pub(crate) fn file_stem(path: &str) -> (r: Option<String>)
    ensures
        match r {
            Some(s) => file_stem_result(path@) == Some(s@),
            None => file_stem_result(path@) is None,
        },
{
    std::path::Path::new(path).file_stem().map(|s| s.to_string_lossy().to_string())
}

/// What `Path::extension` gives for a path: its file name's extension.
pub uninterp spec fn extension_result(path: Seq<char>) -> Option<Seq<char>>;

/// Calls `Path::extension` on a path given as text. The result is named,
/// not restated.
#[verifier::external_body]
pub(crate) fn extension(path: &str) -> (r: Option<String>)
    ensures
        match r {
            Some(s) => extension_result(path@) == Some(s@),
            None => extension_result(path@) is None,
        },
{
    std::path::Path::new(path).extension().map(|s| s.to_string_lossy().to_string())
}

/// Drops leading copies of `c`.
pub open spec fn trim_start_char(s: Seq<char>, c: char) -> Seq<char>
    decreases s.len(),
{
    if s.len() > 0 && s[0] == c {
        trim_start_char(s.subrange(1, s.len() as int), c)
    } else {
        s
    }
}

/// Drops trailing copies of `c`.
pub open spec fn trim_end_char(s: Seq<char>, c: char) -> Seq<char>
    decreases s.len(),
{
    if s.len() > 0 && s.last() == c {
        trim_end_char(s.drop_last(), c)
    } else {
        s
    }
}

/// `str::trim_matches` with one character.
pub open spec fn trim_matches(s: Seq<char>, c: char) -> Seq<char> {
    trim_end_char(trim_start_char(s, c), c)
}

pub fn trim_matches_exec(v: &Vec<char>, c: char) -> (r: Vec<char>)
    ensures
        r@ == trim_matches(v@, c),
{
    let mut a: usize = 0;
    assert(v@.subrange(0, v.len() as int) =~= v@);
    while a < v.len() && v[a] == c
        invariant
            a <= v.len(),
            trim_start_char(v@, c) == trim_start_char(v@.subrange(a as int, v.len() as int), c),
        decreases v.len() - a,
    {
        assert(v@.subrange(a as int, v.len() as int).subrange(1, v.len() - a) =~= v@.subrange(
            a + 1,
            v.len() as int,
        ));
        a += 1;
    }
    let mut b: usize = v.len();
    while b > a && v[b - 1] == c
        invariant
            a <= b <= v.len(),
            trim_start_char(v@, c) == v@.subrange(a as int, v.len() as int),
            trim_end_char(v@.subrange(a as int, v.len() as int), c) == trim_end_char(
                v@.subrange(a as int, b as int),
                c,
            ),
        decreases b - a,
    {
        assert(v@.subrange(a as int, b as int).drop_last() =~= v@.subrange(a as int, b - 1));
        b -= 1;
    }
    sub_vec(v, a, b)
}

/// The decimal digits of `n`.
pub open spec fn dec(n: nat) -> Seq<char>
    decreases n,
{
    if n < 10 {
        seq![(48 + n) as char]
    } else {
        dec(n / 10).push((48 + n % 10) as char)
    }
}

pub fn dec_exec(n: usize) -> (r: Vec<char>)
    ensures
        r@ == dec(n as nat),
    decreases n,
{
    let d = (48u8 + (n % 10) as u8) as char;
    if n < 10 {
        let mut r: Vec<char> = Vec::new();
        r.push(d);
        r
    } else {
        let mut r = dec_exec(n / 10);
        r.push(d);
        r
    }
}

/// The decimal text of a signed number, as `Display` and `Debug` write it.
pub open spec fn int_text(n: int) -> Seq<char> {
    if n < 0 {
        "-"@ + dec((-n) as nat)
    } else {
        dec(n as nat)
    }
}

pub fn i32_text(n: i32) -> (r: Vec<char>)
    ensures
        r@ == int_text(n as int),
{
    if n < 0 {
        let m: usize = (0i64 - (n as i64)) as usize;
        let mut r = chars_of("-");
        append_vec(&mut r, &dec_exec(m));
        r
    } else {
        dec_exec(n as usize)
    }
}

/// `str::replace` with a non-empty pattern: every occurrence, scanning left
/// to right without overlaps, becomes `rep`.
pub open spec fn replace_all(s: Seq<char>, pat: Seq<char>, rep: Seq<char>) -> Seq<char>
    decreases s.len(),
{
    if pat.len() == 0 || s.len() < pat.len() {
        s
    } else if s.subrange(0, pat.len() as int) == pat {
        rep + replace_all(s.subrange(pat.len() as int, s.len() as int), pat, rep)
    } else {
        seq![s[0]] + replace_all(s.subrange(1, s.len() as int), pat, rep)
    }
}

pub fn replace_all_exec(s: &Vec<char>, pat: &Vec<char>, rep: &Vec<char>) -> (r: Vec<char>)
    requires
        pat@.len() > 0,
    ensures
        r@ == replace_all(s@, pat@, rep@),
{
    let mut out: Vec<char> = Vec::new();
    let mut i: usize = 0;
    assert(s@.subrange(0, s@.len() as int) =~= s@);
    while i < s.len()
        invariant
            i <= s.len(),
            pat@.len() > 0,
            out@ + replace_all(s@.subrange(i as int, s@.len() as int), pat@, rep@) == replace_all(s@, pat@, rep@),
        decreases s.len() - i,
    {
        let ghost rest = s@.subrange(i as int, s@.len() as int);
        if pat.len() <= s.len() - i && occurs_at_exec(s, i, pat) {
            assert(rest.subrange(0, pat@.len() as int) =~= s@.subrange(i as int, i + pat@.len()));
            assert(rest.subrange(pat@.len() as int, rest.len() as int) =~= s@.subrange(i + pat@.len(), s@.len() as int));
            let ghost o = out@;
            append_vec(&mut out, rep);
            assert(out@ + replace_all(s@.subrange(i + pat@.len(), s@.len() as int), pat@, rep@) =~= o + replace_all(rest, pat@, rep@));
            i += pat.len();
        } else {
            if pat.len() <= s.len() - i {
                assert(rest.subrange(0, pat@.len() as int) =~= s@.subrange(i as int, i + pat@.len()));
                assert(rest.subrange(1, rest.len() as int) =~= s@.subrange(i + 1, s@.len() as int));
                let ghost o = out@;
                out.push(s[i]);
                assert(out@ + replace_all(s@.subrange(i + 1, s@.len() as int), pat@, rep@) =~= o + replace_all(rest, pat@, rep@));
                i += 1;
            } else {
                let ghost o = out@;
                let mut k = i;
                while k < s.len()
                    invariant
                        i <= k <= s.len(),
                        out@ == o + s@.subrange(i as int, k as int),
                    decreases s.len() - k,
                {
                    out.push(s[k]);
                    assert(s@.subrange(i as int, k + 1) =~= s@.subrange(i as int, k as int).push(s@[k as int]));
                    k += 1;
                }
                assert(out@ =~= o + rest);
                i = s.len();
                assert(s@.subrange(i as int, s@.len() as int) =~= Seq::<char>::empty());
                assert(out@ + replace_all(s@.subrange(i as int, s@.len() as int), pat@, rep@) =~= out@);
            }
        }
    }
    assert(s@.subrange(i as int, s@.len() as int) =~= Seq::<char>::empty());
    assert(out@ + Seq::<char>::empty() =~= out@);
    out
}

/// The texts of a list of strings.
pub open spec fn strings_view(v: Seq<String>) -> Seq<Seq<char>> {
    v.map_values(|s: String| s@)
}

/// The distinct texts of a list of strings.
pub open spec fn strings_set(v: Seq<String>) -> Set<Seq<char>> {
    strings_view(v).to_set()
}

/// A copy of a list of strings.
pub fn copy_strings(v: &Vec<String>) -> (r: Vec<String>)
    ensures
        strings_view(r@) == strings_view(v@),
{
    let mut r: Vec<String> = Vec::new();
    let mut i: usize = 0;
    while i < v.len()
        invariant
            i <= v.len(),
            strings_view(r@) == strings_view(v@.subrange(0, i as int)),
        decreases v.len() - i,
    {
        let ghost before = r@;
        r.push(v[i].clone());
        assert(strings_view(r@) =~= strings_view(before).push(v@[i as int]@));
        assert(strings_view(v@.subrange(0, i + 1)) =~= strings_view(v@.subrange(0, i as int)).push(v@[i as int]@));
        i += 1;
    }
    assert(v@.subrange(0, v.len() as int) =~= v@);
    r
}

/// `v` holds a string equal to `s`.
pub fn contains_string(v: &Vec<String>, s: &String) -> (r: bool)
    ensures
        r == strings_set(v@).contains(s@),
{
    let mut i: usize = 0;
    while i < v.len()
        invariant
            i <= v.len(),
            forall|j: int| 0 <= j < i ==> v@[j]@ != s@,
        decreases v.len() - i,
    {
        if v[i] == *s {
            assert(strings_view(v@)[i as int] == s@);
            return true;
        }
        i += 1;
    }
    assert(!strings_view(v@).contains(s@)) by {
        if strings_view(v@).contains(s@) {
            let k = choose|k: int| 0 <= k < v@.len() && strings_view(v@)[k] == s@;
            assert(v@[k]@ == s@);
        }
    }
    false
}

/// What `String::from_utf8_lossy` gives for these bytes.
pub uninterp spec fn utf8_lossy_result(bytes: Seq<u8>) -> Seq<char>;

/// Calls `String::from_utf8_lossy`. The result is named; the one fact stated
/// is the documented one that valid UTF-8 is decoded as it is.
#[verifier::external_body]
pub(crate) fn utf8_lossy(bytes: &[u8]) -> (r: String)
    ensures
        r@ == utf8_lossy_result(bytes@),
        valid_utf8(bytes@) ==> r@ == decode_utf8(bytes@),
{
    String::from_utf8_lossy(bytes).to_string()
}

/// `a` orders before `b` as texts order: by the first character that
/// differs, a proper prefix first. This is the order of `String`'s `Ord`
/// (UTF-8 keeps the order of code points).
pub open spec fn text_lt(a: Seq<char>, b: Seq<char>) -> bool
    decreases a.len(),
{
    if b.len() == 0 {
        false
    } else if a.len() == 0 {
        true
    } else if (a[0] as u32) < (b[0] as u32) {
        true
    } else if (a[0] as u32) > (b[0] as u32) {
        false
    } else {
        text_lt(a.drop_first(), b.drop_first())
    }
}

/// Two different texts are ordered one way or the other.
pub proof fn lemma_text_lt_total(a: Seq<char>, b: Seq<char>)
    ensures
        a == b || text_lt(a, b) || text_lt(b, a),
    decreases a.len(),
{
    if a.len() > 0 && b.len() > 0 && (a[0] as u32) == (b[0] as u32) {
        lemma_text_lt_total(a.drop_first(), b.drop_first());
        vstd::utf8::char_u32_cast(a[0], a[0] as u32);
        vstd::utf8::char_u32_cast(b[0], b[0] as u32);
        if a.drop_first() == b.drop_first() {
            assert(a =~= seq![a[0]] + a.drop_first());
            assert(b =~= seq![b[0]] + b.drop_first());
        }
    } else if a.len() == 0 && b.len() == 0 {
        assert(a =~= b);
    }
}

/// No text orders before itself, nor both ways.
pub proof fn lemma_text_lt_asym(a: Seq<char>, b: Seq<char>)
    ensures
        text_lt(a, b) ==> !text_lt(b, a),
    decreases a.len(),
{
    if a.len() > 0 && b.len() > 0 && (a[0] as u32) == (b[0] as u32) {
        lemma_text_lt_asym(a.drop_first(), b.drop_first());
    }
}

/// The order is transitive.
pub proof fn lemma_text_lt_trans(a: Seq<char>, b: Seq<char>, c: Seq<char>)
    requires
        text_lt(a, b),
        text_lt(b, c),
    ensures
        text_lt(a, c),
    decreases a.len(),
{
    if a.len() > 0 && (a[0] as u32) == (b[0] as u32) && (b[0] as u32) == (c[0] as u32) {
        lemma_text_lt_trans(a.drop_first(), b.drop_first(), c.drop_first());
    }
}

/// Compares two texts (see `text_lt`).
pub fn text_lt_exec(a: &str, b: &str) -> (r: bool)
    ensures
        r == text_lt(a@, b@),
{
    let av = chars_of(a);
    let bv = chars_of(b);
    let mut i: usize = 0;
    assert(av@.subrange(0, av@.len() as int) =~= av@);
    assert(bv@.subrange(0, bv@.len() as int) =~= bv@);
    while i < av.len() && i < bv.len()
        invariant
            i <= av.len(),
            i <= bv.len(),
            text_lt(a@, b@) == text_lt(av@.subrange(i as int, av@.len() as int), bv@.subrange(i as int, bv@.len() as int)),
            av@ == a@,
            bv@ == b@,
        decreases av.len() - i,
    {
        let x = av[i];
        let y = bv[i];
        let ghost sa = av@.subrange(i as int, av@.len() as int);
        let ghost sb = bv@.subrange(i as int, bv@.len() as int);
        assert(sa[0] == x && sb[0] == y);
        let xn = x as u32;
        let yn = y as u32;
        if xn != yn {
            return xn < yn;
        }
        assert(sa.drop_first() =~= av@.subrange(i + 1, av@.len() as int));
        assert(sb.drop_first() =~= bv@.subrange(i + 1, bv@.len() as int));
        i += 1;
    }
    i < bv.len()
}

} // verus!
