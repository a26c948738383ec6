//! Character-level helpers on strings, stated over their character views.
use vstd::prelude::*;

verus! {

/// The characters of a string, in order.
pub fn to_chars(s: &str) -> (r: Vec<char>)
    ensures
        r@ == s@,
{
    let n = s.unicode_len();
    let mut out: Vec<char> = Vec::new();
    let mut i: usize = 0;
    while i < n
        invariant
            n == s@.len(),
            i <= n,
            out@ == s@.take(i as int),
        decreases n - i,
    {
        out.push(s.get_char(i));
        proof {
            assert(out@ =~= s@.take(i as int + 1));
        }
        i = i + 1;
    }
    assert(out@ =~= s@);
    out
}

/// Whether two strings hold the same characters.
pub fn str_eq(a: &str, b: &str) -> (r: bool)
    ensures
        r <==> a@ == b@,
{
    let n = a.unicode_len();
    if n != b.unicode_len() {
        return false;
    }
    let mut i: usize = 0;
    while i < n
        invariant
            n == a@.len(),
            n == b@.len(),
            i <= n,
            forall|j: int| 0 <= j < i ==> a@[j] == b@[j],
        decreases n - i,
    {
        if a.get_char(i) != b.get_char(i) {
            return false;
        }
        i = i + 1;
    }
    assert(a@ =~= b@);
    true
}

/// Whether `prefix` holds the first characters of `s`.
pub open spec fn has_prefix(s: Seq<char>, prefix: Seq<char>) -> bool {
    prefix.len() <= s.len() && s.take(prefix.len() as int) == prefix
}

/// Whether the characters of `s` start with those of `prefix`.
pub fn starts_with(s: &str, prefix: &str) -> (r: bool)
    ensures
        r <==> has_prefix(s@, prefix@),
{
    let n = prefix.unicode_len();
    if n > s.unicode_len() {
        return false;
    }
    let mut i: usize = 0;
    while i < n
        invariant
            n == prefix@.len(),
            n <= s@.len(),
            i <= n,
            forall|j: int| 0 <= j < i ==> s@[j] == prefix@[j],
        decreases n - i,
    {
        if s.get_char(i) != prefix.get_char(i) {
            assert(s@.take(n as int)[i as int] != prefix@[i as int]);
            return false;
        }
        i = i + 1;
    }
    assert(s@.take(n as int) =~= prefix@);
    true
}

/// Index of the first occurrence of a character at or after `from`.
pub open spec fn index_from(s: Seq<char>, c: char, from: int) -> Option<int>
    decreases s.len() - from,
{
    if from < 0 || from >= s.len() {
        None
    } else if s[from] == c {
        Some(from)
    } else {
        index_from(s, c, from + 1)
    }
}

/// A found index holds the character, and no earlier index at or after
/// `from` does; when nothing is found no index at or after `from` holds it.
pub proof fn lemma_index_from(s: Seq<char>, c: char, from: int)
    requires
        0 <= from,
    ensures
        index_from(s, c, from) matches Some(i) ==> from <= i < s.len() && s[i] == c && forall|j: int|
            from <= j < i ==> s[j] != c,
        index_from(s, c, from) is None ==> forall|j: int| from <= j < s.len() ==> s[j] != c,
    decreases s.len() - from,
{
    if from < s.len() && s[from] != c {
        lemma_index_from(s, c, from + 1);
    }
}

/// Index of the first occurrence of a character at or after `from`.
pub fn find_char(s: &Vec<char>, c: char, from: usize) -> (r: Option<usize>)
    ensures
        r matches Some(i) ==> index_from(s@, c, from as int) == Some(i as int) && from <= i < s.len(),
        r is None ==> index_from(s@, c, from as int) is None,
{
    let mut i = from;
    while i < s.len()
        invariant
            from <= i,
            index_from(s@, c, i as int) == index_from(s@, c, from as int),
        decreases s@.len() - i,
    {
        if s[i] == c {
            return Some(i);
        }
        i = i + 1;
    }
    None
}

/// The characters from `from` up to `to` of a character vector, as a string.
pub fn substring(s: &str, from: usize, to: usize) -> (r: String)
    requires
        from <= to <= s@.len(),
    ensures
        r@ == s@.subrange(from as int, to as int),
{
    s.substring_char(from, to).to_owned()
}

/// Concatenation of two strings.
pub fn concat(a: &str, b: &str) -> (r: String)
    ensures
        r@ == a@ + b@,
{
    let mut out = a.to_owned();
    out.append(b);
    out
}

/// Searching a prefix of a sequence finds the first occurrence when it lies
/// inside the prefix, and nothing otherwise.
pub proof fn lemma_index_from_take(s: Seq<char>, c: char, from: int, n: int)
    requires
        0 <= from,
        0 <= n <= s.len(),
    ensures
        index_from(s.take(n), c, from) == (match index_from(s, c, from) {
            Some(k) => if k < n { Some(k) } else { None },
            None => None,
        }),
    decreases s.len() - from,
{
    lemma_index_from(s, c, from);
    if from < n {
        assert(s.take(n)[from] == s[from]);
        if s[from] != c {
            lemma_index_from_take(s, c, from + 1, n);
        }
    }
}

/// Whether `p` occurs in `s` at index `i`.
pub open spec fn matches_at(s: Seq<char>, p: Seq<char>, i: int) -> bool {
    0 <= i && i + p.len() <= s.len() && s.subrange(i, i + p.len()) == p
}

/// The greatest index not above `i` at which `p` occurs in `s`.
pub open spec fn last_match_upto(s: Seq<char>, p: Seq<char>, i: int) -> Option<int>
    decreases i + 1,
{
    if i < 0 {
        None
    } else if matches_at(s, p, i) {
        Some(i)
    } else {
        last_match_upto(s, p, i - 1)
    }
}

/// The index of the last occurrence of `p` in `s`.
pub open spec fn last_match(s: Seq<char>, p: Seq<char>) -> Option<int> {
    last_match_upto(s, p, s.len() - p.len())
}

/// A found index is an occurrence and no later index is; when nothing is
/// found there is no occurrence at all.
pub proof fn lemma_last_match_upto(s: Seq<char>, p: Seq<char>, i: int)
    ensures
        last_match_upto(s, p, i) matches Some(k) ==> k <= i && matches_at(s, p, k) && forall|j: int|
            k < j <= i ==> !matches_at(s, p, j),
        last_match_upto(s, p, i) is None ==> forall|j: int| 0 <= j <= i ==> !matches_at(s, p, j),
    decreases i + 1,
{
    if i >= 0 && !matches_at(s, p, i) {
        lemma_last_match_upto(s, p, i - 1);
    }
}

/// Whether `p` occurs in `s` at index `i`.
pub fn match_at(s: &Vec<char>, p: &Vec<char>, i: usize) -> (r: bool)
    ensures
        r <==> matches_at(s@, p@, i as int),
{
    if i > s.len() || p.len() > s.len() - i {
        return false;
    }
    let mut j: usize = 0;
    while j < p.len()
        invariant
            i + p@.len() <= s@.len(),
            i <= s@.len(),
            s@.len() == s.len(),
            j <= p@.len(),
            forall|k: int| 0 <= k < j ==> s@[i + k] == p@[k],
        decreases p@.len() - j,
    {
        if s[i + j] != p[j] {
            assert(s@.subrange(i as int, i + p@.len())[j as int] != p@[j as int]);
            return false;
        }
        j = j + 1;
    }
    assert(s@.subrange(i as int, i + p@.len()) =~= p@);
    true
}

/// Index of the last occurrence of `p` in `s`.
pub fn rfind(s: &Vec<char>, p: &Vec<char>) -> (r: Option<usize>)
    ensures
        r matches Some(k) ==> last_match(s@, p@) == Some(k as int) && k + p.len() <= s.len(),
        r is None ==> last_match(s@, p@) is None,
{
    if p.len() > s.len() {
        return None;
    }
    let mut i: usize = s.len() - p.len();
    loop
        invariant
            i <= s@.len() - p@.len(),
            last_match_upto(s@, p@, i as int) == last_match(s@, p@),
        decreases i,
    {
        if match_at(s, p, i) {
            return Some(i);
        }
        if i == 0 {
            assert(last_match_upto(s@, p@, -1) is None);
            return None;
        }
        i = i - 1;
    }
}


/// Whether a string orders before another: at the first character where
/// they differ the first has the lower code point, or it is a strict prefix
/// of the other.  This is the order of `String`s, whose UTF-8 bytes
/// compare as their code points do.
pub open spec fn str_lt(a: Seq<char>, b: Seq<char>) -> bool
    decreases a.len(),
{
    if b.len() == 0 {
        false
    } else if a.len() == 0 {
        true
    } else if a[0] != b[0] {
        a[0] < b[0]
    } else {
        str_lt(a.drop_first(), b.drop_first())
    }
}

/// No string orders before itself.
pub proof fn lemma_str_lt_irreflexive(a: Seq<char>)
    ensures
        !str_lt(a, a),
    decreases a.len(),
{
    if a.len() > 0 {
        lemma_str_lt_irreflexive(a.drop_first());
    }
}

/// Of two different strings one orders before the other, and not both.
pub proof fn lemma_str_lt_total(a: Seq<char>, b: Seq<char>)
    ensures
        a != b ==> (str_lt(a, b) || str_lt(b, a)),
        !(str_lt(a, b) && str_lt(b, a)),
    decreases a.len(),
{
    if a.len() > 0 && b.len() > 0 {
        lemma_str_lt_total(a.drop_first(), b.drop_first());
        if a[0] == b[0] && a != b {
            assert(a =~= seq![a[0]] + a.drop_first());
            assert(b =~= seq![b[0]] + b.drop_first());
        }
    } else if a.len() == 0 && b.len() == 0 {
        assert(a =~= b);
    }
}

/// The order of strings is transitive.
pub proof fn lemma_str_lt_transitive(a: Seq<char>, b: Seq<char>, c: Seq<char>)
    requires
        str_lt(a, b),
        str_lt(b, c),
    ensures
        str_lt(a, c),
    decreases a.len(),
{
    if a.len() > 0 && b.len() > 0 && c.len() > 0 && a[0] == b[0] && b[0] == c[0] {
        lemma_str_lt_transitive(a.drop_first(), b.drop_first(), c.drop_first());
    }
}

/// Whether a string orders before another.
pub fn str_less(a: &str, b: &str) -> (r: bool)
    ensures
        r == str_lt(a@, b@),
{
    let x = to_chars(a);
    let y = to_chars(b);
    let mut i: usize = 0;
    assert(x@.skip(0) =~= x@);
    assert(y@.skip(0) =~= y@);
    while i < x.len() && i < y.len()
        invariant
            x@ == a@,
            y@ == b@,
            i <= x@.len(),
            i <= y@.len(),
            str_lt(a@, b@) == str_lt(x@.skip(i as int), y@.skip(i as int)),
        decreases x@.len() - i,
    {
        let cx = x[i];
        let cy = y[i];
        assert(x@.skip(i as int)[0] == cx && y@.skip(i as int)[0] == cy);
        if cx != cy {
            return cx < cy;
        }
        assert(x@.skip(i as int).drop_first() =~= x@.skip(i as int + 1));
        assert(y@.skip(i as int).drop_first() =~= y@.skip(i as int + 1));
        i = i + 1;
    }
    assert(x@.skip(i as int).len() == 0 || y@.skip(i as int).len() == 0);
    i < y.len()
}

} // verus!
