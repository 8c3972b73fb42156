use vstd::prelude::*;

use crate::build_common::{is_blank, is_whitespace};

verus! {

/// The character for digit `d` (below 16); letters are upper case when
/// `upper` holds.
pub open spec fn digit_char(d: nat, upper: bool) -> char {
    if d < 10 {
        ('0' as u32 + d) as char
    } else if upper {
        ('A' as u32 + (d - 10)) as char
    } else {
        ('a' as u32 + (d - 10)) as char
    }
}

/// The `width` lowest digits of `v` in `base`, most significant first.
pub open spec fn fixed_digits(v: nat, base: nat, width: nat, upper: bool) -> Seq<char>
    decreases width,
{
    if width == 0 || base < 2 {
        Seq::empty()
    } else {
        fixed_digits(v / base, base, (width - 1) as nat, upper).push(digit_char(v % base, upper))
    }
}

/// Decimal digits of `v`, without leading zeros.
pub open spec fn decimal(v: nat) -> Seq<char>
    decreases v,
{
    if v < 10 {
        seq![digit_char(v, false)]
    } else {
        decimal(v / 10).push(digit_char(v % 10, false))
    }
}

fn digit(d: u64, upper: bool) -> (r: char)
    requires
        d < 16,
    ensures
        r == digit_char(d as nat, upper),
{
    if d < 10 {
        ('0' as u8 + d as u8) as char
    } else if upper {
        ('A' as u8 + (d - 10) as u8) as char
    } else {
        ('a' as u8 + (d - 10) as u8) as char
    }
}

/// Appends `fixed_digits(v, base, width, upper)`.
pub fn push_digits(v: u64, base: u64, width: usize, upper: bool, out: &mut Vec<char>)
    requires
        2 <= base <= 16,
    ensures
        final(out)@ == old(out)@ + fixed_digits(v as nat, base as nat, width as nat, upper),
    decreases width,
{
    if width > 0 {
        push_digits(v / base, base, width - 1, upper, out);
        out.push(digit(v % base, upper));
    }
}

/// Appends `decimal(v)`.
pub fn push_decimal(v: u64, out: &mut Vec<char>)
    ensures
        final(out)@ == old(out)@ + decimal(v as nat),
    decreases v,
{
    if v >= 10 {
        push_decimal(v / 10, out);
    }
    out.push(digit(v % 10, false));
}

/// Lines of `s` when `cur` has already been read as the start of the first
/// one: split at `'\n'`, a final `'\r'` dropped from each line, and no
/// empty line after a final `'\n'`.
pub open spec fn lines_from(s: Seq<char>, cur: Seq<char>) -> Seq<Seq<char>>
    decreases s.len(),
{
    if s.len() == 0 {
        if cur.len() == 0 {
            Seq::empty()
        } else {
            seq![drop_cr(cur)]
        }
    } else if s[0] == '\n' {
        seq![drop_cr(cur)] + lines_from(s.drop_first(), Seq::empty())
    } else {
        lines_from(s.drop_first(), cur.push(s[0]))
    }
}

pub open spec fn drop_cr(l: Seq<char>) -> Seq<char> {
    if l.len() > 0 && l.last() == '\r' {
        l.drop_last()
    } else {
        l
    }
}

pub open spec fn lines(s: Seq<char>) -> Seq<Seq<char>> {
    lines_from(s, Seq::empty())
}

pub open spec fn views(v: Seq<Vec<char>>) -> Seq<Seq<char>> {
    v.map_values(|l: Vec<char>| l@)
}

fn without_cr(mut l: Vec<char>) -> (r: Vec<char>)
    ensures
        r@ == drop_cr(l@),
{
    if l.len() > 0 && l[l.len() - 1] == '\r' {
        l.pop();
    }
    l
}

/// Splits a text into lines; see `lines`.
pub fn split_lines(s: &[char]) -> (r: Vec<Vec<char>>)
    ensures
        views(r@) == lines(s@),
{
    let mut out: Vec<Vec<char>> = Vec::new();
    let mut cur: Vec<char> = Vec::new();
    let mut i: usize = 0;
    proof {
        assert(s@.skip(0) == s@);
        assert(views(out@) == Seq::<Seq<char>>::empty());
    }
    while i < s.len()
        invariant
            i <= s@.len(),
            views(out@) + lines_from(s@.skip(i as int), cur@) == lines(s@),
        decreases s.len() - i,
    {
        let ghost rest = s@.skip(i as int);
        let ghost old_out = views(out@);
        proof {
            assert(rest[0] == s@[i as int]);
            assert(rest.drop_first() == s@.skip(i + 1));
        }
        if s[i] == '\n' {
            let line = without_cr(cur);
            let ghost lv = line@;
            out.push(line);
            proof {
                assert(views(out@) == old_out + seq![lv]);
            }
            cur = Vec::new();
        } else {
            cur.push(s[i]);
        }
        i = i + 1;
    }
    if cur.len() > 0 {
        let ghost old_out = views(out@);
        let line = without_cr(cur);
        let ghost lv = line@;
        out.push(line);
        proof {
            assert(views(out@) == old_out + seq![lv]);
        }
    }
    proof {
        assert(s@.skip(i as int) == Seq::<char>::empty());
        assert(views(out@) == lines(s@));
    }
    out
}

/// A line without its `//` comment.
pub open spec fn comment_free(l: Seq<char>) -> Seq<char>
    decreases l.len(),
{
    if l.len() == 0 {
        l
    } else if l.len() >= 2 && l[0] == '/' && l[1] == '/' {
        Seq::empty()
    } else {
        seq![l[0]] + comment_free(l.drop_first())
    }
}

/// Removes a `//` comment; see `comment_free`.
pub fn strip_comment(l: &[char]) -> (r: Vec<char>)
    ensures
        r@ == comment_free(l@),
{
    let mut out: Vec<char> = Vec::new();
    let mut i: usize = 0;
    proof {
        assert(l@.skip(0) == l@);
    }
    while i < l.len()
        invariant
            i <= l@.len(),
            out@ + comment_free(l@.skip(i as int)) == comment_free(l@),
        decreases l.len() - i,
    {
        let ghost rest = l@.skip(i as int);
        proof {
            assert(rest[0] == l@[i as int]);
            assert(rest.drop_first() == l@.skip(i + 1));
            if i + 1 < l@.len() {
                assert(rest[1] == l@[i + 1]);
            }
        }
        if i + 1 < l.len() && l[i] == '/' && l[i + 1] == '/' {
            proof {
                assert(out@ + Seq::<char>::empty() == out@);
            }
            return out;
        }
        out.push(l[i]);
        proof {
            assert(out@ + comment_free(l@.skip(i + 1)) == comment_free(l@));
        }
        i = i + 1;
    }
    proof {
        assert(l@.skip(i as int) == Seq::<char>::empty());
        assert(out@ + Seq::<char>::empty() == out@);
    }
    out
}

pub open spec fn trim_start(l: Seq<char>) -> Seq<char>
    decreases l.len(),
{
    if l.len() > 0 && is_blank(l[0]) {
        trim_start(l.drop_first())
    } else {
        l
    }
}

pub open spec fn trim_end(l: Seq<char>) -> Seq<char>
    decreases l.len(),
{
    if l.len() > 0 && is_blank(l.last()) {
        trim_end(l.drop_last())
    } else {
        l
    }
}

/// A line without its leading and trailing blanks.
pub open spec fn trimmed(l: Seq<char>) -> Seq<char> {
    trim_end(trim_start(l))
}

/// Removes leading and trailing blanks; see `trimmed`.
pub fn trim(l: &[char]) -> (r: Vec<char>)
    ensures
        r@ == trimmed(l@),
{
    let mut a: usize = 0;
    proof {
        assert(l@.skip(0) == l@);
    }
    while a < l.len() && is_whitespace(l[a])
        invariant
            a <= l@.len(),
            trim_start(l@.skip(a as int)) == trim_start(l@),
        decreases l.len() - a,
    {
        proof {
            assert(l@.skip(a as int)[0] == l@[a as int]);
            assert(l@.skip(a as int).drop_first() == l@.skip(a + 1));
        }
        a = a + 1;
    }
    proof {
        if a < l@.len() {
            assert(l@.skip(a as int)[0] == l@[a as int]);
        }
    }
    let ghost st = l@.skip(a as int);
    assert(trim_start(l@) == st);
    let mut b: usize = l.len();
    proof {
        assert(st.take(st.len() as int) == st);
    }
    while b > a && is_whitespace(l[b - 1])
        invariant
            a <= b <= l@.len(),
            st == l@.skip(a as int),
            trim_end(st.take(b - a)) == trim_end(st),
        decreases b,
    {
        proof {
            assert(st.take(b - a).last() == l@[b - 1]);
            assert(st.take(b - a).drop_last() == st.take(b - 1 - a));
        }
        b = b - 1;
    }
    let mut out: Vec<char> = Vec::new();
    let mut k: usize = a;
    while k < b
        invariant
            a <= k <= b <= l@.len(),
            out@ == l@.subrange(a as int, k as int),
        decreases b - k,
    {
        out.push(l[k]);
        k = k + 1;
        assert(out@ == l@.subrange(a as int, k as int));
    }
    proof {
        let t = st.take(b - a);
        assert(t == l@.subrange(a as int, b as int));
        if b > a {
            assert(t.last() == l@[b - 1]);
        }
    }
    out
}

/// The characters of a line before its first blank.
pub open spec fn first_word(l: Seq<char>) -> Seq<char>
    decreases l.len(),
{
    if l.len() == 0 || is_blank(l[0]) {
        Seq::empty()
    } else {
        seq![l[0]] + first_word(l.drop_first())
    }
}

/// The first word of a line; see `first_word`.
pub fn first_word_of(l: &[char]) -> (r: Vec<char>)
    ensures
        r@ == first_word(l@),
{
    let mut out: Vec<char> = Vec::new();
    let mut i: usize = 0;
    proof {
        assert(l@.skip(0) == l@);
    }
    while i < l.len() && !is_whitespace(l[i])
        invariant
            i <= l@.len(),
            out@ + first_word(l@.skip(i as int)) == first_word(l@),
        decreases l.len() - i,
    {
        proof {
            assert(l@.skip(i as int)[0] == l@[i as int]);
            assert(l@.skip(i as int).drop_first() == l@.skip(i + 1));
        }
        out.push(l[i]);
        i = i + 1;
    }
    proof {
        if i < l@.len() {
            assert(l@.skip(i as int)[0] == l@[i as int]);
        }
        assert(out@ + Seq::<char>::empty() == out@);
    }
    out
}

/// `pat` occurs in `s` at index `i`.
pub open spec fn occurs_at(s: Seq<char>, pat: Seq<char>, i: int) -> bool {
    0 <= i && i + pat.len() <= s.len() && s.subrange(i, i + pat.len()) == pat
}

/// The first index from `i` on where `pat` occurs in `s`.
pub open spec fn find_from(s: Seq<char>, pat: Seq<char>, i: nat) -> Option<int>
    decreases s.len() + 1 - i,
{
    if i + pat.len() > s.len() {
        None
    } else if occurs_at(s, pat, i as int) {
        Some(i as int)
    } else {
        find_from(s, pat, i + 1)
    }
}

/// The first index where `pat` occurs in `s`.
pub open spec fn find(s: Seq<char>, pat: Seq<char>) -> Option<int> {
    find_from(s, pat, 0)
}

/// What stands before and after the first occurrence of `pat`.
pub open spec fn split_once(s: Seq<char>, pat: Seq<char>) -> Option<(Seq<char>, Seq<char>)> {
    match find(s, pat) {
        None => None,
        Some(i) => Some((s.take(i), s.skip(i + pat.len()))),
    }
}

fn occurs(s: &[char], pat: &[char], i: usize) -> (r: bool)
    requires
        i + pat@.len() <= s@.len(),
    ensures
        r == occurs_at(s@, pat@, i as int),
{
    let mut k: usize = 0;
    while k < pat.len()
        invariant
            s@.len() == s.len(),
            pat@.len() == pat.len(),
            i + pat@.len() <= s@.len(),
            k <= pat@.len(),
            forall|j: int| 0 <= j < k ==> s@[i + j] == pat@[j],
        decreases pat.len() - k,
    {
        assert(i + k < s@.len());
        if s[i + k] != pat[k] {
            assert(s@.subrange(i as int, i + pat@.len())[k as int] != pat@[k as int]);
            return false;
        }
        k = k + 1;
    }
    assert(s@.subrange(i as int, i + pat@.len()) == pat@);
    true
}

/// Finds the first occurrence of `pat`; see `find`.
pub fn find_chars(s: &[char], pat: &[char]) -> (r: Option<usize>)
    ensures
        match find(s@, pat@) {
            None => r is None,
            Some(i) => r == Some(i as usize) && occurs_at(s@, pat@, i),
        },
{
    if pat.len() > s.len() {
        return None;
    }
    let last = s.len() - pat.len();
    let mut i: usize = 0;
    while i <= last
        invariant
            s@.len() == s.len(),
            pat@.len() == pat.len(),
            last == s@.len() - pat@.len(),
            pat@.len() <= s@.len(),
            i <= last,
            find_from(s@, pat@, i as nat) == find(s@, pat@),
        decreases last - i,
    {
        if occurs(s, pat, i) {
            return Some(i);
        }
        if i == last {
            assert(find_from(s@, pat@, (i + 1) as nat) is None);
            return None;
        }
        i = i + 1;
    }
    None
}

/// Splits at the first occurrence of `pat`; see `split_once`.
pub fn split_once_chars(s: &[char], pat: &[char]) -> (r: Option<(Vec<char>, Vec<char>)>)
    ensures
        match split_once(s@, pat@) {
            None => r is None,
            Some((a, b)) => r matches Some((x, y)) && x@ == a && y@ == b,
        },
        r matches Some((x, y)) ==> x@.len() + pat@.len() + y@.len() == s@.len(),
{
    match find_chars(s, pat) {
        None => None,
        Some(i) => {
            assert(s@.len() == s.len() && pat@.len() == pat.len());
            let a = slice_chars(s, 0, i);
            let b = slice_chars(s, i + pat.len(), s.len());
            Some((a, b))
        },
    }
}

/// The characters of `s` from `from` to `to`.
pub fn slice_chars(s: &[char], from: usize, to: usize) -> (r: Vec<char>)
    requires
        from <= to <= s@.len(),
    ensures
        r@ == s@.subrange(from as int, to as int),
{
    let mut out: Vec<char> = Vec::new();
    let mut k: usize = from;
    while k < to
        invariant
            from <= k <= to <= s@.len(),
            out@ == s@.subrange(from as int, k as int),
        decreases to - k,
    {
        out.push(s[k]);
        k = k + 1;
        assert(out@ == s@.subrange(from as int, k as int));
    }
    out
}

/// Pieces of a text between `sep` characters, `cur` having been read as
/// the start of the first one.
pub open spec fn pieces_from(s: Seq<char>, sep: char, cur: Seq<char>) -> Seq<Seq<char>>
    decreases s.len(),
{
    if s.len() == 0 {
        seq![cur]
    } else if s[0] == sep {
        seq![cur] + pieces_from(s.drop_first(), sep, Seq::empty())
    } else {
        pieces_from(s.drop_first(), sep, cur.push(s[0]))
    }
}

/// The pieces of a text between `sep` characters; there is always one
/// more piece than separators.
pub open spec fn pieces(s: Seq<char>, sep: char) -> Seq<Seq<char>> {
    pieces_from(s, sep, Seq::empty())
}

/// Splits a text at each `sep`; see `pieces`.
pub fn split_chars(s: &[char], sep: char) -> (r: Vec<Vec<char>>)
    ensures
        views(r@) == pieces(s@, sep),
{
    let mut out: Vec<Vec<char>> = Vec::new();
    let mut cur: Vec<char> = Vec::new();
    let mut i: usize = 0;
    proof {
        assert(s@.skip(0) == s@);
        assert(views(out@) == Seq::<Seq<char>>::empty());
    }
    while i < s.len()
        invariant
            i <= s@.len(),
            views(out@) + pieces_from(s@.skip(i as int), sep, cur@) == pieces(s@, sep),
        decreases s.len() - i,
    {
        let ghost rest = s@.skip(i as int);
        let ghost old_out = views(out@);
        proof {
            assert(rest[0] == s@[i as int]);
            assert(rest.drop_first() == s@.skip(i + 1));
        }
        if s[i] == sep {
            let ghost cv = cur@;
            out.push(cur);
            proof {
                assert(views(out@) == old_out + seq![cv]);
            }
            cur = Vec::new();
        } else {
            cur.push(s[i]);
        }
        i = i + 1;
    }
    let ghost old_out = views(out@);
    let ghost cv = cur@;
    out.push(cur);
    proof {
        assert(s@.skip(i as int) == Seq::<char>::empty());
        assert(views(out@) == old_out + seq![cv]);
    }
    out
}

} // verus!
