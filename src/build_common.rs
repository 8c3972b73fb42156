use vstd::prelude::*;

verus! {

/// White space as `char::is_whitespace` reads it: the characters with the
/// Unicode White_Space property. They separate tokens and are dropped.
pub open spec fn is_blank(c: char) -> bool {
    ||| '\t' <= c <= '\r'
    ||| c == ' '
    ||| c == '\u{85}'
    ||| c == '\u{a0}'
    ||| c == '\u{1680}'
    ||| '\u{2000}' <= c <= '\u{200a}'
    ||| c == '\u{2028}'
    ||| c == '\u{2029}'
    ||| c == '\u{202f}'
    ||| c == '\u{205f}'
    ||| c == '\u{3000}'
}

/// Whether a character is white space; see `is_blank`.
pub fn is_whitespace(c: char) -> (r: bool)
    ensures
        r == is_blank(c),
{
    ('\t' <= c && c <= '\r') || c == ' ' || c == '\u{85}' || c == '\u{a0}' || c == '\u{1680}'
        || ('\u{2000}' <= c && c <= '\u{200a}') || c == '\u{2028}' || c == '\u{2029}'
        || c == '\u{202f}' || c == '\u{205f}' || c == '\u{3000}'
}

/// Characters that separate tokens and are tokens of their own.
pub open spec fn is_punct(c: char) -> bool {
    c == ',' || c == '(' || c == ')'
}

/// The pending token, if it is not empty.
pub open spec fn flush(cur: Seq<char>) -> Seq<Seq<char>> {
    if cur.len() == 0 {
        Seq::empty()
    } else {
        seq![cur]
    }
}

/// Tokens of `s`, when `cur` has already been read as the start of the
/// first one.
pub open spec fn tokens_from(s: Seq<char>, cur: Seq<char>) -> Seq<Seq<char>>
    decreases s.len(),
{
    if s.len() == 0 {
        flush(cur)
    } else {
        let c = s[0];
        let rest = s.drop_first();
        if is_blank(c) {
            flush(cur) + tokens_from(rest, Seq::empty())
        } else if is_punct(c) {
            flush(cur) + seq![seq![c]] + tokens_from(rest, Seq::empty())
        } else {
            tokens_from(rest, cur.push(c))
        }
    }
}

/// Tokens of a line: maximal runs of other characters, and each comma or
/// parenthesis on its own; blanks only separate.
pub open spec fn tokens(s: Seq<char>) -> Seq<Seq<char>> {
    tokens_from(s, Seq::empty())
}

/// The texts of a sequence of strings.
pub open spec fn texts(v: Seq<String>) -> Seq<Seq<char>> {
    v.map_values(|t: String| t@)
}

/// The characters of a string slice, in order.
pub fn chars_of(s: &str) -> (r: Vec<char>)
    ensures
        r@ == s@,
{
    let n = s.unicode_len();
    let mut r: Vec<char> = Vec::new();
    let mut i: usize = 0;
    while i < n
        invariant
            n == s@.len(),
            i <= n,
            r@ == s@.take(i as int),
        decreases n - i,
    {
        r.push(s.get_char(i));
        i = i + 1;
        assert(r@ == s@.take(i as int));
    }
    assert(s@.take(n as int) == s@);
    r
}

/// Relies on `String`'s `FromIterator<&char>`: the characters in order.
#[verifier::external_body]
pub(crate) fn string_from_chars(cs: &[char]) -> (r: String)
    ensures
        r@ == cs@,
{
    String::from_iter(cs.iter())
}

/// Splits a line into tokens at blanks, commas and parentheses, keeping
/// each comma and parenthesis as a token and dropping empty ones.
pub fn tokenise(line: &str) -> (r: Vec<String>)
    ensures
        texts(r@) == tokens(line@),
{
    let s = chars_of(line);
    let n = s.len();
    let mut out: Vec<String> = Vec::new();
    let mut cur: Vec<char> = Vec::new();
    let mut i: usize = 0;
    proof {
        assert(s@.skip(0) == s@);
        assert(texts(out@) == Seq::<Seq<char>>::empty());
    }
    while i < n
        invariant
            n == s@.len(),
            s@ == line@,
            i <= n,
            texts(out@) + tokens_from(s@.skip(i as int), cur@) == tokens(line@),
        decreases n - i,
    {
        let c = s[i];
        let ghost rest = s@.skip(i as int);
        let ghost old_out = texts(out@);
        let ghost old_cur = cur@;
        proof {
            assert(rest[0] == c);
            assert(rest.drop_first() == s@.skip(i + 1));
        }
        if is_whitespace(c) || c == ',' || c == '(' || c == ')' {
            if cur.len() > 0 {
                out.push(string_from_chars(cur.as_slice()));
            }
            proof {
                assert(texts(out@) == old_out + flush(old_cur));
            }
            let ghost mid = texts(out@);
            if c == ',' || c == '(' || c == ')' {
                let punct = vec![c];
                assert(punct@ == seq![c]);
                let t = string_from_chars(punct.as_slice());
                out.push(t);
                proof {
                    assert(texts(out@) == mid + seq![seq![c]]);
                }
            }
            cur = Vec::new();
        } else {
            cur.push(c);
        }
        i = i + 1;
    }
    if cur.len() > 0 {
        out.push(string_from_chars(cur.as_slice()));
    }
    proof {
        assert(texts(out@) == tokens(line@));
    }
    out
}

} // verus!
