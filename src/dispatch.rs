use vstd::prelude::*;

use crate::build_common::{chars_of, string_from_chars, texts};
use crate::generator::{join_strings, joined};
use crate::text::{
    find, lines, pieces, slice_chars, split_chars, split_lines, split_once, split_once_chars, trim,
    trimmed, views,
};

verus! {

/// The bracket that closes an opening one.
pub open spec fn closing_of(c: char) -> Option<char> {
    if c == '{' {
        Some('}')
    } else if c == '[' {
        Some(']')
    } else if c == '(' {
        Some(')')
    } else {
        None
    }
}

/// Nesting depth after the first `k` characters of `s`.
pub open spec fn depth(s: Seq<char>, open: char, close: char, k: nat) -> int
    decreases k,
{
    if k == 0 || k > s.len() {
        0
    } else {
        depth(s, open, close, (k - 1) as nat) + if s[k - 1] == open {
            1int
        } else if s[k - 1] == close {
            -1int
        } else {
            0int
        }
    }
}

/// The first index from `i` on after which the depth is back to zero.
pub open spec fn close_from(s: Seq<char>, open: char, close: char, i: nat) -> Option<int>
    decreases s.len() - i,
{
    if i >= s.len() {
        None
    } else if depth(s, open, close, i + 1) <= 0 {
        Some(i as int)
    } else {
        close_from(s, open, close, i + 1)
    }
}

/// What stands between the bracket that opens `code` (after blanks) and
/// the bracket that closes it; `None` when `code` opens with no bracket,
/// the bracket is never closed, or nothing stands between.
pub open spec fn matching_spec(code: Seq<char>) -> Option<Seq<char>> {
    let t = trimmed(code);
    if t.len() == 0 {
        None
    } else {
        match closing_of(t[0]) {
            None => None,
            Some(c) => match close_from(t, t[0], c, 0) {
                Some(i) => if i > 1 {
                    Some(t.subrange(1, i))
                } else {
                    None
                },
                None => None,
            },
        }
    }
}

fn matching_chars(code: &[char]) -> (r: Option<Vec<char>>)
    ensures
        match matching_spec(code@) {
            None => r is None,
            Some(m) => r matches Some(v) && v@ == m,
        },
{
    let t = trim(code);
    if t.len() == 0 {
        return None;
    }
    let open = t[0];
    let close = if open == '{' {
        '}'
    } else if open == '[' {
        ']'
    } else if open == '(' {
        ')'
    } else {
        return None;
    };
    let mut level: usize = 0;
    let mut i: usize = 0;
    while i < t.len()
        invariant
            t@ == trimmed(code@),
            open == t@[0],
            closing_of(open) == Some(close),
            i <= t@.len(),
            t@.len() >= 1,
            level == depth(t@, open, close, i as nat),
            level <= i,
            close_from(t@, open, close, i as nat) == close_from(t@, open, close, 0),
            i >= 1 ==> level >= 1,
        decreases t.len() - i,
    {
        if t[i] == open {
            level = level + 1;
        } else if t[i] == close {
            level = level - 1;
        }
        assert(level == depth(t@, open, close, (i + 1) as nat));
        if level == 0 {
            assert(close_from(t@, open, close, i as nat) == Some(i as int));
            if i > 1 {
                return Some(slice_chars(t.as_slice(), 1, i));
            } else {
                return None;
            }
        }
        assert(close_from(t@, open, close, i as nat) == close_from(t@, open, close, (i + 1) as nat));
        i = i + 1;
    }
    assert(close_from(t@, open, close, i as nat) is None);
    None
}

/// The text inside the bracket `code` opens with; see `matching_spec`.
pub fn find_matching(code: &str) -> (r: Option<String>)
    ensures
        match matching_spec(code@) {
            None => r is None,
            Some(m) => r matches Some(s) && s@ == m,
        },
{
    let cs = chars_of(code);
    match matching_chars(cs.as_slice()) {
        None => None,
        Some(m) => Some(string_from_chars(m.as_slice())),
    }
}

/// The body of the item that `name` introduces in `code`: `name` must be
/// followed by ` {`, and the body is what that brace encloses.
pub open spec fn structure_spec(code: Seq<char>, name: Seq<char>) -> Option<Seq<char>> {
    match find(code, name) {
        None => None,
        Some(i) => {
            let rest = code.skip(i + name.len());
            if rest.len() >= 2 && rest[0] == ' ' && rest[1] == '{' {
                matching_spec(rest)
            } else {
                None
            }
        },
    }
}

/// Finds the body of the item `name` introduces; see `structure_spec`.
pub fn find_structure(code: &str, name: &str) -> (r: Option<String>)
    ensures
        match structure_spec(code@, name@) {
            None => r is None,
            Some(m) => r matches Some(s) && s@ == m,
        },
{
    let cs = chars_of(code);
    let ns = chars_of(name);
    let i = match crate::text::find_chars(cs.as_slice(), ns.as_slice()) {
        None => return None,
        Some(i) => i,
    };
    assert(cs@.len() == cs.len() && ns@.len() == ns.len());
    let rest = slice_chars(cs.as_slice(), i + ns.len(), cs.len());
    assert(rest@ == cs@.skip(i + ns@.len()));
    if rest.len() >= 2 && rest[0] == ' ' && rest[1] == '{' {
        match matching_chars(rest.as_slice()) {
            None => None,
            Some(m) => Some(string_from_chars(m.as_slice())),
        }
    } else {
        None
    }
}

/// A method declaration of a trait, as text values.
pub struct FnView {
    pub name: Seq<char>,
    pub self_arg: Seq<char>,
    pub args: Seq<(Seq<char>, Seq<char>)>,
    pub return_type: Option<Seq<char>>,
}

/// A method declaration of a trait: its name, its receiver, its other
/// parameters as name and type, and its return type.
#[derive(Debug)]
pub struct FunctionDefn {
    pub name: String,
    pub self_arg: String,
    pub args: Vec<(String, String)>,
    pub return_type: Option<String>,
}

pub open spec fn pair_views(v: Seq<(String, String)>) -> Seq<(Seq<char>, Seq<char>)> {
    v.map_values(|p: (String, String)| (p.0@, p.1@))
}

impl View for FunctionDefn {
    type V = FnView;

    open spec fn view(&self) -> FnView {
        FnView {
            name: self.name@,
            self_arg: self.self_arg@,
            args: pair_views(self.args@),
            return_type: match self.return_type {
                Some(t) => Some(t@),
                None => None,
            },
        }
    }
}

/// The parameters among comma-separated pieces: blank pieces are skipped,
/// and each other one must read `name: type`.
pub open spec fn params_of(ps: Seq<Seq<char>>) -> Option<Seq<(Seq<char>, Seq<char>)>>
    decreases ps.len(),
{
    if ps.len() == 0 {
        Some(Seq::empty())
    } else {
        match params_of(ps.drop_last()) {
            None => None,
            Some(a) => {
                let p = trimmed(ps.last());
                if p.len() == 0 {
                    Some(a)
                } else {
                    match split_once(p, seq![':', ' ']) {
                        None => None,
                        Some((n, t)) => Some(a.push((n, t))),
                    }
                }
            },
        }
    }
}

/// The return type after ` -> `, without its final `;`; `Some(None)` for
/// none, `None` when the `;` is missing.
pub open spec fn return_of(remainder: Seq<char>) -> Option<Option<Seq<char>>> {
    match split_once(remainder, seq![' ', '-', '>', ' ']) {
        None => Some(None),
        Some((_, r)) => {
            let t = trimmed(r);
            if t.len() > 0 && t.last() == ';' {
                Some(Some(t.drop_last()))
            } else {
                None
            }
        },
    }
}

/// Reads a declaration `fn name(self_arg, name: type, ...) -> type;`.
pub open spec fn defn_spec(code: Seq<char>) -> Option<FnView> {
    let t = trimmed(code);
    if !(t.len() >= 3 && t[0] == 'f' && t[1] == 'n' && t[2] == ' ') {
        None
    } else {
        let after = t.skip(3);
        match split_once(after, seq!['(']) {
            None => None,
            Some((name, _)) => {
                let remainder = after.skip(name.len() as int);
                match matching_spec(remainder) {
                    None => None,
                    Some(args) => {
                        let (self_arg, others) = match split_once(args, seq![',']) {
                            Some((l, r)) => (l, r),
                            None => (args, Seq::empty()),
                        };
                        match (return_of(remainder), params_of(pieces(others, ','))) {
                            (Some(rt), Some(ps)) => Some(
                                FnView { name, self_arg, args: ps, return_type: rt },
                            ),
                            _ => None,
                        }
                    },
                }
            },
        }
    }
}

fn params_from(ps: &Vec<Vec<char>>) -> (r: Option<Vec<(String, String)>>)
    ensures
        match params_of(views(ps@)) {
            None => r is None,
            Some(a) => r matches Some(v) && pair_views(v@) == a,
        },
{
    let ghost pv = views(ps@);
    let mut out: Vec<(String, String)> = Vec::new();
    let mut i: usize = 0;
    proof {
        assert(pv.take(0) == Seq::<Seq<char>>::empty());
        assert(pair_views(out@) == Seq::<(Seq<char>, Seq<char>)>::empty());
    }
    while i < ps.len()
        invariant
            pv == views(ps@),
            i <= pv.len(),
            params_of(pv.take(i as int)) == Some(pair_views(out@)),
        decreases ps.len() - i,
    {
        proof {
            assert(pv.take(i + 1).drop_last() == pv.take(i as int));
            assert(pv.take(i + 1).last() == ps@[i as int]@);
        }
        let p = trim(ps[i].as_slice());
        if p.len() > 0 {
            let sep = [':', ' '];
            assert(sep@ == seq![':', ' ']);
            match split_once_chars(p.as_slice(), &sep) {
                None => {
                    proof {
                        lemma_params_fail(pv, i as int + 1);
                    }
                    return None;
                },
                Some((n, t)) => {
                    let ghost before = pair_views(out@);
                    let pair = (string_from_chars(n.as_slice()), string_from_chars(t.as_slice()));
                    out.push(pair);
                    assert(pair_views(out@) == before.push((n@, t@)));
                },
            }
        }
        i = i + 1;
    }
    assert(pv.take(i as int) == pv);
    Some(out)
}

proof fn lemma_params_fail(ps: Seq<Seq<char>>, k: int)
    requires
        0 <= k <= ps.len(),
        params_of(ps.take(k)) is None,
    ensures
        params_of(ps) is None,
    decreases ps.len() - k,
{
    if k < ps.len() {
        assert(ps.take(k + 1).drop_last() == ps.take(k));
        lemma_params_fail(ps, k + 1);
    } else {
        assert(ps.take(k) == ps);
    }
}

pub open spec fn fn_views(v: Seq<FunctionDefn>) -> Seq<FnView> {
    v.map_values(|f: FunctionDefn| f@)
}

/// The declarations among some lines, in order.
pub open spec fn defns_of(ls: Seq<Seq<char>>) -> Seq<FnView>
    decreases ls.len(),
{
    if ls.len() == 0 {
        Seq::empty()
    } else {
        let p = defns_of(ls.drop_last());
        match defn_spec(ls.last()) {
            Some(d) => p.push(d),
            None => p,
        }
    }
}

impl FunctionDefn {
    /// Reads one method declaration; see `defn_spec`.
    pub fn parse(code: &str) -> (r: Option<FunctionDefn>)
        ensures
            match defn_spec(code@) {
                None => r is None,
                Some(d) => r matches Some(f) && f@ == d,
            },
    {
        let t = trim(chars_of(code).as_slice());
        if !(t.len() >= 3 && t[0] == 'f' && t[1] == 'n' && t[2] == ' ') {
            return None;
        }
        let after = slice_chars(t.as_slice(), 3, t.len());
        assert(after@ == t@.skip(3));
        let paren = ['('];
        assert(paren@ == seq!['(']);
        let name = match split_once_chars(after.as_slice(), &paren) {
            None => return None,
            Some((name, _)) => name,
        };
        let remainder = slice_chars(after.as_slice(), name.len(), after.len());
        assert(remainder@ == after@.skip(name@.len() as int));
        let args = match matching_chars(remainder.as_slice()) {
            None => return None,
            Some(a) => a,
        };
        let comma = [','];
        assert(comma@ == seq![',']);
        let (self_arg, others) = match split_once_chars(args.as_slice(), &comma) {
            Some((l, r)) => (l, r),
            None => (args, Vec::new()),
        };
        let arrow = [' ', '-', '>', ' '];
        assert(arrow@ == seq![' ', '-', '>', ' ']);
        let return_type = match split_once_chars(remainder.as_slice(), &arrow) {
            None => None,
            Some((_, r)) => {
                let rt = trim(r.as_slice());
                if rt.len() > 0 && rt[rt.len() - 1] == ';' {
                    let body = slice_chars(rt.as_slice(), 0, rt.len() - 1);
                    assert(body@ == rt@.drop_last());
                    Some(string_from_chars(body.as_slice()))
                } else {
                    return None;
                }
            },
        };
        let ps = split_chars(others.as_slice(), ',');
        let params = match params_from(&ps) {
            None => return None,
            Some(p) => p,
        };
        Some(
            FunctionDefn {
                name: string_from_chars(name.as_slice()),
                self_arg: string_from_chars(self_arg.as_slice()),
                args: params,
                return_type,
            },
        )
    }

    /// Reads each line of a trait body that declares a method; other lines
    /// are skipped.
    pub fn parse_lines(code: &str) -> (r: Vec<FunctionDefn>)
        ensures
            fn_views(r@) == defns_of(lines(trimmed(code@))),
    {
        let t = trim(chars_of(code).as_slice());
        let ls = split_lines(t.as_slice());
        let ghost lv = views(ls@);
        let mut out: Vec<FunctionDefn> = Vec::new();
        let mut i: usize = 0;
        proof {
            assert(lv.take(0) == Seq::<Seq<char>>::empty());
            assert(fn_views(out@) == Seq::<FnView>::empty());
        }
        while i < ls.len()
            invariant
                lv == views(ls@),
                lv == lines(trimmed(code@)),
                i <= lv.len(),
                fn_views(out@) == defns_of(lv.take(i as int)),
            decreases ls.len() - i,
        {
            proof {
                assert(lv.take(i + 1).drop_last() == lv.take(i as int));
                assert(lv.take(i + 1).last() == lv[i as int]);
            }
            let line = string_from_chars(ls[i].as_slice());
            assert(line@ == lv[i as int]);
            match FunctionDefn::parse(line.as_str()) {
                Some(f) => {
                    let ghost before = fn_views(out@);
                    let ghost fv = f@;
                    out.push(f);
                    assert(fn_views(out@) == before.push(fv));
                },
                None => {},
            }
            i = i + 1;
        }
        assert(lv.take(i as int) == lv);
        out
    }
}

/// A line with each `)` read as `(`.
pub open spec fn parens_as_open(l: Seq<char>) -> Seq<char> {
    Seq::new(l.len(), |i: int| if l[i] == ')' { '(' } else { l[i] })
}

/// The variant name of an enum line `Name(Type),`.
pub open spec fn member_of(l: Seq<char>) -> Option<Seq<char>> {
    let p = pieces(parens_as_open(l), '(');
    if p.len() == 3 && p[2] == seq![','] {
        Some(p[0])
    } else {
        None
    }
}

/// The variant names of an enum body, one `Name(Type),` per line; `None`
/// when a line has another shape.
pub open spec fn members_spec(code: Seq<char>) -> Option<Seq<Seq<char>>> {
    let ls = lines(trimmed(code));
    if exists|i: int| 0 <= i < ls.len() && (#[trigger] member_of(ls[i])) is None {
        None
    } else {
        Some(Seq::new(ls.len(), |i: int| member_of(ls[i])->0))
    }
}

/// The variant names of an enum body; see `members_spec`.
pub fn get_enum_members(code: &str) -> (r: Option<Vec<String>>)
    ensures
        match members_spec(code@) {
            None => r is None,
            Some(m) => r matches Some(v) && texts(v@) == m,
        },
{
    let t = trim(chars_of(code).as_slice());
    let ls = split_lines(t.as_slice());
    let ghost lv = views(ls@);
    let mut members: Vec<String> = Vec::new();
    let mut i: usize = 0;
    while i < ls.len()
        invariant
            lv == views(ls@),
            lv == lines(trimmed(code@)),
            i <= lv.len(),
            members@.len() == i,
            forall|k: int| 0 <= k < i ==> (#[trigger] member_of(lv[k])) is Some,
            forall|k: int| 0 <= k < i ==> (#[trigger] members@[k])@ == member_of(lv[k])->0,
        decreases ls.len() - i,
    {
        let l = &ls[i];
        assert(l@ == lv[i as int]);
        let mut norm: Vec<char> = Vec::new();
        let mut k: usize = 0;
        while k < l.len()
            invariant
                k <= l@.len(),
                norm@ == parens_as_open(l@).take(k as int),
            decreases l.len() - k,
        {
            norm.push(if l[k] == ')' { '(' } else { l[k] });
            k = k + 1;
            assert(norm@ == parens_as_open(l@).take(k as int));
        }
        assert(parens_as_open(l@).take(k as int) == parens_as_open(l@));
        let p = split_chars(norm.as_slice(), '(');
        if p.len() == 3 && p[2].len() == 1 && p[2][0] == ',' {
            assert(views(p@)[0] == p@[0]@);
            assert(views(p@)[2] == p@[2]@);
            assert(p@[2]@ == seq![',']);
            members.push(string_from_chars(p[0].as_slice()));
        } else {
            proof {
                if p@.len() == 3 {
                    assert(views(p@)[2] == p@[2]@);
                    if p@[2]@.len() == 1 {
                        assert(p@[2]@[0] != ',');
                    }
                }
                assert(member_of(lv[i as int]) is None);
            }
            return None;
        }
        i = i + 1;
    }
    assert(texts(members@) == Seq::new(lv.len(), |k: int| member_of(lv[k])->0));
    Some(members)
}

pub open spec fn typed_params(args: Seq<(Seq<char>, Seq<char>)>) -> Seq<Seq<char>> {
    Seq::new(args.len(), |i: int| args[i].0 + ": "@ + args[i].1)
}

pub open spec fn param_names(args: Seq<(Seq<char>, Seq<char>)>) -> Seq<Seq<char>> {
    Seq::new(args.len(), |i: int| args[i].0)
}

/// The match arm that hands a call to the machine of one variant.
pub open spec fn member_line(member: Seq<char>, d: FnView) -> Seq<char> {
    member + "(architecture) => architecture."@ + d.name + "("@ + joined(param_names(d.args), ","@)
        + "),"@
}

pub open spec fn return_text(d: FnView) -> Seq<char> {
    match d.return_type {
        Some(t) => t,
        None => "()"@,
    }
}

/// Source text of the dispatching method for one declaration.
pub open spec fn method_source(d: FnView, members: Seq<Seq<char>>) -> Seq<char> {
    "#[allow(dead_code)]\npub fn "@ + d.name + "("@ + d.self_arg + ", "@ + joined(
        typed_params(d.args),
        ","@,
    ) + ") -> "@ + return_text(d) + " {\nmatch "@ + d.self_arg + ".architecture {\n"@ + "\n"@
        + joined(Seq::new(members.len(), |i: int| member_line(members[i], d)), "\n\t"@) + "\n"@
        + "}\n}\n"@
}

/// Source text of an `impl Interpreter` whose methods dispatch each
/// declaration to every architecture variant.
pub open spec fn dispatch_text(ds: Seq<FnView>, members: Seq<Seq<char>>) -> Seq<char> {
    "use crate::interpreter::Architecture::*;\nimpl Interpreter {\n"@ + joined(
        Seq::new(ds.len(), |i: int| method_source(ds[i], members)),
        "\n"@,
    ) + "\n}"@
}

fn method_text(d: &FunctionDefn, members: &Vec<String>) -> (r: String)
    ensures
        r@ == method_source(d@, texts(members@)),
{
    let mut typed: Vec<String> = Vec::new();
    let mut names: Vec<String> = Vec::new();
    let mut i: usize = 0;
    while i < d.args.len()
        invariant
            i <= d.args@.len(),
            texts(typed@) == typed_params(d@.args).take(i as int),
            texts(names@) == param_names(d@.args).take(i as int),
        decreases d.args.len() - i,
    {
        let ghost pair = d@.args[i as int];
        assert(pair == (d.args@[i as int].0@, d.args@[i as int].1@));
        let mut t = d.args[i].0.clone();
        t.append(": ");
        t.append(d.args[i].1.as_str());
        let n = d.args[i].0.clone();
        let ghost tb = texts(typed@);
        let ghost nb = texts(names@);
        let ghost tv = t@;
        let ghost nv = n@;
        typed.push(t);
        names.push(n);
        assert(texts(typed@) == tb.push(tv));
        assert(texts(names@) == nb.push(nv));
        assert(typed_params(d@.args).take(i + 1) == typed_params(d@.args).take(i as int).push(tv));
        assert(param_names(d@.args).take(i + 1) == param_names(d@.args).take(i as int).push(nv));
        i = i + 1;
        assert(texts(typed@) == typed_params(d@.args).take(i as int));
        assert(texts(names@) == param_names(d@.args).take(i as int));
    }
    assert(typed_params(d@.args).take(i as int) == typed_params(d@.args));
    assert(param_names(d@.args).take(i as int) == param_names(d@.args));
    let params = join_strings(&names, ",");
    let ghost mv = texts(members@);
    let mut arms: Vec<String> = Vec::new();
    let mut k: usize = 0;
    while k < members.len()
        invariant
            mv == texts(members@),
            k <= mv.len(),
            params@ == joined(param_names(d@.args), ","@),
            texts(arms@) == Seq::new(mv.len(), |j: int| member_line(mv[j], d@)).take(k as int),
        decreases members.len() - k,
    {
        let mut arm = members[k].clone();
        arm.append("(architecture) => architecture.");
        arm.append(d.name.as_str());
        arm.append("(");
        arm.append(params.as_str());
        arm.append("),");
        let ghost ab = texts(arms@);
        let ghost av = arm@;
        assert(av == member_line(mv[k as int], d@));
        arms.push(arm);
        assert(texts(arms@) == ab.push(av));
        assert(Seq::new(mv.len(), |j: int| member_line(mv[j], d@)).take(k + 1) == Seq::new(
            mv.len(),
            |j: int| member_line(mv[j], d@),
        ).take(k as int).push(av));
        k = k + 1;
        assert(texts(arms@) == Seq::new(mv.len(), |j: int| member_line(mv[j], d@)).take(k as int));
    }
    assert(Seq::new(mv.len(), |j: int| member_line(mv[j], d@)).take(k as int) == Seq::new(
        mv.len(),
        |j: int| member_line(mv[j], d@),
    ));
    let mut r = String::from_str("#[allow(dead_code)]\npub fn ");
    r.append(d.name.as_str());
    r.append("(");
    r.append(d.self_arg.as_str());
    r.append(", ");
    let typed_text = join_strings(&typed, ",");
    r.append(typed_text.as_str());
    r.append(") -> ");
    match &d.return_type {
        Some(t) => r.append(t.as_str()),
        None => r.append("()"),
    }
    r.append(" {\nmatch ");
    r.append(d.self_arg.as_str());
    r.append(".architecture {\n");
    r.append("\n");
    let arms_text = join_strings(&arms, "\n\t");
    r.append(arms_text.as_str());
    r.append("\n");
    r.append("}\n}\n");
    r
}

/// The dispatching `impl Interpreter` for the source of the interpreter
/// module: the methods of `pub trait InterpreterTrait`, dispatched over
/// the variants of `enum Architecture`; `None` when either is missing or
/// the enum has a line of another shape.
pub fn dispatch_source(contents: &str) -> (r: Option<String>)
    ensures
        match (
            structure_spec(contents@, "pub trait InterpreterTrait"@),
            structure_spec(contents@, "enum Architecture"@),
        ) {
            (Some(t), Some(e)) => match members_spec(e) {
                Some(m) => r matches Some(s) && s@ == dispatch_text(
                    defns_of(lines(trimmed(t))),
                    m,
                ),
                None => r is None,
            },
            _ => r is None,
        },
{
    let trait_defn = match find_structure(contents, "pub trait InterpreterTrait") {
        Some(t) => t,
        None => return None,
    };
    let enum_defn = match find_structure(contents, "enum Architecture") {
        Some(e) => e,
        None => return None,
    };
    let defns = FunctionDefn::parse_lines(trait_defn.as_str());
    let members = match get_enum_members(enum_defn.as_str()) {
        Some(m) => m,
        None => return None,
    };
    let ghost dv = fn_views(defns@);
    let ghost mv = texts(members@);
    let mut methods: Vec<String> = Vec::new();
    let mut i: usize = 0;
    while i < defns.len()
        invariant
            dv == fn_views(defns@),
            mv == texts(members@),
            i <= dv.len(),
            texts(methods@) == Seq::new(dv.len(), |j: int| method_source(dv[j], mv)).take(i as int),
        decreases defns.len() - i,
    {
        let m = method_text(&defns[i], &members);
        let ghost before = texts(methods@);
        let ghost mt = m@;
        assert(dv[i as int] == defns@[i as int]@);
        methods.push(m);
        assert(texts(methods@) == before.push(mt));
        assert(Seq::new(dv.len(), |j: int| method_source(dv[j], mv)).take(i + 1) == Seq::new(
            dv.len(),
            |j: int| method_source(dv[j], mv),
        ).take(i as int).push(mt));
        i = i + 1;
        assert(texts(methods@) == Seq::new(dv.len(), |j: int| method_source(dv[j], mv)).take(i as int));
    }
    assert(Seq::new(dv.len(), |j: int| method_source(dv[j], mv)).take(i as int) == Seq::new(
        dv.len(),
        |j: int| method_source(dv[j], mv),
    ));
    let mut r = String::from_str("use crate::interpreter::Architecture::*;\nimpl Interpreter {\n");
    let body = join_strings(&methods, "\n");
    r.append(body.as_str());
    r.append("\n}");
    Some(r)
}

} // verus!
