use vstd::prelude::*;

use crate::build_common::{chars_of, string_from_chars, texts, tokenise, tokens};
use crate::catalog::same_chars;
use crate::text::{lines, pieces, split_chars, split_lines, trim, trimmed, views};

verus! {

/// What `char::is_alphanumeric` returns for a character.
pub uninterp spec fn alphanumeric_char(c: char) -> bool;

/// Relies on `char::is_alphanumeric`: Unicode letters and numbers; the
/// result depends on the character alone.
#[verifier::external_body]
fn is_alphanumeric(c: char) -> (r: bool)
    ensures
        r == alphanumeric_char(c),
{
    c.is_alphanumeric()
}

/// One row of an instruction table.
#[derive(Debug)]
pub struct Instruction {
    pub mnemonic: String,
    pub expansion: String,
    pub syntax: Vec<String>,
    pub description: String,
    pub implementation: String,
}

/// A table row as text values.
pub struct RowView {
    pub mnemonic: Seq<char>,
    pub expansion: Seq<char>,
    pub syntax: Seq<Seq<char>>,
    pub description: Seq<char>,
    pub implementation: Seq<char>,
}

impl View for Instruction {
    type V = RowView;

    open spec fn view(&self) -> RowView {
        RowView {
            mnemonic: self.mnemonic@,
            expansion: self.expansion@,
            syntax: texts(self.syntax@),
            description: self.description@,
            implementation: self.implementation@,
        }
    }
}

/// The row a line's five cells give: each cell trimmed, the syntax cell
/// tokenised, and `BITWISE_OR` in the implementation cell read as `|`.
pub open spec fn row_of_cells(cells: Seq<Seq<char>>) -> RowView
    recommends
        cells.len() == 5,
{
    RowView {
        mnemonic: trimmed(cells[0]),
        expansion: trimmed(cells[1]),
        syntax: tokens(cells[2]),
        description: trimmed(cells[3]),
        implementation: unescaped(trimmed(cells[4])),
    }
}

/// The cells of a table line: what stands between its first and its last
/// `|`.
pub open spec fn cells_of(line: Seq<char>) -> Seq<Seq<char>> {
    let p = pieces(line, '|');
    if p.len() < 2 {
        Seq::empty()
    } else {
        p.subrange(1, p.len() - 1)
    }
}

/// The row of an instruction line, which must have exactly five cells.
pub open spec fn row_of_line(line: Seq<char>) -> Option<RowView> {
    if cells_of(line).len() == 5 {
        Some(row_of_cells(cells_of(line)))
    } else {
        None
    }
}

/// A line of a table that is not a ruling line.
pub open spec fn is_table_row(l: Seq<char>) -> bool {
    let t = trimmed(l);
    t.len() > 0 && t[0] == '|' && !(t.len() > 1 && t[1] == '-')
}

/// The table rows among some lines, in order.
pub open spec fn table_rows(ls: Seq<Seq<char>>) -> Seq<Seq<char>>
    decreases ls.len(),
{
    if ls.len() == 0 {
        Seq::empty()
    } else {
        let p = table_rows(ls.drop_last());
        if is_table_row(ls.last()) {
            p.push(ls.last())
        } else {
            p
        }
    }
}

/// The instructions of a table: each row after the header row, `None`
/// when there is no header or a row does not have five cells.
pub open spec fn table_spec(text: Seq<char>) -> Option<Seq<RowView>> {
    let rows = table_rows(lines(text));
    if rows.len() == 0 || exists|i: int| 1 <= i < rows.len() && (#[trigger] row_of_line(rows[i])) is None {
        None
    } else {
        Some(Seq::new((rows.len() - 1) as nat, |i: int| row_of_line(rows[i + 1])->0))
    }
}

/// Every character of a word is a letter or a number.
pub open spec fn all_alphanumeric(t: Seq<char>) -> bool {
    forall|i: int| 0 <= i < t.len() ==> alphanumeric_char(#[trigger] t[i])
}

/// The alphanumeric words of a syntax template, in order.
pub open spec fn alphanumeric_words(s: Seq<Seq<char>>) -> Seq<Seq<char>>
    decreases s.len(),
{
    if s.len() == 0 {
        Seq::empty()
    } else {
        let p = alphanumeric_words(s.drop_last());
        if all_alphanumeric(s.last()) {
            p.push(s.last())
        } else {
            p
        }
    }
}

/// The operand names of a syntax template: its alphanumeric words but the
/// first, which is the mnemonic.
pub open spec fn arg_names(syntax: Seq<Seq<char>>) -> Seq<Seq<char>> {
    let w = alphanumeric_words(syntax);
    if w.len() == 0 {
        w
    } else {
        w.drop_first()
    }
}

/// Name of the operand variant an operand name binds.
pub open spec fn kind_name(arg: Seq<char>) -> Seq<char> {
    if arg == seq!['i', 'm', 'm'] || arg == seq!['o', 'f', 'f', 's', 'e', 't'] {
        seq!['I', 'm', 'm', '1', '2']
    } else if arg == seq!['i', 'm', 'm', '2', '0'] {
        seq!['I', 'm', 'm', '2', '0']
    } else if arg == seq!['s', 'h', 'a', 'm', 't'] {
        seq!['S', 'h', 'a', 'm', 't']
    } else {
        seq!['R', 'e', 'g', 'i', 's', 't', 'e', 'r']
    }
}

/// A mnemonic with every character but letters and numbers replaced by
/// `_`, to name a function.
pub open spec fn escaped(m: Seq<char>) -> Seq<char> {
    Seq::new(m.len(), |i: int| if alphanumeric_char(m[i]) { m[i] } else { '_' })
}

/// The operand patterns of a factory, one `ImplementationArg::Kind(name), `
/// for each operand.
pub open spec fn arg_patterns(args: Seq<Seq<char>>) -> Seq<char>
    decreases args.len(),
{
    if args.len() == 0 {
        Seq::empty()
    } else {
        arg_patterns(args.drop_last()) + "ImplementationArg::"@ + kind_name(args.last()) + "("@
            + args.last() + "), "@
    }
}

/// Words joined by a separator.
pub open spec fn joined(v: Seq<Seq<char>>, sep: Seq<char>) -> Seq<char>
    decreases v.len(),
{
    if v.len() == 0 {
        Seq::empty()
    } else if v.len() == 1 {
        v[0]
    } else {
        joined(v.drop_last(), sep) + sep + v.last()
    }
}

/// Joins strings with a separator; see `joined`.
pub fn join_strings(v: &Vec<String>, sep: &str) -> (r: String)
    ensures
        r@ == joined(texts(v@), sep@),
{
    let ghost tv = texts(v@);
    let mut r = String::new();
    let mut i: usize = 0;
    while i < v.len()
        invariant
            tv == texts(v@),
            i <= tv.len(),
            r@ == joined(tv.take(i as int), sep@),
        decreases v.len() - i,
    {
        let ghost next = tv.take(i + 1);
        proof {
            assert(next.drop_last() == tv.take(i as int));
            assert(next.last() == v@[i as int]@);
        }
        if i > 0 {
            r.append(sep);
        }
        r.append(v[i].as_str());
        proof {
            if i == 0 {
                assert(r@ == next[0]);
            }
        }
        i = i + 1;
    }
    assert(tv.take(i as int) == tv);
    r
}

/// Source text of the factory function of a row.
pub open spec fn implementation_source(
    mnemonic: Seq<char>,
    syntax: Seq<Seq<char>>,
    implementation: Seq<char>,
) -> Seq<char> {
    "#[allow(unused_variables)]\nfn "@ + escaped(mnemonic)
        + " (args: Vec<ImplementationArg>) -> MachineInstruction {\nif let ["@ + arg_patterns(
        arg_names(syntax),
    )
        + "] = args[..] {\n\tBox::new(move |x: &mut [Register; 32], pc: &mut PC, mem: &mut [u8; crate::rv64_i::MEMORY_SIZE]| {\n\t\t"@
        + implementation + "\n\t})\n} else {\n\tunreachable!(\"Wrong arg type\") }\n}\n\n"@
}

/// Source text of the catalog entry of a row.
pub open spec fn entry_source(
    mnemonic: Seq<char>,
    expansion: Seq<char>,
    syntax: Seq<Seq<char>>,
    description: Seq<char>,
    implementation: Seq<char>,
) -> Seq<char> {
    "InstructionSource {\nmnemonic: \""@ + mnemonic + "\",\nexpansion: \""@ + expansion
        + "\",\nsyntax: &[\""@ + joined(syntax, "\", \""@) + "\"],\ndescription: r#\""@
        + description + "\"#,\nimplementation_str: \""@ + implementation
        + "\",\nimplementation: "@ + escaped(mnemonic) + "\n}"@
}

/// The marker that stands for `|` inside an implementation cell.
pub open spec fn or_marker() -> Seq<char> {
    seq!['B', 'I', 'T', 'W', 'I', 'S', 'E', '_', 'O', 'R']
}

/// A cell with each `BITWISE_OR` marker replaced by `|`, left to right.
pub open spec fn unescaped(s: Seq<char>) -> Seq<char>
    decreases s.len(),
{
    if s.len() == 0 {
        s
    } else if s.len() >= 10 && s.take(10) == or_marker() {
        seq!['|'] + unescaped(s.skip(10))
    } else {
        seq![s[0]] + unescaped(s.skip(1))
    }
}

fn marker_at(s: &[char], i: usize) -> (r: bool)
    requires
        i <= s@.len(),
    ensures
        r == (s@.len() - i >= 10 && s@.skip(i as int).take(10) == or_marker()),
{
    let m = ['B', 'I', 'T', 'W', 'I', 'S', 'E', '_', 'O', 'R'];
    assert(m@ == or_marker());
    if s.len() - i < 10 {
        return false;
    }
    assert(s@.len() == s.len());
    let mut k: usize = 0;
    while k < 10
        invariant
            i <= s@.len(),
            s@.len() == s.len(),
            s@.len() - i >= 10,
            m@ == or_marker(),
            k <= 10,
            forall|j: int| 0 <= j < k ==> s@[i + j] == m@[j],
        decreases 10 - k,
    {
        assert(i + k < s@.len());
        if s[i + k] != m[k] {
            assert(s@.skip(i as int).take(10)[k as int] != or_marker()[k as int]);
            return false;
        }
        k = k + 1;
    }
    assert(s@.skip(i as int).take(10) == or_marker());
    true
}

/// Replaces each `BITWISE_OR` marker by `|`; see `unescaped`.
pub fn unescape(s: &[char]) -> (r: Vec<char>)
    ensures
        r@ == unescaped(s@),
{
    let mut out: Vec<char> = Vec::new();
    let mut i: usize = 0;
    proof {
        assert(s@.skip(0) == s@);
    }
    while i < s.len()
        invariant
            i <= s@.len(),
            out@ + unescaped(s@.skip(i as int)) == unescaped(s@),
        decreases s.len() - i,
    {
        let ghost rest = s@.skip(i as int);
        if marker_at(s, i) {
            proof {
                assert(rest.skip(10) == s@.skip(i + 10));
            }
            out.push('|');
            proof {
                assert(out@ + unescaped(s@.skip(i + 10)) == unescaped(s@));
            }
            i = i + 10;
        } else {
            proof {
                assert(rest.skip(1) == s@.skip(i + 1));
                assert(rest[0] == s@[i as int]);
            }
            out.push(s[i]);
            proof {
                assert(out@ + unescaped(s@.skip(i + 1)) == unescaped(s@));
            }
            i = i + 1;
        }
    }
    proof {
        assert(s@.skip(i as int) == Seq::<char>::empty());
        assert(out@ + Seq::<char>::empty() == out@);
    }
    out
}

fn word_is_alphanumeric(t: &String) -> (r: bool)
    ensures
        r == all_alphanumeric(t@),
{
    let cs = chars_of(t.as_str());
    let mut i: usize = 0;
    while i < cs.len()
        invariant
            cs@ == t@,
            i <= cs@.len(),
            forall|j: int| 0 <= j < i ==> alphanumeric_char(#[trigger] cs@[j]),
        decreases cs.len() - i,
    {
        if !is_alphanumeric(cs[i]) {
            return false;
        }
        i = i + 1;
    }
    true
}

impl Instruction {
    /// The row of five cells: mnemonic, expansion, syntax, description and
    /// implementation.
    pub fn parse(cells: [&str; 5]) -> (r: Option<Instruction>)
        ensures
            r matches Some(i) && i@ == row_of_cells(seq![cells[0]@, cells[1]@, cells[2]@, cells[3]@, cells[4]@]),
    {
        let m = trim(chars_of(cells[0]).as_slice());
        let e = trim(chars_of(cells[1]).as_slice());
        let d = trim(chars_of(cells[3]).as_slice());
        let i = trim(chars_of(cells[4]).as_slice());
        let u = unescape(i.as_slice());
        let r = Instruction {
            mnemonic: string_from_chars(m.as_slice()),
            expansion: string_from_chars(e.as_slice()),
            syntax: tokenise(cells[2]),
            description: string_from_chars(d.as_slice()),
            implementation: string_from_chars(u.as_slice()),
        };
        Some(r)
    }

    /// The operand names of the row's syntax; see `arg_names`.
    pub fn get_args(&self) -> (r: Vec<String>)
        ensures
            texts(r@) == arg_names(self@.syntax),
    {
        let ghost sv = texts(self.syntax@);
        let mut words: Vec<String> = Vec::new();
        let mut i: usize = 0;
        while i < self.syntax.len()
            invariant
                sv == texts(self.syntax@),
                i <= sv.len(),
                texts(words@) == alphanumeric_words(sv.take(i as int)),
            decreases self.syntax.len() - i,
        {
            proof {
                assert(sv.take(i + 1).drop_last() == sv.take(i as int));
                assert(sv.take(i + 1).last() == self.syntax@[i as int]@);
            }
            if word_is_alphanumeric(&self.syntax[i]) {
                let ghost before = texts(words@);
                words.push(self.syntax[i].clone());
                assert(texts(words@) == before.push(self.syntax@[i as int]@));
            }
            i = i + 1;
        }
        assert(sv.take(i as int) == sv);
        let ghost w = texts(words@);
        let mut out: Vec<String> = Vec::new();
        if words.len() == 0 {
            assert(texts(out@) == Seq::<Seq<char>>::empty());
            return out;
        }
        let mut k: usize = 1;
        assert(texts(out@) == w.subrange(1, 1));
        while k < words.len()
            invariant
                w == texts(words@),
                1 <= k <= words@.len(),
                texts(out@) == w.subrange(1, k as int),
            decreases words.len() - k,
        {
            let ghost before = texts(out@);
            out.push(words[k].clone());
            assert(texts(out@) == before.push(w[k as int]));
            assert(w.subrange(1, k + 1) == w.subrange(1, k as int).push(w[k as int]));
            k = k + 1;
        }
        assert(w.subrange(1, k as int) == w.drop_first());
        out
    }

    /// The mnemonic made fit to name a function; see `escaped`.
    pub fn escaped_mnemonic(&self) -> (r: String)
        ensures
            r@ == escaped(self@.mnemonic),
    {
        let m = chars_of(self.mnemonic.as_str());
        let mut out: Vec<char> = Vec::new();
        let mut i: usize = 0;
        while i < m.len()
            invariant
                m@ == self.mnemonic@,
                i <= m@.len(),
                out@ == escaped(m@).take(i as int),
            decreases m.len() - i,
        {
            let c = m[i];
            out.push(if is_alphanumeric(c) { c } else { '_' });
            i = i + 1;
            assert(out@ == escaped(m@).take(i as int));
        }
        assert(escaped(m@).take(i as int) == escaped(m@));
        string_from_chars(out.as_slice())
    }

    /// Source text of the row's factory function; see
    /// `implementation_source`.
    pub fn create_implementation_source(&self) -> (r: String)
        ensures
            r@ == implementation_source(self@.mnemonic, self@.syntax, self@.implementation),
    {
        let args = self.get_args();
        let ghost av = texts(args@);
        let esc = self.escaped_mnemonic();
        let mut r = String::from_str("#[allow(unused_variables)]\nfn ");
        r.append(esc.as_str());
        r.append(" (args: Vec<ImplementationArg>) -> MachineInstruction {\nif let [");
        let ghost head = r@;
        let mut i: usize = 0;
        proof {
            assert(av.take(0) == Seq::<Seq<char>>::empty());
            assert(head + arg_patterns(av.take(0)) == head);
        }
        while i < args.len()
            invariant
                av == texts(args@),
                i <= av.len(),
                r@ == head + arg_patterns(av.take(i as int)),
            decreases args.len() - i,
        {
            let ghost before = arg_patterns(av.take(i as int));
            proof {
                assert(av.take(i + 1).drop_last() == av.take(i as int));
                assert(av.take(i + 1).last() == args@[i as int]@);
            }
            r.append("ImplementationArg::");
            r.append(Self::reg_or_imm(&args[i]));
            r.append("(");
            r.append(args[i].as_str());
            r.append("), ");
            i = i + 1;
            assert(r@ == head + arg_patterns(av.take(i as int)));
        }
        assert(av.take(i as int) == av);
        r.append(
            "] = args[..] {\n\tBox::new(move |x: &mut [Register; 32], pc: &mut PC, mem: &mut [u8; crate::rv64_i::MEMORY_SIZE]| {\n\t\t",
        );
        r.append(self.implementation.as_str());
        r.append("\n\t})\n} else {\n\tunreachable!(\"Wrong arg type\") }\n}\n\n");
        r
    }

    /// Source text of the row's catalog entry; see `entry_source`.
    pub fn as_source(&self) -> (r: String)
        ensures
            r@ == entry_source(
                self@.mnemonic,
                self@.expansion,
                self@.syntax,
                self@.description,
                self@.implementation,
            ),
    {
        let ghost sv = texts(self.syntax@);
        let mut syntax = String::new();
        let mut i: usize = 0;
        while i < self.syntax.len()
            invariant
                sv == texts(self.syntax@),
                i <= sv.len(),
                syntax@ == joined(sv.take(i as int), "\", \""@),
            decreases self.syntax.len() - i,
        {
            let ghost next = sv.take(i + 1);
            proof {
                assert(next.drop_last() == sv.take(i as int));
                assert(next.last() == self.syntax@[i as int]@);
            }
            if i > 0 {
                syntax.append("\", \"");
            }
            syntax.append(self.syntax[i].as_str());
            proof {
                if i == 0 {
                    assert(syntax@ == next[0]);
                }
            }
            i = i + 1;
        }
        assert(sv.take(i as int) == sv);
        let esc = self.escaped_mnemonic();
        let mut r = String::from_str("InstructionSource {\nmnemonic: \"");
        r.append(self.mnemonic.as_str());
        r.append("\",\nexpansion: \"");
        r.append(self.expansion.as_str());
        r.append("\",\nsyntax: &[\"");
        r.append(syntax.as_str());
        r.append("\"],\ndescription: r#\"");
        r.append(self.description.as_str());
        r.append("\"#,\nimplementation_str: \"");
        r.append(self.implementation.as_str());
        r.append("\",\nimplementation: ");
        r.append(esc.as_str());
        r.append("\n}");
        r
    }

    /// Name of the operand variant an operand name binds; see
    /// `kind_name`.
    pub fn reg_or_imm(arg: &String) -> (r: &'static str)
        ensures
            r@ == kind_name(arg@),
    {
        let cs = chars_of(arg.as_str());
        let imm = ['i', 'm', 'm'];
        let offset = ['o', 'f', 'f', 's', 'e', 't'];
        let imm20 = ['i', 'm', 'm', '2', '0'];
        let shamt = ['s', 'h', 'a', 'm', 't'];
        assert(imm@ == seq!['i', 'm', 'm']);
        assert(offset@ == seq!['o', 'f', 'f', 's', 'e', 't']);
        assert(imm20@ == seq!['i', 'm', 'm', '2', '0']);
        assert(shamt@ == seq!['s', 'h', 'a', 'm', 't']);
        proof {
            reveal_strlit("Imm12");
            reveal_strlit("Imm20");
            reveal_strlit("Shamt");
            reveal_strlit("Register");
        }
        if same_chars(cs.as_slice(), &imm) || same_chars(cs.as_slice(), &offset) {
            "Imm12"
        } else if same_chars(cs.as_slice(), &imm20) {
            "Imm20"
        } else if same_chars(cs.as_slice(), &shamt) {
            "Shamt"
        } else {
            "Register"
        }
    }
}

/// Reads one instruction line of a table; see `row_of_line`.
pub fn parse_instruction(line: &str) -> (r: Option<Instruction>)
    ensures
        match row_of_line(line@) {
            None => r is None,
            Some(row) => r matches Some(i) && i@ == row,
        },
{
    let cs = chars_of(line);
    let pieces = split_chars(cs.as_slice(), '|');
    let ghost pv = views(pieces@);
    if pieces.len() != 7 {
        return None;
    }
    let ghost cells = cells_of(line@);
    assert(cells.len() == 5);
    assert(cells[0] == pieces@[1]@ && cells[1] == pieces@[2]@ && cells[2] == pieces@[3]@
        && cells[3] == pieces@[4]@ && cells[4] == pieces@[5]@);
    let m = string_from_chars(pieces[1].as_slice());
    let e = string_from_chars(pieces[2].as_slice());
    let s = string_from_chars(pieces[3].as_slice());
    let d = string_from_chars(pieces[4].as_slice());
    let i = string_from_chars(pieces[5].as_slice());
    let r = Instruction::parse([m.as_str(), e.as_str(), s.as_str(), d.as_str(), i.as_str()]);
    assert(seq![m@, e@, s@, d@, i@] == cells);
    r
}

fn is_row_line(l: &[char]) -> (r: bool)
    ensures
        r == is_table_row(l@),
{
    let t = trim(l);
    t.len() > 0 && t[0] == '|' && !(t.len() > 1 && t[1] == '-')
}

/// Reads an instruction table: the rows after
/// its header row, the ruling line skipped; see `table_spec`.
pub fn parse_org_table(org_table: &str) -> (r: Option<Vec<Instruction>>)
    ensures
        match table_spec(org_table@) {
            None => r is None,
            Some(rows) => r matches Some(v) && v@.len() == rows.len() && forall|i: int|
                0 <= i < rows.len() ==> (#[trigger] v@[i])@ == rows[i],
        },
{
    let cs = chars_of(org_table);
    let ls = split_lines(cs.as_slice());
    let ghost lv = views(ls@);
    let mut rows: Vec<Vec<char>> = Vec::new();
    let mut k: usize = 0;
    while k < ls.len()
        invariant
            lv == views(ls@),
            lv == lines(org_table@),
            k <= lv.len(),
            views(rows@) == table_rows(lv.take(k as int)),
        decreases ls.len() - k,
    {
        proof {
            assert(lv.take(k + 1).drop_last() == lv.take(k as int));
            assert(lv.take(k + 1).last() == ls@[k as int]@);
        }
        if is_row_line(ls[k].as_slice()) {
            let ghost before = views(rows@);
            let row = ls[k].clone();
            assert(row@ == ls@[k as int]@);
            rows.push(row);
            assert(views(rows@) == before.push(ls@[k as int]@));
        }
        k = k + 1;
    }
    assert(lv.take(k as int) == lv);
    let ghost rv = views(rows@);
    if rows.len() == 0 {
        return None;
    }
    let mut out: Vec<Instruction> = Vec::new();
    let mut i: usize = 1;
    while i < rows.len()
        invariant
            rv == views(rows@),
            rv == table_rows(lines(org_table@)),
            1 <= i <= rv.len(),
            out@.len() == i - 1,
            forall|j: int| 1 <= j < i ==> (#[trigger] row_of_line(rv[j])) is Some,
            forall|j: int| 0 <= j < i - 1 ==> (#[trigger] out@[j])@ == row_of_line(rv[j + 1])->0,
        decreases rows.len() - i,
    {
        let line = string_from_chars(rows[i].as_slice());
        assert(line@ == rv[i as int]);
        match parse_instruction(line.as_str()) {
            None => {
                assert(row_of_line(rv[i as int]) is None);
                return None;
            },
            Some(inst) => {
                out.push(inst);
            },
        }
        i = i + 1;
    }
    assert(!exists|j: int| 1 <= j < rv.len() && (#[trigger] row_of_line(rv[j])) is None);
    Some(out)
}

} // verus!
