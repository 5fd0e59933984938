//! The `KEY=VALUE` environment-file format and a compact JSON writer.
//!
//! Parsing ignores blank lines, `#` comments and malformed lines (no
//! `=`, or an empty key); values lose surrounding whitespace and
//! double quotes.  Serialization writes one `KEY=VALUE` line per key,
//! keys sorted lexicographically, with a trailing newline; the empty
//! map serializes to the empty file.

use vstd::prelude::*;
use vstd::string::StrSliceExecFns;
use vstd::string::StringExecFns;
use crate::doc::Doc;
use crate::doc::DocObj;
use crate::doc::DocV;
use crate::doc::ObjV;
use crate::strutil::find_char;
use crate::strutil::is_space;
use crate::strutil::find_char_exec;
use crate::strutil::seq_views;
use crate::strutil::strip_back;
use crate::strutil::strip_back_spec;
use crate::strutil::strip_front;
use crate::strutil::strip_front_spec;
use crate::strutil::trim_ends;
use crate::strutil::trimmed_spec;

verus! {

// ---------------------------------------------------------------------
// Compact JSON text of a document.
// ---------------------------------------------------------------------
/// One hexadecimal digit, lower case.
pub open spec fn hex_digit(n: int) -> char {
    if n < 10 {
        ((('0' as u8) + n as u8) as u8) as char
    } else {
        ((('a' as u8) + (n as u8 - 10)) as u8) as char
    }
}

/// The JSON escape of one character inside a string literal.
pub open spec fn escape_char(c: char) -> Seq<char> {
    if c == '"' {
        seq!['\\', '"']
    } else if c == '\\' {
        seq!['\\', '\\']
    } else if c == '\n' {
        seq!['\\', 'n']
    } else if c == '\r' {
        seq!['\\', 'r']
    } else if c == '\t' {
        seq!['\\', 't']
    } else if c == '\u{8}' {
        seq!['\\', 'b']
    } else if c == '\u{c}' {
        seq!['\\', 'f']
    } else if (c as u32) < 32 {
        seq!['\\', 'u', '0', '0', hex_digit(c as u32 as int / 16), hex_digit(c as u32 as int % 16)]
    } else {
        seq![c]
    }
}

/// The JSON escape of a whole string body.
pub open spec fn escaped(s: Seq<char>) -> Seq<char>
    decreases s.len(),
{
    if s.len() == 0 {
        Seq::empty()
    } else {
        escape_char(s[0]) + escaped(s.drop_first())
    }
}

fn push_escaped_char(out: &mut String, c: char)
    ensures
        final(out)@ == old(out)@ + escape_char(c),
{
    if c == '"' {
        out.push('\\');
        out.push('"');
    } else if c == '\\' {
        out.push('\\');
        out.push('\\');
    } else if c == '\n' {
        out.push('\\');
        out.push('n');
    } else if c == '\r' {
        out.push('\\');
        out.push('r');
    } else if c == '\t' {
        out.push('\\');
        out.push('t');
    } else if c == '\u{8}' {
        out.push('\\');
        out.push('b');
    } else if c == '\u{c}' {
        out.push('\\');
        out.push('f');
    } else if (c as u32) < 32 {
        out.push('\\');
        out.push('u');
        out.push('0');
        out.push('0');
        let hi: u32 = (c as u32) / 16;
        let lo: u32 = (c as u32) % 16;
        let hic: char = if hi < 10 {
            (('0' as u8) + (hi as u8)) as char
        } else {
            (('a' as u8) + ((hi as u8) - 10)) as char
        };
        let loc: char = if lo < 10 {
            (('0' as u8) + (lo as u8)) as char
        } else {
            (('a' as u8) + ((lo as u8) - 10)) as char
        };
        out.push(hic);
        out.push(loc);
        assert(hic == hex_digit(c as u32 as int / 16));
        assert(loc == hex_digit(c as u32 as int % 16));
        assert(final(out)@ =~= old(out)@ + escape_char(c));
    } else {
        out.push(c);
        assert(final(out)@ =~= old(out)@ + escape_char(c));
    }
    assert(final(out)@ =~= old(out)@ + escape_char(c));
}

fn push_escaped(out: &mut String, s: &str)
    ensures
        final(out)@ == old(out)@ + escaped(s@),
{
    let n = s.unicode_len();
    let mut i: usize = 0;
    proof {
        assert(s@.skip(0) =~= s@);
    }
    while i < n
        invariant
            0 <= i <= n,
            n == s@.len(),
            out@ + escaped(s@.skip(i as int)) == old(out)@ + escaped(s@),
        decreases n - i,
    {
        let ghost rest = s@.skip(i as int);
        let ghost prev = out@;
        proof {
            assert(rest[0] == s@[i as int]);
            assert(rest.drop_first() =~= s@.skip(i + 1));
        }
        let c = s.get_char(i);
        push_escaped_char(out, c);
        proof {
            assert(escaped(rest) == escape_char(c) + escaped(s@.skip(i + 1)));
            assert((prev + escape_char(c)) + escaped(s@.skip(i + 1)) =~= prev + (escape_char(c)
                + escaped(s@.skip(i + 1))));
        }
        i += 1;
    }
    proof {
        assert(s@.skip(n as int) =~= Seq::<char>::empty());
        assert(out@ + Seq::<char>::empty() =~= out@);
    }
}

/// The compact JSON text of a document: `null`, quoted escaped
/// strings, opaque literals as they stand, and `{"k":v,...}` objects.
pub open spec fn json_text(d: DocV) -> Seq<char>
    decreases d, 0nat,
{
    match d {
        DocV::Null => "null"@,
        DocV::Text(s) => "\""@ + escaped(s) + "\""@,
        DocV::Literal(s) => s,
        DocV::Obj(o) => "{"@ + obj_entries_text(o) + "}"@,
    }
}

/// One `"key":value` item of an object's JSON text.
pub open spec fn entry_item(k: Seq<char>, v: DocV) -> Seq<char>
    decreases v, 1nat,
{
    "\""@ + escaped(k) + "\":"@ + json_text(v)
}

/// The comma-separated entry list of an object's JSON text.
pub open spec fn obj_entries_text(o: ObjV) -> Seq<char>
    decreases o, 0nat,
{
    match o {
        ObjV::Nil => Seq::empty(),
        ObjV::Entry(k, v, rest) => entry_item(k, *v) + obj_entries_tail(*rest),
    }
}

/// The remaining entries, each preceded by a comma.
pub open spec fn obj_entries_tail(o: ObjV) -> Seq<char>
    decreases o, 0nat,
{
    match o {
        ObjV::Nil => Seq::empty(),
        ObjV::Entry(k, v, rest) => ","@ + entry_item(k, *v) + obj_entries_tail(*rest),
    }
}

fn push_entry_item(out: &mut String, k: &String, v: &Doc)
    ensures
        final(out)@ == old(out)@ + entry_item(k@, v@),
    decreases *v, 1nat,
{
    out.append("\"");
    push_escaped(out, k.as_str());
    out.append("\":");
    let vt = doc_json_text(v);
    out.append(vt.as_str());
    assert(out@ =~= old(out)@ + entry_item(k@, v@));
}

fn push_entries_tail(out: &mut String, o: &DocObj)
    ensures
        final(out)@ == old(out)@ + obj_entries_tail(o@),
    decreases *o, 0nat,
{
    match o {
        DocObj::Nil => {
            assert(out@ =~= old(out)@ + obj_entries_tail(o@));
        },
        DocObj::Entry(k, v, rest) => {
            out.append(",");
            push_entry_item(out, k, &**v);
            push_entries_tail(out, &**rest);
            assert(out@ =~= old(out)@ + obj_entries_tail(o@));
        },
    }
}

fn push_obj_entries(out: &mut String, o: &DocObj)
    ensures
        final(out)@ == old(out)@ + obj_entries_text(o@),
    decreases *o, 0nat,
{
    match o {
        DocObj::Nil => {
            assert(out@ =~= old(out)@ + obj_entries_text(o@));
        },
        DocObj::Entry(k, v, rest) => {
            push_entry_item(out, k, &**v);
            push_entries_tail(out, &**rest);
            assert(out@ =~= old(out)@ + obj_entries_text(o@));
        },
    }
}

/// Writes the compact JSON text of a document.
pub fn doc_json_text(d: &Doc) -> (r: String)
    ensures
        r@ == json_text(d@),
    decreases *d, 0nat,
{
    match d {
        Doc::Null => String::from_str("null"),
        Doc::Text(s) => {
            let mut out = String::from_str("\"");
            push_escaped(&mut out, s.as_str());
            out.append("\"");
            out
        },
        Doc::Literal(s) => s.clone(),
        Doc::Obj(o) => {
            let mut out = String::from_str("{");
            push_obj_entries(&mut out, o);
            out.append("}");
            out
        },
    }
}

// ---------------------------------------------------------------------
// Line splitting.
// ---------------------------------------------------------------------
/// A line with a trailing carriage return removed.
pub open spec fn chomp(s: Seq<char>) -> Seq<char> {
    if s.len() > 0 && s.last() == '\r' {
        s.drop_last()
    } else {
        s
    }
}

/// The lines of a text, split on `\n`, each without a trailing `\r`;
/// a final newline does not open an empty last line.
pub open spec fn split_lines(s: Seq<char>) -> Seq<Seq<char>>
    decreases s.len(),
{
    if s.len() == 0 {
        Seq::empty()
    } else {
        match find_char(s, '\n') {
            Some(i) => if 0 <= i < s.len() {
                seq![chomp(s.take(i))] + split_lines(s.skip(i + 1))
            } else {
                seq![chomp(s)]
            },
            None => seq![chomp(s)],
        }
    }
}

fn chomp_exec(s: &str) -> (r: &str)
    ensures
        r@ == chomp(s@),
{
    let n = s.unicode_len();
    if n > 0 && s.get_char(n - 1) == '\r' {
        let r = s.substring_char(0, n - 1);
        assert(r@ =~= s@.drop_last());
        r
    } else {
        s
    }
}

/// Splits a text into its lines.
pub fn split_lines_exec(s: &str) -> (r: Vec<String>)
    ensures
        seq_views(r@) == split_lines(s@),
    decreases s@.len(),
{
    let n = s.unicode_len();
    let mut out: Vec<String> = Vec::new();
    if n == 0 {
        assert(seq_views(out@) =~= split_lines(s@));
        return out;
    }
    match find_char_exec(s, '\n') {
        Some(i) => {
            let head = s.substring_char(0, i);
            assert(head@ =~= s@.take(i as int));
            let line = chomp_exec(head);
            let tail = s.substring_char(i + 1, n);
            assert(tail@ =~= s@.skip(i + 1));
            let mut rest = split_lines_exec(tail);
            out.push(line.to_owned());
            let mut j: usize = 0;
            let ghost base = out@;
            while j < rest.len()
                invariant
                    0 <= j <= rest@.len(),
                    out@ =~= base + rest@.take(j as int),
                decreases rest@.len() - j,
            {
                let item = rest[j].clone();
                out.push(item);
                assert(out@ =~= base + rest@.take(j + 1));
                j += 1;
            }
            proof {
                assert(rest@.take(rest@.len() as int) =~= rest@);
                assert(out@ =~= base + rest@);
                assert(seq_views(out@) =~= seq![chomp(s@.take(i as int))] + seq_views(rest@));
                assert(seq_views(out@) =~= split_lines(s@));
            }
            out
        },
        None => {
            let line = chomp_exec(s);
            out.push(line.to_owned());
            assert(seq_views(out@) =~= split_lines(s@));
            out
        },
    }
}

// ---------------------------------------------------------------------
// Parsing.
// ---------------------------------------------------------------------
/// The key/value pair carried by one line, if the line carries one:
/// blank lines, comments, lines without `=` and lines with an empty
/// key carry none; the value loses surrounding whitespace and quotes.
pub open spec fn env_entry_of_line(line: Seq<char>) -> Option<(Seq<char>, Seq<char>)> {
    let t = trimmed_spec(line);
    if t.len() == 0 {
        None
    } else if t[0] == '#' {
        None
    } else {
        match find_char(t, '=') {
            None => None,
            Some(i) => if i == 0 {
                None
            } else {
                let k = trimmed_spec(t.take(i));
                if k.len() == 0 {
                    None
                } else {
                    let v = strip_back_spec(
                        strip_front_spec(trimmed_spec(t.skip(i + 1)), '"'),
                        '"',
                    );
                    Some((k, v))
                }
            },
        }
    }
}

/// One parsing step: a line's entry, if any, overwrites the key.
pub open spec fn env_apply_line(acc: ObjV, line: Seq<char>) -> ObjV {
    match env_entry_of_line(line) {
        Some((k, v)) => acc.upsert(k, DocV::Text(v)),
        None => acc,
    }
}

/// Folds the lines into an environment object, first line first.
pub open spec fn env_fold(lines: Seq<Seq<char>>, acc: ObjV) -> ObjV
    decreases lines.len(),
{
    if lines.len() == 0 {
        acc
    } else {
        env_fold(lines.drop_first(), env_apply_line(acc, lines[0]))
    }
}

/// The environment carried by a raw env-file text.
pub open spec fn env_parse_spec(s: Seq<char>) -> ObjV {
    env_fold(split_lines(s), ObjV::Nil)
}

fn parse_env_line(acc: DocObj, line: &str) -> (r: DocObj)
    ensures
        r@ == env_apply_line(acc@, line@),
{
    let t = trim_ends(line);
    let tn = t.unicode_len();
    if tn == 0 {
        return acc;
    }
    if t.get_char(0) == '#' {
        return acc;
    }
    match find_char_exec(t, '=') {
        None => acc,
        Some(i) => {
            if i == 0 {
                return acc;
            }
            let head = t.substring_char(0, i);
            assert(head@ =~= t@.take(i as int));
            let key = trim_ends(head);
            if key.unicode_len() == 0 {
                return acc;
            }
            let raw_tail = t.substring_char(i + 1, tn);
            assert(raw_tail@ =~= t@.skip(i + 1));
            let value = strip_back(strip_front(trim_ends(raw_tail), '"'), '"');
            acc.upsert(key.to_owned(), Doc::Text(value.to_owned()))
        },
    }
}

/// Parses a `KEY=VALUE` env-file text into a flat string map.
pub fn parse_env_text(raw: &str) -> (r: DocObj)
    ensures
        r@ == env_parse_spec(raw@),
{
    let lines = split_lines_exec(raw);
    let n = lines.len();
    let mut result = DocObj::empty();
    let mut i: usize = 0;
    proof {
        assert(seq_views(lines@).skip(0) =~= seq_views(lines@));
    }
    while i < n
        invariant
            0 <= i <= n,
            n == lines@.len(),
            seq_views(lines@) == split_lines(raw@),
            env_fold(seq_views(lines@).skip(i as int), result@) == env_parse_spec(raw@),
        decreases n - i,
    {
        let ghost rest = seq_views(lines@).skip(i as int);
        proof {
            assert(rest[0] == lines@[i as int]@);
            assert(rest.drop_first() =~= seq_views(lines@).skip(i + 1));
        }
        let line = &lines[i];
        let folded = parse_env_line(result, line.as_str());
        result = folded;
        i += 1;
    }
    proof {
        assert(seq_views(lines@).skip(n as int) =~= Seq::<Seq<char>>::empty());
    }
    result
}

// ---------------------------------------------------------------------
// Serialization.
// ---------------------------------------------------------------------
/// Lexicographic order on character sequences, by code point.
pub open spec fn lex_le(a: Seq<char>, b: Seq<char>) -> bool
    decreases a.len(),
{
    if a.len() == 0 {
        true
    } else if b.len() == 0 {
        false
    } else if (a[0] as u32) < (b[0] as u32) {
        true
    } else if (a[0] as u32) == (b[0] as u32) {
        lex_le(a.drop_first(), b.drop_first())
    } else {
        false
    }
}

/// Decides the lexicographic order.
pub fn lex_le_exec(a: &str, b: &str) -> (r: bool)
    ensures
        r == lex_le(a@, b@),
    decreases a@.len(),
{
    let an = a.unicode_len();
    let bn = b.unicode_len();
    if an == 0 {
        true
    } else if bn == 0 {
        false
    } else {
        let ca = a.get_char(0);
        let cb = b.get_char(0);
        if (ca as u32) < (cb as u32) {
            true
        } else if (ca as u32) == (cb as u32) {
            let at = a.substring_char(1, an);
            let bt = b.substring_char(1, bn);
            assert(at@ =~= a@.drop_first());
            assert(bt@ =~= b@.drop_first());
            lex_le_exec(at, bt)
        } else {
            false
        }
    }
}

/// `k` inserted in front of the first element it precedes.
pub open spec fn insert_sorted(k: Seq<char>, s: Seq<Seq<char>>) -> Seq<Seq<char>>
    decreases s.len(),
{
    if s.len() == 0 {
        seq![k]
    } else if lex_le(k, s[0]) {
        seq![k] + s
    } else {
        seq![s[0]] + insert_sorted(k, s.drop_first())
    }
}

/// Insertion sort of a key sequence.
pub open spec fn sort_keys(s: Seq<Seq<char>>) -> Seq<Seq<char>>
    decreases s.len(),
{
    if s.len() == 0 {
        s
    } else {
        insert_sorted(s[0], sort_keys(s.drop_first()))
    }
}

proof fn lemma_insert_at(k: Seq<char>, s: Seq<Seq<char>>, p: int)
    requires
        0 <= p <= s.len(),
        forall|j: int| 0 <= j < p ==> !lex_le(k, #[trigger] s[j]),
        p < s.len() ==> lex_le(k, s[p]),
    ensures
        insert_sorted(k, s) == s.insert(p, k),
    decreases s.len(),
{
    if s.len() == 0 {
        assert(insert_sorted(k, s) =~= s.insert(0, k));
    } else if p == 0 {
        assert(insert_sorted(k, s) =~= s.insert(0, k));
    } else {
        assert(!lex_le(k, s[0]));
        lemma_insert_at(k, s.drop_first(), p - 1);
        assert(seq![s[0]] + s.drop_first().insert(p - 1, k) =~= s.insert(p, k));
    }
}

fn insert_pos(k: &String, v: &Vec<String>) -> (p: usize)
    ensures
        p <= v@.len(),
        forall|j: int| 0 <= j < p ==> !lex_le(k@, #[trigger] seq_views(v@)[j]),
        p < v@.len() ==> lex_le(k@, seq_views(v@)[p as int]),
{
    let n = v.len();
    let mut p: usize = 0;
    while p < n
        invariant
            0 <= p <= n,
            n == v@.len(),
            forall|j: int| 0 <= j < p ==> !lex_le(k@, #[trigger] seq_views(v@)[j]),
        decreases n - p,
    {
        if lex_le_exec(k.as_str(), v[p].as_str()) {
            return p;
        }
        p += 1;
    }
    p
}

fn insert_sorted_exec(k: String, v: Vec<String>) -> (r: Vec<String>)
    ensures
        seq_views(r@) == insert_sorted(k@, seq_views(v@)),
{
    let p = insert_pos(&k, &v);
    proof {
        lemma_insert_at(k@, seq_views(v@), p as int);
    }
    let ghost old_v = v@;
    let mut v = v;
    v.insert(p, k);
    assert(seq_views(v@) =~= seq_views(old_v).insert(p as int, k@));
    v
}

/// Sorts keys lexicographically by insertion.
pub fn sort_keys_exec(keys: Vec<String>) -> (r: Vec<String>)
    ensures
        seq_views(r@) == sort_keys(seq_views(keys@)),
{
    let n = keys.len();
    let mut out: Vec<String> = Vec::new();
    let mut i: usize = n;
    proof {
        assert(seq_views(keys@).skip(n as int) =~= Seq::<Seq<char>>::empty());
        assert(seq_views(out@) =~= sort_keys(seq_views(keys@).skip(n as int)));
    }
    while i > 0
        invariant
            0 <= i <= n,
            n == keys@.len(),
            seq_views(out@) == sort_keys(seq_views(keys@).skip(i as int)),
        decreases i,
    {
        i -= 1;
        let ghost rest = seq_views(keys@).skip(i as int);
        proof {
            assert(rest[0] == keys@[i as int]@);
            assert(rest.drop_first() =~= seq_views(keys@).skip(i + 1));
        }
        let item = keys[i].clone();
        let folded = insert_sorted_exec(item, out);
        out = folded;
    }
    proof {
        assert(seq_views(keys@).skip(0) =~= seq_views(keys@));
    }
    out
}

/// Keys in non-decreasing lexicographic order.
pub open spec fn sorted_keys(s: Seq<Seq<char>>) -> bool {
    forall|i: int, j: int| 0 <= i < j < s.len() ==> lex_le(#[trigger] s[i], #[trigger] s[j])
}

/// The lexicographic order is total.
pub proof fn lemma_lex_total(a: Seq<char>, b: Seq<char>)
    ensures
        lex_le(a, b) || lex_le(b, a),
    decreases a.len(),
{
    if a.len() > 0 && b.len() > 0 && (a[0] as u32) == (b[0] as u32) {
        lemma_lex_total(a.drop_first(), b.drop_first());
    }
}

/// The lexicographic order is transitive.
pub proof fn lemma_lex_trans(a: Seq<char>, b: Seq<char>, c: Seq<char>)
    requires
        lex_le(a, b),
        lex_le(b, c),
    ensures
        lex_le(a, c),
    decreases a.len(),
{
    if a.len() > 0 && b.len() > 0 && c.len() > 0 && (a[0] as u32) == (b[0] as u32) && (
    b[0] as u32) == (c[0] as u32) {
        lemma_lex_trans(a.drop_first(), b.drop_first(), c.drop_first());
    }
}

proof fn lemma_lower_bound_insert(x: Seq<char>, k: Seq<char>, s: Seq<Seq<char>>)
    requires
        lex_le(x, k),
        forall|j: int| 0 <= j < s.len() ==> lex_le(x, #[trigger] s[j]),
    ensures
        forall|j: int|
            0 <= j < insert_sorted(k, s).len() ==> lex_le(x, #[trigger] insert_sorted(k, s)[j]),
    decreases s.len(),
{
    if s.len() == 0 {
        assert(insert_sorted(k, s) =~= seq![k]);
    } else if lex_le(k, s[0]) {
        assert forall|j: int| 0 <= j < insert_sorted(k, s).len() implies lex_le(
            x,
            #[trigger] insert_sorted(k, s)[j],
        ) by {
            if j > 0 {
                assert(insert_sorted(k, s)[j] == s[j - 1]);
            }
        }
    } else {
        assert forall|j: int| 0 <= j < s.drop_first().len() implies lex_le(
            x,
            #[trigger] s.drop_first()[j],
        ) by {
            assert(s.drop_first()[j] == s[j + 1]);
        }
        lemma_lower_bound_insert(x, k, s.drop_first());
        assert forall|j: int| 0 <= j < insert_sorted(k, s).len() implies lex_le(
            x,
            #[trigger] insert_sorted(k, s)[j],
        ) by {
            if j > 0 {
                assert(insert_sorted(k, s)[j] == insert_sorted(k, s.drop_first())[j - 1]);
            }
        }
    }
}

proof fn lemma_insert_preserves_sorted(k: Seq<char>, s: Seq<Seq<char>>)
    requires
        sorted_keys(s),
    ensures
        sorted_keys(insert_sorted(k, s)),
    decreases s.len(),
{
    if s.len() == 0 {
        assert(insert_sorted(k, s) =~= seq![k]);
    } else if lex_le(k, s[0]) {
        let out = insert_sorted(k, s);
        assert(out =~= seq![k] + s);
        assert forall|i: int, j: int| 0 <= i < j < out.len() implies lex_le(
            #[trigger] out[i],
            #[trigger] out[j],
        ) by {
            if i == 0 {
                assert(out[j] == s[j - 1]);
                if j > 1 {
                    assert(lex_le(s[0], s[j - 1]));
                    lemma_lex_trans(k, s[0], s[j - 1]);
                }
            } else {
                assert(out[i] == s[i - 1] && out[j] == s[j - 1]);
            }
        }
    } else {
        let rest = s.drop_first();
        assert forall|i: int, j: int| 0 <= i < j < rest.len() implies lex_le(
            #[trigger] rest[i],
            #[trigger] rest[j],
        ) by {
            assert(rest[i] == s[i + 1] && rest[j] == s[j + 1]);
        }
        lemma_insert_preserves_sorted(k, rest);
        lemma_lex_total(k, s[0]);
        assert forall|j: int| 0 <= j < rest.len() implies lex_le(s[0], #[trigger] rest[j]) by {
            assert(rest[j] == s[j + 1]);
        }
        lemma_lower_bound_insert(s[0], k, rest);
        let out = insert_sorted(k, s);
        assert(out =~= seq![s[0]] + insert_sorted(k, rest));
        assert forall|i: int, j: int| 0 <= i < j < out.len() implies lex_le(
            #[trigger] out[i],
            #[trigger] out[j],
        ) by {
            if i == 0 {
                assert(out[j] == insert_sorted(k, rest)[j - 1]);
            } else {
                assert(out[i] == insert_sorted(k, rest)[i - 1] && out[j] == insert_sorted(
                    k,
                    rest,
                )[j - 1]);
            }
        }
    }
}

/// Law: the key order the env serializer writes is sorted
/// lexicographically.
pub proof fn lemma_sort_keys_sorted(s: Seq<Seq<char>>)
    ensures
        sorted_keys(sort_keys(s)),
    decreases s.len(),
{
    if s.len() == 0 {
        assert(sorted_keys(sort_keys(s)));
    } else {
        lemma_sort_keys_sorted(s.drop_first());
        lemma_insert_preserves_sorted(s[0], sort_keys(s.drop_first()));
    }
}

/// The keys of an object, in entry order.
pub open spec fn obj_keys(o: ObjV) -> Seq<Seq<char>>
    decreases o,
{
    match o {
        ObjV::Nil => Seq::empty(),
        ObjV::Entry(k, _v, rest) => seq![k] + obj_keys(*rest),
    }
}

/// Collects an object's keys in entry order.
pub fn obj_keys_exec(o: &DocObj) -> (r: Vec<String>)
    ensures
        seq_views(r@) == obj_keys(o@),
    decreases *o,
{
    match o {
        DocObj::Nil => {
            let r: Vec<String> = Vec::new();
            assert(seq_views(r@) =~= obj_keys(o@));
            r
        },
        DocObj::Entry(k, _v, rest) => {
            let mut r = obj_keys_exec(&**rest);
            r.insert(0, k.clone());
            assert(seq_views(r@) =~= obj_keys(o@));
            r
        },
    }
}

/// The text an environment value serializes to: a string value as it
/// stands, null as empty text, anything else as its JSON text.
pub open spec fn env_value_text(v: DocV) -> Seq<char> {
    match v {
        DocV::Text(s) => s,
        DocV::Null => Seq::empty(),
        _ => json_text(v),
    }
}

/// Writes an environment value as env-file text.
pub fn stringify_env_value(value: &Doc) -> (r: String)
    ensures
        r@ == env_value_text(value@),
{
    match value {
        Doc::Text(s) => s.clone(),
        Doc::Null => String::new(),
        Doc::Literal(s) => s.clone(),
        Doc::Obj(_) => doc_json_text(value),
    }
}

/// One `KEY=VALUE` line, newline included; a key the object does not
/// bind writes an empty value.
pub open spec fn env_line(k: Seq<char>, o: ObjV) -> Seq<char> {
    let value = match o.lookup(k) {
        Some(v) => env_value_text(v),
        None => Seq::empty(),
    };
    k + "="@ + value + "\n"@
}

/// The concatenated lines for the given keys, in order.
pub open spec fn env_lines(ks: Seq<Seq<char>>, o: ObjV) -> Seq<char>
    decreases ks.len(),
{
    if ks.len() == 0 {
        Seq::empty()
    } else {
        env_line(ks[0], o) + env_lines(ks.drop_first(), o)
    }
}

/// The env-file text of an environment object: one line per key, keys
/// sorted lexicographically, trailing newline, empty map to empty
/// text.
pub open spec fn env_text_spec(o: ObjV) -> Seq<char> {
    env_lines(sort_keys(obj_keys(o)), o)
}

/// Serializes an environment object to env-file text.
pub fn stringify_env_map(env: &DocObj) -> (r: String)
    ensures
        r@ == env_text_spec(env@),
{
    let keys = sort_keys_exec(obj_keys_exec(env));
    let n = keys.len();
    let mut out = String::new();
    let mut i: usize = 0;
    proof {
        assert(seq_views(keys@).skip(0) =~= seq_views(keys@));
        assert(out@ + env_lines(seq_views(keys@), env@) =~= env_text_spec(env@));
    }
    while i < n
        invariant
            0 <= i <= n,
            n == keys@.len(),
            seq_views(keys@) == sort_keys(obj_keys(env@)),
            out@ + env_lines(seq_views(keys@).skip(i as int), env@) == env_text_spec(env@),
        decreases n - i,
    {
        let ghost rest = seq_views(keys@).skip(i as int);
        proof {
            assert(rest[0] == keys@[i as int]@);
            assert(rest.drop_first() =~= seq_views(keys@).skip(i + 1));
        }
        let key = &keys[i];
        out.append(key.as_str());
        out.append("=");
        match env.get(key.as_str()) {
            Some(v) => {
                let vt = stringify_env_value(v);
                out.append(vt.as_str());
            },
            None => {},
        }
        out.append("\n");
        proof {
            assert(env_lines(rest, env@) == env_line(key@, env@) + env_lines(
                seq_views(keys@).skip(i + 1),
                env@,
            ));
            assert(out@ + env_lines(seq_views(keys@).skip(i + 1), env@) =~= env_text_spec(
                env@,
            ));
        }
        i += 1;
    }
    proof {
        assert(seq_views(keys@).skip(n as int) =~= Seq::<Seq<char>>::empty());
        assert(env_lines(Seq::<Seq<char>>::empty(), env@) =~= Seq::<char>::empty());
        assert(out@ + Seq::<char>::empty() =~= out@);
    }
    out
}

// ---------------------------------------------------------------------
// The parse/serialize round trip.
// ---------------------------------------------------------------------
/// A key the env-file text round-trips: non-empty, free of `=` and
/// line breaks, not opening a comment, without surrounding whitespace.
pub open spec fn env_key_ok(k: Seq<char>) -> bool {
    k.len() > 0 && k[0] != '#' && !is_space(k[0]) && !is_space(k.last()) && forall|i: int|
        0 <= i < k.len() ==> #[trigger] k[i] != '=' && k[i] != '\n' && k[i] != '\r'
}

/// A value the env-file text round-trips: free of line breaks,
/// without surrounding whitespace or double quotes.
pub open spec fn env_value_ok(v: Seq<char>) -> bool {
    (forall|i: int| 0 <= i < v.len() ==> #[trigger] v[i] != '\n' && v[i] != '\r') && (v.len() > 0
        ==> !is_space(v[0]) && !is_space(v.last()) && v[0] != '"' && v.last() != '"')
}

/// Whether the object binds `k` to a round-trippable string value.
pub open spec fn env_binding_ok(o: ObjV, k: Seq<char>) -> bool {
    match o.lookup(k) {
        Some(DocV::Text(tv)) => env_value_ok(tv),
        _ => false,
    }
}

/// An environment object the text format round-trips: unique
/// round-trippable keys, every value a round-trippable string.
pub open spec fn wf_env_obj(o: ObjV) -> bool
    decreases o,
{
    match o {
        ObjV::Nil => true,
        ObjV::Entry(k, v, rest) => env_key_ok(k) && (match *v {
            DocV::Text(tv) => env_value_ok(tv),
            _ => false,
        }) && !rest.contains_key(k) && wf_env_obj(*rest),
    }
}

/// A round-trippable `KEY=VALUE` line parses back to its pair.
proof fn lemma_env_line_parses(k: Seq<char>, v: Seq<char>)
    requires
        env_key_ok(k),
        env_value_ok(v),
    ensures
        env_entry_of_line(k + "="@ + v) == Some((k, v)),
{
    reveal_strlit("=");
    let t = k + "="@ + v;
    assert(t.len() == k.len() + 1 + v.len());
    assert(t[0] == k[0]);
    if v.len() > 0 {
        assert(t.last() == v.last());
    } else {
        assert(t.last() == '=');
    }
    crate::strutil::lemma_trimmed_id(t);
    assert(t[k.len() as int] == '=');
    assert forall|j: int| 0 <= j < k.len() implies t[j] != '=' by {
        assert(t[j] == k[j]);
    }
    crate::strutil::lemma_find_char_at(t, '=', k.len() as int);
    assert(t.take(k.len() as int) =~= k);
    crate::strutil::lemma_trimmed_id(k);
    assert(t.skip(k.len() as int + 1) =~= v);
    crate::strutil::lemma_trimmed_id(v);
    crate::strutil::lemma_strip_id(v, '"');
}

/// Splitting text that opens with a break-free line takes that line
/// off the front.
proof fn lemma_split_lines_prefix(l: Seq<char>, rest: Seq<char>)
    requires
        forall|i: int| 0 <= i < l.len() ==> #[trigger] l[i] != '\n' && l[i] != '\r',
    ensures
        split_lines(l + "\n"@ + rest) == seq![l] + split_lines(rest),
{
    reveal_strlit("\n");
    let s = l + "\n"@ + rest;
    assert(s.len() == l.len() + 1 + rest.len());
    assert(s[l.len() as int] == '\n');
    assert forall|j: int| 0 <= j < l.len() implies s[j] != '\n' by {
        assert(s[j] == l[j]);
    }
    crate::strutil::lemma_find_char_at(s, '\n', l.len() as int);
    assert(s.take(l.len() as int) =~= l);
    assert(chomp(l) == l);
    assert(s.skip(l.len() as int + 1) =~= rest);
    assert(split_lines(s) =~= seq![l] + split_lines(rest));
}

/// The value text a key serializes to.
pub open spec fn env_value_of(o: ObjV, k: Seq<char>) -> Seq<char> {
    match o.lookup(k) {
        Some(v) => env_value_text(v),
        None => Seq::empty(),
    }
}

/// The serialized lines for the given keys, without their newlines.
pub open spec fn env_lines_list(ks: Seq<Seq<char>>, o: ObjV) -> Seq<Seq<char>> {
    Seq::new(ks.len(), |i: int| ks[i] + "="@ + env_value_of(o, ks[i]))
}

proof fn lemma_env_lines_split(ks: Seq<Seq<char>>, o: ObjV)
    requires
        forall|i: int| 0 <= i < ks.len() ==> env_key_ok(#[trigger] ks[i]),
        forall|i: int| 0 <= i < ks.len() ==> env_binding_ok(o, #[trigger] ks[i]),
    ensures
        split_lines(env_lines(ks, o)) == env_lines_list(ks, o),
    decreases ks.len(),
{
    reveal_strlit("=");
    if ks.len() == 0 {
        assert(env_lines(ks, o) =~= Seq::<char>::empty());
        assert(split_lines(Seq::<char>::empty()) =~= env_lines_list(ks, o));
    } else {
        let l = ks[0] + "="@ + env_value_of(o, ks[0]);
        assert(env_line(ks[0], o) =~= l + "\n"@);
        assert(env_lines(ks, o) =~= (l + "\n"@) + env_lines(ks.drop_first(), o));
        assert(env_lines(ks, o) =~= l + "\n"@ + env_lines(ks.drop_first(), o));
        let tv = match o.lookup(ks[0]) {
            Some(DocV::Text(t)) => t,
            _ => Seq::empty(),
        };
        assert(env_value_of(o, ks[0]) == tv);
        assert forall|i: int| 0 <= i < l.len() implies #[trigger] l[i] != '\n' && l[i]
            != '\r' by {
            if i < ks[0].len() {
                assert(l[i] == ks[0][i]);
            } else if i == ks[0].len() {
                assert(l[i] == '=');
            } else {
                assert(l[i] == tv[i - ks[0].len() - 1]);
            }
        }
        lemma_split_lines_prefix(l, env_lines(ks.drop_first(), o));
        assert forall|i: int| 0 <= i < ks.drop_first().len() implies env_key_ok(
            #[trigger] ks.drop_first()[i],
        ) && env_binding_ok(o, ks.drop_first()[i]) by {
            assert(ks.drop_first()[i] == ks[i + 1]);
        }
        lemma_env_lines_split(ks.drop_first(), o);
        assert(env_lines_list(ks.drop_first(), o) =~= env_lines_list(ks, o).drop_first());
        assert(seq![l] + env_lines_list(ks, o).drop_first() =~= env_lines_list(ks, o));
    }
}

/// Folding round-trippable lines into an accumulator binds exactly
/// the listed keys to their serialized values.
proof fn lemma_env_fold_lookup(ks: Seq<Seq<char>>, o: ObjV, acc: ObjV, k: Seq<char>)
    requires
        forall|i: int| 0 <= i < ks.len() ==> env_key_ok(#[trigger] ks[i]),
        forall|i: int| 0 <= i < ks.len() ==> env_binding_ok(o, #[trigger] ks[i]),
    ensures
        env_fold(env_lines_list(ks, o), acc).lookup(k) == if ks.contains(k) {
            o.lookup(k)
        } else {
            acc.lookup(k)
        },
    decreases ks.len(),
{
    if ks.len() == 0 {
        assert(env_lines_list(ks, o) =~= Seq::<Seq<char>>::empty());
        assert(!ks.contains(k));
    } else {
        let lines = env_lines_list(ks, o);
        let tv = match o.lookup(ks[0]) {
            Some(DocV::Text(t)) => t,
            _ => Seq::empty(),
        };
        assert(env_value_of(o, ks[0]) == tv);
        lemma_env_line_parses(ks[0], tv);
        assert(lines[0] == ks[0] + "="@ + tv);
        assert(env_entry_of_line(lines[0]) == Some((ks[0], tv)));
        let acc_next = acc.upsert(ks[0], DocV::Text(tv));
        assert(env_apply_line(acc, lines[0]) == acc_next);
        assert(env_fold(lines, acc) == env_fold(lines.drop_first(), acc_next));
        assert(lines.drop_first() =~= env_lines_list(ks.drop_first(), o));
        assert forall|i: int| 0 <= i < ks.drop_first().len() implies env_key_ok(
            #[trigger] ks.drop_first()[i],
        ) && env_binding_ok(o, ks.drop_first()[i]) by {
            assert(ks.drop_first()[i] == ks[i + 1]);
        }
        lemma_env_fold_lookup(ks.drop_first(), o, acc_next, k);
        crate::doc::lemma_upsert_lookup(acc, ks[0], DocV::Text(tv));
        if ks.drop_first().contains(k) {
            let wi = choose|i: int|
                0 <= i < ks.drop_first().len() && ks.drop_first()[i] == k;
            assert(ks[wi + 1] == k);
            assert(ks.contains(k));
        } else if k == ks[0] {
            assert(ks.contains(k));
            assert(acc_next.lookup(k) == Some(DocV::Text(tv)));
            assert(o.lookup(k) == Some(DocV::Text(tv)));
        } else {
            assert(acc_next.lookup(k) == acc.lookup(k));
            if ks.contains(k) {
                let wi = choose|i: int| 0 <= i < ks.len() && ks[i] == k;
                assert(wi != 0);
                assert(ks.drop_first()[wi - 1] == k);
                assert(ks.drop_first().contains(k));
            }
        }
    }
}

/// Insertion keeps exactly the old elements plus the new one.
proof fn lemma_insert_sorted_contains(k: Seq<char>, s: Seq<Seq<char>>, x: Seq<char>)
    ensures
        insert_sorted(k, s).contains(x) <==> (x == k || s.contains(x)),
    decreases s.len(),
{
    if s.len() == 0 {
        assert(insert_sorted(k, s) =~= seq![k]);
        assert(insert_sorted(k, s)[0] == k);
        if insert_sorted(k, s).contains(x) {
            let wi = choose|i: int|
                0 <= i < insert_sorted(k, s).len() && insert_sorted(k, s)[i] == x;
            assert(x == k);
        }
    } else if lex_le(k, s[0]) {
        let out = insert_sorted(k, s);
        assert(out =~= seq![k] + s);
        if out.contains(x) {
            let wi = choose|i: int| 0 <= i < out.len() && out[i] == x;
            if wi == 0 {
                assert(x == k);
            } else {
                assert(s[wi - 1] == x);
                assert(s.contains(x));
            }
        }
        if x == k {
            assert(out[0] == x);
        }
        if s.contains(x) {
            let wi = choose|i: int| 0 <= i < s.len() && s[i] == x;
            assert(out[wi + 1] == x);
        }
    } else {
        lemma_insert_sorted_contains(k, s.drop_first(), x);
        let out = insert_sorted(k, s);
        assert(out =~= seq![s[0]] + insert_sorted(k, s.drop_first()));
        if out.contains(x) {
            let wi = choose|i: int| 0 <= i < out.len() && out[i] == x;
            if wi == 0 {
                assert(s[0] == x);
                assert(s.contains(x));
            } else {
                assert(insert_sorted(k, s.drop_first())[wi - 1] == x);
                assert(insert_sorted(k, s.drop_first()).contains(x));
                if x != k {
                    let wj = choose|i: int|
                        0 <= i < s.drop_first().len() && s.drop_first()[i] == x;
                    assert(s[wj + 1] == x);
                    assert(s.contains(x));
                }
            }
        }
        if x == k {
            assert(insert_sorted(k, s.drop_first()).contains(x));
            let wi = choose|i: int|
                0 <= i < insert_sorted(k, s.drop_first()).len() && insert_sorted(
                    k,
                    s.drop_first(),
                )[i] == x;
            assert(out[wi + 1] == x);
        }
        if s.contains(x) {
            let wi = choose|i: int| 0 <= i < s.len() && s[i] == x;
            if wi == 0 {
                assert(out[0] == x);
            } else {
                assert(s.drop_first()[wi - 1] == x);
                assert(s.drop_first().contains(x));
                assert(insert_sorted(k, s.drop_first()).contains(x));
                let wj = choose|i: int|
                    0 <= i < insert_sorted(k, s.drop_first()).len() && insert_sorted(
                        k,
                        s.drop_first(),
                    )[i] == x;
                assert(out[wj + 1] == x);
            }
        }
    }
}

/// Sorting keeps exactly the same elements.
pub proof fn lemma_sort_keys_contains(s: Seq<Seq<char>>, x: Seq<char>)
    ensures
        sort_keys(s).contains(x) <==> s.contains(x),
    decreases s.len(),
{
    if s.len() > 0 {
        lemma_sort_keys_contains(s.drop_first(), x);
        lemma_insert_sorted_contains(s[0], sort_keys(s.drop_first()), x);
        if s.contains(x) {
            let wi = choose|i: int| 0 <= i < s.len() && s[i] == x;
            if wi > 0 {
                assert(s.drop_first()[wi - 1] == x);
                assert(s.drop_first().contains(x));
            }
        }
        if x != s[0] && s.drop_first().contains(x) {
            let wi = choose|i: int| 0 <= i < s.drop_first().len() && s.drop_first()[i] == x;
            assert(s[wi + 1] == x);
        }
        if x == s[0] {
            assert(s.contains(x));
        }
    }
}

/// In a round-trippable object, the listed keys are exactly the bound
/// ones, each round-trippable with its value.
proof fn lemma_wf_env_keys(o: ObjV, k: Seq<char>)
    requires
        wf_env_obj(o),
    ensures
        obj_keys(o).contains(k) <==> o.lookup(k) is Some,
        obj_keys(o).contains(k) ==> env_key_ok(k) && env_binding_ok(o, k),
    decreases o,
{
    match o {
        ObjV::Nil => {
            if obj_keys(o).contains(k) {
                let wi = choose|i: int| 0 <= i < obj_keys(o).len() && obj_keys(o)[i] == k;
                assert(false);
            }
        },
        ObjV::Entry(key, val, rest) => {
            lemma_wf_env_keys(*rest, k);
            assert(obj_keys(o) =~= seq![key] + obj_keys(*rest));
            if k == key {
                assert(obj_keys(o)[0] == k);
                assert(obj_keys(o).contains(k));
            } else {
                if obj_keys(o).contains(k) {
                    let wi = choose|i: int| 0 <= i < obj_keys(o).len() && obj_keys(o)[i] == k;
                    assert(wi != 0);
                    assert(obj_keys(*rest)[wi - 1] == k);
                    assert(obj_keys(*rest).contains(k));
                }
                if obj_keys(*rest).contains(k) {
                    let wi = choose|i: int|
                        0 <= i < obj_keys(*rest).len() && obj_keys(*rest)[i] == k;
                    assert(obj_keys(o)[wi + 1] == k);
                    assert(obj_keys(o).contains(k));
                }
            }
        },
    }
}

/// Law: serializing a round-trippable environment object to env-file
/// text and parsing the text back restores exactly the original
/// bindings.
pub proof fn lemma_env_round_trip(o: ObjV, k: Seq<char>)
    requires
        wf_env_obj(o),
    ensures
        env_parse_spec(env_text_spec(o)).lookup(k) == o.lookup(k),
{
    let ks = sort_keys(obj_keys(o));
    assert forall|i: int| 0 <= i < ks.len() implies env_key_ok(#[trigger] ks[i])
        && env_binding_ok(o, ks[i]) by {
        assert(ks.contains(ks[i]));
        lemma_sort_keys_contains(obj_keys(o), ks[i]);
        lemma_wf_env_keys(o, ks[i]);
    }
    lemma_env_lines_split(ks, o);
    lemma_env_fold_lookup(ks, o, ObjV::Nil, k);
    lemma_sort_keys_contains(obj_keys(o), k);
    lemma_wf_env_keys(o, k);
    assert(env_parse_spec(env_text_spec(o)) == env_fold(env_lines_list(ks, o), ObjV::Nil));
}

} // verus!
