//! JSON values, their textual form, and a parser for the wire format.
//!
//! `JsonV` is the mathematical model of a JSON document; `Json` is the
//! executable representation.  Numbers keep their literal text, so no
//! floating point is involved and a number round-trips verbatim.

use vstd::prelude::*;

verus! {

broadcast use vstd::seq::group_seq_axioms, vstd::std_specs::vec::group_vec_axioms;

/// Mathematical model of a JSON document.
pub enum JsonV {
    Null,
    Bool(bool),
    /// A number, kept as its literal text.
    Num(Seq<char>),
    Str(Seq<char>),
    Arr(Seq<JsonV>),
    Obj(Seq<(Seq<char>, JsonV)>),
}

/// Executable JSON document.
pub enum Json {
    Null,
    Bool(bool),
    /// A number, kept as its literal text.
    Num(String),
    Str(String),
    Arr(Vec<Json>),
    Obj(Vec<(String, Json)>),
}

/// The model of an executable JSON document.
pub open spec fn json_view(j: Json) -> JsonV
    decreases j, 1int,
{
    match j {
        Json::Null => JsonV::Null,
        Json::Bool(b) => JsonV::Bool(b),
        Json::Num(s) => JsonV::Num(s@),
        Json::Str(s) => JsonV::Str(s@),
        Json::Arr(es) => JsonV::Arr(json_views(es@)),
        Json::Obj(ms) => JsonV::Obj(json_member_views(ms@)),
    }
}

/// The models of a sequence of executable JSON documents.
pub open spec fn json_views(es: Seq<Json>) -> Seq<JsonV>
    decreases es, 0int,
{
    if es.len() == 0 {
        Seq::empty()
    } else {
        seq![json_view(es[0])] + json_views(es.drop_first())
    }
}

/// The models of a sequence of executable JSON object members.
pub open spec fn json_member_views(ms: Seq<(String, Json)>) -> Seq<(Seq<char>, JsonV)>
    decreases ms, 0int,
{
    if ms.len() == 0 {
        Seq::empty()
    } else {
        seq![(ms[0].0@, json_view(ms[0].1))] + json_member_views(ms.drop_first())
    }
}

impl View for Json {
    type V = JsonV;

    open spec fn view(&self) -> JsonV {
        json_view(*self)
    }
}

// ------------------------------------------------------------------
// Textual form
// ------------------------------------------------------------------

/// The decimal digit or lower-case hex digit for a value below sixteen.
pub open spec fn hex_digit(n: int) -> char {
    if n == 0 {
        '0'
    } else if n == 1 {
        '1'
    } else if n == 2 {
        '2'
    } else if n == 3 {
        '3'
    } else if n == 4 {
        '4'
    } else if n == 5 {
        '5'
    } else if n == 6 {
        '6'
    } else if n == 7 {
        '7'
    } else if n == 8 {
        '8'
    } else if n == 9 {
        '9'
    } else if n == 10 {
        'a'
    } else if n == 11 {
        'b'
    } else if n == 12 {
        'c'
    } else if n == 13 {
        'd'
    } else if n == 14 {
        'e'
    } else {
        'f'
    }
}

/// How one character of a string is written inside quotes.
pub open spec fn esc_char(c: char) -> Seq<char> {
    if c == '"' {
        seq!['\\', '"']
    } else if c == '\\' {
        seq!['\\', '\\']
    } else if c == '\n' {
        seq!['\\', 'n']
    } else if c == '\r' {
        seq!['\\', 'r']
    } else if c == '\t' {
        seq!['\\', 't']
    } else if c == '\u{8}' {
        seq!['\\', 'b']
    } else if c == '\u{c}' {
        seq!['\\', 'f']
    } else if (c as u32) < 32 {
        seq!['\\', 'u', '0', '0', hex_digit((c as u32) as int / 16), hex_digit((c as u32) as int % 16)]
    } else {
        seq![c]
    }
}

/// The body of a string literal: every character escaped as needed.
pub open spec fn str_text(s: Seq<char>) -> Seq<char>
    decreases s.len(),
{
    if s.len() == 0 {
        Seq::empty()
    } else {
        esc_char(s[0]) + str_text(s.drop_first())
    }
}

/// The textual form of a JSON document, with no inter-token spacing.
pub open spec fn json_text(v: JsonV) -> Seq<char>
    decreases v, 1int,
{
    match v {
        JsonV::Null => seq!['n', 'u', 'l', 'l'],
        JsonV::Bool(b) => if b {
            seq!['t', 'r', 'u', 'e']
        } else {
            seq!['f', 'a', 'l', 's', 'e']
        },
        JsonV::Num(raw) => raw,
        JsonV::Str(s) => seq!['"'] + str_text(s) + seq!['"'],
        JsonV::Arr(es) => seq!['['] + elems_text(es) + seq![']'],
        JsonV::Obj(ms) => seq!['{'] + members_text(ms) + seq!['}'],
    }
}

/// The comma-separated textual forms of array elements.
pub open spec fn elems_text(es: Seq<JsonV>) -> Seq<char>
    decreases es, 0int,
{
    if es.len() == 0 {
        Seq::empty()
    } else if es.len() == 1 {
        json_text(es[0])
    } else {
        json_text(es[0]) + seq![','] + elems_text(es.drop_first())
    }
}

/// The comma-separated textual forms of object members.
pub open spec fn members_text(ms: Seq<(Seq<char>, JsonV)>) -> Seq<char>
    decreases ms, 0int,
{
    if ms.len() == 0 {
        Seq::empty()
    } else {
        let m = seq!['"'] + str_text(ms[0].0) + seq!['"'] + seq![':'] + json_text(ms[0].1);
        if ms.len() == 1 {
            m
        } else {
            m + seq![','] + members_text(ms.drop_first())
        }
    }
}

// ------------------------------------------------------------------
// Facts about the model and the textual form
// ------------------------------------------------------------------

/// `json_views` maps `json_view` over the sequence.
pub proof fn lemma_json_views(es: Seq<Json>)
    ensures
        json_views(es).len() == es.len(),
        forall|i: int| 0 <= i < es.len() ==> json_views(es)[i] == json_view(es[i]),
    decreases es.len(),
{
    if es.len() > 0 {
        lemma_json_views(es.drop_first());
    }
}

/// `json_member_views` maps key and value views over the sequence.
pub proof fn lemma_json_member_views(ms: Seq<(String, Json)>)
    ensures
        json_member_views(ms).len() == ms.len(),
        forall|i: int|
            0 <= i < ms.len() ==> json_member_views(ms)[i] == (ms[i].0@, json_view(ms[i].1)),
    decreases ms.len(),
{
    if ms.len() > 0 {
        lemma_json_member_views(ms.drop_first());
    }
}

/// Escaping a string one character at a time, from the left.
pub proof fn lemma_str_text_push(s: Seq<char>, c: char)
    ensures
        str_text(s.push(c)) == str_text(s) + esc_char(c),
    decreases s.len(),
{
    if s.len() == 0 {
        let sp = s.push(c);
        assert(sp.drop_first() =~= Seq::<char>::empty());
        assert(str_text(sp.drop_first()) =~= Seq::<char>::empty());
        assert(str_text(sp) =~= esc_char(sp[0]) + str_text(sp.drop_first()));
        assert(str_text(s.push(c)) =~= str_text(s) + esc_char(c));
    } else {
        assert(s.push(c).drop_first() =~= s.drop_first().push(c));
        lemma_str_text_push(s.drop_first(), c);
        assert(str_text(s.push(c)) =~= str_text(s) + esc_char(c));
    }
}

/// Writing one more array element appends a comma and its text.
pub proof fn lemma_elems_text_push(es: Seq<JsonV>, v: JsonV)
    ensures
        elems_text(es.push(v)) == if es.len() == 0 {
            json_text(v)
        } else {
            elems_text(es) + seq![','] + json_text(v)
        },
    decreases es.len(),
{
    if es.len() == 0 {
        assert(es.push(v).len() == 1);
        assert(es.push(v)[0] == v);
    } else {
        assert(es.push(v).drop_first() =~= es.drop_first().push(v));
        lemma_elems_text_push(es.drop_first(), v);
        if es.len() == 1 {
            assert(elems_text(es.push(v)) =~= elems_text(es) + seq![','] + json_text(v));
        } else {
            assert(elems_text(es.push(v)) =~= elems_text(es) + seq![','] + json_text(v));
        }
    }
}

/// Writing one more object member appends a comma and its text.
pub proof fn lemma_members_text_push(ms: Seq<(Seq<char>, JsonV)>, k: Seq<char>, v: JsonV)
    ensures
        members_text(ms.push((k, v))) == if ms.len() == 0 {
            seq!['"'] + str_text(k) + seq!['"'] + seq![':'] + json_text(v)
        } else {
            members_text(ms) + seq![','] + seq!['"'] + str_text(k) + seq!['"'] + seq![':'] + json_text(v)
        },
    decreases ms.len(),
{
    let m = seq!['"'] + str_text(k) + seq!['"'] + seq![':'] + json_text(v);
    if ms.len() == 0 {
        assert(ms.push((k, v)).len() == 1);
        assert(ms.push((k, v))[0] == (k, v));
    } else {
        assert(ms.push((k, v)).drop_first() =~= ms.drop_first().push((k, v)));
        lemma_members_text_push(ms.drop_first(), k, v);
        assert(members_text(ms.push((k, v))) =~= members_text(ms) + seq![','] + m);
    }
}

// ------------------------------------------------------------------
// Executable helpers
// ------------------------------------------------------------------

/// The characters of a string slice, one by one.
pub fn str_chars(s: &str) -> (r: Vec<char>)
    ensures
        r@ == s@,
{
    let n = s.unicode_len();
    let mut r: Vec<char> = Vec::new();
    let mut i: usize = 0;
    while i < n
        invariant
            i <= n,
            n == s@.len(),
            r@ == s@.take(i as int),
        decreases n - i,
    {
        r.push(s.get_char(i));
        i = i + 1;
        assert(r@ =~= s@.take(i as int));
    }
    assert(r@ =~= s@);
    r
}

/// Relies on `String: FromIterator<char>`: collecting characters yields
/// the string made of exactly those characters in order.
#[verifier::external_body]
pub fn chars_to_string(v: &Vec<char>) -> (r: String)
    ensures
        r@ == v@,
{
    v.iter().collect()
}

/// Relies on `char::from_u32`: it returns the character with the given
/// code point, and `None` exactly for surrogates and values past the
/// highest code point.
#[verifier::external_body]
pub(crate) fn char_from_u32(v: u32) -> (r: Option<char>)
    ensures
        r matches Some(c) ==> c == v as char && c as u32 == v,
        r is Some <==> (v < 0xD800 || (0xE000 <= v && v < 0x110000)),
{
    char::from_u32(v)
}

/// Character-by-character string equality.
pub fn str_eq(a: &str, b: &str) -> (r: bool)
    ensures
        r == (a@ == b@),
{
    let na = a.unicode_len();
    let nb = b.unicode_len();
    if na != nb {
        return false;
    }
    let mut i: usize = 0;
    while i < na
        invariant
            i <= na,
            na == a@.len(),
            na == b@.len(),
            forall|k: int| 0 <= k < i ==> a@[k] == b@[k],
        decreases na - i,
    {
        if a.get_char(i) != b.get_char(i) {
            return false;
        }
        i = i + 1;
    }
    proof {
        assert(a@ =~= b@);
    }
    true
}

// ------------------------------------------------------------------
// Writing
// ------------------------------------------------------------------

/// The lower-case hex digit for a value below sixteen.
fn hex_digit_x(n: u32) -> (c: char)
    requires
        n < 16,
    ensures
        c == hex_digit(n as int),
{
    if n == 0 {
        '0'
    } else if n == 1 {
        '1'
    } else if n == 2 {
        '2'
    } else if n == 3 {
        '3'
    } else if n == 4 {
        '4'
    } else if n == 5 {
        '5'
    } else if n == 6 {
        '6'
    } else if n == 7 {
        '7'
    } else if n == 8 {
        '8'
    } else if n == 9 {
        '9'
    } else if n == 10 {
        'a'
    } else if n == 11 {
        'b'
    } else if n == 12 {
        'c'
    } else if n == 13 {
        'd'
    } else if n == 14 {
        'e'
    } else {
        'f'
    }
}

/// Writes one string character, escaped as the textual form demands.
fn push_esc(out: &mut Vec<char>, c: char)
    ensures
        final(out)@ == old(out)@ + esc_char(c),
{
    if c == '"' {
        out.push('\\');
        out.push('"');
    } else if c == '\\' {
        out.push('\\');
        out.push('\\');
    } else if c == '\n' {
        out.push('\\');
        out.push('n');
    } else if c == '\r' {
        out.push('\\');
        out.push('r');
    } else if c == '\t' {
        out.push('\\');
        out.push('t');
    } else if c == '\u{8}' {
        out.push('\\');
        out.push('b');
    } else if c == '\u{c}' {
        out.push('\\');
        out.push('f');
    } else if (c as u32) < 32 {
        let v = c as u32;
        out.push('\\');
        out.push('u');
        out.push('0');
        out.push('0');
        out.push(hex_digit_x(v / 16));
        out.push(hex_digit_x(v % 16));
        assert(out@ =~= old(out)@ + esc_char(c));
    } else {
        out.push(c);
        assert(out@ =~= old(out)@ + esc_char(c));
    }
    assert(out@ =~= old(out)@ + esc_char(c));
}

/// Writes the body of a string literal.
fn write_str_body(out: &mut Vec<char>, s: &str)
    ensures
        final(out)@ == old(out)@ + str_text(s@),
{
    let cs = str_chars(s);
    let n = cs.len();
    let mut i: usize = 0;
    while i < n
        invariant
            i <= n,
            n == cs@.len(),
            cs@ == s@,
            out@ == old(out)@ + str_text(s@.take(i as int)),
        decreases n - i,
    {
        push_esc(out, cs[i]);
        proof {
            assert(s@.take(i + 1 as int) =~= s@.take(i as int).push(s@[i as int]));
            lemma_str_text_push(s@.take(i as int), s@[i as int]);
        }
        i = i + 1;
    }
    proof {
        assert(s@.take(n as int) =~= s@);
    }
}

/// Writes the textual form of a document.
fn write_value(j: &Json, out: &mut Vec<char>)
    ensures
        final(out)@ == old(out)@ + json_text(j@),
    decreases j,
{
    match j {
        Json::Null => {
            out.push('n');
            out.push('u');
            out.push('l');
            out.push('l');
            assert(out@ =~= old(out)@ + json_text(j@));
        },
        Json::Bool(b) => {
            if *b {
                out.push('t');
                out.push('r');
                out.push('u');
                out.push('e');
            } else {
                out.push('f');
                out.push('a');
                out.push('l');
                out.push('s');
                out.push('e');
            }
            assert(out@ =~= old(out)@ + json_text(j@));
        },
        Json::Num(raw) => {
            let cs = str_chars(raw.as_str());
            let n = cs.len();
            let mut i: usize = 0;
            while i < n
                invariant
                    i <= n,
                    n == cs@.len(),
                    cs@ == raw@,
                    out@ == old(out)@ + raw@.take(i as int),
                decreases n - i,
            {
                out.push(cs[i]);
                proof {
                    assert(out@ =~= old(out)@ + raw@.take(i + 1 as int));
                }
                i = i + 1;
            }
            assert(out@ =~= old(out)@ + json_text(j@));
        },
        Json::Str(s) => {
            out.push('"');
            write_str_body(out, s.as_str());
            out.push('"');
            assert(out@ =~= old(out)@ + json_text(j@));
        },
        Json::Arr(es) => {
            out.push('[');
            let n = es.len();
            let mut i: usize = 0;
            proof {
                lemma_json_views(es@);
            }
            while i < n
                invariant
                    i <= n,
                    n == es@.len(),
                    json_views(es@).len() == es@.len(),
                    forall|k: int| 0 <= k < es@.len() ==> json_views(es@)[k] == json_view(es@[k]),
                    out@ == old(out)@ + seq!['['] + elems_text(json_views(es@).take(i as int)),
                    decreases_to!(*j => *es),
                decreases n - i,
            {
                if i > 0 {
                    out.push(',');
                }
                proof {
                    assert(decreases_to!(*es => es@));
                    assert(decreases_to!(es@ => es@[i as int]));
                }
                write_value(&es[i], out);
                proof {
                    let vs = json_views(es@);
                    assert(vs.take(i + 1 as int) =~= vs.take(i as int).push(vs[i as int]));
                    lemma_elems_text_push(vs.take(i as int), vs[i as int]);
                    assert(out@ =~= old(out)@ + seq!['['] + elems_text(vs.take(i + 1 as int)));
                }
                i = i + 1;
            }
            out.push(']');
            proof {
                assert(json_views(es@).take(n as int) =~= json_views(es@));
                assert(out@ =~= old(out)@ + json_text(j@));
            }
        },
        Json::Obj(ms) => {
            out.push('{');
            let n = ms.len();
            let mut i: usize = 0;
            proof {
                lemma_json_member_views(ms@);
            }
            while i < n
                invariant
                    i <= n,
                    n == ms@.len(),
                    json_member_views(ms@).len() == ms@.len(),
                    forall|k: int|
                        0 <= k < ms@.len() ==> json_member_views(ms@)[k] == (
                        ms@[k].0@,
                        json_view(ms@[k].1),
                        ),
                    out@ == old(out)@ + seq!['{'] + members_text(json_member_views(ms@).take(i as int)),
                    decreases_to!(*j => *ms),
                decreases n - i,
            {
                if i > 0 {
                    out.push(',');
                }
                out.push('"');
                write_str_body(out, ms[i].0.as_str());
                out.push('"');
                out.push(':');
                proof {
                    assert(decreases_to!(*ms => ms@));
                    assert(decreases_to!(ms@ => ms@[i as int]));
                    assert(decreases_to!(ms@[i as int] => ms@[i as int].1));
                }
                write_value(&ms[i].1, out);
                proof {
                    let vs = json_member_views(ms@);
                    assert(vs.take(i + 1 as int) =~= vs.take(i as int).push(vs[i as int]));
                    lemma_members_text_push(vs.take(i as int), ms@[i as int].0@, json_view(ms@[i as int].1));
                    assert(out@ =~= old(out)@ + seq!['{'] + members_text(vs.take(i + 1 as int)));
                }
                i = i + 1;
            }
            out.push('}');
            proof {
                assert(json_member_views(ms@).take(n as int) =~= json_member_views(ms@));
                assert(out@ =~= old(out)@ + json_text(j@));
            }
        },
    }
}

impl Json {
    /// The textual form of this document, as a line of JSON.
    pub fn to_text(&self) -> (r: String)
        ensures
            r@ == json_text(self@),
    {
        let mut out: Vec<char> = Vec::new();
        write_value(self, &mut out);
        chars_to_string(&out)
    }
}

// ------------------------------------------------------------------
// Grammar
// ------------------------------------------------------------------
//
// The functions below define, in specification land, exactly which lines
// the parser accepts and which document each accepted line denotes.  They
// scan a character sequence from a position and yield the parsed piece
// together with the position just after it.  Nesting of arrays and
// objects is bounded by `JSON_MAX_DEPTH`, so recursion into a nested
// document is measured by the remaining depth, and recursion along a
// sequence of elements by the remaining input.

/// Deepest accepted nesting of arrays and objects.
pub const JSON_MAX_DEPTH: u32 = 128;

/// JSON inter-token whitespace.
pub open spec fn is_ws(c: char) -> bool {
    c == ' ' || c == '\t' || c == '\n' || c == '\r'
}

/// The first position at or after `i` that does not hold whitespace.
pub open spec fn skip_ws(s: Seq<char>, i: int) -> int
    decreases s.len() - i,
{
    if 0 <= i < s.len() && is_ws(s[i]) {
        skip_ws(s, i + 1)
    } else {
        i
    }
}

/// Skipping whitespace never moves backwards nor past the end.
pub proof fn lemma_skip_ws_bounds(s: Seq<char>, i: int)
    requires
        0 <= i <= s.len(),
    ensures
        i <= skip_ws(s, i) <= s.len(),
    decreases s.len() - i,
{
    if i < s.len() && is_ws(s[i]) {
        lemma_skip_ws_bounds(s, i + 1);
    }
}

pub open spec fn is_digit(c: char) -> bool {
    48 <= c as u32 && c as u32 <= 57
}

pub open spec fn is_hex(c: char) -> bool {
    is_digit(c) || (97 <= c as u32 && c as u32 <= 102) || (65 <= c as u32 && c as u32 <= 70)
}

/// The numeric value of a hex digit; meaningful only when `is_hex` holds.
pub open spec fn hex_val(c: char) -> u32 {
    if is_digit(c) {
        (c as u32 - 48) as u32
    } else if 97 <= c as u32 && c as u32 <= 102 {
        (c as u32 - 87) as u32
    } else {
        (c as u32 - 55) as u32
    }
}

/// One string escape after the backslash: the character it denotes and
/// the position after the escape.  A `\u` escape must name a Unicode
/// scalar value, so surrogate halves are refused.
pub open spec fn sp_escape(s: Seq<char>, i: int) -> Option<(char, int)> {
    if !(0 <= i < s.len()) {
        None
    } else {
        let c = s[i];
        if c == '"' || c == '\\' || c == '/' {
            Some((c, i + 1))
        } else if c == 'b' {
            Some(('\u{8}', i + 1))
        } else if c == 'f' {
            Some(('\u{c}', i + 1))
        } else if c == 'n' {
            Some(('\n', i + 1))
        } else if c == 'r' {
            Some(('\r', i + 1))
        } else if c == 't' {
            Some(('\t', i + 1))
        } else if c == 'u' {
            if i + 4 < s.len() && is_hex(s[i + 1]) && is_hex(s[i + 2]) && is_hex(s[i + 3]) && is_hex(s[i + 4]) {
                let v = hex_val(s[i + 1]) * 0x1000 + hex_val(s[i + 2]) * 0x100 + hex_val(s[i + 3]) * 0x10 + hex_val(s[i + 4]);
                if 0xD800 <= v < 0xE000 {
                    None
                } else {
                    Some((v as char, i + 5))
                }
            } else {
                None
            }
        } else {
            None
        }
    }
}

/// The body of a string literal from `i` (just inside the opening
/// quote): the denoted characters and the position after the closing
/// quote.
pub open spec fn sp_string(s: Seq<char>, i: int) -> Option<(Seq<char>, int)>
    decreases s.len() - i,
{
    if !(0 <= i < s.len()) {
        None
    } else {
        let c = s[i];
        if c == '"' {
            Some((Seq::empty(), i + 1))
        } else if c == '\\' {
            match sp_escape(s, i + 1) {
                None => None,
                Some((e, j)) => if j > i {
                    match sp_string(s, j) {
                        None => None,
                        Some((rest, end)) => Some((seq![e] + rest, end)),
                    }
                } else {
                    None
                },
            }
        } else if (c as u32) < 32 {
            None
        } else {
            match sp_string(s, i + 1) {
                None => None,
                Some((rest, end)) => Some((seq![c] + rest, end)),
            }
        }
    }
}

/// The position after the run of decimal digits starting at `i`.
pub open spec fn end_digits(s: Seq<char>, i: int) -> int
    decreases s.len() - i,
{
    if 0 <= i < s.len() && is_digit(s[i]) {
        end_digits(s, i + 1)
    } else {
        i
    }
}

/// The position after the integer part of a number starting at `i`:
/// either a single `0` or a nonzero digit followed by more digits.
pub open spec fn end_int_part(s: Seq<char>, i: int) -> Option<int> {
    if !(0 <= i < s.len() && is_digit(s[i])) {
        None
    } else if s[i] == '0' {
        Some(i + 1)
    } else {
        Some(end_digits(s, i))
    }
}

/// The position after the optional fraction part at `i`.
pub open spec fn end_frac_part(s: Seq<char>, i: int) -> Option<int> {
    if 0 <= i < s.len() && s[i] == '.' {
        let j = end_digits(s, i + 1);
        if j > i + 1 {
            Some(j)
        } else {
            None
        }
    } else {
        Some(i)
    }
}

/// The position after the optional exponent part at `i`.
pub open spec fn end_exp_part(s: Seq<char>, i: int) -> Option<int> {
    if 0 <= i < s.len() && (s[i] == 'e' || s[i] == 'E') {
        let j = if i + 1 < s.len() && (s[i + 1] == '+' || s[i + 1] == '-') {
            i + 2
        } else {
            i + 1
        };
        let k = end_digits(s, j);
        if k > j {
            Some(k)
        } else {
            None
        }
    } else {
        Some(i)
    }
}

/// A number literal from `i`: its text and the position after it.
pub open spec fn sp_number(s: Seq<char>, i: int) -> Option<(Seq<char>, int)> {
    let j = if 0 <= i < s.len() && s[i] == '-' {
        i + 1
    } else {
        i
    };
    match end_int_part(s, j) {
        None => None,
        Some(k) => match end_frac_part(s, k) {
            None => None,
            Some(m) => match end_exp_part(s, m) {
                None => None,
                Some(end) => Some((s.subrange(i, end), end)),
            },
        },
    }
}

/// Whether `word` occurs at position `i` of `s`.
pub open spec fn word_at(s: Seq<char>, i: int, word: Seq<char>) -> bool {
    0 <= i && i + word.len() <= s.len() && s.subrange(i, i + word.len()) == word
}

/// A document from position `i`, with `d` levels of nesting allowed:
/// the document and the position after it.
pub open spec fn sp_value(s: Seq<char>, i: int, d: nat) -> Option<(JsonV, int)>
    decreases d, s.len() - i, 0int,
    via sp_value_decreases
{
    if !(0 <= i < s.len()) {
        None
    } else {
        let c = s[i];
        if c == '"' {
            match sp_string(s, i + 1) {
                None => None,
                Some((cs, j)) => Some((JsonV::Str(cs), j)),
            }
        } else if c == '-' || is_digit(c) {
            match sp_number(s, i) {
                None => None,
                Some((raw, j)) => Some((JsonV::Num(raw), j)),
            }
        } else if c == 't' {
            if word_at(s, i, seq!['t', 'r', 'u', 'e']) {
                Some((JsonV::Bool(true), i + 4))
            } else {
                None
            }
        } else if c == 'f' {
            if word_at(s, i, seq!['f', 'a', 'l', 's', 'e']) {
                Some((JsonV::Bool(false), i + 5))
            } else {
                None
            }
        } else if c == 'n' {
            if word_at(s, i, seq!['n', 'u', 'l', 'l']) {
                Some((JsonV::Null, i + 4))
            } else {
                None
            }
        } else if c == '[' {
            if d == 0 {
                None
            } else {
                let j = skip_ws(s, i + 1);
                if j < s.len() && s[j] == ']' {
                    Some((JsonV::Arr(Seq::empty()), j + 1))
                } else if j > i {
                    match sp_elems(s, j, (d - 1) as nat) {
                        None => None,
                        Some((es, k)) => Some((JsonV::Arr(es), k)),
                    }
                } else {
                    None
                }
            }
        } else if c == '{' {
            if d == 0 {
                None
            } else {
                let j = skip_ws(s, i + 1);
                if j < s.len() && s[j] == '}' {
                    Some((JsonV::Obj(Seq::empty()), j + 1))
                } else if j > i {
                    match sp_members(s, j, (d - 1) as nat) {
                        None => None,
                        Some((ms, k)) => Some((JsonV::Obj(ms), k)),
                    }
                } else {
                    None
                }
            }
        } else {
            None
        }
    }
}

/// Array elements from position `i` up to and including the closing
/// bracket: the elements and the position after the bracket.
pub open spec fn sp_elems(s: Seq<char>, i: int, d: nat) -> Option<(Seq<JsonV>, int)>
    decreases d, s.len() - i, 1int,
    via sp_elems_decreases
{
    match sp_value(s, i, d) {
        None => None,
        Some((v, j)) => {
            let k = skip_ws(s, j);
            if k < s.len() && s[k] == ',' {
                let m = skip_ws(s, k + 1);
                if m > i {
                    match sp_elems(s, m, d) {
                        None => None,
                        Some((rest, end)) => Some((seq![v] + rest, end)),
                    }
                } else {
                    None
                }
            } else if k < s.len() && s[k] == ']' {
                Some((seq![v], k + 1))
            } else {
                None
            }
        },
    }
}

/// Object members from position `i` up to and including the closing
/// brace: the key-value pairs and the position after the brace.
pub open spec fn sp_members(s: Seq<char>, i: int, d: nat) -> Option<(Seq<(Seq<char>, JsonV)>, int)>
    decreases d, s.len() - i, 1int,
    via sp_members_decreases
{
    if !(0 <= i < s.len() && s[i] == '"') {
        None
    } else {
        match sp_string(s, i + 1) {
            None => None,
            Some((key, j)) => {
                let k = skip_ws(s, j);
                if k < s.len() && s[k] == ':' {
                    let m = skip_ws(s, k + 1);
                    if m > i {
                        match sp_value(s, m, d) {
                            None => None,
                            Some((v, j2)) => {
                                let k2 = skip_ws(s, j2);
                                if k2 < s.len() && s[k2] == ',' {
                                    let m2 = skip_ws(s, k2 + 1);
                                    if m2 > i {
                                        match sp_members(s, m2, d) {
                                            None => None,
                                            Some((rest, end)) => Some((seq![(key, v)] + rest, end)),
                                        }
                                    } else {
                                        None
                                    }
                                } else if k2 < s.len() && s[k2] == '}' {
                                    Some((seq![(key, v)], k2 + 1))
                                } else {
                                    None
                                }
                            },
                        }
                    } else {
                        None
                    }
                } else {
                    None
                }
            },
        }
    }
}

#[via_fn]
proof fn sp_value_decreases(s: Seq<char>, i: int, d: nat) {
    assert forall|k: int| 0 <= k <= s.len() implies k <= #[trigger] skip_ws(s, k) <= s.len() by {
        lemma_skip_ws_bounds(s, k);
    }
}

#[via_fn]
proof fn sp_elems_decreases(s: Seq<char>, i: int, d: nat) {
    assert forall|k: int| 0 <= k <= s.len() implies k <= #[trigger] skip_ws(s, k) <= s.len() by {
        lemma_skip_ws_bounds(s, k);
    }
}

#[via_fn]
proof fn sp_members_decreases(s: Seq<char>, i: int, d: nat) {
    assert forall|k: int| 0 <= k <= s.len() implies k <= #[trigger] skip_ws(s, k) <= s.len() by {
        lemma_skip_ws_bounds(s, k);
    }
}

/// The document denoted by a whole line, if the line is well-formed
/// JSON within the supported nesting depth.
pub open spec fn parse_json(s: Seq<char>) -> Option<JsonV> {
    match sp_value(s, skip_ws(s, 0), JSON_MAX_DEPTH as nat) {
        None => None,
        Some((v, j)) => if skip_ws(s, j) == s.len() {
            Some(v)
        } else {
            None
        },
    }
}

// ------------------------------------------------------------------
// Reading
// ------------------------------------------------------------------

/// Appending one document to a parsed prefix.
proof fn lemma_json_views_push(es: Seq<Json>, v: Json)
    ensures
        json_views(es.push(v)) == json_views(es) + seq![json_view(v)],
    decreases es.len(),
{
    let sp = es.push(v);
    if es.len() == 0 {
        assert(sp[0] == v);
        assert(sp.drop_first() =~= Seq::<Json>::empty());
        assert(json_views(sp.drop_first()) =~= Seq::<JsonV>::empty());
        assert(json_views(sp) =~= seq![json_view(sp[0])] + json_views(sp.drop_first()));
        assert(json_views(sp) =~= json_views(es) + seq![json_view(v)]);
    } else {
        assert(sp[0] == es[0]);
        assert(sp.drop_first() =~= es.drop_first().push(v));
        lemma_json_views_push(es.drop_first(), v);
        assert(json_views(sp) =~= seq![json_view(sp[0])] + json_views(sp.drop_first()));
        assert(json_views(es) =~= seq![json_view(es[0])] + json_views(es.drop_first()));
        assert(json_views(sp) =~= json_views(es) + seq![json_view(v)]);
    }
}

/// Appending one member to a parsed prefix.
proof fn lemma_json_member_views_push(ms: Seq<(String, Json)>, m: (String, Json))
    ensures
        json_member_views(ms.push(m)) == json_member_views(ms) + seq![(m.0@, json_view(m.1))],
    decreases ms.len(),
{
    let sp = ms.push(m);
    if ms.len() == 0 {
        assert(sp[0] == m);
        assert(sp.drop_first() =~= Seq::<(String, Json)>::empty());
        assert(json_member_views(sp.drop_first()) =~= Seq::<(Seq<char>, JsonV)>::empty());
        assert(json_member_views(sp) =~= seq![(sp[0].0@, json_view(sp[0].1))]
            + json_member_views(sp.drop_first()));
        assert(json_member_views(sp) =~= json_member_views(ms) + seq![(m.0@, json_view(m.1))]);
    } else {
        assert(sp[0] == ms[0]);
        assert(sp.drop_first() =~= ms.drop_first().push(m));
        lemma_json_member_views_push(ms.drop_first(), m);
        assert(json_member_views(sp) =~= seq![(sp[0].0@, json_view(sp[0].1))]
            + json_member_views(sp.drop_first()));
        assert(json_member_views(ms) =~= seq![(ms[0].0@, json_view(ms[0].1))]
            + json_member_views(ms.drop_first()));
        assert(json_member_views(sp) =~= json_member_views(ms) + seq![(m.0@, json_view(m.1))]);
    }
}

/// Scanning digits never moves backwards nor past the end.
proof fn lemma_end_digits_bounds(s: Seq<char>, i: int)
    requires
        0 <= i <= s.len(),
    ensures
        i <= end_digits(s, i) <= s.len(),
    decreases s.len() - i,
{
    if i < s.len() && is_digit(s[i]) {
        lemma_end_digits_bounds(s, i + 1);
    }
}

/// Scans past whitespace.
#[verifier::loop_isolation(false)]
fn x_skip_ws(s: &Vec<char>, i: usize) -> (r: usize)
    requires
        i <= s@.len(),
    ensures
        r as int == skip_ws(s@, i as int),
        i <= r <= s@.len(),
{
    let n = s.len();
    let mut cur = i;
    while cur < n && (s[cur] == ' ' || s[cur] == '\t' || s[cur] == '\n' || s[cur] == '\r')
        invariant
            i <= cur <= n,
            skip_ws(s@, i as int) == skip_ws(s@, cur as int),
        decreases n - cur,
    {
        cur = cur + 1;
    }
    cur
}

/// Scans past decimal digits.
#[verifier::loop_isolation(false)]
fn x_digits(s: &Vec<char>, i: usize) -> (r: usize)
    requires
        i <= s@.len(),
    ensures
        r as int == end_digits(s@, i as int),
        i <= r <= s@.len(),
{
    let n = s.len();
    let mut cur = i;
    while cur < n && 48 <= s[cur] as u32 && s[cur] as u32 <= 57
        invariant
            i <= cur <= n,
            end_digits(s@, i as int) == end_digits(s@, cur as int),
        decreases n - cur,
    {
        cur = cur + 1;
    }
    cur
}

/// A copy of the characters between two positions.
#[verifier::loop_isolation(false)]
fn copy_range(s: &Vec<char>, i: usize, j: usize) -> (r: Vec<char>)
    requires
        i <= j <= s@.len(),
    ensures
        r@ == s@.subrange(i as int, j as int),
{
    let mut r: Vec<char> = Vec::new();
    let mut cur = i;
    while cur < j
        invariant
            i <= cur <= j,
            r@ == s@.subrange(i as int, cur as int),
        decreases j - cur,
    {
        r.push(s[cur]);
        proof {
            assert(r@ =~= s@.subrange(i as int, cur + 1 as int));
        }
        cur = cur + 1;
    }
    r
}

/// The value of one hex digit, if the character is one.
fn x_hex_val(c: char) -> (r: Option<u32>)
    ensures
        match r {
            Some(v) => is_hex(c) && v == hex_val(c) && v < 16,
            None => !is_hex(c),
        },
{
    let u = c as u32;
    if 48 <= u && u <= 57 {
        Some(u - 48)
    } else if 97 <= u && u <= 102 {
        Some(u - 87)
    } else if 65 <= u && u <= 70 {
        Some(u - 55)
    } else {
        None
    }
}

/// Reads one string escape after the backslash.
fn x_escape(s: &Vec<char>, i: usize) -> (r: Option<(char, usize)>)
    requires
        i <= s@.len(),
    ensures
        match r {
            Some((c, j)) => sp_escape(s@, i as int) == Some((c, j as int)) && i < j <= s@.len(),
            None => sp_escape(s@, i as int) is None,
        },
{
    if i >= s.len() {
        return None;
    }
    let c = s[i];
    if c == '"' || c == '\\' || c == '/' {
        Some((c, i + 1))
    } else if c == 'b' {
        Some(('\u{8}', i + 1))
    } else if c == 'f' {
        Some(('\u{c}', i + 1))
    } else if c == 'n' {
        Some(('\n', i + 1))
    } else if c == 'r' {
        Some(('\r', i + 1))
    } else if c == 't' {
        Some(('\t', i + 1))
    } else if c == 'u' {
        if s.len() - i > 4 {
            let h1 = x_hex_val(s[i + 1]);
            let h2 = x_hex_val(s[i + 2]);
            let h3 = x_hex_val(s[i + 3]);
            let h4 = x_hex_val(s[i + 4]);
            match (h1, h2, h3, h4) {
                (Some(v1), Some(v2), Some(v3), Some(v4)) => {
                    let v = v1 * 0x1000 + v2 * 0x100 + v3 * 0x10 + v4;
                    if 0xD800 <= v && v < 0xE000 {
                        None
                    } else {
                        match char_from_u32(v) {
                            Some(e) => Some((e, i + 5)),
                            None => {
                                proof {
                                    assert(false);
                                }
                                None
                            },
                        }
                    }
                },
                _ => None,
            }
        } else {
            None
        }
    } else {
        None
    }
}

/// Reads the body of a string literal, from just inside the opening
/// quote through the closing quote.
#[verifier::loop_isolation(false)]
fn x_string(s: &Vec<char>, i: usize) -> (r: Option<(Vec<char>, usize)>)
    requires
        i <= s@.len(),
    ensures
        match r {
            Some((cs, j)) => sp_string(s@, i as int) == Some((cs@, j as int)) && i < j <= s@.len(),
            None => sp_string(s@, i as int) is None,
        },
{
    let n = s.len();
    let mut acc: Vec<char> = Vec::new();
    let mut cur = i;
    while cur < n
        invariant
            i <= cur <= n,
            match sp_string(s@, cur as int) {
                Some((rest, end)) => sp_string(s@, i as int) == Some((acc@ + rest, end)),
                None => sp_string(s@, i as int) is None,
            },
        decreases n - cur,
    {
        let c = s[cur];
        if c == '"' {
            proof {
                assert(acc@ + Seq::<char>::empty() =~= acc@);
            }
            return Some((acc, cur + 1));
        } else if c == '\\' {
            match x_escape(s, cur + 1) {
                None => {
                    return None;
                },
                Some((e, j)) => {
                    proof {
                        let ghost0 = sp_string(s@, j as int);
                        match ghost0 {
                            Some((rest, end)) => {
                                assert(sp_string(s@, cur as int) == Some((seq![e] + rest, end)));
                                assert(acc@ + (seq![e] + rest) =~= (acc@ + seq![e]) + rest);
                            },
                            None => {},
                        }
                    }
                    let ghost acc0 = acc@;
                    acc.push(e);
                    proof {
                        assert(acc@ =~= acc0 + seq![e]);
                    }
                    cur = j;
                },
            }
        } else if (c as u32) < 32 {
            return None;
        } else {
            proof {
                let ghost0 = sp_string(s@, cur + 1 as int);
                match ghost0 {
                    Some((rest, end)) => {
                        assert(sp_string(s@, cur as int) == Some((seq![c] + rest, end)));
                        assert(acc@ + (seq![c] + rest) =~= (acc@ + seq![c]) + rest);
                    },
                    None => {},
                }
            }
            acc.push(c);
            cur = cur + 1;
        }
    }
    None
}

/// Reads a number literal.
#[verifier::loop_isolation(false)]
fn x_number(s: &Vec<char>, i: usize) -> (r: Option<(Vec<char>, usize)>)
    requires
        i <= s@.len(),
    ensures
        match r {
            Some((raw, j)) => sp_number(s@, i as int) == Some((raw@, j as int)) && i < j <= s@.len(),
            None => sp_number(s@, i as int) is None,
        },
{
    let n = s.len();
    let j = if i < n && s[i] == '-' {
        i + 1
    } else {
        i
    };
    if !(j < n && 48 <= s[j] as u32 && s[j] as u32 <= 57) {
        return None;
    }
    let k = if s[j] == '0' {
        j + 1
    } else {
        proof {
            lemma_end_digits_bounds(s@, j + 1 as int);
        }
        x_digits(s, j)
    };
    assert(k > j);
    let m = if k < n && s[k] == '.' {
        let m0 = x_digits(s, k + 1);
        if m0 > k + 1 {
            m0
        } else {
            return None;
        }
    } else {
        k
    };
    let end = if m < n && (s[m] == 'e' || s[m] == 'E') {
        let e0 = if m + 1 < n && (s[m + 1] == '+' || s[m + 1] == '-') {
            m + 2
        } else {
            m + 1
        };
        let e1 = x_digits(s, e0);
        if e1 > e0 {
            e1
        } else {
            return None;
        }
    } else {
        m
    };
    let raw = copy_range(s, i, end);
    Some((raw, end))
}

/// Reads one document, with `d` levels of nesting allowed.
#[verifier::loop_isolation(false)]
fn x_value(s: &Vec<char>, i: usize, d: u32) -> (r: Option<(Json, usize)>)
    requires
        i <= s@.len(),
    ensures
        match r {
            Some((v, j)) => sp_value(s@, i as int, d as nat) == Some((v@, j as int)) && i < j
                <= s@.len(),
            None => sp_value(s@, i as int, d as nat) is None,
        },
    decreases d, 1int,
{
    let n = s.len();
    if i >= n {
        return None;
    }
    let c = s[i];
    if c == '"' {
        match x_string(s, i + 1) {
            None => None,
            Some((cs, j)) => Some((Json::Str(chars_to_string(&cs)), j)),
        }
    } else if c == '-' || (48 <= c as u32 && c as u32 <= 57) {
        match x_number(s, i) {
            None => None,
            Some((raw, j)) => {
                proof {
                    assert(j > i);
                }
                Some((Json::Num(chars_to_string(&raw)), j))
            },
        }
    } else if c == 't' {
        if n - i > 3 && s[i + 1] == 'r' && s[i + 2] == 'u' && s[i + 3] == 'e' {
            proof {
                assert(s@.subrange(i as int, i + 4 as int) =~= seq!['t', 'r', 'u', 'e']);
            }
            Some((Json::Bool(true), i + 4))
        } else {
            proof {
                assert(!word_at(s@, i as int, seq!['t', 'r', 'u', 'e']));
            }
            None
        }
    } else if c == 'f' {
        if n - i > 4 && s[i + 1] == 'a' && s[i + 2] == 'l' && s[i + 3] == 's' && s[i + 4] == 'e' {
            proof {
                assert(s@.subrange(i as int, i + 5 as int) =~= seq!['f', 'a', 'l', 's', 'e']);
            }
            Some((Json::Bool(false), i + 5))
        } else {
            proof {
                assert(!word_at(s@, i as int, seq!['f', 'a', 'l', 's', 'e']));
            }
            None
        }
    } else if c == 'n' {
        if n - i > 3 && s[i + 1] == 'u' && s[i + 2] == 'l' && s[i + 3] == 'l' {
            proof {
                assert(s@.subrange(i as int, i + 4 as int) =~= seq!['n', 'u', 'l', 'l']);
            }
            Some((Json::Null, i + 4))
        } else {
            proof {
                assert(!word_at(s@, i as int, seq!['n', 'u', 'l', 'l']));
            }
            None
        }
    } else if c == '[' {
        if d == 0 {
            return None;
        }
        x_array(s, i, d)
    } else if c == '{' {
        if d == 0 {
            return None;
        }
        x_object(s, i, d)
    } else {
        None
    }
}

/// Reads an array, standing on its opening bracket.
#[verifier::loop_isolation(false)]
fn x_array(s: &Vec<char>, i: usize, d: u32) -> (r: Option<(Json, usize)>)
    requires
        i < s@.len(),
        s@[i as int] == '[',
        d >= 1,
    ensures
        match r {
            Some((v, j)) => sp_value(s@, i as int, d as nat) == Some((v@, j as int)) && i < j
                <= s@.len(),
            None => sp_value(s@, i as int, d as nat) is None,
        },
    decreases d, 0int,
{
    let n = s.len();
    {
        let m0 = x_skip_ws(s, i + 1);
        if m0 < n && s[m0] == ']' {
            proof {
                assert(json_views(Seq::<Json>::empty()) =~= Seq::<JsonV>::empty());
            }
            return Some((Json::Arr(Vec::new()), m0 + 1));
        }
        let mut acc: Vec<Json> = Vec::new();
        let mut cur = m0;
        loop
            invariant
                m0 <= cur <= n,
                match sp_elems(s@, cur as int, (d - 1) as nat) {
                    Some((rest, end)) => sp_elems(s@, m0 as int, (d - 1) as nat) == Some(
                        (json_views(acc@) + rest, end),
                    ),
                    None => sp_elems(s@, m0 as int, (d - 1) as nat) is None,
                },
            decreases n - cur,
        {
            match x_value(s, cur, d - 1) {
                None => {
                    return None;
                },
                Some((v, j)) => {
                    let k = x_skip_ws(s, j);
                    if k < n && s[k] == ',' {
                        let m = x_skip_ws(s, k + 1);
                        proof {
                            let ghost0 = sp_elems(s@, m as int, (d - 1) as nat);
                            match ghost0 {
                                Some((rest, end)) => {
                                    assert(sp_elems(s@, cur as int, (d - 1) as nat) == Some(
                                        (seq![v@] + rest, end),
                                    ));
                                    lemma_json_views_push(acc@, v);
                                    assert(json_views(acc@) + (seq![v@] + rest) =~= json_views(
                                        acc@.push(v),
                                    ) + rest);
                                },
                                None => {},
                            }
                        }
                        acc.push(v);
                        cur = m;
                    } else if k < n && s[k] == ']' {
                        proof {
                            assert(sp_elems(s@, cur as int, (d - 1) as nat) == Some(
                                (seq![v@], k + 1 as int),
                            ));
                            lemma_json_views_push(acc@, v);
                            assert(json_views(acc@) + seq![v@] =~= json_views(acc@.push(v)));
                        }
                        acc.push(v);
                        return Some((Json::Arr(acc), k + 1));
                    } else {
                        return None;
                    }
                },
            }
        }
    }
}

/// Reads an object, standing on its opening brace.
#[verifier::loop_isolation(false)]
fn x_object(s: &Vec<char>, i: usize, d: u32) -> (r: Option<(Json, usize)>)
    requires
        i < s@.len(),
        s@[i as int] == '{',
        d >= 1,
    ensures
        match r {
            Some((v, j)) => sp_value(s@, i as int, d as nat) == Some((v@, j as int)) && i < j
                <= s@.len(),
            None => sp_value(s@, i as int, d as nat) is None,
        },
    decreases d, 0int,
{
    let n = s.len();
    {
        let m0 = x_skip_ws(s, i + 1);
        if m0 < n && s[m0] == '}' {
            proof {
                assert(json_member_views(Seq::<(String, Json)>::empty()) =~= Seq::<
                    (Seq<char>, JsonV),
                >::empty());
            }
            return Some((Json::Obj(Vec::new()), m0 + 1));
        }
        let mut acc: Vec<(String, Json)> = Vec::new();
        let mut cur = m0;
        loop
            invariant
                m0 <= cur <= n,
                match sp_members(s@, cur as int, (d - 1) as nat) {
                    Some((rest, end)) => sp_members(s@, m0 as int, (d - 1) as nat) == Some(
                        (json_member_views(acc@) + rest, end),
                    ),
                    None => sp_members(s@, m0 as int, (d - 1) as nat) is None,
                },
            decreases n - cur,
        {
            if !(cur < n && s[cur] == '"') {
                return None;
            }
            match x_string(s, cur + 1) {
                None => {
                    return None;
                },
                Some((key_cs, j0)) => {
                    let k0 = x_skip_ws(s, j0);
                    if !(k0 < n && s[k0] == ':') {
                        return None;
                    }
                    let m1 = x_skip_ws(s, k0 + 1);
                    match x_value(s, m1, d - 1) {
                        None => {
                            return None;
                        },
                        Some((v, j2)) => {
                            let key = chars_to_string(&key_cs);
                            let k2 = x_skip_ws(s, j2);
                            if k2 < n && s[k2] == ',' {
                                let m2 = x_skip_ws(s, k2 + 1);
                                proof {
                                    let ghost0 = sp_members(s@, m2 as int, (d - 1) as nat);
                                    match ghost0 {
                                        Some((rest, end)) => {
                                            assert(sp_members(s@, cur as int, (d - 1) as nat)
                                                == Some((seq![(key_cs@, v@)] + rest, end)));
                                            lemma_json_member_views_push(acc@, (key, v));
                                            assert(json_member_views(acc@) + (seq![(key_cs@, v@)]
                                                + rest) =~= json_member_views(acc@.push((key, v)))
                                                + rest);
                                        },
                                        None => {},
                                    }
                                }
                                acc.push((key, v));
                                cur = m2;
                            } else if k2 < n && s[k2] == '}' {
                                proof {
                                    assert(sp_members(s@, cur as int, (d - 1) as nat) == Some(
                                        (seq![(key_cs@, v@)], k2 + 1 as int),
                                    ));
                                    lemma_json_member_views_push(acc@, (key, v));
                                    assert(json_member_views(acc@) + seq![(key_cs@, v@)]
                                        =~= json_member_views(acc@.push((key, v))));
                                }
                                acc.push((key, v));
                                return Some((Json::Obj(acc), k2 + 1));
                            } else {
                                return None;
                            }
                        },
                    }
                },
            }
        }
    }
}

// ------------------------------------------------------------------
// Access
// ------------------------------------------------------------------

/// The value of the first member with the given key.
pub open spec fn obj_get(ms: Seq<(Seq<char>, JsonV)>, k: Seq<char>) -> Option<JsonV>
    decreases ms.len(),
{
    if ms.len() == 0 {
        None
    } else if ms[0].0 == k {
        Some(ms[0].1)
    } else {
        obj_get(ms.drop_first(), k)
    }
}

/// The value of a field of an object; `None` on anything else.
pub open spec fn jv_get(v: JsonV, k: Seq<char>) -> Option<JsonV> {
    match v {
        JsonV::Obj(ms) => obj_get(ms, k),
        _ => None,
    }
}

impl Json {
    /// Whether this document is an object.
    pub fn is_object(&self) -> (r: bool)
        ensures
            r == (self@ is Obj),
    {
        match self {
            Json::Obj(_) => true,
            _ => false,
        }
    }

    /// The string this document holds, if it is a string.
    pub fn as_string(&self) -> (r: Option<&String>)
        ensures
            match r {
                Some(s) => self@ == JsonV::Str(s@),
                None => !(self@ is Str),
            },
    {
        match self {
            Json::Str(s) => Some(s),
            _ => None,
        }
    }

    /// The value of a field, if this document is an object with one.
    #[verifier::loop_isolation(false)]
    pub fn get<'a>(&'a self, key: &str) -> (r: Option<&'a Json>)
        ensures
            match r {
                Some(v) => jv_get(self@, key@) == Some(v@),
                None => jv_get(self@, key@) is None,
            },
    {
        match self {
            Json::Obj(ms) => {
                proof {
                    lemma_json_member_views(ms@);
                    assert(json_member_views(ms@).skip(0) =~= json_member_views(ms@));
                }
                let ghost vs = json_member_views(ms@);
                let n = ms.len();
                let mut i: usize = 0;
                while i < n
                    invariant
                        i <= n,
                        n == ms@.len(),
                        vs == json_member_views(ms@),
                        vs.len() == ms@.len(),
                        forall|k: int|
                            0 <= k < ms@.len() ==> vs[k] == (ms@[k].0@, json_view(ms@[k].1)),
                        obj_get(vs, key@) == obj_get(vs.skip(i as int), key@),
                    decreases n - i,
                {
                    proof {
                        assert(vs.skip(i as int)[0] == vs[i as int]);
                        assert(vs.skip(i as int).drop_first() =~= vs.skip(i + 1 as int));
                    }
                    if str_eq(ms[i].0.as_str(), key) {
                        proof {
                            assert(vs.skip(i as int)[0].0 == key@);
                            assert(obj_get(vs.skip(i as int), key@) == Some(vs[i as int].1));
                            assert(self@ == JsonV::Obj(vs));
                            assert(jv_get(self@, key@) == obj_get(vs, key@));
                            assert(jv_get(self@, key@) == Some(json_view(ms@[i as int].1)));
                        }
                        return Some(&ms[i].1);
                    }
                    i = i + 1;
                }
                proof {
                    assert(vs.skip(n as int) =~= Seq::<(Seq<char>, JsonV)>::empty());
                }
                None
            },
            _ => None,
        }
    }
}

impl Clone for Json {
    /// A structurally equal copy.
    fn clone(&self) -> (res: Json)
        ensures
            res@ == self@,
        decreases self,
    {
        match self {
            Json::Null => Json::Null,
            Json::Bool(b) => Json::Bool(*b),
            Json::Num(s) => Json::Num(s.clone()),
            Json::Str(s) => Json::Str(s.clone()),
            Json::Arr(es) => {
                let n = es.len();
                let mut out: Vec<Json> = Vec::new();
                let mut i: usize = 0;
                while i < n
                    invariant
                        i <= n,
                        n == es@.len(),
                        out@.len() == i,
                        forall|k: int| 0 <= k < i ==> #[trigger] json_view(out@[k]) == json_view(es@[k]),
                        decreases_to!(*self => *es),
                    decreases n - i,
                {
                    proof {
                        assert(decreases_to!(*es => es@));
                        assert(decreases_to!(es@ => es@[i as int]));
                    }
                    out.push(es[i].clone());
                    i = i + 1;
                }
                proof {
                    lemma_json_views(out@);
                    lemma_json_views(es@);
                    assert(json_views(out@) =~= json_views(es@));
                }
                Json::Arr(out)
            },
            Json::Obj(ms) => {
                let n = ms.len();
                let mut out: Vec<(String, Json)> = Vec::new();
                let mut i: usize = 0;
                while i < n
                    invariant
                        i <= n,
                        n == ms@.len(),
                        out@.len() == i,
                        forall|k: int|
                            0 <= k < i ==> (#[trigger] out@[k]).0@ == ms@[k].0@ && json_view(
                                out@[k].1,
                            ) == json_view(ms@[k].1),
                        decreases_to!(*self => *ms),
                    decreases n - i,
                {
                    proof {
                        assert(decreases_to!(*ms => ms@));
                        assert(decreases_to!(ms@ => ms@[i as int]));
                        assert(decreases_to!(ms@[i as int] => ms@[i as int].1));
                    }
                    out.push((ms[i].0.clone(), ms[i].1.clone()));
                    i = i + 1;
                }
                proof {
                    lemma_json_member_views(out@);
                    lemma_json_member_views(ms@);
                    assert(json_member_views(out@) =~= json_member_views(ms@));
                }
                Json::Obj(out)
            },
        }
    }
}

// ------------------------------------------------------------------
// Decimal text
// ------------------------------------------------------------------

/// The decimal digits of a natural number.
pub open spec fn dec_digits(n: nat) -> Seq<char>
    decreases n,
{
    if n < 10 {
        seq![hex_digit(n as int)]
    } else {
        dec_digits(n / 10) + seq![hex_digit((n % 10) as int)]
    }
}

/// The decimal text of an integer, with a sign when negative.
pub open spec fn int_text(n: int) -> Seq<char> {
    if n < 0 {
        seq!['-'] + dec_digits((-n) as nat)
    } else {
        dec_digits(n as nat)
    }
}

/// The decimal digits of a natural number, as characters.
fn u64_dec(n: u64) -> (r: Vec<char>)
    ensures
        r@ == dec_digits(n as nat),
    decreases n,
{
    if n < 10 {
        let mut r: Vec<char> = Vec::new();
        r.push(hex_digit_x(n as u32));
        proof {
            assert(r@ =~= dec_digits(n as nat));
        }
        r
    } else {
        let mut r = u64_dec(n / 10);
        r.push(hex_digit_x((n % 10) as u32));
        proof {
            assert(r@ =~= dec_digits((n / 10) as nat) + seq![hex_digit((n % 10) as int)]);
        }
        r
    }
}

/// The decimal text of a small natural number.
pub fn u32_to_string(n: u32) -> (r: String)
    ensures
        r@ == dec_digits(n as nat),
{
    let digits = u64_dec(n as u64);
    chars_to_string(&digits)
}

/// The decimal text of an integer.
pub fn int_to_string(n: i32) -> (r: String)
    ensures
        r@ == int_text(n as int),
{
    let wide: i64 = n as i64;
    if wide < 0 {
        let mut cs: Vec<char> = Vec::new();
        cs.push('-');
        let mut digits = u64_dec((-wide) as u64);
        let nd = digits.len();
        let mut i: usize = 0;
        while i < nd
            invariant
                i <= nd,
                nd == digits@.len(),
                cs@ == seq!['-'] + digits@.take(i as int),
            decreases nd - i,
        {
            cs.push(digits[i]);
            proof {
                assert(cs@ =~= seq!['-'] + digits@.take(i + 1 as int));
            }
            i = i + 1;
        }
        proof {
            assert(digits@.take(nd as int) =~= digits@);
        }
        chars_to_string(&cs)
    } else {
        let digits = u64_dec(wide as u64);
        chars_to_string(&digits)
    }
}

impl Json {
    /// The document a line denotes, if the line is well-formed JSON
    /// within the supported nesting depth.
    pub fn parse(line: &str) -> (r: Option<Json>)
        ensures
            match r {
                Some(v) => parse_json(line@) == Some(v@),
                None => parse_json(line@) is None,
            },
    {
        let s = str_chars(line);
        let start = x_skip_ws(&s, 0);
        match x_value(&s, start, JSON_MAX_DEPTH) {
            None => None,
            Some((v, j)) => {
                let e = x_skip_ws(&s, j);
                if e == s.len() {
                    Some(v)
                } else {
                    None
                }
            },
        }
    }
}

} // verus!
