//! The YAML rendering of results and error envelopes, the tool's default
//! output: mappings as `key: value` lines, lists as `- item` lines, nested
//! blocks indented by two spaces, and strings quoted where a plain scalar
//! could be read as something else.

use vstd::prelude::*;
use crate::client::{hex_char, hex_digit, hex_value};
use crate::json::{entry_models, lemma_entry_models_push, lemma_models_push, models, Json, JsonView};
use crate::text::{append_str, chars_of, decimal, eq_ignore_case, push_char, push_decimal, str_eq_ignore_case};

verus! {

/// Whether `c` is an ASCII letter.
pub open spec fn is_letter(c: char) -> bool {
    (65 <= (c as u32) <= 90) || (97 <= (c as u32) <= 122)
}

/// Whether `c` may stand in a plain (unquoted) scalar.
pub open spec fn is_plain_char(c: char) -> bool {
    is_letter(c) || (48 <= (c as u32) <= 57) || c == ' ' || c == '.' || c == '_' || c == '-' || c == '/'
        || c == '+' || c == ',' || c == '(' || c == ')'
}

/// The words a YAML reader takes for a boolean or null, compared up to ASCII case.
pub open spec fn reserved_word(t: Seq<char>) -> bool {
    eq_ignore_case(t, "y"@) || eq_ignore_case(t, "n"@) || eq_ignore_case(t, "yes"@) || eq_ignore_case(t, "no"@)
        || eq_ignore_case(t, "on"@) || eq_ignore_case(t, "off"@) || eq_ignore_case(t, "true"@)
        || eq_ignore_case(t, "false"@) || eq_ignore_case(t, "null"@)
}

/// Whether `t` can be written without quotes and still read back as the same
/// string: it starts with a letter, does not end in a space, holds only plain
/// characters, and is not a reserved word.
pub open spec fn plain_ok(t: Seq<char>) -> bool {
    &&& t.len() > 0
    &&& is_letter(t[0])
    &&& t.last() != ' '
    &&& forall|i: int| 0 <= i < t.len() ==> #[trigger] is_plain_char(t[i])
    &&& !reserved_word(t)
}

/// How one character appears inside a double-quoted scalar.
pub open spec fn escape_char(c: char) -> Seq<char> {
    if c == '"' {
        seq!['\\', '"']
    } else if c == '\\' {
        seq!['\\', '\\']
    } else if c == '\n' {
        seq!['\\', 'n']
    } else if c == '\r' {
        seq!['\\', 'r']
    } else if c == '\t' {
        seq!['\\', 't']
    } else if (c as u32) < 32 {
        seq!['\\', 'x', hex_digit(((c as u32) / 16) as nat), hex_digit(((c as u32) % 16) as nat)]
    } else {
        seq![c]
    }
}

/// The characters of `t`, each escaped.
pub open spec fn escape(t: Seq<char>) -> Seq<char>
    decreases t.len(),
{
    if t.len() == 0 {
        Seq::<char>::empty()
    } else {
        escape(t.drop_last()) + escape_char(t.last())
    }
}

/// A string as a scalar: plain where that is safe, else double-quoted.
pub open spec fn yaml_string(t: Seq<char>) -> Seq<char> {
    if plain_ok(t) {
        t
    } else {
        seq!['"'] + escape(t) + seq!['"']
    }
}

/// Reading back the inside of a double-quoted scalar: `\\n`, `\\r`, `\\t` and
/// `\\x` with two hexadecimal digits give the character they name, a backslash
/// before any other character gives that character, and every other character
/// stands for itself.
pub open spec fn unescape(q: Seq<char>) -> Seq<char>
    decreases q.len(),
{
    if q.len() == 0 {
        Seq::<char>::empty()
    } else if q[0] == '\\' && q.len() >= 2 {
        let c = q[1];
        if c == 'n' {
            seq!['\n'] + unescape(q.skip(2))
        } else if c == 'r' {
            seq!['\r'] + unescape(q.skip(2))
        } else if c == 't' {
            seq!['\t'] + unescape(q.skip(2))
        } else if c == 'x' && q.len() >= 4 {
            seq![((hex_value(q[2]) * 16 + hex_value(q[3])) as u32) as char] + unescape(q.skip(4))
        } else {
            seq![c] + unescape(q.skip(2))
        }
    } else {
        seq![q[0]] + unescape(q.skip(1))
    }
}

/// Reading a scalar back as text: a double-quoted one through [`unescape`],
/// any other as it stands.
pub open spec fn read_scalar(y: Seq<char>) -> Seq<char> {
    if y.len() >= 2 && y[0] == '"' && y.last() == '"' {
        unescape(y.subrange(1, y.len() - 1))
    } else {
        y
    }
}

proof fn lemma_escape_first(c: char, r: Seq<char>)
    ensures
        escape(seq![c] + r) == escape_char(c) + escape(r),
    decreases r.len(),
{
    let s2 = seq![c] + r;
    if r.len() == 0 {
        assert(s2 =~= seq![c]);
        assert(s2.drop_last() =~= Seq::<char>::empty());
        assert(s2.last() == c);
        assert(escape(s2.drop_last()) =~= Seq::<char>::empty());
        assert(escape(s2) =~= escape_char(c));
        assert(escape(r) =~= Seq::<char>::empty());
        assert(escape_char(c) + escape(r) =~= escape_char(c));
    } else {
        lemma_escape_first(c, r.drop_last());
        assert(s2.drop_last() =~= seq![c] + r.drop_last());
        assert(s2.last() == r.last());
        assert((escape_char(c) + escape(r.drop_last())) + escape_char(r.last()) =~= escape_char(c) + (escape(
            r.drop_last(),
        ) + escape_char(r.last())));
        assert(escape(s2) == escape(s2.drop_last()) + escape_char(s2.last()));
        assert(escape(r) == escape(r.drop_last()) + escape_char(r.last()));
    }
}

proof fn lemma_unescape_char(c: char, rest: Seq<char>)
    ensures
        unescape(escape_char(c) + rest) == seq![c] + unescape(rest),
{
    let q = escape_char(c) + rest;
    let u = c as u32;
    if c == '"' || c == '\\' || c == '\n' || c == '\r' || c == '\t' {
        assert(q.skip(2) =~= rest);
    } else if u < 32 {
        assert(q.skip(4) =~= rest);
        let hi = (u / 16) as nat;
        let lo = (u % 16) as nat;
        assert(hex_value(hex_digit(hi)) == hi);
        assert(hex_value(hex_digit(lo)) == lo);
        assert(hi * 16 + lo == u);
        assert((u as u32) as char == c);
    } else {
        assert(q.skip(1) =~= rest);
    }
}

proof fn lemma_unescape_escape(t: Seq<char>)
    ensures
        unescape(escape(t)) == t,
    decreases t.len(),
{
    if t.len() > 0 {
        let tail = t.drop_first();
        assert(t =~= seq![t[0]] + tail);
        lemma_escape_first(t[0], tail);
        lemma_unescape_char(t[0], escape(tail));
        lemma_unescape_escape(tail);
    }
}

/// Every string reads back as itself from its scalar: quoting never loses or
/// changes a character, and a plain scalar is never mistaken for a quoted one.
pub proof fn law_strings_read_back(t: Seq<char>)
    ensures
        read_scalar(yaml_string(t)) == t,
{
    if plain_ok(t) {
        assert(t[0] != '"');
    } else {
        let y = seq!['"'] + escape(t) + seq!['"'];
        assert(y.subrange(1, y.len() - 1) =~= escape(t));
        lemma_unescape_escape(t);
    }
}

/// A value written on one line; an empty list or mapping in flow style.
pub open spec fn scalar_text(v: JsonView) -> Seq<char> {
    match v {
        JsonView::Null => "null"@,
        JsonView::Bool(b) => if b {
            "true"@
        } else {
            "false"@
        },
        JsonView::PosInt(n) => decimal(n as nat),
        JsonView::NegInt(n) => if n < 0 {
            seq!['-'] + decimal((-n) as nat)
        } else {
            decimal(n as nat)
        },
        JsonView::Float(t) => t,
        JsonView::Str(t) => yaml_string(t),
        JsonView::Array(_) => "[]"@,
        JsonView::Object(_) => "{}"@,
    }
}

/// Whether a value is written as an indented block of its own.
pub open spec fn is_nested(v: JsonView) -> bool {
    match v {
        JsonView::Array(a) => a.len() > 0,
        JsonView::Object(m) => m.len() > 0,
        _ => false,
    }
}

/// The indentation of the blocks inside a block indented by `prefix`.
pub open spec fn deeper(prefix: Seq<char>) -> Seq<char> {
    prefix + seq![' ', ' ']
}

/// The lines of a value, each starting with `prefix`.
pub open spec fn yaml_block(v: JsonView, prefix: Seq<char>) -> Seq<char>
    decreases v, 0nat,
{
    match v {
        JsonView::Object(m) => if m.len() > 0 {
            yaml_members(m, prefix)
        } else {
            prefix + scalar_text(v) + seq!['\n']
        },
        JsonView::Array(a) => if a.len() > 0 {
            yaml_items(a, prefix)
        } else {
            prefix + scalar_text(v) + seq!['\n']
        },
        _ => prefix + scalar_text(v) + seq!['\n'],
    }
}

/// The lines of one mapping entry: `key: value`, or `key:` and the value's block.
pub open spec fn member_text(key: Seq<char>, x: JsonView, prefix: Seq<char>) -> Seq<char>
    decreases x, 1nat,
{
    if is_nested(x) {
        prefix + yaml_string(key) + seq![':', '\n'] + yaml_block(x, deeper(prefix))
    } else {
        prefix + yaml_string(key) + seq![':', ' '] + scalar_text(x) + seq!['\n']
    }
}

/// The lines of one list entry: `- value`, or `-` and the value's block.
pub open spec fn item_text(x: JsonView, prefix: Seq<char>) -> Seq<char>
    decreases x, 1nat,
{
    if is_nested(x) {
        prefix + seq!['-', '\n'] + yaml_block(x, deeper(prefix))
    } else {
        prefix + seq!['-', ' '] + scalar_text(x) + seq!['\n']
    }
}

/// The lines of a mapping's entries, in order.
pub open spec fn yaml_members(m: Seq<(Seq<char>, JsonView)>, prefix: Seq<char>) -> Seq<char>
    decreases m, 0nat,
{
    if m.len() == 0 {
        Seq::<char>::empty()
    } else {
        proof {
            assert(decreases_to!(m => m.drop_last())) by {
                assert(m.drop_last() =~= m.subrange(0, m.len() - 1));
            }
            assert(decreases_to!(m => m[m.len() - 1].1));
        }
        yaml_members(m.drop_last(), prefix) + member_text(m.last().0, m.last().1, prefix)
    }
}

/// The lines of a list's entries, in order.
pub open spec fn yaml_items(a: Seq<JsonView>, prefix: Seq<char>) -> Seq<char>
    decreases a, 0nat,
{
    if a.len() == 0 {
        Seq::<char>::empty()
    } else {
        proof {
            assert(decreases_to!(a => a.drop_last())) by {
                assert(a.drop_last() =~= a.subrange(0, a.len() - 1));
            }
            assert(decreases_to!(a => a[a.len() - 1]));
        }
        yaml_items(a.drop_last(), prefix) + item_text(a.last(), prefix)
    }
}

/// Whether `c` may stand in a plain scalar.
fn plain_char(c: char) -> (b: bool)
    ensures
        b == is_plain_char(c),
{
    let u = c as u32;
    (65 <= u && u <= 90) || (97 <= u && u <= 122) || (48 <= u && u <= 57) || c == ' ' || c == '.' || c == '_'
        || c == '-' || c == '/' || c == '+' || c == ',' || c == '(' || c == ')'
}

/// Whether `t` can be written without quotes.
pub fn is_plain(t: &str) -> (b: bool)
    ensures
        b == plain_ok(t@),
{
    let cs = chars_of(t);
    if cs.len() == 0 {
        return false;
    }
    let first = cs[0] as u32;
    if !((65 <= first && first <= 90) || (97 <= first && first <= 122)) {
        return false;
    }
    if cs[cs.len() - 1] == ' ' {
        return false;
    }
    let mut i: usize = 0;
    while i < cs.len()
        invariant
            i <= cs.len(),
            cs@ == t@,
            forall|k: int| 0 <= k < i ==> #[trigger] is_plain_char(cs@[k]),
        decreases cs.len() - i,
    {
        if !plain_char(cs[i]) {
            return false;
        }
        i = i + 1;
    }
    !(str_eq_ignore_case(t, "y") || str_eq_ignore_case(t, "n") || str_eq_ignore_case(t, "yes") || str_eq_ignore_case(
        t,
        "no",
    ) || str_eq_ignore_case(t, "on") || str_eq_ignore_case(t, "off") || str_eq_ignore_case(t, "true")
        || str_eq_ignore_case(t, "false") || str_eq_ignore_case(t, "null"))
}

/// Appends the escaped form of `c`.
fn push_escaped_char(out: &mut String, c: char)
    ensures
        final(out)@ == old(out)@ + escape_char(c),
{
    let u = c as u32;
    if c == '"' {
        push_char(out, '\\');
        push_char(out, '"');
    } else if c == '\\' {
        push_char(out, '\\');
        push_char(out, '\\');
    } else if c == '\n' {
        push_char(out, '\\');
        push_char(out, 'n');
    } else if c == '\r' {
        push_char(out, '\\');
        push_char(out, 'r');
    } else if c == '\t' {
        push_char(out, '\\');
        push_char(out, 't');
    } else if u < 32 {
        push_char(out, '\\');
        push_char(out, 'x');
        push_char(out, hex_char((u / 16) as u8));
        push_char(out, hex_char((u % 16) as u8));
    } else {
        push_char(out, c);
    }
}

/// Appends `t` as a scalar.
pub fn push_string(out: &mut String, t: &str)
    ensures
        final(out)@ == old(out)@ + yaml_string(t@),
{
    if is_plain(t) {
        append_str(out, t);
        return;
    }
    let ghost start = out@;
    push_char(out, '"');
    let cs = chars_of(t);
    let mut i: usize = 0;
    while i < cs.len()
        invariant
            i <= cs.len(),
            cs@ == t@,
            out@ == start + seq!['"'] + escape(cs@.take(i as int)),
        decreases cs.len() - i,
    {
        proof {
            assert(cs@.take(i + 1).drop_last() =~= cs@.take(i as int));
        }
        push_escaped_char(out, cs[i]);
        i = i + 1;
    }
    push_char(out, '"');
    proof {
        assert(cs@.take(cs.len() as int) =~= t@);
    }
}

/// Appends a value written on one line.
pub fn push_scalar(out: &mut String, v: &Json)
    ensures
        final(out)@ == old(out)@ + scalar_text(v@),
{
    match v {
        Json::Null => append_str(out, "null"),
        Json::Bool(b) => if *b {
            append_str(out, "true")
        } else {
            append_str(out, "false")
        },
        Json::PosInt(n) => push_decimal(out, *n),
        Json::NegInt(n) => {
            if *n < 0 {
                push_char(out, '-');
                let m: u64 = ((-(*n + 1)) as u64) + 1;
                push_decimal(out, m);
            } else {
                push_decimal(out, *n as u64);
            }
        },
        Json::Float(t) => append_str(out, t.as_str()),
        Json::Str(t) => push_string(out, t.as_str()),
        Json::Array(_) => append_str(out, "[]"),
        Json::Object(_) => append_str(out, "{}"),
    }
}

/// Whether a value is written as an indented block of its own.
fn nested(v: &Json) -> (b: bool)
    ensures
        b == is_nested(v@),
{
    proof {
        match v {
            Json::Array(a) => crate::json::lemma_models_index(a@),
            Json::Object(m) => crate::json::lemma_entry_models_index(m@),
            _ => {},
        }
    }
    match v {
        Json::Array(a) => a.len() > 0,
        Json::Object(m) => m.len() > 0,
        _ => false,
    }
}

/// The indentation of the blocks inside a block indented by `prefix`.
fn indent(prefix: &str) -> (r: String)
    ensures
        r@ == deeper(prefix@),
{
    let mut r = prefix.to_owned();
    push_char(&mut r, ' ');
    push_char(&mut r, ' ');
    r
}

/// Appends the lines of a value, each starting with `prefix`.
pub fn push_block(out: &mut String, v: &Json, prefix: &str)
    ensures
        final(out)@ == old(out)@ + yaml_block(v@, prefix@),
    decreases v, 0nat,
{
    proof {
        match v {
            Json::Array(a) => crate::json::lemma_models_index(a@),
            Json::Object(m) => crate::json::lemma_entry_models_index(m@),
            _ => {},
        }
    }
    match v {
        Json::Object(m) => if m.len() > 0 {
            push_members(out, m, prefix);
            return;
        },
        Json::Array(a) => if a.len() > 0 {
            push_items(out, a, prefix);
            return;
        },
        _ => {},
    }
    append_str(out, prefix);
    push_scalar(out, v);
    push_char(out, '\n');
}

/// Appends the lines of one mapping entry.
fn push_member(out: &mut String, key: &str, x: &Json, prefix: &str)
    ensures
        final(out)@ == old(out)@ + member_text(key@, x@, prefix@),
    decreases x, 1nat,
{
    append_str(out, prefix);
    push_string(out, key);
    if nested(x) {
        push_char(out, ':');
        push_char(out, '\n');
        let inner = indent(prefix);
        push_block(out, x, inner.as_str());
    } else {
        push_char(out, ':');
        push_char(out, ' ');
        push_scalar(out, x);
        push_char(out, '\n');
    }
}

/// Appends the lines of one list entry.
fn push_item(out: &mut String, x: &Json, prefix: &str)
    ensures
        final(out)@ == old(out)@ + item_text(x@, prefix@),
    decreases x, 1nat,
{
    append_str(out, prefix);
    if nested(x) {
        push_char(out, '-');
        push_char(out, '\n');
        let inner = indent(prefix);
        push_block(out, x, inner.as_str());
    } else {
        push_char(out, '-');
        push_char(out, ' ');
        push_scalar(out, x);
        push_char(out, '\n');
    }
}

/// Appends the lines of a mapping's entries.
fn push_members(out: &mut String, m: &Vec<(String, Json)>, prefix: &str)
    ensures
        final(out)@ == old(out)@ + yaml_members(entry_models(m@), prefix@),
    decreases m, 0nat,
{
    let ghost start = out@;
    let mut i: usize = 0;
    proof {
        assert(m@.take(0) =~= Seq::<(String, Json)>::empty());
    }
    while i < m.len()
        invariant
            i <= m.len(),
            out@ == start + yaml_members(entry_models(m@.take(i as int)), prefix@),
        decreases m.len() - i,
    {
        assert(decreases_to!(m => m@[i as int].1));
        proof {
            assert(m@.take(i + 1) =~= m@.take(i as int).push(m@[i as int]));
            lemma_entry_models_push(m@.take(i as int), m@[i as int]);
            let em = entry_models(m@.take(i as int));
            assert(em.push((m@[i as int].0@, m@[i as int].1@)).drop_last() =~= em);
        }
        push_member(out, m[i].0.as_str(), &m[i].1, prefix);
        i = i + 1;
    }
    proof {
        assert(m@.take(m.len() as int) =~= m@);
    }
}

/// Appends the lines of a list's entries.
fn push_items(out: &mut String, a: &Vec<Json>, prefix: &str)
    ensures
        final(out)@ == old(out)@ + yaml_items(models(a@), prefix@),
    decreases a, 0nat,
{
    let ghost start = out@;
    let mut i: usize = 0;
    proof {
        assert(a@.take(0) =~= Seq::<Json>::empty());
    }
    while i < a.len()
        invariant
            i <= a.len(),
            out@ == start + yaml_items(models(a@.take(i as int)), prefix@),
        decreases a.len() - i,
    {
        assert(decreases_to!(a => a@[i as int]));
        proof {
            assert(a@.take(i + 1) =~= a@.take(i as int).push(a@[i as int]));
            lemma_models_push(a@.take(i as int), a@[i as int]);
            let am = models(a@.take(i as int));
            assert(am.push(a@[i as int]@).drop_last() =~= am);
        }
        push_item(out, &a[i], prefix);
        i = i + 1;
    }
    proof {
        assert(a@.take(a.len() as int) =~= a@);
    }
}

/// The YAML document of a value.
pub fn to_yaml(v: &Json) -> (r: String)
    ensures
        r@ == yaml_block(v@, Seq::<char>::empty()),
{
    let mut out = String::new();
    let prefix = String::new();
    push_block(&mut out, v, prefix.as_str());
    proof {
        assert(Seq::<char>::empty() + yaml_block(v@, Seq::<char>::empty()) =~= yaml_block(v@, Seq::<char>::empty()));
    }
    out
}

} // verus!
