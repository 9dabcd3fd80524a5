//! Canonical JSON text of a node, used by the error taxonomy to describe
//! the value that was actually found.

use vstd::prelude::*;
use vstd::string::StrSliceExecFns;
use crate::value::{Json, JsonModel, view_json_seq, view_entry_seq};
use crate::value::{lemma_view_json_seq_len, lemma_view_json_seq_index};
use crate::value::{lemma_view_entry_seq_len, lemma_view_entry_seq_index};

verus! {

broadcast use
    vstd::std_specs::vec::group_vec_axioms,
    lemma_view_json_seq_len,
    lemma_view_json_seq_index,
    lemma_view_entry_seq_len,
    lemma_view_entry_seq_index,
;

/// The decimal digit character for `d`.
pub open spec fn spec_digit(d: int) -> char {
    if d == 0 { '0' }
    else if d == 1 { '1' }
    else if d == 2 { '2' }
    else if d == 3 { '3' }
    else if d == 4 { '4' }
    else if d == 5 { '5' }
    else if d == 6 { '6' }
    else if d == 7 { '7' }
    else if d == 8 { '8' }
    else { '9' }
}

/// The decimal digits of a non-negative number, most significant first.
pub open spec fn spec_digits(n: int) -> Seq<char>
    decreases n,
{
    if n < 10 { seq![spec_digit(n)] } else { spec_digits(n / 10).push(spec_digit(n % 10)) }
}

/// The decimal text of a (possibly negative) number.
pub open spec fn spec_render_int(n: int) -> Seq<char> {
    if n < 0 { seq!['-'] + spec_digits(-n) } else { spec_digits(n) }
}

/// The lower-case hexadecimal digit character for `d`.
pub open spec fn spec_hex_digit(d: int) -> char {
    if d < 10 { spec_digit(d) }
    else if d == 10 { 'a' }
    else if d == 11 { 'b' }
    else if d == 12 { 'c' }
    else if d == 13 { 'd' }
    else if d == 14 { 'e' }
    else { 'f' }
}

/// How one character appears inside a rendered JSON string literal.
pub open spec fn spec_escape_char(c: char) -> Seq<char> {
    if c == '"' { seq!['\\', '"'] }
    else if c == '\\' { seq!['\\', '\\'] }
    else if c == '\u{8}' { seq!['\\', 'b'] }
    else if c == '\t' { seq!['\\', 't'] }
    else if c == '\n' { seq!['\\', 'n'] }
    else if c == '\u{c}' { seq!['\\', 'f'] }
    else if c == '\r' { seq!['\\', 'r'] }
    else if (c as int) < 0x20 || (c as int) == 0x7f {
        seq!['\\', 'u', '0', '0', spec_hex_digit((c as int) / 16), spec_hex_digit((c as int) % 16)]
    } else { seq![c] }
}

/// The body of a rendered JSON string literal.
pub open spec fn spec_escape(s: Seq<char>) -> Seq<char>
    decreases s,
{
    if s.len() == 0 { Seq::empty() } else { spec_escape(s.drop_last()) + spec_escape_char(s.last()) }
}

/// The canonical JSON text of a node model: `null`, `true`/`false`, decimal
/// numbers, a floating number's stored text, quoted and escaped strings, and
/// comma-separated arrays and objects without spaces.
pub open spec fn spec_render(m: JsonModel) -> Seq<char>
    decreases m,
{
    match m {
        JsonModel::Null => seq!['n', 'u', 'l', 'l'],
        JsonModel::Boolean(b) => if b { seq!['t', 'r', 'u', 'e'] } else { seq!['f', 'a', 'l', 's', 'e'] },
        JsonModel::I64(n) => spec_render_int(n as int),
        JsonModel::U64(n) => spec_digits(n as int),
        JsonModel::Float(bits, text) => text,
        JsonModel::Text(s) => seq!['"'] + spec_escape(s) + seq!['"'],
        JsonModel::Array(items) => seq!['['] + spec_render_list(items) + seq![']'],
        JsonModel::Object(entries) => seq!['{'] + spec_render_entries(entries) + seq!['}'],
    }
}

/// The comma-separated renderings of an array's elements.
pub open spec fn spec_render_list(items: Seq<JsonModel>) -> Seq<char>
    decreases items,
{
    if items.len() == 0 { Seq::empty() }
    else if items.len() == 1 { spec_render(items.last()) }
    else { spec_render_list(items.drop_last()) + seq![','] + spec_render(items.last()) }
}

/// The comma-separated renderings of an object's entries.
pub open spec fn spec_render_entries(entries: Seq<(Seq<char>, JsonModel)>) -> Seq<char>
    decreases entries,
{
    if entries.len() == 0 { Seq::empty() }
    else if entries.len() == 1 { spec_render_entry(entries.last()) }
    else { spec_render_entries(entries.drop_last()) + seq![','] + spec_render_entry(entries.last()) }
}

/// The rendering of one object entry: quoted key, a colon, the value.
pub open spec fn spec_render_entry(entry: (Seq<char>, JsonModel)) -> Seq<char>
    decreases entry,
{
    seq!['"'] + spec_escape(entry.0) + seq!['"', ':'] + spec_render(entry.1)
}

/// Relies on `String`'s `FromIterator<char>` implementation: collecting
/// characters yields the string of exactly those characters, in order.
#[verifier::external_body]
pub(crate) fn chars_to_string(v: Vec<char>) -> (s: String)
    ensures
        s@ == v@,
{
    v.into_iter().collect()
}

/// The decimal digit character for `d`.
fn digit_char(d: u64) -> (c: char)
    requires
        d < 10,
    ensures
        c == spec_digit(d as int),
{
    if d == 0 { '0' }
    else if d == 1 { '1' }
    else if d == 2 { '2' }
    else if d == 3 { '3' }
    else if d == 4 { '4' }
    else if d == 5 { '5' }
    else if d == 6 { '6' }
    else if d == 7 { '7' }
    else if d == 8 { '8' }
    else { '9' }
}

/// Appends the decimal digits of `n`.
fn push_digits(n: u64, out: &mut Vec<char>)
    ensures
        final(out)@ == old(out)@ + spec_digits(n as int),
    decreases n,
{
    if n < 10 {
        let c = digit_char(n);
        out.push(c);
        assert(out@ =~= old(out)@ + spec_digits(n as int));
    } else {
        push_digits(n / 10, out);
        let c = digit_char(n % 10);
        out.push(c);
        assert(out@ =~= old(out)@ + spec_digits(n as int));
    }
}

/// Appends the decimal text of `n`.
pub(crate) fn push_i64(n: i64, out: &mut Vec<char>)
    ensures
        final(out)@ == old(out)@ + spec_render_int(n as int),
{
    if n >= 0 {
        push_digits(n as u64, out);
    } else {
        out.push('-');
        let mag: u64 = if n == i64::MIN { 9223372036854775808u64 } else { (-n) as u64 };
        assert(mag as int == -(n as int));
        push_digits(mag, out);
        assert(out@ =~= old(out)@ + spec_render_int(n as int));
    }
}

/// Appends the in-literal form of one character.
fn push_escaped_char(c: char, out: &mut Vec<char>)
    ensures
        final(out)@ == old(out)@ + spec_escape_char(c),
{
    if c == '"' {
        out.push('\\'); out.push('"');
    } else if c == '\\' {
        out.push('\\'); out.push('\\');
    } else if c == '\u{8}' {
        out.push('\\'); out.push('b');
    } else if c == '\t' {
        out.push('\\'); out.push('t');
    } else if c == '\n' {
        out.push('\\'); out.push('n');
    } else if c == '\u{c}' {
        out.push('\\'); out.push('f');
    } else if c == '\r' {
        out.push('\\'); out.push('r');
    } else if (c as u32) < 0x20 || (c as u32) == 0x7f {
        let v = c as u32;
        out.push('\\'); out.push('u'); out.push('0'); out.push('0');
        let hi = hex_digit_char((v / 16) as u64);
        out.push(hi);
        let lo = hex_digit_char((v % 16) as u64);
        out.push(lo);
    } else {
        out.push(c);
    }
    assert(out@ =~= old(out)@ + spec_escape_char(c));
}

/// The lower-case hexadecimal digit character for `d`.
fn hex_digit_char(d: u64) -> (c: char)
    requires
        d < 16,
    ensures
        c == spec_hex_digit(d as int),
{
    if d < 10 { digit_char(d) }
    else if d == 10 { 'a' }
    else if d == 11 { 'b' }
    else if d == 12 { 'c' }
    else if d == 13 { 'd' }
    else if d == 14 { 'e' }
    else { 'f' }
}

/// Appends the escaped body of a string literal.
fn push_escaped(s: &str, out: &mut Vec<char>)
    ensures
        final(out)@ == old(out)@ + spec_escape(s@),
{
    let n = s.unicode_len();
    let mut i: usize = 0;
    while i < n
        invariant
            n == s@.len(),
            i <= n,
            out@ == old(out)@ + spec_escape(s@.subrange(0, i as int)),
        decreases n - i,
    {
        let c = s.get_char(i);
        push_escaped_char(c, out);
        proof {
            let pre = s@.subrange(0, i as int);
            let post = s@.subrange(0, i as int + 1);
            assert(post.drop_last() =~= pre);
            assert(post.last() == s@[i as int]);
            assert(spec_escape(post) == spec_escape(pre) + spec_escape_char(s@[i as int]));
        }
        i = i + 1;
        assert(out@ =~= old(out)@ + spec_escape(s@.subrange(0, i as int)));
    }
    assert(s@.subrange(0, n as int) =~= s@);
}

/// Appends the canonical JSON text of the node.
#[verifier::loop_isolation(false)]
#[verifier::rlimit(30)]
fn render_to(j: &Json, out: &mut Vec<char>)
    ensures
        final(out)@ == old(out)@ + spec_render(j@),
    decreases j,
{
    match j {
        Json::Null => {
            out.push('n'); out.push('u'); out.push('l'); out.push('l');
            assert(out@ =~= old(out)@ + spec_render(j@));
        }
        Json::Boolean(b) => {
            if *b {
                out.push('t'); out.push('r'); out.push('u'); out.push('e');
            } else {
                out.push('f'); out.push('a'); out.push('l'); out.push('s'); out.push('e');
            }
            assert(out@ =~= old(out)@ + spec_render(j@));
        }
        Json::I64(n) => {
            push_i64(*n, out);
        }
        Json::U64(n) => {
            push_digits(*n, out);
        }
        Json::Float(f) => {
            push_escaped_raw(&f.text, out);
        }
        Json::Text(s) => {
            out.push('"');
            push_escaped(s.as_str(), out);
            out.push('"');
            assert(out@ =~= old(out)@ + spec_render(j@));
        }
        Json::Array(items) => {
            out.push('[');
            let ghost models = view_json_seq(items@);
            let n = items.len();
            let mut i: usize = 0;
            while i < n
                invariant
                    n == items.len(),
                    i <= n,
                    models == view_json_seq(items@),
                    models.len() == n,
                    out@ == old(out)@ + seq!['['] + spec_render_list(models.subrange(0, i as int)),
                decreases n - i,
            {
                if i > 0 {
                    out.push(',');
                }
                proof {
                    assert(decreases_to!(*j => (*j)->Array_0));
                    assert(decreases_to!(*items => items@));
                    assert(decreases_to!(items@ => items@[i as int]));
                    assert(decreases_to!(*j => items@[i as int]));
                }
                render_to(&items[i], out);
                proof {
                    let pre = models.subrange(0, i as int);
                    let post = models.subrange(0, i as int + 1);
                    assert(post.drop_last() =~= pre);
                    assert(post.last() == models[i as int]);
                    assert(models[i as int] == items@[i as int]@);
                }
                i = i + 1;
                assert(out@ =~= old(out)@ + seq!['['] + spec_render_list(models.subrange(0, i as int)));
            }
            out.push(']');
            proof {
                assert(models.subrange(0, n as int) =~= models);
                assert(out@ =~= old(out)@ + spec_render(j@));
            }
        }
        Json::Object(o) => {
            out.push('{');
            let ghost models = view_entry_seq(o.entries@);
            let n = o.entries.len();
            let mut i: usize = 0;
            while i < n
                invariant
                    n == o.entries.len(),
                    i <= n,
                    models == view_entry_seq(o.entries@),
                    models.len() == n,
                    out@ == old(out)@ + seq!['{'] + spec_render_entries(models.subrange(0, i as int)),
                decreases n - i,
            {
                if i > 0 {
                    out.push(',');
                }
                out.push('"');
                push_escaped(o.entries[i].0.as_str(), out);
                out.push('"');
                out.push(':');
                proof {
                    assert(decreases_to!(*j => (*j)->Object_0));
                    assert(decreases_to!(*o => o.entries));
                    assert(decreases_to!(o.entries => o.entries@));
                    assert(decreases_to!(o.entries@ => o.entries@[i as int]));
                    assert(decreases_to!(o.entries@[i as int] => o.entries@[i as int].1));
                    assert(decreases_to!(*j => o.entries@[i as int].1));
                }
                render_to(&o.entries[i].1, out);
                proof {
                    let pre = models.subrange(0, i as int);
                    let post = models.subrange(0, i as int + 1);
                    assert(post.drop_last() =~= pre);
                    assert(post.last() == models[i as int]);
                    assert(models[i as int] == (o.entries@[i as int].0@, o.entries@[i as int].1@));
                    assert(spec_render_entry(models[i as int]) =~= seq!['"'] + spec_escape(
                        o.entries@[i as int].0@,
                    ) + seq!['"', ':'] + spec_render(o.entries@[i as int].1@));
                }
                i = i + 1;
                assert(out@ =~= old(out)@ + seq!['{'] + spec_render_entries(models.subrange(0, i as int)));
            }
            out.push('}');
            proof {
                assert(models.subrange(0, n as int) =~= models);
                assert(out@ =~= old(out)@ + spec_render(j@));
            }
        }
    }
}

/// Appends the characters of a stored text verbatim (a floating number's
/// canonical text is stored already rendered).
fn push_escaped_raw(s: &String, out: &mut Vec<char>)
    ensures
        final(out)@ == old(out)@ + s@,
{
    let n = s.as_str().unicode_len();
    let mut i: usize = 0;
    while i < n
        invariant
            n == s@.len(),
            i <= n,
            out@ == old(out)@ + s@.subrange(0, i as int),
        decreases n - i,
    {
        let c = s.as_str().get_char(i);
        out.push(c);
        i = i + 1;
        assert(out@ =~= old(out)@ + s@.subrange(0, i as int));
    }
    assert(s@.subrange(0, n as int) =~= s@);
}

/// The canonical JSON text of a node.
pub fn render(j: &Json) -> (s: String)
    ensures
        s@ == spec_render(j@),
{
    let mut out: Vec<char> = Vec::new();
    render_to(j, &mut out);
    let s = chars_to_string(out);
    s
}

} // verus!
