//! The persisted form of a task list: a JSON array of task objects,
//! `{"id":…,"description":…,"priority":…,"completed":…}`, in insertion
//! order. The exact document text is specified by `json_tasks`; the
//! serializer produces it and the parser accepts exactly it — allowing
//! the standard string escapes — and the two are proved to round-trip.

use vstd::prelude::*;
use crate::model::priority::priority_text;
use crate::model::task::Task;
use crate::model::task::TaskM;
use crate::model::todo_list::tasks_model;
use crate::model::priority::priority_of_text;
use crate::model::priority::Priority;
use crate::numerals::hex_digit;
use crate::numerals::hex_digit_char;
use crate::numerals::hex_digit_val;
use crate::numerals::hex_val_char;
use crate::numerals::is_hex_digit;
use crate::text::chars_eq_str;
use crate::text::chars_to_string;

verus! {

/// How a character appears inside a JSON string literal: quote and
/// backslash are escaped, control characters become `\u00XX`, everything
/// else stands for itself.
pub open spec fn esc_char(c: char) -> Seq<char> {
    if c == '"' {
        seq!['\\', '"']
    } else if c == '\\' {
        seq!['\\', '\\']
    } else if (c as u32) < 32 {
        seq!['\\', 'u', '0', '0', hex_digit(((c as u32) / 16) as nat), hex_digit(((c as u32) % 16) as nat)]
    } else {
        seq![c]
    }
}

/// The escaped body of a JSON string literal.
pub open spec fn esc_str(s: Seq<char>) -> Seq<char>
    decreases s.len(),
{
    if s.len() == 0 {
        Seq::empty()
    } else {
        esc_char(s[0]) + esc_str(s.drop_first())
    }
}

/// Escaping distributes over concatenation.
pub proof fn lemma_esc_str_concat(a: Seq<char>, b: Seq<char>)
    ensures
        esc_str(a + b) == esc_str(a) + esc_str(b),
    decreases a.len(),
{
    if a.len() == 0 {
        assert(a + b =~= b);
        assert(esc_str(a) + esc_str(b) =~= esc_str(b));
    } else {
        lemma_esc_str_concat(a.drop_first(), b);
        assert((a + b).drop_first() =~= a.drop_first() + b);
        assert((a + b)[0] == a[0]);
        assert(esc_str(a + b) =~= esc_str(a) + esc_str(b));
    }
}

/// A JSON string literal: the escaped text in double quotes.
pub open spec fn json_string(s: Seq<char>) -> Seq<char> {
    seq!['"'] + esc_str(s) + seq!['"']
}

/// A JSON boolean.
pub open spec fn json_bool(b: bool) -> Seq<char> {
    if b {
        "true"@
    } else {
        "false"@
    }
}

/// The JSON object for one task, fields in their canonical order.
pub open spec fn json_task(t: TaskM) -> Seq<char> {
    "{\"id\":"@ + json_string(t.id) + ",\"description\":"@ + json_string(t.description)
        + ",\"priority\":"@ + json_string(priority_text(t.priority)) + ",\"completed\":"@
        + json_bool(t.completed) + "}"@
}

/// The second and later array elements, each preceded by a comma.
pub open spec fn json_rest(ts: Seq<TaskM>) -> Seq<char>
    decreases ts.len(),
{
    if ts.len() == 0 {
        Seq::empty()
    } else {
        ","@ + json_task(ts[0]) + json_rest(ts.drop_first())
    }
}

/// The comma-separated array elements.
pub open spec fn json_body(ts: Seq<TaskM>) -> Seq<char> {
    if ts.len() == 0 {
        Seq::empty()
    } else {
        json_task(ts[0]) + json_rest(ts.drop_first())
    }
}

/// The whole document: the array of task objects.
pub open spec fn json_tasks(ts: Seq<TaskM>) -> Seq<char> {
    "["@ + json_body(ts) + "]"@
}

/// Appending a task appends a comma and its object.
proof fn lemma_json_rest_snoc(ts: Seq<TaskM>, t: TaskM)
    ensures
        json_rest(ts.push(t)) == json_rest(ts) + ","@ + json_task(t),
    decreases ts.len(),
{
    if ts.len() == 0 {
        assert(ts.push(t)[0] == t);
        assert(ts.push(t).drop_first() =~= Seq::<TaskM>::empty());
        assert(json_rest(Seq::<TaskM>::empty()) == Seq::<char>::empty());
        assert(json_rest(ts.push(t)) =~= json_rest(ts) + ","@ + json_task(t));
    } else {
        lemma_json_rest_snoc(ts.drop_first(), t);
        assert(ts.push(t).drop_first() =~= ts.drop_first().push(t));
        assert(ts.push(t)[0] == ts[0]);
        assert(json_rest(ts.push(t)) =~= json_rest(ts) + ","@ + json_task(t));
    }
}

/// Appending a task to a non-empty list appends a comma and its object
/// to the body; for an empty list the body is just the object.
proof fn lemma_json_body_snoc(ts: Seq<TaskM>, t: TaskM)
    ensures
        ts.len() == 0 ==> json_body(ts.push(t)) == json_task(t),
        ts.len() > 0 ==> json_body(ts.push(t)) == json_body(ts) + ","@ + json_task(t),
{
    if ts.len() == 0 {
        assert(ts.push(t)[0] == t);
        assert(ts.push(t).drop_first() =~= Seq::<TaskM>::empty());
        assert(json_rest(Seq::<TaskM>::empty()) == Seq::<char>::empty());
        assert(json_body(ts.push(t)) =~= json_task(t));
    } else {
        lemma_json_rest_snoc(ts.drop_first(), t);
        assert(ts.push(t).drop_first() =~= ts.drop_first().push(t));
        assert(ts.push(t)[0] == ts[0]);
        assert(json_body(ts.push(t)) =~= json_body(ts) + ","@ + json_task(t));
    }
}

/// Appends the characters of a string slice.
fn push_str(out: &mut Vec<char>, s: &str)
    ensures
        final(out)@ == old(out)@ + s@,
{
    let n = s.unicode_len();
    let mut i: usize = 0;
    while i < n
        invariant
            i <= n,
            n == s@.len(),
            out@ == old(out)@ + s@.take(i as int),
        decreases n - i,
    {
        out.push(s.get_char(i));
        proof {
            assert(s@.take(i + 1) =~= s@.take(i as int).push(s@[i as int]));
            assert(out@ =~= old(out)@ + s@.take(i + 1));
        }
        i = i + 1;
    }
    proof {
        assert(s@.take(n as int) =~= s@);
    }
}

/// Appends the escaped body of a string.
fn push_esc(out: &mut Vec<char>, s: &str)
    ensures
        final(out)@ == old(out)@ + esc_str(s@),
{
    let n = s.unicode_len();
    let mut i: usize = 0;
    while i < n
        invariant
            i <= n,
            n == s@.len(),
            out@ == old(out)@ + esc_str(s@.take(i as int)),
        decreases n - i,
    {
        let c = s.get_char(i);
        if c == '"' {
            out.push('\\');
            out.push('"');
        } else if c == '\\' {
            out.push('\\');
            out.push('\\');
        } else if (c as u32) < 32 {
            let u = c as u32;
            out.push('\\');
            out.push('u');
            out.push('0');
            out.push('0');
            out.push(hex_digit_char(u / 16));
            out.push(hex_digit_char(u % 16));
        } else {
            out.push(c);
        }
        proof {
            assert(s@.take(i + 1) =~= s@.take(i as int) + seq![s@[i as int]]);
            lemma_esc_str_concat(s@.take(i as int), seq![s@[i as int]]);
            assert(seq![s@[i as int]].drop_first() =~= Seq::<char>::empty());
            assert(esc_str(Seq::<char>::empty()) == Seq::<char>::empty());
            assert(esc_str(seq![s@[i as int]]) =~= esc_char(s@[i as int]));
            assert(out@ =~= old(out)@ + esc_str(s@.take(i + 1)));
        }
        i = i + 1;
    }
    proof {
        assert(s@.take(n as int) =~= s@);
    }
}

/// Appends a JSON string literal.
fn push_json_string(out: &mut Vec<char>, s: &str)
    ensures
        final(out)@ == old(out)@ + json_string(s@),
{
    out.push('"');
    push_esc(out, s);
    out.push('"');
    proof {
        assert(out@ =~= old(out)@ + json_string(s@));
    }
}

/// Appends the JSON object for one task.
fn push_json_task(out: &mut Vec<char>, t: &Task)
    ensures
        final(out)@ == old(out)@ + json_task(t@),
{
    push_str(out, "{\"id\":");
    push_json_string(out, t.id.as_str());
    push_str(out, ",\"description\":");
    push_json_string(out, t.description.as_str());
    push_str(out, ",\"priority\":");
    let ptext = t.priority.text();
    push_json_string(out, ptext.as_str());
    push_str(out, ",\"completed\":");
    if t.completed {
        push_str(out, "true");
    } else {
        push_str(out, "false");
    }
    push_str(out, "}");
    proof {
        assert(out@ =~= old(out)@ + json_task(t@));
    }
}

/// The JSON document for a task list, as characters.
pub fn tasks_to_json(tasks: &Vec<Task>) -> (r: Vec<char>)
    ensures
        r@ == json_tasks(tasks_model(tasks@)),
{
    let ghost ts = tasks_model(tasks@);
    let mut out: Vec<char> = Vec::new();
    push_str(&mut out, "[");
    let n = tasks.len();
    let mut i: usize = 0;
    while i < n
        invariant
            i <= n,
            n == tasks@.len(),
            ts == tasks_model(tasks@),
            ts.len() == n,
            out@ == "["@ + json_body(ts.take(i as int)),
        decreases n - i,
    {
        if i > 0 {
            push_str(&mut out, ",");
        }
        push_json_task(&mut out, &tasks[i]);
        proof {
            assert(ts.take(i + 1) =~= ts.take(i as int).push(ts[i as int]));
            lemma_json_body_snoc(ts.take(i as int), ts[i as int]);
            assert(out@ =~= "["@ + json_body(ts.take(i + 1)));
        }
        i = i + 1;
    }
    push_str(&mut out, "]");
    proof {
        assert(ts.take(n as int) =~= ts);
        assert(out@ =~= json_tasks(ts));
    }
    out
}

/// The valid Unicode scalar values: what `char::from_u32` accepts.
pub open spec fn valid_scalar(v: nat) -> bool {
    v < 0xD800 || (0xE000 <= v && v <= 0x10FFFF)
}

/// The rest of the input after an expected literal, if the input starts
/// with it.
pub open spec fn p_lit(s: Seq<char>, lit: Seq<char>) -> Option<Seq<char>> {
    if lit.len() <= s.len() && s.take(lit.len() as int) == lit {
        Some(s.skip(lit.len() as int))
    } else {
        None
    }
}

/// Prepends a decoded character to a string parse's content.
pub open spec fn p_cons(c: char, r: Option<(Seq<char>, Seq<char>)>) -> Option<
    (Seq<char>, Seq<char>),
> {
    match r {
        None => None,
        Some((content, rest)) => Some((seq![c] + content, rest)),
    }
}

/// A string-literal body: plain characters and the standard escapes, up
/// to the closing quote. Yields the decoded text and the rest of the
/// input. Unescaped control characters, bad escapes and a missing
/// closing quote are rejected.
pub open spec fn p_str_body(s: Seq<char>) -> Option<(Seq<char>, Seq<char>)>
    decreases s.len(),
{
    if s.len() == 0 {
        None
    } else if s[0] == '"' {
        Some((Seq::empty(), s.drop_first()))
    } else if s[0] == '\\' {
        if s.len() < 2 {
            None
        } else {
            let e = s[1];
            if e == '"' {
                p_cons('"', p_str_body(s.skip(2)))
            } else if e == '\\' {
                p_cons('\\', p_str_body(s.skip(2)))
            } else if e == '/' {
                p_cons('/', p_str_body(s.skip(2)))
            } else if e == 'b' {
                p_cons('\u{8}', p_str_body(s.skip(2)))
            } else if e == 'f' {
                p_cons('\u{c}', p_str_body(s.skip(2)))
            } else if e == 'n' {
                p_cons('\n', p_str_body(s.skip(2)))
            } else if e == 'r' {
                p_cons('\r', p_str_body(s.skip(2)))
            } else if e == 't' {
                p_cons('\t', p_str_body(s.skip(2)))
            } else if e == 'u' {
                if s.len() >= 6 && is_hex_digit(s[2]) && is_hex_digit(s[3]) && is_hex_digit(s[4])
                    && is_hex_digit(s[5]) {
                    let v = hex_digit_val(s[2]) * 4096 + hex_digit_val(s[3]) * 256
                        + hex_digit_val(s[4]) * 16 + hex_digit_val(s[5]);
                    if valid_scalar(v) {
                        p_cons(((v as u32) as char), p_str_body(s.skip(6)))
                    } else {
                        None
                    }
                } else {
                    None
                }
            } else {
                None
            }
        }
    } else if (s[0] as u32) < 32 {
        None
    } else {
        p_cons(s[0], p_str_body(s.drop_first()))
    }
}

/// A string literal: a double quote, then the body.
pub open spec fn p_string(s: Seq<char>) -> Option<(Seq<char>, Seq<char>)> {
    if s.len() > 0 && s[0] == '"' {
        p_str_body(s.drop_first())
    } else {
        None
    }
}

/// A boolean token.
pub open spec fn p_bool(s: Seq<char>) -> Option<(bool, Seq<char>)> {
    if p_lit(s, "true"@) is Some {
        Some((true, p_lit(s, "true"@).unwrap()))
    } else if p_lit(s, "false"@) is Some {
        Some((false, p_lit(s, "false"@).unwrap()))
    } else {
        None
    }
}

/// A key (with its surrounding punctuation) followed by a string value.
pub open spec fn p_str_field(s: Seq<char>, key: Seq<char>) -> Option<(Seq<char>, Seq<char>)> {
    match p_lit(s, key) {
        None => None,
        Some(s1) => p_string(s1),
    }
}

/// One task object, fields in their canonical order.
pub open spec fn p_task(s: Seq<char>) -> Option<(TaskM, Seq<char>)> {
    match p_str_field(s, "{\"id\":"@) {
        None => None,
        Some((id, s1)) => match p_str_field(s1, ",\"description\":"@) {
            None => None,
            Some((description, s2)) => match p_str_field(s2, ",\"priority\":"@) {
                None => None,
                Some((ptext, s3)) => match priority_of_text(ptext) {
                    None => None,
                    Some(priority) => match p_lit(s3, ",\"completed\":"@) {
                        None => None,
                        Some(s4) => match p_bool(s4) {
                            None => None,
                            Some((completed, s5)) => match p_lit(s5, "}"@) {
                                None => None,
                                Some(s6) => Some(
                                    (TaskM { id, description, priority, completed }, s6),
                                ),
                            },
                        },
                    },
                },
            },
        },
    }
}

/// A successful string-body parse consumes at least one character.
proof fn lemma_p_str_body_len(s: Seq<char>)
    ensures
        p_str_body(s) matches Some(cr) ==> cr.1.len() < s.len(),
    decreases s.len(),
{
    if s.len() == 0 {
    } else if s[0] == '"' {
    } else if s[0] == '\\' {
        if s.len() >= 2 {
            lemma_p_str_body_len(s.skip(2));
            if s.len() >= 6 {
                lemma_p_str_body_len(s.skip(6));
            }
        }
    } else {
        lemma_p_str_body_len(s.drop_first());
    }
}

/// A successful string parse consumes at least the quotes.
proof fn lemma_p_string_len(s: Seq<char>)
    ensures
        p_string(s) matches Some(cr) ==> cr.1.len() < s.len(),
{
    if s.len() > 0 && s[0] == '"' {
        lemma_p_str_body_len(s.drop_first());
    }
}

/// A successful field parse shortens the input.
proof fn lemma_p_str_field_len(s: Seq<char>, key: Seq<char>)
    ensures
        p_str_field(s, key) matches Some(cr) ==> cr.1.len() < s.len(),
{
    match p_lit(s, key) {
        None => {},
        Some(s1) => {
            lemma_p_string_len(s1);
        },
    }
}

/// A successful task parse consumes at least one character.
proof fn lemma_p_task_len(s: Seq<char>)
    ensures
        p_task(s) matches Some(tr) ==> tr.1.len() < s.len(),
{
    lemma_p_str_field_len(s, "{\"id\":"@);
    match p_str_field(s, "{\"id\":"@) {
        None => {},
        Some((id, s1)) => {
            lemma_p_str_field_len(s1, ",\"description\":"@);
            match p_str_field(s1, ",\"description\":"@) {
                None => {},
                Some((d, s2)) => {
                    lemma_p_str_field_len(s2, ",\"priority\":"@);
                },
            }
        },
    }
}

/// The later array elements: a closing bracket ends the list, a comma
/// introduces the next task.
pub open spec fn p_tasks_rest(s: Seq<char>) -> Option<(Seq<TaskM>, Seq<char>)>
    decreases s.len(),
    via p_tasks_rest_decreases
{
    if p_lit(s, "]"@) is Some {
        Some((Seq::empty(), p_lit(s, "]"@).unwrap()))
    } else {
        match p_lit(s, ","@) {
            None => None,
            Some(s2) => match p_task(s2) {
                None => None,
                Some((t, r)) => match p_tasks_rest(r) {
                    None => None,
                    Some((ts, r2)) => Some((seq![t] + ts, r2)),
                },
            },
        }
    }
}

#[via_fn]
proof fn p_tasks_rest_decreases(s: Seq<char>) {
    if !(p_lit(s, "]"@) is Some) {
        match p_lit(s, ","@) {
            None => {},
            Some(s2) => {
                lemma_p_task_len(s2);
            },
        }
    }
}

/// The whole document: the task array and nothing else.
pub open spec fn p_document(s: Seq<char>) -> Option<Seq<TaskM>> {
    match p_lit(s, "["@) {
        None => None,
        Some(s1) => {
            if p_lit(s1, "]"@) is Some {
                if p_lit(s1, "]"@).unwrap().len() == 0 {
                    Some(Seq::empty())
                } else {
                    None
                }
            } else {
                match p_task(s1) {
                    None => None,
                    Some((t, r)) => match p_tasks_rest(r) {
                        None => None,
                        Some((ts, r2)) => if r2.len() == 0 {
                            Some(seq![t] + ts)
                        } else {
                            None
                        },
                    },
                }
            }
        },
    }
}

/// An expected literal at the front of the input parses to the rest.
proof fn lemma_p_lit_prefix(lit: Seq<char>, rest: Seq<char>)
    ensures
        p_lit(lit + rest, lit) == Some(rest),
{
    let s = lit + rest;
    assert(s.take(lit.len() as int) =~= lit);
    assert(s.skip(lit.len() as int) =~= rest);
}

/// The digit characters the serializer emits are hexadecimal digits and
/// carry their value.
proof fn lemma_hex_digit_props(d: nat)
    requires
        d < 16,
    ensures
        is_hex_digit(hex_digit(d)),
        hex_digit_val(hex_digit(d)) == d,
{
}

/// Decoding inverts escaping: an escaped body followed by the closing
/// quote and anything further parses back to the original text.
proof fn lemma_unesc_esc(s: Seq<char>, rest: Seq<char>)
    ensures
        p_str_body(esc_str(s) + seq!['"'] + rest) == Some((s, rest)),
    decreases s.len(),
{
    broadcast use vstd::utf8::char_is_scalar;

    let input = esc_str(s) + seq!['"'] + rest;
    if s.len() == 0 {
        assert(esc_str(s) == Seq::<char>::empty());
        assert(input[0] == '"');
        assert(input.drop_first() =~= rest);
        assert(Seq::<char>::empty() =~= s);
    } else {
        let c = s[0];
        let tail = esc_str(s.drop_first()) + seq!['"'] + rest;
        assert(esc_str(s) == esc_char(c) + esc_str(s.drop_first()));
        assert(input =~= esc_char(c) + tail);
        lemma_unesc_esc(s.drop_first(), rest);
        if c == '"' {
            assert(input[0] == '\\');
            assert(input[1] == '"');
            assert(input.skip(2) =~= tail);
            assert(seq![c] + s.drop_first() =~= s);
        } else if c == '\\' {
            assert(input[0] == '\\');
            assert(input[1] == '\\');
            assert(input.skip(2) =~= tail);
            assert(seq![c] + s.drop_first() =~= s);
        } else if (c as u32) < 32 {
            let cu = c as u32;
            let hi = (cu / 16) as nat;
            let lo = (cu % 16) as nat;
            assert(input[0] == '\\');
            assert(input[1] == 'u');
            assert(input[2] == '0');
            assert(input[3] == '0');
            assert(input[4] == hex_digit(hi));
            assert(input[5] == hex_digit(lo));
            assert(input.len() >= 6);
            lemma_hex_digit_props(hi);
            lemma_hex_digit_props(lo);
            assert(is_hex_digit('0') && hex_digit_val('0') == 0);
            let v = hex_digit_val(input[2]) * 4096 + hex_digit_val(input[3]) * 256
                + hex_digit_val(input[4]) * 16 + hex_digit_val(input[5]);
            assert(v == hi * 16 + lo);
            assert(v == cu as nat);
            assert(valid_scalar(v));
            assert(v <= u32::MAX);
            assert((v as u32) as nat == v);
            assert((v as u32) == cu);
            vstd::utf8::char_u32_cast(c, v as u32);
            assert(((v as u32) as char) == c);
            assert(input.skip(6) =~= tail);
            assert(seq![c] + s.drop_first() =~= s);
        } else {
            assert(esc_char(c) == seq![c]);
            assert(input[0] == c);
            assert(input.drop_first() =~= tail);
            assert(seq![c] + s.drop_first() =~= s);
        }
    }
}

/// A serialized boolean parses back to its value.
proof fn lemma_p_bool_json(b: bool, rest: Seq<char>)
    ensures
        p_bool(json_bool(b) + rest) == Some((b, rest)),
{
    reveal_strlit("true");
    reveal_strlit("false");
    if b {
        lemma_p_lit_prefix("true"@, rest);
    } else {
        let s = "false"@ + rest;
        assert("true"@.len() == 4);
        assert("false"@.len() == 5);
        assert(s.len() >= 5);
        assert(s.take(4) != "true"@) by {
            assert(s.take(4)[0] == 'f');
            assert("true"@[0] == 't');
        }
        lemma_p_lit_prefix("false"@, rest);
    }
}

/// A key and a serialized string at the front of the input parse to the
/// text and the rest.
proof fn lemma_p_str_field_json(key: Seq<char>, text: Seq<char>, after: Seq<char>)
    ensures
        p_str_field(key + (json_string(text) + after), key) == Some((text, after)),
{
    let s1 = json_string(text) + after;
    lemma_p_lit_prefix(key, s1);
    assert(p_lit(key + s1, key) == Some(s1));
    assert(s1[0] == '"');
    assert(s1.drop_first() =~= esc_str(text) + seq!['"'] + after);
    lemma_unesc_esc(text, after);
}

/// A serialized task object parses back to the same task model.
#[verifier::rlimit(100)]
proof fn lemma_p_task_json(t: TaskM, rest: Seq<char>)
    ensures
        p_task(json_task(t) + rest) == Some((t, rest)),
{
    let seg5 = "}"@ + rest;
    let seg4 = json_bool(t.completed) + seg5;
    let seg4b = ",\"completed\":"@ + seg4;
    let seg3b = ",\"priority\":"@ + (json_string(priority_text(t.priority)) + seg4b);
    let seg2b = ",\"description\":"@ + (json_string(t.description) + seg3b);
    let seg1b = "{\"id\":"@ + (json_string(t.id) + seg2b);
    assert(json_task(t) + rest =~= seg1b);
    lemma_p_str_field_json("{\"id\":"@, t.id, seg2b);
    lemma_p_str_field_json(",\"description\":"@, t.description, seg3b);
    lemma_p_str_field_json(",\"priority\":"@, priority_text(t.priority), seg4b);
    crate::model::priority::lemma_priority_text_round(t.priority);
    lemma_p_lit_prefix(",\"completed\":"@, seg4);
    lemma_p_bool_json(t.completed, seg5);
    lemma_p_lit_prefix("}"@, rest);
    assert(p_task(seg1b) == Some(
        (
            TaskM {
                id: t.id,
                description: t.description,
                priority: t.priority,
                completed: t.completed,
            },
            rest,
        ),
    ));
    assert(TaskM {
        id: t.id,
        description: t.description,
        priority: t.priority,
        completed: t.completed,
    } == t);
}

/// The serialized later elements parse back to the same task models,
/// consuming the whole input.
#[verifier::rlimit(100)]
proof fn lemma_p_rest_json(ts: Seq<TaskM>)
    ensures
        p_tasks_rest(json_rest(ts) + "]"@) == Some((ts, Seq::<char>::empty())),
    decreases ts.len(),
{
    reveal_strlit("]");
    reveal_strlit(",");
    reveal_strlit("{\"id\":");
    let input = json_rest(ts) + "]"@;
    if ts.len() == 0 {
        assert(json_rest(ts) == Seq::<char>::empty());
        assert(input =~= "]"@ + Seq::<char>::empty());
        lemma_p_lit_prefix("]"@, Seq::<char>::empty());
        assert(p_lit(input, "]"@) == Some(Seq::<char>::empty()));
        assert(Seq::<TaskM>::empty() =~= ts);
    } else {
        assert(json_rest(ts) == ","@ + json_task(ts[0]) + json_rest(ts.drop_first()));
        let rest0 = json_task(ts[0]) + (json_rest(ts.drop_first()) + "]"@);
        assert(input =~= ","@ + rest0);
        assert("]"@.len() == 1);
        assert(","@.len() == 1);
        assert("{\"id\":"@.len() == 6);
        assert(input[0] == ',');
        assert(input.take(1) != "]"@) by {
            assert(input.take(1)[0] == ',');
            assert("]"@[0] == ']');
        }
        assert(p_lit(input, "]"@) is None);
        lemma_p_lit_prefix(","@, rest0);
        assert(p_lit(input, ","@) == Some(rest0));
        lemma_p_task_json(ts[0], json_rest(ts.drop_first()) + "]"@);
        lemma_p_rest_json(ts.drop_first());
        assert(seq![ts[0]] + ts.drop_first() =~= ts);
    }
}

/// Round trip: the serialized document of any task list parses back to
/// exactly that list.
#[verifier::rlimit(100)]
pub proof fn lemma_json_round_trip(ts: Seq<TaskM>)
    ensures
        p_document(json_tasks(ts)) == Some(ts),
{
    reveal_strlit("[");
    reveal_strlit("]");
    reveal_strlit("{\"id\":");
    let input = json_tasks(ts);
    let s1 = json_body(ts) + "]"@;
    assert(input =~= "["@ + s1);
    lemma_p_lit_prefix("["@, s1);
    if ts.len() == 0 {
        assert(json_body(ts) == Seq::<char>::empty());
        assert(s1 =~= "]"@ + Seq::<char>::empty());
        lemma_p_lit_prefix("]"@, Seq::<char>::empty());
        assert(p_lit(s1, "]"@) == Some(Seq::<char>::empty()));
        assert(Seq::<TaskM>::empty() =~= ts);
    } else {
        assert(json_body(ts) == json_task(ts[0]) + json_rest(ts.drop_first()));
        assert("{\"id\":"@.len() == 6);
        assert("]"@.len() == 1);
        assert(json_task(ts[0])[0] == '{');
        assert(s1[0] == '{');
        assert(s1.take(1) != "]"@) by {
            assert(s1.take(1)[0] == '{');
            assert("]"@[0] == ']');
        }
        assert(p_lit(s1, "]"@) is None);
        assert(s1 =~= json_task(ts[0]) + (json_rest(ts.drop_first()) + "]"@));
        lemma_p_task_json(ts[0], json_rest(ts.drop_first()) + "]"@);
        lemma_p_rest_json(ts.drop_first());
        assert(seq![ts[0]] + ts.drop_first() =~= ts);
    }
}

/// Relies on `char::from_u32`: `Some` exactly for valid Unicode scalar
/// values, returning the character with that value.
#[verifier::external_body]
fn char_from_u32(u: u32) -> (r: Option<char>)
    ensures
        r is Some <==> valid_scalar(u as nat),
        r matches Some(c) ==> c as u32 == u,
{
    char::from_u32(u)
}

/// Whether the expected literal stands at this position; if so, the
/// position after it.
fn lit_at(v: &Vec<char>, i: usize, lit: &str) -> (r: Option<usize>)
    requires
        i <= v@.len(),
    ensures
        r matches Some(j) ==> i <= j <= v@.len() && j == i + lit@.len() && p_lit(
            v@.skip(i as int),
            lit@,
        ) == Some(v@.skip(j as int)),
        r is None ==> p_lit(v@.skip(i as int), lit@) is None,
{
    let n = lit.unicode_len();
    if n > v.len() - i {
        return None;
    }
    let mut k: usize = 0;
    while k < n
        invariant
            k <= n,
            i + n <= v@.len(),
            v@.len() <= usize::MAX,
            n == lit@.len(),
            forall|q: int| 0 <= q < k ==> v@[i + q] == lit@[q],
        decreases n - k,
    {
        if v[i + k] != lit.get_char(k) {
            proof {
                assert(v@.skip(i as int).take(n as int)[k as int] == v@[i + k]);
                assert(v@.skip(i as int).take(n as int) != lit@);
            }
            return None;
        }
        k = k + 1;
    }
    proof {
        assert(v@.skip(i as int).take(n as int) =~= lit@);
        assert(v@.skip(i as int).skip(n as int) =~= v@.skip(i + n));
    }
    Some(i + n)
}

/// Decodes a string literal starting at this position: the text and the
/// position after the closing quote.
#[verifier::rlimit(100)]
fn string_at(v: &Vec<char>, i: usize) -> (r: Option<(Vec<char>, usize)>)
    requires
        i <= v@.len(),
    ensures
        r matches Some(cj) ==> i < cj.1 <= v@.len() && p_string(v@.skip(i as int)) == Some(
            (cj.0@, v@.skip(cj.1 as int)),
        ),
        r is None ==> p_string(v@.skip(i as int)) is None,
{
    let len = v.len();
    if i == len || v[i] != '"' {
        return None;
    }
    proof {
        assert(v@.skip(i as int)[0] == '"');
        assert(v@.skip(i as int).drop_first() =~= v@.skip(i + 1));
    }
    let mut out: Vec<char> = Vec::new();
    let mut k: usize = i + 1;
    loop
        invariant
            i + 1 <= k <= len,
            len == v@.len(),
            p_string(v@.skip(i as int)) == p_str_body(v@.skip(i + 1)),
            (p_str_body(v@.skip(k as int)) matches Some(cr) ==> p_str_body(v@.skip(i + 1))
                == Some((out@ + cr.0, cr.1))),
            (p_str_body(v@.skip(k as int)) is None ==> p_str_body(v@.skip(i + 1)) is None),
        decreases len - k,
    {
        if k == len {
            proof {
                assert(v@.skip(k as int).len() == 0);
            }
            return None;
        }
        let ghost sk = v@.skip(k as int);
        proof {
            assert(sk.len() == len - k);
            assert(sk[0] == v@[k as int]);
        }
        let c = v[k];
        if c == '"' {
            proof {
                assert(sk.drop_first() =~= v@.skip(k + 1));
                assert(p_str_body(sk) == Some((Seq::<char>::empty(), v@.skip(k + 1))));
                assert(out@ + Seq::<char>::empty() =~= out@);
            }
            return Some((out, k + 1));
        }
        if c == '\\' {
            if k + 1 == len {
                proof {
                    assert(sk.len() < 2);
                }
                return None;
            }
            proof {
                assert(sk[1] == v@[k + 1]);
                assert(sk.skip(2) =~= v@.skip(k + 2));
            }
            let e = v[k + 1];
            let dc: char;
            let consumed: usize;
            if e == '"' {
                dc = '"';
                consumed = 2;
            } else if e == '\\' {
                dc = '\\';
                consumed = 2;
            } else if e == '/' {
                dc = '/';
                consumed = 2;
            } else if e == 'b' {
                dc = '\u{8}';
                consumed = 2;
            } else if e == 'f' {
                dc = '\u{c}';
                consumed = 2;
            } else if e == 'n' {
                dc = '\n';
                consumed = 2;
            } else if e == 'r' {
                dc = '\r';
                consumed = 2;
            } else if e == 't' {
                dc = '\t';
                consumed = 2;
            } else if e == 'u' {
                if len - k < 6 {
                    proof {
                        assert(sk.len() < 6);
                    }
                    return None;
                }
                proof {
                    assert(sk[2] == v@[k + 2]);
                    assert(sk[3] == v@[k + 3]);
                    assert(sk[4] == v@[k + 4]);
                    assert(sk[5] == v@[k + 5]);
                    assert(sk.skip(6) =~= v@.skip(k + 6));
                }
                let d0 = match hex_val_char(v[k + 2]) {
                    None => {
                        return None;
                    },
                    Some(d) => d,
                };
                let d1 = match hex_val_char(v[k + 3]) {
                    None => {
                        return None;
                    },
                    Some(d) => d,
                };
                let d2 = match hex_val_char(v[k + 4]) {
                    None => {
                        return None;
                    },
                    Some(d) => d,
                };
                let d3 = match hex_val_char(v[k + 5]) {
                    None => {
                        return None;
                    },
                    Some(d) => d,
                };
                let u = d0 * 4096 + d1 * 256 + d2 * 16 + d3;
                match char_from_u32(u) {
                    None => {
                        return None;
                    },
                    Some(cc) => {
                        dc = cc;
                        proof {
                            vstd::utf8::char_u32_cast(dc, u);
                        }
                        consumed = 6;
                    },
                }
            } else {
                return None;
            }
            proof {
                let spec_rest = p_str_body(v@.skip(k + consumed));
                assert(p_str_body(sk) == p_cons(dc, spec_rest));
                match spec_rest {
                    Some(cr) => {
                        assert(p_str_body(sk) == Some((seq![dc] + cr.0, cr.1)));
                        assert(out@.push(dc) + cr.0 =~= out@ + (seq![dc] + cr.0));
                    },
                    None => {},
                }
            }
            out.push(dc);
            k = k + consumed;
        } else if (c as u32) < 32 {
            return None;
        } else {
            proof {
                assert(sk.drop_first() =~= v@.skip(k + 1));
                let spec_rest = p_str_body(v@.skip(k + 1));
                assert(p_str_body(sk) == p_cons(c, spec_rest));
                match spec_rest {
                    Some(cr) => {
                        assert(p_str_body(sk) == Some((seq![c] + cr.0, cr.1)));
                        assert(out@.push(c) + cr.0 =~= out@ + (seq![c] + cr.0));
                    },
                    None => {},
                }
            }
            out.push(c);
            k = k + 1;
        }
    }
}

/// A boolean token at this position.
fn bool_at(v: &Vec<char>, i: usize) -> (r: Option<(bool, usize)>)
    requires
        i <= v@.len(),
    ensures
        r matches Some(bj) ==> bj.1 <= v@.len() && p_bool(v@.skip(i as int)) == Some(
            (bj.0, v@.skip(bj.1 as int)),
        ),
        r is None ==> p_bool(v@.skip(i as int)) is None,
{
    match lit_at(v, i, "true") {
        Some(j) => Some((true, j)),
        None => match lit_at(v, i, "false") {
            Some(j) => Some((false, j)),
            None => None,
        },
    }
}

/// A key and its string value at this position.
fn str_field_at(v: &Vec<char>, i: usize, key: &str) -> (r: Option<(Vec<char>, usize)>)
    requires
        i <= v@.len(),
    ensures
        r matches Some(cj) ==> i < cj.1 <= v@.len() && p_str_field(v@.skip(i as int), key@)
            == Some((cj.0@, v@.skip(cj.1 as int))),
        r is None ==> p_str_field(v@.skip(i as int), key@) is None,
{
    match lit_at(v, i, key) {
        None => None,
        Some(j) => string_at(v, j),
    }
}

/// One task object at this position.
fn task_at(v: &Vec<char>, i: usize) -> (r: Option<(Task, usize)>)
    requires
        i <= v@.len(),
    ensures
        r matches Some(tj) ==> i < tj.1 <= v@.len() && p_task(v@.skip(i as int)) == Some(
            (tj.0@, v@.skip(tj.1 as int)),
        ),
        r is None ==> p_task(v@.skip(i as int)) is None,
{
    let (id_chars, j1) = match str_field_at(v, i, "{\"id\":") {
        None => {
            return None;
        },
        Some(x) => x,
    };
    let (desc_chars, j2) = match str_field_at(v, j1, ",\"description\":") {
        None => {
            return None;
        },
        Some(x) => x,
    };
    let (pri_chars, j3) = match str_field_at(v, j2, ",\"priority\":") {
        None => {
            return None;
        },
        Some(x) => x,
    };
    let priority: Priority = if chars_eq_str(&pri_chars, "Low") {
        Priority::Low
    } else if chars_eq_str(&pri_chars, "Medium") {
        Priority::Medium
    } else if chars_eq_str(&pri_chars, "High") {
        Priority::High
    } else {
        return None;
    };
    let j4 = match lit_at(v, j3, ",\"completed\":") {
        None => {
            return None;
        },
        Some(j) => j,
    };
    let (completed, j5) = match bool_at(v, j4) {
        None => {
            return None;
        },
        Some(x) => x,
    };
    let j6 = match lit_at(v, j5, "}") {
        None => {
            return None;
        },
        Some(j) => j,
    };
    let t = Task {
        id: chars_to_string(&id_chars),
        description: chars_to_string(&desc_chars),
        priority,
        completed,
    };
    Some((t, j6))
}

/// The later array elements from this position.
fn rest_at(v: &Vec<char>, i: usize) -> (r: Option<(Vec<Task>, usize)>)
    requires
        i <= v@.len(),
    ensures
        r matches Some(tj) ==> tj.1 <= v@.len() && p_tasks_rest(v@.skip(i as int)) == Some(
            (tasks_model(tj.0@), v@.skip(tj.1 as int)),
        ),
        r is None ==> p_tasks_rest(v@.skip(i as int)) is None,
{
    let len = v.len();
    let mut acc: Vec<Task> = Vec::new();
    let mut k: usize = i;
    loop
        invariant
            i <= k <= len,
            len == v@.len(),
            (p_tasks_rest(v@.skip(k as int)) matches Some(tr) ==> p_tasks_rest(
                v@.skip(i as int),
            ) == Some((tasks_model(acc@) + tr.0, tr.1))),
            (p_tasks_rest(v@.skip(k as int)) is None ==> p_tasks_rest(v@.skip(i as int))
                is None),
        decreases len - k,
    {
        if let Some(j) = lit_at(v, k, "]") {
            proof {
                assert(p_tasks_rest(v@.skip(k as int)) == Some(
                    (Seq::<TaskM>::empty(), v@.skip(j as int)),
                ));
                assert(tasks_model(acc@) + Seq::<TaskM>::empty() =~= tasks_model(acc@));
            }
            return Some((acc, j));
        }
        let k2 = match lit_at(v, k, ",") {
            None => {
                return None;
            },
            Some(j) => j,
        };
        let (t, k3) = match task_at(v, k2) {
            None => {
                return None;
            },
            Some(x) => x,
        };
        proof {
            let spec_rest = p_tasks_rest(v@.skip(k3 as int));
            match spec_rest {
                Some(tr) => {
                    assert(p_tasks_rest(v@.skip(k as int)) == Some((seq![t@] + tr.0, tr.1)));
                    assert(tasks_model(acc@.push(t)) =~= tasks_model(acc@) + seq![t@]);
                    assert(tasks_model(acc@) + (seq![t@] + tr.0) =~= tasks_model(
                        acc@.push(t),
                    ) + tr.0);
                },
                None => {},
            }
        }
        acc.push(t);
        k = k3;
    }
}

/// Parses a whole document. Returns the task list exactly when the text
/// is a well-formed task array with nothing but it in the input.
pub fn json_to_tasks(v: &Vec<char>) -> (r: Option<Vec<Task>>)
    ensures
        r matches Some(ts) ==> p_document(v@) == Some(tasks_model(ts@)),
        r is None ==> p_document(v@) is None,
{
    proof {
        assert(v@.skip(0) =~= v@);
    }
    let s1j = match lit_at(v, 0, "[") {
        None => {
            return None;
        },
        Some(j) => j,
    };
    if let Some(j) = lit_at(v, s1j, "]") {
        if j == v.len() {
            let ts: Vec<Task> = Vec::new();
            proof {
                assert(v@.skip(j as int).len() == 0);
                assert(tasks_model(ts@) =~= Seq::<TaskM>::empty());
            }
            return Some(ts);
        } else {
            proof {
                assert(v@.skip(j as int).len() != 0);
            }
            return None;
        }
    }
    let (t, j2) = match task_at(v, s1j) {
        None => {
            return None;
        },
        Some(x) => x,
    };
    let (mut rest, j3) = match rest_at(v, j2) {
        None => {
            return None;
        },
        Some(x) => x,
    };
    if j3 != v.len() {
        proof {
            assert(v@.skip(j3 as int).len() != 0);
        }
        return None;
    }
    let ghost rest0 = rest@;
    let mut ts: Vec<Task> = Vec::new();
    ts.push(t);
    ts.append(&mut rest);
    proof {
        assert(v@.skip(j3 as int).len() == 0);
        assert(tasks_model(ts@) =~= seq![t@] + tasks_model(rest0));
    }
    Some(ts)
}

} // verus!
