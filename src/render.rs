use vstd::prelude::*;

use crate::outside::{
    paint_dim, paint_green, paint_key, paint_white, painted,
};
use crate::text::push_char;
use crate::value::CanonicalValue;

verus! {

broadcast use vstd::std_specs::vec::group_vec_axioms;

pub open spec fn hex_digit(d: u32) -> char {
    if d < 10 {
        ((d + 48) as u8) as char
    } else {
        ((d + 87) as u8) as char
    }
}

/// How a JSON string literal writes one character: quote and backslash behind a
/// backslash, the usual short escapes, other control characters as `\u00xx`.
pub open spec fn escape_char(c: char) -> Seq<char> {
    if c == '"' {
        seq!['\\', '"']
    } else if c == '\\' {
        seq!['\\', '\\']
    } else if c == '\u{8}' {
        seq!['\\', 'b']
    } else if c == '\t' {
        seq!['\\', 't']
    } else if c == '\n' {
        seq!['\\', 'n']
    } else if c == '\u{c}' {
        seq!['\\', 'f']
    } else if c == '\r' {
        seq!['\\', 'r']
    } else if (c as u32) < 0x20 {
        seq!['\\', 'u', '0', '0', hex_digit((c as u32) / 16), hex_digit((c as u32) % 16)]
    } else {
        seq![c]
    }
}

/// The characters of `s`, each escaped.
pub open spec fn escaped(s: Seq<char>) -> Seq<char>
    decreases s.len(),
{
    if s.len() == 0 {
        Seq::empty()
    } else {
        escaped(s.drop_last()) + escape_char(s.last())
    }
}

/// The JSON string literal for `s`, escaped as serde_json writes it.
#[verifier::opaque]
pub open spec fn json_quoted(s: Seq<char>) -> Seq<char> {
    seq!['"'] + escaped(s) + seq!['"']
}

fn hex_char(d: u32) -> (c: char)
    requires
        d < 16,
    ensures
        c == hex_digit(d),
{
    if d < 10 {
        ((d + 48) as u8) as char
    } else {
        ((d + 87) as u8) as char
    }
}

/// Appends the escaped form of `c`.
fn push_escaped(out: &mut String, c: char)
    ensures
        final(out)@ == old(out)@ + escape_char(c),
{
    let ghost start = out@;
    if c == '"' {
        push_char(out, '\\');
        push_char(out, '"');
    } else if c == '\\' {
        push_char(out, '\\');
        push_char(out, '\\');
    } else if c == '\u{8}' {
        push_char(out, '\\');
        push_char(out, 'b');
    } else if c == '\t' {
        push_char(out, '\\');
        push_char(out, 't');
    } else if c == '\n' {
        push_char(out, '\\');
        push_char(out, 'n');
    } else if c == '\u{c}' {
        push_char(out, '\\');
        push_char(out, 'f');
    } else if c == '\r' {
        push_char(out, '\\');
        push_char(out, 'r');
    } else if (c as u32) < 0x20 {
        push_char(out, '\\');
        push_char(out, 'u');
        push_char(out, '0');
        push_char(out, '0');
        push_char(out, hex_char((c as u32) / 16));
        push_char(out, hex_char((c as u32) % 16));
    } else {
        push_char(out, c);
    }
    assert(out@ =~= start + escape_char(c));
}

/// The JSON string literal for `s`.
pub fn quote_json(s: &str) -> (r: String)
    ensures
        r@ == json_quoted(s@),
{
    let cs = crate::text::chars_of(s);
    let mut out = String::new();
    push_char(&mut out, '"');
    let mut i: usize = 0;
    while i < cs.len()
        invariant
            i <= cs.len(),
            out@ == seq!['"'] + escaped(cs@.take(i as int)),
        decreases cs.len() - i,
    {
        assert(cs@.take(i as int + 1).drop_last() =~= cs@.take(i as int));
        push_escaped(&mut out, cs[i]);
        i = i + 1;
        assert(out@ =~= seq!['"'] + escaped(cs@.take(i as int)));
    }
    assert(cs@.take(i as int) =~= s@);
    push_char(&mut out, '"');
    reveal(json_quoted);
    assert(out@ =~= json_quoted(s@));
    out
}

pub open spec fn child_count(v: CanonicalValue) -> int {
    match v {
        CanonicalValue::Array(items) => items.len() as int,
        CanonicalValue::Object(entries) => entries.len() as int,
        _ => 0,
    }
}

/// The two-space-indented JSON text of `v`, whose closing bracket stands after `pad`.
pub open spec fn pretty(v: CanonicalValue, pad: Seq<char>) -> Seq<char>
    decreases v, child_count(v) + 1,
{
    match v {
        CanonicalValue::Null => "null"@,
        CanonicalValue::Bool(b) => if b {
            "true"@
        } else {
            "false"@
        },
        CanonicalValue::Number(t) => t@,
        CanonicalValue::String(s) => json_quoted(s@),
        CanonicalValue::Array(items) => if items.len() == 0 {
            "[]"@
        } else {
            "[\n"@ + pretty_children(v, pad + "  "@, 0) + "\n"@ + pad + "]"@
        },
        CanonicalValue::Object(entries) => if entries.len() == 0 {
            "{}"@
        } else {
            "{\n"@ + pretty_children(v, pad + "  "@, 0) + "\n"@ + pad + "}"@
        },
    }
}

/// The children of `v` from the `k`-th on, one per line after `pad`, separated by
/// commas; an object's entries as `"key": value`.
pub open spec fn pretty_children(v: CanonicalValue, pad: Seq<char>, k: int) -> Seq<char>
    decreases v, child_count(v) - k,
{
    if k < 0 || k >= child_count(v) {
        Seq::empty()
    } else {
        let sep = if k + 1 < child_count(v) {
            ",\n"@
        } else {
            Seq::empty()
        };
        let line = match v {
            CanonicalValue::Array(items) => pad + pretty(items@[k], pad),
            CanonicalValue::Object(entries) => pad + json_quoted(entries@[k].0@) + ": "@ + pretty(
                entries@[k].1,
                pad,
            ),
            _ => Seq::empty(),
        };
        line + sep + pretty_children(v, pad, k + 1)
    }
}

/// The separator after the `j`-th child line: a comma and newline, none after the last.
pub open spec fn child_sep(v: CanonicalValue, j: int) -> Seq<char> {
    if j + 1 < child_count(v) {
        ",\n"@
    } else {
        Seq::empty()
    }
}

/// `r` is a colored rendering of `v` whose closing bracket stands after `pad`: the layout
/// of `pretty`, with each scalar and each quoted key replaced by what the colored crate
/// made of it.
pub open spec fn colored_pretty(v: CanonicalValue, pad: Seq<char>, r: Seq<char>) -> bool
    decreases v, child_count(v) + 1,
{
    match v {
        CanonicalValue::Array(items) => if items.len() == 0 {
            r == "[]"@
        } else {
            exists|body: Seq<char>|
                r == #[trigger] ("[\n"@ + body) + "\n"@ + pad + "]"@ && colored_children(
                    v,
                    pad + "  "@,
                    child_count(v),
                    body,
                )
        },
        CanonicalValue::Object(entries) => if entries.len() == 0 {
            r == "{}"@
        } else {
            exists|body: Seq<char>|
                r == #[trigger] ("{\n"@ + body) + "\n"@ + pad + "}"@ && colored_children(
                    v,
                    pad + "  "@,
                    child_count(v),
                    body,
                )
        },
        _ => painted(scalar_text(v), r),
    }
}

/// `body` holds the colored lines of the first `n` children of `v`, each after `pad`
/// and followed by its separator.
pub open spec fn colored_children(v: CanonicalValue, pad: Seq<char>, n: int, body: Seq<char>) -> bool
    decreases v, n,
{
    if n <= 0 {
        body == Seq::<char>::empty()
    } else {
        exists|prev: Seq<char>, line: Seq<char>|
            body == #[trigger] (prev + line) + child_sep(v, n - 1) && colored_children(
                v,
                pad,
                n - 1,
                prev,
            ) && colored_line(v, pad, n - 1, line)
    }
}

/// `line` is the colored line of the `j`-th child of `v` after `pad`; an object's entry
/// starts with its painted, quoted key and `": "`.
pub open spec fn colored_line(v: CanonicalValue, pad: Seq<char>, j: int, line: Seq<char>) -> bool
    decreases v, 0int,
{
    match v {
        CanonicalValue::Array(items) => 0 <= j < items.len() && exists|piece: Seq<char>|
            line == #[trigger] (pad + piece) && colored_pretty(items@[j], pad, piece),
        CanonicalValue::Object(entries) => 0 <= j < entries.len() && exists|
            key: Seq<char>,
            piece: Seq<char>,
        |
            line == #[trigger] (pad + key + ": "@ + piece) && painted(
                seq!['"'] + entries@[j].0@ + seq!['"'],
                key,
            ) && colored_pretty(entries@[j].1, pad, piece),
        _ => false,
    }
}

/// One more colored element line extends the colored lines of a sequence.
proof fn lemma_colored_item(
    items: Vec<CanonicalValue>,
    pad: Seq<char>,
    k: int,
    prev: Seq<char>,
    piece: Seq<char>,
)
    requires
        0 <= k < items.len(),
        colored_children(CanonicalValue::Array(items), pad, k, prev),
        colored_pretty(items@[k], pad, piece),
    ensures
        colored_children(
            CanonicalValue::Array(items),
            pad,
            k + 1,
            prev + (pad + piece) + child_sep(CanonicalValue::Array(items), k),
        ),
{
    let v = CanonicalValue::Array(items);
    assert(v->Array_0@[k] == items@[k]);
    assert(colored_pretty(v->Array_0@[k], pad, piece));
    assert(colored_line(v, pad, k, pad + piece));
}

/// One more colored entry line extends the colored lines of a mapping.
proof fn lemma_colored_entry(
    entries: Vec<(String, CanonicalValue)>,
    pad: Seq<char>,
    k: int,
    prev: Seq<char>,
    key: Seq<char>,
    piece: Seq<char>,
)
    requires
        0 <= k < entries.len(),
        colored_children(CanonicalValue::Object(entries), pad, k, prev),
        painted(seq!['"'] + entries@[k].0@ + seq!['"'], key),
        colored_pretty(entries@[k].1, pad, piece),
    ensures
        colored_children(
            CanonicalValue::Object(entries),
            pad,
            k + 1,
            prev + (pad + key + ": "@ + piece) + child_sep(CanonicalValue::Object(entries), k),
        ),
{
    let v = CanonicalValue::Object(entries);
    assert(v->Object_0@[k] == entries@[k]);
    assert(colored_pretty(v->Object_0@[k].1, pad, piece));
    assert(painted(seq!['"'] + v->Object_0@[k].0@ + seq!['"'], key));
    assert(colored_line(v, pad, k, pad + key + ": "@ + piece));
}

/// `s` between double quotes, unescaped.
fn quoted_plain(s: &str) -> (r: String)
    ensures
        r@ == seq!['"'] + s@ + seq!['"'],
{
    let mut out = String::new();
    push_char(&mut out, '"');
    out.append(s);
    push_char(&mut out, '"');
    assert(out@ =~= seq!['"'] + s@ + seq!['"']);
    out
}

/// Writes `v` with two-space indentation after `pad`; with `color`, each scalar and key
/// is painted.
#[verifier::rlimit(100)]
fn render(v: &CanonicalValue, pad: &String, color: bool) -> (r: String)
    ensures
        !color ==> r@ == pretty(*v, pad@),
        color ==> colored_pretty(*v, pad@, r@),
    decreases v, 1nat,
{
    match v {
        CanonicalValue::Null => {
            if color {
                paint_dim("null")
            } else {
                String::from_str("null")
            }
        },
        CanonicalValue::Bool(b) => {
            let text = if *b {
                "true"
            } else {
                "false"
            };
            if color {
                paint_white(text)
            } else {
                String::from_str(text)
            }
        },
        CanonicalValue::Number(t) => {
            if color {
                paint_white(t.as_str())
            } else {
                t.clone()
            }
        },
        CanonicalValue::String(s) => {
            if color {
                paint_green(quoted_plain(s.as_str()).as_str())
            } else {
                quote_json(s.as_str())
            }
        },
        CanonicalValue::Array(_) => render_array(v, pad, color),
        CanonicalValue::Object(_) => render_object(v, pad, color),
    }
}

/// `render` for a sequence.
#[verifier::rlimit(100)]
fn render_array(v: &CanonicalValue, pad: &String, color: bool) -> (r: String)
    requires
        v is Array,
    ensures
        !color ==> r@ == pretty(*v, pad@),
        color ==> colored_pretty(*v, pad@, r@),
    decreases v, 0nat,
{
    match v {
        CanonicalValue::Array(items) => {
            if items.len() == 0 {
                return String::from_str("[]");
            }
            let mut inner = pad.clone();
            inner.append("  ");
            let mut out = String::from_str("[\n");
            let ghost mut body: Seq<char> = Seq::empty();
            let mut k: usize = 0;
            while k < items.len()
                invariant
                    k <= items.len(),
                    *v == CanonicalValue::Array(*items),
                    inner@ == pad@ + "  "@,
                    !color ==> out@ + pretty_children(*v, inner@, k as int) == "[\n"@
                        + pretty_children(*v, inner@, 0),
                    color ==> out@ == "[\n"@ + body && colored_children(*v, inner@, k as int, body),
                decreases items.len() - k,
            {
                let ghost before = out@;
                let ghost prev = body;
                proof {
                    assert(decreases_to!(*v => (*v)->Array_0));
                    assert(decreases_to!(*items => items@));
                    assert(decreases_to!(items@ => items@[k as int]));
                    assert(decreases_to!(*v => items@[k as int]));
                }
                let piece = render(&items[k], &inner, color);
                out.append(inner.as_str());
                out.append(piece.as_str());
                if k + 1 < items.len() {
                    out.append(",\n");
                }
                proof {
                    if !color {
                        let rest = pretty_children(*v, inner@, k as int + 1);
                        assert(pretty_children(*v, inner@, k as int) == inner@ + pretty(
                            items@[k as int],
                            inner@,
                        ) + (if k + 1 < items.len() {
                            ",\n"@
                        } else {
                            Seq::empty()
                        }) + rest);
                        assert(out@ + rest =~= before + pretty_children(*v, inner@, k as int));
                    } else {
                        let line = inner@ + piece@;
                        lemma_colored_item(*items, inner@, k as int, prev, piece@);
                        body = prev + line + child_sep(*v, k as int);
                        assert(out@ =~= "[\n"@ + body);
                        assert(colored_children(*v, inner@, k as int + 1, body));
                    }
                }
                k = k + 1;
            }
            out.append("\n");
            out.append(pad.as_str());
            out.append("]");
            proof {
                if color {
                    assert(out@ =~= "[\n"@ + body + "\n"@ + pad@ + "]"@);
                }
            }
            proof {
                if !color {
                    assert(pretty_children(*v, inner@, items.len() as int) == Seq::<char>::empty());
                    assert(out@ =~= pretty(*v, pad@));
                }
            }
            out
        },
        _ => String::new(),
    }
}

/// `render` for a mapping.
#[verifier::rlimit(100)]
fn render_object(v: &CanonicalValue, pad: &String, color: bool) -> (r: String)
    requires
        v is Object,
    ensures
        !color ==> r@ == pretty(*v, pad@),
        color ==> colored_pretty(*v, pad@, r@),
    decreases v, 0nat,
{
    match v {
        CanonicalValue::Object(entries) => {
            if entries.len() == 0 {
                return String::from_str("{}");
            }
            let mut inner = pad.clone();
            inner.append("  ");
            let mut out = String::from_str("{\n");
            let ghost mut body: Seq<char> = Seq::empty();
            let mut k: usize = 0;
            while k < entries.len()
                invariant
                    k <= entries.len(),
                    *v == CanonicalValue::Object(*entries),
                    inner@ == pad@ + "  "@,
                    !color ==> out@ + pretty_children(*v, inner@, k as int) == "{\n"@
                        + pretty_children(*v, inner@, 0),
                    color ==> out@ == "{\n"@ + body && colored_children(*v, inner@, k as int, body),
                decreases entries.len() - k,
            {
                let ghost before = out@;
                let ghost prev = body;
                let key = if color {
                    paint_key(quoted_plain(entries[k].0.as_str()).as_str())
                } else {
                    quote_json(entries[k].0.as_str())
                };
                proof {
                    assert(decreases_to!(*v => (*v)->Object_0));
                    assert(decreases_to!(*entries => entries@));
                    assert(decreases_to!(entries@ => entries@[k as int]));
                    assert(decreases_to!(entries@[k as int] => entries@[k as int].1));
                    assert(decreases_to!(*v => entries@[k as int].1));
                }
                let piece = render(&entries[k].1, &inner, color);
                out.append(inner.as_str());
                out.append(key.as_str());
                out.append(": ");
                out.append(piece.as_str());
                if k + 1 < entries.len() {
                    out.append(",\n");
                }
                proof {
                    if !color {
                        let rest = pretty_children(*v, inner@, k as int + 1);
                        assert(pretty_children(*v, inner@, k as int) == inner@ + json_quoted(
                            entries@[k as int].0@,
                        ) + ": "@ + pretty(entries@[k as int].1, inner@) + (if k + 1
                            < entries.len() {
                            ",\n"@
                        } else {
                            Seq::empty()
                        }) + rest);
                        assert(out@ + rest =~= before + pretty_children(*v, inner@, k as int));
                    } else {
                        let line = inner@ + key@ + ": "@ + piece@;
                        lemma_colored_entry(*entries, inner@, k as int, prev, key@, piece@);
                        body = prev + line + child_sep(*v, k as int);
                        assert(out@ =~= "{\n"@ + body);
                        assert(colored_children(*v, inner@, k as int + 1, body));
                    }
                }
                k = k + 1;
            }
            out.append("\n");
            out.append(pad.as_str());
            out.append("}");
            proof {
                if color {
                    assert(out@ =~= "{\n"@ + body + "\n"@ + pad@ + "}"@);
                }
            }
            proof {
                if !color {
                    assert(pretty_children(*v, inner@, entries.len() as int) == Seq::<
                        char,
                    >::empty());
                    assert(out@ =~= pretty(*v, pad@));
                }
            }
            out
        },
        _ => String::new(),
    }
}

/// The text of a scalar before any painting: the JSON literal of null, a boolean or a
/// number, a string between plain quotes.
pub open spec fn scalar_text(v: CanonicalValue) -> Seq<char> {
    match v {
        CanonicalValue::Null => "null"@,
        CanonicalValue::Bool(b) => if b {
            "true"@
        } else {
            "false"@
        },
        CanonicalValue::Number(t) => t@,
        CanonicalValue::String(s) => seq!['"'] + s@ + seq!['"'],
        _ => Seq::empty(),
    }
}

/// How a value is printed plainly: a string bare, a scalar as its JSON literal, a
/// mapping or sequence as two-space-indented JSON.
pub open spec fn plain_text(v: CanonicalValue) -> Seq<char> {
    match v {
        CanonicalValue::String(s) => s@,
        CanonicalValue::Array(_) | CanonicalValue::Object(_) => pretty(v, Seq::empty()),
        _ => scalar_text(v),
    }
}

/// The plain text of a value: strings without quotes, `null`, booleans and numbers as
/// written, composites as indented JSON.
pub fn format_value(value: &CanonicalValue) -> (r: String)
    ensures
        r@ == plain_text(*value),
{
    match value {
        CanonicalValue::String(s) => s.clone(),
        _ => render(value, &String::new(), false),
    }
}

/// The whole value as two-space-indented JSON; a string stays quoted.
pub fn pretty_json(value: &CanonicalValue) -> (r: String)
    ensures
        r@ == pretty(*value, Seq::empty()),
{
    render(value, &String::new(), false)
}

/// Two spaces for each level of `indent`.
fn indentation(indent: usize) -> (r: String)
    ensures
        r@ == Seq::new((2 * indent) as nat, |i: int| ' '),
{
    let mut pad = String::new();
    let mut i: usize = 0;
    while i < indent
        invariant
            i <= indent,
            pad@ == Seq::new((2 * i) as nat, |j: int| ' '),
        decreases indent - i,
    {
        push_char(&mut pad, ' ');
        push_char(&mut pad, ' ');
        i = i + 1;
        assert(pad@ =~= Seq::new((2 * i) as nat, |j: int| ' '));
    }
    pad
}

/// The value as indented JSON with colored keys and scalars, its closing bracket
/// indented by `indent` levels. Each scalar is what the colored crate makes of its
/// literal; strings and keys stand between plain quotes.
pub fn colorize_json(value: &CanonicalValue, indent: usize) -> (r: String)
    ensures
        colored_pretty(*value, Seq::new((2 * indent) as nat, |i: int| ' '), r@),
{
    let pad = indentation(indent);
    render(value, &pad, true)
}

/// The text of a value for a color terminal: strings bare and uncolored, other scalars
/// painted, composites as `colorize_json` writes them.
pub fn format_value_colored(value: &CanonicalValue) -> (r: String)
    ensures
        (value matches CanonicalValue::String(s) ==> r@ == s@),
        !(value is String) ==> colored_pretty(*value, Seq::empty(), r@),
{
    assert(Seq::new(0, |i: int| ' ') =~= Seq::<char>::empty());
    match value {
        CanonicalValue::String(s) => s.clone(),
        _ => colorize_json(value, 0),
    }
}

} // verus!
