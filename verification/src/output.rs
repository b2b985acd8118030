//! Human-readable rendering of command output.
use vstd::prelude::*;

use crate::json::{items_view, members_view, Json, JsonView, Member, MemberView};
use crate::strings::{is_white_space, append_str, lemma_trim_char_end, lemma_trim_removes_only, push_char, trim_char_end, trim_char_end_in_place, trim_white_end, trim_white_end_in_place};

verus! {

/// The text of a value that is neither an array nor an object.
pub open spec fn scalar_text(v: JsonView) -> Seq<char> {
    match v {
        JsonView::Null => seq!['n', 'u', 'l', 'l'],
        JsonView::Bool(b) => if b { seq!['t', 'r', 'u', 'e'] } else { seq!['f', 'a', 'l', 's', 'e'] },
        JsonView::Number(n) => n,
        JsonView::Str(s) => s,
        _ => Seq::empty(),
    }
}

/// Arrays and objects are laid out over several lines; everything else on one.
pub open spec fn is_container(v: JsonView) -> bool {
    v is Array || v is Object
}

/// The rendering of `v`, each line starting with `prefix` (the indentation).
///
/// A scalar is one line. The items of an array follow one another at the same
/// indentation, with a blank line before every object item but the first item.
/// Each member of an object is a line `key: text` for a scalar value, or a line
/// `key:` followed by the value indented by two more spaces.
pub open spec fn render(v: JsonView, prefix: Seq<char>) -> Seq<char>
    decreases v, 0nat,
{
    match v {
        JsonView::Array(items) => render_items(items, prefix, items.len()),
        JsonView::Object(members) => render_members(members, prefix, members.len()),
        _ => prefix + scalar_text(v) + seq!['\n'],
    }
}

/// The rendering of the first `n` items of an array.
pub open spec fn render_items(items: Seq<JsonView>, prefix: Seq<char>, n: nat) -> Seq<char>
    decreases items, n,
{
    if n == 0 || n > items.len() {
        Seq::empty()
    } else {
        let k = n - 1;
        let sep = if k > 0 && items[k] is Object { seq!['\n'] } else { Seq::empty() };
        render_items(items, prefix, (n - 1) as nat) + sep + render(items[k], prefix)
    }
}

/// The rendering of the first `n` members of an object.
pub open spec fn render_members(members: Seq<MemberView>, prefix: Seq<char>, n: nat) -> Seq<char>
    decreases members, n,
{
    if n == 0 || n > members.len() {
        Seq::empty()
    } else {
        let m = members[n - 1];
        let line = if is_container(m.value) {
            prefix + m.key + seq![':', '\n'] + render(m.value, prefix + seq![' ', ' '])
        } else {
            prefix + m.key + seq![':', ' '] + trim_white_end(render(m.value, Seq::empty())) + seq!['\n']
        };
        render_members(members, prefix, (n - 1) as nat) + line
    }
}

/// The text that `TextFormatter` prints for `v`: its rendering without trailing newlines.
pub open spec fn text_format(v: JsonView) -> Seq<char> {
    trim_char_end(render(v, Seq::empty()), '\n')
}

/// The text never ends with a newline, and is the rendering of the value with
/// only newlines removed from its end.
pub proof fn lemma_text_format_ends_cleanly(v: JsonView)
    ensures
        text_format(v).len() == 0 || text_format(v).last() != '\n',
        text_format(v) == render(v, Seq::empty()).take(text_format(v).len() as int),
        forall|k: int| text_format(v).len() <= k < render(v, Seq::empty()).len() ==> render(v, Seq::empty())[k] == '\n',
{
    lemma_trim_char_end(render(v, Seq::empty()), '\n');
    lemma_trim_removes_only(render(v, Seq::empty()), '\n');
}

/// A value that is neither an array nor an object prints as its Rust `Display`
/// text: `null`, `true` or `false`, the number's text, the string itself (trailing
/// newlines aside).
pub proof fn lemma_scalar_texts(b: bool, n: Seq<char>, t: Seq<char>)
    requires
        n.len() == 0 || n.last() != '\n',
        t.len() == 0 || t.last() != '\n',
    ensures
        text_format(JsonView::Null) == "null"@,
        text_format(JsonView::Bool(b)) == (if b { "true"@ } else { "false"@ }),
        text_format(JsonView::Bool(true)) != text_format(JsonView::Bool(false)),
        text_format(JsonView::Number(n)) == n,
        text_format(JsonView::Str(t)) == t,
{
    reveal_strlit("null");
    reveal_strlit("true");
    reveal_strlit("false");
    lemma_trim_one_newline("null"@);
    lemma_trim_one_newline("true"@);
    lemma_trim_one_newline("false"@);
    lemma_trim_one_newline(n);
    lemma_trim_one_newline(t);
    assert(render(JsonView::Null, Seq::empty()) =~= "null"@.push('\n'));
    assert(render(JsonView::Bool(true), Seq::empty()) =~= "true"@.push('\n'));
    assert(render(JsonView::Bool(false), Seq::empty()) =~= "false"@.push('\n'));
    assert(render(JsonView::Number(n), Seq::empty()) =~= n.push('\n'));
    assert(render(JsonView::Str(t), Seq::empty()) =~= t.push('\n'));
    assert("true"@[0] != "false"@[0]);
}

proof fn lemma_trim_one_newline(s: Seq<char>)
    requires
        s.len() == 0 || s.last() != '\n',
    ensures
        trim_char_end(s.push('\n'), '\n') == s,
{
    assert(s.push('\n').drop_last() =~= s);
    assert(trim_char_end(s, '\n') == s);
    assert(trim_char_end(s.push('\n'), '\n') == trim_char_end(s, '\n'));
}

/// An object member with a scalar value prints as one line `key: text`; with a
/// boolean value the text is `true` or `false`.
pub proof fn lemma_boolean_member_line(key: Seq<char>, b: bool)
    ensures
        text_format(JsonView::Object(seq![MemberView { key, value: JsonView::Bool(b) }]))
            == key + ": "@ + (if b { "true"@ } else { "false"@ }),
{
    reveal_strlit(": ");
    reveal_strlit("true");
    reveal_strlit("false");
    let line = key + ": "@ + (if b { "true"@ } else { "false"@ });
    lemma_bool_member_render(key, b, Seq::empty());
    assert(Seq::<char>::empty() + key =~= key);
    assert(line.last() == 'e');
    lemma_trim_one_newline(line);
    assert(line.push('\n') =~= line + seq!['\n']);
}

proof fn lemma_bool_member_render(key: Seq<char>, b: bool, prefix: Seq<char>)
    ensures
        render(JsonView::Object(seq![MemberView { key, value: JsonView::Bool(b) }]), prefix)
            == prefix + key + ": "@ + (if b { "true"@ } else { "false"@ }) + seq!['\n'],
{
    reveal_strlit(": ");
    reveal_strlit("true");
    reveal_strlit("false");
    let word: Seq<char> = if b { "true"@ } else { "false"@ };
    let members = seq![MemberView { key, value: JsonView::Bool(b) }];
    assert(render(JsonView::Bool(b), Seq::empty()) =~= word.push('\n'));
    assert(trim_white_end(word.push('\n')) == word) by {
        assert(word.push('\n').drop_last() =~= word);
        assert(is_white_space('\n'));
        assert(word.last() == 'e');
        assert(!is_white_space(word.last()));
        assert(trim_white_end(word) == word);
        assert(trim_white_end(word.push('\n')) == trim_white_end(word));
    }
    assert(render_members(members, prefix, 0) =~= Seq::<char>::empty());
    assert(render(JsonView::Object(members), prefix) =~= prefix + key + ": "@ + word + seq!['\n']);
}

/// A member whose value is itself an object prints as a line `key:` followed by
/// the inner object's lines, indented by two spaces.
pub proof fn lemma_nested_member_indents(key: Seq<char>, inner_key: Seq<char>, b: bool)
    ensures
        text_format(JsonView::Object(seq![MemberView {
            key,
            value: JsonView::Object(seq![MemberView { key: inner_key, value: JsonView::Bool(b) }]),
        }])) == key + ":\n  "@ + inner_key + ": "@ + (if b { "true"@ } else { "false"@ }),
{
    reveal_strlit(":\n  ");
    reveal_strlit(": ");
    reveal_strlit("true");
    reveal_strlit("false");
    let word: Seq<char> = if b { "true"@ } else { "false"@ };
    let inner = JsonView::Object(seq![MemberView { key: inner_key, value: JsonView::Bool(b) }]);
    let outer = seq![MemberView { key, value: inner }];
    lemma_bool_member_render(inner_key, b, seq![' ', ' ']);
    assert(render_members(outer, Seq::empty(), 0) =~= Seq::<char>::empty());
    let text = key + ":\n  "@ + inner_key + ": "@ + word;
    assert(render(JsonView::Object(outer), Seq::empty()) =~= text.push('\n'));
    assert(text.last() == 'e');
    lemma_trim_one_newline(text);
}

/// In an array, an object item after the first is set off by a blank line.
pub proof fn lemma_objects_in_array_separated(k1: Seq<char>, b1: bool, k2: Seq<char>, b2: bool)
    ensures
        text_format(JsonView::Array(seq![
            JsonView::Object(seq![MemberView { key: k1, value: JsonView::Bool(b1) }]),
            JsonView::Object(seq![MemberView { key: k2, value: JsonView::Bool(b2) }]),
        ])) == k1 + ": "@ + (if b1 { "true"@ } else { "false"@ }) + "\n\n"@ + k2 + ": "@ + (if b2 { "true"@ } else { "false"@ }),
{
    reveal_strlit("\n\n");
    reveal_strlit(": ");
    reveal_strlit("true");
    reveal_strlit("false");
    let w1: Seq<char> = if b1 { "true"@ } else { "false"@ };
    let w2: Seq<char> = if b2 { "true"@ } else { "false"@ };
    let o1 = JsonView::Object(seq![MemberView { key: k1, value: JsonView::Bool(b1) }]);
    let o2 = JsonView::Object(seq![MemberView { key: k2, value: JsonView::Bool(b2) }]);
    let items = seq![o1, o2];
    lemma_bool_member_render(k1, b1, Seq::empty());
    lemma_bool_member_render(k2, b2, Seq::empty());
    assert(render_items(items, Seq::empty(), 0) =~= Seq::<char>::empty());
    assert(render_items(items, Seq::empty(), 1) =~= render(o1, Seq::empty()));
    let text = k1 + ": "@ + w1 + "\n\n"@ + k2 + ": "@ + w2;
    assert(render(JsonView::Array(items), Seq::empty()) =~= text.push('\n'));
    assert(text.last() == 'e');
    lemma_trim_one_newline(text);
}

/// Scalar items of an array print one per line, with no blank line between them.
pub proof fn lemma_scalars_in_array_one_per_line(a: bool, b: bool)
    ensures
        text_format(JsonView::Array(seq![JsonView::Bool(a), JsonView::Bool(b)]))
            == (if a { "true"@ } else { "false"@ }) + "\n"@ + (if b { "true"@ } else { "false"@ }),
{
    reveal_strlit("\n");
    reveal_strlit("true");
    reveal_strlit("false");
    let wa: Seq<char> = if a { "true"@ } else { "false"@ };
    let wb: Seq<char> = if b { "true"@ } else { "false"@ };
    let items = seq![JsonView::Bool(a), JsonView::Bool(b)];
    assert(render_items(items, Seq::empty(), 0) =~= Seq::<char>::empty());
    assert(render(JsonView::Bool(a), Seq::empty()) =~= wa.push('\n'));
    assert(render(JsonView::Bool(b), Seq::empty()) =~= wb.push('\n'));
    assert(render_items(items, Seq::empty(), 1) =~= wa.push('\n'));
    assert(!(items[1] is Object));
    assert(render_items(items, Seq::empty(), 2) =~= wa.push('\n') + wb.push('\n'));
    let text = wa + "\n"@ + wb;
    assert(render(JsonView::Array(items), Seq::empty()) =~= text.push('\n'));
    assert(text.last() == 'e');
    lemma_trim_one_newline(text);
}

/// Outputs human-readable text.
pub struct TextFormatter;

impl TextFormatter {
    /// The human-readable rendering of `value`, without trailing newlines.
    pub fn format(&self, value: &Json) -> (out: String)
        ensures
            out@ == text_format(value@),
    {
        let mut buf = String::new();
        let prefix = String::new();
        format_value(&mut buf, value, &prefix);
        assert(buf@ =~= render(value@, Seq::empty()));
        trim_char_end_in_place(&mut buf, '\n');
        buf
    }
}


fn format_scalar(buf: &mut String, value: &Json, prefix: &String)
    requires
        !is_container(value@),
    ensures
        final(buf)@ == old(buf)@ + render(value@, prefix@),
{
    append_str(buf, prefix.as_str());
    match value {
        Json::Null => {
            append_str(buf, "null");
            proof {
                reveal_strlit("null");
            }
        },
        Json::Bool(b) => {
            if *b {
                append_str(buf, "true");
                proof {
                    reveal_strlit("true");
                }
            } else {
                append_str(buf, "false");
                proof {
                    reveal_strlit("false");
                }
            }
        },
        Json::Number(n) => {
            append_str(buf, n.as_str());
        },
        Json::Str(s) => {
            append_str(buf, s.as_str());
        },
        _ => {},
    }
    push_char(buf, '\n');
    assert(buf@ =~= old(buf)@ + render(value@, prefix@));
}

fn format_value(buf: &mut String, value: &Json, prefix: &String)
    ensures
        final(buf)@ == old(buf)@ + render(value@, prefix@),
    decreases value, 0nat,
{
    match value {
        Json::Array(items) => {
            format_items(buf, items, prefix);
            assert(value@ == JsonView::Array(items_view(items@))) by {
                assert(value@->Array_0 =~= items_view(items@));
            }
        },
        Json::Object(members) => {
            format_members(buf, members, prefix);
            assert(value@ == JsonView::Object(members_view(members@))) by {
                assert(value@->Object_0 =~= members_view(members@));
            }
        },
        _ => format_scalar(buf, value, prefix),
    }
}

fn format_items(buf: &mut String, items: &Vec<Json>, prefix: &String)
    ensures
        final(buf)@ == old(buf)@ + render_items(items_view(items@), prefix@, items@.len()),
    decreases items, 0nat,
{
    let ghost views = items_view(items@);
    for k in 0..items.len()
        invariant
            views == items_view(items@),
            buf@ == old(buf)@ + render_items(views, prefix@, k as nat),
    {
        assert(views[k as int] == items@[k as int]@);
        if k > 0 && items[k].is_object() {
            push_char(buf, '\n');
        }
        proof {
            assert(decreases_to!(*items => items[k as int]));
        }
        format_value(buf, &items[k], prefix);
        assert(buf@ =~= old(buf)@ + render_items(views, prefix@, (k + 1) as nat));
    }
}

fn format_members(buf: &mut String, members: &Vec<Member>, prefix: &String)
    ensures
        final(buf)@ == old(buf)@ + render_members(members_view(members@), prefix@, members@.len()),
    decreases members, 0nat,
{
    let ghost views = members_view(members@);
    for k in 0..members.len()
        invariant
            views == members_view(members@),
            buf@ == old(buf)@ + render_members(views, prefix@, k as nat),
    {
        let member: &Member = &members[k];
        assert(views[k as int] == MemberView { key: member.key@, value: member.value@ });
        proof {
            assert(decreases_to!(*members => members[k as int]));
            assert(decreases_to!(members[k as int] => members[k as int].value));
        }
        if member.value.is_container() {
            append_str(buf, prefix.as_str());
            append_str(buf, member.key.as_str());
            push_char(buf, ':');
            push_char(buf, '\n');
            let mut deeper = prefix.clone();
            push_char(&mut deeper, ' ');
            push_char(&mut deeper, ' ');
            assert(deeper@ =~= prefix@ + seq![' ', ' ']);
            format_value(buf, &member.value, &deeper);
        } else {
            append_str(buf, prefix.as_str());
            append_str(buf, member.key.as_str());
            push_char(buf, ':');
            push_char(buf, ' ');
            let mut inline = String::new();
            let empty = String::new();
            format_scalar(&mut inline, &member.value, &empty);
            assert(inline@ =~= render(member.value@, Seq::empty()));
            trim_white_end_in_place(&mut inline);
            append_str(buf, inline.as_str());
            push_char(buf, '\n');
        }
        assert(buf@ =~= old(buf)@ + render_members(views, prefix@, (k + 1) as nat));
    }
}

} // verus!
