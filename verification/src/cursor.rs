//! Protocol adapters for Cursor: OpenAI Chat Completions and Responses
//! requests become Anthropic Messages requests, and Anthropic or Chat
//! responses become Chat or Responses responses.
use vstd::prelude::*;
use crate::json::{
    empty_obj, group_json_view, items_view, lemma_items_view, lemma_items_view_push, lemma_items_view_concat, jnum, json_parse, json_text, jstr, or_else,
    parse_json_text, to_json_text, Json, JsonV,
};
use crate::text::{chars_of, push_chars, str_eq, string_from_chars};

verus! {

// ---------------------------------------------------------------------------
// Identifiers
// ---------------------------------------------------------------------------
/// A lower-case hexadecimal digit.
pub open spec fn is_lower_hex(c: char) -> bool {
    ('0' <= c <= '9') || ('a' <= c <= 'f')
}

/// `prefix` followed by 32 lower-case hexadecimal digits.
pub open spec fn is_generated_id(id: Seq<char>, prefix: Seq<char>) -> bool {
    &&& id.len() == prefix.len() + 32
    &&& id.subrange(0, prefix.len() as int) == prefix
    &&& forall|i: int| prefix.len() <= i < id.len() ==> is_lower_hex(#[trigger] id[i])
}

/// `Uuid::new_v4().simple().to_string()`: a random version-4 UUID in the
/// simple format, which uuid writes as 32 lower-case hexadecimal digits. Which
/// digits come out is left open.
#[verifier::external_body]
fn random_uuid_simple() -> (r: String)
    ensures
        r@.len() == 32,
        forall|i: int| 0 <= i < 32 ==> is_lower_hex(#[trigger] r@[i]),
{
    uuid::Uuid::new_v4().simple().to_string()
}

/// A fresh identifier: `prefix` followed by a random UUID in simple form.
pub fn gen_id(prefix: &str) -> (r: String)
    ensures
        is_generated_id(r@, prefix@),
{
    let mut cs = chars_of(prefix);
    let u = random_uuid_simple();
    let us = chars_of(u.as_str());
    push_chars(&mut cs, us.as_slice());
    proof {
        assert(cs@.subrange(0, prefix@.len() as int) =~= prefix@);
        assert forall|i: int| prefix@.len() <= i < cs@.len() implies is_lower_hex(#[trigger] cs@[i]) by {
            assert(cs@[i] == u@[i - prefix@.len()]);
        }
    }
    string_from_chars(cs.as_slice())
}

// ---------------------------------------------------------------------------
// Text of message content
// ---------------------------------------------------------------------------
/// `items` joined with `sep` between consecutive items.
pub open spec fn join(items: Seq<Seq<char>>, sep: Seq<char>) -> Seq<char>
    decreases items.len(),
{
    if items.len() == 0 {
        Seq::empty()
    } else if items.len() == 1 {
        items[0]
    } else {
        join(items.drop_last(), sep) + sep + items.last()
    }
}

/// The text that a content part contributes: a bare string, or the `text` of
/// a part of type `text`.
pub open spec fn part_text(part: JsonV) -> Option<Seq<char>> {
    match part {
        JsonV::Str(t) => Some(t),
        _ => if part.get_str("type"@) == Some("text"@) {
            part.get_str("text"@)
        } else {
            None
        },
    }
}

/// The texts of the parts that have one, in order.
pub open spec fn part_texts(parts: Seq<JsonV>) -> Seq<Seq<char>>
    decreases parts.len(),
{
    if parts.len() == 0 {
        Seq::empty()
    } else {
        let rest = part_texts(parts.drop_last());
        match part_text(parts.last()) {
            Some(t) => rest.push(t),
            None => rest,
        }
    }
}

/// The plain text of a content value: empty for `null`, the string itself, the
/// texts of an array's parts joined by newlines, or the JSON text of any other
/// value.
pub open spec fn value_text(v: JsonV) -> Seq<char> {
    match v {
        JsonV::Null => Seq::empty(),
        JsonV::Str(t) => t,
        JsonV::Array(parts) => join(part_texts(parts), seq!['\n']),
        _ => json_text(v),
    }
}

proof fn lemma_join_push(xs: Seq<Seq<char>>, t: Seq<char>, sep: Seq<char>)
    ensures
        join(xs.push(t), sep) == if xs.len() == 0 {
            t
        } else {
            join(xs, sep) + sep + t
        },
{
    assert(xs.push(t).drop_last() =~= xs);
}

/// The text of one content part, where it has one.
fn part_text_of(part: &Json) -> (r: Option<&str>)
    ensures
        match r {
            Some(t) => part_text(part@) == Some(t@),
            None => part_text(part@) is None,
        },
{
    if let Some(t) = part.as_str() {
        return Some(t);
    }
    match part.get_str("type") {
        Some(ty) => if str_eq(ty, "text") {
            part.get_str("text")
        } else {
            None
        },
        None => None,
    }
}

/// The plain text of a content value.
pub fn value_to_text(value: &Json) -> (r: String)
    ensures
        r@ == value_text(value@),
{
    broadcast use group_json_view;
    match value {
        Json::Null => String::new(),
        Json::String(t) => t.clone(),
        Json::Array(parts) => {
            let ghost pv = items_view(parts@);
            let mut out: Vec<char> = Vec::new();
            let mut any = false;
            let mut i: usize = 0;
            while i < parts.len()
                invariant
                    i <= parts@.len(),
                    pv == items_view(parts@),
                    pv.len() == parts@.len(),
                    out@ == join(part_texts(pv.take(i as int)), seq!['\n']),
                    any == (part_texts(pv.take(i as int)).len() > 0),
                decreases parts@.len() - i,
            {
                let ghost before = part_texts(pv.take(i as int));
                proof {
                    lemma_items_view(parts@);
                    assert(pv.take(i as int + 1).drop_last() =~= pv.take(i as int));
                    assert(pv[i as int] == parts@[i as int]@);
                }
                match part_text_of(&parts[i]) {
                    Some(t) => {
                        proof {
                            lemma_join_push(before, t@, seq!['\n']);
                        }
                        if any {
                            out.push('\n');
                        }
                        let tc = chars_of(t);
                        push_chars(&mut out, tc.as_slice());
                        any = true;
                        proof {
                            if before.len() > 0 {
                                assert(out@ =~= join(before, seq!['\n']) + seq!['\n'] + t@);
                            } else {
                                assert(out@ =~= t@);
                            }
                        }
                    },
                    None => {},
                }
                i = i + 1;
            }
            proof {
                assert(pv.take(parts@.len() as int) =~= pv);
            }
            string_from_chars(out.as_slice())
        },
        _ => to_json_text(value),
    }
}

// ---------------------------------------------------------------------------
// Content blocks
// ---------------------------------------------------------------------------
/// `{"type": "text", "text": t}`.
pub open spec fn text_block(t: Seq<char>) -> JsonV {
    empty_obj().set("type"@, jstr("text"@)).set("text"@, jstr(t))
}

/// The first position at which `p` occurs in `s` at or after `i`.
pub open spec fn find_from(s: Seq<char>, p: Seq<char>, i: int) -> Option<int>
    decreases s.len() + 1 - i,
{
    if i < 0 || i + p.len() > s.len() {
        None
    } else if s.subrange(i, i + p.len()) == p {
        Some(i)
    } else {
        find_from(s, p, i + 1)
    }
}

/// `str::split_once`: the text before and after the first occurrence of `p`.
pub open spec fn split_once(s: Seq<char>, p: Seq<char>) -> Option<(Seq<char>, Seq<char>)> {
    match find_from(s, p, 0) {
        Some(i) => Some((s.subrange(0, i), s.subrange(i + p.len(), s.len() as int))),
        None => None,
    }
}

/// The Anthropic image block for an image URL: inline base64 data for a
/// `data:` URL, a URL source otherwise.
pub open spec fn image_block(url: Seq<char>) -> JsonV {
    if crate::text::has_prefix(url, "data:"@) {
        let rest = url.subrange(5, url.len() as int);
        let (media_type, data) = match split_once(rest, ";base64,"@) {
            Some(pair) => pair,
            None => ("image/png"@, Seq::empty()),
        };
        empty_obj().set("type"@, jstr("image"@)).set(
            "source"@,
            empty_obj().set("type"@, jstr("base64"@)).set("media_type"@, jstr(media_type)).set(
                "data"@,
                jstr(data),
            ),
        )
    } else {
        empty_obj().set("type"@, jstr("image"@)).set(
            "source"@,
            empty_obj().set("type"@, jstr("url"@)).set("url"@, jstr(url)),
        )
    }
}

/// The URL of an `image_url` part: `image_url.url`, or `image_url` itself when
/// it is a string, looking at the part itself when it has no `image_url`.
pub open spec fn image_url_of(part: JsonV) -> Seq<char> {
    let url_value = or_else(part.get("image_url"@), part);
    match url_value.get_str("url"@) {
        Some(u) => u,
        None => match url_value.as_str() {
            Some(u) => u,
            None => Seq::empty(),
        },
    }
}

/// The Anthropic block for one part of an OpenAI content array.
pub open spec fn part_block(part: JsonV) -> Option<JsonV> {
    match part {
        JsonV::Str(t) => Some(text_block(t)),
        _ => {
            let ty = part.str_or("type"@, Seq::empty());
            if ty == "text"@ {
                Some(text_block(part.str_or("text"@, Seq::empty())))
            } else if ty == "image"@ || ty == "tool_use"@ || ty == "tool_result"@ {
                Some(part)
            } else if ty == "image_url"@ {
                Some(image_block(image_url_of(part)))
            } else {
                None
            }
        },
    }
}

/// The blocks of the parts that have one, in order.
pub open spec fn part_blocks(parts: Seq<JsonV>) -> Seq<JsonV>
    decreases parts.len(),
{
    if parts.len() == 0 {
        Seq::empty()
    } else {
        let rest = part_blocks(parts.drop_last());
        match part_block(parts.last()) {
            Some(b) => rest.push(b),
            None => rest,
        }
    }
}

/// The Anthropic content blocks of an OpenAI message content.
pub open spec fn content_blocks(content: Option<JsonV>) -> Seq<JsonV> {
    match content {
        None => Seq::empty(),
        Some(JsonV::Str(t)) => if t.len() == 0 {
            Seq::empty()
        } else {
            seq![text_block(t)]
        },
        Some(JsonV::Array(parts)) => part_blocks(parts),
        Some(JsonV::Null) => Seq::empty(),
        Some(other) => seq![text_block(json_text(other))],
    }
}

/// `{"type": "text", "text": t}`.
fn make_text_block(t: &str) -> (r: Json)
    ensures
        r@ == text_block(t@),
{
    Json::object().set("type", Json::from_str("text")).set("text", Json::from_str(t))
}

proof fn lemma_find_from(s: Seq<char>, p: Seq<char>, k: int, i: int)
    requires
        find_from(s, p, k) == Some(i),
    ensures
        k <= i,
        i + p.len() <= s.len(),
        s.subrange(i, i + p.len()) == p,
    decreases s.len() + 1 - k,
{
    if k >= 0 && k + p.len() <= s.len() && s.subrange(k, k + p.len()) != p {
        lemma_find_from(s, p, k + 1, i);
    }
}

/// The first position of `p` in `s` at or after `start`.
fn find_from_exec(s: &Vec<char>, p: &Vec<char>, start: usize) -> (r: Option<usize>)
    ensures
        match r {
            Some(i) => find_from(s@, p@, start as int) == Some(i as int),
            None => find_from(s@, p@, start as int) is None,
        },
{
    let mut i = start;
    while i <= s.len() && p.len() <= s.len() - i
        invariant
            start <= i,
            find_from(s@, p@, start as int) == find_from(s@, p@, i as int),
        decreases s@.len() + 1 - i,
    {
        if crate::text::occurs_at_exec(s, p, i) {
            return Some(i);
        }
        proof {
            if p@.len() == 0 {
                assert(s@.subrange(i as int, i as int) =~= p@);
            }
        }
        i = i + 1;
    }
    None
}

/// The Anthropic image block for an image URL.
fn make_image_block(url: &str) -> (r: Json)
    ensures
        r@ == image_block(url@),
{
    let uc = chars_of(url);
    let data_prefix = chars_of("data:");
    proof {
        reveal_strlit("data:");
    }
    match crate::text::strip_prefix_chars(&uc, &data_prefix) {
        Some(rest) => {
            let sep = chars_of(";base64,");
            let (media_type, data) = match find_from_exec(&rest, &sep, 0) {
                Some(i) => {
                    proof {
                        lemma_find_from(rest@, sep@, 0, i as int);
                    }
                    let end = rest.len();
                    assert(i + sep@.len() <= end);
                    let m = crate::text::sub_chars(&rest, 0, i);
                    let d = crate::text::sub_chars(&rest, i + sep.len(), end);
                    (string_from_chars(m.as_slice()), string_from_chars(d.as_slice()))
                },
                None => ("image/png".to_owned(), String::new()),
            };
            proof {
                assert(rest@ =~= uc@.subrange(5, uc@.len() as int));
            }
            let source = Json::object().set("type", Json::from_str("base64")).set(
                "media_type",
                Json::from_str(media_type.as_str()),
            ).set("data", Json::from_str(data.as_str()));
            Json::object().set("type", Json::from_str("image")).set("source", source)
        },
        None => {
            let source = Json::object().set("type", Json::from_str("url")).set(
                "url",
                Json::from_str(url),
            );
            Json::object().set("type", Json::from_str("image")).set("source", source)
        },
    }
}

/// The Anthropic block for one part of an OpenAI content array.
fn make_part_block(part: &Json) -> (r: Option<Json>)
    ensures
        match r {
            Some(b) => part_block(part@) == Some(b@),
            None => part_block(part@) is None,
        },
{
    if let Some(t) = part.as_str() {
        return Some(make_text_block(t));
    }
    let ty = part.str_or("type", "");
    proof {
        reveal_strlit("");
        assert(""@ =~= Seq::<char>::empty());
    }
    if str_eq(ty, "text") {
        Some(make_text_block(part.str_or("text", "")))
    } else if str_eq(ty, "image") || str_eq(ty, "tool_use") || str_eq(ty, "tool_result") {
        Some(part.deep_clone())
    } else if str_eq(ty, "image_url") {
        let url_value = match part.get("image_url") {
            Some(v) => v,
            None => part,
        };
        let url = match url_value.get_str("url") {
            Some(u) => u,
            None => match url_value.as_str() {
                Some(u) => u,
                None => "",
            },
        };
        Some(make_image_block(url))
    } else {
        None
    }
}

/// The Anthropic content blocks of an OpenAI message content.
pub fn content_to_anthropic_blocks(content: Option<&Json>) -> (r: Vec<Json>)
    ensures
        items_view(r@) == content_blocks(
            match content {
                Some(c) => Some(c@),
                None => None,
            },
        ),
{
    broadcast use group_json_view;
    let mut out: Vec<Json> = Vec::new();
    proof {
        assert(items_view(out@) =~= Seq::<JsonV>::empty());
    }
    match content {
        None => out,
        Some(Json::String(t)) => {
            if t.as_str().is_empty() {
                proof {
                    assert(t@.len() == 0);
                }
                out
            } else {
                proof {
                    assert(t@.len() != 0);
                }
                out.push(make_text_block(t.as_str()));
                proof {
                    assert(out@.drop_last() =~= Seq::<Json>::empty());
                }
                out
            }
        },
        Some(Json::Array(parts)) => {
            let ghost pv = items_view(parts@);
            let mut i: usize = 0;
            while i < parts.len()
                invariant
                    i <= parts@.len(),
                    pv == items_view(parts@),
                    pv.len() == parts@.len(),
                    items_view(out@) == part_blocks(pv.take(i as int)),
                decreases parts@.len() - i,
            {
                proof {
                    lemma_items_view(parts@);
                    assert(pv.take(i as int + 1).drop_last() =~= pv.take(i as int));
                    assert(pv[i as int] == parts@[i as int]@);
                }
                match make_part_block(&parts[i]) {
                    Some(b) => {
                        let ghost before = out@;
                        out.push(b);
                        proof {
                            assert(out@.drop_last() =~= before);
                        }
                    },
                    None => {},
                }
                i = i + 1;
            }
            proof {
                assert(pv.take(parts@.len() as int) =~= pv);
            }
            out
        },
        Some(Json::Null) => out,
        Some(other) => {
            let t = to_json_text(other);
            out.push(make_text_block(t.as_str()));
            proof {
                assert(out@.drop_last() =~= Seq::<Json>::empty());
            }
            out
        },
    }
}

// ---------------------------------------------------------------------------
// Tool arguments
// ---------------------------------------------------------------------------
/// The input of a tool call: a JSON string's parsed value (an empty object
/// where it is not JSON), an object or array as it is, an empty object
/// otherwise.
pub open spec fn tool_arguments(arguments: Option<JsonV>) -> JsonV {
    match arguments {
        Some(JsonV::Str(raw)) => match json_parse(raw) {
            Some(v) => v,
            None => empty_obj(),
        },
        Some(JsonV::Object(e)) => JsonV::Object(e),
        Some(JsonV::Array(a)) => JsonV::Array(a),
        _ => empty_obj(),
    }
}

/// The input of a tool call from its `arguments`.
pub fn parse_tool_arguments(arguments: Option<&Json>) -> (r: Json)
    ensures
        r@ == tool_arguments(
            match arguments {
                Some(a) => Some(a@),
                None => None,
            },
        ),
{
    match arguments {
        Some(Json::String(raw)) => match parse_json_text(raw.as_str()) {
            Some(v) => v,
            None => Json::object(),
        },
        Some(Json::Object(e)) => {
            let a = arguments.unwrap();
            a.deep_clone()
        },
        Some(Json::Array(items)) => {
            let a = arguments.unwrap();
            a.deep_clone()
        },
        _ => Json::object(),
    }
}


// ---------------------------------------------------------------------------
// Chat Completions request -> Anthropic Messages request
// ---------------------------------------------------------------------------
/// The values of the `Some` entries, in order.
pub open spec fn somes(s: Seq<Option<JsonV>>) -> Seq<JsonV>
    decreases s.len(),
{
    if s.len() == 0 {
        Seq::empty()
    } else {
        match s.last() {
            Some(v) => somes(s.drop_last()).push(v),
            None => somes(s.drop_last()),
        }
    }
}

/// The one-element sequence of an option's value, or the empty sequence.
pub open spec fn opt_seq<A>(o: Option<A>) -> Seq<A> {
    match o {
        Some(x) => seq![x],
        None => Seq::empty(),
    }
}

/// The views of a list of texts.
pub open spec fn texts_view(v: Seq<String>) -> Seq<Seq<char>> {
    v.map_values(|s: String| s@)
}

/// `acc` with the next message folded in: its content blocks go into the last
/// message when both have the same role, otherwise it is added.
pub open spec fn merge_step(acc: Seq<JsonV>, m: JsonV) -> Seq<JsonV> {
    if acc.len() > 0 && acc.last().get_str("role"@) == Some(m.str_or("role"@, "user"@)) {
        acc.update(
            acc.len() - 1,
            acc.last().set(
                "content"@,
                JsonV::Array(
                    content_blocks(acc.last().get("content"@)) + content_blocks(m.get("content"@)),
                ),
            ),
        )
    } else {
        acc.push(m)
    }
}

/// Consecutive messages of the same role merged into one.
pub open spec fn merge_roles(msgs: Seq<JsonV>) -> Seq<JsonV>
    decreases msgs.len(),
{
    if msgs.len() == 0 {
        Seq::empty()
    } else {
        merge_step(merge_roles(msgs.drop_last()), msgs.last())
    }
}

/// Every value is an object.
pub open spec fn all_objects(s: Seq<JsonV>) -> bool {
    forall|i: int| 0 <= i < s.len() ==> #[trigger] s[i] is Object
}

proof fn lemma_merge_objects(msgs: Seq<JsonV>)
    requires
        all_objects(msgs),
    ensures
        all_objects(merge_roles(msgs)),
    decreases msgs.len(),
{
    if msgs.len() > 0 {
        assert(all_objects(msgs.drop_last()));
        lemma_merge_objects(msgs.drop_last());
    }
}

/// No two neighbouring messages carry the same role.
pub open spec fn roles_alternate(msgs: Seq<JsonV>) -> bool {
    forall|i: int, j: int|
        #![trigger msgs[i], msgs[j]]
        0 <= i && j == i + 1 && j < msgs.len() ==> !(msgs[i].get_str("role"@) is Some && msgs[i].get_str("role"@)
            == msgs[j].get_str("role"@))
}

/// After merging, no two neighbouring messages carry the same role: a message
/// whose role matches the one before it is folded into it.
pub proof fn law_merged_roles_alternate(msgs: Seq<JsonV>)
    requires
        all_objects(msgs),
    ensures
        roles_alternate(merge_roles(msgs)),
        merge_roles(msgs).len() <= msgs.len(),
    decreases msgs.len(),
{
    if msgs.len() > 0 {
        let rest = msgs.drop_last();
        assert(all_objects(rest));
        law_merged_roles_alternate(rest);
        lemma_merge_objects(rest);
        let acc = merge_roles(rest);
        let m = msgs.last();
        let out = merge_roles(msgs);
        if acc.len() > 0 && acc.last().get_str("role"@) == Some(m.str_or("role"@, "user"@)) {
            let merged = acc.last().set(
                "content"@,
                JsonV::Array(content_blocks(acc.last().get("content"@)) + content_blocks(m.get("content"@))),
            );
            reveal_strlit("role");
            reveal_strlit("content");
            assert("role"@.len() != "content"@.len());
            assert(acc[acc.len() - 1] is Object);
            crate::json::law_get_after_set(
                acc.last(),
                "content"@,
                "role"@,
                JsonV::Array(content_blocks(acc.last().get("content"@)) + content_blocks(m.get("content"@))),
            );
            assert(merged.get_str("role"@) == acc.last().get_str("role"@));
            assert forall|i: int, j: int|
                #![trigger out[i], out[j]]
                0 <= i && j == i + 1 && j < out.len() implies !(out[i].get_str("role"@) is Some
                    && out[i].get_str("role"@) == out[j].get_str("role"@)) by {
                assert(acc[i] == out[i] || i == acc.len() - 1);
                assert(acc[j] == out[j] || j == acc.len() - 1);
                assert(out[acc.len() - 1] == merged);
                assert(acc[i].get_str("role"@) == out[i].get_str("role"@));
                assert(acc[j].get_str("role"@) == out[j].get_str("role"@));
            }
        } else {
            assert forall|i: int, j: int|
                #![trigger out[i], out[j]]
                0 <= i && j == i + 1 && j < out.len() implies !(out[i].get_str("role"@) is Some
                    && out[i].get_str("role"@) == out[j].get_str("role"@)) by {
                if j < acc.len() {
                    assert(out[i] == acc[i]);
                    assert(out[j] == acc[j]);
                } else {
                    assert(out[j] == m);
                    assert(out[i] == acc.last());
                    if m.get_str("role"@) is Some {
                        assert(m.str_or("role"@, "user"@) == m.get_str("role"@).unwrap());
                    }
                }
            }
        }
    }
}

/// Merges consecutive messages of the same role into one message whose
/// content is the blocks of both.
fn merge_same_role(messages: &Vec<Json>) -> (r: Vec<Json>)
    requires
        all_objects(items_view(messages@)),
    ensures
        items_view(r@) == merge_roles(items_view(messages@)),
{
    broadcast use group_json_view;
    let ghost mv = items_view(messages@);
    let mut merged: Vec<Json> = Vec::new();
    let mut i: usize = 0;
    proof {
        assert(items_view(merged@) =~= Seq::<JsonV>::empty());
        assert(mv.take(0) =~= Seq::<JsonV>::empty());
    }
    while i < messages.len()
        invariant
            i <= messages@.len(),
            mv == items_view(messages@),
            mv.len() == messages@.len(),
            all_objects(mv),
            items_view(merged@) == merge_roles(mv.take(i as int)),
        decreases messages@.len() - i,
    {
        let message = &messages[i];
        proof {
            lemma_items_view(messages@);
            assert(mv.take(i as int + 1).drop_last() =~= mv.take(i as int));
            assert(mv[i as int] == message@);
            assert(mv.take(i as int).len() == i);
            assert(all_objects(mv.take(i as int)));
            lemma_merge_objects(mv.take(i as int));
        }
        let role = message.str_or("role", "user");
        let n = merged.len();
        let same = if n > 0 {
            match merged[n - 1].get_str("role") {
                Some(r) => str_eq(r, role),
                None => false,
            }
        } else {
            false
        };
        let ghost acc = items_view(merged@);
        proof {
            lemma_items_view(merged@);
        }
        if same {
            let last = merged.pop().unwrap();
            proof {
                assert(acc.last() == last@);
            }
            let mut lb = content_to_anthropic_blocks(last.get("content"));
            let mut nb = content_to_anthropic_blocks(message.get("content"));
            let ghost lbv = lb@;
            let ghost nbv = nb@;
            lb.append(&mut nb);
            proof {
                lemma_items_view_concat(lbv, nbv);
                assert(last@ is Object);
            }
            let new_last = last.set("content", Json::from_vec(lb));
            let ghost mid = merged@;
            merged.push(new_last);
            proof {
                lemma_items_view_push(mid, new_last);
                assert(items_view(mid) =~= acc.drop_last());
                assert(items_view(merged@) =~= acc.update(acc.len() - 1, new_last@));
            }
        } else {
            let ghost mid = merged@;
            let c = message.deep_clone();
            merged.push(c);
            proof {
                lemma_items_view_push(mid, c);
            }
        }
        i = i + 1;
    }
    proof {
        assert(mv.take(messages@.len() as int) =~= mv);
    }
    merged
}

/// The input schema given to a tool that states none.
pub open spec fn default_schema() -> JsonV {
    empty_obj().set("type"@, jstr("object"@)).set("properties"@, empty_obj())
}

/// An Anthropic tool definition.
pub open spec fn tool_entry(name: Seq<char>, description: Option<JsonV>, schema: Option<JsonV>) -> JsonV {
    empty_obj().set("name"@, jstr(name)).set("description"@, or_else(description, jstr(Seq::empty()))).set(
        "input_schema"@,
        or_else(schema, default_schema()),
    )
}

/// The Anthropic form of an OpenAI `function` tool or of a tool that is already
/// in Anthropic form; `None` for anything else.
pub open spec fn anthropic_tool(tool: JsonV) -> Option<JsonV> {
    if tool.get_str("type"@) == Some("function"@) {
        match tool.get("function"@) {
            Some(f) => Some(tool_entry(f.str_or("name"@, Seq::empty()), f.get("description"@), f.get("parameters"@))),
            None => None,
        }
    } else if tool.get("name"@) is Some && tool.get("input_schema"@) is Some {
        Some(tool_entry(tool.str_or("name"@, Seq::empty()), tool.get("description"@), tool.get("input_schema"@)))
    } else {
        None
    }
}

/// The Anthropic tool definitions of an OpenAI `tools` array.
pub open spec fn anthropic_tools(tools: Option<JsonV>) -> Seq<JsonV> {
    match tools {
        Some(JsonV::Array(a)) => somes(a.map_values(|t: JsonV| anthropic_tool(t))),
        _ => Seq::empty(),
    }
}

/// `{"name": name, "description": .., "input_schema": ..}`.
fn make_tool_entry(name: &str, description: Option<&Json>, schema: Option<&Json>) -> (r: Json)
    ensures
        r@ == tool_entry(
            name@,
            match description {
                Some(d) => Some(d@),
                None => None,
            },
            match schema {
                Some(d) => Some(d@),
                None => None,
            },
        ),
{
    let d = match description {
        Some(d) => d.deep_clone(),
        None => Json::from_str(""),
    };
    let sc = match schema {
        Some(x) => x.deep_clone(),
        None => Json::object().set("type", Json::from_str("object")).set("properties", Json::object()),
    };
    proof {
        reveal_strlit("");
        assert(""@ =~= Seq::<char>::empty());
    }
    Json::object().set("name", Json::from_str(name)).set("description", d).set("input_schema", sc)
}

/// The Anthropic form of one tool.
fn make_anthropic_tool(tool: &Json) -> (r: Option<Json>)
    ensures
        match r {
            Some(t) => anthropic_tool(tool@) == Some(t@),
            None => anthropic_tool(tool@) is None,
        },
{
    proof {
        reveal_strlit("");
        assert(""@ =~= Seq::<char>::empty());
    }
    let is_function = match tool.get_str("type") {
        Some(t) => str_eq(t, "function"),
        None => false,
    };
    if is_function {
        match tool.get("function") {
            Some(f) => Some(make_tool_entry(f.str_or("name", ""), f.get("description"), f.get("parameters"))),
            None => None,
        }
    } else if tool.get("name").is_some() && tool.get("input_schema").is_some() {
        Some(make_tool_entry(tool.str_or("name", ""), tool.get("description"), tool.get("input_schema")))
    } else {
        None
    }
}

/// The Anthropic tool definitions of an OpenAI `tools` value.
pub fn convert_tools_to_anthropic(tools: Option<&Json>) -> (r: Vec<Json>)
    ensures
        items_view(r@) == anthropic_tools(
            match tools {
                Some(t) => Some(t@),
                None => None,
            },
        ),
{
    broadcast use group_json_view;
    let mut out: Vec<Json> = Vec::new();
    proof {
        assert(items_view(out@) =~= Seq::<JsonV>::empty());
    }
    match tools {
        Some(Json::Array(a)) => {
            let ghost av = items_view(a@);
            let ghost f = |t: JsonV| anthropic_tool(t);
            let mut i: usize = 0;
            proof {
                assert(av.take(0).map_values(f) =~= Seq::<Option<JsonV>>::empty());
            }
            while i < a.len()
                invariant
                    i <= a@.len(),
                    av == items_view(a@),
                    av.len() == a@.len(),
                    f == (|t: JsonV| anthropic_tool(t)),
                    items_view(out@) == somes(av.take(i as int).map_values(f)),
                decreases a@.len() - i,
            {
                proof {
                    lemma_items_view(a@);
                    assert(av.take(i as int + 1).map_values(f) =~= av.take(i as int).map_values(f).push(
                        f(av[i as int]),
                    ));
                    assert(av.take(i as int).map_values(f).push(f(av[i as int])).drop_last()
                        =~= av.take(i as int).map_values(f));
                    assert(av[i as int] == a@[i as int]@);
                }
                match make_anthropic_tool(&a[i]) {
                    Some(t) => {
                        let ghost mid = out@;
                        out.push(t);
                        proof {
                            lemma_items_view_push(mid, t);
                        }
                    },
                    None => {},
                }
                i = i + 1;
            }
            proof {
                assert(av.take(a@.len() as int) =~= av);
            }
            out
        },
        _ => out,
    }
}


/// The role of a message, `user` where it has none.
pub open spec fn role_of(m: JsonV) -> Seq<char> {
    m.str_or("role"@, "user"@)
}

/// The plain text of a message's content, empty where it has none.
pub open spec fn content_text(m: JsonV) -> Seq<char> {
    match m.get("content"@) {
        Some(c) => value_text(c),
        None => Seq::empty(),
    }
}

/// `{"type": "thinking", "thinking": r}`.
pub open spec fn thinking_block(r: Seq<char>) -> JsonV {
    empty_obj().set("type"@, jstr("thinking"@)).set("thinking"@, jstr(r))
}

/// The Anthropic `tool_use` block of an OpenAI tool call.
pub open spec fn tool_use_block(tc: JsonV) -> JsonV {
    empty_obj().set("type"@, jstr("tool_use"@)).set("id"@, jstr(tc.str_or("id"@, "toolu_"@))).set(
        "name"@,
        jstr(
            match tc.get2_str("function"@, "name"@) {
                Some(n) => n,
                None => Seq::empty(),
            },
        ),
    ).set("input"@, tool_arguments(tc.get2("function"@, "arguments"@)))
}

/// The blocks of a user or assistant message: its content, preceded by its
/// reasoning and followed by its tool calls when it is an assistant message.
pub open spec fn message_blocks(m: JsonV) -> Seq<JsonV> {
    let blocks = content_blocks(m.get("content"@));
    if role_of(m) == "assistant"@ {
        let with_thinking = match m.get_str("reasoning_content"@) {
            Some(r) => if r.len() > 0 {
                seq![thinking_block(r)] + blocks
            } else {
                blocks
            },
            None => blocks,
        };
        match m.get("tool_calls"@) {
            Some(JsonV::Array(tcs)) => with_thinking + tcs.map_values(|tc: JsonV| tool_use_block(tc)),
            _ => with_thinking,
        }
    } else {
        blocks
    }
}

/// The text that a system message adds to the system prompt.
pub open spec fn system_text(m: JsonV) -> Option<Seq<char>> {
    if role_of(m) == "system"@ && content_text(m).len() > 0 {
        Some(content_text(m))
    } else {
        None
    }
}

/// The `tool_result` block of a tool message.
pub open spec fn tool_result_block(m: JsonV) -> JsonV {
    empty_obj().set("type"@, jstr("tool_result"@)).set(
        "tool_use_id"@,
        jstr(m.str_or("tool_call_id"@, Seq::empty())),
    ).set("content"@, jstr(content_text(m)))
}

/// The Anthropic message of an OpenAI chat message: none for a system message
/// or for a message without blocks.
pub open spec fn anthropic_message(m: JsonV) -> Option<JsonV> {
    let role = role_of(m);
    if role == "system"@ {
        None
    } else if role == "tool"@ {
        Some(
            empty_obj().set("role"@, jstr("user"@)).set(
                "content"@,
                JsonV::Array(seq![tool_result_block(m)]),
            ),
        )
    } else if message_blocks(m).len() > 0 {
        Some(
            empty_obj().set("role"@, jstr(if role == "assistant"@ { "assistant"@ } else { "user"@ })).set(
                "content"@,
                JsonV::Array(message_blocks(m)),
            ),
        )
    } else {
        None
    }
}

/// The fields of a `tool_use` block.
proof fn lemma_tool_use_fields(tc: JsonV)
    ensures
        tool_use_block(tc).get("type"@) == Some(jstr("tool_use"@)),
        tool_use_block(tc).get("id"@) == Some(jstr(tc.str_or("id"@, "toolu_"@))),
        tool_use_block(tc).get("name"@) == Some(
            jstr(
                match tc.get2_str("function"@, "name"@) {
                    Some(n) => n,
                    None => Seq::empty(),
                },
            ),
        ),
{
    reveal_strlit("type");
    reveal_strlit("id");
    reveal_strlit("name");
    reveal_strlit("input");
    assert("type"@[0] != "name"@[0]);
    assert("type"@.len() != "id"@.len());
    assert("type"@.len() != "input"@.len());
    assert("id"@.len() != "name"@.len());
    assert("id"@.len() != "input"@.len());
    assert("name"@.len() != "input"@.len());
    let name = jstr(
        match tc.get2_str("function"@, "name"@) {
            Some(n) => n,
            None => Seq::empty(),
        },
    );
    let b0 = empty_obj().set("type"@, jstr("tool_use"@));
    let b1 = b0.set("id"@, jstr(tc.str_or("id"@, "toolu_"@)));
    let b2 = b1.set("name"@, name);
    let input = tool_arguments(tc.get2("function"@, "arguments"@));
    crate::json::law_get_after_set(empty_obj(), "type"@, "id"@, jstr("tool_use"@));
    crate::json::law_get_after_set(b0, "id"@, "type"@, jstr(tc.str_or("id"@, "toolu_"@)));
    crate::json::law_get_after_set(b1, "name"@, "type"@, name);
    crate::json::law_get_after_set(b1, "name"@, "id"@, name);
    crate::json::law_get_after_set(b2, "input"@, "type"@, input);
    crate::json::law_get_after_set(b2, "input"@, "id"@, input);
    crate::json::law_get_after_set(b2, "input"@, "name"@, input);
}

/// The items of an array value, empty for anything else.
pub open spec fn array_items(v: Option<JsonV>) -> Seq<JsonV> {
    match v {
        Some(JsonV::Array(items)) => items,
        _ => Seq::empty(),
    }
}

/// The block at place `k` among the last blocks of a message's Anthropic
/// content, as many as the message has tool calls.
pub open spec fn trailing_block(m: JsonV, k: int) -> JsonV {
    let tcs = array_items(m.get("tool_calls"@));
    let bs = array_items(anthropic_message(m)->Some_0.get("content"@));
    bs[bs.len() - tcs.len() + k]
}

/// An assistant message's tool calls all become `tool_use` blocks, one per
/// call and in the calls' order, at the end of its Anthropic content: the
/// k-th of the last blocks carries the id (`toolu_` where the call has none)
/// and the function name of the k-th call.
pub proof fn law_tool_calls_become_tool_use(m: JsonV)
    requires
        m.str_or("role"@, "user"@) == "assistant"@,
        m.get("tool_calls"@) matches Some(JsonV::Array(tcs)) && tcs.len() > 0,
    ensures
        anthropic_message(m) is Some,
        anthropic_message(m)->Some_0.get("role"@) == Some(jstr("assistant"@)),
        anthropic_message(m)->Some_0.get("content"@) matches Some(JsonV::Array(_)),
        array_items(anthropic_message(m)->Some_0.get("content"@)).len() >= array_items(m.get("tool_calls"@)).len(),
        forall|k: int|
            0 <= k < array_items(m.get("tool_calls"@)).len() ==> {
                let tcs = array_items(m.get("tool_calls"@));
                let b = #[trigger] trailing_block(m, k);
                &&& b.get("type"@) == Some(jstr("tool_use"@))
                &&& b.get("id"@) == Some(jstr(tcs[k].str_or("id"@, "toolu_"@)))
                &&& b.get("name"@) == Some(
                    jstr(
                        match tcs[k].get2_str("function"@, "name"@) {
                            Some(n) => n,
                            None => Seq::empty(),
                        },
                    ),
                )
            },
{
    reveal_strlit("assistant");
    reveal_strlit("system");
    reveal_strlit("tool");
    reveal_strlit("role");
    reveal_strlit("content");
    assert("assistant"@.len() != "system"@.len());
    assert("assistant"@.len() != "tool"@.len());
    assert("role"@.len() != "content"@.len());
    let tcs = m.get("tool_calls"@)->Some_0->Array_0;
    let bs = message_blocks(m);
    assert(bs.len() >= tcs.len());
    let r = empty_obj().set("role"@, jstr("assistant"@));
    crate::json::law_get_after_set(empty_obj(), "role"@, "content"@, jstr("assistant"@));
    crate::json::law_get_after_set(r, "content"@, "role"@, JsonV::Array(bs));
    assert(array_items(anthropic_message(m)->Some_0.get("content"@)) == bs);
    assert forall|k: int| 0 <= k < tcs.len() implies {
        let b = #[trigger] trailing_block(m, k);
        &&& b.get("type"@) == Some(jstr("tool_use"@))
        &&& b.get("id"@) == Some(jstr(tcs[k].str_or("id"@, "toolu_"@)))
        &&& b.get("name"@) == Some(
            jstr(
                match tcs[k].get2_str("function"@, "name"@) {
                    Some(n) => n,
                    None => Seq::empty(),
                },
            ),
        )
    } by {
        assert(trailing_block(m, k) == bs[bs.len() - tcs.len() + k]);
        assert(bs[bs.len() - tcs.len() + k] == tool_use_block(tcs[k]));
        lemma_tool_use_fields(tcs[k]);
    }
}

/// A tool message becomes a user message holding one `tool_result` block for
/// the call it answers; a system message becomes no message at all.
pub proof fn law_tool_and_system_messages(m: JsonV)
    ensures
        m.str_or("role"@, "user"@) == "tool"@ ==> {
            &&& anthropic_message(m) is Some
            &&& anthropic_message(m)->Some_0.get("role"@) == Some(jstr("user"@))
            &&& array_items(anthropic_message(m)->Some_0.get("content"@)).len() == 1
            &&& array_items(anthropic_message(m)->Some_0.get("content"@))[0].get("type"@) == Some(jstr("tool_result"@))
            &&& array_items(anthropic_message(m)->Some_0.get("content"@))[0].get("tool_use_id"@) == Some(
                jstr(m.str_or("tool_call_id"@, Seq::empty())),
            )
        },
        m.str_or("role"@, "user"@) == "system"@ ==> anthropic_message(m) is None,
{
    reveal_strlit("tool");
    reveal_strlit("system");
    reveal_strlit("role");
    reveal_strlit("content");
    reveal_strlit("type");
    reveal_strlit("tool_use_id");
    assert("tool"@.len() != "system"@.len());
    assert("role"@.len() != "content"@.len());
    assert("type"@.len() != "tool_use_id"@.len());
    assert("type"@.len() != "content"@.len());
    assert("tool_use_id"@.len() != "content"@.len());
    let b0 = empty_obj().set("type"@, jstr("tool_result"@));
    let b1 = b0.set("tool_use_id"@, jstr(m.str_or("tool_call_id"@, Seq::empty())));
    crate::json::law_get_after_set(empty_obj(), "type"@, "tool_use_id"@, jstr("tool_result"@));
    crate::json::law_get_after_set(b0, "tool_use_id"@, "type"@, jstr(m.str_or("tool_call_id"@, Seq::empty())));
    crate::json::law_get_after_set(b1, "content"@, "type"@, jstr(content_text(m)));
    crate::json::law_get_after_set(b1, "content"@, "tool_use_id"@, jstr(content_text(m)));
    let r = empty_obj().set("role"@, jstr("user"@));
    let blocks = JsonV::Array(seq![tool_result_block(m)]);
    crate::json::law_get_after_set(empty_obj(), "role"@, "content"@, jstr("user"@));
    crate::json::law_get_after_set(r, "content"@, "role"@, blocks);
}

/// The system texts of a list of chat messages.
pub open spec fn system_parts_of(msgs: Seq<JsonV>) -> Seq<Seq<char>>
    decreases msgs.len(),
{
    if msgs.len() == 0 {
        Seq::empty()
    } else {
        system_parts_of(msgs.drop_last()) + opt_seq(system_text(msgs.last()))
    }
}

/// The Anthropic messages of a list of chat messages, before merging.
pub open spec fn anthropic_messages_of(msgs: Seq<JsonV>) -> Seq<JsonV>
    decreases msgs.len(),
{
    if msgs.len() == 0 {
        Seq::empty()
    } else {
        anthropic_messages_of(msgs.drop_last()) + opt_seq(anthropic_message(msgs.last()))
    }
}

proof fn lemma_anthropic_messages_objects(msgs: Seq<JsonV>)
    ensures
        all_objects(anthropic_messages_of(msgs)),
    decreases msgs.len(),
{
    if msgs.len() > 0 {
        lemma_anthropic_messages_objects(msgs.drop_last());
        let prev = anthropic_messages_of(msgs.drop_last());
        let add = opt_seq(anthropic_message(msgs.last()));
        assert forall|i: int| 0 <= i < (prev + add).len() implies #[trigger] (prev + add)[i] is Object by {
            if i >= prev.len() {
                assert(add[i - prev.len()] is Object);
            }
        }
    }
}

/// The `tool_use` block of a tool call.
fn make_tool_use_block(tc: &Json) -> (r: Json)
    ensures
        r@ == tool_use_block(tc@),
{
    proof {
        reveal_strlit("");
        assert(""@ =~= Seq::<char>::empty());
    }
    let name = match tc.get2_str("function", "name") {
        Some(n) => n,
        None => "",
    };
    Json::object().set("type", Json::from_str("tool_use")).set(
        "id",
        Json::from_str(tc.str_or("id", "toolu_")),
    ).set("name", Json::from_str(name)).set("input", parse_tool_arguments(tc.get2("function", "arguments")))
}

/// The blocks of a user or assistant message.
fn make_message_blocks(message: &Json, is_assistant: bool) -> (r: Vec<Json>)
    requires
        is_assistant == (role_of(message@) == "assistant"@),
    ensures
        items_view(r@) == message_blocks(message@),
{
    broadcast use group_json_view;
    let mut blocks = content_to_anthropic_blocks(message.get("content"));
    if !is_assistant {
        return blocks;
    }
    match message.get_str("reasoning_content") {
        Some(reasoning) => {
            if !reasoning.is_empty() {
                let ghost before = blocks@;
                let tb = Json::object().set("type", Json::from_str("thinking")).set(
                    "thinking",
                    Json::from_str(reasoning),
                );
                blocks.insert(0, tb);
                proof {
                    assert(blocks@ =~= seq![tb] + before);
                    lemma_items_view_concat(seq![tb], before);
                    lemma_items_view_push(Seq::empty(), tb);
                    assert(seq![tb] =~= Seq::<Json>::empty().push(tb));
                    assert(items_view(Seq::<Json>::empty()) =~= Seq::<JsonV>::empty());
                    assert(Seq::<JsonV>::empty().push(tb@) =~= seq![tb@]);
                }
            }
        },
        None => {},
    }
    let ghost wt = items_view(blocks@);
    match message.get("tool_calls") {
        Some(Json::Array(tcs)) => {
            let ghost tv = items_view(tcs@);
            let ghost f = |tc: JsonV| tool_use_block(tc);
            let mut i: usize = 0;
            proof {
                assert(wt + tv.take(0).map_values(f) =~= wt);
            }
            while i < tcs.len()
                invariant
                    i <= tcs@.len(),
                    tv == items_view(tcs@),
                    tv.len() == tcs@.len(),
                    f == (|tc: JsonV| tool_use_block(tc)),
                    items_view(blocks@) == wt + tv.take(i as int).map_values(f),
                decreases tcs@.len() - i,
            {
                proof {
                    lemma_items_view(tcs@);
                    assert(tv[i as int] == tcs@[i as int]@);
                }
                let b = make_tool_use_block(&tcs[i]);
                let ghost mid = blocks@;
                blocks.push(b);
                proof {
                    lemma_items_view_push(mid, b);
                    assert(wt + tv.take(i as int + 1).map_values(f) =~= (wt + tv.take(i as int).map_values(f)).push(
                        f(tv[i as int]),
                    ));
                }
                i = i + 1;
            }
            proof {
                assert(tv.take(tcs@.len() as int) =~= tv);
            }
            blocks
        },
        _ => blocks,
    }
}

/// Adds a chat message to the Anthropic request being built: a system
/// message's text to `system_parts`, any other message to `out`.
pub fn append_chat_message_as_anthropic(message: &Json, system_parts: &mut Vec<String>, out: &mut Vec<Json>)
    ensures
        texts_view(final(system_parts)@) == texts_view(old(system_parts)@) + opt_seq(system_text(message@)),
        items_view(final(out)@) == items_view(old(out)@) + opt_seq(anthropic_message(message@)),
{
    broadcast use group_json_view;
    proof {
        reveal_strlit("");
        assert(""@ =~= Seq::<char>::empty());
    }
    let ghost sys0 = system_parts@;
    let ghost out0 = out@;
    let role = message.str_or("role", "user");
    let text = match message.get("content") {
        Some(c) => value_to_text(c),
        None => String::new(),
    };
    if str_eq(role, "system") {
        if !text.as_str().is_empty() {
            system_parts.push(text);
            proof {
                assert(texts_view(system_parts@) =~= texts_view(sys0) + seq![text@]);
            }
        } else {
            proof {
                assert(texts_view(system_parts@) =~= texts_view(sys0) + Seq::<Seq<char>>::empty());
            }
        }
        proof {
            assert(items_view(out@) =~= items_view(out0) + Seq::<JsonV>::empty());
        }
        return;
    }
    proof {
        assert(texts_view(system_parts@) =~= texts_view(sys0) + Seq::<Seq<char>>::empty());
    }
    if str_eq(role, "tool") {
        let block = Json::object().set("type", Json::from_str("tool_result")).set(
            "tool_use_id",
            Json::from_str(message.str_or("tool_call_id", "")),
        ).set("content", Json::from_str(text.as_str()));
        let mut content: Vec<Json> = Vec::new();
        content.push(block);
        proof {
            lemma_items_view_push(Seq::empty(), block);
            assert(content@ =~= Seq::<Json>::empty().push(block));
            assert(items_view(Seq::<Json>::empty()) =~= Seq::<JsonV>::empty());
            assert(items_view(content@) =~= seq![block@]);
        }
        let m = Json::object().set("role", Json::from_str("user")).set("content", Json::from_vec(content));
        out.push(m);
        proof {
            lemma_items_view_push(out0, m);
            assert(items_view(out@) =~= items_view(out0) + seq![m@]);
        }
        return;
    }
    let is_assistant = str_eq(role, "assistant");
    let blocks = make_message_blocks(message, is_assistant);
    if blocks.len() > 0 {
        let anthropic_role = if is_assistant {
            "assistant"
        } else {
            "user"
        };
        let m = Json::object().set("role", Json::from_str(anthropic_role)).set(
            "content",
            Json::from_vec(blocks),
        );
        out.push(m);
        proof {
            lemma_items_view_push(out0, m);
            assert(items_view(out@) =~= items_view(out0) + seq![m@]);
        }
    } else {
        proof {
            assert(items_view(out@) =~= items_view(out0) + Seq::<JsonV>::empty());
        }
    }
}

/// The Anthropic Messages request of an OpenAI Chat Completions request;
/// `default_model` names the model where the request names none.
pub open spec fn anthropic_request(payload: JsonV, default_model: Seq<char>) -> JsonV {
    let msgs = match payload.get("messages"@) {
        Some(JsonV::Array(a)) => a,
        _ => Seq::empty(),
    };
    let sys = system_parts_of(msgs);
    let base = empty_obj().set("model"@, or_else(payload.get("model"@), jstr(default_model))).set(
        "messages"@,
        JsonV::Array(merge_roles(anthropic_messages_of(msgs))),
    ).set("max_tokens"@, or_else(payload.get("max_tokens"@), jnum(8192)));
    let r1 = match payload.get("stream"@) {
        Some(v) => base.set("stream"@, v),
        None => base,
    };
    let r2 = if sys.len() > 0 {
        r1.set("system"@, jstr(join(sys, seq!['\n', '\n'])))
    } else {
        r1
    };
    let tools = anthropic_tools(payload.get("tools"@));
    let r3 = if tools.len() > 0 {
        r2.set("tools"@, JsonV::Array(tools))
    } else {
        r2
    };
    let r4 = match payload.get("temperature"@) {
        Some(v) => r3.set("temperature"@, v),
        None => r3,
    };
    match payload.get("top_p"@) {
        Some(v) => r4.set("top_p"@, v),
        None => r4,
    }
}

/// The texts joined with a blank line between consecutive ones.
fn join_paragraphs(parts: &Vec<String>) -> (r: String)
    ensures
        r@ == join(texts_view(parts@), seq!['\n', '\n']),
{
    let mut out: Vec<char> = Vec::new();
    let mut i: usize = 0;
    let ghost tv = texts_view(parts@);
    while i < parts.len()
        invariant
            i <= parts@.len(),
            tv == texts_view(parts@),
            tv.len() == parts@.len(),
            out@ == join(tv.take(i as int), seq!['\n', '\n']),
        decreases parts@.len() - i,
    {
        let ghost before = tv.take(i as int);
        proof {
            assert(tv.take(i as int + 1) =~= before.push(parts@[i as int]@));
            lemma_join_push(before, parts@[i as int]@, seq!['\n', '\n']);
        }
        if i > 0 {
            out.push('\n');
            out.push('\n');
        }
        let pc = chars_of(parts[i].as_str());
        push_chars(&mut out, pc.as_slice());
        proof {
            if i > 0 {
                assert(out@ =~= join(before, seq!['\n', '\n']) + seq!['\n', '\n'] + parts@[i as int]@);
            } else {
                assert(out@ =~= parts@[i as int]@);
            }
        }
        i = i + 1;
    }
    proof {
        assert(tv.take(parts@.len() as int) =~= tv);
    }
    string_from_chars(out.as_slice())
}

/// Converts an OpenAI Chat Completions request to an Anthropic Messages
/// request, for `default_model` where the request names no model.
pub fn chat_to_anthropic_request(payload: Json, default_model: &str) -> (r: Json)
    ensures
        r@ == anthropic_request(payload@, default_model@),
{
    broadcast use group_json_view;
    let mut system_parts: Vec<String> = Vec::new();
    let mut anthropic_messages: Vec<Json> = Vec::new();
    let empty: Vec<Json> = Vec::new();
    let msgs: &Vec<Json> = match payload.get("messages") {
        Some(Json::Array(a)) => a,
        _ => &empty,
    };
    let ghost mv = items_view(msgs@);
    proof {
        assert(items_view(empty@) =~= Seq::<JsonV>::empty());
        assert(texts_view(system_parts@) =~= Seq::<Seq<char>>::empty());
        assert(items_view(anthropic_messages@) =~= Seq::<JsonV>::empty());
        assert(mv.take(0) =~= Seq::<JsonV>::empty());
    }
    let mut i: usize = 0;
    while i < msgs.len()
        invariant
            i <= msgs@.len(),
            mv == items_view(msgs@),
            mv.len() == msgs@.len(),
            texts_view(system_parts@) == system_parts_of(mv.take(i as int)),
            items_view(anthropic_messages@) == anthropic_messages_of(mv.take(i as int)),
        decreases msgs@.len() - i,
    {
        proof {
            lemma_items_view(msgs@);
            assert(mv.take(i as int + 1).drop_last() =~= mv.take(i as int));
            assert(mv[i as int] == msgs@[i as int]@);
        }
        append_chat_message_as_anthropic(&msgs[i], &mut system_parts, &mut anthropic_messages);
        i = i + 1;
    }
    proof {
        assert(mv.take(msgs@.len() as int) =~= mv);
        lemma_anthropic_messages_objects(mv);
    }
    let merged = merge_same_role(&anthropic_messages);
    let mut result = Json::object().set("model", payload.get_or("model", Json::from_str(default_model))).set(
        "messages",
        Json::from_vec(merged),
    ).set("max_tokens", payload.get_or("max_tokens", Json::from_u64(8192)));
    match payload.get("stream") {
        Some(v) => {
            result = result.set("stream", v.deep_clone());
        },
        None => {},
    }
    if system_parts.len() > 0 {
        let joined = join_paragraphs(&system_parts);
        result = result.set("system", Json::from_str(joined.as_str()));
    }
    let tools = convert_tools_to_anthropic(payload.get("tools"));
    if tools.len() > 0 {
        result = result.set("tools", Json::from_vec(tools));
    }
    match payload.get("temperature") {
        Some(v) => {
            result = result.set("temperature", v.deep_clone());
        },
        None => {},
    }
    match payload.get("top_p") {
        Some(v) => {
            result = result.set("top_p", v.deep_clone());
        },
        None => {},
    }
    result
}


// ---------------------------------------------------------------------------
// Responses request -> Anthropic Messages request
// ---------------------------------------------------------------------------
/// `{"role": role, "content": text}`.
pub open spec fn role_message(role: Seq<char>, text: Seq<char>) -> JsonV {
    empty_obj().set("role"@, jstr(role)).set("content"@, jstr(text))
}

/// The chat message of a Responses `function_call` item.
pub open spec fn function_call_message(item: JsonV) -> JsonV {
    let function = empty_obj().set("name"@, jstr(item.str_or("name"@, Seq::empty()))).set(
        "arguments"@,
        jstr(item.str_or("arguments"@, "{}"@)),
    );
    let call = empty_obj().set("id"@, jstr(item.str_or("call_id"@, "call_"@))).set(
        "type"@,
        jstr("function"@),
    ).set("function"@, function);
    empty_obj().set("role"@, jstr("assistant"@)).set("content"@, JsonV::Null).set(
        "tool_calls"@,
        JsonV::Array(seq![call]),
    )
}

/// The chat message of a Responses `function_call_output` item; its content is
/// the JSON text of the output.
pub open spec fn function_output_message(item: JsonV) -> JsonV {
    empty_obj().set("role"@, jstr("tool"@)).set(
        "tool_call_id"@,
        jstr(item.str_or("call_id"@, Seq::empty())),
    ).set("content"@, jstr(json_text(or_else(item.get("output"@), jstr(Seq::empty())))))
}

/// The chat message of one Responses input item, where it has one.
pub open spec fn input_item_message(item: JsonV) -> Option<JsonV> {
    match item {
        JsonV::Str(t) => Some(role_message("user"@, t)),
        _ => {
            let ty = item.str_or("type"@, Seq::empty());
            if ty == "message"@ {
                Some(role_message(role_of(item), content_text(item)))
            } else if ty == "function_call"@ {
                Some(function_call_message(item))
            } else if ty == "function_call_output"@ {
                Some(function_output_message(item))
            } else if item.get("role"@) is Some {
                Some(role_message(role_of(item), content_text(item)))
            } else {
                None
            }
        },
    }
}

/// The chat messages of a Responses `input`.
pub open spec fn input_messages(input: JsonV) -> Seq<JsonV> {
    match input {
        JsonV::Str(t) => seq![role_message("user"@, t)],
        JsonV::Array(items) => somes(items.map_values(|it: JsonV| input_item_message(it))),
        _ => Seq::empty(),
    }
}

/// `{"role": role, "content": text}`.
fn make_role_message(role: &str, text: &str) -> (r: Json)
    ensures
        r@ == role_message(role@, text@),
{
    Json::object().set("role", Json::from_str(role)).set("content", Json::from_str(text))
}

/// The chat message of one Responses input item.
fn make_input_item_message(item: &Json) -> (r: Option<Json>)
    ensures
        match r {
            Some(m) => input_item_message(item@) == Some(m@),
            None => input_item_message(item@) is None,
        },
{
    proof {
        reveal_strlit("");
        assert(""@ =~= Seq::<char>::empty());
    }
    if let Some(t) = item.as_str() {
        return Some(make_role_message("user", t));
    }
    let ty = item.str_or("type", "");
    let content_text = match item.get("content") {
        Some(c) => value_to_text(c),
        None => String::new(),
    };
    if str_eq(ty, "message") {
        Some(make_role_message(item.str_or("role", "user"), content_text.as_str()))
    } else if str_eq(ty, "function_call") {
        let function = Json::object().set("name", Json::from_str(item.str_or("name", ""))).set(
            "arguments",
            Json::from_str(item.str_or("arguments", "{}")),
        );
        let call = Json::object().set("id", Json::from_str(item.str_or("call_id", "call_"))).set(
            "type",
            Json::from_str("function"),
        ).set("function", function);
        let mut calls: Vec<Json> = Vec::new();
        calls.push(call);
        proof {
            lemma_items_view_push(Seq::empty(), call);
            assert(calls@ =~= Seq::<Json>::empty().push(call));
            assert(items_view(Seq::<Json>::empty()) =~= Seq::<JsonV>::empty());
            assert(items_view(calls@) =~= seq![call@]);
        }
        Some(
            Json::object().set("role", Json::from_str("assistant")).set("content", Json::Null).set(
                "tool_calls",
                Json::from_vec(calls),
            ),
        )
    } else if str_eq(ty, "function_call_output") {
        let output = item.get_or("output", Json::from_str(""));
        let text = to_json_text(&output);
        Some(
            Json::object().set("role", Json::from_str("tool")).set(
                "tool_call_id",
                Json::from_str(item.str_or("call_id", "")),
            ).set("content", Json::from_str(text.as_str())),
        )
    } else if item.get("role").is_some() {
        Some(make_role_message(item.str_or("role", "user"), content_text.as_str()))
    } else {
        None
    }
}

/// The chat messages of a Responses `input`: a text becomes one user message,
/// an array gives one message per item that has one.
pub fn response_input_to_chat_messages(input: &Json) -> (r: Vec<Json>)
    ensures
        items_view(r@) == input_messages(input@),
{
    broadcast use group_json_view;
    let mut out: Vec<Json> = Vec::new();
    proof {
        assert(items_view(out@) =~= Seq::<JsonV>::empty());
    }
    if let Some(t) = input.as_str() {
        let m = make_role_message("user", t);
        out.push(m);
        proof {
            lemma_items_view_push(Seq::empty(), m);
            assert(out@ =~= Seq::<Json>::empty().push(m));
            assert(items_view(out@) =~= seq![m@]);
        }
        return out;
    }
    match input {
        Json::Array(items) => {
            let ghost iv = items_view(items@);
            let ghost f = |it: JsonV| input_item_message(it);
            let mut i: usize = 0;
            proof {
                assert(iv.take(0).map_values(f) =~= Seq::<Option<JsonV>>::empty());
            }
            while i < items.len()
                invariant
                    i <= items@.len(),
                    iv == items_view(items@),
                    iv.len() == items@.len(),
                    f == (|it: JsonV| input_item_message(it)),
                    items_view(out@) == somes(iv.take(i as int).map_values(f)),
                decreases items@.len() - i,
            {
                proof {
                    lemma_items_view(items@);
                    assert(iv.take(i as int + 1).map_values(f) =~= iv.take(i as int).map_values(f).push(
                        f(iv[i as int]),
                    ));
                    assert(iv.take(i as int).map_values(f).push(f(iv[i as int])).drop_last()
                        =~= iv.take(i as int).map_values(f));
                    assert(iv[i as int] == items@[i as int]@);
                }
                match make_input_item_message(&items[i]) {
                    Some(m) => {
                        let ghost mid = out@;
                        out.push(m);
                        proof {
                            lemma_items_view_push(mid, m);
                        }
                    },
                    None => {},
                }
                i = i + 1;
            }
            proof {
                assert(iv.take(items@.len() as int) =~= iv);
            }
            out
        },
        _ => out,
    }
}

/// The chat request that a Responses request is first turned into.
pub open spec fn responses_chat_request(payload: JsonV) -> JsonV {
    let msgs0 = match payload.get("input"@) {
        Some(i) => input_messages(i),
        None => Seq::empty(),
    };
    let msgs = match payload.get_str("instructions"@) {
        Some(ins) => if ins.len() > 0 {
            seq![role_message("system"@, ins)] + msgs0
        } else {
            msgs0
        },
        None => msgs0,
    };
    let c0 = empty_obj().set("model"@, or_else(payload.get("model"@), jstr(Seq::empty()))).set(
        "messages"@,
        JsonV::Array(msgs),
    ).set("stream"@, or_else(payload.get("stream"@), JsonV::Bool(false)));
    let c1 = match payload.get("max_output_tokens"@) {
        Some(m) => c0.set("max_tokens"@, m),
        None => c0,
    };
    let c2 = match payload.get("tools"@) {
        Some(v) => c1.set("tools"@, v),
        None => c1,
    };
    let c3 = match payload.get("temperature"@) {
        Some(v) => c2.set("temperature"@, v),
        None => c2,
    };
    let c4 = match payload.get("top_p"@) {
        Some(v) => c3.set("top_p"@, v),
        None => c3,
    };
    match payload.get("tool_choice"@) {
        Some(v) => c4.set("tool_choice"@, v),
        None => c4,
    }
}

/// The chat request built from a Responses request always names a model (the
/// request's, or the empty name), so converting it to an Anthropic request
/// gives the same result whatever default model is offered: a Responses
/// request converts as its chat request converts.
pub proof fn law_responses_request_names_model(payload: JsonV, d1: Seq<char>, d2: Seq<char>)
    ensures
        responses_chat_request(payload).get("model"@) == Some(or_else(payload.get("model"@), jstr(Seq::empty()))),
        anthropic_request(responses_chat_request(payload), d1) == anthropic_request(responses_chat_request(payload), d2),
{
    reveal_strlit("model");
    reveal_strlit("messages");
    reveal_strlit("stream");
    reveal_strlit("max_tokens");
    reveal_strlit("tools");
    reveal_strlit("temperature");
    reveal_strlit("top_p");
    reveal_strlit("tool_choice");
    assert("messages"@.len() != "model"@.len());
    assert("stream"@.len() != "model"@.len());
    assert("max_tokens"@.len() != "model"@.len());
    assert("tools"@[0] != "model"@[0]);
    assert("temperature"@.len() != "model"@.len());
    assert("top_p"@[0] != "model"@[0]);
    assert("tool_choice"@.len() != "model"@.len());
    let m = or_else(payload.get("model"@), jstr(Seq::empty()));
    let msgs0 = match payload.get("input"@) {
        Some(i) => input_messages(i),
        None => Seq::empty(),
    };
    let msgs = match payload.get_str("instructions"@) {
        Some(ins) => if ins.len() > 0 {
            seq![role_message("system"@, ins)] + msgs0
        } else {
            msgs0
        },
        None => msgs0,
    };
    let a = empty_obj().set("model"@, m);
    let b = a.set("messages"@, JsonV::Array(msgs));
    let c0 = b.set("stream"@, or_else(payload.get("stream"@), JsonV::Bool(false)));
    crate::json::law_get_after_set(empty_obj(), "model"@, "model"@, m);
    crate::json::law_get_after_set(a, "messages"@, "model"@, JsonV::Array(msgs));
    crate::json::law_get_after_set(b, "stream"@, "model"@, or_else(payload.get("stream"@), JsonV::Bool(false)));
    let c1 = match payload.get("max_output_tokens"@) {
        Some(v) => {
            crate::json::law_get_after_set(c0, "max_tokens"@, "model"@, v);
            c0.set("max_tokens"@, v)
        },
        None => c0,
    };
    let c2 = match payload.get("tools"@) {
        Some(v) => {
            crate::json::law_get_after_set(c1, "tools"@, "model"@, v);
            c1.set("tools"@, v)
        },
        None => c1,
    };
    let c3 = match payload.get("temperature"@) {
        Some(v) => {
            crate::json::law_get_after_set(c2, "temperature"@, "model"@, v);
            c2.set("temperature"@, v)
        },
        None => c2,
    };
    let c4 = match payload.get("top_p"@) {
        Some(v) => {
            crate::json::law_get_after_set(c3, "top_p"@, "model"@, v);
            c3.set("top_p"@, v)
        },
        None => c3,
    };
    match payload.get("tool_choice"@) {
        Some(v) => {
            crate::json::law_get_after_set(c4, "tool_choice"@, "model"@, v);
        },
        None => {},
    }
    assert(responses_chat_request(payload).get("model"@) == Some(m));
}

/// Copies the member `key` of `from` into the object `to`, where `from` has it.
fn copy_member(to: Json, from: &Json, key: &str) -> (r: Json)
    requires
        to@ is Object,
    ensures
        r@ == match from@.get(key@) {
            Some(v) => to@.set(key@, v),
            None => to@,
        },
        r@ is Object,
{
    match from.get(key) {
        Some(v) => to.set(key, v.deep_clone()),
        None => to,
    }
}

/// Converts an OpenAI Responses request to an Anthropic Messages request: the
/// result is what `chat_to_anthropic_request` gives for the chat request
/// `responses_chat_request` builds from it. That chat request always names a
/// model (empty where the request names none), so no default model comes into
/// play (`law_responses_request_names_model`).
pub fn responses_to_anthropic_request(payload: Json) -> (r: Json)
    ensures
        r@ == anthropic_request(responses_chat_request(payload@), Seq::empty()),
{
    broadcast use group_json_view;
    proof {
        reveal_strlit("");
        assert(""@ =~= Seq::<char>::empty());
    }
    let mut msgs: Vec<Json> = match payload.get("input") {
        Some(i) => response_input_to_chat_messages(i),
        None => Vec::new(),
    };
    proof {
        if payload@.get("input"@) is None {
            assert(items_view(msgs@) =~= Seq::<JsonV>::empty());
        }
    }
    match payload.get_str("instructions") {
        Some(ins) => {
            if !ins.is_empty() {
                let ghost before = msgs@;
                let sm = make_role_message("system", ins);
                msgs.insert(0, sm);
                proof {
                    assert(msgs@ =~= seq![sm] + before);
                    lemma_items_view_concat(seq![sm], before);
                    lemma_items_view_push(Seq::empty(), sm);
                    assert(seq![sm] =~= Seq::<Json>::empty().push(sm));
                    assert(items_view(Seq::<Json>::empty()) =~= Seq::<JsonV>::empty());
                    assert(Seq::<JsonV>::empty().push(sm@) =~= seq![sm@]);
                }
            }
        },
        None => {},
    }
    let chat = Json::object().set("model", payload.get_or("model", Json::from_str(""))).set(
        "messages",
        Json::from_vec(msgs),
    ).set("stream", payload.get_or("stream", Json::Bool(false)));
    let chat = match payload.get("max_output_tokens") {
        Some(m) => chat.set("max_tokens", m.deep_clone()),
        None => chat,
    };
    let chat = copy_member(chat, &payload, "tools");
    let chat = copy_member(chat, &payload, "temperature");
    let chat = copy_member(chat, &payload, "top_p");
    let chat = copy_member(chat, &payload, "tool_choice");
    chat_to_anthropic_request(chat, "")
}


// ---------------------------------------------------------------------------
// Anthropic Messages response -> Chat Completions response
// ---------------------------------------------------------------------------
/// The Chat Completions finish reason of an Anthropic stop reason.
pub open spec fn chat_finish_reason(stop: Option<Seq<char>>) -> Seq<char> {
    match stop {
        Some(s) => if s == "max_tokens"@ {
            "length"@
        } else if s == "tool_use"@ {
            "tool_calls"@
        } else {
            "stop"@
        },
        None => "stop"@,
    }
}

/// Maps an Anthropic stop reason to a Chat Completions finish reason.
pub fn anthropic_stop_to_chat(stop: Option<&str>) -> (r: &'static str)
    ensures
        r@ == chat_finish_reason(
            match stop {
                Some(s) => Some(s@),
                None => None,
            },
        ),
{
    match stop {
        Some(s) => if str_eq(s, "max_tokens") {
            "length"
        } else if str_eq(s, "tool_use") {
            "tool_calls"
        } else {
            "stop"
        },
        None => "stop",
    }
}

/// The type of a content block, empty where it has none.
pub open spec fn block_type(b: JsonV) -> Seq<char> {
    b.str_or("type"@, Seq::empty())
}

/// The concatenated `field` texts of the blocks of type `ty`.
pub open spec fn concat_field(blocks: Seq<JsonV>, ty: Seq<char>, field: Seq<char>) -> Seq<char>
    decreases blocks.len(),
{
    if blocks.len() == 0 {
        Seq::empty()
    } else {
        let rest = concat_field(blocks.drop_last(), ty, field);
        if block_type(blocks.last()) == ty {
            match blocks.last().get_str(field) {
                Some(t) => rest + t,
                None => rest,
            }
        } else {
            rest
        }
    }
}

/// The Chat Completions tool call of an Anthropic `tool_use` block.
pub open spec fn chat_tool_call(b: JsonV, index: nat) -> JsonV {
    let function = empty_obj().set("name"@, jstr(b.str_or("name"@, Seq::empty()))).set(
        "arguments"@,
        jstr(json_text(or_else(b.get("input"@), empty_obj()))),
    );
    empty_obj().set("index"@, jnum(index as u64)).set("id"@, jstr(b.str_or("id"@, "toolu_"@))).set(
        "type"@,
        jstr("function"@),
    ).set("function"@, function)
}

/// The tool calls of the `tool_use` blocks, numbered from 0.
pub open spec fn chat_tool_calls(blocks: Seq<JsonV>) -> Seq<JsonV>
    decreases blocks.len(),
{
    if blocks.len() == 0 {
        Seq::empty()
    } else {
        let rest = chat_tool_calls(blocks.drop_last());
        if block_type(blocks.last()) == "tool_use"@ {
            rest.push(chat_tool_call(blocks.last(), rest.len()))
        } else {
            rest
        }
    }
}

/// A token count of a response's `usage`, 0 where it is missing.
pub open spec fn usage_count(resp: JsonV, key: Seq<char>) -> u64 {
    or_else(resp.get("usage"@), empty_obj()).u64_or_zero(key)
}

/// The Chat Completions response of an Anthropic Messages response, with id `id`.
pub open spec fn chat_response(data: JsonV, id: Seq<char>) -> JsonV {
    let blocks = match data.get("content"@) {
        Some(JsonV::Array(b)) => b,
        _ => Seq::empty(),
    };
    let text = concat_field(blocks, "text"@, "text"@);
    let reasoning = concat_field(blocks, "thinking"@, "thinking"@);
    let calls = chat_tool_calls(blocks);
    let m0 = empty_obj().set("role"@, jstr("assistant"@)).set(
        "content"@,
        if text.len() == 0 {
            JsonV::Null
        } else {
            jstr(text)
        },
    );
    let m1 = if reasoning.len() > 0 {
        m0.set("reasoning_content"@, jstr(reasoning))
    } else {
        m0
    };
    let message = if calls.len() > 0 {
        m1.set("tool_calls"@, JsonV::Array(calls))
    } else {
        m1
    };
    let input_tokens = usage_count(data, "input_tokens"@);
    let output_tokens = usage_count(data, "output_tokens"@);
    let choice = empty_obj().set("index"@, jnum(0)).set("message"@, message).set(
        "finish_reason"@,
        jstr(chat_finish_reason(data.get_str("stop_reason"@))),
    );
    let usage = empty_obj().set("prompt_tokens"@, jnum(input_tokens)).set(
        "completion_tokens"@,
        jnum(output_tokens),
    ).set("total_tokens"@, jnum(input_tokens.wrapping_add(output_tokens)));
    empty_obj().set("id"@, jstr(id)).set("object"@, jstr("chat.completion"@)).set(
        "model"@,
        jstr(data.str_or("model"@, Seq::empty())),
    ).set("choices"@, JsonV::Array(seq![choice])).set("usage"@, usage)
}

proof fn lemma_block_types_distinct()
    ensures
        "text"@ != "thinking"@,
        "text"@ != "tool_use"@,
        "thinking"@ != "tool_use"@,
{
    reveal_strlit("text");
    reveal_strlit("thinking");
    reveal_strlit("tool_use");
    assert("text"@.len() != "thinking"@.len());
    assert("text"@.len() != "tool_use"@.len());
    assert("thinking"@[1] != "tool_use"@[1]);
}

/// A one-element array.
fn single(v: Json) -> (r: Json)
    ensures
        r@ == JsonV::Array(seq![v@]),
{
    let mut items: Vec<Json> = Vec::new();
    items.push(v);
    proof {
        lemma_items_view_push(Seq::empty(), v);
        assert(items@ =~= Seq::<Json>::empty().push(v));
        assert(items_view(Seq::<Json>::empty()) =~= Seq::<JsonV>::empty());
        assert(items_view(items@) =~= seq![v@]);
    }
    Json::from_vec(items)
}

/// The token count `key` of a response's `usage`.
fn usage_count_of(resp: &Json, key: &str) -> (r: u64)
    ensures
        r == usage_count(resp@, key@),
{
    match resp.get("usage") {
        Some(u) => u.u64_or_zero(key),
        None => {
            let e = Json::object();
            e.u64_or_zero(key)
        },
    }
}

/// Converts an Anthropic Messages response to a Chat Completions response
/// whose id is `id`.
pub fn anthropic_to_chat_response_with_id(data: &Json, id: &str) -> (r: Json)
    ensures
        r@ == chat_response(data@, id@),
{
    broadcast use group_json_view;
    proof {
        reveal_strlit("");
        assert(""@ =~= Seq::<char>::empty());
    }
    let empty: Vec<Json> = Vec::new();
    let blocks: &Vec<Json> = match data.get("content") {
        Some(Json::Array(b)) => b,
        _ => &empty,
    };
    let ghost bv = items_view(blocks@);
    proof {
        assert(items_view(empty@) =~= Seq::<JsonV>::empty());
        assert(bv.take(0) =~= Seq::<JsonV>::empty());
    }
    let mut content_text: Vec<char> = Vec::new();
    let mut reasoning_text: Vec<char> = Vec::new();
    let mut tool_calls: Vec<Json> = Vec::new();
    proof {
        assert(items_view(tool_calls@) =~= Seq::<JsonV>::empty());
    }
    let mut i: usize = 0;
    while i < blocks.len()
        invariant
            i <= blocks@.len(),
            bv == items_view(blocks@),
            bv.len() == blocks@.len(),
            ""@ == Seq::<char>::empty(),
            content_text@ == concat_field(bv.take(i as int), "text"@, "text"@),
            reasoning_text@ == concat_field(bv.take(i as int), "thinking"@, "thinking"@),
            items_view(tool_calls@) == chat_tool_calls(bv.take(i as int)),
            tool_calls@.len() == chat_tool_calls(bv.take(i as int)).len(),
        decreases blocks@.len() - i,
    {
        let block = &blocks[i];
        proof {
            lemma_items_view(blocks@);
            assert(bv.take(i as int + 1).drop_last() =~= bv.take(i as int));
            assert(bv.take(i as int + 1).last() == bv[i as int]);
            assert(bv[i as int] == block@);
            lemma_items_view(tool_calls@);
        }
        let ty = block.str_or("type", "");
        if str_eq(ty, "text") {
            proof {
                lemma_block_types_distinct();
            }
            match block.get_str("text") {
                Some(t) => {
                    let tc = chars_of(t);
                    push_chars(&mut content_text, tc.as_slice());
                },
                None => {},
            }
        } else if str_eq(ty, "thinking") {
            proof {
                lemma_block_types_distinct();
            }
            match block.get_str("thinking") {
                Some(t) => {
                    let tc = chars_of(t);
                    push_chars(&mut reasoning_text, tc.as_slice());
                },
                None => {},
            }
        } else if str_eq(ty, "tool_use") {
            proof {
                lemma_block_types_distinct();
            }
            let input = block.get_or("input", Json::object());
            let arguments = to_json_text(&input);
            let function = Json::object().set("name", Json::from_str(block.str_or("name", ""))).set(
                "arguments",
                Json::from_str(arguments.as_str()),
            );
            let call = Json::object().set("index", Json::from_u64(tool_calls.len() as u64)).set(
                "id",
                Json::from_str(block.str_or("id", "toolu_")),
            ).set("type", Json::from_str("function")).set("function", function);
            let ghost mid = tool_calls@;
            tool_calls.push(call);
            proof {
                lemma_items_view_push(mid, call);
            }
        }
        i = i + 1;
    }
    proof {
        assert(bv.take(blocks@.len() as int) =~= bv);
    }
    let input_tokens = usage_count_of(data, "input_tokens");
    let output_tokens = usage_count_of(data, "output_tokens");
    let content = if content_text.len() == 0 {
        Json::Null
    } else {
        Json::from_str(string_from_chars(content_text.as_slice()).as_str())
    };
    let mut message = Json::object().set("role", Json::from_str("assistant")).set("content", content);
    if reasoning_text.len() > 0 {
        message = message.set("reasoning_content", Json::from_str(string_from_chars(reasoning_text.as_slice()).as_str()));
    }
    if tool_calls.len() > 0 {
        message = message.set("tool_calls", Json::from_vec(tool_calls));
    }
    let finish = anthropic_stop_to_chat(data.get_str("stop_reason"));
    let choice = Json::object().set("index", Json::from_u64(0)).set("message", message).set(
        "finish_reason",
        Json::from_str(finish),
    );
    let usage = Json::object().set("prompt_tokens", Json::from_u64(input_tokens)).set(
        "completion_tokens",
        Json::from_u64(output_tokens),
    ).set("total_tokens", Json::from_u64(input_tokens.wrapping_add(output_tokens)));
    Json::object().set("id", Json::from_str(id)).set("object", Json::from_str("chat.completion")).set(
        "model",
        Json::from_str(data.str_or("model", "")),
    ).set("choices", single(choice)).set("usage", usage)
}

/// Converts an Anthropic Messages response to a Chat Completions response,
/// with id `request_id`, or a fresh `chatcmpl-` id where none is given.
pub fn anthropic_to_chat_response(data: Json, request_id: Option<String>) -> (r: Json)
    ensures
        match request_id {
            Some(id) => r@ == chat_response(data@, id@),
            None => exists|id: Seq<char>| is_generated_id(id, "chatcmpl-"@) && r@ == chat_response(data@, id),
        },
{
    let id = match request_id {
        Some(id) => id,
        None => gen_id("chatcmpl-"),
    };
    anthropic_to_chat_response_with_id(&data, id.as_str())
}


// ---------------------------------------------------------------------------
// Chat Completions response -> Responses response
// ---------------------------------------------------------------------------
/// The first choice of a chat response, an empty object where there is none.
pub open spec fn first_choice(chat: JsonV) -> JsonV {
    match chat.get("choices"@) {
        Some(JsonV::Array(cs)) => if cs.len() > 0 {
            cs[0]
        } else {
            empty_obj()
        },
        _ => empty_obj(),
    }
}

/// The message of the first choice.
pub open spec fn choice_message(chat: JsonV) -> JsonV {
    or_else(first_choice(chat).get("message"@), empty_obj())
}

/// The tool calls of a chat message.
pub open spec fn message_tool_calls(message: JsonV) -> Seq<JsonV> {
    match message.get("tool_calls"@) {
        Some(JsonV::Array(t)) => t,
        _ => Seq::empty(),
    }
}

/// A Responses `reasoning` output item.
pub open spec fn reasoning_item(id: Seq<char>, r: Seq<char>) -> JsonV {
    empty_obj().set("type"@, jstr("reasoning"@)).set("id"@, jstr(id)).set(
        "summary"@,
        JsonV::Array(seq![empty_obj().set("type"@, jstr("summary_text"@)).set("text"@, jstr(r))]),
    )
}

/// A completed Responses `message` output item holding the text `t`.
pub open spec fn message_item(id: Seq<char>, t: Seq<char>) -> JsonV {
    empty_obj().set("type"@, jstr("message"@)).set("id"@, jstr(id)).set("status"@, jstr("completed"@)).set(
        "role"@,
        jstr("assistant"@),
    ).set(
        "content"@,
        JsonV::Array(seq![empty_obj().set("type"@, jstr("output_text"@)).set("text"@, jstr(t))]),
    )
}

/// A completed Responses `function_call` output item for a chat tool call.
pub open spec fn function_call_item(id: Seq<char>, tc: JsonV) -> JsonV {
    empty_obj().set("type"@, jstr("function_call"@)).set("id"@, jstr(id)).set(
        "status"@,
        jstr("completed"@),
    ).set("call_id"@, jstr(tc.str_or("id"@, "call_"@))).set(
        "name"@,
        jstr(
            match tc.get2_str("function"@, "name"@) {
                Some(n) => n,
                None => Seq::empty(),
            },
        ),
    ).set(
        "arguments"@,
        jstr(
            match tc.get2_str("function"@, "arguments"@) {
                Some(a) => a,
                None => "{}"@,
            },
        ),
    )
}

/// The output items of a chat message: its reasoning, its text, then one item
/// per tool call; the k-th tool call gets the id `call_ids[k]`.
pub open spec fn responses_output(message: JsonV, reasoning_id: Seq<char>, message_id: Seq<char>, call_ids: Seq<Seq<char>>) -> Seq<JsonV> {
    let o1 = match message.get_str("reasoning_content"@) {
        Some(r) => if r.len() > 0 {
            seq![reasoning_item(reasoning_id, r)]
        } else {
            Seq::empty()
        },
        None => Seq::empty(),
    };
    let o2 = match message.get_str("content"@) {
        Some(t) => if t.len() > 0 {
            o1.push(message_item(message_id, t))
        } else {
            o1
        },
        None => o1,
    };
    let tcs = message_tool_calls(message);
    o2 + Seq::new(tcs.len(), |k: int| function_call_item(call_ids[k], tcs[k]))
}

/// The Responses response of a chat response; `response_id` is the id used
/// when the chat response has none.
pub open spec fn responses_response(
    chat: JsonV,
    model: Seq<char>,
    response_id: Seq<char>,
    reasoning_id: Seq<char>,
    message_id: Seq<char>,
    call_ids: Seq<Seq<char>>,
) -> JsonV {
    let choice = first_choice(chat);
    let message = choice_message(chat);
    let finish = choice.str_or("finish_reason"@, "stop"@);
    let usage = or_else(chat.get("usage"@), empty_obj());
    let input_tokens = usage.u64_or_zero("prompt_tokens"@);
    let output_tokens = usage.u64_or_zero("completion_tokens"@);
    let total = match usage.get("total_tokens"@) {
        Some(v) => match v.as_u64() {
            Some(u) => u,
            None => input_tokens.wrapping_add(output_tokens),
        },
        None => input_tokens.wrapping_add(output_tokens),
    };
    let id = match chat.get_str("id"@) {
        Some(i) => i,
        None => response_id,
    };
    empty_obj().set("id"@, jstr(id)).set("object"@, jstr("response"@)).set(
        "status"@,
        jstr(if finish == "length"@ { "incomplete"@ } else { "completed"@ }),
    ).set("model"@, jstr(if model.len() == 0 { chat.str_or("model"@, Seq::empty()) } else { model })).set(
        "output"@,
        JsonV::Array(responses_output(message, reasoning_id, message_id, call_ids)),
    ).set(
        "usage"@,
        empty_obj().set("input_tokens"@, jnum(input_tokens)).set("output_tokens"@, jnum(output_tokens)).set(
            "total_tokens"@,
            jnum(total),
        ),
    )
}

/// The first choice of a chat response.
pub fn first_choice_of(chat: &Json) -> (r: Json)
    ensures
        r@ == first_choice(chat@),
{
    broadcast use group_json_view;
    match chat.get("choices") {
        Some(Json::Array(cs)) => {
            if cs.len() > 0 {
                proof {
                    lemma_items_view(cs@);
                }
                cs[0].deep_clone()
            } else {
                Json::object()
            }
        },
        _ => Json::object(),
    }
}

/// Converts a chat response to a Responses response, naming its items with
/// the given ids.
pub fn chat_to_responses_response_with_ids(
    chat: &Json,
    model: &str,
    response_id: &str,
    reasoning_id: &str,
    message_id: &str,
    call_ids: &Vec<String>,
) -> (r: Json)
    requires
        call_ids@.len() >= message_tool_calls(choice_message(chat@)).len(),
    ensures
        r@ == responses_response(chat@, model@, response_id@, reasoning_id@, message_id@, texts_view(call_ids@)),
{
    broadcast use group_json_view;
    proof {
        reveal_strlit("");
        assert(""@ =~= Seq::<char>::empty());
    }
    let choice = first_choice_of(chat);
    let message = choice.get_or("message", Json::object());
    let finish = choice.str_or("finish_reason", "stop");
    let ghost m = message@;
    let mut output: Vec<Json> = Vec::new();
    proof {
        assert(items_view(output@) =~= Seq::<JsonV>::empty());
    }
    match message.get_str("reasoning_content") {
        Some(r) => {
            if !r.is_empty() {
                let summary = Json::object().set("type", Json::from_str("summary_text")).set("text", Json::from_str(r));
                let item = Json::object().set("type", Json::from_str("reasoning")).set("id", Json::from_str(reasoning_id)).set(
                    "summary",
                    single(summary),
                );
                output.push(item);
                proof {
                    lemma_items_view_push(Seq::empty(), item);
                    assert(output@ =~= Seq::<Json>::empty().push(item));
                    assert(items_view(Seq::<Json>::empty()) =~= Seq::<JsonV>::empty());
                    assert(items_view(output@) =~= seq![item@]);
                }
            }
        },
        None => {},
    }
    match message.get_str("content") {
        Some(t) => {
            if !t.is_empty() {
                let part = Json::object().set("type", Json::from_str("output_text")).set("text", Json::from_str(t));
                let item = Json::object().set("type", Json::from_str("message")).set("id", Json::from_str(message_id)).set(
                    "status",
                    Json::from_str("completed"),
                ).set("role", Json::from_str("assistant")).set("content", single(part));
                let ghost mid = output@;
                output.push(item);
                proof {
                    lemma_items_view_push(mid, item);
                }
            }
        },
        None => {},
    }
    let ghost o2 = items_view(output@);
    let ghost tcs = message_tool_calls(m);
    let ghost cv = texts_view(call_ids@);
    match message.get("tool_calls") {
        Some(Json::Array(calls)) => {
            let ghost tv = items_view(calls@);
            let mut k: usize = 0;
            proof {
                lemma_items_view(calls@);
                assert(tv == tcs);
                assert(o2 + Seq::new(0, |j: int| function_call_item(cv[j], tcs[j])) =~= o2);
            }
            while k < calls.len()
                invariant
                    k <= calls@.len(),
                    tv == items_view(calls@),
                    tv == tcs,
                    tv.len() == calls@.len(),
                    calls@.len() <= call_ids@.len(),
                    cv == texts_view(call_ids@),
                    ""@ == Seq::<char>::empty(),
                    items_view(output@) == o2 + Seq::new(k as nat, |j: int| function_call_item(cv[j], tcs[j])),
                decreases calls@.len() - k,
            {
                let tc = &calls[k];
                proof {
                    lemma_items_view(calls@);
                    assert(tv[k as int] == tc@);
                }
                let name = match tc.get2_str("function", "name") {
                    Some(n) => n,
                    None => "",
                };
                let arguments = match tc.get2_str("function", "arguments") {
                    Some(a) => a,
                    None => "{}",
                };
                let item = Json::object().set("type", Json::from_str("function_call")).set(
                    "id",
                    Json::from_str(call_ids[k].as_str()),
                ).set("status", Json::from_str("completed")).set("call_id", Json::from_str(tc.str_or("id", "call_"))).set(
                    "name",
                    Json::from_str(name),
                ).set("arguments", Json::from_str(arguments));
                let ghost mid = output@;
                output.push(item);
                proof {
                    lemma_items_view_push(mid, item);
                    assert(o2 + Seq::new(k as nat + 1, |j: int| function_call_item(cv[j], tcs[j])) =~= (o2
                        + Seq::new(k as nat, |j: int| function_call_item(cv[j], tcs[j]))).push(item@));
                }
                k = k + 1;
            }
        },
        _ => {
            proof {
                assert(o2 + Seq::new(0, |j: int| function_call_item(cv[j], tcs[j])) =~= o2);
            }
        },
    }
    let input_tokens = match chat.get("usage") {
        Some(u) => u.u64_or_zero("prompt_tokens"),
        None => 0,
    };
    let output_tokens = match chat.get("usage") {
        Some(u) => u.u64_or_zero("completion_tokens"),
        None => 0,
    };
    let total = match chat.get("usage") {
        Some(u) => match u.get("total_tokens") {
            Some(v) => match v.as_u64() {
                Some(t) => t,
                None => input_tokens.wrapping_add(output_tokens),
            },
            None => input_tokens.wrapping_add(output_tokens),
        },
        None => input_tokens.wrapping_add(output_tokens),
    };
    let id = match chat.get_str("id") {
        Some(i) => i,
        None => response_id,
    };
    let status = if str_eq(finish, "length") {
        "incomplete"
    } else {
        "completed"
    };
    let model_name = if model.is_empty() {
        chat.str_or("model", "")
    } else {
        model
    };
    let usage = Json::object().set("input_tokens", Json::from_u64(input_tokens)).set(
        "output_tokens",
        Json::from_u64(output_tokens),
    ).set("total_tokens", Json::from_u64(total));
    Json::object().set("id", Json::from_str(id)).set("object", Json::from_str("response")).set(
        "status",
        Json::from_str(status),
    ).set("model", Json::from_str(model_name)).set("output", Json::from_vec(output)).set("usage", usage)
}

/// Converts a chat response to a Responses response with fresh item ids.
pub fn chat_to_responses_response(chat: Json, model: &str) -> (r: Json)
    ensures
        exists|rid: Seq<char>, rs: Seq<char>, msg: Seq<char>, calls: Seq<Seq<char>>|
            {
                &&& is_generated_id(rs, "rs_"@)
                &&& is_generated_id(msg, "msg_"@)
                &&& (chat@.get_str("id"@) is None ==> is_generated_id(rid, "resp_"@))
                &&& calls.len() == message_tool_calls(choice_message(chat@)).len()
                &&& forall|k: int| 0 <= k < calls.len() ==> is_generated_id(#[trigger] calls[k], "fc_"@)
                &&& r@ == responses_response(chat@, model@, rid, rs, msg, calls)
            },
{
    broadcast use group_json_view;
    let choice = first_choice_of(&chat);
    let message = choice.get_or("message", Json::object());
    let n: usize = match message.get("tool_calls") {
        Some(Json::Array(calls)) => {
            proof {
                lemma_items_view(calls@);
            }
            calls.len()
        },
        _ => 0,
    };
    let mut call_ids: Vec<String> = Vec::new();
    while call_ids.len() < n
        invariant
            call_ids@.len() <= n,
            forall|k: int| 0 <= k < call_ids@.len() ==> is_generated_id(#[trigger] call_ids@[k]@, "fc_"@),
        decreases n - call_ids@.len(),
    {
        call_ids.push(gen_id("fc_"));
    }
    let rs = gen_id("rs_");
    let msg = gen_id("msg_");
    let rid = match chat.get_str("id") {
        Some(_) => String::new(),
        None => gen_id("resp_"),
    };
    proof {
        assert(call_ids@.len() == message_tool_calls(choice_message(chat@)).len());
    }
    let r = chat_to_responses_response_with_ids(&chat, model, rid.as_str(), rs.as_str(), msg.as_str(), &call_ids);
    proof {
        let cv = texts_view(call_ids@);
        assert forall|k: int| 0 <= k < cv.len() implies is_generated_id(#[trigger] cv[k], "fc_"@) by {
            assert(cv[k] == call_ids@[k]@);
        }
    }
    r
}

/// Converts an Anthropic Messages response to a Responses response, through
/// the Chat Completions form: the result is what `chat_to_responses_response`
/// gives for what `anthropic_to_chat_response(data, None)` gives, each with
/// the fresh ids it draws (`responses_response` of `chat_response`).
pub fn anthropic_to_responses_response(data: Json, model: &str) -> (r: Json)
    ensures
        exists|cid: Seq<char>, rid: Seq<char>, rs: Seq<char>, msg: Seq<char>, calls: Seq<Seq<char>>|
            {
                &&& is_generated_id(cid, "chatcmpl-"@)
                &&& is_generated_id(rs, "rs_"@)
                &&& is_generated_id(msg, "msg_"@)
                &&& calls.len() == message_tool_calls(choice_message(chat_response(data@, cid))).len()
                &&& forall|k: int| 0 <= k < calls.len() ==> is_generated_id(#[trigger] calls[k], "fc_"@)
                &&& r@ == responses_response(chat_response(data@, cid), model@, rid, rs, msg, calls)
            },
{
    let chat = anthropic_to_chat_response(data, None);
    chat_to_responses_response(chat, model)
}

} // verus!
