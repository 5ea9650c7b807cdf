//! Server-sent-event framing: cutting complete event blocks off a text
//! buffer, splitting a block into lines, and reading its `event:` and
//! `data:` fields.
use vstd::prelude::*;
use crate::text::{chars_of, has_prefix, occurs_at, string_from_chars, sub_chars, trim, trim_chars};

verus! {

/// The first position at or after `from` where `p` occurs in `s`.
pub open spec fn first_from(s: Seq<char>, p: Seq<char>, from: int) -> Option<int>
    decreases s.len() - from,
{
    if from < 0 || from >= s.len() || from + p.len() > s.len() {
        None
    } else if occurs_at(s, p, from) {
        Some(from)
    } else {
        first_from(s, p, from + 1)
    }
}

/// The blank line that ends an event block.
pub open spec fn block_end() -> Seq<char> {
    seq!['\n', '\n']
}

/// Cuts the first complete event block off `buffer`: the text before the
/// first blank line, which goes with it. A buffer without a blank line is
/// left as it is.
pub fn take_sse_block(buffer: &mut String) -> (r: Option<String>)
    ensures
        match first_from(old(buffer)@, block_end(), 0) {
            Some(i) => r matches Some(b) && b@ == old(buffer)@.subrange(0, i) && final(buffer)@ == old(
                buffer,
            )@.subrange(i + 2, old(buffer)@.len() as int),
            None => r is None && final(buffer)@ == old(buffer)@,
        },
{
    let cs = chars_of(buffer.as_str());
    let n = cs.len();
    let ghost s = cs@;
    let mut i: usize = 0;
    while n > 0 && i < n - 1
        invariant
            s == cs@,
            n == s.len(),
            s == old(buffer)@,
            buffer@ == old(buffer)@,
            first_from(s, block_end(), 0) == first_from(s, block_end(), i as int),
        decreases n - i,
    {
        if cs[i] == '\n' && cs[i + 1] == '\n' {
            proof {
                assert(s.subrange(i as int, i + 2) =~= block_end());
            }
            let block = sub_chars(&cs, 0, i);
            let rest = sub_chars(&cs, i + 2, n);
            *buffer = string_from_chars(rest.as_slice());
            return Some(string_from_chars(block.as_slice()));
        }
        proof {
            assert(s.subrange(i as int, i + 2)[0] == s[i as int]);
            assert(s.subrange(i as int, i + 2)[1] == s[i + 1]);
        }
        i = i + 1;
    }
    None
}

/// `s` without one `\r` at its end.
pub open spec fn strip_cr(s: Seq<char>) -> Seq<char> {
    if s.len() > 0 && s.last() == '\r' {
        s.drop_last()
    } else {
        s
    }
}

/// The lines completed so far in `s`, and the text after the last `\n`.
pub open spec fn line_scan(s: Seq<char>) -> (Seq<Seq<char>>, Seq<char>)
    decreases s.len(),
{
    if s.len() == 0 {
        (Seq::empty(), Seq::empty())
    } else {
        let (done, cur) = line_scan(s.drop_last());
        if s.last() == '\n' {
            (done.push(strip_cr(cur)), Seq::empty())
        } else {
            (done, cur.push(s.last()))
        }
    }
}

/// The lines of a text as `str::lines` gives them: split at each `\n`, a
/// `\r` before it dropped, and no empty line after a final `\n`.
pub open spec fn lines_of(s: Seq<char>) -> Seq<Seq<char>> {
    let (done, cur) = line_scan(s);
    if cur.len() > 0 {
        done.push(cur)
    } else {
        done
    }
}

/// The views of a list of texts.
pub open spec fn texts(v: Seq<String>) -> Seq<Seq<char>> {
    v.map_values(|s: String| s@)
}

/// The lines of a text.
pub fn sse_lines(text: &str) -> (r: Vec<String>)
    ensures
        texts(r@) == lines_of(text@),
{
    let cs = chars_of(text);
    let ghost s = cs@;
    let mut done: Vec<String> = Vec::new();
    let mut cur: Vec<char> = Vec::new();
    let mut i: usize = 0;
    proof {
        assert(s.take(0) =~= Seq::<char>::empty());
        assert(texts(done@) =~= Seq::<Seq<char>>::empty());
        assert(cur@ =~= Seq::<char>::empty());
    }
    while i < cs.len()
        invariant
            s == cs@,
            s == text@,
            i <= s.len(),
            (texts(done@), cur@) == line_scan(s.take(i as int)),
        decreases s.len() - i,
    {
        proof {
            assert(s.take(i as int + 1).drop_last() =~= s.take(i as int));
            assert(s.take(i as int + 1).last() == s[i as int]);
        }
        let c = cs[i];
        if c == '\n' {
            let n = cur.len();
            let line = if n > 0 && cur[n - 1] == '\r' {
                sub_chars(&cur, 0, n - 1)
            } else {
                sub_chars(&cur, 0, n)
            };
            proof {
                assert(cur@.subrange(0, n as int) =~= cur@);
                if n > 0 {
                    assert(cur@.subrange(0, n - 1) =~= cur@.drop_last());
                }
            }
            let ghost before = done@;
            done.push(string_from_chars(line.as_slice()));
            proof {
                assert(texts(done@) =~= texts(before).push(strip_cr(cur@)));
            }
            cur = Vec::new();
            proof {
                assert(cur@ =~= Seq::<char>::empty());
            }
        } else {
            cur.push(c);
        }
        i = i + 1;
    }
    proof {
        assert(s.take(s.len() as int) =~= s);
    }
    if cur.len() > 0 {
        let ghost before = done@;
        done.push(string_from_chars(cur.as_slice()));
        proof {
            assert(texts(done@) =~= texts(before).push(cur@));
        }
    }
    done
}

/// The value of the field `name` on an event line: the text after `name:`,
/// without one leading space; `None` for a line of another field.
pub open spec fn field_value(line: Seq<char>, name: Seq<char>) -> Option<Seq<char>> {
    let head = name.push(':');
    if has_prefix(line, head) {
        let rest = line.subrange(head.len() as int, line.len() as int);
        Some(
            if rest.len() > 0 && rest[0] == ' ' {
                rest.drop_first()
            } else {
                rest
            },
        )
    } else {
        None
    }
}

/// The value of the field `name` on an event line.
pub fn strip_sse_field(line: &str, name: &str) -> (r: Option<String>)
    ensures
        match r {
            Some(v) => field_value(line@, name@) == Some(v@),
            None => field_value(line@, name@) is None,
        },
{
    let lc = chars_of(line);
    let mut head = chars_of(name);
    head.push(':');
    if !crate::text::starts_with_chars(&lc, &head) {
        return None;
    }
    let h = head.len();
    let n = lc.len();
    let rest = sub_chars(&lc, h, n);
    if rest.len() > 0 && rest[0] == ' ' {
        let tail = sub_chars(&rest, 1, rest.len());
        proof {
            assert(tail@ =~= rest@.drop_first());
        }
        Some(string_from_chars(tail.as_slice()))
    } else {
        Some(string_from_chars(rest.as_slice()))
    }
}

/// The event name and data lines of the lines of a block: the
/// last `event:` value, trimmed (empty where there is none), and every
/// `data:` value in order.
pub open spec fn block_fields(lines: Seq<Seq<char>>) -> (Seq<char>, Seq<Seq<char>>)
    decreases lines.len(),
{
    if lines.len() == 0 {
        (Seq::empty(), Seq::empty())
    } else {
        let (event, data) = block_fields(lines.drop_last());
        match field_value(lines.last(), "event"@) {
            Some(e) => (trim(e), data),
            None => match field_value(lines.last(), "data"@) {
                Some(d) => (event, data.push(d)),
                None => (event, data),
            },
        }
    }
}

/// The event name and the data lines of an event block.
pub fn read_sse_block(block: &str) -> (r: (String, Vec<String>))
    ensures
        (r.0@, texts(r.1@)) == block_fields(lines_of(block@)),
{
    let lines = sse_lines(block);
    let ghost ls = texts(lines@);
    let mut event: String = String::new();
    let mut data: Vec<String> = Vec::new();
    let mut i: usize = 0;
    proof {
        assert(ls.take(0) =~= Seq::<Seq<char>>::empty());
        assert(texts(data@) =~= Seq::<Seq<char>>::empty());
        assert(event@ =~= Seq::<char>::empty());
    }
    while i < lines.len()
        invariant
            ls == texts(lines@),
            ls == lines_of(block@),
            i <= lines@.len(),
            (event@, texts(data@)) == block_fields(ls.take(i as int)),
        decreases lines@.len() - i,
    {
        proof {
            assert(ls.take(i as int + 1).drop_last() =~= ls.take(i as int));
            assert(ls.take(i as int + 1).last() == lines@[i as int]@);
        }
        let line = lines[i].as_str();
        match strip_sse_field(line, "event") {
            Some(e) => {
                let ec = chars_of(e.as_str());
                let t = trim_chars(&ec);
                event = string_from_chars(t.as_slice());
            },
            None => match strip_sse_field(line, "data") {
                Some(d) => {
                    let ghost before = data@;
                    data.push(d);
                    proof {
                        assert(texts(data@) =~= texts(before).push(data@.last()@));
                    }
                },
                None => {},
            },
        }
        i = i + 1;
    }
    proof {
        assert(ls.take(lines@.len() as int) =~= ls);
    }
    (event, data)
}

} // verus!
