use vstd::prelude::*;
use crate::model::{strings_view, RequestView, VideoUploadRequest, YtError};
use crate::text::{append_chars, chars_of, string_of};

verus! {

/// How one character of a value is written between double quotes.
pub open spec fn escape_char(c: char) -> Seq<char> {
    if c == '\\' {
        seq!['\\', '\\']
    } else if c == '"' {
        seq!['\\', '"']
    } else if c == '\n' {
        seq!['\\', 'n']
    } else {
        seq![c]
    }
}

/// How a value is written between double quotes.
pub open spec fn escaped(s: Seq<char>) -> Seq<char>
    decreases s.len(),
{
    if s.len() == 0 {
        Seq::empty()
    } else {
        escaped(s.drop_last()) + escape_char(s.last())
    }
}

/// A value written as a double-quoted scalar.
pub open spec fn quoted(s: Seq<char>) -> Seq<char> {
    seq!['"'] + escaped(s) + seq!['"']
}

/// The line `key: "value"`.
pub open spec fn field_line(key: Seq<char>, value: Seq<char>) -> Seq<char> {
    key + ": "@ + quoted(value) + seq!['\n']
}

/// The lines `- "tag"`, one per tag.
pub open spec fn tag_lines(tags: Seq<Seq<char>>) -> Seq<char>
    decreases tags.len(),
{
    if tags.len() == 0 {
        Seq::empty()
    } else {
        tag_lines(tags.drop_last()) + "- "@ + quoted(tags.last()) + seq!['\n']
    }
}

/// The tags entry: `tags: []` when there are none, else `tags:` and one line per tag.
pub open spec fn tags_block(tags: Seq<Seq<char>>) -> Seq<char> {
    if tags.len() == 0 {
        "tags: []\n"@
    } else {
        "tags:\n"@ + tag_lines(tags)
    }
}

/// The structured text of a request: one entry per field, in a fixed order.
pub open spec fn serialized(r: RequestView) -> Seq<char> {
    field_line("title"@, r.title) + field_line("description"@, r.description) + tags_block(r.tags)
        + field_line("category"@, r.category) + field_line("privacy_status"@, r.privacy_status)
        + field_line("publish_at"@, r.publish_at)
}

fn push_quoted(out: &mut Vec<char>, s: &Vec<char>)
    ensures
        final(out)@ == old(out)@ + quoted(s@),
{
    out.push('"');
    let ghost start = out@;
    let mut i: usize = 0;
    while i < s.len()
        invariant
            i <= s.len(),
            out@ == start + escaped(s@.take(i as int)),
        decreases s.len() - i,
    {
        let c = s[i];
        if c == '\\' {
            out.push('\\');
            out.push('\\');
        } else if c == '"' {
            out.push('\\');
            out.push('"');
        } else if c == '\n' {
            out.push('\\');
            out.push('n');
        } else {
            out.push(c);
        }
        proof {
            assert(s@.take(i + 1).drop_last() =~= s@.take(i as int));
        }
        i = i + 1;
        assert(out@ =~= start + escaped(s@.take(i as int)));
    }
    assert(s@.take(s.len() as int) =~= s@);
    out.push('"');
    assert(out@ =~= old(out)@ + quoted(s@));
}

fn push_field(out: &mut Vec<char>, key: &str, value: &String)
    ensures
        final(out)@ == old(out)@ + field_line(key@, value@),
{
    append_chars(out, &chars_of(key));
    out.push(':');
    out.push(' ');
    push_quoted(out, &chars_of(value.as_str()));
    out.push('\n');
    proof {
        reveal_strlit(": ");
    }
    assert(out@ =~= old(out)@ + field_line(key@, value@));
}

fn push_tags(out: &mut Vec<char>, tags: &Vec<String>)
    ensures
        final(out)@ == old(out)@ + tags_block(strings_view(tags@)),
{
    proof {
        reveal_strlit("tags: []\n");
        reveal_strlit("tags:\n");
        reveal_strlit("- ");
    }
    if tags.len() == 0 {
        append_chars(out, &chars_of("tags: []\n"));
        return;
    }
    append_chars(out, &chars_of("tags:\n"));
    let ghost start = out@;
    let mut i: usize = 0;
    while i < tags.len()
        invariant
            i <= tags.len(),
            out@ == start + tag_lines(strings_view(tags@.take(i as int))),
        decreases tags.len() - i,
    {
        let ghost before = out@;
        out.push('-');
        out.push(' ');
        push_quoted(out, &chars_of(tags[i].as_str()));
        out.push('\n');
        proof {
            let prev = strings_view(tags@.take(i as int));
            let next = strings_view(tags@.take(i + 1));
            assert(next.drop_last() =~= prev);
            assert(next.last() == tags@[i as int]@);
            reveal_strlit("- ");
            assert("- "@ =~= seq!['-', ' ']);
            assert(tag_lines(next) == tag_lines(prev) + "- "@ + quoted(tags@[i as int]@) + seq!['\n']);
            assert(out@ =~= start + tag_lines(next));
        }
        i = i + 1;
    }
    assert(tags@.take(tags.len() as int) =~= tags@);
    assert(out@ =~= old(out)@ + tags_block(strings_view(tags@)));
}

/// The structured text of a request, which `parse_request` reads back.
pub fn serialize_request(r: &VideoUploadRequest) -> (s: String)
    ensures
        s@ == serialized(r@),
{
    let mut out: Vec<char> = Vec::new();
    push_field(&mut out, "title", &r.title);
    push_field(&mut out, "description", &r.description);
    push_tags(&mut out, &r.tags);
    push_field(&mut out, "category", &r.category);
    push_field(&mut out, "privacy_status", &r.privacy_status);
    push_field(&mut out, "publish_at", &r.publish_at);
    proof {
        reveal_strlit("title");
        reveal_strlit("description");
        reveal_strlit("category");
        reveal_strlit("privacy_status");
        reveal_strlit("publish_at");
    }
    assert(out@ =~= serialized(r@));
    string_of(&out)
}


/// The position of the first newline at or after `i`, or the end of the text.
pub open spec fn line_end(t: Seq<char>, i: int) -> int
    decreases t.len() - i,
{
    if i >= t.len() {
        t.len() as int
    } else if t[i] == '\n' {
        i
    } else {
        line_end(t, i + 1)
    }
}

/// The first position at or after `i`, before `e`, that does not hold a space.
pub open spec fn skip_spaces(t: Seq<char>, i: int, e: int) -> int
    decreases e - i,
{
    if i < e && t[i] == ' ' {
        skip_spaces(t, i + 1, e)
    } else {
        i
    }
}

/// The end of `t[s..e]` once its trailing spaces are dropped.
pub open spec fn trim_end(t: Seq<char>, s: int, e: int) -> int
    decreases e - s,
{
    if e > s && t[e - 1] == ' ' {
        trim_end(t, s, e - 1)
    } else {
        e
    }
}

/// The position of the first `:` in `t[i..e]`, or `e`.
pub open spec fn find_colon(t: Seq<char>, i: int, e: int) -> int
    decreases e - i,
{
    if i >= e {
        e
    } else if t[i] == ':' {
        i
    } else {
        find_colon(t, i + 1, e)
    }
}

/// The character that a backslash followed by `c` stands for.
pub open spec fn unescape(c: char) -> Option<char> {
    if c == '\\' {
        Some('\\')
    } else if c == '"' {
        Some('"')
    } else if c == 'n' {
        Some('\n')
    } else if c == 't' {
        Some('\t')
    } else {
        None
    }
}

/// Reads the inside of a double-quoted scalar from `j`, after the opening quote,
/// with `acc` read so far: the value and the position after the closing quote.
pub open spec fn decode(t: Seq<char>, j: int, e: int, acc: Seq<char>) -> Option<(Seq<char>, int)>
    decreases e - j,
{
    if j >= e {
        None
    } else if t[j] == '"' {
        Some((acc, j + 1))
    } else if t[j] == '\\' {
        if j + 1 < e && unescape(t[j + 1]) is Some {
            decode(t, j + 2, e, acc.push(unescape(t[j + 1])->0))
        } else {
            None
        }
    } else {
        decode(t, j + 1, e, acc.push(t[j]))
    }
}

/// Reads the inside of a single-quoted scalar from `j`, after the opening quote,
/// with `acc` read so far (a doubled quote stands for one): the value and the
/// position after the closing quote.
pub open spec fn decode_single(t: Seq<char>, j: int, e: int, acc: Seq<char>) -> Option<
    (Seq<char>, int),
>
    decreases e - j,
{
    if j >= e {
        None
    } else if t[j] == '\'' {
        if j + 1 < e && t[j + 1] == '\'' {
            decode_single(t, j + 2, e, acc.push('\''))
        } else {
            Some((acc, j + 1))
        }
    } else {
        decode_single(t, j + 1, e, acc.push(t[j]))
    }
}

/// The value written in `t[i..e]`: a double- or single-quoted scalar followed by
/// nothing but spaces, or else the plain text without its surrounding spaces.
pub open spec fn scalar(t: Seq<char>, i: int, e: int) -> Option<Seq<char>> {
    let v = skip_spaces(t, i, e);
    if v < e && (t[v] == '"' || t[v] == '\'') {
        match if t[v] == '"' {
            decode(t, v + 1, e, Seq::empty())
        } else {
            decode_single(t, v + 1, e, Seq::empty())
        } {
            Some((s, q)) => if skip_spaces(t, q, e) == e {
                Some(s)
            } else {
                None
            },
            None => None,
        }
    } else {
        Some(t.subrange(v, trim_end(t, v, e)))
    }
}

/// The position of the first `,` or `]` in `t[i..e]`, or `e`.
pub open spec fn find_stop(t: Seq<char>, i: int, e: int) -> int
    decreases e - i,
{
    if i >= e {
        e
    } else if t[i] == ',' || t[i] == ']' {
        i
    } else {
        find_stop(t, i + 1, e)
    }
}

/// One item of an inline list starting at `v`: its value and where it ends.
pub open spec fn flow_item(t: Seq<char>, v: int, e: int) -> Option<(Seq<char>, int)> {
    if v < e && t[v] == '"' {
        decode(t, v + 1, e, Seq::empty())
    } else if v < e && t[v] == '\'' {
        decode_single(t, v + 1, e, Seq::empty())
    } else {
        let q = find_stop(t, v, e);
        Some((t.subrange(v, trim_end(t, v, q)), q))
    }
}

/// Reads the items of an inline list `[a, "b", 'c']` from `j`, after the opening
/// bracket, with `acc` read so far: the items and the position after `]`.
pub open spec fn flow_list(t: Seq<char>, j: int, e: int, acc: Seq<Seq<char>>) -> Option<
    (Seq<Seq<char>>, int),
>
    decreases e - j,
{
    let v = skip_spaces(t, j, e);
    if v >= e {
        None
    } else if t[v] == ']' {
        Some((acc, v + 1))
    } else {
        match flow_item(t, v, e) {
            Some((item, q)) => {
                let w = skip_spaces(t, q, e);
                if w < e && t[w] == ']' {
                    Some((acc.push(item), w + 1))
                } else if w < e && t[w] == ',' && w + 1 > j {
                    flow_list(t, w + 1, e, acc.push(item))
                } else {
                    None
                }
            },
            None => None,
        }
    }
}

/// The keys of the document, in the order they are written.
pub open spec fn key_name(id: int) -> Seq<char> {
    if id == 0 {
        "title"@
    } else if id == 1 {
        "description"@
    } else if id == 2 {
        "tags"@
    } else if id == 3 {
        "category"@
    } else if id == 4 {
        "privacy_status"@
    } else {
        "publish_at"@
    }
}

/// Which key `k` is, or -1.
pub open spec fn key_id(k: Seq<char>) -> int {
    if k == key_name(0) {
        0
    } else if k == key_name(1) {
        1
    } else if k == key_name(2) {
        2
    } else if k == key_name(3) {
        3
    } else if k == key_name(4) {
        4
    } else if k == key_name(5) {
        5
    } else {
        -1
    }
}

/// The fields read so far, and whether list items of `tags` may follow.
pub struct DraftView {
    pub title: Option<Seq<char>>,
    pub description: Option<Seq<char>>,
    pub tags: Option<Seq<Seq<char>>>,
    pub category: Option<Seq<char>>,
    pub privacy_status: Option<Seq<char>>,
    pub publish_at: Option<Seq<char>>,
    pub in_tags: bool,
    /// The lines that follow belong to a key that is not one of the six, and are ignored.
    pub in_other: bool,
}

pub open spec fn empty_draft() -> DraftView {
    DraftView {
        title: None,
        description: None,
        tags: None,
        category: None,
        privacy_status: None,
        publish_at: None,
        in_tags: false,
        in_other: false,
    }
}

pub open spec fn is_set(d: DraftView, id: int) -> bool {
    if id == 0 {
        d.title is Some
    } else if id == 1 {
        d.description is Some
    } else if id == 2 {
        d.tags is Some
    } else if id == 3 {
        d.category is Some
    } else if id == 4 {
        d.privacy_status is Some
    } else {
        d.publish_at is Some
    }
}

/// `d` with the text field `id` set to `v`; list items may no longer follow.
pub open spec fn with_field(d: DraftView, id: int, v: Seq<char>) -> DraftView {
    let d2 = DraftView { in_tags: false, in_other: false, ..d };
    if id == 0 {
        DraftView { title: Some(v), ..d2 }
    } else if id == 1 {
        DraftView { description: Some(v), ..d2 }
    } else if id == 3 {
        DraftView { category: Some(v), ..d2 }
    } else if id == 4 {
        DraftView { privacy_status: Some(v), ..d2 }
    } else {
        DraftView { publish_at: Some(v), ..d2 }
    }
}

/// Reads the line that starts at `i`: the fields read so far afterwards and the
/// start of the next line, or what is wrong with the line. Leading spaces are
/// ignored. Blank lines and lines that start with `#` are commentary and change
/// nothing. Keys other than the six are ignored together with the list items and
/// lines without a key that follow them. Tags come as `- item` lines under
/// `tags:`, or inline as `[a, "b", 'c']`.
#[verifier::opaque]
pub open spec fn step(t: Seq<char>, i: int, d: DraftView) -> Result<(DraftView, int), Seq<char>> {
    let e = line_end(t, i);
    let s = skip_spaces(t, i, e);
    if s == e || t[s] == '#' {
        Ok((d, e + 1))
    } else if t[s] == '-' {
        if d.in_tags && d.tags is Some && s + 1 < e && t[s + 1] == ' ' {
            match scalar(t, s + 2, e) {
                Some(v) => Ok((DraftView { tags: Some(d.tags->0.push(v)), ..d }, e + 1)),
                None => Err("malformed value"@),
            }
        } else if d.in_other {
            Ok((d, e + 1))
        } else {
            Err("unexpected list item"@)
        }
    } else {
        let k = find_colon(t, s, e);
        let id = key_id(t.subrange(s, k));
        if k == e {
            if d.in_other {
                Ok((d, e + 1))
            } else {
                Err("expected a key"@)
            }
        } else if id < 0 {
            Ok((DraftView { in_tags: false, in_other: true, ..d }, e + 1))
        } else if is_set(d, id) {
            Err("duplicate key"@)
        } else if id == 2 {
            let v = skip_spaces(t, k + 1, e);
            if v == e {
                Ok((DraftView { tags: Some(Seq::empty()), in_tags: true, in_other: false, ..d }, e + 1))
            } else if t[v] == '[' {
                match flow_list(t, v + 1, e, Seq::empty()) {
                    Some((items, q)) => if skip_spaces(t, q, e) == e {
                        Ok(
                            (
                                DraftView {
                                    tags: Some(items),
                                    in_tags: false,
                                    in_other: false,
                                    ..d
                                },
                                e + 1,
                            ),
                        )
                    } else {
                        Err("tags must be a list"@)
                    },
                    None => Err("tags must be a list"@),
                }
            } else {
                Err("tags must be a list"@)
            }
        } else {
            match scalar(t, k + 1, e) {
                Some(v) => Ok((with_field(d, id, v), e + 1)),
                None => Err("malformed value"@),
            }
        }
    }
}

/// Reads the lines from `i` to the end.
pub open spec fn parse_from(t: Seq<char>, i: int, d: DraftView) -> Result<DraftView, Seq<char>>
    decreases t.len() - i,
{
    if i >= t.len() {
        Ok(d)
    } else {
        match step(t, i, d) {
            Err(m) => Err(m),
            Ok((d2, n)) => if n <= i {
                Err(Seq::empty())
            } else if n >= t.len() {
                Ok(d2)
            } else {
                parse_from(t, n, d2)
            },
        }
    }
}

/// The request, once every field was read; else the first key that is missing.
pub open spec fn finish(d: DraftView) -> Result<RequestView, Seq<char>> {
    if d.title is None {
        Err(key_name(0))
    } else if d.description is None {
        Err(key_name(1))
    } else if d.tags is None {
        Err(key_name(2))
    } else if d.category is None {
        Err(key_name(3))
    } else if d.privacy_status is None {
        Err(key_name(4))
    } else if d.publish_at is None {
        Err(key_name(5))
    } else {
        Ok(
            RequestView {
                title: d.title->0,
                description: d.description->0,
                tags: d.tags->0,
                category: d.category->0,
                privacy_status: d.privacy_status->0,
                publish_at: d.publish_at->0,
            },
        )
    }
}

/// The request a document holds, or what is wrong with it.
pub open spec fn parse_document(t: Seq<char>) -> Result<RequestView, Seq<char>> {
    match parse_from(t, 0, empty_draft()) {
        Ok(d) => finish(d),
        Err(m) => Err(m),
    }
}

fn exec_line_end(t: &Vec<char>, i: usize) -> (r: usize)
    requires
        i <= t.len(),
    ensures
        r == line_end(t@, i as int),
        i <= r <= t.len(),
{
    let mut j = i;
    while j < t.len() && t[j] != '\n'
        invariant
            i <= j <= t.len(),
            line_end(t@, i as int) == line_end(t@, j as int),
        decreases t.len() - j,
    {
        j = j + 1;
    }
    j
}

fn exec_skip_spaces(t: &Vec<char>, i: usize, e: usize) -> (r: usize)
    requires
        i <= e <= t.len(),
    ensures
        r == skip_spaces(t@, i as int, e as int),
        i <= r <= e,
{
    let mut j = i;
    while j < e && t[j] == ' '
        invariant
            i <= j <= e,
            e <= t.len(),
            skip_spaces(t@, i as int, e as int) == skip_spaces(t@, j as int, e as int),
        decreases e - j,
    {
        j = j + 1;
    }
    j
}

fn exec_trim_end(t: &Vec<char>, s: usize, e: usize) -> (r: usize)
    requires
        s <= e <= t.len(),
    ensures
        r == trim_end(t@, s as int, e as int),
        s <= r <= e,
{
    let mut j = e;
    while j > s && t[j - 1] == ' '
        invariant
            s <= j <= e,
            e <= t.len(),
            trim_end(t@, s as int, e as int) == trim_end(t@, s as int, j as int),
        decreases j - s,
    {
        j = j - 1;
    }
    j
}

fn exec_find_colon(t: &Vec<char>, i: usize, e: usize) -> (r: usize)
    requires
        i <= e <= t.len(),
    ensures
        r == find_colon(t@, i as int, e as int),
        i <= r <= e,
{
    let mut j = i;
    while j < e && t[j] != ':'
        invariant
            i <= j <= e,
            e <= t.len(),
            find_colon(t@, i as int, e as int) == find_colon(t@, j as int, e as int),
        decreases e - j,
    {
        j = j + 1;
    }
    j
}

fn exec_unescape(c: char) -> (r: Option<char>)
    ensures
        r == unescape(c),
{
    if c == '\\' {
        Some('\\')
    } else if c == '"' {
        Some('"')
    } else if c == 'n' {
        Some('\n')
    } else if c == 't' {
        Some('\t')
    } else {
        None
    }
}

fn exec_decode(t: &Vec<char>, j0: usize, e: usize) -> (r: Option<(Vec<char>, usize)>)
    requires
        j0 <= e <= t.len(),
    ensures
        match decode(t@, j0 as int, e as int, Seq::empty()) {
            Some((s, q)) => r matches Some(p) && p.0@ == s && p.1 == q && q <= e,
            None => r is None,
        },
{
    let mut acc: Vec<char> = Vec::new();
    let mut j = j0;
    while j < e
        invariant
            j0 <= j <= e,
            e <= t.len(),
            decode(t@, j0 as int, e as int, Seq::empty()) == decode(
                t@,
                j as int,
                e as int,
                acc@,
            ),
        decreases e - j,
    {
        let c = t[j];
        if c == '"' {
            return Some((acc, j + 1));
        } else if c == '\\' {
            if j + 1 < e {
                match exec_unescape(t[j + 1]) {
                    Some(u) => {
                        acc.push(u);
                        j = j + 2;
                    },
                    None => {
                        return None;
                    },
                }
            } else {
                return None;
            }
        } else {
            acc.push(c);
            j = j + 1;
        }
    }
    None
}

fn exec_decode_single(t: &Vec<char>, j0: usize, e: usize) -> (r: Option<(Vec<char>, usize)>)
    requires
        j0 <= e <= t.len(),
    ensures
        match decode_single(t@, j0 as int, e as int, Seq::empty()) {
            Some((s, q)) => r matches Some(p) && p.0@ == s && p.1 == q && q <= e,
            None => r is None,
        },
{
    let mut acc: Vec<char> = Vec::new();
    let mut j = j0;
    while j < e
        invariant
            j0 <= j <= e,
            e <= t.len(),
            decode_single(t@, j0 as int, e as int, Seq::empty()) == decode_single(
                t@,
                j as int,
                e as int,
                acc@,
            ),
        decreases e - j,
    {
        let c = t[j];
        if c == '\'' {
            if j + 1 < e && t[j + 1] == '\'' {
                acc.push('\'');
                j = j + 2;
            } else {
                return Some((acc, j + 1));
            }
        } else {
            acc.push(c);
            j = j + 1;
        }
    }
    None
}

fn copy_range(t: &Vec<char>, v: usize, end: usize) -> (r: Vec<char>)
    requires
        v <= end <= t.len(),
    ensures
        r@ == t@.subrange(v as int, end as int),
{
    let mut out: Vec<char> = Vec::new();
    let mut k = v;
    while k < end
        invariant
            v <= k <= end,
            end <= t.len(),
            out@ == t@.subrange(v as int, k as int),
        decreases end - k,
    {
        out.push(t[k]);
        k = k + 1;
        assert(out@ =~= t@.subrange(v as int, k as int));
    }
    out
}

fn exec_scalar(t: &Vec<char>, i: usize, e: usize) -> (r: Option<Vec<char>>)
    requires
        i <= e <= t.len(),
    ensures
        match scalar(t@, i as int, e as int) {
            Some(s) => r matches Some(v) && v@ == s,
            None => r is None,
        },
{
    let v = exec_skip_spaces(t, i, e);
    if v < e && (t[v] == '"' || t[v] == '\'') {
        let read = if t[v] == '"' {
            exec_decode(t, v + 1, e)
        } else {
            exec_decode_single(t, v + 1, e)
        };
        match read {
            Some((s, q)) => {
                if exec_skip_spaces(t, q, e) == e {
                    Some(s)
                } else {
                    None
                }
            },
            None => None,
        }
    } else {
        let end = exec_trim_end(t, v, e);
        Some(copy_range(t, v, end))
    }
}

fn exec_find_stop(t: &Vec<char>, i: usize, e: usize) -> (r: usize)
    requires
        i <= e <= t.len(),
    ensures
        r == find_stop(t@, i as int, e as int),
        i <= r <= e,
{
    let mut j = i;
    while j < e && t[j] != ',' && t[j] != ']'
        invariant
            i <= j <= e,
            e <= t.len(),
            find_stop(t@, i as int, e as int) == find_stop(t@, j as int, e as int),
        decreases e - j,
    {
        j = j + 1;
    }
    j
}

fn exec_flow_item(t: &Vec<char>, v: usize, e: usize) -> (r: Option<(Vec<char>, usize)>)
    requires
        v <= e <= t.len(),
    ensures
        match flow_item(t@, v as int, e as int) {
            Some((s, q)) => r matches Some(p) && p.0@ == s && p.1 == q && q <= e,
            None => r is None,
        },
{
    if v < e && t[v] == '"' {
        exec_decode(t, v + 1, e)
    } else if v < e && t[v] == '\'' {
        exec_decode_single(t, v + 1, e)
    } else {
        let q = exec_find_stop(t, v, e);
        let end = exec_trim_end(t, v, q);
        Some((copy_range(t, v, end), q))
    }
}

fn exec_flow_list(t: &Vec<char>, j0: usize, e: usize) -> (r: Option<(Vec<Vec<char>>, usize)>)
    requires
        j0 <= e <= t.len(),
    ensures
        match flow_list(t@, j0 as int, e as int, Seq::empty()) {
            Some((items, q)) => r matches Some(p) && chars_view(p.0@) == items && p.1 == q && q
                <= e,
            None => r is None,
        },
{
    let mut acc: Vec<Vec<char>> = Vec::new();
    let mut j = j0;
    assert(chars_view(acc@) =~= Seq::<Seq<char>>::empty());
    loop
        invariant
            j0 <= j <= e,
            e <= t.len(),
            flow_list(t@, j0 as int, e as int, Seq::empty()) == flow_list(
                t@,
                j as int,
                e as int,
                chars_view(acc@),
            ),
        decreases e - j,
    {
        let v = exec_skip_spaces(t, j, e);
        if v >= e {
            return None;
        }
        if t[v] == ']' {
            return Some((acc, v + 1));
        }
        match exec_flow_item(t, v, e) {
            Some((item, q)) => {
                let w = exec_skip_spaces(t, q, e);
                let ghost before = acc@;
                if w < e && t[w] == ']' {
                    acc.push(item);
                    assert(chars_view(acc@) =~= chars_view(before).push(item@));
                    return Some((acc, w + 1));
                } else if w < e && t[w] == ',' && w + 1 > j {
                    acc.push(item);
                    assert(chars_view(acc@) =~= chars_view(before).push(item@));
                    j = w + 1;
                } else {
                    return None;
                }
            },
            None => {
                return None;
            },
        }
    }
}

fn same_chars(t: &Vec<char>, i: usize, k: usize, key: &str) -> (r: bool)
    requires
        i <= k <= t.len(),
    ensures
        r == (t@.subrange(i as int, k as int) == key@),
{
    let kc = chars_of(key);
    if k - i != kc.len() {
        assert(t@.subrange(i as int, k as int).len() != key@.len());
        return false;
    }
    let mut j: usize = 0;
    while j < kc.len()
        invariant
            j <= kc.len(),
            k - i == kc.len(),
            k <= t.len(),
            kc@ == key@,
            forall|m: int| 0 <= m < j ==> t@[i + m] == kc@[m],
        decreases kc.len() - j,
    {
        if t[i + j] != kc[j] {
            assert(t@.subrange(i as int, k as int)[j as int] != key@[j as int]);
            return false;
        }
        j = j + 1;
    }
    assert(t@.subrange(i as int, k as int) =~= key@);
    true
}

fn exec_key_id(t: &Vec<char>, i: usize, k: usize) -> (r: i8)
    requires
        i <= k <= t.len(),
    ensures
        r as int == key_id(t@.subrange(i as int, k as int)),
{
    if same_chars(t, i, k, "title") {
        0
    } else if same_chars(t, i, k, "description") {
        1
    } else if same_chars(t, i, k, "tags") {
        2
    } else if same_chars(t, i, k, "category") {
        3
    } else if same_chars(t, i, k, "privacy_status") {
        4
    } else if same_chars(t, i, k, "publish_at") {
        5
    } else {
        -1
    }
}

/// The fields read so far while parsing.
struct Draft {
    title: Option<Vec<char>>,
    description: Option<Vec<char>>,
    has_tags: bool,
    tags: Vec<Vec<char>>,
    category: Option<Vec<char>>,
    privacy_status: Option<Vec<char>>,
    publish_at: Option<Vec<char>>,
    in_tags: bool,
    in_other: bool,
}

spec fn opt_chars(o: Option<Vec<char>>) -> Option<Seq<char>> {
    match o {
        Some(v) => Some(v@),
        None => None,
    }
}

spec fn chars_view(v: Seq<Vec<char>>) -> Seq<Seq<char>> {
    v.map_values(|c: Vec<char>| c@)
}

impl View for Draft {
    type V = DraftView;

    closed spec fn view(&self) -> DraftView {
        DraftView {
            title: opt_chars(self.title),
            description: opt_chars(self.description),
            tags: if self.has_tags {
                Some(chars_view(self.tags@))
            } else {
                None
            },
            category: opt_chars(self.category),
            privacy_status: opt_chars(self.privacy_status),
            publish_at: opt_chars(self.publish_at),
            in_tags: self.in_tags,
            in_other: self.in_other,
        }
    }
}

fn exec_is_set(d: &Draft, id: i8) -> (r: bool)
    ensures
        r == is_set(d@, id as int),
{
    if id == 0 {
        d.title.is_some()
    } else if id == 1 {
        d.description.is_some()
    } else if id == 2 {
        d.has_tags
    } else if id == 3 {
        d.category.is_some()
    } else if id == 4 {
        d.privacy_status.is_some()
    } else {
        d.publish_at.is_some()
    }
}

fn exec_step(t: &Vec<char>, i: usize, d: &mut Draft) -> (r: Result<usize, String>)
    requires
        i < t.len() < usize::MAX,
    ensures
        match step(t@, i as int, old(d)@) {
            Ok((d2, n)) => r matches Ok(n2) && n2 == n && final(d)@ == d2,
            Err(m) => r matches Err(s) && s@ == m,
        },
        r matches Ok(n2) ==> i < n2 <= t.len() + 1,
{
    reveal(step);
    let e = exec_line_end(t, i);
    let s = exec_skip_spaces(t, i, e);
    if s == e || t[s] == '#' {
        return Ok(e + 1);
    }
    if t[s] == '-' {
        if d.in_tags && d.has_tags && s + 1 < e && t[s + 1] == ' ' {
            match exec_scalar(t, s + 2, e) {
                Some(v) => {
                    let ghost before = d.tags@;
                    d.tags.push(v);
                    assert(chars_view(d.tags@) =~= chars_view(before).push(v@));
                    return Ok(e + 1);
                },
                None => {
                    return Err("malformed value".to_string());
                },
            }
        } else if d.in_other {
            return Ok(e + 1);
        } else {
            return Err("unexpected list item".to_string());
        }
    }
    let k = exec_find_colon(t, s, e);
    let id = exec_key_id(t, s, k);
    if k == e {
        if d.in_other {
            return Ok(e + 1);
        }
        return Err("expected a key".to_string());
    }
    if id < 0 {
        d.in_tags = false;
        d.in_other = true;
        return Ok(e + 1);
    }
    if exec_is_set(d, id) {
        return Err("duplicate key".to_string());
    }
    if id == 2 {
        let v = exec_skip_spaces(t, k + 1, e);
        if v == e {
            d.tags = Vec::new();
            d.has_tags = true;
            d.in_tags = true;
            d.in_other = false;
            assert(chars_view(d.tags@) =~= Seq::<Seq<char>>::empty());
            return Ok(e + 1);
        } else if t[v] == '[' {
            match exec_flow_list(t, v + 1, e) {
                Some((items, q)) => {
                    if exec_skip_spaces(t, q, e) == e {
                        d.tags = items;
                        d.has_tags = true;
                        d.in_tags = false;
                        d.in_other = false;
                        return Ok(e + 1);
                    } else {
                        return Err("tags must be a list".to_string());
                    }
                },
                None => {
                    return Err("tags must be a list".to_string());
                },
            }
        } else {
            return Err("tags must be a list".to_string());
        }
    }
    match exec_scalar(t, k + 1, e) {
        Some(v) => {
            d.in_tags = false;
            d.in_other = false;
            if id == 0 {
                d.title = Some(v);
            } else if id == 1 {
                d.description = Some(v);
            } else if id == 3 {
                d.category = Some(v);
            } else if id == 4 {
                d.privacy_status = Some(v);
            } else {
                d.publish_at = Some(v);
            }
            Ok(e + 1)
        },
        None => Err("malformed value".to_string()),
    }
}

fn strings_of(v: &Vec<Vec<char>>) -> (r: Vec<String>)
    ensures
        strings_view(r@) == chars_view(v@),
{
    let mut out: Vec<String> = Vec::new();
    let mut i: usize = 0;
    while i < v.len()
        invariant
            i <= v.len(),
            strings_view(out@) =~= chars_view(v@.take(i as int)),
        decreases v.len() - i,
    {
        let s = string_of(&v[i]);
        proof {
            assert(strings_view(out@.push(s)) =~= strings_view(out@).push(s@));
            assert(chars_view(v@.take(i + 1)) =~= chars_view(v@.take(i as int)).push(v@[i as int]@));
        }
        out.push(s);
        i = i + 1;
    }
    assert(v@.take(v.len() as int) =~= v@);
    out
}

fn exec_finish(d: Draft) -> (r: Result<VideoUploadRequest, String>)
    ensures
        match finish(d@) {
            Ok(v) => r matches Ok(q) && q@ == v,
            Err(m) => r matches Err(s) && s@ == m,
        },
{
    let title = match d.title {
        Some(v) => string_of(&v),
        None => return Err("title".to_string()),
    };
    let description = match d.description {
        Some(v) => string_of(&v),
        None => return Err("description".to_string()),
    };
    if !d.has_tags {
        return Err("tags".to_string());
    }
    let category = match d.category {
        Some(v) => string_of(&v),
        None => return Err("category".to_string()),
    };
    let privacy_status = match d.privacy_status {
        Some(v) => string_of(&v),
        None => return Err("privacy_status".to_string()),
    };
    let publish_at = match d.publish_at {
        Some(v) => string_of(&v),
        None => return Err("publish_at".to_string()),
    };
    let tags = strings_of(&d.tags);
    Ok(VideoUploadRequest { title, description, tags, category, privacy_status, publish_at })
}

/// Reads a request back from a document: the structured entries, in any order,
/// with blank lines, lines starting with `#` and keys other than the six ignored.
/// Values may be plain, double-quoted or single-quoted. Fails, naming the problem
/// or the first missing key, when the document does not hold each of the six keys
/// exactly once with a value of the right shape.
pub fn parse_request(text: &str) -> (r: Result<VideoUploadRequest, YtError>)
    requires
        text@.len() < usize::MAX,
    ensures
        match parse_document(text@) {
            Ok(v) => r matches Ok(q) && q@ == v,
            Err(m) => r matches Err(YtError::MalformedDocument(s)) && s@ == m,
        },
{
    let t = chars_of(text);
    let mut d = Draft {
        title: None,
        description: None,
        has_tags: false,
        tags: Vec::new(),
        category: None,
        privacy_status: None,
        publish_at: None,
        in_tags: false,
        in_other: false,
    };
    assert(d@ == empty_draft());
    let mut i: usize = 0;
    while i < t.len()
        invariant
            t@ == text@,
            t.len() < usize::MAX,
            parse_from(t@, 0, empty_draft()) == parse_from(t@, i as int, d@),
        decreases t.len() - i,
    {
        match exec_step(&t, i, &mut d) {
            Ok(n) => {
                if n >= t.len() {
                    i = t.len();
                } else {
                    i = n;
                }
            },
            Err(m) => {
                return Err(YtError::MalformedDocument(m));
            },
        }
    }
    match exec_finish(d) {
        Ok(q) => Ok(q),
        Err(m) => Err(YtError::MalformedDocument(m)),
    }
}

/// Text whose every line is blank or starts with `#`.
pub open spec fn is_commentary(c: Seq<char>) -> bool {
    forall|j: int|
        0 <= j < c.len() && (j == 0 || c[j - 1] == '\n') ==> (#[trigger] c[j] == '\n' || c[j]
            == '#')
}

/// A line's text with any line break turned into a space.
pub open spec fn no_breaks(x: Seq<char>) -> Seq<char> {
    x.map_values(|c: char| if c == '\n' { ' ' } else { c })
}

/// The comment line `# text`.
pub open spec fn comment_line(x: Seq<char>) -> Seq<char> {
    seq!['#', ' '] + no_breaks(x) + seq!['\n']
}

fn push_comment_line(out: &mut Vec<char>, line: &str)
    ensures
        final(out)@ == old(out)@ + comment_line(line@),
{
    let chars = chars_of(line);
    let ghost start = old(out)@;
    out.push('#');
    out.push(' ');
    let mut i: usize = 0;
    while i < chars.len()
        invariant
            i <= chars.len(),
            chars@ == line@,
            out@ == start + seq!['#', ' '] + no_breaks(chars@.take(i as int)),
        decreases chars.len() - i,
    {
        let c = chars[i];
        if c == '\n' {
            out.push(' ');
        } else {
            out.push(c);
        }
        i = i + 1;
        assert(out@ =~= start + seq!['#', ' '] + no_breaks(chars@.take(i as int)));
    }
    out.push('\n');
    assert(chars@.take(chars.len() as int) =~= chars@);
    assert(out@ =~= start + comment_line(line@));
}

/// The notes that follow the structured entries: how to use the document, and
/// the codes of the categories.
pub open spec fn notes_text() -> Seq<char> {
    seq!['\n']
        + comment_line("ytup - YouTube Uploader"@)
        + comment_line("* Edit the video details above, then save and close the editor"@)
        + comment_line("* Leave `publish_at` empty to avoid scheduling the video"@)
        + comment_line("* Use the mapping below to set the `category` field"@)
        + comment_line(""@)
        + comment_line("    \"Film & Animation\":      1"@)
        + comment_line("    \"Autos & Vehicles\":      2"@)
        + comment_line("    \"Music\":                 10"@)
        + comment_line("    \"Pets & Animals\":        15"@)
        + comment_line("    \"Sports\":                17"@)
        + comment_line("    \"Short Movies\":          18"@)
        + comment_line("    \"Travel & Events\":       19"@)
        + comment_line("    \"Gaming\":                20"@)
        + comment_line("    \"Videoblogging\":         21"@)
        + comment_line("    \"People & Blogs\":        22"@)
        + comment_line("    \"Comedy\":                23"@)
        + comment_line("    \"Entertainment\":         24"@)
        + comment_line("    \"News & Politics\":       25"@)
        + comment_line("    \"Howto & Style\":         26"@)
        + comment_line("    \"Education\":             27"@)
        + comment_line("    \"Science & Technology\":  28"@)
        + comment_line("    \"Nonprofits & Activism\": 29"@)
        + comment_line("    \"Movies\":                30"@)
        + comment_line("    \"Anime/Animation\":       31"@)
        + comment_line("    \"Action/Adventure\":      32"@)
        + comment_line("    \"Classics\":              33"@)
        + comment_line("    \"Documentary\":           35"@)
        + comment_line("    \"Drama\":                 36"@)
        + comment_line("    \"Family\":                37"@)
        + comment_line("    \"Foreign\":               38"@)
        + comment_line("    \"Horror\":                39"@)
        + comment_line("    \"Sci-Fi/Fantasy\":        40"@)
        + comment_line("    \"Thriller\":              41"@)
        + comment_line("    \"Shorts\":                42"@)
        + comment_line("    \"Shows\":                 43"@)
        + comment_line("    \"Trailers\":              44"@)
}

/// The notes that follow the structured entries.
pub fn commentary() -> (c: String)
    ensures
        c@ == notes_text(),
        is_commentary(c@),
{
    proof {
        lemma_notes_are_commentary();
    }
    let mut out: Vec<char> = Vec::new();
    out.push('\n');
    push_comment_line(&mut out, "ytup - YouTube Uploader");
    push_comment_line(&mut out, "* Edit the video details above, then save and close the editor");
    push_comment_line(&mut out, "* Leave `publish_at` empty to avoid scheduling the video");
    push_comment_line(&mut out, "* Use the mapping below to set the `category` field");
    push_comment_line(&mut out, "");
    push_comment_line(&mut out, "    \"Film & Animation\":      1");
    push_comment_line(&mut out, "    \"Autos & Vehicles\":      2");
    push_comment_line(&mut out, "    \"Music\":                 10");
    push_comment_line(&mut out, "    \"Pets & Animals\":        15");
    push_comment_line(&mut out, "    \"Sports\":                17");
    push_comment_line(&mut out, "    \"Short Movies\":          18");
    push_comment_line(&mut out, "    \"Travel & Events\":       19");
    push_comment_line(&mut out, "    \"Gaming\":                20");
    push_comment_line(&mut out, "    \"Videoblogging\":         21");
    push_comment_line(&mut out, "    \"People & Blogs\":        22");
    push_comment_line(&mut out, "    \"Comedy\":                23");
    push_comment_line(&mut out, "    \"Entertainment\":         24");
    push_comment_line(&mut out, "    \"News & Politics\":       25");
    push_comment_line(&mut out, "    \"Howto & Style\":         26");
    push_comment_line(&mut out, "    \"Education\":             27");
    push_comment_line(&mut out, "    \"Science & Technology\":  28");
    push_comment_line(&mut out, "    \"Nonprofits & Activism\": 29");
    push_comment_line(&mut out, "    \"Movies\":                30");
    push_comment_line(&mut out, "    \"Anime/Animation\":       31");
    push_comment_line(&mut out, "    \"Action/Adventure\":      32");
    push_comment_line(&mut out, "    \"Classics\":              33");
    push_comment_line(&mut out, "    \"Documentary\":           35");
    push_comment_line(&mut out, "    \"Drama\":                 36");
    push_comment_line(&mut out, "    \"Family\":                37");
    push_comment_line(&mut out, "    \"Foreign\":               38");
    push_comment_line(&mut out, "    \"Horror\":                39");
    push_comment_line(&mut out, "    \"Sci-Fi/Fantasy\":        40");
    push_comment_line(&mut out, "    \"Thriller\":              41");
    push_comment_line(&mut out, "    \"Shorts\":                42");
    push_comment_line(&mut out, "    \"Shows\":                 43");
    push_comment_line(&mut out, "    \"Trailers\":              44");
    string_of(&out)
}

/// The document the user edits: the request's structured entries, then the notes.
pub fn build_document(r: &VideoUploadRequest) -> (doc: String)
    ensures
        doc@ == serialized(r@) + notes_text(),
        is_commentary(notes_text()),
{
    let mut out = chars_of(serialize_request(r).as_str());
    let notes = chars_of(commentary().as_str());
    append_chars(&mut out, &notes);
    string_of(&out)
}

proof fn lemma_split(t: Seq<char>, i: int, a: Seq<char>, b: Seq<char>)
    requires
        0 <= i,
        i + a.len() + b.len() <= t.len(),
        t.subrange(i, i + a.len() + b.len()) == a + b,
    ensures
        t.subrange(i, i + a.len()) == a,
        t.subrange(i + a.len(), i + a.len() + b.len()) == b,
{
    assert forall|k: int| 0 <= k < a.len() implies t.subrange(i, i + a.len())[k] == a[k] by {
        assert(t.subrange(i, i + a.len() + b.len())[k] == (a + b)[k]);
    }
    assert forall|k: int| 0 <= k < b.len() implies t.subrange(
        i + a.len(),
        i + a.len() + b.len(),
    )[k] == b[k] by {
        assert(t.subrange(i, i + a.len() + b.len())[a.len() + k] == (a + b)[a.len() + k]);
        assert(t.subrange(i, i + a.len() + b.len())[a.len() + k] == t[i + a.len() + k]);
        assert(t.subrange(i + a.len(), i + a.len() + b.len())[k] == t[i + a.len() + k]);
    }
    assert(t.subrange(i, i + a.len()) =~= a);
    assert(t.subrange(i + a.len(), i + a.len() + b.len()) =~= b);
}

proof fn lemma_at(t: Seq<char>, i: int, a: Seq<char>, k: int)
    requires
        0 <= i,
        i + a.len() <= t.len(),
        t.subrange(i, i + a.len()) == a,
        0 <= k < a.len(),
    ensures
        t[i + k] == a[k],
{
    assert(t.subrange(i, i + a.len())[k] == t[i + k]);
}

proof fn lemma_escaped_no_newline(s: Seq<char>)
    ensures
        forall|k: int| 0 <= k < escaped(s).len() ==> #[trigger] escaped(s)[k] != '\n',
    decreases s.len(),
{
    if s.len() > 0 {
        lemma_escaped_no_newline(s.drop_last());
        let a = escaped(s.drop_last());
        let c = escape_char(s.last());
        assert forall|k: int| 0 <= k < escaped(s).len() implies #[trigger] escaped(s)[k] != '\n' by {
            assert(escaped(s) == a + c);
            if k >= a.len() {
                assert(escaped(s)[k] == c[k - a.len()]);
            } else {
                assert(escaped(s)[k] == a[k]);
            }
        }
    }
}

proof fn lemma_escaped_prepend(c: char, s: Seq<char>)
    ensures
        escaped(seq![c] + s) == escape_char(c) + escaped(s),
    decreases s.len(),
{
    if s.len() == 0 {
        assert(seq![c] + s =~= seq![c]);
        assert(seq![c].drop_last() =~= Seq::<char>::empty());
        assert(escaped(seq![c]) == escaped(Seq::<char>::empty()) + escape_char(c));
        assert(escaped(seq![c] + s) =~= escape_char(c) + escaped(s));
    } else {
        lemma_escaped_prepend(c, s.drop_last());
        assert((seq![c] + s).drop_last() =~= seq![c] + s.drop_last());
        assert((seq![c] + s).last() == s.last());
        assert(escaped(seq![c] + s) =~= escape_char(c) + escaped(s));
    }
}

proof fn lemma_decode(t: Seq<char>, j: int, e: int, acc: Seq<char>, s: Seq<char>)
    requires
        0 <= j,
        j + escaped(s).len() < e <= t.len(),
        t.subrange(j, j + escaped(s).len()) == escaped(s),
        t[j + escaped(s).len()] == '"',
    ensures
        decode(t, j, e, acc) == Some((acc + s, j + escaped(s).len() + 1)),
    decreases s.len(),
{
    if s.len() == 0 {
        assert(acc + s =~= acc);
    } else {
        let c = s[0];
        let rest = s.drop_first();
        assert(s =~= seq![c] + rest);
        lemma_escaped_prepend(c, rest);
        let ec = escape_char(c);
        let er = escaped(rest);
        lemma_split(t, j, ec, er);
        lemma_at(t, j, ec, 0);
        if c == '\\' || c == '"' || c == '\n' {
            lemma_at(t, j, ec, 1);
            lemma_decode(t, j + 2, e, acc.push(c), rest);
            assert(acc.push(c) + rest =~= acc + s);
        } else {
            lemma_decode(t, j + 1, e, acc.push(c), rest);
            assert(acc.push(c) + rest =~= acc + s);
        }
    }
}

proof fn lemma_line_end(t: Seq<char>, i: int, j: int)
    requires
        0 <= i <= j < t.len(),
        t[j] == '\n',
        forall|k: int| i <= k < j ==> t[k] != '\n',
    ensures
        line_end(t, i) == j,
    decreases j - i,
{
    if i < j {
        lemma_line_end(t, i + 1, j);
    }
}

proof fn lemma_find_colon(t: Seq<char>, i: int, k: int, e: int)
    requires
        0 <= i <= k < e <= t.len(),
        t[k] == ':',
        forall|x: int| i <= x < k ==> t[x] != ':',
    ensures
        find_colon(t, i, e) == k,
    decreases k - i,
{
    if i < k {
        lemma_find_colon(t, i + 1, k, e);
    }
}

proof fn lemma_key(id: int)
    requires
        0 <= id <= 5,
    ensures
        key_name(id).len() > 0,
        key_name(id)[0] != '#' && key_name(id)[0] != '-' && key_name(id)[0] != ' ',
        forall|k: int|
            0 <= k < key_name(id).len() ==> #[trigger] key_name(id)[k] != ':' && key_name(id)[k]
                != '\n',
        key_id(key_name(id)) == id,
{
    reveal_strlit("title");
    reveal_strlit("description");
    reveal_strlit("tags");
    reveal_strlit("category");
    reveal_strlit("privacy_status");
    reveal_strlit("publish_at");
    if id == 0 {
        assert(key_name(id) =~= seq!['t', 'i', 't', 'l', 'e']);
    } else if id == 1 {
        assert(key_name(id) =~= seq!['d', 'e', 's', 'c', 'r', 'i', 'p', 't', 'i', 'o', 'n']);
    } else if id == 2 {
        assert(key_name(id) =~= seq!['t', 'a', 'g', 's']);
    } else if id == 3 {
        assert(key_name(id) =~= seq!['c', 'a', 't', 'e', 'g', 'o', 'r', 'y']);
    } else if id == 4 {
        assert(key_name(id) =~= seq![
            'p', 'r', 'i', 'v', 'a', 'c', 'y', '_', 's', 't', 'a', 't', 'u', 's',
        ]);
    } else {
        assert(key_name(id) =~= seq!['p', 'u', 'b', 'l', 'i', 's', 'h', '_', 'a', 't']);
    }
}

proof fn lemma_field_step(t: Seq<char>, i: int, id: int, v: Seq<char>, d: DraftView)
    requires
        0 <= id <= 5,
        id != 2,
        !is_set(d, id),
        0 <= i,
        i + field_line(key_name(id), v).len() <= t.len(),
        t.subrange(i, i + field_line(key_name(id), v).len()) == field_line(key_name(id), v),
    ensures
        step(t, i, d) == Ok::<(DraftView, int), Seq<char>>(
            (with_field(d, id, v), i + field_line(key_name(id), v).len()),
        ),
{
    reveal(step);
    let key = key_name(id);
    let ev = escaped(v);
    let line = field_line(key, v);
    reveal_strlit(": ");
    lemma_key(id);
    lemma_escaped_no_newline(v);
    let kl = key.len() as int;
    let el = ev.len() as int;
    assert(line =~= key + seq![':', ' ', '"'] + ev + seq!['"', '\n']);
    let e = i + kl + el + 4;
    assert forall|x: int| 0 <= x < line.len() implies t[i + x] == #[trigger] line[x] by {
        lemma_at(t, i, line, x);
    }
    assert(t[i + kl] == line[kl]);
    assert(t[i + kl + 1] == line[kl + 1]);
    assert(t[i + kl + 2] == line[kl + 2]);
    assert(t[e - 1] == line[kl + el + 3]);
    assert(t[e] == line[kl + el + 4]);
    assert(t[i] == line[0]);
    assert forall|x: int| i <= x < e implies t[x] != '\n' by {
        assert(t[i + (x - i)] == line[x - i]);
        if x - i < kl {
            assert(line[x - i] == key[x - i]);
        } else if x - i >= kl + 3 && x - i < kl + 3 + el {
            assert(line[x - i] == ev[x - i - kl - 3]);
        }
    }
    lemma_line_end(t, i, e);
    assert forall|x: int| i <= x < i + kl implies t[x] != ':' by {
        assert(t[i + (x - i)] == line[x - i]);
        assert(line[x - i] == key[x - i]);
    }
    lemma_find_colon(t, i, i + kl, e);
    assert(t.subrange(i, i + kl) =~= key) by {
        assert forall|x: int| 0 <= x < kl implies t.subrange(i, i + kl)[x] == key[x] by {
            assert(t[i + x] == line[x]);
        }
    }
    assert(t.subrange(i + kl + 3, i + kl + 3 + el) =~= ev) by {
        assert forall|x: int| 0 <= x < el implies t.subrange(i + kl + 3, i + kl + 3 + el)[x]
            == ev[x] by {
            assert(t[i + (kl + 3 + x)] == line[kl + 3 + x]);
        }
    }
    lemma_decode(t, i + kl + 3, e, Seq::empty(), v);
    assert(Seq::<char>::empty() + v =~= v);
    assert(skip_spaces(t, i + kl + 2, e) == i + kl + 2);
    assert(skip_spaces(t, i + kl + 1, e) == i + kl + 2);
    assert(skip_spaces(t, e, e) == e);
    assert(scalar(t, i + kl + 1, e) == Some(v));
    assert(key_id(t.subrange(i, i + kl)) == id);
    assert(line_end(t, i) == e);
    assert(e != i && t[i] != '#' && t[i] != '-' && t[i] != ' ');
    assert(skip_spaces(t, i, e) == i);
    assert(find_colon(t, i, e) == i + kl);
    assert(line.len() == e + 1 - i);
}

proof fn lemma_tags_header_step(t: Seq<char>, i: int, d: DraftView, empty_list: bool)
    requires
        !is_set(d, 2),
        0 <= i,
        i + tags_block(Seq::empty()).len() <= t.len() || !empty_list,
        empty_list ==> t.subrange(i, i + 9) == "tags: []\n"@,
        !empty_list ==> i + 6 <= t.len() && t.subrange(i, i + 6) == "tags:\n"@,
    ensures
        empty_list ==> step(t, i, d) == Ok::<(DraftView, int), Seq<char>>(
            (DraftView { tags: Some(Seq::empty()), in_tags: false, in_other: false, ..d }, i + 9),
        ),
        !empty_list ==> step(t, i, d) == Ok::<(DraftView, int), Seq<char>>(
            (DraftView { tags: Some(Seq::empty()), in_tags: true, in_other: false, ..d }, i + 6),
        ),
{
    reveal(step);
    reveal_strlit("tags: []\n");
    reveal_strlit("tags:\n");
    reveal_strlit("tags");
    lemma_key(2);
    if empty_list {
        let line = "tags: []\n"@;
        assert forall|x: int| 0 <= x < 9 implies t[i + x] == #[trigger] line[x] by {
            lemma_at(t, i, line, x);
        }
        assert(t[i] == line[0] && t[i + 1] == line[1] && t[i + 2] == line[2] && t[i + 3]
            == line[3] && t[i + 4] == line[4] && t[i + 5] == line[5] && t[i + 6] == line[6]
            && t[i + 7] == line[7] && t[i + 8] == line[8]);
        lemma_line_end(t, i, i + 8);
        assert(skip_spaces(t, i, i + 8) == i);
        assert(skip_spaces(t, i + 7, i + 8) == i + 7);
        assert(flow_list(t, i + 7, i + 8, Seq::empty()) == Some((Seq::<Seq<char>>::empty(), i + 8)));
        lemma_find_colon(t, i, i + 4, i + 8);
        assert(t.subrange(i, i + 4) =~= key_name(2));
        assert(skip_spaces(t, i + 6, i + 8) == i + 6);
        assert(skip_spaces(t, i + 5, i + 8) == i + 6);
        assert(skip_spaces(t, i + 8, i + 8) == i + 8);
    } else {
        let line = "tags:\n"@;
        assert forall|x: int| 0 <= x < 6 implies t[i + x] == #[trigger] line[x] by {
            lemma_at(t, i, line, x);
        }
        assert(t[i] == line[0] && t[i + 1] == line[1] && t[i + 2] == line[2] && t[i + 3]
            == line[3] && t[i + 4] == line[4] && t[i + 5] == line[5]);
        lemma_line_end(t, i, i + 5);
        assert(skip_spaces(t, i, i + 5) == i);
        lemma_find_colon(t, i, i + 4, i + 5);
        assert(t.subrange(i, i + 4) =~= key_name(2));
        assert(skip_spaces(t, i + 5, i + 5) == i + 5);
    }
}

proof fn lemma_tag_item_step(t: Seq<char>, i: int, v: Seq<char>, d: DraftView)
    requires
        d.in_tags,
        d.tags is Some,
        0 <= i,
        i + ("- "@ + quoted(v) + seq!['\n']).len() <= t.len(),
        t.subrange(i, i + ("- "@ + quoted(v) + seq!['\n']).len()) == "- "@ + quoted(v) + seq![
            '\n',
        ],
    ensures
        step(t, i, d) == Ok::<(DraftView, int), Seq<char>>(
            (
                DraftView { tags: Some(d.tags->0.push(v)), ..d },
                i + ("- "@ + quoted(v) + seq!['\n']).len(),
            ),
        ),
{
    reveal(step);
    reveal_strlit("- ");
    let ev = escaped(v);
    let line = "- "@ + quoted(v) + seq!['\n'];
    lemma_escaped_no_newline(v);
    let el = ev.len() as int;
    assert(line =~= seq!['-', ' ', '"'] + ev + seq!['"', '\n']);
    let e = i + el + 4;
    assert forall|x: int| 0 <= x < line.len() implies t[i + x] == #[trigger] line[x] by {
        lemma_at(t, i, line, x);
    }
    assert(t[i] == line[0] && t[i + 1] == line[1] && t[i + 2] == line[2]);
    assert(t[e - 1] == line[el + 3]);
    assert(t[e] == line[el + 4]);
    assert forall|x: int| i <= x < e implies t[x] != '\n' by {
        assert(t[i + (x - i)] == line[x - i]);
        if x - i >= 3 && x - i < 3 + el {
            assert(line[x - i] == ev[x - i - 3]);
        }
    }
    lemma_line_end(t, i, e);
    assert(t.subrange(i + 3, i + 3 + el) =~= ev) by {
        assert forall|x: int| 0 <= x < el implies t.subrange(i + 3, i + 3 + el)[x] == ev[x] by {
            assert(t[i + (3 + x)] == line[3 + x]);
        }
    }
    lemma_decode(t, i + 3, e, Seq::empty(), v);
    assert(Seq::<char>::empty() + v =~= v);
    assert(skip_spaces(t, i + 2, e) == i + 2);
    assert(skip_spaces(t, e, e) == e);
    assert(scalar(t, i + 2, e) == Some(v));
}

proof fn lemma_tag_lines(t: Seq<char>, i: int, tags: Seq<Seq<char>>, d: DraftView)
    requires
        d.in_tags,
        d.tags is Some,
        0 <= i,
        i + tag_lines(tags).len() < t.len(),
        t.subrange(i, i + tag_lines(tags).len()) == tag_lines(tags),
    ensures
        parse_from(t, i, d) == parse_from(
            t,
            i + tag_lines(tags).len(),
            DraftView { tags: Some(d.tags->0 + tags), ..d },
        ),
    decreases tags.len(),
{
    if tags.len() == 0 {
        assert(d.tags->0 + tags =~= d.tags->0);
        assert(DraftView { tags: Some(d.tags->0 + tags), ..d } == d);
    } else {
        let front = tag_lines(tags.drop_last());
        let last = "- "@ + quoted(tags.last()) + seq!['\n'];
        assert(tag_lines(tags) == front + last);
        lemma_split(t, i, front, last);
        lemma_tag_lines(t, i, tags.drop_last(), d);
        let d1 = DraftView { tags: Some(d.tags->0 + tags.drop_last()), ..d };
        let m = i + front.len();
        lemma_tag_item_step(t, m, tags.last(), d1);
        assert(d.tags->0 + tags.drop_last() + seq![tags.last()] =~= d.tags->0 + tags);
        assert((d.tags->0 + tags.drop_last()).push(tags.last()) =~= d.tags->0 + tags);
    }
}

proof fn lemma_line_end_bounds(t: Seq<char>, i: int)
    requires
        0 <= i <= t.len(),
    ensures
        i <= line_end(t, i) <= t.len(),
        line_end(t, i) < t.len() ==> t[line_end(t, i)] == '\n',
    decreases t.len() - i,
{
    if i < t.len() && t[i] != '\n' {
        lemma_line_end_bounds(t, i + 1);
    }
}

proof fn lemma_commentary_parse(t: Seq<char>, i: int, d: DraftView)
    requires
        0 <= i <= t.len(),
        forall|j: int|
            i <= j < t.len() && (j == i || t[j - 1] == '\n') ==> (#[trigger] t[j] == '\n' || t[j]
                == '#'),
    ensures
        parse_from(t, i, d) == Ok::<DraftView, Seq<char>>(d),
    decreases t.len() - i,
{
    if i < t.len() {
        lemma_line_end_bounds(t, i);
        let e = line_end(t, i);
        assert(t[i] == '\n' || t[i] == '#');
        if t[i] == '\n' {
            assert(e == i);
        }
        reveal(step);
        assert(step(t, i, d) == Ok::<(DraftView, int), Seq<char>>((d, e + 1)));
        if e + 1 < t.len() {
            assert(t[e] == '\n');
            assert forall|j: int|
                e + 1 <= j < t.len() && (j == e + 1 || t[j - 1] == '\n') implies (#[trigger] t[j]
                == '\n' || t[j] == '#') by {
                assert(j - 1 == e ==> t[j - 1] == '\n');
            }
            lemma_commentary_parse(t, e + 1, d);
        }
    }
}

proof fn lemma_advance(t: Seq<char>, i: int, d: DraftView, d2: DraftView, n: int)
    requires
        0 <= i < n < t.len(),
        step(t, i, d) == Ok::<(DraftView, int), Seq<char>>((d2, n)),
    ensures
        parse_from(t, i, d) == parse_from(t, n, d2),
{
}

/// Reading back the text of a request, followed by any notes whose lines are
/// blank or start with `#`, gives the request itself.
pub proof fn lemma_round_trip(r: RequestView, c: Seq<char>)
    requires
        is_commentary(c),
    ensures
        parse_document(serialized(r) + c) == Ok::<RequestView, Seq<char>>(r),
{
    reveal_strlit(": ");
    reveal_strlit("tags: []\n");
    reveal_strlit("tags:\n");
    let p0 = field_line(key_name(0), r.title);
    let p1 = field_line(key_name(1), r.description);
    let p2 = tags_block(r.tags);
    let p3 = field_line(key_name(3), r.category);
    let p4 = field_line(key_name(4), r.privacy_status);
    let p5 = field_line(key_name(5), r.publish_at);
    let ser = serialized(r);
    assert(ser == p0 + p1 + p2 + p3 + p4 + p5);
    let t = ser + c;
    let a1 = p0.len() as int;
    let a2 = a1 + p1.len();
    let a3 = a2 + p2.len();
    let a4 = a3 + p3.len();
    let a5 = a4 + p4.len();
    let a6 = a5 + p5.len();
    assert(t.subrange(0, t.len() as int) =~= ser + c);
    lemma_split(t, 0, ser, c);
    lemma_split(t, 0, p0 + p1 + p2 + p3 + p4, p5);
    lemma_split(t, 0, p0 + p1 + p2 + p3, p4);
    lemma_split(t, 0, p0 + p1 + p2, p3);
    lemma_split(t, 0, p0 + p1, p2);
    lemma_split(t, 0, p0, p1);
    assert(p3.len() > 0 && p4.len() > 0 && p5.len() > 0);

    let d0 = empty_draft();
    lemma_field_step(t, 0, 0, r.title, d0);
    let d1 = with_field(d0, 0, r.title);
    lemma_advance(t, 0, d0, d1, a1);
    lemma_field_step(t, a1, 1, r.description, d1);
    let d2 = with_field(d1, 1, r.description);
    lemma_advance(t, a1, d1, d2, a2);
    let d4 = DraftView {
        title: Some(r.title),
        description: Some(r.description),
        tags: Some(r.tags),
        category: Some(r.category),
        privacy_status: None,
        publish_at: None,
        in_tags: false,
        in_other: false,
    };
    if r.tags.len() == 0 {
        lemma_tags_header_step(t, a2, d2, true);
        let d3 = DraftView { tags: Some(Seq::empty()), in_tags: false, in_other: false, ..d2 };
        lemma_advance(t, a2, d2, d3, a3);
        lemma_field_step(t, a3, 3, r.category, d3);
        assert(r.tags =~= Seq::<Seq<char>>::empty());
        assert(with_field(d3, 3, r.category) == d4);
        lemma_advance(t, a3, d3, d4, a4);
    } else {
        let tl = tag_lines(r.tags);
        assert(p2 == "tags:\n"@ + tl);
        lemma_split(t, a2, "tags:\n"@, tl);
        lemma_tags_header_step(t, a2, d2, false);
        let d3a = DraftView { tags: Some(Seq::empty()), in_tags: true, in_other: false, ..d2 };
        lemma_advance(t, a2, d2, d3a, a2 + 6);
        lemma_tag_lines(t, a2 + 6, r.tags, d3a);
        let d3 = DraftView { tags: Some(Seq::<Seq<char>>::empty() + r.tags), ..d3a };
        assert(parse_from(t, a2 + 6, d3a) == parse_from(t, a3, d3));
        lemma_field_step(t, a3, 3, r.category, d3);
        assert(Seq::<Seq<char>>::empty() + r.tags =~= r.tags);
        assert(with_field(d3, 3, r.category) == d4);
        lemma_advance(t, a3, d3, d4, a4);
    }
    lemma_field_step(t, a4, 4, r.privacy_status, d4);
    let d5 = with_field(d4, 4, r.privacy_status);
    lemma_advance(t, a4, d4, d5, a5);
    lemma_field_step(t, a5, 5, r.publish_at, d5);
    let d6 = with_field(d5, 5, r.publish_at);
    assert forall|j: int|
        a6 <= j < t.len() && (j == a6 || t[j - 1] == '\n') implies (#[trigger] t[j] == '\n' || t[j]
        == '#') by {
        lemma_at(t, a6, c, j - a6);
        if j > a6 {
            lemma_at(t, a6, c, j - 1 - a6);
        }
    }
    lemma_commentary_parse(t, a6, d6);
    assert(parse_from(t, a5, d5) == Ok::<DraftView, Seq<char>>(d6));
    assert(finish(d6) == Ok::<RequestView, Seq<char>>(r));
}

proof fn lemma_commentary_extend(a: Seq<char>, x: Seq<char>)
    requires
        is_commentary(a),
        a.len() == 0 || a.last() == '\n',
    ensures
        is_commentary(a + comment_line(x)),
        (a + comment_line(x)).last() == '\n',
{
    let cl = comment_line(x);
    let o = a + cl;
    assert(cl =~= seq!['#', ' '] + no_breaks(x) + seq!['\n']);
    assert forall|j: int| 0 <= j < o.len() && (j == 0 || o[j - 1] == '\n') implies (#[trigger] o[j]
        == '\n' || o[j] == '#') by {
        if j < a.len() {
            assert(o[j] == a[j]);
            if j > 0 {
                assert(o[j - 1] == a[j - 1]);
            }
        } else if j == a.len() {
            assert(o[j] == cl[0]);
        } else {
            let k = j - 1 - a.len();
            assert(o[j - 1] == cl[k]);
            if k >= 2 {
                assert(cl[k] == no_breaks(x)[k - 2]);
            }
        }
    }
}

/// The notes are commentary: each of their lines is blank or starts with `#`.
pub proof fn lemma_notes_are_commentary()
    ensures
        is_commentary(notes_text()),
{
    let s0 = seq!['\n'];
    assert(is_commentary(s0));
    lemma_commentary_extend(s0, "ytup - YouTube Uploader"@);
    let s1 = s0 + comment_line("ytup - YouTube Uploader"@);
    lemma_commentary_extend(s1, "* Edit the video details above, then save and close the editor"@);
    let s2 = s1 + comment_line("* Edit the video details above, then save and close the editor"@);
    lemma_commentary_extend(s2, "* Leave `publish_at` empty to avoid scheduling the video"@);
    let s3 = s2 + comment_line("* Leave `publish_at` empty to avoid scheduling the video"@);
    lemma_commentary_extend(s3, "* Use the mapping below to set the `category` field"@);
    let s4 = s3 + comment_line("* Use the mapping below to set the `category` field"@);
    lemma_commentary_extend(s4, ""@);
    let s5 = s4 + comment_line(""@);
    lemma_commentary_extend(s5, "    \"Film & Animation\":      1"@);
    let s6 = s5 + comment_line("    \"Film & Animation\":      1"@);
    lemma_commentary_extend(s6, "    \"Autos & Vehicles\":      2"@);
    let s7 = s6 + comment_line("    \"Autos & Vehicles\":      2"@);
    lemma_commentary_extend(s7, "    \"Music\":                 10"@);
    let s8 = s7 + comment_line("    \"Music\":                 10"@);
    lemma_commentary_extend(s8, "    \"Pets & Animals\":        15"@);
    let s9 = s8 + comment_line("    \"Pets & Animals\":        15"@);
    lemma_commentary_extend(s9, "    \"Sports\":                17"@);
    let s10 = s9 + comment_line("    \"Sports\":                17"@);
    lemma_commentary_extend(s10, "    \"Short Movies\":          18"@);
    let s11 = s10 + comment_line("    \"Short Movies\":          18"@);
    lemma_commentary_extend(s11, "    \"Travel & Events\":       19"@);
    let s12 = s11 + comment_line("    \"Travel & Events\":       19"@);
    lemma_commentary_extend(s12, "    \"Gaming\":                20"@);
    let s13 = s12 + comment_line("    \"Gaming\":                20"@);
    lemma_commentary_extend(s13, "    \"Videoblogging\":         21"@);
    let s14 = s13 + comment_line("    \"Videoblogging\":         21"@);
    lemma_commentary_extend(s14, "    \"People & Blogs\":        22"@);
    let s15 = s14 + comment_line("    \"People & Blogs\":        22"@);
    lemma_commentary_extend(s15, "    \"Comedy\":                23"@);
    let s16 = s15 + comment_line("    \"Comedy\":                23"@);
    lemma_commentary_extend(s16, "    \"Entertainment\":         24"@);
    let s17 = s16 + comment_line("    \"Entertainment\":         24"@);
    lemma_commentary_extend(s17, "    \"News & Politics\":       25"@);
    let s18 = s17 + comment_line("    \"News & Politics\":       25"@);
    lemma_commentary_extend(s18, "    \"Howto & Style\":         26"@);
    let s19 = s18 + comment_line("    \"Howto & Style\":         26"@);
    lemma_commentary_extend(s19, "    \"Education\":             27"@);
    let s20 = s19 + comment_line("    \"Education\":             27"@);
    lemma_commentary_extend(s20, "    \"Science & Technology\":  28"@);
    let s21 = s20 + comment_line("    \"Science & Technology\":  28"@);
    lemma_commentary_extend(s21, "    \"Nonprofits & Activism\": 29"@);
    let s22 = s21 + comment_line("    \"Nonprofits & Activism\": 29"@);
    lemma_commentary_extend(s22, "    \"Movies\":                30"@);
    let s23 = s22 + comment_line("    \"Movies\":                30"@);
    lemma_commentary_extend(s23, "    \"Anime/Animation\":       31"@);
    let s24 = s23 + comment_line("    \"Anime/Animation\":       31"@);
    lemma_commentary_extend(s24, "    \"Action/Adventure\":      32"@);
    let s25 = s24 + comment_line("    \"Action/Adventure\":      32"@);
    lemma_commentary_extend(s25, "    \"Classics\":              33"@);
    let s26 = s25 + comment_line("    \"Classics\":              33"@);
    lemma_commentary_extend(s26, "    \"Documentary\":           35"@);
    let s27 = s26 + comment_line("    \"Documentary\":           35"@);
    lemma_commentary_extend(s27, "    \"Drama\":                 36"@);
    let s28 = s27 + comment_line("    \"Drama\":                 36"@);
    lemma_commentary_extend(s28, "    \"Family\":                37"@);
    let s29 = s28 + comment_line("    \"Family\":                37"@);
    lemma_commentary_extend(s29, "    \"Foreign\":               38"@);
    let s30 = s29 + comment_line("    \"Foreign\":               38"@);
    lemma_commentary_extend(s30, "    \"Horror\":                39"@);
    let s31 = s30 + comment_line("    \"Horror\":                39"@);
    lemma_commentary_extend(s31, "    \"Sci-Fi/Fantasy\":        40"@);
    let s32 = s31 + comment_line("    \"Sci-Fi/Fantasy\":        40"@);
    lemma_commentary_extend(s32, "    \"Thriller\":              41"@);
    let s33 = s32 + comment_line("    \"Thriller\":              41"@);
    lemma_commentary_extend(s33, "    \"Shorts\":                42"@);
    let s34 = s33 + comment_line("    \"Shorts\":                42"@);
    lemma_commentary_extend(s34, "    \"Shows\":                 43"@);
    let s35 = s34 + comment_line("    \"Shows\":                 43"@);
    lemma_commentary_extend(s35, "    \"Trailers\":              44"@);
    let s36 = s35 + comment_line("    \"Trailers\":              44"@);
    assert(s36 == notes_text());
}

/// A document that the user leaves unchanged reads back as the request it was
/// built from.
pub proof fn lemma_unedited_document(r: RequestView)
    ensures
        parse_document(serialized(r) + notes_text()) == Ok::<RequestView, Seq<char>>(r),
{
    lemma_notes_are_commentary();
    lemma_round_trip(r, notes_text());
}

} // verus!
