//! Scrollback layout engine: pure arithmetic from message bodies and a
//! viewport size to a total content height and a clamped scroll offset.
//!
//! A body is split on explicit line breaks — `'\n'`, or `'\r'` directly
//! followed by `'\n'` — into raw lines; a raw line of `len` characters
//! occupies `1 + len / width` display rows (a line of exactly `width`
//! characters deliberately counts one overflow row, matching the client's
//! historical behaviour). A trailing break opens no empty raw line; a `'\r'`
//! not followed by `'\n'` is an ordinary character.

use vstd::prelude::*;
use crate::util::{cap_usize, chars_of, lemma_cap_add, sat_add, string_from_chars};
use crate::turn::{DisplayMessage, DisplayModel};

verus! {

/// Display rows of the unread part `s` of a body, given that the raw line in
/// progress already holds `cur` characters.
pub open spec fn wrap_rows_from(s: Seq<char>, width: int, cur: int) -> int
    decreases s.len(),
{
    if s.len() == 0 {
        if cur > 0 {
            1 + cur / width
        } else {
            0
        }
    } else if s[0] == '\n' {
        1 + cur / width + wrap_rows_from(s.skip(1), width, 0)
    } else if s[0] == '\r' && s.len() >= 2 && s[1] == '\n' {
        1 + cur / width + wrap_rows_from(s.skip(2), width, 0)
    } else {
        wrap_rows_from(s.skip(1), width, cur + 1)
    }
}

/// Display rows of a whole body at `width` columns.
pub open spec fn wrap_rows(s: Seq<char>, width: int) -> int {
    wrap_rows_from(s, width, 0)
}

pub proof fn lemma_wrap_rows_from_nonneg(s: Seq<char>, width: int, cur: int)
    requires
        width >= 1,
        cur >= 0,
    ensures
        wrap_rows_from(s, width, cur) >= 0,
    decreases s.len(),
{
    if s.len() == 0 {
    } else if s[0] == '\n' {
        lemma_wrap_rows_from_nonneg(s.skip(1), width, 0);
    } else if s[0] == '\r' && s.len() >= 2 && s[1] == '\n' {
        lemma_wrap_rows_from_nonneg(s.skip(2), width, 0);
    } else {
        lemma_wrap_rows_from_nonneg(s.skip(1), width, cur + 1);
    }
}

/// A body without embedded breaks occupies `1 + len / width` rows: its one
/// raw line plus `len / width` overflow rows.
pub proof fn lemma_wrap_single_line(s: Seq<char>, width: int)
    requires
        width >= 1,
        s.len() > 0,
        forall|i: int| 0 <= i < s.len() ==> s[i] != '\n',
    ensures
        wrap_rows(s, width) == 1 + s.len() as int / width,
{
    lemma_wrap_from_single_line(s, width, 0);
}

proof fn lemma_wrap_from_single_line(s: Seq<char>, width: int, cur: int)
    requires
        width >= 1,
        cur >= 0,
        cur + s.len() > 0,
        forall|i: int| 0 <= i < s.len() ==> s[i] != '\n',
    ensures
        wrap_rows_from(s, width, cur) == 1 + (cur + s.len()) / width,
    decreases s.len(),
{
    if s.len() == 0 {
    } else {
        assert(s[0] != '\n');
        lemma_wrap_from_single_line(s.skip(1), width, cur + 1);
    }
}

/// Number of display rows `body` occupies at `width` columns, clipped to
/// `usize`.
pub fn wrapped_line_count(body: &str, width: u16) -> (r: usize)
    requires
        width >= 1,
    ensures
        r as int == cap_usize(wrap_rows(body@, width as int)),
{
    let chars = chars_of(body);
    let n = chars.len();
    let w = width as usize;
    let mut total: usize = 0;
    let ghost mut exact: int = 0;
    let mut cur: usize = 0;
    let mut i: usize = 0;
    proof {
        lemma_wrap_rows_from_nonneg(chars@, width as int, 0);
        assert(chars@.skip(0) =~= chars@);
    }
    while i < n
        invariant
            i <= n,
            n == chars.len(),
            chars@ == body@,
            w == width as usize,
            width >= 1,
            cur <= i,
            exact >= 0,
            total as int == cap_usize(exact),
            wrap_rows(body@, width as int) == exact + wrap_rows_from(
                chars@.skip(i as int),
                width as int,
                cur as int,
            ),
        decreases n - i,
    {
        proof {
            assert(chars@.skip(i as int)[0] == chars@[i as int]);
            assert(chars@.skip(i as int).skip(1) =~= chars@.skip(i as int + 1));
            if i + 1 < n {
                assert(chars@.skip(i as int)[1] == chars@[i as int + 1]);
                assert(chars@.skip(i as int).skip(2) =~= chars@.skip(i as int + 2));
            }
        }
        let c = chars[i];
        if c == '\n' {
            let add: usize = sat_add(1, cur / w);
            proof {
                exact = exact + 1 + cur as int / width as int;
                lemma_wrap_rows_from_nonneg(chars@.skip(i as int + 1), width as int, 0);
            }
            total = sat_add(total, add);
            cur = 0;
            i = i + 1;
        } else if c == '\r' && i + 1 < n && chars[i + 1] == '\n' {
            let add: usize = sat_add(1, cur / w);
            proof {
                exact = exact + 1 + cur as int / width as int;
                lemma_wrap_rows_from_nonneg(chars@.skip(i as int + 2), width as int, 0);
            }
            total = sat_add(total, add);
            cur = 0;
            i = i + 2;
        } else {
            cur = cur + 1;
            i = i + 1;
        }
    }
    proof {
        assert(chars@.skip(n as int) =~= Seq::<char>::empty());
    }
    if cur > 0 {
        let add: usize = sat_add(1, cur / w);
        total = sat_add(total, add);
    }
    total
}

impl DisplayMessage {
    /// Display rows the body of this message occupies, separator and sender
    /// label not counted.
    pub fn get_body_lines(&self, width: u16) -> (r: usize)
        requires
            width >= 1,
        ensures
            r as int == cap_usize(wrap_rows(self@.body, width as int)),
    {
        wrapped_line_count(self.body.as_str(), width)
    }
}

/// Display rows one rendered message occupies: a separator rule and a sender
/// label above the wrapped body.
pub open spec fn message_rows(m: DisplayModel, width: int) -> int {
    2 + wrap_rows(m.body, width)
}

/// Display rows a rendered transcript occupies.
pub open spec fn total_rows(msgs: Seq<DisplayModel>, width: int) -> int
    decreases msgs.len(),
{
    if msgs.len() == 0 {
        0
    } else {
        message_rows(msgs[0], width) + total_rows(msgs.skip(1), width)
    }
}

/// The views of the messages in `msgs`, in order.
pub open spec fn views_of(msgs: Seq<DisplayMessage>) -> Seq<DisplayModel> {
    msgs.map_values(|m: DisplayMessage| m@)
}

pub proof fn lemma_total_rows_nonneg(msgs: Seq<DisplayModel>, width: int)
    requires
        width >= 1,
    ensures
        total_rows(msgs, width) >= 0,
    decreases msgs.len(),
{
    if msgs.len() > 0 {
        lemma_wrap_rows_from_nonneg(msgs[0].body, width, 0);
        lemma_total_rows_nonneg(msgs.skip(1), width);
    }
}

/// Total content height of the rendered transcript at `width` columns,
/// clipped to `usize`.
pub fn total_height(msgs: &Vec<DisplayMessage>, width: u16) -> (r: usize)
    requires
        width >= 1,
    ensures
        r as int == cap_usize(total_rows(views_of(msgs@), width as int)),
{
    let ghost all = views_of(msgs@);
    let mut total: usize = 0;
    let ghost mut exact: int = 0;
    let mut i: usize = 0;
    proof {
        assert(all.skip(0) =~= all);
    }
    while i < msgs.len()
        invariant
            i <= msgs.len(),
            width >= 1,
            all == views_of(msgs@),
            all.len() == msgs.len(),
            exact >= 0,
            total as int == cap_usize(exact),
            total_rows(all, width as int) == exact + total_rows(
                all.skip(i as int),
                width as int,
            ),
        decreases msgs.len() - i,
    {
        proof {
            assert(all.skip(i as int)[0] == all[i as int]);
            assert(all.skip(i as int).skip(1) =~= all.skip(i as int + 1));
            assert(all[i as int] == msgs@[i as int]@);
            lemma_wrap_rows_from_nonneg(all[i as int].body, width as int, 0);
            lemma_total_rows_nonneg(all.skip(i as int + 1), width as int);
        }
        let body_rows = wrapped_line_count(msgs[i].body.as_str(), width);
        let add = sat_add(2, body_rows);
        proof {
            lemma_cap_add(2, wrap_rows(all[i as int].body, width as int));
            lemma_cap_add(exact, message_rows(all[i as int], width as int));
            exact = exact + message_rows(all[i as int], width as int);
        }
        total = sat_add(total, add);
        i = i + 1;
    }
    proof {
        assert(all.skip(msgs@.len() as int) =~= Seq::<DisplayModel>::empty());
    }
    total
}

// ---------------------------------------------------------------------------
// Render-ready lines
// ---------------------------------------------------------------------------
/// The raw lines of a body: a full split on `'\n'`, an empty body giving one
/// empty line. `cur` is the line being gathered.
pub open spec fn split_lines_from(s: Seq<char>, cur: Seq<char>) -> Seq<Seq<char>>
    decreases s.len(),
{
    if s.len() == 0 {
        seq![cur]
    } else if s[0] == '\n' {
        seq![cur] + split_lines_from(s.skip(1), Seq::empty())
    } else {
        split_lines_from(s.skip(1), cur.push(s[0]))
    }
}

pub open spec fn split_lines(s: Seq<char>) -> Seq<Seq<char>> {
    split_lines_from(s, Seq::empty())
}

/// The horizontal rule drawn above each message: one `─` per column.
pub open spec fn rule_of(width: int) -> Seq<char> {
    Seq::new(width as nat, |i: int| '─')
}

/// The label line above a message's body.
pub open spec fn sender_line(sender: Seq<char>) -> Seq<char> {
    sender + ":"@
}

/// The display lines of one message: rule, sender label, body lines.
pub open spec fn message_lines(m: DisplayModel, width: int) -> Seq<Seq<char>> {
    seq![rule_of(width)] + seq![sender_line(m.sender)] + split_lines(m.body)
}

/// The display lines of a whole transcript, in order.
pub open spec fn render_lines(msgs: Seq<DisplayModel>, width: int) -> Seq<Seq<char>>
    decreases msgs.len(),
{
    if msgs.len() == 0 {
        Seq::empty()
    } else {
        message_lines(msgs[0], width) + render_lines(msgs.skip(1), width)
    }
}

/// The views of the strings in `ss`, in order.
pub open spec fn string_views(ss: Seq<String>) -> Seq<Seq<char>> {
    ss.map_values(|s: String| s@)
}

proof fn lemma_render_lines_push(msgs: Seq<DisplayModel>, m: DisplayModel, width: int)
    ensures
        render_lines(msgs.push(m), width) == render_lines(msgs, width) + message_lines(m, width),
    decreases msgs.len(),
{
    let p = msgs.push(m);
    assert(p.len() > 0);
    assert(p[0] == if msgs.len() == 0 {
        m
    } else {
        msgs[0]
    });
    assert(render_lines(p, width) == message_lines(p[0], width) + render_lines(
        p.skip(1),
        width,
    ));
    if msgs.len() == 0 {
        assert(p.skip(1) =~= Seq::<DisplayModel>::empty());
        assert(render_lines(p.skip(1), width) == Seq::<Seq<char>>::empty());
        assert(render_lines(p, width) =~~= render_lines(msgs, width) + message_lines(m, width));
    } else {
        assert(p.skip(1) =~= msgs.skip(1).push(m));
        lemma_render_lines_push(msgs.skip(1), m, width);
        assert(render_lines(p, width) =~~= render_lines(msgs, width) + message_lines(m, width));
    }
}

/// The rule drawn above each message, as text.
pub fn rule_line(width: u16) -> (r: String)
    ensures
        r@ == rule_of(width as int),
{
    let mut out: Vec<char> = Vec::new();
    let w = width as usize;
    let mut i: usize = 0;
    while i < w
        invariant
            i <= w,
            out@ =~= Seq::new(i as nat, |j: int| '─'),
        decreases w - i,
    {
        out.push('─');
        i = i + 1;
        proof {
            assert(out@ =~= Seq::new(i as nat, |j: int| '─'));
        }
    }
    proof {
        assert(out@ =~= rule_of(width as int));
    }
    string_from_chars(&out)
}

/// The raw lines of a body, split on explicit breaks.
pub fn split_body_lines(body: &str) -> (r: Vec<String>)
    ensures
        string_views(r@) == split_lines(body@),
{
    let chars = chars_of(body);
    let n = chars.len();
    let mut out: Vec<String> = Vec::new();
    let mut cur: Vec<char> = Vec::new();
    let mut i: usize = 0;
    proof {
        assert(chars@.skip(0) =~= chars@);
        assert(string_views(out@) + split_lines_from(chars@.skip(0), cur@) =~= split_lines(
            body@,
        ));
    }
    while i < n
        invariant
            i <= n,
            n == chars@.len(),
            chars@ == body@,
            split_lines(body@) == string_views(out@) + split_lines_from(
                chars@.skip(i as int),
                cur@,
            ),
        decreases n - i,
    {
        proof {
            assert(chars@.skip(i as int)[0] == chars@[i as int]);
            assert(chars@.skip(i as int).skip(1) =~= chars@.skip(i as int + 1));
        }
        let c = chars[i];
        if c == '\n' {
            let ghost old_out = out@;
            let ghost old_cur = cur@;
            let line = string_from_chars(&cur);
            out.push(line);
            cur = Vec::new();
            proof {
                assert(cur@ =~= Seq::<char>::empty());
                assert(string_views(out@) =~= string_views(old_out).push(old_cur));
                assert(string_views(out@) + split_lines_from(chars@.skip(i as int + 1), cur@)
                    =~= string_views(old_out) + (seq![old_cur] + split_lines_from(
                    chars@.skip(i as int + 1),
                    Seq::empty(),
                )));
            }
        } else {
            cur.push(c);
        }
        i = i + 1;
    }
    proof {
        assert(chars@.skip(n as int) =~= Seq::<char>::empty());
    }
    let last = string_from_chars(&cur);
    out.push(last);
    proof {
        assert(string_views(out@) =~= split_lines(body@));
    }
    out
}

/// The render-ready lines of the whole transcript: for each message its
/// rule, its sender label, and its body lines.
pub fn render_content(msgs: &Vec<DisplayMessage>, width: u16) -> (r: Vec<String>)
    ensures
        string_views(r@) == render_lines(views_of(msgs@), width as int),
{
    let ghost all = views_of(msgs@);
    let mut out: Vec<String> = Vec::new();
    let mut i: usize = 0;
    proof {
        assert(all.take(0) =~= Seq::<DisplayModel>::empty());
        assert(string_views(out@) =~= render_lines(all.take(0), width as int));
    }
    while i < msgs.len()
        invariant
            i <= msgs@.len(),
            all == views_of(msgs@),
            all.len() == msgs@.len(),
            string_views(out@) == render_lines(all.take(i as int), width as int),
        decreases msgs@.len() - i,
    {
        proof {
            assert(all[i as int] == msgs@[i as int]@);
            assert(all.take(i as int + 1) =~= all.take(i as int).push(all[i as int]));
            lemma_render_lines_push(all.take(i as int), all[i as int], width as int);
        }
        let m = &msgs[i];
        out.push(rule_line(width));
        let mut label = m.sender.clone();
        label.append(":");
        out.push(label);
        let mut body_lines = split_body_lines(m.body.as_str());
        let ghost body_views = string_views(body_lines@);
        let ghost out_before = out@;
        out.append(&mut body_lines);
        proof {
            assert(string_views(out@) =~= string_views(out_before) + body_views);
            assert(string_views(out@) =~= render_lines(all.take(i as int + 1), width as int));
        }
        i = i + 1;
    }
    proof {
        assert(all.take(msgs@.len() as int) =~= all);
    }
    out
}

/// The greatest scroll offset the transcript admits in a viewport of
/// `viewport_height` rows.
pub open spec fn max_offset_of(msgs: Seq<DisplayModel>, width: int, viewport_height: int) -> int {
    let t = cap_usize(total_rows(msgs, width));
    if t > viewport_height {
        t - viewport_height
    } else {
        0
    }
}

/// Re-establishes the scroll invariant after a content or size change:
/// computes the greatest admissible offset and clamps the requested one into
/// `0 ..= max_offset`.
pub fn recompute_scroll(
    msgs: &Vec<DisplayMessage>,
    width: u16,
    viewport_height: usize,
    requested_offset: usize,
) -> (r: (usize, usize))
    requires
        width >= 1,
    ensures
        r.0 as int == max_offset_of(views_of(msgs@), width as int, viewport_height as int),
        r.1 == if requested_offset <= r.0 {
            requested_offset
        } else {
            r.0
        },
        r.1 <= r.0,
{
    let th = total_height(msgs, width);
    let max_offset = if th > viewport_height {
        th - viewport_height
    } else {
        0
    };
    let clamped = if requested_offset <= max_offset {
        requested_offset
    } else {
        max_offset
    };
    (max_offset, clamped)
}

} // verus!
