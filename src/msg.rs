use crate::level::LogLevel;
use crate::time::{zone_ok, Time};
use vstd::prelude::*;
use vstd::std_specs::iter::IteratorSpec;

verus! {

broadcast use vstd::string::group_string_axioms;

/// What a message is: its level, its text, when it was made and where from.
pub struct MessageModel {
    pub level: LogLevel,
    pub body: Seq<char>,
    pub time: Time,
    pub origin: Seq<char>,
}

/// The pieces of `s` between its `'\n'` characters, in order. A text with `n`
/// of them has `n + 1` pieces; the empty text has one, empty, piece.
pub open spec fn raw_lines(s: Seq<char>) -> Seq<Seq<char>>
    decreases s.len(),
{
    if s.len() == 0 {
        seq![Seq::<char>::empty()]
    } else {
        let init = raw_lines(s.drop_last());
        if s.last() == '\n' {
            init.push(Seq::<char>::empty())
        } else {
            init.update(init.len() - 1, init.last().push(s.last()))
        }
    }
}

/// A piece without the `'\r'` that ends it, if one does, so that `"\r\n"`
/// counts as one line break.
pub open spec fn trim_cr(p: Seq<char>) -> Seq<char> {
    if p.len() > 0 && p.last() == '\r' {
        p.drop_last()
    } else {
        p
    }
}

/// The lines of `s`: the pieces between its line breaks (`"\n"` or
/// `"\r\n"`), in order.
pub open spec fn split_lines(s: Seq<char>) -> Seq<Seq<char>> {
    raw_lines(s).map_values(|p: Seq<char>| trim_cr(p))
}

/// The number of line breaks in `s`.
pub open spec fn count_breaks(s: Seq<char>) -> nat
    decreases s.len(),
{
    if s.len() == 0 {
        0
    } else {
        count_breaks(s.drop_last()) + if s.last() == '\n' { 1nat } else { 0nat }
    }
}

/// The one-line text of a message:
/// `<timestamp> <LEVEL>\t[<origin>] <body>`.
pub open spec fn line_text(m: MessageModel) -> Seq<char> {
    m.time.text() + seq![' '] + m.level.spec_label() + seq!['\t', '['] + m.origin + seq![
        ']',
        ' ',
    ] + m.body
}

/// A message that shares level, time and origin with `m` and has the body `body`.
pub open spec fn with_body(m: MessageModel, body: Seq<char>) -> MessageModel {
    MessageModel { body, ..m }
}

/// The messages a message splits into: one per piece of its body.
pub open spec fn split_message(m: MessageModel) -> Seq<MessageModel> {
    split_lines(m.body).map_values(|b: Seq<char>| with_body(m, b))
}

/// A text has no more line breaks than characters.
pub proof fn lemma_count_breaks_bound(s: Seq<char>)
    ensures
        count_breaks(s) <= s.len(),
    decreases s.len(),
{
    if s.len() > 0 {
        lemma_count_breaks_bound(s.drop_last());
    }
}

/// A text without line breaks is its own single piece.
pub proof fn lemma_split_single(s: Seq<char>)
    requires
        !s.contains('\n'),
    ensures
        raw_lines(s) == seq![s],
        split_lines(s).len() == 1,
    decreases s.len(),
{
    if s.len() > 0 {
        let init = s.drop_last();
        assert(!init.contains('\n')) by {
            if init.contains('\n') {
                let p = choose|p: int| 0 <= p < init.len() && init[p] == '\n';
                assert(s[p] == '\n');
            }
        }
        lemma_split_single(init);
        assert(s.last() != '\n') by {
            assert(s[s.len() - 1] == s.last());
        }
        assert(init.push(s.last()) =~= s);
        let pieces = raw_lines(init);
        assert(pieces.last() == init);
        assert(raw_lines(s) == pieces.update(0, init.push(s.last())));
        assert(raw_lines(s) =~= seq![s]);
    } else {
        assert(s =~= Seq::<char>::empty());
    }
}

/// `raw_lines` gives `count_breaks + 1` pieces, none of which holds a `'\n'`.
proof fn lemma_raw_lines(s: Seq<char>)
    ensures
        raw_lines(s).len() == count_breaks(s) + 1,
        forall|k: int|
            0 <= k < raw_lines(s).len() ==> !(#[trigger] raw_lines(s)[k]).contains('\n'),
    decreases s.len(),
{
    if s.len() > 0 {
        lemma_raw_lines(s.drop_last());
        let init = raw_lines(s.drop_last());
        if s.last() != '\n' {
            let last = init.last().push(s.last());
            assert forall|k: int|
                0 <= k < raw_lines(s).len() implies !(#[trigger] raw_lines(s)[k]).contains(
                '\n',
            ) by {
                if k == init.len() - 1 {
                    if last.contains('\n') {
                        let p = choose|p: int| 0 <= p < last.len() && last[p] == '\n';
                        assert(init.last()[p] == '\n');
                    }
                } else {
                    assert(raw_lines(s)[k] == init[k]);
                }
            }
        } else {
            assert forall|k: int|
                0 <= k < raw_lines(s).len() implies !(#[trigger] raw_lines(s)[k]).contains(
                '\n',
            ) by {
                if k < init.len() {
                    assert(raw_lines(s)[k] == init[k]);
                }
            }
        }
    }
}

/// `split_lines` gives `count_breaks + 1` lines, none of which holds a `'\n'`.
pub proof fn lemma_split_lines(s: Seq<char>)
    ensures
        split_lines(s).len() == count_breaks(s) + 1,
        forall|k: int|
            0 <= k < split_lines(s).len() ==> !(#[trigger] split_lines(s)[k]).contains('\n'),
{
    lemma_raw_lines(s);
    assert forall|k: int|
        0 <= k < split_lines(s).len() implies !(#[trigger] split_lines(s)[k]).contains('\n') by {
        let p = raw_lines(s)[k];
        assert(split_lines(s)[k] == trim_cr(p));
        if trim_cr(p).contains('\n') {
            let q = choose|q: int| 0 <= q < trim_cr(p).len() && trim_cr(p)[q] == '\n';
            assert(p[q] == '\n');
        }
    }
}

/// The pieces of a text after its first `i` characters are read, with `start`
/// the position after the last line break among them.
proof fn lemma_split_step(s: Seq<char>, i: int, start: int)
    requires
        0 <= start <= i < s.len(),
        raw_lines(s.take(i)).last() == s.subrange(start, i),
        raw_lines(s.take(i)).len() >= 1,
    ensures
        s[i] == '\n' ==> raw_lines(s.take(i + 1)) == raw_lines(s.take(i)).push(
            Seq::<char>::empty(),
        ),
        s[i] != '\n' ==> raw_lines(s.take(i + 1)) == raw_lines(s.take(i)).update(
            raw_lines(s.take(i)).len() - 1,
            s.subrange(start, i + 1),
        ),
{
    assert(s.take(i + 1).drop_last() =~= s.take(i));
    assert(s.take(i + 1).last() == s[i]);
    assert(s.subrange(start, i).push(s[i]) =~= s.subrange(start, i + 1));
}

/// A log message: a level, a one- or many-line body, the instant it was made at
/// and a tag for where it came from.
#[derive(Debug)]
pub struct LogMessage {
    level: LogLevel,
    message: String,
    time: Time,
    position: String,
}

impl View for LogMessage {
    type V = MessageModel;

    closed spec fn view(&self) -> MessageModel {
        MessageModel {
            level: self.level,
            body: self.message@,
            time: self.time,
            origin: self.position@,
        }
    }
}

impl LogMessage {
    /// A message made at the current instant, shown in the zone `time_zone`.
    pub fn new(level: LogLevel, message: String, time_zone: i32, position: String) -> (r: Self)
        requires
            zone_ok(time_zone),
        ensures
            r@.level == level,
            r@.body == message@,
            r@.origin == position@,
            r@.time.wf(),
            r@.time.time_zone == time_zone,
            !r@.time.detailed_display,
    {
        LogMessage::at(level, message, Time::now(time_zone), position)
    }

    /// A message made at the instant `time`.
    pub fn at(level: LogLevel, message: String, time: Time, position: String) -> (r: Self)
        ensures
            r@ == (MessageModel { level, body: message@, time, origin: position@ }),
    {
        LogMessage { level, message, time, position }
    }

    /// The message as one line of text: `<timestamp> <LEVEL>\t[<origin>] <body>`.
    pub fn print(&self) -> (r: String)
        requires
            self@.time.wf(),
        ensures
            r@ == line_text(self@),
    {
        proof {
            reveal_strlit(" ");
            reveal_strlit("\t[");
            reveal_strlit("] ");
        }
        let mut r = self.time.to_string();
        r.append(" ");
        let label = self.level.label();
        r.append(label.as_str());
        r.append("\t[");
        r.append(self.position.as_str());
        r.append("] ");
        r.append(self.message.as_str());
        assert(r@ =~= line_text(self@));
        r
    }

    /// The rank of the message's level.
    pub fn get_level(&self) -> (r: usize)
        ensures
            r == self@.level.rank(),
    {
        self.level.get_level()
    }

    /// The message's level.
    pub fn level(&self) -> (r: LogLevel)
        ensures
            r == self@.level,
    {
        self.level
    }

    /// A message like this one with the body `body`.
    fn sibling(&self, body: &str) -> (r: Self)
        ensures
            r@ == with_body(self@, body@),
    {
        LogMessage {
            level: self.level,
            message: String::from_str(body),
            time: self.time,
            position: self.position.clone(),
        }
    }

    /// The message with the piece `s[start..i]` of its body as body, less a
    /// `'\r'` that ends it (`last` is `s[i - 1]`).
    fn line_of(&self, text: &str, start: usize, i: usize, last: char) -> (r: Self)
        requires
            text@ == self@.body,
            start <= i <= text@.len(),
            start < i ==> last == text@[i - 1],
        ensures
            r@ == with_body(self@, trim_cr(text@.subrange(start as int, i as int))),
    {
        let end = if start < i && last == '\r' {
            i - 1
        } else {
            i
        };
        assert(text@.subrange(start as int, end as int) =~= trim_cr(
            text@.subrange(start as int, i as int),
        ));
        self.sibling(text.substring_char(start, end))
    }

    /// One message per line of the body: the pieces between line breaks
    /// (`"\n"` or `"\r\n"`), in order, each with this message's level, time and
    /// origin.
    pub fn split_enter(&self) -> (r: Vec<Self>)
        ensures
            r@.map_values(|m: LogMessage| m@) == split_message(self@),
            r.len() == split_lines(self@.body).len(),
            forall|k: int|
                0 <= k < r.len() ==> (#[trigger] r[k])@ == with_body(
                    self@,
                    split_lines(self@.body)[k],
                ),
    {
        let text = self.message.as_str();
        let ghost s = text@;
        let n = text.unicode_len();
        let mut chars = text.chars();
        let mut i: usize = 0;
        let mut start: usize = 0;
        let mut last: char = ' ';
        let mut lines: Vec<Self> = Vec::new();
        proof {
            assert(s.take(0) =~= Seq::<char>::empty());
        }
        loop
            invariant
                s == self@.body,
                s == text@,
                n == s.len(),
                start <= i <= n,
                i > 0 ==> last == s[i - 1],
                chars.remaining() == s.skip(i as int),
                raw_lines(s.take(i as int)).len() == lines.len() + 1,
                raw_lines(s.take(i as int)).last() == s.subrange(start as int, i as int),
                forall|k: int|
                    0 <= k < lines.len() ==> (#[trigger] lines[k])@ == with_body(
                        self@,
                        trim_cr(raw_lines(s.take(i as int))[k]),
                    ),
            ensures
                i == n,
                start <= i,
                i > 0 ==> last == s[i - 1],
                raw_lines(s.take(i as int)).len() == lines.len() + 1,
                raw_lines(s.take(i as int)).last() == s.subrange(start as int, i as int),
                forall|k: int|
                    0 <= k < lines.len() ==> (#[trigger] lines[k])@ == with_body(
                        self@,
                        trim_cr(raw_lines(s.take(i as int))[k]),
                    ),
            decreases n - i,
        {
            let next = chars.next();
            match next {
                None => {
                    break;
                },
                Some(c) => {
                    assert(i < n);
                    proof {
                        lemma_split_step(s, i as int, start as int);
                    }
                    if c == '\n' {
                        lines.push(self.line_of(text, start, i, last));
                        start = i + 1;
                        assert(s.subrange(start as int, start as int) =~= Seq::<char>::empty());
                    }
                    last = c;
                    i = i + 1;
                    assert(chars.remaining() =~= s.skip(i as int));
                },
            }
        }
        assert(s.take(i as int) =~= s);
        lines.push(self.line_of(text, start, i, last));
        assert(lines@.map_values(|m: LogMessage| m@) =~= split_message(self@));
        lines
    }
}

} // verus!
