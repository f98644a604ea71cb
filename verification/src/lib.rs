//! A small notification formatter and dispatcher library.
//!
//! A [`Notification`] (a message, a timestamp, and an ordered list of labeled
//! [`Context`] entries) is rendered into a human-readable, Markdown-flavoured
//! text and then wrapped into the JSON payload a chat webhook expects. Both
//! renderings are pure functions of the notification's fields, and their
//! contracts pin the produced strings down character by character.
//!
//! Delivery (the HTTP POST of the payload) is I/O and lives outside this
//! library; callers hand the payload produced here to their own transport.

use vstd::prelude::*;
use vstd::string::*;

pub mod json_string;

use crate::json_string::{
    escape_seq, json_quoted, json_string_literal, lemma_unescape_escape, unescape,
};

verus! {

/// One labeled key/value annotation attached to a notification.
///
/// Ordering among entries is significant and preserved by the renderer.
pub struct Context {
    pub label: String,
    pub value: String,
}

/// The mathematical value of a [`Context`]: its two fields as character
/// sequences.
pub struct ContextView {
    pub label: Seq<char>,
    pub value: Seq<char>,
}

impl View for Context {
    type V = ContextView;

    open spec fn view(&self) -> ContextView {
        ContextView { label: self.label@, value: self.value@ }
    }
}

/// The rendered line for one context entry:
/// a quote marker, the backtick-quoted label, a colon, the value, a newline.
pub open spec fn context_line(label: Seq<char>, value: Seq<char>) -> Seq<char> {
    ">`"@ + label + "`: "@ + value + "\n"@
}

impl Context {
    /// Convert into formatted string
    pub fn formatted(&self) -> (r: String)
        ensures
            r@ == context_line(self.label@, self.value@),
    {
        let mut r = String::from_str(">`");
        r.append(self.label.as_str());
        r.append("`: ");
        r.append(self.value.as_str());
        r.append("\n");
        proof {
            assert(r@ =~= context_line(self.label@, self.value@));
        }
        r
    }
}

/// One event or error to report: a message, a caller-chosen timestamp string
/// (echoed verbatim, never parsed), and an ordered list of context entries.
pub struct Notification {
    pub message: String,
    pub timestamp: String,
    pub context: Vec<Context>,
}

/// The mathematical value of a [`Notification`].
pub struct NotificationView {
    pub message: Seq<char>,
    pub timestamp: Seq<char>,
    pub context: Seq<ContextView>,
}

impl View for Notification {
    type V = NotificationView;

    open spec fn view(&self) -> NotificationView {
        NotificationView {
            message: self.message@,
            timestamp: self.timestamp@,
            context: self.context@.map_values(|c: Context| c@),
        }
    }
}

/// The concatenation of the rendered lines of a list of context entries, in
/// the order the list supplies them.
pub open spec fn context_block(entries: Seq<ContextView>) -> Seq<char>
    decreases entries.len(),
{
    if entries.len() == 0 {
        Seq::empty()
    } else {
        context_line(entries[0].label, entries[0].value) + context_block(entries.drop_first())
    }
}

/// Appending one entry to the list appends exactly its line to the block.
pub proof fn lemma_context_block_push(entries: Seq<ContextView>, e: ContextView)
    ensures
        context_block(entries.push(e)) == context_block(entries) + context_line(e.label, e.value),
    decreases entries.len(),
{
    if entries.len() == 0 {
        assert(entries.push(e)[0] == e);
        assert(entries.push(e).drop_first() =~= Seq::<ContextView>::empty());
        assert(context_block(entries.push(e)) == context_line(e.label, e.value) + context_block(
            Seq::<ContextView>::empty(),
        ));
        assert(context_block(entries.push(e)) =~= context_block(entries) + context_line(
            e.label,
            e.value,
        ));
    } else {
        assert(entries.push(e).drop_first() =~= entries.drop_first().push(e));
        lemma_context_block_push(entries.drop_first(), e);
        assert(context_block(entries.push(e)) =~= context_block(entries) + context_line(
            e.label,
            e.value,
        ));
    }
}

/// The rendered message: a backtick-quoted `Issue` header carrying the
/// message, a quoted `Timestamp` line carrying the timestamp between
/// underscores, then one line per context entry, in order.
pub open spec fn message_text(n: NotificationView) -> Seq<char> {
    "`Issue`: "@ + n.message + "\n>`Timestamp`: _"@ + n.timestamp + "_\n"@ + context_block(
        n.context,
    )
}

impl Notification {
    /// Consume the `Notification` and parse it into a message (String)
    pub fn into_message(self) -> (r: String)
        ensures
            r@ == message_text(self@),
    {
        let mut r = String::from_str("`Issue`: ");
        r.append(self.message.as_str());
        r.append("\n>`Timestamp`: _");
        r.append(self.timestamp.as_str());
        r.append("_\n");
        let ghost head: Seq<char> = r@;
        let mut i: usize = 0;
        while i < self.context.len()
            invariant
                0 <= i <= self.context.len(),
                r@ == head + context_block(self@.context.take(i as int)),
            decreases self.context.len() - i,
        {
            let line = self.context[i].formatted();
            r.append(line.as_str());
            proof {
                assert(self@.context.take(i as int + 1) =~= self@.context.take(i as int).push(
                    self@.context[i as int],
                ));
                lemma_context_block_push(self@.context.take(i as int), self@.context[i as int]);
                assert(r@ =~= head + context_block(self@.context.take(i as int + 1)));
            }
            i = i + 1;
        }
        proof {
            assert(self@.context.take(self.context.len() as int) =~= self@.context);
            assert(r@ =~= message_text(self@));
        }
        r
    }

    /// Consume the `Notification` and parse it into a slack message (JSON String)
    pub fn into_slack_message(self) -> (r: String)
        ensures
            r@ == payload_text(self@),
    {
        let ghost n = self@;
        let message = self.into_message();
        let quoted = json_string_literal(message.as_str());
        let mut r = String::from_str("{\"blocks\":[{\"text\":{\"text\":");
        r.append(quoted.as_str());
        r.append(",\"type\":\"mrkdwn\"},\"type\":\"section\"}]}");
        proof {
            assert(r@ =~= payload_text(n));
        }
        r
    }
}

/// Law: entries are rendered in the order supplied. The block of a
/// concatenation of two lists is the block of the first followed by the block
/// of the second, so reordering the input list reorders the output lines
/// identically.
pub proof fn lemma_context_block_append(a: Seq<ContextView>, b: Seq<ContextView>)
    ensures
        context_block(a + b) == context_block(a) + context_block(b),
    decreases a.len(),
{
    if a.len() == 0 {
        assert(a + b =~= b);
        assert(context_block(a + b) =~= context_block(a) + context_block(b));
    } else {
        assert((a + b)[0] == a[0]);
        assert((a + b).drop_first() =~= a.drop_first() + b);
        lemma_context_block_append(a.drop_first(), b);
        assert(context_block(a + b) =~= context_block(a) + context_block(b));
    }
}

/// Law: formatting is deterministic. Two notifications with the same field
/// values render to the same message text and the same payload text; together
/// with the contracts of [`Notification::into_message`] and
/// [`Notification::into_slack_message`], two such calls return byte-identical
/// strings.
pub proof fn lemma_formatting_deterministic(a: Notification, b: Notification)
    requires
        a@ == b@,
    ensures
        message_text(a@) == message_text(b@),
        payload_text(a@) == payload_text(b@),
{
}

/// How often a character occurs in a sequence.
pub open spec fn count_char(s: Seq<char>, c: char) -> nat
    decreases s.len(),
{
    if s.len() == 0 {
        0
    } else {
        (if s[0] == c {
            1nat
        } else {
            0nat
        }) + count_char(s.drop_first(), c)
    }
}

proof fn lemma_count_char_zero(s: Seq<char>, c: char)
    requires
        forall|i: int| 0 <= i < s.len() ==> s[i] != c,
    ensures
        count_char(s, c) == 0,
    decreases s.len(),
{
    if s.len() > 0 {
        lemma_count_char_zero(s.drop_first(), c);
    }
}

proof fn lemma_count_char_concat(a: Seq<char>, b: Seq<char>, c: char)
    ensures
        count_char(a + b, c) == count_char(a, c) + count_char(b, c),
    decreases a.len(),
{
    if a.len() == 0 {
        assert(a + b =~= b);
    } else {
        assert((a + b)[0] == a[0]);
        assert((a + b).drop_first() =~= a.drop_first() + b);
        lemma_count_char_concat(a.drop_first(), b, c);
    }
}

/// Each rendered context line holds exactly one newline, its last character,
/// provided the entry's fields hold none.
proof fn lemma_context_line_count(e: ContextView)
    requires
        forall|i: int| 0 <= i < e.label.len() ==> e.label[i] != '\n',
        forall|i: int| 0 <= i < e.value.len() ==> e.value[i] != '\n',
    ensures
        count_char(context_line(e.label, e.value), '\n') == 1,
        context_line(e.label, e.value).len() > 0,
        context_line(e.label, e.value).last() == '\n',
{
    reveal_strlit(">`");
    reveal_strlit("`: ");
    reveal_strlit("\n");
    reveal_with_fuel(count_char, 3);
    lemma_count_char_zero(">`"@, '\n');
    lemma_count_char_zero(e.label, '\n');
    lemma_count_char_zero("`: "@, '\n');
    lemma_count_char_zero(e.value, '\n');
    assert(count_char("\n"@, '\n') == 1);
    lemma_count_char_concat(">`"@, e.label, '\n');
    lemma_count_char_concat(">`"@ + e.label, "`: "@, '\n');
    lemma_count_char_concat(">`"@ + e.label + "`: "@, e.value, '\n');
    lemma_count_char_concat(">`"@ + e.label + "`: "@ + e.value, "\n"@, '\n');
}

/// The block of a list of newline-free entries holds one newline per entry
/// and, when the list is not empty, ends in one.
proof fn lemma_context_block_count(entries: Seq<ContextView>)
    requires
        forall|i: int|
            0 <= i < entries.len() ==> (forall|j: int|
                0 <= j < (#[trigger] entries[i]).label.len() ==> entries[i].label[j] != '\n'),
        forall|i: int|
            0 <= i < entries.len() ==> (forall|j: int|
                0 <= j < (#[trigger] entries[i]).value.len() ==> entries[i].value[j] != '\n'),
    ensures
        count_char(context_block(entries), '\n') == entries.len(),
        entries.len() > 0 ==> context_block(entries).len() > 0 && context_block(entries).last()
            == '\n',
    decreases entries.len(),
{
    if entries.len() == 0 {
    } else {
        let line = context_line(entries[0].label, entries[0].value);
        let rest = context_block(entries.drop_first());
        lemma_context_line_count(entries[0]);
        lemma_context_block_count(entries.drop_first());
        lemma_count_char_concat(line, rest, '\n');
        if entries.drop_first().len() == 0 {
            assert(rest.len() == 0);
            assert((line + rest).last() == line.last());
        } else {
            assert((line + rest).last() == rest.last());
        }
    }
}

/// Law: when no field of the notification holds a newline of its own, the
/// rendered message consists of exactly `2 + k` newline-terminated lines for
/// `k` context entries: the newline occurs `2 + k` times and is the final
/// character.
pub proof fn lemma_message_line_count(n: NotificationView)
    requires
        forall|i: int| 0 <= i < n.message.len() ==> n.message[i] != '\n',
        forall|i: int| 0 <= i < n.timestamp.len() ==> n.timestamp[i] != '\n',
        forall|i: int|
            0 <= i < n.context.len() ==> (forall|j: int|
                0 <= j < (#[trigger] n.context[i]).label.len() ==> n.context[i].label[j] != '\n'),
        forall|i: int|
            0 <= i < n.context.len() ==> (forall|j: int|
                0 <= j < (#[trigger] n.context[i]).value.len() ==> n.context[i].value[j] != '\n'),
    ensures
        count_char(message_text(n), '\n') == 2 + n.context.len(),
        message_text(n).len() > 0,
        message_text(n).last() == '\n',
{
    reveal_strlit("`Issue`: ");
    reveal_strlit("\n>`Timestamp`: _");
    reveal_strlit("_\n");
    reveal_with_fuel(count_char, 4);
    let head = "`Issue`: "@;
    let mid = "\n>`Timestamp`: _"@;
    let tail = "_\n"@;
    let block = context_block(n.context);
    lemma_count_char_zero(head, '\n');
    lemma_count_char_zero(n.message, '\n');
    lemma_count_char_zero(n.timestamp, '\n');
    assert(count_char(mid.drop_first(), '\n') == 0) by {
        lemma_count_char_zero(mid.drop_first(), '\n');
    }
    assert(count_char(mid, '\n') == 1);
    assert(count_char(tail, '\n') == 1);
    lemma_context_block_count(n.context);
    lemma_count_char_concat(head, n.message, '\n');
    lemma_count_char_concat(head + n.message, mid, '\n');
    lemma_count_char_concat(head + n.message + mid, n.timestamp, '\n');
    lemma_count_char_concat(head + n.message + mid + n.timestamp, tail, '\n');
    lemma_count_char_concat(head + n.message + mid + n.timestamp + tail, block, '\n');
    if n.context.len() == 0 {
        assert(block.len() == 0);
        assert(message_text(n).last() == tail.last());
    } else {
        assert(message_text(n).last() == block.last());
    }
}

/// The wire payload: one JSON object holding a single section block whose
/// `mrkdwn` text is the rendered message, with the keys of each object in
/// alphabetical order and no whitespace between tokens.
pub open spec fn payload_text(n: NotificationView) -> Seq<char> {
    "{\"blocks\":[{\"text\":{\"text\":"@ + json_quoted(message_text(n))
        + ",\"type\":\"mrkdwn\"},\"type\":\"section\"}]}"@
}

/// Law: the string literal embedded in the payload decodes back to exactly
/// the rendered message of the same notification.
pub proof fn lemma_payload_embeds_message(n: NotificationView)
    ensures
        unescape(escape_seq(message_text(n))) == Some(message_text(n)),
{
    lemma_unescape_escape(message_text(n));
}

} // verus!
