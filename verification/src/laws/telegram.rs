//! Telegram: what comes in, from where it is polled next, and what goes out.
use crate::channel::markdown;
use crate::channel::telegram;
use crate::channel::telegram::{DraftActionView, SendActionView, SendPlanView, SendView};
use crate::channel::{
    ChannelOutboundMessage, ChannelOutboundTarget, ChannelStreamingMode, InboundView,
    PlatformView, TargetKindView,
};
use crate::json;
use crate::json::JsonView;
use crate::text;
use vstd::prelude::*;

verus! {

// What comes in.

/// The inbox of some updates is that of the first followed by that of the others.
pub proof fn law_inboxes_are_joined(
    a: Seq<JsonView>,
    b: Seq<JsonView>,
    allowed: Set<i64>,
    account_id: Seq<char>,
)
    ensures
        telegram::inbox_of(a + b, allowed, account_id) == telegram::inbox_of(a, allowed, account_id)
            + telegram::inbox_of(b, allowed, account_id),
    decreases b.len(),
{
    if b.len() == 0 {
        assert(a + b =~= a);
    } else {
        law_inboxes_are_joined(a, b.drop_last(), allowed, account_id);
        assert((a + b).drop_last() =~= a + b.drop_last());
        assert((a + b).last() == b.last());
    }
    assert(telegram::inbox_of(a + b, allowed, account_id) =~= telegram::inbox_of(
        a,
        allowed,
        account_id,
    ) + telegram::inbox_of(b, allowed, account_id));
}

/// The update that an entry of the inbox comes from; entries that stand later come from
/// updates that stand later.
pub proof fn law_inbox_keeps_the_order_of_updates(
    updates: Seq<JsonView>,
    allowed: Set<i64>,
    account_id: Seq<char>,
    j: int,
    k: int,
) -> (r: (int, int))
    requires
        0 <= j < k < telegram::inbox_of(updates, allowed, account_id).len(),
    ensures
        0 <= r.0 < r.1 < updates.len(),
        telegram::inbound_of(updates[r.0], allowed, account_id) == Some(
            telegram::inbox_of(updates, allowed, account_id)[j],
        ),
        telegram::inbound_of(updates[r.1], allowed, account_id) == Some(
            telegram::inbox_of(updates, allowed, account_id)[k],
        ),
    decreases updates.len(),
{
    let init = updates.drop_last();
    let before = telegram::inbox_of(init, allowed, account_id);
    if k < before.len() {
        let r = law_inbox_keeps_the_order_of_updates(init, allowed, account_id, j, k);
        assert(init[r.0] == updates[r.0] && init[r.1] == updates[r.1]);
        r
    } else {
        let i = telegram::law_inbox_holds_allowed_chats_only(init, allowed, account_id, j);
        assert(init[i] == updates[i]);
        (i, updates.len() - 1)
    }
}

/// For updates whose numbers rise, the cursors of the inbox rise: what is acknowledged first
/// does not cover what comes behind it.
pub proof fn law_cursors_rise_with_the_updates(
    updates: Seq<JsonView>,
    allowed: Set<i64>,
    account_id: Seq<char>,
    j: int,
    k: int,
)
    requires
        0 <= j < k < telegram::inbox_of(updates, allowed, account_id).len(),
        forall|a: int, b: int|
            0 <= a < b < updates.len() ==> (#[trigger] updates[a]).i64_at("update_id"@) is Some && (
            #[trigger] updates[b]).i64_at("update_id"@) is Some && updates[a].i64_at(
                "update_id"@,
            )->0 < updates[b].i64_at("update_id"@)->0,
    ensures
        ({
            let inbox = telegram::inbox_of(updates, allowed, account_id);
            &&& inbox[j].ack_cursor is Some
            &&& inbox[k].ack_cursor is Some
            &&& text::i64_value(inbox[j].ack_cursor->0) is Some
            &&& text::i64_value(inbox[k].ack_cursor->0) is Some
            &&& text::i64_value(inbox[j].ack_cursor->0)->0 <= text::i64_value(
                inbox[k].ack_cursor->0,
            )->0
            &&& text::i64_value(inbox[j].ack_cursor->0)->0 < i64::MAX ==> text::i64_value(
                inbox[j].ack_cursor->0,
            )->0 < text::i64_value(inbox[k].ack_cursor->0)->0 || text::i64_value(
                inbox[k].ack_cursor->0,
            )->0 == i64::MAX
        }),
{
    let (a, b) = law_inbox_keeps_the_order_of_updates(updates, allowed, account_id, j, k);
    assert(updates[a].i64_at("update_id"@)->0 < updates[b].i64_at("update_id"@)->0);
    text::law_integers_are_read_back(telegram::successor(telegram::update_id(updates[a])));
    text::law_integers_are_read_back(telegram::successor(telegram::update_id(updates[b])));
}

/// A text of an allowed chat comes in as it was sent, without the white space round it: from
/// its chat and thread, to be answered there, with the cursor behind its update and the number
/// of its message.
pub proof fn law_texts_come_in_as_sent(
    update: JsonView,
    message: JsonView,
    chat: JsonView,
    chat_id: int,
    number: int,
    said: Seq<char>,
    allowed: Set<i64>,
    account_id: Seq<char>,
)
    requires
        update.get("message"@) == Some(message),
        update.i64_at("update_id"@) == Some(number),
        message.get("chat"@) == Some(chat),
        chat.i64_at("id"@) == Some(chat_id),
        message.str_at("text"@) == Some(said),
        text::trim(said).len() > 0,
        allowed.contains(chat_id as i64),
        number < i64::MAX,
    ensures
        telegram::inbox_of(seq![update], allowed, account_id) == seq![
            InboundView {
                platform: PlatformView::Telegram,
                account_id,
                conversation_id: text::int_text(chat_id),
                thread_id: match message.i64_at("message_thread_id"@) {
                    Some(n) => Some(text::int_text(n)),
                    None => None,
                },
                reply_platform: PlatformView::Telegram,
                reply_kind: TargetKindView::Conversation,
                reply_id: match message.i64_at("message_thread_id"@) {
                    Some(n) => text::int_text(chat_id) + ":"@ + text::int_text(n),
                    None => text::int_text(chat_id),
                },
                text: text::trim(said),
                ack_cursor: Some(text::int_text(number + 1)),
                source_message_id: match message.i64_at("message_id"@) {
                    Some(n) => Some(text::int_text(n)),
                    None => None,
                },
                sender_principal_key: None,
                thread_root_id: None,
                parent_message_id: None,
            },
        ],
{
    reveal_with_fuel(telegram::inbox_of, 2);
    assert(seq![update].last() == update);
    assert(seq![update].drop_last().len() == 0);
    let m = telegram::inbound_of(update, allowed, account_id)->0;
    assert(telegram::inbox_of(seq![update], allowed, account_id) =~= seq![m]);
}

/// What is no text, or no text of an allowed chat, does not come in.
pub proof fn law_nothing_else_comes_in(
    update: JsonView,
    allowed: Set<i64>,
    account_id: Seq<char>,
)
    requires
        ({
            ||| update.get("message"@) is None
            ||| update.get("message"@)->0.str_at("text"@) is None
            ||| text::trim(update.get("message"@)->0.str_at("text"@)->0).len() == 0
            ||| (update.get("message"@)->0.get("chat"@) is Some && update.get("message"@)->0.get(
                "chat"@,
            )->0.i64_at("id"@) is Some && !allowed.contains(
                update.get("message"@)->0.get("chat"@)->0.i64_at("id"@)->0 as i64,
            ))
        }),
    ensures
        telegram::inbox_of(seq![update], allowed, account_id).len() == 0,
{
    reveal_with_fuel(telegram::inbox_of, 2);
    assert(seq![update].last() == update);
    assert(seq![update].drop_last().len() == 0);
}

/// The updates of an answer are those that it lists.
pub proof fn law_updates_are_those_of_the_answer(payload: JsonView)
    ensures
        payload.array_at("result"@) matches Some(v) ==> telegram::updates_of(payload) == v,
        payload.array_at("result"@) is None ==> telegram::updates_of(payload).len() == 0,
        telegram::answer_ok(payload) <==> payload.get("ok"@) == Some(JsonView::Bool(true)),
{
}

// Where it is polled next.

/// The offset to poll from next is right behind an update of the answer, and behind all of
/// them, so that none is left out and none comes twice; without an update at or behind the
/// current offset it stays.
pub proof fn law_next_offset_is_behind_the_last_update(updates: Seq<JsonView>, current: int)
    requires
        i64::MIN < current <= i64::MAX,
        forall|i: int|
            0 <= i < updates.len() ==> (#[trigger] updates[i]).i64_at("update_id"@) is Some,
    ensures
        ({
            let next = telegram::next_offset(updates, current);
            &&& next is Some <==> exists|i: int|
                0 <= i < updates.len() && (#[trigger] updates[i]).i64_at("update_id"@)->0 >= current
            &&& next is Some ==> {
                &&& forall|i: int|
                    0 <= i < updates.len() ==> (#[trigger] updates[i]).i64_at("update_id"@)->0
                        < i64::MAX ==> updates[i].i64_at("update_id"@)->0 < next->0
                &&& exists|i: int|
                    0 <= i < updates.len() && ((#[trigger] updates[i]).i64_at("update_id"@)->0 + 1
                        == next->0 || updates[i].i64_at("update_id"@)->0 == i64::MAX && next->0
                        == i64::MAX)
            }
        }),
{
    lemma_greatest(updates, current - 1);
    if telegram::greatest_update(updates, current - 1) >= current {
        let i = choose|i: int|
            0 <= i < updates.len() && telegram::update_id(#[trigger] updates[i])
                == telegram::greatest_update(updates, current - 1);
        assert(updates[i].i64_at("update_id"@)->0 >= current);
    }
}

proof fn lemma_greatest(updates: Seq<JsonView>, start: int)
    requires
        i64::MIN <= start <= i64::MAX,
    ensures
        start <= telegram::greatest_update(updates, start) <= i64::MAX,
        forall|i: int|
            0 <= i < updates.len() ==> telegram::update_id(#[trigger] updates[i])
                <= telegram::greatest_update(updates, start),
        telegram::greatest_update(updates, start) == start || exists|i: int|
            0 <= i < updates.len() && telegram::update_id(#[trigger] updates[i])
                == telegram::greatest_update(updates, start),
    decreases updates.len(),
{
    if updates.len() > 0 {
        let init = updates.drop_last();
        lemma_greatest(init, start);
        let before = telegram::greatest_update(init, start);
        let n = updates.len() - 1;
        assert forall|i: int| 0 <= i < updates.len() implies telegram::update_id(
            #[trigger] updates[i],
        ) <= telegram::greatest_update(updates, start) by {
            if i < n {
                assert(init[i] == updates[i]);
            }
        }
        if telegram::greatest_update(updates, start) == before && before != start {
            let i = choose|i: int|
                0 <= i < init.len() && telegram::update_id(#[trigger] init[i]) == before;
            assert(updates[i] == init[i]);
        } else if telegram::greatest_update(updates, start) != start {
            assert(telegram::update_id(updates[n]) == telegram::greatest_update(updates, start));
        }
    }
}

/// The reactions of an inbox are those of its first messages followed by those of the others,
/// one for each message that has a number.
pub proof fn law_reactions_are_joined(a: Seq<InboundView>, b: Seq<InboundView>)
    ensures
        telegram::reactions_of(a + b) == telegram::reactions_of(a) + telegram::reactions_of(b),
    decreases b.len(),
{
    if b.len() == 0 {
        assert(a + b =~= a);
    } else {
        law_reactions_are_joined(a, b.drop_last());
        assert((a + b).drop_last() =~= a + b.drop_last());
        assert((a + b).last() == b.last());
    }
    assert(telegram::reactions_of(a + b) =~= telegram::reactions_of(a) + telegram::reactions_of(b));
}

// What goes out.

/// A message of at most 4096 characters goes out in one part, as it is. A longer one is
/// parted: a part has at most 4066 characters and ends behind the last line feed that it can
/// hold, else behind the last space, else where no more fits; the rest is parted in the same
/// way.
pub proof fn law_messages_are_parted_at_lines(message: Seq<char>)
    ensures
        message.len() <= 4096 ==> telegram::message_parts(message) == seq![message],
        message.len() > 4096 ==> telegram::message_parts(message) == telegram::chunks(message),
        0 < message.len() <= 4066 ==> telegram::chunks(message) == seq![message],
        message.len() > 4066 ==> {
            let first = telegram::chunks(message)[0];
            let rest = message.skip(first.len() as int);
            &&& telegram::chunks(message).len() > 1
            &&& telegram::chunks(message) == seq![first] + telegram::chunks(rest)
            &&& first == message.take(first.len() as int)
            &&& 0 < first.len() <= 4066
            &&& occurs(message.take(4066), '\n') ==> first.last() == '\n' && !occurs(
                message.subrange(first.len() as int, 4066),
                '\n',
            )
            &&& !occurs(message.take(4066), '\n') && occurs(message.take(4066), ' ') ==> first.last()
                == ' ' && !occurs(message.subrange(first.len() as int, 4066), ' ')
            &&& !occurs(message.take(4066), '\n') && !occurs(message.take(4066), ' ') ==> first.len()
                == 4066
        },
{
    if message.len() > 0 {
        text::lemma_rfind_char_bounds(message, '\n', 4066);
        text::lemma_rfind_char_bounds(message, ' ', 4066);
        let e = telegram::chunk_end(message);
        let first = message.take(e);
        assert(telegram::chunks(message)[0] == first);
        if message.len() <= 4066 {
            assert(message.take(e) =~= message);
            assert(telegram::chunks(message.skip(e)) =~= Seq::<Seq<char>>::empty());
            assert(telegram::chunks(message) =~= seq![message]);
        } else {
            let w = message.take(4066);
            lemma_has(message, '\n');
            lemma_has(message, ' ');
            assert(first.len() == e);
            let rest = message.skip(e);
            assert(rest.len() > 0);
            assert(telegram::chunks(rest).len() > 0);
        }
    }
}

/// Whether a text holds a character.
pub open spec fn occurs(s: Seq<char>, c: char) -> bool {
    exists|i: int| 0 <= i < s.len() && #[trigger] s[i] == c
}

proof fn lemma_last(s: Seq<char>, c: char, i: int)
    requires
        0 <= i <= s.len(),
    ensures
        text::rfind_char(s, c, i) matches Some(p) ==> forall|k: int|
            p < k < i ==> #[trigger] s[k] != c,
        text::rfind_char(s, c, i) is None ==> forall|k: int| 0 <= k < i ==> #[trigger] s[k] != c,
    decreases i,
{
    if i > 0 && s[i - 1] != c {
        lemma_last(s, c, i - 1);
    }
}

proof fn lemma_has(message: Seq<char>, c: char)
    requires
        message.len() > 4066,
    ensures
        ({
            let found = text::rfind_char(message, c, 4066);
            &&& occurs(message.take(4066), c) <==> found is Some
            &&& found matches Some(p) ==> 0 <= p < 4066 && message[p] == c && !occurs(
                message.subrange(p + 1, 4066),
                c,
            )
        }),
{
    text::lemma_rfind_char_bounds(message, c, 4066);
    lemma_last(message, c, 4066);
    let w = message.take(4066);
    if let Some(p) = text::rfind_char(message, c, 4066) {
        assert(w[p] == c);
        let t = message.subrange(p + 1, 4066);
        assert forall|i: int| 0 <= i < t.len() implies #[trigger] t[i] != c by {
            assert(t[i] == message[p + 1 + i]);
        }
    } else {
        assert forall|i: int| 0 <= i < w.len() implies #[trigger] w[i] != c by {
            assert(w[i] == message[i]);
        }
    }
}

/// Of a message in several parts the first says that it goes on, the last that it went before,
/// and those between say both; a message in one part says neither.
pub proof fn law_parts_say_where_they_stand(parts: Seq<Seq<char>>, i: int)
    requires
        0 <= i < parts.len(),
    ensures
        ({
            let marked = telegram::marked_part(parts, i);
            let before = if parts.len() > 1 && i > 0 {
                "(continued)\n\n"@
            } else {
                Seq::empty()
            };
            let behind = if parts.len() > 1 && i < parts.len() - 1 {
                "\n\n(continues...)"@
            } else {
                Seq::empty()
            };
            marked == before + parts[i] + behind
        }),
{
    let marked = telegram::marked_part(parts, i);
    let before = if parts.len() > 1 && i > 0 {
        "(continued)\n\n"@
    } else {
        Seq::empty()
    };
    let behind = if parts.len() > 1 && i < parts.len() - 1 {
        "\n\n(continues...)"@
    } else {
        Seq::empty()
    };
    assert(marked =~= before + parts[i] + behind);
}

proof fn lemma_body_keys()
    ensures
        "chat_id"@ != "text"@,
        "chat_id"@ != "parse_mode"@,
        "chat_id"@ != "message_thread_id"@,
        "chat_id"@ != "disable_web_page_preview"@,
        "text"@ != "parse_mode"@,
        "text"@ != "message_thread_id"@,
        "text"@ != "disable_web_page_preview"@,
        "parse_mode"@ != "message_thread_id"@,
        "parse_mode"@ != "disable_web_page_preview"@,
        "message_thread_id"@ != "disable_web_page_preview"@,
{
    reveal_strlit("chat_id");
    reveal_strlit("text");
    reveal_strlit("parse_mode");
    reveal_strlit("message_thread_id");
    reveal_strlit("disable_web_page_preview");
    assert("chat_id"@.len() == 7 && "text"@.len() == 4 && "parse_mode"@.len() == 10);
    assert("message_thread_id"@.len() == 17 && "disable_web_page_preview"@.len() == 24);
}

proof fn lemma_found(e: Seq<(Seq<char>, JsonView)>, i: int)
    requires
        0 <= i < e.len(),
        forall|k: int| 0 <= k < i ==> (#[trigger] e[k]).0 != e[i].0,
    ensures
        json::lookup(e, e[i].0) == Some(e[i].1),
    decreases i,
{
    if i > 0 {
        assert(e[0].0 != e[i].0);
        assert forall|k: int| 0 <= k < i - 1 implies (#[trigger] e.skip(1)[k]).0 != e.skip(1)[i
            - 1].0 by {
            assert(e.skip(1)[k] == e[k + 1]);
        }
        lemma_found(e.skip(1), i - 1);
    }
}

proof fn lemma_missing(e: Seq<(Seq<char>, JsonView)>, key: Seq<char>)
    requires
        forall|k: int| 0 <= k < e.len() ==> (#[trigger] e[k]).0 != key,
    ensures
        json::lookup(e, key) is None,
    decreases e.len(),
{
    if e.len() > 0 {
        assert(e[0].0 != key);
        assert forall|k: int| 0 <= k < e.skip(1).len() implies (#[trigger] e.skip(1)[k]).0
            != key by {
            assert(e.skip(1)[k] == e[k + 1]);
        }
        lemma_missing(e.skip(1), key);
    }
}

/// The body of a post goes to its chat, and to its thread exactly where there is one. It says
/// the text, as HTML exactly where it is no plain post, and shows no preview where none is
/// wanted.
pub proof fn law_bodies_say_what_is_sent(
    chat_id: int,
    said: Seq<char>,
    thread_id: Option<int>,
    disable_preview: bool,
)
    requires
        i64::MIN <= chat_id <= i64::MAX,
        thread_id matches Some(n) ==> i64::MIN <= n <= i64::MAX,
    ensures
        ({
            let html = telegram::html_body(chat_id, said, thread_id, disable_preview);
            let plain = telegram::plain_body(chat_id, said, thread_id, disable_preview);
            &&& html.i64_at("chat_id"@) == Some(chat_id)
            &&& plain.i64_at("chat_id"@) == Some(chat_id)
            &&& html.str_at("text"@) == Some(said)
            &&& plain.str_at("text"@) == Some(said)
            &&& html.str_at("parse_mode"@) == Some("HTML"@)
            &&& plain.get("parse_mode"@) is None
            &&& html.i64_at("message_thread_id"@) == thread_id
            &&& plain.i64_at("message_thread_id"@) == thread_id
            &&& (html.bool_at("disable_web_page_preview"@) == Some(true)) == disable_preview
            &&& (plain.bool_at("disable_web_page_preview"@) == Some(true)) == disable_preview
        }),
{
    lemma_body_keys();
    let h = telegram::html_body(chat_id, said, thread_id, disable_preview)->Object_0;
    let p = telegram::plain_body(chat_id, said, thread_id, disable_preview)->Object_0;
    assert(h[0].0 == "chat_id"@ && h[1].0 == "text"@ && h[2].0 == "parse_mode"@);
    assert(p[0].0 == "chat_id"@ && p[1].0 == "text"@);
    lemma_found(h, 0);
    lemma_found(h, 1);
    lemma_found(h, 2);
    lemma_found(p, 0);
    lemma_found(p, 1);
    let o = telegram::body_options(disable_preview, thread_id);
    assert forall|k: int| 0 <= k < o.len() implies (#[trigger] o[k]) == h[k + 3] && o[k] == p[k
        + 2] by {}
    if disable_preview {
        assert(o[0].0 == "disable_web_page_preview"@);
        assert(h[3] == o[0] && p[2] == o[0]);
        lemma_found(h, 3);
        lemma_found(p, 2);
        if thread_id is Some {
            assert(o[1].0 == "message_thread_id"@);
            assert(h[4] == o[1] && p[3] == o[1]);
            lemma_found(h, 4);
            lemma_found(p, 3);
        } else {
            lemma_missing(h, "message_thread_id"@);
            lemma_missing(p, "message_thread_id"@);
        }
    } else {
        if thread_id is Some {
            assert(o[0].0 == "message_thread_id"@);
            assert(h[3] == o[0] && p[2] == o[0]);
            lemma_found(h, 3);
            lemma_found(p, 2);
        } else {
            lemma_missing(h, "message_thread_id"@);
            lemma_missing(p, "message_thread_id"@);
        }
        lemma_missing(h, "disable_web_page_preview"@);
        lemma_missing(p, "disable_web_page_preview"@);
    }
    lemma_missing(p, "parse_mode"@);
}

/// A part goes out as HTML, and as the marked text itself where it goes out plain, to the chat
/// and thread of the message and without a preview.
pub proof fn law_parts_go_to_their_chat(plan: SendPlanView, index: int, plain: bool)
    requires
        0 <= index < plan.parts.len(),
        i64::MIN <= plan.chat_id <= i64::MAX,
        plan.thread_id matches Some(n) ==> i64::MIN <= n <= i64::MAX,
    ensures
        ({
            let body = telegram::part_body(plan, index, plain);
            let marked = telegram::marked_part(plan.parts, index);
            &&& body.i64_at("chat_id"@) == Some(plan.chat_id)
            &&& body.i64_at("message_thread_id"@) == plan.thread_id
            &&& plain ==> body.str_at("text"@) == Some(marked) && body.get("parse_mode"@) is None
            &&& !plain ==> body.str_at("text"@) == Some(markdown::telegram_html(marked))
                && body.str_at("parse_mode"@) == Some("HTML"@)
            &&& body.bool_at("disable_web_page_preview"@) == Some(true)
        }),
{
    let marked = telegram::marked_part(plan.parts, index);
    law_bodies_say_what_is_sent(plan.chat_id, marked, plan.thread_id, true);
    law_bodies_say_what_is_sent(
        plan.chat_id,
        markdown::telegram_html(marked),
        plan.thread_id,
        true,
    );
}

/// What is to be sent for a message: to the chat and the thread that the target names, the
/// parts of its text without markers. Nothing is sent to another platform, to another kind of
/// target, or of a message without a text.
pub proof fn law_messages_are_sent_whole(
    target: ChannelOutboundTarget,
    message: ChannelOutboundMessage,
    s: String,
)
    requires
        message == ChannelOutboundMessage::Text(s) || message
            == ChannelOutboundMessage::MarkdownCard(s),
    ensures
        match telegram::send_plan(target, message) {
            Ok(plan) => {
                &&& target.platform is Telegram
                &&& target.kind is Conversation
                &&& telegram::target_value(target.id@) == Ok::<(int, Option<int>), Seq<char>>(
                    (plan.chat_id, plan.thread_id),
                )
                &&& text::concat(plan.parts) == telegram::outgoing_text(s@)
            },
            Err(_) => !(target.platform is Telegram) || !(target.kind is Conversation)
                || telegram::target_value(target.id@) is Err,
        },
        text::trim(s@).len() > 0 ==> telegram::outgoing_text(s@) == telegram::sanitized(s@),
{
    telegram::law_parts_preserve_message(telegram::outgoing_text(s@));
}

/// Posts, images and files are refused, each by its name.
pub proof fn law_other_messages_are_refused(
    target: ChannelOutboundTarget,
    message: ChannelOutboundMessage,
)
    requires
        !(message is Text) && !(message is MarkdownCard),
    ensures
        telegram::send_plan(target, message) is Err,
        target.platform is Telegram && target.kind is Conversation ==> telegram::send_plan(
            target,
            message,
        )->Err_0 == (if message is Post {
            "telegram adapter does not support Post outbound messages"@
        } else if message is Image {
            "telegram adapter does not support Image outbound messages"@
        } else {
            "telegram adapter does not support File outbound messages"@
        }),
{
    reveal_strlit("telegram adapter does not support ");
    reveal_strlit("Post");
    reveal_strlit("Image");
    reveal_strlit("File");
    reveal_strlit(" outbound messages");
    reveal_strlit("telegram adapter does not support Post outbound messages");
    reveal_strlit("telegram adapter does not support Image outbound messages");
    reveal_strlit("telegram adapter does not support File outbound messages");
    if target.platform is Telegram && target.kind is Conversation {
        let said = telegram::send_plan(target, message)->Err_0;
        if message is Post {
            assert(said =~= "telegram adapter does not support Post outbound messages"@);
        } else if message is Image {
            assert(said =~= "telegram adapter does not support Image outbound messages"@);
        } else {
            assert(said =~= "telegram adapter does not support File outbound messages"@);
        }
    }
}

/// A target id names a chat, and a thread behind a colon; what is no integer names nothing.
pub proof fn law_targets_name_chat_and_thread(chat: Seq<char>, thread: Seq<char>)
    requires
        chat.len() > 0,
        forall|i: int|
            0 <= i < chat.len() ==> #[trigger] chat[i] != ':' && !text::is_whitespace(chat[i]),
        forall|i: int| 0 <= i < thread.len() ==> !text::is_whitespace(#[trigger] thread[i]),
    ensures
        telegram::target_value(chat) == (match text::i64_value(chat) {
            Some(c) => Ok::<(int, Option<int>), Seq<char>>((c, None)),
            None => Err(telegram::target_value(chat)->Err_0),
        }),
        telegram::target_value(chat + seq![':'] + thread) == (match (
            text::i64_value(chat),
            text::i64_value(thread),
        ) {
            (Some(c), Some(n)) => Ok::<(int, Option<int>), Seq<char>>((c, Some(n))),
            _ => Err(telegram::target_value(chat + seq![':'] + thread)->Err_0),
        }),
{
    text::lemma_trim_stays(chat);
    text::lemma_find_char_bounds(chat, ':', 0);
    if let Some(k) = text::find_char(chat, ':', 0) {
        assert(chat[k] != ':');
    }
    let id = chat + seq![':'] + thread;
    assert(id[0] == chat[0]);
    if thread.len() > 0 {
        assert(id.last() == thread[thread.len() - 1]);
    } else {
        assert(id.last() == ':');
    }
    text::lemma_trim_stays(id);
    text::lemma_find_char_bounds(id, ':', 0);
    assert(id[chat.len() as int] == ':');
    assert forall|j: int| 0 <= j < chat.len() implies #[trigger] id[j] != ':' by {
        assert(id[j] == chat[j]);
    }
    let k = text::find_char(id, ':', 0)->0;
    assert(k == chat.len());
    assert(id.take(k) =~= chat);
    assert(id.skip(k + 1) =~= thread);
}

/// A message under way after a number of posts that were all taken, and what came of the last.
pub open spec fn after_taken(s: SendView, payload: JsonView, times: nat) -> (
    SendView,
    SendActionView,
)
    decreases times,
{
    if times == 0 {
        (s, SendActionView::Post(telegram::part_body(s.plan, s.position, s.plain)))
    } else {
        telegram::after_post(after_taken(s, payload, (times - 1) as nat).0, payload)
    }
}

/// Every part of a message is posted once, in its place, as long as the posts are taken; after
/// the last one the message is done.
pub proof fn law_parts_are_posted_one_after_the_other(
    s: SendView,
    payload: JsonView,
    times: nat,
)
    requires
        payload.get("ok"@) == Some(JsonView::Bool(true)),
        s.position == 0,
        !s.plain,
        times <= s.plan.parts.len(),
        s.plan.parts.len() > 0,
    ensures
        after_taken(s, payload, times).0.plan == s.plan,
        0 < times < s.plan.parts.len() ==> after_taken(s, payload, times).1
            == SendActionView::PauseAndPost(telegram::part_body(s.plan, times as int, false)),
        times < s.plan.parts.len() ==> after_taken(s, payload, times).0 == (SendView {
            position: times as int,
            plain: false,
            plan: s.plan,
        }),
        times == s.plan.parts.len() ==> after_taken(s, payload, times).1 == SendActionView::Done,
    decreases times,
{
    if times > 0 {
        law_parts_are_posted_one_after_the_other(s, payload, (times - 1) as nat);
    }
}

/// A part whose HTML is refused is posted once more as plain text; when that is taken the next
/// part follows as HTML, and when that is refused too the message fails.
pub proof fn law_refused_parts_are_posted_plain(s: SendView, refused: JsonView, taken: JsonView)
    requires
        refused.get("ok"@) != Some(JsonView::Bool(true)),
        taken.get("ok"@) == Some(JsonView::Bool(true)),
        0 <= s.position < s.plan.parts.len(),
        !s.plain,
    ensures
        ({
            let (once, action) = telegram::after_post(s, refused);
            &&& action == SendActionView::Post(telegram::part_body(s.plan, s.position, true))
            &&& once.position == s.position
            &&& telegram::after_post(once, refused).1 is Fail
            &&& s.position + 1 < s.plan.parts.len() ==> telegram::after_post(once, taken).1
                == SendActionView::PauseAndPost(
                telegram::part_body(s.plan, s.position + 1, false),
            )
            &&& s.position + 1 == s.plan.parts.len() ==> telegram::after_post(once, taken).1
                == SendActionView::Done
        }),
{
}

/// The offset that is saved only rises: to the newest that was named, and never back.
pub proof fn law_offsets_only_rise(current: int, next: int)
    ensures
        next > current ==> telegram::offset_to_save(current, Some(next)) == Some(next),
        next <= current ==> telegram::offset_to_save(current, Some(next)) is None,
        telegram::offset_to_save(current, None) is None,
{
}

/// A poll waits as long as configured, at least one second and at most fifty.
pub proof fn law_polls_wait_between_one_and_fifty_seconds(n: int)
    ensures
        1 <= telegram::poll_seconds(n) <= 50,
        1 <= n <= 50 ==> telegram::poll_seconds(n) == n,
        n > 50 ==> telegram::poll_seconds(n) == 50,
{
}

// Drafts.

/// A draft that was taken is known by the number that the answer gives; where HTML was refused
/// it is posted once more as plain text, to the same chat and thread; a second refusal ends it.
pub proof fn law_drafts_fall_back_to_plain_text(
    chat_id: int,
    thread_id: Option<int>,
    prepared: Seq<char>,
    payload: JsonView,
)
    ensures
        payload.get("ok"@) == Some(JsonView::Bool(true)) && payload.get("result"@) is Some
            && payload.get("result"@)->0.i64_at("message_id"@) is Some ==> {
            let n = payload.get("result"@)->0.i64_at("message_id"@)->0;
            &&& telegram::draft_step(chat_id, thread_id, prepared, false, payload)
                == DraftActionView::Sent(text::int_text(n))
            &&& telegram::draft_step(chat_id, thread_id, prepared, true, payload)
                == DraftActionView::Sent(text::int_text(n))
        },
        payload.get("ok"@) != Some(JsonView::Bool(true)) ==> {
            &&& telegram::draft_step(chat_id, thread_id, prepared, false, payload)
                == DraftActionView::Post(
                telegram::plain_body(chat_id, prepared, thread_id, false),
            )
            &&& telegram::draft_step(chat_id, thread_id, prepared, true, payload) is Fail
        },
        payload.get("ok"@) == Some(JsonView::Bool(true)) && (payload.get("result"@) is None
            || payload.get("result"@)->0.i64_at("message_id"@) is None) ==> telegram::draft_step(
            chat_id,
            thread_id,
            prepared,
            false,
            payload,
        ) is Fail,
{
}

// Reactions.

/// Every index below a length is picked by as many numbers as any other: those that leave it
/// over when divided by the length, below a limit that is a multiple of the length. The numbers
/// that are refused are too few to pick every index once more.
pub proof fn law_indices_are_picked_evenly(len: int, index: int, k: int)
    requires
        0 < len <= u64::MAX,
        0 <= index < len,
    ensures
        0 <= k < u64::MAX as int / len ==> index + k * len < telegram::reject_threshold(len) && (
        index + k * len) % len == index,
        telegram::reject_threshold(len) == (u64::MAX as int / len) * len,
        telegram::reject_threshold(len) <= u64::MAX,
        u64::MAX - telegram::reject_threshold(len) < len,
{
    let count = u64::MAX as int / len;
    assert(count * len <= u64::MAX && u64::MAX - count * len < len) by (nonlinear_arith)
        requires
            count == u64::MAX as int / len,
            len > 0,
    ;
    if 0 <= k < count {
        assert(index + k * len < count * len) by (nonlinear_arith)
            requires
                0 <= index < len,
                0 <= k < count,
        ;
        assert((index + k * len) % len == index) by (nonlinear_arith)
            requires
                0 <= index < len,
                0 <= k,
        ;
    }
}

/// There are ten reactions, and no two of them are the same.
pub proof fn law_reactions_differ(i: int, j: int)
    requires
        0 <= i < j < 10,
    ensures
        telegram::ack_reaction(i) != telegram::ack_reaction(j),
        telegram::TELEGRAM_ACK_REACTION_COUNT == 10,
{
    reveal_strlit("👌");
    reveal_strlit("👀");
    reveal_strlit("🔥");
    reveal_strlit("👍");
    reveal_strlit("💪");
    reveal_strlit("🤩");
    reveal_strlit("😎");
    reveal_strlit("🤘");
    reveal_strlit("🙌");
    reveal_strlit("⚡️");
    let a = telegram::ack_reaction(i);
    let b = telegram::ack_reaction(j);
    if a == b {
        assert(a[0] == b[0]);
    }
}

/// A number below the limit picks what it leaves over when divided by the length; a number at or
/// over it picks nothing.
pub proof fn law_numbers_pick_their_index(len: int, index: int, k: int, value: int)
    requires
        0 < len <= u64::MAX,
        0 <= index < len,
    ensures
        0 <= k < u64::MAX as int / len ==> telegram::picked_index(index + k * len, len) == Some(
            index,
        ),
        value >= (u64::MAX as int / len) * len ==> telegram::picked_index(value, len) is None,
{
    law_indices_are_picked_evenly(len, index, k);
}

// Other posts.

/// The posts that edit and delete a draft, poll, and put a reaction name their chat and message
/// and say what they are for.
pub proof fn law_posts_name_what_they_are_about(
    chat_id: int,
    message_id: Seq<char>,
    number: int,
    said: Seq<char>,
)
    requires
        i64::MIN <= chat_id <= i64::MAX,
        i64::MIN <= number <= i64::MAX,
    ensures
        ({
            let edit = telegram::edit_body(chat_id, message_id, said);
            let delete = telegram::delete_body(chat_id, message_id);
            let poll = telegram::poll_body(chat_id, number);
            let reaction = telegram::reaction_body(chat_id, number, said);
            &&& edit.i64_at("chat_id"@) == Some(chat_id)
            &&& edit.str_at("message_id"@) == Some(message_id)
            &&& edit.str_at("text"@) == Some(markdown::telegram_html(said))
            &&& edit.str_at("parse_mode"@) == Some("HTML"@)
            &&& delete.i64_at("chat_id"@) == Some(chat_id)
            &&& delete.str_at("message_id"@) == Some(message_id)
            &&& poll.i64_at("offset"@) == Some(chat_id)
            &&& poll.i64_at("timeout"@) == Some(number)
            &&& poll.array_at("allowed_updates"@) == Some(seq![JsonView::Text("message"@)])
            &&& reaction.i64_at("chat_id"@) == Some(chat_id)
            &&& reaction.i64_at("message_id"@) == Some(number)
            &&& reaction.array_at("reaction"@) matches Some(v)
            &&& v.len() == 1
            &&& v[0].str_at("type"@) == Some("emoji"@)
            &&& v[0].str_at("emoji"@) == Some(said)
        }),
{
    lemma_body_keys();
    reveal_strlit("chat_id");
    reveal_strlit("message_id");
    reveal_strlit("text");
    reveal_strlit("parse_mode");
    reveal_strlit("offset");
    reveal_strlit("timeout");
    reveal_strlit("allowed_updates");
    reveal_strlit("reaction");
    reveal_strlit("type");
    reveal_strlit("emoji");
    assert("chat_id"@.len() == 7 && "message_id"@.len() == 10 && "text"@.len() == 4
        && "parse_mode"@.len() == 10 && "offset"@.len() == 6 && "timeout"@.len() == 7
        && "allowed_updates"@.len() == 15 && "reaction"@.len() == 8 && "type"@.len() == 4
        && "emoji"@.len() == 5);
    assert("message_id"@[0] == 'm' && "parse_mode"@[0] == 'p');
    let e = telegram::edit_body(chat_id, message_id, said)->Object_0;
    assert(e[0].0 == "chat_id"@ && e[1].0 == "message_id"@ && e[2].0 == "text"@ && e[3].0
        == "parse_mode"@);
    lemma_found(e, 0);
    lemma_found(e, 1);
    lemma_found(e, 2);
    lemma_found(e, 3);
    let d = telegram::delete_body(chat_id, message_id)->Object_0;
    assert(d[0].0 == "chat_id"@ && d[1].0 == "message_id"@);
    lemma_found(d, 0);
    lemma_found(d, 1);
    let p = telegram::poll_body(chat_id, number)->Object_0;
    assert(p[0].0 == "offset"@ && p[1].0 == "timeout"@ && p[2].0 == "allowed_updates"@);
    lemma_found(p, 0);
    lemma_found(p, 1);
    lemma_found(p, 2);
    let r = telegram::reaction_body(chat_id, number, said)->Object_0;
    assert(r[0].0 == "chat_id"@ && r[1].0 == "message_id"@ && r[2].0 == "reaction"@);
    lemma_found(r, 0);
    lemma_found(r, 1);
    lemma_found(r, 2);
    let inner = r[2].1->Array_0[0]->Object_0;
    assert(inner[0].0 == "type"@ && inner[1].0 == "emoji"@);
    lemma_found(inner, 0);
    lemma_found(inner, 1);
}

/// A message is drafted exactly where drafts are on and it has a text; the draft goes to the
/// chat and the thread of the target.
pub proof fn law_drafts_go_to_the_target(
    mode: ChannelStreamingMode,
    target: ChannelOutboundTarget,
    message: ChannelOutboundMessage,
    s: String,
)
    ensures
        mode is Off ==> telegram::draft_of(mode, target, message) == Ok::<
            Option<(int, Option<int>, Seq<char>)>,
            Seq<char>,
        >(None),
        !(mode is Off) && (!(target.platform is Telegram) || !(target.kind is Conversation))
            ==> telegram::draft_of(mode, target, message) is Err,
        !(mode is Off) && !(message is Text) && !(message is MarkdownCard) ==> telegram::draft_of(
            mode,
            target,
            message,
        ) is Err,
        !(mode is Off) && target.platform is Telegram && target.kind is Conversation && (message
            == ChannelOutboundMessage::Text(s) || message == ChannelOutboundMessage::MarkdownCard(
            s,
        )) ==> match telegram::target_value(target.id@) {
            Ok((chat_id, thread_id)) => telegram::draft_of(mode, target, message) == Ok::<
                Option<(int, Option<int>, Seq<char>)>,
                Seq<char>,
            >(Some((chat_id, thread_id, s@))),
            Err(_) => telegram::draft_of(mode, target, message) is Err,
        },
{
}

// Replies without markers.

/// Whether a trimmed line starts with the mark of the tool loop.
pub open spec fn starts_as_marker(line: Seq<char>) -> bool {
    ||| text::starts_with(line, "[tool_result]"@)
    ||| text::starts_with(line, "[tool_failure]"@)
    ||| text::starts_with(line, "[tool_loop_guard]"@)
    ||| text::starts_with(line, "[tool_loop_warning]"@)
}

/// Whether a trimmed line is a status of a tool: a mark, and a payload in braces.
pub open spec fn is_status_of(line: Seq<char>, mark: Seq<char>) -> bool {
    &&& text::starts_with(line, mark)
    &&& line.len() > mark.len()
    &&& line[mark.len() as int] == '{'
    &&& line.last() == '}'
}

/// The lines that no user should see, by how they look, and the payloads of those that have
/// one.
pub proof fn law_markers_are_known_by_their_look(line: Seq<char>)
    ensures
        telegram::is_marker_line(line) <==> starts_as_marker(line),
        telegram::marker_payload(line) is Some <==> is_status_of(line, "[ok] "@) || is_status_of(
            line,
            "[error] "@,
        ) || is_status_of(line, "[failed] "@),
        is_status_of(line, "[ok] "@) ==> telegram::marker_payload(line) == Some(line.skip(5)),
        is_status_of(line, "[error] "@) ==> telegram::marker_payload(line) == Some(line.skip(8)),
        is_status_of(line, "[failed] "@) ==> telegram::marker_payload(line) == Some(line.skip(9)),
{
    reveal_strlit("[ok] ");
    reveal_strlit("[error] ");
    reveal_strlit("[failed] ");
    assert("[ok] "@.len() == 5 && "[error] "@.len() == 8 && "[failed] "@.len() == 9);
    assert("[ok] "@[1] == 'o' && "[error] "@[1] == 'e' && "[failed] "@[1] == 'f');
    assert forall|p: Seq<char>| #[trigger] text::starts_with(line, p) && p.len() > 1 implies p[1]
        == line[1] by {
        assert(line.subrange(0, p.len() as int)[1] == line[1]);
    }
}

/// A reply loses its markers and keeps every other line, in the order of the lines.
pub proof fn law_other_lines_are_kept(l: Seq<Seq<char>>, line: Seq<char>)
    ensures
        ({
            let t = text::trim(line);
            let before = telegram::kept_text(l);
            let is_mark = starts_as_marker(t) || is_status_of(t, "[ok] "@) || is_status_of(
                t,
                "[error] "@,
            ) || is_status_of(t, "[failed] "@);
            let kept = telegram::kept_text(l.push(line));
            &&& is_mark ==> kept == before
            &&& !is_mark && before.len() == 0 ==> kept == line
            &&& !is_mark && before.len() > 0 ==> kept == before + seq!['\n'] + line
        }),
        telegram::kept_text(Seq::empty()).len() == 0,
{
    law_markers_are_known_by_their_look(text::trim(line));
    assert(l.push(line).drop_last() =~= l);
    let before = telegram::kept_text(l);
    assert(before.push('\n') + line =~= before + seq!['\n'] + line);
}

/// What is shown of a reply: what is left of it, else what its tools say, else a fixed text.
pub proof fn law_replies_show_what_is_left(s: Seq<char>)
    ensures
        ({
            let kept = text::trim(telegram::kept_text(text::lines(s)));
            let found = telegram::summaries(telegram::marker_payloads(text::lines(s)));
            &&& kept.len() > 0 ==> telegram::sanitized(s) == kept
            &&& kept.len() == 0 && found.len() > 0 ==> telegram::sanitized(s) == text::join(
                found,
                "\n"@,
            )
            &&& kept.len() == 0 && found.len() == 0 ==> telegram::sanitized(s)
                == "(no response text)"@
        }),
{
}

/// The payloads of status lines come in the order of the lines, each with what it says.
pub proof fn law_payloads_come_in_order(l: Seq<Seq<char>>, line: Seq<char>)
    ensures
        ({
            let t = text::trim(line);
            let before = telegram::marker_payloads(l);
            let all = telegram::marker_payloads(l.push(line));
            &&& is_status_of(t, "[ok] "@) ==> all == before.push(t.skip(5))
            &&& is_status_of(t, "[error] "@) ==> all == before.push(t.skip(8))
            &&& is_status_of(t, "[failed] "@) ==> all == before.push(t.skip(9))
            &&& !is_status_of(t, "[ok] "@) && !is_status_of(t, "[error] "@) && !is_status_of(
                t,
                "[failed] "@,
            ) ==> all == before
        }),
{
    let t = text::trim(line);
    law_markers_are_known_by_their_look(t);
    assert(l.push(line).drop_last() =~= l);
    reveal_strlit("[ok] ");
    reveal_strlit("[error] ");
    reveal_strlit("[failed] ");
    reveal_strlit("[tool_result]");
    reveal_strlit("[tool_failure]");
    reveal_strlit("[tool_loop_guard]");
    reveal_strlit("[tool_loop_warning]");
    assert("[ok] "@[1] == 'o' && "[error] "@[1] == 'e' && "[failed] "@[1] == 'f');
    assert("[tool_result]"@[1] == 't' && "[tool_failure]"@[1] == 't');
    assert("[tool_loop_guard]"@[1] == 't' && "[tool_loop_warning]"@[1] == 't');
    assert forall|p: Seq<char>| #[trigger] text::starts_with(t, p) && p.len() > 1 implies p[1]
        == t[1] by {
        assert(t.subrange(0, p.len() as int)[1] == t[1]);
    }
}

/// The payloads that say something are summed up in their order. A payload is read as JSON, and
/// so is the summary in it; a payload that cannot be read says nothing.
pub proof fn law_payloads_are_summed_up_in_order(
    p: Seq<Seq<char>>,
    payload: Seq<char>,
    v: JsonView,
    summary: Seq<char>,
    inner: JsonView,
)
    ensures
        telegram::summaries(p.push(payload)) == (match telegram::marker_summary(payload) {
            Some(said) => telegram::summaries(p).push(said),
            None => telegram::summaries(p),
        }),
        telegram::summaries(Seq::empty()).len() == 0,
        json::parsed_json(payload) is Err ==> telegram::marker_summary(payload) is None,
        json::parsed_json(payload) == Ok::<JsonView, Seq<char>>(v) && v.str_at("payload_summary"@)
            == Some(summary) && json::parsed_json(summary) == Ok::<JsonView, Seq<char>>(inner)
            ==> telegram::marker_summary(payload) == telegram::payload_summary(v, Some(inner)),
        json::parsed_json(payload) == Ok::<JsonView, Seq<char>>(v) && v.str_at("payload_summary"@)
            is None ==> telegram::marker_summary(payload) == telegram::payload_summary(v, None),
        v.str_at("tool"@) is Some ==> telegram::marker_tool(v) == v.str_at("tool"@)->0,
        v.get("tool"@) is None && v.str_at("tool_name"@) is Some ==> telegram::marker_tool(v)
            == v.str_at("tool_name"@)->0,
        v.get("tool"@) is None && v.get("tool_name"@) is None ==> telegram::marker_tool(v)
            == "tool"@,
{
    assert(p.push(payload).drop_last() =~= p);
}

/// A target of another platform, or of another kind, is refused with its name.
pub proof fn law_refusals_name_the_target(target: ChannelOutboundTarget)
    ensures
        target.platform is Telegram && target.kind is Conversation ==> telegram::target_refusal(
            target,
        ) is None,
        !(target.platform is Telegram) ==> telegram::target_refusal(target) == Some(
            "telegram adapter cannot send to "@ + target.platform.name() + " target"@,
        ),
        target.platform is Telegram && !(target.kind is Conversation) ==> telegram::target_refusal(
            target,
        ) == Some("telegram adapter requires conversation target, got "@ + target.kind.name()),
{
}

/// What a payload says: what the tool wrote to its error output, else to its output, else the
/// code with which it ended, else its status. The tool is named, and no more than two hundred
/// characters of an output are shown.
pub proof fn law_payloads_say_what_the_tool_said(payload: JsonView, inner: JsonView)
    requires
        payload.str_at("tool"@) is Some,
        payload.str_at("status"@) is Some,
    ensures
        ({
            let tool = payload.str_at("tool"@)->0;
            let status = payload.str_at("status"@)->0;
            let said = telegram::payload_summary(payload, Some(inner));
            let stderr = match inner.str_at("stderr"@) {
                Some(t) => t,
                None => Seq::empty(),
            };
            let stdout = match inner.str_at("stdout"@) {
                Some(t) => t,
                None => Seq::empty(),
            };
            &&& stderr.len() > 0 ==> said == Some(
                "The "@ + tool + " command "@ + status + ": "@ + text::truncated(
                    text::trim(stderr),
                    200,
                ),
            )
            &&& stderr.len() == 0 && stdout.len() > 0 ==> said == Some(
                "The "@ + tool + " command returned: "@ + text::truncated(text::trim(stdout), 200),
            )
            &&& stderr.len() == 0 && stdout.len() == 0 && inner.i64_at("exit_code"@) is Some
                ==> said == Some(
                "The "@ + tool + " command exited with code "@ + text::int_text(
                    inner.i64_at("exit_code"@)->0,
                ) + "."@,
            )
            &&& stderr.len() == 0 && stdout.len() == 0 && inner.i64_at("exit_code"@) is None
                && status.len() > 0 ==> said == Some("The "@ + tool + " call "@ + status + "."@)
        }),
        telegram::payload_summary(payload, None) is Some <==> payload.str_at("status"@)->0.len()
            > 0,
{
}

} // verus!
