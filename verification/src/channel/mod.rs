//! Message channels.
use crate::text;
use vstd::prelude::*;

pub mod markdown;
pub mod telegram;

verus! {

/// The platform that a channel talks to.
pub enum ChannelPlatform {
    Telegram,
    /// Another platform, by its name.
    Other(String),
}

/// What an outbound target is.
pub enum ChannelOutboundTargetKind {
    Conversation,
    /// Another kind of target, by its name.
    Other(String),
}

/// What a `ChannelPlatform` is.
pub enum PlatformView {
    Telegram,
    Other(Seq<char>),
}

/// What a `ChannelOutboundTargetKind` is.
pub enum TargetKindView {
    Conversation,
    Other(Seq<char>),
}

impl ChannelPlatform {
    pub open spec fn view(&self) -> PlatformView {
        match self {
            ChannelPlatform::Telegram => PlatformView::Telegram,
            ChannelPlatform::Other(s) => PlatformView::Other(s@),
        }
    }

    pub open spec fn name(&self) -> Seq<char> {
        match self {
            ChannelPlatform::Telegram => "telegram"@,
            ChannelPlatform::Other(s) => s@,
        }
    }

    pub fn as_str(&self) -> (r: &str)
        ensures
            r@ == self.name(),
    {
        match self {
            ChannelPlatform::Telegram => "telegram",
            ChannelPlatform::Other(s) => s.as_str(),
        }
    }
}

impl ChannelOutboundTargetKind {
    pub open spec fn view(&self) -> TargetKindView {
        match self {
            ChannelOutboundTargetKind::Conversation => TargetKindView::Conversation,
            ChannelOutboundTargetKind::Other(s) => TargetKindView::Other(s@),
        }
    }

    pub open spec fn name(&self) -> Seq<char> {
        match self {
            ChannelOutboundTargetKind::Conversation => "conversation"@,
            ChannelOutboundTargetKind::Other(s) => s@,
        }
    }

    pub fn as_str(&self) -> (r: &str)
        ensures
            r@ == self.name(),
    {
        match self {
            ChannelOutboundTargetKind::Conversation => "conversation",
            ChannelOutboundTargetKind::Other(s) => s.as_str(),
        }
    }
}

/// Where a message goes.
pub struct ChannelOutboundTarget {
    pub platform: ChannelPlatform,
    pub kind: ChannelOutboundTargetKind,
    pub id: String,
}

/// How much of a reply is shown while it is written.
pub enum ChannelStreamingMode {
    Off,
    Draft,
}

/// What is sent.
pub enum ChannelOutboundMessage {
    Text(String),
    MarkdownCard(String),
    Post,
    Image,
    File,
}

/// The conversation that a message belongs to.
pub struct ChannelSession {
    pub platform: ChannelPlatform,
    pub account_id: String,
    pub conversation_id: String,
    pub thread_id: Option<String>,
}

/// How a message came.
pub struct ChannelDelivery {
    pub ack_cursor: Option<String>,
    pub source_message_id: Option<String>,
    pub sender_principal_key: Option<String>,
    pub thread_root_id: Option<String>,
    pub parent_message_id: Option<String>,
}

/// A message that came in.
pub struct ChannelInboundMessage {
    pub session: ChannelSession,
    pub reply_target: ChannelOutboundTarget,
    pub text: String,
    pub delivery: ChannelDelivery,
}

/// What a message that came in is.
#[verifier::ext_equal]
pub struct InboundView {
    pub platform: PlatformView,
    pub account_id: Seq<char>,
    pub conversation_id: Seq<char>,
    pub thread_id: Option<Seq<char>>,
    pub reply_platform: PlatformView,
    pub reply_kind: TargetKindView,
    pub reply_id: Seq<char>,
    pub text: Seq<char>,
    pub ack_cursor: Option<Seq<char>>,
    pub source_message_id: Option<Seq<char>>,
    pub sender_principal_key: Option<Seq<char>>,
    pub thread_root_id: Option<Seq<char>>,
    pub parent_message_id: Option<Seq<char>>,
}

impl ChannelInboundMessage {
    pub open spec fn view(&self) -> InboundView {
        InboundView {
            platform: self.session.platform@,
            account_id: self.session.account_id@,
            conversation_id: self.session.conversation_id@,
            thread_id: text::opt_text(self.session.thread_id),
            reply_platform: self.reply_target.platform@,
            reply_kind: self.reply_target.kind@,
            reply_id: self.reply_target.id@,
            text: self.text@,
            ack_cursor: text::opt_text(self.delivery.ack_cursor),
            source_message_id: text::opt_text(self.delivery.source_message_id),
            sender_principal_key: text::opt_text(self.delivery.sender_principal_key),
            thread_root_id: text::opt_text(self.delivery.thread_root_id),
            parent_message_id: text::opt_text(self.delivery.parent_message_id),
        }
    }
}

/// The views of a list of messages.
pub open spec fn inbound_views(v: Seq<ChannelInboundMessage>) -> Seq<InboundView> {
    Seq::new(v.len(), |i: int| v[i]@)
}

} // verus!
