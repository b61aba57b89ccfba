//! The turns of a seed conversation.

use vstd::prelude::*;
use crate::text::equals;
use crate::text::to_chars;

verus! {

/// Who speaks in a [`Message`].
#[derive(Clone, Copy, Debug, PartialEq, Eq, Structural)]
pub enum MessageRole {
    Assistant,
    User,
    System,
}

impl MessageRole {
    /// The role's name: lower case, as it is written in a Modelfile.
    pub open spec fn name(self) -> Seq<char> {
        match self {
            MessageRole::Assistant => "assistant"@,
            MessageRole::User => "user"@,
            MessageRole::System => "system"@,
        }
    }

    /// The role that `name` names. Names are matched exactly: `User` names
    /// no role.
    pub open spec fn named(name: Seq<char>) -> Option<MessageRole> {
        if name == "assistant"@ {
            Some(MessageRole::Assistant)
        } else if name == "user"@ {
            Some(MessageRole::User)
        } else if name == "system"@ {
            Some(MessageRole::System)
        } else {
            None
        }
    }

    /// Each role is the one that its own name names.
    pub proof fn lemma_named_name(self)
        ensures
            MessageRole::named(self.name()) == Some(self),
            self.name().len() > 0,
            forall|i: int| 0 <= i < self.name().len() ==> 'a' <= #[trigger] self.name()[i] <= 'z',
    {
        reveal_strlit("assistant");
        reveal_strlit("user");
        reveal_strlit("system");
        assert("user"@.len() != "assistant"@.len());
        assert("system"@.len() != "assistant"@.len());
        assert("system"@.len() != "user"@.len());
    }

    pub fn as_str(self) -> (s: &'static str)
        ensures
            s@ == self.name(),
    {
        match self {
            MessageRole::Assistant => "assistant",
            MessageRole::User => "user",
            MessageRole::System => "system",
        }
    }

    /// The role that the characters `v[from..to]` name.
    pub fn from_chars(v: &Vec<char>, from: usize, to: usize) -> (r: Option<MessageRole>)
        requires
            from <= to <= v@.len(),
        ensures
            r == MessageRole::named(v@.subrange(from as int, to as int)),
    {
        if equals(v, from, to, "assistant") {
            Some(MessageRole::Assistant)
        } else if equals(v, from, to, "user") {
            Some(MessageRole::User)
        } else if equals(v, from, to, "system") {
            Some(MessageRole::System)
        } else {
            None
        }
    }

    /// The role that `name` names.
    pub fn from_str(name: &str) -> (r: Option<MessageRole>)
        ensures
            r == MessageRole::named(name@),
    {
        let v = to_chars(name);
        assert(v@.subrange(0, v@.len() as int) =~= v@);
        MessageRole::from_chars(&v, 0, v.len())
    }
}

/// One turn of a conversation: who spoke, and what was said.
#[derive(Clone, Debug, PartialEq, Eq)]
pub enum Message {
    Assistant(String),
    User(String),
    System(String),
}

/// What a [`Message`] stands for.
pub struct MessageView {
    pub role: MessageRole,
    pub content: Seq<char>,
}

impl View for Message {
    type V = MessageView;

    open spec fn view(&self) -> MessageView {
        match self {
            Message::Assistant(text) => MessageView {
                role: MessageRole::Assistant,
                content: text@,
            },
            Message::User(text) => MessageView { role: MessageRole::User, content: text@ },
            Message::System(text) => MessageView { role: MessageRole::System, content: text@ },
        }
    }
}

impl MessageView {
    /// The turn as one line's worth of text: the role, a colon, a space, the
    /// content.
    pub open spec fn text(self) -> Seq<char> {
        self.role.name() + seq![':', ' '] + self.content
    }
}

impl Message {
    /// A turn spoken by `role`.
    pub fn new(role: MessageRole, content: &str) -> (m: Message)
        ensures
            m@ == (MessageView { role, content: content@ }),
    {
        let content = content.to_owned();
        match role {
            MessageRole::Assistant => Message::Assistant(content),
            MessageRole::User => Message::User(content),
            MessageRole::System => Message::System(content),
        }
    }

    /// Who speaks.
    pub fn kind(&self) -> (r: MessageRole)
        ensures
            r == self@.role,
    {
        match self {
            Message::Assistant(_) => MessageRole::Assistant,
            Message::User(_) => MessageRole::User,
            Message::System(_) => MessageRole::System,
        }
    }

    /// The name of the role of whoever speaks.
    pub fn role(&self) -> (s: &'static str)
        ensures
            s@ == self@.role.name(),
    {
        match self {
            Message::Assistant(_) => "assistant",
            Message::User(_) => "user",
            Message::System(_) => "system",
        }
    }

    /// What was said.
    pub fn content(&self) -> (s: String)
        ensures
            s@ == self@.content,
    {
        match self {
            Message::Assistant(text) => text.clone(),
            Message::User(text) => text.clone(),
            Message::System(text) => text.clone(),
        }
    }

    /// The turn as it is written after the `MESSAGE` keyword.
    pub fn to_text(&self) -> (s: String)
        ensures
            s@ == self@.text(),
    {
        let mut s = self.role().to_owned();
        s.push(':');
        s.push(' ');
        let ghost head = s@;
        match self {
            Message::Assistant(text) => s.append(text.as_str()),
            Message::User(text) => s.append(text.as_str()),
            Message::System(text) => s.append(text.as_str()),
        }
        assert(head =~= self@.role.name() + seq![':', ' ']);
        s
    }
}

} // verus!
