//! The wire shapes: what a posted body parses to and how stored rows are
//! projected for readers.

use crate::store::{MessageV, PostMessage, PostUser, UserV};
use crate::time::{render_timestamp, rendered_timestamp};
use vstd::prelude::*;

verus! {

/// Wire shape of a posted message body.
#[derive(Debug)]
pub struct ReceiveMessageJson {
    pub title: String,
    pub content: String,
}

/// Wire representation of a message: the timestamp rendered to a display
/// string.
#[derive(Debug, Clone, PartialEq, Eq)]
pub struct MessageJson {
    pub id: i32,
    pub user: i32,
    pub title: String,
    pub content: String,
    pub pub_date: String,
}

/// Wire representation of a user.
#[derive(Debug, Clone, PartialEq, Eq)]
pub struct UserJson {
    pub id: i32,
    pub name: String,
    pub register_date: String,
}

/// Mathematical model of a wire message.
#[verifier::ext_equal]
pub ghost struct MessageJsonV {
    pub id: int,
    pub user: int,
    pub title: Seq<char>,
    pub content: Seq<char>,
    pub pub_date: Seq<char>,
}

/// Mathematical model of a wire user.
#[verifier::ext_equal]
pub ghost struct UserJsonV {
    pub id: int,
    pub name: Seq<char>,
    pub register_date: Seq<char>,
}

impl View for MessageJson {
    type V = MessageJsonV;

    open spec fn view(&self) -> MessageJsonV {
        MessageJsonV {
            id: self.id as int,
            user: self.user as int,
            title: self.title@,
            content: self.content@,
            pub_date: self.pub_date@,
        }
    }
}

impl DeepView for MessageJson {
    type V = MessageJsonV;

    open spec fn deep_view(&self) -> MessageJsonV {
        self.view()
    }
}

impl View for UserJson {
    type V = UserJsonV;

    open spec fn view(&self) -> UserJsonV {
        UserJsonV { id: self.id as int, name: self.name@, register_date: self.register_date@ }
    }
}

/// The wire view of a stored message row: the same fields with the
/// timestamp rendered.
pub open spec fn message_json_view(m: MessageV) -> MessageJsonV {
    MessageJsonV {
        id: m.id,
        user: m.user,
        title: m.title,
        content: m.content,
        pub_date: rendered_timestamp(m.pub_date.secs as int, m.pub_date.nanos as int),
    }
}

/// The wire view of a stored user row.
pub open spec fn user_json_view(u: UserV) -> UserJsonV {
    UserJsonV {
        id: u.id,
        name: u.name,
        register_date: rendered_timestamp(u.register_date.secs as int, u.register_date.nanos as int),
    }
}

impl MessageJson {
    /// Projects a stored message row to its wire representation.
    pub fn of_message(m: &PostMessage) -> (r: MessageJson)
        requires
            m.wf(),
        ensures
            r@ == message_json_view(m@),
    {
        MessageJson {
            id: m.id,
            user: m.user,
            title: m.title.clone(),
            content: m.content.clone(),
            pub_date: render_timestamp(&m.pub_date),
        }
    }
}

impl UserJson {
    /// Projects a stored user row to its wire representation.
    pub fn of_user(u: &PostUser) -> (r: UserJson)
        requires
            u.wf(),
        ensures
            r@ == user_json_view(u@),
    {
        UserJson {
            id: u.id,
            name: u.name.clone(),
            register_date: render_timestamp(&u.register_date),
        }
    }
}

/// What a posted body parses to: the `title` and `content` strings of a
/// JSON object of that shape, or nothing.
pub uninterp spec fn parsed_body(raw: Seq<u8>) -> Option<(Seq<char>, Seq<char>)>;

/// Relies on `serde_json::from_slice`, `serde_json::Value::get` and
/// `serde_json::Value::as_str`: whether the bytes are UTF-8 encoded JSON
/// carrying string members `title` and `content`, and which strings, is a
/// function of the bytes alone.
#[verifier::external_body]
pub(crate) fn parse_message_body(raw: &[u8]) -> (r: Option<ReceiveMessageJson>)
    ensures
        match r {
            Some(m) => parsed_body(raw@) == Some((m.title@, m.content@)),
            None => parsed_body(raw@) is None,
        },
{
    let value: serde_json::Value = serde_json::from_slice(raw).ok()?;
    let title = value.get("title")?.as_str()?.to_string();
    let content = value.get("content")?.as_str()?.to_string();
    Some(ReceiveMessageJson { title, content })
}

} // verus!
