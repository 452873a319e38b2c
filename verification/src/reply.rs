//! Replies of the gateway, ready to be written out.

use vstd::prelude::*;

verus! {

pub const OK: u16 = 200;

pub const NO_CONTENT: u16 = 204;

pub const UNAUTHORIZED: u16 = 401;

pub const CONFLICT: u16 = 409;

pub const SERVICE_UNAVAILABLE: u16 = 503;

/// A member value of a JSON object.
#[derive(Debug)]
pub enum Scalar {
    Bool(bool),
    Number(u32),
    Text(String),
}

/// What a member value holds.
pub enum ScalarView {
    Bool(bool),
    Number(u32),
    Text(Seq<char>),
}

impl View for Scalar {
    type V = ScalarView;

    open spec fn view(&self) -> ScalarView {
        match self {
            Scalar::Bool(flag) => ScalarView::Bool(*flag),
            Scalar::Number(number) => ScalarView::Number(*number),
            Scalar::Text(text) => ScalarView::Text(text@),
        }
    }
}

/// A member of a JSON object.
#[derive(Debug)]
pub struct Member {
    pub name: &'static str,
    pub value: Scalar,
}

/// What the members of an object hold: names and values, in order.
pub open spec fn member_views(members: Seq<Member>) -> Seq<(Seq<char>, ScalarView)> {
    Seq::new(members.len(), |i: int| (members[i].name@, members[i].value@))
}

/// The body of a reply.
#[derive(Debug)]
pub enum Body {
    Empty,
    Text(&'static str),
    Object(Vec<Member>),
}

/// What a body holds.
pub enum BodyView {
    Empty,
    Text(Seq<char>),
    Object(Seq<(Seq<char>, ScalarView)>),
}

impl View for Body {
    type V = BodyView;

    open spec fn view(&self) -> BodyView {
        match self {
            Body::Empty => BodyView::Empty,
            Body::Text(text) => BodyView::Text(text@),
            Body::Object(members) => BodyView::Object(member_views(members@)),
        }
    }
}

/// A reply: its status, the cookie that it sets, if any, and its body.
#[derive(Debug)]
pub struct Reply {
    pub status: u16,
    pub set_cookie: Option<String>,
    pub body: Body,
}

/// What a reply holds.
pub struct ReplyView {
    pub status: u16,
    pub set_cookie: Option<Seq<char>>,
    pub body: BodyView,
}

impl View for Reply {
    type V = ReplyView;

    open spec fn view(&self) -> ReplyView {
        ReplyView {
            status: self.status,
            set_cookie: match self.set_cookie {
                Some(cookie) => Some(cookie@),
                None => None,
            },
            body: self.body@,
        }
    }
}

/// A reply without a cookie whose body is an object with one member.
pub open spec fn single_member(status: u16, name: Seq<char>, value: ScalarView) -> ReplyView {
    ReplyView { status, set_cookie: None, body: BodyView::Object(seq![(name, value)]) }
}

/// A reply without a body.
pub open spec fn empty_reply(status: u16) -> ReplyView {
    ReplyView { status, set_cookie: None, body: BodyView::Empty }
}

impl Reply {
    /// A reply without a body.
    pub fn empty(status: u16) -> (reply: Reply)
        ensures
            reply@ == empty_reply(status),
    {
        Reply { status, set_cookie: None, body: Body::Empty }
    }

    /// A reply of plain text.
    pub fn text(status: u16, text: &'static str) -> (reply: Reply)
        ensures
            reply@ == (ReplyView { status, set_cookie: None, body: BodyView::Text(text@) }),
    {
        Reply { status, set_cookie: None, body: Body::Text(text) }
    }

    /// A reply whose body is an object with one member.
    pub fn single(status: u16, name: &'static str, value: Scalar) -> (reply: Reply)
        ensures
            reply@ == single_member(status, name@, value@),
    {
        let mut members: Vec<Member> = Vec::new();
        members.push(Member { name, value });
        assert(member_views(members@) =~= seq![(name@, value@)]);
        Reply { status, set_cookie: None, body: Body::Object(members) }
    }

    /// A reply that reports an error.
    pub fn error(status: u16, text: String) -> (reply: Reply)
        ensures
            reply@ == single_member(status, "error"@, ScalarView::Text(text@)),
    {
        Reply::single(status, "error", Scalar::Text(text))
    }
}

/// The reply that tells that the gateway is up.
pub fn health() -> (reply: Reply)
    ensures
        reply@ == single_member(OK, "status"@, ScalarView::Text("ok"@)),
{
    Reply::single(OK, "status", Scalar::Text("ok".to_owned()))
}

/// A reply has the status, the cookie and the body that it was made with: a body of one member, or
/// none.
pub proof fn law_replies_hold_what_they_were_made_with(
    status: u16,
    name: Seq<char>,
    value: ScalarView,
)
    ensures
        ({
            let reply = single_member(status, name, value);
            &&& reply.status == status
            &&& reply.set_cookie is None
            &&& reply.body matches BodyView::Object(members)
            &&& members.len() == 1
            &&& members[0] == (name, value)
        }),
        empty_reply(status).status == status,
        empty_reply(status).set_cookie is None,
        empty_reply(status).body is Empty,
{
}

/// What a reply holds is what its fields hold, and what the members of an object hold is what each of
/// them holds, in order.
pub proof fn law_reply_views_show_every_field(reply: Reply, members: Seq<Member>, i: int)
    requires
        0 <= i < members.len(),
    ensures
        reply@.status == reply.status,
        match reply.set_cookie {
            Some(cookie) => reply@.set_cookie == Some(cookie@),
            None => reply@.set_cookie is None,
        },
        match reply.body {
            Body::Empty => reply@.body is Empty,
            Body::Text(text) => reply@.body == BodyView::Text(text@),
            Body::Object(list) => reply@.body == BodyView::Object(member_views(list@)),
        },
        member_views(members).len() == members.len(),
        member_views(members)[i].0 == members[i].name@,
        match members[i].value {
            Scalar::Bool(flag) => member_views(members)[i].1 == ScalarView::Bool(flag),
            Scalar::Number(number) => member_views(members)[i].1 == ScalarView::Number(number),
            Scalar::Text(text) => member_views(members)[i].1 == ScalarView::Text(text@),
        },
{
}

} // verus!
