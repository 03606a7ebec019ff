use vstd::prelude::*;

verus! {

/// A post's identifier.
#[derive(Clone, Debug, PartialEq)]
pub struct Id(pub u64);

/// A post's title.
#[derive(Clone, Debug, PartialEq)]
pub struct Title(pub String);

/// A post's text.
#[derive(Clone, Debug, PartialEq)]
pub struct Body(pub String);

/// The states a post moves through; each is a type, so that only the moves
/// `New -> Unmoderated -> Published -> Deleted` (or a denial straight to
/// `Deleted`) compile at all.
pub struct New;

pub struct Unmoderated;

pub struct Deleted;

pub struct Published;

/// A post in state `S`.  The state lives only in the type: every move keeps
/// the post's content, which the contracts state.
pub struct Post<S> {
    id: Id,
    user_id: crate::user::Id,
    title: Title,
    body: Body,
    state: core::marker::PhantomData<S>,
}

impl<S> Post<S> {
    /// The post's identifier.
    pub closed spec fn spec_id(self) -> Id {
        self.id
    }

    /// The author's identifier.
    pub closed spec fn spec_user_id(self) -> crate::user::Id {
        self.user_id
    }

    /// The post's title.
    pub closed spec fn spec_title(self) -> Title {
        self.title
    }

    /// The post's text.
    pub closed spec fn spec_body(self) -> Body {
        self.body
    }
}

impl Post<New> {
    pub fn new(id: Id, user_id: crate::user::Id, title: Title, body: Body) -> (p: Post<New>)
        ensures
            p.spec_id() == id,
            p.spec_user_id() == user_id,
            p.spec_title() == title,
            p.spec_body() == body,
    {
        Post { id, user_id, title, body, state: core::marker::PhantomData }
    }

    /// Hands the new post to moderation.
    pub fn publish(self) -> (p: Post<Unmoderated>)
        ensures
            p.spec_id() == self.spec_id(),
            p.spec_user_id() == self.spec_user_id(),
            p.spec_title() == self.spec_title(),
            p.spec_body() == self.spec_body(),
    {
        Post {
            id: self.id,
            user_id: self.user_id,
            title: self.title,
            body: self.body,
            state: core::marker::PhantomData,
        }
    }
}

impl Post<Unmoderated> {
    /// Moderation lets the post through.
    pub fn allow(self) -> (p: Post<Published>)
        ensures
            p.spec_id() == self.spec_id(),
            p.spec_user_id() == self.spec_user_id(),
            p.spec_title() == self.spec_title(),
            p.spec_body() == self.spec_body(),
    {
        Post {
            id: self.id,
            user_id: self.user_id,
            title: self.title,
            body: self.body,
            state: core::marker::PhantomData,
        }
    }

    /// Moderation turns the post down.
    pub fn deny(self) -> (p: Post<Deleted>)
        ensures
            p.spec_id() == self.spec_id(),
            p.spec_user_id() == self.spec_user_id(),
            p.spec_title() == self.spec_title(),
            p.spec_body() == self.spec_body(),
    {
        Post {
            id: self.id,
            user_id: self.user_id,
            title: self.title,
            body: self.body,
            state: core::marker::PhantomData,
        }
    }
}

impl Post<Published> {
    /// Takes the published post down.
    pub fn delete(self) -> (p: Post<Deleted>)
        ensures
            p.spec_id() == self.spec_id(),
            p.spec_user_id() == self.spec_user_id(),
            p.spec_title() == self.spec_title(),
            p.spec_body() == self.spec_body(),
    {
        Post {
            id: self.id,
            user_id: self.user_id,
            title: self.title,
            body: self.body,
            state: core::marker::PhantomData,
        }
    }
}

} // verus!
