//! A JSON document model holding, as plain values, what the protocol logic reads.
use vstd::prelude::*;

verus! {

/// The mathematical value of a JSON document.
pub enum JsonView {
    Null,
    Bool(bool),
    /// A number, by its decimal text.
    Number(Seq<char>),
    Str(Seq<char>),
    Array(Seq<JsonView>),
    /// Members in document order.
    Object(Seq<MemberView>),
}

/// The mathematical value of an object member.
pub struct MemberView {
    pub key: Seq<char>,
    pub value: JsonView,
}

/// An object member: a key and its value.
pub struct Member {
    pub key: String,
    pub value: Json,
}

/// A JSON document.
pub enum Json {
    Null,
    Bool(bool),
    /// A number, by its decimal text (as JSON prints it).
    Number(String),
    Str(String),
    Array(Vec<Json>),
    /// Members in document order.
    Object(Vec<Member>),
}

/// The values of a sequence of documents.
pub open spec fn items_view(items: Seq<Json>) -> Seq<JsonView> {
    Seq::new(items.len(), |k: int| items[k]@)
}

/// The values of a sequence of object members.
pub open spec fn members_view(members: Seq<Member>) -> Seq<MemberView> {
    Seq::new(members.len(), |k: int| MemberView { key: members[k].key@, value: members[k].value@ })
}

impl View for Json {
    type V = JsonView;

    open spec fn view(&self) -> JsonView
        decreases self,
    {
        match self {
            Json::Null => JsonView::Null,
            Json::Bool(b) => JsonView::Bool(*b),
            Json::Number(n) => JsonView::Number(n@),
            Json::Str(s) => JsonView::Str(s@),
            Json::Array(items) => JsonView::Array(
                Seq::new(items@.len(), |k: int| if 0 <= k < items@.len() { items@[k].view() } else { JsonView::Null }),
            ),
            Json::Object(members) => JsonView::Object(
                Seq::new(members@.len(), |k: int| if 0 <= k < members@.len() { MemberView { key: members@[k].key@, value: members@[k].value.view() } } else { MemberView { key: Seq::empty(), value: JsonView::Null } }),
            ),
        }
    }
}

impl Json {
    /// Whether this document is an object.
    pub fn is_object(&self) -> (r: bool)
        ensures
            r == (self@ is Object),
    {
        match self {
            Json::Object(_) => true,
            _ => false,
        }
    }

    /// Whether this document is an array or an object.
    pub fn is_container(&self) -> (r: bool)
        ensures
            r == (self@ is Array || self@ is Object),
    {
        match self {
            Json::Array(_) => true,
            Json::Object(_) => true,
            _ => false,
        }
    }

    /// A copy of this document.
    #[verifier::loop_isolation(false)]
    pub fn copy(&self) -> (r: Json)
        ensures
            r@ == self@,
        decreases self,
    {
        match self {
            Json::Null => Json::Null,
            Json::Bool(b) => Json::Bool(*b),
            Json::Number(n) => Json::Number(n.clone()),
            Json::Str(s) => Json::Str(s.clone()),
            Json::Array(items) => {
                let mut out: Vec<Json> = Vec::new();
                for k in 0..items.len()
                    invariant
                        items_view(out@) == items_view(items@).take(k as int),
                {
                    proof {
                        assert(decreases_to!(*items => items[k as int]));
                    }
                    out.push(items[k].copy());
                    assert(items_view(out@) =~= items_view(items@).take(k + 1));
                }
                let r = Json::Array(out);
                assert(r@ == self@) by {
                    assert(items_view(items@).take(items@.len() as int) =~= items_view(items@));
                    assert(r@->Array_0 =~= items_view(out@));
                    assert(self@->Array_0 =~= items_view(items@));
                }
                r
            },
            Json::Object(members) => {
                let mut out: Vec<Member> = Vec::new();
                for k in 0..members.len()
                    invariant
                        members_view(out@) == members_view(members@).take(k as int),
                {
                    let key = members[k].key.clone();
                    proof {
                        assert(decreases_to!(*members => members[k as int]));
                    }
                    let value = members[k].value.copy();
                    out.push(Member { key, value });
                    assert(members_view(out@) =~= members_view(members@).take(k + 1));
                }
                let r = Json::Object(out);
                assert(r@ == self@) by {
                    assert(members_view(members@).take(members@.len() as int) =~= members_view(members@));
                    assert(r@->Object_0 =~= members_view(out@));
                    assert(self@->Object_0 =~= members_view(members@));
                }
                r
            },
        }
    }
}

} // verus!
