//! The user record and its spec-level image.
use vstd::prelude::*;

verus! {

/// Spec-level image of a record: the id as a mathematical integer, the
/// text fields as byte sequences.
#[verifier::ext_equal]
pub ghost struct UserView {
    pub id: Option<int>,
    pub name: Seq<u8>,
    pub email: Seq<u8>,
}

/// A user record. `id` is `None` for a record decoded from a request body
/// and `Some` once the store has assigned an id.
pub struct User {
    pub id: Option<i32>,
    pub name: Vec<u8>,
    pub email: Vec<u8>,
}

impl View for User {
    type V = UserView;

    open spec fn view(&self) -> UserView {
        UserView {
            id: match self.id {
                Some(i) => Some(i as int),
                None => None,
            },
            name: self.name@,
            email: self.email@,
        }
    }
}

/// Copies a byte vector; the copy has the same view.
pub fn copy_bytes(v: &Vec<u8>) -> (r: Vec<u8>)
    ensures
        r@ == v@,
{
    let r = v.clone();
    proof {
        assert(r@ =~= v@);
    }
    r
}

/// Copies a record; the copy has the same view.
pub fn copy_user(u: &User) -> (r: User)
    ensures
        r@ == u@,
{
    User { id: u.id, name: copy_bytes(&u.name), email: copy_bytes(&u.email) }
}

} // verus!
