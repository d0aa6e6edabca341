//! A user of the service as this program records it.

use vstd::prelude::*;

verus! {

/// A user: name, id and the time of joining, in seconds since the Unix epoch
/// (UTC).
pub struct User {
    username: String,
    user_id: u64,
    join_date: i64,
}

impl View for User {
    type V = (Seq<char>, u64, i64);

    /// The name, the id and the joining time.
    closed spec fn view(&self) -> (Seq<char>, u64, i64) {
        (self.username@, self.user_id, self.join_date)
    }
}

impl Default for User {
    /// An empty name, id 0, and the Unix epoch as joining time (what
    /// `DateTime::<Utc>::default()` is).
    fn default() -> (r: Self)
        ensures
            r@ == (Seq::<char>::empty(), 0u64, 0i64),
    {
        User { username: String::new(), user_id: 0, join_date: 0 }
    }
}

impl User {
    /// The user's name.
    pub fn username(&self) -> (s: &String)
        ensures
            s@ == self@.0,
    {
        &self.username
    }

    /// The user's id.
    pub fn user_id(&self) -> (id: u64)
        ensures
            id == self@.1,
    {
        self.user_id
    }

    /// When the user joined, in seconds since the Unix epoch.
    pub fn join_date(&self) -> (t: i64)
        ensures
            t == self@.2,
    {
        self.join_date
    }
}

} // verus!
