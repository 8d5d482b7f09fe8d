use vstd::prelude::*;

verus! {

/// Abstract value of a persisted item: the server-assigned identity, the two
/// caller-supplied fields, and the bookkeeping timestamps (microseconds since
/// the Unix epoch).
pub ghost struct ItemModel {
    pub id: int,
    pub name: Seq<char>,
    pub description: Seq<char>,
    pub created_at: int,
    pub updated_at: int,
}

/// A persisted item. `id` is assigned by the store and unique; `created_at`
/// is set once at insertion; `updated_at` is refreshed by every successful
/// update. Timestamps are microseconds since the Unix epoch.
pub struct Item {
    pub id: i32,
    pub name: String,
    pub description: String,
    pub created_at: i64,
    pub updated_at: i64,
}

impl View for Item {
    type V = ItemModel;

    open spec fn view(&self) -> ItemModel {
        ItemModel {
            id: self.id as int,
            name: self.name@,
            description: self.description@,
            created_at: self.created_at as int,
            updated_at: self.updated_at as int,
        }
    }
}

impl Clone for Item {
    fn clone(&self) -> (r: Self)
        ensures
            r@ == self@,
    {
        Item {
            id: self.id,
            name: self.name.clone(),
            description: self.description.clone(),
            created_at: self.created_at,
            updated_at: self.updated_at,
        }
    }
}

/// Abstract value of a caller-supplied payload.
pub ghost struct PayloadModel {
    pub name: Seq<char>,
    pub description: Seq<char>,
}

impl PayloadModel {
    /// A payload is valid when the required `name` field is non-empty; the
    /// description may be empty.
    pub open spec fn valid(self) -> bool {
        self.name.len() > 0
    }
}

/// The caller-supplied subset of an item used for create and update; it never
/// carries an identity or timestamps.
pub struct ItemPayload {
    pub name: String,
    pub description: String,
}

impl View for ItemPayload {
    type V = PayloadModel;

    open spec fn view(&self) -> PayloadModel {
        PayloadModel { name: self.name@, description: self.description@ }
    }
}

impl Clone for ItemPayload {
    fn clone(&self) -> (r: Self)
        ensures
            r@ == self@,
    {
        ItemPayload { name: self.name.clone(), description: self.description.clone() }
    }
}

impl ItemPayload {
    /// Decides validity of a payload: exactly when the name is non-empty.
    pub fn is_valid(&self) -> (r: bool)
        ensures
            r == self@.valid(),
    {
        !self.name.as_str().is_empty()
    }
}

} // verus!
