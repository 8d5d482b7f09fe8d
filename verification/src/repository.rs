use vstd::prelude::*;

use crate::item::{Item, ItemModel, ItemPayload, PayloadModel};

verus! {

/// Abstract state of the items table: the rows in insertion order, the next
/// identity the store will assign, and the latest timestamp it has seen.
pub ghost struct StoreModel {
    pub rows: Seq<ItemModel>,
    pub next_id: int,
    pub clock: int,
}

impl StoreModel {
    /// Well-formedness of the table:
    /// - identities are positive, unique, and below the next one to assign,
    ///   so an identity is never reused, even after a deletion;
    /// - every row was created no later than it was last updated, and no
    ///   later than the store's clock;
    /// - every row carries a non-empty name;
    /// - insertion order agrees with creation time.
    pub open spec fn wf(self) -> bool {
        &&& 1 <= self.next_id
        &&& forall|i: int| 0 <= i < self.rows.len() ==> {
            &&& 1 <= (#[trigger] self.rows[i]).id < self.next_id
            &&& self.rows[i].created_at <= self.rows[i].updated_at <= self.clock
            &&& self.rows[i].name.len() > 0
        }
        &&& forall|i: int, j: int| 0 <= i < j < self.rows.len() ==> {
            &&& (#[trigger] self.rows[i]).id != (#[trigger] self.rows[j]).id
            &&& self.rows[i].created_at <= self.rows[j].created_at
        }
    }
}

/// Index of the first row carrying `id`, or -1 when no row does. Under
/// `StoreModel::wf` at most one row can match, so this is the only index.
pub open spec fn index_of_id(rows: Seq<ItemModel>, id: int) -> int
    decreases rows.len(),
{
    if rows.len() == 0 {
        -1
    } else if rows[0].id == id {
        0
    } else {
        let rest = index_of_id(rows.skip(1), id);
        if rest == -1 {
            -1
        } else {
            rest + 1
        }
    }
}

/// Whether some row carries `id`.
pub open spec fn contains_id(rows: Seq<ItemModel>, id: int) -> bool {
    index_of_id(rows, id) >= 0
}

/// The row carrying `id`, or `None` when no row does.
pub open spec fn lookup(rows: Seq<ItemModel>, id: int) -> Option<ItemModel> {
    if contains_id(rows, id) {
        Some(rows[index_of_id(rows, id)])
    } else {
        None
    }
}

/// `index_of_id` always answers -1 on a sequence without the identity, and
/// otherwise points at a matching row before which no row matches.
pub proof fn lemma_index_of_id_props(rows: Seq<ItemModel>, id: int)
    ensures
        index_of_id(rows, id) == -1 || 0 <= index_of_id(rows, id) < rows.len(),
        index_of_id(rows, id) == -1 ==> forall|j: int|
            0 <= j < rows.len() ==> (#[trigger] rows[j]).id != id,
        index_of_id(rows, id) >= 0 ==> rows[index_of_id(rows, id)].id == id,
        index_of_id(rows, id) >= 0 ==> forall|j: int|
            0 <= j < index_of_id(rows, id) ==> (#[trigger] rows[j]).id != id,
    decreases rows.len(),
{
    if rows.len() == 0 {
    } else if rows[0].id == id {
    } else {
        lemma_index_of_id_props(rows.skip(1), id);
        let rest = index_of_id(rows.skip(1), id);
        if rest == -1 {
            assert forall|j: int| 0 <= j < rows.len() implies (#[trigger] rows[j]).id != id by {
                if j > 0 {
                    assert(rows.skip(1)[j - 1] == rows[j]);
                }
            }
        } else {
            assert(rows[rest + 1] == rows.skip(1)[rest]);
            assert forall|j: int| 0 <= j < rest + 1 implies (#[trigger] rows[j]).id != id by {
                if j > 0 {
                    assert(rows.skip(1)[j - 1] == rows[j]);
                }
            }
        }
    }
}

/// If `rows[i]` carries `id` and no earlier row does, `index_of_id` answers `i`.
pub proof fn lemma_index_of_id_at(rows: Seq<ItemModel>, id: int, i: int)
    requires
        0 <= i < rows.len(),
        rows[i].id == id,
        forall|j: int| 0 <= j < i ==> (#[trigger] rows[j]).id != id,
    ensures
        index_of_id(rows, id) == i,
    decreases rows.len(),
{
    if i == 0 {
    } else {
        assert(forall|k: int| 0 <= k < rows.skip(1).len() ==> rows.skip(1)[k] == rows[k + 1]);
        lemma_index_of_id_at(rows.skip(1), id, i - 1);
    }
}

/// What `create` does to the abstract state: append a fresh row carrying the
/// next identity and `now` as both timestamps, advance the identity and the
/// clock. The appended row is also the result.
pub open spec fn create_model(m: StoreModel, p: PayloadModel, now: int) -> (StoreModel, ItemModel) {
    let row = ItemModel {
        id: m.next_id,
        name: p.name,
        description: p.description,
        created_at: now,
        updated_at: now,
    };
    (StoreModel { rows: m.rows.push(row), next_id: m.next_id + 1, clock: now }, row)
}

/// What `update` does to the abstract state: when a row carries `id`, replace
/// both caller fields, keep `created_at`, refresh `updated_at` to `now`, and
/// advance the clock; the replaced row is the result. When no row matches,
/// the state is untouched and the result is `None`.
pub open spec fn update_model(m: StoreModel, id: int, p: PayloadModel, now: int) -> (StoreModel,
    Option<ItemModel>) {
    if contains_id(m.rows, id) {
        let i = index_of_id(m.rows, id);
        let row = ItemModel {
            id: id,
            name: p.name,
            description: p.description,
            created_at: m.rows[i].created_at,
            updated_at: now,
        };
        (StoreModel { rows: m.rows.update(i, row), next_id: m.next_id, clock: now }, Some(row))
    } else {
        (m, None)
    }
}

/// What `delete` does to the abstract state: physically remove the row
/// carrying `id` when there is one, and report whether there was.
pub open spec fn delete_model(m: StoreModel, id: int) -> (StoreModel, bool) {
    if contains_id(m.rows, id) {
        (
            StoreModel {
                rows: m.rows.remove(index_of_id(m.rows, id)),
                next_id: m.next_id,
                clock: m.clock,
            },
            true,
        )
    } else {
        (m, false)
    }
}

/// `create` preserves well-formedness and leaves the clock at `now`.
pub proof fn lemma_create_preserves_wf(m: StoreModel, p: PayloadModel, now: int)
    requires
        m.wf(),
        p.valid(),
        now >= m.clock,
    ensures
        create_model(m, p, now).0.wf(),
        create_model(m, p, now).0.clock == now,
{
    let m2 = create_model(m, p, now).0;
    assert forall|i: int, j: int| 0 <= i < j < m2.rows.len() implies {
        &&& (#[trigger] m2.rows[i]).id != (#[trigger] m2.rows[j]).id
        &&& m2.rows[i].created_at <= m2.rows[j].created_at
    } by {
        assert(m2.rows[i] == m.rows[i]);
    }
}

/// `update` preserves well-formedness; on a hit the clock moves to `now`.
pub proof fn lemma_update_preserves_wf(m: StoreModel, id: int, p: PayloadModel, now: int)
    requires
        m.wf(),
        p.valid(),
        now >= m.clock,
    ensures
        update_model(m, id, p, now).0.wf(),
{
    if contains_id(m.rows, id) {
        let k = index_of_id(m.rows, id);
        lemma_index_of_id_props(m.rows, id);
        let m2 = update_model(m, id, p, now).0;
        assert forall|i: int| 0 <= i < m2.rows.len() implies {
            &&& 1 <= (#[trigger] m2.rows[i]).id < m2.next_id
            &&& m2.rows[i].created_at <= m2.rows[i].updated_at <= m2.clock
            &&& m2.rows[i].name.len() > 0
        } by {
            if i != k {
                assert(m2.rows[i] == m.rows[i]);
            }
            assert(m.rows[i].created_at <= m.rows[i].updated_at <= m.clock);
        }
        assert forall|i: int, j: int| 0 <= i < j < m2.rows.len() implies {
            &&& (#[trigger] m2.rows[i]).id != (#[trigger] m2.rows[j]).id
            &&& m2.rows[i].created_at <= m2.rows[j].created_at
        } by {
            assert(m.rows[i].id != m.rows[j].id);
            assert(m.rows[i].created_at <= m.rows[j].created_at);
            if i != k {
                assert(m2.rows[i] == m.rows[i]);
            }
            if j != k {
                assert(m2.rows[j] == m.rows[j]);
            }
        }
    }
}

/// `delete` preserves well-formedness and never touches the clock.
pub proof fn lemma_delete_preserves_wf(m: StoreModel, id: int)
    requires
        m.wf(),
    ensures
        delete_model(m, id).0.wf(),
        delete_model(m, id).0.clock == m.clock,
{
    if contains_id(m.rows, id) {
        let k = index_of_id(m.rows, id);
        lemma_index_of_id_props(m.rows, id);
        let m2 = delete_model(m, id).0;
        assert forall|i: int| 0 <= i < m2.rows.len() implies {
            &&& 1 <= (#[trigger] m2.rows[i]).id < m2.next_id
            &&& m2.rows[i].created_at <= m2.rows[i].updated_at <= m2.clock
            &&& m2.rows[i].name.len() > 0
        } by {
            let i0: int = if i < k {
                i
            } else {
                i + 1
            };
            assert(m2.rows[i] == m.rows[i0]);
            assert(m.rows[i0].created_at <= m.rows[i0].updated_at <= m.clock);
        }
        assert forall|i: int, j: int| 0 <= i < j < m2.rows.len() implies {
            &&& (#[trigger] m2.rows[i]).id != (#[trigger] m2.rows[j]).id
            &&& m2.rows[i].created_at <= m2.rows[j].created_at
        } by {
            let i0: int = if i < k {
                i
            } else {
                i + 1
            };
            let j0: int = if j < k {
                j
            } else {
                j + 1
            };
            assert(m2.rows[i] == m.rows[i0]);
            assert(m2.rows[j] == m.rows[j0]);
            assert(m.rows[i0].id != m.rows[j0].id);
            assert(m.rows[i0].created_at <= m.rows[j0].created_at);
        }
    }
}

/// What `list` returns: every row, most recently created first.
pub open spec fn list_model(m: StoreModel) -> Seq<ItemModel> {
    m.rows.reverse()
}

/// The repository for the item resource: the five data operations as atomic
/// state transitions, each pinned to its abstract counterpart. The caller
/// supplies the current time, so that the store never reads a clock itself;
/// each call's time may not precede what the store has already recorded.
pub struct ItemStore {
    items: Vec<Item>,
    next_id: i32,
    clock: i64,
}

impl View for ItemStore {
    type V = StoreModel;

    closed spec fn view(&self) -> StoreModel {
        StoreModel {
            rows: self.items@.map_values(|it: Item| it@),
            next_id: self.next_id as int,
            clock: self.clock as int,
        }
    }
}

impl ItemStore {
    /// Well-formedness of the store: its abstract state is well-formed.
    pub open spec fn wf(&self) -> bool {
        self@.wf()
    }

    /// An empty store: no rows, identities start at 1, clock at the epoch.
    pub fn new() -> (s: ItemStore)
        ensures
            s.wf(),
            s@ == (StoreModel { rows: Seq::<ItemModel>::empty(), next_id: 1, clock: 0 }),
    {
        let s = ItemStore { items: Vec::new(), next_id: 1, clock: 0 };
        proof {
            assert(s@.rows =~= Seq::<ItemModel>::empty());
        }
        s
    }

    /// Inserts exactly one new row built from the payload: fresh identity,
    /// both timestamps set to `now`, and returns it. The caller's time may
    /// not precede the store's clock, and the identity space must not be
    /// exhausted; the payload must carry a non-empty name.
    pub fn create_item(&mut self, input: ItemPayload, now: i64) -> (r: Item)
        requires
            old(self).wf(),
            input@.valid(),
            now as int >= old(self)@.clock,
            old(self)@.next_id < i32::MAX as int,
        ensures
            final(self).wf(),
            (final(self)@, r@) == create_model(old(self)@, input@, now as int),
    {
        let id = self.next_id;
        let row = Item {
            id,
            name: input.name,
            description: input.description,
            created_at: now,
            updated_at: now,
        };
        let result = row.clone();
        self.items.push(row);
        self.next_id = id + 1;
        self.clock = now;
        proof {
            let m = old(self)@;
            let (m2, rm) = create_model(m, input@, now as int);
            assert(self@.rows =~= m2.rows);
            lemma_create_preserves_wf(m, input@, now as int);
        }
        result
    }

    /// Returns the row carrying `id`, or `None` when there is none; the
    /// store is not touched.
    pub fn get_item_by_id(&self, id: i32) -> (r: Option<Item>)
        requires
            self.wf(),
        ensures
            match r {
                Some(item) => lookup(self@.rows, id as int) == Some(item@),
                None => lookup(self@.rows, id as int) is None,
            },
    {
        let n = self.items.len();
        let mut i: usize = 0;
        while i < n
            invariant
                0 <= i <= n,
                n == self.items.len(),
                self.wf(),
                forall|j: int| 0 <= j < i ==> (#[trigger] self@.rows[j]).id != id as int,
            decreases n - i,
        {
            if self.items[i].id == id {
                proof {
                    lemma_index_of_id_at(self@.rows, id as int, i as int);
                }
                return Some(self.items[i].clone());
            }
            i = i + 1;
        }
        proof {
            lemma_index_of_id_props(self@.rows, id as int);
        }
        None
    }

    /// Returns every row, most recently created first; the store is not
    /// touched. Under `wf` this order is also by creation time, descending.
    pub fn get_all_items(&self) -> (r: Vec<Item>)
        requires
            self.wf(),
        ensures
            r@.map_values(|it: Item| it@) == list_model(self@),
    {
        let n = self.items.len();
        let mut r: Vec<Item> = Vec::new();
        let mut i: usize = 0;
        while i < n
            invariant
                0 <= i <= n,
                n == self.items.len(),
                r@.len() == i,
                forall|j: int| 0 <= j < i ==> (#[trigger] r@[j])@ == self@.rows[n - 1 - j],
            decreases n - i,
        {
            let item = self.items[n - 1 - i].clone();
            r.push(item);
            i = i + 1;
        }
        proof {
            assert(r@.map_values(|it: Item| it@) =~= list_model(self@));
        }
        r
    }

    /// When a row carries `id`, fully replaces its two caller fields with
    /// the payload's, keeps `created_at`, refreshes `updated_at` to `now`,
    /// and returns the updated row; when none does, leaves the store
    /// untouched and returns `None`.
    pub fn update_item_by_id(&mut self, id: i32, input: &ItemPayload, now: i64) -> (r: Option<
        Item,
    >)
        requires
            old(self).wf(),
            input@.valid(),
            now as int >= old(self)@.clock,
        ensures
            final(self).wf(),
            match r {
                Some(item) => (final(self)@, Some(item@)) == update_model(
                    old(self)@,
                    id as int,
                    input@,
                    now as int,
                ),
                None => final(self)@ == old(self)@ && update_model(
                    old(self)@,
                    id as int,
                    input@,
                    now as int,
                ).1 is None,
            },
    {
        let n = self.items.len();
        let mut i: usize = 0;
        while i < n
            invariant
                0 <= i <= n,
                n == self.items.len(),
                self.wf(),
                self == old(self),
                input@.valid(),
                now as int >= old(self)@.clock,
                forall|j: int| 0 <= j < i ==> (#[trigger] self@.rows[j]).id != id as int,
            decreases n - i,
        {
            if self.items[i].id == id {
                proof {
                    lemma_index_of_id_at(self@.rows, id as int, i as int);
                }
                let old_row = self.items.remove(i);
                let row = Item {
                    id,
                    name: input.name.clone(),
                    description: input.description.clone(),
                    created_at: old_row.created_at,
                    updated_at: now,
                };
                let result = row.clone();
                self.items.insert(i, row);
                self.clock = now;
                proof {
                    let m = old(self)@;
                    let (m2, res) = update_model(m, id as int, input@, now as int);
                    assert(self@.rows =~= m2.rows);
                    lemma_update_preserves_wf(m, id as int, input@, now as int);
                }
                return Some(result);
            }
            i = i + 1;
        }
        proof {
            lemma_index_of_id_props(self@.rows, id as int);
        }
        None
    }

    /// Physically removes the row carrying `id` and reports whether there
    /// was one. Deleting an absent identity reports `false`, not an error,
    /// and leaves the store untouched.
    pub fn delete_item_by_id(&mut self, id: i32) -> (r: bool)
        requires
            old(self).wf(),
        ensures
            final(self).wf(),
            (final(self)@, r) == delete_model(old(self)@, id as int),
    {
        let n = self.items.len();
        let mut i: usize = 0;
        while i < n
            invariant
                0 <= i <= n,
                n == self.items.len(),
                self.wf(),
                self == old(self),
                forall|j: int| 0 <= j < i ==> (#[trigger] self@.rows[j]).id != id as int,
            decreases n - i,
        {
            if self.items[i].id == id {
                proof {
                    lemma_index_of_id_at(self@.rows, id as int, i as int);
                }
                self.items.remove(i);
                proof {
                    let m = old(self)@;
                    let (m2, present) = delete_model(m, id as int);
                    assert(self@.rows =~= m2.rows);
                    lemma_delete_preserves_wf(m, id as int);
                }
                return true;
            }
            i = i + 1;
        }
        proof {
            lemma_index_of_id_props(self@.rows, id as int);
        }
        false
    }

    /// The number of rows currently stored.
    pub fn len(&self) -> (n: usize)
        ensures
            n == self@.rows.len(),
    {
        self.items.len()
    }

    /// The latest timestamp the store has recorded; a caller's `now` for the
    /// mutating operations may not precede it.
    pub fn clock(&self) -> (c: i64)
        ensures
            c as int == self@.clock,
    {
        self.clock
    }

    /// Whether the store can still assign a fresh identity.
    pub fn has_capacity(&self) -> (r: bool)
        ensures
            r == (self@.next_id < i32::MAX as int),
    {
        self.next_id < i32::MAX
    }
}

/// Creating an item and then fetching the returned identity yields exactly
/// the created item, whose two timestamps are equal.
pub proof fn lemma_create_then_get(m: StoreModel, p: PayloadModel, now: int)
    requires
        m.wf(),
        p.valid(),
        now >= m.clock,
    ensures
        ({
            let (m2, row) = create_model(m, p, now);
            &&& lookup(m2.rows, row.id) == Some(row)
            &&& row.created_at == row.updated_at
        }),
{
    let (m2, row) = create_model(m, p, now);
    assert forall|j: int| 0 <= j < m.rows.len() implies (#[trigger] m2.rows[j]).id != row.id by {
        assert(m2.rows[j] == m.rows[j]);
    }
    lemma_index_of_id_at(m2.rows, row.id, m.rows.len() as int);
}

/// Updating an existing identity and then fetching it reflects exactly the
/// new payload: `created_at` is unchanged and `updated_at` has moved to
/// `now`, no earlier than it stood before.
pub proof fn lemma_update_then_get(m: StoreModel, id: int, p: PayloadModel, now: int)
    requires
        m.wf(),
        p.valid(),
        now >= m.clock,
        contains_id(m.rows, id),
    ensures
        ({
            let (m2, res) = update_model(m, id, p, now);
            &&& lookup(m.rows, id) matches Some(before) && res matches Some(after)
                && lookup(m2.rows, id) == Some(after) && after.name == p.name
                && after.description == p.description && after.created_at == before.created_at
                && after.updated_at == now && before.updated_at <= after.updated_at
        }),
{
    let k = index_of_id(m.rows, id);
    lemma_index_of_id_props(m.rows, id);
    let (m2, res) = update_model(m, id, p, now);
    assert forall|j: int| 0 <= j < k implies (#[trigger] m2.rows[j]).id != id by {
        assert(m2.rows[j] == m.rows[j]);
    }
    lemma_index_of_id_at(m2.rows, id, k);
    assert(m.rows[k].updated_at <= m.clock);
}

/// Deleting an identity reports exactly whether a row carried it; afterwards
/// fetching that identity yields not-found, and a second delete reports
/// "was not present".
pub proof fn lemma_delete_then_get(m: StoreModel, id: int)
    requires
        m.wf(),
    ensures
        ({
            let (m2, present) = delete_model(m, id);
            &&& present == contains_id(m.rows, id)
            &&& lookup(m2.rows, id) is None
            &&& delete_model(m2, id).1 == false
        }),
{
    lemma_index_of_id_props(m.rows, id);
    if contains_id(m.rows, id) {
        let k = index_of_id(m.rows, id);
        let (m2, present) = delete_model(m, id);
        assert forall|j: int| 0 <= j < m2.rows.len() implies (#[trigger] m2.rows[j]).id != id by {
            let j0: int = if j < k {
                j
            } else {
                j + 1
            };
            assert(m2.rows[j] == m.rows[j0]);
            if j0 < k {
                assert(m.rows[j0].id != m.rows[k].id);
            } else {
                assert(m.rows[k].id != m.rows[j0].id);
            }
        }
        lemma_index_of_id_props(m2.rows, id);
    }
}

/// After creating three items in order, listing yields them newest first,
/// ahead of whatever was already stored.
pub proof fn lemma_list_after_creates(
    m: StoreModel,
    a: PayloadModel,
    b: PayloadModel,
    c: PayloadModel,
    ta: int,
    tb: int,
    tc: int,
)
    requires
        m.wf(),
        a.valid(),
        b.valid(),
        c.valid(),
        ta >= m.clock,
        tb >= ta,
        tc >= tb,
    ensures
        ({
            let (m1, ra) = create_model(m, a, ta);
            let (m2, rb) = create_model(m1, b, tb);
            let (m3, rc) = create_model(m2, c, tc);
            list_model(m3) == seq![rc, rb, ra] + list_model(m)
        }),
{
    let (m1, ra) = create_model(m, a, ta);
    let (m2, rb) = create_model(m1, b, tb);
    let (m3, rc) = create_model(m2, c, tc);
    assert(list_model(m3) =~= seq![rc, rb, ra] + list_model(m));
}

/// A deleted identity is never reassigned: deleting any stored identity and
/// then creating a new item yields a strictly larger identity.
pub proof fn lemma_no_id_reuse(m: StoreModel, id: int, p: PayloadModel, now: int)
    requires
        m.wf(),
        p.valid(),
        now >= m.clock,
        contains_id(m.rows, id),
    ensures
        ({
            let (m1, present) = delete_model(m, id);
            let (m2, row) = create_model(m1, p, now);
            row.id > id
        }),
{
    lemma_index_of_id_props(m.rows, id);
}

/// The listing order is by creation time, descending: later entries of the
/// listing were created no later than earlier ones.
pub proof fn lemma_list_ordering(m: StoreModel)
    requires
        m.wf(),
    ensures
        forall|i: int, j: int|
            0 <= i < j < list_model(m).len() ==> (#[trigger] list_model(m)[i]).created_at >= (
            #[trigger] list_model(m)[j]).created_at,
{
    let n = m.rows.len() as int;
    assert forall|i: int, j: int|
        0 <= i < j < list_model(m).len() implies (#[trigger] list_model(m)[i]).created_at >= (
    #[trigger] list_model(m)[j]).created_at by {
        assert(list_model(m)[i] == m.rows[n - 1 - i]);
        assert(list_model(m)[j] == m.rows[n - 1 - j]);
        assert(m.rows[n - 1 - j].created_at <= m.rows[n - 1 - i].created_at);
    }
}

} // verus!
