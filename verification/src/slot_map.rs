//! A map that hands out slot numbers for the values put into it and reuses
//! the numbers of removed values.
use vstd::prelude::*;

verus! {

/// The number of a slot in a `SlotMap`.
#[derive(Debug, Clone, Copy, PartialEq, Eq, Structural)]
pub struct SlotId(usize);

impl SlotId {
    /// The slot number.
    pub closed spec fn spec_index(self) -> usize {
        self.0
    }

    /// The slot number.
    pub fn index(&self) -> (r: usize)
        ensures
            r == self.spec_index(),
    {
        self.0
    }
}

impl Default for SlotId {
    /// The slot number that no map hands out: the largest `usize`.
    fn default() -> (r: SlotId)
        ensures
            r.spec_index() == usize::MAX,
    {
        SlotId(usize::MAX)
    }
}

/// Slots that each hold a value or nothing, and the numbers of emptied slots
/// that the next insertions reuse, the last first.
#[derive(Debug)]
pub struct SlotMap<T> {
    data: Vec<Option<T>>,
    unused: Vec<SlotId>,
}

/// A slot map as a mathematical value: its slots, and the numbers that wait
/// to be reused.
pub struct SlotMapModel<T> {
    pub slots: Seq<Option<T>>,
    pub unused: Seq<usize>,
}

/// The slot numbers of a list of ids.
pub open spec fn ids_view(ids: Seq<SlotId>) -> Seq<usize> {
    Seq::new(ids.len(), |i: int| ids[i].spec_index())
}

impl<T> View for SlotMap<T> {
    type V = SlotMapModel<T>;

    closed spec fn view(&self) -> SlotMapModel<T> {
        SlotMapModel { slots: self.data@, unused: ids_view(self.unused@) }
    }
}

/// Whether an insertion into `m` can take place: the number to reuse, if
/// any, is that of a slot, and otherwise there is room for a new slot.
pub open spec fn can_insert<T>(m: SlotMapModel<T>) -> bool {
    if m.unused.len() > 0 {
        m.unused.last() < m.slots.len()
    } else {
        m.slots.len() < usize::MAX
    }
}

/// The map after inserting `v`, and the slot number it was given: the last
/// number waiting to be reused, or a new slot at the end.
pub open spec fn insert_spec<T>(m: SlotMapModel<T>, v: T) -> (SlotMapModel<T>, usize) {
    if m.unused.len() > 0 {
        let id = m.unused.last();
        (SlotMapModel { slots: m.slots.update(id as int, Some(v)), unused: m.unused.drop_last() }, id)
    } else {
        (SlotMapModel { slots: m.slots.push(Some(v)), unused: m.unused }, m.slots.len() as usize)
    }
}

/// The value in slot `id`, if the slot exists and holds one.
pub open spec fn get_spec<T>(m: SlotMapModel<T>, id: usize) -> Option<T> {
    if id < m.slots.len() {
        m.slots[id as int]
    } else {
        None
    }
}

/// The map after removing slot `id`, and what the slot held. The slot is
/// taken out of the list, so the slots after it move down by one; the
/// number waits to be reused only where the slot held a value.
pub open spec fn remove_spec<T>(m: SlotMapModel<T>, id: usize) -> (SlotMapModel<T>, Option<T>) {
    let unused = if m.slots[id as int] is Some { m.unused.push(id) } else { m.unused };
    (SlotMapModel { slots: m.slots.remove(id as int), unused }, m.slots[id as int])
}

impl<T> SlotMap<T> {
    /// A map with no slots.
    pub fn new() -> (r: SlotMap<T>)
        ensures
            r@.slots.len() == 0,
            r@.unused.len() == 0,
    {
        let r = SlotMap { data: Vec::new(), unused: Vec::new() };
        assert(r@.unused =~= Seq::<usize>::empty());
        r
    }

    /// Puts `value` into a slot and gives its number, as `insert_spec` says.
    pub fn insert(&mut self, value: T) -> (id: SlotId)
        requires
            can_insert(old(self)@),
        ensures
            (final(self)@, id.spec_index()) == insert_spec(old(self)@, value),
    {
        let ghost unused = self.unused@;
        match self.unused.pop() {
            Some(id) => {
                assert(ids_view(self.unused@) =~= ids_view(unused).drop_last());
                self.data.set(id.0, Some(value));
                id
            },
            None => {
                self.data.push(Some(value));
                SlotId(self.data.len() - 1)
            },
        }
    }

    /// The value in slot `id`, as `get_spec` says.
    pub fn get(&self, id: SlotId) -> (r: Option<&T>)
        ensures
            r == match get_spec(self@, id.spec_index()) {
                Some(v) => Some(&v),
                None => None::<&T>,
            },
    {
        if id.0 < self.data.len() {
            match &self.data[id.0] {
                Some(v) => Some(v),
                None => None,
            }
        } else {
            None
        }
    }

    /// The value in slot `id`, to change in place. A change through the
    /// result lands in that slot and nowhere else.
    pub fn get_mut(&mut self, id: SlotId) -> (r: Option<&mut T>)
        ensures
            get_spec(old(self)@, id.spec_index()) is None ==> r is None && final(self)@ == old(self)@,
            get_spec(old(self)@, id.spec_index()) matches Some(v) ==> (r matches Some(x) && *x == v
                && final(self)@.slots == old(self)@.slots.update(id.spec_index() as int, Some(*final(x)))),
            final(self)@.unused == old(self)@.unused,
    {
        if id.0 < self.data.len() {
            if self.data[id.0].is_none() {
                return None;
            }
            let slot = &mut self.data[id.0];
            slot.as_mut()
        } else {
            None
        }
    }

    /// Takes slot `id` out of the map, as `remove_spec` says.
    pub fn remove(&mut self, id: SlotId) -> (r: Option<T>)
        requires
            id.spec_index() < old(self)@.slots.len(),
        ensures
            (final(self)@, r) == remove_spec(old(self)@, id.spec_index()),
    {
        let ghost unused = self.unused@;
        match self.data.remove(id.0) {
            Some(val) => {
                self.unused.push(id);
                assert(ids_view(self.unused@) =~= ids_view(unused).push(id.spec_index()));
                Some(val)
            },
            None => None,
        }
    }
}

/// A value put into the map is found under the number it was given, and
/// every other slot keeps what it held.
pub proof fn law_get_after_insert<T>(m: SlotMapModel<T>, v: T, other: usize)
    requires
        can_insert(m),
        other != insert_spec(m, v).1,
    ensures
        get_spec(insert_spec(m, v).0, insert_spec(m, v).1) == Some(v),
        get_spec(insert_spec(m, v).0, other) == get_spec(m, other),
{
}

/// Removing the slot that an insertion gave hands back the inserted value,
/// and its number waits to be reused.
pub proof fn law_remove_after_insert<T>(m: SlotMapModel<T>, v: T)
    requires
        can_insert(m),
    ensures
        insert_spec(m, v).1 < insert_spec(m, v).0.slots.len(),
        remove_spec(insert_spec(m, v).0, insert_spec(m, v).1).1 == Some(v),
        remove_spec(insert_spec(m, v).0, insert_spec(m, v).1).0.unused.last() == insert_spec(m, v).1,
{
}

} // verus!
