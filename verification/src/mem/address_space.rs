//! A logical address space: which pages are mapped to which frames, with which flags.
//! It holds no page table; the hardware side is brought in line by `arch::paging`.

use vstd::prelude::*;

use crate::mem::addr::{PhysFrame, VirtPage};
use crate::mem::paging::{MemAction, PageFlags};
use crate::seqs::{
    first_such, lemma_filter_full_len, lemma_filter_len, lemma_filter_take,
    lemma_filter_update_len, lemma_first_such, lemma_first_such_is, lemma_first_such_none,
};

verus! {

#[derive(Clone, Copy, Debug, PartialEq, Eq, Structural)]
pub enum AddressSpaceKind {
    Kernel,
    User,
}

#[derive(Clone, Copy, PartialEq, Eq, Structural)]
pub struct Mapping {
    pub page: VirtPage,
    pub frame: PhysFrame,
    pub flags: PageFlags,
}

/// How many mappings an address space can hold.
pub const MAX_MAPPINGS: usize = 64;

pub struct AddressSpace {
    pub kind: AddressSpaceKind,
    pub root_page_frame: Option<PhysFrame>,
    pub(crate) mappings: [Option<Mapping>; MAX_MAPPINGS],
}

#[derive(Clone, Copy, Debug, PartialEq, Eq, Structural)]
pub enum AddressSpaceError {
    AlreadyMapped,
    NotMapped,
    CapacityExceeded,
}

/// The contents of an address space: its slots in order, used or free.
#[verifier::ext_equal]
pub struct AddressSpaceView {
    pub kind: AddressSpaceKind,
    pub root_page_frame: Option<PhysFrame>,
    pub slots: Seq<Option<Mapping>>,
}

/// A slot that maps `page`.
pub open spec fn slot_maps(page: VirtPage) -> spec_fn(Option<Mapping>) -> bool {
    |slot: Option<Mapping>| slot matches Some(m) && m.page == page
}

/// A slot that nothing uses.
pub open spec fn slot_free() -> spec_fn(Option<Mapping>) -> bool {
    |slot: Option<Mapping>| slot is None
}

/// A slot that is in use.
pub open spec fn slot_used() -> spec_fn(Option<Mapping>) -> bool {
    |slot: Option<Mapping>| slot is Some
}

/// A slot with a mapping that user space may use.
pub open spec fn slot_user() -> spec_fn(Option<Mapping>) -> bool {
    |slot: Option<Mapping>| slot matches Some(m) && m.flags.spec_contains(PageFlags::user())
}

impl AddressSpaceView {
    /// All slots are there, and no page is mapped by two of them.
    pub open spec fn wf(self) -> bool {
        &&& self.slots.len() == MAX_MAPPINGS
        &&& forall|i: int, j: int|
            #![trigger self.slots[i], self.slots[j]]
            0 <= i < j < self.slots.len() && self.slots[i] is Some && self.slots[j] is Some
                ==> self.slots[i]->0.page != self.slots[j]->0.page
    }

    pub open spec fn maps(self, page: VirtPage) -> bool {
        first_such(self.slots, slot_maps(page)) is Some
    }

    pub open spec fn full(self) -> bool {
        first_such(self.slots, slot_free()) is None
    }

    /// The used slots, in order.
    pub open spec fn mappings(self) -> Seq<Mapping> {
        self.slots.filter(slot_used()).map_values(|s: Option<Mapping>| s->0)
    }

    /// The pages that user space may use, in slot order.
    pub open spec fn user_pages(self) -> Seq<VirtPage> {
        self.slots.filter(slot_user()).map_values(|s: Option<Mapping>| s->0.page)
    }

    pub open spec fn has_user_mapping(self) -> bool {
        exists|i: int| 0 <= i < self.slots.len() && slot_user()(#[trigger] self.slots[i])
    }

    /// The same address space with all its user mappings gone.
    pub open spec fn without_user_mappings(self) -> AddressSpaceView {
        AddressSpaceView {
            slots: self.slots.map_values(
                |s: Option<Mapping>|
                    if slot_user()(s) {
                        None
                    } else {
                        s
                    },
            ),
            ..self
        }
    }

    /// What a memory operation answers. A page is mapped once at most, only a mapped
    /// page can be unmapped, and there is room for `MAX_MAPPINGS` mappings.
    pub open spec fn apply_result(self, action: MemAction) -> Result<(), AddressSpaceError> {
        match action {
            MemAction::MapPage { page, .. } => if self.maps(page) {
                Err(AddressSpaceError::AlreadyMapped)
            } else if self.full() {
                Err(AddressSpaceError::CapacityExceeded)
            } else {
                Ok(())
            },
            MemAction::Unmap { page } => if self.maps(page) {
                Ok(())
            } else {
                Err(AddressSpaceError::NotMapped)
            },
        }
    }

    /// The address space after a memory operation: a new mapping takes the first free
    /// slot, an unmapped page frees its slot, a refused operation changes nothing.
    pub open spec fn apply(self, action: MemAction) -> AddressSpaceView {
        if self.apply_result(action) is Err {
            self
        } else {
            match action {
                MemAction::MapPage { page, frame, flags } => AddressSpaceView {
                    slots: self.slots.update(
                        first_such(self.slots, slot_free())->0,
                        Some(Mapping { page, frame, flags }),
                    ),
                    ..self
                },
                MemAction::Unmap { page } => AddressSpaceView {
                    slots: self.slots.update(first_such(self.slots, slot_maps(page))->0, None),
                    ..self
                },
            }
        }
    }

    /// The mappings as a map from pages.
    pub open spec fn as_map(self) -> Map<VirtPage, Mapping> {
        Map::new(
            |page: VirtPage| self.maps(page),
            |page: VirtPage| self.slots[first_such(self.slots, slot_maps(page))->0]->0,
        )
    }
}

impl View for AddressSpace {
    type V = AddressSpaceView;

    closed spec fn view(&self) -> AddressSpaceView {
        AddressSpaceView {
            kind: self.kind,
            root_page_frame: self.root_page_frame,
            slots: self.mappings@,
        }
    }
}

/// What an address space stands for, within the crate.
pub(crate) broadcast proof fn lemma_view(s: AddressSpace)
    ensures
        #[trigger] s@ == (AddressSpaceView {
            kind: s.kind,
            root_page_frame: s.root_page_frame,
            slots: s.mappings@,
        }),
{
}

impl AddressSpace {
    pub fn new_kernel() -> (s: Self)
        ensures
            s@.wf(),
            s@ == (AddressSpaceView {
                kind: AddressSpaceKind::Kernel,
                root_page_frame: None,
                slots: Seq::new(MAX_MAPPINGS as nat, |i: int| None),
            }),
    {
        AddressSpace {
            kind: AddressSpaceKind::Kernel,
            root_page_frame: None,
            mappings: [None;MAX_MAPPINGS],
        }
    }

    pub fn new_user() -> (s: Self)
        ensures
            s@.wf(),
            s@ == (AddressSpaceView {
                kind: AddressSpaceKind::User,
                root_page_frame: None,
                slots: Seq::new(MAX_MAPPINGS as nat, |i: int| None),
            }),
    {
        AddressSpace {
            kind: AddressSpaceKind::User,
            root_page_frame: None,
            mappings: [None;MAX_MAPPINGS],
        }
    }

    fn find_page(&self, page: VirtPage) -> (r: Option<usize>)
        ensures
            match r {
                Some(i) => first_such(self@.slots, slot_maps(page)) == Some(i as int) && i
                    < MAX_MAPPINGS,
                None => first_such(self@.slots, slot_maps(page)) is None,
            },
    {
        let mut i: usize = 0;
        while i < MAX_MAPPINGS
            invariant
                i <= MAX_MAPPINGS,
                forall|j: int| 0 <= j < i ==> !slot_maps(page)(#[trigger] self@.slots[j]),
            decreases MAX_MAPPINGS - i,
        {
            if let Some(m) = self.mappings[i] {
                if m.page == page {
                    proof {
                        lemma_first_such_is(self@.slots, slot_maps(page), i as int);
                    }
                    return Some(i);
                }
            }
            i += 1;
        }
        proof {
            lemma_first_such_none(self@.slots, slot_maps(page));
        }
        None
    }

    fn find_free(&self) -> (r: Option<usize>)
        ensures
            match r {
                Some(i) => first_such(self@.slots, slot_free()) == Some(i as int) && i
                    < MAX_MAPPINGS,
                None => first_such(self@.slots, slot_free()) is None,
            },
    {
        let mut i: usize = 0;
        while i < MAX_MAPPINGS
            invariant
                i <= MAX_MAPPINGS,
                forall|j: int| 0 <= j < i ==> !slot_free()(#[trigger] self@.slots[j]),
            decreases MAX_MAPPINGS - i,
        {
            if self.mappings[i].is_none() {
                proof {
                    lemma_first_such_is(self@.slots, slot_free(), i as int);
                }
                return Some(i);
            }
            i += 1;
        }
        proof {
            lemma_first_such_none(self@.slots, slot_free());
        }
        None
    }

    /// Whether a page is mapped.
    pub(crate) fn maps(&self, page: VirtPage) -> (r: bool)
        ensures
            r == self@.maps(page),
    {
        self.find_page(page).is_some()
    }

    /// Whether there is no room for another mapping.
    pub(crate) fn is_full(&self) -> (r: bool)
        ensures
            r == self@.full(),
    {
        self.find_free().is_none()
    }

    /// Performs one memory operation on the logical state.
    pub fn apply(&mut self, action: MemAction) -> (r: Result<(), AddressSpaceError>)
        ensures
            r == old(self)@.apply_result(action),
            final(self)@ == old(self)@.apply(action),
            old(self)@.wf() ==> final(self)@.wf(),
    {
        proof {
            law_apply_keeps_wf(self@, action);
        }
        match action {
            MemAction::MapPage { page, frame, flags } => {
                if self.find_page(page).is_some() {
                    return Err(AddressSpaceError::AlreadyMapped);
                }
                match self.find_free() {
                    Some(i) => {
                        self.mappings[i] = Some(Mapping { page, frame, flags });
                        assert(self@ =~= old(self)@.apply(action));
                        Ok(())
                    },
                    None => Err(AddressSpaceError::CapacityExceeded),
                }
            },
            MemAction::Unmap { page } => {
                match self.find_page(page) {
                    Some(i) => {
                        self.mappings[i] = None;
                        assert(self@ =~= old(self)@.apply(action));
                        Ok(())
                    },
                    None => Err(AddressSpaceError::NotMapped),
                }
            },
        }
    }

    /// The number of mappings.
    pub fn mapping_count(&self) -> (n: usize)
        ensures
            n == self@.mappings().len(),
            n <= MAX_MAPPINGS,
    {
        let ghost slots = self@.slots;
        let mut n: usize = 0;
        let mut i: usize = 0;
        while i < MAX_MAPPINGS
            invariant
                i <= MAX_MAPPINGS,
                slots == self@.slots,
                slots.len() == MAX_MAPPINGS,
                n == slots.take(i as int).filter(slot_used()).len(),
                n <= i,
            decreases MAX_MAPPINGS - i,
        {
            proof {
                lemma_filter_take(slots, slot_used(), i as int);
            }
            if self.mappings[i].is_some() {
                n += 1;
            }
            i += 1;
        }
        assert(slots.take(MAX_MAPPINGS as int) =~= slots);
        n
    }

    /// Hands out every mapping, in slot order.
    pub fn for_each_mapping(&self) -> (r: Vec<Mapping>)
        ensures
            r@ == self@.mappings(),
    {
        let ghost slots = self@.slots;
        let mut r: Vec<Mapping> = Vec::new();
        let mut i: usize = 0;
        while i < MAX_MAPPINGS
            invariant
                i <= MAX_MAPPINGS,
                slots == self@.slots,
                slots.len() == MAX_MAPPINGS,
                r@ == slots.take(i as int).filter(slot_used()).map_values(
                    |s: Option<Mapping>| s->0,
                ),
            decreases MAX_MAPPINGS - i,
        {
            proof {
                lemma_filter_take(slots, slot_used(), i as int);
            }
            if let Some(m) = self.mappings[i] {
                r.push(m);
            }
            i += 1;
        }
        assert(slots.take(MAX_MAPPINGS as int) =~= slots);
        r
    }

    /// Hands out the page of every mapping that user space may use, in slot order.
    pub fn for_each_user_mapping_page(&self) -> (r: Vec<VirtPage>)
        ensures
            r@ == self@.user_pages(),
            r@.len() <= MAX_MAPPINGS,
    {
        let ghost slots = self@.slots;
        let mut r: Vec<VirtPage> = Vec::new();
        let mut i: usize = 0;
        while i < MAX_MAPPINGS
            invariant
                i <= MAX_MAPPINGS,
                slots == self@.slots,
                slots.len() == MAX_MAPPINGS,
                r@ == slots.take(i as int).filter(slot_user()).map_values(
                    |s: Option<Mapping>| s->0.page,
                ),
            decreases MAX_MAPPINGS - i,
        {
            proof {
                lemma_filter_take(slots, slot_user(), i as int);
            }
            if let Some(m) = self.mappings[i] {
                if m.flags.contains(PageFlags::user()) {
                    r.push(m.page);
                }
            }
            i += 1;
        }
        assert(slots.take(MAX_MAPPINGS as int) =~= slots);
        proof {
            lemma_filter_len(slots, slot_user());
        }
        r
    }

    /// Forgets every mapping that user space may use. Only the logical state changes;
    /// the pages have to be taken out of the page table as well.
    pub fn clear_user_mappings(&mut self)
        ensures
            final(self)@ == old(self)@.without_user_mappings(),
            old(self)@.wf() ==> final(self)@.wf(),
    {
        let mut i: usize = 0;
        let ghost goal = old(self)@.without_user_mappings().slots;
        while i < MAX_MAPPINGS
            invariant
                i <= MAX_MAPPINGS,
                self.kind == old(self).kind,
                self.root_page_frame == old(self).root_page_frame,
                goal == old(self)@.without_user_mappings().slots,
                forall|j: int| 0 <= j < i ==> self@.slots[j] == #[trigger] goal[j],
                forall|j: int|
                    i <= j < MAX_MAPPINGS ==> #[trigger] self@.slots[j] == old(self)@.slots[j],
            decreases MAX_MAPPINGS - i,
        {
            let ghost before = self@.slots;
            assert(before[i as int] == old(self)@.slots[i as int]);
            if let Some(m) = self.mappings[i] {
                if m.flags.contains(PageFlags::user()) {
                    self.mappings[i] = None;
                }
            }
            assert(self@.slots =~= before.update(i as int, goal[i as int]));
            i += 1;
        }
        assert(self@ =~= old(self)@.without_user_mappings());
    }
}

/// `maps` says that some slot holds the page.
pub proof fn lemma_maps(s: AddressSpaceView, page: VirtPage)
    ensures
        s.maps(page) <==> exists|i: int|
            0 <= i < s.slots.len() && (#[trigger] s.slots[i]) is Some && s.slots[i]->0.page == page,
{
    lemma_first_such(s.slots, slot_maps(page));
    if s.maps(page) {
        let k = first_such(s.slots, slot_maps(page))->0;
        assert(slot_maps(page)(s.slots[k]));
    } else if exists|i: int|
        0 <= i < s.slots.len() && (#[trigger] s.slots[i]) is Some && s.slots[i]->0.page == page {
        let i = choose|i: int|
            0 <= i < s.slots.len() && (#[trigger] s.slots[i]) is Some && s.slots[i]->0.page == page;
        assert(!slot_maps(page)(s.slots[i]));
    }
}

/// Every memory operation keeps an address space free of double mappings.
pub proof fn law_apply_keeps_wf(s: AddressSpaceView, action: MemAction)
    ensures
        s.wf() ==> s.apply(action).wf(),
{
    match action {
        MemAction::MapPage { page, .. } => {
            lemma_maps(s, page);
            lemma_first_such(s.slots, slot_free());
        },
        MemAction::Unmap { page } => {
            lemma_first_such(s.slots, slot_maps(page));
        },
    }
}

/// Seen as a map from pages, mapping a page inserts it and unmapping removes it; a
/// refused operation leaves the map alone, and it is refused exactly when the page is
/// there already, is not there, or there is no room.
pub proof fn law_apply_on_map(s: AddressSpaceView, action: MemAction)
    requires
        s.wf(),
    ensures
        match action {
            MemAction::MapPage { page, frame, flags } => {
                &&& s.apply_result(action) == Err::<(), _>(AddressSpaceError::AlreadyMapped)
                    <==> s.as_map().dom().contains(page)
                &&& s.apply_result(action) is Ok ==> s.apply(action).as_map() == s.as_map().insert(
                    page,
                    Mapping { page, frame, flags },
                )
            },
            MemAction::Unmap { page } => {
                &&& s.apply_result(action) is Ok <==> s.as_map().dom().contains(page)
                &&& s.apply_result(action) is Ok ==> s.apply(action).as_map() == s.as_map().remove(
                    page,
                )
            },
        },
        s.apply_result(action) is Err ==> s.apply(action) == s,
{
    let t = s.apply(action);
    law_apply_keeps_wf(s, action);
    if s.apply_result(action) is Ok {
        match action {
            MemAction::MapPage { page, frame, flags } => {
                let m = Mapping { page, frame, flags };
                let k = first_such(s.slots, slot_free())->0;
                lemma_first_such(s.slots, slot_free());
                assert forall|q: VirtPage|
                    t.maps(q) == (s.maps(q) || q == page) && (t.maps(q) ==> t.as_map()[q]
                        == s.as_map().insert(page, m)[q]) by {
                    lemma_maps(s, q);
                    lemma_maps(t, q);
                    lemma_first_such(s.slots, slot_maps(q));
                    lemma_first_such(t.slots, slot_maps(q));
                    assert(t.slots[k] == Some(m));
                    if s.maps(q) {
                        let i = first_such(s.slots, slot_maps(q))->0;
                        assert(t.slots[i] == s.slots[i]);
                    }
                    if t.maps(q) {
                        let i = first_such(t.slots, slot_maps(q))->0;
                        if i != k {
                            assert(s.slots[i] == t.slots[i]);
                        }
                    }
                }
                assert(t.as_map() =~= s.as_map().insert(page, m));
            },
            MemAction::Unmap { page } => {
                let k = first_such(s.slots, slot_maps(page))->0;
                lemma_first_such(s.slots, slot_maps(page));
                assert forall|q: VirtPage|
                    t.maps(q) == (s.maps(q) && q != page) && (t.maps(q) ==> t.as_map()[q]
                        == s.as_map()[q]) by {
                    lemma_maps(s, q);
                    lemma_maps(t, q);
                    lemma_first_such(s.slots, slot_maps(q));
                    lemma_first_such(t.slots, slot_maps(q));
                    if s.maps(q) && q != page {
                        let i = first_such(s.slots, slot_maps(q))->0;
                        assert(t.slots[i] == s.slots[i]);
                    }
                    if t.maps(q) {
                        let i = first_such(t.slots, slot_maps(q))->0;
                        assert(i != k);
                        assert(s.slots[i] == t.slots[i]);
                    }
                }
                assert(t.as_map() =~= s.as_map().remove(page));
            },
        }
    }
}

/// Unmapping what was just mapped gives the mappings that were there before.
pub proof fn law_unmap_undoes_map(
    s: AddressSpaceView,
    page: VirtPage,
    frame: PhysFrame,
    flags: PageFlags,
)
    requires
        s.wf(),
        s.apply_result(MemAction::MapPage { page, frame, flags }) is Ok,
    ensures
        s.apply(MemAction::MapPage { page, frame, flags }).apply_result(MemAction::Unmap { page })
            is Ok,
        s.apply(MemAction::MapPage { page, frame, flags }).apply(
            MemAction::Unmap { page },
        ).as_map() == s.as_map(),
{
    let map = MemAction::MapPage { page, frame, flags };
    law_apply_on_map(s, map);
    law_apply_keeps_wf(s, map);
    law_apply_on_map(s.apply(map), MemAction::Unmap { page });
    assert(s.as_map().insert(page, Mapping { page, frame, flags }).remove(page) =~= s.as_map());
}

/// Mapping a page twice in a row is refused the second time.
pub proof fn law_no_double_map(s: AddressSpaceView, first: MemAction, second: MemAction)
    requires
        s.wf(),
        first is MapPage,
        second is MapPage,
        first->MapPage_page == second->MapPage_page,
        s.apply_result(first) is Ok,
    ensures
        s.apply(first).apply_result(second) == Err::<(), _>(AddressSpaceError::AlreadyMapped),
{
    law_apply_on_map(s, first);
    law_apply_keeps_wf(s, first);
    law_apply_on_map(s.apply(first), second);
}

/// A mapping that is made counts one more, one that is unmapped counts one less, and an
/// address space is full exactly with `MAX_MAPPINGS` of them.
pub proof fn law_mappings_are_counted(s: AddressSpaceView, action: MemAction)
    requires
        s.wf(),
    ensures
        s.apply_result(action) is Ok ==> s.apply(action).mappings().len() == s.mappings().len() + (
        if action is MapPage {
            1int
        } else {
            -1
        }),
        s.full() <==> s.mappings().len() == MAX_MAPPINGS,
{
    lemma_filter_full_len(s.slots, slot_used());
    lemma_first_such(s.slots, slot_free());
    if s.full() {
        assert forall|j: int| 0 <= j < s.slots.len() implies slot_used()(#[trigger] s.slots[j]) by {
            assert(!slot_free()(s.slots[j]));
        }
    } else {
        let k = first_such(s.slots, slot_free())->0;
        assert(!slot_used()(s.slots[k]));
    }
    if s.apply_result(action) is Ok {
        match action {
            MemAction::MapPage { page, frame, flags } => {
                lemma_filter_update_len(
                    s.slots,
                    slot_used(),
                    first_such(s.slots, slot_free())->0,
                    Some(Mapping { page, frame, flags }),
                );
            },
            MemAction::Unmap { page } => {
                lemma_first_such(s.slots, slot_maps(page));
                lemma_filter_update_len(
                    s.slots,
                    slot_used(),
                    first_such(s.slots, slot_maps(page))->0,
                    None,
                );
            },
        }
    }
}

/// Clearing the user mappings leaves none of them, and leaves every other slot alone.
pub proof fn law_clear_leaves_no_user_mapping(s: AddressSpaceView)
    ensures
        !s.without_user_mappings().has_user_mapping(),
        forall|i: int|
            0 <= i < s.slots.len() && !slot_user()(s.slots[i])
                ==> #[trigger] s.without_user_mappings().slots[i] == s.slots[i],
{
}

/// A new mapping takes the first free slot, and an unmapped page gives its slot free; every
/// other slot stays as it is.
pub proof fn law_one_slot_changes(s: AddressSpaceView, action: MemAction)
    requires
        s.wf(),
        s.apply_result(action) is Ok,
    ensures
        s.apply(action).kind == s.kind,
        s.apply(action).root_page_frame == s.root_page_frame,
        exists|k: int|
            #![trigger s.slots[k]]
            0 <= k < s.slots.len() && match action {
                MemAction::MapPage { page, frame, flags } => {
                    &&& s.slots[k] is None
                    &&& forall|j: int| 0 <= j < k ==> (#[trigger] s.slots[j]) is Some
                    &&& s.apply(action).slots == s.slots.update(
                        k,
                        Some(Mapping { page, frame, flags }),
                    )
                },
                MemAction::Unmap { page } => {
                    &&& s.slots[k] is Some && s.slots[k]->0.page == page
                    &&& s.apply(action).slots == s.slots.update(k, None)
                },
            },
{
    match action {
        MemAction::MapPage { .. } => {
            let k = first_such(s.slots, slot_free())->0;
            lemma_first_such(s.slots, slot_free());
            assert(s.slots[k] is None);
            assert forall|j: int| 0 <= j < k implies (#[trigger] s.slots[j]) is Some by {
                assert(!slot_free()(s.slots[j]));
            }
        },
        MemAction::Unmap { page } => {
            let k = first_such(s.slots, slot_maps(page))->0;
            lemma_first_such(s.slots, slot_maps(page));
            assert(slot_maps(page)(s.slots[k]));
        },
    }
}

} // verus!
