//! The cell that holds the published payload, and the exchanges that writers
//! make on its content.
use vstd::prelude::*;
use std::sync::Arc;
use std::sync::RwLock;
use crate::lock::found;
use crate::lock::lock_new;
use crate::lock::lock_read;
use crate::lock::lock_write;
use crate::lock::opened;
use crate::lock::read_access;
use crate::lock::write_access;

verus! {

/// `Arc::ptr_eq`: whether the two handles point to the same allocation. Two
/// handles to one allocation hold the same value; handles to different
/// allocations may or may not.
#[verifier::external_body]
fn same_allocation<T>(left: &Arc<T>, right: &Arc<T>) -> (same: bool)
    ensures
        same ==> *left == *right,
{
    Arc::ptr_eq(left, right)
}

/// `Arc::ptr_eq` said `same` of the two handles.
pub closed spec fn compared<T>(left: Arc<T>, right: Arc<T>, same: bool) -> bool {
    call_ensures(same_allocation::<T>, (&left, &right), same)
}

/// Whether the two handles point to the same allocation, as `Arc::ptr_eq`
/// says. Handles to one allocation hold one payload.
pub fn share_allocation<T>(left: &Arc<T>, right: &Arc<T>) -> (same: bool)
    ensures
        compared(*left, *right, same),
        same ==> **left == **right,
{
    same_allocation(left, right)
}

/// The content of the cell after `new` was published over `content`, and the
/// payload that was displaced.
pub open spec fn exchanged<T>(content: T, new: T) -> (T, T) {
    (new, content)
}

/// The content of the cell after an attempt to publish `new` over `content`,
/// and what the attempt hands back: the displaced payload when the cell still
/// held the expected allocation, else the rejected candidate.
pub open spec fn exchanged_if<T>(same: bool, content: T, new: T) -> (T, Result<T, T>) {
    if same {
        (new, Ok(content))
    } else {
        (content, Err(new))
    }
}

/// Publishes `new` over `content`: the cell's one strong handle passes from
/// the displaced payload, which is handed to the caller, to the new one.
pub fn exchange<T>(content: &mut Arc<T>, new: Arc<T>) -> (displaced: Arc<T>)
    ensures
        (*final(content), displaced) == exchanged(*old(content), new),
{
    let mut other = new;
    std::mem::swap(content, &mut other);
    other
}

/// Publishes `new` over `content` if `same` says that the cell still holds
/// the allocation the candidate was computed from; otherwise leaves the cell
/// as it is and hands the candidate back.
pub fn exchange_if<T>(same: bool, content: &mut Arc<T>, new: Arc<T>) -> (outcome: Result<
    Arc<T>,
    Arc<T>,
>)
    ensures
        (*final(content), outcome) == exchanged_if(same, *old(content), new),
{
    if same {
        Ok(exchange(content, new))
    } else {
        Err(new)
    }
}

/// The publication cell: one shared handle to the current payload, behind a
/// reader-writer lock. Every exchange passes exactly one strong handle each
/// way, so the cell always owns one handle to the payload it holds.
///
/// Other threads exchange the content between any two calls, so no contract
/// here says which payload a call finds in the cell.
#[verifier::reject_recursive_types(T)]
pub struct Publication<T> {
    content: RwLock<Arc<T>>,
}

impl<T> Publication<T> {
    /// The lock of the cell was made around `initial`.
    pub closed spec fn made_around(&self, initial: Arc<T>) -> bool {
        call_ensures(lock_new::<Arc<T>>, (initial,), self.content)
    }

    /// A reader took the lock of the cell and found `payload` behind it.
    pub closed spec fn shows(&self, payload: Arc<T>) -> bool {
        found(&self.content, payload)
    }

    /// A reader that had entered its critical section by displacing the
    /// epoch `entered` then took the lock of the cell and found `payload`
    /// behind it.
    pub closed spec fn shows_inside(&self, entered: u8, payload: Arc<T>) -> bool {
        call_ensures(Publication::<T>::load_after, (self, entered), payload)
    }

    /// A writer took the lock of the cell, and `access` is its access to the
    /// payload behind it.
    pub closed spec fn opened_by(&self, access: &mut Arc<T>) -> bool {
        opened(&self.content, access)
    }

    /// An exchange on the cell that expected the handle `read` found another
    /// allocation there.
    pub open spec fn turned_down(&self, read: Arc<T>) -> bool {
        exists|access: &mut Arc<T>|
            #[trigger] self.opened_by(access) && compared(*access, read, false)
    }

    /// A cell that holds `initial`.
    pub fn new(initial: Arc<T>) -> (cell: Self)
        ensures
            cell.made_around(initial),
    {
        Publication { content: lock_new(initial) }
    }

    /// A new handle to the payload that a reader finds in the cell at the
    /// moment of the call.
    pub fn load(&self) -> (payload: Arc<T>)
        ensures
            self.shows(payload),
    {
        let guard = lock_read(&self.content);
        let content = read_access(&guard);
        assert(found(&self.content, *content));
        content.clone()
    }

    /// The load of a reader inside its critical section: a new handle to the
    /// payload that the reader finds in the cell after it has entered by
    /// displacing the epoch `entered`.
    pub fn load_inside(&self, entered: u8) -> (payload: Arc<T>)
        ensures
            self.shows_inside(entered, payload),
            self.shows(payload),
    {
        self.load_after(entered)
    }

    fn load_after(&self, entered: u8) -> (payload: Arc<T>)
        ensures
            self.shows(payload),
    {
        self.load()
    }

    /// Publishes `new` over the payload that it finds in the cell at the
    /// moment of the call, and returns that payload: the writer's access is
    /// left holding `new`.
    pub fn swap(&self, new: Arc<T>) -> (displaced: Arc<T>)
        ensures
            exists|access: &mut Arc<T>|
                #[trigger] self.opened_by(access) && (*final(access), displaced) == exchanged(
                    *access,
                    new,
                ),
    {
        let mut guard = lock_write(&self.content);
        let content = write_access(&mut guard);
        assert(self.opened_by(content));
        exchange(content, new)
    }

    /// Publishes `new` if the payload that it finds in the cell at the moment
    /// of the call lies in the allocation of `expected`.
    ///
    /// On success the writer's access is left holding `new` and the displaced
    /// payload comes back, and it is the expected one. Otherwise the access
    /// is left holding what it found and the candidate comes back.
    pub fn compare_exchange(&self, expected: &Arc<T>, new: Arc<T>) -> (outcome: Result<
        Arc<T>,
        Arc<T>,
    >)
        ensures
            outcome matches Ok(displaced) ==> *displaced == **expected,
            outcome matches Err(rejected) ==> *rejected == *new,
            exists|access: &mut Arc<T>, same: bool|
                {
                    &&& #[trigger] self.opened_by(access)
                    &&& #[trigger] compared(*access, *expected, same)
                    &&& (*final(access), outcome) == exchanged_if(same, *access, new)
                },
    {
        let mut guard = lock_write(&self.content);
        let content = write_access(&mut guard);
        assert(self.opened_by(content));
        let same = share_allocation(content, expected);
        exchange_if(same, content, new)
    }
}

/// The content of a cell that began with `initial` after the payloads of
/// `news` were published over it one after another, and the payloads that
/// these exchanges displaced, in their order.
pub open spec fn exchanged_all<T>(initial: T, news: Seq<T>) -> (T, Seq<T>)
    decreases news.len(),
{
    if news.len() == 0 {
        (initial, Seq::empty())
    } else {
        let (content, displaced) = exchanged_all(initial, news.drop_last());
        let (now, out) = exchanged(content, news.last());
        (now, displaced.push(out))
    }
}

/// Identity is preserved: when payloads are published one after another, the
/// cell ends with the last of them, and what was displaced is the initial
/// payload followed by all the published ones but the last, each once and in
/// the order of publication.
pub proof fn lemma_exchanges_preserve_identity<T>(initial: T, news: Seq<T>)
    ensures
        exchanged_all(initial, news).0 == (if news.len() == 0 {
            initial
        } else {
            news.last()
        }),
        exchanged_all(initial, news).1 == (seq![initial] + news).drop_last(),
    decreases news.len(),
{
    if news.len() == 0 {
        assert(exchanged_all(initial, news).1 =~= (seq![initial] + news).drop_last());
    } else {
        lemma_exchanges_preserve_identity(initial, news.drop_last());
        let earlier = seq![initial] + news.drop_last();
        assert((seq![initial] + news).drop_last() =~= earlier);
        if news.len() == 1 {
            assert(earlier.drop_last() =~= Seq::<T>::empty());
            assert(exchanged_all(initial, news).1 =~= earlier);
        } else {
            assert(earlier.drop_last().push(news.drop_last().last()) =~= earlier);
        }
    }
}

} // verus!
