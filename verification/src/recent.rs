//! Remembering the most recent items of a stream.

use vstd::prelude::*;

verus! {

/// What is remembered of a stream once `item` has followed the remembered
/// `past`: at most `capacity` items, oldest first.
pub open spec fn remembered<T>(past: Seq<T>, item: T, capacity: int) -> Seq<T> {
    if past.len() < capacity {
        past.push(item)
    } else {
        past.drop_first().push(item)
    }
}

/// What is remembered after a whole stream, starting from nothing.
pub open spec fn remembered_all<T>(stream: Seq<T>, capacity: int) -> Seq<T>
    decreases stream.len(),
{
    if stream.len() == 0 {
        Seq::empty()
    } else {
        remembered(remembered_all(stream.drop_last(), capacity), stream.last(), capacity)
    }
}

/// The last `capacity` items of a stream, or all of it if it is shorter.
pub open spec fn latest<T>(stream: Seq<T>, capacity: int) -> Seq<T> {
    if stream.len() <= capacity {
        stream
    } else {
        stream.skip(stream.len() - capacity)
    }
}

/// A bounded memory holds exactly the latest items of its stream, in the order
/// in which they came.
pub proof fn law_memory_holds_the_latest<T>(stream: Seq<T>, capacity: int)
    requires
        capacity > 0,
    ensures
        remembered_all(stream, capacity) == latest(stream, capacity),
    decreases stream.len(),
{
    if stream.len() > 0 {
        law_memory_holds_the_latest(stream.drop_last(), capacity);
    }
}

/// The item that came last is remembered last, the `k`-th before it `k` places
/// earlier, and as many as there is room for.
pub proof fn law_remembering_keeps_the_order<T>(past: Seq<T>, item: T, capacity: int, k: int)
    requires
        0 < capacity,
        past.len() <= capacity,
        0 < k <= past.len(),
        k < capacity,
    ensures
        ({
            let now = remembered(past, item, capacity);
            &&& now.len() == if past.len() < capacity {
                (past.len() + 1) as int
            } else {
                capacity
            }
            &&& now[now.len() - 1] == item
            &&& now[now.len() - 1 - k] == past[past.len() - k]
        }),
{
}

/// The first item is remembered alone.
pub proof fn law_remembering_begins<T>(item: T, capacity: int)
    requires
        0 < capacity,
    ensures
        remembered(Seq::empty(), item, capacity).len() == 1,
        remembered(Seq::empty(), item, capacity)[0] == item,
{
}

/// After a whole stream, the `k`-th item from the end is remembered `k` places from
/// the end, as long as there is room for it.
pub proof fn law_memory_item_by_item<T>(stream: Seq<T>, capacity: int, k: int)
    requires
        0 <= k < stream.len(),
        k < capacity,
    ensures
        ({
            let now = remembered_all(stream, capacity);
            &&& now.len() == if stream.len() < capacity {
                stream.len() as int
            } else {
                capacity
            }
            &&& now[now.len() - 1 - k] == stream[stream.len() - 1 - k]
        }),
{
    law_memory_holds_the_latest(stream, capacity);
}

/// The `k`-th of the latest items, from the end, is the `k`-th of the stream.
pub proof fn law_latest_are_the_last<T>(stream: Seq<T>, capacity: int, k: int)
    requires
        0 <= k < stream.len(),
        k < capacity,
    ensures
        ({
            let last = latest(stream, capacity);
            &&& last.len() == if stream.len() < capacity {
                stream.len() as int
            } else {
                capacity
            }
            &&& last[last.len() - 1 - k] == stream[stream.len() - 1 - k]
        }),
{
}

} // verus!
