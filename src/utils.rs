use vstd::prelude::*;

use crate::events::MouseButton;
use crate::gremlin::Animator;
use std::collections::VecDeque;

verus! {

/// One flag for each tracked mouse button (left, middle, right).
#[derive(Default, Debug, Clone, Copy, PartialEq, Eq, Hash, Structural)]
pub struct MouseKeysState {
    pub left: bool,
    pub middle: bool,
    pub right: bool,
}

/// Whether a button is one of the three that are tracked.
pub open spec fn is_tracked(button: MouseButton) -> bool {
    button == MouseButton::Left || button == MouseButton::Middle || button == MouseButton::Right
}

impl MouseKeysState {
    /// The flag of `button`; an untracked button is never set.
    pub open spec fn flag(self, button: MouseButton) -> bool {
        match button {
            MouseButton::Left => self.left,
            MouseButton::Right => self.right,
            MouseButton::Middle => self.middle,
            _ => false,
        }
    }

    /// The state with the flag of `button` set to `state` (no change for an untracked button).
    pub open spec fn with_flag(self, button: MouseButton, state: bool) -> MouseKeysState {
        match button {
            MouseButton::Left => MouseKeysState { left: state, ..self },
            MouseButton::Right => MouseKeysState { right: state, ..self },
            MouseButton::Middle => MouseKeysState { middle: state, ..self },
            _ => self,
        }
    }

    pub fn set_button(&mut self, button: &MouseButton, state: bool)
        ensures
            *final(self) == old(self).with_flag(*button, state),
    {
        match button {
            MouseButton::Left => self.left = state,
            MouseButton::Right => self.right = state,
            MouseButton::Middle => self.middle = state,
            _ => {},
        }
    }

    pub fn is_active(&self, button: &MouseButton) -> (r: bool)
        ensures
            r == self.flag(*button),
    {
        match button {
            MouseButton::Left => self.left,
            MouseButton::Right => self.right,
            MouseButton::Middle => self.middle,
            _ => false,
        }
    }
}

/// Horizontal direction of a move.
#[derive(Clone, Copy, Debug, Hash, PartialEq, Eq, Structural)]
pub enum DirectionX {
    /// No horizontal move.
    Stay,
    Left,
    Right,
}

/// Vertical direction of a move.
#[derive(Clone, Copy, Debug, Hash, PartialEq, Eq, Structural)]
pub enum DirectionY {
    /// No vertical move.
    Stay,
    Up,
    Down,
}

/// How many animations the texture cache holds at most.
pub const CACHE_CAPACITY: usize = 10;

/// A handle to a texture that the renderer owns.
pub type TextureId = u64;

/// What the cache keeps for an animation: its playback cursor and its texture.
pub type TextureCacheItem = (Animator, TextureId);

pub type CacheEntry = (String, TextureCacheItem);

/// The entries after the one at `i` was used: it moves to the most recent end.
pub open spec fn rearranged(s: Seq<CacheEntry>, i: int) -> Seq<CacheEntry> {
    if 0 <= i < s.len() {
        s.remove(i).push(s[i])
    } else {
        s
    }
}

/// The entries after `e` was added: the least recent one leaves when the cache is full.
pub open spec fn cached(s: Seq<CacheEntry>, e: CacheEntry) -> Seq<CacheEntry> {
    if s.len() >= CACHE_CAPACITY {
        s.drop_first().push(e)
    } else {
        s.push(e)
    }
}

/// The most recent position of an entry named `name`, if any.
pub open spec fn is_latest_with_name(s: Seq<CacheEntry>, name: Seq<char>, i: int) -> bool {
    &&& 0 <= i < s.len()
    &&& s[i].0@ == name
    &&& forall|j: int| i < j < s.len() ==> (#[trigger] s[j]).0@ != name
}

pub open spec fn has_name(s: Seq<CacheEntry>, name: Seq<char>) -> bool {
    exists|j: int| 0 <= j < s.len() && (#[trigger] s[j]).0@ == name
}

/// Decoded animations and their textures, least recently used first.
pub struct TextureCache {
    pub data: VecDeque<CacheEntry>,
}

impl TextureCache {
    pub open spec fn wf(&self) -> bool {
        &&& self.data@.len() <= CACHE_CAPACITY
        &&& forall|i: int| 0 <= i < self.data@.len() ==> (#[trigger] self.data@[i]).1.0.wf()
    }

    pub fn new() -> (r: TextureCache)
        ensures
            r.data@.len() == 0,
            r.wf(),
    {
        TextureCache { data: VecDeque::new() }
    }

    /// Moves the entry at `access_index` to the most recently used end.
    pub fn rearrange(&mut self, access_index: usize)
        ensures
            final(self).data@ == rearranged(old(self).data@, access_index as int),
            old(self).wf() ==> final(self).wf(),
    {
        let ghost s = self.data@;
        if let Some(item) = self.data.remove(access_index) {
            self.data.push_back(item);
            proof {
                let t = self.data@;
                assert forall|i: int| 0 <= i < t.len() && old(self).wf() implies (#[trigger] t[i]).1.0.wf() by {
                    if i < t.len() - 1 {
                        if i < access_index {
                            assert(t[i] == s[i]);
                        } else {
                            assert(t[i] == s[i + 1]);
                        }
                    }
                }
            }
        }
    }

    /// Adds an entry, first evicting the least recently used one when the cache is
    /// full; returns the evicted entry.
    pub fn cache(&mut self, name: String, texture: TextureCacheItem) -> (r: Option<CacheEntry>)
        requires
            old(self).wf(),
            texture.0.wf(),
        ensures
            final(self).data@ == cached(old(self).data@, (name, texture)),
            final(self).wf(),
            r == (if old(self).data@.len() >= CACHE_CAPACITY {
                Some(old(self).data@[0])
            } else {
                None::<CacheEntry>
            }),
    {
        let mut evicted = None;
        if self.data.len() >= CACHE_CAPACITY {
            evicted = self.data.pop_front();
        }
        self.data.push_back((name, texture));
        proof {
            let s = old(self).data@;
            let t = self.data@;
            if s.len() >= CACHE_CAPACITY {
                assert(t =~= s.drop_first().push((name, texture)));
                assert forall|i: int| 0 <= i < t.len() implies (#[trigger] t[i]).1.0.wf() by {
                    if i < t.len() - 1 {
                        assert(t[i] == s[i + 1]);
                    }
                }
            } else {
                assert forall|i: int| 0 <= i < t.len() implies (#[trigger] t[i]).1.0.wf() by {
                    if i < t.len() - 1 {
                        assert(t[i] == s[i]);
                    }
                }
            }
        }
        evicted
    }

    /// The position of the most recently used entry named `name`.
    pub fn lookup(&self, name: &String) -> (r: Option<usize>)
        ensures
            match r {
                Some(i) => is_latest_with_name(self.data@, name@, i as int),
                None => !has_name(self.data@, name@),
            },
    {
        let mut i: usize = self.data.len();
        while i > 0
            invariant
                i <= self.data@.len(),
                forall|j: int| i <= j < self.data@.len() ==> (#[trigger] self.data@[j]).0@ != name@,
            decreases i,
        {
            i = i - 1;
            if self.data[i].0 == *name {
                return Some(i);
            }
        }
        None
    }
}

/// When a full cache takes a new entry after the entry at `i` was used, the
/// entry that leaves is the least recently used one: the oldest entry other than
/// the one just used, even when that one was inserted first.
pub proof fn lemma_eviction_is_least_recently_used(s: Seq<CacheEntry>, i: int, e: CacheEntry)
    requires
        s.len() == CACHE_CAPACITY,
        0 <= i < s.len(),
    ensures
        rearranged(s, i).last() == s[i],
        rearranged(s, i)[0] == (if i == 0 {
            s[1]
        } else {
            s[0]
        }),
        cached(rearranged(s, i), e) == rearranged(s, i).drop_first().push(e),
        cached(rearranged(s, i), e) =~= (if i == 0 {
            s.drop_first().drop_first()
        } else {
            s.drop_first().remove(i - 1)
        }).push(s[i]).push(e),
{
}

/// Using the same entry again and again, by lookup then rearrange, keeps the size
/// of the cache and leaves exactly one entry with that name, at the most recent end.
pub proof fn lemma_repeated_access_keeps_one(s: Seq<CacheEntry>, i: int, name: Seq<char>)
    requires
        0 <= i < s.len(),
        s[i].0@ == name,
        forall|j: int| 0 <= j < s.len() && j != i ==> (#[trigger] s[j]).0@ != name,
    ensures
        is_latest_with_name(s, name, i),
        rearranged(s, i).len() == s.len(),
        rearranged(s, i).last() == s[i],
        forall|j: int| 0 <= j < s.len() - 1 ==> (#[trigger] rearranged(s, i)[j]).0@ != name,
        is_latest_with_name(rearranged(s, i), name, s.len() - 1),
        rearranged(rearranged(s, i), s.len() - 1) == rearranged(s, i),
{
    let t = rearranged(s, i);
    assert forall|j: int| 0 <= j < s.len() - 1 implies (#[trigger] t[j]).0@ != name by {
        if j < i {
            assert(t[j] == s[j]);
        } else {
            assert(t[j] == s[j + 1]);
        }
    }
    assert(t.remove(s.len() - 1).push(t[s.len() - 1]) =~= t);
}

/// A rectangle on screen: its top-left corner and its size.
#[derive(Debug, Clone, Copy, PartialEq, Eq, Structural)]
pub struct Rect {
    pub x: i32,
    pub y: i32,
    pub w: u32,
    pub h: u32,
}

impl Rect {
    pub open spec fn spec_right(self) -> int {
        self.x + self.w
    }

    pub open spec fn spec_bottom(self) -> int {
        self.y + self.h
    }

    /// The right and bottom edges are outside.
    pub open spec fn spec_contains(self, p: (i32, i32)) -> bool {
        self.x <= p.0 < self.spec_right() && self.y <= p.1 < self.spec_bottom()
    }

    pub fn contains_point(&self, p: (i32, i32)) -> (r: bool)
        ensures
            r == self.spec_contains(p),
    {
        let right = self.x as i64 + self.w as i64;
        let bottom = self.y as i64 + self.h as i64;
        self.x <= p.0 && (p.0 as i64) < right && self.y <= p.1 && (p.1 as i64) < bottom
    }
}

/// Where the cursor lies from the rectangle, axis by axis; nowhere when it is inside.
pub open spec fn spec_move_direction(cursor: (i32, i32), rect: Rect) -> (DirectionX, DirectionY) {
    if rect.spec_contains(cursor) {
        (DirectionX::Stay, DirectionY::Stay)
    } else {
        (
            if cursor.0 > rect.spec_right() {
                DirectionX::Right
            } else if cursor.0 < rect.x {
                DirectionX::Left
            } else {
                DirectionX::Stay
            },
            if cursor.1 < rect.y {
                DirectionY::Up
            } else if cursor.1 > rect.spec_bottom() {
                DirectionY::Down
            } else {
                DirectionY::Stay
            },
        )
    }
}

pub fn get_move_direction(cursor_position: (i32, i32), gremlin_rect: Rect) -> (r: (DirectionX, DirectionY))
    ensures
        r == spec_move_direction(cursor_position, gremlin_rect),
{
    if gremlin_rect.contains_point(cursor_position) {
        return (DirectionX::Stay, DirectionY::Stay);
    }
    let right = gremlin_rect.x as i64 + gremlin_rect.w as i64;
    let bottom = gremlin_rect.y as i64 + gremlin_rect.h as i64;
    let dir_x = if (cursor_position.0 as i64) > right {
        DirectionX::Right
    } else if cursor_position.0 < gremlin_rect.x {
        DirectionX::Left
    } else {
        DirectionX::Stay
    };
    let dir_y = if cursor_position.1 < gremlin_rect.y {
        DirectionY::Up
    } else if (cursor_position.1 as i64) > bottom {
        DirectionY::Down
    } else {
        DirectionY::Stay
    };
    (dir_x, dir_y)
}

/// `v` held to the range of `i32`.
pub open spec fn clamp_i32(v: int) -> i32 {
    if v > i32::MAX {
        i32::MAX
    } else if v < i32::MIN {
        i32::MIN
    } else {
        v as i32
    }
}

/// `a + b`, held to the range of `i32`.
pub fn saturating_add_i32(a: i32, b: i32) -> (r: i32)
    ensures
        r == clamp_i32(a + b),
{
    let v = a as i64 + b as i64;
    if v > i32::MAX as i64 {
        i32::MAX
    } else if v < i32::MIN as i64 {
        i32::MIN
    } else {
        v as i32
    }
}

/// `a - b`, held to the range of `i32`.
pub fn saturating_sub_i32(a: i32, b: i32) -> (r: i32)
    ensures
        r == clamp_i32(a - b),
{
    let v = a as i64 - b as i64;
    if v > i32::MAX as i64 {
        i32::MAX
    } else if v < i32::MIN as i64 {
        i32::MIN
    } else {
        v as i32
    }
}

/// A cache operation: `(true, e)` inserts `e` (`cache`); `(false, e)` uses the
/// entry named like `e` (`lookup`, then `rearrange` when found).
pub type CacheOp = (bool, CacheEntry);

/// The entries after one operation.
pub open spec fn after_op(s: Seq<CacheEntry>, op: CacheOp) -> Seq<CacheEntry> {
    if op.0 {
        cached(s, op.1)
    } else if has_name(s, op.1.0@) {
        rearranged(s, choose|i: int| is_latest_with_name(s, op.1.0@, i))
    } else {
        s
    }
}

/// The entries after a history of operations on an empty cache.
pub open spec fn replay(ops: Seq<CacheOp>) -> Seq<CacheEntry>
    decreases ops.len(),
{
    if ops.len() == 0 {
        seq![]
    } else {
        after_op(replay(ops.drop_last()), ops.last())
    }
}

/// Every insert is of a name the cache does not hold.
pub open spec fn fresh_inserts(ops: Seq<CacheOp>) -> bool
    decreases ops.len(),
{
    ops.len() == 0 || (fresh_inserts(ops.drop_last()) && (ops.last().0 ==> !has_name(
        replay(ops.drop_last()),
        ops.last().1.0@,
    )))
}

/// When the name was last inserted or used in the history, or -1 if never.
pub open spec fn last_use(ops: Seq<CacheOp>, name: Seq<char>) -> int
    decreases ops.len(),
{
    if ops.len() == 0 {
        -1
    } else if ops.last().1.0@ == name {
        ops.len() - 1
    } else {
        last_use(ops.drop_last(), name)
    }
}

pub open spec fn distinct_names(s: Seq<CacheEntry>) -> bool {
    forall|i: int, j: int| 0 <= i < j < s.len() ==> (#[trigger] s[i]).0@ != (#[trigger] s[j]).0@
}

/// The entries are ordered by when they were last used, oldest first.
pub open spec fn ordered_by_use(ops: Seq<CacheOp>, s: Seq<CacheEntry>) -> bool {
    &&& forall|i: int| 0 <= i < s.len() ==> 0 <= last_use(ops, (#[trigger] s[i]).0@) < ops.len()
    &&& forall|i: int, j: int|
        0 <= i < j < s.len() ==> last_use(ops, (#[trigger] s[i]).0@) < last_use(ops, (#[trigger] s[j]).0@)
}

proof fn lemma_last_use_bound(ops: Seq<CacheOp>, name: Seq<char>)
    ensures
        -1 <= last_use(ops, name) < ops.len(),
    decreases ops.len(),
{
    if ops.len() > 0 {
        lemma_last_use_bound(ops.drop_last(), name);
    }
}

proof fn lemma_replay_ordered(ops: Seq<CacheOp>)
    requires
        fresh_inserts(ops),
    ensures
        distinct_names(replay(ops)),
        ordered_by_use(ops, replay(ops)),
        replay(ops).len() <= CACHE_CAPACITY,
    decreases ops.len(),
{
    if ops.len() == 0 {
        return;
    }
    let pre = ops.drop_last();
    let op = ops.last();
    let n = op.1.0@;
    lemma_replay_ordered(pre);
    let s = replay(pre);
    let t = replay(ops);
    assert(t == after_op(s, op));
    assert forall|m: Seq<char>| m != n implies last_use(ops, m) == last_use(pre, m) by {}
    assert(last_use(ops, n) == ops.len() - 1);
    assert forall|i: int| 0 <= i < s.len() implies last_use(pre, (#[trigger] s[i]).0@) < pre.len() by {}
    if op.0 {
        // a fresh name goes to the most recent end
        assert forall|i: int| 0 <= i < s.len() implies (#[trigger] s[i]).0@ != n by {
            if s[i].0@ == n {
                assert(has_name(s, n));
            }
        }
        if s.len() >= CACHE_CAPACITY {
            assert(t =~= s.drop_first().push(op.1));
            assert forall|i: int, j: int| 0 <= i < j < t.len() implies (#[trigger] t[i]).0@ != (#[trigger] t[j]).0@
                && last_use(ops, t[i].0@) < last_use(ops, t[j].0@) by {
                assert(t[i] == s[i + 1]);
                if j < t.len() - 1 {
                    assert(t[j] == s[j + 1]);
                }
            }
            assert forall|i: int| 0 <= i < t.len() implies 0 <= last_use(ops, (#[trigger] t[i]).0@) < ops.len() by {
                if i < t.len() - 1 {
                    assert(t[i] == s[i + 1]);
                }
            }
        } else {
            assert(t =~= s.push(op.1));
            assert forall|i: int, j: int| 0 <= i < j < t.len() implies (#[trigger] t[i]).0@ != (#[trigger] t[j]).0@
                && last_use(ops, t[i].0@) < last_use(ops, t[j].0@) by {
                assert(t[i] == s[i]);
                if j < t.len() - 1 {
                    assert(t[j] == s[j]);
                }
            }
            assert forall|i: int| 0 <= i < t.len() implies 0 <= last_use(ops, (#[trigger] t[i]).0@) < ops.len() by {
                if i < t.len() - 1 {
                    assert(t[i] == s[i]);
                }
            }
        }
    } else if has_name(s, n) {
        let k = choose|i: int| is_latest_with_name(s, n, i);
        let w = choose|j: int| 0 <= j < s.len() && (#[trigger] s[j]).0@ == n;
        assert(is_latest_with_name(s, n, k)) by {
            assert forall|j: int| w < j < s.len() implies (#[trigger] s[j]).0@ != n by {
                assert(s[w].0@ != s[j].0@);
            }
            assert(is_latest_with_name(s, n, w));
        }
        assert(t =~= s.remove(k).push(s[k]));
        assert forall|i: int, j: int| 0 <= i < j < t.len() implies (#[trigger] t[i]).0@ != (#[trigger] t[j]).0@
            && last_use(ops, t[i].0@) < last_use(ops, t[j].0@) by {
            let si = if i < k { i } else { i + 1 };
            assert(t[i] == s[si]);
            assert(s[si].0@ != n);
            if j < t.len() - 1 {
                let sj = if j < k { j } else { j + 1 };
                assert(t[j] == s[sj]);
                assert(s[sj].0@ != n);
            }
        }
        assert forall|i: int| 0 <= i < t.len() implies 0 <= last_use(ops, (#[trigger] t[i]).0@) < ops.len() by {
            if i < t.len() - 1 {
                let si = if i < k { i } else { i + 1 };
                assert(t[i] == s[si]);
                assert(s[si].0@ != n);
            }
        }
    } else {
        assert forall|i: int| 0 <= i < s.len() implies (#[trigger] s[i]).0@ != n by {
            if s[i].0@ == n {
                assert(has_name(s, n));
            }
        }
    }
}

/// Over any history of inserts of new names and uses, the cache holds distinct
/// names ordered by last use; so when a full cache takes a new name, the entry it
/// evicts is the least recently used one, whatever the order of insertion.
pub proof fn lemma_full_cache_evicts_least_recently_used(ops: Seq<CacheOp>, e: CacheEntry)
    requires
        fresh_inserts(ops),
        replay(ops).len() == CACHE_CAPACITY,
    ensures
        distinct_names(replay(ops)),
        forall|j: int|
            1 <= j < CACHE_CAPACITY ==> last_use(ops, replay(ops)[0].0@) < last_use(ops, (#[trigger] replay(ops)[j]).0@),
        cached(replay(ops), e) == replay(ops).drop_first().push(e),
{
    lemma_replay_ordered(ops);
}

} // verus!
