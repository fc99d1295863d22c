//! Key state: the level-triggered set of keys currently held and the
//! edge-triggered set of keys pressed this tick, which is consumed and
//! cleared at the end of every tick.

use vstd::prelude::*;

verus! {

/// Key identifiers for the bindings the integrator reads. The windowing
/// layer maps its own key symbols onto these.
pub const KEY_W: u32 = 1;

pub const KEY_A: u32 = 2;

pub const KEY_S: u32 = 3;

pub const KEY_D: u32 = 4;

pub const KEY_SPACE: u32 = 5;

pub const KEY_LSHIFT: u32 = 6;

pub const KEY_E: u32 = 7;

pub const KEY_ESCAPE: u32 = 8;

/// The held set after a key-down event: a newly held key is appended,
/// an already held one changes nothing.
pub open spec fn spec_down_held(held: Seq<u32>, k: u32) -> Seq<u32> {
    if held.contains(k) {
        held
    } else {
        held.push(k)
    }
}

/// The pressed set after a key-down event: it gains the key only when
/// the key was not already held — a repeat of a held key is no edge —
/// and never twice.
pub open spec fn spec_down_pressed(held: Seq<u32>, pressed: Seq<u32>, k: u32) -> Seq<u32> {
    if held.contains(k) || pressed.contains(k) {
        pressed
    } else {
        pressed.push(k)
    }
}

/// The held set after a key-up event: the key's entry is removed.
pub open spec fn spec_up_held(held: Seq<u32>, k: u32) -> Seq<u32>
    decreases held.len(),
{
    if held.len() == 0 {
        held
    } else if held[0] == k {
        held.drop_first()
    } else {
        seq![held[0]] + spec_up_held(held.drop_first(), k)
    }
}

/// A sequence with no repeated entries.
pub open spec fn no_dups(s: Seq<u32>) -> bool {
    forall|i: int, j: int| 0 <= i < j < s.len() ==> s[i] != s[j]
}

/// The two input-symbol sets: keys currently held (level-triggered) and
/// keys pressed this tick (edge-triggered).
pub struct KeyState {
    held: Vec<u32>,
    pressed: Vec<u32>,
}

/// Every cell of `spec_up_held(held, k)` comes from `held` and differs
/// from `k`, and every cell of `held` other than `k` survives.
proof fn lemma_spec_up_held_elems(held: Seq<u32>, k: u32)
    ensures
        forall|i: int|
            0 <= i < spec_up_held(held, k).len() ==> held.contains(
                #[trigger] spec_up_held(held, k)[i],
            ),
        no_dups(held) ==> forall|i: int|
            0 <= i < spec_up_held(held, k).len() ==> (#[trigger] spec_up_held(held, k)[i]) != k,
        no_dups(held) ==> no_dups(spec_up_held(held, k)),
        no_dups(held) ==> forall|v: u32|
            v != k ==> (spec_up_held(held, k).contains(v) <==> held.contains(v)),
    decreases held.len(),
{
    if held.len() == 0 {
    } else if held[0] == k {
        let rest = held.drop_first();
        assert forall|i: int| 0 <= i < rest.len() implies held.contains(#[trigger] rest[i]) by {
            assert(rest[i] == held[i + 1]);
        }
        if no_dups(held) {
            assert forall|i: int| 0 <= i < rest.len() implies #[trigger] rest[i] != k by {
                assert(rest[i] == held[i + 1]);
            }
            assert forall|i: int, j: int| 0 <= i < j < rest.len() implies rest[i] != rest[j] by {
                assert(rest[i] == held[i + 1] && rest[j] == held[j + 1]);
            }
            assert forall|v: u32| v != k implies (rest.contains(v) <==> held.contains(v)) by {
                if held.contains(v) {
                    let w = choose|w: int| 0 <= w < held.len() && held[w] == v;
                    assert(rest[w - 1] == v);
                }
                if rest.contains(v) {
                    let w = choose|w: int| 0 <= w < rest.len() && rest[w] == v;
                    assert(held[w + 1] == v);
                }
            }
        }
    } else {
        let rest = held.drop_first();
        let t = spec_up_held(rest, k);
        let r = seq![held[0]] + t;
        assert(no_dups(held) ==> no_dups(rest)) by {
            if no_dups(held) {
                assert forall|i: int, j: int| 0 <= i < j < rest.len() implies rest[i] != rest[j] by {
                    assert(rest[i] == held[i + 1] && rest[j] == held[j + 1]);
                }
            }
        }
        lemma_spec_up_held_elems(rest, k);
        assert forall|i: int| 0 <= i < r.len() implies held.contains(#[trigger] r[i]) by {
            if i == 0 {
                assert(held[0] == r[0]);
            } else {
                assert(r[i] == t[i - 1]);
                assert(rest.contains(t[i - 1]));
                let w = choose|w: int| 0 <= w < rest.len() && rest[w] == t[i - 1];
                assert(held[w + 1] == t[i - 1]);
            }
        }
        if no_dups(held) {
            assert forall|i: int| 0 <= i < r.len() implies #[trigger] r[i] != k by {
                if i > 0 {
                    assert(r[i] == t[i - 1]);
                }
            }
            assert forall|i: int, j: int| 0 <= i < j < r.len() implies r[i] != r[j] by {
                assert(r[j] == t[j - 1]);
                assert(rest.contains(t[j - 1]));
                if i == 0 {
                    let w = choose|w: int| 0 <= w < rest.len() && rest[w] == t[j - 1];
                    assert(held[w + 1] == t[j - 1]);
                } else {
                    assert(r[i] == t[i - 1]);
                }
            }
            assert forall|v: u32| v != k implies (r.contains(v) <==> held.contains(v)) by {
                if held.contains(v) {
                    let w = choose|w: int| 0 <= w < held.len() && held[w] == v;
                    if w == 0 {
                        assert(r[0] == v);
                    } else {
                        assert(rest[w - 1] == v);
                        assert(rest.contains(v));
                        assert(t.contains(v));
                        let u = choose|u: int| 0 <= u < t.len() && t[u] == v;
                        assert(r[u + 1] == v);
                    }
                }
                if r.contains(v) {
                    let w = choose|w: int| 0 <= w < r.len() && r[w] == v;
                    if w == 0 {
                        assert(held[0] == v);
                    } else {
                        assert(t[w - 1] == v);
                        assert(rest.contains(v));
                        let u = choose|u: int| 0 <= u < rest.len() && rest[u] == v;
                        assert(held[u + 1] == v);
                    }
                }
            }
        }
    }
}

/// Removal at the position where the key sits, for the executable
/// search: before `i` the key does not occur.
proof fn lemma_spec_up_held_split(held: Seq<u32>, k: u32, i: int)
    requires
        0 <= i <= held.len(),
        forall|j: int| 0 <= j < i ==> held[j] != k,
        i < held.len() ==> held[i] == k,
    ensures
        spec_up_held(held, k) == (if i < held.len() {
            held.remove(i)
        } else {
            held
        }),
    decreases i,
{
    if i == 0 {
        if held.len() > 0 {
            assert(spec_up_held(held, k) =~= held.remove(0));
        }
    } else {
        let rest = held.drop_first();
        lemma_spec_up_held_split(rest, k, i - 1);
        if i < held.len() {
            assert(rest[i - 1] == held[i]);
            assert(seq![held[0]] + rest.remove(i - 1) =~= held.remove(i));
        } else {
            assert(seq![held[0]] + rest =~= held);
        }
    }
}

/// Whether `v` holds `k`.
fn vec_contains(v: &Vec<u32>, k: u32) -> (r: bool)
    ensures
        r == v@.contains(k),
{
    let mut i: usize = 0;
    while i < v.len()
        invariant
            i <= v.len(),
            forall|j: int| 0 <= j < i ==> v@[j] != k,
        decreases v.len() - i,
    {
        if v[i] == k {
            return true;
        }
        i += 1;
    }
    false
}

impl KeyState {
    /// The keys currently held, each at most once.
    pub closed spec fn held(self) -> Seq<u32> {
        self.held@
    }

    /// The keys pressed this tick, each at most once.
    pub closed spec fn pressed(self) -> Seq<u32> {
        self.pressed@
    }

    /// The key-state invariant: no key occurs twice in either set.
    pub open spec fn wf(self) -> bool {
        no_dups(self.held()) && no_dups(self.pressed())
    }

    /// Both sets empty: nothing held, nothing pressed.
    pub fn new() -> (ks: KeyState)
        ensures
            ks.wf(),
            ks.held() == Seq::<u32>::empty(),
            ks.pressed() == Seq::<u32>::empty(),
    {
        KeyState { held: Vec::new(), pressed: Vec::new() }
    }

    /// Whether the key is currently held.
    pub fn is_held(&self, k: u32) -> (r: bool)
        ensures
            r == self.held().contains(k),
    {
        vec_contains(&self.held, k)
    }

    /// Whether the key was pressed this tick.
    pub fn was_pressed(&self, k: u32) -> (r: bool)
        ensures
            r == self.pressed().contains(k),
    {
        vec_contains(&self.pressed, k)
    }

    /// A key-down event: the key joins the held set, and joins the
    /// pressed set only when it was not already held.
    pub fn key_down(&mut self, k: u32)
        requires
            old(self).wf(),
        ensures
            final(self).wf(),
            final(self).held() == spec_down_held(old(self).held(), k),
            final(self).pressed() == spec_down_pressed(old(self).held(), old(self).pressed(), k),
    {
        let was_held = vec_contains(&self.held, k);
        if !was_held {
            self.held.push(k);
            if !vec_contains(&self.pressed, k) {
                self.pressed.push(k);
            }
        }
    }

    /// A key-up event: the key leaves the held set; the pressed set is
    /// untouched, so a press is still seen by the tick that consumes it.
    pub fn key_up(&mut self, k: u32)
        requires
            old(self).wf(),
        ensures
            final(self).wf(),
            final(self).held() == spec_up_held(old(self).held(), k),
            final(self).pressed() == old(self).pressed(),
            !final(self).held().contains(k),
            forall|v: u32|
                v != k ==> (final(self).held().contains(v) <==> old(self).held().contains(v)),
    {
        proof {
            lemma_spec_up_held_elems(self.held@, k);
        }
        let ghost h0 = self.held@;
        let ghost p0 = self.pressed@;
        let mut i: usize = 0;
        while i < self.held.len()
            invariant
                i <= self.held.len(),
                self.held@ == h0,
                self.pressed@ == p0,
                no_dups(h0),
                no_dups(p0),
                h0 == old(self).held(),
                p0 == old(self).pressed(),
                forall|j: int| 0 <= j < i ==> h0[j] != k,
            decreases self.held.len() - i,
        {
            if self.held[i] == k {
                proof {
                    lemma_spec_up_held_elems(h0, k);
                    lemma_spec_up_held_split(h0, k, i as int);
                }
                self.held.remove(i);
                proof {
                    assert(!spec_up_held(h0, k).contains(k)) by {
                        if spec_up_held(h0, k).contains(k) {
                            let w = choose|w: int|
                                0 <= w < spec_up_held(h0, k).len() && spec_up_held(h0, k)[w] == k;
                            assert(spec_up_held(h0, k)[w] != k);
                        }
                    }
                }
                return ;
            }
            i += 1;
        }
        proof {
            lemma_spec_up_held_split(h0, k, self.held@.len() as int);
        }
    }

    /// The end of a tick: the pressed set has been consumed and is
    /// cleared; the held set persists.
    pub fn clear_pressed(&mut self)
        requires
            old(self).wf(),
        ensures
            final(self).wf(),
            final(self).held() == old(self).held(),
            final(self).pressed() == Seq::<u32>::empty(),
    {
        self.pressed.clear();
    }
}

/// Pressed-set edge triggering: a key that goes down and then stays held
/// across consecutive ticks is in the pressed set on the first tick
/// alone. The first down event places it there; the tick's clearing
/// empties the set; and a repeated down event of a held key never
/// re-adds it, so later ticks see it absent.
pub proof fn lemma_pressed_edge_triggered(held: Seq<u32>, pressed: Seq<u32>, k: u32)
    requires
        !held.contains(k),
    ensures
        spec_down_pressed(held, pressed, k).contains(k),
        forall|h: Seq<u32>, p: Seq<u32>|
            h.contains(k) ==> #[trigger] spec_down_pressed(h, p, k) == p,
        !Seq::<u32>::empty().contains(k),
{
    let p1 = spec_down_pressed(held, pressed, k);
    if !pressed.contains(k) {
        assert(p1 == pressed.push(k));
        assert(p1[p1.len() - 1] == k);
    }
}

} // verus!
