//! Input events: the modifier keys, what an injected function reacts to, and
//! which injected functions an input fires, in the order they were injected.

use vstd::prelude::*;

verus! {

/// The state of the modifier keys.
#[derive(PartialEq, Eq, Structural, Debug, Clone, Copy)]
pub struct EventModifiers {
    pub ctrl: bool,
    pub shift: bool,
    pub alt: bool,
}

impl EventModifiers {
    pub fn new(ctrl: bool, shift: bool, alt: bool) -> (r: Self)
        ensures
            r == (EventModifiers { ctrl, shift, alt }),
    {
        Self { ctrl, shift, alt }
    }

    /// No modifier held.
    pub fn default() -> (r: Self)
        ensures
            r == (EventModifiers { ctrl: false, shift: false, alt: false }),
    {
        Self { ctrl: false, shift: false, alt: false }
    }
}

/// What an injected function reacts to. Keys and mouse buttons are given by
/// the codes the windowing layer assigns them.
#[derive(PartialEq, Eq, Structural, Debug, Clone, Copy)]
pub enum EventCharacteristic {
    /// A key going down.
    KeyPress(u32),
    /// A key held down, every frame.
    KeyDown(u32),
    /// Any mouse button going down.
    MousePress(u32),
    /// A mouse button held down, repeatedly.
    MouseDown(u32),
    /// The mouse wheel.
    MouseScroll,
}

/// An injection as the dispatcher sees it: what it reacts to and under which
/// modifiers.
pub type Injection = (EventCharacteristic, EventModifiers);

/// The modifiers an injection is registered with: the given ones, or none held.
pub fn injection_modifiers(modifiers: Option<EventModifiers>) -> (r: EventModifiers)
    ensures
        r == match modifiers {
            Some(m) => m,
            None => EventModifiers { ctrl: false, shift: false, alt: false },
        },
{
    match modifiers {
        Some(m) => m,
        None => EventModifiers::default(),
    }
}

/// The indices below `n` at which `p` holds, in increasing order.
pub open spec fn indices_where(n: nat, p: spec_fn(int) -> bool) -> Seq<usize>
    decreases n,
{
    if n == 0 {
        seq![]
    } else if p(n - 1) {
        indices_where((n - 1) as nat, p).push((n - 1) as usize)
    } else {
        indices_where((n - 1) as nat, p)
    }
}

/// A key press fires an injection registered for a press of that key under
/// the current modifiers.
pub open spec fn fires_on_key_press(inj: Injection, key: Option<u32>, pressed: bool, current: EventModifiers) -> bool {
    &&& pressed
    &&& inj.1 == current
    &&& inj.0 matches EventCharacteristic::KeyPress(k) && key == Some(k)
}

/// A mouse button event fires an injection registered for holding that
/// button (when it goes down), or for any button press (when one goes down),
/// under the current modifiers.
pub open spec fn fires_on_mouse_input(inj: Injection, button: u32, pressed: bool, current: EventModifiers) -> bool {
    &&& pressed
    &&& inj.1 == current
    &&& ((inj.0 matches EventCharacteristic::MouseDown(b) && b == button) || inj.0 is MousePress)
}

/// An injection that tracks whether `button` is held.
pub open spec fn tracks_button(inj: Injection, button: u32, current: EventModifiers) -> bool {
    &&& inj.1 == current
    &&& inj.0 matches EventCharacteristic::MouseDown(b) && b == button
}

/// A held key fires the injections registered for holding it.
pub open spec fn fires_on_key_held(inj: Injection, key: u32, current: EventModifiers) -> bool {
    &&& inj.1 == current
    &&& inj.0 matches EventCharacteristic::KeyDown(k) && k == key
}

/// A held mouse button, once the repeat delay has passed, fires the
/// injections registered for holding a button.
pub open spec fn fires_on_mouse_held(inj: Injection, current: EventModifiers) -> bool {
    inj.1 == current && inj.0 is MouseDown
}

/// For each held key in turn, the injections it fires.
pub open spec fn held_key_order(inj: Seq<Injection>, held: Seq<u32>, current: EventModifiers) -> Seq<usize>
    decreases held.len(),
{
    if held.len() == 0 {
        seq![]
    } else {
        held_key_order(inj, held.drop_last(), current)
            + indices_where(inj.len(), |i: int| fires_on_key_held(inj[i], held.last(), current))
    }
}

proof fn lemma_indices_step(n: nat, p: spec_fn(int) -> bool)
    ensures
        indices_where(n + 1, p) == if p(n as int) {
            indices_where(n, p).push(n as usize)
        } else {
            indices_where(n, p)
        },
{
    assert(((n + 1) as nat - 1) as nat == n);
}

/// The indices picked out by `indices_where` are below `n`, satisfy `p`,
/// increase, and include every index below `n` that satisfies `p`.
proof fn lemma_indices_where(n: nat, p: spec_fn(int) -> bool)
    requires
        n <= usize::MAX,
    ensures
        forall|k: int| 0 <= k < indices_where(n, p).len() ==> {
            let i = #[trigger] indices_where(n, p)[k];
            i < n && p(i as int)
        },
        forall|k: int, l: int| 0 <= k < l < indices_where(n, p).len()
            ==> #[trigger] indices_where(n, p)[k] < #[trigger] indices_where(n, p)[l],
        forall|i: int| 0 <= i < n && #[trigger] p(i) ==> indices_where(n, p).contains(i as usize),
    decreases n,
{
    if n > 0 {
        let m = (n - 1) as nat;
        lemma_indices_where(m, p);
        lemma_indices_step(m, p);
        let before = indices_where(m, p);
        if p(m as int) {
            let now = before.push(m as usize);
            assert forall|i: int| 0 <= i < n && #[trigger] p(i) implies now.contains(i as usize) by {
                if i < m {
                    let k = choose|k: int| 0 <= k < before.len() && before[k] == i as usize;
                    assert(now[k] == i as usize);
                } else {
                    assert(now[now.len() - 1] == i as usize);
                }
            }
        }
    }
}

/// The injections a key event fires, by index.
pub open spec fn key_press_fired(inj: Seq<Injection>, key: Option<u32>, pressed: bool, current: EventModifiers) -> Seq<usize> {
    indices_where(inj.len(), |i: int| fires_on_key_press(inj[i], key, pressed, current))
}

/// The injections a mouse button event fires, by index.
pub open spec fn mouse_input_fired(inj: Seq<Injection>, button: u32, pressed: bool, current: EventModifiers) -> Seq<usize> {
    indices_where(inj.len(), |i: int| fires_on_mouse_input(inj[i], button, pressed, current))
}

/// The injections a held mouse button fires, by index.
pub open spec fn mouse_held_fired(inj: Seq<Injection>, current: EventModifiers) -> Seq<usize> {
    indices_where(inj.len(), |i: int| fires_on_mouse_held(inj[i], current))
}

/// The injections a held key fires, by index.
pub open spec fn key_held_fired(inj: Seq<Injection>, key: u32, current: EventModifiers) -> Seq<usize> {
    indices_where(inj.len(), |i: int| fires_on_key_held(inj[i], key, current))
}

/// Held keys fire only injections registered for holding one of them under
/// the current modifiers, and every such injection for every held key.
pub proof fn lemma_held_keys_fire(inj: Seq<Injection>, held: Seq<u32>, current: EventModifiers)
    requires
        inj.len() <= usize::MAX,
    ensures
        forall|k: int| 0 <= k < held_key_order(inj, held, current).len() ==> {
            let i = #[trigger] held_key_order(inj, held, current)[k];
            &&& i < inj.len()
            &&& inj[i as int].1 == current
            &&& exists|h: int| 0 <= h < held.len() && inj[i as int].0 == EventCharacteristic::KeyDown(#[trigger] held[h])
        },
        forall|i: int, h: int| 0 <= i < inj.len() && 0 <= h < held.len() && inj[i].1 == current
            && #[trigger] inj[i].0 == EventCharacteristic::KeyDown(#[trigger] held[h])
            ==> held_key_order(inj, held, current).contains(i as usize),
    decreases held.len(),
{
    if held.len() > 0 {
        let d = held.drop_last();
        let key = held.last();
        lemma_held_keys_fire(inj, d, current);
        let p = |i: int| fires_on_key_held(inj[i], key, current);
        lemma_indices_where(inj.len(), p);
        let a = held_key_order(inj, d, current);
        let b = indices_where(inj.len(), p);
        let all = held_key_order(inj, held, current);
        assert(all == a + b);
        assert forall|k: int| 0 <= k < all.len() implies {
            let i = #[trigger] all[k];
            &&& i < inj.len()
            &&& inj[i as int].1 == current
            &&& exists|h: int| 0 <= h < held.len() && inj[i as int].0 == EventCharacteristic::KeyDown(#[trigger] held[h])
        } by {
            if k < a.len() {
                assert(all[k] == a[k]);
                let i = a[k];
                let h = choose|h: int| 0 <= h < d.len() && inj[i as int].0 == EventCharacteristic::KeyDown(#[trigger] d[h]);
                assert(held[h] == d[h]);
            } else {
                assert(all[k] == b[k - a.len()]);
                let i = b[k - a.len()];
                assert(p(i as int));
                assert(held[held.len() - 1] == key);
            }
        }
        assert forall|i: int, h: int| 0 <= i < inj.len() && 0 <= h < held.len() && inj[i].1 == current
            && #[trigger] inj[i].0 == EventCharacteristic::KeyDown(#[trigger] held[h])
            implies all.contains(i as usize) by {
            if h < d.len() {
                assert(held[h] == d[h]);
                assert(a.contains(i as usize));
                let k = choose|k: int| 0 <= k < a.len() && a[k] == i as usize;
                assert(all[k] == a[k]);
            } else {
                assert(held[h] == key);
                assert(p(i));
                assert(b.contains(i as usize));
                let k = choose|k: int| 0 <= k < b.len() && b[k] == i as usize;
                assert(all[a.len() + k] == b[k]);
            }
        }
    }
}

/// A key event fires exactly the injections registered for a press of that
/// key under the current modifiers, when the key goes down, in injection
/// order and each once.
pub proof fn lemma_key_press_fires(inj: Seq<Injection>, key: Option<u32>, pressed: bool, current: EventModifiers)
    requires
        inj.len() <= usize::MAX,
    ensures
        forall|k: int| 0 <= k < key_press_fired(inj, key, pressed, current).len() ==> {
            let i = #[trigger] key_press_fired(inj, key, pressed, current)[k];
            &&& i < inj.len()
            &&& pressed
            &&& inj[i as int].1 == current
            &&& key matches Some(c) && inj[i as int].0 == EventCharacteristic::KeyPress(c)
        },
        forall|i: int| 0 <= i < inj.len() && pressed && inj[i].1 == current
            && (key matches Some(c) && #[trigger] inj[i].0 == EventCharacteristic::KeyPress(c))
            ==> key_press_fired(inj, key, pressed, current).contains(i as usize),
        forall|k: int, l: int| 0 <= k < l < key_press_fired(inj, key, pressed, current).len()
            ==> #[trigger] key_press_fired(inj, key, pressed, current)[k]
                < #[trigger] key_press_fired(inj, key, pressed, current)[l],
{
    let p = |i: int| fires_on_key_press(inj[i], key, pressed, current);
    lemma_indices_where(inj.len(), p);
    assert forall|i: int| 0 <= i < inj.len() && pressed && inj[i].1 == current
        && (key matches Some(c) && #[trigger] inj[i].0 == EventCharacteristic::KeyPress(c))
        implies indices_where(inj.len(), p).contains(i as usize) by {
        assert(p(i));
    }
}

/// A mouse button event fires only injections registered under the current
/// modifiers, and only when the button goes down: those that hold this
/// button and those for any button press; and it fires all of them, in
/// injection order and each once.
pub proof fn lemma_mouse_input_fires(inj: Seq<Injection>, button: u32, pressed: bool, current: EventModifiers)
    requires
        inj.len() <= usize::MAX,
    ensures
        forall|k: int| 0 <= k < mouse_input_fired(inj, button, pressed, current).len() ==> {
            let i = #[trigger] mouse_input_fired(inj, button, pressed, current)[k];
            &&& i < inj.len()
            &&& pressed
            &&& inj[i as int].1 == current
            &&& (inj[i as int].0 is MousePress || inj[i as int].0 == EventCharacteristic::MouseDown(button))
        },
        forall|i: int| 0 <= i < inj.len() && pressed && inj[i].1 == current
            && (#[trigger] inj[i].0 is MousePress || inj[i].0 == EventCharacteristic::MouseDown(button))
            ==> mouse_input_fired(inj, button, pressed, current).contains(i as usize),
        forall|k: int, l: int| 0 <= k < l < mouse_input_fired(inj, button, pressed, current).len()
            ==> #[trigger] mouse_input_fired(inj, button, pressed, current)[k]
                < #[trigger] mouse_input_fired(inj, button, pressed, current)[l],
{
    let p = |i: int| fires_on_mouse_input(inj[i], button, pressed, current);
    lemma_indices_where(inj.len(), p);
    assert forall|i: int| 0 <= i < inj.len() && pressed && inj[i].1 == current
        && (#[trigger] inj[i].0 is MousePress || inj[i].0 == EventCharacteristic::MouseDown(button))
        implies indices_where(inj.len(), p).contains(i as usize) by {
        assert(p(i));
    }
}

/// Once the repeat delay has passed, a held mouse button fires exactly the
/// injections registered for holding a mouse button under the current
/// modifiers, in injection order and each once.
pub proof fn lemma_mouse_held_fires(inj: Seq<Injection>, current: EventModifiers)
    requires
        inj.len() <= usize::MAX,
    ensures
        forall|k: int| 0 <= k < mouse_held_fired(inj, current).len() ==> {
            let i = #[trigger] mouse_held_fired(inj, current)[k];
            &&& i < inj.len()
            &&& inj[i as int].1 == current
            &&& inj[i as int].0 is MouseDown
        },
        forall|i: int| 0 <= i < inj.len() && inj[i].1 == current && #[trigger] inj[i].0 is MouseDown
            ==> mouse_held_fired(inj, current).contains(i as usize),
{
    let p = |i: int| fires_on_mouse_held(inj[i], current);
    lemma_indices_where(inj.len(), p);
    assert forall|i: int| 0 <= i < inj.len() && inj[i].1 == current && #[trigger] inj[i].0 is MouseDown
        implies indices_where(inj.len(), p).contains(i as usize) by {
        assert(p(i));
    }
}

/// The injections that a key event fires, in injection order.
pub fn key_press_targets(injections: &Vec<Injection>, key: Option<u32>, pressed: bool, current: EventModifiers) -> (r: Vec<usize>)
    ensures
        r@ == indices_where(injections@.len(), |i: int| fires_on_key_press(injections@[i], key, pressed, current)),
        r@ == key_press_fired(injections@, key, pressed, current),
        forall|k: int| 0 <= k < r@.len() ==> {
            let i = #[trigger] r@[k];
            &&& i < injections@.len()
            &&& pressed
            &&& injections@[i as int].1 == current
            &&& key matches Some(c) && injections@[i as int].0 == EventCharacteristic::KeyPress(c)
        },
{
    let _len = injections.len();
    proof { lemma_key_press_fires(injections@, key, pressed, current); }
    let ghost p = |i: int| fires_on_key_press(injections@[i], key, pressed, current);
    let mut r: Vec<usize> = Vec::new();
    let n = injections.len();
    let mut i: usize = 0;
    while i < n
        invariant
            n == injections@.len(),
            0 <= i <= n,
            r@ == indices_where(i as nat, p),
            p == (|i: int| fires_on_key_press(injections@[i], key, pressed, current)),
        decreases n - i,
    {
        proof { lemma_indices_step(i as nat, p); }
        let (c, m) = injections[i];
        assert(injections@[i as int] == (c, m));
        assert(p(i as int) == fires_on_key_press((c, m), key, pressed, current));
        if pressed && m == current {
            if let EventCharacteristic::KeyPress(k) = c {
                if key == Some(k) {
                    r.push(i);
                }
            }
        }
        i = i + 1;
    }
    r
}

/// The injections that a mouse button event fires, in injection order, and
/// whether the button is now known to be held (`Some(pressed)` when an
/// injection tracks holding that button, `None` otherwise).
pub fn mouse_input_targets(injections: &Vec<Injection>, button: u32, pressed: bool, current: EventModifiers) -> (r: (Vec<usize>, Option<bool>))
    ensures
        r.0@ == indices_where(injections@.len(), |i: int| fires_on_mouse_input(injections@[i], button, pressed, current)),
        r.0@ == mouse_input_fired(injections@, button, pressed, current),
        forall|k: int| 0 <= k < r.0@.len() ==> {
            let i = #[trigger] r.0@[k];
            &&& i < injections@.len()
            &&& pressed
            &&& injections@[i as int].1 == current
            &&& (injections@[i as int].0 is MousePress || injections@[i as int].0 == EventCharacteristic::MouseDown(button))
        },
        r.1 == if exists|i: int| 0 <= i < injections@.len() && tracks_button(injections@[i], button, current) {
            Some(pressed)
        } else {
            None::<bool>
        },
{
    let _len = injections.len();
    proof { lemma_mouse_input_fires(injections@, button, pressed, current); }
    let ghost p = |i: int| fires_on_mouse_input(injections@[i], button, pressed, current);
    let mut r: Vec<usize> = Vec::new();
    let mut held: Option<bool> = None;
    let n = injections.len();
    let mut i: usize = 0;
    while i < n
        invariant
            n == injections@.len(),
            0 <= i <= n,
            r@ == indices_where(i as nat, p),
            p == (|i: int| fires_on_mouse_input(injections@[i], button, pressed, current)),
            held == if exists|j: int| 0 <= j < i && tracks_button(injections@[j], button, current) {
                Some(pressed)
            } else {
                None::<bool>
            },
        decreases n - i,
    {
        proof { lemma_indices_step(i as nat, p); }
        let (c, m) = injections[i];
        assert(injections@[i as int] == (c, m));
        assert(p(i as int) == fires_on_mouse_input((c, m), button, pressed, current));
        if m == current {
            match c {
                EventCharacteristic::MouseDown(b) => {
                    if b == button {
                        held = Some(pressed);
                        if pressed {
                            r.push(i);
                        }
                    }
                },
                EventCharacteristic::MousePress(_) => {
                    if pressed {
                        r.push(i);
                    }
                },
                _ => {},
            }
        }
        proof {
            if tracks_button(injections@[i as int], button, current) {
                assert(exists|j: int| 0 <= j < i + 1 && tracks_button(injections@[j], button, current));
            } else if exists|j: int| 0 <= j < i + 1 && tracks_button(injections@[j], button, current) {
                let j = choose|j: int| 0 <= j < i + 1 && tracks_button(injections@[j], button, current);
                assert(j < i);
            }
        }
        i = i + 1;
    }
    (r, held)
}

/// The injections that a set of held keys fires: for each held key in the
/// given order, its injections in injection order.
pub fn held_key_targets(injections: &Vec<Injection>, held: &Vec<u32>, current: EventModifiers) -> (r: Vec<usize>)
    ensures
        r@ == held_key_order(injections@, held@, current),
{
    let mut r: Vec<usize> = Vec::new();
    let nk = held.len();
    let n = injections.len();
    let mut k: usize = 0;
    while k < nk
        invariant
            nk == held@.len(),
            n == injections@.len(),
            0 <= k <= nk,
            r@ == held_key_order(injections@, held@.take(k as int), current),
        decreases nk - k,
    {
        let key = held[k];
        let ghost p = |i: int| fires_on_key_held(injections@[i], key, current);
        let ghost base = r@;
        let mut i: usize = 0;
        while i < n
            invariant
                n == injections@.len(),
                0 <= i <= n,
                r@ == base + indices_where(i as nat, p),
                p == (|i: int| fires_on_key_held(injections@[i], key, current)),
            decreases n - i,
        {
            proof { lemma_indices_step(i as nat, p); }
            let (c, m) = injections[i];
            assert(injections@[i as int] == (c, m));
            assert(p(i as int) == fires_on_key_held((c, m), key, current));
            if m == current {
                if let EventCharacteristic::KeyDown(code) = c {
                    if code == key {
                        r.push(i);
                    }
                }
            }
            proof {
                assert(r@ =~= base + indices_where((i + 1) as nat, p));
            }
            i = i + 1;
        }
        proof {
            let t = held@.take(k + 1);
            assert(t.drop_last() =~= held@.take(k as int));
            assert(t.last() == key);
            assert(held_key_order(injections@, t, current)
                == held_key_order(injections@, t.drop_last(), current)
                    + indices_where(injections@.len(), |i: int| fires_on_key_held(injections@[i], t.last(), current)));
            assert(p =~= |i: int| fires_on_key_held(injections@[i], t.last(), current));
        }
        k = k + 1;
    }
    assert(held@.take(nk as int) =~= held@);
    r
}

/// The injections that a held mouse button fires once the repeat delay has
/// passed (`repeat_due`), in injection order; none otherwise.
pub fn mouse_held_targets(injections: &Vec<Injection>, repeat_due: bool, current: EventModifiers) -> (r: Vec<usize>)
    ensures
        r@ == if repeat_due {
            indices_where(injections@.len(), |i: int| fires_on_mouse_held(injections@[i], current))
        } else {
            Seq::<usize>::empty()
        },
{
    let mut r: Vec<usize> = Vec::new();
    if !repeat_due {
        return r;
    }
    let ghost p = |i: int| fires_on_mouse_held(injections@[i], current);
    let n = injections.len();
    let mut i: usize = 0;
    while i < n
        invariant
            n == injections@.len(),
            0 <= i <= n,
            r@ == indices_where(i as nat, p),
            p == (|i: int| fires_on_mouse_held(injections@[i], current)),
        decreases n - i,
    {
        proof { lemma_indices_step(i as nat, p); }
        let (c, m) = injections[i];
        assert(injections@[i as int] == (c, m));
        assert(p(i as int) == fires_on_mouse_held((c, m), current));
        if m == current {
            if let EventCharacteristic::MouseDown(_) = c {
                r.push(i);
            }
        }
        i = i + 1;
    }
    r
}

/// The length of a frame, in nanoseconds, at `fps` frames per second
/// (rounded down).
pub fn frame_nanos(fps: u64) -> (r: u64)
    requires
        fps > 0,
    ensures
        r == 1_000_000_000u64 / fps,
{
    1_000_000_000u64 / fps
}

/// What the engine does at the end of a frame, in order: call an injected
/// function (by its index among the injections) for a held mouse button or
/// for a held key, or call an update function (by its index among them).
#[derive(PartialEq, Eq, Structural, Debug, Clone, Copy)]
pub enum FrameAction {
    HeldMouse(usize),
    HeldKey(usize),
    Update(usize),
}

/// Calling the injections at these indices for a held mouse button, in order.
pub open spec fn fire_mouse(indices: Seq<usize>) -> Seq<FrameAction> {
    indices.map_values(|i: usize| FrameAction::HeldMouse(i))
}

/// Calling the injections at these indices for held keys, in order.
pub open spec fn fire_keys(indices: Seq<usize>) -> Seq<FrameAction> {
    indices.map_values(|i: usize| FrameAction::HeldKey(i))
}

/// Calling each of `n` update functions once, in order.
pub open spec fn run_updates(n: nat) -> Seq<FrameAction> {
    Seq::new(n, |j: int| FrameAction::Update(j as usize))
}

/// The end of a frame: the injections fired by a held mouse button (once the
/// repeat delay has passed), then those fired by the held keys (each key in
/// turn), then every update function once, in order.
pub fn frame_actions(
    injections: &Vec<Injection>,
    held: &Vec<u32>,
    repeat_due: bool,
    current: EventModifiers,
    updates: usize,
) -> (r: Vec<FrameAction>)
    ensures
        r@ == fire_mouse(if repeat_due {
            indices_where(injections@.len(), |i: int| fires_on_mouse_held(injections@[i], current))
        } else {
            Seq::<usize>::empty()
        }) + fire_keys(held_key_order(injections@, held@, current)) + run_updates(updates as nat),
{
    let mouse = mouse_held_targets(injections, repeat_due, current);
    let keys = held_key_targets(injections, held, current);
    let ghost first = fire_mouse(mouse@) + fire_keys(keys@);
    let mut r: Vec<FrameAction> = Vec::new();
    let mut i: usize = 0;
    while i < mouse.len()
        invariant
            0 <= i <= mouse@.len(),
            r@ == fire_mouse(mouse@.take(i as int)),
        decreases mouse@.len() - i,
    {
        r.push(FrameAction::HeldMouse(mouse[i]));
        assert(fire_mouse(mouse@.take(i + 1)) =~= fire_mouse(mouse@.take(i as int)).push(FrameAction::HeldMouse(mouse@[i as int])));
        i = i + 1;
    }
    assert(mouse@.take(mouse@.len() as int) =~= mouse@);
    let mut k: usize = 0;
    while k < keys.len()
        invariant
            0 <= k <= keys@.len(),
            r@ == fire_mouse(mouse@) + fire_keys(keys@.take(k as int)),
        decreases keys@.len() - k,
    {
        r.push(FrameAction::HeldKey(keys[k]));
        assert(fire_keys(keys@.take(k + 1)) =~= fire_keys(keys@.take(k as int)).push(FrameAction::HeldKey(keys@[k as int])));
        assert(r@ =~= fire_mouse(mouse@) + fire_keys(keys@.take(k + 1)));
        k = k + 1;
    }
    assert(keys@.take(keys@.len() as int) =~= keys@);
    let mut j: usize = 0;
    while j < updates
        invariant
            0 <= j <= updates,
            r@ == first + run_updates(j as nat),
        decreases updates - j,
    {
        r.push(FrameAction::Update(j));
        assert(run_updates((j + 1) as nat) =~= run_updates(j as nat).push(FrameAction::Update(j)));
        assert(r@ =~= first + run_updates((j + 1) as nat));
        j = j + 1;
    }
    r
}

/// The held keys after `key` goes down: added at the end unless already held.
pub open spec fn pressed_keys(held: Seq<u32>, key: u32) -> Seq<u32> {
    if held.contains(key) { held } else { held.push(key) }
}

/// The held keys after `key` comes up: every other key, in order.
pub open spec fn released_keys(held: Seq<u32>, key: u32) -> Seq<u32>
    decreases held.len(),
{
    if held.len() == 0 {
        seq![]
    } else if held.last() == key {
        released_keys(held.drop_last(), key)
    } else {
        released_keys(held.drop_last(), key).push(held.last())
    }
}

#[verifier::spinoff_prover]
proof fn lemma_released_keys(held: Seq<u32>, key: u32)
    ensures
        forall|x: u32| released_keys(held, key).contains(x) ==> held.contains(x) && x != key,
        held.no_duplicates() ==> released_keys(held, key).no_duplicates(),
    decreases held.len(),
{
    if held.len() > 0 {
        let d = held.drop_last();
        lemma_released_keys(d, key);
        assert forall|x: u32| d.contains(x) implies held.contains(x) by {
            let i = choose|i: int| 0 <= i < d.len() && d[i] == x;
            assert(held[i] == x);
        }
        if held.no_duplicates() {
            assert(d.no_duplicates()) by {
                assert forall|a: int, b: int| 0 <= a < d.len() && 0 <= b < d.len() && a != b implies d[a] != d[b] by {
                    assert(held[a] == d[a] && held[b] == d[b]);
                }
            }
            assert(!d.contains(held.last())) by {
                if d.contains(held.last()) {
                    let i = choose|i: int| 0 <= i < d.len() && d[i] == held.last();
                    assert(held[i] == held[held.len() - 1]);
                }
            }
        }
        if held.last() != key {
            let r0 = released_keys(d, key);
            assert forall|x: u32| r0.push(held.last()).contains(x) implies held.contains(x) && x != key by {
                if x != held.last() {
                    let q = r0.push(held.last());
                    let i = choose|i: int| 0 <= i < q.len() && q[i] == x;
                    assert(q[r0.len() as int] == held.last());
                    assert(i < r0.len());
                    assert(r0[i] == x);
                    assert(r0.contains(x));
                    assert(d.contains(x));
                    assert(held.contains(x));
                } else {
                    assert(held[held.len() - 1] == x);
                    assert(held.contains(x));
                }
            }
            if held.no_duplicates() {
                assert(!r0.contains(held.last()));
                assert(r0.push(held.last()).no_duplicates()) by {
                    let q = r0.push(held.last());
                    assert forall|a: int, b: int| 0 <= a < q.len() && 0 <= b < q.len() && a != b implies q[a] != q[b] by {
                        if a < r0.len() && b < r0.len() {
                            assert(q[a] == r0[a] && q[b] == r0[b]);
                        } else if a < r0.len() {
                            assert(q[a] == r0[a]);
                        } else if b < r0.len() {
                            assert(q[b] == r0[b]);
                        }
                    }
                }
            }
        }
    }
}

/// The input state the engine keeps between events: the keys held down, in
/// the order they went down, and whether a tracked mouse button is held.
pub struct InputState {
    held: Vec<u32>,
    mouse_down: bool,
}

impl View for InputState {
    type V = (Seq<u32>, bool);

    closed spec fn view(&self) -> (Seq<u32>, bool) {
        (self.held@, self.mouse_down)
    }
}

impl InputState {
    /// No key and no mouse button held.
    pub fn new() -> (r: Self)
        ensures
            r@ == (Seq::<u32>::empty(), false),
    {
        let r = InputState { held: Vec::new(), mouse_down: false };
        assert(r@.0 =~= Seq::<u32>::empty());
        r
    }

    /// The keys held down, in the order they went down.
    pub fn held_keys(&self) -> (r: &Vec<u32>)
        ensures
            r@ == self@.0,
    {
        &self.held
    }

    /// Whether a tracked mouse button is held.
    pub fn is_mouse_down(&self) -> (r: bool)
        ensures
            r == self@.1,
    {
        self.mouse_down
    }

    /// Records a key going down or coming up (a key without a code changes
    /// nothing). No key is ever held twice.
    pub fn record_key(&mut self, key: Option<u32>, pressed: bool)
        ensures
            final(self)@.1 == old(self)@.1,
            final(self)@.0 == match key {
                Some(k) => if pressed { pressed_keys(old(self)@.0, k) } else { released_keys(old(self)@.0, k) },
                None => old(self)@.0,
            },
            old(self)@.0.no_duplicates() ==> final(self)@.0.no_duplicates(),
    {
        match key {
            Some(k) => {
                if pressed {
                    let n = self.held.len();
                    let mut i: usize = 0;
                    while i < n
                        invariant
                            n == self.held@.len(),
                            self.held@ == old(self)@.0,
                            self.mouse_down == old(self)@.1,
                            key == Some(k),
                            pressed,
                            0 <= i <= n,
                            forall|j: int| 0 <= j < i ==> self.held@[j] != k,
                        decreases n - i,
                    {
                        if self.held[i] == k {
                            assert(self.held@.contains(k)) by { assert(self.held@[i as int] == k); }
                            return;
                        }
                        i = i + 1;
                    }
                    self.held.push(k);
                    proof {
                        let h = old(self)@.0;
                        if h.no_duplicates() {
                            assert forall|a: int, b: int| 0 <= a < h.len() + 1 && 0 <= b < h.len() + 1 && a != b
                                implies self.held@[a] != self.held@[b] by {
                                if a < h.len() && b < h.len() {
                                    assert(self.held@[a] == h[a] && self.held@[b] == h[b]);
                                }
                            }
                        }
                    }
                } else {
                    let ghost h = self.held@;
                    let mut kept: Vec<u32> = Vec::new();
                    let n = self.held.len();
                    let mut i: usize = 0;
                    while i < n
                        invariant
                            n == self.held@.len(),
                            self.held@ == h,
                            0 <= i <= n,
                            kept@ == released_keys(h.take(i as int), k),
                        decreases n - i,
                    {
                        let x = self.held[i];
                        assert(h.take(i + 1).drop_last() =~= h.take(i as int));
                        assert(h.take(i + 1).last() == x);
                        if x != k {
                            kept.push(x);
                        }
                        i = i + 1;
                    }
                    assert(h.take(n as int) =~= h);
                    proof { lemma_released_keys(h, k); }
                    self.held = kept;
                }
            },
            None => {},
        }
    }

    /// Records whether the tracked mouse button is held, when an event says so.
    pub fn record_mouse(&mut self, held: Option<bool>)
        ensures
            final(self)@ == (old(self)@.0, match held { Some(b) => b, None => old(self)@.1 }),
    {
        if let Some(b) = held {
            self.mouse_down = b;
        }
    }
}

} // verus!
