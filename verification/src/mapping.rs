//! The desktop input compatibility mapper: gamepad controls become keyboard
//! keys and mouse buttons while a desktop app has focus.
//!
//! Several controls may share one output (the D-pad and the left stick both
//! press the arrow keys). An output is pressed when its first source goes
//! down and released when its last source lets go, so two sources never
//! produce a stray release or a doubled press.
use vstd::prelude::*;

verus! {

#[derive(Clone, Copy, Debug, PartialEq, Eq, Hash, Structural)]
pub enum Control {
    South,
    East,
    West,
    North,
    LeftBumper,
    RightBumper,
    Start,
    Select,
    DpadLeft,
    DpadRight,
    DpadUp,
    DpadDown,
    StickLeft,
    StickRight,
    StickUp,
    StickDown,
    LeftTrigger,
    RightTrigger,
}

#[derive(Clone, Copy, Debug, PartialEq, Eq, Hash, Structural)]
pub enum OutputKey {
    Enter,
    Escape,
    Space,
    Tab,
    PageUp,
    PageDown,
    Left,
    Right,
    Up,
    Down,
    MouseLeft,
    MouseRight,
}

#[derive(Clone, Copy, Debug, PartialEq, Eq, Structural)]
pub enum OutputEvent {
    Key { key: OutputKey, pressed: bool },
    MouseMove { x: i32, y: i32 },
}

/// Stick deflection, on the `-1000..=1000` scale, below which a direction is
/// not pressed and the right stick does not move the pointer.
pub const DEADZONE: i32 = 350;

/// The key or mouse button a control stands for.
pub open spec fn output_of(control: Control) -> OutputKey {
    match control {
        Control::South | Control::Start => OutputKey::Enter,
        Control::East => OutputKey::Escape,
        Control::West => OutputKey::Space,
        Control::North | Control::Select => OutputKey::Tab,
        Control::LeftBumper => OutputKey::PageUp,
        Control::RightBumper => OutputKey::PageDown,
        Control::DpadLeft | Control::StickLeft => OutputKey::Left,
        Control::DpadRight | Control::StickRight => OutputKey::Right,
        Control::DpadUp | Control::StickUp => OutputKey::Up,
        Control::DpadDown | Control::StickDown => OutputKey::Down,
        Control::LeftTrigger => OutputKey::MouseRight,
        Control::RightTrigger => OutputKey::MouseLeft,
    }
}

/// Which source (device and control) holds which output.
pub type SourceMap = Map<(u64, Control), OutputKey>;

/// Some source holds `key`.
pub open spec fn held_in(m: SourceMap, key: OutputKey) -> bool {
    exists|s: (u64, Control)| #[trigger] m.contains_key(s) && m[s] == key
}

/// Pressing `source`, bound to `key`: nothing happens if it is already down;
/// otherwise it now holds `key`, and `key` is pressed if nothing held it.
pub open spec fn press_effect(m: SourceMap, source: (u64, Control), key: OutputKey) -> (
    SourceMap,
    Seq<OutputEvent>,
) {
    if m.contains_key(source) {
        (m, seq![])
    } else {
        (
            m.insert(source, key),
            if held_in(m, key) {
                seq![]
            } else {
                seq![OutputEvent::Key { key, pressed: true }]
            },
        )
    }
}

/// Releasing `source`: nothing happens if it is up; otherwise it lets go,
/// and its output is released if no other source still holds it.
pub open spec fn release_effect(m: SourceMap, source: (u64, Control)) -> (
    SourceMap,
    Seq<OutputEvent>,
) {
    if !m.contains_key(source) {
        (m, seq![])
    } else {
        let rest = m.remove(source);
        (
            rest,
            if held_in(rest, m[source]) {
                seq![]
            } else {
                seq![OutputEvent::Key { key: m[source], pressed: false }]
            },
        )
    }
}

/// A control of `device` going down or up.
pub open spec fn button_effect(m: SourceMap, device: u64, control: Control, pressed: bool) -> (
    SourceMap,
    Seq<OutputEvent>,
) {
    if pressed {
        press_effect(m, (device, control), output_of(control))
    } else {
        release_effect(m, (device, control))
    }
}

/// The key a control is documented to send in desktop apps: South and
/// Start send Enter, East Escape, West Space, North and Select Tab, the left
/// shoulder PageUp and the right one PageDown, the D-pad and the left stick
/// the arrow keys, the left trigger the right mouse button and the right
/// trigger the left one.
pub open spec fn documented_binding(control: Control, key: OutputKey) -> bool {
    (control == Control::South && key == OutputKey::Enter) ||
        (control == Control::Start && key == OutputKey::Enter) ||
        (control == Control::East && key == OutputKey::Escape) ||
        (control == Control::West && key == OutputKey::Space) ||
        (control == Control::North && key == OutputKey::Tab) ||
        (control == Control::Select && key == OutputKey::Tab) ||
        (control == Control::LeftBumper && key == OutputKey::PageUp) ||
        (control == Control::RightBumper && key == OutputKey::PageDown) ||
        (control == Control::DpadLeft && key == OutputKey::Left) ||
        (control == Control::StickLeft && key == OutputKey::Left) ||
        (control == Control::DpadRight && key == OutputKey::Right) ||
        (control == Control::StickRight && key == OutputKey::Right) ||
        (control == Control::DpadUp && key == OutputKey::Up) ||
        (control == Control::StickUp && key == OutputKey::Up) ||
        (control == Control::DpadDown && key == OutputKey::Down) ||
        (control == Control::StickDown && key == OutputKey::Down) ||
        (control == Control::LeftTrigger && key == OutputKey::MouseRight) ||
        (control == Control::RightTrigger && key == OutputKey::MouseLeft)
}

/// A directional axis inside 350 either side of centre presses nothing; a
/// tilt past it holds the control of the side it leans to, and only that
/// one.
pub proof fn a_tilt_past_the_deadzone_presses_its_side(
    m: SourceMap,
    device: u64,
    negative: Control,
    positive: Control,
    value: i32,
)
    requires
        negative != positive,
        !m.contains_key((device, negative)),
        !m.contains_key((device, positive)),
    ensures
        -350 <= value <= 350 ==> axis_effect(m, device, negative, positive, value) == (m, Seq::<OutputEvent>::empty()),
        value > 350 ==> axis_effect(m, device, negative, positive, value).0 == m.insert(
            (device, positive),
            output_of(positive),
        ),
        value < -350 ==> axis_effect(m, device, negative, positive, value).0 == m.insert(
            (device, negative),
            output_of(negative),
        ),
{
    if value < -350 {
        let m1 = m.insert((device, negative), output_of(negative));
        assert(!m1.contains_key((device, positive)));
    }
    assert(Seq::<OutputEvent>::empty() + Seq::<OutputEvent>::empty() =~= Seq::<OutputEvent>::empty());
}

/// The right stick moves the pointer nothing inside 350 of centre, and past
/// it 14 pixels a tick at full deflection, in proportion and rounded toward
/// zero in between.
pub proof fn the_pointer_moves_in_proportion_to_the_tilt(value: int)
    requires
        -1000 <= value <= 1000,
    ensures
        -350 <= value <= 350 ==> mouse_delta(value) == 0,
        value > 350 ==> 0 <= mouse_delta(value) <= 14 && mouse_delta(value) * 1000 <= value * 14 && value * 14
            < (mouse_delta(value) + 1) * 1000,
        value < -350 ==> -14 <= mouse_delta(value) <= 0 && (0 - mouse_delta(value)) * 1000 <= (0 - value) * 14
            && (0 - value) * 14 < (1 - mouse_delta(value)) * 1000,
        mouse_delta(1000) == 14,
        mouse_delta(-1000) == -14,
{
    if value > 350 {
        let a = value * 14;
        assert(a / 1000 <= 14 && (a / 1000) * 1000 <= a && a < (a / 1000 + 1) * 1000 && a / 1000 >= 0) by (nonlinear_arith)
            requires
                0 <= a <= 14000,
        ;
    }
    if value < -350 {
        let a = (0 - value) * 14;
        assert(a / 1000 <= 14 && (a / 1000) * 1000 <= a && a < (a / 1000 + 1) * 1000 && a / 1000 >= 0) by (nonlinear_arith)
            requires
                0 <= a <= 14000,
        ;
    }
}

/// Pressing a control that is up, on an active mapper where nothing holds
/// its documented key, holds that key from this control and sends exactly
/// that key's press; letting go again sends exactly its release.
pub proof fn each_control_sends_its_documented_key(
    m: SourceMap,
    device: u64,
    control: Control,
    key: OutputKey,
)
    requires
        documented_binding(control, key),
        !m.contains_key((device, control)),
        !held_in(m, key),
    ensures
        ({
            let (after, events) = button_effect(m, device, control, true);
            &&& events == seq![OutputEvent::Key { key, pressed: true }]
            &&& after == m.insert((device, control), key)
            &&& button_effect(after, device, control, false) == (
                m,
                seq![OutputEvent::Key { key, pressed: false }],
            )
        }),
{
    let after = m.insert((device, control), key);
    assert(after.remove((device, control)) =~= m);
}

/// A directional axis: the negative control is down below `-DEADZONE`, the
/// positive one above `DEADZONE`, negative side first.
pub open spec fn axis_effect(
    m: SourceMap,
    device: u64,
    negative: Control,
    positive: Control,
    value: i32,
) -> (SourceMap, Seq<OutputEvent>) {
    let (m1, e1) = button_effect(m, device, negative, value < -DEADZONE);
    let (m2, e2) = button_effect(m1, device, positive, value > DEADZONE);
    (m2, e1 + e2)
}

/// Pointer movement for one stick axis: nothing inside the deadzone, else
/// 14 pixels per tick at full deflection, truncated toward zero.
pub open spec fn mouse_delta(value: int) -> int {
    if -350 <= value <= 350 {
        0
    } else if value >= 0 {
        (value * 14) / 1000
    } else {
        0 - ((0 - value) * 14) / 1000
    }
}

/// A stick value whose pointer step cannot overflow.
pub open spec fn stick_value_in_range(value: i32) -> bool {
    -153391689 <= value <= 153391689
}

/// A device's right stick after one of its axes reports `value`; a device
/// not seen before starts centred.
pub open spec fn stick_after(
    sticks: Map<u64, (i32, i32)>,
    device: u64,
    horizontal: bool,
    value: i32,
) -> (i32, i32) {
    let prev = if sticks.contains_key(device) {
        sticks[device]
    } else {
        (0i32, 0i32)
    };
    if horizontal {
        (value, prev.1)
    } else {
        (prev.0, value)
    }
}

struct Source {
    device: u64,
    control: Control,
    key: OutputKey,
}

struct KeyCount {
    key: OutputKey,
    count: usize,
}

struct Stick {
    device: u64,
    x: i32,
    y: i32,
}

spec fn source_id(s: Source) -> (u64, Control) {
    (s.device, s.control)
}

spec fn has_source(s: Seq<Source>, id: (u64, Control)) -> bool {
    exists|i: int| 0 <= i < s.len() && #[trigger] source_id(s[i]) == id
}

spec fn sources_map(s: Seq<Source>) -> SourceMap {
    Map::new(
        |id: (u64, Control)| has_source(s, id),
        |id: (u64, Control)|
            s[choose|i: int| 0 <= i < s.len() && #[trigger] source_id(s[i]) == id].key,
    )
}

spec fn unique_sources(s: Seq<Source>) -> bool {
    forall|i: int, j: int|
        0 <= i < s.len() && 0 <= j < s.len() && i != j ==> #[trigger] source_id(s[i])
            != #[trigger] source_id(s[j])
}

/// The number of sources bound to `key`.
spec fn count_key(s: Seq<Source>, key: OutputKey) -> nat
    decreases s.len(),
{
    if s.len() == 0 {
        0
    } else {
        count_key(s.drop_last(), key) + if s.last().key == key {
            1nat
        } else {
            0nat
        }
    }
}

spec fn sticks_map(s: Seq<Stick>) -> Map<u64, (i32, i32)> {
    Map::new(
        |d: u64| exists|i: int| 0 <= i < s.len() && #[trigger] s[i].device == d,
        |d: u64|
            {
                let i = choose|i: int| 0 <= i < s.len() && #[trigger] s[i].device == d;
                (s[i].x, s[i].y)
            },
    )
}

spec fn sum_x(s: Seq<Stick>) -> int
    decreases s.len(),
{
    if s.len() == 0 {
        0
    } else {
        sum_x(s.drop_last()) + mouse_delta(s.last().x as int)
    }
}

spec fn sum_y(s: Seq<Stick>) -> int
    decreases s.len(),
{
    if s.len() == 0 {
        0
    } else {
        sum_y(s.drop_last()) + mouse_delta(s.last().y as int)
    }
}

pub struct Mapper {
    active: bool,
    sources: Vec<Source>,
    output_counts: Vec<KeyCount>,
    right_sticks: Vec<Stick>,
}

impl Mapper {
    /// Whether controls are being translated.
    pub closed spec fn is_active(self) -> bool {
        self.active
    }

    /// Which source holds which output.
    pub closed spec fn sources(self) -> SourceMap {
        sources_map(self.sources@)
    }

    /// The outputs currently held, each once, in the order they would be
    /// released.
    pub closed spec fn held_order(self) -> Seq<OutputKey> {
        self.output_counts@.map_values(|c: KeyCount| c.key)
    }

    /// Last reported right-stick position of each device.
    pub closed spec fn sticks(self) -> Map<u64, (i32, i32)> {
        sticks_map(self.right_sticks@)
    }

    /// Pointer movement per tick, summed over the devices' right sticks.
    pub closed spec fn mouse_x(self) -> int {
        sum_x(self.right_sticks@)
    }

    pub closed spec fn mouse_y(self) -> int {
        sum_y(self.right_sticks@)
    }

    /// Every stick value is small enough for its pointer step to be computed.
    pub closed spec fn sticks_in_range(self) -> bool {
        forall|i: int|
            0 <= i < self.right_sticks@.len() ==> stick_value_in_range(
                #[trigger] self.right_sticks@[i].x,
            ) && stick_value_in_range(self.right_sticks@[i].y)
    }

    /// The mapper's internal bookkeeping agrees with its sources.
    pub closed spec fn wf(self) -> bool {
        let s = self.sources@;
        let c = self.output_counts@;
        &&& unique_sources(s)
        &&& forall|i: int| 0 <= i < s.len() ==> #[trigger] s[i].key == output_of(s[i].control)
        &&& forall|i: int, j: int|
            0 <= i < c.len() && 0 <= j < c.len() && i != j ==> #[trigger] c[i].key
                != #[trigger] c[j].key
        &&& forall|i: int|
            0 <= i < c.len() ==> #[trigger] c[i].count == count_key(s, c[i].key) && c[i].count > 0
        &&& forall|k: OutputKey|
            #![trigger count_key(s, k)]
            count_key(s, k) > 0 ==> exists|i: int| 0 <= i < c.len() && #[trigger] c[i].key == k
        &&& forall|i: int, j: int|
            0 <= i < self.right_sticks@.len() && 0 <= j < self.right_sticks@.len() && i != j
                ==> #[trigger] self.right_sticks@[i].device != #[trigger] self.right_sticks@[j].device
        &&& !self.active ==> s.len() == 0 && c.len() == 0 && self.right_sticks@.len() == 0
    }
}

proof fn lemma_count_push(s: Seq<Source>, x: Source, k: OutputKey)
    ensures
        count_key(s.push(x), k) == count_key(s, k) + if x.key == k {
            1nat
        } else {
            0nat
        },
{
    assert(s.push(x).drop_last() =~= s);
}

proof fn lemma_count_remove(s: Seq<Source>, i: int, k: OutputKey)
    requires
        0 <= i < s.len(),
    ensures
        count_key(s.remove(i), k) + (if s[i].key == k {
            1nat
        } else {
            0nat
        }) == count_key(s, k),
    decreases s.len(),
{
    if i == s.len() - 1 {
        assert(s.remove(i) =~= s.drop_last());
    } else {
        lemma_count_remove(s.drop_last(), i, k);
        assert(s.remove(i).drop_last() =~= s.drop_last().remove(i));
        assert(s.remove(i).last() == s.last());
    }
}

proof fn lemma_count_positive(s: Seq<Source>, k: OutputKey)
    ensures
        count_key(s, k) > 0 <==> exists|i: int| 0 <= i < s.len() && #[trigger] s[i].key == k,
        count_key(s, k) <= s.len(),
    decreases s.len(),
{
    if s.len() > 0 {
        lemma_count_positive(s.drop_last(), k);
        if count_key(s.drop_last(), k) > 0 {
            let j = choose|j: int| 0 <= j < s.drop_last().len() && #[trigger] s.drop_last()[j].key == k;
            assert(s[j].key == k);
        }
        if exists|i: int| 0 <= i < s.len() && #[trigger] s[i].key == k {
            let i = choose|i: int| 0 <= i < s.len() && #[trigger] s[i].key == k;
            if i < s.len() - 1 {
                assert(s.drop_last()[i].key == k);
            }
        }
    }
}

proof fn lemma_map_lookup(s: Seq<Source>, i: int)
    requires
        unique_sources(s),
        0 <= i < s.len(),
    ensures
        sources_map(s).contains_key(source_id(s[i])),
        sources_map(s)[source_id(s[i])] == s[i].key,
{
    let id = source_id(s[i]);
    assert(has_source(s, id));
    let j = choose|j: int| 0 <= j < s.len() && #[trigger] source_id(s[j]) == id;
    assert(j == i);
}

proof fn lemma_map_has(s: Seq<Source>, id: (u64, Control))
    requires
        unique_sources(s),
    ensures
        sources_map(s).contains_key(id) <==> has_source(s, id),
{
}

proof fn lemma_map_push(s: Seq<Source>, x: Source)
    requires
        unique_sources(s),
        !has_source(s, source_id(x)),
    ensures
        unique_sources(s.push(x)),
        sources_map(s.push(x)) =~= sources_map(s).insert(source_id(x), x.key),
{
    let t = s.push(x);
    assert forall|i: int, j: int|
        0 <= i < t.len() && 0 <= j < t.len() && i != j implies #[trigger] source_id(t[i])
        != #[trigger] source_id(t[j]) by {
        if i == s.len() {
            assert(source_id(t[j]) == source_id(s[j]));
        } else if j == s.len() {
            assert(source_id(t[i]) == source_id(s[i]));
        } else {
            assert(t[i] == s[i] && t[j] == s[j]);
        }
    }
    assert forall|id: (u64, Control)| #[trigger]
        sources_map(t).contains_key(id) == sources_map(s).insert(
            source_id(x),
            x.key,
        ).contains_key(id) by {
        if has_source(t, id) && id != source_id(x) {
            let i = choose|i: int| 0 <= i < t.len() && #[trigger] source_id(t[i]) == id;
            assert(source_id(s[i]) == id);
        }
        if has_source(s, id) {
            let i = choose|i: int| 0 <= i < s.len() && #[trigger] source_id(s[i]) == id;
            assert(source_id(t[i]) == id);
        }
        assert(source_id(t[s.len() as int]) == source_id(x));
    }
    assert forall|id: (u64, Control)| #[trigger] sources_map(t).contains_key(id) implies sources_map(
        t,
    )[id] == sources_map(s).insert(source_id(x), x.key)[id] by {
        let i = choose|i: int| 0 <= i < t.len() && #[trigger] source_id(t[i]) == id;
        lemma_map_lookup(t, i);
        if i < s.len() {
            lemma_map_lookup(s, i);
            assert(t[i] == s[i]);
        }
    }
}

proof fn lemma_map_remove(s: Seq<Source>, i: int)
    requires
        unique_sources(s),
        0 <= i < s.len(),
    ensures
        unique_sources(s.remove(i)),
        sources_map(s.remove(i)) =~= sources_map(s).remove(source_id(s[i])),
{
    let t = s.remove(i);
    assert forall|a: int, b: int|
        0 <= a < t.len() && 0 <= b < t.len() && a != b implies #[trigger] source_id(t[a])
        != #[trigger] source_id(t[b]) by {
        let a2 = if a < i { a } else { a + 1 };
        let b2 = if b < i { b } else { b + 1 };
        assert(t[a] == s[a2] && t[b] == s[b2]);
    }
    lemma_map_lookup(s, i);
    assert forall|id: (u64, Control)| #[trigger]
        sources_map(t).contains_key(id) == sources_map(s).remove(source_id(s[i])).contains_key(
            id,
        ) by {
        if has_source(t, id) {
            let a = choose|a: int| 0 <= a < t.len() && #[trigger] source_id(t[a]) == id;
            let a2 = if a < i { a } else { a + 1 };
            assert(t[a] == s[a2]);
            assert(source_id(s[a2]) == id);
            assert(a2 != i);
        }
        if has_source(s, id) && id != source_id(s[i]) {
            let a = choose|a: int| 0 <= a < s.len() && #[trigger] source_id(s[a]) == id;
            assert(a != i);
            let a2 = if a < i { a } else { a - 1 };
            assert(t[a2] == s[a]);
            assert(source_id(t[a2]) == id);
        }
    }
    assert forall|id: (u64, Control)| #[trigger] sources_map(t).contains_key(id) implies sources_map(
        t,
    )[id] == sources_map(s).remove(source_id(s[i]))[id] by {
        let a = choose|a: int| 0 <= a < t.len() && #[trigger] source_id(t[a]) == id;
        lemma_map_lookup(t, a);
        let a2 = if a < i { a } else { a + 1 };
        assert(t[a] == s[a2]);
        lemma_map_lookup(s, a2);
    }
}

proof fn lemma_held(s: Seq<Source>, k: OutputKey)
    requires
        unique_sources(s),
    ensures
        held_in(sources_map(s), k) <==> count_key(s, k) > 0,
{
    lemma_count_positive(s, k);
    if count_key(s, k) > 0 {
        let i = choose|i: int| 0 <= i < s.len() && #[trigger] s[i].key == k;
        lemma_map_lookup(s, i);
        assert(sources_map(s).contains_key(source_id(s[i])));
    }
    if held_in(sources_map(s), k) {
        let id = choose|id: (u64, Control)| #[trigger]
            sources_map(s).contains_key(id) && sources_map(s)[id] == k;
        let i = choose|i: int| 0 <= i < s.len() && #[trigger] source_id(s[i]) == id;
        lemma_map_lookup(s, i);
        assert(s[i].key == k);
    }
}

proof fn lemma_held_remove(m: SourceMap, id: (u64, Control), k: OutputKey)
    requires
        m.contains_key(id),
    ensures
        held_in(m.remove(id), k) ==> held_in(m, k),
        m[id] != k ==> (held_in(m.remove(id), k) == held_in(m, k)),
{
    if held_in(m.remove(id), k) {
        let s = choose|s: (u64, Control)| #[trigger] m.remove(id).contains_key(s) && m.remove(id)[s] == k;
        assert(m.contains_key(s));
    }
    if m[id] != k && held_in(m, k) {
        let s = choose|s: (u64, Control)| #[trigger] m.contains_key(s) && m[s] == k;
        assert(s != id);
        assert(m.remove(id).contains_key(s));
    }
}

proof fn lemma_sticks_lookup(s: Seq<Stick>, i: int)
    requires
        0 <= i < s.len(),
        forall|a: int, b: int|
            0 <= a < s.len() && 0 <= b < s.len() && a != b ==> #[trigger] s[a].device
                != #[trigger] s[b].device,
    ensures
        sticks_map(s).contains_key(s[i].device),
        sticks_map(s)[s[i].device] == (s[i].x, s[i].y),
{
    let d = s[i].device;
    assert(exists|j: int| 0 <= j < s.len() && #[trigger] s[j].device == d);
    let j = choose|j: int| 0 <= j < s.len() && #[trigger] s[j].device == d;
    assert(j == i);
}

proof fn lemma_sticks_update(s: Seq<Stick>, i: int, st: Stick)
    requires
        0 <= i < s.len(),
        st.device == s[i].device,
        forall|a: int, b: int|
            0 <= a < s.len() && 0 <= b < s.len() && a != b ==> #[trigger] s[a].device
                != #[trigger] s[b].device,
    ensures
        sticks_map(s.update(i, st)) =~= sticks_map(s).insert(st.device, (st.x, st.y)),
{
    let t = s.update(i, st);
    assert forall|d: u64| #[trigger] sticks_map(t).contains_key(d) == sticks_map(s).insert(
        st.device,
        (st.x, st.y),
    ).contains_key(d) by {
        if exists|j: int| 0 <= j < t.len() && #[trigger] t[j].device == d {
            let j = choose|j: int| 0 <= j < t.len() && #[trigger] t[j].device == d;
            if j != i {
                assert(s[j].device == d);
            }
        }
        if exists|j: int| 0 <= j < s.len() && #[trigger] s[j].device == d {
            let j = choose|j: int| 0 <= j < s.len() && #[trigger] s[j].device == d;
            assert(t[j].device == d);
        }
        assert(t[i].device == st.device);
    }
    assert forall|d: u64| #[trigger] sticks_map(t).contains_key(d) implies sticks_map(t)[d]
        == sticks_map(s).insert(st.device, (st.x, st.y))[d] by {
        let j = choose|j: int| 0 <= j < t.len() && #[trigger] t[j].device == d;
        lemma_sticks_lookup(t, j);
        if j != i {
            lemma_sticks_lookup(s, j);
        }
    }
}

proof fn lemma_sticks_push(s: Seq<Stick>, st: Stick)
    requires
        !sticks_map(s).contains_key(st.device),
        forall|a: int, b: int|
            0 <= a < s.len() && 0 <= b < s.len() && a != b ==> #[trigger] s[a].device
                != #[trigger] s[b].device,
    ensures
        sticks_map(s.push(st)) =~= sticks_map(s).insert(st.device, (st.x, st.y)),
        forall|a: int, b: int|
            0 <= a < s.len() + 1 && 0 <= b < s.len() + 1 && a != b ==> #[trigger] s.push(
                st,
            )[a].device != #[trigger] s.push(st)[b].device,
{
    let t = s.push(st);
    assert forall|a: int, b: int|
        0 <= a < t.len() && 0 <= b < t.len() && a != b implies #[trigger] t[a].device
        != #[trigger] t[b].device by {
        if a == s.len() {
            assert(t[b] == s[b]);
        } else if b == s.len() {
            assert(t[a] == s[a]);
        } else {
            assert(t[a] == s[a] && t[b] == s[b]);
        }
    }
    assert forall|d: u64| #[trigger] sticks_map(t).contains_key(d) == sticks_map(s).insert(
        st.device,
        (st.x, st.y),
    ).contains_key(d) by {
        if exists|j: int| 0 <= j < t.len() && #[trigger] t[j].device == d {
            let j = choose|j: int| 0 <= j < t.len() && #[trigger] t[j].device == d;
            if j < s.len() {
                assert(s[j].device == d);
            }
        }
        if exists|j: int| 0 <= j < s.len() && #[trigger] s[j].device == d {
            let j = choose|j: int| 0 <= j < s.len() && #[trigger] s[j].device == d;
            assert(t[j].device == d);
        }
        assert(t[s.len() as int].device == st.device);
    }
    assert forall|d: u64| #[trigger] sticks_map(t).contains_key(d) implies sticks_map(t)[d]
        == sticks_map(s).insert(st.device, (st.x, st.y))[d] by {
        let j = choose|j: int| 0 <= j < t.len() && #[trigger] t[j].device == d;
        lemma_sticks_lookup(t, j);
        if j < s.len() {
            assert(t[j] == s[j]);
            lemma_sticks_lookup(s, j);
        }
    }
}

proof fn lemma_sticks_remove(s: Seq<Stick>, i: int)
    requires
        0 <= i < s.len(),
        forall|a: int, b: int|
            0 <= a < s.len() && 0 <= b < s.len() && a != b ==> #[trigger] s[a].device
                != #[trigger] s[b].device,
    ensures
        sticks_map(s.remove(i)) =~= sticks_map(s).remove(s[i].device),
        forall|a: int, b: int|
            0 <= a < s.len() - 1 && 0 <= b < s.len() - 1 && a != b ==> #[trigger] s.remove(
                i,
            )[a].device != #[trigger] s.remove(i)[b].device,
{
    let t = s.remove(i);
    assert forall|a: int, b: int|
        0 <= a < t.len() && 0 <= b < t.len() && a != b implies #[trigger] t[a].device
        != #[trigger] t[b].device by {
        let a2 = if a < i { a } else { a + 1 };
        let b2 = if b < i { b } else { b + 1 };
        assert(t[a] == s[a2] && t[b] == s[b2]);
    }
    assert forall|d: u64| #[trigger] sticks_map(t).contains_key(d) == sticks_map(s).remove(
        s[i].device,
    ).contains_key(d) by {
        if exists|j: int| 0 <= j < t.len() && #[trigger] t[j].device == d {
            let j = choose|j: int| 0 <= j < t.len() && #[trigger] t[j].device == d;
            let j2 = if j < i { j } else { j + 1 };
            assert(t[j] == s[j2]);
        }
        if exists|j: int| 0 <= j < s.len() && #[trigger] s[j].device == d {
            let j = choose|j: int| 0 <= j < s.len() && #[trigger] s[j].device == d;
            if j != i {
                let j2 = if j < i { j } else { j - 1 };
                assert(t[j2] == s[j]);
            }
        }
    }
    assert forall|d: u64| #[trigger] sticks_map(t).contains_key(d) implies sticks_map(t)[d]
        == sticks_map(s).remove(s[i].device)[d] by {
        let j = choose|j: int| 0 <= j < t.len() && #[trigger] t[j].device == d;
        lemma_sticks_lookup(t, j);
        let j2 = if j < i { j } else { j + 1 };
        assert(t[j] == s[j2]);
        lemma_sticks_lookup(s, j2);
    }
}

proof fn lemma_sum_bounds(s: Seq<Stick>)
    requires
        forall|i: int|
            0 <= i < s.len() ==> stick_value_in_range(#[trigger] s[i].x) && stick_value_in_range(
                s[i].y,
            ),
    ensures
        -2147484 * s.len() <= sum_x(s) <= 2147484 * s.len(),
        -2147484 * s.len() <= sum_y(s) <= 2147484 * s.len(),
    decreases s.len(),
{
    if s.len() > 0 {
        let t = s.drop_last();
        assert forall|i: int| 0 <= i < t.len() implies stick_value_in_range(#[trigger] t[i].x)
            && stick_value_in_range(t[i].y) by {
            assert(t[i] == s[i]);
        }
        lemma_sum_bounds(t);
        let x = s.last().x as int;
        let y = s.last().y as int;
        assert(-2147484 <= mouse_delta(x) <= 2147484) by (nonlinear_arith)
            requires
                -153391689 <= x <= 153391689,
        {
            if x > 350 {
                assert((x * 14) / 1000 <= 2147484);
            } else if x < -350 {
                assert(((0 - x) * 14) / 1000 <= 2147484);
            }
        }
        assert(-2147484 <= mouse_delta(y) <= 2147484) by (nonlinear_arith)
            requires
                -153391689 <= y <= 153391689,
        {
            if y > 350 {
                assert((y * 14) / 1000 <= 2147484);
            } else if y < -350 {
                assert(((0 - y) * 14) / 1000 <= 2147484);
            }
        }
    }
}

fn output_for(control: Control) -> (key: OutputKey)
    ensures
        key == output_of(control),
{
    match control {
        Control::South | Control::Start => OutputKey::Enter,
        Control::East => OutputKey::Escape,
        Control::West => OutputKey::Space,
        Control::North | Control::Select => OutputKey::Tab,
        Control::LeftBumper => OutputKey::PageUp,
        Control::RightBumper => OutputKey::PageDown,
        Control::DpadLeft | Control::StickLeft => OutputKey::Left,
        Control::DpadRight | Control::StickRight => OutputKey::Right,
        Control::DpadUp | Control::StickUp => OutputKey::Up,
        Control::DpadDown | Control::StickDown => OutputKey::Down,
        Control::LeftTrigger => OutputKey::MouseRight,
        Control::RightTrigger => OutputKey::MouseLeft,
    }
}

fn stick_delta(value: i32) -> (d: i64)
    requires
        stick_value_in_range(value),
    ensures
        d == mouse_delta(value as int),
{
    let a: i64 = value as i64;
    if -350 <= a && a <= 350 {
        0
    } else if a >= 0 {
        ((a * 14) as u64 / 1000) as i64
    } else {
        0 - (((0 - a) * 14) as u64 / 1000) as i64
    }
}

impl Default for Mapper {
    fn default() -> (m: Self)
        ensures
            m.wf(),
            !m.is_active(),
            m.sources() == SourceMap::empty(),
            m.sticks() == Map::<u64, (i32, i32)>::empty(),
    {
        Mapper::new()
    }
}

impl Mapper {
    /// An inactive mapper holding nothing.
    pub fn new() -> (m: Self)
        ensures
            m.wf(),
            !m.is_active(),
            m.sources() == SourceMap::empty(),
            m.sticks() == Map::<u64, (i32, i32)>::empty(),
    {
        let m = Mapper {
            active: false,
            sources: Vec::new(),
            output_counts: Vec::new(),
            right_sticks: Vec::new(),
        };
        assert(m.sources() =~= SourceMap::empty());
        assert(m.sticks() =~= Map::<u64, (i32, i32)>::empty());
        m
    }

    fn find_source(&self, device: u64, control: Control) -> (r: Option<usize>)
        ensures
            r matches Some(i) ==> i < self.sources@.len() && source_id(self.sources@[i as int]) == (
                device,
                control,
            ),
            r is None ==> !has_source(self.sources@, (device, control)),
    {
        let mut i: usize = 0;
        while i < self.sources.len()
            invariant
                i <= self.sources@.len(),
                forall|k: int| 0 <= k < i ==> #[trigger] source_id(self.sources@[k]) != (device, control),
            decreases self.sources@.len() - i,
        {
            if self.sources[i].device == device && self.sources[i].control == control {
                return Some(i);
            }
            i = i + 1;
        }
        None
    }

    fn find_count(&self, key: OutputKey) -> (r: Option<usize>)
        ensures
            r matches Some(i) ==> i < self.output_counts@.len() && self.output_counts@[i as int].key
                == key,
            r is None ==> forall|k: int|
                0 <= k < self.output_counts@.len() ==> #[trigger] self.output_counts@[k].key != key,
    {
        let mut i: usize = 0;
        while i < self.output_counts.len()
            invariant
                i <= self.output_counts@.len(),
                forall|k: int| 0 <= k < i ==> #[trigger] self.output_counts@[k].key != key,
            decreases self.output_counts@.len() - i,
        {
            if self.output_counts[i].key == key {
                return Some(i);
            }
            i = i + 1;
        }
        None
    }

    fn find_stick(&self, device: u64) -> (r: Option<usize>)
        ensures
            r matches Some(i) ==> i < self.right_sticks@.len() && self.right_sticks@[i as int].device
                == device,
            r is None ==> forall|k: int|
                0 <= k < self.right_sticks@.len() ==> #[trigger] self.right_sticks@[k].device != device,
    {
        let mut i: usize = 0;
        while i < self.right_sticks.len()
            invariant
                i <= self.right_sticks@.len(),
                forall|k: int| 0 <= k < i ==> #[trigger] self.right_sticks@[k].device != device,
            decreases self.right_sticks@.len() - i,
        {
            if self.right_sticks[i].device == device {
                return Some(i);
            }
            i = i + 1;
        }
        None
    }

    fn press_source(&mut self, device: u64, control: Control) -> (events: Vec<OutputEvent>)
        requires
            old(self).wf(),
            old(self).active,
        ensures
            final(self).wf(),
            final(self).active,
            final(self).right_sticks@ == old(self).right_sticks@,
            (final(self).sources(), events@) == press_effect(
                old(self).sources(),
                (device, control),
                output_of(control),
            ),
    {
        let key = output_for(control);
        if self.find_source(device, control).is_some() {
            return Vec::new();
        }
        let ghost old_s = self.sources@;
        let src = Source { device, control, key };
        self.sources.push(src);
        let ghost new_s = self.sources@;
        proof {
            lemma_map_push(old_s, src);
            lemma_held(old_s, key);
            assert forall|k: OutputKey| #[trigger] count_key(new_s, k) == count_key(old_s, k) + (if src.key
                == k {
                1nat
            } else {
                0nat
            }) by {
                lemma_count_push(old_s, src, k);
            }
            lemma_count_positive(new_s, key);
        }
        let n = self.sources.len();
        match self.find_count(key) {
            Some(i) => {
                let c = self.output_counts[i].count;
                assert(c + 1 <= n);
                self.output_counts.set(i, KeyCount { key, count: c + 1 });
                proof {
                    let cs = self.output_counts@;
                    assert forall|k: OutputKey| #![trigger count_key(new_s, k)]
                        count_key(new_s, k) > 0 implies exists|j: int|
                        0 <= j < cs.len() && #[trigger] cs[j].key == k by {
                        if k != key {
                            let j = choose|j: int|
                                0 <= j < old(self).output_counts@.len()
                                    && #[trigger] old(self).output_counts@[j].key == k;
                            assert(cs[j].key == k);
                        } else {
                            assert(cs[i as int].key == k);
                        }
                    }
                }
                Vec::new()
            },
            None => {
                self.output_counts.push(KeyCount { key, count: 1 });
                proof {
                    let cs = self.output_counts@;
                    assert forall|k: OutputKey| #![trigger count_key(new_s, k)]
                        count_key(new_s, k) > 0 implies exists|j: int|
                        0 <= j < cs.len() && #[trigger] cs[j].key == k by {
                        if k != key {
                            let j = choose|j: int|
                                0 <= j < old(self).output_counts@.len()
                                    && #[trigger] old(self).output_counts@[j].key == k;
                            assert(cs[j].key == k);
                        } else {
                            assert(cs[cs.len() - 1].key == k);
                        }
                    }
                }
                vec![OutputEvent::Key { key, pressed: true }]
            },
        }
    }

    fn release_source(&mut self, device: u64, control: Control) -> (events: Vec<OutputEvent>)
        requires
            old(self).wf(),
        ensures
            final(self).wf(),
            final(self).active == old(self).active,
            final(self).right_sticks@ == old(self).right_sticks@,
            (final(self).sources(), events@) == release_effect(old(self).sources(), (device, control)),
            !has_source(old(self).sources@, (device, control)) ==> final(self).sources@ == old(self).sources@,
            has_source(old(self).sources@, (device, control)) ==> exists|j: int|
                0 <= j < old(self).sources@.len() && source_id(old(self).sources@[j]) == (device, control)
                    && final(self).sources@ == old(self).sources@.remove(j),
    {
        let found = self.find_source(device, control);
        let i = match found {
            None => {
                return Vec::new();
            },
            Some(i) => i,
        };
        let ghost old_s = self.sources@;
        let key = self.sources[i].key;
        proof {
            lemma_map_lookup(old_s, i as int);
            lemma_count_positive(old_s, key);
            assert(old_s[i as int].key == key);
        }
        self.sources.remove(i);
        let ghost new_s = self.sources@;
        proof {
            lemma_map_remove(old_s, i as int);
            assert forall|k: OutputKey| #[trigger] count_key(new_s, k) + (if key == k {
                1nat
            } else {
                0nat
            }) == count_key(old_s, k) by {
                lemma_count_remove(old_s, i as int, k);
            }
            lemma_held(new_s, key);
            assert forall|a: int| 0 <= a < new_s.len() implies #[trigger] new_s[a].key == output_of(
                new_s[a].control,
            ) by {
                let a2 = if a < i { a } else { a + 1 };
                assert(new_s[a] == old_s[a2]);
            }
        }
        let j = match self.find_count(key) {
            Some(j) => j,
            None => {
                proof {
                    assert(count_key(old_s, key) > 0);
                }
                return Vec::new();
            },
        };
        let c = self.output_counts[j].count;
        if c == 1 {
            self.output_counts.remove(j);
            proof {
                let cs = self.output_counts@;
                let ocs = old(self).output_counts@;
                assert forall|a: int, b: int|
                    0 <= a < cs.len() && 0 <= b < cs.len() && a != b implies #[trigger] cs[a].key
                    != #[trigger] cs[b].key by {
                    let a2 = if a < j { a } else { a + 1 };
                    let b2 = if b < j { b } else { b + 1 };
                    assert(cs[a] == ocs[a2] && cs[b] == ocs[b2]);
                }
                assert forall|a: int| 0 <= a < cs.len() implies #[trigger] cs[a].count == count_key(
                    new_s,
                    cs[a].key,
                ) && cs[a].count > 0 by {
                    let a2 = if a < j { a } else { a + 1 };
                    assert(cs[a] == ocs[a2]);
                }
                assert forall|k: OutputKey| #![trigger count_key(new_s, k)]
                    count_key(new_s, k) > 0 implies exists|b: int|
                    0 <= b < cs.len() && #[trigger] cs[b].key == k by {
                    let b = choose|b: int| 0 <= b < ocs.len() && #[trigger] ocs[b].key == k;
                    assert(b != j);
                    let b2 = if b < j { b } else { b - 1 };
                    assert(cs[b2] == ocs[b]);
                }
            }
            vec![OutputEvent::Key { key, pressed: false }]
        } else {
            self.output_counts.set(j, KeyCount { key, count: c - 1 });
            proof {
                let cs = self.output_counts@;
                let ocs = old(self).output_counts@;
                assert forall|k: OutputKey| #![trigger count_key(new_s, k)]
                    count_key(new_s, k) > 0 implies exists|b: int|
                    0 <= b < cs.len() && #[trigger] cs[b].key == k by {
                    let b = choose|b: int| 0 <= b < ocs.len() && #[trigger] ocs[b].key == k;
                    assert(cs[b].key == k);
                }
            }
            Vec::new()
        }
    }
}

impl Mapper {
    /// Turns translation on or off. Turning it off forgets every source and
    /// stick and releases every held output, each once.
    pub fn set_active(&mut self, active: bool) -> (events: Vec<OutputEvent>)
        requires
            old(self).wf(),
        ensures
            final(self).wf(),
            final(self).is_active() == active,
            old(self).is_active() == active ==> events@ == Seq::<OutputEvent>::empty()
                && *final(self) == *old(self),
            !old(self).is_active() && active ==> events@ == Seq::<OutputEvent>::empty()
                && final(self).sources() == old(self).sources()
                && final(self).sticks() == old(self).sticks(),
            old(self).is_active() && !active ==> {
                &&& events@ == old(self).held_order().map_values(
                    |k: OutputKey| OutputEvent::Key { key: k, pressed: false },
                )
                &&& final(self).sources() == SourceMap::empty()
                &&& final(self).sticks() == Map::<u64, (i32, i32)>::empty()
            },
    {
        if self.active == active {
            return Vec::new();
        }
        self.active = active;
        if active {
            return Vec::new();
        }
        self.sources.clear();
        self.right_sticks.clear();
        let mut events: Vec<OutputEvent> = Vec::new();
        let mut i: usize = 0;
        while i < self.output_counts.len()
            invariant
                i <= self.output_counts@.len(),
                self.output_counts@ == old(self).output_counts@,
                events@ == old(self).held_order().map_values(
                    |k: OutputKey| OutputEvent::Key { key: k, pressed: false },
                ).subrange(0, i as int),
            decreases self.output_counts@.len() - i,
        {
            events.push(OutputEvent::Key { key: self.output_counts[i].key, pressed: false });
            i = i + 1;
        }
        self.output_counts.clear();
        proof {
            assert(self.sources() =~= SourceMap::empty());
            assert(self.sticks() =~= Map::<u64, (i32, i32)>::empty());
            assert(events@ =~= old(self).held_order().map_values(
                |k: OutputKey| OutputEvent::Key { key: k, pressed: false },
            ));
        }
        events
    }

    /// A control going down or up. Ignored while inactive.
    pub fn button(&mut self, device: u64, control: Control, pressed: bool) -> (events: Vec<
        OutputEvent,
    >)
        requires
            old(self).wf(),
        ensures
            final(self).wf(),
            final(self).is_active() == old(self).is_active(),
            final(self).sticks() == old(self).sticks(),
            !old(self).is_active() ==> events@ == Seq::<OutputEvent>::empty() && final(self).sources()
                == old(self).sources(),
            old(self).is_active() ==> (final(self).sources(), events@) == button_effect(
                old(self).sources(),
                device,
                control,
                pressed,
            ),
    {
        if !self.active {
            return Vec::new();
        }
        if pressed {
            self.press_source(device, control)
        } else {
            self.release_source(device, control)
        }
    }

    /// A directional axis of `device` at `value`: the negative control is down
    /// below `-DEADZONE`, the positive one above `DEADZONE`.
    pub fn directional_axis(
        &mut self,
        device: u64,
        negative: Control,
        positive: Control,
        value: i32,
    ) -> (events: Vec<OutputEvent>)
        requires
            old(self).wf(),
        ensures
            final(self).wf(),
            final(self).is_active() == old(self).is_active(),
            final(self).sticks() == old(self).sticks(),
            !old(self).is_active() ==> events@ == Seq::<OutputEvent>::empty() && final(self).sources()
                == old(self).sources(),
            old(self).is_active() ==> (final(self).sources(), events@) == axis_effect(
                old(self).sources(),
                device,
                negative,
                positive,
                value,
            ),
    {
        if !self.active {
            return Vec::new();
        }
        let mut events = self.button(device, negative, value < -DEADZONE);
        let mut more = self.button(device, positive, value > DEADZONE);
        events.append(&mut more);
        events
    }

    /// Records one axis of `device`'s right stick. Ignored while inactive.
    pub fn right_stick_axis(&mut self, device: u64, horizontal: bool, value: i32)
        requires
            old(self).wf(),
        ensures
            final(self).wf(),
            final(self).is_active() == old(self).is_active(),
            final(self).sources() == old(self).sources(),
            !old(self).is_active() ==> final(self).sticks() == old(self).sticks(),
            old(self).is_active() ==> final(self).sticks() == old(self).sticks().insert(
                device,
                stick_after(old(self).sticks(), device, horizontal, value),
            ),
    {
        if !self.active {
            return;
        }
        let ghost old_s = self.right_sticks@;
        match self.find_stick(device) {
            Some(i) => {
                let st = if horizontal {
                    Stick { device, x: value, y: self.right_sticks[i].y }
                } else {
                    Stick { device, x: self.right_sticks[i].x, y: value }
                };
                proof {
                    lemma_sticks_lookup(old_s, i as int);
                    lemma_sticks_update(old_s, i as int, st);
                }
                self.right_sticks.set(i, st);
                proof {
                    let t = self.right_sticks@;
                    assert forall|a: int, b: int|
                        0 <= a < t.len() && 0 <= b < t.len() && a != b implies #[trigger] t[a].device
                        != #[trigger] t[b].device by {
                        assert(a != i ==> t[a] == old_s[a]);
                        assert(b != i ==> t[b] == old_s[b]);
                    }
                }
            },
            None => {
                let st = if horizontal {
                    Stick { device, x: value, y: 0 }
                } else {
                    Stick { device, x: 0, y: value }
                };
                proof {
                    if sticks_map(old_s).contains_key(device) {
                        let j = choose|j: int| 0 <= j < old_s.len() && #[trigger] old_s[j].device == device;
                    }
                    lemma_sticks_push(old_s, st);
                }
                self.right_sticks.push(st);
            },
        }
    }

    /// The right sticks' pointer steps, summed over the devices.
    fn pointer_sum(&self) -> (r: (i128, i128))
        requires
            self.sticks_in_range(),
        ensures
            r.0 == self.mouse_x(),
            r.1 == self.mouse_y(),
    {
        let mut x: i128 = 0;
        let mut y: i128 = 0;
        let mut i: usize = 0;
        let ghost s = self.right_sticks@;
        while i < self.right_sticks.len()
            invariant
                s == self.right_sticks@,
                i <= s.len(),
                self.sticks_in_range(),
                x == sum_x(s.subrange(0, i as int)),
                y == sum_y(s.subrange(0, i as int)),
            decreases s.len() - i,
        {
            proof {
                let t = s.subrange(0, i as int);
                assert forall|k: int| 0 <= k < t.len() implies stick_value_in_range(#[trigger] t[k].x)
                    && stick_value_in_range(t[k].y) by {
                    assert(t[k] == s[k]);
                    assert(stick_value_in_range(self.right_sticks@[k].x));
                }
                lemma_sum_bounds(t);
                assert(s.subrange(0, i + 1).drop_last() =~= t);
                assert(i < usize::MAX);
            }
            let dx = stick_delta(self.right_sticks[i].x);
            let dy = stick_delta(self.right_sticks[i].y);
            proof {
                assert(-2147484 * (i as int) <= x <= 2147484 * (i as int));
                assert(2147484 * (i as int) <= 2147484 * 18446744073709551615int) by (nonlinear_arith)
                    requires i <= 18446744073709551615int;
            }
            x = x + dx as i128;
            y = y + dy as i128;
            i = i + 1;
        }
        proof {
            assert(s.subrange(0, s.len() as int) =~= s);
        }
        (x, y)
    }

    /// Whether this tick's pointer movement can be taken: every stick value
    /// is small enough for its step to be computed, and the summed steps fit
    /// an `i32`, as [`Mapper::mouse_tick`] needs.
    pub fn mouse_tick_in_range(&self) -> (r: bool)
        ensures
            r == (self.sticks_in_range() && i32::MIN <= self.mouse_x() <= i32::MAX && i32::MIN
                <= self.mouse_y() <= i32::MAX),
    {
        let mut i: usize = 0;
        while i < self.right_sticks.len()
            invariant
                i <= self.right_sticks@.len(),
                forall|k: int|
                    0 <= k < i ==> stick_value_in_range(#[trigger] self.right_sticks@[k].x) && stick_value_in_range(
                        self.right_sticks@[k].y,
                    ),
            decreases self.right_sticks@.len() - i,
        {
            let x = self.right_sticks[i].x;
            let y = self.right_sticks[i].y;
            if !(-153391689 <= x && x <= 153391689 && -153391689 <= y && y <= 153391689) {
                assert(!stick_value_in_range(self.right_sticks@[i as int].x) || !stick_value_in_range(
                    self.right_sticks@[i as int].y,
                ));
                return false;
            }
            i = i + 1;
        }
        let (x, y) = self.pointer_sum();
        i32::MIN as i128 <= x && x <= i32::MAX as i128 && i32::MIN as i128 <= y && y <= i32::MAX as i128
    }

    /// The pointer movement for this tick: the right sticks' steps summed over
    /// devices, or nothing while inactive or when they cancel out.
    pub fn mouse_tick(&self) -> (r: Option<OutputEvent>)
        requires
            self.wf(),
            self.sticks_in_range(),
            i32::MIN <= self.mouse_x() <= i32::MAX,
            i32::MIN <= self.mouse_y() <= i32::MAX,
        ensures
            !self.is_active() ==> r is None,
            self.is_active() ==> r == if self.mouse_x() != 0 || self.mouse_y() != 0 {
                Some(OutputEvent::MouseMove { x: self.mouse_x() as i32, y: self.mouse_y() as i32 })
            } else {
                None
            },
    {
        if !self.active {
            return None;
        }
        let (x, y) = self.pointer_sum();
        if x != 0 || y != 0 {
            Some(OutputEvent::MouseMove { x: x as i32, y: y as i32 })
        } else {
            None
        }
    }

    /// Forgets `device`: its stick, and every source it holds, releasing each
    /// output no other device still holds.
    pub fn remove_device(&mut self, device: u64) -> (events: Vec<OutputEvent>)
        requires
            old(self).wf(),
        ensures
            final(self).wf(),
            final(self).is_active() == old(self).is_active(),
            final(self).sticks() == old(self).sticks().remove(device),
            forall|id: (u64, Control)| #[trigger]
                final(self).sources().contains_key(id) <==> old(self).sources().contains_key(id)
                    && id.0 != device,
            forall|id: (u64, Control)| #[trigger]
                final(self).sources().contains_key(id) ==> final(self).sources()[id] == old(self).sources()[id],
            forall|e: OutputEvent| #[trigger]
                events@.contains(e) <==> (e matches OutputEvent::Key { key, pressed } && !pressed
                    && held_in(old(self).sources(), key) && !held_in(final(self).sources(), key)),
            events@.no_duplicates(),
    {
        match self.find_stick(device) {
            Some(i) => {
                proof {
                    lemma_sticks_remove(self.right_sticks@, i as int);
                }
                self.right_sticks.remove(i);
            },
            None => {
                proof {
                    if sticks_map(self.right_sticks@).contains_key(device) {
                        let j = choose|j: int|
                            0 <= j < self.right_sticks@.len() && #[trigger] self.right_sticks@[j].device
                                == device;
                    }
                    assert(sticks_map(self.right_sticks@) =~= sticks_map(self.right_sticks@).remove(
                        device,
                    ));
                }
            },
        }
        let ghost orig = self.sources();
        let mut events: Vec<OutputEvent> = Vec::new();
        let mut i: usize = 0;
        while i < self.sources.len()
            invariant
                self.wf(),
                self.active == old(self).active,
                self.sticks() == old(self).sticks().remove(device),
                orig == old(self).sources(),
                i <= self.sources@.len(),
                forall|k: int| 0 <= k < i ==> #[trigger] self.sources@[k].device != device,
                forall|id: (u64, Control)| #[trigger]
                    self.sources().contains_key(id) ==> orig.contains_key(id) && self.sources()[id]
                        == orig[id],
                forall|id: (u64, Control)|
                    #[trigger] orig.contains_key(id) && id.0 != device ==> self.sources().contains_key(
                        id,
                    ),
                forall|e: OutputEvent| #[trigger]
                    events@.contains(e) <==> (e matches OutputEvent::Key { key, pressed } && !pressed
                        && held_in(orig, key) && !held_in(self.sources(), key)),
                events@.no_duplicates(),
            decreases self.sources@.len() - i,
        {
            if self.sources[i].device == device {
                let control = self.sources[i].control;
                let key = self.sources[i].key;
                let ghost before = self.sources();
                let ghost before_events = events@;
                proof {
                    lemma_map_lookup(self.sources@, i as int);
                }
                let ghost seq_before = self.sources@;
                let released = self.release_source(device, control);
                proof {
                    let id = (device, control);
                    assert(source_id(seq_before[i as int]) == id);
                    let j = choose|j: int|
                        0 <= j < seq_before.len() && source_id(seq_before[j]) == id
                            && self.sources@ == seq_before.remove(j);
                    assert(j == i);
                    assert forall|k: int| 0 <= k < i implies #[trigger] self.sources@[k].device != device by {
                        assert(self.sources@[k] == seq_before[k]);
                    }
                    assert(before.contains_key(id));
                    assert(before[id] == key);
                    assert(self.sources() == before.remove(id));
                    assert forall|k: OutputKey| k != key implies held_in(self.sources(), k) == held_in(
                        before,
                        k,
                    ) by {
                        lemma_held_remove(before, id, k);
                    }
                    lemma_held_remove(before, id, key);
                    assert(held_in(before, key));
                }
                if released.len() > 0 {
                    events.push(released[0]);
                }
                proof {
                    let id = (device, control);
                    assert(!before_events.contains(OutputEvent::Key { key, pressed: false }));
                    assert forall|e: OutputEvent| #[trigger]
                        events@.contains(e) <==> (e matches OutputEvent::Key { key, pressed } && !pressed
                            && held_in(orig, key) && !held_in(self.sources(), key)) by {
                        if events@.contains(e) && !before_events.contains(e) {
                            assert(e == events@.last());
                        }
                        if before_events.contains(e) {
                            let j = choose|j: int| 0 <= j < before_events.len() && before_events[j] == e;
                            assert(events@[j] == e);
                        }
                        if let OutputEvent::Key { key: k, pressed } = e {
                            if !pressed && held_in(orig, k) && !held_in(self.sources(), k) {
                                if k == key {
                                    assert(released@.len() > 0);
                                    assert(events@.last() == e);
                                } else {
                                    lemma_held_remove(before, id, k);
                                    assert(before_events.contains(e));
                                    let j = choose|j: int| 0 <= j < before_events.len() && before_events[j] == e;
                                    assert(events@[j] == e);
                                }
                            }
                        }
                    }
                }
            } else {
                i = i + 1;
            }
        }
        proof {
            assert forall|id: (u64, Control)| #[trigger]
                self.sources().contains_key(id) implies id.0 != device by {
                lemma_map_has(self.sources@, id);
                let k = choose|k: int| 0 <= k < self.sources@.len() && #[trigger] source_id(self.sources@[k]) == id;
            }
        }
        events
    }
}

/// An output is held exactly when some source holds it, and the order of
/// release lists each held output once.
pub proof fn held_outputs_track_sources(m: Mapper, key: OutputKey)
    requires
        m.wf(),
    ensures
        m.held_order().contains(key) <==> held_in(m.sources(), key),
        m.held_order().no_duplicates(),
{
    reveal_with_fuel(Seq::contains, 1);
    let c = m.output_counts@;
    lemma_held(m.sources@, key);
    if m.held_order().contains(key) {
        let i = choose|i: int| 0 <= i < m.held_order().len() && m.held_order()[i] == key;
        assert(c[i].key == key);
        assert(c[i].count > 0);
    }
    if held_in(m.sources(), key) {
        let i = choose|i: int| 0 <= i < c.len() && #[trigger] c[i].key == key;
        assert(m.held_order()[i] == key);
    }
    assert forall|i: int, j: int|
        0 <= i < m.held_order().len() && 0 <= j < m.held_order().len() && i != j implies m.held_order()[i]
        != m.held_order()[j] by {
        assert(c[i].key != c[j].key);
    }
}

/// An inactive mapper holds no source, no output and no stick.
pub proof fn inactive_mapper_holds_nothing(m: Mapper)
    requires
        m.wf(),
        !m.is_active(),
    ensures
        m.sources() == SourceMap::empty(),
        m.held_order().len() == 0,
        m.sticks() == Map::<u64, (i32, i32)>::empty(),
{
    assert(m.sources() =~= SourceMap::empty());
    assert(m.sticks() =~= Map::<u64, (i32, i32)>::empty());
}

/// Pressing a source never releases anything and releasing one never presses
/// anything; a press reports its key only if no other source held it, a
/// release only if no source still holds it.
pub proof fn shared_outputs_change_once(m: SourceMap, device: u64, control: Control, pressed: bool)
    ensures
        ({
            let (after, events) = button_effect(m, device, control, pressed);
            &&& events.len() <= 1
            &&& events.len() == 1 ==> events[0] == OutputEvent::Key {
                key: output_of(control),
                pressed,
            } || !pressed
            &&& events.len() == 1 && pressed ==> !held_in(m, output_of(control)) && held_in(
                after,
                output_of(control),
            )
            &&& events.len() == 1 && !pressed ==> (events[0] matches OutputEvent::Key { key, pressed: p }
                && !p && held_in(m, key) && !held_in(after, key))
        }),
{
    let id = (device, control);
    if pressed {
        if !m.contains_key(id) {
            assert(m.insert(id, output_of(control)).contains_key(id));
        }
    } else if m.contains_key(id) {
        assert(m.contains_key(id) && m[id] == m[id]);
    }
}

} // verus!
