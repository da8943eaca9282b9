//! Log triggers: the rules by which a tag write logs itself.
//!
//! A trigger watches one tag. Every write runs every trigger of its tag, so that
//! the private state of each stays current, and the write is logged if any of
//! them fires. Numbers are compared by their order keys: integers that are
//! ordered as the doubles are.
use vstd::prelude::*;

use crate::diff::{equal, same_doc, tidy};
use crate::diff_laws::law_objects_are_equal_by_key;
use crate::json::{at, Json, Number, Value};
use crate::json_text::{double_bits, read_double};
use crate::text::{concat, debug_text, decimal_int, quoted, same, write_i64, write_u64};

verus! {

// ---- readings -------------------------------------------------------------------

/// The order key of a double, from its IEEE bits: the keys of two doubles are
/// ordered as the doubles are, and both zeros have the key 0.
pub open spec fn order_key(bits: u64) -> int {
    if bits >= 0x8000_0000_0000_0000 {
        -(bits - 0x8000_0000_0000_0000)
    } else {
        bits as int
    }
}

/// The order key of a double, from its IEEE bits.
pub fn key_of_bits(bits: u64) -> (k: i64)
    ensures
        k == order_key(bits),
{
    if bits >= 0x8000_0000_0000_0000 {
        let size: u64 = bits - 0x8000_0000_0000_0000;
        -(size as i64)
    } else {
        bits as i64
    }
}

/// The bits of the double that a number document stands for.
pub open spec fn number_bits(j: Json) -> Option<u64> {
    match j {
        Json::Int(i) => double_bits(decimal_int(i)),
        Json::Float(t) => double_bits(t),
        _ => None,
    }
}

/// The order key of a number document; nothing for any other document.
pub open spec fn reading(j: Json) -> Option<int> {
    match number_bits(j) {
        Some(bits) => Some(order_key(bits)),
        None => None,
    }
}

/// The bits of the double that a number stands for.
pub fn bits_of(v: &Value) -> (r: Option<u64>)
    ensures
        r == number_bits(v@),
{
    match v {
        Value::Number(Number::Unsigned(u)) => read_double(write_u64(*u).as_str()),
        Value::Number(Number::Negative(i)) => read_double(write_i64(*i).as_str()),
        Value::Number(Number::Float(t)) => read_double(t.as_str()),
        _ => None,
    }
}

/// The order key of a number.
pub fn read_key(v: &Value) -> (r: Option<i64>)
    ensures
        match r {
            Some(k) => reading(v@) == Some(k as int),
            None => reading(v@) is None,
        },
{
    match bits_of(v) {
        Some(bits) => Some(key_of_bits(bits)),
        None => None,
    }
}

/// Whether a document is a number.
pub open spec fn is_number(j: Json) -> bool {
    j is Int || j is Float
}

/// Equality where numbers are compared as doubles, so that `1` equals `1.0`.
pub open spec fn loosely_same(a: Json, b: Json) -> bool {
    if is_number(a) && is_number(b) {
        reading(a) == reading(b)
    } else {
        same_doc(a, b)
    }
}

/// Equality where numbers are compared as doubles.
pub fn json_eq(a: &Value, b: &Value) -> (r: bool)
    ensures
        r == loosely_same(a@, b@),
{
    match (a, b) {
        (Value::Number(_), Value::Number(_)) => match (read_key(a), read_key(b)) {
            (Some(x), Some(y)) => x == y,
            (None, None) => true,
            _ => false,
        },
        _ => equal(a, b),
    }
}

// ---- triggers ------------------------------------------------------------------

/// A threshold with its hysteresis band, as order keys: a rising value crosses
/// at `upper`, a falling one at `lower`.
#[derive(Debug, Clone, Copy, PartialEq, Eq, Structural)]
pub struct Band {
    pub threshold: i64,
    pub upper: i64,
    pub lower: i64,
}

/// One auto-logging rule.
#[derive(Debug)]
pub enum LogTrigger {
    /// Log on crossing any threshold in either direction.
    Cross { bands: Vec<Band> },
    /// Log only on rising crossings.
    Rise { bands: Vec<Band> },
    /// Log only on falling crossings.
    Fall { bands: Vec<Band> },
    /// Log when the value moves at least this far (a double, by its bits) from
    /// the last value this trigger fired on.
    DeltaAmount(u64),
    /// Like `DeltaAmount`, as a percentage of the baseline.
    DeltaPercent(u64),
    /// Log on every value transition.
    AnyChange,
    /// Log only on entering the value.
    Enter(Value),
    /// Log only on leaving the value.
    Exit(Value),
}

/// The model of a rule.
pub enum TriggerView {
    Cross(Seq<Band>),
    Rise(Seq<Band>),
    Fall(Seq<Band>),
    DeltaAmount(u64),
    DeltaPercent(u64),
    AnyChange,
    Enter(Json),
    Exit(Json),
}

impl View for LogTrigger {
    type V = TriggerView;

    open spec fn view(&self) -> TriggerView {
        match self {
            LogTrigger::Cross { bands } => TriggerView::Cross(bands@),
            LogTrigger::Rise { bands } => TriggerView::Rise(bands@),
            LogTrigger::Fall { bands } => TriggerView::Fall(bands@),
            LogTrigger::DeltaAmount(a) => TriggerView::DeltaAmount(*a),
            LogTrigger::DeltaPercent(p) => TriggerView::DeltaPercent(*p),
            LogTrigger::AnyChange => TriggerView::AnyChange,
            LogTrigger::Enter(v) => TriggerView::Enter(v@),
            LogTrigger::Exit(v) => TriggerView::Exit(v@),
        }
    }
}

/// The models of a list of rules.
pub open spec fn trigger_views(list: Seq<LogTrigger>) -> Seq<TriggerView> {
    Seq::new(list.len(), |i: int| list[i]@)
}

fn copy_bands(bands: &Vec<Band>) -> (out: Vec<Band>)
    ensures
        out@ == bands@,
{
    let mut out: Vec<Band> = Vec::new();
    let mut i: usize = 0;
    while i < bands.len()
        invariant
            i <= bands@.len(),
            out@ == bands@.take(i as int),
        decreases bands@.len() - i,
    {
        out.push(bands[i]);
        assert(out@ =~= bands@.take(i as int + 1));
        i += 1;
    }
    assert(bands@.take(bands@.len() as int) =~= bands@);
    out
}

impl Clone for LogTrigger {
    fn clone(&self) -> (copy: Self)
        ensures
            copy@ == self@,
    {
        match self {
            LogTrigger::Cross { bands } => LogTrigger::Cross { bands: copy_bands(bands) },
            LogTrigger::Rise { bands } => LogTrigger::Rise { bands: copy_bands(bands) },
            LogTrigger::Fall { bands } => LogTrigger::Fall { bands: copy_bands(bands) },
            LogTrigger::DeltaAmount(a) => LogTrigger::DeltaAmount(*a),
            LogTrigger::DeltaPercent(p) => LogTrigger::DeltaPercent(*p),
            LogTrigger::AnyChange => LogTrigger::AnyChange,
            LogTrigger::Enter(v) => LogTrigger::Enter(v.clone()),
            LogTrigger::Exit(v) => LogTrigger::Exit(v.clone()),
        }
    }
}

/// A copy of a list of rules.
pub fn copy_triggers(list: &Vec<LogTrigger>) -> (out: Vec<LogTrigger>)
    ensures
        trigger_views(out@) == trigger_views(list@),
{
    let mut out: Vec<LogTrigger> = Vec::new();
    let mut i: usize = 0;
    while i < list.len()
        invariant
            i <= list@.len(),
            out@.len() == i,
            forall|j: int| 0 <= j < i ==> (#[trigger] out@[j])@ == list@[j]@,
        decreases list@.len() - i,
    {
        out.push(list[i].clone());
        i += 1;
    }
    assert(trigger_views(out@) =~= trigger_views(list@));
    out
}

/// The mutable state of one trigger.
#[derive(Debug, Clone)]
pub struct TriggerState {
    sides: Option<Vec<bool>>,
    last_logged: Option<u64>,
}

/// The model of a trigger's state: for every threshold whether the value is
/// above it, and the bits of the last value that a delta trigger fired on.
#[verifier::ext_equal]
pub struct StateView {
    pub sides: Option<Seq<bool>>,
    pub last_logged: Option<u64>,
}

impl View for TriggerState {
    type V = StateView;

    closed spec fn view(&self) -> StateView {
        StateView {
            sides: match self.sides {
                Some(v) => Some(v@),
                None => None,
            },
            last_logged: self.last_logged,
        }
    }
}

impl Default for TriggerState {
    fn default() -> (s: Self)
        ensures
            s@ == (StateView { sides: None, last_logged: None }),
    {
        TriggerState { sides: None, last_logged: None }
    }
}

impl TriggerState {
    /// The bits of the last value that a delta trigger fired on.
    pub fn baseline(&self) -> (r: Option<u64>)
        ensures
            r == self@.last_logged,
    {
        self.last_logged
    }
}

/// Whether the bands are in the order of their thresholds.
pub open spec fn in_order(bands: Seq<Band>) -> bool {
    forall|i: int, j: int|
        0 <= i < j < bands.len() ==> (#[trigger] bands[i]).threshold <= (
        #[trigger] bands[j]).threshold
}

/// Sorts bands by their thresholds.
fn sort_bands(bands: Vec<Band>) -> (out: Vec<Band>)
    ensures
        in_order(out@),
        out@.to_multiset() == bands@.to_multiset(),
        out@.len() == bands@.len(),
{
    broadcast use vstd::seq_lib::group_to_multiset_ensures;

    let mut out: Vec<Band> = Vec::new();
    let mut i: usize = 0;
    assert(bands@.take(0) =~= Seq::empty());
    while i < bands.len()
        invariant
            i <= bands@.len(),
            out@.len() == i,
            in_order(out@),
            out@.to_multiset() == bands@.take(i as int).to_multiset(),
        decreases bands@.len() - i,
    {
        broadcast use vstd::seq_lib::group_to_multiset_ensures;

        let b = bands[i];
        let mut p: usize = out.len();
        while p > 0 && out[p - 1].threshold > b.threshold
            invariant
                p <= out@.len(),
                in_order(out@),
                forall|j: int| p <= j < out@.len() ==> (#[trigger] out@[j]).threshold > b.threshold,
            decreases p,
        {
            p -= 1;
        }
        let ghost before = out@;
        out.insert(p, b);
        proof {
            assert(out@ == before.insert(p as int, b));
            assert forall|x: int, y: int| 0 <= x < y < out@.len() implies (#[trigger] out@[x]).threshold
                <= (#[trigger] out@[y]).threshold by {
                if p > 0 {
                    assert(before[p - 1].threshold <= b.threshold);
                }
                if x < p {
                    assert(out@[x] == before[x]);
                    if x < p - 1 {
                        assert(before[x].threshold <= before[p - 1].threshold);
                    }
                }
                if y > p {
                    assert(out@[y] == before[y - 1]);
                }
                if y < p {
                    assert(out@[y] == before[y]);
                }
                if x > p {
                    assert(out@[x] == before[x - 1]);
                }
            }
            assert(bands@.take(i as int + 1) =~= bands@.take(i as int).push(b));
        }
        i += 1;
    }
    assert(bands@.take(bands@.len() as int) =~= bands@);
    out
}

/// Which crossings fire.
#[derive(Debug, Clone, Copy, PartialEq, Eq, Structural)]
pub enum CrossDirection {
    Both,
    Rise,
    Fall,
}

impl LogTrigger {
    /// Logs on crossing a threshold in either direction.
    pub fn cross(bands: Vec<Band>) -> (t: Self)
        requires
            bands@.len() > 0,
        ensures
            t@ matches TriggerView::Cross(b) && in_order(b) && b.to_multiset()
                == bands@.to_multiset(),
    {
        LogTrigger::Cross { bands: sort_bands(bands) }
    }

    /// Logs on rising crossings.
    pub fn rise(bands: Vec<Band>) -> (t: Self)
        requires
            bands@.len() > 0,
        ensures
            t@ matches TriggerView::Rise(b) && in_order(b) && b.to_multiset()
                == bands@.to_multiset(),
    {
        LogTrigger::Rise { bands: sort_bands(bands) }
    }

    /// Logs on falling crossings.
    pub fn fall(bands: Vec<Band>) -> (t: Self)
        requires
            bands@.len() > 0,
        ensures
            t@ matches TriggerView::Fall(b) && in_order(b) && b.to_multiset()
                == bands@.to_multiset(),
    {
        LogTrigger::Fall { bands: sort_bands(bands) }
    }

    /// Logs when the value moves at least the amount (a double, by its bits).
    pub fn delta_amount(amount: u64) -> (t: Self)
        ensures
            t@ == TriggerView::DeltaAmount(amount),
    {
        LogTrigger::DeltaAmount(amount)
    }

    /// Logs when the value moves at least the percentage (a double, by its bits).
    pub fn delta_percent(percent: u64) -> (t: Self)
        ensures
            t@ == TriggerView::DeltaPercent(percent),
    {
        LogTrigger::DeltaPercent(percent)
    }

    /// Logs on every value transition.
    pub fn any_change() -> (t: Self)
        ensures
            t@ == TriggerView::AnyChange,
    {
        LogTrigger::AnyChange
    }

    /// Logs on entering the value.
    pub fn enter(value: Value) -> (t: Self)
        ensures
            t@ == TriggerView::Enter(value@),
    {
        LogTrigger::Enter(value)
    }

    /// Logs on leaving the value.
    pub fn exit(value: Value) -> (t: Self)
        ensures
            t@ == TriggerView::Exit(value@),
    {
        LogTrigger::Exit(value)
    }

    /// Whether the trigger is one for numeric tags.
    pub fn is_numeric_trigger(&self) -> (r: bool)
        ensures
            r == self@.numeric(),
    {
        match self {
            LogTrigger::AnyChange | LogTrigger::Enter(_) | LogTrigger::Exit(_) => false,
            _ => true,
        }
    }

    /// The name of the trigger's kind.
    pub fn kind_name(&self) -> (r: &'static str)
        ensures
            r@ == self@.kind(),
    {
        match self {
            LogTrigger::Cross { .. } => "Cross",
            LogTrigger::Rise { .. } => "Rise",
            LogTrigger::Fall { .. } => "Fall",
            LogTrigger::DeltaAmount(_) | LogTrigger::DeltaPercent(_) => "Delta",
            LogTrigger::AnyChange => "AnyChange",
            LogTrigger::Enter(_) => "Enter",
            LogTrigger::Exit(_) => "Exit",
        }
    }
}

// ---- evaluation ----------------------------------------------------------------

/// Whether a value below a threshold crosses it upwards.
pub open spec fn goes_up(above: bool, band: Band, key: int) -> bool {
    !above && key >= band.upper
}

/// Whether a value above a threshold crosses it downwards.
pub open spec fn goes_down(above: bool, band: Band, key: int) -> bool {
    above && key <= band.lower
}

/// On which side of a threshold the value is after a reading.
pub open spec fn side_after(above: bool, band: Band, key: int) -> bool {
    if goes_up(above, band, key) {
        true
    } else if goes_down(above, band, key) {
        false
    } else {
        above
    }
}

/// Whether crossing one threshold fires.
pub open spec fn band_fires(d: CrossDirection, above: bool, band: Band, key: int) -> bool {
    (d != CrossDirection::Fall && goes_up(above, band, key)) || (d != CrossDirection::Rise
        && goes_down(above, band, key))
}

/// The sides before a reading: every threshold starts above the value.
pub open spec fn sides_before(s: StateView, bands: Seq<Band>) -> Seq<bool> {
    match s.sides {
        Some(sides) => sides,
        None => Seq::new(bands.len(), |i: int| false),
    }
}

/// The sides after a reading.
pub open spec fn sides_after(sides: Seq<bool>, bands: Seq<Band>, key: int) -> Seq<bool> {
    Seq::new(
        sides.len(),
        |i: int|
            if i < bands.len() {
                side_after(sides[i], bands[i], key)
            } else {
                sides[i]
            },
    )
}

/// Whether a reading crosses any threshold in the direction.
pub open spec fn any_band_fires(
    d: CrossDirection,
    sides: Seq<bool>,
    bands: Seq<Band>,
    key: int,
) -> bool {
    exists|i: int|
        0 <= i < sides.len() && i < bands.len() && band_fires(d, sides[i], #[trigger] bands[i], key)
}

/// Whether a crossing trigger fires on a value.
pub open spec fn crossing_fires(
    d: CrossDirection,
    bands: Seq<Band>,
    new: Json,
    s: StateView,
) -> bool {
    match reading(new) {
        Some(key) => any_band_fires(d, sides_before(s, bands), bands, key),
        None => false,
    }
}

/// The state of a crossing trigger after a value.
pub open spec fn crossing_state(bands: Seq<Band>, new: Json, s: StateView) -> StateView {
    match reading(new) {
        Some(key) => StateView { sides: Some(sides_after(sides_before(s, bands), bands, key)), ..s },
        None => s,
    }
}

/// Whether a delta trigger fires: always on the first number, later when the
/// number is far from the baseline.
pub open spec fn delta_fires(new: Json, far: bool, s: StateView) -> bool {
    number_bits(new) is Some && (s.last_logged is None || far)
}

/// The state of a delta trigger after a value: the baseline moves only when the
/// trigger fires.
pub open spec fn delta_state(new: Json, far: bool, s: StateView) -> StateView {
    if delta_fires(new, far, s) {
        StateView { last_logged: number_bits(new), ..s }
    } else {
        s
    }
}

impl TriggerView {
    /// Whether the trigger is one for numeric tags.
    pub open spec fn numeric(self) -> bool {
        match self {
            TriggerView::AnyChange | TriggerView::Enter(_) | TriggerView::Exit(_) => false,
            _ => true,
        }
    }

    /// The name of the trigger's kind.
    pub open spec fn kind(self) -> Seq<char> {
        match self {
            TriggerView::Cross(_) => "Cross"@,
            TriggerView::Rise(_) => "Rise"@,
            TriggerView::Fall(_) => "Fall"@,
            TriggerView::DeltaAmount(_) | TriggerView::DeltaPercent(_) => "Delta"@,
            TriggerView::AnyChange => "AnyChange"@,
            TriggerView::Enter(_) => "Enter"@,
            TriggerView::Exit(_) => "Exit"@,
        }
    }

    /// Whether the trigger fires when the tag goes from `prev` to `new`. `far`
    /// says of a delta trigger whether `new` is far from its baseline.
    pub open spec fn fires(self, prev: Json, new: Json, far: bool, s: StateView) -> bool {
        match self {
            TriggerView::Cross(bands) => crossing_fires(CrossDirection::Both, bands, new, s),
            TriggerView::Rise(bands) => crossing_fires(CrossDirection::Rise, bands, new, s),
            TriggerView::Fall(bands) => crossing_fires(CrossDirection::Fall, bands, new, s),
            TriggerView::DeltaAmount(_) | TriggerView::DeltaPercent(_) => delta_fires(new, far, s),
            TriggerView::AnyChange => !loosely_same(prev, new),
            TriggerView::Enter(value) => !loosely_same(prev, new) && loosely_same(new, value),
            TriggerView::Exit(value) => !loosely_same(prev, new) && loosely_same(prev, value),
        }
    }

    /// The state of the trigger after the tag was set to `new`.
    pub open spec fn after(self, new: Json, far: bool, s: StateView) -> StateView {
        match self {
            TriggerView::Cross(bands) | TriggerView::Rise(bands) | TriggerView::Fall(bands) =>
                crossing_state(bands, new, s),
            TriggerView::DeltaAmount(_) | TriggerView::DeltaPercent(_) => delta_state(new, far, s),
            _ => s,
        }
    }
}

impl LogTrigger {
    fn evaluate_crossing(
        bands: &Vec<Band>,
        direction: CrossDirection,
        new: &Value,
        state: &mut TriggerState,
    ) -> (fired: bool)
        ensures
            fired == crossing_fires(direction, bands@, new@, old(state)@),
            final(state)@ == crossing_state(bands@, new@, old(state)@),
    {
        let key: i64 = match read_key(new) {
            Some(key) => key,
            None => {
                return false;
            },
        };
        let ghost was = state@;
        let mut sides: Vec<bool> = match state.sides.take() {
            Some(sides) => sides,
            None => {
                let mut sides: Vec<bool> = Vec::new();
                let mut i: usize = 0;
                while i < bands.len()
                    invariant
                        i <= bands@.len(),
                        sides@ == Seq::new(i as nat, |j: int| false),
                    decreases bands@.len() - i,
                {
                    sides.push(false);
                    i += 1;
                    assert(sides@ =~= Seq::new(i as nat, |j: int| false));
                }
                sides
            },
        };
        let ghost before = sides@;
        assert(before == sides_before(was, bands@));
        let mut fired = false;
        let mut i: usize = 0;
        while i < sides.len() && i < bands.len()
            invariant
                i <= sides@.len(),
                i <= bands@.len(),
                sides@.len() == before.len(),
                forall|j: int|
                    0 <= j < i ==> #[trigger] sides@[j] == side_after(
                        before[j],
                        bands@[j],
                        key as int,
                    ),
                forall|j: int| i <= j < before.len() ==> #[trigger] sides@[j] == before[j],
                fired == exists|j: int|
                    0 <= j < i && band_fires(direction, before[j], #[trigger] bands@[j], key as int),
            decreases bands@.len() - i,
        {
            let band = bands[i];
            let above = sides[i];
            let ghost now = band_fires(direction, before[i as int], bands@[i as int], key as int);
            if key >= band.upper && !above {
                sides.set(i, true);
                if direction != CrossDirection::Fall {
                    fired = true;
                }
            } else if key <= band.lower && above {
                sides.set(i, false);
                if direction != CrossDirection::Rise {
                    fired = true;
                }
            }
            assert(bands@[i as int] == band);
            assert(now ==> fired);
            i += 1;
        }
        assert(sides@ =~= sides_after(before, bands@, key as int));
        state.sides = Some(sides);
        fired
    }

    fn evaluate_delta(new: &Value, far: bool, state: &mut TriggerState) -> (fired: bool)
        ensures
            fired == delta_fires(new@, far, old(state)@),
            final(state)@ == delta_state(new@, far, old(state)@),
    {
        let bits: u64 = match bits_of(new) {
            Some(bits) => bits,
            None => {
                return false;
            },
        };
        let fired = state.last_logged.is_none() || far;
        if fired {
            state.last_logged = Some(bits);
        }
        fired
    }

    /// Evaluates one write. `prev` is the value before it, `None` when the tag
    /// was never set; `far` says of a delta trigger whether `new` is far enough
    /// from [`TriggerState::baseline`].
    pub fn evaluate(
        &self,
        prev: Option<&Value>,
        new: &Value,
        far: bool,
        state: &mut TriggerState,
    ) -> (fired: bool)
        ensures
            fired == self@.fires(prev_doc(prev), new@, far, old(state)@),
            final(state)@ == self@.after(new@, far, old(state)@),
    {
        let null = Value::Null;
        let prev = match prev {
            Some(v) => v,
            None => &null,
        };
        match self {
            LogTrigger::Cross { bands } => LogTrigger::evaluate_crossing(
                bands,
                CrossDirection::Both,
                new,
                state,
            ),
            LogTrigger::Rise { bands } => LogTrigger::evaluate_crossing(
                bands,
                CrossDirection::Rise,
                new,
                state,
            ),
            LogTrigger::Fall { bands } => LogTrigger::evaluate_crossing(
                bands,
                CrossDirection::Fall,
                new,
                state,
            ),
            LogTrigger::DeltaAmount(_) => LogTrigger::evaluate_delta(new, far, state),
            LogTrigger::DeltaPercent(_) => LogTrigger::evaluate_delta(new, far, state),
            LogTrigger::AnyChange => !json_eq(prev, new),
            LogTrigger::Enter(value) => !json_eq(prev, new) && json_eq(new, value),
            LogTrigger::Exit(value) => !json_eq(prev, new) && json_eq(prev, value),
        }
    }
}

/// The document before a write: null when the tag was never set.
pub open spec fn prev_doc(prev: Option<&Value>) -> Json {
    match prev {
        Some(v) => v@,
        None => Json::Null,
    }
}

// ---- sets ----------------------------------------------------------------------

/// Every trigger of one tag, with its state and the tag's declared default.
#[derive(Debug, Clone)]
pub struct TriggerSet {
    triggers: Vec<LogTrigger>,
    states: Vec<TriggerState>,
    default: Option<Value>,
}

/// The model of a trigger set.
pub struct SetView {
    pub triggers: Seq<TriggerView>,
    pub states: Seq<StateView>,
    pub default: Option<Json>,
}

impl View for TriggerSet {
    type V = SetView;

    closed spec fn view(&self) -> SetView {
        SetView {
            triggers: trigger_views(self.triggers@),
            states: Seq::new(self.states@.len(), |i: int| self.states@[i]@),
            default: match self.default {
                Some(v) => Some(v@),
                None => None,
            },
        }
    }
}

/// The document that a set compares a write with: the stored value, else the
/// declared default, else null.
pub open spec fn effective_prev(s: SetView, current: Option<&Value>) -> Json {
    match current {
        Some(v) => v@,
        None => match s.default {
            Some(d) => d,
            None => Json::Null,
        },
    }
}

/// Whether any trigger of the set fires.
pub open spec fn any_fires(s: SetView, prev: Json, new: Json, far: Seq<bool>) -> bool {
    exists|i: int|
        0 <= i < s.triggers.len() && (#[trigger] s.triggers[i]).fires(prev, new, far[i], s.states[i])
}

impl TriggerSet {
    /// One state for every trigger.
    pub open spec fn wf(&self) -> bool {
        self@.states.len() == self@.triggers.len()
    }

    /// A set in its initial state.
    pub fn new(triggers: Vec<LogTrigger>, default: Option<Value>) -> (s: Self)
        ensures
            s.wf(),
            s@.triggers == trigger_views(triggers@),
            s@.states == Seq::new(
                triggers@.len(),
                |i: int| (StateView { sides: None, last_logged: None }),
            ),
            s@.default == (match default {
                Some(v) => Some(v@),
                None => None,
            }),
    {
        let mut states: Vec<TriggerState> = Vec::new();
        let mut i: usize = 0;
        while i < triggers.len()
            invariant
                i <= triggers@.len(),
                states@.len() == i,
                forall|j: int|
                    0 <= j < i ==> (#[trigger] states@[j])@ == (StateView {
                        sides: None,
                        last_logged: None,
                    }),
            decreases triggers@.len() - i,
        {
            states.push(TriggerState::default());
            i += 1;
        }
        let s = TriggerSet { triggers, states, default };
        assert(s@.states =~= Seq::new(
            triggers@.len(),
            |i: int| (StateView { sides: None, last_logged: None }),
        ));
        s
    }

    /// The triggers of the set.
    pub fn triggers(&self) -> (r: &Vec<LogTrigger>)
        ensures
            trigger_views(r@) == self@.triggers,
    {
        &self.triggers
    }

    /// The baseline of every trigger.
    pub fn baselines(&self) -> (r: Vec<Option<u64>>)
        ensures
            r@ == Seq::new(self@.states.len(), |i: int| self@.states[i].last_logged),
    {
        let mut r: Vec<Option<u64>> = Vec::new();
        let mut i: usize = 0;
        while i < self.states.len()
            invariant
                i <= self.states@.len(),
                r@.len() == i,
                forall|j: int| 0 <= j < i ==> #[trigger] r@[j] == self.states@[j]@.last_logged,
            decreases self.states@.len() - i,
        {
            r.push(self.states[i].baseline());
            i += 1;
        }
        assert(r@ =~= Seq::new(self@.states.len(), |i: int| self@.states[i].last_logged));
        r
    }

    /// Evaluates one write against every trigger and says whether any fired.
    /// `far` says of every delta trigger whether `new` is far from its baseline.
    pub fn evaluate(&mut self, current: Option<&Value>, new: &Value, far: &Vec<bool>) -> (fired: bool)
        requires
            old(self).wf(),
            far@.len() == old(self)@.triggers.len(),
        ensures
            final(self).wf(),
            fired == any_fires(old(self)@, effective_prev(old(self)@, current), new@, far@),
            final(self)@.triggers == old(self)@.triggers,
            final(self)@.default == old(self)@.default,
            forall|i: int|
                0 <= i < old(self)@.triggers.len() ==> #[trigger] final(self)@.states[i] == old(
                    self,
                )@.triggers[i].after(new@, far@[i], old(self)@.states[i]),
    {
        let ghost was = self@;
        let ghost prev = effective_prev(self@, current);
        let mut states: Vec<TriggerState> = Vec::new();
        let mut fired = false;
        let mut i: usize = 0;
        states.append(&mut self.states);
        while i < self.triggers.len()
            invariant
                i <= self.triggers@.len(),
                was.triggers == trigger_views(self.triggers@),
                was.states.len() == was.triggers.len(),
                was.default == self@.default,
                states@.len() == was.states.len(),
                far@.len() == was.triggers.len(),
                prev == effective_prev(was, current),
                forall|j: int|
                    0 <= j < i ==> (#[trigger] states@[j])@ == was.triggers[j].after(
                        new@,
                        far@[j],
                        was.states[j],
                    ),
                forall|j: int| i <= j < states@.len() ==> (#[trigger] states@[j])@ == was.states[j],
                fired == exists|j: int|
                    0 <= j < i && (#[trigger] was.triggers[j]).fires(
                        prev,
                        new@,
                        far@[j],
                        was.states[j],
                    ),
            decreases self.triggers@.len() - i,
        {
            let mut state = states.remove(i);
            let prev_value: Option<&Value> = match current {
                Some(v) => Some(v),
                None => self.default.as_ref(),
            };
            let ghost now = was.triggers[i as int].fires(
                prev,
                new@,
                far@[i as int],
                was.states[i as int],
            );
            let hit = self.triggers[i].evaluate(prev_value, new, far[i], &mut state);
            assert(hit == now);
            if hit {
                fired = true;
            }
            states.insert(i, state);
            i += 1;
        }
        self.states = states;
        fired
    }
}

// ---- declaration ------------------------------------------------------------------

/// Whether a tag type is numeric.
pub open spec fn numeric_type(t: Seq<char>) -> bool {
    t == "number"@ || t == "integer"@ || t == "float"@
}

/// Whether a tag type takes the transition triggers.
pub open spec fn state_type(t: Seq<char>) -> bool {
    t == "boolean"@ || t == "string"@
}

/// The message for a tag type that takes no triggers.
pub open spec fn unsupported_message(t: Seq<char>) -> Seq<char> {
    "log_on is not supported for tag_type "@ + debug_text(t)
        + "; supported types are: number, integer, float, boolean, string."@
}

/// The message for a trigger that the tag type does not take.
pub open spec fn mismatch_message(t: Seq<char>, kind: Seq<char>) -> Seq<char> {
    t + " log_on accepts "@ + (if numeric_type(t) {
        "Cross, Rise, Fall, Delta"@
    } else {
        "AnyChange, Enter, Exit"@
    }) + " descriptors, got "@ + kind + "."@
}

/// Checks triggers against a declared tag type: numeric tags take the crossing
/// and delta triggers, boolean and string tags the transition triggers. The
/// first trigger that does not fit is reported.
pub fn validate_log_on(tag_type: &str, triggers: &Vec<LogTrigger>) -> (r: Result<(), String>)
    ensures
        match r {
            Ok(_) => (numeric_type(tag_type@) || state_type(tag_type@)) && forall|i: int|
                0 <= i < triggers@.len() ==> (#[trigger] triggers@[i])@.numeric() == numeric_type(
                    tag_type@,
                ),
            Err(m) => if !numeric_type(tag_type@) && !state_type(tag_type@) {
                m@ == unsupported_message(tag_type@)
            } else {
                exists|i: int|
                    0 <= i < triggers@.len() && (#[trigger] triggers@[i])@.numeric() != numeric_type(
                        tag_type@,
                    ) && m@ == mismatch_message(tag_type@, triggers@[i]@.kind()) && forall|j: int|
                        0 <= j < i ==> (#[trigger] triggers@[j])@.numeric() == numeric_type(tag_type@)
            },
        },
{
    let numeric = same(tag_type, "number") || same(tag_type, "integer") || same(tag_type, "float");
    let state = same(tag_type, "boolean") || same(tag_type, "string");
    if !numeric && !state {
        let head = concat("log_on is not supported for tag_type ", quoted(tag_type).as_str());
        return Err(
            concat(
                head.as_str(),
                "; supported types are: number, integer, float, boolean, string.",
            ),
        );
    }
    let mut i: usize = 0;
    while i < triggers.len()
        invariant
            i <= triggers@.len(),
            numeric == numeric_type(tag_type@),
            numeric || state_type(tag_type@),
            forall|j: int| 0 <= j < i ==> (#[trigger] triggers@[j])@.numeric() == numeric,
        decreases triggers@.len() - i,
    {
        if triggers[i].is_numeric_trigger() != numeric {
            let mut m = concat(tag_type, " log_on accepts ");
            m.append(if numeric {
                "Cross, Rise, Fall, Delta"
            } else {
                "AnyChange, Enter, Exit"
            });
            m.append(" descriptors, got ");
            m.append(triggers[i].kind_name());
            m.append(".");
            return Err(m);
        }
        i += 1;
    }
    Ok(())
}

// ---- laws -----------------------------------------------------------------------

/// A crossing trigger does not fire again while the value stays: setting the
/// same number twice fires at most once, unless the number lies on a threshold
/// whose band is empty.
pub proof fn law_crossing_does_not_refire(
    d: CrossDirection,
    bands: Seq<Band>,
    new: Json,
    s: StateView,
    key: int,
)
    requires
        reading(new) == Some(key),
        forall|i: int|
            0 <= i < bands.len() ==> !((#[trigger] bands[i]).upper <= key <= bands[i].lower),
    ensures
        !crossing_fires(d, bands, new, crossing_state(bands, new, s)),
{
    let sides = sides_before(s, bands);
    let next = sides_after(sides, bands, key);
    assert forall|i: int| 0 <= i < next.len() && i < bands.len() implies !band_fires(
        d,
        next[i],
        #[trigger] bands[i],
        key,
    ) by {
        assert(next[i] == side_after(sides[i], bands[i], key));
    }
}

/// Inside every band a crossing trigger neither fires nor changes its state.
pub proof fn law_deadband_is_silent(
    d: CrossDirection,
    bands: Seq<Band>,
    new: Json,
    s: StateView,
    key: int,
)
    requires
        reading(new) == Some(key),
        forall|i: int| 0 <= i < bands.len() ==> (#[trigger] bands[i]).lower < key < bands[i].upper,
    ensures
        !crossing_fires(d, bands, new, s),
        crossing_state(bands, new, s).sides == Some(sides_before(s, bands)),
{
    let sides = sides_before(s, bands);
    assert forall|i: int| 0 <= i < sides.len() && i < bands.len() implies !band_fires(
        d,
        sides[i],
        #[trigger] bands[i],
        key,
    ) by {}
    assert forall|i: int| 0 <= i < sides.len() implies sides_after(sides, bands, key)[i] == sides[i] by {
        if i < bands.len() {
            let b = bands[i];
        }
    }
    assert(sides_after(sides, bands, key) =~= sides);
}

/// A trigger on both directions fires exactly when the rising or the falling
/// one would.
pub proof fn law_cross_is_rise_or_fall(bands: Seq<Band>, new: Json, s: StateView)
    ensures
        crossing_fires(CrossDirection::Both, bands, new, s) == (crossing_fires(
            CrossDirection::Rise,
            bands,
            new,
            s,
        ) || crossing_fires(CrossDirection::Fall, bands, new, s)),
{
    if let Some(key) = reading(new) {
        let sides = sides_before(s, bands);
        if any_band_fires(CrossDirection::Both, sides, bands, key) {
            let i = choose|i: int|
                0 <= i < sides.len() && i < bands.len() && band_fires(
                    CrossDirection::Both,
                    sides[i],
                    #[trigger] bands[i],
                    key,
                );
            assert(band_fires(CrossDirection::Rise, sides[i], bands[i], key) || band_fires(
                CrossDirection::Fall,
                sides[i],
                bands[i],
                key,
            ));
        }
        if any_band_fires(CrossDirection::Rise, sides, bands, key) {
            let i = choose|i: int|
                0 <= i < sides.len() && i < bands.len() && band_fires(
                    CrossDirection::Rise,
                    sides[i],
                    #[trigger] bands[i],
                    key,
                );
            assert(band_fires(CrossDirection::Both, sides[i], bands[i], key));
        }
        if any_band_fires(CrossDirection::Fall, sides, bands, key) {
            let i = choose|i: int|
                0 <= i < sides.len() && i < bands.len() && band_fires(
                    CrossDirection::Fall,
                    sides[i],
                    #[trigger] bands[i],
                    key,
                );
            assert(band_fires(CrossDirection::Both, sides[i], bands[i], key));
        }
    }
}

/// The baseline of a delta trigger moves exactly when it fires, and the first
/// number fires.
pub proof fn law_delta_baseline_moves_on_fire(new: Json, far: bool, s: StateView)
    ensures
        delta_fires(new, far, s) ==> delta_state(new, far, s).last_logged == number_bits(new),
        !delta_fires(new, far, s) ==> delta_state(new, far, s) == s,
        s.last_logged is None && number_bits(new) is Some ==> delta_fires(new, far, s),
{
}

/// What is no number fires no numeric trigger and leaves its state as it was.
pub proof fn law_numeric_triggers_ignore_other_values(
    t: TriggerView,
    prev: Json,
    new: Json,
    far: bool,
    s: StateView,
)
    requires
        t.numeric(),
        !is_number(new),
    ensures
        !t.fires(prev, new, far, s),
        t.after(new, far, s) == s,
{
}

/// A trigger on any change fires exactly if the two documents are not equal: two texts if
/// their characters differ, two truth values if they differ, two numbers if they are not
/// the same number, two lists if their lengths or some of their items differ, two objects
/// if some key names different documents or names something in one alone. Documents of
/// different kinds always differ. It keeps no state.
pub proof fn law_any_change_fires_on_every_change(prev: Json, new: Json, far: bool, s: StateView)
    requires
        tidy(prev),
        tidy(new),
    ensures
        TriggerView::AnyChange.fires(prev, new, far, s) == (match (prev, new) {
            (Json::Null, Json::Null) => false,
            (Json::Bool(a), Json::Bool(b)) => a != b,
            (Json::Str(a), Json::Str(b)) => a != b,
            (Json::Int(_), Json::Int(_)) | (Json::Int(_), Json::Float(_)) | (
                Json::Float(_),
                Json::Int(_),
            ) | (Json::Float(_), Json::Float(_)) => reading(prev) != reading(new),
            (Json::Arr(a), Json::Arr(b)) => a.len() != b.len() || exists|i: int|
                0 <= i < a.len() && !same_doc(#[trigger] a[i], b[i]),
            (Json::Obj(a), Json::Obj(b)) => exists|q: Seq<char>|
                match (#[trigger] at(a, q), at(b, q)) {
                    (Some(x), Some(y)) => !same_doc(x, y),
                    (None, None) => false,
                    _ => true,
                },
            _ => true,
        }),
        TriggerView::AnyChange.after(new, far, s) == s,
{
    if let (Json::Obj(a), Json::Obj(b)) = (prev, new) {
        law_objects_are_equal_by_key(a, b);
    }
}

/// A trigger on entering a value fires exactly on the changes that end at the value, and
/// one on leaving it exactly on the changes that begin there: of texts, where they are
/// the value's characters. Neither keeps state.
pub proof fn law_enter_and_exit_fire_on_their_changes(
    value: Json,
    prev: Json,
    new: Json,
    far: bool,
    s: StateView,
)
    ensures
        ({
            let any = TriggerView::AnyChange;
            let enter = TriggerView::Enter(value);
            let exit = TriggerView::Exit(value);
            &&& enter.fires(prev, new, far, s) == (any.fires(prev, new, far, s) && !any.fires(
                new,
                value,
                far,
                s,
            ))
            &&& exit.fires(prev, new, far, s) == (any.fires(prev, new, far, s) && !any.fires(
                prev,
                value,
                far,
                s,
            ))
            &&& enter.after(new, far, s) == s
            &&& exit.after(new, far, s) == s
            &&& prev is Str && new is Str && value is Str ==> enter.fires(prev, new, far, s) == (
            prev->Str_0 != new->Str_0 && new->Str_0 == value->Str_0)
            &&& prev is Str && new is Str && value is Str ==> exit.fires(prev, new, far, s) == (
            prev->Str_0 != new->Str_0 && prev->Str_0 == value->Str_0)
            &&& prev is Bool && new is Bool && value is Bool ==> enter.fires(prev, new, far, s) == (
            prev->Bool_0 != new->Bool_0 && new->Bool_0 == value->Bool_0)
            &&& prev is Bool && new is Bool && value is Bool ==> exit.fires(prev, new, far, s) == (
            prev->Bool_0 != new->Bool_0 && prev->Bool_0 == value->Bool_0)
            &&& prev is Null && new is Str && value is Str ==> enter.fires(prev, new, far, s) == (
            new->Str_0 == value->Str_0)
        }),
{
}

/// The state that a trigger has before its first number.
pub open spec fn unread() -> StateView {
    StateView { sides: None, last_logged: None }
}

/// On the first number a rising trigger fires exactly if some threshold is reached, and
/// so does one on both directions; a falling one does not fire. From then on a value is
/// above a threshold exactly if the number reached it.
pub proof fn law_first_crossing(bands: Seq<Band>, prev: Json, new: Json, far: bool, key: int)
    requires
        reading(new) == Some(key),
    ensures
        TriggerView::Rise(bands).fires(prev, new, far, unread()) == exists|i: int|
            0 <= i < bands.len() && key >= (#[trigger] bands[i]).upper,
        TriggerView::Cross(bands).fires(prev, new, far, unread()) == exists|i: int|
            0 <= i < bands.len() && key >= (#[trigger] bands[i]).upper,
        !TriggerView::Fall(bands).fires(prev, new, far, unread()),
        forall|t: TriggerView|
            t == TriggerView::Rise(bands) || t == TriggerView::Fall(bands) || t
                == TriggerView::Cross(bands) ==> (#[trigger] t.after(new, far, unread())).sides
                == Some(Seq::new(bands.len(), |i: int| key >= bands[i].upper)),
{
    let before = sides_before(unread(), bands);
    assert(before.len() == bands.len());
    assert forall|d: CrossDirection| #[trigger]
        any_band_fires(d, before, bands, key) == (d != CrossDirection::Fall && exists|i: int|
            0 <= i < bands.len() && key >= (#[trigger] bands[i]).upper) by {
        if d != CrossDirection::Fall && exists|i: int|
            0 <= i < bands.len() && key >= (#[trigger] bands[i]).upper {
            let i = choose|i: int| 0 <= i < bands.len() && key >= (#[trigger] bands[i]).upper;
            assert(band_fires(d, before[i], bands[i], key));
        }
        if any_band_fires(d, before, bands, key) {
            let i = choose|i: int|
                0 <= i < before.len() && i < bands.len() && band_fires(
                    d,
                    before[i],
                    #[trigger] bands[i],
                    key,
                );
            assert(key >= bands[i].upper);
        }
    }
    assert(sides_after(before, bands, key) =~= Seq::new(
        bands.len(),
        |i: int| key >= bands[i].upper,
    ));
}

/// After one number a second one fires a rising trigger exactly if it reaches a threshold
/// that the first did not, and a falling one exactly if it comes down to the lower edge of
/// a threshold that the first had reached. A trigger on both directions fires on either.
pub proof fn law_second_crossing(
    bands: Seq<Band>,
    prev: Json,
    one: Json,
    two: Json,
    far: bool,
    first: int,
    second: int,
)
    requires
        reading(one) == Some(first),
        reading(two) == Some(second),
    ensures
        ({
            let s = TriggerView::Cross(bands).after(one, far, unread());
            let up = exists|i: int|
                0 <= i < bands.len() && first < (#[trigger] bands[i]).upper && second
                    >= bands[i].upper;
            let down = exists|i: int|
                0 <= i < bands.len() && first >= (#[trigger] bands[i]).upper && second
                    <= bands[i].lower;
            &&& TriggerView::Rise(bands).after(one, far, unread()) == s
            &&& TriggerView::Fall(bands).after(one, far, unread()) == s
            &&& TriggerView::Rise(bands).fires(prev, two, far, s) == up
            &&& TriggerView::Fall(bands).fires(prev, two, far, s) == down
            &&& TriggerView::Cross(bands).fires(prev, two, far, s) == (up || down)
        }),
{
    law_first_crossing(bands, prev, one, far, first);
    let s = TriggerView::Cross(bands).after(one, far, unread());
    let sides = s.sides.unwrap();
    assert(sides =~= Seq::new(bands.len(), |i: int| first >= bands[i].upper));
    law_crossings_are_by_side(bands, prev, two, far, s, second);
    if exists|i: int|
        0 <= i < bands.len() && first < (#[trigger] bands[i]).upper && second >= bands[i].upper {
        let i = choose|i: int|
            0 <= i < bands.len() && first < (#[trigger] bands[i]).upper && second >= bands[i].upper;
        assert(!sides[i] && second >= bands[i].upper);
    }
    if exists|i: int|
        0 <= i < bands.len() && first >= (#[trigger] bands[i]).upper && second <= bands[i].lower {
        let i = choose|i: int|
            0 <= i < bands.len() && first >= (#[trigger] bands[i]).upper && second
                <= bands[i].lower;
        assert(sides[i] && second <= bands[i].lower);
    }
}

/// A number fires a rising trigger exactly if it reaches a threshold that the value was
/// below, and a falling one exactly if it comes down to the lower edge of one that the
/// value was above. Afterwards a value that was below is above exactly if the number
/// reached the upper edge, and one that was above stays so exactly if the number is still
/// over the lower edge.
pub proof fn law_crossings_are_by_side(
    bands: Seq<Band>,
    prev: Json,
    new: Json,
    far: bool,
    s: StateView,
    key: int,
)
    requires
        reading(new) == Some(key),
        s.sides matches Some(sides) && sides.len() == bands.len(),
    ensures
        ({
            let sides = s.sides.unwrap();
            let up = exists|i: int|
                0 <= i < bands.len() && !sides[i] && key >= (#[trigger] bands[i]).upper;
            let down = exists|i: int|
                0 <= i < bands.len() && sides[i] && key <= (#[trigger] bands[i]).lower;
            let is = Seq::new(
                bands.len(),
                |i: int|
                    if sides[i] {
                        key > bands[i].lower
                    } else {
                        key >= bands[i].upper
                    },
            );
            &&& TriggerView::Rise(bands).fires(prev, new, far, s) == up
            &&& TriggerView::Fall(bands).fires(prev, new, far, s) == down
            &&& TriggerView::Cross(bands).fires(prev, new, far, s) == (up || down)
            &&& TriggerView::Rise(bands).after(new, far, s).sides == Some(is)
            &&& TriggerView::Fall(bands).after(new, far, s).sides == Some(is)
            &&& TriggerView::Cross(bands).after(new, far, s).sides == Some(is)
        }),
{
    let sides = s.sides.unwrap();
    law_cross_is_rise_or_fall(bands, new, s);
    if exists|i: int| 0 <= i < bands.len() && !sides[i] && key >= (#[trigger] bands[i]).upper {
        let i = choose|i: int|
            0 <= i < bands.len() && !sides[i] && key >= (#[trigger] bands[i]).upper;
        assert(band_fires(CrossDirection::Rise, sides[i], bands[i], key));
    }
    if any_band_fires(CrossDirection::Rise, sides, bands, key) {
        let i = choose|i: int|
            0 <= i < sides.len() && i < bands.len() && band_fires(
                CrossDirection::Rise,
                sides[i],
                #[trigger] bands[i],
                key,
            );
        assert(!sides[i] && key >= bands[i].upper);
    }
    if exists|i: int| 0 <= i < bands.len() && sides[i] && key <= (#[trigger] bands[i]).lower {
        let i = choose|i: int|
            0 <= i < bands.len() && sides[i] && key <= (#[trigger] bands[i]).lower;
        assert(band_fires(CrossDirection::Fall, sides[i], bands[i], key));
    }
    if any_band_fires(CrossDirection::Fall, sides, bands, key) {
        let i = choose|i: int|
            0 <= i < sides.len() && i < bands.len() && band_fires(
                CrossDirection::Fall,
                sides[i],
                #[trigger] bands[i],
                key,
            );
        assert(sides[i] && key <= bands[i].lower);
    }
    assert(sides_after(sides, bands, key) =~= Seq::new(
        bands.len(),
        |i: int|
            if sides[i] {
                key > bands[i].lower
            } else {
                key >= bands[i].upper
            },
    ));
}

/// A delta trigger fires on the first number it sees and then exactly on the numbers that
/// are far from the last one that it fired on, which is what it measures from. What is
/// no number never fires and moves nothing.
pub proof fn law_deltas_are_measured_from_the_last_logged(
    amount: u64,
    prev: Json,
    new: Json,
    far: bool,
    s: StateView,
)
    ensures
        forall|t: TriggerView|
            t == TriggerView::DeltaAmount(amount) || t == TriggerView::DeltaPercent(amount) ==> {
                &&& #[trigger] t.fires(prev, new, far, s) == (number_bits(new) is Some && (
                s.last_logged is None || far))
                &&& t.after(new, far, s).last_logged == (if number_bits(new) is Some && (
                s.last_logged is None || far) {
                    number_bits(new)
                } else {
                    s.last_logged
                })
                &&& t.after(new, far, s).sides == s.sides
            },
{
}

/// The order keys of doubles order them: of two doubles of the same sign by their size,
/// any below zero before any above, and the two zeros together.
pub proof fn law_order_keys_order_doubles(a: u64, b: u64)
    ensures
        a < 0x8000_0000_0000_0000 && b < 0x8000_0000_0000_0000 ==> (order_key(a) < order_key(b)
            <==> a < b),
        a >= 0x8000_0000_0000_0000 && b >= 0x8000_0000_0000_0000 ==> (order_key(a) < order_key(b)
            <==> a > b),
        a > 0x8000_0000_0000_0000 && b < 0x8000_0000_0000_0000 ==> order_key(a) < order_key(b),
        order_key(0) == order_key(0x8000_0000_0000_0000),
        order_key(0) == 0,
{
}

/// A set of triggers fires exactly if one of its triggers does, whichever it is.
pub proof fn law_sets_fire_with_any_trigger(s: SetView, prev: Json, new: Json, far: Seq<bool>)
    ensures
        forall|i: int|
            0 <= i < s.triggers.len() && (#[trigger] s.triggers[i]).fires(
                prev,
                new,
                far[i],
                s.states[i],
            ) ==> any_fires(s, prev, new, far),
        any_fires(s, prev, new, far) ==> exists|i: int|
            0 <= i < s.triggers.len() && (#[trigger] s.triggers[i]).fires(
                prev,
                new,
                far[i],
                s.states[i],
            ),
{
}

/// Two numbers are the same if they are the same double, and anything else if it is the same
/// document.
pub proof fn law_numbers_are_compared_by_value(a: Json, b: Json)
    ensures
        (a is Int || a is Float) && (b is Int || b is Float) ==> (loosely_same(a, b) <==> reading(a)
            == reading(b)),
        !(a is Int || a is Float) ==> (loosely_same(a, b) <==> same_doc(a, b)),
        loosely_same(a, b) && a is Str && b is Str ==> a == b,
        loosely_same(a, b) && a is Bool && b is Bool ==> a == b,
        a is Str && !(b is Str) ==> !loosely_same(a, b),
        a is Null ==> (loosely_same(a, b) <==> b is Null),
{
}

/// A refused rule is told with the kinds that the tag takes and with its own.
pub proof fn law_refused_rules_are_told(t: Seq<char>, kind: Seq<char>)
    ensures
        t == "number"@ || t == "integer"@ || t == "float"@ ==> mismatch_message(t, kind) == t
            + " log_on accepts "@ + "Cross, Rise, Fall, Delta"@ + " descriptors, got "@ + kind
            + "."@,
        t == "boolean"@ || t == "string"@ ==> mismatch_message(t, kind) == t + " log_on accepts "@
            + "AnyChange, Enter, Exit"@ + " descriptors, got "@ + kind + "."@,
        unsupported_message(t) == "log_on is not supported for tag_type "@ + debug_text(t)
            + "; supported types are: number, integer, float, boolean, string."@,
{
    reveal_strlit("number");
    reveal_strlit("integer");
    reveal_strlit("float");
    reveal_strlit("boolean");
    reveal_strlit("string");
    assert("boolean"@[0] == 'b' && "string"@[0] == 's' && "number"@[0] == 'n' && "integer"@[0]
        == 'i' && "float"@[0] == 'f');
}

/// A set compares a write with what the tag holds, and before the first one with its default.
pub proof fn law_first_writes_are_compared_with_the_default(s: SetView, current: Option<&Value>)
    ensures
        current matches Some(v) ==> effective_prev(s, current) == v@,
        current is None ==> effective_prev(s, current) == (match s.default {
            Some(d) => d,
            None => Json::Null,
        }),
{
}

} // verus!
