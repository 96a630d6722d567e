//! Deciding when the settings are written back between sessions.
//!
//! The debounce sees the settings as a [`SettingsKey`] and the time since the
//! previous frame, in nanoseconds, and says whether now is the moment to
//! write: never while the settings are still changing, never when what is
//! stored is already equal to them, and once they have stood still for
//! [`AUTOSAVE_IDLE_NANOS`]. Settings are equal as their numbers are: a NaN
//! equals nothing, itself included, so settings holding one are never
//! written back.

use vstd::prelude::*;

verus! {

/// How long the settings must stand still before they are written back:
/// three quarters of a second.
pub const AUTOSAVE_IDLE_NANOS: u64 = 750_000_000;

/// Settings as the debounce compares them. `text` spells out every field,
/// written so that settings equal field by field (`-0.0` equal to `0.0`)
/// get the same text and unequal ones different text; `comparable` is false
/// when some number in them is NaN.
#[derive(Debug, Clone)]
pub struct SettingsKey {
    pub text: String,
    pub comparable: bool,
}

/// A [`SettingsKey`] as mathematical values.
pub struct KeyView {
    pub text: Seq<char>,
    pub comparable: bool,
}

impl View for SettingsKey {
    type V = KeyView;

    open spec fn view(&self) -> KeyView {
        KeyView { text: self.text@, comparable: self.comparable }
    }
}

/// Whether two keys stand for equal settings: neither holds a NaN, and they
/// agree field by field.
pub open spec fn key_eq(a: KeyView, b: KeyView) -> bool {
    a.comparable && b.comparable && a.text == b.text
}

/// Equality of optional settings: nothing equals nothing, and settings
/// equal settings as [`key_eq`] says.
pub open spec fn opt_eq(a: Option<KeyView>, b: Option<KeyView>) -> bool {
    match (a, b) {
        (None, None) => true,
        (Some(x), Some(y)) => key_eq(x, y),
        _ => false,
    }
}

/// Bookkeeping about what has already been written.
#[derive(Debug)]
pub struct Persistence {
    /// The last settings written out, or taken to be stored.
    saved: Option<SettingsKey>,
    /// The settings as of the previous frame.
    seen: Option<SettingsKey>,
    /// Nanoseconds the settings have been unchanged, saturating.
    idle: u64,
}

/// The state of a [`Persistence`], as mathematical values.
pub struct PersistenceView {
    pub saved: Option<KeyView>,
    pub seen: Option<KeyView>,
    pub idle: nat,
}

/// The view of an optional key.
pub open spec fn opt_view(k: Option<SettingsKey>) -> Option<KeyView> {
    match k {
        Some(t) => Some(t@),
        None => None,
    }
}

/// Time added without wrapping: it sticks at `u64::MAX`.
pub open spec fn saturating_sum(a: nat, b: nat) -> nat {
    if a + b > u64::MAX { u64::MAX as nat } else { a + b }
}

/// One frame of the debounce, for settings `input` and a frame that
/// lasted `delta` nanoseconds: the next state and whether to write now.
pub open spec fn due_step(v: PersistenceView, input: KeyView, delta: nat) -> (PersistenceView, bool) {
    if !opt_eq(v.seen, Some(input)) {
        // Still moving: note where it got to and start the clock again.
        (PersistenceView { saved: v.saved, seen: Some(input), idle: 0 }, false)
    } else if opt_eq(v.saved, v.seen) {
        (v, false)
    } else {
        let idle = saturating_sum(v.idle, delta);
        (PersistenceView { saved: v.saved, seen: v.seen, idle }, idle >= AUTOSAVE_IDLE_NANOS)
    }
}

/// The state after `input` has been written out.
pub open spec fn written(v: PersistenceView, input: KeyView) -> PersistenceView {
    PersistenceView { saved: Some(input), seen: v.seen, idle: 0 }
}

/// Frames with the settings held at `input`, one per entry of `deltas`, where
/// each write the debounce asks for is carried out: the final state and the
/// number of writes.
pub open spec fn settle(v: PersistenceView, input: KeyView, deltas: Seq<nat>) -> (PersistenceView, nat)
    decreases deltas.len(),
{
    if deltas.len() == 0 {
        (v, 0)
    } else {
        let (next, due) = due_step(v, input, deltas[0]);
        let after = if due { written(next, input) } else { next };
        let (last, writes) = settle(after, input, deltas.drop_first());
        (last, writes + if due { 1nat } else { 0nat })
    }
}

/// Frames where the settings are `inputs[i]` on frame `i`, and where each
/// frame lasted `deltas[i]`: how many writes the debounce asks for.
pub open spec fn writes_along(v: PersistenceView, inputs: Seq<KeyView>, deltas: Seq<nat>) -> nat
    decreases inputs.len(),
{
    if inputs.len() == 0 || deltas.len() == 0 {
        0
    } else {
        let (next, due) = due_step(v, inputs[0], deltas[0]);
        writes_along(next, inputs.drop_first(), deltas.drop_first()) + if due { 1nat } else { 0nat }
    }
}

/// Sum of frame lengths.
pub open spec fn total(deltas: Seq<nat>) -> nat
    decreases deltas.len(),
{
    if deltas.len() == 0 { 0 } else { deltas[0] + total(deltas.drop_first()) }
}

impl View for Persistence {
    type V = PersistenceView;

    closed spec fn view(&self) -> PersistenceView {
        PersistenceView { saved: opt_view(self.saved), seen: opt_view(self.seen), idle: self.idle as nat }
    }
}

/// A copy of a key.
fn copy_key(k: &SettingsKey) -> (c: SettingsKey)
    ensures
        c@ == k@,
{
    SettingsKey { text: k.text.clone(), comparable: k.comparable }
}

/// Whether two keys stand for equal settings.
fn keys_equal(a: &SettingsKey, b: &SettingsKey) -> (r: bool)
    ensures
        r == key_eq(a@, b@),
{
    a.comparable && b.comparable && a.text.eq(&b.text)
}

/// Whether two optional settings are equal.
fn same_settings(a: &Option<SettingsKey>, b: &Option<SettingsKey>) -> (r: bool)
    ensures
        r == opt_eq(opt_view(*a), opt_view(*b)),
{
    match (a, b) {
        (Some(x), Some(y)) => keys_equal(x, y),
        (None, None) => true,
        _ => false,
    }
}

/// Whether optional settings are present and equal to `k`.
fn holds(a: &Option<SettingsKey>, k: &SettingsKey) -> (r: bool)
    ensures
        r == opt_eq(opt_view(*a), Some(k@)),
{
    match a {
        Some(x) => keys_equal(x, k),
        None => false,
    }
}

impl Default for Persistence {
    fn default() -> (p: Self)
        ensures
            p@ == (PersistenceView { saved: None, seen: None, idle: 0 }),
    {
        Persistence { saved: None, seen: None, idle: 0 }
    }
}

impl Persistence {
    /// Nothing stored and nothing seen yet.
    pub fn new() -> (p: Self)
        ensures
            p@ == (PersistenceView { saved: None, seen: None, idle: 0 }),
    {
        Persistence { saved: None, seen: None, idle: 0 }
    }

    /// Take `input` to be what is already stored, so it is not written back.
    pub fn assume_stored(&mut self, input: &SettingsKey)
        ensures
            final(self)@ == (PersistenceView { saved: Some(input@), seen: Some(input@), idle: 0 }),
    {
        self.saved = Some(copy_key(input));
        self.seen = Some(copy_key(input));
        self.idle = 0;
    }

    /// Advance the debounce by one frame of `delta_nanos` with the settings
    /// at `input`, and say whether it is time to write them.
    pub fn due(&mut self, input: &SettingsKey, delta_nanos: u64) -> (write: bool)
        ensures
            (final(self)@, write) == due_step(old(self)@, input@, delta_nanos as nat),
    {
        if !holds(&self.seen, input) {
            self.seen = Some(copy_key(input));
            self.idle = 0;
            return false;
        }
        if same_settings(&self.saved, &self.seen) {
            return false;
        }
        self.idle = self.idle.saturating_add(delta_nanos);
        self.idle >= AUTOSAVE_IDLE_NANOS
    }

    /// Record that `input` has been written out, or that writing it failed
    /// and should not be retried until the settings change again.
    pub fn record_write(&mut self, input: &SettingsKey)
        ensures
            final(self)@ == written(old(self)@, input@),
    {
        self.saved = Some(copy_key(input));
        self.idle = 0;
    }

    /// Whether `input` equals what was last written out.
    pub fn is_saved(&self, input: &SettingsKey) -> (r: bool)
        ensures
            r == opt_eq(self@.saved, Some(input@)),
    {
        holds(&self.saved, input)
    }
}

/// Once the stored settings and the last-seen settings both equal `input`,
/// holding the settings at `input` never asks for a write, however long it
/// stands, and changes nothing.
pub proof fn lemma_stored_input_never_written(v: PersistenceView, input: KeyView, deltas: Seq<nat>)
    requires
        opt_eq(v.saved, Some(input)),
        opt_eq(v.seen, Some(input)),
    ensures
        settle(v, input, deltas).1 == 0,
        settle(v, input, deltas).0 == v,
    decreases deltas.len(),
{
    if deltas.len() > 0 {
        lemma_stored_input_never_written(v, input, deltas.drop_first());
    }
}

/// Settings holding a NaN equal nothing, not even themselves, so the
/// debounce keeps seeing them as just changed and never writes them.
pub proof fn law_settings_with_nan_never_written(v: PersistenceView, input: KeyView, deltas: Seq<nat>)
    requires
        !input.comparable,
    ensures
        settle(v, input, deltas).1 == 0,
    decreases deltas.len(),
{
    if deltas.len() > 0 {
        let (next, due) = due_step(v, input, deltas[0]);
        assert(!due);
        law_settings_with_nan_never_written(next, input, deltas.drop_first());
    }
}

/// Opening the app writes nothing: after `assume_stored(input)`, any number of
/// frames with the settings unchanged ask for no write.
pub proof fn law_opening_writes_nothing(v: PersistenceView, input: KeyView, deltas: Seq<nat>)
    requires
        v.saved == Some(input),
        v.seen == Some(input),
        v.idle == 0,
    ensures
        settle(v, input, deltas).1 == 0,
{
    if input.comparable {
        lemma_stored_input_never_written(v, input, deltas);
    } else {
        law_settings_with_nan_never_written(v, input, deltas);
    }
}

/// Returning to what is stored cancels the write: whatever was seen before,
/// settings held equal to the stored ones are never written again.
pub proof fn law_returning_to_stored_writes_nothing(v: PersistenceView, input: KeyView, deltas: Seq<nat>)
    requires
        opt_eq(v.saved, Some(input)),
    ensures
        settle(v, input, deltas).1 == 0,
{
    if deltas.len() > 0 {
        let (next, due) = due_step(v, input, deltas[0]);
        assert(!due);
        assert(opt_eq(next.saved, Some(input)) && opt_eq(next.seen, Some(input)));
        lemma_stored_input_never_written(next, input, deltas.drop_first());
    }
}

/// A continuing drag never writes: while the settings differ from one frame
/// to the next, no frame asks for a write.
pub proof fn law_changing_input_never_written(v: PersistenceView, inputs: Seq<KeyView>, deltas: Seq<nat>)
    requires
        inputs.len() > 0 ==> !opt_eq(v.seen, Some(inputs[0])),
        forall|i: int| 0 < i < inputs.len() ==> !key_eq(#[trigger] inputs[i], inputs[i - 1]),
    ensures
        writes_along(v, inputs, deltas) == 0,
    decreases inputs.len(),
{
    if inputs.len() > 0 && deltas.len() > 0 {
        let (next, due) = due_step(v, inputs[0], deltas[0]);
        assert(next.seen == Some(inputs[0]));
        let rest = inputs.drop_first();
        assert forall|i: int| 0 < i < rest.len() implies !key_eq(#[trigger] rest[i], rest[i - 1]) by {
            assert(rest[i] == inputs[i + 1]);
            assert(rest[i - 1] == inputs[i]);
        }
        if rest.len() > 0 {
            assert(rest[0] == inputs[1]);
            assert(!key_eq(inputs[1], inputs[0]));
        }
        law_changing_input_never_written(next, rest, deltas.drop_first());
    }
}

/// A change is written once: with the settings held still, the frames ask
/// for at most one write, whatever state they start from.
pub proof fn law_settled_change_written_at_most_once(v: PersistenceView, input: KeyView, deltas: Seq<nat>)
    ensures
        settle(v, input, deltas).1 <= 1,
    decreases deltas.len(),
{
    if deltas.len() > 0 {
        let (next, due) = due_step(v, input, deltas[0]);
        let after = if due { written(next, input) } else { next };
        if due {
            assert(opt_eq(after.saved, Some(input)) && opt_eq(after.seen, Some(input)));
            lemma_stored_input_never_written(after, input, deltas.drop_first());
        } else {
            law_settled_change_written_at_most_once(after, input, deltas.drop_first());
        }
    }
}

/// A pending change, held still, is written once enough time has passed:
/// if the settings were seen equal to `input` but what is stored is not, and
/// the frames together last at least the idle time, exactly one write is
/// asked for.
pub proof fn law_settled_change_written_once(v: PersistenceView, input: KeyView, deltas: Seq<nat>)
    requires
        opt_eq(v.seen, Some(input)),
        !opt_eq(v.saved, Some(input)),
        deltas.len() > 0,
        v.idle + total(deltas) >= AUTOSAVE_IDLE_NANOS,
        forall|i: int| 0 <= i < deltas.len() ==> #[trigger] deltas[i] <= u64::MAX,
        v.idle <= u64::MAX,
    ensures
        settle(v, input, deltas).1 == 1,
    decreases deltas.len(),
{
    let (next, due) = due_step(v, input, deltas[0]);
    let rest = deltas.drop_first();
    assert(total(deltas) == deltas[0] + total(rest));
    assert(!opt_eq(v.saved, v.seen));
    if due {
        lemma_stored_input_never_written(written(next, input), input, rest);
    } else {
        // Not yet due, so the idle time is still below the threshold and
        // did not saturate: the remaining frames carry the rest of the wait.
        assert(next.idle == v.idle + deltas[0]);
        assert(rest.len() > 0);
        assert forall|i: int| 0 <= i < rest.len() implies #[trigger] rest[i] <= u64::MAX by {
            assert(rest[i] == deltas[i + 1]);
        }
        law_settled_change_written_once(next, input, rest);
    }
}

} // verus!
