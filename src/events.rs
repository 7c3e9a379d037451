//! The event dump: items pulled from the server's event stream are filtered,
//! and each one let through gets a capture time that never goes backwards.

use crate::clock::now_micros;
use vstd::prelude::*;

verus! {

/// What the event stream handed over.
#[derive(Debug, PartialEq, Eq, Structural, Clone, Copy)]
pub enum ItemKind {
    /// A decoded event of the diagnostic category (anti-cheat messages).
    Diagnostic,
    /// Any other decoded event.
    Event,
    /// An event that the decoder did not recognize; its raw fields come with it.
    Unrecognized,
    /// The item could not be decoded at all.
    Failure,
}

/// How loudly an item is logged.
#[derive(Debug, PartialEq, Eq, Structural, Clone, Copy)]
pub enum Severity {
    Info,
    Debug,
    Error,
}

/// What to do with an item that was let through: stamp it with this time
/// (microseconds since the Unix epoch) and log it at this severity.
#[derive(Debug, PartialEq, Eq, Structural, Clone, Copy)]
pub struct Emit {
    pub stamp: i64,
    pub severity: Severity,
}

/// The filter: diagnostic events pass only when they are to be shown, every
/// other item always passes.
pub open spec fn accepts(kind: ItemKind, show_diagnostics: bool) -> bool {
    kind != ItemKind::Diagnostic || show_diagnostics
}

/// The severity at which an item of the kind `kind` is logged.
pub open spec fn severity_of(kind: ItemKind) -> Severity {
    match kind {
        ItemKind::Diagnostic | ItemKind::Event => Severity::Info,
        ItemKind::Unrecognized => Severity::Debug,
        ItemKind::Failure => Severity::Error,
    }
}

/// The stamp of an item read at the time `now`, after the stamp `last`: the
/// clock reading, or the last stamp where the clock went back.
pub open spec fn next_stamp(last: Option<i64>, now: i64) -> i64 {
    match last {
        Some(p) if p > now => p,
        _ => now,
    }
}

/// Each stamp of `s` is at most the ones after it.
pub open spec fn non_decreasing(s: Seq<i64>) -> bool {
    forall|i: int, j: int| 0 <= i <= j < s.len() ==> s[i] <= s[j]
}

/// The state of an event dump.
pub struct EventDump {
    /// Whether diagnostic events are let through.
    pub show_diagnostics: bool,
    /// The stamp of the last item let through, if any.
    pub last_stamp: Option<i64>,
    /// The stamps of all items let through so far, in order.
    pub stamps: Ghost<Seq<i64>>,
}

impl EventDump {
    /// The stamps given so far are in order, and the last one is kept.
    pub open spec fn wf(&self) -> bool {
        &&& non_decreasing(self.stamps@)
        &&& self.last_stamp == if self.stamps@.len() == 0 {
            None
        } else {
            Some(self.stamps@.last())
        }
    }

    /// A dump that has let nothing through yet.
    pub fn new(show_diagnostics: bool) -> (r: EventDump)
        ensures
            r.wf(),
            r.show_diagnostics == show_diagnostics,
            r.stamps@ == Seq::<i64>::empty(),
    {
        EventDump { show_diagnostics, last_stamp: None, stamps: Ghost(Seq::empty()) }
    }

    /// Whether an item of the kind `kind` is let through.
    pub fn accepts(&self, kind: ItemKind) -> (r: bool)
        ensures
            r == accepts(kind, self.show_diagnostics),
    {
        !matches!(kind, ItemKind::Diagnostic) || self.show_diagnostics
    }

    /// Takes an item of the kind `kind`, pulled when the clock read `now`: an
    /// item that the filter drops gets nothing and changes nothing; any other
    /// gets exactly one stamp, not before the stamp before it.
    pub fn on_item(&mut self, kind: ItemKind, now: i64) -> (r: Option<Emit>)
        requires
            old(self).wf(),
        ensures
            final(self).wf(),
            final(self).show_diagnostics == old(self).show_diagnostics,
            accepts(kind, old(self).show_diagnostics) ==> {
                let t = next_stamp(old(self).last_stamp, now);
                &&& r == Some(Emit { stamp: t, severity: severity_of(kind) })
                &&& final(self).stamps@ == old(self).stamps@.push(t)
            },
            !accepts(kind, old(self).show_diagnostics) ==> r is None && *final(self) == *old(self),
            r matches Some(e) ==> (old(self).last_stamp matches Some(p) ==> p <= e.stamp),
    {
        if !self.accepts(kind) {
            return None;
        }
        let stamp = match self.last_stamp {
            Some(p) if p > now => p,
            _ => now,
        };
        let severity = match kind {
            ItemKind::Diagnostic | ItemKind::Event => Severity::Info,
            ItemKind::Unrecognized => Severity::Debug,
            ItemKind::Failure => Severity::Error,
        };
        self.last_stamp = Some(stamp);
        self.stamps = Ghost(self.stamps@.push(stamp));
        Some(Emit { stamp, severity })
    }

    /// Takes an item of the kind `kind`: the clock is read only for an item
    /// that the filter lets through, so a dropped item is never stamped.
    pub fn on_item_now(&mut self, kind: ItemKind) -> (r: Option<Emit>)
        requires
            old(self).wf(),
        ensures
            final(self).wf(),
            final(self).show_diagnostics == old(self).show_diagnostics,
            r is Some <==> accepts(kind, old(self).show_diagnostics),
            r matches Some(e) ==> {
                &&& e.severity == severity_of(kind)
                &&& final(self).stamps@ == old(self).stamps@.push(e.stamp)
                &&& (old(self).last_stamp matches Some(p) ==> p <= e.stamp)
            },
            r is None ==> *final(self) == *old(self),
    {
        if !self.accepts(kind) {
            return None;
        }
        let now = now_micros();
        self.on_item(kind, now)
    }
}

/// The stamps that a dump gives to the items `items`, each a kind with the
/// clock reading at which it was pulled, after the stamp `last`.
pub open spec fn stamps_of(show_diagnostics: bool, last: Option<i64>, items: Seq<(ItemKind, i64)>) -> Seq<i64>
    decreases items.len(),
{
    if items.len() == 0 {
        Seq::empty()
    } else {
        let (kind, now) = items[0];
        if accepts(kind, show_diagnostics) {
            let t = next_stamp(last, now);
            seq![t] + stamps_of(show_diagnostics, Some(t), items.drop_first())
        } else {
            stamps_of(show_diagnostics, last, items.drop_first())
        }
    }
}

/// How many of the items `items` the filter lets through.
pub open spec fn accepted_count(show_diagnostics: bool, items: Seq<(ItemKind, i64)>) -> nat
    decreases items.len(),
{
    if items.len() == 0 {
        0
    } else {
        (if accepts(items[0].0, show_diagnostics) { 1nat } else { 0nat }) + accepted_count(
            show_diagnostics,
            items.drop_first(),
        )
    }
}

/// Over any run of items and clock readings, each item that the filter lets
/// through gets exactly one stamp, and each stamp is at least the one before
/// it, whatever the clock did.
pub proof fn lemma_stamps_in_order(show_diagnostics: bool, last: Option<i64>, items: Seq<(ItemKind, i64)>)
    ensures
        stamps_of(show_diagnostics, last, items).len() == accepted_count(show_diagnostics, items),
        non_decreasing(stamps_of(show_diagnostics, last, items)),
        forall|i: int|
            0 <= i < stamps_of(show_diagnostics, last, items).len() ==> (last matches Some(p) ==> p
                <= #[trigger] stamps_of(show_diagnostics, last, items)[i]),
    decreases items.len(),
{
    if items.len() > 0 {
        let (kind, now) = items[0];
        let rest = items.drop_first();
        if accepts(kind, show_diagnostics) {
            let t = next_stamp(last, now);
            lemma_stamps_in_order(show_diagnostics, Some(t), rest);
            let tail = stamps_of(show_diagnostics, Some(t), rest);
            let s = seq![t] + tail;
            assert forall|i: int, j: int| 0 <= i <= j < s.len() implies s[i] <= s[j] by {
                if i > 0 {
                    assert(s[i] == tail[i - 1] && s[j] == tail[j - 1]);
                } else if j > 0 {
                    assert(s[j] == tail[j - 1]);
                }
            }
            assert forall|i: int| 0 <= i < s.len() implies (last matches Some(p) ==> p <= #[trigger] s[i]) by {
                if i > 0 {
                    assert(s[i] == tail[i - 1]);
                }
            }
        } else {
            lemma_stamps_in_order(show_diagnostics, last, rest);
        }
    }
}

} // verus!
