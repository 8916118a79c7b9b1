//! The events that report what an operation did.
//!
//! Each successful change returns `cosmwasm_std::Event` values: a type and an
//! ordered list of attributes, all text. An `EventView` is what such an event
//! says, and the functions here state which event each change reports.

use vstd::prelude::*;
use cosmwasm_std::Event;

verus! {

/// The event type of `cosmwasm_std`.
#[verifier::external_type_specification]
#[verifier::external_body]
pub struct ExEvent(Event);

/// The type of an event (its field `ty`).
pub uninterp spec fn event_kind(event: Event) -> Seq<char>;

/// The attributes of an event, in order, each as key and value.
pub uninterp spec fn event_attrs(event: Event) -> Seq<(Seq<char>, Seq<char>)>;

/// What an event says: its type and its attributes in order.
pub struct EventView {
    pub kind: Seq<char>,
    pub attrs: Seq<(Seq<char>, Seq<char>)>,
}

/// What `event` says.
pub open spec fn event_view(event: Event) -> EventView {
    EventView { kind: event_kind(event), attrs: event_attrs(event) }
}

/// What each event of a list says, in order.
pub open spec fn event_views(events: Seq<Event>) -> Seq<EventView> {
    events.map_values(|e: Event| event_view(e))
}

/// The decimal digit for a number below ten.
pub open spec fn digit(d: nat) -> char {
    if d == 0 {
        '0'
    } else if d == 1 {
        '1'
    } else if d == 2 {
        '2'
    } else if d == 3 {
        '3'
    } else if d == 4 {
        '4'
    } else if d == 5 {
        '5'
    } else if d == 6 {
        '6'
    } else if d == 7 {
        '7'
    } else if d == 8 {
        '8'
    } else {
        '9'
    }
}

/// A number written in decimal, without sign or leading zeros.
pub open spec fn decimal(n: nat) -> Seq<char>
    decreases n,
{
    if n < 10 {
        seq![digit(n)]
    } else {
        decimal(n / 10).push(digit(n % 10))
    }
}

/// The event that reports a new entry on the allow list.
pub open spec fn add_allow_list_view(addr: Seq<char>) -> EventView {
    EventView { kind: "add-allow-list"@, attrs: seq![("addr"@, addr)] }
}

/// The event that reports an address taken off the allow list.
pub open spec fn remove_allow_list_view(addr: Seq<char>) -> EventView {
    EventView { kind: "remove-allow-list"@, attrs: seq![("addr"@, addr)] }
}

/// The event that reports a newly opened stage.
pub open spec fn prepare_stage_view(stage: u64) -> EventView {
    EventView { kind: "prepare-stage"@, attrs: seq![("stage"@, decimal(stage as nat))] }
}

/// The event that reports a stage made final.
pub open spec fn finalize_stage_view(stage: u64) -> EventView {
    EventView { kind: "finalize-stage"@, attrs: seq![("stage"@, decimal(stage as nat))] }
}

/// The event that reports a changed score together with the stage total.
pub open spec fn update_score_view(
    addr: Seq<char>,
    stage: u64,
    score: u64,
    total_score: u64,
) -> EventView {
    EventView {
        kind: "update-score"@,
        attrs: seq![
            ("addr"@, addr),
            ("stage"@, decimal(stage as nat)),
            ("score"@, decimal(score as nat)),
            ("total_score"@, decimal(total_score as nat)),
        ],
    }
}

/// `Event::new`: an event of the given type without attributes.
#[verifier::external_body]
pub(crate) fn event_new(ty: &str) -> (event: Event)
    ensures
        event_kind(event) == ty@,
        event_attrs(event) == Seq::<(Seq<char>, Seq<char>)>::empty(),
{
    Event::new(ty)
}

/// `Event::add_attribute`: the same event with one more attribute at the end.
#[verifier::external_body]
pub(crate) fn event_add_attribute(event: Event, key: &str, value: &str) -> (r: Event)
    ensures
        event_kind(r) == event_kind(event),
        event_attrs(r) == event_attrs(event).push((key@, value@)),
{
    event.add_attribute(key, value)
}

/// `u64::to_string`: the number in decimal.
#[verifier::external_body]
pub(crate) fn u64_to_string(n: u64) -> (r: String)
    ensures
        r@ == decimal(n as nat),
{
    n.to_string()
}

/// An event of type `ty` with the one attribute `key`.
fn single_attribute_event(ty: &str, key: &str, value: &str) -> (event: Event)
    ensures
        event_view(event) == (EventView { kind: ty@, attrs: seq![(key@, value@)] }),
{
    let event = event_add_attribute(event_new(ty), key, value);
    assert(event_attrs(event) =~= seq![(key@, value@)]);
    event
}

/// The event for a new entry on the allow list.
pub fn generate_add_allow_list_event(addr: &str) -> (event: Event)
    ensures
        event_view(event) == add_allow_list_view(addr@),
{
    single_attribute_event("add-allow-list", "addr", addr)
}

/// The event for an address taken off the allow list.
pub fn generate_remove_allow_list_event(addr: &str) -> (event: Event)
    ensures
        event_view(event) == remove_allow_list_view(addr@),
{
    single_attribute_event("remove-allow-list", "addr", addr)
}

/// The event for a newly opened stage.
pub fn generate_prepare_stage_event(stage: u64) -> (event: Event)
    ensures
        event_view(event) == prepare_stage_view(stage),
{
    let number = u64_to_string(stage);
    single_attribute_event("prepare-stage", "stage", number.as_str())
}

/// The event for a stage made final.
pub fn generate_finalize_stage_event(stage: u64) -> (event: Event)
    ensures
        event_view(event) == finalize_stage_view(stage),
{
    let number = u64_to_string(stage);
    single_attribute_event("finalize-stage", "stage", number.as_str())
}

/// The event for a changed score: the user, the stage, the user's new score
/// and the stage's new total, in this order.
pub fn generate_update_score_event(addr: &str, stage: u64, new_score: u64, total_score: u64) -> (event:
    Event)
    ensures
        event_view(event) == update_score_view(addr@, stage, new_score, total_score),
{
    let stage_text = u64_to_string(stage);
    let score_text = u64_to_string(new_score);
    let total_text = u64_to_string(total_score);
    let event = event_new("update-score");
    let event = event_add_attribute(event, "addr", addr);
    let event = event_add_attribute(event, "stage", stage_text.as_str());
    let event = event_add_attribute(event, "score", score_text.as_str());
    let event = event_add_attribute(event, "total_score", total_text.as_str());
    assert(event_attrs(event) =~= update_score_view(addr@, stage, new_score, total_score).attrs);
    event
}

} // verus!
