//! A native QoS, asked and changed policy by policy.
use vstd::prelude::*;

use crate::json::{add_member, members_view, JsonValue, JsonView};
use crate::qos::{
    DurabilityKind, NativeDurabilityService, NativeQos, NativeQosView, DDS_INFINITE_TIME, IGNORE_LOCAL_PARTICIPANT,
};
use crate::text::clone_strings;

verus! {

/// A native QoS.
#[derive(Debug, PartialEq, Eq)]
pub struct QosHolder(pub NativeQos);

impl View for QosHolder {
    type V = NativeQosView;

    open spec fn view(&self) -> NativeQosView {
        self.0@
    }
}

/// The name of a kind in JSON: one of `names` by its number, or the number itself.
pub open spec fn kind_json(names: Seq<Seq<char>>, kind: u32) -> JsonView {
    if kind < names.len() {
        JsonView::Text(names[kind as int])
    } else {
        JsonView::Number(kind as int)
    }
}

/// What stands in JSON for a policy that cannot be had.
pub open spec fn failed_json() -> JsonView {
    JsonView::Text("FAILED TO RETRIEVE"@)
}

/// The durability in JSON.
pub open spec fn durability_json(durability: Option<u32>) -> JsonView {
    match durability {
        Some(kind) => JsonView::Object(
            seq![("kind"@, kind_json(seq!["VOLATILE"@, "TRANSIENT_LOCAL"@, "TRANSIENT"@, "PERSISTENT"@], kind))],
        ),
        None => failed_json(),
    }
}

/// The reliability in JSON.
pub open spec fn reliability_json(reliability: Option<(u32, i64)>) -> JsonView {
    match reliability {
        Some((kind, time)) => JsonView::Object(
            seq![
                ("kind"@, kind_json(seq!["BEST_EFFORT"@, "RELIABLE"@], kind)),
                ("max_blocking_time"@, JsonView::Number(time as int)),
            ],
        ),
        None => failed_json(),
    }
}

/// The deadline in JSON; one that never comes where none is known.
pub open spec fn deadline_json(deadline: Option<i64>) -> JsonView {
    let period = match deadline {
        Some(period) => period,
        None => DDS_INFINITE_TIME,
    };
    JsonView::Object(seq![("period"@, JsonView::Number(period as int))])
}

/// The latency budget in JSON; none where none is known.
pub open spec fn latency_budget_json(latency_budget: Option<i64>) -> JsonView {
    let duration = match latency_budget {
        Some(duration) => duration,
        None => 0,
    };
    JsonView::Object(seq![("duration"@, JsonView::Number(duration as int))])
}

/// The ownership in JSON.
pub open spec fn ownership_json(ownership: Option<u32>) -> JsonView {
    match ownership {
        Some(kind) => JsonView::Object(seq![("kind"@, kind_json(seq!["SHARED"@, "EXCLUSIVE"@], kind))]),
        None => failed_json(),
    }
}

/// The liveliness in JSON.
pub open spec fn liveliness_json(liveliness: Option<(u32, i64)>) -> JsonView {
    match liveliness {
        Some((kind, lease)) => JsonView::Object(
            seq![
                ("kind"@, kind_json(seq!["AUTOMATIC"@, "MANUAL_BY_PARTICIPANT"@, "MANUAL_BY_TOPIC"@], kind)),
                ("lease_duration"@, JsonView::Number(lease as int)),
            ],
        ),
        None => failed_json(),
    }
}

/// The destination order in JSON.
pub open spec fn destination_order_json(destination_order: Option<u32>) -> JsonView {
    match destination_order {
        Some(kind) => JsonView::Object(
            seq![("kind"@, kind_json(seq!["BY_RECEPTION_TIMESTAMP"@, "BY_SOURCE_TIMESTAMP"@], kind))],
        ),
        None => failed_json(),
    }
}

/// The JSON object of the policies that are shown, in their order.
pub open spec fn holder_json(qos: NativeQosView) -> JsonView {
    JsonView::Object(
        seq![
            ("durability"@, durability_json(qos.durability)),
            ("reliability"@, reliability_json(qos.reliability)),
            ("deadline"@, deadline_json(qos.deadline)),
            ("latency_budget"@, latency_budget_json(qos.latency_budget)),
            ("ownership"@, ownership_json(qos.ownership)),
            ("liveliness"@, liveliness_json(qos.liveliness)),
            ("destination_order"@, destination_order_json(qos.destination_order)),
        ],
    )
}

fn text_json(text: &str) -> (value: JsonValue)
    ensures
        value@ == JsonView::Text(text@),
{
    JsonValue::Text(String::from_str(text))
}

fn number_json(number: i64) -> (value: JsonValue)
    ensures
        value@ == JsonView::Number(number as int),
{
    JsonValue::Number(number)
}

/// An object of one member.
fn object_of_one(name: &str, value: JsonValue) -> (object: JsonValue)
    ensures
        object@ == JsonView::Object(seq![(name@, value@)]),
{
    let mut members: Vec<(String, JsonValue)> = Vec::new();
    add_member(&mut members, name, value);
    assert(members_view(members@) =~= seq![(name@, value@)]);
    JsonValue::Object(members)
}

/// An object of two members.
fn object_of_two(name: &str, value: JsonValue, second_name: &str, second: JsonValue) -> (object: JsonValue)
    ensures
        object@ == JsonView::Object(seq![(name@, value@), (second_name@, second@)]),
{
    let mut members: Vec<(String, JsonValue)> = Vec::new();
    add_member(&mut members, name, value);
    add_member(&mut members, second_name, second);
    assert(members_view(members@) =~= seq![(name@, value@), (second_name@, second@)]);
    JsonValue::Object(members)
}

fn durability_to_json(durability: Option<u32>) -> (json: JsonValue)
    ensures
        json@ == durability_json(durability),
{
    match durability {
        Some(kind) => {
            let name: JsonValue = match kind {
                0 => text_json("VOLATILE"),
                1 => text_json("TRANSIENT_LOCAL"),
                2 => text_json("TRANSIENT"),
                3 => text_json("PERSISTENT"),
                other => number_json(other as i64),
            };
            object_of_one("kind", name)
        },
        None => text_json("FAILED TO RETRIEVE"),
    }
}

fn reliability_to_json(reliability: Option<(u32, i64)>) -> (json: JsonValue)
    ensures
        json@ == reliability_json(reliability),
{
    match reliability {
        Some((kind, time)) => {
            let name: JsonValue = match kind {
                0 => text_json("BEST_EFFORT"),
                1 => text_json("RELIABLE"),
                other => number_json(other as i64),
            };
            object_of_two("kind", name, "max_blocking_time", number_json(time))
        },
        None => text_json("FAILED TO RETRIEVE"),
    }
}

fn deadline_to_json(deadline: Option<i64>) -> (json: JsonValue)
    ensures
        json@ == deadline_json(deadline),
{
    let period: i64 = match deadline {
        Some(period) => period,
        None => DDS_INFINITE_TIME,
    };
    object_of_one("period", number_json(period))
}

fn latency_budget_to_json(latency_budget: Option<i64>) -> (json: JsonValue)
    ensures
        json@ == latency_budget_json(latency_budget),
{
    let duration: i64 = match latency_budget {
        Some(duration) => duration,
        None => 0,
    };
    object_of_one("duration", number_json(duration))
}

fn ownership_to_json(ownership: Option<u32>) -> (json: JsonValue)
    ensures
        json@ == ownership_json(ownership),
{
    match ownership {
        Some(kind) => {
            let name: JsonValue = match kind {
                0 => text_json("SHARED"),
                1 => text_json("EXCLUSIVE"),
                other => number_json(other as i64),
            };
            object_of_one("kind", name)
        },
        None => text_json("FAILED TO RETRIEVE"),
    }
}

fn liveliness_to_json(liveliness: Option<(u32, i64)>) -> (json: JsonValue)
    ensures
        json@ == liveliness_json(liveliness),
{
    match liveliness {
        Some((kind, lease)) => {
            let name: JsonValue = match kind {
                0 => text_json("AUTOMATIC"),
                1 => text_json("MANUAL_BY_PARTICIPANT"),
                2 => text_json("MANUAL_BY_TOPIC"),
                other => number_json(other as i64),
            };
            object_of_two("kind", name, "lease_duration", number_json(lease))
        },
        None => text_json("FAILED TO RETRIEVE"),
    }
}

fn destination_order_to_json(destination_order: Option<u32>) -> (json: JsonValue)
    ensures
        json@ == destination_order_json(destination_order),
{
    match destination_order {
        Some(kind) => {
            let name: JsonValue = match kind {
                0 => text_json("BY_RECEPTION_TIMESTAMP"),
                1 => text_json("BY_SOURCE_TIMESTAMP"),
                other => number_json(other as i64),
            };
            object_of_one("kind", name)
        },
        None => text_json("FAILED TO RETRIEVE"),
    }
}

impl QosHolder {
    /// Whether the durability is known to be transient-local.
    pub fn is_transient_local(&self) -> (b: bool)
        ensures
            b == (self@.durability == Some(DurabilityKind::TRANSIENT_LOCAL.number())),
    {
        match self.0.durability {
            Some(kind) => kind == DurabilityKind::TRANSIENT_LOCAL.to_native(),
            None => false,
        }
    }

    /// The kind and the depth of the history; the last sample where it is not known.
    pub fn get_history(&self) -> (history: (u32, i32))
        ensures
            history == (match self@.history {
                Some(value) => value,
                None => (0u32, 1i32),
            }),
    {
        match self.0.history {
            Some(value) => value,
            None => (0, 1),
        }
    }

    /// Sets the history.
    pub fn set_history(&mut self, kind: u32, depth: i32)
        ensures
            final(self)@ == (NativeQosView { history: Some((kind, depth)), ..old(self)@ }),
    {
        self.0.history = Some((kind, depth));
    }

    /// Lets what the same participant writes be ignored.
    pub fn set_ignore_local_participant(&mut self)
        ensures
            final(self)@ == (NativeQosView { ignore_local: Some(IGNORE_LOCAL_PARTICIPANT), ..old(self)@ }),
    {
        self.0.ignore_local = Some(IGNORE_LOCAL_PARTICIPANT);
    }

    /// Sets the durability service; `service_cleanup_delay` is in nanoseconds.
    pub fn set_durability_service(
        &mut self,
        service_cleanup_delay: u128,
        history_kind: u32,
        history_depth: i32,
        max_samples: i32,
        max_instances: i32,
        max_samples_per_instance: i32,
    )
        ensures
            final(self)@ == (NativeQosView {
                durability_service: Some(
                    NativeDurabilityService {
                        service_cleanup_delay: service_cleanup_delay as i64,
                        history_kind,
                        history_depth,
                        max_samples,
                        max_instances,
                        max_samples_per_instance,
                    },
                ),
                ..old(self)@
            }),
    {
        #[verifier::truncate]
        let delay: i64 = service_cleanup_delay as i64;
        self.0.durability_service = Some(
            NativeDurabilityService {
                service_cleanup_delay: delay,
                history_kind,
                history_depth,
                max_samples,
                max_instances,
                max_samples_per_instance,
            },
        );
    }

    /// Lets a reliable writer block one nanosecond longer, unless it blocks for ever.
    pub fn inc_reliability_max_blocking_time(&mut self)
        ensures
            final(self)@ == (NativeQosView {
                reliability: match old(self)@.reliability {
                    Some((kind, time)) if time < DDS_INFINITE_TIME => Some((kind, (time + 1) as i64)),
                    other => other,
                },
                ..old(self)@
            }),
    {
        if let Some((kind, time)) = self.0.reliability {
            if time < DDS_INFINITE_TIME {
                self.0.reliability = Some((kind, time + 1));
            }
        }
    }

    /// The policies as a JSON object.
    pub fn to_json(&self) -> (json: JsonValue)
        ensures
            json@ == holder_json(self@),
    {
        let mut members: Vec<(String, JsonValue)> = Vec::new();
        add_member(&mut members, "durability", durability_to_json(self.0.durability));
        add_member(&mut members, "reliability", reliability_to_json(self.0.reliability));
        add_member(&mut members, "deadline", deadline_to_json(self.0.deadline));
        add_member(&mut members, "latency_budget", latency_budget_to_json(self.0.latency_budget));
        add_member(&mut members, "ownership", ownership_to_json(self.0.ownership));
        add_member(&mut members, "liveliness", liveliness_to_json(self.0.liveliness));
        add_member(&mut members, "destination_order", destination_order_to_json(self.0.destination_order));
        assert(members_view(members@) =~= holder_json(self@)->Object_0);
        JsonValue::Object(members)
    }
}

impl Clone for QosHolder {
    fn clone(&self) -> (copy: QosHolder)
        ensures
            copy@ == self@,
    {
        QosHolder(
            NativeQos {
                reliability: self.0.reliability,
                durability: self.0.durability,
                durability_service: self.0.durability_service,
                deadline: self.0.deadline,
                latency_budget: self.0.latency_budget,
                ownership: self.0.ownership,
                liveliness: self.0.liveliness,
                destination_order: self.0.destination_order,
                history: self.0.history,
                partitions: match &self.0.partitions {
                    Some(list) => Some(clone_strings(list)),
                    None => None,
                },
                userdata: match &self.0.userdata {
                    Some(bytes) => Some(crate::qos::clone_bytes(bytes)),
                    None => None,
                },
                ignore_local: self.0.ignore_local,
            },
        )
    }
}

} // verus!
