//! What is answered where gateways and routes change and nothing is deployed for them.
use vstd::prelude::*;
use crate::common::address::{DeployedGatewayStatus, DeployedGatewayStatusView};
use crate::common::contexts::{
    GatewayResponse,
    GatewayResponseView,
    RouteProcessedPayload,
    RouteProcessedPayloadView,
};
use crate::common::gateway::{Gateway, GatewayView};
use crate::common::route::RouteStatus;
use crate::lists::no_items;
use crate::model::Model;
use crate::text::cat;

verus! {

/// A change of a gateway or of a route of a gateway.
#[derive(Debug)]
pub enum BackendGatewayEvent {
    GatewayChanged(Gateway),
    GatewayDeleted(Gateway),
    RouteChanged(Gateway),
}

/// What a [`BackendGatewayEvent`] holds.
#[verifier::ext_equal]
pub enum BackendGatewayEventView {
    GatewayChanged(GatewayView),
    GatewayDeleted(GatewayView),
    RouteChanged(GatewayView),
}

impl DeepView for BackendGatewayEvent {
    type V = BackendGatewayEventView;

    open spec fn deep_view(&self) -> BackendGatewayEventView {
        match self {
            BackendGatewayEvent::GatewayChanged(x0) => BackendGatewayEventView::GatewayChanged(x0.deep_view()),
            BackendGatewayEvent::GatewayDeleted(x0) => BackendGatewayEventView::GatewayDeleted(x0.deep_view()),
            BackendGatewayEvent::RouteChanged(x0) => BackendGatewayEventView::RouteChanged(x0.deep_view()),
        }
    }
}

impl Model for BackendGatewayEvent {
    fn dup(&self) -> (r: Self) {
        match self {
            BackendGatewayEvent::GatewayChanged(x0) => BackendGatewayEvent::GatewayChanged(x0.dup()),
            BackendGatewayEvent::GatewayDeleted(x0) => BackendGatewayEvent::GatewayDeleted(x0.dup()),
            BackendGatewayEvent::RouteChanged(x0) => BackendGatewayEvent::RouteChanged(x0.dup()),
        }
    }

    fn same(&self, other: &Self) -> (r: bool) {
        match (self, other) {
            (BackendGatewayEvent::GatewayChanged(x0), BackendGatewayEvent::GatewayChanged(x0_)) => x0.same(x0_),
            (BackendGatewayEvent::GatewayDeleted(x0), BackendGatewayEvent::GatewayDeleted(x0_)) => x0.same(x0_),
            (BackendGatewayEvent::RouteChanged(x0), BackendGatewayEvent::RouteChanged(x0_)) => x0.same(x0_),
            _ => false,
        }
    }
}

impl BackendGatewayEventView {
    /// The text that the change is shown by. `detail` is what is shown of all that is in a gateway.
    pub open spec fn shown(self, detail: Seq<char>) -> Seq<char> {
        match self {
            BackendGatewayEventView::GatewayChanged(gateway) =>
                "GatewayEvent::GatewayChanged\n                "@ + gateway.shown(),
            BackendGatewayEventView::GatewayDeleted(_) =>
                "GatewayEvent::GatewayDeleted\n                gateway "@ + detail,
            BackendGatewayEventView::RouteChanged(gateway) =>
                "GatewayEvent::RouteChanged                 \n                    "@
                    + gateway.shown(),
        }
    }
}

impl BackendGatewayEvent {
    /// The text that the change is shown by.
    pub fn to_text(&self, detail: &str) -> (r: String)
        ensures
            r@ == self.deep_view().shown(detail@),
    {
        match self {
            BackendGatewayEvent::GatewayChanged(gateway) => {
                let text = gateway.to_text();
                cat("GatewayEvent::GatewayChanged\n                ", text.as_str())
            },
            BackendGatewayEvent::GatewayDeleted(_) => cat(
                "GatewayEvent::GatewayDeleted\n                gateway ",
                detail,
            ),
            BackendGatewayEvent::RouteChanged(gateway) => {
                let text = gateway.to_text();
                cat(
                    "GatewayEvent::RouteChanged                 \n                    ",
                    text.as_str(),
                )
            },
        }
    }
}

/// What a change is answered: the gateway as it is, that it was deleted, or that the route is attached
/// to it.
pub open spec fn answer_to(event: BackendGatewayEventView) -> GatewayResponseView {
    match event {
        BackendGatewayEventView::GatewayChanged(gateway) => GatewayResponseView::GatewayProcessed(
            gateway,
        ),
        BackendGatewayEventView::GatewayDeleted(_) => GatewayResponseView::GatewayDeleted(
            Seq::empty(),
        ),
        BackendGatewayEventView::RouteChanged(gateway) => GatewayResponseView::RouteProcessed(
            RouteProcessedPayloadView {
                route_status: RouteStatus::Attached,
                deployed_gateway_status: DeployedGatewayStatusView {
                    id: gateway.id,
                    name: gateway.resource_key.name,
                    namespace: gateway.resource_key.namespace,
                    attached_addresses: Seq::empty(),
                },
            },
        ),
    }
}

/// Answers a change.
pub fn answer(event: BackendGatewayEvent) -> (r: GatewayResponse)
    ensures
        r.deep_view() == answer_to(event.deep_view()),
{
    match event {
        BackendGatewayEvent::GatewayChanged(gateway) => GatewayResponse::GatewayProcessed(gateway),
        BackendGatewayEvent::GatewayDeleted(_) => GatewayResponse::GatewayDeleted(no_items()),
        BackendGatewayEvent::RouteChanged(gateway) => GatewayResponse::RouteProcessed(
            RouteProcessedPayload::new(
                RouteStatus::Attached,
                DeployedGatewayStatus {
                    id: gateway.id(),
                    name: gateway.name().to_owned(),
                    namespace: gateway.namespace().to_owned(),
                    attached_addresses: no_items(),
                },
            ),
        ),
    }
}

/// A change is answered with the gateway as it is; a deletion with no routes; a change of a route with
/// what is known of the gateway that the route is attached to.
pub proof fn law_answer(gateway: GatewayView)
    ensures
        answer_to(BackendGatewayEventView::GatewayChanged(gateway))
            == GatewayResponseView::GatewayProcessed(gateway),
        answer_to(BackendGatewayEventView::GatewayDeleted(gateway)) is GatewayDeleted,
        answer_to(BackendGatewayEventView::GatewayDeleted(gateway))->GatewayDeleted_0.len() == 0,
        ({
            let answer = answer_to(BackendGatewayEventView::RouteChanged(gateway));
            &&& answer is RouteProcessed
            &&& answer->RouteProcessed_0.route_status == RouteStatus::Attached
            &&& answer->RouteProcessed_0.deployed_gateway_status.id == gateway.id
            &&& answer->RouteProcessed_0.deployed_gateway_status.name == gateway.resource_key.name
            &&& answer->RouteProcessed_0.deployed_gateway_status.namespace
                == gateway.resource_key.namespace
            &&& answer->RouteProcessed_0.deployed_gateway_status.attached_addresses.len() == 0
        }),
{
}

/// A change is shown by its kind, and by its gateway or by all that is in it.
pub proof fn law_change_is_shown(gateway: GatewayView, detail: Seq<char>)
    ensures
        BackendGatewayEventView::GatewayChanged(gateway).shown(detail)
            == "GatewayEvent::GatewayChanged\n                "@ + gateway.shown(),
        BackendGatewayEventView::GatewayDeleted(gateway).shown(detail)
            == "GatewayEvent::GatewayDeleted\n                gateway "@ + detail,
        BackendGatewayEventView::RouteChanged(gateway).shown(detail)
            == "GatewayEvent::RouteChanged                 \n                    "@
            + gateway.shown(),
{
}

} // verus!
