//! Request-level decisions of the chat endpoint: who is billed, which lane
//! serves, and which legs it may use.
use vstd::prelude::*;

use crate::error::{GatewayError, GatewayErrorView};
use crate::routing::request::{classify, lane_of, ChatRequest, Lane};
use crate::routing::table::{ChainLeg, LegView, RouteTable};
use crate::text::text_eq;

verus! {

/// Who a request is attributed to.
#[derive(Debug, Clone)]
pub struct TenantCtx {
    pub tenant: String,
    pub workspace: Option<String>,
}

impl TenantCtx {
    /// The `x-synapse-tenant` header names the tenant, else the default one;
    /// `x-synapse-workspace` names the workspace, if sent.
    pub fn resolve(
        tenant_header: Option<String>,
        workspace_header: Option<String>,
        default_tenant: &str,
    ) -> (r: TenantCtx)
        ensures
            r.tenant@ == (match tenant_header {
                Some(t) => t@,
                None => default_tenant@,
            }),
            r.workspace == workspace_header,
    {
        let tenant = match tenant_header {
            Some(t) => t,
            None => String::from_str(default_tenant),
        };
        TenantCtx { tenant, workspace: workspace_header }
    }
}

/// How a chat request will be served.
#[derive(Debug)]
pub enum Dispatch {
    /// Walk these legs on the standard lane.
    Standard { legs: Vec<ChainLeg> },
    /// Call the native Vertex lane with this leg's model.
    Native { leg: ChainLeg },
}

/// A dispatch as plain values.
pub enum DispatchView {
    Standard(Seq<LegView>),
    Native(LegView),
}

impl View for Dispatch {
    type V = DispatchView;

    open spec fn view(&self) -> DispatchView {
        match self {
            Dispatch::Standard { legs } => DispatchView::Standard(legs.deep_view()),
            Dispatch::Native { leg } => DispatchView::Native(leg@),
        }
    }
}

/// The position of the first leg with the given provider, if any.
pub open spec fn first_leg_of(legs: Seq<LegView>, provider: Seq<char>) -> Option<int>
    decreases legs.len(),
{
    if legs.len() == 0 {
        None
    } else if legs[0].provider == provider {
        Some(0)
    } else {
        match first_leg_of(legs.drop_first(), provider) {
            Some(i) => Some(i + 1),
            None => None,
        }
    }
}

/// The first leg with a provider is in range and has that provider; no
/// earlier leg has it.
pub proof fn lemma_first_leg_of(legs: Seq<LegView>, provider: Seq<char>)
    ensures
        first_leg_of(legs, provider) matches Some(i) ==> {
            &&& 0 <= i < legs.len()
            &&& legs[i].provider == provider
            &&& forall|j: int| 0 <= j < i ==> (#[trigger] legs[j]).provider != provider
        },
        first_leg_of(legs, provider) is None ==> forall|j: int|
            0 <= j < legs.len() ==> (#[trigger] legs[j]).provider != provider,
    decreases legs.len(),
{
    if legs.len() > 0 && legs[0].provider != provider {
        lemma_first_leg_of(legs.drop_first(), provider);
        assert forall|j: int| 1 <= j < legs.len() implies legs[j] == legs.drop_first()[j - 1] by {}
    }
}

/// The decision: an unknown alias is refused; a standard request walks all
/// of its route's legs; a native request takes the route's first `vertex`
/// leg, and needs such a leg and a configured native lane.
pub open spec fn spec_dispatch(
    routes: Map<Seq<char>, Seq<LegView>>,
    req: ChatRequest,
    native_configured: bool,
) -> Result<DispatchView, GatewayErrorView> {
    if !routes.contains_key(req.model@) {
        Err(GatewayErrorView::UnknownModel(req.model@))
    } else {
        let legs = routes[req.model@];
        match lane_of(req) {
            Lane::Standard => Ok(DispatchView::Standard(legs)),
            Lane::NativeVertex => match first_leg_of(legs, "vertex"@) {
                None => Err(
                    GatewayErrorView::NativeFeatureUnsupported {
                        feature: "native-vertex"@,
                        route: req.model@,
                    },
                ),
                Some(i) => if native_configured {
                    Ok(DispatchView::Native(legs[i]))
                } else {
                    Err(GatewayErrorView::BadRequest("native vertex lane not configured"@))
                },
            },
        }
    }
}

/// A request without a `vertex` block, for a known alias, is served on the
/// standard lane with every leg of its route, in order, whatever its messages
/// and whether or not the native lane is configured.
pub proof fn law_standard_requests_get_all_legs(
    routes: Map<Seq<char>, Seq<LegView>>,
    req: ChatRequest,
    native_configured: bool,
)
    requires
        req.vertex is None,
        routes.contains_key(req.model@),
    ensures
        spec_dispatch(routes, req, native_configured) == Ok::<DispatchView, GatewayErrorView>(
            DispatchView::Standard(routes[req.model@]),
        ),
{
}

/// A request for an alias the table lacks is refused as an unknown model,
/// whatever its lane.
pub proof fn law_unknown_alias_refused(
    routes: Map<Seq<char>, Seq<LegView>>,
    req: ChatRequest,
    native_configured: bool,
)
    requires
        !routes.contains_key(req.model@),
    ensures
        spec_dispatch(routes, req, native_configured) == Err::<DispatchView, GatewayErrorView>(
            GatewayErrorView::UnknownModel(req.model@),
        ),
{
}

/// A copy of a list of legs.
fn copy_legs(legs: &[ChainLeg]) -> (r: Vec<ChainLeg>)
    ensures
        r.deep_view() == legs.deep_view(),
{
    let mut out: Vec<ChainLeg> = Vec::new();
    let mut i: usize = 0;
    while i < legs.len()
        invariant
            i <= legs@.len(),
            out.deep_view() == legs.deep_view().take(i as int),
        decreases legs@.len() - i,
    {
        let leg = legs[i].duplicate();
        let ghost prev = out.deep_view();
        out.push(leg);
        proof {
            assert(out.deep_view() =~= prev.push(leg@));
            assert(legs.deep_view().take(i + 1) =~= legs.deep_view().take(i as int).push(
                legs@[i as int]@,
            ));
        }
        i = i + 1;
    }
    proof {
        assert(legs.deep_view().take(legs@.len() as int) =~= legs.deep_view());
    }
    out
}

/// Finds the first leg with the given provider.
fn find_leg(legs: &[ChainLeg], provider: &str) -> (r: Option<usize>)
    ensures
        (match r {
            Some(i) => Some(i as int),
            None => None,
        }) == first_leg_of(legs.deep_view(), provider@),
{
    let mut i: usize = 0;
    let ghost all = legs.deep_view();
    proof {
        assert(all.skip(0) =~= all);
    }
    while i < legs.len()
        invariant
            i <= legs@.len(),
            all == legs.deep_view(),
            first_leg_of(all, provider@) == (match first_leg_of(all.skip(i as int), provider@) {
                Some(j) => Some(j + i),
                None => None,
            }),
        decreases legs@.len() - i,
    {
        if text_eq(legs[i].provider.as_str(), provider) {
            proof {
                assert(all.skip(i as int)[0] == all[i as int]);
            }
            return Some(i);
        }
        proof {
            assert(all.skip(i as int)[0] == all[i as int]);
            assert(all.skip(i as int).drop_first() =~= all.skip(i + 1));
        }
        i = i + 1;
    }
    proof {
        assert(all.skip(i as int).len() == 0);
    }
    None
}

/// Decides how a chat request is served.
pub fn dispatch(routes: &RouteTable, req: &ChatRequest, native_configured: bool) -> (r: Result<
    Dispatch,
    GatewayError,
>)
    requires
        routes.wf(),
    ensures
        (match r {
            Ok(d) => Ok(d@),
            Err(e) => Err(e@),
        }) == spec_dispatch(routes@, *req, native_configured),
        req.vertex is None && routes@.contains_key(req.model@) ==> (r matches Ok(d) && d@ == DispatchView::Standard(routes@[req.model@])),
{
    proof {
        reveal_strlit("vertex");
        reveal_strlit("native-vertex");
        reveal_strlit("native vertex lane not configured");
    }
    let lane = classify(req);
    let legs = match routes.legs(req.model.as_str()) {
        Some(l) => l,
        None => return Err(GatewayError::UnknownModel(req.model.clone())),
    };
    match lane {
        Lane::Standard => Ok(Dispatch::Standard { legs: copy_legs(legs) }),
        Lane::NativeVertex => match find_leg(legs, "vertex") {
            None => Err(
                GatewayError::NativeFeatureUnsupported {
                    feature: String::from_str("native-vertex"),
                    route: req.model.clone(),
                },
            ),
            Some(i) => {
                proof {
                    lemma_first_leg_of(legs.deep_view(), "vertex"@);
                }
                if native_configured {
                    Ok(Dispatch::Native { leg: legs[i].duplicate() })
                } else {
                    Err(GatewayError::BadRequest(String::from_str("native vertex lane not configured")))
                }
            },
        },
    }
}

/// The id of a chat completion for a request id.
pub fn completion_id(request_id: &str) -> (r: String)
    ensures
        r@ == "chatcmpl-"@ + request_id@,
{
    proof {
        reveal_strlit("chatcmpl-");
    }
    String::from_str("chatcmpl-").concat(request_id)
}

} // verus!
