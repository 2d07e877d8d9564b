use vstd::prelude::*;
use crate::flow::{GetFlowsResponse, ResponseTypes};

verus! {

/// The address prefix of the cluster's own network.
pub open spec fn internal_prefix() -> Seq<char> {
    "10.42."@
}

/// True when an address lies in the cluster's own network.
pub open spec fn internal(ip: Seq<char>) -> bool {
    ip.len() >= internal_prefix().len() && ip.take(internal_prefix().len() as int)
        == internal_prefix()
}

/// The address, or the empty text where there is none.
pub open spec fn address_or_empty(ip: Option<&str>) -> Seq<char> {
    match ip {
        Some(s) => s@,
        None => Seq::empty(),
    }
}

/// True when a flow with these addresses is shown: always, unless only traffic that leaves or
/// enters the cluster is wanted and both addresses are internal.
pub open spec fn shown(world_only: bool, source: Seq<char>, dest: Seq<char>) -> bool {
    !world_only || !internal(source) || !internal(dest)
}

pub fn is_internal_ip(ip: &str) -> (r: bool)
    ensures
        r == internal(ip@),
{
    let prefix = "10.42.";
    proof {
        reveal_strlit("10.42.");
    }
    let n = ip.unicode_len();
    let m = prefix.unicode_len();
    if n < m {
        return false;
    }
    let mut i: usize = 0;
    while i < m
        invariant
            i <= m == prefix@.len() <= n == ip@.len(),
            prefix@ == internal_prefix(),
            forall|j: int| 0 <= j < i ==> ip@[j] == prefix@[j],
        decreases m - i,
    {
        if ip.get_char(i) != prefix.get_char(i) {
            assert(ip@.take(m as int)[i as int] != internal_prefix()[i as int]);
            return false;
        }
        i = i + 1;
    }
    assert(ip@.take(m as int) =~= internal_prefix());
    true
}

pub fn should_show_flow(world_only: bool, source_ip: Option<&str>, dest_ip: Option<&str>) -> (r:
    bool)
    ensures
        r == shown(world_only, address_or_empty(source_ip), address_or_empty(dest_ip)),
{
    if !world_only {
        return true;
    }
    proof {
        reveal_strlit("");
    }
    let empty = "";
    assert(empty@ =~= Seq::<char>::empty());
    let source_ip = source_ip.unwrap_or(empty);
    let dest_ip = dest_ip.unwrap_or(empty);
    !is_internal_ip(source_ip) || !is_internal_ip(dest_ip)
}

/// True when a stream message is printed: everything passes, except a flow with addresses
/// that `should_show_flow` hides.
pub open spec fn passes(world_only: bool, response: GetFlowsResponse) -> bool {
    match response.response_types {
        Some(ResponseTypes::Flow(flow)) => match flow.ip {
            Some(ip) => shown(world_only, ip.source@, ip.destination@),
            None => true,
        },
        _ => true,
    }
}

/// Decides whether the console shows a stream message.
pub fn passes_world_filter(world_only: bool, response: &GetFlowsResponse) -> (r: bool)
    ensures
        r == passes(world_only, *response),
{
    if world_only {
        if let Some(ResponseTypes::Flow(flow)) = &response.response_types {
            if let Some(ip) = &flow.ip {
                if !should_show_flow(
                    world_only,
                    Some(ip.source.as_str()),
                    Some(ip.destination.as_str()),
                ) {
                    return false;
                }
            }
        }
    }
    true
}

} // verus!
