//! The control plane's port-exposure logic: which host port a container
//! port is exposed on, the BPF map entries and iptables rule that realise
//! it, what is undone when a step fails, and the HTTP answer to each error.
//!
//! Map writes and the iptables command are carried out by the caller; this
//! module decides what they are and what follows from their outcome.

use vstd::prelude::*;
use std::collections::HashMap;
use vstd::string::StringExecFns;
use crate::common::{ContainerInfo, HostInfo};
use crate::containers::ContainerMetadata;
use crate::port_allocator::PortAllocator;
use crate::text::{decimal, ipv4_text, push_char, push_decimal, push_ipv4};

verus! {

broadcast use vstd::std_specs::hash::group_hash_axioms;

/// A failed API request.
#[derive(Debug)]
pub enum AppError {
    NotFound(String),
    Conflict(String),
    Capacity(String),
    Internal(String),
}

/// HTTP status codes the API answers with.
pub const STATUS_OK: u16 = 200;

pub const STATUS_NOT_FOUND: u16 = 404;

pub const STATUS_CONFLICT: u16 = 409;

pub const STATUS_INTERNAL_SERVER_ERROR: u16 = 500;

pub const STATUS_SERVICE_UNAVAILABLE: u16 = 503;

/// The status and client message an error is answered with; the detail of
/// an internal error is not shown to the client.
pub open spec fn error_response_spec(err: AppError) -> (u16, Seq<char>) {
    match err {
        AppError::NotFound(m) => (STATUS_NOT_FOUND, m@),
        AppError::Conflict(m) => (STATUS_CONFLICT, m@),
        AppError::Capacity(m) => (STATUS_SERVICE_UNAVAILABLE, m@),
        AppError::Internal(_) => (STATUS_INTERNAL_SERVER_ERROR, "An internal server error occurred"@),
    }
}

/// The HTTP status and message an error is answered with.
pub fn error_response(err: &AppError) -> (res: (u16, String))
    ensures
        (res.0, res.1@) == error_response_spec(*err),
{
    match err {
        AppError::NotFound(msg) => (STATUS_NOT_FOUND, msg.clone()),
        AppError::Conflict(msg) => (STATUS_CONFLICT, msg.clone()),
        AppError::Capacity(msg) => (STATUS_SERVICE_UNAVAILABLE, msg.clone()),
        AppError::Internal(_) => (
            STATUS_INTERNAL_SERVER_ERROR,
            String::from_str("An internal server error occurred"),
        ),
    }
}

/// A request to expose `container_port` of the container at `container_ip`.
#[derive(Clone, Copy, PartialEq, Eq, Structural, Debug)]
pub struct ExposeRequest {
    pub container_ip: u32,
    pub container_port: u16,
}

/// Whether an iptables rule is appended or deleted.
#[derive(Clone, Copy, PartialEq, Eq, Structural, Debug)]
pub enum RuleAction {
    Append,
    Delete,
}

/// A DNAT rule in the PREROUTING chain sending TCP traffic for `host_port`
/// to the container.
#[derive(Clone, Copy, PartialEq, Eq, Structural, Debug)]
pub struct IptablesRule {
    pub action: RuleAction,
    pub host_port: u16,
    pub container_ip: u32,
    pub container_port: u16,
}

/// The command-line arguments of `iptables` for a rule.
pub open spec fn iptables_args_spec(rule: IptablesRule) -> Seq<Seq<char>> {
    seq![
        "-t"@,
        "nat"@,
        if rule.action == RuleAction::Append {
            "-A"@
        } else {
            "-D"@
        },
        "PREROUTING"@,
        "-p"@,
        "tcp"@,
        "--dport"@,
        decimal(rule.host_port as nat),
        "-j"@,
        "DNAT"@,
        "--to-destination"@,
        ipv4_text(rule.container_ip) + seq![':'] + decimal(rule.container_port as nat),
    ]
}

/// The message of an iptables run that did not succeed.
pub open spec fn rule_failure_spec(rule: IptablesRule) -> Seq<char> {
    if rule.action == RuleAction::Append {
        "failed to add iptables TCP rule for port "@ + decimal(rule.host_port as nat)
    } else {
        "failed to remove iptables TCP rule for port "@ + decimal(rule.host_port as nat)
    }
}

impl IptablesRule {
    /// The arguments `iptables` is run with.
    pub fn args(&self) -> (res: Vec<String>)
        ensures
            res@.len() == 12,
            forall|i: int| 0 <= i < 12 ==> #[trigger] res@[i]@ == iptables_args_spec(*self)[i],
            res@[7]@ == decimal(self.host_port as nat),
    {
        let mut port = String::new();
        push_decimal(&mut port, self.host_port as u32);
        let mut dest = String::new();
        push_ipv4(&mut dest, self.container_ip);
        push_char(&mut dest, ':');
        push_decimal(&mut dest, self.container_port as u32);
        let action = match self.action {
            RuleAction::Append => String::from_str("-A"),
            RuleAction::Delete => String::from_str("-D"),
        };
        let res = vec![
            String::from_str("-t"),
            String::from_str("nat"),
            action,
            String::from_str("PREROUTING"),
            String::from_str("-p"),
            String::from_str("tcp"),
            String::from_str("--dport"),
            port,
            String::from_str("-j"),
            String::from_str("DNAT"),
            String::from_str("--to-destination"),
            dest,
        ];
        assert(port@ =~= decimal(self.host_port as nat));
        assert(dest@ =~= ipv4_text(self.container_ip) + seq![':'] + decimal(
            self.container_port as nat,
        ));
        res
    }

    /// The error message when `iptables` reports failure for this rule.
    pub fn failure_message(&self) -> (res: String)
        ensures
            res@ == rule_failure_spec(*self),
    {
        let mut msg = match self.action {
            RuleAction::Append => String::from_str("failed to add iptables TCP rule for port "),
            RuleAction::Delete => String::from_str("failed to remove iptables TCP rule for port "),
        };
        push_decimal(&mut msg, self.host_port as u32);
        msg
    }
}

/// The control plane's state: the free host ports, the containers it
/// knows by IPv4 address, and the host NIC exposures are bound to.
pub struct AppState {
    pub port_allocator: PortAllocator,
    pub container_metas: HashMap<u32, ContainerMetadata>,
    pub nic_addr: u32,
    pub nic_ifindex: u32,
}

impl AppState {
    pub fn new(
        port_allocator: PortAllocator,
        container_metas: HashMap<u32, ContainerMetadata>,
        nic_addr: u32,
        nic_ifindex: u32,
    ) -> (res: Self)
        ensures
            res.port_allocator@ == port_allocator@,
            res.container_metas@ == container_metas@,
            res.nic_addr == nic_addr,
            res.nic_ifindex == nic_ifindex,
    {
        AppState { port_allocator, container_metas, nic_addr, nic_ifindex }
    }
}

/// A granted exposure: the host port, and the two map entries that bind
/// it (host port to container, container port to host).
#[derive(Clone, Copy, PartialEq, Eq, Debug)]
pub struct Exposure {
    pub host_port: u16,
    pub container_info: ContainerInfo,
    pub host_info: HostInfo,
}

/// The steps that realise an exposure, in the order they are carried out.
#[derive(Clone, Copy, PartialEq, Eq, Structural, Debug)]
pub enum ExposeStage {
    /// Insert the container port into the reverse expose map (create only).
    RevExposeInsert,
    /// Insert the host port into the expose map (create only).
    ExposeInsert,
    /// Append the iptables rule for TCP.
    IptablesRule,
}

/// A map entry to delete.
#[derive(Clone, Copy, PartialEq, Eq, Structural, Debug)]
pub enum MapRemoval {
    /// The reverse expose entry of a container port.
    RevExpose(u16),
    /// The expose entry of a host port.
    Expose(u16),
}

/// Message of a request for an unknown container.
pub open spec fn no_container_message(ip: u32) -> Seq<char> {
    "Container with IP "@ + ipv4_text(ip) + " doesn't exist"@
}

/// The exposure granted for `req` on `host_port`.
pub open spec fn exposure_for(
    container: ContainerMetadata,
    req: ExposeRequest,
    host_port: u16,
    nic_addr: u32,
    nic_ifindex: u32,
) -> Exposure {
    Exposure {
        host_port,
        container_info: ContainerInfo {
            container_ip: container.ipv4_address,
            container_mac: container.mac_address,
            container_port: req.container_port,
            ifindex: container.ifindex,
        },
        host_info: HostInfo { host_ip: nic_addr, host_port, host_ifindex: nic_ifindex },
    }
}

/// First part of exposing a container port: look the container up, take
/// the next free host port, and refuse a container port that is already
/// exposed (`already_exposed`: the reverse expose map holds it), giving the
/// port back. On success the caller carries out the `ExposeStage`s.
pub fn expose_port(state: &mut AppState, req: &ExposeRequest, already_exposed: bool) -> (res:
    Result<Exposure, AppError>)
    ensures
        final(state).container_metas@ == old(state).container_metas@,
        final(state).nic_addr == old(state).nic_addr,
        final(state).nic_ifindex == old(state).nic_ifindex,
        !old(state).container_metas@.contains_key(req.container_ip) ==> {
            &&& res matches Err(AppError::NotFound(m)) && m@ == no_container_message(
                req.container_ip,
            )
            &&& final(state).port_allocator@ == old(state).port_allocator@
        },
        old(state).container_metas@.contains_key(req.container_ip) && old(
            state,
        ).port_allocator@.len() == 0 ==> {
            &&& res matches Err(AppError::Capacity(m)) && m@ == "No available host ports left"@
            &&& final(state).port_allocator@ == old(state).port_allocator@
        },
        old(state).container_metas@.contains_key(req.container_ip) && old(
            state,
        ).port_allocator@.len() > 0 && already_exposed ==> {
            &&& res matches Err(AppError::Conflict(m)) && m@ == "Container port is already exposed"@
            &&& final(state).port_allocator@ == old(state).port_allocator@.drop_first().push(
                old(state).port_allocator@[0],
            )
        },
        old(state).container_metas@.contains_key(req.container_ip) && old(
            state,
        ).port_allocator@.len() > 0 && !already_exposed ==> {
            &&& res == Ok::<Exposure, AppError>(
                exposure_for(
                    old(state).container_metas@[req.container_ip],
                    *req,
                    old(state).port_allocator@[0],
                    old(state).nic_addr,
                    old(state).nic_ifindex,
                ),
            )
            &&& final(state).port_allocator@ == old(state).port_allocator@.drop_first()
        },
{
    let container = match state.container_metas.get(&req.container_ip) {
        Some(c) => c,
        None => {
            let mut msg = String::from_str("Container with IP ");
            push_ipv4(&mut msg, req.container_ip);
            msg.append(" doesn't exist");
            return Err(AppError::NotFound(msg));
        },
    };
    let container_info = ContainerInfo {
        container_ip: container.ipv4_address,
        container_mac: container.mac_address,
        container_port: req.container_port,
        ifindex: container.ifindex,
    };
    let host_port = match state.port_allocator.allocate_next() {
        Some(p) => p,
        None => return Err(AppError::Capacity(String::from_str("No available host ports left"))),
    };
    let host_info = HostInfo { host_ip: state.nic_addr, host_port, host_ifindex: state.nic_ifindex };
    if already_exposed {
        state.port_allocator.deallocate(host_port);
        return Err(AppError::Conflict(String::from_str("Container port is already exposed")));
    }
    Ok(Exposure { host_port, container_info, host_info })
}

/// The error reported when exposure step `stage` fails with `cause`.
pub open spec fn expose_failure_message(exposure: Exposure, stage: ExposeStage, cause: Seq<char>) -> Seq<
    char,
> {
    match stage {
        ExposeStage::RevExposeInsert => "Failed to insert into rev_expose_map: "@ + cause,
        ExposeStage::ExposeInsert => "Failed to insert host port "@ + decimal(
            exposure.host_port as nat,
        ) + " into expose_map: "@ + cause,
        ExposeStage::IptablesRule => "Failed to expose tcp port "@ + decimal(
            exposure.host_port as nat,
        ) + " via iptables: "@ + cause,
    }
}

/// The entries to delete when step `stage` failed: those of the earlier
/// steps, reverse entry first.
pub open spec fn expose_undo(exposure: Exposure, stage: ExposeStage) -> Seq<MapRemoval> {
    match stage {
        ExposeStage::RevExposeInsert => seq![],
        ExposeStage::ExposeInsert => seq![
            MapRemoval::RevExpose(exposure.container_info.container_port),
        ],
        ExposeStage::IptablesRule => seq![
            MapRemoval::RevExpose(exposure.container_info.container_port),
            MapRemoval::Expose(exposure.host_port),
        ],
    }
}

/// The iptables rule of an exposure.
pub open spec fn exposure_rule(exposure: Exposure) -> IptablesRule {
    IptablesRule {
        action: RuleAction::Append,
        host_port: exposure.host_port,
        container_ip: exposure.container_info.container_ip,
        container_port: exposure.container_info.container_port,
    }
}

impl Exposure {
    /// The rule appended for this exposure.
    pub fn rule(&self) -> (res: IptablesRule)
        ensures
            res == exposure_rule(*self),
    {
        IptablesRule {
            action: RuleAction::Append,
            host_port: self.host_port,
            container_ip: self.container_info.container_ip,
            container_port: self.container_info.container_port,
        }
    }
}

/// Second part of exposing, when step `stage` failed with `cause`: the
/// host port goes back to the pool, the entries written so far are to be
/// deleted, and the request fails with an internal error.
pub fn abort_expose(state: &mut AppState, exposure: &Exposure, stage: ExposeStage, cause: &str) -> (res: (
    AppError,
    Vec<MapRemoval>,
))
    ensures
        final(state).port_allocator@ == old(state).port_allocator@.push(exposure.host_port),
        final(state).container_metas@ == old(state).container_metas@,
        final(state).nic_addr == old(state).nic_addr,
        final(state).nic_ifindex == old(state).nic_ifindex,
        res.0 matches AppError::Internal(m) && m@ == expose_failure_message(*exposure, stage, cause@),
        res.1@ == expose_undo(*exposure, stage),
{
    let mut undo: Vec<MapRemoval> = Vec::new();
    let mut msg;
    match stage {
        ExposeStage::RevExposeInsert => {
            msg = String::from_str("Failed to insert into rev_expose_map: ");
        },
        ExposeStage::ExposeInsert => {
            undo.push(MapRemoval::RevExpose(exposure.container_info.container_port));
            msg = String::from_str("Failed to insert host port ");
            push_decimal(&mut msg, exposure.host_port as u32);
            msg.append(" into expose_map: ");
        },
        ExposeStage::IptablesRule => {
            undo.push(MapRemoval::RevExpose(exposure.container_info.container_port));
            undo.push(MapRemoval::Expose(exposure.host_port));
            msg = String::from_str("Failed to expose tcp port ");
            push_decimal(&mut msg, exposure.host_port as u32);
            msg.append(" via iptables: ");
        },
    }
    msg.append(cause);
    state.port_allocator.deallocate(exposure.host_port);
    assert(undo@ =~= expose_undo(*exposure, stage));
    (AppError::Internal(msg), undo)
}

/// The answer to a request whose exposure steps all succeeded.
pub fn expose_message(req: &ExposeRequest, exposure: &Exposure) -> (res: String)
    ensures
        res@ == "exposing container port "@ + decimal(req.container_port as nat)
            + " on host port "@ + decimal(exposure.host_port as nat),
{
    let mut msg = String::from_str("exposing container port ");
    push_decimal(&mut msg, req.container_port as u32);
    msg.append(" on host port ");
    push_decimal(&mut msg, exposure.host_port as u32);
    msg
}

/// The rule deleted to withdraw the exposure of `host_port`, whose expose
/// map entry is `info`.
pub open spec fn unexpose_rule(host_port: u16, info: ContainerInfo) -> IptablesRule {
    IptablesRule {
        action: RuleAction::Delete,
        host_port,
        container_ip: info.container_ip,
        container_port: info.container_port,
    }
}

/// The entries deleted once the rule is gone: the host port's, then the
/// container port's.
pub open spec fn unexpose_removals(rule: IptablesRule) -> Seq<MapRemoval> {
    seq![MapRemoval::Expose(rule.host_port), MapRemoval::RevExpose(rule.container_port)]
}

/// First part of withdrawing an exposure: the rule to delete for
/// `host_port`, given its expose map entry (`None` when there is none).
pub fn unexpose_port(host_port: u16, exposed: Option<ContainerInfo>) -> (res: Result<
    IptablesRule,
    AppError,
>)
    ensures
        exposed is None ==> (res matches Err(AppError::NotFound(m)) && m@ == "Host port "@
            + decimal(host_port as nat) + " is not currently exposed"@),
        exposed matches Some(info) ==> res == Ok::<IptablesRule, AppError>(
            unexpose_rule(host_port, info),
        ),
{
    match exposed {
        Some(info) => Ok(
            IptablesRule {
                action: RuleAction::Delete,
                host_port,
                container_ip: info.container_ip,
                container_port: info.container_port,
            },
        ),
        None => {
            let mut msg = String::from_str("Host port ");
            push_decimal(&mut msg, host_port as u32);
            msg.append(" is not currently exposed");
            Err(AppError::NotFound(msg))
        },
    }
}

/// Second part of withdrawing an exposure, once the rule deletion ran with
/// `outcome`: on failure nothing changes; on success both map entries are
/// to be deleted and the host port returns to the pool.
pub fn finish_unexpose(state: &mut AppState, rule: &IptablesRule, outcome: Result<(), &str>) -> (res:
    Result<(Vec<MapRemoval>, String), AppError>)
    ensures
        final(state).container_metas@ == old(state).container_metas@,
        final(state).nic_addr == old(state).nic_addr,
        final(state).nic_ifindex == old(state).nic_ifindex,
        outcome matches Err(cause) ==> {
            &&& res matches Err(AppError::Internal(m)) && m@ == "Failed to remove iptables rule: "@
                + cause@
            &&& final(state).port_allocator@ == old(state).port_allocator@
        },
        outcome is Ok ==> {
            &&& res matches Ok((removals, msg)) && removals@ == unexpose_removals(*rule) && msg@ == "Unexposed host port "@ + decimal(rule.host_port as nat)
            &&& final(state).port_allocator@ == old(state).port_allocator@.push(rule.host_port)
        },
{
    match outcome {
        Err(cause) => {
            let mut msg = String::from_str("Failed to remove iptables rule: ");
            msg.append(cause);
            Err(AppError::Internal(msg))
        },
        Ok(()) => {
            let mut removals: Vec<MapRemoval> = Vec::new();
            removals.push(MapRemoval::Expose(rule.host_port));
            removals.push(MapRemoval::RevExpose(rule.container_port));
            state.port_allocator.deallocate(rule.host_port);
            let mut msg = String::from_str("Unexposed host port ");
            push_decimal(&mut msg, rule.host_port as u32);
            assert(removals@ =~= seq![
                MapRemoval::Expose(rule.host_port),
                MapRemoval::RevExpose(rule.container_port),
            ]);
            Ok((removals, msg))
        },
    }
}

/// The expose and reverse expose maps once both entries of `exposure` are
/// written (the create-only inserts of its first two steps).
pub open spec fn exposure_entries(
    expose: Map<u16, ContainerInfo>,
    rev: Map<u16, HostInfo>,
    exposure: Exposure,
) -> (Map<u16, ContainerInfo>, Map<u16, HostInfo>) {
    (
        expose.insert(exposure.host_port, exposure.container_info),
        rev.insert(exposure.container_info.container_port, exposure.host_info),
    )
}

/// The maps once the entries written before step `stage` are in place.
pub open spec fn entries_before(
    expose: Map<u16, ContainerInfo>,
    rev: Map<u16, HostInfo>,
    exposure: Exposure,
    stage: ExposeStage,
) -> (Map<u16, ContainerInfo>, Map<u16, HostInfo>) {
    match stage {
        ExposeStage::RevExposeInsert => (expose, rev),
        ExposeStage::ExposeInsert => (
            expose,
            rev.insert(exposure.container_info.container_port, exposure.host_info),
        ),
        ExposeStage::IptablesRule => exposure_entries(expose, rev, exposure),
    }
}

/// The maps after deleting the entries `removals`, in order.
pub open spec fn removals_applied(
    expose: Map<u16, ContainerInfo>,
    rev: Map<u16, HostInfo>,
    removals: Seq<MapRemoval>,
) -> (Map<u16, ContainerInfo>, Map<u16, HostInfo>)
    decreases removals.len(),
{
    if removals.len() == 0 {
        (expose, rev)
    } else {
        match removals[0] {
            MapRemoval::RevExpose(p) => removals_applied(expose, rev.remove(p), removals.drop_first()),
            MapRemoval::Expose(p) => removals_applied(expose.remove(p), rev, removals.drop_first()),
        }
    }
}

/// Exposing a container port and then withdrawing it, with nothing in
/// between and every step succeeding, leaves the expose and reverse expose
/// maps as they were, deletes exactly the iptables rule that was appended,
/// and leaves the same free ports, the one used now last in line.
pub proof fn lemma_expose_unexpose_round_trip(
    metas: Map<u32, ContainerMetadata>,
    pool: Seq<u16>,
    nic_addr: u32,
    nic_ifindex: u32,
    req: ExposeRequest,
    expose: Map<u16, ContainerInfo>,
    rev: Map<u16, HostInfo>,
)
    requires
        metas.contains_key(req.container_ip),
        pool.len() > 0,
        !rev.contains_key(req.container_port),
        !expose.contains_key(pool[0]),
    ensures
        ({
            let ex = exposure_for(metas[req.container_ip], req, pool[0], nic_addr, nic_ifindex);
            let written = exposure_entries(expose, rev, ex);
            let rule = unexpose_rule(ex.host_port, written.0[ex.host_port]);
            let after = removals_applied(written.0, written.1, unexpose_removals(rule));
            &&& written.0.contains_key(ex.host_port)
            &&& after.0 == expose
            &&& after.1 == rev
            &&& rule == IptablesRule { action: RuleAction::Delete, ..exposure_rule(ex) }
            &&& pool.drop_first().push(rule.host_port) == pool.drop_first().push(pool[0])
            &&& pool.drop_first().push(rule.host_port).to_multiset() == pool.to_multiset()
        }),
{
    let ex = exposure_for(metas[req.container_ip], req, pool[0], nic_addr, nic_ifindex);
    let written = exposure_entries(expose, rev, ex);
    let rule = unexpose_rule(ex.host_port, written.0[ex.host_port]);
    let rs = unexpose_removals(rule);
    let mid = removals_applied(written.0.remove(ex.host_port), written.1, rs.drop_first());
    assert(rs.drop_first().drop_first().len() == 0);
    assert(removals_applied(written.0, written.1, rs) == mid);
    assert(mid == removals_applied(
        written.0.remove(ex.host_port),
        written.1.remove(req.container_port),
        rs.drop_first().drop_first(),
    ));
    assert(written.0.remove(ex.host_port) =~= expose);
    assert(written.1.remove(req.container_port) =~= rev);
    crate::port_allocator::lemma_allocate_then_deallocate(pool);
}

/// A failed exposure step leaves the maps as they were: deleting the undo
/// entries from the maps as written before the step gives back the
/// original maps, provided the exposure's keys were not in them.
pub proof fn lemma_abort_restores_maps(
    expose: Map<u16, ContainerInfo>,
    rev: Map<u16, HostInfo>,
    exposure: Exposure,
    stage: ExposeStage,
)
    requires
        !expose.contains_key(exposure.host_port),
        !rev.contains_key(exposure.container_info.container_port),
    ensures
        ({
            let before = entries_before(expose, rev, exposure, stage);
            removals_applied(before.0, before.1, expose_undo(exposure, stage)) == (expose, rev)
        }),
{
    let cp = exposure.container_info.container_port;
    let hp = exposure.host_port;
    let before = entries_before(expose, rev, exposure, stage);
    let rs = expose_undo(exposure, stage);
    match stage {
        ExposeStage::RevExposeInsert => {
            assert(rs.len() == 0);
            assert(removals_applied(before.0, before.1, rs) == (before.0, before.1));
        },
        ExposeStage::ExposeInsert => {
            assert(rs.drop_first().len() == 0);
            assert(removals_applied(before.0, before.1, rs) == removals_applied(
                before.0,
                before.1.remove(cp),
                rs.drop_first(),
            ));
            assert(before.1.remove(cp) =~= rev);
            assert(removals_applied(before.0, before.1, rs) == (expose, rev));
        },
        ExposeStage::IptablesRule => {
            assert(rs.drop_first().drop_first().len() == 0);
            assert(removals_applied(before.0, before.1, rs) == removals_applied(
                before.0,
                before.1.remove(cp),
                rs.drop_first(),
            ));
            assert(removals_applied(before.0, before.1.remove(cp), rs.drop_first())
                == removals_applied(before.0.remove(hp), before.1.remove(cp), rs.drop_first().drop_first()));
            assert(before.1.remove(cp) =~= rev);
            assert(before.0.remove(hp) =~= expose);
            assert(removals_applied(before.0, before.1, rs) == (expose, rev));
        },
    }
}

/// A rule is named by the same arguments whether it is appended or
/// deleted, but for the action word (`-A` or `-D`): the chain, protocol and
/// match on the host port, and the DNAT target naming the container's
/// address and port. So the delete of a rule names exactly the rule the
/// append added.
pub proof fn lemma_rule_args_match_across_actions(rule: IptablesRule)
    ensures
        ({
            let added = iptables_args_spec(IptablesRule { action: RuleAction::Append, ..rule });
            let deleted = iptables_args_spec(IptablesRule { action: RuleAction::Delete, ..rule });
            &&& added.len() == 12 && deleted.len() == 12
            &&& added[2] == "-A"@
            &&& deleted[2] == "-D"@
            &&& forall|i: int| 0 <= i < 12 && i != 2 ==> added[i] == deleted[i]
            &&& iptables_args_spec(rule)[6] == "--dport"@
            &&& iptables_args_spec(rule)[7] == decimal(rule.host_port as nat)
            &&& iptables_args_spec(rule)[10] == "--to-destination"@
            &&& iptables_args_spec(rule)[11] == ipv4_text(rule.container_ip) + seq![':'] + decimal(
                rule.container_port as nat,
            )
        }),
{
}

/// A granted exposure binds both directions to the port it was given: the
/// reverse entry maps the requested container port to that same host port
/// on the host NIC, and the forward entry points at the requested port of
/// the container at the requested address.
pub proof fn lemma_exposure_binds_its_port(
    container: ContainerMetadata,
    req: ExposeRequest,
    host_port: u16,
    nic_addr: u32,
    nic_ifindex: u32,
)
    ensures
        ({
            let ex = exposure_for(container, req, host_port, nic_addr, nic_ifindex);
            &&& ex.host_port == host_port
            &&& ex.host_info.host_port == host_port
            &&& ex.host_info.host_ip == nic_addr
            &&& ex.host_info.host_ifindex == nic_ifindex
            &&& ex.container_info.container_port == req.container_port
            &&& ex.container_info.container_ip == container.ipv4_address
            &&& ex.container_info.ifindex == container.ifindex
            &&& ex.container_info.container_mac == container.mac_address
            &&& exposure_rule(ex).host_port == host_port
            &&& exposure_rule(ex).container_port == req.container_port
        }),
{
}

} // verus!
