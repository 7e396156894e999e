use crate::protocol::{Action, Payload};
use vstd::prelude::*;

verus! {

/// The overrides of a fresh session, in the order in which they are
/// installed: identity first, then the automation markers, the hardware and
/// locale signals, and last what keeps the location prompt away.
pub open spec fn payloads() -> Seq<Payload> {
    seq![
        Payload::ClientIdentity,
        Payload::WebdriverFlag,
        Payload::ChromeRuntime,
        Payload::NotificationPermission,
        Payload::PluginList,
        Payload::Languages,
        Payload::HardwareConcurrency,
        Payload::DeviceMemory,
        Payload::WebGlVendor,
        Payload::BrowserQuirks,
        Payload::NativeToString,
        Payload::PromptStyle,
        Payload::GeolocationDenied,
        Payload::PromptWatcher,
    ]
}

/// Installing every override, in order.
pub open spec fn evasion_plan() -> Seq<Action> {
    Seq::new(payloads().len(), |i: int| Action::Install(payloads()[i]))
}

/// Installing the overrides takes fourteen actions, each the installation of
/// one override.
pub proof fn lemma_evasion_plan()
    ensures
        evasion_plan().len() == 14,
        forall|i: int| 0 <= i < evasion_plan().len() ==> (#[trigger] evasion_plan()[i]) is Install,
{
}

/// Lists the overrides in the order of installation.
pub fn payload_order() -> (order: Vec<Payload>)
    ensures
        order@ == payloads(),
{
    let mut order: Vec<Payload> = Vec::new();
    order.push(Payload::ClientIdentity);
    order.push(Payload::WebdriverFlag);
    order.push(Payload::ChromeRuntime);
    order.push(Payload::NotificationPermission);
    order.push(Payload::PluginList);
    order.push(Payload::Languages);
    order.push(Payload::HardwareConcurrency);
    order.push(Payload::DeviceMemory);
    order.push(Payload::WebGlVendor);
    order.push(Payload::BrowserQuirks);
    order.push(Payload::NativeToString);
    order.push(Payload::PromptStyle);
    order.push(Payload::GeolocationDenied);
    order.push(Payload::PromptWatcher);
    assert(order@ =~= payloads());
    order
}

/// Plans the installation of every override into a fresh session.
pub fn apply_stealth() -> (plan: Vec<Action>)
    ensures
        plan@ == evasion_plan(),
{
    let order = payload_order();
    let mut plan: Vec<Action> = Vec::new();
    let mut k: usize = 0;
    while k < order.len()
        invariant
            order@ == payloads(),
            k <= order@.len(),
            plan@.len() == k,
            forall|i: int| 0 <= i < k ==> plan@[i] == Action::Install(payloads()[i]),
        decreases order@.len() - k,
    {
        plan.push(Action::Install(order[k]));
        k = k + 1;
    }
    assert(plan@ =~= evasion_plan());
    plan
}

} // verus!
