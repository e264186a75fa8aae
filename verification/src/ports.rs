//! Port enumeration: asks the OS for its serial devices and wraps each name
//! as a descriptor.

use vstd::prelude::*;

use crate::text::spec_starts_with;

verus! {

/// A listed port: its short name, and an optional human-readable description.
/// The enumeration below provides no standard description, so it leaves the
/// field empty.
#[derive(Clone, Debug)]
pub struct PortInfo {
    pub name: String,
    pub description: Option<String>,
}

/// Relies on serialport::available_ports: on success each entry's
/// `port_name` field is one listed device's short name, and on failure the
/// error's `description` field is its user-facing message. What the machine
/// lists depends on the machine, so nothing more is promised.
#[verifier::external_body]
fn available_port_names() -> (r: Result<Vec<String>, String>) {
    match serialport::available_ports() {
        Ok(ports) => Ok(ports.into_iter().map(|p| p.port_name).collect()),
        Err(e) => Err(e.description),
    }
}

/// Wraps listed device names as descriptors, in order, attaching no
/// description to any of them.
pub fn ports_from_names(names: Vec<String>) -> (r: Vec<PortInfo>)
    ensures
        r.len() == names.len(),
        forall|i: int|
            0 <= i < r.len() ==> r[i].name == names[i] && (#[trigger] r[i].description) is None,
{
    let mut out: Vec<PortInfo> = Vec::new();
    let mut i: usize = 0;
    while i < names.len()
        invariant
            i <= names.len(),
            out.len() == i,
            forall|j: int|
                0 <= j < i ==> out[j].name == names[j] && (#[trigger] out[j].description) is None,
        decreases names.len() - i,
    {
        out.push(PortInfo { name: names[i].clone(), description: None });
        i += 1;
    }
    out
}

/// Lists the serial devices the machine offers. An enumeration failure is an
/// explicit error value, never a panic, and an empty list is a valid outcome
/// distinct from an error.
pub fn list_ports() -> (r: Result<Vec<PortInfo>, String>)
    ensures
        r matches Ok(ports) ==> forall|i: int|
            0 <= i < ports.len() ==> (#[trigger] ports[i].description) is None,
        r matches Err(m) ==> spec_starts_with(m@, "Failed to list ports: "@),
{
    match available_port_names() {
        Ok(names) => Ok(ports_from_names(names)),
        Err(desc) => {
            let mut m = String::from_str("Failed to list ports: ");
            m.append(desc.as_str());
            proof {
                assert(m@.subrange(0, "Failed to list ports: "@.len() as int)
                    =~= "Failed to list ports: "@);
            }
            Err(m)
        },
    }
}

} // verus!
