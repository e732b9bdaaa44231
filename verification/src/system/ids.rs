//! Identity sorts of the system layer.  None of them is a kernel identity:
//! a component, an instance, a port, a binding and an export are surface
//! objects.  Sequential, per project, persisted, never reused.
use vstd::prelude::*;

verus! {

/// A reusable behaviour definition.
#[derive(Clone, Copy, Debug, PartialEq, Eq, PartialOrd, Ord, Hash, Structural)]
pub struct ComponentId(pub u64);

impl ComponentId {
    pub fn from_raw(raw: u64) -> (r: ComponentId)
        ensures
            r.0 == raw,
    {
        ComponentId(raw)
    }

    pub fn raw(self) -> (r: u64)
        ensures
            r == self.0,
    {
        self.0
    }
}

/// One occurrence of a component in a system: a stable id, so renames and reorderings change nothing.
#[derive(Clone, Copy, Debug, PartialEq, Eq, PartialOrd, Ord, Hash, Structural)]
pub struct ComponentInstanceId(pub u64);

impl ComponentInstanceId {
    pub fn from_raw(raw: u64) -> (r: ComponentInstanceId)
        ensures
            r.0 == raw,
    {
        ComponentInstanceId(raw)
    }

    pub fn raw(self) -> (r: u64)
        ensures
            r == self.0,
    {
        self.0
    }
}

/// A port of a component's public interface: its own id, so a port survives its declaration being re-created.
#[derive(Clone, Copy, Debug, PartialEq, Eq, PartialOrd, Ord, Hash, Structural)]
pub struct PortId(pub u64);

impl PortId {
    pub fn from_raw(raw: u64) -> (r: PortId)
        ensures
            r.0 == raw,
    {
        PortId(raw)
    }

    pub fn raw(self) -> (r: u64)
        ensures
            r == self.0,
    {
        self.0
    }
}

/// A binding between two ports of two instances.
#[derive(Clone, Copy, Debug, PartialEq, Eq, PartialOrd, Ord, Hash, Structural)]
pub struct BindingId(pub u64);

impl BindingId {
    pub fn from_raw(raw: u64) -> (r: BindingId)
        ensures
            r.0 == raw,
    {
        BindingId(raw)
    }

    pub fn raw(self) -> (r: u64)
        ensures
            r == self.0,
    {
        self.0
    }
}

/// A required port declared as an input of the whole system.
#[derive(Clone, Copy, Debug, PartialEq, Eq, PartialOrd, Ord, Hash, Structural)]
pub struct ExportId(pub u64);

impl ExportId {
    pub fn from_raw(raw: u64) -> (r: ExportId)
        ensures
            r.0 == raw,
    {
        ExportId(raw)
    }

    pub fn raw(self) -> (r: u64)
        ensures
            r == self.0,
    {
        self.0
    }
}

/// An authoring group of base relationships: identity for a cognitive unit, never a kernel term.
#[derive(Clone, Copy, Debug, PartialEq, Eq, PartialOrd, Ord, Hash, Structural)]
pub struct BehaviorGroupId(pub u64);

impl BehaviorGroupId {
    pub fn from_raw(raw: u64) -> (r: BehaviorGroupId)
        ensures
            r.0 == raw,
    {
        BehaviorGroupId(raw)
    }

    pub fn raw(self) -> (r: u64)
        ensures
            r == self.0,
    {
        self.0
    }
}

/// Allocator of the system-layer sorts: one counter per sort, each the
/// next id to issue.
#[derive(Clone, Copy, Debug, PartialEq, Eq)]
pub struct SystemIdAllocator {
    next_component: u64,
    next_instance: u64,
    next_port: u64,
    next_binding: u64,
    next_export: u64,
    next_group: u64,
}

/// The counters of an allocator, one per sort.
pub struct Counters {
    pub component: u64,
    pub instance: u64,
    pub port: u64,
    pub binding: u64,
    pub export: u64,
    pub group: u64,
}

impl View for SystemIdAllocator {
    type V = Counters;

    closed spec fn view(&self) -> Counters {
        Counters {
            component: self.next_component,
            instance: self.next_instance,
            port: self.next_port,
            binding: self.next_binding,
            export: self.next_export,
            group: self.next_group,
        }
    }
}

impl Default for SystemIdAllocator {
    fn default() -> (r: SystemIdAllocator)
        ensures
            r@ == (Counters { component: 0, instance: 0, port: 0, binding: 0, export: 0, group: 0 }),
    {
        SystemIdAllocator {
            next_component: 0,
            next_instance: 0,
            next_port: 0,
            next_binding: 0,
            next_export: 0,
            next_group: 0,
        }
    }
}

impl SystemIdAllocator {
    /// Issue the next component id: the counter's value, which then moves on,
    /// so no id is issued twice.
    pub fn fresh_component(&mut self) -> (r: ComponentId)
        requires
            old(self)@.component < u64::MAX,
        ensures
            r.0 == old(self)@.component,
            final(self)@.component == old(self)@.component + 1,
            final(self)@.instance == old(self)@.instance,
            final(self)@.port == old(self)@.port,
            final(self)@.binding == old(self)@.binding,
            final(self)@.export == old(self)@.export,
            final(self)@.group == old(self)@.group,
    {
        let id = ComponentId(self.next_component);
        self.next_component = self.next_component + 1;
        id
    }

    /// Issue the next instance id: the counter's value, which then moves on,
    /// so no id is issued twice.
    pub fn fresh_instance(&mut self) -> (r: ComponentInstanceId)
        requires
            old(self)@.instance < u64::MAX,
        ensures
            r.0 == old(self)@.instance,
            final(self)@.instance == old(self)@.instance + 1,
            final(self)@.component == old(self)@.component,
            final(self)@.port == old(self)@.port,
            final(self)@.binding == old(self)@.binding,
            final(self)@.export == old(self)@.export,
            final(self)@.group == old(self)@.group,
    {
        let id = ComponentInstanceId(self.next_instance);
        self.next_instance = self.next_instance + 1;
        id
    }

    /// Issue the next port id: the counter's value, which then moves on,
    /// so no id is issued twice.
    pub fn fresh_port(&mut self) -> (r: PortId)
        requires
            old(self)@.port < u64::MAX,
        ensures
            r.0 == old(self)@.port,
            final(self)@.port == old(self)@.port + 1,
            final(self)@.component == old(self)@.component,
            final(self)@.instance == old(self)@.instance,
            final(self)@.binding == old(self)@.binding,
            final(self)@.export == old(self)@.export,
            final(self)@.group == old(self)@.group,
    {
        let id = PortId(self.next_port);
        self.next_port = self.next_port + 1;
        id
    }

    /// Issue the next binding id: the counter's value, which then moves on,
    /// so no id is issued twice.
    pub fn fresh_binding(&mut self) -> (r: BindingId)
        requires
            old(self)@.binding < u64::MAX,
        ensures
            r.0 == old(self)@.binding,
            final(self)@.binding == old(self)@.binding + 1,
            final(self)@.component == old(self)@.component,
            final(self)@.instance == old(self)@.instance,
            final(self)@.port == old(self)@.port,
            final(self)@.export == old(self)@.export,
            final(self)@.group == old(self)@.group,
    {
        let id = BindingId(self.next_binding);
        self.next_binding = self.next_binding + 1;
        id
    }

    /// Issue the next export id: the counter's value, which then moves on,
    /// so no id is issued twice.
    pub fn fresh_export(&mut self) -> (r: ExportId)
        requires
            old(self)@.export < u64::MAX,
        ensures
            r.0 == old(self)@.export,
            final(self)@.export == old(self)@.export + 1,
            final(self)@.component == old(self)@.component,
            final(self)@.instance == old(self)@.instance,
            final(self)@.port == old(self)@.port,
            final(self)@.binding == old(self)@.binding,
            final(self)@.group == old(self)@.group,
    {
        let id = ExportId(self.next_export);
        self.next_export = self.next_export + 1;
        id
    }

    /// Issue the next group id: the counter's value, which then moves on,
    /// so no id is issued twice.
    pub fn fresh_group(&mut self) -> (r: BehaviorGroupId)
        requires
            old(self)@.group < u64::MAX,
        ensures
            r.0 == old(self)@.group,
            final(self)@.group == old(self)@.group + 1,
            final(self)@.component == old(self)@.component,
            final(self)@.instance == old(self)@.instance,
            final(self)@.port == old(self)@.port,
            final(self)@.binding == old(self)@.binding,
            final(self)@.export == old(self)@.export,
    {
        let id = BehaviorGroupId(self.next_group);
        self.next_group = self.next_group + 1;
        id
    }
}

} // verus!
