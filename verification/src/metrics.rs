//! Operation counters and key gauges. The store keeps its own tally as a
//! plain value; an exporter may publish it. Counters saturate instead of
//! wrapping.

use vstd::prelude::*;

verus! {

/// Which namespace a key gauge speaks of.
#[derive(Debug, Clone, Copy, PartialEq, Eq)]
pub enum TreeKind {
    Data,
    Meta,
    Ttl,
}

/// Which operation a counter speaks of.
#[derive(Debug, Clone, Copy, PartialEq, Eq)]
pub enum OpKind {
    SetOp,
    Get,
    Rm,
    IncrementFrequency,
}

/// `a + b`, capped at the largest `u64`.
pub open spec fn sat_add(a: u64, b: u64) -> u64 {
    if a + b > u64::MAX {
        u64::MAX
    } else {
        (a + b) as u64
    }
}

/// `a - b`, floored at zero.
pub open spec fn sat_sub(a: u64, b: u64) -> u64 {
    if a >= b {
        (a - b) as u64
    } else {
        0
    }
}

/// The tallies the store publishes: one key gauge per namespace, one
/// counter per operation, the expired-key counter, and the two sizes.
#[derive(Debug, Clone, Copy, PartialEq, Eq)]
pub struct Metrics {
    pub keys_data: u64,
    pub keys_meta: u64,
    pub keys_ttl: u64,
    pub ops_set: u64,
    pub ops_get: u64,
    pub ops_rm: u64,
    pub ops_increment_frequency: u64,
    pub ttl_expired_keys: u64,
    pub disk_size_bytes: u64,
    pub backup_size_bytes: u64,
}

impl Metrics {
    /// All tallies at zero.
    pub open spec fn spec_new() -> Metrics {
        Metrics {
            keys_data: 0,
            keys_meta: 0,
            keys_ttl: 0,
            ops_set: 0,
            ops_get: 0,
            ops_rm: 0,
            ops_increment_frequency: 0,
            ttl_expired_keys: 0,
            disk_size_bytes: 0,
            backup_size_bytes: 0,
        }
    }

    pub fn new() -> (r: Metrics)
        ensures
            r == Metrics::spec_new(),
    {
        Metrics {
            keys_data: 0,
            keys_meta: 0,
            keys_ttl: 0,
            ops_set: 0,
            ops_get: 0,
            ops_rm: 0,
            ops_increment_frequency: 0,
            ttl_expired_keys: 0,
            disk_size_bytes: 0,
            backup_size_bytes: 0,
        }
    }

    /// The gauge of the given namespace.
    pub open spec fn spec_keys(self, tree: TreeKind) -> u64 {
        match tree {
            TreeKind::Data => self.keys_data,
            TreeKind::Meta => self.keys_meta,
            TreeKind::Ttl => self.keys_ttl,
        }
    }

    /// The metrics with the gauge of `tree` replaced by `value`.
    pub open spec fn spec_with_keys(self, tree: TreeKind, value: u64) -> Metrics {
        match tree {
            TreeKind::Data => Metrics { keys_data: value, ..self },
            TreeKind::Meta => Metrics { keys_meta: value, ..self },
            TreeKind::Ttl => Metrics { keys_ttl: value, ..self },
        }
    }

    /// The counter of the given operation.
    pub open spec fn spec_ops(self, op: OpKind) -> u64 {
        match op {
            OpKind::SetOp => self.ops_set,
            OpKind::Get => self.ops_get,
            OpKind::Rm => self.ops_rm,
            OpKind::IncrementFrequency => self.ops_increment_frequency,
        }
    }

    /// The metrics with the counter of `op` replaced by `value`.
    pub open spec fn spec_with_ops(self, op: OpKind, value: u64) -> Metrics {
        match op {
            OpKind::SetOp => Metrics { ops_set: value, ..self },
            OpKind::Get => Metrics { ops_get: value, ..self },
            OpKind::Rm => Metrics { ops_rm: value, ..self },
            OpKind::IncrementFrequency => Metrics { ops_increment_frequency: value, ..self },
        }
    }

    /// Sets the key gauge of a namespace.
    pub fn set_keys_total(&mut self, tree: TreeKind, value: u64)
        ensures
            *final(self) == old(self).spec_with_keys(tree, value),
    {
        match tree {
            TreeKind::Data => self.keys_data = value,
            TreeKind::Meta => self.keys_meta = value,
            TreeKind::Ttl => self.keys_ttl = value,
        }
    }

    /// Raises the key gauge of a namespace by one.
    pub fn inc_keys_total(&mut self, tree: TreeKind)
        ensures
            *final(self) == old(self).spec_with_keys(
                tree,
                sat_add(old(self).spec_keys(tree), 1),
            ),
    {
        self.inc_amount_keys_total(tree, 1);
    }

    /// Lowers the key gauge of a namespace by one.
    pub fn dec_keys_total(&mut self, tree: TreeKind)
        ensures
            *final(self) == old(self).spec_with_keys(
                tree,
                sat_sub(old(self).spec_keys(tree), 1),
            ),
    {
        self.dec_amount_keys_total(tree, 1);
    }

    /// Counts one operation.
    pub fn increment_operations(&mut self, op: OpKind)
        ensures
            *final(self) == old(self).spec_with_ops(op, sat_add(old(self).spec_ops(op), 1)),
    {
        self.increment_amount_operations(op, 1);
    }

    /// Publishes the sampled on-disk footprint, in bytes.
    pub fn set_disk_size(&mut self, bytes: u64)
        ensures
            *final(self) == (Metrics { disk_size_bytes: bytes, ..*old(self) }),
    {
        self.disk_size_bytes = bytes;
    }

    /// Publishes the size of the last backup archive, in bytes.
    pub fn set_backup_size(&mut self, bytes: u64)
        ensures
            *final(self) == (Metrics { backup_size_bytes: bytes, ..*old(self) }),
    {
        self.backup_size_bytes = bytes;
    }

    /// Counts one key removed by the expiration sweep.
    pub fn increment_ttl_expired_keys(&mut self)
        ensures
            *final(self) == (Metrics {
                ttl_expired_keys: sat_add(old(self).ttl_expired_keys, 1),
                ..*old(self)
            }),
    {
        self.ttl_expired_keys = self.ttl_expired_keys.saturating_add(1);
    }

    /// Raises the key gauge of a namespace by `amount`.
    pub fn inc_amount_keys_total(&mut self, tree: TreeKind, amount: u64)
        ensures
            *final(self) == old(self).spec_with_keys(
                tree,
                sat_add(old(self).spec_keys(tree), amount),
            ),
    {
        match tree {
            TreeKind::Data => self.keys_data = self.keys_data.saturating_add(amount),
            TreeKind::Meta => self.keys_meta = self.keys_meta.saturating_add(amount),
            TreeKind::Ttl => self.keys_ttl = self.keys_ttl.saturating_add(amount),
        }
    }

    /// Lowers the key gauge of a namespace by `amount`.
    pub fn dec_amount_keys_total(&mut self, tree: TreeKind, amount: u64)
        ensures
            *final(self) == old(self).spec_with_keys(
                tree,
                sat_sub(old(self).spec_keys(tree), amount),
            ),
    {
        match tree {
            TreeKind::Data => self.keys_data = self.keys_data.saturating_sub(amount),
            TreeKind::Meta => self.keys_meta = self.keys_meta.saturating_sub(amount),
            TreeKind::Ttl => self.keys_ttl = self.keys_ttl.saturating_sub(amount),
        }
    }

    /// Counts `amount` operations at once.
    pub fn increment_amount_operations(&mut self, op: OpKind, amount: u64)
        ensures
            *final(self) == old(self).spec_with_ops(
                op,
                sat_add(old(self).spec_ops(op), amount),
            ),
    {
        match op {
            OpKind::SetOp => self.ops_set = self.ops_set.saturating_add(amount),
            OpKind::Get => self.ops_get = self.ops_get.saturating_add(amount),
            OpKind::Rm => self.ops_rm = self.ops_rm.saturating_add(amount),
            OpKind::IncrementFrequency => {
                self.ops_increment_frequency = self.ops_increment_frequency.saturating_add(amount)
            },
        }
    }
}

} // verus!
