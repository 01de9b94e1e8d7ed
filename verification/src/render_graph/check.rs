//! Checking, before compilation, that a graph is one the compiler accepts.
use vstd::prelude::*;
use super::{RgAccess, RgAttachment, RgBufferRange, RgPass, RgResourceState};
use super::barriers::{spec_owner_consistent, spec_range_fits, validate_declared_access};
use super::graph::{RenderGraph, spec_access_wf, spec_attachment_wf, spec_graph_wf, spec_pass_wf, spec_table};
use super::plan::spec_refs_below;
use crate::vk_values::WHOLE_SIZE;

verus! {

/// Whether a declared range fits a buffer of `buffer_size` bytes.
fn range_fits(buffer_size: u64, range: Option<RgBufferRange>) -> (r: bool)
    ensures
        r == spec_range_fits(buffer_size, range),
{
    match range {
        Some(range) => range.size > 0 && range.offset <= u64::MAX - range.size && (buffer_size
            == WHOLE_SIZE || range.offset + range.size <= buffer_size),
        None => true,
    }
}

fn access_wf(resources: &Vec<RgResourceState>, access: &RgAccess) -> (r: bool)
    ensures
        r == spec_access_wf(spec_table(resources@), *access),
{
    let index = access.resource.index as usize;
    if index >= resources.len() {
        return false;
    }
    let resource = &resources[index];
    validate_declared_access(resource, access.usage) && if resource.is_image {
        access.buffer_range.is_none()
    } else {
        range_fits(resource.buffer_size, access.buffer_range)
    }
}

fn attachment_wf(resources: &Vec<RgResourceState>, att: &RgAttachment) -> (r: bool)
    ensures
        r == spec_attachment_wf(spec_table(resources@), *att),
{
    let index = att.resource.index as usize;
    if index >= resources.len() || !resources[index].is_image {
        return false;
    }
    match att.resolve {
        Some(res) => (res.index as usize) < resources.len() && resources[res.index as usize].is_image,
        None => true,
    }
}

fn pass_wf(resources: &Vec<RgResourceState>, pass: &RgPass) -> (r: bool)
    ensures
        r == spec_pass_wf(spec_table(resources@), *pass),
{
    let ghost table = spec_table(resources@);
    let mut k: usize = 0;
    while k < pass.accesses.len()
        invariant
            table == spec_table(resources@),
            k <= pass.accesses@.len(),
            forall|j: int| 0 <= j < k ==> spec_access_wf(table, #[trigger] pass.accesses@[j]),
        decreases pass.accesses.len() - k,
    {
        if !access_wf(resources, &pass.accesses[k]) {
            return false;
        }
        k = k + 1;
    }
    let mut k: usize = 0;
    while k < pass.colors.len()
        invariant
            table == spec_table(resources@),
            k <= pass.colors@.len(),
            forall|j: int| 0 <= j < pass.accesses@.len() ==> spec_access_wf(table, #[trigger] pass.accesses@[j]),
            forall|j: int| 0 <= j < k ==> spec_attachment_wf(table, #[trigger] pass.colors@[j]),
        decreases pass.colors.len() - k,
    {
        if !attachment_wf(resources, &pass.colors[k]) {
            return false;
        }
        k = k + 1;
    }
    match &pass.depth {
        Some(d) => attachment_wf(resources, d),
        None => true,
    }
}

/// Every pass a resource's state names is below `n`.
fn refs_below(r: &RgResourceState, n: usize) -> (ok: bool)
    ensures
        ok == ((r@.last_pass matches Some(s) ==> s < n) && forall|j: int|
            0 <= j < r@.buffer_accesses.len() ==> ((#[trigger] r@.buffer_accesses[j]).last_pass matches Some(
                s,
            ) ==> s < n)),
{
    if let Some(s) = r.last_pass {
        if s >= n {
            return false;
        }
    }
    let mut j: usize = 0;
    while j < r.buffer_accesses.len()
        invariant
            j <= r.buffer_accesses@.len(),
            forall|i: int| 0 <= i < j ==> ((#[trigger] r.buffer_accesses@[i]).last_pass matches Some(s) ==> s < n),
        decreases r.buffer_accesses.len() - j,
    {
        if let Some(s) = r.buffer_accesses[j].last_pass {
            if s >= n {
                return false;
            }
        }
        j = j + 1;
    }
    true
}

impl RenderGraph {
    /// Whether the graph is one the compiler accepts (see [`spec_graph_wf`]): every declared
    /// access and attachment names a resource of the table and suits it, every image's queue
    /// identity comes with its owning family, every external slot exists, and every pass a
    /// resource's entry state names belongs to this graph.
    pub fn is_compilable(&self) -> (r: bool)
        ensures
            r == (spec_graph_wf(*self) && spec_refs_below(
                spec_table(self.resources@),
                self.passes@.len() as int,
            )),
    {
        let ghost table = spec_table(self.resources@);
        if self.resources.len() > u32::MAX as usize {
            return false;
        }
        let mut p: usize = 0;
        while p < self.passes.len()
            invariant
                table == spec_table(self.resources@),
                p <= self.passes@.len(),
                forall|q: int| 0 <= q < p ==> spec_pass_wf(table, #[trigger] self.passes@[q]),
            decreases self.passes.len() - p,
        {
            if !pass_wf(&self.resources, &self.passes[p]) {
                return false;
            }
            p = p + 1;
        }
        let n = self.passes.len();
        let mut i: usize = 0;
        while i < self.resources.len()
            invariant
                table == spec_table(self.resources@),
                n == self.passes@.len(),
                i <= table.len(),
                table.len() == self.resources@.len(),
                self.resources@.len() <= u32::MAX,
                forall|q: int| 0 <= q < self.passes@.len() ==> spec_pass_wf(table, #[trigger] self.passes@[q]),
                forall|k: int| 0 <= k < i ==> {
                    &&& ((#[trigger] table[k]).is_image ==> spec_owner_consistent(table[k]))
                    &&& (table[k].external_state matches Some(s) ==> s < self.external_states@.len())
                    &&& (table[k].external_buffer_state matches Some(s) ==> s
                        < self.external_buffer_states@.len())
                    &&& (table[k].last_pass matches Some(s) ==> s < n)
                    &&& forall|j: int|
                        0 <= j < table[k].buffer_accesses.len() ==> ((#[trigger] table[k].buffer_accesses[j]).last_pass matches Some(
                            s,
                        ) ==> s < n)
                },
            decreases self.resources.len() - i,
        {
            let r = &self.resources[i];
            assert(table[i as int] == r@);
            if r.is_image && r.queue.is_some() && r.queue_family.is_none() {
                return false;
            }
            if let Some(s) = r.external_state {
                if s >= self.external_states.len() {
                    return false;
                }
            }
            if let Some(s) = r.external_buffer_state {
                if s >= self.external_buffer_states.len() {
                    return false;
                }
            }
            if !refs_below(r, n) {
                return false;
            }
            i = i + 1;
        }
        true
    }
}

} // verus!
