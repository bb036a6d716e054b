//! Bringing the HCA up, and the page negotiation through which the firmware
//! borrows and returns DMA memory.

use vstd::prelude::*;

use vstd::hash_map::HashMapWithView;

use crate::allocator::{run_free, AllocationGuard, Allocator};
use crate::cmdif::{command_outcome, do_command, request_log, result_view, Channel, CmdIf, SentRequest};
use crate::commands::manage_pages::{ManagePagesOutputView, ManagePagesView};
use crate::commands::{
    Command,
    EnableHCA, EnableHCAOutput, InitHCA, InitHCAOutput, ManagePages, ManagePagesOpMod,
    ManagePagesOutput, QueryHCACap, QueryHCACapOutput, QueryISSI, QueryISSIOutput, QueryPages,
    QueryPagesOpMod, QueryPagesOutput, SetISSI, SetISSIOutput, Wire,
};
use crate::error::Error;

verus! {

broadcast use vstd::std_specs::hash::group_hash_axioms;

/// The stages of bring-up, in order.
#[derive(PartialEq, Eq, Structural, Clone, Copy, Debug)]
pub enum HcaState {
    Uninitialized,
    Enabled,
    ISSINegotiated,
    BootPagesProvided,
    CapabilitiesQueried,
    InitPagesProvided,
    Initialized,
}

/// What one round of page negotiation does with the count the firmware
/// reports.
#[derive(PartialEq, Eq, Structural, Clone, Copy, Debug)]
pub enum PageAction {
    /// Lend this many pages.
    Grant(u32),
    /// Ask for this many pages back.
    Reclaim(u32),
    Nothing,
}

/// A positive count asks for that many pages, a negative one gives back
/// its magnitude, zero asks for nothing.
pub fn page_action(num_pages: i32) -> (r: PageAction)
    ensures
        num_pages > 0 ==> r == PageAction::Grant(num_pages as u32),
        num_pages < 0 ==> r == PageAction::Reclaim((-num_pages) as u32),
        num_pages == 0 ==> r == PageAction::Nothing,
{
    if num_pages > 0 {
        PageAction::Grant(num_pages as u32)
    } else if num_pages < 0 {
        PageAction::Reclaim((0i64 - num_pages as i64) as u32)
    } else {
        PageAction::Nothing
    }
}

/// The request that asks the firmware to give back `count` pages.
pub fn return_request(count: u32) -> (r: ManagePages)
    ensures
        r@.op_mod == ManagePagesOpMod::HCAReturnPages,
        r@.input_num_entries == count,
        r@.items == Seq::<u64>::empty(),
{
    ManagePages { op_mod: ManagePagesOpMod::HCAReturnPages, input_num_entries: count, items: Vec::new() }
}

/// The DMA allocator, the pages currently lent to the firmware (by device
/// address) and the bring-up stage reached.
pub struct HcaController {
    dma_allocator: Allocator,
    managed_pages: HashMapWithView<u64, AllocationGuard>,
    state: HcaState,
}

/// Distinct units lie at distinct addresses.
proof fn lemma_addr_injective(a: Allocator, s: int, t: int)
    requires
        a.granularity > 0,
        a.addr_of(s) == a.addr_of(t),
    ensures
        s == t,
{
    assert(a.granularity * s == a.granularity * t);
    assert(s == t) by (nonlinear_arith)
        requires
            a.granularity > 0,
            a.granularity * s == a.granularity * t,
    ;
}

/// The units of the pages in `new` that are not in `old`.
pub open spec fn new_units(old: Map<u64, AllocationGuard>, new: Map<u64, AllocationGuard>) -> Set<
    int,
> {
    Set::new(
        |u: int| exists|k: u64| new.contains_key(k) && !old.contains_key(k) && new[k].start == u,
    )
}

/// The units of the pages in `m` whose addresses are listed in `items`.
pub open spec fn returned_units(m: Map<u64, AllocationGuard>, items: Seq<u64>) -> Set<int> {
    Set::new(
        |u: int| exists|k: u64| m.contains_key(k) && items.contains(k) && m[k].start == u,
    )
}

impl HcaController {
    /// The addresses of the pages lent to the firmware.
    pub closed spec fn pages(&self) -> Set<u64> {
        self.managed_pages@.dom()
    }

    /// Every lent page is one unit in use by the allocator, held by a
    /// guard filed under its own address.
    pub closed spec fn wf(&self) -> bool {
        &&& self.dma_allocator.wf()
        &&& forall|k: u64| #[trigger]
            self.managed_pages@.contains_key(k) ==> {
                let g = self.managed_pages@[k];
                &&& g.wf()
                &&& g.count == 1
                &&& g.addr == k
                &&& k % self.dma_allocator.granularity == 0
                &&& k == self.dma_allocator.addr_of(g.start as int)
                &&& g.start < self.dma_allocator.units
                &&& self.dma_allocator.used().contains(g.start as int)
            }
    }

    /// The allocator's geometry never changes.
    pub closed spec fn same_region(&self, other: &HcaController) -> bool {
        &&& self.dma_allocator.base == other.dma_allocator.base
        &&& self.dma_allocator.granularity == other.dma_allocator.granularity
        &&& self.dma_allocator.units == other.dma_allocator.units
    }

    /// A controller that has lent nothing and has not started bring-up.
    pub fn new(dma_allocator: Allocator) -> (r: HcaController)
        requires
            dma_allocator.wf(),
        ensures
            r.wf(),
            r.table() == (PageTable { pages: Map::empty(), allocator: dma_allocator }),
            r.stage() == HcaState::Uninitialized,
    {
        let managed_pages = HashMapWithView::new();
        let r = HcaController { dma_allocator, managed_pages, state: HcaState::Uninitialized };
        assert(r.managed_pages@ =~= Map::<u64, AllocationGuard>::empty());
        r
    }

    /// The bring-up stage reached.
    pub closed spec fn stage(&self) -> HcaState {
        self.state
    }

    /// The bring-up stage reached.
    pub fn state(&self) -> (r: HcaState)
        ensures
            r == self.stage(),
    {
        self.state
    }

    /// Number of pages lent to the firmware.
    pub fn pages_len(&self) -> (r: usize)
        ensures
            r == self.table().pages.len(),
    {
        self.managed_pages.len()
    }

    /// Whether the page at `addr` is lent to the firmware.
    pub fn is_lent(&self, addr: u64) -> (r: bool)
        ensures
            r == self.table().pages.contains_key(addr),
    {
        self.managed_pages.contains_key(&addr)
    }

    /// Allocates `n` pages, files each under its address, and returns the
    /// request that reports them to the firmware; `OutOfMemory` when a page
    /// cannot be had (the pages taken so far stay filed).
    fn grant_pages(&mut self, n: u32) -> (r: Result<ManagePages, Error>)
        requires
            old(self).wf(),
        ensures
            final(self).wf(),
            final(self).same_region(old(self)),
            final(self).stage() == old(self).stage(),
            forall|k: u64| #[trigger]
                old(self).managed_pages@.contains_key(k) ==> final(self).managed_pages@.contains_key(k)
                    && final(self).managed_pages@[k] == old(self).managed_pages@[k],
            match r {
                Ok(cmd) => {
                    &&& cmd@.op_mod == ManagePagesOpMod::AllocationSuccess
                    &&& cmd@.input_num_entries == n
                    &&& cmd@.items.len() == n
                    &&& cmd@.items.no_duplicates()
                    &&& forall|i: int|
                        0 <= i < n ==> !old(self).pages().contains(#[trigger] cmd@.items[i])
                    &&& final(self).pages() == old(self).pages().union(cmd@.items.to_set())
                },
                Err(e) => {
                    &&& e == Error::OutOfMemory
                    &&& forall|s: int|
                        !run_free(
                            final(self).dma_allocator.used(),
                            final(self).dma_allocator.units as int,
                            s,
                            1,
                        )
                },
            },
            final(self).dma_allocator.used() == old(self).dma_allocator.used().union(
                new_units(old(self).managed_pages@, final(self).managed_pages@),
            ),
    {
        let ghost start_map = self.managed_pages@;
        let ghost start_used = self.dma_allocator.used();
        let mut items: Vec<u64> = Vec::new();
        let mut i: u32 = 0;
        while i < n
            invariant
                self.wf(),
                self.same_region(old(self)),
                self.state == old(self).state,
                i <= n,
                items@.len() == i,
                items@.no_duplicates(),
                start_map == old(self).managed_pages@,
                forall|j: int| 0 <= j < i ==> !start_map.contains_key(#[trigger] items@[j]),
                forall|k: u64| #[trigger]
                    start_map.contains_key(k) ==> self.managed_pages@.contains_key(k)
                        && self.managed_pages@[k] == start_map[k],
                self.pages() == start_map.dom().union(items@.to_set()),
                start_used == old(self).dma_allocator.used(),
                self.dma_allocator.used() == start_used.union(
                    new_units(start_map, self.managed_pages@),
                ),
            decreases n - i,
        {
            let ghost before = *self;
            let page = match self.dma_allocator.allocate(1) {
                Some(g) => g,
                None => {
                    assert forall|s: int|
                        !run_free(self.dma_allocator.used(), self.dma_allocator.units as int, s, 1)
                        by {
                        if run_free(self.dma_allocator.used(), self.dma_allocator.units as int, s, 1) {
                            assert(run_free(
                                before.dma_allocator.used(),
                                before.dma_allocator.units as int,
                                s,
                                1,
                            ));
                        }
                    }
                    return Err(Error::OutOfMemory);
                },
            };
            let addr = page.as_ptr();
            proof {
                assert(page.units() =~= set![page.start as int]);
                assert(page.units().contains(page.start as int));
                if before.managed_pages@.contains_key(addr) {
                    let h = before.managed_pages@[addr];
                    lemma_addr_injective(before.dma_allocator, h.start as int, page.start as int);
                    assert(before.dma_allocator.used().contains(h.start as int));
                    assert(false);
                }
                assert forall|k: u64| #[trigger]
                    self.managed_pages@.contains_key(k) implies self.dma_allocator.used().contains(
                    self.managed_pages@[k].start as int,
                ) by {}
            }
            let ghost items_before = items@;
            items.push(addr);
            self.managed_pages.insert(addr, page);
            proof {
                assert forall|j: int| 0 <= j < items@.len() - 1 implies items@[j] != addr by {
                    assert(self.managed_pages@.contains_key(items@[j]));
                    assert(before.pages().contains(items@[j]));
                }
                items_before.lemma_push_to_set_commute(addr);
                assert(items@ == items_before.push(addr));
                assert(self.pages() =~= start_map.dom().union(items@.to_set()));
                let ps = page.start as int;
                let nu0 = new_units(start_map, before.managed_pages@);
                let nu1 = new_units(start_map, self.managed_pages@);
                assert(!start_map.contains_key(addr));
                assert forall|u: int| nu1.contains(u) <==> (nu0.contains(u) || u == ps) by {
                    if nu1.contains(u) {
                        let k = choose|k: u64|
                            self.managed_pages@.contains_key(k) && !start_map.contains_key(k)
                                && self.managed_pages@[k].start == u;
                        if k != addr {
                            assert(before.managed_pages@.contains_key(k));
                            assert(nu0.contains(u));
                        }
                    }
                    if nu0.contains(u) {
                        let k = choose|k: u64|
                            before.managed_pages@.contains_key(k) && !start_map.contains_key(k)
                                && before.managed_pages@[k].start == u;
                        assert(k != addr);
                        assert(self.managed_pages@.contains_key(k));
                    }
                    if u == ps {
                        assert(self.managed_pages@.contains_key(addr));
                    }
                }
                assert(nu1 =~= nu0.insert(ps));
                assert(self.dma_allocator.used() =~= start_used.union(nu1));
            }
            i = i + 1;
        }
        Ok(ManagePages { op_mod: ManagePagesOpMod::AllocationSuccess, input_num_entries: n, items })
    }

    /// Takes back the pages at `items` that the firmware returns: each that
    /// is filed is removed from the table and its unit released to the
    /// allocator; addresses that are not filed are passed over.
    fn reclaim_pages(&mut self, items: &Vec<u64>)
        requires
            old(self).wf(),
        ensures
            final(self).wf(),
            final(self).same_region(old(self)),
            final(self).stage() == old(self).stage(),
            final(self).managed_pages@ == old(self).managed_pages@.remove_keys(items@.to_set()),
            final(self).dma_allocator.used() == old(self).dma_allocator.used().difference(
                returned_units(old(self).managed_pages@, items@),
            ),
    {
        let ghost start_map = self.managed_pages@;
        let ghost start_used = self.dma_allocator.used();
        let mut i: usize = 0;
        while i < items.len()
            invariant
                self.wf(),
                self.same_region(old(self)),
                self.state == old(self).state,
                i <= items@.len(),
                start_map == old(self).managed_pages@,
                self.managed_pages@ == start_map.remove_keys(items@.subrange(0, i as int).to_set()),
                start_used == old(self).dma_allocator.used(),
                self.dma_allocator.used() == start_used.difference(
                    returned_units(start_map, items@.subrange(0, i as int)),
                ),
            decreases items@.len() - i,
        {
            let addr = items[i];
            let ghost before = *self;
            let ghost done = items@.subrange(0, i as int);
            let removed = self.managed_pages.remove(&addr);
            match removed {
                Some(g) => {
                    let ghost gs = g.start as int;
                    self.dma_allocator.release(g);
                    proof {
                        assert(g.units() =~= set![gs]);
                        assert forall|k: u64| #[trigger]
                            self.managed_pages@.contains_key(k) implies self.dma_allocator.used().contains(
                            self.managed_pages@[k].start as int,
                        ) by {
                            assert(before.managed_pages@.contains_key(k));
                            assert(k != addr);
                            assert(self.managed_pages@[k].start as int != gs);
                        }
                    }
                },
                None => {},
            }
            proof {
                let now = items@.subrange(0, i + 1);
                done.lemma_push_to_set_commute(addr);
                assert(now == done.push(addr));
                assert(self.managed_pages@ =~= start_map.remove_keys(now.to_set()));
                let ret_done = returned_units(start_map, done);
                let ret_now = returned_units(start_map, now);
                assert forall|k: u64| now.contains(k) <==> (done.contains(k) || k == addr) by {
                    if now.contains(k) && k != addr {
                        let j = choose|j: int| 0 <= j < now.len() && now[j] == k;
                        assert(done[j] == k);
                    }
                    if done.contains(k) {
                        let j = choose|j: int| 0 <= j < done.len() && done[j] == k;
                        assert(now[j] == k);
                    }
                    if k == addr {
                        assert(now[i as int] == k);
                    }
                }
                if before.managed_pages@.contains_key(addr) {
                    let gs = start_map[addr].start as int;
                    assert(!done.contains(addr));
                    assert forall|u: int| ret_now.contains(u) <==> (ret_done.contains(u) || u == gs) by {
                        if ret_now.contains(u) {
                            let k = choose|k: u64|
                                start_map.contains_key(k) && now.contains(k) && start_map[k].start == u;
                            if k != addr {
                                assert(ret_done.contains(u));
                            }
                        }
                        if ret_done.contains(u) {
                            let k = choose|k: u64|
                                start_map.contains_key(k) && done.contains(k) && start_map[k].start == u;
                            assert(now.contains(k));
                        }
                        if u == gs {
                            assert(now.contains(addr));
                        }
                    }
                    assert(ret_now =~= ret_done.insert(gs));
                } else {
                    assert(!start_map.contains_key(addr) || done.contains(addr));
                    assert forall|u: int| ret_now.contains(u) <==> ret_done.contains(u) by {
                        if ret_now.contains(u) {
                            let k = choose|k: u64|
                                start_map.contains_key(k) && now.contains(k) && start_map[k].start == u;
                            assert(done.contains(k));
                        }
                        if ret_done.contains(u) {
                            let k = choose|k: u64|
                                start_map.contains_key(k) && done.contains(k) && start_map[k].start == u;
                            assert(now.contains(k));
                        }
                    }
                    assert(ret_now =~= ret_done);
                }
                assert(self.dma_allocator.used() =~= start_used.difference(ret_now));
            }
            i = i + 1;
        }
        assert(items@.subrange(0, items@.len() as int) =~= items@);
    }

    /// Acts on the page count `n` the firmware reported: grants and
    /// reports `n` pages when positive, asks for `-n` pages back and
    /// reclaims the addresses the firmware lists when negative, and does
    /// nothing when zero.
    pub fn apply_page_count<C: CmdIf>(&mut self, ch: &mut Channel<C>, n: i32) -> (r: Result<
        (),
        Error,
    >)
        requires
            old(self).wf(),
        ensures
            final(self).wf(),
            final(self).same_region(old(self)),
            final(self).stage() == old(self).stage(),
            final(ch).transport == old(ch).transport,
            final(ch).sent@ == old(ch).sent@ + sent_since(old(ch).sent@, final(ch).sent@),
            page_round(
                &old(ch).transport,
                old(self).table(),
                final(self).table(),
                n,
                r,
                sent_since(old(ch).sent@, final(ch).sent@),
            ),
    {
        let ghost t0 = self.table();
        let ghost s0 = ch.sent@;
        proof {
            lemma_sent_since_empty(s0);
        }
        match page_action(n) {
            PageAction::Grant(c) => {
                let cmd = match self.grant_pages(c) {
                    Ok(cmd) => cmd,
                    Err(e) => {
                        return Err(e);
                    },
                };
                let ghost t1 = self.table();
                let ghost items = cmd@.items;
                assert(cmd@ == (ManagePagesView {
                    op_mod: ManagePagesOpMod::AllocationSuccess,
                    input_num_entries: c,
                    items,
                }));
                let rm = do_command(ch, &cmd);
                let r = match rm {
                    Ok(_) => Ok(()),
                    Err(e) => Err(e),
                };
                proof {
                    lemma_sent_since_append(s0, sent_since(s0, ch.sent@));
                    assert forall|i: int| 0 <= i < c implies #[trigger] t1.pages[items[i]].addr
                        == items[i] && t1.pages[items[i]].count == 1 && items[i]
                        % t1.allocator.granularity == 0 by {
                        assert(t1.pages.dom().contains(items[i]));
                    }
                }
                assert(granted(t0, t1, c, items));
                assert(ManagePages::spec_outlen(cmd@) == 0x10);
                assert(ch.sent@ == s0 + request_log(grant_request(c, items), 0x10));
                assert(sent_since(s0, ch.sent@) == request_log(grant_request(c, items), 0x10));
                assert(command_outcome::<C, ManagePagesOutput>(&ch.transport, grant_request(c, items), 0x10, result_view(rm)));
                assert(r == unit_result(result_view(rm)));
                assert(grant_reported(
                    &ch.transport,
                    t0,
                    t1,
                    c,
                    items,
                    result_view(rm),
                    r,
                    sent_since(s0, ch.sent@),
                ));
                r
            },
            PageAction::Reclaim(c) => {
                if c as usize > (usize::MAX - 0x10) / 8 {
                    return Err(Error::Encoding);
                }
                let req = return_request(c);
                assert(req@ == (ManagePagesView {
                    op_mod: ManagePagesOpMod::HCAReturnPages,
                    input_num_entries: c,
                    items: Seq::empty(),
                }));
                let rm = do_command(ch, &req);
                let ghost rmv = result_view(rm);
                proof {
                    assert(ManagePages::spec_outlen(req@) == (0x10 + 8 * c) as nat);
                    assert(ManagePages::spec_encode(req@) == return_request_bytes(c));
                    assert(ch.sent@ == s0 + request_log(return_request_bytes(c), (0x10 + 8 * c) as nat));
                    lemma_sent_since_append(s0, request_log(return_request_bytes(c), (0x10 + 8 * c) as nat));
                    assert(command_outcome::<C, ManagePagesOutput>(&ch.transport, return_request_bytes(c), (0x10 + 8 * c) as nat, rmv));
                    assert((-n) as u32 == c);
                }
                match rm {
                    Ok(out) => {
                        self.reclaim_pages(&out.items);
                        assert(return_answered(
                            &ch.transport,
                            t0,
                            self.table(),
                            c,
                            rmv,
                            Ok(()),
                            sent_since(s0, ch.sent@),
                        ));
                        Ok(())
                    },
                    Err(e) => {
                        assert(return_answered(
                            &ch.transport,
                            t0,
                            self.table(),
                            c,
                            rmv,
                            Err(e),
                            sent_since(s0, ch.sent@),
                        ));
                        Err(e)
                    },
                }
            },
            PageAction::Nothing => Ok(()),
        }
    }

    /// Runs one round of page negotiation for `page_type`: asks the
    /// firmware how many pages it wants, then acts on the count as
    /// `apply_page_count` does. A failed query changes nothing and sends
    /// nothing more.
    pub fn handle_page_request<C: CmdIf>(
        &mut self,
        ch: &mut Channel<C>,
        page_type: QueryPagesOpMod,
    ) -> (r: Result<(), Error>)
        requires
            old(self).wf(),
        ensures
            final(self).wf(),
            final(self).same_region(old(self)),
            final(self).stage() == old(self).stage(),
            final(ch).transport == old(ch).transport,
            final(ch).sent@ == old(ch).sent@ + sent_since(old(ch).sent@, final(ch).sent@),
            query_round(
                &old(ch).transport,
                page_type,
                old(self).table(),
                final(self).table(),
                r,
                sent_since(old(ch).sent@, final(ch).sent@),
            ),
    {
        let ghost t0 = self.table();
        let ghost s0 = ch.sent@;
        let q = do_command(ch, &QueryPages { op_mod: page_type });
        let ghost s1 = ch.sent@;
        let ghost rq = result_view(q);
        assert(query_answered(&ch.transport, page_type, rq));
        proof {
            assert(s1 == s0 + query_log(page_type));
            lemma_sent_since_append(s0, query_log(page_type));
        }
        match q {
            Ok(v) => {
                let r = self.apply_page_count(ch, v.num_pages);
                proof {
                    let ql = query_log(page_type);
                    let rest = sent_since(s1, ch.sent@);
                    assert(sent_since(s0, s1) == ql);
                    lemma_sent_since_append(s0, ql + rest);
                    assert(ch.sent@ =~= s0 + (ql + rest));
                    assert((ql + rest).subrange(0, ql.len() as int) =~= ql);
                    assert((ql + rest).subrange(ql.len() as int, (ql + rest).len() as int) =~= rest);
                }
                r
            },
            Err(e) => Err(e),
        }
    }

    /// Brings the HCA up: enable, negotiate interface version 1, provide the
    /// boot pages, probe the capabilities, provide the init pages, and
    /// initialise, in that order. The first failure aborts the sequence:
    /// nothing more is sent, and the state names the step that failed; it
    /// then has to be run again from the start.
    pub fn initialize<C: CmdIf>(&mut self, ch: &mut Channel<C>) -> (r: Result<(), Error>)
        requires
            old(self).wf(),
        ensures
            final(self).wf(),
            final(self).same_region(old(self)),
            r is Ok <==> final(self).stage() == HcaState::Initialized,
            final(ch).transport == old(ch).transport,
            final(ch).sent@ == old(ch).sent@ + sent_since(old(ch).sent@, final(ch).sent@),
            r is Ok ==> bring_up_succeeded(
                &old(ch).transport,
                old(self).table(),
                final(self).table(),
                sent_since(old(ch).sent@, final(ch).sent@),
            ),
            r matches Err(e) ==> failed_at(
                &old(ch).transport,
                final(self).stage(),
                e,
                old(self).table(),
                final(self).table(),
                sent_since(old(ch).sent@, final(ch).sent@),
            ),
    {
        let ghost t0 = self.table();
        let ghost s0 = ch.sent@;
        let ghost tr = ch.transport;
        self.state = HcaState::Uninitialized;
        let enabled = do_command(ch, &EnableHCA(()));
        proof {
            assert(ch.sent@ == s0 + enable_log());
            lemma_sent_since_append(s0, enable_log());
        }
        match enabled {
            Ok(x) => {
                assert(command_outcome::<C, EnableHCAOutput>(&tr, enable_request(), 0x10, Ok(x@)));
            },
            Err(e) => {
                return Err(e);
            },
        }
        self.state = HcaState::Enabled;
        let queried = do_command(ch, &QueryISSI(()));
        proof {
            assert(ch.sent@ =~= s0 + (enable_log() + query_issi_log()));
            lemma_sent_since_append(s0, enable_log() + query_issi_log());
        }
        match queried {
            Ok(x) => {
                assert(command_outcome::<C, QueryISSIOutput>(&tr, query_issi_request(), 0x70, Ok(x@)));
            },
            Err(e) => {
                return Err(e);
            },
        }
        let set = do_command(ch, &SetISSI { current_issi: 1 });
        proof {
            assert(ch.sent@ =~= s0 + issi_log());
            lemma_sent_since_append(s0, issi_log());
        }
        match set {
            Ok(x) => {
                assert(command_outcome::<C, SetISSIOutput>(&tr, set_issi_request(), 0x10, Ok(x@)));
            },
            Err(e) => {
                return Err(e);
            },
        }
        self.state = HcaState::ISSINegotiated;
        let ghost s_boot = ch.sent@;
        let boot = self.handle_page_request(ch, QueryPagesOpMod::BootPages);
        let ghost l1 = sent_since(s_boot, ch.sent@);
        let ghost t1 = self.table();
        proof {
            assert(ch.sent@ =~= s0 + (issi_log() + l1));
            lemma_sent_since_append(s0, issi_log() + l1);
            assert(query_round(&tr, QueryPagesOpMod::BootPages, t0, t1, boot, l1));
        }
        match boot {
            Ok(()) => {},
            Err(e) => {
                return Err(e);
            },
        }
        self.state = HcaState::BootPagesProvided;
        let cap = do_command(ch, &QueryHCACap { op_mod: 0x0001 });
        proof {
            assert(ch.sent@ =~= s0 + (issi_log() + l1 + query_cap_log()));
            lemma_sent_since_append(s0, issi_log() + l1 + query_cap_log());
        }
        match cap {
            Ok(x) => {
                assert(command_outcome::<C, QueryHCACapOutput>(&tr, query_cap_request(), 0x1010, Ok(x@)));
            },
            Err(e) => {
                return Err(e);
            },
        }
        self.state = HcaState::CapabilitiesQueried;
        let ghost s_init = ch.sent@;
        let init = self.handle_page_request(ch, QueryPagesOpMod::InitPages);
        let ghost l2 = sent_since(s_init, ch.sent@);
        let ghost t2 = self.table();
        proof {
            assert(ch.sent@ =~= s0 + (issi_log() + l1 + query_cap_log() + l2));
            lemma_sent_since_append(s0, issi_log() + l1 + query_cap_log() + l2);
            assert(query_round(&tr, QueryPagesOpMod::InitPages, t1, t2, init, l2));
        }
        match init {
            Ok(()) => {},
            Err(e) => {
                return Err(e);
            },
        }
        self.state = HcaState::InitPagesProvided;
        let fin = do_command(ch, &InitHCA(()));
        proof {
            assert(ch.sent@ =~= s0 + (issi_log() + l1 + query_cap_log() + l2 + init_log()));
            lemma_sent_since_append(s0, issi_log() + l1 + query_cap_log() + l2 + init_log());
        }
        match fin {
            Ok(x) => {
                assert(command_outcome::<C, InitHCAOutput>(&tr, init_request(), 0x10, Ok(x@)));
            },
            Err(e) => {
                return Err(e);
            },
        }
        self.state = HcaState::Initialized;
        Ok(())
    }
}

/// The requests appended to the record `before` to give `after`.
pub open spec fn sent_since(before: Seq<SentRequest>, after: Seq<SentRequest>) -> Seq<SentRequest> {
    after.subrange(before.len() as int, after.len() as int)
}

proof fn lemma_sent_since_empty(s: Seq<SentRequest>)
    ensures
        sent_since(s, s) == Seq::<SentRequest>::empty(),
        s == s + Seq::<SentRequest>::empty(),
{
    assert(sent_since(s, s) =~= Seq::<SentRequest>::empty());
    assert(s =~= s + Seq::<SentRequest>::empty());
}

proof fn lemma_sent_since_append(s: Seq<SentRequest>, l: Seq<SentRequest>)
    ensures
        sent_since(s, s + l) == l,
{
    assert(sent_since(s, s + l) =~= l);
}

/// The lent pages and the allocator they come from.
pub struct PageTable {
    pub pages: Map<u64, AllocationGuard>,
    pub allocator: Allocator,
}

impl HcaController {
    pub closed spec fn table(&self) -> PageTable {
        PageTable { pages: self.managed_pages@, allocator: self.dma_allocator }
    }
}

/// `Ok(())` for any success, the same error for a failure.
pub open spec fn unit_result<T>(r: Result<T, Error>) -> Result<(), Error> {
    match r {
        Ok(_) => Ok(()),
        Err(e) => Err(e),
    }
}

/// `new` lends the `n` distinct new pages `items` on top of what `old` lent:
/// each a one-unit guard filed under its own granularity-aligned address,
/// and the allocator's used units grow by exactly their units.
pub open spec fn granted(old: PageTable, new: PageTable, n: u32, items: Seq<u64>) -> bool {
    &&& items.len() == n
    &&& items.no_duplicates()
    &&& forall|i: int| 0 <= i < n ==> !old.pages.contains_key(#[trigger] items[i])
    &&& new.pages.dom() == old.pages.dom().union(items.to_set())
    &&& forall|k: u64| #[trigger]
        old.pages.contains_key(k) ==> new.pages.contains_key(k) && new.pages[k] == old.pages[k]
    &&& forall|i: int|
        0 <= i < n ==> #[trigger] new.pages[items[i]].addr == items[i] && new.pages[items[i]].count
            == 1 && items[i] % new.allocator.granularity == 0
    &&& new.allocator.used() == old.allocator.used().union(new_units(old.pages, new.pages))
}

/// Granting stopped because no free unit is left; what was lent stays, and
/// the used units grew by exactly those of the pages filed meanwhile.
pub open spec fn out_of_pages(old: PageTable, new: PageTable) -> bool {
    &&& forall|k: u64| #[trigger]
        old.pages.contains_key(k) ==> new.pages.contains_key(k) && new.pages[k] == old.pages[k]
    &&& forall|s: int| !run_free(new.allocator.used(), new.allocator.units as int, s, 1)
    &&& new.allocator.used() == old.allocator.used().union(new_units(old.pages, new.pages))
}

/// The pages at `items` are no longer lent and their units, and only
/// those, are free again.
pub open spec fn reclaimed(old: PageTable, new: PageTable, items: Seq<u64>) -> bool {
    &&& new.pages == old.pages.remove_keys(items.to_set())
    &&& new.allocator.used() == old.allocator.used().difference(returned_units(old.pages, items))
}

/// The request reporting `items` as granted.
pub open spec fn grant_request(n: u32, items: Seq<u64>) -> Seq<u8> {
    ManagePages::spec_encode(
        ManagePagesView { op_mod: ManagePagesOpMod::AllocationSuccess, input_num_entries: n, items },
    )
}

/// The request asking for `c` pages back.
pub open spec fn return_request_bytes(c: u32) -> Seq<u8> {
    ManagePages::spec_encode(
        ManagePagesView {
            op_mod: ManagePagesOpMod::HCAReturnPages,
            input_num_entries: c,
            items: Seq::empty(),
        },
    )
}

/// `n` pages were granted as `items`, the one request reporting them was
/// sent and had the outcome `rm`, and `r` follows it.
pub open spec fn grant_reported<C: CmdIf>(
    cmdif: &C,
    old: PageTable,
    new: PageTable,
    n: u32,
    items: Seq<u64>,
    rm: Result<ManagePagesOutputView, Error>,
    r: Result<(), Error>,
    log: Seq<SentRequest>,
) -> bool {
    &&& granted(old, new, n, items)
    &&& command_outcome::<C, ManagePagesOutput>(cmdif, grant_request(n, items), 0x10, rm)
    &&& r == unit_result(rm)
    &&& log == request_log(grant_request(n, items), 0x10)
}

/// The one request for `c` pages back was sent and had the outcome `rm`:
/// on failure nothing changes, on success the listed pages are reclaimed.
pub open spec fn return_answered<C: CmdIf>(
    cmdif: &C,
    old: PageTable,
    new: PageTable,
    c: u32,
    rm: Result<ManagePagesOutputView, Error>,
    r: Result<(), Error>,
    log: Seq<SentRequest>,
) -> bool {
    &&& command_outcome::<C, ManagePagesOutput>(
        cmdif,
        return_request_bytes(c),
        (0x10 + 8 * c) as nat,
        rm,
    )
    &&& log == request_log(return_request_bytes(c), (0x10 + 8 * c) as nat)
    &&& match rm {
        Err(e) => r == Err::<(), Error>(e) && new == old,
        Ok(o) => r == Ok::<(), Error>(()) && reclaimed(old, new, o.items),
    }
}

/// What acting on the page count `n` does to the table, and the requests
/// `log` it sends.
pub open spec fn page_round<C: CmdIf>(
    cmdif: &C,
    old: PageTable,
    new: PageTable,
    n: i32,
    r: Result<(), Error>,
    log: Seq<SentRequest>,
) -> bool {
    if n == 0 {
        r == Ok::<(), Error>(()) && new == old && log == Seq::<SentRequest>::empty()
    } else if n > 0 {
        ||| r == Err::<(), Error>(Error::OutOfMemory) && out_of_pages(old, new) && log
            == Seq::<SentRequest>::empty()
        ||| exists|items: Seq<u64>, rm: Result<ManagePagesOutputView, Error>|
            #[trigger] grant_reported(cmdif, old, new, n as u32, items, rm, r, log)
    } else if (-n) as u32 > (usize::MAX - 0x10) / 8 {
        r == Err::<(), Error>(Error::Encoding) && new == old && log == Seq::<SentRequest>::empty()
    } else {
        exists|rm: Result<ManagePagesOutputView, Error>|
            #[trigger] return_answered(cmdif, old, new, (-n) as u32, rm, r, log)
    }
}

/// The query for `page_type` pages.
pub open spec fn query_request(page_type: QueryPagesOpMod) -> Seq<u8> {
    QueryPages::spec_encode(QueryPages { op_mod: page_type })
}

pub open spec fn query_log(page_type: QueryPagesOpMod) -> Seq<SentRequest> {
    request_log(query_request(page_type), 0x10)
}

/// The query for `page_type` pages had the outcome `rq`.
pub open spec fn query_answered<C: CmdIf>(
    cmdif: &C,
    page_type: QueryPagesOpMod,
    rq: Result<QueryPagesOutput, Error>,
) -> bool {
    command_outcome::<C, QueryPagesOutput>(cmdif, query_request(page_type), 0x10, rq)
}

/// One round of page negotiation: the query is sent first; on its error
/// nothing changes and nothing more is sent, otherwise the round for the
/// reported count follows.
pub open spec fn query_round<C: CmdIf>(
    cmdif: &C,
    page_type: QueryPagesOpMod,
    old: PageTable,
    new: PageTable,
    r: Result<(), Error>,
    log: Seq<SentRequest>,
) -> bool {
    let ql = query_log(page_type);
    exists|rq: Result<QueryPagesOutput, Error>|
        #[trigger] query_answered(cmdif, page_type, rq) && match rq {
            Err(e) => r == Err::<(), Error>(e) && new == old && log == ql,
            Ok(v) => {
                &&& log.len() >= ql.len()
                &&& log.subrange(0, ql.len() as int) == ql
                &&& page_round(cmdif, old, new, v.num_pages, r, log.subrange(ql.len() as int, log.len() as int))
            },
        }
}

pub open spec fn enable_request() -> Seq<u8> {
    EnableHCA::spec_encode(EnableHCA(()))
}

pub open spec fn query_issi_request() -> Seq<u8> {
    QueryISSI::spec_encode(QueryISSI(()))
}

pub open spec fn set_issi_request() -> Seq<u8> {
    SetISSI::spec_encode(SetISSI { current_issi: 1 })
}

pub open spec fn query_cap_request() -> Seq<u8> {
    QueryHCACap::spec_encode(QueryHCACap { op_mod: 1 })
}

pub open spec fn init_request() -> Seq<u8> {
    InitHCA::spec_encode(InitHCA(()))
}

pub open spec fn enable_log() -> Seq<SentRequest> {
    request_log(enable_request(), 0x10)
}

pub open spec fn query_issi_log() -> Seq<SentRequest> {
    request_log(query_issi_request(), 0x70)
}

pub open spec fn set_issi_log() -> Seq<SentRequest> {
    request_log(set_issi_request(), 0x10)
}

pub open spec fn query_cap_log() -> Seq<SentRequest> {
    request_log(query_cap_request(), 0x1010)
}

pub open spec fn init_log() -> Seq<SentRequest> {
    request_log(init_request(), 0x10)
}

/// The requests of bring-up before the boot pages.
pub open spec fn issi_log() -> Seq<SentRequest> {
    enable_log() + query_issi_log() + set_issi_log()
}

/// The device may answer `input` with a reply of type `T` that succeeds.
pub open spec fn succeeded<C: CmdIf, T: Wire>(cmdif: &C, input: Seq<u8>, outlen: nat) -> bool {
    exists|v: T::V| #[trigger] command_outcome::<C, T>(cmdif, input, outlen, Ok(v))
}

/// Every step of bring-up succeeded, and exactly its requests were sent,
/// in order: enable, query and set interface version 1, the boot-page
/// round, the capability probe, the init-page round and the
/// initialisation.
pub open spec fn bring_up_succeeded<C: CmdIf>(
    cmdif: &C,
    old: PageTable,
    new: PageTable,
    log: Seq<SentRequest>,
) -> bool {
    &&& succeeded::<C, EnableHCAOutput>(cmdif, enable_request(), 0x10)
    &&& succeeded::<C, QueryISSIOutput>(cmdif, query_issi_request(), 0x70)
    &&& succeeded::<C, SetISSIOutput>(cmdif, set_issi_request(), 0x10)
    &&& succeeded::<C, QueryHCACapOutput>(cmdif, query_cap_request(), 0x1010)
    &&& succeeded::<C, InitHCAOutput>(cmdif, init_request(), 0x10)
    &&& exists|mid: PageTable, l1: Seq<SentRequest>, l2: Seq<SentRequest>|
        #![trigger query_round(cmdif, QueryPagesOpMod::BootPages, old, mid, Ok(()), l1), query_round(cmdif, QueryPagesOpMod::InitPages, mid, new, Ok(()), l2)]
        query_round(cmdif, QueryPagesOpMod::BootPages, old, mid, Ok(()), l1) && query_round(
            cmdif,
            QueryPagesOpMod::InitPages,
            mid,
            new,
            Ok(()),
            l2,
        ) && log == issi_log() + l1 + query_cap_log() + l2 + init_log()
}

/// The step that `state` names failed with `e`, after the requests of the
/// steps before it, and nothing was sent after it.
pub open spec fn failed_at<C: CmdIf>(
    cmdif: &C,
    state: HcaState,
    e: Error,
    old: PageTable,
    new: PageTable,
    log: Seq<SentRequest>,
) -> bool {
    match state {
        HcaState::Uninitialized => command_outcome::<C, EnableHCAOutput>(
            cmdif,
            enable_request(),
            0x10,
            Err(e),
        ) && log == enable_log() && new == old,
        HcaState::Enabled => new == old && ((command_outcome::<C, QueryISSIOutput>(
            cmdif,
            query_issi_request(),
            0x70,
            Err(e),
        ) && log == enable_log() + query_issi_log()) || (command_outcome::<C, SetISSIOutput>(
            cmdif,
            set_issi_request(),
            0x10,
            Err(e),
        ) && log == issi_log())),
        HcaState::ISSINegotiated => exists|l1: Seq<SentRequest>|
            #[trigger] query_round(cmdif, QueryPagesOpMod::BootPages, old, new, Err(e), l1) && log
                == issi_log() + l1,
        HcaState::BootPagesProvided => exists|l1: Seq<SentRequest>|
            #[trigger] query_round(cmdif, QueryPagesOpMod::BootPages, old, new, Ok(()), l1)
                && command_outcome::<C, QueryHCACapOutput>(cmdif, query_cap_request(), 0x1010, Err(e))
                && log == issi_log() + l1 + query_cap_log(),
        HcaState::CapabilitiesQueried => exists|mid: PageTable, l1: Seq<SentRequest>, l2: Seq<SentRequest>|
            #![trigger query_round(cmdif, QueryPagesOpMod::BootPages, old, mid, Ok(()), l1), query_round(cmdif, QueryPagesOpMod::InitPages, mid, new, Err(e), l2)]
            query_round(cmdif, QueryPagesOpMod::BootPages, old, mid, Ok(()), l1) && query_round(
                cmdif,
                QueryPagesOpMod::InitPages,
                mid,
                new,
                Err(e),
                l2,
            ) && log == issi_log() + l1 + query_cap_log() + l2,
        HcaState::InitPagesProvided => exists|mid: PageTable, l1: Seq<SentRequest>, l2: Seq<SentRequest>|
            #![trigger query_round(cmdif, QueryPagesOpMod::BootPages, old, mid, Ok(()), l1), query_round(cmdif, QueryPagesOpMod::InitPages, mid, new, Ok(()), l2)]
            query_round(cmdif, QueryPagesOpMod::BootPages, old, mid, Ok(()), l1) && query_round(
                cmdif,
                QueryPagesOpMod::InitPages,
                mid,
                new,
                Ok(()),
                l2,
            ) && command_outcome::<C, InitHCAOutput>(cmdif, init_request(), 0x10, Err(e)) && log
                == issi_log() + l1 + query_cap_log() + l2 + init_log(),
        HcaState::Initialized => false,
    }
}

} // verus!
