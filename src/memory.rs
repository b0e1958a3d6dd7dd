//! A process's paged user memory: the set of mapped pages with their access
//! rights and contents, the range checks and changes that mapping and
//! unmapping make, and the copy engine that moves bytes between kernel
//! buffers and user memory one page window at a time.

use std::collections::BTreeMap;

use vstd::prelude::*;

use crate::addr::{page_of, PAGE_SIZE};
use crate::perm::{read_flag, write_flag, MapPermission};

verus! {

broadcast use vstd::std_specs::btree::group_btree_axioms;

/// One mapped user page: its access rights and the bytes of the physical
/// page that backs it.
pub struct Page {
    pub perm: MapPermission,
    pub data: Vec<u8>,
}

/// The part of one page that a user byte range covers: `len` bytes starting
/// at `offset` inside page `vpn`.
#[derive(Clone, Copy, Debug, PartialEq, Eq, Structural)]
pub struct Window {
    pub vpn: usize,
    pub offset: usize,
    pub len: usize,
}

/// The windows that cover `[addr, addr + len)`, in address order: one per
/// page touched, each inside its page, with no gap and no overlap.
pub open spec fn windows(addr: nat, len: nat) -> Seq<Window>
    decreases len,
{
    if len == 0 {
        Seq::empty()
    } else {
        let off = addr % (PAGE_SIZE as nat);
        let room = (PAGE_SIZE - off) as nat;
        let n = if len < room { len } else { room };
        seq![Window { vpn: page_of(addr) as usize, offset: off as usize, len: n as usize }]
            + windows(addr + n, (len - n) as nat)
    }
}

/// A page full of zero bytes.
pub open spec fn zero_page() -> Seq<u8> {
    Seq::new(PAGE_SIZE as nat, |i: int| 0u8)
}

/// `new` is `old` with `data` written at user address `addr`: the same pages
/// with the same rights, the bytes of `[addr, addr + data.len())` replaced by
/// `data`, and every other byte kept.
pub open spec fn writes_bytes(old: MemorySet, new: MemorySet, addr: nat, data: Seq<u8>) -> bool {
    &&& forall|vpn: usize| #[trigger]
        new.pages@.contains_key(vpn) <==> old.pages@.contains_key(vpn)
    &&& forall|vpn: usize| #[trigger]
        new.pages@.contains_key(vpn) ==> new.pages@[vpn].perm == old.pages@[vpn].perm
    &&& forall|vpn: usize, off: int|
        new.pages@.contains_key(vpn) && 0 <= off < PAGE_SIZE ==> #[trigger] new.byte(vpn, off)
            == if addr <= vpn * PAGE_SIZE + off < addr + data.len() {
            data[vpn * PAGE_SIZE + off - addr]
        } else {
            old.byte(vpn, off)
        }
}

/// `out` holds the bytes of `m` at `[addr, addr + out.len())`, in order.
pub open spec fn reads_bytes(m: MemorySet, addr: nat, out: Seq<u8>) -> bool {
    forall|vpn: usize, off: int|
        m.pages@.contains_key(vpn) && 0 <= off < PAGE_SIZE && addr <= vpn * PAGE_SIZE + off < addr
            + out.len() ==> out[vpn * PAGE_SIZE + off - addr] == #[trigger] m.byte(vpn, off)
}

/// Every page of `[start_vpn, end_vpn)` is free in `m`.
pub open spec fn range_free(m: MemorySet, start_vpn: nat, end_vpn: nat) -> bool {
    forall|vpn: usize| start_vpn <= vpn < end_vpn ==> !#[trigger] m.pages@.contains_key(vpn)
}

/// Every page of `[start_vpn, end_vpn)` is mapped in `m`.
pub open spec fn range_mapped(m: MemorySet, start_vpn: nat, end_vpn: nat) -> bool {
    forall|vpn: usize| start_vpn <= vpn < end_vpn ==> #[trigger] m.pages@.contains_key(vpn)
}

/// `new` is `old` with every page of `[start_vpn, end_vpn)` mapped with
/// `perm` and zero-filled, and every other page as it was.
pub open spec fn maps_range(
    old: MemorySet,
    new: MemorySet,
    start_vpn: nat,
    end_vpn: nat,
    perm: MapPermission,
) -> bool {
    &&& forall|vpn: usize| #[trigger]
        new.pages@.contains_key(vpn) <==> (old.pages@.contains_key(vpn) || start_vpn <= vpn
            < end_vpn)
    &&& forall|vpn: usize|
        start_vpn <= vpn < end_vpn ==> #[trigger] new.pages@[vpn].perm == perm
            && new.pages@[vpn].data@ == zero_page()
    &&& forall|vpn: usize|
        !(start_vpn <= vpn < end_vpn) && old.pages@.contains_key(vpn) ==> #[trigger] new.pages@[vpn]
            == old.pages@[vpn]
}

/// `new` is `old` without the pages of `[start_vpn, end_vpn)`, every other
/// page as it was.
pub open spec fn unmaps_range(old: MemorySet, new: MemorySet, start_vpn: nat, end_vpn: nat) -> bool {
    &&& forall|vpn: usize| #[trigger]
        new.pages@.contains_key(vpn) <==> (old.pages@.contains_key(vpn) && !(start_vpn <= vpn
            < end_vpn))
    &&& forall|vpn: usize| #[trigger]
        new.pages@.contains_key(vpn) ==> new.pages@[vpn] == old.pages@[vpn]
}

/// The user memory of one process, keyed by virtual page number.
pub struct MemorySet {
    pub pages: BTreeMap<usize, Page>,
}

impl MemorySet {
    /// Every mapped page is backed by exactly one page of bytes.
    pub open spec fn wf(&self) -> bool {
        forall|vpn: usize| #[trigger]
            self.pages@.contains_key(vpn) ==> self.pages@[vpn].data@.len() == PAGE_SIZE
    }

    /// Page `vpn` is mapped and allows at least `need`.
    pub open spec fn page_allows(&self, vpn: nat, need: MapPermission) -> bool {
        &&& vpn <= usize::MAX
        &&& self.pages@.contains_key(vpn as usize)
        &&& self.pages@[vpn as usize].perm.spec_contains(need)
    }

    /// Every byte of `[addr, addr + len)` lies in a mapped page that allows `need`.
    pub open spec fn accessible(&self, addr: nat, len: nat, need: MapPermission) -> bool {
        forall|i: nat| i < len ==> self.page_allows(#[trigger] page_of(addr as nat + i), need)
    }

    /// Byte `off` of page `vpn`.
    pub open spec fn byte(&self, vpn: usize, off: int) -> u8 {
        self.pages@[vpn].data@[off]
    }

    /// An address space with no page mapped.
    pub fn new() -> (r: MemorySet)
        ensures
            r.wf(),
            r.pages@ == Map::<usize, Page>::empty(),
    {
        MemorySet { pages: BTreeMap::new() }
    }

    /// Whether page `vpn` is mapped.
    pub fn is_mapped(&self, vpn: usize) -> (r: bool)
        ensures
            r == self.pages@.contains_key(vpn),
    {
        self.pages.contains_key(&vpn)
    }

    /// The range check of mapping and unmapping: whether every page of
    /// `[start_vpn, end_vpn)` is mapped (`mapped`) or every one is free
    /// (`!mapped`). One page that fails fails the whole range.
    pub fn check_range(&self, start_vpn: usize, end_vpn: usize, mapped: bool) -> (r: bool)
        ensures
            r == if mapped {
                range_mapped(*self, start_vpn as nat, end_vpn as nat)
            } else {
                range_free(*self, start_vpn as nat, end_vpn as nat)
            },
    {
        let mut vpn: usize = start_vpn;
        while vpn < end_vpn
            invariant
                start_vpn <= vpn,
                forall|v: usize|
                    start_vpn <= v < vpn ==> (#[trigger] self.pages@.contains_key(v) <==> mapped),
            decreases end_vpn - vpn,
        {
            if self.pages.contains_key(&vpn) != mapped {
                assert(self.pages@.contains_key(vpn) != mapped);
                return false;
            }
            vpn = vpn + 1;
        }
        true
    }
    /// Maps every page of `[start_vpn, end_vpn)` with `perm`, each backed by
    /// a fresh page of zero bytes. Pages outside the range are untouched.
    pub fn map_range(&mut self, start_vpn: usize, end_vpn: usize, perm: MapPermission)
        requires
            old(self).wf(),
        ensures
            final(self).wf(),
            maps_range(*old(self), *final(self), start_vpn as nat, end_vpn as nat, perm),
    {
        let mut vpn: usize = start_vpn;
        while vpn < end_vpn
            invariant
                start_vpn <= vpn,
                vpn == start_vpn || vpn <= end_vpn,
                self.wf(),
                forall|v: usize|
                    #[trigger] self.pages@.contains_key(v) <==> (old(self).pages@.contains_key(v)
                        || start_vpn <= v < vpn),
                forall|v: usize|
                    start_vpn <= v < vpn ==> #[trigger] self.pages@[v].perm == perm
                        && self.pages@[v].data@ == zero_page(),
                forall|v: usize|
                    !(start_vpn <= v < vpn) && old(self).pages@.contains_key(v)
                        ==> #[trigger] self.pages@[v] == old(self).pages@[v],
            decreases end_vpn - vpn,
        {
            let data = zeroed_frame();
            self.pages.insert(vpn, Page { perm, data });
            vpn = vpn + 1;
        }
    }

    /// Unmaps every page of `[start_vpn, end_vpn)` and releases its backing
    /// bytes. Pages outside the range are untouched.
    pub fn unmap_range(&mut self, start_vpn: usize, end_vpn: usize)
        requires
            old(self).wf(),
        ensures
            final(self).wf(),
            unmaps_range(*old(self), *final(self), start_vpn as nat, end_vpn as nat),
    {
        let mut vpn: usize = start_vpn;
        while vpn < end_vpn
            invariant
                start_vpn <= vpn,
                vpn == start_vpn || vpn <= end_vpn,
                self.wf(),
                forall|v: usize|
                    #[trigger] self.pages@.contains_key(v) <==> (old(self).pages@.contains_key(v)
                        && !(start_vpn <= v < vpn)),
                forall|v: usize|
                    #[trigger] self.pages@.contains_key(v) ==> self.pages@[v] == old(
                        self,
                    ).pages@[v],
            decreases end_vpn - vpn,
        {
            self.pages.remove(&vpn);
            vpn = vpn + 1;
        }
    }
    /// The copy engine's translation: the windows that cover
    /// `[addr, addr + len)`, or `None` when some byte of it lies in a page
    /// that is unmapped or does not allow `need`.
    pub fn translate(&self, addr: usize, len: usize, need: MapPermission) -> (r: Option<
        Vec<Window>,
    >)
        requires
            addr + len <= usize::MAX,
        ensures
            r is Some <==> self.accessible(addr as nat, len as nat, need),
            r matches Some(ws) ==> ws@ == windows(addr as nat, len as nat),
    {
        let mut ws: Vec<Window> = Vec::new();
        let mut cur: usize = addr;
        let mut rem: usize = len;
        while rem > 0
            invariant
                cur + rem == addr + len,
                addr <= cur,
                addr + len <= usize::MAX,
                ws@ + windows(cur as nat, rem as nat) == windows(addr as nat, len as nat),
                forall|i: nat|
                    i < cur - addr ==> self.page_allows(#[trigger] page_of(addr as nat + i), need),
            decreases rem,
        {
            let vpn = cur / PAGE_SIZE;
            let off = cur % PAGE_SIZE;
            let room = PAGE_SIZE - off;
            let n = if rem < room {
                rem
            } else {
                room
            };
            assert(page_of(addr as nat + (cur - addr) as nat) == vpn);
            match self.pages.get(&vpn) {
                Some(page) => {
                    if !page.perm.contains(&need) {
                        return None;
                    }
                },
                None => {
                    return None;
                },
            }
            proof {
                vstd::arithmetic::div_mod::lemma_fundamental_div_mod(cur as int, PAGE_SIZE as int);
                assert forall|i: nat| i < cur + n - addr implies self.page_allows(
                    #[trigger] page_of(addr as nat + i),
                    need,
                ) by {
                    if i >= cur - addr {
                        lemma_page_of_in_page(vpn as nat, (addr + i) as nat);
                    }
                }
                let w = Window { vpn, offset: off, len: n };
                assert(windows(cur as nat, rem as nat) == seq![w] + windows(
                    (cur + n) as nat,
                    (rem - n) as nat,
                ));
                assert(ws@.push(w) + windows((cur + n) as nat, (rem - n) as nat) =~= ws@
                    + windows(cur as nat, rem as nat));
            }
            ws.push(Window { vpn, offset: off, len: n });
            cur = cur + n;
            rem = rem - n;
        }
        assert(ws@ =~= ws@ + windows(cur as nat, rem as nat));
        Some(ws)
    }
    /// Copies `data` into user memory at `addr`, window by window, when every
    /// byte of the destination lies in a writable mapped page; otherwise
    /// changes nothing and returns `false`.
    pub fn copy_out(&mut self, addr: usize, data: &Vec<u8>) -> (r: bool)
        requires
            old(self).wf(),
            addr + data.len() <= usize::MAX,
        ensures
            final(self).wf(),
            r == old(self).accessible(addr as nat, data.len() as nat, write_flag()),
            r ==> writes_bytes(*old(self), *final(self), addr as nat, data@),
            !r ==> *final(self) == *old(self),
    {
        let len = data.len();
        let ws = match self.translate(addr, len, MapPermission::w()) {
            Some(ws) => ws,
            None => {
                return false;
            },
        };
        let ghost pre = *self;
        let mut k: usize = 0;
        let mut begin: usize = 0;
        while k < ws.len()
            invariant
                self.wf(),
                pre.wf(),
                pre == *old(self),
                addr + len <= usize::MAX,
                len == data.len(),
                k <= ws.len(),
                begin <= len,
                ws@.subrange(k as int, ws.len() as int) == windows(
                    (addr + begin) as nat,
                    (len - begin) as nat,
                ),
                pre.accessible(addr as nat, len as nat, write_flag()),
                forall|vpn: usize| #[trigger]
                    self.pages@.contains_key(vpn) <==> pre.pages@.contains_key(vpn),
                forall|vpn: usize| #[trigger]
                    self.pages@.contains_key(vpn) ==> self.pages@[vpn].perm == pre.pages@[vpn].perm,
                forall|vpn: usize, off: int|
                    self.pages@.contains_key(vpn) && 0 <= off < PAGE_SIZE ==> #[trigger] self.byte(
                        vpn,
                        off,
                    ) == if addr <= vpn * PAGE_SIZE + off < addr + begin {
                        data@[vpn * PAGE_SIZE + off - addr]
                    } else {
                        pre.byte(vpn, off)
                    },
            decreases ws.len() - k,
        {
            let w = ws[k];
            let ghost cur = (addr + begin) as nat;
            let ghost rem = (len - begin) as nat;
            proof {
                assert(ws@.subrange(k as int, ws.len() as int)[0] == w);
                assert(windows(cur, rem).len() > 0);
                assert(rem > 0);
                vstd::arithmetic::div_mod::lemma_fundamental_div_mod(cur as int, PAGE_SIZE as int);
                assert(page_of(addr as nat + (begin as nat)) == w.vpn);
                assert(ws@.subrange((k + 1) as int, ws.len() as int) =~= ws@.subrange(
                    k as int,
                    ws.len() as int,
                ).drop_first());
            }
            let ghost before = *self;
            let mut page = match self.pages.remove(&w.vpn) {
                Some(page) => page,
                None => {
                    return false;
                },
            };
            let ghost orig = page.data@;
            let mut j: usize = 0;
            while j < w.len
                invariant
                    j <= w.len,
                    w.offset + w.len <= PAGE_SIZE,
                    begin + w.len <= len,
                    len == data.len(),
                    orig.len() == PAGE_SIZE,
                    page.perm == before.pages@[w.vpn].perm,
                    page.data@.len() == PAGE_SIZE,
                    forall|o: int|
                        0 <= o < PAGE_SIZE ==> #[trigger] page.data@[o] == if w.offset <= o
                            < w.offset + j {
                            data@[begin + o - w.offset]
                        } else {
                            orig[o]
                        },
                decreases w.len - j,
            {
                page.data.set(w.offset + j, data[begin + j]);
                j = j + 1;
            }
            self.pages.insert(w.vpn, page);
            proof {
                assert forall|vpn: usize, off: int|
                    self.pages@.contains_key(vpn) && 0 <= off < PAGE_SIZE implies #[trigger] self.byte(
                    vpn,
                    off,
                ) == if addr <= vpn * PAGE_SIZE + off < addr + begin + w.len {
                    data@[vpn * PAGE_SIZE + off - addr]
                } else {
                    pre.byte(vpn, off)
                } by {
                    if vpn != w.vpn {
                        assert(self.byte(vpn, off) == before.byte(vpn, off));
                        assert(vpn * PAGE_SIZE + off < cur || vpn * PAGE_SIZE + off >= cur + w.len)
                            by (nonlinear_arith)
                            requires
                                vpn != w.vpn,
                                cur == w.vpn * PAGE_SIZE + w.offset,
                                w.offset + w.len <= PAGE_SIZE,
                                0 <= off < PAGE_SIZE,
                        ;
                    } else {
                        assert(before.byte(vpn, off) == orig[off]);
                    }
                }
            }
            begin = begin + w.len;
            k = k + 1;
        }
        proof {
            assert(ws@.subrange(k as int, ws.len() as int).len() == 0);
        }
        true
    }
    /// Copies the `len` bytes of user memory at `addr` out, window by window,
    /// when every one of them lies in a readable mapped page; otherwise `None`.
    pub fn copy_in(&self, addr: usize, len: usize) -> (r: Option<Vec<u8>>)
        requires
            self.wf(),
            addr + len <= usize::MAX,
        ensures
            r is Some <==> self.accessible(addr as nat, len as nat, read_flag()),
            r matches Some(out) ==> out@.len() == len && reads_bytes(*self, addr as nat, out@),
    {
        let ws = match self.translate(addr, len, MapPermission::r()) {
            Some(ws) => ws,
            None => {
                return None;
            },
        };
        let mut out: Vec<u8> = Vec::with_capacity(len);
        let mut k: usize = 0;
        while k < ws.len()
            invariant
                self.wf(),
                addr + len <= usize::MAX,
                k <= ws.len(),
                out@.len() <= len,
                ws@.subrange(k as int, ws.len() as int) == windows(
                    (addr + out@.len()) as nat,
                    (len - out@.len()) as nat,
                ),
                self.accessible(addr as nat, len as nat, read_flag()),
                reads_bytes(*self, addr as nat, out@),
            decreases ws.len() - k,
        {
            let w = ws[k];
            let ghost cur = (addr + out@.len()) as nat;
            let ghost rem = (len - out@.len()) as nat;
            proof {
                assert(ws@.subrange(k as int, ws.len() as int)[0] == w);
                assert(windows(cur, rem).len() > 0);
                assert(rem > 0);
                vstd::arithmetic::div_mod::lemma_fundamental_div_mod(cur as int, PAGE_SIZE as int);
                assert(page_of(addr as nat + (out@.len() as nat)) == w.vpn);
                assert(ws@.subrange((k + 1) as int, ws.len() as int) =~= ws@.subrange(
                    k as int,
                    ws.len() as int,
                ).drop_first());
            }
            let page = match self.pages.get(&w.vpn) {
                Some(page) => page,
                None => {
                    return None;
                },
            };
            let mut j: usize = 0;
            while j < w.len
                invariant
                    j <= w.len,
                    w.offset + w.len <= PAGE_SIZE,
                    cur == w.vpn * PAGE_SIZE + w.offset,
                    cur + w.len <= addr + len,
                    addr <= cur,
                    out@.len() == cur + j - addr,
                    self.pages@.contains_key(w.vpn),
                    *page == self.pages@[w.vpn],
                    page.data@.len() == PAGE_SIZE,
                    reads_bytes(*self, addr as nat, out@),
                decreases w.len - j,
            {
                let ghost prev = out@;
                out.push(page.data[w.offset + j]);
                proof {
                    assert forall|vpn: usize, off: int|
                        self.pages@.contains_key(vpn) && 0 <= off < PAGE_SIZE && addr <= vpn
                            * PAGE_SIZE + off < addr + out@.len() implies out@[vpn * PAGE_SIZE + off
                        - addr] == #[trigger] self.byte(vpn, off) by {
                        if vpn * PAGE_SIZE + off < addr + prev.len() {
                        } else {
                            assert(vpn == w.vpn && off == w.offset + j) by (nonlinear_arith)
                                requires
                                    vpn * PAGE_SIZE + off == cur + j,
                                    cur == w.vpn * PAGE_SIZE + w.offset,
                                    w.offset + j < PAGE_SIZE,
                                    0 <= off < PAGE_SIZE,
                            ;
                        }
                    }
                }
                j = j + 1;
            }
            k = k + 1;
        }
        proof {
            assert(ws@.subrange(k as int, ws.len() as int).len() == 0);
        }
        Some(out)
    }
}

/// An address inside page `vpn` has page number `vpn`.
proof fn lemma_page_of_in_page(vpn: nat, a: nat)
    requires
        vpn * (PAGE_SIZE as nat) <= a < vpn * (PAGE_SIZE as nat) + PAGE_SIZE,
    ensures
        page_of(a) == vpn,
{
    vstd::arithmetic::div_mod::lemma_fundamental_div_mod_converse(
        a as int,
        PAGE_SIZE as int,
        vpn as int,
        a - vpn * (PAGE_SIZE as nat),
    );
}

/// A fresh page of zero bytes.
fn zeroed_frame() -> (r: Vec<u8>)
    ensures
        r@ == zero_page(),
{
    let mut data: Vec<u8> = Vec::with_capacity(PAGE_SIZE);
    let mut i: usize = 0;
    while i < PAGE_SIZE
        invariant
            i <= PAGE_SIZE,
            data@ == Seq::new(i as nat, |k: int| 0u8),
        decreases PAGE_SIZE - i,
    {
        data.push(0u8);
        i = i + 1;
    }
    data
}

/// Bytes written to user memory read back unchanged from the same address,
/// whether the range lies in one page or crosses into others: for every
/// memory `after` that writing `data` at `addr` leaves, reading
/// `data.len()` bytes at `addr` yields `data`.
pub proof fn lemma_copy_round_trip(
    before: MemorySet,
    after: MemorySet,
    addr: nat,
    data: Seq<u8>,
    out: Seq<u8>,
)
    requires
        writes_bytes(before, after, addr, data),
        after.accessible(addr, data.len(), read_flag()),
        out.len() == data.len(),
        reads_bytes(after, addr, out),
    ensures
        out == data,
{
    assert forall|i: int| 0 <= i < data.len() implies out[i] == data[i] by {
        let a = (addr + i) as nat;
        let vpn = page_of(a);
        let off = a % (PAGE_SIZE as nat);
        assert(after.page_allows(page_of(addr + i as nat), read_flag()));
        vstd::arithmetic::div_mod::lemma_fundamental_div_mod(a as int, PAGE_SIZE as int);
        let v = vpn as usize;
        assert(v * PAGE_SIZE + off == a);
        assert(after.byte(v, off as int) == data[i]);
        assert(out[i] == after.byte(v, off as int));
    }
    assert(out =~= data);
}

} // verus!
