//! The downstream listener's connection-slot discipline: at most one live
//! slot per peer address. A second connection from an address whose slot is
//! still occupied is a fatal listener error; slots of finished handlers are
//! pruned lazily on the next accept.
use vstd::prelude::*;

verus! {

/// A peer address as plain values: the IP (IPv4 addresses use the low 32
/// bits) and the port.
#[derive(Clone, Copy, PartialEq, Eq, Structural, Debug, Hash)]
pub struct PeerAddr {
    pub ip: u128,
    pub port: u16,
}

/// The one fatal condition the slot table can raise.
#[derive(Clone, Copy, PartialEq, Eq, Structural, Debug)]
pub enum SlotError {
    AddressOccupied,
}

/// Whether a slice of addresses holds one; mirrors `Seq::contains`.
pub fn addrs_contain(v: &Vec<PeerAddr>, a: PeerAddr) -> (r: bool)
    ensures
        r == v@.contains(a),
{
    let mut i: usize = 0;
    while i < v.len()
        invariant
            0 <= i <= v@.len(),
            forall|j: int| 0 <= j < i ==> v@[j] != a,
        decreases v@.len() - i,
    {
        if v[i] == a {
            assert(v@[i as int] == a);
            return true;
        }
        i = i + 1;
    }
    assert(!v@.contains(a));
    false
}

/// The live connection slots, one per peer address.
pub struct Slots {
    pub addrs: Vec<PeerAddr>,
}

/// `filter` keeps no duplicate that its input did not have.
proof fn lemma_filter_no_duplicates(s: Seq<PeerAddr>, pred: spec_fn(PeerAddr) -> bool)
    requires
        s.no_duplicates(),
    ensures
        s.filter(pred).no_duplicates(),
    decreases s.len(),
{
    reveal(Seq::filter);
    if s.len() > 0 {
        let rest = s.drop_last();
        lemma_filter_no_duplicates(rest, pred);
        if pred(s.last()) {
            if rest.filter(pred).contains(s.last()) {
                rest.lemma_filter_contains_rev(pred, s.last());
                let i = choose|i: int| 0 <= i < rest.len() && rest[i] == s.last();
                assert(s[i] == s[s.len() - 1]);
                assert(false);
            }
            let out = rest.filter(pred).push(s.last());
            assert forall|i: int, j: int|
                0 <= i < j < out.len() implies out[i] != out[j] by {
                if j == out.len() - 1 {
                    assert(rest.filter(pred).contains(out[i]));
                }
            }
        }
    }
}

impl Slots {
    /// No address occupies two slots.
    pub open spec fn wf(self) -> bool {
        self.addrs@.no_duplicates()
    }

    /// The addresses whose slot is currently occupied.
    pub open spec fn occupied(self) -> Seq<PeerAddr> {
        self.addrs@
    }

    /// An empty table: no slot is occupied.
    pub fn new() -> (s: Slots)
        ensures
            s.wf(),
            s.occupied() == Seq::<PeerAddr>::empty(),
    {
        Slots { addrs: Vec::new() }
    }

    /// Claims the slot for a newly accepted connection. While a slot for the
    /// same address is still occupied this fails — the fatal listener
    /// condition — and the table is unchanged; otherwise the address is
    /// appended.
    pub fn accept(&mut self, addr: PeerAddr) -> (r: Result<(), SlotError>)
        requires
            old(self).wf(),
        ensures
            final(self).wf(),
            match r {
                Ok(_) => !old(self).occupied().contains(addr) && final(self).occupied() == old(
                    self,
                ).occupied().push(addr),
                Err(e) => e == SlotError::AddressOccupied && old(self).occupied().contains(addr)
                    && final(self).occupied() == old(self).occupied(),
            },
    {
        if addrs_contain(&self.addrs, addr) {
            Err(SlotError::AddressOccupied)
        } else {
            self.addrs.push(addr);
            Ok(())
        }
    }

    /// Releases the slots of handlers observed finished: exactly the listed
    /// addresses leave the table, every other slot stays, in order. The same
    /// address may then be accepted again.
    pub fn prune(&mut self, finished: &Vec<PeerAddr>)
        requires
            old(self).wf(),
        ensures
            final(self).wf(),
            final(self).occupied() == old(self).occupied().filter(
                |a: PeerAddr| !finished@.contains(a),
            ),
    {
        let ghost pred = |a: PeerAddr| !finished@.contains(a);
        let mut kept: Vec<PeerAddr> = Vec::new();
        let mut i: usize = 0;
        proof {
            reveal(Seq::filter);
            assert(self.addrs@.subrange(0, 0).filter(pred) =~= Seq::<PeerAddr>::empty());
        }
        while i < self.addrs.len()
            invariant
                0 <= i <= self.addrs@.len(),
                self.addrs@ == old(self).addrs@,
                kept@ == self.addrs@.subrange(0, i as int).filter(pred),
                pred == (|a: PeerAddr| !finished@.contains(a)),
            decreases self.addrs@.len() - i,
        {
            let a = self.addrs[i];
            proof {
                reveal(Seq::filter);
                let pre = self.addrs@.subrange(0, i as int);
                let cur = self.addrs@.subrange(0, i as int + 1);
                assert(cur.drop_last() =~= pre);
                assert(cur.last() == self.addrs@[i as int]);
            }
            if !addrs_contain(finished, a) {
                kept.push(a);
            }
            i = i + 1;
        }
        proof {
            assert(self.addrs@.subrange(0, self.addrs@.len() as int) =~= self.addrs@);
            lemma_filter_no_duplicates(self.addrs@, pred);
        }
        self.addrs = kept;
    }
}

} // verus!
