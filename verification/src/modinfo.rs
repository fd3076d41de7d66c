//! The registration information of a dmod: which dcmds and walkers it
//! provides, and the null-terminated tables MDB reads them from.

use vstd::prelude::*;

use crate::sys::MDB_API_VERSION;

verus! {

/// Information describing a loadable MDB dmod: the registration entries of
/// its dcmds (`D`) and of its walkers (`W`), in the order they were added.
pub struct Modinfo<D, W> {
    dcmds: Vec<D>,
    walkers: Vec<W>,
}

impl<D, W> View for Modinfo<D, W> {
    type V = (Seq<D>, Seq<W>);

    /// The dcmd entries and the walker entries.
    closed spec fn view(&self) -> (Seq<D>, Seq<W>) {
        (self.dcmds@, self.walkers@)
    }
}

/// The tables MDB reads a module from: the interface version, and the dcmd
/// and walker entries, each list ended by its null entry.
pub struct NativeModinfo<D, W> {
    pub version: u16,
    pub dcmds: Vec<D>,
    pub walkers: Vec<W>,
}

/// One registration: a dcmd entry or a walker entry.
pub enum Registration<D, W> {
    Dcmd(D),
    Walker(W),
}

/// The entries of a module after one more registration.
pub open spec fn register<D, W>(v: (Seq<D>, Seq<W>), r: Registration<D, W>) -> (Seq<D>, Seq<W>) {
    match r {
        Registration::Dcmd(d) => (v.0.push(d), v.1),
        Registration::Walker(w) => (v.0, v.1.push(w)),
    }
}

/// The entries of a module after the registrations `rs`, in order.
pub open spec fn register_all<D, W>(v: (Seq<D>, Seq<W>), rs: Seq<Registration<D, W>>) -> (
    Seq<D>,
    Seq<W>,
)
    decreases rs.len(),
{
    if rs.len() == 0 {
        v
    } else {
        register(register_all(v, rs.drop_last()), rs.last())
    }
}

/// The dcmd entries among `rs`, in order.
pub open spec fn dcmds_of<D, W>(rs: Seq<Registration<D, W>>) -> Seq<D>
    decreases rs.len(),
{
    if rs.len() == 0 {
        Seq::empty()
    } else {
        match rs.last() {
            Registration::Dcmd(d) => dcmds_of(rs.drop_last()).push(d),
            Registration::Walker(_) => dcmds_of(rs.drop_last()),
        }
    }
}

/// The walker entries among `rs`, in order.
pub open spec fn walkers_of<D, W>(rs: Seq<Registration<D, W>>) -> Seq<W>
    decreases rs.len(),
{
    if rs.len() == 0 {
        Seq::empty()
    } else {
        match rs.last() {
            Registration::Walker(w) => walkers_of(rs.drop_last()).push(w),
            Registration::Dcmd(_) => walkers_of(rs.drop_last()),
        }
    }
}

/// Law: after any sequence of `with_dcmd` and `with_walker` calls on an
/// empty module, in any interleaving, the module lists every registered
/// dcmd and every registered walker in the order they were added; so the
/// tables of `to_native` hold them in that order, each ended by its null
/// entry, under version `MDB_API_VERSION`.
pub proof fn law_tables_list_registrations<D, W>(
    rs: Seq<Registration<D, W>>,
    null_dcmd: D,
    null_walker: W,
)
    ensures
        register_all((Seq::<D>::empty(), Seq::<W>::empty()), rs) == (dcmds_of(rs), walkers_of(rs)),
        native_tables(register_all((Seq::<D>::empty(), Seq::<W>::empty()), rs), null_dcmd, null_walker)
            == (dcmds_of(rs).push(null_dcmd), walkers_of(rs).push(null_walker)),
    decreases rs.len(),
{
    if rs.len() > 0 {
        law_tables_list_registrations(rs.drop_last(), null_dcmd, null_walker);
    }
}

/// The dcmd and walker tables of a module with entries `v`, each ended by
/// its null entry.
pub open spec fn native_tables<D, W>(v: (Seq<D>, Seq<W>), null_dcmd: D, null_walker: W) -> (
    Seq<D>,
    Seq<W>,
) {
    (v.0.push(null_dcmd), v.1.push(null_walker))
}

/// `list` followed by the entry that ends it.
pub fn to_null_or_native<N: Copy>(list: &Vec<N>, null: N) -> (r: Vec<N>)
    ensures
        r@ == list@.push(null),
{
    let mut out: Vec<N> = Vec::new();
    let n = list.len();
    let mut i: usize = 0;
    while i < n
        invariant
            n == list@.len(),
            i <= n,
            out@ == list@.take(i as int),
        decreases n - i,
    {
        out.push(list[i]);
        i = i + 1;
        assert(out@ =~= list@.take(i as int));
    }
    out.push(null);
    assert(list@.take(n as int) =~= list@);
    out
}

impl<D, W> Default for Modinfo<D, W> {
    fn default() -> (m: Self)
        ensures
            m@ == (Seq::<D>::empty(), Seq::<W>::empty()),
    {
        Modinfo { dcmds: Vec::new(), walkers: Vec::new() }
    }
}

impl<D: Copy, W: Copy> Modinfo<D, W> {
    /// A module with no dcmds and no walkers.
    pub fn new() -> (m: Self)
        ensures
            m@ == (Seq::<D>::empty(), Seq::<W>::empty()),
    {
        Modinfo { dcmds: Vec::new(), walkers: Vec::new() }
    }

    /// Add a dcmd to the module.
    pub fn with_dcmd(self, linkage: D) -> (m: Self)
        ensures
            m@ == (self@.0.push(linkage), self@.1),
            m@ == register(self@, Registration::<D, W>::Dcmd(linkage)),
    {
        let mut m = self;
        m.dcmds.push(linkage);
        m
    }

    /// Add a walker to the module.
    pub fn with_walker(self, linkage: W) -> (m: Self)
        ensures
            m@ == (self@.0, self@.1.push(linkage)),
            m@ == register(self@, Registration::<D, W>::Walker(linkage)),
    {
        let mut m = self;
        m.walkers.push(linkage);
        m
    }

    /// The tables to register this dmod with MDB, given the null entries
    /// that end each table.
    pub fn to_native(&self, null_dcmd: D, null_walker: W) -> (t: NativeModinfo<D, W>)
        ensures
            t.version == MDB_API_VERSION,
            t.dcmds@ == self@.0.push(null_dcmd),
            t.walkers@ == self@.1.push(null_walker),
            (t.dcmds@, t.walkers@) == native_tables(self@, null_dcmd, null_walker),
    {
        NativeModinfo {
            version: MDB_API_VERSION,
            dcmds: to_null_or_native(&self.dcmds, null_dcmd),
            walkers: to_null_or_native(&self.walkers, null_walker),
        }
    }
}

} // verus!
