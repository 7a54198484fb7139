//! The map of pseudo-terminals attached to a virtual machine, and which of
//! them is shown.

use std::collections::HashMap;
use vstd::prelude::*;
use vstd::std_specs::iter::IteratorSpec;

verus! {

broadcast use vstd::std_specs::hash::group_hash_axioms;

/// `std::io::Error`, the error of every pseudo-terminal operation.
#[verifier::external_type_specification]
#[verifier::external_body]
pub struct ExIoError(std::io::Error);

/// A pseudo-terminal linked to a virtual machine.
pub trait OathgatePty {
    /// `r` is what writing `data` to this terminal's input gave. An
    /// implementation states its own relation; this default states none.
    closed spec fn wrote(&self, data: Seq<u8>, r: std::io::Result<()>) -> bool {
        true
    }

    /// Writes `data` to the terminal's input.
    fn write_pty(&self, data: &[u8]) -> (r: std::io::Result<()>)
        ensures
            self.wrote(data@, r),
    ;

    /// `r` is what resizing this terminal to `rows` x `cols` gave. An
    /// implementation states its own relation; this default states none.
    closed spec fn resized(&self, rows: u16, cols: u16, r: std::io::Result<()>) -> bool {
        true
    }

    /// Resizes the terminal to `rows` x `cols`.
    fn resize_pty(&self, rows: u16, cols: u16) -> (r: std::io::Result<()>)
        ensures
            self.resized(rows, cols, r),
    ;
}

/// The resize log entries of the terminals of `ids`, in order, each asked
/// to take the size `rows` x `cols`.
pub open spec fn resize_entries(ids: Seq<usize>, rows: u16, cols: u16) -> Seq<(usize, u16, u16)> {
    ids.map_values(|k: usize| (k, rows, cols))
}

/// The log `log1` is `log0` followed by one resize to `rows` x `cols` of
/// each terminal id of `ids`, each once, in some order.
pub open spec fn resized_each_once(
    log0: Seq<(usize, u16, u16)>,
    log1: Seq<(usize, u16, u16)>,
    ids: Set<usize>,
    rows: u16,
    cols: u16,
) -> bool {
    exists|order: Seq<usize>|
        #[trigger] order.to_set() == ids && order.no_duplicates() && log1 == log0 + resize_entries(
            order,
            rows,
            cols,
        )
}

/// The terminal `p` was asked to take the size `rows` x `cols`.
pub open spec fn was_resized<P: OathgatePty>(p: P, rows: u16, cols: u16) -> bool {
    exists|r: std::io::Result<()>| #[trigger] p.resized(rows, cols, r)
}

/// Rows and columns given to a new terminal before any resize.
pub const DEFAULT_ROWS: u16 = 24;

/// See [`DEFAULT_ROWS`].
pub const DEFAULT_COLS: u16 = 80;

/// The terminals of a virtual machine, by unique id, with the size new
/// terminals get and the id of the one being displayed.
pub struct TerminalMap<P> {
    terminals: HashMap<usize, P>,
    winsz: (u16, u16),
    active: Option<usize>,
    /// Every resize asked of a terminal: its id and the size, oldest first
    resizes: Ghost<Seq<(usize, u16, u16)>>,
}

impl<P: OathgatePty> TerminalMap<P> {
    /// The terminals, by id.
    pub closed spec fn spec_terminals(&self) -> Map<usize, P> {
        self.terminals@
    }

    /// The size (rows, columns) used for new terminals.
    pub closed spec fn spec_size(&self) -> (u16, u16) {
        self.winsz
    }

    /// The id marked active, if any (it need not name a terminal).
    pub closed spec fn spec_active(&self) -> Option<usize> {
        self.active
    }

    /// Every resize asked of a terminal (`OathgatePty::resize_pty`): the
    /// terminal's id and the size, oldest first.
    pub closed spec fn resize_log(&self) -> Seq<(usize, u16, u16)> {
        self.resizes@
    }

    /// The active terminal: the one under the active id, if both exist.
    pub open spec fn spec_active_terminal(&self) -> Option<P> {
        match self.spec_active() {
            Some(id) => if self.spec_terminals().contains_key(id) {
                Some(self.spec_terminals()[id])
            } else {
                None
            },
            None => None,
        }
    }

    /// An empty map: no terminal, 24 x 80, nothing active.
    pub fn new() -> (m: Self)
        ensures
            m.spec_terminals() == Map::<usize, P>::empty(),
            m.spec_size() == (DEFAULT_ROWS, DEFAULT_COLS),
            m.spec_active() is None,
            m.resize_log() == Seq::<(usize, u16, u16)>::empty(),
    {
        TerminalMap {
            terminals: HashMap::new(),
            winsz: (DEFAULT_ROWS, DEFAULT_COLS),
            active: None,
            resizes: Ghost(Seq::empty()),
        }
    }

    /// Adds `pty` under `token`, first resizing it to the current size (a
    /// failed resize is not fatal). A terminal already under `token` is
    /// replaced.
    pub fn insert(&mut self, token: usize, pty: P)
        ensures
            final(self).spec_terminals() == old(self).spec_terminals().insert(token, pty),
            final(self).spec_size() == old(self).spec_size(),
            final(self).spec_active() == old(self).spec_active(),
            was_resized(pty, old(self).spec_size().0, old(self).spec_size().1),
            final(self).resize_log() == old(self).resize_log().push(
                (token, old(self).spec_size().0, old(self).spec_size().1),
            ),
    {
        let (rows, cols) = self.get_size();
        let _resized = pty.resize_pty(rows, cols);
        proof {
            self.resizes@ = self.resizes@.push((token, rows, cols));
        }
        self.terminals.insert(token, pty);
    }

    /// The terminal under `token`, if any.
    pub fn get(&self, token: usize) -> (r: Option<&P>)
        ensures
            match r {
                Some(p) => self.spec_terminals().contains_key(token) && *p == self.spec_terminals()[token],
                None => !self.spec_terminals().contains_key(token),
            },
    {
        self.terminals.get(&token)
    }

    /// The terminal being displayed, if one is set and exists.
    pub fn get_active(&self) -> (r: Option<&P>)
        ensures
            match r {
                Some(p) => self.spec_active_terminal() == Some(*p),
                None => self.spec_active_terminal() is None,
            },
    {
        match self.active {
            Some(id) => self.get(id),
            None => None,
        }
    }

    /// Marks `token` as the terminal to display.
    pub fn set_active(&mut self, token: usize)
        ensures
            final(self).spec_active() == Some(token),
            final(self).spec_terminals() == old(self).spec_terminals(),
            final(self).spec_size() == old(self).spec_size(),
            final(self).resize_log() == old(self).resize_log(),
    {
        self.active = Some(token);
    }

    /// Writes `data` to the active terminal and returns what the terminal
    /// returned; with none active the data is discarded and the write
    /// succeeds.
    pub fn write_to_pty(&self, data: &[u8]) -> (r: std::io::Result<()>)
        ensures
            match self.spec_active_terminal() {
                Some(p) => p.wrote(data@, r),
                None => r is Ok,
            },
    {
        match self.get_active() {
            Some(term) => term.write_pty(data),
            None => Ok(()),
        }
    }

    /// Sets the size of new terminals; when it changes, every terminal is
    /// resized to it (a failed resize is not fatal).
    pub fn set_size(&mut self, rows: u16, cols: u16)
        ensures
            final(self).spec_size() == (rows, cols),
            final(self).spec_terminals() == old(self).spec_terminals(),
            final(self).spec_active() == old(self).spec_active(),
            (rows, cols) != old(self).spec_size() ==> forall|k: usize|
                old(self).spec_terminals().contains_key(k) ==> was_resized(
                    #[trigger] old(self).spec_terminals()[k],
                    rows,
                    cols,
                ),
            (rows, cols) == old(self).spec_size() ==> final(self).resize_log() == old(self).resize_log(),
            (rows, cols) != old(self).spec_size() ==> resized_each_once(
                old(self).resize_log(),
                final(self).resize_log(),
                old(self).spec_terminals().dom(),
                rows,
                cols,
            ),
    {
        let (old_rows, old_cols) = self.winsz;
        if rows != old_rows || cols != old_cols {
            self.winsz = (rows, cols);
            let ghost m = self.terminals@;
            let ghost log0 = self.resizes@;
            let ghost mut added: Seq<usize> = Seq::empty();
            let iter = self.terminals.iter();
            proof {
                let v = iter.remaining();
                assert forall|k: usize| #[trigger] m.contains_key(k) implies exists|j: int|
                    0 <= j < v.len() && *v[j].0 == k && *v[j].1 == m[k] by {
                    assert(v.contains((&k, &m[k])));
                }
                assert forall|i: int, j: int| 0 <= i < v.len() && 0 <= j < v.len() && i != j implies *#[trigger] v[i].0
                    != *#[trigger] v[j].0 by {
                    if *v[i].0 == *v[j].0 {
                        assert(m.contains_key(*v[i].0));
                        assert(v[i] == v[j]);
                    }
                }
            }
            for kv in it: iter
                invariant
                    m == self.terminals@,
                    self.winsz == (rows, cols),
                    self.active == old(self).active,
                    self.resizes@ == log0 + resize_entries(added, rows, cols),
                    added.len() == it.index(),
                    forall|j: int| 0 <= j < it.index() ==> added[j] == *#[trigger] it.seq()[j].0,
                    forall|j: int| 0 <= j < it.seq().len() ==> m.contains_key(*#[trigger] it.seq()[j].0),
                    forall|i: int, j: int|
                        0 <= i < it.seq().len() && 0 <= j < it.seq().len() && i != j ==> *#[trigger] it.seq()[i].0
                            != *#[trigger] it.seq()[j].0,
                    added.no_duplicates(),
                    forall|x: usize| #[trigger] added.contains(x) ==> m.contains_key(x),
                    forall|k: usize|
                        #[trigger] m.contains_key(k) ==> (was_resized(m[k], rows, cols) && added.contains(k))
                            || exists|j: int|
                            it.index() <= j < it.seq().len() && *it.seq()[j].0 == k && *#[trigger] it.seq()[j].1 == m[k],
            {
                let (k, term) = kv;
                let _resized = term.resize_pty(rows, cols);
                proof {
                    let i = added.len() as int;
                    assert(*it.seq()[i].0 == *k);
                    assert(m.contains_key(*k));
                    assert forall|j: int| 0 <= j < added.len() implies added[j] != *k by {
                        assert(added[j] == *it.seq()[j].0);
                    }
                    let before = added;
                    added = added.push(*k);
                    self.resizes@ = self.resizes@.push((*k, rows, cols));
                    assert(resize_entries(added, rows, cols) =~= resize_entries(before, rows, cols).push(
                        (*k, rows, cols),
                    ));
                    assert(log0 + resize_entries(added, rows, cols) =~= (log0 + resize_entries(before, rows, cols)).push(
                        (*k, rows, cols),
                    ));
                    assert forall|x: usize| #[trigger] added.contains(x) implies m.contains_key(x) by {
                        if x != *k {
                            let j = choose|j: int| 0 <= j < added.len() && added[j] == x;
                            assert(j < before.len());
                            assert(before[j] == x);
                            assert(before.contains(x));
                        }
                    }
                    assert(added.contains(*k)) by {
                        assert(added[i] == *k);
                    }
                    assert forall|key: usize| #[trigger] m.contains_key(key) && !(was_resized(m[key], rows, cols)
                        && added.contains(key)) implies exists|j: int|
                        i + 1 <= j < it.seq().len() && *it.seq()[j].0 == key && *#[trigger] it.seq()[j].1
                            == m[key] by {
                        if before.contains(key) {
                            let j = choose|j: int| 0 <= j < before.len() && before[j] == key;
                            assert(added[j] == key);
                        }
                        let j = choose|j: int|
                            i <= j < it.seq().len() && *it.seq()[j].0 == key && *#[trigger] it.seq()[j].1 == m[key];
                        if j == i {
                            assert(*term == m[key]);
                            assert(term.resized(rows, cols, _resized));
                        }
                    }
                }
            }
            proof {
                assert(added.to_set() =~= m.dom()) by {
                    assert forall|x: usize| added.to_set().contains(x) implies m.dom().contains(x) by {
                        assert(added.contains(x));
                    }
                    assert forall|x: usize| m.dom().contains(x) implies added.to_set().contains(x) by {
                        assert(m.contains_key(x));
                    }
                }
            }
        }
    }

    /// The size (rows, columns) used for new terminals.
    pub fn get_size(&self) -> (r: (u16, u16))
        ensures
            r == self.spec_size(),
    {
        self.winsz
    }
}

impl<P: OathgatePty> Default for TerminalMap<P> {
    fn default() -> (m: Self)
        ensures
            m.spec_terminals() == Map::<usize, P>::empty(),
            m.spec_size() == (DEFAULT_ROWS, DEFAULT_COLS),
            m.spec_active() is None,
            m.resize_log() == Seq::<(usize, u16, u16)>::empty(),
    {
        TerminalMap::new()
    }
}

/// A terminal added under a token is the one found under that token, and
/// once that token is made active it is the active terminal; the terminals
/// under other tokens stay as they were.
pub proof fn lemma_insert_then_get<P: OathgatePty>(
    m0: TerminalMap<P>,
    m1: TerminalMap<P>,
    m2: TerminalMap<P>,
    token: usize,
    pty: P,
)
    requires
        m1.spec_terminals() == m0.spec_terminals().insert(token, pty),
        m2.spec_terminals() == m1.spec_terminals(),
        m2.spec_active() == Some(token),
    ensures
        m1.spec_terminals().contains_key(token),
        m1.spec_terminals()[token] == pty,
        m2.spec_active_terminal() == Some(pty),
        forall|k: usize|
            k != token && #[trigger] m0.spec_terminals().contains_key(k) ==> m1.spec_terminals().contains_key(k)
                && m1.spec_terminals()[k] == m0.spec_terminals()[k],
{
}

} // verus!
