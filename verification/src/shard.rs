//! The sharding scheme: a name's first one or two characters become
//! nested directory names, bounding any single directory's fan-out.
//!
//! The same prefix derivation serves the filesystem sink and the
//! retrofit that relocates flat files into the sharded layout, so the
//! two can never diverge.
use vstd::prelude::*;
use vstd::seq_lib::*;

verus! {

/// The path separator.
pub open spec fn sep() -> Seq<char> {
    seq!['/']
}

/// The shard directory a name belongs in: the base directory extended
/// by the name's first character and, when the name has one, its
/// second character.
pub open spec fn shard_dir_spec(base: Seq<char>, name: Seq<char>) -> Seq<char> {
    if name.len() == 0 {
        base
    } else if name.len() == 1 {
        base + sep() + seq![name[0]]
    } else {
        base + sep() + seq![name[0]] + sep() + seq![name[1]]
    }
}

/// The full sharded path of a name: its shard directory, the
/// separator, then the name itself.
pub open spec fn shard_path_spec(base: Seq<char>, name: Seq<char>) -> Seq<char> {
    shard_dir_spec(base, name) + sep() + name
}

/// Sharding is deterministic: the shard path is a function of the base
/// directory and the name alone, so deriving it twice for the same
/// inputs yields the same path.
pub proof fn lemma_shard_path_deterministic(
    base1: Seq<char>,
    name1: Seq<char>,
    base2: Seq<char>,
    name2: Seq<char>,
)
    requires
        base1 == base2,
        name1 == name2,
    ensures
        shard_path_spec(base1, name1) == shard_path_spec(base2, name2),
{
}

/// Computes the shard directory of a name under a base directory.
pub fn shard_dir(base: &str, name: &str) -> (r: String)
    ensures
        r@ == shard_dir_spec(base@, name@),
{
    let n = name.unicode_len();
    let mut out = String::from_str(base);
    proof {
        reveal_strlit("/");
    }
    if n >= 1 {
        out.append("/");
        let p1 = name.substring_char(0, 1);
        out.append(p1);
        proof {
            assert("/"@ =~= sep());
            assert(name@.subrange(0, 1) =~= seq![name@[0]]);
        }
        if n >= 2 {
            out.append("/");
            let p2 = name.substring_char(1, 2);
            out.append(p2);
            proof {
                assert(name@.subrange(1, 2) =~= seq![name@[1]]);
            }
        }
    }
    out
}

/// Computes the full sharded path of a name under a base directory.
pub fn shard_path(base: &str, name: &str) -> (r: String)
    ensures
        r@ == shard_path_spec(base@, name@),
{
    let mut out = shard_dir(base, name);
    out.append("/");
    proof {
        reveal_strlit("/");
        assert("/"@ =~= sep());
    }
    out.append(name);
    out
}

/// The set of shard directories already known to exist, shared by all
/// workers so that repeated creation of the same directory is elided.
pub struct DirSet {
    dirs: Vec<String>,
}

impl DirSet {
    /// The set of paths this `DirSet` holds.
    pub closed spec fn view(&self) -> Set<Seq<char>> {
        Set::new(
            |p: Seq<char>| exists|i: int| 0 <= i < self.dirs@.len() && self.dirs@[i]@ == p,
        )
    }

    /// An empty set: no directory is known yet.
    pub fn new() -> (r: DirSet)
        ensures
            r@ == Set::<Seq<char>>::empty(),
    {
        let r = DirSet { dirs: Vec::new() };
        proof {
            assert(r@ =~= Set::<Seq<char>>::empty());
        }
        r
    }

    /// Whether a path is already known.
    pub fn contains(&self, path: &String) -> (r: bool)
        ensures
            r == self@.contains(path@),
    {
        let n = self.dirs.len();
        let mut i: usize = 0;
        while i < n
            invariant
                0 <= i <= n,
                n == self.dirs@.len(),
                forall|j: int| 0 <= j < i ==> self.dirs@[j]@ != path@,
            decreases n - i,
        {
            if self.dirs[i] == *path {
                return true;
            }
            i = i + 1;
        }
        false
    }

    /// The memoized check-then-remember step, performed in one critical
    /// section by the caller that holds the lock: reports whether the
    /// path was already known and remembers it either way. A caller
    /// that then fails to create the directory calls `remove`, so the
    /// set keeps only directories known to exist.
    pub fn check_and_insert(&mut self, path: &String) -> (known: bool)
        ensures
            known == old(self)@.contains(path@),
            final(self)@ == old(self)@.insert(path@),
    {
        let known = self.contains(path);
        if !known {
            let ghost olddirs = self.dirs@;
            self.dirs.push(path.clone());
            proof {
                assert forall|p: Seq<char>| self@.contains(p) implies old(self)@.insert(
                    path@,
                ).contains(p) by {
                    let i = choose|i: int|
                        0 <= i < self.dirs@.len() && self.dirs@[i]@ == p;
                    if i < olddirs.len() {
                        assert(old(self)@.contains(p));
                    } else {
                        assert(self.dirs@[i]@ == path@);
                    }
                }
                assert forall|p: Seq<char>| old(self)@.insert(path@).contains(p) implies
                    self@.contains(p) by {
                    if p == path@ {
                        assert(self.dirs@[olddirs.len() as int]@ == p);
                    } else {
                        let i = choose|i: int| 0 <= i < olddirs.len() && olddirs[i]@ == p;
                        assert(self.dirs@[i]@ == p);
                    }
                }
                assert(self@ =~= old(self)@.insert(path@));
            }
        } else {
            proof {
                assert(self@ =~= old(self)@.insert(path@));
            }
        }
        known
    }

    /// Forgets a path: the caller that failed to create the directory
    /// drops it again, so a later record in the same shard retries the
    /// creation instead of eliding it.
    pub fn remove(&mut self, path: &String)
        ensures
            final(self)@ == old(self)@.remove(path@),
    {
        let n = self.dirs.len();
        let mut kept: Vec<String> = Vec::new();
        let mut i: usize = 0;
        while i < n
            invariant
                0 <= i <= n,
                n == self.dirs@.len(),
                self.dirs@ == old(self).dirs@,
                forall|k: int| 0 <= k < kept@.len() ==> #[trigger] kept@[k]@ != path@,
                forall|k: int|
                    0 <= k < kept@.len() ==> exists|j: int|
                        0 <= j < i && self.dirs@[j]@ == #[trigger] kept@[k]@,
                forall|j: int|
                    0 <= j < i && #[trigger] self.dirs@[j]@ != path@ ==> exists|k: int|
                        0 <= k < kept@.len() && kept@[k]@ == self.dirs@[j]@,
            decreases n - i,
        {
            if !(self.dirs[i] == *path) {
                let ghost oldkept = kept@;
                kept.push(self.dirs[i].clone());
                proof {
                    assert(kept@[oldkept.len() as int]@ == self.dirs@[i as int]@);
                    assert forall|k: int|
                        0 <= k < kept@.len() implies exists|j: int|
                        0 <= j < i + 1 && self.dirs@[j]@ == #[trigger] kept@[k]@ by {
                        if k < oldkept.len() {
                            assert(kept@[k] == oldkept[k]);
                        } else {
                            assert(self.dirs@[i as int]@ == kept@[k]@);
                        }
                    }
                    assert forall|j: int|
                        0 <= j < i + 1 && #[trigger] self.dirs@[j]@ != path@ implies exists|k: int|
                        0 <= k < kept@.len() && kept@[k]@ == self.dirs@[j]@ by {
                        if j < i {
                            let k = choose|k: int|
                                0 <= k < oldkept.len() && oldkept[k]@ == self.dirs@[j]@;
                            assert(kept@[k]@ == self.dirs@[j]@);
                        } else {
                            assert(kept@[oldkept.len() as int]@ == self.dirs@[j]@);
                        }
                    }
                }
            }
            i = i + 1;
        }
        self.dirs = kept;
        proof {
            assert forall|p: Seq<char>| self@.contains(p) implies old(self)@.remove(
                path@,
            ).contains(p) by {
                let k = choose|k: int| 0 <= k < self.dirs@.len() && self.dirs@[k]@ == p;
                assert(self.dirs@[k]@ != path@);
                let j = choose|j: int|
                    0 <= j < old(self).dirs@.len() && old(self).dirs@[j]@ == self.dirs@[k]@;
                assert(old(self)@.contains(p));
            }
            assert forall|p: Seq<char>| old(self)@.remove(path@).contains(p) implies
                self@.contains(p) by {
                let j = choose|j: int|
                    0 <= j < old(self).dirs@.len() && old(self).dirs@[j]@ == p;
                let k = choose|k: int|
                    0 <= k < self.dirs@.len() && self.dirs@[k]@ == old(self).dirs@[j]@;
                assert(self.dirs@[k]@ == p);
            }
            assert(self@ =~= old(self)@.remove(path@));
        }
    }
}

/// The retrofit command: relocate the flat files of a directory into
/// the sharded layout that the filesystem sink writes.
pub struct EnsureNested {
    /// The directory whose entries are relocated in place.
    pub target_dir: String,
}

/// One top-level entry of the directory being retrofitted, as the
/// caller listed it.
pub struct DirEntry {
    /// The entry's file name; empty when the entry has none.
    pub name: String,
    /// Whether the entry is itself a directory.
    pub is_dir: bool,
}

/// The mathematical value of a directory entry.
pub struct EntryModel {
    pub name: Seq<char>,
    pub is_dir: bool,
}

impl View for DirEntry {
    type V = EntryModel;

    open spec fn view(&self) -> EntryModel {
        EntryModel { name: self.name@, is_dir: self.is_dir }
    }
}

/// One relocation the retrofit performs: the file of this name moves
/// into its shard directory.
pub struct MoveAction {
    /// The file name being relocated.
    pub name: String,
    /// The shard directory that must exist before the move.
    pub dest_dir: String,
    /// The file's destination.
    pub dest_path: String,
}

/// The mathematical value of a relocation.
pub struct MoveModel {
    pub name: Seq<char>,
    pub dest_dir: Seq<char>,
    pub dest_path: Seq<char>,
}

impl View for MoveAction {
    type V = MoveModel;

    open spec fn view(&self) -> MoveModel {
        MoveModel { name: self.name@, dest_dir: self.dest_dir@, dest_path: self.dest_path@ }
    }
}

/// An entry the retrofit leaves in place: a directory, or an entry
/// without a usable name.
pub open spec fn retrofit_skips(e: EntryModel) -> bool {
    e.is_dir || e.name.len() == 0
}

/// The relocation of one named file.
pub open spec fn move_of(base: Seq<char>, name: Seq<char>) -> MoveModel {
    MoveModel {
        name: name,
        dest_dir: shard_dir_spec(base, name),
        dest_path: shard_path_spec(base, name),
    }
}

/// The relocations one retrofit pass performs over a directory
/// listing, in listing order: one per flat file, none for directories
/// or nameless entries.
pub open spec fn moves_needed(base: Seq<char>, entries: Seq<EntryModel>) -> Seq<MoveModel>
    decreases entries.len(),
{
    if entries.len() == 0 {
        Seq::empty()
    } else {
        let rest = moves_needed(base, entries.drop_last());
        if retrofit_skips(entries.last()) {
            rest
        } else {
            rest.push(move_of(base, entries.last().name))
        }
    }
}

impl EnsureNested {
    /// The per-entry step of the retrofit. Directories and nameless
    /// entries stay put. For a flat file it returns the move to
    /// perform and whether the destination directory still has to be
    /// created, remembering that directory in the shared set.
    pub fn plan_entry(&self, name: &str, is_dir: bool, dirs: &mut DirSet) -> (r: Option<
        (MoveAction, bool),
    >)
        ensures
            retrofit_skips(EntryModel { name: name@, is_dir }) ==> r is None && final(dirs)@
                == old(dirs)@,
            !retrofit_skips(EntryModel { name: name@, is_dir }) ==> (r matches Some((m, mkdir))
                && m@ == move_of(self.target_dir@, name@) && mkdir == !old(dirs)@.contains(
                shard_dir_spec(self.target_dir@, name@),
            ) && final(dirs)@ == old(dirs)@.insert(shard_dir_spec(self.target_dir@, name@))),
    {
        if is_dir || name.unicode_len() == 0 {
            return None;
        }
        let dest_dir = shard_dir(self.target_dir.as_str(), name);
        let dest_path = shard_path(self.target_dir.as_str(), name);
        let known = dirs.check_and_insert(&dest_dir);
        Some((MoveAction { name: String::from_str(name), dest_dir, dest_path }, !known))
    }

    /// Plans one whole retrofit pass over a directory listing.
    pub fn plan_moves(&self, entries: &Vec<DirEntry>) -> (r: Vec<MoveAction>)
        ensures
            r@.map_values(|m: MoveAction| m@) == moves_needed(
                self.target_dir@,
                entries@.map_values(|e: DirEntry| e@),
            ),
    {
        let ghost emodels = entries@.map_values(|e: DirEntry| e@);
        let mut out: Vec<MoveAction> = Vec::new();
        let mut i: usize = 0;
        proof {
            assert(out@.map_values(|m: MoveAction| m@) =~= moves_needed(
                self.target_dir@,
                emodels.take(0),
            ));
        }
        while i < entries.len()
            invariant
                0 <= i <= entries.len(),
                emodels == entries@.map_values(|e: DirEntry| e@),
                out@.map_values(|m: MoveAction| m@) == moves_needed(
                    self.target_dir@,
                    emodels.take(i as int),
                ),
            decreases entries.len() - i,
        {
            let entry = &entries[i];
            let ghost prefix = emodels.take(i as int);
            proof {
                assert(emodels.take(i + 1).drop_last() =~= prefix);
                assert(emodels.take(i + 1).last() == entry@);
            }
            if !entry.is_dir && entry.name.as_str().unicode_len() != 0 {
                let dest_dir = shard_dir(self.target_dir.as_str(), entry.name.as_str());
                let dest_path = shard_path(self.target_dir.as_str(), entry.name.as_str());
                let ghost oldout = out@;
                out.push(MoveAction { name: entry.name.clone(), dest_dir, dest_path });
                proof {
                    assert(out@.map_values(|m: MoveAction| m@) =~= oldout.map_values(
                        |m: MoveAction| m@,
                    ).push(move_of(self.target_dir@, entry.name@)));
                }
            }
            i = i + 1;
        }
        proof {
            assert(emodels.take(entries@.len() as int) =~= emodels);
        }
        out
    }
}

/// Retrofit idempotence: when every top-level entry is a directory or
/// nameless — as after one completed pass, which moves every flat file
/// into a shard directory — a further pass plans no move, so no file
/// is moved or overwritten.
pub proof fn lemma_retrofit_idempotent(base: Seq<char>, entries: Seq<EntryModel>)
    requires
        forall|i: int| 0 <= i < entries.len() ==> retrofit_skips(#[trigger] entries[i]),
    ensures
        moves_needed(base, entries) == Seq::<MoveModel>::empty(),
    decreases entries.len(),
{
    if entries.len() > 0 {
        lemma_retrofit_idempotent(base, entries.drop_last());
    }
}

/// The second pass over what one pass leaves at the top level: the
/// entries a pass declines to move are exactly those it skips, and a
/// listing made of them plans nothing.
pub proof fn lemma_second_pass_empty(base: Seq<char>, entries: Seq<EntryModel>)
    ensures
        moves_needed(base, entries.filter(|e: EntryModel| retrofit_skips(e)))
            == Seq::<MoveModel>::empty(),
{
    let survivors = entries.filter(|e: EntryModel| retrofit_skips(e));
    assert forall|i: int| 0 <= i < survivors.len() implies retrofit_skips(
        #[trigger] survivors[i],
    ) by {
        entries.lemma_filter_pred(|e: EntryModel| retrofit_skips(e), i);
    }
    lemma_retrofit_idempotent(base, survivors);
}

} // verus!
