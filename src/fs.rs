//! The inode-style cache between the mount bridge and a volume: stable file
//! identities, lazily expanded directories and open counts.
use vstd::prelude::*;
use std::collections::BTreeMap;
use crate::device::Device;
use crate::error::FsError;
use crate::finfo::{Finfo, ROOT_ID};
use crate::volume::{Fio, listed, read_spec, read_len, read_error};

verus! {

broadcast use vstd::laws_cmp::group_laws_cmp;

/// The ids of the files of a listing, in order, passing over any that claims the
/// root's identity.
pub open spec fn child_ids(l: Seq<Finfo>) -> Seq<u64>
    decreases l.len(),
{
    if l.len() == 0 {
        Seq::empty()
    } else if l.last().id == ROOT_ID {
        child_ids(l.drop_last())
    } else {
        child_ids(l.drop_last()).push(l.last().id)
    }
}

/// The first cluster of directory `id` in state `s`.
pub open spec fn dir_head<D: Device>(s: Fs<D>, id: u64) -> u32 {
    if id == ROOT_ID {
        s.vol().geo.root_first_cluster
    } else {
        s.infos()[id].fst_clus
    }
}

/// What a first expansion of directory `id` from state `s0` put in state `s1`:
/// the ids of the directory's listing, the file-info of each id not met before,
/// and no other file-info.
pub open spec fn expansion<D: Device>(s0: Fs<D>, s1: Fs<D>, id: u64) -> bool {
    let head = dir_head(s0, id);
    &&& s1.dirs() == s0.dirs().insert(id, s1.dirs()[id])
    &&& if head == 0 {
        s1.dirs()[id] == Seq::<u64>::empty() && s1.infos() == s0.infos()
    } else {
        exists|l: Seq<Finfo>|
            #[trigger] listed(s0.vol().disk(), s0.vol().geo, s0.vol().kind, head, l) && s1.dirs()[id]
                == child_ids(l) && (forall|i: int|
                0 <= i < l.len() && l[i].id != ROOT_ID && !s0.infos().contains_key(l[i].id) && (forall|j: int|
                    0 <= j < i ==> l[j].id != l[i].id) ==> s1.infos()[#[trigger] l[i].id] == l[i]) && (forall|k: u64|
                #[trigger] s1.infos().contains_key(k) && !s0.infos().contains_key(k) ==> exists|i: int|
                    0 <= i < l.len() && l[i].id == k)
    }
}

/// A listing as a sequence of file-infos, or the error.
pub open spec fn seq_result(r: Result<Vec<Finfo>, FsError>) -> Result<Seq<Finfo>, FsError> {
    match r {
        Ok(v) => Ok(v@),
        Err(e) => Err(e),
    }
}

/// What `readdir(id)` does, from state `s0` to state `s1` with result `r`.
pub open spec fn readdir_post<D: Device>(
    s0: Fs<D>,
    s1: Fs<D>,
    id: u64,
    r: Result<Seq<Finfo>, FsError>,
) -> bool {
    &&& s1.vol() == s0.vol()
    &&& s1.opens() == s0.opens()
    &&& (s0.dirs().contains_key(id) ==> s1 == s0 && r == Ok::<Seq<Finfo>, FsError>(s0.listing(id)))
    &&& (r matches Ok(v) ==> s1.dirs().contains_key(id) && v == s1.listing(id))
    &&& (r is Err ==> s1 == s0)
    &&& (forall|k: u64| #[trigger] s0.infos().contains_key(k) ==> s1.infos().contains_key(k) && s1.infos()[k] == s0.infos()[k])
    &&& (r == Err::<Seq<Finfo>, FsError>(FsError::NotFound) <==> (!s0.dirs().contains_key(id) && id != ROOT_ID
        && !s0.infos().contains_key(id)))
    &&& (!s0.dirs().contains_key(id) && (id == ROOT_ID || s0.infos().contains_key(id)) && dir_head(s0, id) == 0
        ==> r == Ok::<Seq<Finfo>, FsError>(Seq::empty()))
    &&& (!s0.dirs().contains_key(id) && r is Ok ==> expansion(s0, s1, id))
}

/// The cache over a volume.
pub struct Fs<D: Device> {
    fio: Fio<D>,
    dirmap: BTreeMap<u64, Vec<u64>>,
    fmap: BTreeMap<u64, Finfo>,
    filesopen: BTreeMap<u64, u32>,
}

impl<D: Device> Fs<D> {
    /// The volume underneath.
    pub closed spec fn vol(&self) -> Fio<D> {
        self.fio
    }

    /// The file-info of each id met so far.
    pub closed spec fn infos(&self) -> Map<u64, Finfo> {
        self.fmap@
    }

    /// The child ids of each directory expanded so far.
    pub closed spec fn dirs(&self) -> Map<u64, Seq<u64>> {
        self.dirmap@.map_values(|v: Vec<u64>| v@)
    }

    /// The open count of each open file.
    pub closed spec fn opens(&self) -> Map<u64, u32> {
        self.filesopen@
    }

    pub closed spec fn wf(&self) -> bool {
        &&& self.fio.wf()
        &&& forall|k: u64| #[trigger] self.fmap@.contains_key(k) ==> self.fmap@[k].id == k && k != ROOT_ID
        &&& forall|d: u64, i: int|
            self.dirmap@.contains_key(d) && 0 <= i < self.dirmap@[d]@.len() ==> self.fmap@.contains_key(
                #[trigger] self.dirmap@[d]@[i],
            )
        &&& forall|k: u64| #[trigger] self.filesopen@.contains_key(k) ==> self.fmap@.contains_key(k) && self.filesopen@[k] > 0
    }

    /// The listing of directory `id`, as the cache holds it.
    pub open spec fn listing(&self, id: u64) -> Seq<Finfo> {
        self.dirs()[id].map_values(|c: u64| self.infos()[c])
    }

    /// What `getinfo(id)` returns.
    pub open spec fn info(&self, id: u64) -> Option<Finfo> {
        if self.infos().contains_key(id) {
            Some(self.infos()[id])
        } else {
            None
        }
    }

    /// An empty cache over `fio`.
    pub fn new(fio: Fio<D>) -> (r: Fs<D>)
        requires
            fio.wf(),
        ensures
            r.wf(),
            r.vol() == fio,
            r.infos() == Map::<u64, Finfo>::empty(),
            r.dirs() == Map::<u64, Seq<u64>>::empty(),
            r.opens() == Map::<u64, u32>::empty(),
    {
        let r = Fs { fio, dirmap: BTreeMap::new(), fmap: BTreeMap::new(), filesopen: BTreeMap::new() };
        assert(r.dirs() =~= Map::<u64, Seq<u64>>::empty());
        r
    }

    /// Reads directory `id`, whose first cluster is `head`, into the cache.
    #[verifier::rlimit(80)]
    fn expand(&mut self, id: u64, head: u32) -> (r: Result<(), FsError>)
        requires
            old(self).wf(),
            !old(self).dirs().contains_key(id),
            id == ROOT_ID || old(self).infos().contains_key(id),
            head == dir_head(*old(self), id),
        ensures
            final(self).wf(),
            r is Err ==> *final(self) == *old(self),
            r matches Err(e) ==> e != FsError::NotFound,
            head == 0 ==> r is Ok,
            r is Ok ==> final(self).dirs().contains_key(id) && expansion(*old(self), *final(self), id),
            final(self).vol() == old(self).vol(),
            final(self).opens() == old(self).opens(),
            forall|k: u64| #[trigger] old(self).infos().contains_key(k) ==> final(self).infos().contains_key(k)
                && final(self).infos()[k] == old(self).infos()[k],
    {
        let list = if head == 0 {
            Vec::new()
        } else {
            self.fio.read_dirents(head)?
        };
        let ghost s0 = *self;
        let mut ids: Vec<u64> = Vec::new();
        let mut i: usize = 0;
        while i < list.len()
            invariant
                s0.wf(),
                i <= list@.len(),
                self.fio == s0.fio,
                self.dirmap == s0.dirmap,
                self.filesopen == s0.filesopen,
                !self.dirmap@.contains_key(id),
                forall|k: u64| #[trigger] self.fmap@.contains_key(k) ==> self.fmap@[k].id == k && k != ROOT_ID,
                forall|k: u64| #[trigger] s0.fmap@.contains_key(k) ==> self.fmap@.contains_key(k) && self.fmap@[k] == s0.fmap@[k],
                forall|d: u64, j: int|
                    self.dirmap@.contains_key(d) && 0 <= j < self.dirmap@[d]@.len() ==> self.fmap@.contains_key(
                        #[trigger] self.dirmap@[d]@[j],
                    ),
                forall|k: u64| #[trigger] self.filesopen@.contains_key(k) ==> self.fmap@.contains_key(k),
                ids@ == child_ids(list@.take(i as int)),
                forall|j: int| 0 <= j < ids@.len() ==> self.fmap@.contains_key(#[trigger] ids@[j]),
                forall|k: u64| #[trigger] self.fmap@.contains_key(k) && !s0.fmap@.contains_key(k) ==> exists|j: int|
                    0 <= j < i && list@[j].id == k,
                forall|j: int|
                    0 <= j < i && list@[j].id != ROOT_ID && !s0.fmap@.contains_key(list@[j].id) && (forall|m: int|
                        0 <= m < j ==> list@[m].id != list@[j].id) ==> self.fmap@.contains_key(list@[j].id)
                        && self.fmap@[#[trigger] list@[j].id] == list@[j],
            decreases list@.len() - i,
        {
            let fid = list[i].id;
            assert(list@.take(i + 1).drop_last() =~= list@.take(i as int));
            if fid != ROOT_ID {
                if !self.fmap.contains_key(&fid) {
                    let f = list[i].duplicate();
                    self.fmap.insert(fid, f);
                }
                ids.push(fid);
            }
            i += 1;
        }
        assert(list@.take(list@.len() as int) =~= list@);
        self.dirmap.insert(id, ids);
        proof {
            assert(self.dirs() =~= s0.dirs().insert(id, ids@));
            assert(self.dirs()[id] == child_ids(list@));
            if head == 0 {
                assert(child_ids(list@) =~= Seq::<u64>::empty());
                assert(self.infos() =~= s0.infos());
            } else {
                assert(listed(s0.vol().disk(), s0.vol().geo, s0.vol().kind, dir_head(s0, id), list@));
            }
        }
        Ok(())
    }

    /// The files of directory `id` (the root is `ROOT_ID`), in disk order. The
    /// directory is read from the volume the first time only.
    pub fn readdir(&mut self, id: u64) -> (r: Result<Vec<Finfo>, FsError>)
        requires
            old(self).wf(),
        ensures
            final(self).wf(),
            readdir_post(*old(self), *final(self), id, seq_result(r)),
    {
        let ghost s0 = *self;
        if !self.dirmap.contains_key(&id) {
            let head: u32 = if id == ROOT_ID {
                self.fio.geo.root_first_cluster
            } else {
                match self.fmap.get(&id) {
                    Some(f) => f.fst_clus,
                    None => {
                        return Err(FsError::NotFound);
                    },
                }
            };
            self.expand(id, head)?;
        }
        let out = self.listing_vec(id);
        proof {
            if !s0.dirs().contains_key(id) && dir_head(s0, id) == 0 {
                assert(self.dirs()[id] == Seq::<u64>::empty());
                assert(self.listing(id) =~= Seq::<Finfo>::empty());
            }
        }
        Ok(out)
    }

    /// The cached listing of an expanded directory.
    fn listing_vec(&self, id: u64) -> (r: Vec<Finfo>)
        requires
            self.wf(),
            self.dirs().contains_key(id),
        ensures
            r@ == self.listing(id),
    {
        let ids = match self.dirmap.get(&id) {
            Some(v) => v,
            None => {
                return Vec::new();
            },
        };
        let mut out: Vec<Finfo> = Vec::new();
        let mut k: usize = 0;
        while k < ids.len()
            invariant
                self.wf(),
                self.dirmap@.contains_key(id),
                ids@ == self.dirmap@[id]@,
                k <= ids@.len(),
                out@ == self.listing(id).take(k as int),
            decreases ids@.len() - k,
        {
            let c = ids[k];
            assert(self.fmap@.contains_key(c));
            let f = match self.fmap.get(&c) {
                Some(f) => f.duplicate(),
                None => {
                    return Vec::new();
                },
            };
            out.push(f);
            k += 1;
            assert(out@ =~= self.listing(id).take(k as int));
        }
        assert(out@ =~= self.listing(id));
        out
    }

    /// The first file named `name` in directory `parent`.
    pub fn lookup(&mut self, parent: u64, name: &str) -> (r: Result<Option<Finfo>, FsError>)
        requires
            old(self).wf(),
        ensures
            final(self).wf(),
            readdir_post(
                *old(self),
                *final(self),
                parent,
                match r {
                    Ok(_) => Ok::<Seq<Finfo>, FsError>(final(self).listing(parent)),
                    Err(e) => Err::<Seq<Finfo>, FsError>(e),
                },
            ),
            r matches Ok(Some(f)) ==> exists|i: int|
                0 <= i < final(self).listing(parent).len() && #[trigger] final(self).listing(parent)[i] == f
                    && f.name@ == name@ && forall|j: int| 0 <= j < i ==> final(self).listing(parent)[j].name@ != name@,
            r matches Ok(None) ==> forall|i: int|
                0 <= i < final(self).listing(parent).len() ==> #[trigger] final(self).listing(parent)[i].name@ != name@,
    {
        let list = self.readdir(parent)?;
        let key = name.to_owned();
        let mut i: usize = 0;
        while i < list.len()
            invariant
                i <= list@.len(),
                key@ == name@,
                self.wf(),
                readdir_post(*old(self), *self, parent, Ok::<Seq<Finfo>, FsError>(list@)),
                list@ == self.listing(parent),
                forall|j: int| 0 <= j < i ==> list@[j].name@ != name@,
            decreases list@.len() - i,
        {
            if list[i].name == key {
                return Ok(Some(list[i].duplicate()));
            }
            i += 1;
        }
        Ok(None)
    }

    /// Opens file `id`: false where no such file has been met.
    pub fn open(&mut self, id: u64) -> (r: bool)
        requires
            old(self).wf(),
        ensures
            final(self).wf(),
            r == old(self).infos().contains_key(id),
            final(self).vol() == old(self).vol(),
            final(self).infos() == old(self).infos(),
            final(self).dirs() == old(self).dirs(),
            final(self).opens() == if r {
                old(self).opens().insert(
                    id,
                    if !old(self).opens().contains_key(id) {
                        1u32
                    } else if old(self).opens()[id] == u32::MAX {
                        u32::MAX
                    } else {
                        (old(self).opens()[id] + 1) as u32
                    },
                )
            } else {
                old(self).opens()
            },
    {
        if !self.fmap.contains_key(&id) {
            return false;
        }
        let n: u32 = match self.filesopen.get(&id) {
            Some(c) => if *c == u32::MAX {
                u32::MAX
            } else {
                *c + 1
            },
            None => 1,
        };
        self.filesopen.insert(id, n);
        true
    }

    /// Releases one opening of file `id`; the entry goes at a count of zero.
    pub fn close(&mut self, id: u64)
        requires
            old(self).wf(),
        ensures
            final(self).wf(),
            final(self).vol() == old(self).vol(),
            final(self).infos() == old(self).infos(),
            final(self).dirs() == old(self).dirs(),
            final(self).opens() == if !old(self).opens().contains_key(id) {
                old(self).opens()
            } else if old(self).opens()[id] == 1 {
                old(self).opens().remove(id)
            } else {
                old(self).opens().insert(id, (old(self).opens()[id] - 1) as u32)
            },
    {
        let c: u32 = match self.filesopen.get(&id) {
            Some(c) => *c,
            None => {
                return;
            },
        };
        if c == 1 {
            self.filesopen.remove(&id);
        } else {
            self.filesopen.insert(id, c - 1);
        }
    }

    /// Reads `size` bytes at `offset` of file `id`.
    pub fn read(&self, id: u64, offset: u32, size: u32) -> (r: Result<Vec<u8>, FsError>)
        requires
            self.wf(),
        ensures
            r == Err::<Vec<u8>, FsError>(FsError::NotFound) <==> !self.infos().contains_key(id),
            self.infos().contains_key(id) && read_len(self.infos()[id].size as int, offset as int, size as int) == 0
                ==> (r matches Ok(v) && v@.len() == 0),
            self.infos().contains_key(id) ==> (r matches Err(e) ==> read_error(
                self.vol().disk(),
                self.vol().geo,
                self.vol().kind,
                self.infos()[id].fst_clus,
                self.infos()[id].size,
                offset,
                size,
                e,
            )),
            r matches Ok(v) ==> read_spec(
                self.vol().disk(),
                self.vol().geo,
                self.vol().kind,
                self.infos()[id].fst_clus,
                self.infos()[id].size,
                offset,
                size,
            ) == Some(v@),
            self.infos().contains_key(id) && read_spec(
                self.vol().disk(),
                self.vol().geo,
                self.vol().kind,
                self.infos()[id].fst_clus,
                self.infos()[id].size,
                offset,
                size,
            ) is None ==> r is Err,
    {
        match self.fmap.get(&id) {
            Some(fi) => self.fio.read_file(fi.fst_clus, fi.size, offset, size),
            None => Err(FsError::NotFound),
        }
    }

    /// The file-info of `id`, where it has been met.
    pub fn getinfo(&self, id: u64) -> (r: Option<Finfo>)
        requires
            self.wf(),
        ensures
            r == self.info(id),
    {
        match self.fmap.get(&id) {
            Some(f) => Some(f.duplicate()),
            None => None,
        }
    }
}

/// Every file that a directory listing holds is what `getinfo` returns for its id.
pub proof fn lemma_listing_info<D: Device>(fs: Fs<D>, d: u64)
    requires
        fs.wf(),
        fs.dirs().contains_key(d),
    ensures
        forall|i: int|
            0 <= i < fs.listing(d).len() ==> fs.info(#[trigger] fs.listing(d)[i].id) == Some(
                fs.listing(d)[i],
            ),
{
    assert forall|i: int| 0 <= i < fs.listing(d).len() implies fs.info(
        #[trigger] fs.listing(d)[i].id,
    ) == Some(fs.listing(d)[i]) by {
        let c = fs.dirmap@[d]@[i];
        assert(fs.fmap@.contains_key(c));
        assert(fs.listing(d)[i] == fs.fmap@[c]);
    }
}

/// Two `readdir` calls in a row on one directory, the first of which succeeds,
/// return equal listings, and the second changes nothing.
pub proof fn lemma_readdir_twice<D: Device>(
    s0: Fs<D>,
    s1: Fs<D>,
    s2: Fs<D>,
    id: u64,
    r1: Result<Seq<Finfo>, FsError>,
    r2: Result<Seq<Finfo>, FsError>,
)
    requires
        readdir_post(s0, s1, id, r1),
        r1 is Ok,
        readdir_post(s1, s2, id, r2),
    ensures
        s2 == s1,
        r2 == r1,
{
}

} // verus!
