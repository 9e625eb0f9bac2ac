use vstd::prelude::*;
use std::collections::VecDeque;
use crate::bytes::{le_u16, le_u32, read_u16};
use crate::canvas::{
    inflate_exact, read_chunked_data, spec_canvas_bitmap, spec_canvas_stream, Canvas,
};
use crate::l1::{
    spec_data_size, spec_depth_size, spec_raw_height, spec_raw_width, WzCanvas, WzObject, WzPropValue, WzPropertyEntry,
    WzSound,
};
use crate::crypto::WzCrypto;
use crate::ctx::WzStrTable;
use crate::error::{WzError, WzErrorKind};
use crate::l0::{
    HeaderView, is_pkg_magic, spec_lookup_name, spec_read_dir, NodeView, WzDir, WzDirHeader, WzDirNode, WzHeader,
    WzImgHeader,
};
use crate::ty::WzOffset;
use crate::util::{spec_checksum, wz_checksum};
use crate::version::{spec_encrypt_version, spec_version_hash};
use crate::WzConfig;

verus! {

/// The name that paths from a traversal start with.
pub open spec fn root_chars() -> Seq<char> {
    seq!['r', 'o', 'o', 't']
}

/// A path at the root directory or below it.
pub open spec fn under_root(s: Seq<char>) -> bool {
    s == root_chars() || (s.len() >= 5 && s.subrange(0, 5) == root_chars().push('/'))
}

/// A path that a traversal yields for an image named `name`: a directory path at or below
/// the root, a `/`, then the name.
pub open spec fn traversal_path(p: Seq<char>, name: Seq<char>) -> bool {
    &&& p.len() >= 5 + name.len()
    &&& p.subrange(0, 5) == root_chars().push('/')
    &&& p.subrange(p.len() - name.len(), p.len() as int) == name
    &&& p[p.len() - name.len() - 1] == '/'
}

/// A reader over the bytes of a whole archive.
pub struct WzReader {
    inner: Vec<u8>,
    data_offset: u64,
    crypto: WzCrypto,
}

/// A reader over the bytes of one image, with its own table of strings.
pub struct WzImgReader {
    pub(crate) data: Vec<u8>,
    pub(crate) crypto: WzCrypto,
    pub(crate) str_table: WzStrTable,
}

impl WzImgReader {
    pub closed spec fn wf(&self) -> bool {
        self.crypto.wf()
    }

    pub closed spec fn spec_data(&self) -> Seq<u8> {
        self.data@
    }

    pub closed spec fn spec_crypto(&self) -> WzCrypto {
        self.crypto
    }

    pub closed spec fn spec_str_table(&self) -> Map<u32, Seq<char>> {
        self.str_table@
    }

    pub fn new(data: Vec<u8>, crypto: WzCrypto) -> (r: WzImgReader)
        ensures
            r.spec_data() == data@,
            r.spec_crypto() == crypto,
            r.wf() == crypto.wf(),
            r.spec_str_table() == Map::<u32, Seq<char>>::empty(),
    {
        WzImgReader { data, crypto, str_table: WzStrTable::new() }
    }
}

/// Whether the bytes open as an archive at the given configuration, and at what data offset.
pub open spec fn spec_open(d: Seq<u8>, cfg: WzConfig) -> Option<u32> {
    if is_pkg_magic(d) && d.len() >= 16 && (exists|e: int| crate::l0::first_nul(d, 16, e)) {
        let off = le_u32(d, 12);
        if off + 2 <= d.len() && off + 2 <= u32::MAX && le_u16(d, off as int)
            == spec_encrypt_version(spec_version_hash(cfg.version.0) as u32) {
            Some(off)
        } else {
            None
        }
    } else {
        None
    }
}

/// A well-formed header whose stored version differs from the one `cfg` derives.
pub open spec fn spec_version_mismatch(d: Seq<u8>, cfg: WzConfig) -> bool {
    &&& is_pkg_magic(d)
    &&& d.len() >= 16
    &&& exists|e: int| crate::l0::first_nul(d, 16, e)
    &&& le_u32(d, 12) + 2 <= d.len()
    &&& le_u32(d, 12) + 2 <= u32::MAX
    &&& le_u16(d, le_u32(d, 12) as int) != spec_encrypt_version(spec_version_hash(cfg.version.0) as u32)
}

impl WzReader {
    pub closed spec fn wf(&self) -> bool {
        &&& self.crypto.wf()
        &&& self.crypto.spec_data_offset() == self.data_offset
        &&& self.data_offset + 2 <= u32::MAX
    }

    pub closed spec fn spec_data(&self) -> Seq<u8> {
        self.inner@
    }

    pub closed spec fn spec_data_offset(&self) -> u64 {
        self.data_offset
    }

    pub closed spec fn spec_crypto(&self) -> WzCrypto {
        self.crypto
    }

    /// Opens an archive: reads the header and checks the stored version against `cfg`.
    pub fn open(data: Vec<u8>, cfg: WzConfig) -> (r: Result<WzReader, WzError>)
        ensures
            match r {
                Ok(rd) => {
                    &&& rd.wf()
                    &&& rd.spec_data() == data@
                    &&& spec_open(data@, cfg) == Some(rd.spec_data_offset() as u32)
                    &&& rd.spec_crypto().spec_version_hash() == spec_version_hash(cfg.version.0)
                    &&& rd.spec_crypto().spec_iv() == crate::version::region_iv(cfg.region)@
                },
                Err(e) => {
                    &&& spec_open(data@, cfg) is None
                    &&& !is_pkg_magic(data@) ==> e.kind == WzErrorKind::BadMagic
                    &&& spec_version_mismatch(data@, cfg) ==> e.kind == WzErrorKind::BadVersion
                },
            },
    {
        let hdr = WzHeader::read(data.as_slice())?;
        let off = hdr.data_offset;
        if off as u64 + 2 > u32::MAX as u64 {
            return Err(WzError::new(WzErrorKind::IO, 12));
        }
        let stored = read_u16(data.as_slice(), off as usize)?;
        let expected = cfg.version.encrypted_version();
        if expected != stored {
            return Err(WzError::new(WzErrorKind::BadVersion, off as usize));
        }
        Ok(WzReader::new(data, cfg, off as u64))
    }

    /// A reader over a bare image file: no header, data offset zero.
    pub fn open_img(data: Vec<u8>, cfg: WzConfig) -> (r: WzReader)
        ensures
            r.wf(),
            r.spec_data() == data@,
            r.spec_data_offset() == 0,
    {
        WzReader::new(data, cfg, 0)
    }

    fn new(data: Vec<u8>, cfg: WzConfig, data_offset: u64) -> (r: WzReader)
        requires
            data_offset + 2 <= u32::MAX,
        ensures
            r.wf(),
            r.spec_data() == data@,
            r.spec_data_offset() == data_offset,
            r.spec_crypto().spec_version_hash() == spec_version_hash(cfg.version.0),
            r.spec_crypto().spec_iv() == crate::version::region_iv(cfg.region)@,
    {
        WzReader { inner: data, crypto: WzCrypto::from_cfg(cfg, data_offset as u32), data_offset }
    }

    /// Number of bytes of the archive.
    pub fn data_len(&self) -> (r: usize)
        ensures
            r == self.spec_data().len(),
    {
        self.inner.len()
    }

    pub fn crypto(&self) -> (r: &WzCrypto)
        ensures
            *r == self.spec_crypto(),
    {
        &self.crypto
    }

    /// Where the root directory starts: two bytes past the data offset, after the version.
    pub fn root_offset(&self) -> (r: WzOffset)
        requires
            self.wf(),
        ensures
            r.0 == self.spec_data_offset() + 2,
    {
        WzOffset(self.data_offset as u32 + 2)
    }

    pub fn read_root_dir(&self) -> (r: Result<WzDir, WzError>)
        requires
            self.wf(),
        ensures
            match r {
                Ok(dir) => match spec_read_dir(
                    self.spec_crypto(),
                    self.spec_data(),
                    self.spec_data_offset() + 2,
                ) {
                    Some((es, _)) => es == dir.spec_entries(),
                    None => false,
                },
                Err(_) => spec_read_dir(
                    self.spec_crypto(),
                    self.spec_data(),
                    self.spec_data_offset() + 2,
                ) is None,
            },
    {
        self.read_dir(self.root_offset().0 as u64)
    }

    pub fn read_dir_node(&self, hdr: &WzDirHeader) -> (r: Result<WzDir, WzError>)
        requires
            self.wf(),
        ensures
            match r {
                Ok(dir) => match spec_read_dir(
                    self.spec_crypto(),
                    self.spec_data(),
                    hdr.offset.0 as int,
                ) {
                    Some((es, _)) => es == dir.spec_entries(),
                    None => false,
                },
                Err(_) => spec_read_dir(
                    self.spec_crypto(),
                    self.spec_data(),
                    hdr.offset.0 as int,
                ) is None,
            },
    {
        self.read_dir(hdr.offset.0 as u64)
    }

    fn read_dir(&self, offset: u64) -> (r: Result<WzDir, WzError>)
        requires
            self.wf(),
            offset <= u32::MAX,
        ensures
            match r {
                Ok(dir) => match spec_read_dir(self.spec_crypto(), self.spec_data(), offset as int) {
                    Some((es, _)) => es == dir.spec_entries(),
                    None => false,
                },
                Err(_) => spec_read_dir(self.spec_crypto(), self.spec_data(), offset as int) is None,
            },
    {
        let (dir, q) = WzDir::read(&self.crypto, self.inner.as_slice(), offset as usize)?;
        assert(spec_read_dir(self.spec_crypto(), self.spec_data(), offset as int) == Some(
            (dir.spec_entries(), q as int),
        ));
        Ok(dir)
    }

    /// A reader over the bytes `[offset, offset + blob_size)` of an image entry.
    pub fn img_reader(&self, hdr: &WzImgHeader) -> (r: Result<WzImgReader, WzError>)
        requires
            self.wf(),
        ensures
            match r {
                Ok(ir) => {
                    &&& hdr.blob_size.0 >= 0
                    &&& hdr.offset.0 + hdr.blob_size.0 <= self.spec_data().len()
                    &&& ir.wf()
                    &&& ir.spec_crypto().same_cipher(self.spec_crypto())
                    &&& ir.spec_data() == self.spec_data().subrange(
                        hdr.offset.0 as int,
                        hdr.offset.0 + hdr.blob_size.0,
                    )
                    &&& ir.spec_str_table() == Map::<u32, Seq<char>>::empty()
                },
                Err(e) => e.kind == WzErrorKind::IO && (hdr.blob_size.0 < 0 || hdr.offset.0
                    + hdr.blob_size.0 > self.spec_data().len()),
            },
    {
        let off = hdr.offset.0 as usize;
        if hdr.blob_size.0 < 0 {
            return Err(WzError::new(WzErrorKind::IO, off));
        }
        let size = hdr.blob_size.0 as usize;
        if off > self.inner.len() || size > self.inner.len() - off {
            return Err(WzError::new(WzErrorKind::IO, off));
        }
        let bytes = vstd::slice::slice_to_vec(
            vstd::slice::slice_subrange(self.inner.as_slice(), off, off + size),
        );
        Ok(WzImgReader::new(bytes, self.crypto.duplicate()))
    }

    /// A reader over the whole input, for image files without a directory.
    pub fn root_img_reader(&self) -> (r: WzImgReader)
        requires
            self.wf(),
        ensures
            r.wf(),
            r.spec_data() == self.spec_data(),
            r.spec_crypto().same_cipher(self.spec_crypto()),
    {
        WzImgReader::new(self.inner.clone(), self.crypto.duplicate())
    }

    /// The 32-bit wrapping sum of the `ln` bytes from `offset`.
    pub fn checksum(&self, offset: u64, ln: u64) -> (r: Result<i32, WzError>)
        ensures
            match r {
                Ok(c) => offset + ln <= self.spec_data().len() && c == spec_checksum(
                    0,
                    self.spec_data().subrange(offset as int, offset + ln),
                ),
                Err(e) => offset + ln > self.spec_data().len() && e.kind == WzErrorKind::IO,
            },
    {
        let len = self.inner.len();
        if offset > len as u64 || ln > len as u64 - offset {
            return Err(WzError::new(WzErrorKind::IO, len));
        }
        let part = vstd::slice::slice_subrange(
            self.inner.as_slice(),
            offset as usize,
            (offset + ln) as usize,
        );
        Ok(wz_checksum(0, part))
    }
}

} // verus!

verus! {

/// `parent/name`.
fn join_path(parent: &String, name: &str) -> (r: String)
    ensures
        r@ == parent@ + seq!['/'] + name@,
{
    let mut s = parent.clone();
    proof {
        reveal_strlit("/");
    }
    s.append("/");
    s.append(name);
    s
}

/// What a queue of (parent path, entry) pairs holds.
pub open spec fn queue_view(q: Seq<(String, WzDirNode)>) -> Seq<(Seq<char>, NodeView)> {
    q.map_values(|e: (String, WzDirNode)| (e.0@, e.1@))
}

/// What a traversal item says: the path and header of an image, or `None` for an error.
pub open spec fn item_view(r: Result<(String, WzImgHeader), WzError>) -> Option<(Seq<char>, HeaderView)> {
    match r {
        Ok((p, h)) => Some((p@, h@)),
        Err(_) => None,
    }
}

pub open spec fn items_view(r: Seq<Result<(String, WzImgHeader), WzError>>) -> Seq<
    Option<(Seq<char>, HeaderView)>,
> {
    r.map_values(|x: Result<(String, WzImgHeader), WzError>| item_view(x))
}

/// Breadth-first walk over queued entries: an image, or the image a link names, yields its
/// path; a directory is read, at most `fuel` of them, and its entries are queued behind the
/// rest under its path; a directory that cannot be read yields an error; nil entries yield
/// nothing. Running out of fuel on a directory yields an error and ends the walk.
pub open spec fn spec_walk(
    c: WzCrypto,
    d: Seq<u8>,
    q: Seq<(Seq<char>, NodeView)>,
    fuel: nat,
) -> Seq<Option<(Seq<char>, HeaderView)>>
    decreases fuel, q.len(),
{
    if q.len() == 0 {
        Seq::empty()
    } else {
        let parent = q[0].0;
        let rest = q.drop_first();
        match q[0].1 {
            NodeView::Dir(h) => if fuel == 0 {
                seq![None]
            } else {
                let path = parent + seq!['/'] + h.name;
                match spec_read_dir(c, d, h.offset as int) {
                    None => seq![None] + spec_walk(c, d, rest, (fuel - 1) as nat),
                    Some((es, _)) => spec_walk(
                        c,
                        d,
                        rest + es.map_values(|e: NodeView| (path, e)),
                        (fuel - 1) as nat,
                    ),
                }
            },
            NodeView::Img(h) => seq![Some((parent + seq!['/'] + h.name, h))] + spec_walk(
                c,
                d,
                rest,
                fuel,
            ),
            NodeView::Link(_, t, _, _, _) => seq![Some((parent + seq!['/'] + t.name, t))]
                + spec_walk(c, d, rest, fuel),
            NodeView::Nil(_) => spec_walk(c, d, rest, fuel),
        }
    }
}

/// Everything a traversal of the archive yields: the walk from the root directory's entries
/// under the path `root`, with one directory read per byte of the archive at most.
pub open spec fn spec_traverse(c: WzCrypto, d: Seq<u8>, root_offset: int) -> Seq<
    Option<(Seq<char>, HeaderView)>,
> {
    match spec_read_dir(c, d, root_offset) {
        None => seq![None],
        Some((es, _)) => spec_walk(c, d, es.map_values(|e: NodeView| (root_chars(), e)), d.len()),
    }
}

proof fn lemma_join_traversal(parent: Seq<char>, name: Seq<char>, path: Seq<char>)
    requires
        under_root(parent),
        path == parent + seq!['/'] + name,
    ensures
        traversal_path(path, name),
{
    assert(path.subrange(0, 5) =~= root_chars().push('/'));
    assert(path.subrange(path.len() - name.len(), path.len() as int) =~= name);
}

/// Queues each entry of a directory behind the ones already waiting, under `path`.
fn enqueue(q: &mut VecDeque<(String, WzDirNode)>, path: &String, entries: &Vec<WzDirNode>)
    requires
        under_root(path@),
        forall|j: int| 0 <= j < old(q)@.len() ==> under_root((#[trigger] old(q)@[j]).0@),
    ensures
        forall|j: int| 0 <= j < final(q)@.len() ==> under_root((#[trigger] final(q)@[j]).0@),
        queue_view(final(q)@) == queue_view(old(q)@) + entries@.map_values(|e: WzDirNode| e@).map_values(
            |e: NodeView| (path@, e),
        ),
{
    let ghost es = entries@.map_values(|e: WzDirNode| e@).map_values(|e: NodeView| (path@, e));
    let mut k: usize = 0;
    while k < entries.len()
        invariant
            k <= entries@.len(),
            under_root(path@),
            es == entries@.map_values(|e: WzDirNode| e@).map_values(|e: NodeView| (path@, e)),
            forall|j: int| 0 <= j < q@.len() ==> under_root((#[trigger] q@[j]).0@),
            queue_view(q@) == queue_view(old(q)@) + es.take(k as int),
        decreases entries@.len() - k,
    {
        let ghost before = q@;
        q.push_back((path.clone(), entries[k].duplicate()));
        assert(queue_view(q@) =~= queue_view(before).push(es[k as int]));
        assert(es.take(k + 1) == es.take(k as int).push(es[k as int]));
        k = k + 1;
    }
    assert(es.take(entries@.len() as int) == es);
}

impl WzReader {
    /// Every image of the archive with its path, breadth first from the root directory. A
    /// link entry yields the image it points at, under the link's own place in the tree. A
    /// directory that cannot be read yields its error and the walk goes on.
    pub fn traverse_images(&self) -> (r: Vec<Result<(String, WzImgHeader), WzError>>)
        requires
            self.wf(),
        ensures
            items_view(r@) == spec_traverse(
                self.spec_crypto(),
                self.spec_data(),
                self.spec_data_offset() + 2,
            ),
            forall|i: int|
                0 <= i < r@.len() ==> match #[trigger] r@[i] {
                    Ok((p, h)) => traversal_path(p@, h.name.0@),
                    Err(_) => true,
                },
    {
        let ghost c = self.spec_crypto();
        let ghost d = self.spec_data();
        let mut out: Vec<Result<(String, WzImgHeader), WzError>> = Vec::new();
        let root_path = String::from_str("root");
        proof {
            reveal_strlit("root");
            assert(root_path@ =~= root_chars());
        }
        let mut q: VecDeque<(String, WzDirNode)> = VecDeque::new();
        match self.read_root_dir() {
            Err(e) => {
                out.push(Err(e));
                assert(items_view(out@) =~= seq![None]);
                return out;
            },
            Ok(dir) => {
                enqueue(&mut q, &root_path, &dir.entries.0);
                assert(queue_view(q@) =~= dir.spec_entries().map_values(|e: NodeView| (root_chars(), e)));
            },
        }
        let mut budget: usize = self.inner.len();
        assert(items_view(out@) =~= Seq::<Option<(Seq<char>, HeaderView)>>::empty());
        while q.len() > 0
            invariant
                self.wf(),
                c == self.spec_crypto(),
                d == self.spec_data(),
                forall|j: int| 0 <= j < q@.len() ==> under_root((#[trigger] q@[j]).0@),
                forall|i: int|
                    0 <= i < out@.len() ==> match #[trigger] out@[i] {
                        Ok((p, h)) => traversal_path(p@, h.name.0@),
                        Err(_) => true,
                    },
                spec_traverse(c, d, self.spec_data_offset() + 2) == items_view(out@) + spec_walk(
                    c,
                    d,
                    queue_view(q@),
                    budget as nat,
                ),
            decreases budget, q@.len(),
        {
            let ghost qv = queue_view(q@);
            let ghost ov = items_view(out@);
            let (parent, node) = match q.pop_front() {
                Some(item) => item,
                None => {
                    return out;
                },
            };
            assert(qv[0] == (parent@, node@));
            assert(queue_view(q@) =~= qv.drop_first());
            assert(under_root(parent@));
            match node {
                WzDirNode::Dir(dir) => {
                    if budget == 0 {
                        out.push(Err(WzError::new(WzErrorKind::BadTag, dir.offset.0 as usize)));
                        assert(items_view(out@) =~= ov + seq![None]);
                        return out;
                    }
                    let ghost b0 = budget;
                    budget = budget - 1;
                    let path = join_path(&parent, dir.name.as_str());
                    assert(under_root(path@)) by {
                        assert(path@.subrange(0, 5) =~= root_chars().push('/'));
                    }
                    match self.read_dir_node(&dir) {
                        Err(e) => {
                            out.push(Err(e));
                            assert(items_view(out@) =~= ov + seq![None]);
                            assert(ov + seq![None] + spec_walk(c, d, queue_view(q@), budget as nat)
                                =~= ov + (seq![None] + spec_walk(c, d, queue_view(q@), budget as nat)));
                        },
                        Ok(listing) => {
                            let ghost before = queue_view(q@);
                            enqueue(&mut q, &path, &listing.entries.0);
                        },
                    }
                },
                WzDirNode::Img(img) => {
                    let path = join_path(&parent, img.name.as_str());
                    proof {
                        lemma_join_traversal(parent@, img.name.0@, path@);
                    }
                    let ghost item = Some((path@, img@));
                    out.push(Ok((path, img)));
                    assert(items_view(out@) =~= ov.push(item));
                    assert(ov.push(item) + spec_walk(c, d, queue_view(q@), budget as nat) =~= ov + (
                    seq![item] + spec_walk(c, d, queue_view(q@), budget as nat)));
                },
                WzDirNode::Link(link) => {
                    let img = link.link.link_img;
                    let path = join_path(&parent, img.name.as_str());
                    proof {
                        lemma_join_traversal(parent@, img.name.0@, path@);
                    }
                    let ghost item = Some((path@, img@));
                    out.push(Ok((path, img)));
                    assert(items_view(out@) =~= ov.push(item));
                    assert(ov.push(item) + spec_walk(c, d, queue_view(q@), budget as nat) =~= ov + (
                    seq![item] + spec_walk(c, d, queue_view(q@), budget as nat)));
                },
                WzDirNode::Nil(_) => {},
            }
        }
        assert(queue_view(q@) =~= Seq::<(Seq<char>, NodeView)>::empty());
        assert(items_view(out@) + Seq::<Option<(Seq<char>, HeaderView)>>::empty() =~= items_view(out@));
        out
    }

    /// Follows a `/`-separated path of names down from `root`, which must be a directory
    /// wherever a name is still to be looked up.
    pub fn read_path(&self, root: &WzDirNode, path: &str) -> (r: Result<WzDirNode, WzError>)
        requires
            self.wf(),
        ensures
            match r {
                Ok(n) => spec_dir_path(
                    self.spec_crypto(),
                    self.spec_data(),
                    root@,
                    crate::util::spec_split(path@),
                ) == Some(n@),
                Err(e) => spec_dir_path(
                    self.spec_crypto(),
                    self.spec_data(),
                    root@,
                    crate::util::spec_split(path@),
                ) is None && (e.kind == WzErrorKind::NotFound || e.kind == WzErrorKind::BadTag
                    || e.kind == WzErrorKind::IO),
            },
    {
        let parts = crate::util::split_path(path);
        let ghost ps = crate::util::spec_split(path@);
        let ghost c = self.spec_crypto();
        let ghost d = self.spec_data();
        let mut cur = root.duplicate();
        let mut i: usize = 0;
        while i < parts.len()
            invariant
                self.wf(),
                c == self.spec_crypto(),
                d == self.spec_data(),
                i <= parts@.len(),
                parts@.map_values(|p: String| p@) == ps,
                ps == crate::util::spec_split(path@),
                spec_dir_path(c, d, root@, ps.take(i as int)) == Some(cur@),
            decreases parts@.len() - i,
        {
            assert(ps.take(i + 1).drop_last() == ps.take(i as int));
            assert(ps.take(i + 1).last() == parts@[i as int]@);
            assert(spec_dir_path(c, d, root@, ps.take(i + 1)) == spec_dir_step(c, d, cur@, parts@[i as int]@));
            let dir = match &cur {
                WzDirNode::Dir(h) => h.duplicate(),
                _ => {
                    proof {
                        lemma_dir_path_none_grows(c, d, root@, ps, (i + 1) as nat);
                    }
                    return Err(WzError::new(WzErrorKind::BadTag, 0));
                },
            };
            let listing = match self.read_dir_node(&dir) {
                Ok(l) => l,
                Err(e) => {
                    proof {
                        lemma_dir_path_none_grows(c, d, root@, ps, (i + 1) as nat);
                    }
                    return Err(WzError { kind: WzErrorKind::IO, pos: e.pos });
                },
            };
            let next = match listing.get(parts[i].as_str()) {
                Some(n) => {
                    proof {
                        let k = choose|k: int|
                            0 <= k < listing.entries.0@.len() && listing.entries.0@[k] == *n
                                && spec_lookup_name(n@) == Some(parts@[i as int]@) && forall|j: int|
                                0 <= j < k ==> spec_lookup_name(
                                    #[trigger] listing.entries.0@[j]@,
                                ) != Some(parts@[i as int]@);
                        lemma_find_node_at(listing.spec_entries(), parts@[i as int]@, k);
                    }
                    n.duplicate()
                },
                None => {
                    proof {
                        lemma_find_node_none(listing.spec_entries(), parts@[i as int]@);
                        lemma_dir_path_none_grows(c, d, root@, ps, (i + 1) as nat);
                    }
                    return Err(WzError::new(WzErrorKind::NotFound, dir.offset.0 as usize));
                },
            };
            cur = next;
            i = i + 1;
        }
        assert(ps.take(ps.len() as int) == ps);
        Ok(cur)
    }
}

/// The first entry found under `name`.
pub open spec fn spec_find_node(es: Seq<NodeView>, name: Seq<char>) -> Option<NodeView>
    decreases es.len(),
{
    if es.len() == 0 {
        None
    } else if spec_lookup_name(es[0]) == Some(name) {
        Some(es[0])
    } else {
        spec_find_node(es.drop_first(), name)
    }
}

/// One step down: the entry under `name` in the listing of a directory.
pub open spec fn spec_dir_step(c: WzCrypto, d: Seq<u8>, n: NodeView, name: Seq<char>) -> Option<
    NodeView,
> {
    match n {
        NodeView::Dir(h) => match spec_read_dir(c, d, h.offset as int) {
            Some((es, _)) => spec_find_node(es, name),
            None => None,
        },
        _ => None,
    }
}

/// The entry reached by following the names in turn.
pub open spec fn spec_dir_path(c: WzCrypto, d: Seq<u8>, n: NodeView, parts: Seq<Seq<char>>) -> Option<
    NodeView,
>
    decreases parts.len(),
{
    if parts.len() == 0 {
        Some(n)
    } else {
        match spec_dir_path(c, d, n, parts.drop_last()) {
            Some(m) => spec_dir_step(c, d, m, parts.last()),
            None => None,
        }
    }
}

proof fn lemma_dir_path_none_grows(c: WzCrypto, d: Seq<u8>, n: NodeView, ps: Seq<Seq<char>>, k: nat)
    requires
        k <= ps.len(),
        spec_dir_path(c, d, n, ps.take(k as int)) is None,
    ensures
        spec_dir_path(c, d, n, ps) is None,
    decreases ps.len() - k,
{
    if k < ps.len() {
        assert(ps.take((k + 1) as int).drop_last() == ps.take(k as int));
        lemma_dir_path_none_grows(c, d, n, ps, k + 1);
    } else {
        assert(ps.take(k as int) == ps);
    }
}

proof fn lemma_find_node_at(es: Seq<NodeView>, name: Seq<char>, k: int)
    requires
        0 <= k < es.len(),
        spec_lookup_name(es[k]) == Some(name),
        forall|j: int| 0 <= j < k ==> spec_lookup_name(#[trigger] es[j]) != Some(name),
    ensures
        spec_find_node(es, name) == Some(es[k]),
    decreases k,
{
    if k > 0 {
        lemma_find_node_at(es.drop_first(), name, k - 1);
    }
}

proof fn lemma_find_node_none(es: Seq<NodeView>, name: Seq<char>)
    requires
        forall|j: int| 0 <= j < es.len() ==> spec_lookup_name(#[trigger] es[j]) != Some(name),
    ensures
        spec_find_node(es, name) is None,
    decreases es.len(),
{
    if es.len() > 0 {
        lemma_find_node_none(es.drop_first(), name);
    }
}

} // verus!

verus! {

impl WzImgReader {
    /// Unpacks the bitmap of a canvas read from this image.
    pub fn read_canvas(&self, canvas: &WzCanvas) -> (r: Result<Canvas, WzError>)
        requires
            self.wf(),
            canvas.wf(),
        ensures
            match r {
                Ok(cv) => {
                    &&& canvas.len.val >= 1
                    &&& canvas.len.pos + 5 <= u64::MAX
                    &&& match spec_canvas_stream(
                        self.spec_crypto(),
                        self.spec_data(),
                        canvas.len.pos + 5,
                        canvas.len.val - 1,
                    ) {
                        Some(stream) => spec_canvas_bitmap(stream, *canvas) == Some(cv.data@),
                        None => false,
                    }
                    &&& cv.depth == canvas.depth
                    &&& cv.raw_w == spec_raw_width(*canvas)
                    &&& cv.raw_h == spec_raw_height(*canvas)
                },
                Err(_) => true,
            },
            r is Ok <==> {
                &&& canvas.len.val >= 1
                &&& canvas.len.pos + 5 <= u64::MAX
                &&& spec_raw_width(*canvas) * spec_raw_height(*canvas) * spec_depth_size(
                    canvas.depth,
                ) <= usize::MAX
                &&& match spec_canvas_stream(
                    self.spec_crypto(),
                    self.spec_data(),
                    canvas.len.pos + 5,
                    canvas.len.val - 1,
                ) {
                    Some(stream) => spec_canvas_bitmap(stream, *canvas) is Some,
                    None => false,
                }
            },
    {
        if canvas.len.val < 1 || canvas.len.pos > u64::MAX - 5 {
            return Err(WzError::new(WzErrorKind::IO, 0));
        }
        let len = canvas.data_len();
        let off64 = canvas.data_offset();
        if off64 > self.data.len() as u64 {
            return Err(WzError::new(WzErrorKind::IO, self.data.len()));
        }
        let off = off64 as usize;
        let d = self.data.as_slice();
        let hdr = read_u16(d, off)?;
        let is_zlib = hdr % 256 == 0x78;
        let with_preset = (hdr / 0x2000) % 2 != 0;
        let size128 = canvas.raw_bitmap_size();
        if size128 > usize::MAX as u128 {
            return Err(WzError::new(WzErrorKind::IO, off));
        }
        let size = size128 as usize;
        let mut img_buf: Vec<u8> = Vec::new();
        let mut k: usize = 0;
        while k < size
            invariant
                k <= size,
                img_buf@.len() == k,
            decreases size - k,
        {
            img_buf.push(0u8);
            k = k + 1;
        }
        let ok = if is_zlib && !with_preset {
            if len > d.len() - off {
                return Err(WzError::new(WzErrorKind::IO, off));
            }
            let payload = vstd::slice::slice_subrange(d, off, off + len);
            inflate_exact(payload, &mut img_buf)
        } else {
            let buf = read_chunked_data(&self.crypto, d, off, len)?;
            inflate_exact(buf.as_slice(), &mut img_buf)
        };
        if !ok {
            return Err(WzError::new(WzErrorKind::IO, off));
        }
        Ok(Canvas::from_data(img_buf, canvas))
    }
}


} // verus!

verus! {

/// The index of the first property entry with the given name.
pub open spec fn spec_find_entry(es: Seq<WzPropertyEntry>, name: Seq<char>) -> Option<int>
    decreases es.len(),
{
    if es.len() == 0 {
        None
    } else if es[0].name.0.0@ == name {
        Some(0)
    } else {
        match spec_find_entry(es.drop_first(), name) {
            Some(i) => Some(i + 1),
            None => None,
        }
    }
}

/// One step down an object: the embedded object stored under `name` in a property.
pub open spec fn spec_obj_step(o: WzObject, name: Seq<char>) -> Option<WzObject> {
    match o {
        WzObject::Property(p) => match spec_find_entry(p.entries.0@, name) {
            Some(i) => match p.entries.0@[i].val {
                WzPropValue::Obj(v) => Some(*v.obj),
                _ => None,
            },
            None => None,
        },
        _ => None,
    }
}

/// The object reached by following the names in turn.
pub open spec fn spec_obj_path(o: WzObject, parts: Seq<Seq<char>>) -> Option<WzObject>
    decreases parts.len(),
{
    if parts.len() == 0 {
        Some(o)
    } else {
        match spec_obj_path(o, parts.drop_last()) {
            Some(c) => spec_obj_step(c, parts.last()),
            None => None,
        }
    }
}

fn find_entry(es: &Vec<WzPropertyEntry>, name: &String) -> (r: Option<usize>)
    ensures
        match r {
            Some(i) => spec_find_entry(es@, name@) == Some(i as int) && i < es@.len(),
            None => spec_find_entry(es@, name@) is None,
        },
{
    let mut i: usize = 0;
    while i < es.len()
        invariant
            i <= es@.len(),
            forall|j: int| 0 <= j < i ==> es@[j].name.0.0@ != name@,
        decreases es@.len() - i,
    {
        if es[i].name.0.0 == *name {
            proof {
                lemma_find_entry_at(es@, name@, i as int);
            }
            return Some(i);
        }
        i = i + 1;
    }
    proof {
        lemma_find_entry_none(es@, name@);
    }
    None
}

proof fn lemma_find_entry_at(es: Seq<WzPropertyEntry>, name: Seq<char>, i: int)
    requires
        0 <= i < es.len(),
        es[i].name.0.0@ == name,
        forall|j: int| 0 <= j < i ==> es[j].name.0.0@ != name,
    ensures
        spec_find_entry(es, name) == Some(i),
    decreases i,
{
    if i > 0 {
        lemma_find_entry_at(es.drop_first(), name, i - 1);
    }
}

proof fn lemma_find_entry_none(es: Seq<WzPropertyEntry>, name: Seq<char>)
    requires
        forall|j: int| 0 <= j < es.len() ==> es[j].name.0.0@ != name,
    ensures
        spec_find_entry(es, name) is None,
    decreases es.len(),
{
    if es.len() > 0 {
        lemma_find_entry_none(es.drop_first(), name);
    }
}

impl WzImgReader {
    /// Reads the root object of the image, at its first byte.
    pub fn read_root_obj(&mut self) -> (r: Result<WzObject, WzError>)
        requires
            old(self).wf(),
        ensures
            final(self).wf(),
            final(self).spec_data() == old(self).spec_data(),
            final(self).spec_crypto() == old(self).spec_crypto(),
            match r {
                Ok(o) => match crate::l1_read::spec_read_interned(
                    old(self).spec_crypto(),
                    old(self).spec_data(),
                    0,
                    old(self).spec_str_table(),
                    0x73,
                    0x1B,
                ) {
                    Some((name, _)) => crate::l1_read::spec_object_kind(name) == Some(
                        crate::l1_read::object_kind(o),
                    ),
                    None => false,
                },
                Err(_) => true,
            },
    {
        let (obj, _) = crate::l1_read::read_object(
            &self.crypto,
            &mut self.str_table,
            self.data.as_slice(),
            0,
        )?;
        Ok(obj)
    }

    /// The payload bytes of a sound read from this image.
    pub fn read_sound(&self, sound: &WzSound) -> (r: Result<Vec<u8>, WzError>)
        ensures
            match r {
                Ok(v) => sound.size.0 >= 0 && sound.offset.pos + spec_data_size(*sound)
                    <= self.spec_data().len() && v@ == self.spec_data().subrange(
                    sound.offset.pos as int,
                    sound.offset.pos + spec_data_size(*sound),
                ),
                Err(e) => e.kind == WzErrorKind::IO && !(sound.size.0 >= 0 && sound.offset.pos
                    + spec_data_size(*sound) <= self.spec_data().len()),
            },
    {
        if sound.size.0 < 0 {
            return Err(WzError::new(WzErrorKind::IO, 0));
        }
        let ln = sound.data_size();
        let len = self.data.len();
        if sound.offset.pos > len as u64 || ln > len - sound.offset.pos as usize {
            return Err(WzError::new(WzErrorKind::IO, len));
        }
        let start = sound.offset.pos as usize;
        Ok(vstd::slice::slice_to_vec(vstd::slice::slice_subrange(self.data.as_slice(), start, start + ln)))
    }

    /// Follows a `/`-separated path of property names down from `root`, through embedded
    /// objects.
    pub fn read_path<'a>(&self, root: &'a WzObject, path: &str) -> (r: Result<&'a WzObject, WzError>)
        ensures
            match r {
                Ok(o) => spec_obj_path(*root, crate::util::spec_split(path@)) == Some(*o),
                Err(e) => spec_obj_path(*root, crate::util::spec_split(path@)) is None && e.kind
                    == WzErrorKind::NotFound,
            },
    {
        let parts = crate::util::split_path(path);
        let ghost ps = crate::util::spec_split(path@);
        let mut cur = root;
        let mut i: usize = 0;
        while i < parts.len()
            invariant
                i <= parts@.len(),
                parts@.map_values(|p: String| p@) == ps,
                ps == crate::util::spec_split(path@),
                spec_obj_path(*root, ps.take(i as int)) == Some(*cur),
            decreases parts@.len() - i,
        {
            assert(ps.take(i + 1).drop_last() == ps.take(i as int));
            assert(ps.take(i + 1).last() == parts@[i as int]@);
            assert(spec_obj_path(*root, ps.take(i + 1)) == spec_obj_step(*cur, parts@[i as int]@));
            let next: &'a WzObject = match cur {
                WzObject::Property(prop) => match find_entry(&prop.entries.0, &parts[i]) {
                    Some(k) => match &prop.entries.0[k].val {
                        WzPropValue::Obj(v) => &v.obj,
                        _ => {
                            proof {
                                lemma_path_none_grows(*root, ps, (i + 1) as nat);
                            }
                            return Err(WzError::new(WzErrorKind::NotFound, i));
                        },
                    },
                    None => {
                        proof {
                            lemma_path_none_grows(*root, ps, (i + 1) as nat);
                        }
                        return Err(WzError::new(WzErrorKind::NotFound, i));
                    },
                },
                _ => {
                    proof {
                        lemma_path_none_grows(*root, ps, (i + 1) as nat);
                    }
                    return Err(WzError::new(WzErrorKind::NotFound, i));
                },
            };
            cur = next;
            i = i + 1;
        }
        assert(ps.take(ps.len() as int) == ps);
        Ok(cur)
    }
}

proof fn lemma_path_none_grows(o: WzObject, ps: Seq<Seq<char>>, k: nat)
    requires
        k <= ps.len(),
        spec_obj_path(o, ps.take(k as int)) is None,
    ensures
        spec_obj_path(o, ps) is None,
    decreases ps.len() - k,
{
    if k < ps.len() {
        assert(ps.take((k + 1) as int).drop_last() == ps.take(k as int));
        lemma_path_none_grows(o, ps, k + 1);
    } else {
        assert(ps.take(k as int) == ps);
    }
}

} // verus!
