use vstd::prelude::*;
use crate::bytes::{le_u32, le_u64, read_u32, read_u64, read_u8};
use crate::crypto::WzCrypto;
use crate::error::{WzError, WzErrorKind};
use crate::ty::{
    spec_read_offset, spec_read_wz_int, spec_read_wz_str, WzInt, WzOffset, WzStr, WzVec,
};

verus! {

/// The four bytes every archive starts with.
pub open spec fn is_pkg_magic(d: Seq<u8>) -> bool {
    d.len() >= 4 && d[0] == 0x50 && d[1] == 0x4B && d[2] == 0x47 && d[3] == 0x31
}

/// The archive's file header: magic `PKG1`, file size, data offset and a NUL-terminated
/// description.
#[derive(Debug, Clone)]
pub struct WzHeader {
    pub file_size: u64,
    pub data_offset: u32,
    pub desc: Vec<u8>,
}

/// Whether `e` is the first NUL byte at or after `s`.
pub open spec fn first_nul(d: Seq<u8>, s: int, e: int) -> bool {
    &&& s <= e < d.len()
    &&& d[e] == 0
    &&& forall|i: int| s <= i < e ==> d[i] != 0
}

impl WzHeader {
    pub fn read(d: &[u8]) -> (r: Result<WzHeader, WzError>)
        ensures
            match r {
                Ok(h) => {
                    &&& is_pkg_magic(d@)
                    &&& d@.len() >= 16
                    &&& h.file_size == le_u64(d@, 4)
                    &&& h.data_offset == le_u32(d@, 12)
                    &&& first_nul(d@, 16, 16 + h.desc@.len() as int)
                    &&& h.desc@ == d@.subrange(16, 16 + h.desc@.len() as int)
                },
                Err(e) => {
                    &&& !is_pkg_magic(d@) ==> e.kind == WzErrorKind::BadMagic
                    &&& is_pkg_magic(d@) ==> e.kind == WzErrorKind::IO && (d@.len() < 16 || forall|
                        i: int,
                    | 16 <= i < d@.len() ==> d@[i] != 0)
                },
            },
    {
        let len = d.len();
        if len < 4 || d[0] != 0x50 || d[1] != 0x4B || d[2] != 0x47 || d[3] != 0x31 {
            return Err(WzError::new(WzErrorKind::BadMagic, 0));
        }
        let file_size = read_u64(d, 4)?;
        let data_offset = read_u32(d, 12)?;
        let mut desc: Vec<u8> = Vec::new();
        let mut i: usize = 16;
        while i < len && d[i] != 0
            invariant
                16 <= i <= len == d@.len(),
                desc@ == d@.subrange(16, i as int),
                forall|k: int| 16 <= k < i ==> d@[k] != 0,
            decreases len - i,
        {
            desc.push(d[i]);
            i = i + 1;
        }
        if i == len {
            return Err(WzError::new(WzErrorKind::IO, i));
        }
        Ok(WzHeader { file_size, data_offset, desc })
    }
}

/// What a directory entry or image entry says: name, size, checksum and decrypted offset.
pub struct HeaderView {
    pub name: Seq<char>,
    pub blob_size: i32,
    pub checksum: i32,
    pub offset: u32,
}

/// The entry fields at `p` and the position after them.
pub open spec fn spec_read_fields(c: WzCrypto, d: Seq<u8>, p: int) -> Option<(HeaderView, int)> {
    match spec_read_wz_str(c, d, p) {
        None => None,
        Some((name, p1)) => match spec_read_wz_int(d, p1) {
            None => None,
            Some((blob_size, p2)) => match spec_read_wz_int(d, p2) {
                None => None,
                Some((checksum, p3)) => match spec_read_offset(c, d, p3) {
                    None => None,
                    Some(offset) => Some(
                        (HeaderView { name, blob_size, checksum, offset }, p3 + 4),
                    ),
                },
            },
        },
    }
}

#[derive(Debug, Clone, PartialEq, Eq)]
pub struct WzImgHeader {
    pub name: WzStr,
    pub blob_size: WzInt,
    pub checksum: WzInt,
    pub offset: WzOffset,
}

#[derive(Debug, Clone, PartialEq, Eq)]
pub struct WzDirHeader {
    pub name: WzStr,
    pub blob_size: WzInt,
    pub checksum: WzInt,
    pub offset: WzOffset,
}

impl View for WzImgHeader {
    type V = HeaderView;

    open spec fn view(&self) -> HeaderView {
        HeaderView {
            name: self.name.0@,
            blob_size: self.blob_size.0,
            checksum: self.checksum.0,
            offset: self.offset.0,
        }
    }
}

impl View for WzDirHeader {
    type V = HeaderView;

    open spec fn view(&self) -> HeaderView {
        HeaderView {
            name: self.name.0@,
            blob_size: self.blob_size.0,
            checksum: self.checksum.0,
            offset: self.offset.0,
        }
    }
}

fn read_fields(crypto: &WzCrypto, d: &[u8], pos: usize) -> (r: Result<
    (WzStr, WzInt, WzInt, WzOffset, usize),
    WzError,
>)
    requires
        crypto.wf(),
    ensures
        match r {
            Ok((name, b, k, o, np)) => spec_read_fields(*crypto, d@, pos as int) == Some(
                (HeaderView { name: name.0@, blob_size: b.0, checksum: k.0, offset: o.0 }, np as int),
            ),
            Err(_) => spec_read_fields(*crypto, d@, pos as int) is None,
        },
{
    let (name, p1) = WzStr::read(crypto, d, pos)?;
    let (blob_size, p2) = WzInt::read(d, p1)?;
    let (checksum, p3) = WzInt::read(d, p2)?;
    let (offset, p4) = WzOffset::read(crypto, d, p3)?;
    Ok((name, blob_size, checksum, offset, p4))
}

impl WzImgHeader {
    pub fn read(crypto: &WzCrypto, d: &[u8], pos: usize) -> (r: Result<(WzImgHeader, usize), WzError>)
        requires
            crypto.wf(),
        ensures
            match r {
                Ok((h, np)) => spec_read_fields(*crypto, d@, pos as int) == Some((h@, np as int)),
                Err(_) => spec_read_fields(*crypto, d@, pos as int) is None,
            },
    {
        let (name, blob_size, checksum, offset, np) = read_fields(crypto, d, pos)?;
        Ok((WzImgHeader { name, blob_size, checksum, offset }, np))
    }
}

impl WzDirHeader {
    pub fn read(crypto: &WzCrypto, d: &[u8], pos: usize) -> (r: Result<(WzDirHeader, usize), WzError>)
        requires
            crypto.wf(),
        ensures
            match r {
                Ok((h, np)) => spec_read_fields(*crypto, d@, pos as int) == Some((h@, np as int)),
                Err(_) => spec_read_fields(*crypto, d@, pos as int) is None,
            },
    {
        let (name, blob_size, checksum, offset, np) = read_fields(crypto, d, pos)?;
        Ok((WzDirHeader { name, blob_size, checksum, offset }, np))
    }

    /// The header that stands for the root directory.
    pub fn root(name: &str, root_size: usize, offset: WzOffset) -> (r: WzDirHeader)
        ensures
            r.name.0@ == name@,
            r.blob_size.0 == root_size as i32,
            r.checksum.0 == 1,
            r.offset == offset,
    {
        WzDirHeader {
            name: WzStr::new(String::from_str(name)),
            blob_size: WzInt(#[verifier::truncate] (root_size as i32)),
            checksum: WzInt(1),
            offset,
        }
    }
}

} // verus!

verus! {

/// What a directory entry holds.
pub enum NodeView {
    Nil(Seq<u8>),
    Link(u32, HeaderView, i32, i32, u32),
    Dir(HeaderView),
    Img(HeaderView),
}

/// The directory entry at `p` and the position after it. A link entry names the image entry
/// that stands at the data offset plus its link offset.
pub open spec fn spec_read_node(c: WzCrypto, d: Seq<u8>, p: int) -> Option<(NodeView, int)> {
    if !(0 <= p < d.len()) {
        None
    } else if d[p] == 1 {
        if p + 11 <= d.len() {
            Some((NodeView::Nil(d.subrange(p + 1, p + 11)), p + 11))
        } else {
            None
        }
    } else if d[p] == 2 {
        if p + 5 > d.len() {
            None
        } else {
            let lo = le_u32(d, p + 1);
            let abs = c.spec_data_offset() + lo;
            if abs >= d.len() || d[abs] != 4 {
                None
            } else {
                match spec_read_fields(c, d, abs + 1) {
                    None => None,
                    Some((target, _)) => match spec_read_wz_int(d, p + 5) {
                        None => None,
                        Some((b, p2)) => match spec_read_wz_int(d, p2) {
                            None => None,
                            Some((k, p3)) => match spec_read_offset(c, d, p3) {
                                None => None,
                                Some(o) => Some((NodeView::Link(lo, target, b, k, o), p3 + 4)),
                            },
                        },
                    },
                }
            }
        }
    } else if d[p] == 3 {
        match spec_read_fields(c, d, p + 1) {
            None => None,
            Some((h, q)) => Some((NodeView::Dir(h), q)),
        }
    } else if d[p] == 4 {
        match spec_read_fields(c, d, p + 1) {
            None => None,
            Some((h, q)) => Some((NodeView::Img(h), q)),
        }
    } else {
        None
    }
}

/// `n` directory entries in a row from `p`.
pub open spec fn spec_read_entries(c: WzCrypto, d: Seq<u8>, p: int, n: nat) -> Option<
    (Seq<NodeView>, int),
>
    decreases n,
{
    if n == 0 {
        Some((Seq::empty(), p))
    } else {
        match spec_read_entries(c, d, p, (n - 1) as nat) {
            None => None,
            Some((es, q)) => match spec_read_node(c, d, q) {
                None => None,
                Some((e, r)) => Some((es.push(e), r)),
            },
        }
    }
}

/// The directory at `p`: a compressed count, then that many entries.
pub open spec fn spec_read_dir(c: WzCrypto, d: Seq<u8>, p: int) -> Option<(Seq<NodeView>, int)> {
    match spec_read_wz_int(d, p) {
        None => None,
        Some((n, q)) => if n < 0 {
            None
        } else {
            spec_read_entries(c, d, q, n as nat)
        },
    }
}

#[derive(Debug, Clone, PartialEq, Eq)]
pub struct WzLinkData {
    pub offset: u32,
    pub link_img: WzImgHeader,
}

#[derive(Debug, Clone, PartialEq, Eq)]
pub struct WzLinkHeader {
    pub link: WzLinkData,
    pub blob_size: WzInt,
    pub checksum: WzInt,
    pub offset: WzOffset,
}

/// One entry of a directory.
#[derive(Debug, Clone, PartialEq, Eq)]
pub enum WzDirNode {
    Nil([u8; 10]),
    Link(WzLinkHeader),
    Dir(WzDirHeader),
    Img(WzImgHeader),
}

impl View for WzDirNode {
    type V = NodeView;

    open spec fn view(&self) -> NodeView {
        match self {
            WzDirNode::Nil(b) => NodeView::Nil(b@),
            WzDirNode::Link(l) => NodeView::Link(
                l.link.offset,
                l.link.link_img@,
                l.blob_size.0,
                l.checksum.0,
                l.offset.0,
            ),
            WzDirNode::Dir(h) => NodeView::Dir(h@),
            WzDirNode::Img(h) => NodeView::Img(h@),
        }
    }
}

/// The name an entry is found under: a directory's or an image's own name.
pub open spec fn spec_lookup_name(n: NodeView) -> Option<Seq<char>> {
    match n {
        NodeView::Dir(h) => Some(h.name),
        NodeView::Img(h) => Some(h.name),
        _ => None,
    }
}

impl WzDirNode {
    pub fn read(crypto: &WzCrypto, d: &[u8], pos: usize) -> (r: Result<(WzDirNode, usize), WzError>)
        requires
            crypto.wf(),
        ensures
            match r {
                Ok((n, np)) => spec_read_node(*crypto, d@, pos as int) == Some((n@, np as int)),
                Err(_) => spec_read_node(*crypto, d@, pos as int) is None,
            },
    {
        let len = d.len();
        let tag = read_u8(d, pos)?;
        if tag == 1 {
            if len - pos < 11 {
                return Err(WzError::new(WzErrorKind::IO, pos));
            }
            let b: [u8; 10] = [
                d[pos + 1],
                d[pos + 2],
                d[pos + 3],
                d[pos + 4],
                d[pos + 5],
                d[pos + 6],
                d[pos + 7],
                d[pos + 8],
                d[pos + 9],
                d[pos + 10],
            ];
            assert(b@ =~= d@.subrange(pos + 1, pos + 11));
            Ok((WzDirNode::Nil(b), pos + 11))
        } else if tag == 2 {
            let lo = read_u32(d, pos + 1)?;
            let abs = crypto.offset_link(lo);
            if abs >= len as u64 {
                return Err(WzError::new(WzErrorKind::IO, pos));
            }
            let abs = abs as usize;
            if d[abs] != 4 {
                return Err(WzError::new(WzErrorKind::BadTag, abs));
            }
            let (link_img, _) = WzImgHeader::read(crypto, d, abs + 1)?;
            let (blob_size, p2) = WzInt::read(d, pos + 5)?;
            let (checksum, p3) = WzInt::read(d, p2)?;
            let (offset, p4) = WzOffset::read(crypto, d, p3)?;
            Ok(
                (
                    WzDirNode::Link(
                        WzLinkHeader {
                            link: WzLinkData { offset: lo, link_img },
                            blob_size,
                            checksum,
                            offset,
                        },
                    ),
                    p4,
                ),
            )
        } else if tag == 3 {
            let (h, np) = WzDirHeader::read(crypto, d, pos + 1)?;
            Ok((WzDirNode::Dir(h), np))
        } else if tag == 4 {
            let (h, np) = WzImgHeader::read(crypto, d, pos + 1)?;
            Ok((WzDirNode::Img(h), np))
        } else {
            Err(WzError::new(WzErrorKind::BadTag, pos))
        }
    }

    /// The entry's name; for a link, the name of the image it points at.
    pub fn name(&self) -> (r: Option<&str>)
        ensures
            match self@ {
                NodeView::Nil(_) => r is None,
                NodeView::Link(_, t, _, _, _) => r is Some && r->0@ == t.name,
                NodeView::Dir(h) => r is Some && r->0@ == h.name,
                NodeView::Img(h) => r is Some && r->0@ == h.name,
            },
    {
        match self {
            WzDirNode::Nil(_) => None,
            WzDirNode::Link(link) => Some(link.link.link_img.name.as_str()),
            WzDirNode::Dir(dir) => Some(dir.name.as_str()),
            WzDirNode::Img(img) => Some(img.name.as_str()),
        }
    }
}

/// A directory: its entries in stored order.
#[derive(Debug, Clone)]
pub struct WzDir {
    pub entries: WzVec<WzDirNode>,
}

impl WzDir {
    pub open spec fn spec_entries(&self) -> Seq<NodeView> {
        self.entries.0@.map_values(|n: WzDirNode| n@)
    }

    pub fn read(crypto: &WzCrypto, d: &[u8], pos: usize) -> (r: Result<(WzDir, usize), WzError>)
        requires
            crypto.wf(),
        ensures
            match r {
                Ok((dir, np)) => spec_read_dir(*crypto, d@, pos as int) == Some(
                    (dir.spec_entries(), np as int),
                ),
                Err(_) => spec_read_dir(*crypto, d@, pos as int) is None,
            },
    {
        let (n, p) = WzInt::read(d, pos)?;
        if n.0 < 0 {
            return Err(WzError::new(WzErrorKind::BadTag, pos));
        }
        let count = n.0 as usize;
        let mut entries: Vec<WzDirNode> = Vec::new();
        let mut q = p;
        let mut i: usize = 0;
        while i < count
            invariant
                crypto.wf(),
                i <= count,
                count == n.0,
                spec_read_wz_int(d@, pos as int) == Some((n.0, p as int)),
                entries@.len() == i,
                spec_read_entries(*crypto, d@, p as int, i as nat) == Some(
                    (entries@.map_values(|e: WzDirNode| e@), q as int),
                ),
            decreases count - i,
        {
            let (e, nq) = match WzDirNode::read(crypto, d, q) {
                Ok(v) => v,
                Err(err) => {
                    proof {
                        lemma_entries_fail(*crypto, d@, p as int, i as nat, count as nat);
                    }
                    return Err(err);
                },
            };
            let ghost prev = entries@;
            entries.push(e);
            assert(entries@.map_values(|e: WzDirNode| e@) =~= prev.map_values(|e: WzDirNode| e@).push(e@));
            q = nq;
            i = i + 1;
        }
        Ok((WzDir { entries: WzVec(entries) }, q))
    }

    /// The first directory or image entry with the given name.
    pub fn get(&self, name: &str) -> (r: Option<&WzDirNode>)
        ensures
            match r {
                Some(n) => exists|i: int|
                    0 <= i < self.entries.0@.len() && self.entries.0@[i] == *n
                        && spec_lookup_name(n@) == Some(name@) && forall|j: int|
                        0 <= j < i ==> spec_lookup_name(#[trigger] self.entries.0@[j]@) != Some(
                            name@,
                        ),
                None => forall|j: int|
                    0 <= j < self.entries.0@.len() ==> spec_lookup_name(
                        #[trigger] self.entries.0@[j]@,
                    ) != Some(name@),
            },
    {
        let key = String::from_str(name);
        let mut i: usize = 0;
        while i < self.entries.0.len()
            invariant
                i <= self.entries.0@.len(),
                key@ == name@,
                forall|j: int|
                    0 <= j < i ==> spec_lookup_name(#[trigger] self.entries.0@[j]@) != Some(
                        name@,
                    ),
            decreases self.entries.0@.len() - i,
        {
            let e = &self.entries.0[i];
            let hit = match e {
                WzDirNode::Dir(dir) => dir.name.0 == key,
                WzDirNode::Img(img) => img.name.0 == key,
                _ => false,
            };
            if hit {
                return Some(e);
            }
            i = i + 1;
        }
        None
    }
}

proof fn lemma_entries_fail(c: WzCrypto, d: Seq<u8>, p: int, i: nat, n: nat)
    requires
        i < n,
        match spec_read_entries(c, d, p, i) {
            Some((_, q)) => spec_read_node(c, d, q) is None,
            None => false,
        },
    ensures
        spec_read_entries(c, d, p, n) is None,
    decreases n - i,
{
    if i + 1 < n {
        lemma_entries_fail(c, d, p, i, (n - 1) as nat);
        lemma_entries_none_grows(c, d, p, (i + 1) as nat, (n - 1) as nat);
    }
}

proof fn lemma_entries_none_grows(c: WzCrypto, d: Seq<u8>, p: int, i: nat, n: nat)
    requires
        i <= n,
        spec_read_entries(c, d, p, i) is None,
    ensures
        spec_read_entries(c, d, p, n) is None,
    decreases n - i,
{
    if i < n {
        lemma_entries_none_grows(c, d, p, i, (n - 1) as nat);
    }
}

} // verus!

verus! {

impl WzImgHeader {
    /// A field-by-field copy.
    pub fn duplicate(&self) -> (r: WzImgHeader)
        ensures
            r@ == self@,
    {
        WzImgHeader {
            name: WzStr(self.name.0.clone()),
            blob_size: self.blob_size,
            checksum: self.checksum,
            offset: self.offset,
        }
    }
}

impl WzDirHeader {
    /// A field-by-field copy.
    pub fn duplicate(&self) -> (r: WzDirHeader)
        ensures
            r@ == self@,
    {
        WzDirHeader {
            name: WzStr(self.name.0.clone()),
            blob_size: self.blob_size,
            checksum: self.checksum,
            offset: self.offset,
        }
    }
}

impl WzDirNode {
    /// A field-by-field copy.
    pub fn duplicate(&self) -> (r: WzDirNode)
        ensures
            r@ == self@,
    {
        match self {
            WzDirNode::Nil(b) => WzDirNode::Nil(*b),
            WzDirNode::Link(l) => WzDirNode::Link(
                WzLinkHeader {
                    link: WzLinkData { offset: l.link.offset, link_img: l.link.link_img.duplicate() },
                    blob_size: l.blob_size,
                    checksum: l.checksum,
                    offset: l.offset,
                },
            ),
            WzDirNode::Dir(h) => WzDirNode::Dir(h.duplicate()),
            WzDirNode::Img(h) => WzDirNode::Img(h.duplicate()),
        }
    }
}

} // verus!
