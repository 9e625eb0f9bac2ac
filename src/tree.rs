use vstd::prelude::*;
use std::collections::VecDeque;
use crate::error::{WzError, WzErrorKind};
use crate::file::WzReader;
use crate::crypto::WzCrypto;
use crate::l0::{spec_read_dir, NodeView, WzDir, WzDirHeader, WzDirNode, WzImgHeader};
use crate::util::spec_split;

verus! {

/// One node of a directory tree: an entry and the indices of its children.
#[derive(Debug)]
pub struct WzTreeNode {
    pub data: WzDirNode,
    pub children: Vec<usize>,
}

/// The directory tree of an archive, held in an arena; node 0 is the root.
#[derive(Debug)]
pub struct WzTree {
    nodes: Vec<WzTreeNode>,
}

/// The name a node is looked up by: its own, or for a link the name of its image.
pub open spec fn spec_node_name(n: NodeView) -> Option<Seq<char>> {
    match n {
        NodeView::Nil(_) => None,
        NodeView::Link(_, t, _, _, _) => Some(t.name),
        NodeView::Dir(h) => Some(h.name),
        NodeView::Img(h) => Some(h.name),
    }
}

/// The `k`-th child of node `i` holds the entry `e`.
pub open spec fn child_is(nodes: Seq<WzTreeNode>, i: int, k: int, e: NodeView) -> bool {
    let ch = nodes[i].children@[k] as int;
    0 <= ch < nodes.len() && nodes[ch].data@ == e
}

/// A directory node lists, in order, one child per entry of its directory; other nodes
/// have no children.
pub open spec fn dir_complete(c: WzCrypto, d: Seq<u8>, nodes: Seq<WzTreeNode>, i: int) -> bool {
    match nodes[i].data@ {
        NodeView::Dir(h) => match spec_read_dir(c, d, h.offset as int) {
            Some((es, _)) => nodes[i].children@.len() == es.len() && forall|k: int|
                0 <= k < es.len() ==> #[trigger] child_is(nodes, i, k, es[k]),
            None => false,
        },
        _ => nodes[i].children@.len() == 0,
    }
}

/// Node `i` is a directory whose listing `es` has been read and whose children are still to
/// be added.
pub open spec fn pending(c: WzCrypto, d: Seq<u8>, nodes: Seq<WzTreeNode>, i: int, es: Seq<NodeView>) -> bool {
    &&& 0 <= i < nodes.len()
    &&& nodes[i].children@.len() == 0
    &&& match nodes[i].data@ {
        NodeView::Dir(h) => match spec_read_dir(c, d, h.offset as int) {
            Some((es2, _)) => es2 == es,
            None => false,
        },
        _ => false,
    }
}

proof fn lemma_complete_kept(c: WzCrypto, d: Seq<u8>, a: Seq<WzTreeNode>, b: Seq<WzTreeNode>, i: int)
    requires
        0 <= i < a.len() <= b.len(),
        dir_complete(c, d, a, i),
        b[i] == a[i],
        forall|x: int| 0 <= x < a.len() ==> #[trigger] b[x].data == a[x].data,
    ensures
        dir_complete(c, d, b, i),
{
    match a[i].data@ {
        NodeView::Dir(h) => match spec_read_dir(c, d, h.offset as int) {
            Some((es, _)) => {
                assert forall|k: int| 0 <= k < es.len() implies #[trigger] child_is(b, i, k, es[k]) by {
                    assert(child_is(a, i, k, es[k]));
                    let ch = a[i].children@[k] as int;
                    assert(b[ch].data == a[ch].data);
                }
            },
            None => {},
        },
        _ => {},
    }
}

impl WzTree {
    /// Every child index names a node.
    pub open spec fn wf(&self) -> bool {
        &&& self.spec_nodes().len() >= 1
        &&& forall|i: int, j: int|
            0 <= i < self.spec_nodes().len() && 0 <= j < self.spec_nodes()[i].children@.len()
                ==> (#[trigger] self.spec_nodes()[i].children@[j]) < self.spec_nodes().len()
    }

    pub closed spec fn spec_nodes(&self) -> Seq<WzTreeNode> {
        self.nodes@
    }

    /// The first child of node `i` whose name is `name`.
    pub open spec fn spec_child(&self, i: int, name: Seq<char>) -> Option<int> {
        if exists|k: int|
            0 <= k < self.spec_nodes()[i].children@.len() && spec_node_name(
                self.spec_nodes()[self.spec_nodes()[i].children@[k] as int].data@,
            ) == Some(name) {
            let k = choose|k: int|
                0 <= k < self.spec_nodes()[i].children@.len() && spec_node_name(
                    self.spec_nodes()[self.spec_nodes()[i].children@[k] as int].data@,
                ) == Some(name) && forall|m: int|
                    0 <= m < k ==> spec_node_name(
                        self.spec_nodes()[self.spec_nodes()[i].children@[m] as int].data@,
                    ) != Some(name);
            Some(self.spec_nodes()[i].children@[k] as int)
        } else {
            None
        }
    }

    /// The node reached from the root by following the names in turn.
    pub open spec fn spec_path(&self, parts: Seq<Seq<char>>) -> Option<int>
        decreases parts.len(),
    {
        if parts.len() == 0 {
            Some(0)
        } else {
            match self.spec_path(parts.drop_last()) {
                Some(i) => if 0 <= i < self.spec_nodes().len() {
                    self.spec_child(i, parts.last())
                } else {
                    None
                },
                None => None,
            }
        }
    }

    #[verifier::rlimit(100)]
    /// Reads every directory of the archive into a tree under a root named `name` (or
    /// `Root`), breadth first. Every directory node lists, in order, one child per entry of
    /// the directory it stands for.
    pub fn from_reader(r: &WzReader, name: Option<&str>) -> (res: Result<WzTree, WzError>)
        requires
            r.wf(),
        ensures
            match res {
                Ok(t) => {
                    &&& t.wf()
                    &&& t.spec_nodes()[0].data@ is Dir
                    &&& match t.spec_nodes()[0].data@ {
                        NodeView::Dir(h) => h.offset == r.spec_data_offset() + 2,
                        _ => false,
                    }
                    &&& forall|i: int|
                        0 <= i < t.spec_nodes().len() ==> dir_complete(
                            r.spec_crypto(),
                            r.spec_data(),
                            t.spec_nodes(),
                            i,
                        )
                },
                Err(_) => true,
            },
    {
        let ghost c = r.spec_crypto();
        let ghost d = r.spec_data();
        let root_name = match name {
            Some(n) => n,
            None => "Root",
        };
        let mut nodes: Vec<WzTreeNode> = Vec::new();
        nodes.push(
            WzTreeNode {
                data: WzDirNode::Dir(WzDirHeader::root(root_name, 1, r.root_offset())),
                children: Vec::new(),
            },
        );
        let root = r.read_root_dir()?;
        let mut q: VecDeque<(usize, WzDir)> = VecDeque::new();
        q.push_back((0, root));
        assert(q@[0].0 == 0);
        assert forall|i: int| 0 <= i < nodes@.len() implies dir_complete(c, d, nodes@, i) || exists|x: int|
            0 <= x < q@.len() && (#[trigger] q@[x]).0 == i by {
            assert(q@[0].0 == i);
        }
        let mut budget: usize = r.data_len();
        while q.len() > 0
            invariant
                r.wf(),
                c == r.spec_crypto(),
                d == r.spec_data(),
                nodes@.len() >= 1,
                match nodes@[0].data@ {
                    NodeView::Dir(h) => h.offset == r.spec_data_offset() + 2,
                    _ => false,
                },
                forall|i: int, j: int|
                    0 <= i < nodes@.len() && 0 <= j < nodes@[i].children@.len() ==> (
                    #[trigger] nodes@[i].children@[j]) < nodes@.len(),
                forall|x: int|
                    0 <= x < q@.len() ==> pending(c, d, nodes@, (#[trigger] q@[x]).0 as int, q@[x].1.spec_entries()),
                forall|x: int, y: int| 0 <= x < y < q@.len() ==> q@[x].0 != q@[y].0,
                forall|i: int|
                    0 <= i < nodes@.len() ==> dir_complete(c, d, nodes@, i) || exists|x: int|
                        0 <= x < q@.len() && (#[trigger] q@[x]).0 == i,
            decreases budget, q@.len(),
        {
            let ghost q0 = q@;
            let ghost n0 = nodes@;
            let (parent, dir) = match q.pop_front() {
                Some(item) => item,
                None => {
                    return Err(WzError::new(WzErrorKind::IO, 0));
                },
            };
            let ghost es = dir.spec_entries();
            assert(pending(c, d, n0, parent as int, es)) by {
                assert(q0[0] == (parent, dir));
            }
            assert forall|x: int| 0 <= x < q@.len() implies #[trigger] q@[x].0 != parent by {
                assert(q@[x] == q0[x + 1]);
                assert(q0[0].0 != q0[x + 1].0);
            }
            assert forall|i: int| 0 <= i < nodes@.len() && i != parent implies dir_complete(c, d, nodes@, i) || exists|x: int|
                0 <= x < q@.len() && (#[trigger] q@[x]).0 == i by {
                if !dir_complete(c, d, nodes@, i) {
                    let x = choose|x: int| 0 <= x < q0.len() && (#[trigger] q0[x]).0 == i;
                    assert(x != 0);
                    assert(q@[x - 1] == q0[x]);
                }
            }
            let ghost b0 = budget;
            let ghost ql = q@.len();
            let n = dir.entries.0.len();
            let mut k: usize = 0;
            while k < n
                invariant
                    r.wf(),
                    c == r.spec_crypto(),
                    d == r.spec_data(),
                    k <= n,
                    n == dir.entries.0@.len(),
                    es == dir.spec_entries(),
                    parent < nodes@.len(),
                    nodes@.len() >= 1,
                    match nodes@[0].data@ {
                        NodeView::Dir(h) => h.offset == r.spec_data_offset() + 2,
                        _ => false,
                    },
                    nodes@[parent as int].data == n0[parent as int].data,
                    pending(c, d, n0, parent as int, es),
                    nodes@[parent as int].children@.len() == k,
                    forall|kk: int| 0 <= kk < k ==> #[trigger] child_is(nodes@, parent as int, kk, es[kk]),
                    forall|i: int, j: int|
                        0 <= i < nodes@.len() && 0 <= j < nodes@[i].children@.len() ==> (
                        #[trigger] nodes@[i].children@[j]) < nodes@.len(),
                    forall|x: int|
                        0 <= x < q@.len() ==> pending(c, d, nodes@, (#[trigger] q@[x]).0 as int, q@[x].1.spec_entries()),
                    forall|x: int| 0 <= x < q@.len() ==> #[trigger] q@[x].0 != parent,
                    forall|x: int, y: int| 0 <= x < y < q@.len() ==> q@[x].0 != q@[y].0,
                    forall|x: int| 0 <= x < q@.len() ==> (#[trigger] q@[x]).0 < nodes@.len(),
                    forall|i: int|
                        0 <= i < nodes@.len() && i != parent ==> dir_complete(c, d, nodes@, i) || exists|x: int|
                            0 <= x < q@.len() && (#[trigger] q@[x]).0 == i,
                    budget <= b0,
                    budget == b0 ==> q@.len() == ql,
                decreases n - k,
            {
                let e = dir.entries.0[k].duplicate();
                let sub = match &e {
                    WzDirNode::Dir(h) => {
                        if budget == 0 {
                            return Err(WzError::new(WzErrorKind::BadTag, h.offset.0 as usize));
                        }
                        budget = budget - 1;
                        Some(r.read_dir_node(h)?)
                    },
                    _ => None,
                };
                let ghost pre = nodes@;
                let id = nodes.len();
                nodes.push(WzTreeNode { data: e, children: Vec::new() });
                let ghost pushed = nodes@;
                let mut p = nodes.remove(parent);
                p.children.push(id);
                nodes.insert(parent, p);
                assert forall|x: int| 0 <= x < pre.len() implies #[trigger] nodes@[x].data == pre[x].data by {
                    if x != parent {
                        assert(nodes@[x] == pushed[x]);
                    }
                }
                assert forall|i: int, j: int|
                    0 <= i < nodes@.len() && 0 <= j < nodes@[i].children@.len() implies (
                    #[trigger] nodes@[i].children@[j]) < nodes@.len() by {
                    if i != parent {
                        assert(nodes@[i] == pushed[i]);
                    } else if j < nodes@[i].children@.len() - 1 {
                        assert(nodes@[i].children@[j] == pre[i].children@[j]);
                    }
                }
                assert forall|kk: int| 0 <= kk <= k implies #[trigger] child_is(nodes@, parent as int, kk, es[kk]) by {
                    if kk < k {
                        assert(child_is(pre, parent as int, kk, es[kk]));
                        assert(nodes@[parent as int].children@[kk] == pre[parent as int].children@[kk]);
                    } else {
                        assert(nodes@[id as int].data@ == dir.entries.0@[kk]@);
                    }
                }
                let ghost qpre = q@;
                assert forall|x: int| 0 <= x < q@.len() implies pending(c, d, nodes@, (#[trigger] q@[x]).0 as int, q@[x].1.spec_entries()) by {
                    let y = q@[x].0 as int;
                    assert(pending(c, d, pre, y, q@[x].1.spec_entries()));
                    assert(y != parent);
                    assert(nodes@[y] == pushed[y]);
                }
                assert forall|i: int| 0 <= i < pre.len() && i != parent implies dir_complete(c, d, nodes@, i) || exists|x: int|
                    0 <= x < q@.len() && (#[trigger] q@[x]).0 == i by {
                    assert(nodes@[i] == pushed[i]);
                    if dir_complete(c, d, pre, i) {
                        lemma_complete_kept(c, d, pre, nodes@, i);
                    }
                }
                match sub {
                    Some(listing) => {
                        assert(pending(c, d, nodes@, id as int, listing.spec_entries()));
                        q.push_back((id, listing));
                        assert(q@[q@.len() - 1].0 == id);
                    },
                    None => {
                        assert(dir_complete(c, d, nodes@, id as int));
                    },
                }
                assert forall|i: int| 0 <= i < nodes@.len() && i != parent implies dir_complete(c, d, nodes@, i) || exists|x: int|
                    0 <= x < q@.len() && (#[trigger] q@[x]).0 == i by {
                    if i < pre.len() {
                        if !dir_complete(c, d, nodes@, i) {
                            let x = choose|x: int| 0 <= x < qpre.len() && (#[trigger] qpre[x]).0 == i;
                            assert(q@[x] == qpre[x]);
                        }
                    } else {
                        assert(i == id);
                        if !dir_complete(c, d, nodes@, i) {
                            assert(q@[q@.len() - 1].0 == i);
                        }
                    }
                }
                k = k + 1;
            }
            assert(dir_complete(c, d, nodes@, parent as int));
            assert forall|i: int| 0 <= i < nodes@.len() implies dir_complete(c, d, nodes@, i) || exists|x: int|
                0 <= x < q@.len() && (#[trigger] q@[x]).0 == i by {
                if i != parent {
                }
            }
        }
        assert(q@.len() == 0);
        assert forall|i: int| 0 <= i < nodes@.len() implies dir_complete(c, d, nodes@, i) by {
            assert(dir_complete(c, d, nodes@, i) || exists|x: int|
                0 <= x < q@.len() && (#[trigger] q@[x]).0 == i);
        }
        Ok(WzTree { nodes })
    }

    pub fn nodes(&self) -> (r: &Vec<WzTreeNode>)
        ensures
            r@ == self.spec_nodes(),
    {
        &self.nodes
    }

    fn child_by_name(&self, i: usize, name: &str) -> (r: Option<usize>)
        requires
            self.wf(),
            i < self.spec_nodes().len(),
        ensures
            match r {
                Some(c) => self.spec_child(i as int, name@) == Some(c as int) && c < self.spec_nodes().len(),
                None => self.spec_child(i as int, name@) is None,
            },
    {
        let key = String::from_str(name);
        let node = &self.nodes[i];
        let mut k: usize = 0;
        while k < node.children.len()
            invariant
                self.wf(),
                i < self.nodes@.len(),
                *node == self.nodes@[i as int],
                key@ == name@,
                k <= node.children@.len(),
                forall|m: int|
                    0 <= m < k ==> spec_node_name(
                        self.nodes@[node.children@[m] as int].data@,
                    ) != Some(name@),
            decreases node.children@.len() - k,
        {
            let c = node.children[k];
            let hit = match self.nodes[c].data.name() {
                Some(s) => String::from_str(s) == key,
                None => false,
            };
            if hit {
                proof {
                    let kk = choose|kk: int|
                        0 <= kk < self.spec_nodes()[i as int].children@.len() && spec_node_name(
                            self.spec_nodes()[self.spec_nodes()[i as int].children@[kk] as int].data@,
                        ) == Some(name@) && forall|m: int|
                            0 <= m < kk ==> spec_node_name(
                                self.spec_nodes()[self.spec_nodes()[i as int].children@[m] as int].data@,
                            ) != Some(name@);
                    if kk < k {
                    } else if kk > k {
                        assert(spec_node_name(self.nodes@[node.children@[k as int] as int].data@) == Some(name@));
                    }
                }
                return Some(c);
            }
            k = k + 1;
        }
        None
    }

    /// The entry at a `/`-separated path of names below the root.
    pub fn get_by_path(&self, path: &str) -> (r: Option<&WzDirNode>)
        requires
            self.wf(),
        ensures
            match r {
                Some(n) => match self.spec_path(spec_split(path@)) {
                    Some(i) => 0 <= i < self.spec_nodes().len() && *n == self.spec_nodes()[i].data,
                    None => false,
                },
                None => self.spec_path(spec_split(path@)) is None,
            },
    {
        let parts = crate::util::split_path(path);
        let ghost ps = spec_split(path@);
        let mut cur: usize = 0;
        let mut i: usize = 0;
        while i < parts.len()
            invariant
                self.wf(),
                i <= parts@.len(),
                parts@.map_values(|p: String| p@) == ps,
                ps == spec_split(path@),
                cur < self.spec_nodes().len(),
                self.spec_path(ps.take(i as int)) == Some(cur as int),
            decreases parts@.len() - i,
        {
            assert(ps.take(i + 1).drop_last() == ps.take(i as int));
            assert(ps.take(i + 1).last() == parts@[i as int]@);
            match self.child_by_name(cur, parts[i].as_str()) {
                Some(c) => {
                    cur = c;
                },
                None => {
                    proof {
                        self.lemma_path_none_grows(ps, (i + 1) as nat);
                    }
                    return None;
                },
            }
            i = i + 1;
        }
        assert(ps.take(ps.len() as int) == ps);
        Some(&self.nodes[cur].data)
    }

    proof fn lemma_path_none_grows(&self, ps: Seq<Seq<char>>, k: nat)
        requires
            k <= ps.len(),
            self.spec_path(ps.take(k as int)) is None,
        ensures
            self.spec_path(ps) is None,
        decreases ps.len() - k,
    {
        if k < ps.len() {
            assert(ps.take((k + 1) as int).drop_last() == ps.take(k as int));
            self.lemma_path_none_grows(ps, k + 1);
        } else {
            assert(ps.take(k as int) == ps);
        }
    }

    /// The image entry at a path, if the path leads to one.
    pub fn get_img_by_path(&self, path: &str) -> (r: Option<&WzImgHeader>)
        requires
            self.wf(),
        ensures
            match r {
                Some(h) => match self.spec_path(spec_split(path@)) {
                    Some(i) => 0 <= i < self.spec_nodes().len() && self.spec_nodes()[i].data
                        == WzDirNode::Img(*h),
                    None => false,
                },
                None => match self.spec_path(spec_split(path@)) {
                    Some(i) => !(0 <= i < self.spec_nodes().len() && self.spec_nodes()[i].data is Img),
                    None => true,
                },
            },
    {
        match self.get_by_path(path) {
            Some(WzDirNode::Img(img)) => Some(img),
            _ => None,
        }
    }
}

} // verus!
