use vstd::prelude::*;
use crate::l0::WzImgHeader;
use crate::val::{ObjectVal, WzValue};

verus! {

/// The entries a value opens onto: an object's own, or those of the object a canvas carries.
pub open spec fn spec_entries_of(v: WzValue) -> Option<Seq<(String, WzValue)>> {
    match v {
        WzValue::Object(o) => Some(o.0@),
        WzValue::Canvas(c) => match c.sub {
            Some(b) => match *b {
                WzValue::Object(o) => Some(o.0@),
                _ => None,
            },
            None => None,
        },
        _ => None,
    }
}

/// The value reached by taking the entries at the given indices in turn.
pub open spec fn spec_follow(v: WzValue, steps: Seq<usize>) -> Option<WzValue>
    decreases steps.len(),
{
    if steps.len() == 0 {
        Some(v)
    } else {
        match spec_follow(v, steps.drop_last()) {
            Some(c) => match spec_entries_of(c) {
                Some(es) => if steps.last() < es.len() {
                    Some(es[steps.last() as int].1)
                } else {
                    None
                },
                None => None,
            },
            None => None,
        }
    }
}

/// One node: the key it stands under, the entry indices that lead to it from the root, and
/// its children.
#[derive(Debug)]
pub struct WzValueNode {
    pub name: String,
    pub steps: Vec<usize>,
    pub children: Vec<usize>,
}

/// The tree of named values of one image, held in an arena next to the value tree it
/// indexes; node 0 is the root.
#[derive(Debug)]
pub struct WzValueTree {
    pub img_hdr: WzImgHeader,
    root: WzValue,
    nodes: Vec<WzValueNode>,
}

fn entries_of(v: &WzValue) -> (r: Option<&ObjectVal>)
    ensures
        match r {
            Some(o) => spec_entries_of(*v) == Some(o.0@),
            None => spec_entries_of(*v) is None,
        },
{
    match v {
        WzValue::Object(o) => Some(o),
        WzValue::Canvas(c) => match &c.sub {
            Some(b) => match &**b {
                WzValue::Object(o) => Some(o),
                _ => None,
            },
            None => None,
        },
        _ => None,
    }
}

/// Follows entry indices down from `v`.
fn follow<'a>(v: &'a WzValue, steps: &Vec<usize>) -> (r: Option<&'a WzValue>)
    ensures
        match r {
            Some(x) => spec_follow(*v, steps@) == Some(*x),
            None => spec_follow(*v, steps@) is None,
        },
{
    let mut cur = v;
    let mut i: usize = 0;
    while i < steps.len()
        invariant
            i <= steps@.len(),
            spec_follow(*v, steps@.take(i as int)) == Some(*cur),
        decreases steps@.len() - i,
    {
        assert(steps@.take(i + 1).drop_last() == steps@.take(i as int));
        assert(steps@.take(i + 1).last() == steps@[i as int]);
        match entries_of(cur) {
            Some(o) => {
                if steps[i] < o.0.len() {
                    cur = &o.0[steps[i]].1;
                } else {
                    proof {
                        lemma_follow_none_grows(*v, steps@, (i + 1) as nat);
                    }
                    return None;
                }
            },
            None => {
                proof {
                    lemma_follow_none_grows(*v, steps@, (i + 1) as nat);
                }
                return None;
            },
        }
        i = i + 1;
    }
    assert(steps@.take(steps@.len() as int) == steps@);
    Some(cur)
}

proof fn lemma_follow_none_grows(v: WzValue, s: Seq<usize>, k: nat)
    requires
        k <= s.len(),
        spec_follow(v, s.take(k as int)) is None,
    ensures
        spec_follow(v, s) is None,
    decreases s.len() - k,
{
    if k < s.len() {
        assert(s.take((k + 1) as int).drop_last() == s.take(k as int));
        lemma_follow_none_grows(v, s, k + 1);
    } else {
        assert(s.take(k as int) == s);
    }
}

/// Node `i` stands for a value and lists, in order, one child per entry of that value, each
/// under the entry's key and one step further.
pub open spec fn node_complete(nodes: Seq<WzValueNode>, root: WzValue, i: int) -> bool {
    match spec_follow(root, nodes[i].steps@) {
        Some(v) => match spec_entries_of(v) {
            Some(es) => {
                &&& nodes[i].children@.len() == es.len()
                &&& forall|k: int| 0 <= k < es.len() ==> child_at(nodes, i, k, es[k].0@)
            },
            None => nodes[i].children@.len() == 0,
        },
        None => false,
    }
}

/// The `k`-th child of node `i` is a node one step further, under `key`.
pub open spec fn child_at(nodes: Seq<WzValueNode>, i: int, k: int, key: Seq<char>) -> bool {
    let c = nodes[i].children@[k] as int;
    &&& 0 <= c < nodes.len()
    &&& nodes[c].steps@ == nodes[i].steps@.push(k as usize)
    &&& nodes[c].name@ == key
}

pub open spec fn nodes_wf(nodes: Seq<WzValueNode>, root: WzValue) -> bool {
    forall|i: int| 0 <= i < nodes.len() ==> node_complete(nodes, root, i)
}

proof fn lemma_complete_kept(a: Seq<WzValueNode>, b: Seq<WzValueNode>, root: WzValue, i: int)
    requires
        0 <= i < a.len() <= b.len(),
        node_complete(a, root, i),
        b[i] == a[i],
        forall|c: int| 0 <= c < a.len() ==> #[trigger] b[c].steps@ == a[c].steps@ && b[c].name@ == a[c].name@,
    ensures
        node_complete(b, root, i),
{
    match spec_follow(root, a[i].steps@) {
        Some(vv) => match spec_entries_of(vv) {
            Some(es) => {
                assert forall|kk: int| 0 <= kk < es.len() implies child_at(b, i, kk, es[kk].0@) by {
                    assert(child_at(a, i, kk, es[kk].0@));
                    let c = a[i].children@[kk] as int;
                    assert(b[c].steps@ == a[c].steps@);
                }
            },
            None => {},
        },
        None => {},
    }
}

/// Adds a node for each entry of `v`, the value node `parent` stands for, and below them,
/// depth first.
fn add_children(nodes: &mut Vec<WzValueNode>, parent: usize, v: &WzValue, Ghost(root): Ghost<WzValue>)
    requires
        parent < old(nodes)@.len(),
        old(nodes)@[parent as int].children@.len() == 0,
        spec_follow(root, old(nodes)@[parent as int].steps@) == Some(*v),
    ensures
        old(nodes)@.len() <= final(nodes)@.len(),
        forall|i: int|
            0 <= i < old(nodes)@.len() && i != parent ==> final(nodes)@[i] == old(nodes)@[i],
        final(nodes)@[parent as int].steps@ == old(nodes)@[parent as int].steps@,
        final(nodes)@[parent as int].name@ == old(nodes)@[parent as int].name@,
        node_complete(final(nodes)@, root, parent as int),
        forall|i: int|
            old(nodes)@.len() <= i < final(nodes)@.len() ==> node_complete(final(nodes)@, root, i),
    decreases v,
{
    let ghost old_len = nodes@.len();
    let ghost psteps = nodes@[parent as int].steps@;
    let ghost pname = nodes@[parent as int].name@;
    let obj = match entries_of(v) {
        Some(o) => o,
        None => {
            return;
        },
    };
    let mut k: usize = 0;
    while k < obj.0.len()
        invariant
            parent < old_len <= nodes@.len(),
            old_len == old(nodes)@.len(),
            psteps == old(nodes)@[parent as int].steps@,
            pname == old(nodes)@[parent as int].name@,
            nodes@[parent as int].steps@ == psteps,
            nodes@[parent as int].name@ == pname,
            spec_follow(root, psteps) == Some(*v),
            spec_entries_of(*v) == Some(obj.0@),
            k <= obj.0@.len(),
            nodes@[parent as int].children@.len() == k,
            forall|j: int| 0 <= j < k ==> child_at(nodes@, parent as int, j, obj.0@[j].0@),
            forall|i: int| 0 <= i < old_len && i != parent ==> nodes@[i] == old(nodes)@[i],
            forall|i: int| old_len <= i < nodes@.len() ==> node_complete(nodes@, root, i),
        decreases obj.0@.len() - k,
    {
        let ghost head = nodes@;
        let mut child_steps = nodes[parent].steps.clone();
        child_steps.push(k);
        let id = nodes.len();
        nodes.push(WzValueNode { name: obj.0[k].0.clone(), steps: child_steps, children: Vec::new() });
        let ghost pushed = nodes@;
        let mut p = nodes.remove(parent);
        p.children.push(id);
        nodes.insert(parent, p);
        let ghost pre = nodes@;
        assert forall|i: int| 0 <= i < pre.len() && i != parent implies pre[i] == pushed[i] by {}
        assert(spec_follow(root, pre[id as int].steps@) == Some(obj.0@[k as int].1)) by {
            assert(pre[id as int].steps@.drop_last() == psteps);
        }
        proof {
            vstd::std_specs::vec::axiom_vec_index_decreases(obj.0, k as int);
        }
        add_children(nodes, id, &obj.0[k].1, Ghost(root));
        assert forall|j: int| 0 <= j <= k implies child_at(nodes@, parent as int, j, obj.0@[j].0@) by {
            let c = nodes@[parent as int].children@[j] as int;
            assert(child_at(pre, parent as int, j, obj.0@[j].0@));
            if c != id {
                assert(nodes@[c] == pre[c]);
            }
        }
        assert forall|i: int| old_len <= i < nodes@.len() implies node_complete(nodes@, root, i) by {
            if i < id {
                lemma_complete_kept(head, pre, root, i);
                assert forall|c: int| 0 <= c < pre.len() implies #[trigger] nodes@[c].steps@
                    == pre[c].steps@ && nodes@[c].name@ == pre[c].name@ by {
                    if c != id {
                        assert(nodes@[c] == pre[c]);
                    }
                }
                lemma_complete_kept(pre, nodes@, root, i);
            }
        }
        k = k + 1;
    }
}

impl WzValueTree {
    pub closed spec fn spec_root(&self) -> WzValue {
        self.root
    }

    pub closed spec fn spec_nodes(&self) -> Seq<WzValueNode> {
        self.nodes@
    }

    /// Node 0 is the root, named `root`; every node lists exactly its entries as children.
    pub open spec fn wf(&self) -> bool {
        &&& self.spec_nodes().len() >= 1
        &&& self.spec_nodes()[0].steps@.len() == 0
        &&& self.spec_nodes()[0].name@ == seq!['r', 'o', 'o', 't']
        &&& nodes_wf(self.spec_nodes(), self.spec_root())
    }

    /// Indexes every entry of the value tree of an image, under a root node named `root`.
    pub fn build_from_img(img_hdr: WzImgHeader, root: WzValue) -> (r: WzValueTree)
        ensures
            r.wf(),
            r.spec_root() == root,
    {
        let mut nodes: Vec<WzValueNode> = Vec::new();
        let name = String::from_str("root");
        proof {
            reveal_strlit("root");
        }
        nodes.push(WzValueNode { name, steps: Vec::new(), children: Vec::new() });
        assert(spec_follow(root, nodes@[0].steps@) == Some(root));
        add_children(&mut nodes, 0, &root, Ghost(root));
        let r = WzValueTree { img_hdr, root, nodes };
        assert(r.spec_nodes()[0].name@ =~= seq!['r', 'o', 'o', 't']);
        r
    }

    pub fn root(&self) -> (r: &WzValue)
        ensures
            *r == self.spec_root(),
    {
        &self.root
    }

    pub fn nodes(&self) -> (r: &Vec<WzValueNode>)
        ensures
            r@ == self.spec_nodes(),
    {
        &self.nodes
    }

    /// The value node `id` stands for.
    pub fn value(&self, id: usize) -> (r: Option<&WzValue>)
        requires
            self.wf(),
        ensures
            match r {
                Some(v) => id < self.spec_nodes().len() && spec_follow(
                    self.spec_root(),
                    self.spec_nodes()[id as int].steps@,
                ) == Some(*v),
                None => id >= self.spec_nodes().len(),
            },
    {
        if id >= self.nodes.len() {
            return None;
        }
        assert(node_complete(self.spec_nodes(), self.spec_root(), id as int));
        follow(&self.root, &self.nodes[id].steps)
    }
}

} // verus!
