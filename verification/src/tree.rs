//! The path-keyed collection of nodes: parent/child relationships computed
//! from path structure, and the single dispatch entry point from raw messages
//! to handler invocation and error-reply construction.

use vstd::prelude::*;
use vstd::string::{StringExecFns, StrSliceExecFns};
use crate::namemap::{NameMap, spec_get, spec_insert, spec_remove, map_sorted};
use crate::messages::{Message, MessageType, MethodErr, BasicV, ValueV, vals_view, spec_errorname,
    spec_description};
use crate::strutil::{str_starts_with, str_contains_from};
use crate::objpath::{ObjectPath, handle_post};
use crate::handler::Handler;

verus! {

/// Whether `k` is the path of a child of the node at path `parent`: it
/// extends `parent` with a separator and a non-empty remainder, and for a
/// direct child the remainder contains no further separator.
pub open spec fn spec_child_ok(k: Seq<char>, parent: Seq<char>, direct: bool) -> bool {
    &&& k.len() > parent.len() + 1
    &&& k.subrange(0, parent.len() as int) == parent
    &&& k[parent.len() as int] == '/'
    &&& (!direct || (forall|j: int| parent.len() + 1 <= j < k.len() ==> k[j] != '/'))
}

/// The child paths of `parent` among the keys of a path map, in key order.
pub open spec fn spec_children<T>(s: Seq<(Seq<char>, T)>, parent: Seq<char>, direct: bool) -> Seq<
    Seq<char>,
>
    decreases s.len(),
{
    if s.len() == 0 {
        Seq::<Seq<char>>::empty()
    } else {
        spec_children(s.take(s.len() - 1), parent, direct) + (if spec_child_ok(
            s.last().0,
            parent,
            direct,
        ) {
            seq![s.last().0]
        } else {
            Seq::<Seq<char>>::empty()
        })
    }
}

/// Every computed child path satisfies the child condition.
pub proof fn lemma_children_ok<T>(s: Seq<(Seq<char>, T)>, parent: Seq<char>, direct: bool)
    ensures
        forall|j: int|
            0 <= j < spec_children(s, parent, direct).len() ==> spec_child_ok(
                #[trigger] spec_children(s, parent, direct)[j],
                parent,
                direct,
            ),
    decreases s.len(),
{
    if s.len() > 0 {
        lemma_children_ok(s.take(s.len() - 1), parent, direct);
        let pre = spec_children(s.take(s.len() - 1), parent, direct);
        let whole = spec_children(s, parent, direct);
        assert forall|j: int| 0 <= j < whole.len() implies spec_child_ok(
            whole[j],
            parent,
            direct,
        ) by {
            if j < pre.len() {
                assert(whole[j] == pre[j]);
            } else {
                assert(whole[j] == s.last().0);
            }
        }
    }
}

/// A collection of object paths keyed by path name.
pub struct Tree<D, H> {
    pub paths: NameMap<ObjectPath<D, H>>,
}

/// The tree's path map is sorted, so each path occurs once.
pub open spec fn tree_wf<D, H>(t: Tree<D, H>) -> bool {
    map_sorted(t.paths@)
}

/// The node a message addresses: present only for a method-call message whose
/// path names a node of the tree; everything else is "not mine", not an error.
pub open spec fn spec_target<D, H>(
    paths: Seq<(Seq<char>, ObjectPath<D, H>)>,
    m: Message,
) -> Option<ObjectPath<D, H>> {
    if m.msg_type != MessageType::MethodCall {
        None
    } else {
        match m.path {
            None => None,
            Some(p) => spec_get(paths, p@),
        }
    }
}

/// What `Tree::handle` returns when it accepts a message: either the resolved
/// node's reply list, or the one error-reply message built from the
/// structured error that resolution produced.
pub open spec fn tree_handle_post<D, H>(
    node: ObjectPath<D, H>,
    paths: Seq<(Seq<char>, ObjectPath<D, H>)>,
    m: Message,
    v: Seq<Message>,
) -> bool {
    exists|rr: Result<Seq<Message>, MethodErr>|
        #[trigger] handle_post(node, paths, m, rr) && match rr {
            Ok(msgs) => v == msgs,
            Err(e) => v.len() == 1 && v[0].msg_type == MessageType::Error && (v[0].error_name
                matches Some(n) && n@ == spec_errorname(e.kind)) && vals_view(v[0].args@) == seq![
                ValueV::Basic(BasicV::Str(spec_description(e.kind, e.detail@))),
            ],
        }
}

impl<D, H> Tree<D, H> {
    /// An empty tree.
    pub fn new() -> (r: Self)
        ensures
            r.paths@ == Seq::<(Seq<char>, ObjectPath<D, H>)>::empty(),
            tree_wf(r),
    {
        Tree { paths: NameMap::new() }
    }

    /// Builder: this tree with one more object path under its name
    /// (last write wins). Registration with a transport is separate.
    pub fn add(self, s: ObjectPath<D, H>) -> (r: Self)
        ensures
            r.paths@ == spec_insert(self.paths@, s.name@, s),
            tree_wf(self) ==> tree_wf(r),
    {
        let mut t = self;
        let k = s.name.clone();
        t.paths.insert(k, s);
        t
    }

    /// Removes and returns the object path stored under `p`, if any.
    /// Unregistration with a transport is separate.
    pub fn remove(&mut self, p: &str) -> (r: Option<ObjectPath<D, H>>)
        ensures
            final(self).paths@ == spec_remove(old(self).paths@, p@),
            match r {
                Some(n) => spec_get(old(self).paths@, p@) == Some(n),
                None => spec_get(old(self).paths@, p@) is None,
            },
    {
        self.paths.remove(p)
    }

    /// The paths of the children of `o` in this tree, in key order; with
    /// `direct_only` the grandchildren and deeper are left out.
    pub fn children(&self, o: &ObjectPath<D, H>, direct_only: bool) -> (r: Vec<String>)
        ensures
            r@.map_values(|s: String| s@) == spec_children(self.paths@, o.name@, direct_only),
    {
        let parent_len = o.name.as_str().unicode_len();
        let n = self.paths.len();
        let mut out: Vec<String> = Vec::new();
        let mut i: usize = 0;
        proof {
            assert(self.paths@.take(0) =~= Seq::<(Seq<char>, ObjectPath<D, H>)>::empty());
            assert(out@.map_values(|s: String| s@) =~= Seq::<Seq<char>>::empty());
        }
        loop
            invariant
                i <= n,
                n == self.paths@.len(),
                parent_len == o.name@.len(),
                out@.map_values(|s: String| s@) == spec_children(
                    self.paths@.take(i as int),
                    o.name@,
                    direct_only,
                ),
            decreases n - i,
        {
            if i >= n {
                proof {
                    assert(self.paths@.take(n as int) =~= self.paths@);
                }
                return out;
            }
            let k = self.paths.key_at(i);
            let klen = k.as_str().unicode_len();
            let mut keep = false;
            if klen > parent_len {
                let plen = parent_len + 1;
                if klen > plen && str_starts_with(k.as_str(), o.name.as_str()) && k.as_str()
                    .get_char(parent_len) == '/' {
                    if direct_only {
                        keep = !str_contains_from(k.as_str(), plen, '/');
                    } else {
                        keep = true;
                    }
                }
            }
            proof {
                assert(keep == spec_child_ok(self.paths@[i as int].0, o.name@, direct_only));
            }
            if keep {
                out.push(k.clone());
            }
            proof {
                let pr = self.paths@;
                assert(pr.take(i + 1).take(i as int) =~= pr.take(i as int));
                assert(pr.take(i + 1).last() == pr[i as int]);
                assert(out@.map_values(|s: String| s@) =~= spec_children(
                    pr.take(i + 1),
                    o.name@,
                    direct_only,
                ));
            }
            i = i + 1;
        }
    }
}

impl<D, H: Handler<D>> Tree<D, H> {
    /// Handles a message: `None` when the message is not a method call or its
    /// path names no node here — "not mine", not an error; otherwise the
    /// resolved node's replies, with any structured error converted into one
    /// protocol error-reply message.
    pub fn handle(&self, m: &Message) -> (r: Option<Vec<Message>>)
        ensures
            r is None ==> spec_target(self.paths@, *m) is None,
            r matches Some(v) ==> (spec_target(self.paths@, *m) matches Some(node)
                && tree_handle_post(node, self.paths@, *m, v@)),
    {
        match m.msg_type {
            MessageType::MethodCall => {},
            _ => {
                return None;
            },
        }
        let p = match &m.path {
            Some(p) => p,
            None => {
                return None;
            },
        };
        let node = match self.paths.get(p.as_str()) {
            Some(n) => n,
            None => {
                return None;
            },
        };
        proof {
            assert(spec_target(self.paths@, *m) == Some(*node));
        }
        match node.handle(m, self) {
            Ok(v) => {
                proof {
                    let rr = Result::<Seq<Message>, MethodErr>::Ok(v@);
                    assert(handle_post(*node, self.paths@, *m, rr));
                    assert(tree_handle_post(*node, self.paths@, *m, v@));
                }
                Some(v)
            },
            Err(e) => {
                let ghost ee = e;
                let name = e.errorname();
                let desc = e.description();
                let reply = m.error(name, desc);
                let mut v: Vec<Message> = Vec::new();
                v.push(reply);
                proof {
                    let rr = Result::<Seq<Message>, MethodErr>::Err(ee);
                    assert(handle_post(*node, self.paths@, *m, rr));
                    assert(vals_view(v@[0].args@) =~= seq![
                        ValueV::Basic(BasicV::Str(spec_description(ee.kind, ee.detail@))),
                    ]);
                    assert(tree_handle_post(*node, self.paths@, *m, v@));
                }
                Some(v)
            },
        }
    }
}

} // verus!
