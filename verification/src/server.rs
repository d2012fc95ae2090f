//! The dispatch stream adapter: a pull-based wrapper over a sequence of
//! transport events that consumes method calls the tree handles, collects
//! their replies for sending, and passes every other event through unchanged.

use vstd::prelude::*;
use crate::messages::{Message, ConnectionItem};
use crate::objpath::ObjectPath;
use crate::tree::{Tree, spec_target, tree_handle_post};
use crate::handler::Handler;

verus! {

/// Whether the tree consumes this event: a method-call message addressed to
/// one of its paths.
pub open spec fn spec_handled<D, H>(
    paths: Seq<(Seq<char>, ObjectPath<D, H>)>,
    it: ConnectionItem,
) -> bool {
    it matches ConnectionItem::MethodCall(m) && spec_target(paths, m) is Some
}

/// The replies a consumed event produced, as the tree's dispatch promises.
pub open spec fn spec_replies_ok<D, H>(
    paths: Seq<(Seq<char>, ObjectPath<D, H>)>,
    it: ConnectionItem,
    v: Seq<Message>,
) -> bool {
    it matches ConnectionItem::MethodCall(m) && (spec_target(paths, m) matches Some(node)
        && tree_handle_post(node, paths, m, v))
}

/// The concatenation of a sequence of reply lists, in order.
pub open spec fn spec_flat(rs: Seq<Seq<Message>>) -> Seq<Message>
    decreases rs.len(),
{
    if rs.len() == 0 {
        Seq::<Message>::empty()
    } else {
        spec_flat(rs.take(rs.len() - 1)) + rs.last()
    }
}

/// An adapter over a queue of inbound transport events. Each `next` call
/// handles and consumes matching method calls and yields the first other
/// event, with the replies to send.
pub struct TreeServer {
    pub items: Vec<ConnectionItem>,
}

impl<D, H> Tree<D, H> {
    /// Wraps a sequence of inbound events for serving against this tree.
    pub fn run(&self, items: Vec<ConnectionItem>) -> (r: TreeServer)
        ensures
            r.items == items,
    {
        TreeServer { items }
    }
}

impl TreeServer {
    /// Pulls events until one is not a method call the tree handles; consumed
    /// events' replies are returned for the embedder to send (send failures
    /// are the embedder's to ignore: the peer may already be gone), and the
    /// first unconsumed event is yielded unchanged, or nothing at the end.
    pub fn next<D, H: Handler<D>>(&mut self, tree: &Tree<D, H>) -> (r: (
        Option<ConnectionItem>,
        Vec<Message>,
    ))
        ensures
            match r.0 {
                None => final(self).items@.len() == 0 && (forall|i: int|
                    0 <= i < old(self).items@.len() ==> spec_handled(
                        tree.paths@,
                        #[trigger] old(self).items@[i],
                    )) && (exists|rs: Seq<Seq<Message>>|
                    rs.len() == old(self).items@.len() && (forall|i: int|
                        0 <= i < rs.len() ==> spec_replies_ok(
                            tree.paths@,
                            old(self).items@[i],
                            #[trigger] rs[i],
                        )) && r.1@ == spec_flat(rs)),
                Some(it) => exists|j: int|
                    0 <= j < old(self).items@.len() && it == old(self).items@[j] && !spec_handled(
                        tree.paths@,
                        old(self).items@[j],
                    ) && final(self).items@ == old(self).items@.skip(j + 1) && (forall|i: int|
                        0 <= i < j ==> spec_handled(tree.paths@, #[trigger] old(self).items@[i]))
                        && (exists|rs: Seq<Seq<Message>>|
                        rs.len() == j && (forall|i: int|
                            0 <= i < rs.len() ==> spec_replies_ok(
                                tree.paths@,
                                old(self).items@[i],
                                #[trigger] rs[i],
                            )) && r.1@ == spec_flat(rs)),
            },
    {
        let mut outbox: Vec<Message> = Vec::new();
        let n0 = self.items.len();
        let ghost orig = self.items@;
        let ghost mut rs: Seq<Seq<Message>> = Seq::<Seq<Message>>::empty();
        let mut consumed: usize = 0;
        proof {
            assert(orig.skip(0) =~= orig);
            assert(rs.take(0) =~= rs);
        }
        loop
            invariant
                consumed <= n0,
                n0 == orig.len(),
                orig == old(self).items@,
                self.items@ == orig.skip(consumed as int),
                rs.len() == consumed,
                forall|i: int|
                    0 <= i < consumed ==> spec_handled(tree.paths@, #[trigger] orig[i])
                        && spec_replies_ok(tree.paths@, orig[i], rs[i]),
                outbox@ == spec_flat(rs),
            decreases orig.len() - consumed,
        {
            if self.items.len() == 0 {
                return (None, outbox);
            }
            proof {
                assert(consumed < orig.len());
            }
            let it = self.items.remove(0);
            proof {
                assert(orig.skip(consumed as int)[0] == orig[consumed as int]);
                assert(orig.skip(consumed as int).skip(1) =~= orig.skip(consumed + 1));
            }
            match &it {
                ConnectionItem::MethodCall(msg) => {
                    match tree.handle(msg) {
                        Some(mut v) => {
                            let ghost gv = v@;
                            outbox.append(&mut v);
                            proof {
                                let rs0 = rs;
                                rs = rs.push(gv);
                                assert(rs.take(rs.len() - 1) =~= rs0);
                                assert(rs.last() == gv);
                                assert(outbox@ =~= spec_flat(rs));
                            }
                            consumed = consumed + 1;
                        },
                        None => {
                            return (Some(it), outbox);
                        },
                    }
                },
                _ => {
                    return (Some(it), outbox);
                },
            }
        }
    }
}

} // verus!
