//! Addressable nodes: an object path owns a set of interface descriptors,
//! answers the standard property sub-protocol, renders its own introspection
//! document, and dispatches resolved method calls.

use vstd::prelude::*;
use vstd::string::{StringExecFns, StrSliceExecFns};
use std::sync::Arc;
use crate::namemap::{NameMap, spec_get, spec_insert, map_sorted, lemma_get_insert_same,
    lemma_get_insert_other};
use crate::messages::{Message, MessageType, MethodErr, ErrKind, Value, Basic, BasicV, ValueV,
    basic_view, vals_view};
use crate::leaves::{Method, MethodBody, Property, Access, Introspect, spec_introspect_map,
    introspect_map};
use crate::iface::{Interface, iface_wf, props_iface_name, introspectable_iface_name};
use crate::cache::IfaceCache;
use crate::tree::{Tree, spec_children, spec_child_ok, lemma_children_ok};
use crate::handler::Handler;

verus! {

/// An addressable object identified by an absolute slash-separated path,
/// owning name-keyed interface descriptors and opaque per-node data.
pub struct ObjectPath<D, H> {
    pub name: String,
    pub ifaces: NameMap<Arc<Interface<D, H>>>,
    pub data: D,
}

/// The node's interface map is sorted, so each interface name occurs once.
pub open spec fn objpath_wf<D, H>(o: ObjectPath<D, H>) -> bool {
    map_sorted(o.ifaces@)
}

/// A fresh object path named `n` carrying data `d`, with no interfaces.
pub fn new_objectpath<D, H>(n: String, d: D) -> (r: ObjectPath<D, H>)
    ensures
        r.name == n,
        r.ifaces@ == Seq::<(Seq<char>, Arc<Interface<D, H>>)>::empty(),
        r.data == d,
        objpath_wf(r),
{
    ObjectPath { name: n, ifaces: NameMap::new(), data: d }
}

/// The `i`-th argument of a message, when it is a plain string.
pub open spec fn spec_arg_str(args: Seq<Value>, i: int) -> Option<Seq<char>> {
    if 0 <= i < args.len() {
        match args[i] {
            Value::Basic(Basic::Str(s)) => Some(s@),
            _ => None,
        }
    } else {
        None
    }
}

/// Whether the `i`-th argument of a message is a variant value.
pub open spec fn spec_arg_variant(args: Seq<Value>, i: int) -> bool {
    0 <= i < args.len() && (args[i] matches Value::Variant(_))
}

/// What the standard property-read method returns: the value of the named
/// readable property, or the exact error kind for each failure.
pub open spec fn spec_prop_get<D, H>(
    ifaces: Seq<(Seq<char>, Arc<Interface<D, H>>)>,
    args: Seq<Value>,
) -> Result<BasicV, ErrKind> {
    match spec_arg_str(args, 0) {
        None => Err(ErrKind::InvalidArgument(0)),
        Some(iname) => match spec_get(ifaces, iname) {
            None => Err(ErrKind::NoSuchInterface),
            Some(ifc) => match spec_arg_str(args, 1) {
                None => Err(ErrKind::InvalidArgument(1)),
                Some(pname) => match spec_get((*ifc).properties@, pname) {
                    None => Err(ErrKind::NoSuchProperty),
                    Some(p) => if p.access is Read || p.access is ReadWrite {
                        Ok(basic_view(p.value))
                    } else {
                        Err(ErrKind::PropertyNotReadable)
                    },
                },
            },
        },
    }
}

/// The name/value pairs of the readable properties of a property map, in key
/// order; write-only properties are silently skipped.
pub open spec fn spec_readable_props(props: Seq<(Seq<char>, Property)>) -> Seq<(Seq<char>, BasicV)>
    decreases props.len(),
{
    if props.len() == 0 {
        Seq::<(Seq<char>, BasicV)>::empty()
    } else {
        spec_readable_props(props.take(props.len() - 1)) + (
        if props.last().1.access is Read || props.last().1.access is ReadWrite {
            seq![(props.last().0, basic_view(props.last().1.value))]
        } else {
            Seq::<(Seq<char>, BasicV)>::empty()
        })
    }
}

/// What the standard property-enumerate method returns: the dictionary of the
/// named interface's readable properties, or the exact error kind.
pub open spec fn spec_prop_get_all<D, H>(
    ifaces: Seq<(Seq<char>, Arc<Interface<D, H>>)>,
    args: Seq<Value>,
) -> Result<Seq<(Seq<char>, BasicV)>, ErrKind> {
    match spec_arg_str(args, 0) {
        None => Err(ErrKind::InvalidArgument(0)),
        Some(iname) => match spec_get(ifaces, iname) {
            None => Err(ErrKind::NoSuchInterface),
            Some(ifc) => Ok(spec_readable_props((*ifc).properties@)),
        },
    }
}

/// What the standard property-write method decides: writability is verified
/// before the value argument is consumed, and each failure has its exact kind.
pub open spec fn spec_prop_set<D, H>(
    ifaces: Seq<(Seq<char>, Arc<Interface<D, H>>)>,
    args: Seq<Value>,
) -> Result<(), ErrKind> {
    match spec_arg_str(args, 0) {
        None => Err(ErrKind::InvalidArgument(0)),
        Some(iname) => match spec_get(ifaces, iname) {
            None => Err(ErrKind::NoSuchInterface),
            Some(ifc) => match spec_arg_str(args, 1) {
                None => Err(ErrKind::InvalidArgument(1)),
                Some(pname) => match spec_get((*ifc).properties@, pname) {
                    None => Err(ErrKind::NoSuchProperty),
                    Some(p) => if !(p.access is Write || p.access is ReadWrite) {
                        Err(ErrKind::PropertyNotWritable)
                    } else if !spec_arg_variant(args, 2) {
                        Err(ErrKind::InvalidArgument(2))
                    } else {
                        Ok(())
                    },
                },
            },
        },
    }
}

/// Resolves a message's interface and member names to a method descriptor,
/// or the exact error kind of the failing lookup.
pub open spec fn spec_resolve<D, H>(
    ifaces: Seq<(Seq<char>, Arc<Interface<D, H>>)>,
    iface: Option<String>,
    member: Option<String>,
) -> Result<Method<H>, ErrKind> {
    match iface {
        None => Err(ErrKind::NoSuchInterface),
        Some(i) => match spec_get(ifaces, i@) {
            None => Err(ErrKind::NoSuchInterface),
            Some(ifc) => match member {
                None => Err(ErrKind::NoSuchMethod),
                Some(me) => match spec_get((*ifc).methods@, me@) {
                    None => Err(ErrKind::NoSuchMethod),
                    Some(mm) => Ok(mm),
                },
            },
        },
    }
}

/// The child-node lines of an introspection document: one self-closing
/// element per child, named by the path suffix beyond the parent and its
/// separator.
pub open spec fn spec_children_xml(cs: Seq<Seq<char>>, plen: int) -> Seq<char>
    decreases cs.len(),
{
    if cs.len() == 0 {
        Seq::<char>::empty()
    } else {
        spec_children_xml(cs.take(cs.len() - 1), plen) + "  <node name=\""@ + cs.last().skip(plen)
            + "\"/>\n"@
    }
}

/// The introspection document of a node within a tree: the DOCTYPE-qualified
/// root element, the node's interfaces, and one element per direct child.
pub open spec fn spec_introspect<D, H>(
    node: ObjectPath<D, H>,
    paths: Seq<(Seq<char>, ObjectPath<D, H>)>,
) -> Seq<char> {
    "<!DOCTYPE node PUBLIC \"-//freedesktop//DTD D-BUS Object Introspection 1.0//EN\" \"http://www.freedesktop.org/standards/dbus/1.0/introspect.dtd\">\n<node name=\""@
        + node.name@ + "\">\n"@ + spec_introspect_map(node.ifaces@, "  "@) + spec_children_xml(
        spec_children(paths, node.name@, true),
        node.name@.len() + 1int,
    ) + "</node>"@
}

/// What dispatching one message at one node returns, for every outcome: the
/// exact resolution errors, the exact built-in behaviors, and a pass-through
/// for user-supplied method bodies.
pub open spec fn handle_post<D, H>(
    node: ObjectPath<D, H>,
    paths: Seq<(Seq<char>, ObjectPath<D, H>)>,
    m: Message,
    r: Result<Seq<Message>, MethodErr>,
) -> bool {
    match spec_resolve(node.ifaces@, m.interface, m.member) {
        Err(k) => r matches Err(e) && e.kind == k,
        Ok(mth) => match mth.body {
            MethodBody::Introspect => r matches Ok(v) && v.len() == 1 && v[0].msg_type
                == MessageType::MethodReturn && vals_view(v[0].args@) == seq![
                ValueV::Basic(BasicV::Str(spec_introspect(node, paths))),
            ],
            MethodBody::PropGet => match r {
                Ok(v) => spec_prop_get(node.ifaces@, m.args@) matches Ok(b) && v.len() == 1
                    && v[0].msg_type == MessageType::MethodReturn && vals_view(v[0].args@) == seq![
                    ValueV::Variant(b),
                ],
                Err(e) => spec_prop_get(node.ifaces@, m.args@) == Err::<BasicV, ErrKind>(e.kind),
            },
            MethodBody::PropGetAll => match r {
                Ok(v) => spec_prop_get_all(node.ifaces@, m.args@) matches Ok(d) && v.len() == 1
                    && v[0].msg_type == MessageType::MethodReturn && vals_view(v[0].args@) == seq![
                    ValueV::Dict(d),
                ],
                Err(e) => spec_prop_get_all(node.ifaces@, m.args@) == Err::<
                    Seq<(Seq<char>, BasicV)>,
                    ErrKind,
                >(e.kind),
            },
            MethodBody::PropSet => match r {
                Ok(v) => spec_prop_set(node.ifaces@, m.args@) is Ok && v.len() == 1 && v[0].msg_type
                    == MessageType::MethodReturn && v[0].args@.len() == 0,
                Err(e) => spec_prop_set(node.ifaces@, m.args@) == Err::<(), ErrKind>(e.kind),
            },
            MethodBody::Custom(_) => true,
        },
    }
}

/// The view of a dispatch result, with reply lists as sequences.
pub open spec fn result_view(r: Result<Vec<Message>, MethodErr>) -> Result<Seq<Message>, MethodErr> {
    match r {
        Ok(v) => Ok(v@),
        Err(e) => Err(e),
    }
}

/// Reads the `i`-th argument of a message as a plain string.
fn arg_str(m: &Message, i: usize) -> (r: Option<&String>)
    ensures
        match r {
            Some(s) => spec_arg_str(m.args@, i as int) == Some(s@),
            None => spec_arg_str(m.args@, i as int) is None,
        },
{
    if i < m.args.len() {
        match &m.args[i] {
            Value::Basic(Basic::Str(s)) => Some(s),
            _ => None,
        }
    } else {
        None
    }
}

impl<D, H> ObjectPath<D, H> {
    /// The node's path.
    pub fn get_name(&self) -> (r: &String)
        ensures
            r == &self.name,
    {
        &self.name
    }

    /// The opaque per-node data.
    pub fn get_data(&self) -> (r: &D)
        ensures
            r == &self.data,
    {
        &self.data
    }
}

impl<D: Default, H> ObjectPath<D, H> {
    /// Installs the standard properties interface from the cache, unless this
    /// node already has it: a second installation is a no-op.
    fn add_property_handler(&mut self, cache: &mut IfaceCache<D, H>)
        ensures
            final(self).name == old(self).name,
            final(self).data == old(self).data,
            spec_get(old(self).ifaces@, props_iface_name()) is Some ==> final(self).ifaces@ == old(
                self,
            ).ifaces@ && final(cache)@ == old(cache)@,
            spec_get(old(self).ifaces@, props_iface_name()) is None ==> match spec_get(
                old(cache)@,
                props_iface_name(),
            ) {
                Some(i) => final(cache)@ == old(cache)@ && final(self).ifaces@ == spec_insert(
                    old(self).ifaces@,
                    props_iface_name(),
                    i,
                ),
                None => exists|z: Arc<Interface<D, H>>|
                    #[trigger] crate::iface::is_props_iface(*z) && final(cache)@ == spec_insert(
                        old(cache)@,
                        props_iface_name(),
                        z,
                    ) && final(self).ifaces@ == spec_insert(
                        old(self).ifaces@,
                        props_iface_name(),
                        z,
                    ),
            },
            spec_get(final(self).ifaces@, props_iface_name()) is Some,
            (spec_get(old(self).ifaces@, props_iface_name()) is None && spec_get(
                old(cache)@,
                props_iface_name(),
            ) is None) ==> (spec_get(final(self).ifaces@, props_iface_name()) matches Some(z)
                && crate::iface::is_props_iface(*z)),
            forall|k: Seq<char>|
                k != props_iface_name() ==> #[trigger] spec_get(final(self).ifaces@, k) == spec_get(
                    old(self).ifaces@,
                    k,
                ),
            map_sorted(old(self).ifaces@) ==> map_sorted(final(self).ifaces@),
            map_sorted(old(cache)@) ==> map_sorted(final(cache)@),
    {
        if self.ifaces.contains_key("org.freedesktop.DBus.Properties") {
            return ;
        }
        let z = cache.get("org.freedesktop.DBus.Properties", crate::iface::build_props_iface);
        let ghost gz = z;
        let ghost pre = self.ifaces@;
        self.ifaces.insert(String::from_str("org.freedesktop.DBus.Properties"), z);
        proof {
            lemma_get_insert_same(pre, props_iface_name(), gz);
            assert forall|k: Seq<char>| k != props_iface_name() implies #[trigger] spec_get(
                self.ifaces@,
                k,
            ) == spec_get(pre, k) by {
                lemma_get_insert_other(pre, props_iface_name(), gz, k);
            }
            if spec_get(old(cache)@, props_iface_name()) is None {
                assert(crate::iface::is_props_iface(*gz));
            }
        }
    }

    /// Builder: this node with one more interface under the interface's name
    /// (last write wins). An interface carrying properties first installs the
    /// standard properties interface, at most once per node.
    pub fn add(self, s: Arc<Interface<D, H>>, cache: &mut IfaceCache<D, H>) -> (r: Self)
        ensures
            r.name == self.name,
            r.data == self.data,
            spec_get(r.ifaces@, (*s).name@) == Some(s),
            forall|k: Seq<char>|
                k != (*s).name@ && k != props_iface_name() ==> #[trigger] spec_get(r.ifaces@, k)
                    == spec_get(self.ifaces@, k),
            (*s).properties@.len() > 0 ==> spec_get(r.ifaces@, props_iface_name()) is Some,
            ((*s).properties@.len() > 0 && (*s).name@ != props_iface_name() && spec_get(
                self.ifaces@,
                props_iface_name(),
            ) is None && spec_get(old(cache)@, props_iface_name()) is None) ==> (spec_get(
                r.ifaces@,
                props_iface_name(),
            ) matches Some(z) && crate::iface::is_props_iface(*z)),
            ((*s).name@ != props_iface_name() && ((*s).properties@.len() == 0 || spec_get(
                self.ifaces@,
                props_iface_name(),
            ) is Some)) ==> spec_get(r.ifaces@, props_iface_name()) == spec_get(
                self.ifaces@,
                props_iface_name(),
            ),
            ((*s).properties@.len() == 0 || spec_get(self.ifaces@, props_iface_name()) is Some)
                ==> final(cache)@ == old(cache)@,
            objpath_wf(self) ==> objpath_wf(r),
            map_sorted(old(cache)@) ==> map_sorted(final(cache)@),
    {
        let mut node = self;
        let has_props = !s.properties.is_empty();
        if has_props {
            node.add_property_handler(cache);
        }
        let k = s.name.clone();
        let ghost pre_insert = node.ifaces@;
        node.ifaces.insert(k, s);
        proof {
            lemma_get_insert_same(pre_insert, (*s).name@, s);
            assert forall|kk: Seq<char>|
                kk != (*s).name@ && kk != props_iface_name() implies #[trigger] spec_get(
                node.ifaces@,
                kk,
            ) == spec_get(self.ifaces@, kk) by {
                lemma_get_insert_other(pre_insert, (*s).name@, s, kk);
            }
            if (*s).name@ != props_iface_name() {
                lemma_get_insert_other(pre_insert, (*s).name@, s, props_iface_name());
            }
        }
        node
    }

    /// Builder: this node with the standard introspection interface installed
    /// from the cache, exposing one method that renders this node's document.
    pub fn introspectable(self, cache: &mut IfaceCache<D, H>) -> (r: Self)
        ensures
            r.name == self.name,
            r.data == self.data,
            spec_get(old(cache)@, introspectable_iface_name()) is None ==> ((exists|
                z: Arc<Interface<D, H>>,
            |
                #[trigger] crate::iface::is_introspect_iface(*z) && spec_get(
                    r.ifaces@,
                    introspectable_iface_name(),
                ) == Some(z)) && (forall|k: Seq<char>|
                k != introspectable_iface_name() && k != props_iface_name() ==> #[trigger] spec_get(
                    r.ifaces@,
                    k,
                ) == spec_get(self.ifaces@, k))),
            match spec_get(old(cache)@, introspectable_iface_name()) {
                Some(i) => spec_get(r.ifaces@, (*i).name@) == Some(i) && (forall|k: Seq<char>|
                    k != (*i).name@ && k != props_iface_name() ==> #[trigger] spec_get(r.ifaces@, k)
                        == spec_get(self.ifaces@, k)),
                None => true,
            },
            objpath_wf(self) ==> objpath_wf(r),
            map_sorted(old(cache)@) ==> map_sorted(final(cache)@),
    {
        let z = cache.get(
            "org.freedesktop.DBus.Introspectable",
            crate::iface::build_introspect_iface,
        );
        self.add(z, cache)
    }
}

impl<D, H: Handler<D>> ObjectPath<D, H> {
    /// Renders this node's introspection document within `tree`.
    pub fn introspect(&self, tree: &Tree<D, H>) -> (r: String)
        ensures
            r@ == spec_introspect(*self, tree.paths@),
    {
        let ifacestr = introspect_map(&self.ifaces, "  ");
        let children = tree.children(self, true);
        let ghost cs = spec_children(tree.paths@, self.name@, true);
        let name_len = self.name.unicode_len();
        proof {
            lemma_children_ok(tree.paths@, self.name@, true);
            assert(cs.take(0) =~= Seq::<Seq<char>>::empty());
        }
        let mut childstr = String::new();
        let mut i: usize = 0;
        let n = children.len();
        while i < n
            invariant
                i <= n,
                n == children@.len(),
                cs == spec_children(tree.paths@, self.name@, true),
                children@.map_values(|s: String| s@) == cs,
                name_len == self.name@.len(),
                forall|j: int| 0 <= j < cs.len() ==> spec_child_ok(#[trigger] cs[j], self.name@, true),
                childstr@ == spec_children_xml(cs.take(i as int), name_len + 1),
            decreases n - i,
        {
            let c = &children[i];
            let clen = c.as_str().unicode_len();
            proof {
                assert(cs[i as int] == c@);
                assert(spec_child_ok(cs[i as int], self.name@, true));
            }
            let suffix = c.as_str().substring_char(name_len + 1, clen);
            childstr.append("  <node name=\"");
            childstr.append(suffix);
            childstr.append("\"/>\n");
            proof {
                assert(suffix@ =~= c@.skip(name_len + 1));
                assert(cs.take(i + 1).take(i as int) =~= cs.take(i as int));
                assert(cs.take(i + 1).last() == cs[i as int]);
            }
            i = i + 1;
        }
        proof {
            assert(cs.take(cs.len() as int) =~= cs);
        }
        let mut out = String::new();
        out.append(
            "<!DOCTYPE node PUBLIC \"-//freedesktop//DTD D-BUS Object Introspection 1.0//EN\" \"http://www.freedesktop.org/standards/dbus/1.0/introspect.dtd\">\n<node name=\"",
        );
        out.append(self.name.as_str());
        out.append("\">\n");
        out.append(ifacestr.as_str());
        out.append(childstr.as_str());
        out.append("</node>");
        proof {
            assert(out@ =~= spec_introspect(*self, tree.paths@));
        }
        out
    }

    /// The standard property-read method: resolves the interface and property
    /// named by the first two string arguments, verifies readability, and
    /// replies with the property's value as a variant.
    pub fn prop_get(&self, m: &Message) -> (r: Result<Vec<Message>, MethodErr>)
        ensures
            match r {
                Ok(v) => spec_prop_get(self.ifaces@, m.args@) matches Ok(b) && v@.len() == 1
                    && v@[0].msg_type == MessageType::MethodReturn && vals_view(v@[0].args@)
                    == seq![ValueV::Variant(b)],
                Err(e) => spec_prop_get(self.ifaces@, m.args@) == Err::<BasicV, ErrKind>(e.kind),
            },
    {
        let iname = match arg_str(m, 0) {
            Some(s) => s,
            None => {
                return Err(MethodErr { kind: ErrKind::InvalidArgument(0), detail: String::new() });
            },
        };
        let iface = match self.ifaces.get(iname.as_str()) {
            Some(a) => a,
            None => {
                return Err(MethodErr { kind: ErrKind::NoSuchInterface, detail: iname.clone() });
            },
        };
        let pname = match arg_str(m, 1) {
            Some(s) => s,
            None => {
                return Err(MethodErr { kind: ErrKind::InvalidArgument(1), detail: String::new() });
            },
        };
        let prop = match iface.properties.get(pname.as_str()) {
            Some(p) => p,
            None => {
                return Err(MethodErr { kind: ErrKind::NoSuchProperty, detail: pname.clone() });
            },
        };
        match prop.access {
            Access::Read | Access::ReadWrite => {},
            Access::Write => {
                return Err(
                    MethodErr { kind: ErrKind::PropertyNotReadable, detail: pname.clone() },
                );
            },
        }
        let reply = m.method_return().append1(Value::Variant(prop.value.dup()));
        let mut v: Vec<Message> = Vec::new();
        v.push(reply);
        proof {
            assert(vals_view(v@[0].args@) =~= seq![
                ValueV::Variant(spec_prop_get(self.ifaces@, m.args@)->Ok_0),
            ]);
        }
        Ok(v)
    }

    /// The standard property-enumerate method: replies with a dictionary of
    /// the named interface's readable properties; write-only properties are
    /// silently skipped, not an error.
    pub fn prop_get_all(&self, m: &Message) -> (r: Result<Vec<Message>, MethodErr>)
        ensures
            match r {
                Ok(v) => spec_prop_get_all(self.ifaces@, m.args@) matches Ok(d) && v@.len() == 1
                    && v@[0].msg_type == MessageType::MethodReturn && vals_view(v@[0].args@)
                    == seq![ValueV::Dict(d)],
                Err(e) => spec_prop_get_all(self.ifaces@, m.args@) == Err::<
                    Seq<(Seq<char>, BasicV)>,
                    ErrKind,
                >(e.kind),
            },
    {
        let iname = match arg_str(m, 0) {
            Some(s) => s,
            None => {
                return Err(MethodErr { kind: ErrKind::InvalidArgument(0), detail: String::new() });
            },
        };
        let iface = match self.ifaces.get(iname.as_str()) {
            Some(a) => a,
            None => {
                return Err(MethodErr { kind: ErrKind::NoSuchInterface, detail: iname.clone() });
            },
        };
        let mut dict: Vec<(String, Basic)> = Vec::new();
        let n = iface.properties.len();
        let mut i: usize = 0;
        proof {
            assert((*iface).properties@.take(0) =~= Seq::<(Seq<char>, Property)>::empty());
        }
        while i < n
            invariant
                i <= (*iface).properties@.len(),
                n == (*iface).properties@.len(),
                dict@.map_values(|p: (String, Basic)| (p.0@, basic_view(p.1)))
                    == spec_readable_props((*iface).properties@.take(i as int)),
            decreases n - i,
        {
            let key = iface.properties.key_at(i);
            let p = iface.properties.val_at(i);
            let readable = match p.access {
                Access::Read | Access::ReadWrite => true,
                Access::Write => false,
            };
            if readable {
                dict.push((key.clone(), p.value.dup()));
            }
            proof {
                let pr = (*iface).properties@;
                assert(pr.take(i + 1).take(i as int) =~= pr.take(i as int));
                assert(pr.take(i + 1).last() == pr[i as int]);
                assert(dict@.map_values(|p: (String, Basic)| (p.0@, basic_view(p.1)))
                    =~= spec_readable_props(pr.take(i + 1)));
            }
            i = i + 1;
        }
        proof {
            assert((*iface).properties@.take((*iface).properties@.len() as int) =~= (
            *iface).properties@);
        }
        let ghost dv = dict@.map_values(|p: (String, Basic)| (p.0@, basic_view(p.1)));
        let ghost gd = dict@;
        let reply = m.method_return().append1(Value::Dict(dict));
        let mut v: Vec<Message> = Vec::new();
        v.push(reply);
        proof {
            assert(Seq::new(gd.len(), |i: int| (gd[i].0@, basic_view(gd[i].1))) =~= dv);
            assert(crate::messages::value_view(v@[0].args@[0]) == ValueV::Dict(dv));
            assert(vals_view(v@[0].args@) =~= seq![ValueV::Dict(dv)]);
        }
        Ok(v)
    }

    /// The standard property-write method: verifies writability before
    /// consuming the variant value argument, then replies with an empty
    /// success message.
    pub fn prop_set(&self, m: &Message) -> (r: Result<Vec<Message>, MethodErr>)
        ensures
            match r {
                Ok(v) => spec_prop_set(self.ifaces@, m.args@) is Ok && v@.len() == 1
                    && v@[0].msg_type == MessageType::MethodReturn && v@[0].args@.len() == 0,
                Err(e) => spec_prop_set(self.ifaces@, m.args@) == Err::<(), ErrKind>(e.kind),
            },
    {
        let iname = match arg_str(m, 0) {
            Some(s) => s,
            None => {
                return Err(MethodErr { kind: ErrKind::InvalidArgument(0), detail: String::new() });
            },
        };
        let iface = match self.ifaces.get(iname.as_str()) {
            Some(a) => a,
            None => {
                return Err(MethodErr { kind: ErrKind::NoSuchInterface, detail: iname.clone() });
            },
        };
        let pname = match arg_str(m, 1) {
            Some(s) => s,
            None => {
                return Err(MethodErr { kind: ErrKind::InvalidArgument(1), detail: String::new() });
            },
        };
        let prop = match iface.properties.get(pname.as_str()) {
            Some(p) => p,
            None => {
                return Err(MethodErr { kind: ErrKind::NoSuchProperty, detail: pname.clone() });
            },
        };
        match prop.access {
            Access::Write | Access::ReadWrite => {},
            Access::Read => {
                return Err(
                    MethodErr { kind: ErrKind::PropertyNotWritable, detail: pname.clone() },
                );
            },
        }
        let has_value = if 2 < m.args.len() {
            match &m.args[2] {
                Value::Variant(_) => true,
                _ => false,
            }
        } else {
            false
        };
        if !has_value {
            return Err(MethodErr { kind: ErrKind::InvalidArgument(2), detail: String::new() });
        }
        let mut v: Vec<Message> = Vec::new();
        v.push(m.method_return());
        Ok(v)
    }

    /// Resolves the message's interface and member to a method descriptor and
    /// invokes it; every lookup failure is a structured error, never a fault.
    pub fn handle(&self, m: &Message, t: &Tree<D, H>) -> (r: Result<Vec<Message>, MethodErr>)
        ensures
            handle_post(*self, t.paths@, *m, result_view(r)),
    {
        let ifc_name = match &m.interface {
            Some(s) => s,
            None => {
                return Err(MethodErr { kind: ErrKind::NoSuchInterface, detail: String::new() });
            },
        };
        let iface = match self.ifaces.get(ifc_name.as_str()) {
            Some(a) => a,
            None => {
                return Err(MethodErr { kind: ErrKind::NoSuchInterface, detail: ifc_name.clone() });
            },
        };
        let mem = match &m.member {
            Some(s) => s,
            None => {
                return Err(MethodErr { kind: ErrKind::NoSuchMethod, detail: String::new() });
            },
        };
        let method = match iface.methods.get(mem.as_str()) {
            Some(x) => x,
            None => {
                return Err(MethodErr { kind: ErrKind::NoSuchMethod, detail: mem.clone() });
            },
        };
        match &method.body {
            MethodBody::Introspect => {
                let xml = self.introspect(t);
                let reply = m.method_return().append1(Value::Basic(Basic::Str(xml)));
                let mut v: Vec<Message> = Vec::new();
                v.push(reply);
                proof {
                    assert(vals_view(v@[0].args@) =~= seq![
                        ValueV::Basic(BasicV::Str(spec_introspect(*self, t.paths@))),
                    ]);
                }
                Ok(v)
            },
            MethodBody::PropGet => self.prop_get(m),
            MethodBody::PropGetAll => self.prop_get_all(m),
            MethodBody::PropSet => self.prop_set(m),
            MethodBody::Custom(h) => h.call(m, self, t),
        }
    }
}

/// Law: idempotent property-interface installation. On a node without the
/// standard properties interface, adding an interface with properties
/// installs it once (this is the interface-map transition `ObjectPath::add`
/// promises: the cached descriptor `z`, then the added interface); adding a
/// second interface with properties inserts only that interface, so the
/// properties interface still occurs exactly once and is the same shared
/// descriptor.
pub proof fn lemma_props_install_idempotent<D, H>(
    ifaces: Seq<(Seq<char>, Arc<Interface<D, H>>)>,
    z: Arc<Interface<D, H>>,
    a1: Arc<Interface<D, H>>,
    a2: Arc<Interface<D, H>>,
)
    requires
        map_sorted(ifaces),
        spec_get(ifaces, props_iface_name()) is None,
        (*a1).name@ != props_iface_name(),
        (*a2).name@ != props_iface_name(),
    ensures
        ({
            let after_first = spec_insert(
                spec_insert(ifaces, props_iface_name(), z),
                (*a1).name@,
                a1,
            );
            let after_second = spec_insert(after_first, (*a2).name@, a2);
            &&& crate::namemap::spec_count(after_first, props_iface_name()) == 1
            &&& crate::namemap::spec_count(after_second, props_iface_name()) == 1
            &&& spec_get(after_second, props_iface_name()) == Some(z)
        }),
{
    let installed = spec_insert(ifaces, props_iface_name(), z);
    let after_first = spec_insert(installed, (*a1).name@, a1);
    let after_second = spec_insert(after_first, (*a2).name@, a2);
    crate::namemap::lemma_sorted_insert(ifaces, props_iface_name(), z);
    crate::namemap::lemma_sorted_insert(installed, (*a1).name@, a1);
    crate::namemap::lemma_sorted_insert(after_first, (*a2).name@, a2);
    lemma_get_insert_same(ifaces, props_iface_name(), z);
    lemma_get_insert_other(installed, (*a1).name@, a1, props_iface_name());
    lemma_get_insert_other(after_first, (*a2).name@, a2, props_iface_name());
    crate::namemap::lemma_sorted_count(after_first, props_iface_name());
    crate::namemap::lemma_sorted_count(after_second, props_iface_name());
}

} // verus!
