//! Interface descriptors: an immutable, shareable bundle of method, property
//! and signal descriptors under one interface name, built in builder style.

use vstd::prelude::*;
use vstd::string::StringExecFns;
use std::sync::Arc;
use crate::namemap::{NameMap, spec_get, spec_insert, map_sorted, lemma_get_insert_same,
    lemma_get_insert_other};
use crate::leaves::{Method, MethodBody, Signal, Property, Argument, Introspect, anns_view,
    lemma_anns_view_insert, spec_introspect_map, spec_anns_xml, introspect_map, anns_xml};

verus! {

/// The fixed name of the standard properties interface.
pub open spec fn props_iface_name() -> Seq<char> {
    "org.freedesktop.DBus.Properties"@
}

/// The fixed name of the standard introspection interface.
pub open spec fn introspectable_iface_name() -> Seq<char> {
    "org.freedesktop.DBus.Introspectable"@
}

/// A named, typed group of methods, properties and signals a node exposes,
/// with annotations and opaque per-interface data.
pub struct Interface<D, H> {
    pub name: String,
    pub methods: NameMap<Method<H>>,
    pub signals: NameMap<Signal>,
    pub properties: NameMap<Property>,
    pub anns: NameMap<String>,
    pub data: D,
}

/// All of an interface's member maps are sorted.
pub open spec fn iface_wf<D, H>(i: Interface<D, H>) -> bool {
    map_sorted(i.methods@) && map_sorted(i.signals@) && map_sorted(i.properties@) && map_sorted(
        i.anns@,
    )
}

/// A fresh interface descriptor named `t` carrying data `d`, with no members.
pub fn new_interface<D, H>(t: String, d: D) -> (r: Interface<D, H>)
    ensures
        r.name == t,
        r.methods@ == Seq::<(Seq<char>, Method<H>)>::empty(),
        r.signals@ == Seq::<(Seq<char>, Signal)>::empty(),
        r.properties@ == Seq::<(Seq<char>, Property)>::empty(),
        r.anns@ == Seq::<(Seq<char>, String)>::empty(),
        r.data == d,
        iface_wf(r),
{
    Interface {
        name: t,
        methods: NameMap::new(),
        signals: NameMap::new(),
        properties: NameMap::new(),
        anns: NameMap::new(),
        data: d,
    }
}

impl<D, H> Interface<D, H> {
    /// Builder: this interface with one more method; an equally named prior
    /// method is silently overwritten (last write wins).
    pub fn add_m(self, m: Method<H>) -> (r: Self)
        ensures
            r.name == self.name,
            r.methods@ == spec_insert(self.methods@, m.name@, m),
            r.signals == self.signals,
            r.properties == self.properties,
            r.anns == self.anns,
            r.data == self.data,
            iface_wf(self) ==> iface_wf(r),
    {
        let mut s = self;
        let k = m.name.clone();
        s.methods.insert(k, m);
        s
    }

    /// Builder: this interface with one more signal (last write wins).
    pub fn add_s(self, m: Signal) -> (r: Self)
        ensures
            r.name == self.name,
            r.methods == self.methods,
            r.signals@ == spec_insert(self.signals@, m.name@, m),
            r.properties == self.properties,
            r.anns == self.anns,
            r.data == self.data,
            iface_wf(self) ==> iface_wf(r),
    {
        let mut s = self;
        let k = m.name.clone();
        s.signals.insert(k, m);
        s
    }

    /// Builder: this interface with one more property (last write wins).
    pub fn add_p(self, m: Property) -> (r: Self)
        ensures
            r.name == self.name,
            r.methods == self.methods,
            r.signals == self.signals,
            r.properties@ == spec_insert(self.properties@, m.name@, m),
            r.anns == self.anns,
            r.data == self.data,
            iface_wf(self) ==> iface_wf(r),
    {
        let mut s = self;
        let k = m.name.clone();
        s.properties.insert(k, m);
        s
    }

    /// Builder: this interface with one more annotation.
    pub fn annotate(self, name: &str, value: &str) -> (r: Self)
        ensures
            r.name == self.name,
            r.methods == self.methods,
            r.signals == self.signals,
            r.properties == self.properties,
            anns_view(r.anns@) == spec_insert(anns_view(self.anns@), name@, value@),
            r.data == self.data,
            iface_wf(self) ==> iface_wf(r),
    {
        let mut s = self;
        let v = value.to_owned();
        proof {
            lemma_anns_view_insert(s.anns@, name@, v);
        }
        s.anns.insert(name.to_owned(), v);
        s
    }

    /// Builder: this interface annotated as deprecated.
    pub fn deprecated(self) -> (r: Self)
        ensures
            r.name == self.name,
            r.methods == self.methods,
            r.signals == self.signals,
            r.properties == self.properties,
            anns_view(r.anns@) == spec_insert(
                anns_view(self.anns@),
                "org.freedesktop.DBus.Deprecated"@,
                "true"@,
            ),
            r.data == self.data,
            iface_wf(self) ==> iface_wf(r),
    {
        self.annotate("org.freedesktop.DBus.Deprecated", "true")
    }

    /// The interface name.
    pub fn get_name(&self) -> (r: &String)
        ensures
            r == &self.name,
    {
        &self.name
    }

    /// The opaque per-interface data.
    pub fn get_data(&self) -> (r: &D)
        ensures
            r == &self.data,
    {
        &self.data
    }
}

impl<D, H> Introspect for Interface<D, H> {
    open spec fn spec_xml_name(&self) -> Seq<char> {
        "interface"@
    }

    open spec fn spec_xml_params(&self) -> Seq<char> {
        Seq::<char>::empty()
    }

    open spec fn spec_xml_contents(&self) -> Seq<char> {
        spec_introspect_map(self.methods@, "    "@) + spec_introspect_map(
            self.properties@,
            "    "@,
        ) + spec_introspect_map(self.signals@, "    "@) + spec_anns_xml(
            anns_view(self.anns@),
            "    "@,
        )
    }

    fn xml_name(&self) -> (r: &'static str) {
        "interface"
    }

    fn xml_params(&self) -> (r: String) {
        String::new()
    }

    fn xml_contents(&self) -> (r: String) {
        let mut out = introspect_map(&self.methods, "    ");
        let p = introspect_map(&self.properties, "    ");
        let s = introspect_map(&self.signals, "    ");
        let a = anns_xml(&self.anns, "    ");
        out.append(p.as_str());
        out.append(s.as_str());
        out.append(a.as_str());
        out
    }
}

/// The standard property-read method descriptor.
pub open spec fn is_prop_get_method<H>(m: Method<H>) -> bool {
    &&& m.name@ == "Get"@
    &&& m.body is PropGet
    &&& m.in_args@.map_values(|a: Argument| a@) == seq![
        ("interface_name"@, "s"@),
        ("property_name"@, "s"@),
    ]
    &&& m.out_args@.map_values(|a: Argument| a@) == seq![("value"@, "v"@)]
    &&& m.anns@.len() == 0
}

/// The standard property-enumerate method descriptor.
pub open spec fn is_prop_get_all_method<H>(m: Method<H>) -> bool {
    &&& m.name@ == "GetAll"@
    &&& m.body is PropGetAll
    &&& m.in_args@.map_values(|a: Argument| a@) == seq![("interface_name"@, "s"@)]
    &&& m.out_args@.map_values(|a: Argument| a@) == seq![("props"@, "a{sv}"@)]
    &&& m.anns@.len() == 0
}

/// The standard property-write method descriptor.
pub open spec fn is_prop_set_method<H>(m: Method<H>) -> bool {
    &&& m.name@ == "Set"@
    &&& m.body is PropSet
    &&& m.in_args@.map_values(|a: Argument| a@) == seq![
        ("interface_name"@, "s"@),
        ("property_name"@, "s"@),
        ("value"@, "v"@),
    ]
    &&& m.out_args@.map_values(|a: Argument| a@).len() == 0
    &&& m.anns@.len() == 0
}

/// The standard properties interface: the fixed name and the three fixed
/// method descriptors of the property sub-protocol, nothing else.
pub open spec fn is_props_iface<D, H>(i: Interface<D, H>) -> bool {
    &&& i.name@ == props_iface_name()
    &&& spec_get(i.methods@, "Get"@) matches Some(m) && is_prop_get_method(m)
    &&& spec_get(i.methods@, "GetAll"@) matches Some(m) && is_prop_get_all_method(m)
    &&& spec_get(i.methods@, "Set"@) matches Some(m) && is_prop_set_method(m)
    &&& i.properties@.len() == 0
    &&& i.signals@.len() == 0
    &&& i.anns@.len() == 0
    &&& iface_wf(i)
}

/// The standard introspection method descriptor: no input, one string out.
pub open spec fn is_introspect_method<H>(m: Method<H>) -> bool {
    &&& m.name@ == "Introspect"@
    &&& m.body is Introspect
    &&& m.in_args@.len() == 0
    &&& m.out_args@.map_values(|a: Argument| a@) == seq![("xml_data"@, "s"@)]
    &&& m.anns@.len() == 0
}

/// The standard introspection interface: the fixed name and the one fixed
/// introspection method, nothing else.
pub open spec fn is_introspect_iface<D, H>(i: Interface<D, H>) -> bool {
    &&& i.name@ == introspectable_iface_name()
    &&& spec_get(i.methods@, "Introspect"@) matches Some(m) && is_introspect_method(m)
    &&& i.properties@.len() == 0
    &&& i.signals@.len() == 0
    &&& i.anns@.len() == 0
    &&& iface_wf(i)
}

/// Builds the standard properties interface.
pub fn build_props_iface<D: Default, H>() -> (r: Interface<D, H>)
    ensures
        is_props_iface(r),
{
    let base = new_interface::<D, H>(
        "org.freedesktop.DBus.Properties".to_owned(),
        D::default(),
    );
    let m_get = Method::new("Get", MethodBody::PropGet).in_arg("interface_name", "s").in_arg(
        "property_name",
        "s",
    ).out_arg("value", "v");
    let m_get_all = Method::new("GetAll", MethodBody::PropGetAll).in_arg(
        "interface_name",
        "s",
    ).out_arg("props", "a{sv}");
    let m_set = Method::new("Set", MethodBody::PropSet).in_arg("interface_name", "s").in_arg(
        "property_name",
        "s",
    ).in_arg("value", "v");
    proof {
        assert(m_get.in_args@.map_values(|a: Argument| a@) =~= seq![
            ("interface_name"@, "s"@),
            ("property_name"@, "s"@),
        ]);
        assert(m_get.out_args@.map_values(|a: Argument| a@) =~= seq![("value"@, "v"@)]);
        assert(m_get_all.in_args@.map_values(|a: Argument| a@) =~= seq![("interface_name"@, "s"@)]);
        assert(m_get_all.out_args@.map_values(|a: Argument| a@) =~= seq![("props"@, "a{sv}"@)]);
        assert(m_set.in_args@.map_values(|a: Argument| a@) =~= seq![
            ("interface_name"@, "s"@),
            ("property_name"@, "s"@),
            ("value"@, "v"@),
        ]);
        reveal_strlit("Get");
        reveal_strlit("GetAll");
        reveal_strlit("Set");
        assert("Get"@.len() == 3);
        assert("GetAll"@.len() == 6);
        assert("Set"@.len() == 3);
        assert("Get"@ != "GetAll"@);
        assert("Get"@ != "Set"@) by {
            assert("Get"@[0] == 'G');
            assert("Set"@[0] == 'S');
        }
        assert("GetAll"@ != "Set"@);
    }
    let ghost g = m_get;
    let ghost ga = m_get_all;
    let ghost st = m_set;
    let r = base.add_m(m_get).add_m(m_get_all).add_m(m_set);
    proof {
        let s0 = Seq::<(Seq<char>, Method<H>)>::empty();
        let s1 = spec_insert(s0, "Get"@, g);
        let s2 = spec_insert(s1, "GetAll"@, ga);
        let s3 = spec_insert(s2, "Set"@, st);
        lemma_get_insert_same(s2, "Set"@, st);
        lemma_get_insert_other(s2, "Set"@, st, "GetAll"@);
        lemma_get_insert_same(s1, "GetAll"@, ga);
        lemma_get_insert_other(s2, "Set"@, st, "Get"@);
        lemma_get_insert_other(s1, "GetAll"@, ga, "Get"@);
        lemma_get_insert_same(s0, "Get"@, g);
    }
    r
}

/// Builds the standard introspection interface.
pub fn build_introspect_iface<D: Default, H>() -> (r: Interface<D, H>)
    ensures
        is_introspect_iface(r),
{
    let base = new_interface::<D, H>(
        "org.freedesktop.DBus.Introspectable".to_owned(),
        D::default(),
    );
    let m = Method::new("Introspect", MethodBody::Introspect).out_arg("xml_data", "s");
    proof {
        assert(m.out_args@.map_values(|a: Argument| a@) =~= seq![("xml_data"@, "s"@)]);
    }
    let ghost mm = m;
    let r = base.add_m(m);
    proof {
        lemma_get_insert_same(Seq::<(Seq<char>, Method<H>)>::empty(), "Introspect"@, mm);
    }
    r
}

impl<D, H> Introspect for Arc<Interface<D, H>> {
    open spec fn spec_xml_name(&self) -> Seq<char> {
        (**self).spec_xml_name()
    }

    open spec fn spec_xml_params(&self) -> Seq<char> {
        (**self).spec_xml_params()
    }

    open spec fn spec_xml_contents(&self) -> Seq<char> {
        (**self).spec_xml_contents()
    }

    fn xml_name(&self) -> (r: &'static str) {
        (**self).xml_name()
    }

    fn xml_params(&self) -> (r: String) {
        (**self).xml_params()
    }

    fn xml_contents(&self) -> (r: String) {
        (**self).xml_contents()
    }
}

} // verus!
