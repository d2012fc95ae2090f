//! Method, property and signal descriptors, and the structural XML rendering
//! each contributes to an introspection document.

use vstd::prelude::*;
use vstd::string::StringExecFns;
use crate::namemap::NameMap;
use crate::messages::Basic;

verus! {

/// An argument of a method or signal: a name and a type signature.
pub struct Argument {
    pub name: String,
    pub sig: String,
}

impl View for Argument {
    type V = (Seq<char>, Seq<char>);

    open spec fn view(&self) -> (Seq<char>, Seq<char>) {
        (self.name@, self.sig@)
    }
}

impl Argument {
    /// An argument named `name` with type signature `sig`.
    pub fn new(name: &str, sig: &str) -> (r: Argument)
        ensures
            r@ == (name@, sig@),
    {
        Argument { name: name.to_owned(), sig: sig.to_owned() }
    }
}

/// The view of an optional direction attribute.
pub open spec fn dir_view(d: Option<&str>) -> Option<Seq<char>> {
    match d {
        Some(s) => Some(s@),
        None => None,
    }
}

/// One `<arg .../>` line: name, type, and an optional direction attribute.
pub open spec fn spec_arg_xml(a: (Seq<char>, Seq<char>), dir: Option<Seq<char>>, indent: Seq<char>) -> Seq<char> {
    indent + "<arg name=\""@ + a.0 + "\" type=\""@ + a.1 + (match dir {
        Some(d) => "\" direction=\""@ + d,
        None => Seq::<char>::empty(),
    }) + "\"/>\n"@
}

/// All `<arg .../>` lines of an argument list, in order.
pub open spec fn spec_args_xml(
    args: Seq<(Seq<char>, Seq<char>)>,
    dir: Option<Seq<char>>,
    indent: Seq<char>,
) -> Seq<char>
    decreases args.len(),
{
    if args.len() == 0 {
        Seq::<char>::empty()
    } else {
        spec_args_xml(args.take(args.len() - 1), dir, indent) + spec_arg_xml(
            args.last(),
            dir,
            indent,
        )
    }
}

/// Renders one argument element.
fn arg_xml(a: &Argument, dir: Option<&str>, indent: &str) -> (r: String)
    ensures
        r@ == spec_arg_xml(a@, dir_view(dir), indent@),
{
    let mut out = String::new();
    out.append(indent);
    out.append("<arg name=\"");
    out.append(a.name.as_str());
    out.append("\" type=\"");
    out.append(a.sig.as_str());
    match dir {
        Some(d) => {
            out.append("\" direction=\"");
            out.append(d);
        },
        None => {},
    }
    out.append("\"/>\n");
    proof {
        assert(out@ =~= spec_arg_xml(a@, dir_view(dir), indent@));
    }
    out
}

/// Renders all argument elements of a list.
fn args_xml(args: &Vec<Argument>, dir: Option<&str>, indent: &str) -> (r: String)
    ensures
        r@ == spec_args_xml(args@.map_values(|a: Argument| a@), dir_view(dir), indent@),
{
    let ghost av = args@.map_values(|a: Argument| a@);
    let mut out = String::new();
    let mut i: usize = 0;
    proof {
        assert(av.take(0) =~= Seq::<(Seq<char>, Seq<char>)>::empty());
    }
    loop
        invariant
            i <= args@.len(),
            av == args@.map_values(|a: Argument| a@),
            out@ == spec_args_xml(av.take(i as int), dir_view(dir), indent@),
        decreases args@.len() - i,
    {
        if i >= args.len() {
            proof {
                assert(av.take(av.len() as int) =~= av);
            }
            return out;
        }
        let line = arg_xml(&args[i], dir, indent);
        out.append(line.as_str());
        proof {
            assert(av.take(i + 1).take(i as int) =~= av.take(i as int));
            assert(av.take(i + 1).last() == av[i as int]);
        }
        i = i + 1;
    }
}

/// The name/value views of an annotation set.
pub open spec fn anns_view(s: Seq<(Seq<char>, String)>) -> Seq<(Seq<char>, Seq<char>)> {
    s.map_values(|p: (Seq<char>, String)| (p.0, p.1@))
}

/// A sorted insert of an annotation commutes with taking its name/value views.
pub proof fn lemma_anns_view_insert(s: Seq<(Seq<char>, String)>, k: Seq<char>, v: String)
    ensures
        anns_view(crate::namemap::spec_insert(s, k, v)) == crate::namemap::spec_insert(
            anns_view(s),
            k,
            v@,
        ),
    decreases s.len(),
{
    if s.len() == 0 {
        assert(anns_view(crate::namemap::spec_insert(s, k, v)) =~= crate::namemap::spec_insert(
            anns_view(s),
            k,
            v@,
        ));
    } else if crate::strutil::lex_lt(k, s[0].0) || k == s[0].0 {
        assert(anns_view(s)[0].0 == s[0].0);
        assert(anns_view(crate::namemap::spec_insert(s, k, v)) =~= crate::namemap::spec_insert(
            anns_view(s),
            k,
            v@,
        ));
    } else {
        assert(anns_view(s)[0].0 == s[0].0);
        lemma_anns_view_insert(s.skip(1), k, v);
        assert(anns_view(s.skip(1)) =~= anns_view(s).skip(1));
        assert(anns_view(crate::namemap::spec_insert(s, k, v)) =~= crate::namemap::spec_insert(
            anns_view(s),
            k,
            v@,
        ));
    }
}

/// One `<annotation .../>` line.
pub open spec fn spec_ann_xml(k: Seq<char>, v: Seq<char>, indent: Seq<char>) -> Seq<char> {
    indent + "<annotation name=\""@ + k + "\" value=\""@ + v + "\"/>\n"@
}

/// All annotation lines of an annotation set, in key order.
pub open spec fn spec_anns_xml(s: Seq<(Seq<char>, Seq<char>)>, indent: Seq<char>) -> Seq<char>
    decreases s.len(),
{
    if s.len() == 0 {
        Seq::<char>::empty()
    } else {
        spec_anns_xml(s.take(s.len() - 1), indent) + spec_ann_xml(
            s.last().0,
            s.last().1,
            indent,
        )
    }
}

/// Renders all annotation elements of an annotation set.
pub fn anns_xml(anns: &NameMap<String>, indent: &str) -> (r: String)
    ensures
        r@ == spec_anns_xml(anns_view(anns@), indent@),
{
    let ghost av = anns_view(anns@);
    let mut out = String::new();
    let mut i: usize = 0;
    proof {
        assert(av.take(0) =~= Seq::<(Seq<char>, Seq<char>)>::empty());
    }
    loop
        invariant
            i <= anns@.len(),
            av == anns_view(anns@),
            av.len() == anns@.len(),
            out@ == spec_anns_xml(av.take(i as int), indent@),
        decreases anns@.len() - i,
    {
        if i >= anns.len() {
            proof {
                assert(av.take(av.len() as int) =~= av);
            }
            return out;
        }
        out.append(indent);
        out.append("<annotation name=\"");
        out.append(anns.key_at(i).as_str());
        out.append("\" value=\"");
        out.append(anns.val_at(i).as_str());
        out.append("\"/>\n");
        proof {
            assert(av.take(i + 1).take(i as int) =~= av.take(i as int));
            assert(av.take(i + 1).last() == av[i as int]);
            assert(av[i as int] == (anns@[i as int].0, anns@[i as int].1@));
        }
        i = i + 1;
    }
}

/// What a resolved method does when invoked: one of the built-in behaviors
/// this library implements, or a user-supplied handler.
pub enum MethodBody<H> {
    /// Renders the owning node's introspection document.
    Introspect,
    /// The standard property-read method.
    PropGet,
    /// The standard property-enumerate method.
    PropGetAll,
    /// The standard property-write method.
    PropSet,
    /// A user-supplied handler value.
    Custom(H),
}

/// A method descriptor: name, argument signatures, annotations and behavior.
pub struct Method<H> {
    pub name: String,
    pub in_args: Vec<Argument>,
    pub out_args: Vec<Argument>,
    pub anns: NameMap<String>,
    pub body: MethodBody<H>,
}

impl<H> Method<H> {
    /// A method descriptor named `name` with the given behavior and no arguments.
    pub fn new(name: &str, body: MethodBody<H>) -> (r: Method<H>)
        ensures
            r.name@ == name@,
            r.in_args@.len() == 0,
            r.out_args@.len() == 0,
            r.anns@ == Seq::<(Seq<char>, String)>::empty(),
            r.body == body,
    {
        let r = Method {
            name: name.to_owned(),
            in_args: Vec::new(),
            out_args: Vec::new(),
            anns: NameMap::new(),
            body,
        };
        r
    }

    /// Builder: this method with one more input argument.
    pub fn in_arg(self, name: &str, sig: &str) -> (r: Method<H>)
        ensures
            r.name == self.name,
            r.in_args@.map_values(|a: Argument| a@) == self.in_args@.map_values(
                |a: Argument| a@,
            ).push((name@, sig@)),
            r.out_args == self.out_args,
            r.anns == self.anns,
            r.body == self.body,
    {
        let mut m = self;
        m.in_args.push(Argument::new(name, sig));
        proof {
            assert(m.in_args@.map_values(|a: Argument| a@) =~= self.in_args@.map_values(
                |a: Argument| a@,
            ).push((name@, sig@)));
        }
        m
    }

    /// Builder: this method with one more output argument.
    pub fn out_arg(self, name: &str, sig: &str) -> (r: Method<H>)
        ensures
            r.name == self.name,
            r.in_args == self.in_args,
            r.out_args@.map_values(|a: Argument| a@) == self.out_args@.map_values(
                |a: Argument| a@,
            ).push((name@, sig@)),
            r.anns == self.anns,
            r.body == self.body,
    {
        let mut m = self;
        m.out_args.push(Argument::new(name, sig));
        proof {
            assert(m.out_args@.map_values(|a: Argument| a@) =~= self.out_args@.map_values(
                |a: Argument| a@,
            ).push((name@, sig@)));
        }
        m
    }
}

/// Whether a property may be read, written, or both.
#[derive(PartialEq, Eq, Structural, Clone, Copy, Debug)]
pub enum Access {
    Read,
    Write,
    ReadWrite,
}

/// The value of the `access` attribute for an access mode.
pub open spec fn spec_access_str(a: Access) -> Seq<char> {
    match a {
        Access::Read => "read"@,
        Access::Write => "write"@,
        Access::ReadWrite => "readwrite"@,
    }
}

/// A property descriptor: name, type signature, access mode, current value.
pub struct Property {
    pub name: String,
    pub sig: String,
    pub access: Access,
    pub value: Basic,
    pub anns: NameMap<String>,
}

impl Property {
    /// A property descriptor with the given name, signature, access and value.
    pub fn new(name: &str, sig: &str, access: Access, value: Basic) -> (r: Property)
        ensures
            r.name@ == name@,
            r.sig@ == sig@,
            r.access == access,
            r.value == value,
            r.anns@ == Seq::<(Seq<char>, String)>::empty(),
    {
        Property {
            name: name.to_owned(),
            sig: sig.to_owned(),
            access,
            value,
            anns: NameMap::new(),
        }
    }
}

/// A signal descriptor: name, argument signatures and annotations.
pub struct Signal {
    pub name: String,
    pub args: Vec<Argument>,
    pub anns: NameMap<String>,
}

impl Signal {
    /// A signal descriptor named `name` with no arguments.
    pub fn new(name: &str) -> (r: Signal)
        ensures
            r.name@ == name@,
            r.args@.len() == 0,
            r.anns@ == Seq::<(Seq<char>, String)>::empty(),
    {
        Signal { name: name.to_owned(), args: Vec::new(), anns: NameMap::new() }
    }

    /// Builder: this signal with one more argument.
    pub fn arg(self, name: &str, sig: &str) -> (r: Signal)
        ensures
            r.name == self.name,
            r.args@.map_values(|a: Argument| a@) == self.args@.map_values(|a: Argument| a@).push(
                (name@, sig@),
            ),
            r.anns == self.anns,
    {
        let mut s = self;
        s.args.push(Argument::new(name, sig));
        proof {
            assert(s.args@.map_values(|a: Argument| a@) =~= self.args@.map_values(
                |a: Argument| a@,
            ).push((name@, sig@)));
        }
        s
    }

    /// Builder: this signal with one more annotation.
    pub fn annotate(self, name: &str, value: &str) -> (r: Signal)
        ensures
            r.name == self.name,
            r.args == self.args,
            anns_view(r.anns@) == crate::namemap::spec_insert(anns_view(self.anns@), name@, value@),
    {
        let mut s = self;
        let v = value.to_owned();
        proof {
            lemma_anns_view_insert(s.anns@, name@, v);
        }
        s.anns.insert(name.to_owned(), v);
        s
    }

    /// Builder: this signal annotated as deprecated.
    pub fn deprecated(self) -> (r: Signal)
        ensures
            r.name == self.name,
            r.args == self.args,
            anns_view(r.anns@) == crate::namemap::spec_insert(
                anns_view(self.anns@),
                "org.freedesktop.DBus.Deprecated"@,
                "true"@,
            ),
    {
        self.annotate("org.freedesktop.DBus.Deprecated", "true")
    }
}

/// What an entity contributes to an introspection document: an element name,
/// extra attributes, and child content.
pub trait Introspect {
    /// The element name.
    spec fn spec_xml_name(&self) -> Seq<char>;

    /// The extra attributes after the `name` attribute.
    spec fn spec_xml_params(&self) -> Seq<char>;

    /// The rendered child content; empty means a self-closing element.
    spec fn spec_xml_contents(&self) -> Seq<char>;

    /// Renders the element name.
    fn xml_name(&self) -> (r: &'static str)
        ensures
            r@ == self.spec_xml_name(),
    ;

    /// Renders the extra attributes.
    fn xml_params(&self) -> (r: String)
        ensures
            r@ == self.spec_xml_params(),
    ;

    /// Renders the child content.
    fn xml_contents(&self) -> (r: String)
        ensures
            r@ == self.spec_xml_contents(),
    ;
}

impl<H> Introspect for Method<H> {
    open spec fn spec_xml_name(&self) -> Seq<char> {
        "method"@
    }

    open spec fn spec_xml_params(&self) -> Seq<char> {
        Seq::<char>::empty()
    }

    open spec fn spec_xml_contents(&self) -> Seq<char> {
        spec_args_xml(self.in_args@.map_values(|a: Argument| a@), Some("in"@), "      "@)
            + spec_args_xml(self.out_args@.map_values(|a: Argument| a@), Some("out"@), "      "@)
            + spec_anns_xml(anns_view(self.anns@), "      "@)
    }

    fn xml_name(&self) -> (r: &'static str) {
        "method"
    }

    fn xml_params(&self) -> (r: String) {
        String::new()
    }

    fn xml_contents(&self) -> (r: String) {
        let mut out = args_xml(&self.in_args, Some("in"), "      ");
        let o = args_xml(&self.out_args, Some("out"), "      ");
        let a = anns_xml(&self.anns, "      ");
        out.append(o.as_str());
        out.append(a.as_str());
        out
    }
}

impl Introspect for Property {
    open spec fn spec_xml_name(&self) -> Seq<char> {
        "property"@
    }

    open spec fn spec_xml_params(&self) -> Seq<char> {
        " type=\""@ + self.sig@ + "\" access=\""@ + spec_access_str(self.access) + "\""@
    }

    open spec fn spec_xml_contents(&self) -> Seq<char> {
        spec_anns_xml(anns_view(self.anns@), "      "@)
    }

    fn xml_name(&self) -> (r: &'static str) {
        "property"
    }

    fn xml_params(&self) -> (r: String) {
        let mut out = String::new();
        out.append(" type=\"");
        out.append(self.sig.as_str());
        out.append("\" access=\"");
        match self.access {
            Access::Read => out.append("read"),
            Access::Write => out.append("write"),
            Access::ReadWrite => out.append("readwrite"),
        }
        out.append("\"");
        out
    }

    fn xml_contents(&self) -> (r: String) {
        anns_xml(&self.anns, "      ")
    }
}

impl Introspect for Signal {
    open spec fn spec_xml_name(&self) -> Seq<char> {
        "signal"@
    }

    open spec fn spec_xml_params(&self) -> Seq<char> {
        Seq::<char>::empty()
    }

    open spec fn spec_xml_contents(&self) -> Seq<char> {
        spec_args_xml(self.args@.map_values(|a: Argument| a@), None, "      "@) + spec_anns_xml(
            anns_view(self.anns@),
            "      "@,
        )
    }

    fn xml_name(&self) -> (r: &'static str) {
        "signal"
    }

    fn xml_params(&self) -> (r: String) {
        String::new()
    }

    fn xml_contents(&self) -> (r: String) {
        let mut out = args_xml(&self.args, None, "      ");
        let a = anns_xml(&self.anns, "      ");
        out.append(a.as_str());
        out
    }
}

/// One rendered element of a name-keyed entity map.
pub open spec fn spec_entry_xml<T: Introspect>(k: Seq<char>, v: T, indent: Seq<char>) -> Seq<char> {
    indent + "<"@ + v.spec_xml_name() + " name=\""@ + k + "\""@ + v.spec_xml_params() + (
    if v.spec_xml_contents().len() > 0 {
        ">\n"@ + v.spec_xml_contents() + indent + "</"@ + v.spec_xml_name()
    } else {
        "/"@
    }) + ">\n"@
}

/// The rendered elements of a name-keyed entity map, in key order.
pub open spec fn spec_introspect_map<T: Introspect>(
    s: Seq<(Seq<char>, T)>,
    indent: Seq<char>,
) -> Seq<char>
    decreases s.len(),
{
    if s.len() == 0 {
        Seq::<char>::empty()
    } else {
        spec_introspect_map(s.take(s.len() - 1), indent) + spec_entry_xml(
            s.last().0,
            s.last().1,
            indent,
        )
    }
}

/// Renders every entity of a name-keyed map as one XML element per entry,
/// with the entry's key as the `name` attribute, in key order.
pub fn introspect_map<T: Introspect>(h: &NameMap<T>, indent: &str) -> (r: String)
    ensures
        r@ == spec_introspect_map(h@, indent@),
{
    let mut out = String::new();
    let mut i: usize = 0;
    proof {
        assert(h@.take(0) =~= Seq::<(Seq<char>, T)>::empty());
    }
    loop
        invariant
            i <= h@.len(),
            out@ == spec_introspect_map(h@.take(i as int), indent@),
        decreases h@.len() - i,
    {
        if i >= h.len() {
            proof {
                assert(h@.take(h@.len() as int) =~= h@);
            }
            return out;
        }
        let v = h.val_at(i);
        let name = v.xml_name();
        let params = v.xml_params();
        let contents = v.xml_contents();
        out.append(indent);
        out.append("<");
        out.append(name);
        out.append(" name=\"");
        out.append(h.key_at(i).as_str());
        out.append("\"");
        out.append(params.as_str());
        if !contents.as_str().is_empty() {
            out.append(">\n");
            out.append(contents.as_str());
            out.append(indent);
            out.append("</");
            out.append(name);
        } else {
            out.append("/");
        }
        out.append(">\n");
        proof {
            assert(h@.take(i + 1).take(i as int) =~= h@.take(i as int));
            assert(h@.take(i + 1).last() == h@[i as int]);
        }
        i = i + 1;
    }
}

} // verus!
