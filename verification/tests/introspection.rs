use std::sync::Arc;
use dbus_tree::cache::IfaceCache;
use dbus_tree::handler::Handler;
use dbus_tree::iface::new_interface;
use dbus_tree::leaves::{Access, Method, MethodBody, Property, Signal};
use dbus_tree::messages::{Basic, Message, MethodErr};
use dbus_tree::objpath::{new_objectpath, ObjectPath};
use dbus_tree::tree::Tree;

struct NoHandler;

impl Handler<()> for NoHandler {
    fn call(
        &self,
        _m: &Message,
        _node: &ObjectPath<(), Self>,
        _tree: &Tree<(), Self>,
    ) -> Result<Vec<Message>, MethodErr> {
        panic!("not implemented");
    }
}

#[test]
fn test_introspection() {
    let mut cache: IfaceCache<(), NoHandler> = IfaceCache::new();
    let t = new_objectpath::<(), NoHandler>("/echo".to_string(), ())
        .introspectable(&mut cache)
        .add(
            Arc::new(
                new_interface("com.example.echo".to_string(), ())
                    .add_m(
                        Method::new("Echo", MethodBody::Custom(NoHandler))
                            .in_arg("request", "s")
                            .out_arg("reply", "s"),
                    )
                    .add_p(Property::new("EchoCount", "i", Access::Read, Basic::I32(0)))
                    .add_s(Signal::new("Echoed").arg("data", "s").deprecated()),
            ),
            &mut cache,
        );

    let tree = Tree::new().add(new_objectpath("/echo/subpath".to_string(), ()));
    let actual_result = t.introspect(&tree);
    println!("\n=== Introspection XML start ===\n{}\n=== Introspection XML end ===", actual_result);

    let expected_result = r##"<!DOCTYPE node PUBLIC "-//freedesktop//DTD D-BUS Object Introspection 1.0//EN" "http://www.freedesktop.org/standards/dbus/1.0/introspect.dtd">
<node name="/echo">
  <interface name="com.example.echo">
    <method name="Echo">
      <arg name="request" type="s" direction="in"/>
      <arg name="reply" type="s" direction="out"/>
    </method>
    <property name="EchoCount" type="i" access="read"/>
    <signal name="Echoed">
      <arg name="data" type="s"/>
      <annotation name="org.freedesktop.DBus.Deprecated" value="true"/>
    </signal>
  </interface>
  <interface name="org.freedesktop.DBus.Introspectable">
    <method name="Introspect">
      <arg name="xml_data" type="s" direction="out"/>
    </method>
  </interface>
  <interface name="org.freedesktop.DBus.Properties">
    <method name="Get">
      <arg name="interface_name" type="s" direction="in"/>
      <arg name="property_name" type="s" direction="in"/>
      <arg name="value" type="v" direction="out"/>
    </method>
    <method name="GetAll">
      <arg name="interface_name" type="s" direction="in"/>
      <arg name="props" type="a{sv}" direction="out"/>
    </method>
    <method name="Set">
      <arg name="interface_name" type="s" direction="in"/>
      <arg name="property_name" type="s" direction="in"/>
      <arg name="value" type="v" direction="in"/>
    </method>
  </interface>
  <node name="subpath"/>
</node>"##;

    assert_eq!(expected_result, actual_result);
}

#[test]
fn introspect_through_dispatch() {
    let mut cache: IfaceCache<(), NoHandler> = IfaceCache::new();
    let node = new_objectpath::<(), NoHandler>("/x".to_string(), ()).introspectable(&mut cache);
    let tree = Tree::new().add(node);
    let call = Message::method_call(
        "/x".to_string(),
        "org.freedesktop.DBus.Introspectable".to_string(),
        "Introspect".to_string(),
    );
    let replies = tree.handle(&call).expect("the call addresses a node of the tree");
    assert_eq!(replies.len(), 1);
    match &replies[0].args[0] {
        dbus_tree::messages::Value::Basic(Basic::Str(xml)) => {
            assert!(xml.starts_with("<!DOCTYPE node"));
            assert!(xml.contains("<node name=\"/x\">"));
            assert!(xml.contains("<interface name=\"org.freedesktop.DBus.Introspectable\">"));
        },
        _ => panic!("the introspection reply carries one string"),
    }
}

#[test]
fn properties_interface_installed_once() {
    let mut cache: IfaceCache<(), NoHandler> = IfaceCache::new();
    let i1 = Arc::new(
        new_interface::<(), NoHandler>("com.example.one".to_string(), ())
            .add_p(Property::new("A", "i", Access::Read, Basic::I32(1))),
    );
    let i2 = Arc::new(
        new_interface::<(), NoHandler>("com.example.two".to_string(), ())
            .add_p(Property::new("B", "i", Access::Read, Basic::I32(2))),
    );
    let node = new_objectpath::<(), NoHandler>("/n".to_string(), ())
        .add(i1, &mut cache)
        .add(i2, &mut cache);
    let mut count = 0;
    for i in 0..node.ifaces.len() {
        if node.ifaces.key_at(i) == "org.freedesktop.DBus.Properties" {
            count += 1;
        }
    }
    assert_eq!(count, 1);
    // one user interface each, plus the one shared properties interface
    assert_eq!(node.ifaces.len(), 3);
}

#[test]
fn cache_shares_one_instance() {
    let mut cache: IfaceCache<(), NoHandler> = IfaceCache::new();
    let n1 = new_objectpath::<(), NoHandler>("/a".to_string(), ()).introspectable(&mut cache);
    let n2 = new_objectpath::<(), NoHandler>("/b".to_string(), ()).introspectable(&mut cache);
    let a1 = n1.ifaces.get("org.freedesktop.DBus.Introspectable").expect("installed");
    let a2 = n2.ifaces.get("org.freedesktop.DBus.Introspectable").expect("installed");
    assert!(Arc::ptr_eq(a1, a2));
}

#[test]
fn children_are_direct_only_and_in_key_order() {
    let tree: Tree<(), NoHandler> = Tree::new()
        .add(new_objectpath("/svc/b".to_string(), ()))
        .add(new_objectpath("/svc/a".to_string(), ()))
        .add(new_objectpath("/svc/a/deep".to_string(), ()))
        .add(new_objectpath("/svcx".to_string(), ()))
        .add(new_objectpath("/svc".to_string(), ()));
    let parent = new_objectpath::<(), NoHandler>("/svc".to_string(), ());
    let direct = tree.children(&parent, true);
    assert_eq!(direct, vec!["/svc/a".to_string(), "/svc/b".to_string()]);
    let all = tree.children(&parent, false);
    assert_eq!(
        all,
        vec!["/svc/a".to_string(), "/svc/a/deep".to_string(), "/svc/b".to_string()]
    );
}

#[test]
fn adding_an_interface_twice_overwrites_silently() {
    let mut cache: IfaceCache<(), NoHandler> = IfaceCache::new();
    let v1 = Arc::new(new_interface::<(), NoHandler>("com.example.dup".to_string(), ())
        .add_m(Method::new("First", MethodBody::Custom(NoHandler))));
    let v2 = Arc::new(new_interface::<(), NoHandler>("com.example.dup".to_string(), ())
        .add_m(Method::new("Second", MethodBody::Custom(NoHandler))));
    let node = new_objectpath::<(), NoHandler>("/n".to_string(), ())
        .add(v1, &mut cache)
        .add(v2, &mut cache);
    assert_eq!(node.ifaces.len(), 1);
    let stored = node.ifaces.get("com.example.dup").expect("present");
    assert!(stored.methods.get("Second").is_some());
    assert!(stored.methods.get("First").is_none());
}
