use std::sync::Arc;
use dbus_tree::cache::IfaceCache;
use dbus_tree::handler::Handler;
use dbus_tree::iface::new_interface;
use dbus_tree::leaves::{Access, Method, MethodBody, Property};
use dbus_tree::messages::{Basic, ConnectionItem, Message, MethodErr, Value};
use dbus_tree::objpath::{new_objectpath, ObjectPath};
use dbus_tree::tree::Tree;

struct EchoBack;

impl Handler<()> for EchoBack {
    fn call(
        &self,
        m: &Message,
        _node: &ObjectPath<(), Self>,
        _tree: &Tree<(), Self>,
    ) -> Result<Vec<Message>, MethodErr> {
        let mut reply = m.method_return();
        reply = reply.append1(Value::Basic(Basic::Str("pong".to_string())));
        Ok(vec![reply])
    }
}

fn prop_tree() -> Tree<(), EchoBack> {
    let mut cache: IfaceCache<(), EchoBack> = IfaceCache::new();
    let iface = Arc::new(
        new_interface::<(), EchoBack>("com.example.props".to_string(), ())
            .add_p(Property::new("Visible", "i", Access::Read, Basic::I32(7)))
            .add_p(Property::new("Hidden", "s", Access::Write, Basic::Str("w".to_string())))
            .add_m(Method::new("Ping", MethodBody::Custom(EchoBack))),
    );
    let node = new_objectpath::<(), EchoBack>("/p".to_string(), ()).add(iface, &mut cache);
    Tree::new().add(node)
}

fn prop_call(member: &str, args: Vec<Value>) -> Message {
    let mut m = Message::method_call(
        "/p".to_string(),
        "org.freedesktop.DBus.Properties".to_string(),
        member.to_string(),
    );
    for a in args {
        m = m.append1(a);
    }
    m
}

fn error_name(reply: &Message) -> &str {
    reply.error_name.as_ref().expect("an error reply carries an error name")
}

#[test]
fn dispatch_miss_is_not_an_error() {
    let tree = prop_tree();
    // a method call to a path the tree does not hold
    let miss = Message::method_call(
        "/absent".to_string(),
        "com.example.props".to_string(),
        "Ping".to_string(),
    );
    assert!(tree.handle(&miss).is_none());
    // a non-method-call message, even to a known path
    let sig = Message::signal(
        "/p".to_string(),
        "com.example.props".to_string(),
        "Changed".to_string(),
    );
    assert!(tree.handle(&sig).is_none());
}

#[test]
fn unknown_member_yields_structured_error() {
    let tree = prop_tree();
    let bad_iface = Message::method_call(
        "/p".to_string(),
        "com.example.absent".to_string(),
        "Ping".to_string(),
    );
    let replies = tree.handle(&bad_iface).expect("the path is registered");
    assert_eq!(replies.len(), 1);
    assert_eq!(error_name(&replies[0]), "org.freedesktop.DBus.Error.UnknownInterface");

    let bad_member = Message::method_call(
        "/p".to_string(),
        "com.example.props".to_string(),
        "Absent".to_string(),
    );
    let replies = tree.handle(&bad_member).expect("the path is registered");
    assert_eq!(error_name(&replies[0]), "org.freedesktop.DBus.Error.UnknownMethod");
}

#[test]
fn custom_handler_replies_pass_through() {
    let tree = prop_tree();
    let call = Message::method_call(
        "/p".to_string(),
        "com.example.props".to_string(),
        "Ping".to_string(),
    );
    let replies = tree.handle(&call).expect("the call resolves");
    assert_eq!(replies.len(), 1);
    match &replies[0].args[0] {
        Value::Basic(Basic::Str(s)) => assert_eq!(s, "pong"),
        _ => panic!("the handler replied with one string"),
    }
}

#[test]
fn prop_get_returns_value_as_variant() {
    let tree = prop_tree();
    let call = prop_call(
        "Get",
        vec![
            Value::Basic(Basic::Str("com.example.props".to_string())),
            Value::Basic(Basic::Str("Visible".to_string())),
        ],
    );
    let replies = tree.handle(&call).expect("the path is registered");
    assert_eq!(replies.len(), 1);
    assert!(replies[0].error_name.is_none());
    match &replies[0].args[0] {
        Value::Variant(Basic::I32(v)) => assert_eq!(*v, 7),
        _ => panic!("the value comes wrapped as a variant"),
    }
}

#[test]
fn prop_get_unknown_property() {
    let tree = prop_tree();
    let call = prop_call(
        "Get",
        vec![
            Value::Basic(Basic::Str("com.example.props".to_string())),
            Value::Basic(Basic::Str("Absent".to_string())),
        ],
    );
    let replies = tree.handle(&call).expect("the path is registered");
    assert_eq!(error_name(&replies[0]), "org.freedesktop.DBus.Error.UnknownProperty");
}

#[test]
fn prop_get_write_only_property() {
    let tree = prop_tree();
    let call = prop_call(
        "Get",
        vec![
            Value::Basic(Basic::Str("com.example.props".to_string())),
            Value::Basic(Basic::Str("Hidden".to_string())),
        ],
    );
    let replies = tree.handle(&call).expect("the path is registered");
    assert_eq!(error_name(&replies[0]), "org.freedesktop.DBus.Error.AccessDenied");
}

#[test]
fn prop_get_all_skips_write_only() {
    let tree = prop_tree();
    let call = prop_call(
        "GetAll",
        vec![Value::Basic(Basic::Str("com.example.props".to_string()))],
    );
    let replies = tree.handle(&call).expect("the path is registered");
    assert!(replies[0].error_name.is_none());
    match &replies[0].args[0] {
        Value::Dict(entries) => {
            assert_eq!(entries.len(), 1);
            assert_eq!(entries[0].0, "Visible");
            match &entries[0].1 {
                Basic::I32(v) => assert_eq!(*v, 7),
                _ => panic!("the readable property holds an integer"),
            }
        },
        _ => panic!("the reply carries one dictionary"),
    }
}

#[test]
fn prop_set_checks_writability_before_value() {
    let tree = prop_tree();
    // writing a read-only property fails even with a missing value argument
    let call = prop_call(
        "Set",
        vec![
            Value::Basic(Basic::Str("com.example.props".to_string())),
            Value::Basic(Basic::Str("Visible".to_string())),
        ],
    );
    let replies = tree.handle(&call).expect("the path is registered");
    assert_eq!(error_name(&replies[0]), "org.freedesktop.DBus.Error.AccessDenied");
    // a writable property with a variant value succeeds
    let call = prop_call(
        "Set",
        vec![
            Value::Basic(Basic::Str("com.example.props".to_string())),
            Value::Basic(Basic::Str("Hidden".to_string())),
            Value::Variant(Basic::Str("new".to_string())),
        ],
    );
    let replies = tree.handle(&call).expect("the path is registered");
    assert!(replies[0].error_name.is_none());
    // a writable property without the variant value is an invalid argument
    let call = prop_call(
        "Set",
        vec![
            Value::Basic(Basic::Str("com.example.props".to_string())),
            Value::Basic(Basic::Str("Hidden".to_string())),
        ],
    );
    let replies = tree.handle(&call).expect("the path is registered");
    assert_eq!(error_name(&replies[0]), "org.freedesktop.DBus.Error.InvalidArgs");
}

#[test]
fn prop_get_missing_argument() {
    let tree = prop_tree();
    let call = prop_call("Get", vec![]);
    let replies = tree.handle(&call).expect("the path is registered");
    assert_eq!(error_name(&replies[0]), "org.freedesktop.DBus.Error.InvalidArgs");
}

#[test]
fn server_consumes_handled_calls_and_passes_others() {
    let tree = prop_tree();
    let handled = Message::method_call(
        "/p".to_string(),
        "com.example.props".to_string(),
        "Ping".to_string(),
    );
    let foreign = Message::method_call(
        "/elsewhere".to_string(),
        "com.example.props".to_string(),
        "Ping".to_string(),
    );
    let items = vec![
        ConnectionItem::MethodCall(handled),
        ConnectionItem::Nothing,
        ConnectionItem::MethodCall(foreign),
    ];
    let mut server = tree.run(items);
    // the handled call is consumed; its reply is collected; Nothing is yielded
    let (yielded, outbox) = server.next(&tree);
    assert!(matches!(yielded, Some(ConnectionItem::Nothing)));
    assert_eq!(outbox.len(), 1);
    // the unhandled call passes through with no further replies
    let (yielded, outbox) = server.next(&tree);
    match yielded {
        Some(ConnectionItem::MethodCall(m)) => {
            assert_eq!(m.path.as_deref(), Some("/elsewhere"));
        },
        _ => panic!("the foreign call passes through"),
    }
    assert_eq!(outbox.len(), 0);
    // the queue is exhausted
    let (yielded, outbox) = server.next(&tree);
    assert!(yielded.is_none());
    assert_eq!(outbox.len(), 0);
}
