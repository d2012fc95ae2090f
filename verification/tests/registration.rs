use std::sync::Arc;
use dbus_tree::cache::IfaceCache;
use dbus_tree::handler::Handler;
use dbus_tree::iface::new_interface;
use dbus_tree::leaves::{Method, MethodBody};
use dbus_tree::messages::{Message, MethodErr};
use dbus_tree::objpath::{new_objectpath, ObjectPath};
use dbus_tree::registration::RegAction;
use dbus_tree::tree::Tree;

struct NoHandler;

impl Handler<()> for NoHandler {
    fn call(
        &self,
        _m: &Message,
        _node: &ObjectPath<(), Self>,
        _tree: &Tree<(), Self>,
    ) -> Result<Vec<Message>, MethodErr> {
        panic!("not implemented");
    }
}

fn three_node_tree() -> Tree<(), NoHandler> {
    let mut cache: IfaceCache<(), NoHandler> = IfaceCache::new();
    let mut tree = Tree::new();
    for p in ["/a", "/b", "/c"] {
        let iface = Arc::new(
            new_interface::<(), NoHandler>("com.example.x".to_string(), ())
                .add_m(Method::new("M", MethodBody::Custom(NoHandler))),
        );
        tree = tree.add(new_objectpath(p.to_string(), ()).add(iface, &mut cache));
    }
    tree
}

/// A fake transport that records actions and fails registration of one path.
fn drive(tree: &Tree<(), NoHandler>, enable: bool, fail_on: Option<&str>) -> (Vec<String>, bool) {
    let mut machine = tree.set_registered(enable);
    let mut log: Vec<String> = Vec::new();
    loop {
        match machine.current_action() {
            RegAction::Register(p) => {
                let ok = fail_on != Some(p.as_str());
                log.push(format!("reg {}", p));
                machine.advance(ok);
            },
            RegAction::Unregister(p) => {
                log.push(format!("unreg {}", p));
                machine.advance(true);
            },
            RegAction::DoneOk => return (log, true),
            RegAction::DoneFailed => return (log, false),
        }
    }
}

#[test]
fn rollback_on_partial_registration_failure() {
    let tree = three_node_tree();
    let (log, ok) = drive(&tree, true, Some("/b"));
    assert!(!ok);
    assert_eq!(log, vec!["reg /a", "reg /b", "unreg /a"]);
}

#[test]
fn retry_after_removing_failing_node_succeeds() {
    let mut tree = three_node_tree();
    let (_, ok) = drive(&tree, true, Some("/b"));
    assert!(!ok);
    assert!(tree.remove("/b").is_some());
    let (log, ok) = drive(&tree, true, Some("/b"));
    assert!(ok);
    assert_eq!(log, vec!["reg /a", "reg /c"]);
}

#[test]
fn disabling_unregisters_everything_ignoring_failures() {
    let tree = three_node_tree();
    let (log, ok) = drive(&tree, false, None);
    assert!(ok);
    assert_eq!(log, vec!["unreg /a", "unreg /b", "unreg /c"]);
}

#[test]
fn full_registration_succeeds() {
    let tree = three_node_tree();
    let (log, ok) = drive(&tree, true, None);
    assert!(ok);
    assert_eq!(log, vec!["reg /a", "reg /b", "reg /c"]);
}
