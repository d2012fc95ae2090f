//! The capability a user supplies for methods this library does not implement
//! itself: a callable invoked with the request context.

use vstd::prelude::*;
use crate::messages::{Message, MethodErr};
use crate::objpath::ObjectPath;
use crate::tree::Tree;

verus! {

/// A user-supplied method body. Dispatch resolves a message to a method
/// descriptor and, for a method carrying a custom body, invokes this callable
/// with the message, the resolved node and the owning tree. Nothing is
/// promised of its result: the dispatch contracts are exact for the built-in
/// behaviors and pass a custom handler's result through unchanged.
pub trait Handler<D>: Sized {
    /// Handles one resolved method call.
    fn call(&self, m: &Message, node: &ObjectPath<D, Self>, tree: &Tree<D, Self>) -> Result<
        Vec<Message>,
        MethodErr,
    >;
}

} // verus!
