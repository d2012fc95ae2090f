//! Plain-value model of protocol messages: message kinds, argument values
//! (with one level of variant wrapping, as the property sub-protocol uses),
//! structured dispatch errors, and the transport event kinds the dispatch
//! adapter distinguishes.

use vstd::prelude::*;
use vstd::string::StringExecFns;

verus! {

/// The kind of a protocol message.
#[derive(PartialEq, Eq, Structural, Clone, Copy, Debug)]
pub enum MessageType {
    MethodCall,
    MethodReturn,
    Error,
    Signal,
}

/// A basic argument value: a string, a 32-bit integer or a boolean.
pub enum Basic {
    Str(String),
    I32(i32),
    Bool(bool),
}

/// Mathematical model of a `Basic` value.
pub enum BasicV {
    Str(Seq<char>),
    I32(i32),
    Bool(bool),
}

/// The model a `Basic` value denotes.
pub open spec fn basic_view(b: Basic) -> BasicV {
    match b {
        Basic::Str(s) => BasicV::Str(s@),
        Basic::I32(i) => BasicV::I32(i),
        Basic::Bool(x) => BasicV::Bool(x),
    }
}

/// A message argument: a basic value, a variant-wrapped basic value, or a
/// dictionary from names to variant-wrapped basic values.
pub enum Value {
    Basic(Basic),
    Variant(Basic),
    Dict(Vec<(String, Basic)>),
}

/// Mathematical model of a `Value`.
#[verifier::ext_equal]
pub enum ValueV {
    Basic(BasicV),
    Variant(BasicV),
    Dict(Seq<(Seq<char>, BasicV)>),
}

/// The model a `Value` denotes.
pub open spec fn value_view(v: Value) -> ValueV {
    match v {
        Value::Basic(b) => ValueV::Basic(basic_view(b)),
        Value::Variant(b) => ValueV::Variant(basic_view(b)),
        Value::Dict(entries) => ValueV::Dict(
            Seq::new(entries@.len(), |i: int| (entries@[i].0@, basic_view(entries@[i].1))),
        ),
    }
}

/// The models of a sequence of `Value`s.
pub open spec fn vals_view(s: Seq<Value>) -> Seq<ValueV> {
    s.map_values(|v: Value| value_view(v))
}

impl Basic {
    /// A copy denoting the same model.
    pub fn dup(&self) -> (r: Basic)
        ensures
            basic_view(r) == basic_view(*self),
    {
        match self {
            Basic::Str(s) => Basic::Str(s.clone()),
            Basic::I32(i) => Basic::I32(*i),
            Basic::Bool(b) => Basic::Bool(*b),
        }
    }
}

/// The kind of a structured dispatch error.
#[derive(PartialEq, Eq, Structural, Clone, Copy, Debug)]
pub enum ErrKind {
    NoSuchInterface,
    NoSuchMethod,
    NoSuchProperty,
    PropertyNotReadable,
    PropertyNotWritable,
    /// The argument at this position is missing or has the wrong type.
    InvalidArgument(usize),
}

/// A structured error from dispatch: never a fault, always reportable as a
/// protocol-level error name plus a human-readable description.
pub struct MethodErr {
    pub kind: ErrKind,
    pub detail: String,
}

impl MethodErr {
    /// The protocol-level error name for this error kind.
    pub fn errorname(&self) -> (r: &'static str)
        ensures
            r@ == spec_errorname(self.kind),
    {
        match self.kind {
            ErrKind::NoSuchInterface => "org.freedesktop.DBus.Error.UnknownInterface",
            ErrKind::NoSuchMethod => "org.freedesktop.DBus.Error.UnknownMethod",
            ErrKind::NoSuchProperty => "org.freedesktop.DBus.Error.UnknownProperty",
            ErrKind::PropertyNotReadable => "org.freedesktop.DBus.Error.AccessDenied",
            ErrKind::PropertyNotWritable => "org.freedesktop.DBus.Error.AccessDenied",
            ErrKind::InvalidArgument(_) => "org.freedesktop.DBus.Error.InvalidArgs",
        }
    }

    /// A human-readable description of the error.
    pub fn description(&self) -> (r: String)
        ensures
            r@ == spec_description(self.kind, self.detail@),
    {
        let mut out = String::new();
        match self.kind {
            ErrKind::NoSuchInterface => {
                out.append("Unknown interface ");
            },
            ErrKind::NoSuchMethod => {
                out.append("Unknown method ");
            },
            ErrKind::NoSuchProperty => {
                out.append("Unknown property ");
            },
            ErrKind::PropertyNotReadable => {
                out.append("Property not readable ");
            },
            ErrKind::PropertyNotWritable => {
                out.append("Property not writable ");
            },
            ErrKind::InvalidArgument(_) => {
                out.append("Invalid argument ");
            },
        }
        out.append(self.detail.as_str());
        out
    }
}

/// The fixed descriptive prefix for each error kind.
pub open spec fn spec_err_prefix(k: ErrKind) -> Seq<char> {
    match k {
        ErrKind::NoSuchInterface => "Unknown interface "@,
        ErrKind::NoSuchMethod => "Unknown method "@,
        ErrKind::NoSuchProperty => "Unknown property "@,
        ErrKind::PropertyNotReadable => "Property not readable "@,
        ErrKind::PropertyNotWritable => "Property not writable "@,
        ErrKind::InvalidArgument(_) => "Invalid argument "@,
    }
}

/// The protocol-level error name for each error kind.
pub open spec fn spec_errorname(k: ErrKind) -> Seq<char> {
    match k {
        ErrKind::NoSuchInterface => "org.freedesktop.DBus.Error.UnknownInterface"@,
        ErrKind::NoSuchMethod => "org.freedesktop.DBus.Error.UnknownMethod"@,
        ErrKind::NoSuchProperty => "org.freedesktop.DBus.Error.UnknownProperty"@,
        ErrKind::PropertyNotReadable => "org.freedesktop.DBus.Error.AccessDenied"@,
        ErrKind::PropertyNotWritable => "org.freedesktop.DBus.Error.AccessDenied"@,
        ErrKind::InvalidArgument(_) => "org.freedesktop.DBus.Error.InvalidArgs"@,
    }
}

/// The description an error renders: its fixed prefix, then its detail.
pub open spec fn spec_description(k: ErrKind, detail: Seq<char>) -> Seq<char> {
    spec_err_prefix(k) + detail
}

/// A protocol message, modeled as plain values; wire encoding is out of scope.
pub struct Message {
    pub msg_type: MessageType,
    pub path: Option<String>,
    pub interface: Option<String>,
    pub member: Option<String>,
    pub error_name: Option<String>,
    pub args: Vec<Value>,
}

impl Message {
    /// A method-call message addressed to `path`, `interface`, `member`.
    pub fn method_call(path: String, interface: String, member: String) -> (r: Message)
        ensures
            r.msg_type == MessageType::MethodCall,
            r.path == Some(path),
            r.interface == Some(interface),
            r.member == Some(member),
            r.error_name is None,
            r.args@ == Seq::<Value>::empty(),
    {
        Message {
            msg_type: MessageType::MethodCall,
            path: Some(path),
            interface: Some(interface),
            member: Some(member),
            error_name: None,
            args: Vec::new(),
        }
    }

    /// A signal message originating at `path`, `interface`, `member`.
    pub fn signal(path: String, interface: String, member: String) -> (r: Message)
        ensures
            r.msg_type == MessageType::Signal,
            r.path == Some(path),
            r.interface == Some(interface),
            r.member == Some(member),
            r.error_name is None,
            r.args@ == Seq::<Value>::empty(),
    {
        Message {
            msg_type: MessageType::Signal,
            path: Some(path),
            interface: Some(interface),
            member: Some(member),
            error_name: None,
            args: Vec::new(),
        }
    }

    /// The empty success reply to this message.
    pub fn method_return(&self) -> (r: Message)
        ensures
            r.msg_type == MessageType::MethodReturn,
            r.path is None,
            r.interface is None,
            r.member is None,
            r.error_name is None,
            r.args@ == Seq::<Value>::empty(),
    {
        Message {
            msg_type: MessageType::MethodReturn,
            path: None,
            interface: None,
            member: None,
            error_name: None,
            args: Vec::new(),
        }
    }

    /// An error reply to this message carrying an error name and a text.
    pub fn error(&self, name: &str, text: String) -> (r: Message)
        ensures
            r.msg_type == MessageType::Error,
            r.path is None,
            r.interface is None,
            r.member is None,
            r.error_name matches Some(n) && n@ == name@,
            vals_view(r.args@) == seq![ValueV::Basic(BasicV::Str(text@))],
    {
        let mut args: Vec<Value> = Vec::new();
        let ghost t = text@;
        args.push(Value::Basic(Basic::Str(text)));
        let r = Message {
            msg_type: MessageType::Error,
            path: None,
            interface: None,
            member: None,
            error_name: Some(name.to_owned()),
            args,
        };
        proof {
            assert(vals_view(r.args@) =~= seq![ValueV::Basic(BasicV::Str(t))]);
        }
        r
    }

    /// This message extended with one more argument (builder style).
    pub fn append1(self, a: Value) -> (r: Message)
        ensures
            r.msg_type == self.msg_type,
            r.path == self.path,
            r.interface == self.interface,
            r.member == self.member,
            r.error_name == self.error_name,
            r.args@ == self.args@.push(a),
    {
        let mut m = self;
        m.args.push(a);
        m
    }
}

/// A transport event, as a pull source of inbound traffic hands them out.
pub enum ConnectionItem {
    /// The transport saw no traffic in this pull.
    Nothing,
    /// An inbound method-call message.
    MethodCall(Message),
    /// An inbound signal message.
    Signal(Message),
}

} // verus!
