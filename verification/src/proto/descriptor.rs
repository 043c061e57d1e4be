//! The descriptor tree that the parser builds. Each descriptor borrows its
//! texts from the source and is viewed as the value of the grammar that it
//! stands for.

use vstd::prelude::*;
use super::grammar::{Field, File, Label, Message, Method, Service, Syntax, Type};

verus! {

/// A parsed file: its syntax version, messages and services, each list in
/// the order of the source.
#[derive(Debug, PartialEq, Clone)]
pub struct FileDescriptor<'a> {
    /// The name under which the caller knows the source; not read from it.
    pub name: &'a str,
    pub syntax: Option<SyntaxDescriptor<'a>>,
    pub messages: Vec<MessageDescriptor<'a>>,
    pub services: Vec<ServiceDescriptor<'a>>,
}

/// The declared syntax version of a file.
#[derive(Debug, PartialEq, Clone)]
pub enum SyntaxDescriptor<'a> {
    Proto2,
    Proto3,
    /// Any other version, by its text. The parser accepts the two versions
    /// above only and never produces this one.
    Unknown(&'a str),
}

/// A message: its name and its fields in the order of their declaration.
#[derive(Debug, PartialEq, Clone)]
pub struct MessageDescriptor<'a> {
    pub name: &'a str,
    pub fields: Vec<FieldDescriptor<'a>>,
}

/// One field of a message.
#[derive(Debug, PartialEq, Clone)]
pub struct FieldDescriptor<'a> {
    /// The qualifier in front of the field; `None` where there is none.
    pub label: Option<FieldDescriptorLabel<'a>>,
    pub typ: FieldDescriptorType<'a>,
    pub name: &'a str,
    /// The tag of the field.
    pub number: u32,
}

/// The qualifier in front of a field.
#[derive(Debug, PartialEq, Clone)]
pub enum FieldDescriptorLabel<'a> {
    Optional,
    Required,
    Repeated,
    /// Any other qualifier, by its text. The parser accepts the three
    /// keywords above only and never produces this one.
    Unknown(&'a str),
}

/// The type of a field: a string, or a message referred to by name.
#[derive(Debug, PartialEq, Clone)]
pub enum FieldDescriptorType<'a> {
    String,
    Message(&'a str),
}

/// A service: its name and its methods in the order of their declaration.
#[derive(Debug, PartialEq, Clone)]
pub struct ServiceDescriptor<'a> {
    pub name: &'a str,
    pub methods: Vec<MethodDescriptor<'a>>,
}

/// One method of a service.
#[derive(Debug, PartialEq, Clone)]
pub struct MethodDescriptor<'a> {
    pub name: &'a str,
    /// The name of the request type; it is not looked up.
    pub input_type: &'a str,
    /// The name of the response type; it is not looked up.
    pub output_type: &'a str,
    /// Whether `stream` stands before the request type.
    pub client_streaming: bool,
    /// Whether `stream` stands before the response type.
    pub server_streaming: bool,
}

impl<'a> DeepView for SyntaxDescriptor<'a> {
    type V = Syntax;

    open spec fn deep_view(&self) -> Syntax {
        match *self {
            SyntaxDescriptor::Proto2 => Syntax::Proto2,
            SyntaxDescriptor::Proto3 => Syntax::Proto3,
            SyntaxDescriptor::Unknown(text) => Syntax::Unknown(text@),
        }
    }
}

impl<'a> View for SyntaxDescriptor<'a> {
    type V = Syntax;

    open spec fn view(&self) -> Syntax {
        self.deep_view()
    }
}

impl<'a> DeepView for FieldDescriptorLabel<'a> {
    type V = Label;

    open spec fn deep_view(&self) -> Label {
        match *self {
            FieldDescriptorLabel::Optional => Label::Optional,
            FieldDescriptorLabel::Required => Label::Required,
            FieldDescriptorLabel::Repeated => Label::Repeated,
            FieldDescriptorLabel::Unknown(text) => Label::Unknown(text@),
        }
    }
}

impl<'a> View for FieldDescriptorLabel<'a> {
    type V = Label;

    open spec fn view(&self) -> Label {
        self.deep_view()
    }
}

impl<'a> DeepView for FieldDescriptorType<'a> {
    type V = Type;

    open spec fn deep_view(&self) -> Type {
        match *self {
            FieldDescriptorType::String => Type::String,
            FieldDescriptorType::Message(name) => Type::Message(name@),
        }
    }
}

impl<'a> View for FieldDescriptorType<'a> {
    type V = Type;

    open spec fn view(&self) -> Type {
        self.deep_view()
    }
}

impl<'a> DeepView for FieldDescriptor<'a> {
    type V = Field;

    open spec fn deep_view(&self) -> Field {
        Field {
            label: self.label.deep_view(),
            typ: self.typ.deep_view(),
            name: self.name@,
            number: self.number,
        }
    }
}

impl<'a> View for FieldDescriptor<'a> {
    type V = Field;

    open spec fn view(&self) -> Field {
        self.deep_view()
    }
}

impl<'a> DeepView for MessageDescriptor<'a> {
    type V = Message;

    open spec fn deep_view(&self) -> Message {
        Message { name: self.name@, fields: self.fields.deep_view() }
    }
}

impl<'a> View for MessageDescriptor<'a> {
    type V = Message;

    open spec fn view(&self) -> Message {
        self.deep_view()
    }
}

impl<'a> DeepView for MethodDescriptor<'a> {
    type V = Method;

    open spec fn deep_view(&self) -> Method {
        Method {
            name: self.name@,
            input_type: self.input_type@,
            output_type: self.output_type@,
            client_streaming: self.client_streaming,
            server_streaming: self.server_streaming,
        }
    }
}

impl<'a> View for MethodDescriptor<'a> {
    type V = Method;

    open spec fn view(&self) -> Method {
        self.deep_view()
    }
}

impl<'a> DeepView for ServiceDescriptor<'a> {
    type V = Service;

    open spec fn deep_view(&self) -> Service {
        Service { name: self.name@, methods: self.methods.deep_view() }
    }
}

impl<'a> View for ServiceDescriptor<'a> {
    type V = Service;

    open spec fn view(&self) -> Service {
        self.deep_view()
    }
}

impl<'a> DeepView for FileDescriptor<'a> {
    type V = File;

    open spec fn deep_view(&self) -> File {
        File {
            name: self.name@,
            syntax: self.syntax.deep_view(),
            messages: self.messages.deep_view(),
            services: self.services.deep_view(),
        }
    }
}

impl<'a> View for FileDescriptor<'a> {
    type V = File;

    open spec fn view(&self) -> File {
        self.deep_view()
    }
}

impl<'a> SyntaxDescriptor<'a> {
    /// The text under which the syntax version is written out: `proto2`,
    /// `proto3`, or the unknown text itself.
    pub fn as_str(&self) -> (text: &'a str)
        ensures
            text@ == (match self@ {
                Syntax::Proto2 => "proto2"@,
                Syntax::Proto3 => "proto3"@,
                Syntax::Unknown(unknown) => unknown,
            }),
    {
        match self {
            SyntaxDescriptor::Proto2 => "proto2",
            SyntaxDescriptor::Proto3 => "proto3",
            SyntaxDescriptor::Unknown(unknown) => unknown,
        }
    }
}

impl<'a> FieldDescriptorLabel<'a> {
    /// The text under which the label is written out: its keyword in lower
    /// case, or the unknown text itself.
    pub fn as_str(&self) -> (text: &'a str)
        ensures
            text@ == (match self@ {
                Label::Optional => "optional"@,
                Label::Required => "required"@,
                Label::Repeated => "repeated"@,
                Label::Unknown(unknown) => unknown,
            }),
    {
        match self {
            FieldDescriptorLabel::Optional => "optional",
            FieldDescriptorLabel::Required => "required",
            FieldDescriptorLabel::Repeated => "repeated",
            FieldDescriptorLabel::Unknown(unknown) => unknown,
        }
    }
}

impl<'a> FieldDescriptorType<'a> {
    /// The text under which the type is written out: `string`, or the name
    /// of the message.
    pub fn as_str(&self) -> (text: &'a str)
        ensures
            text@ == (match self@ {
                Type::String => "string"@,
                Type::Message(name) => name,
            }),
    {
        match self {
            FieldDescriptorType::String => "string",
            FieldDescriptorType::Message(name) => name,
        }
    }
}

} // verus!
