//! Builder of the body pieces for a generated child-property accessor.

use vstd::prelude::*;
use crate::chunk::{Chunk, ReturnValueInfo};

verus! {

/// Accumulates the facts one child-property accessor is generated from.
#[derive(Default, Debug)]
pub struct Builder {
    name: String,
    rust_name: String,
    is_get: bool,
    default_value: String,
    type_string: String,
}

/// The mathematical value of a builder.
pub struct BuilderModel {
    pub name: Seq<char>,
    pub rust_name: Seq<char>,
    pub is_get: bool,
    pub default_value: Seq<char>,
    pub type_string: Seq<char>,
}

impl View for Builder {
    type V = BuilderModel;

    closed spec fn view(&self) -> BuilderModel {
        BuilderModel {
            name: self.name@,
            rust_name: self.rust_name@,
            is_get: self.is_get,
            default_value: self.default_value@,
            type_string: self.type_string@,
        }
    }
}

/// A literal piece holding exactly this text.
pub open spec fn is_custom(c: Chunk, text: Seq<char>) -> bool {
    c matches Chunk::Custom(s) && s@ == text
}

/// The call piece shared by both accessors: the foreign call, wrapped in a
/// result conversion, with its four arguments.
pub open spec fn is_property_call(c: Chunk, callee: Seq<char>, last_param: Seq<char>, b: BuilderModel) -> bool {
    c matches Chunk::FfiCallConversion { ret, call } && !ret.commented && (*call matches
        Chunk::FfiCall { name, params } && name@ == callee && params@.len() == 4 && is_custom(
        params@[0],
        "self.to_glib_none().0"@,
    ) && is_custom(params@[1], "item.to_glib_none().0"@) && is_custom(
        params@[2],
        "\""@ + b.name + "\".to_glib_none().0"@,
    ) && is_custom(params@[3], last_param))
}

/// The pieces of a property getter: a defaulted value binding, the unsafe
/// foreign call, and the typed read-back of the value.
pub open spec fn get_chunks_spec(chunks: Seq<Chunk>, b: BuilderModel) -> bool {
    &&& chunks.len() == 3
    &&& (chunks[0] matches Chunk::Let { name, is_mut, value, type_ } && name@ == "value"@
        && is_mut && type_ is None && is_custom(
        *value,
        "Value::from(&"@ + b.default_value + ")"@,
    ))
    &&& (chunks[1] matches Chunk::Unsafe(body) && body@.len() == 1 && is_property_call(
        body@[0],
        "gtk_container_child_get_property"@,
        "value.to_glib_none_mut().0"@,
        b,
    ))
    &&& is_custom(chunks[2], "value.get::<"@ + b.type_string + ">().unwrap()"@)
}

/// The pieces of a property setter: the unsafe foreign call alone.
pub open spec fn set_chunks_spec(chunks: Seq<Chunk>, b: BuilderModel) -> bool {
    &&& chunks.len() == 1
    &&& (chunks[0] matches Chunk::Unsafe(body) && body@.len() == 1 && is_property_call(
        body@[0],
        "gtk_container_child_set_property"@,
        "Value::from(&"@ + b.rust_name + ").to_glib_none().0"@,
        b,
    ))
}

impl Builder {
    /// A fresh builder: every text empty, generating a setter.
    pub fn new() -> (r: Builder)
        ensures
            r@.name == Seq::<char>::empty(),
            r@.rust_name == Seq::<char>::empty(),
            !r@.is_get,
            r@.default_value == Seq::<char>::empty(),
            r@.type_string == Seq::<char>::empty(),
    {
        Builder {
            name: String::new(),
            rust_name: String::new(),
            is_get: false,
            default_value: String::new(),
            type_string: String::new(),
        }
    }

    /// Set the property's own name.
    pub fn name<'a>(&'a mut self, name: &str) -> (r: &'a mut Builder)
        ensures
            r@ == (BuilderModel { name: name@, ..old(self)@ }),
            *final(self) == *final(r),
    {
        self.name = name.to_owned();
        self
    }

    /// Set the generated accessor's own name.
    pub fn rust_name<'a>(&'a mut self, name: &str) -> (r: &'a mut Builder)
        ensures
            r@ == (BuilderModel { rust_name: name@, ..old(self)@ }),
            *final(self) == *final(r),
    {
        self.rust_name = name.to_owned();
        self
    }

    /// Choose between getter and setter.
    pub fn is_get<'a>(&'a mut self, value: bool) -> (r: &'a mut Builder)
        ensures
            r@ == (BuilderModel { is_get: value, ..old(self)@ }),
            *final(self) == *final(r),
    {
        self.is_get = value;
        self
    }

    /// Set the rendered default value a getter starts from.
    pub fn default_value<'a>(&'a mut self, value: &str) -> (r: &'a mut Builder)
        ensures
            r@ == (BuilderModel { default_value: value@, ..old(self)@ }),
            *final(self) == *final(r),
    {
        self.default_value = value.to_owned();
        self
    }

    /// Set the rendered type the value is read back as.
    pub fn type_string<'a>(&'a mut self, type_: &str) -> (r: &'a mut Builder)
        ensures
            r@ == (BuilderModel { type_string: type_@, ..old(self)@ }),
            *final(self) == *final(r),
    {
        self.type_string = type_.to_owned();
        self
    }

    /// Assemble the accessor's body pieces.
    pub fn generate(&self) -> (r: Chunk)
        ensures
            r matches Chunk::BlockHalf(chunks) && if self@.is_get {
                get_chunks_spec(chunks@, self@)
            } else {
                set_chunks_spec(chunks@, self@)
            },
    {
        let chunks = if self.is_get {
            self.chunks_for_get()
        } else {
            self.chunks_for_set()
        };
        Chunk::BlockHalf(chunks)
    }

    fn common_params(&self, last: String) -> (r: Vec<Chunk>)
        ensures
            r@.len() == 4,
            is_custom(r@[0], "self.to_glib_none().0"@),
            is_custom(r@[1], "item.to_glib_none().0"@),
            is_custom(r@[2], "\""@ + self@.name + "\".to_glib_none().0"@),
            is_custom(r@[3], last@),
    {
        let mut params: Vec<Chunk> = Vec::new();
        params.push(Chunk::Custom("self.to_glib_none().0".to_owned()));
        params.push(Chunk::Custom("item.to_glib_none().0".to_owned()));
        let mut quoted: String = "\"".to_owned();
        quoted.append(self.name.as_str());
        quoted.append("\".to_glib_none().0");
        params.push(Chunk::Custom(quoted));
        params.push(Chunk::Custom(last));
        params
    }

    fn chunks_for_get(&self) -> (r: Vec<Chunk>)
        ensures
            get_chunks_spec(r@, self@),
    {
        let params = self.common_params("value.to_glib_none_mut().0".to_owned());
        let return_info = ReturnValueInfo { commented: false };
        let ffi_call = Chunk::FfiCall {
            name: "gtk_container_child_get_property".to_owned(),
            params,
        };
        let mut body: Vec<Chunk> = Vec::new();
        body.push(Chunk::FfiCallConversion { ret: return_info, call: Box::new(ffi_call) });
        let unsafe_ = Chunk::Unsafe(body);

        let mut chunks: Vec<Chunk> = Vec::new();
        let mut default_text: String = "Value::from(&".to_owned();
        default_text.append(self.default_value.as_str());
        default_text.append(")");
        chunks.push(
            Chunk::Let {
                name: "value".to_owned(),
                is_mut: true,
                value: Box::new(Chunk::Custom(default_text)),
                type_: None,
            },
        );
        chunks.push(unsafe_);
        let mut read_back: String = "value.get::<".to_owned();
        read_back.append(self.type_string.as_str());
        read_back.append(">().unwrap()");
        chunks.push(Chunk::Custom(read_back));
        chunks
    }

    fn chunks_for_set(&self) -> (r: Vec<Chunk>)
        ensures
            set_chunks_spec(r@, self@),
    {
        let mut last: String = "Value::from(&".to_owned();
        last.append(self.rust_name.as_str());
        last.append(").to_glib_none().0");
        let params = self.common_params(last);
        let ffi_call = Chunk::FfiCall {
            name: "gtk_container_child_set_property".to_owned(),
            params,
        };
        let return_info = ReturnValueInfo { commented: false };
        let mut body: Vec<Chunk> = Vec::new();
        body.push(Chunk::FfiCallConversion { ret: return_info, call: Box::new(ffi_call) });
        let mut chunks: Vec<Chunk> = Vec::new();
        chunks.push(Chunk::Unsafe(body));
        chunks
    }
}

} // verus!
