//! Pure pieces of the signal-connector generation: the declaration text of
//! a connector and its generic bound. Writing the connector out, together
//! with the trampoline body, is the output side's work.

use vstd::prelude::*;

verus! {

/// The generic bound of a connector: the rendered closure type when the
/// trampoline could be analyzed, a fixed placeholder text otherwise.
pub open spec fn bounds_spec(function_type: Option<Seq<char>>) -> Seq<char> {
    match function_type {
        Some(t) => "F: "@ + t,
        None => "Unsupported or ignored types"@,
    }
}

/// The generic bound of a connector.
pub fn bounds(function_type: &Option<String>) -> (r: String)
    ensures
        r@ == bounds_spec(
            match function_type {
                Some(t) => Some(t@),
                None => None,
            },
        ),
{
    match function_type {
        Some(type_) => {
            let mut out: String = "F: ".to_owned();
            out.append(type_.as_str());
            out
        },
        None => "Unsupported or ignored types".to_owned(),
    }
}

/// The declaration of a connector: its name, the generic bound, the fixed
/// parameter list and the fixed handler-id result.
pub fn declaration(connect_name: &str, function_type: &Option<String>) -> (r: String)
    ensures
        r@ == "fn "@ + connect_name@ + "<"@ + bounds_spec(
            match function_type {
                Some(t) => Some(t@),
                None => None,
            },
        ) + ">(&self, f: F) -> SignalHandlerId"@,
{
    let mut out: String = "fn ".to_owned();
    out.append(connect_name);
    out.append("<");
    let b = bounds(function_type);
    out.append(b.as_str());
    out.append(">(&self, f: F) -> SignalHandlerId");
    out
}

} // verus!
