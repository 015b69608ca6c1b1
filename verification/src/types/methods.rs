//! The properties of a method of a type, which the type checker asks for
//! each method call.

use vstd::prelude::*;

use crate::ast::Identifier;
use vstd::string::StringExecFns;

use super::typedef::{CompileError, GlobalEnumTypeDef, MethodProps, TypeDef};

verus! {

/// The text of the error for a method asked of a global enum that is shown
/// as `shown`.
pub open spec fn enum_method_text(method: Seq<char>, shown: Seq<char>) -> Seq<char> {
    "Requested method '"@ + method + "', but Enum of "@ + shown + " has no methods"@
}

impl TypeDef {
    /// The properties of the named method of this type. Global enums and
    /// the verdict type have no methods. Every other type keeps its methods
    /// in a table of its own; those tables are not part of this library and
    /// `method_table` stands for them. `enum_text` gives the text by which a
    /// global enum is shown, which is kept with the enum's definition.
    pub fn get_props_for_method<F, D>(
        &self,
        method_name: &Identifier,
        method_table: F,
        enum_text: D,
    ) -> (res: Result<MethodProps, CompileError>) where
        F: Fn(&TypeDef, &Identifier) -> Result<MethodProps, CompileError>,
        D: Fn(GlobalEnumTypeDef) -> String,

        requires
            call_requires(method_table, (self, method_name)),
            forall|e: GlobalEnumTypeDef| call_requires(enum_text, (e,)),
        ensures
            match *self {
                TypeDef::GlobalEnum(e) => res matches Err(err) && exists|shown: String|
                    #[trigger] call_ensures(enum_text, (e,), shown) && err.message@
                        == enum_method_text(method_name.0@, shown@),
                TypeDef::AcceptReject(_) => res matches Err(err) && err.message@
                    == "AcceptReject type has no methods"@,
                _ => call_ensures(method_table, (self, method_name), res),
            },
    {
        match self {
            TypeDef::GlobalEnum(e) => {
                let shown = enum_text(*e);
                let mut message = String::from_str("Requested method '");
                message.append(method_name.0.as_str());
                message.append("', but Enum of ");
                message.append(shown.as_str());
                message.append(" has no methods");
                Err(CompileError { message })
            },
            TypeDef::AcceptReject(_) => Err(
                CompileError { message: String::from_str("AcceptReject type has no methods") },
            ),
            _ => method_table(self, method_name),
        }
    }
}

} // verus!
