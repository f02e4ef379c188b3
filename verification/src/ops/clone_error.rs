use vstd::prelude::*;

use crate::value::ValueKind;
use vstd::string::StringExecFns;

verus! {

/// Why a value could not be cloned through reflection.
pub enum ReflectCloneError {
    /// The type does not support cloning.
    NotSupport { type_path: String },
    /// A field cannot be cloned.
    FieldNotCloneable { type_path: String, field: String, variant: Option<String> },
}

/// Why applying one value onto another failed.
pub enum ApplyError {
    /// The two values are of different kinds.
    MismatchedKinds { from_kind: ValueKind, to_kind: ValueKind },
}

impl ReflectCloneError {
    /// The text that describes the error.
    pub open spec fn spec_message(&self) -> Seq<char> {
        match self {
            ReflectCloneError::NotSupport { type_path } => "`reflect_clone` not support for `"@
                + type_path@ + "`"@,
            ReflectCloneError::FieldNotCloneable { type_path, field, variant } => match variant {
                Some(v) => "field `"@ + type_path@ + "::"@ + v@ + "::"@ + field@
                    + "` cannot be made cloneable for `reflect_clone`"@,
                None => "field `"@ + type_path@ + "::"@ + field@
                    + "` cannot be made cloneable for `reflect_clone`"@,
            },
        }
    }

    /// Describes the error.
    pub fn to_string(&self) -> (r: String)
        ensures
            r@ == self.spec_message(),
    {
        match self {
            ReflectCloneError::NotSupport { type_path } => {
                let mut s = String::from_str("`reflect_clone` not support for `");
                s.append(type_path.as_str());
                s.append("`");
                s
            },
            ReflectCloneError::FieldNotCloneable { type_path, field, variant } => {
                let mut s = String::from_str("field `");
                s.append(type_path.as_str());
                s.append("::");
                match variant {
                    Some(v) => {
                        s.append(v.as_str());
                        s.append("::");
                    },
                    None => {},
                }
                s.append(field.as_str());
                s.append("` cannot be made cloneable for `reflect_clone`");
                s
            },
        }
    }
}

} // verus!
