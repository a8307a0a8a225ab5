use vstd::prelude::*;

verus! {

/// The type of the values carried by an input symbol
#[derive(Clone, Copy, PartialEq, Eq, Debug, Structural)]
pub enum ScriptTypeDescription {
    Bool,
    I32,
    U32,
    I64,
    U64,
}

/// A value carried by a script stream, tagged with its type
#[derive(Clone, Copy, PartialEq, Eq, Debug, Structural)]
pub enum ScriptValue {
    Bool(bool),
    I32(i32),
    U32(u32),
    I64(i64),
    U64(u64),
}

impl ScriptValue {
    /// The type of this value
    pub open spec fn type_spec(self) -> ScriptTypeDescription {
        match self {
            ScriptValue::Bool(_) => ScriptTypeDescription::Bool,
            ScriptValue::I32(_) => ScriptTypeDescription::I32,
            ScriptValue::U32(_) => ScriptTypeDescription::U32,
            ScriptValue::I64(_) => ScriptTypeDescription::I64,
            ScriptValue::U64(_) => ScriptTypeDescription::U64,
        }
    }

    /// The type of this value
    pub fn script_type(&self) -> (r: ScriptTypeDescription)
        ensures
            r == self.type_spec(),
    {
        match self {
            ScriptValue::Bool(_) => ScriptTypeDescription::Bool,
            ScriptValue::I32(_) => ScriptTypeDescription::I32,
            ScriptValue::U32(_) => ScriptTypeDescription::U32,
            ScriptValue::I64(_) => ScriptTypeDescription::I64,
            ScriptValue::U64(_) => ScriptTypeDescription::U64,
        }
    }
}

/// Rust types that can be used as the values of a script stream
pub trait ScriptType: Sized {
    /// The description of this type
    spec fn type_spec() -> ScriptTypeDescription;

    /// Creates or retrieves a description for this type
    fn description() -> (r: ScriptTypeDescription)
        ensures
            r == Self::type_spec(),
    ;

    /// Tags a value with its type
    fn into_value(self) -> (r: ScriptValue)
        ensures
            r.type_spec() == Self::type_spec(),
    ;

    /// The value inside `v`, if `v` has this type
    fn from_value(v: ScriptValue) -> (r: Option<Self>)
        ensures
            r is Some <==> v.type_spec() == Self::type_spec(),
    ;
}

impl ScriptType for bool {
    open spec fn type_spec() -> ScriptTypeDescription {
        ScriptTypeDescription::Bool
    }

    fn description() -> (r: ScriptTypeDescription) {
        ScriptTypeDescription::Bool
    }

    fn into_value(self) -> (r: ScriptValue) {
        ScriptValue::Bool(self)
    }

    fn from_value(v: ScriptValue) -> (r: Option<bool>) {
        match v {
            ScriptValue::Bool(x) => Some(x),
            _ => None,
        }
    }
}

impl ScriptType for i32 {
    open spec fn type_spec() -> ScriptTypeDescription {
        ScriptTypeDescription::I32
    }

    fn description() -> (r: ScriptTypeDescription) {
        ScriptTypeDescription::I32
    }

    fn into_value(self) -> (r: ScriptValue) {
        ScriptValue::I32(self)
    }

    fn from_value(v: ScriptValue) -> (r: Option<i32>) {
        match v {
            ScriptValue::I32(x) => Some(x),
            _ => None,
        }
    }
}

impl ScriptType for u32 {
    open spec fn type_spec() -> ScriptTypeDescription {
        ScriptTypeDescription::U32
    }

    fn description() -> (r: ScriptTypeDescription) {
        ScriptTypeDescription::U32
    }

    fn into_value(self) -> (r: ScriptValue) {
        ScriptValue::U32(self)
    }

    fn from_value(v: ScriptValue) -> (r: Option<u32>) {
        match v {
            ScriptValue::U32(x) => Some(x),
            _ => None,
        }
    }
}

impl ScriptType for i64 {
    open spec fn type_spec() -> ScriptTypeDescription {
        ScriptTypeDescription::I64
    }

    fn description() -> (r: ScriptTypeDescription) {
        ScriptTypeDescription::I64
    }

    fn into_value(self) -> (r: ScriptValue) {
        ScriptValue::I64(self)
    }

    fn from_value(v: ScriptValue) -> (r: Option<i64>) {
        match v {
            ScriptValue::I64(x) => Some(x),
            _ => None,
        }
    }
}

impl ScriptType for u64 {
    open spec fn type_spec() -> ScriptTypeDescription {
        ScriptTypeDescription::U64
    }

    fn description() -> (r: ScriptTypeDescription) {
        ScriptTypeDescription::U64
    }

    fn into_value(self) -> (r: ScriptValue) {
        ScriptValue::U64(self)
    }

    fn from_value(v: ScriptValue) -> (r: Option<u64>) {
        match v {
            ScriptValue::U64(x) => Some(x),
            _ => None,
        }
    }
}

impl ScriptTypeDescription {
    /// True if this script type matches the specified type
    pub fn is<T: ScriptType>(&self) -> (r: bool)
        ensures
            r == (*self == T::type_spec()),
    {
        *self == T::description()
    }
}

} // verus!
