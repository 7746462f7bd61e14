//! Values read back from the front end's `settings.json`.

use vstd::prelude::*;

verus! {

/// The shape of one saved setting, as far as the library reads it.
pub enum SettingValue {
    /// A JSON string.
    Str(String),
    /// A JSON boolean.
    Bool(bool),
    /// A JSON array whose items are all strings.
    StrList(Vec<String>),
    /// Any other JSON value.
    Other,
}

/// The boolean a saved value holds, if it is one (`Value::as_bool`).
pub open spec fn setting_bool(v: Option<SettingValue>) -> Option<bool> {
    match v {
        Some(SettingValue::Bool(b)) => Some(b),
        _ => None,
    }
}

/// `Value::as_bool`, with `default` where the value is absent or not a boolean.
pub fn setting_bool_or(v: &Option<SettingValue>, default: bool) -> (b: bool)
    ensures
        b == match setting_bool(*v) {
            Some(x) => x,
            None => default,
        },
{
    match v {
        Some(SettingValue::Bool(x)) => *x,
        _ => default,
    }
}

} // verus!
