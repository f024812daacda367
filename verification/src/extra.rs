//! What a model, a typed dict or a function does with input entries that it does not declare.
use vstd::prelude::*;
use crate::lookup::str_eq;

verus! {

#[derive(Debug, PartialEq, Eq, Structural, Clone, Copy)]
pub enum ExtraBehavior {
    /// Extra entries are kept (and validated by the extras validator, where there is one).
    Allow,
    /// Extra entries are left out.
    Ignore,
    /// Extra entries are errors.
    Forbid,
}

impl ExtraBehavior {
    /// Reads the behavior from the schema's `extra_behavior` value.
    pub fn from_str(s: &str) -> (r: Result<ExtraBehavior, String>)
        ensures
            s@ == "allow"@ ==> r == Ok::<ExtraBehavior, String>(ExtraBehavior::Allow),
            s@ == "ignore"@ ==> r == Ok::<ExtraBehavior, String>(ExtraBehavior::Ignore),
            s@ == "forbid"@ ==> r == Ok::<ExtraBehavior, String>(ExtraBehavior::Forbid),
            s@ != "allow"@ && s@ != "ignore"@ && s@ != "forbid"@ ==> (r matches Err(m) && m@ == "Invalid extra_behavior: \""@
                + s@ + "\""@),
    {
        proof {
            reveal_strlit("allow");
            reveal_strlit("ignore");
            reveal_strlit("forbid");
            assert("allow"@[0] == 'a' && "ignore"@[0] == 'i' && "forbid"@[0] == 'f');
        }
        if str_eq(s, "allow") {
            Ok(ExtraBehavior::Allow)
        } else if str_eq(s, "ignore") {
            Ok(ExtraBehavior::Ignore)
        } else if str_eq(s, "forbid") {
            Ok(ExtraBehavior::Forbid)
        } else {
            let mut m = String::from_str("Invalid extra_behavior: \"");
            m.append(s);
            m.append("\"");
            Err(m)
        }
    }
}

} // verus!
