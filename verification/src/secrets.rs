use vstd::prelude::*;
use vstd::string::StrSliceExecFns;
use vstd::string::StringExecFns;

verus! {

/// A stored secret as listed to the user: its name and identifier.
pub struct Secret {
    pub name: String,
    pub id: String,
}

/// A character a secret name may hold: ASCII letters, digits and the
/// underscore.
pub open spec fn spec_name_char(c: char) -> bool {
    (97 <= c as u32 && c as u32 <= 122) || (65 <= c as u32 && c as u32 <= 90) || (48 <= c as u32
        && c as u32 <= 57) || c == '_'
}

/// A valid secret name: one to sixty-four characters, each a letter,
/// digit or underscore.
pub open spec fn spec_valid_secret_name(s: Seq<char>) -> bool {
    1 <= s.len() <= 64 && forall|i: int| 0 <= i < s.len() ==> spec_name_char(s[i])
}

/// Checks a secret name against the naming rule; the message explains
/// the rule when the name breaks it.
pub fn validate_name(name: &str) -> (r: Result<(), String>)
    ensures
        r is Ok <==> spec_valid_secret_name(name@),
{
    let len = name.unicode_len();
    if len < 1 || len > 64 {
        return Err(
            "Invalid name. Secret names are limited to 64 characters in length, must be alphanumeric (with underscores) and are automatically uppercased.".to_owned(),
        );
    }
    let mut i: usize = 0;
    while i < len
        invariant
            i <= len,
            len == name@.len(),
            forall|j: int| 0 <= j < i ==> spec_name_char(name@[j]),
        decreases len - i,
    {
        let c = name.get_char(i);
        let u = c as u32;
        let ok = (97 <= u && u <= 122) || (65 <= u && u <= 90) || (48 <= u && u <= 57) || c == '_';
        if !ok {
            return Err(
                "Invalid name. Secret names are limited to 64 characters in length, must be alphanumeric (with underscores) and are automatically uppercased.".to_owned(),
            );
        }
        i += 1;
    }
    Ok(())
}

/// One listing line of a secret: its name with the identifier in
/// parentheses.
pub open spec fn spec_secret_line(s: Secret) -> Seq<char> {
    " "@ + s.name@ + " ("@ + s.id@ + ")"@
}

/// Formats secrets for display, one line per secret, in order.
pub fn format_secrets(secrets: &Vec<Secret>) -> (r: Vec<String>)
    ensures
        r@.len() == secrets@.len(),
        forall|i: int| 0 <= i < r@.len() ==> r@[i]@ == spec_secret_line(secrets@[i]),
{
    let mut out: Vec<String> = Vec::new();
    let n = secrets.len();
    let mut i: usize = 0;
    while i < n
        invariant
            i <= n,
            n == secrets@.len(),
            out@.len() == i,
            forall|j: int| 0 <= j < i ==> out@[j]@ == spec_secret_line(secrets@[j]),
        decreases n - i,
    {
        let s = &secrets[i];
        let mut line = " ".to_owned();
        line.append(s.name.as_str());
        line.append(" (");
        line.append(s.id.as_str());
        line.append(")");
        proof {
            assert(line@ =~= spec_secret_line(secrets@[i as int]));
        }
        out.push(line);
        i += 1;
    }
    out
}

} // verus!
