//! The output line for one converted request.

use vstd::prelude::*;
use vstd::string::*;
use crate::scale::spec_code;
use crate::scale::Scale;

verus! {

/// Builds the line `<value><source code> => <converted><target code>`,
/// for example `32F => 0C`, from the two already-rendered numbers.
pub fn format_line(value_text: &str, source: Scale, converted_text: &str, target: Scale) -> (r:
    String)
    ensures
        r@ == value_text@ + seq![spec_code(source)] + seq![' ', '=', '>', ' ']
            + converted_text@ + seq![spec_code(target)],
{
    let mut out = String::from_str(value_text);
    out.append(source.code_text());
    out.append(" => ");
    out.append(converted_text);
    out.append(target.code_text());
    proof {
        reveal_strlit(" => ");
        assert(" => "@ =~= seq![' ', '=', '>', ' ']);
        assert(out@ =~= value_text@ + seq![spec_code(source)] + seq![' ', '=', '>', ' ']
            + converted_text@ + seq![spec_code(target)]);
    }
    out
}

} // verus!
