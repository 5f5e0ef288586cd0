use vstd::prelude::*;
use vstd::string::{StrSliceExecFns, StringExecFns};

verus! {

/// The name of the assembly file for source file `s`: a trailing `.bf`
/// becomes `.asm`; a name without it gets `.asm` appended.
pub open spec fn asm_path_spec(s: Seq<char>) -> Seq<char> {
    if s.len() >= 3 && s.subrange(s.len() - 3, s.len() as int) == ".bf"@ {
        s.subrange(0, s.len() - 3) + ".asm"@
    } else {
        s + ".asm"@
    }
}

/// The name of the assembly file written for the source file `source_path`.
pub fn asm_path(source_path: &str) -> (r: String)
    ensures
        r@ == asm_path_spec(source_path@),
{
    proof {
        reveal_strlit(".bf");
    }
    let n = source_path.unicode_len();
    let has_suffix = n >= 3 && source_path.get_char(n - 3) == '.' && source_path.get_char(n - 2)
        == 'b' && source_path.get_char(n - 1) == 'f';
    proof {
        let s = source_path@;
        if n >= 3 {
            let t = s.subrange(n - 3, n as int);
            if has_suffix {
                assert(t =~= ".bf"@);
            } else {
                assert(t != ".bf"@ || t[0] != '.' || t[1] != 'b' || t[2] != 'f');
            }
        }
    }
    if has_suffix {
        let stem = source_path.substring_char(0, n - 3);
        String::from_str(stem).concat(".asm")
    } else {
        String::from_str(source_path).concat(".asm")
    }
}

} // verus!
